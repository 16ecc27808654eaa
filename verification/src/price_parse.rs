//! Verified decimal price parsing.
//!
//! The venue encodes prices as decimal strings. A price literal is a
//! nonempty run of ASCII digits, optionally followed by a dot and a
//! nonempty run of digits; fraction digits beyond the sixth are truncated
//! (the scalar holds millionths). Anything else — a sign, an exponent, a
//! space — is rejected, as is a value whose raw form does not fit `i64`.

use vstd::prelude::*;
use crate::fixed_point::{FixedPoint, FIXED_SCALE};

verus! {

pub open spec fn is_digit_byte(b: u8) -> bool {
    48 <= b <= 57
}

pub open spec fn all_digits(s: Seq<u8>) -> bool {
    forall|i: int| 0 <= i < s.len() ==> is_digit_byte(#[trigger] s[i])
}

/// Value of a digit run read as a base-10 numeral.
pub open spec fn digits_val(s: Seq<u8>) -> int
    decreases s.len(),
{
    if s.len() == 0 {
        0
    } else {
        digits_val(s.drop_last()) * 10 + (s.last() - 48)
    }
}

pub open spec fn pow10(n: nat) -> int
    decreases n,
{
    if n == 0 {
        1
    } else {
        10 * pow10((n - 1) as nat)
    }
}

/// Raw (millionths) contribution of a fraction-digit run: the first six
/// digits, padded out to six.
pub open spec fn frac_scaled(s: Seq<u8>) -> int {
    if s.len() >= 6 {
        digits_val(s.take(6))
    } else {
        digits_val(s) * pow10((6 - s.len()) as nat)
    }
}

/// The raw fixed-point value of a decimal literal, `None` when the bytes
/// are not one.
pub open spec fn decimal_raw(s: Seq<u8>) -> Option<int> {
    match s.index_of_first(46u8) {
        None => if s.len() >= 1 && all_digits(s) {
            Some(digits_val(s) * (FIXED_SCALE as int))
        } else {
            None
        },
        Some(i) => {
            let whole = s.take(i);
            let frac = s.skip(i + 1);
            if whole.len() >= 1 && frac.len() >= 1 && all_digits(whole) && all_digits(frac) {
                Some(digits_val(whole) * (FIXED_SCALE as int) + frac_scaled(frac))
            } else {
                None
            }
        },
    }
}

/// What `parse_price` returns: the decimal value when the bytes are a
/// literal and the raw value fits `i64`.
pub open spec fn parse_price_spec(s: Seq<u8>) -> Option<int> {
    match decimal_raw(s) {
        Some(v) => if v <= i64::MAX {
            Some(v)
        } else {
            None
        },
        None => None,
    }
}

pub proof fn lemma_all_digits_subrange(s: Seq<u8>, a: int, b: int)
    requires
        all_digits(s),
        0 <= a <= b <= s.len(),
    ensures
        all_digits(s.subrange(a, b)),
{
    assert forall|i: int| 0 <= i < s.subrange(a, b).len() implies is_digit_byte(
        #[trigger] s.subrange(a, b)[i],
    ) by {
        assert(s.subrange(a, b)[i] == s[a + i]);
    }
}

pub proof fn lemma_digits_val_nonneg(s: Seq<u8>)
    requires
        all_digits(s),
    ensures
        digits_val(s) >= 0,
    decreases s.len(),
{
    if s.len() > 0 {
        lemma_all_digits_subrange(s, 0, s.len() - 1);
        assert(s.drop_last() == s.subrange(0, s.len() - 1));
        lemma_digits_val_nonneg(s.drop_last());
    }
}

pub proof fn lemma_pow10_pos(n: nat)
    ensures
        pow10(n) >= 1,
    decreases n,
{
    if n > 0 {
        lemma_pow10_pos((n - 1) as nat);
    }
}

pub proof fn lemma_pow10_mono(a: nat, b: nat)
    requires
        a <= b,
    ensures
        pow10(a) <= pow10(b),
    decreases b,
{
    if a < b {
        lemma_pow10_mono(a, (b - 1) as nat);
        lemma_pow10_pos((b - 1) as nat);
    }
}

pub proof fn lemma_frac_scaled_nonneg(s: Seq<u8>)
    requires
        all_digits(s),
    ensures
        frac_scaled(s) >= 0,
{
    if s.len() >= 6 {
        lemma_all_digits_subrange(s, 0, 6);
        assert(s.take(6) == s.subrange(0, 6));
        lemma_digits_val_nonneg(s.take(6));
    } else {
        lemma_digits_val_nonneg(s);
        lemma_pow10_pos((6 - s.len()) as nat);
        assert(digits_val(s) * pow10((6 - s.len()) as nat) >= 0) by (nonlinear_arith)
            requires
                digits_val(s) >= 0,
                pow10((6 - s.len()) as nat) >= 1,
        ;
    }
}

/// Reading one more digit multiplies the prefix value by ten and adds it.
pub proof fn lemma_digits_val_step(s: Seq<u8>, j: int)
    requires
        0 <= j < s.len(),
    ensures
        digits_val(s.take(j + 1)) == digits_val(s.take(j)) * 10 + (s[j] - 48),
{
    assert(s.take(j + 1).drop_last() =~= s.take(j));
    assert(s.take(j + 1).last() == s[j]);
}

/// A prefix of a digit run never names more than the whole run.
pub proof fn lemma_digits_val_prefix_le(s: Seq<u8>, j: int)
    requires
        all_digits(s),
        0 <= j <= s.len(),
    ensures
        digits_val(s.take(j)) <= digits_val(s),
    decreases s.len() - j,
{
    if j < s.len() {
        lemma_digits_val_step(s, j);
        lemma_all_digits_subrange(s, 0, j);
        assert(s.take(j) == s.subrange(0, j));
        lemma_digits_val_nonneg(s.take(j));
        lemma_digits_val_prefix_le(s, j + 1);
    } else {
        assert(s.take(j) =~= s);
    }
}

/// When the digits of the whole part already name a value beyond
/// `i64::MAX`, the bytes have no in-range decimal value.
proof fn lemma_whole_overflow(s: Seq<u8>, j: int)
    requires
        0 <= j,
        match s.index_of_first(46u8) {
            Some(d) => j <= d,
            None => j <= s.len(),
        },
        digits_val(s.take(j)) > i64::MAX,
    ensures
        parse_price_spec(s) == None::<int>,
{
    let scale = FIXED_SCALE as int;
    match s.index_of_first(46u8) {
        None => {
            if s.len() >= 1 && all_digits(s) {
                lemma_digits_val_prefix_le(s, j);
                lemma_digits_val_nonneg(s);
                assert(digits_val(s) * scale >= digits_val(s)) by (nonlinear_arith)
                    requires
                        digits_val(s) >= 0,
                        scale == 1_000_000,
                ;
            }
        },
        Some(d) => {
            s.index_of_first_ensures(46u8);
            let whole = s.take(d);
            let frac = s.skip(d + 1);
            if whole.len() >= 1 && frac.len() >= 1 && all_digits(whole) && all_digits(frac) {
                assert(whole.take(j) =~= s.take(j));
                lemma_digits_val_prefix_le(whole, j);
                lemma_digits_val_nonneg(whole);
                lemma_frac_scaled_nonneg(frac);
                assert(digits_val(whole) * scale >= digits_val(whole)) by (nonlinear_arith)
                    requires
                        digits_val(whole) >= 0,
                        scale == 1_000_000,
                ;
            }
        },
    }
}

/// Parses a decimal price literal into a fixed-point scalar; rejects
/// malformed bytes and values whose raw form does not fit `i64`.
pub fn parse_price(bytes: &[u8]) -> (r: Option<FixedPoint>)
    ensures
        match r {
            Some(v) => parse_price_spec(bytes@) == Some(v.raw as int) && v.raw >= 0,
            None => parse_price_spec(bytes@) == None::<int>,
        },
{
    let n = bytes.len();
    let s = Ghost(bytes@);

    // Locate the first dot, if any.
    let mut dot: Option<usize> = None;
    let mut i: usize = 0;
    while i < n
        invariant
            s@ == bytes@,
            n == s@.len(),
            0 <= i <= n,
            match dot {
                Some(d) => d < i && s@[d as int] == 46u8 && forall|k: int|
                    0 <= k < d ==> s@[k] != 46u8,
                None => forall|k: int| 0 <= k < i ==> s@[k] != 46u8,
            },
        decreases n - i,
    {
        if dot.is_none() && bytes[i] == 46 {
            dot = Some(i);
        }
        i = i + 1;
    }
    proof {
        s@.index_of_first_ensures(46u8);
    }
    let ghost spec_dot = s@.index_of_first(46u8);
    proof {
        match dot {
            Some(d) => {
                assert(s@.contains(46u8));
                assert(spec_dot == Some(d as int));
            },
            None => {
                assert(spec_dot is Some ==> s@[spec_dot.unwrap()] == 46u8);
                assert(spec_dot == None::<int>);
            },
        }
    }

    // The whole part.
    let ip_end: usize = match dot {
        Some(d) => d,
        None => n,
    };
    if ip_end == 0 {
        return None;
    }
    let mut acc: i64 = 0;
    let mut i: usize = 0;
    while i < ip_end
        invariant
            s@ == bytes@,
            n == s@.len(),
            0 <= i <= ip_end <= n,
            match spec_dot {
                Some(d) => ip_end == d,
                None => ip_end == n,
            },
            spec_dot == s@.index_of_first(46u8),
            all_digits(s@.take(i as int)),
            acc == digits_val(s@.take(i as int)),
            acc >= 0,
        decreases ip_end - i,
    {
        let b = bytes[i];
        if b < 48 || b > 57 {
            proof {
                match spec_dot {
                    Some(d) => {
                        assert(!is_digit_byte(s@.take(d)[i as int]));
                    },
                    None => {
                        assert(!is_digit_byte(s@[i as int]));
                    },
                }
            }
            return None;
        }
        proof {
            lemma_digits_val_step(s@, i as int);
            assert(all_digits(s@.take(i + 1))) by {
                assert forall|k: int| 0 <= k < i + 1 implies is_digit_byte(
                    #[trigger] s@.take(i as int + 1)[k],
                ) by {
                    if k < i {
                        assert(s@.take(i as int + 1)[k] == s@.take(i as int)[k]);
                    }
                }
            }
        }
        let d = (b - 48) as i64;
        let acc10 = match acc.checked_mul(10) {
            Some(v) => v,
            None => {
                proof {
                    lemma_whole_overflow(s@, i as int + 1);
                }
                return None;
            },
        };
        let acc1 = match acc10.checked_add(d) {
            Some(v) => v,
            None => {
                proof {
                    lemma_whole_overflow(s@, i as int + 1);
                }
                return None;
            },
        };
        acc = acc1;
        i = i + 1;
    }
    let ghost whole = match spec_dot {
        Some(d) => s@.take(d),
        None => s@,
    };
    proof {
        match spec_dot {
            Some(d) => {
                assert(s@.take(ip_end as int) == whole);
            },
            None => {
                assert(s@.take(ip_end as int) =~= whole);
            },
        }
    }

    // The fraction part.
    let mut fr: i64 = 0;
    let ghost mut frac = Seq::<u8>::empty();
    if let Some(d) = dot {
        proof {
            frac = s@.skip(d + 1);
        }
        if d + 1 == n {
            proof {
                assert(frac.len() == 0);
            }
            return None;
        }
        let mut cnt: usize = 0;
        let mut i: usize = d + 1;
        while i < n
            invariant
                s@ == bytes@,
                n == s@.len(),
                d < n,
                frac == s@.skip(d as int + 1),
                spec_dot == s@.index_of_first(46u8),
                spec_dot == Some(d as int),
                d + 1 <= i <= n,
                cnt == if i - (d + 1) <= 6 {
                    (i - (d + 1)) as int
                } else {
                    6
                },
                all_digits(frac.take(i - (d + 1))),
                fr == digits_val(frac.take(cnt as int)),
                0 <= fr < pow10(cnt as nat),
                cnt <= 6,
            decreases n - i,
        {
            let b = bytes[i];
            let ghost fi = i - (d + 1);
            proof {
                assert(frac[fi as int] == s@[i as int]);
            }
            if b < 48 || b > 57 {
                proof {
                    assert(!is_digit_byte(frac.take(frac.len() as int)[fi as int]));
                    assert(frac.take(frac.len() as int) =~= frac);
                }
                return None;
            }
            proof {
                assert forall|k: int| 0 <= k < fi + 1 implies is_digit_byte(
                    #[trigger] frac.take(fi + 1)[k],
                ) by {
                    if k < fi {
                        assert(frac.take(fi + 1)[k] == frac.take(fi)[k]);
                    } else {
                        assert(frac.take(fi + 1)[k] == frac[fi]);
                    }
                }
            }
            if cnt < 6 {
                proof {
                    lemma_digits_val_step(frac, cnt as int);
                    lemma_pow10_mono((cnt + 1) as nat, 6);
                    reveal_with_fuel(pow10, 8);
                }
                fr = fr * 10 + (b - 48) as i64;
                cnt = cnt + 1;
            }
            i = i + 1;
        }
        proof {
            assert(all_digits(frac.take(frac.len() as int)));
            assert(frac.take(frac.len() as int) =~= frac);
        }
        // Pad a short fraction out to six digits.
        let ghost m = cnt as int;
        let ghost base = digits_val(frac.take(m));
        proof {
            assert(fr == base);
            assert(pow10((cnt - m) as nat) == 1);
            assert(base * 1 == base);
        }
        while cnt < 6
            invariant
                0 <= m <= cnt <= 6,
                base == digits_val(frac.take(m)),
                fr == base * pow10((cnt - m) as nat),
                0 <= fr < pow10(cnt as nat),
            decreases 6 - cnt,
        {
            proof {
                lemma_pow10_mono((cnt + 1) as nat, 6);
                reveal_with_fuel(pow10, 8);
                assert((base * pow10((cnt - m) as nat)) * 10 == base * pow10(
                    (cnt + 1 - m) as nat,
                )) by (nonlinear_arith)
                    requires
                        pow10((cnt + 1 - m) as nat) == 10 * pow10((cnt - m) as nat),
                ;
            }
            fr = fr * 10;
            cnt = cnt + 1;
        }
        proof {
            if frac.len() >= 6 {
                assert(m == 6);
                assert(fr == base);
                assert(pow10(0) == 1);
                assert(frac_scaled(frac) == digits_val(frac.take(6)));
            } else {
                assert(m == frac.len());
                assert(frac.take(m) =~= frac);
                assert(frac_scaled(frac) == digits_val(frac) * pow10((6 - frac.len()) as nat));
            }
            assert(fr == frac_scaled(frac));
        }
    }

    // Combine whole and fraction.
    proof {
        match spec_dot {
            Some(d) => {
                lemma_frac_scaled_nonneg(frac);
                assert(decimal_raw(s@) == Some(
                    digits_val(whole) * (FIXED_SCALE as int) + frac_scaled(frac),
                ));
            },
            None => {
                assert(decimal_raw(s@) == Some(digits_val(whole) * (FIXED_SCALE as int)));
                assert(fr == 0);
            },
        }
    }
    let scaled = match acc.checked_mul(FIXED_SCALE) {
        Some(v) => v,
        None => {
            proof {
                assert(acc * (FIXED_SCALE as int) > i64::MAX);
            }
            return None;
        },
    };
    let raw = match scaled.checked_add(fr) {
        Some(v) => v,
        None => {
            return None;
        },
    };
    Some(FixedPoint { raw })
}

} // verus!
