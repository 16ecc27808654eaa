//! Market snapshot fed by ticker and depth messages.
//!
//! A [`MarketDataFeed`] holds the last trade price, the best bid and ask,
//! and a bounded history of the most recent trade prices. The transport —
//! sockets, reconnect timers — lives outside the library; each received
//! message text is handed to [`MarketDataFeed::apply_ticker_message`] or
//! [`MarketDataFeed::apply_depth_message`], which extract the price
//! fields through `serde_json`, parse them with the verified decimal
//! parser, and update the snapshot. A message that does not parse, or
//! whose price falls outside the representable range, is dropped whole:
//! the depth handler never updates one side without the other.

use vstd::prelude::*;
use crate::fixed_point::{FixedPoint, FIXED_SCALE, div_trunc, raw_div_trunc, lemma_div_trunc_abs_le};
use crate::fpga_bridge::MAX_PRICE_RAW;
use crate::price_parse::{parse_price, parse_price_spec};

verus! {

/// Most recent trade prices kept, eldest evicted first.
pub const PRICE_HISTORY_CAP: usize = 1000;

/// The byte text of the last-price field (`"c"`) of a ticker message, as
/// `serde_json` reads it; `None` when the text is not a JSON object with
/// a string field `"c"`.
pub uninterp spec fn ticker_last_of(s: Seq<char>) -> Option<Seq<u8>>;

/// The byte texts of the first bid price and the first ask price of a
/// depth message, as `serde_json` reads them; `None` when either side is
/// missing or not a string.
pub uninterp spec fn depth_best_of(s: Seq<char>) -> Option<(Seq<u8>, Seq<u8>)>;

/// Relies on `serde_json::from_str` and `Value::{get, as_str}`: reads the
/// string field `"c"` of a JSON object, the ticker's last trade price.
#[verifier::external_body]
fn extract_ticker_last(text: &str) -> (r: Option<Vec<u8>>)
    ensures
        match r {
            Some(b) => ticker_last_of(text@) == Some(b@),
            None => ticker_last_of(text@) == None::<Seq<u8>>,
        },
{
    let v: serde_json::Value = match serde_json::from_str(text) {
        Ok(v) => v,
        Err(_) => return None,
    };
    let c = v.get("c")?.as_str()?;
    Some(c.as_bytes().to_vec())
}

/// Relies on `serde_json::from_str` and `Value::{get, as_array, as_str}`:
/// reads the first element of the first entry of the `"bids"` and `"asks"`
/// arrays of a depth message, the two best price strings.
#[verifier::external_body]
fn extract_depth_best(text: &str) -> (r: Option<(Vec<u8>, Vec<u8>)>)
    ensures
        match r {
            Some(p) => depth_best_of(text@) == Some((p.0@, p.1@)),
            None => depth_best_of(text@) == None::<(Seq<u8>, Seq<u8>)>,
        },
{
    let v: serde_json::Value = match serde_json::from_str(text) {
        Ok(v) => v,
        Err(_) => return None,
    };
    let bid = v.get("bids")?.as_array()?.first()?.get(0)?.as_str()?;
    let ask = v.get("asks")?.as_array()?.first()?.get(0)?.as_str()?;
    Some((bid.as_bytes().to_vec(), ask.as_bytes().to_vec()))
}

/// The raw price a ticker message carries, when its last-price field is
/// present, parses, and fits the price range.
pub open spec fn ticker_price_of(s: Seq<char>) -> Option<int> {
    match ticker_last_of(s) {
        Some(b) => match parse_price_spec(b) {
            Some(v) => if v <= MAX_PRICE_RAW {
                Some(v)
            } else {
                None
            },
            None => None,
        },
        None => None,
    }
}

/// The raw best bid and ask a depth message carries, when both price
/// fields are present, parse, and fit the price range.
pub open spec fn depth_prices_of(s: Seq<char>) -> Option<(int, int)> {
    match depth_best_of(s) {
        Some(p) => match parse_price_spec(p.0) {
            Some(b) => match parse_price_spec(p.1) {
                Some(a) => if b <= MAX_PRICE_RAW && a <= MAX_PRICE_RAW {
                    Some((b, a))
                } else {
                    None
                },
                None => None,
            },
            None => None,
        },
        None => None,
    }
}

/// History after recording one price: append, then evict the eldest when
/// the cap is passed.
pub open spec fn push_evict(h: Seq<i64>, p: i64) -> Seq<i64> {
    let pushed = h.push(p);
    if pushed.len() <= PRICE_HISTORY_CAP {
        pushed
    } else {
        pushed.skip(1)
    }
}

/// The raw liquidity factor for a best bid and ask: `1.0` while either
/// side is not yet live, else `20 / spread_bps` clamped to `[0.5, 2.0]`
/// (a zero spread counts as perfectly liquid).
pub open spec fn liquidity_factor_raw(bid: int, ask: int) -> int {
    if bid <= 0 || ask <= 0 {
        FIXED_SCALE as int
    } else {
        let mid2 = (bid + ask) / 2;
        let rel = div_trunc((ask - bid) * (FIXED_SCALE as int), mid2);
        let bps = rel * 10_000;
        if bps == 0 {
            2_000_000
        } else {
            let f = div_trunc(20_000_000 * (FIXED_SCALE as int), bps);
            if f < 500_000 {
                500_000
            } else if f > 2_000_000 {
                2_000_000
            } else {
                f
            }
        }
    }
}

/// Live market snapshot for one symbol.
pub struct MarketDataFeed {
    pub symbol: String,
    pub last_price: FixedPoint,
    pub best_bid: FixedPoint,
    pub best_ask: FixedPoint,
    pub price_history: Vec<i64>,
}

impl MarketDataFeed {
    /// Every price the snapshot holds is nonnegative and in range, and
    /// the history never outgrows its cap.
    pub open spec fn wf(&self) -> bool {
        &&& 0 <= self.last_price.raw <= MAX_PRICE_RAW
        &&& 0 <= self.best_bid.raw <= MAX_PRICE_RAW
        &&& 0 <= self.best_ask.raw <= MAX_PRICE_RAW
        &&& self.price_history@.len() <= PRICE_HISTORY_CAP
        &&& forall|i: int|
            0 <= i < self.price_history@.len() ==> 0 <= #[trigger] self.price_history@[i]
                <= MAX_PRICE_RAW
    }

    /// A fresh feed: no price is live yet.
    pub fn new(symbol: String) -> (r: Self)
        ensures
            r.wf(),
            r.last_price.raw == 0,
            r.best_bid.raw == 0,
            r.best_ask.raw == 0,
            r.price_history@ == Seq::<i64>::empty(),
            r.symbol@ == symbol@,
    {
        MarketDataFeed {
            symbol,
            last_price: FixedPoint { raw: 0 },
            best_bid: FixedPoint { raw: 0 },
            best_ask: FixedPoint { raw: 0 },
            price_history: Vec::new(),
        }
    }

    pub fn current_price(&self) -> (r: FixedPoint)
        ensures
            r == self.last_price,
    {
        self.last_price
    }

    pub fn current_bid(&self) -> (r: FixedPoint)
        ensures
            r == self.best_bid,
    {
        self.best_bid
    }

    pub fn current_ask(&self) -> (r: FixedPoint)
        ensures
            r == self.best_ask,
    {
        self.best_ask
    }

    /// A copy of the price history, eldest first.
    pub fn history_snapshot(&self) -> (r: Vec<i64>)
        ensures
            r@ == self.price_history@,
    {
        let mut out: Vec<i64> = Vec::new();
        let mut i: usize = 0;
        while i < self.price_history.len()
            invariant
                0 <= i <= self.price_history@.len(),
                out@ == self.price_history@.take(i as int),
            decreases self.price_history@.len() - i,
        {
            out.push(self.price_history[i]);
            proof {
                assert(out@ =~= self.price_history@.take(i + 1));
            }
            i = i + 1;
        }
        proof {
            assert(self.price_history@.take(i as int) =~= self.price_history@);
        }
        out
    }

    /// Records one trade price: it becomes the last price and enters the
    /// history, evicting the eldest entry when the cap is passed.
    pub fn record_price(&mut self, price: FixedPoint)
        requires
            old(self).wf(),
            0 <= price.raw <= MAX_PRICE_RAW,
        ensures
            final(self).wf(),
            final(self).last_price == price,
            final(self).price_history@ == push_evict(old(self).price_history@, price.raw),
            final(self).price_history@.len() <= PRICE_HISTORY_CAP,
            final(self).best_bid == old(self).best_bid,
            final(self).best_ask == old(self).best_ask,
            final(self).symbol == old(self).symbol,
    {
        self.last_price = price;
        self.price_history.push(price.raw);
        if self.price_history.len() > PRICE_HISTORY_CAP {
            self.price_history.remove(0);
            proof {
                assert(self.price_history@ =~= push_evict(
                    old(self).price_history@,
                    price.raw,
                ));
            }
        }
    }

    /// Applies one ticker message: when it carries a well-formed in-range
    /// last price, records it; otherwise the snapshot is untouched.
    pub fn apply_ticker_message(&mut self, text: &str) -> (updated: bool)
        requires
            old(self).wf(),
        ensures
            final(self).wf(),
            match ticker_price_of(text@) {
                Some(p) => {
                    &&& updated
                    &&& final(self).last_price.raw == p
                    &&& final(self).price_history@ == push_evict(
                        old(self).price_history@,
                        p as i64,
                    )
                    &&& final(self).best_bid == old(self).best_bid
                    &&& final(self).best_ask == old(self).best_ask
                    &&& final(self).symbol == old(self).symbol
                },
                None => !updated && *final(self) == *old(self),
            },
    {
        let field = match extract_ticker_last(text) {
            Some(b) => b,
            None => return false,
        };
        let price = match parse_price(field.as_slice()) {
            Some(p) => p,
            None => return false,
        };
        if price.raw > MAX_PRICE_RAW {
            return false;
        }
        self.record_price(price);
        true
    }

    /// Applies one depth message: when both best prices are well-formed
    /// and in range, updates bid and ask together; otherwise neither
    /// moves.
    pub fn apply_depth_message(&mut self, text: &str) -> (updated: bool)
        requires
            old(self).wf(),
        ensures
            final(self).wf(),
            match depth_prices_of(text@) {
                Some(p) => {
                    &&& updated
                    &&& final(self).best_bid.raw == p.0
                    &&& final(self).best_ask.raw == p.1
                    &&& final(self).last_price == old(self).last_price
                    &&& final(self).price_history@ == old(self).price_history@
                    &&& final(self).symbol == old(self).symbol
                },
                None => !updated && *final(self) == *old(self),
            },
    {
        let pair = match extract_depth_best(text) {
            Some(p) => p,
            None => return false,
        };
        let bid = match parse_price(pair.0.as_slice()) {
            Some(p) => p,
            None => return false,
        };
        let ask = match parse_price(pair.1.as_slice()) {
            Some(p) => p,
            None => return false,
        };
        if bid.raw > MAX_PRICE_RAW || ask.raw > MAX_PRICE_RAW {
            return false;
        }
        self.best_bid = bid;
        self.best_ask = ask;
        true
    }

    /// The liquidity factor from the current best bid and ask; always in
    /// `[0.5, 2.0]`.
    pub fn liquidity_factor(&self) -> (r: FixedPoint)
        requires
            self.wf(),
        ensures
            r.raw == liquidity_factor_raw(self.best_bid.raw as int, self.best_ask.raw as int),
            500_000 <= r.raw <= 2_000_000,
    {
        let bid = self.best_bid.raw;
        let ask = self.best_ask.raw;
        if bid <= 0 || ask <= 0 {
            return FixedPoint { raw: FIXED_SCALE };
        }
        let mid2: i64 = raw_div_trunc(bid + ask, 2);
        let num: i128 = ((ask - bid) as i128) * 1_000_000i128;
        proof {
            lemma_div_trunc_abs_le(num as int, mid2 as int);
        }
        let rel: i128 = match num.checked_div(mid2 as i128) {
            Some(v) => v,
            None => 0,
        };
        let bps: i128 = rel * 10_000;
        if bps == 0 {
            return FixedPoint { raw: 2_000_000 };
        }
        proof {
            if bps >= 1 {
                lemma_div_trunc_abs_le(20_000_000_000_000, bps as int);
            } else {
                lemma_div_trunc_abs_le(20_000_000_000_000, bps * -1);
            }
        }
        let f: i128 = match (20_000_000_000_000i128).checked_div(bps) {
            Some(v) => v,
            None => 0,
        };
        let clamped: i128 = if f < 500_000 {
            500_000
        } else if f > 2_000_000 {
            2_000_000
        } else {
            f
        };
        FixedPoint { raw: clamped as i64 }
    }
}

} // verus!
