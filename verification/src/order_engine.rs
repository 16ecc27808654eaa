//! Cash and inventory state machine with pre-trade balance checks.
//!
//! A buy of `q` units at price `p` is accepted iff the cash balance covers
//! `q * p`; a sell of `q` units iff the base balance holds at least `q`
//! units. On success cash, base balance and inventory move together; on a
//! reject nothing changes. Balances never go negative.

use vstd::prelude::*;
use crate::fixed_point::{FixedPoint, FIXED_SCALE};

verus! {

/// A buy of `q` units at raw price `p` is accepted when cash covers it.
pub open spec fn buy_accepted(cash: int, q: int, p: int) -> bool {
    cash >= q * p
}

/// A sell of `q` units is accepted when the base balance holds `q` units.
pub open spec fn sell_accepted(base: int, q: int) -> bool {
    base >= q * (FIXED_SCALE as int)
}

/// Cash after an accepted buy of `q` units at raw price `p`.
pub open spec fn cash_after_buy(cash: int, q: int, p: int) -> int {
    cash - q * p
}

/// Base balance after an accepted buy of `q` units.
pub open spec fn base_after_buy(base: int, q: int) -> int {
    base + q * (FIXED_SCALE as int)
}

/// Cash after an accepted sell of `q` units at raw price `p`.
pub open spec fn cash_after_sell(cash: int, q: int, p: int) -> int {
    cash + q * p
}

/// Base balance after an accepted sell of `q` units.
pub open spec fn base_after_sell(base: int, q: int) -> int {
    base - q * (FIXED_SCALE as int)
}

/// Signed unit count of the strategy's position.
pub struct OrderEngine {
    pub inventory: i32,
}

impl OrderEngine {
    pub fn new() -> (r: Self)
        ensures
            r.inventory == 0,
    {
        OrderEngine { inventory: 0 }
    }

    pub fn inventory(&self) -> (r: i32)
        ensures
            r == self.inventory,
    {
        self.inventory
    }

    pub fn set_inventory(&mut self, value: i32)
        ensures
            final(self).inventory == value,
    {
        self.inventory = value;
    }

    /// Debits `quantity * price` from cash, credits `quantity` units to the
    /// base balance and to inventory; rejects without any change when cash
    /// does not cover the cost.
    pub fn execute_buy(
        &mut self,
        quantity: i32,
        price: FixedPoint,
        usd_balance: &mut FixedPoint,
        btc_balance: &mut FixedPoint,
    ) -> (accepted: bool)
        requires
            quantity >= 0,
            price.raw >= 0,
            old(usd_balance).raw >= 0,
            old(btc_balance).raw >= 0,
            quantity * price.raw <= i64::MAX,
            old(btc_balance).raw + quantity * FIXED_SCALE <= i64::MAX,
            old(self).inventory + quantity <= i32::MAX,
        ensures
            accepted == buy_accepted(old(usd_balance).raw as int, quantity as int, price.raw as int),
            accepted ==> final(usd_balance).raw == cash_after_buy(
                old(usd_balance).raw as int,
                quantity as int,
                price.raw as int,
            ),
            accepted ==> final(btc_balance).raw == base_after_buy(
                old(btc_balance).raw as int,
                quantity as int,
            ),
            accepted ==> final(self).inventory == old(self).inventory + quantity,
            !accepted ==> *final(usd_balance) == *old(usd_balance)
                && *final(btc_balance) == *old(btc_balance)
                && final(self).inventory == old(self).inventory,
            final(usd_balance).raw >= 0,
            final(btc_balance).raw >= 0,
            final(btc_balance).raw - old(btc_balance).raw
                == (final(self).inventory - old(self).inventory) * FIXED_SCALE,
    {
        let cost: i64 = (quantity as i64) * price.raw;
        if usd_balance.raw >= cost {
            self.inventory = self.inventory + quantity;
            *usd_balance = FixedPoint { raw: usd_balance.raw - cost };
            *btc_balance = FixedPoint { raw: btc_balance.raw + (quantity as i64) * FIXED_SCALE };
            true
        } else {
            false
        }
    }

    /// Credits `quantity * price` to cash, debits `quantity` units from the
    /// base balance and from inventory; rejects without any change when the
    /// base balance holds fewer than `quantity` units.
    pub fn execute_sell(
        &mut self,
        quantity: i32,
        price: FixedPoint,
        usd_balance: &mut FixedPoint,
        btc_balance: &mut FixedPoint,
    ) -> (accepted: bool)
        requires
            quantity >= 0,
            price.raw >= 0,
            old(usd_balance).raw >= 0,
            old(btc_balance).raw >= 0,
            quantity * price.raw <= i64::MAX,
            old(usd_balance).raw + quantity * price.raw <= i64::MAX,
            i32::MIN <= old(self).inventory - quantity,
        ensures
            accepted == sell_accepted(old(btc_balance).raw as int, quantity as int),
            accepted ==> final(usd_balance).raw == cash_after_sell(
                old(usd_balance).raw as int,
                quantity as int,
                price.raw as int,
            ),
            accepted ==> final(btc_balance).raw == base_after_sell(
                old(btc_balance).raw as int,
                quantity as int,
            ),
            accepted ==> final(self).inventory == old(self).inventory - quantity,
            !accepted ==> *final(usd_balance) == *old(usd_balance)
                && *final(btc_balance) == *old(btc_balance)
                && final(self).inventory == old(self).inventory,
            final(usd_balance).raw >= 0,
            final(btc_balance).raw >= 0,
            final(btc_balance).raw - old(btc_balance).raw
                == (final(self).inventory - old(self).inventory) * FIXED_SCALE,
    {
        let needed: i64 = (quantity as i64) * FIXED_SCALE;
        if btc_balance.raw >= needed {
            self.inventory = self.inventory - quantity;
            let proceeds: i64 = (quantity as i64) * price.raw;
            *usd_balance = FixedPoint { raw: usd_balance.raw + proceeds };
            *btc_balance = FixedPoint { raw: btc_balance.raw - needed };
            true
        } else {
            false
        }
    }
}

/// Balances stay nonnegative: from a nonnegative portfolio, every
/// accepted execution leaves cash and base nonnegative, so no sequence of
/// executions can drive either below zero.
pub proof fn lemma_balances_stay_nonnegative(cash: int, base: int, q: int, p: int)
    requires
        q >= 0,
        p >= 0,
        cash >= 0,
        base >= 0,
    ensures
        buy_accepted(cash, q, p) ==> cash_after_buy(cash, q, p) >= 0 && base_after_buy(base, q)
            >= 0,
        sell_accepted(base, q) ==> cash_after_sell(cash, q, p) >= 0 && base_after_sell(base, q)
            >= 0,
{
    assert(q * p >= 0) by (nonlinear_arith)
        requires
            q >= 0,
            p >= 0,
    ;
    assert(q * (FIXED_SCALE as int) >= 0) by (nonlinear_arith)
        requires
            q >= 0,
    ;
}

/// Conservation under a round-trip at one price: a buy of `q` units at raw
/// price `p` followed by a sell of `q` units at the same price is accepted
/// and restores cash and base balance exactly.
pub proof fn lemma_round_trip_conservation(cash: int, base: int, q: int, p: int)
    requires
        q >= 0,
        p >= 0,
        base >= 0,
        buy_accepted(cash, q, p),
    ensures
        sell_accepted(base_after_buy(base, q), q),
        cash_after_sell(cash_after_buy(cash, q, p), q, p) == cash,
        base_after_sell(base_after_buy(base, q), q) == base,
{
}

} // verus!
