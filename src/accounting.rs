use vstd::prelude::*;

use crate::pricing::{
    clamp, estimate_gas_to_fulfill, lockin_stake, sat_sub, spec_fulfill_gas, spec_lockin_stake,
    PricingConfig,
};
use crate::types::Order;

verus! {

/// Gas that fulfilling every order of `orders` would take.
pub open spec fn spec_pending_gas(cfg: PricingConfig, orders: Seq<Order>) -> int
    decreases orders.len(),
{
    if orders.len() == 0 {
        0
    } else {
        spec_pending_gas(cfg, orders.drop_last()) + spec_fulfill_gas(cfg, orders.last())
    }
}

/// Stake that locking every order of `orders` would commit.
pub open spec fn spec_pending_stake(orders: Seq<Order>) -> int
    decreases orders.len(),
{
    if orders.len() == 0 {
        0
    } else {
        spec_pending_stake(orders.drop_last()) + spec_lockin_stake(orders.last())
    }
}

proof fn lemma_pending_gas_nonneg(cfg: PricingConfig, orders: Seq<Order>)
    ensures
        spec_pending_gas(cfg, orders) >= 0,
    decreases orders.len(),
{
    if orders.len() > 0 {
        lemma_pending_gas_nonneg(cfg, orders.drop_last());
    }
}

proof fn lemma_pending_stake_nonneg(orders: Seq<Order>)
    ensures
        spec_pending_stake(orders) >= 0,
    decreases orders.len(),
{
    if orders.len() > 0 {
        lemma_pending_stake_nonneg(orders.drop_last());
    }
}

/// Gas to fulfill every committed order, at most the largest u128.
pub fn estimate_gas_to_fulfill_pending(cfg: &PricingConfig, committed: &Vec<Order>) -> (r: u128)
    ensures
        r as int == clamp(spec_pending_gas(*cfg, committed@), u128::MAX as int),
{
    let mut gas: u128 = 0;
    let mut i: usize = 0;
    while i < committed.len()
        invariant
            i <= committed.len(),
            gas as int == clamp(spec_pending_gas(*cfg, committed@.take(i as int)), u128::MAX as int),
        decreases committed.len() - i,
    {
        assert(committed@.take(i + 1).drop_last() =~= committed@.take(i as int));
        proof {
            lemma_pending_gas_nonneg(*cfg, committed@.take(i as int));
        }
        gas = gas.saturating_add(estimate_gas_to_fulfill(cfg, &committed[i]));
        i = i + 1;
    }
    assert(committed@.take(i as int) =~= committed@);
    gas
}

/// Stake that every committed order still to be locked holds back, at most the
/// largest u128.
pub fn estimate_stake_to_lock_pending(committed: &Vec<Order>) -> (r: u128)
    ensures
        r as int == clamp(spec_pending_stake(committed@), u128::MAX as int),
{
    let mut stake: u128 = 0;
    let mut i: usize = 0;
    while i < committed.len()
        invariant
            i <= committed.len(),
            stake as int == clamp(spec_pending_stake(committed@.take(i as int)), u128::MAX as int),
        decreases committed.len() - i,
    {
        assert(committed@.take(i + 1).drop_last() =~= committed@.take(i as int));
        proof {
            lemma_pending_stake_nonneg(committed@.take(i as int));
        }
        stake = stake.saturating_add(lockin_stake(&committed[i]));
        i = i + 1;
    }
    assert(committed@.take(i as int) =~= committed@);
    stake
}

/// Gas tokens reserved for `pending_gas` units of gas at `gas_price`, at most the
/// largest u128.
pub fn gas_balance_reserved(gas_price: u128, pending_gas: u128) -> (r: u128)
    ensures
        r as int == clamp(gas_price as int * pending_gas as int, u128::MAX as int),
{
    match gas_price.checked_mul(pending_gas) {
        Some(c) => c,
        None => u128::MAX,
    }
}

/// The balance left once `reserved` is set aside, zero when it does not cover it.
pub fn available_balance(balance: u128, reserved: u128) -> (r: u128)
    ensures
        r as int == sat_sub(balance as int, reserved as int),
{
    balance.saturating_sub(reserved)
}

} // verus!
