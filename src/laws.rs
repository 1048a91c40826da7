use vstd::prelude::*;

use crate::admission::{
    dedup_sound, dispatch_order, has_id, started, Dispatch,
    cancelled_tasks, lemma_keep_tasks, spared_tasks, spares, spec_settle, tasks_wf, ActiveTask,
    OrderStateChange, TaskEnd,
};
use crate::accounting::{spec_pending_gas, spec_pending_stake};
use crate::errors::OrderPickerErr;
use crate::types::OrderId;
use crate::pricing::{
    spec_fast_evaluate, spec_lock_expiration, spec_order_expiration, spec_proof_type_of,
    MIN_EXEC_LIMIT_CYCLES,
    clamp, cycles_for_reward, sat_sub, skip, spec_admission, spec_available_gas,
    spec_available_stake, spec_effective_expiration, spec_exec_limit, spec_gas_cost,
    spec_fulfill_gas, spec_lockin_stake, spec_stake_reward, spec_price_preflight, Admission, PreflightResult, PricingConfig,
    PricingEnv, PricingOutcome, SkipReason,
};
use crate::types::{FulfillmentType, Order};

verus! {

/// An order is locked only within the broker's means: whether the lock comes
/// from the fast path or after a preflight, its stake fits the stake available
/// when it was priced, its gas cost fits the gas available when it is emitted
/// (`env2` holds the readings of the recheck), and its expiry lies after the
/// time it was priced.
pub proof fn lock_within_balances(
    cfg: PricingConfig,
    o: Order,
    env: PricingEnv,
    locked: bool,
    fulfilled: bool,
    env2: PricingEnv,
    pr: PreflightResult,
)
    ensures
        spec_admission(cfg, o, env, locked, fulfilled) is Decided && spec_admission(
            cfg,
            o,
            env,
            locked,
            fulfilled,
        )->Decided_0 is Lock ==> {
            &&& spec_lockin_stake(o) <= spec_available_stake(env)
            &&& spec_gas_cost(cfg, o, env) <= spec_available_gas(env)
            &&& spec_admission(cfg, o, env, locked, fulfilled)->Decided_0->Lock_expiry_secs
                > env.now
        },
        spec_admission(cfg, o, env, locked, fulfilled) is Preflight && spec_price_preflight(
            cfg,
            o,
            env2,
            pr,
        ) is Ok && spec_price_preflight(cfg, o, env2, pr)->Ok_0 is Lock ==> {
            &&& spec_lockin_stake(o) <= spec_available_stake(env)
            &&& spec_gas_cost(cfg, o, env2) <= spec_available_gas(env2)
            &&& spec_price_preflight(cfg, o, env2, pr)->Ok_0->Lock_expiry_secs > env.now
        },
{
}

/// Admitting an order keeps the broker's commitments within its balances: when
/// the reserves in `env` are those of the `committed` orders, an order that is
/// not skipped adds its stake and its gas cost without the totals exceeding the
/// stake balance and the gas balance (an order that commits nothing changes
/// nothing).
pub proof fn commitments_within_balances(
    cfg: PricingConfig,
    o: Order,
    env: PricingEnv,
    locked: bool,
    fulfilled: bool,
    committed: Seq<Order>,
)
    requires
        env.reserved_stake == clamp(spec_pending_stake(committed), u128::MAX as int),
        env.reserved_gas == clamp(
            env.gas_price * clamp(spec_pending_gas(cfg, committed), u128::MAX as int),
            u128::MAX as int,
        ),
        !(spec_admission(cfg, o, env, locked, fulfilled) is Decided && spec_admission(
            cfg,
            o,
            env,
            locked,
            fulfilled,
        )->Decided_0 is Skip),
    ensures
        spec_lockin_stake(o) == 0 || spec_pending_stake(committed.push(o)) <= env.stake_balance,
        spec_gas_cost(cfg, o, env) == 0 || env.gas_price * spec_pending_gas(
            cfg,
            committed.push(o),
        ) <= env.gas_balance,
{
    let m = u128::MAX as int;
    assert(committed.push(o).drop_last() =~= committed);
    let ps = spec_pending_stake(committed);
    let pg = spec_pending_gas(cfg, committed);
    let gp = env.gas_price as int;
    let fg = spec_fulfill_gas(cfg, o);
    assert(spec_pending_stake(committed.push(o)) == ps + spec_lockin_stake(o));
    assert(spec_pending_gas(cfg, committed.push(o)) == pg + fg);
    assert(gp * (pg + fg) == gp * pg + gp * fg) by (nonlinear_arith);
    if spec_gas_cost(cfg, o, env) != 0 {
        assert(gp * fg > 0);
        assert(gp >= 1) by (nonlinear_arith)
            requires
                gp * fg > 0,
                gp >= 0,
        ;
        if pg > m {
            assert(gp * m >= m) by (nonlinear_arith)
                requires
                    gp >= 1,
                    m >= 0,
            ;
        }
    }
}

/// A pricing task ends in exactly one way: cancelled (and then nothing is
/// recorded), emitted, recorded as skipped, or handed to the supervisor after a
/// failed read (nothing recorded).
pub proof fn one_way_out(order: Order, priced: Option<Result<PricingOutcome, OrderPickerErr>>)
    ensures
        (spec_settle(order, priced) is Cancelled) == (priced is None),
        (spec_settle(order, priced) is Emit) == (priced is Some && priced->0 is Ok
            && !(priced->0->Ok_0 is Skip)),
        (spec_settle(order, priced) is Propagate) == (priced is Some && priced->0 is Err
            && priced->0->Err_0 is RpcErr),
        (spec_settle(order, priced) is RecordSkip) == (priced is Some && ((priced->0 is Err
            && !(priced->0->Err_0 is RpcErr)) || (priced->0 is Ok && priced->0->Ok_0 is Skip))),
{
}

/// Skip records are idempotent: two submissions of orders with the same
/// identity that are both skipped leave the same record.
pub proof fn skip_record_by_identity(
    o1: Order,
    r1: Result<PricingOutcome, OrderPickerErr>,
    o2: Order,
    r2: Result<PricingOutcome, OrderPickerErr>,
)
    requires
        o1.spec_id() == o2.spec_id(),
        spec_settle(o1, Some(r1)) is RecordSkip,
        spec_settle(o2, Some(r2)) is RecordSkip,
    ensures
        spec_settle(o1, Some(r1)) == spec_settle(o2, Some(r2)),
{
}

/// Two copies of an order taken one after the other, whose identity is neither
/// remembered by the cache nor in flight, get exactly one evaluation: the first
/// starts a task and the second is dropped as a duplicate.
pub proof fn identical_orders_evaluated_once(
    ds: Seq<Dispatch>,
    rem: Set<OrderId>,
    active: Seq<ActiveTask>,
    k: int,
)
    requires
        dedup_sound(ds, rem, active),
        0 <= k && k + 1 < ds.len(),
        dispatch_order(ds[k]).spec_id() == dispatch_order(ds[k + 1]).spec_id(),
        !rem.contains(dispatch_order(ds[k]).spec_id()),
        !has_id(active, dispatch_order(ds[k]).spec_id()),
        !has_id(started(ds.take(k)), dispatch_order(ds[k]).spec_id()),
    ensures
        ds[k] is Start,
        ds[k + 1] is Duplicate,
{
    let id = dispatch_order(ds[k]).spec_id();
    assert(ds.take(k + 1).drop_last() =~= ds.take(k));
    assert(ds.take(k + 1).last() == ds[k]);
    if ds[k] is Duplicate {
        assert(false);
    }
    let st = started(ds.take(k + 1));
    assert(st[st.len() - 1].order_id == id);
    if ds[k + 1] is Start {
        assert(has_id(st, id));
    }
}

/// At most one pricing task is in flight for an order identity, and a state
/// change keeps it that way.
pub proof fn one_task_per_identity(active: Seq<ActiveTask>, next: u64, ev: OrderStateChange)
    requires
        tasks_wf(active, next),
    ensures
        forall|i: int, j: int|
            0 <= i < active.len() && 0 <= j < active.len() && (#[trigger] active[i]).order_id == (
            #[trigger] active[j]).order_id ==> i == j,
        tasks_wf(spared_tasks(active, ev), next),
{
    lemma_keep_tasks(active, |t: ActiveTask| spares(ev, t.order_id), next);
}

/// A state change cancels exactly the in-flight tasks it preempts: every task
/// is either kept or cancelled, and after a lock the request's
/// `FulfillAfterLockExpire` tasks are kept.
pub proof fn preemption_partitions_tasks(active: Seq<ActiveTask>, ev: OrderStateChange)
    ensures
        forall|i: int|
            0 <= i < active.len() ==> (spares(ev, (#[trigger] active[i]).order_id) ==> spared_tasks(
                active,
                ev,
            ).contains(active[i])) && (!spares(ev, active[i].order_id) ==> cancelled_tasks(
                active,
                ev,
            ).contains(active[i])),
        forall|i: int|
            0 <= i < active.len() && ev is Locked && (#[trigger] active[i]).order_id.fulfillment_type
                == FulfillmentType::FulfillAfterLockExpire ==> spared_tasks(active, ev).contains(
                active[i],
            ),
{
    lemma_keep_tasks(active, |t: ActiveTask| spares(ev, t.order_id), 0);
    lemma_keep_tasks(active, |t: ActiveTask| !spares(ev, t.order_id), 0);
}

/// An order that passes every clause is emitted: pricing asks for a preflight
/// with the order's cycle ceiling, and a completed preflight within the journal
/// limit and the rechecked gas locks a `LockAndFulfill` order at once (target
/// zero, expiry at the lock expiration) or schedules a lock-expired order for
/// its lock expiration. In particular a window one second beyond
/// `min_deadline`, or stake that exactly covers the lock, does not stop it.
pub proof fn emission_when_all_clauses_pass(
    cfg: PricingConfig,
    o: Order,
    env: PricingEnv,
    locked: bool,
    fulfilled: bool,
    env2: PricingEnv,
    total_cycles: u64,
    journal_size: u64,
)
    requires
        spec_effective_expiration(o) > env.now + cfg.min_deadline,
        o.fulfillment_type == FulfillmentType::LockAndFulfill ==> !locked,
        o.fulfillment_type == FulfillmentType::FulfillAfterLockExpire ==> !fulfilled,
        match cfg.allow_client_addresses {
            Some(v) => v@.contains(o.request_id.client),
            None => true,
        },
        match cfg.deny_requestor_addresses {
            Some(v) => !v@.contains(o.request_id.client),
            None => true,
        },
        spec_proof_type_of(cfg.supported_selectors@, o.requirements.selector) is Some,
        spec_lockin_stake(o) <= cfg.max_stake,
        spec_lockin_stake(o) <= spec_available_stake(env),
        spec_gas_cost(cfg, o, env) <= spec_available_gas(env),
        o.fulfillment_type == FulfillmentType::LockAndFulfill ==> spec_gas_cost(cfg, o, env)
            <= o.offer.max_price,
        spec_exec_limit(cfg, o, env.now as int) >= MIN_EXEC_LIMIT_CYCLES,
        spec_fast_evaluate(cfg, o, env) is None,
        journal_size <= cfg.max_journal_bytes,
        spec_gas_cost(cfg, o, env2) <= spec_available_gas(env2),
    ensures
        spec_admission(cfg, o, env, locked, fulfilled) == (Admission::Preflight {
            exec_limit_cycles: spec_exec_limit(cfg, o, env.now as int) as u64,
        }),
        spec_price_preflight(
            cfg,
            o,
            env2,
            PreflightResult::Completed { total_cycles, journal_size },
        ) == Ok::<PricingOutcome, OrderPickerErr>(
            match o.fulfillment_type {
                FulfillmentType::LockAndFulfill => PricingOutcome::Lock {
                    total_cycles,
                    target_timestamp_secs: 0,
                    expiry_secs: spec_lock_expiration(o) as u64,
                },
                FulfillmentType::FulfillAfterLockExpire => PricingOutcome::ProveAfterLockExpire {
                    total_cycles,
                    lock_expire_timestamp_secs: spec_lock_expiration(o) as u64,
                    expiry_secs: spec_order_expiration(o) as u64,
                },
            },
        ),
{
}

/// An order whose window ends exactly `min_deadline` seconds from now is skipped.
pub proof fn skip_at_min_deadline(
    cfg: PricingConfig,
    o: Order,
    env: PricingEnv,
    locked: bool,
    fulfilled: bool,
)
    requires
        spec_effective_expiration(o) == env.now + cfg.min_deadline,
    ensures
        spec_admission(cfg, o, env, locked, fulfilled) is Decided,
        spec_admission(cfg, o, env, locked, fulfilled)->Decided_0 is Skip,
{
}

/// An order whose window ends one second beyond `min_deadline` passes the
/// liveness guard.
pub proof fn proceed_past_min_deadline(
    cfg: PricingConfig,
    o: Order,
    env: PricingEnv,
    locked: bool,
    fulfilled: bool,
)
    requires
        spec_effective_expiration(o) == env.now + cfg.min_deadline + 1,
    ensures
        spec_admission(cfg, o, env, locked, fulfilled) != skip(SkipReason::Expired),
        spec_admission(cfg, o, env, locked, fulfilled) != skip(SkipReason::WithinMinDeadline),
{
}

/// Stake that exactly covers the lock passes the stake check; one unit less
/// skips the order.
pub proof fn stake_boundary(
    cfg: PricingConfig,
    o: Order,
    env: PricingEnv,
    locked: bool,
    fulfilled: bool,
)
    ensures
        spec_available_stake(env) == spec_lockin_stake(o) ==> spec_admission(
            cfg,
            o,
            env,
            locked,
            fulfilled,
        ) != skip(SkipReason::InsufficientStake),
        spec_available_stake(env) == spec_lockin_stake(o) - 1 ==> spec_admission(
            cfg,
            o,
            env,
            locked,
            fulfilled,
        ) is Decided && spec_admission(cfg, o, env, locked, fulfilled)->Decided_0 is Skip,
{
}

/// An order whose maximum price buys zero cycles at the configured price is
/// skipped.
pub proof fn skip_when_price_buys_nothing(
    cfg: PricingConfig,
    o: Order,
    env: PricingEnv,
    locked: bool,
    fulfilled: bool,
)
    requires
        o.fulfillment_type == FulfillmentType::LockAndFulfill,
        cfg.mcycle_price > 0,
        o.offer.max_price * 1_000_000 / (cfg.mcycle_price as int) == 0,
    ensures
        spec_admission(cfg, o, env, locked, fulfilled) is Decided,
        spec_admission(cfg, o, env, locked, fulfilled)->Decided_0 is Skip,
{
    assert(cycles_for_reward(o.offer.max_price as int, cfg.mcycle_price as int) == 0);
    assert(spec_exec_limit(cfg, o, env.now as int) <= 0);
}

/// A lock-expired order whose stake reward buys zero cycles at the configured
/// stake-token price is skipped.
pub proof fn skip_when_stake_reward_buys_nothing(
    cfg: PricingConfig,
    o: Order,
    env: PricingEnv,
    locked: bool,
    fulfilled: bool,
)
    requires
        o.fulfillment_type == FulfillmentType::FulfillAfterLockExpire,
        cfg.mcycle_price_stake_token > 0,
        spec_stake_reward(o) * 1_000_000 / (cfg.mcycle_price_stake_token as int) == 0,
    ensures
        spec_admission(cfg, o, env, locked, fulfilled) is Decided,
        spec_admission(cfg, o, env, locked, fulfilled)->Decided_0 is Skip,
{
    assert(cycles_for_reward(spec_stake_reward(o), cfg.mcycle_price_stake_token as int) == 0);
    assert(spec_exec_limit(cfg, o, env.now as int) <= 0);
}

/// The gas reserve computed with saturating steps sets aside exactly what the
/// committed orders need: the balance left is the balance minus
/// `gas_price × pending_gas`, or zero.
pub proof fn saturated_reserve_is_exact(balance: u128, gas_price: u128, pending_gas: int)
    requires
        pending_gas >= 0,
    ensures
        sat_sub(
            balance as int,
            clamp(gas_price * clamp(pending_gas, u128::MAX as int), u128::MAX as int),
        ) == sat_sub(balance as int, gas_price * pending_gas),
{
    let m = u128::MAX as int;
    let p = gas_price as int;
    if pending_gas > m && p > 0 {
        assert(p * pending_gas >= pending_gas) by (nonlinear_arith)
            requires
                p >= 1,
                pending_gas >= 0,
        ;
        assert(p * m >= m) by (nonlinear_arith)
            requires
                p >= 1,
                m >= 0,
        ;
    }
    if p == 0 {
        assert(p * pending_gas == 0);
        assert(p * clamp(pending_gas, m) == 0);
    }
    if pending_gas <= m {
        assert(clamp(pending_gas, m) == pending_gas);
    }
}

} // verus!
