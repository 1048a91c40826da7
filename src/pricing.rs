use vstd::prelude::*;

use alloy_primitives::U256;

use crate::errors::OrderPickerErr;
use crate::types::{Address, FulfillmentType, Order};

verus! {

/// Cycles in one mcycle, the unit that prices are quoted in.
pub const ONE_MILLION: u128 = 1_000_000;

/// An order whose cycle ceiling comes out below this is not worth a preflight.
pub const MIN_EXEC_LIMIT_CYCLES: u64 = 2;

/// A prover that fulfills after an unfulfilled lock expires receives this
/// fraction (one over the divisor) of the locker's stake.
pub const STAKE_REWARD_DIVISOR: u128 = 4;

/// Cycle estimate used by the fast-lock path, which does not preflight.
pub const FAST_LOCK_MAX_CYCLES: u64 = 5_000_000_000;

/// The fast-lock path only takes orders whose stake is below this.
pub const FAST_LOCK_MAX_STAKE: u128 = 1000;

/// The fast-lock path only takes orders with at least this many seconds left.
pub const FAST_LOCK_MIN_DEADLINE: u64 = 300;

/// What kind of proof a selector asks for; Groth16 costs more gas to verify.
#[derive(Clone, Copy, Debug, PartialEq, Eq, Structural)]
pub enum ProofType {
    Inclusion,
    Groth16,
}

/// A selector that the broker can serve, with its proof type.
#[derive(Clone, Copy, Debug, PartialEq, Eq, Structural)]
pub struct SupportedSelector {
    pub selector: u32,
    pub proof_type: ProofType,
}

/// The configuration that pricing reads. Prices per mcycle are in the smallest
/// unit of their token; gas figures are in gas units.
#[derive(Clone, Debug)]
pub struct PricingConfig {
    /// Seconds; orders that expire within this margin are skipped.
    pub min_deadline: u64,
    /// Price per million cycles, in the gas token.
    pub mcycle_price: u128,
    /// Price per million cycles, in the stake token (lock-expired fulfillment).
    pub mcycle_price_stake_token: u128,
    /// Ceiling on the preflight cycle limit, in mcycles.
    pub max_mcycle_limit: Option<u64>,
    /// Proving rate in kHz, from which a deadline-based ceiling is derived.
    pub peak_prove_khz: Option<u64>,
    /// Largest journal, in bytes, that the broker accepts.
    pub max_journal_bytes: u64,
    /// Largest lock stake the broker accepts, in the stake token.
    pub max_stake: u128,
    /// Base gas to lock and fulfill an order.
    pub fulfill_gas_estimate: u64,
    /// Extra gas to verify a Groth16 proof.
    pub groth16_verify_gas_estimate: u64,
    /// Extra gas to verify a smart-contract signature.
    pub smart_contract_sig_verify_gas_estimate: u64,
    /// When set, only these clients are served.
    pub allow_client_addresses: Option<Vec<Address>>,
    /// When set, these clients are never served.
    pub deny_requestor_addresses: Option<Vec<Address>>,
    /// Clients whose orders bypass `max_mcycle_limit`.
    pub priority_requestor_addresses: Option<Vec<Address>>,
    /// The selectors the broker can serve.
    pub supported_selectors: Vec<SupportedSelector>,
    /// When set, orders whose maximum price reaches this are locked without a
    /// preflight, provided stake and gas suffice.
    pub fast_lock_min_price: Option<u128>,
}

/// Readings of the outside world for one evaluation, all taken once.
#[derive(Clone, Copy, Debug, PartialEq, Eq, Structural)]
pub struct PricingEnv {
    /// Current time, epoch seconds.
    pub now: u64,
    /// Current gas price.
    pub gas_price: u128,
    /// Gas-token balance of the signer.
    pub gas_balance: u128,
    /// Gas tokens that committed orders will spend.
    pub reserved_gas: u128,
    /// Stake-token balance of the signer.
    pub stake_balance: u128,
    /// Stake that committed orders hold back.
    pub reserved_stake: u128,
}

/// Clamps `x` to at most `hi`.
pub open spec fn clamp(x: int, hi: int) -> int {
    if x > hi {
        hi
    } else {
        x
    }
}

/// `a - b`, or zero when `b` exceeds `a`.
pub open spec fn sat_sub(a: int, b: int) -> int {
    if a > b {
        a - b
    } else {
        0
    }
}

/// Relies on alloy_primitives::U256 (ruint): the product of two values below
/// 2^128 is exact in 256 bits, `/` is floor division (it panics only on a zero
/// divisor), and `saturating_to` clamps to the largest u128.
#[verifier::external_body]
pub(crate) fn mul_div(a: u128, b: u128, d: u128) -> (r: u128)
    requires
        d > 0,
    ensures
        r as int == clamp(a as int * b as int / d as int, u128::MAX as int),
{
    (U256::from(a).saturating_mul(U256::from(b)) / U256::from(d)).saturating_to::<u128>()
}

/// Cycles affordable for `reward` at `mcycle_price` per million cycles; a zero
/// price leaves the count unbounded.
pub open spec fn cycles_for_reward(reward: int, mcycle_price: int) -> int {
    if mcycle_price == 0 {
        u64::MAX as int
    } else {
        clamp(reward * 1_000_000 / mcycle_price, u64::MAX as int)
    }
}

/// Cycles affordable for `reward` at `mcycle_price` per million cycles, at most
/// the largest u64.
pub fn calculate_exec_limit_from_price(reward: u128, mcycle_price: u128) -> (r: u64)
    ensures
        r as int == cycles_for_reward(reward as int, mcycle_price as int),
{
    if mcycle_price == 0 {
        u64::MAX
    } else {
        let c = mul_div(reward, ONE_MILLION, mcycle_price);
        if c > u64::MAX as u128 {
            u64::MAX
        } else {
            c as u64
        }
    }
}

/// Returns the maximum cycles that can be proven within `time_seconds` at a
/// proving rate of `prove_khz`, at most the largest u64.
pub fn calculate_max_cycles_for_time(prove_khz: u64, time_seconds: u64) -> (r: u64)
    ensures
        r as int == clamp(prove_khz as int * 1000 * time_seconds as int, u64::MAX as int),
{
    let rate = match prove_khz.checked_mul(1000) {
        Some(v) => v,
        None => u64::MAX,
    };
    let r = match rate.checked_mul(time_seconds) {
        Some(v) => v,
        None => u64::MAX,
    };
    proof {
        let k = prove_khz as int;
        let t = time_seconds as int;
        if k * 1000 > u64::MAX {
            assert(rate == u64::MAX);
            if t >= 1 {
                assert(k * 1000 * t >= k * 1000) by (nonlinear_arith)
                    requires
                        t >= 1,
                        k >= 0,
                ;
                assert(rate as int * t >= rate as int) by (nonlinear_arith)
                    requires
                        t >= 1,
                        rate >= 0,
                ;
            } else {
                assert(k * 1000 * t == 0) by (nonlinear_arith)
                    requires
                        t == 0,
                ;
            }
        }
    }
    r
}


/// Why an order was skipped.
#[derive(Clone, Copy, Debug, PartialEq, Eq, Structural)]
pub enum SkipReason {
    Expired,
    WithinMinDeadline,
    AlreadyLocked,
    AlreadyFulfilled,
    NotAllowed,
    Denied,
    UnsupportedSelector,
    StakeAboveMax,
    InsufficientStake,
    InsufficientGas,
    GasExceedsPrice,
    ExecLimitTooLow,
    SessionLimitExceeded,
    JournalTooLarge,
}

impl SkipReason {
    /// The log line that explains a skip for this reason.
    pub open spec fn spec_message(&self) -> Seq<char> {
        match self {
            SkipReason::Expired => "Removing order because it has expired"@,
            SkipReason::WithinMinDeadline => "Removing order because it expires within min_deadline"@,
            SkipReason::AlreadyLocked => "Order is already locked, skipping"@,
            SkipReason::AlreadyFulfilled => "Order is already fulfilled, skipping"@,
            SkipReason::NotAllowed => "Removing order because it is not in allowed addrs"@,
            SkipReason::Denied => "Removing order because it is in denied addrs"@,
            SkipReason::UnsupportedSelector => "Removing order because it has an unsupported selector requirement"@,
            SkipReason::StakeAboveMax => "Removing high stake order"@,
            SkipReason::InsufficientStake => "Insufficient available stake to lock order"@,
            SkipReason::InsufficientGas => "Removing order because we don't have enough gas tokens"@,
            SkipReason::GasExceedsPrice => "Estimated gas cost to lock and fulfill order exceeds its max price"@,
            SkipReason::ExecLimitTooLow => "Removing order because its exec limit is too low"@,
            SkipReason::SessionLimitExceeded => "Skipping order due to session limit exceeded"@,
            SkipReason::JournalTooLarge => "Removing order because its journal larger than set limit"@,
        }
    }

    /// The log line that explains the skip.
    pub fn message(&self) -> (r: &'static str)
        ensures
            r@ == self.spec_message(),
    {
        match self {
            SkipReason::Expired => "Removing order because it has expired",
            SkipReason::WithinMinDeadline => "Removing order because it expires within min_deadline",
            SkipReason::AlreadyLocked => "Order is already locked, skipping",
            SkipReason::AlreadyFulfilled => "Order is already fulfilled, skipping",
            SkipReason::NotAllowed => "Removing order because it is not in allowed addrs",
            SkipReason::Denied => "Removing order because it is in denied addrs",
            SkipReason::UnsupportedSelector => "Removing order because it has an unsupported selector requirement",
            SkipReason::StakeAboveMax => "Removing high stake order",
            SkipReason::InsufficientStake => "Insufficient available stake to lock order",
            SkipReason::InsufficientGas => "Removing order because we don't have enough gas tokens",
            SkipReason::GasExceedsPrice => "Estimated gas cost to lock and fulfill order exceeds its max price",
            SkipReason::ExecLimitTooLow => "Removing order because its exec limit is too low",
            SkipReason::SessionLimitExceeded => "Skipping order due to session limit exceeded",
            SkipReason::JournalTooLarge => "Removing order because its journal larger than set limit",
        }
    }
}

/// The result of pricing an order.
#[derive(Clone, Copy, Debug, PartialEq, Eq, Structural)]
pub enum PricingOutcome {
    /// Lock the order, then prove it; `target_timestamp_secs` zero means lock now.
    Lock { total_cycles: u64, target_timestamp_secs: u64, expiry_secs: u64 },
    /// Prove the order once the current lock expires.
    ProveAfterLockExpire {
        total_cycles: u64,
        lock_expire_timestamp_secs: u64,
        expiry_secs: u64,
    },
    /// Do not engage the order.
    Skip(SkipReason),
}

/// What pricing decides before the preflight: an outcome, or a preflight with
/// the given cycle ceiling.
#[derive(Clone, Copy, Debug, PartialEq, Eq, Structural)]
pub enum Admission {
    Decided(PricingOutcome),
    Preflight { exec_limit_cycles: u64 },
}

/// What the preflight prover reported.
#[derive(Clone, Debug, PartialEq, Eq)]
pub enum PreflightResult {
    Completed { total_cycles: u64, journal_size: u64 },
    SessionLimitExceeded,
    GuestPanic(String),
    FetchImageFailed(String),
    FetchInputFailed(String),
    Failed(String),
}

/// `bidding_start + lock_timeout`, the time by which a locker must fulfill.
pub open spec fn spec_lock_expiration(o: Order) -> int {
    clamp(o.offer.bidding_start + o.offer.lock_timeout, u64::MAX as int)
}

/// `bidding_start + timeout`, after which nobody can fulfill the order.
pub open spec fn spec_order_expiration(o: Order) -> int {
    clamp(o.offer.bidding_start + o.offer.timeout, u64::MAX as int)
}

/// The end of the window in which the broker would fulfill the order.
pub open spec fn spec_effective_expiration(o: Order) -> int {
    match o.fulfillment_type {
        FulfillmentType::LockAndFulfill => spec_lock_expiration(o),
        FulfillmentType::FulfillAfterLockExpire => spec_order_expiration(o),
    }
}

/// The stake the broker commits by taking the order.
pub open spec fn spec_lockin_stake(o: Order) -> int {
    match o.fulfillment_type {
        FulfillmentType::LockAndFulfill => o.offer.lock_stake as int,
        FulfillmentType::FulfillAfterLockExpire => 0,
    }
}

/// Lock expiration of the order (saturating at the largest u64).
pub fn lock_expiration(o: &Order) -> (r: u64)
    ensures
        r as int == spec_lock_expiration(*o),
{
    o.offer.bidding_start.saturating_add(o.offer.lock_timeout as u64)
}

/// Order expiration of the order (saturating at the largest u64).
pub fn order_expiration(o: &Order) -> (r: u64)
    ensures
        r as int == spec_order_expiration(*o),
{
    o.offer.bidding_start.saturating_add(o.offer.timeout as u64)
}

/// Lock expiration for `LockAndFulfill`, order expiration otherwise.
pub fn effective_expiration(o: &Order) -> (r: u64)
    ensures
        r as int == spec_effective_expiration(*o),
{
    match o.fulfillment_type {
        FulfillmentType::LockAndFulfill => lock_expiration(o),
        FulfillmentType::FulfillAfterLockExpire => order_expiration(o),
    }
}

/// The offer's stake for `LockAndFulfill`, zero otherwise.
pub fn lockin_stake(o: &Order) -> (r: u128)
    ensures
        r as int == spec_lockin_stake(*o),
{
    match o.fulfillment_type {
        FulfillmentType::LockAndFulfill => o.offer.lock_stake,
        FulfillmentType::FulfillAfterLockExpire => 0,
    }
}

/// Whether `a` is among `v`.
pub fn contains_address(v: &Vec<Address>, a: Address) -> (r: bool)
    ensures
        r == v@.contains(a),
{
    let mut i: usize = 0;
    while i < v.len()
        invariant
            i <= v.len(),
            forall|j: int| 0 <= j < i ==> v@[j] != a,
        decreases v.len() - i,
    {
        if v[i] == a {
            return true;
        }
        i = i + 1;
    }
    proof {
        if v@.contains(a) {
            let j = choose|j: int| 0 <= j < v@.len() && v@[j] == a;
            assert(v@[j] != a);
        }
    }
    false
}

/// The proof type of the first entry of `sel` with selector `s`, if any.
pub open spec fn spec_proof_type_of(sel: Seq<SupportedSelector>, s: u32) -> Option<ProofType>
    decreases sel.len(),
{
    if sel.len() == 0 {
        None
    } else {
        match spec_proof_type_of(sel.drop_last(), s) {
            Some(t) => Some(t),
            None => if sel.last().selector == s {
                Some(sel.last().proof_type)
            } else {
                None
            },
        }
    }
}

/// The proof type of selector `s`, or `None` when it is not supported.
pub fn proof_type_of(sel: &Vec<SupportedSelector>, s: u32) -> (r: Option<ProofType>)
    ensures
        r == spec_proof_type_of(sel@, s),
{
    let mut found: Option<ProofType> = None;
    let mut i: usize = 0;
    while i < sel.len()
        invariant
            i <= sel.len(),
            found == spec_proof_type_of(sel@.take(i as int), s),
        decreases sel.len() - i,
    {
        assert(sel@.take(i + 1).drop_last() =~= sel@.take(i as int));
        if found.is_none() && sel[i].selector == s {
            found = Some(sel[i].proof_type);
        }
        i = i + 1;
    }
    assert(sel@.take(i as int) =~= sel@);
    found
}

/// Gas to lock and fulfill `o`: the base estimate, the callback's gas limit,
/// Groth16 verification when the selector asks for it, and smart-contract
/// signature verification when the request is so signed.
pub open spec fn spec_fulfill_gas(cfg: PricingConfig, o: Order) -> int {
    cfg.fulfill_gas_estimate + o.requirements.callback_gas_limit + (match spec_proof_type_of(
        cfg.supported_selectors@,
        o.requirements.selector,
    ) {
        Some(ProofType::Groth16) => cfg.groth16_verify_gas_estimate as int,
        _ => 0,
    }) + (if o.request_id.smart_contract_signed {
        cfg.smart_contract_sig_verify_gas_estimate as int
    } else {
        0
    })
}

/// Gas to lock and fulfill `o`.
pub fn estimate_gas_to_fulfill(cfg: &PricingConfig, o: &Order) -> (r: u128)
    ensures
        r as int == spec_fulfill_gas(*cfg, *o),
{
    let mut gas: u128 = cfg.fulfill_gas_estimate as u128 + o.requirements.callback_gas_limit as u128;
    match proof_type_of(&cfg.supported_selectors, o.requirements.selector) {
        Some(ProofType::Groth16) => {
            gas = gas + cfg.groth16_verify_gas_estimate as u128;
        },
        _ => {},
    }
    if o.request_id.smart_contract_signed {
        gas = gas + cfg.smart_contract_sig_verify_gas_estimate as u128;
    }
    gas
}

/// Whether paying `gas` at `gas_price` costs more than `available`.
fn gas_cost_exceeds(gas_price: u128, gas: u128, available: u128) -> (r: bool)
    ensures
        r == (gas_price as int * gas as int > available as int),
{
    match gas_price.checked_mul(gas) {
        Some(cost) => cost > available,
        None => true,
    }
}


/// The lesser of two integers.
pub open spec fn lesser(a: int, b: int) -> int {
    if a < b {
        a
    } else {
        b
    }
}

/// Whether the client of `o` bypasses the global cycle ceiling.
pub open spec fn spec_is_priority_client(cfg: PricingConfig, o: Order) -> bool {
    match cfg.priority_requestor_addresses {
        Some(v) => v@.contains(o.request_id.client),
        None => false,
    }
}

/// The reward for fulfilling `o` after its lock expired unfulfilled.
pub open spec fn spec_stake_reward(o: Order) -> int {
    o.offer.lock_stake as int / STAKE_REWARD_DIVISOR as int
}

/// The preflight cycle ceiling: the cycles affordable at the order's reward,
/// capped by the cycles provable before expiration when a proving rate is
/// configured, and by the global ceiling unless the client is a priority client.
pub open spec fn spec_exec_limit(cfg: PricingConfig, o: Order, now: int) -> int {
    let by_price = match o.fulfillment_type {
        FulfillmentType::LockAndFulfill => cycles_for_reward(
            o.offer.max_price as int,
            cfg.mcycle_price as int,
        ),
        FulfillmentType::FulfillAfterLockExpire => cycles_for_reward(
            spec_stake_reward(o),
            cfg.mcycle_price_stake_token as int,
        ),
    };
    let by_deadline = match cfg.peak_prove_khz {
        Some(k) => lesser(
            by_price,
            clamp(k * 1000 * sat_sub(spec_effective_expiration(o), now), u64::MAX as int),
        ),
        None => by_price,
    };
    match cfg.max_mcycle_limit {
        Some(m) => if spec_is_priority_client(cfg, o) {
            by_deadline
        } else {
            lesser(by_deadline, clamp(m * 1_000_000, u64::MAX as int))
        },
        None => by_deadline,
    }
}

/// The preflight cycle ceiling of `o` at time `now`.
pub fn exec_limit_cycles(cfg: &PricingConfig, o: &Order, now: u64) -> (r: u64)
    ensures
        r as int == spec_exec_limit(*cfg, *o, now as int),
{
    let mut limit = match o.fulfillment_type {
        FulfillmentType::LockAndFulfill => calculate_exec_limit_from_price(
            o.offer.max_price,
            cfg.mcycle_price,
        ),
        FulfillmentType::FulfillAfterLockExpire => calculate_exec_limit_from_price(
            o.offer.lock_stake / STAKE_REWARD_DIVISOR,
            cfg.mcycle_price_stake_token,
        ),
    };
    match cfg.peak_prove_khz {
        Some(k) => {
            let deadline_limit = calculate_max_cycles_for_time(
                k,
                effective_expiration(o).saturating_sub(now),
            );
            if deadline_limit < limit {
                limit = deadline_limit;
            }
        },
        None => {},
    }
    match &cfg.max_mcycle_limit {
        Some(m) => {
            let priority = match &cfg.priority_requestor_addresses {
                Some(v) => contains_address(v, o.request_id.client),
                None => false,
            };
            if !priority {
                let global = match m.checked_mul(1_000_000) {
                    Some(c) => c,
                    None => u64::MAX,
                };
                if global < limit {
                    limit = global;
                }
            }
        },
        None => {},
    }
    limit
}

/// Gas tokens available to the broker in `env`.
pub open spec fn spec_available_gas(env: PricingEnv) -> int {
    sat_sub(env.gas_balance as int, env.reserved_gas as int)
}

/// Stake available to the broker in `env`.
pub open spec fn spec_available_stake(env: PricingEnv) -> int {
    sat_sub(env.stake_balance as int, env.reserved_stake as int)
}

/// Gas tokens that lock and fulfillment of `o` would cost in `env`.
pub open spec fn spec_gas_cost(cfg: PricingConfig, o: Order, env: PricingEnv) -> int {
    env.gas_price * spec_fulfill_gas(cfg, o)
}

/// Whether the fast-lock path takes `o`: it is configured, the order is a
/// `LockAndFulfill` order whose maximum price reaches the configured price, its
/// stake is small and enough time is left to prove it.
pub open spec fn spec_fast_lock(cfg: PricingConfig, o: Order, now: int) -> bool {
    match cfg.fast_lock_min_price {
        Some(p) => o.fulfillment_type == FulfillmentType::LockAndFulfill && o.offer.max_price
            >= p && o.offer.lock_stake < FAST_LOCK_MAX_STAKE && spec_effective_expiration(o) - now
            >= FAST_LOCK_MIN_DEADLINE,
        None => false,
    }
}

/// The fast-lock path: when it takes `o` and the stake and the gas cost both
/// fit what is available, lock at once (target zero, expiry at the lock
/// expiration) with the conservative cycle estimate, without a preflight.
pub open spec fn spec_fast_evaluate(cfg: PricingConfig, o: Order, env: PricingEnv) -> Option<
    PricingOutcome,
> {
    if spec_fast_lock(cfg, o, env.now as int) && spec_lockin_stake(o) <= spec_available_stake(env)
        && spec_gas_cost(cfg, o, env) <= spec_available_gas(env) {
        Some(
            PricingOutcome::Lock {
                total_cycles: FAST_LOCK_MAX_CYCLES,
                target_timestamp_secs: 0,
                expiry_secs: spec_lock_expiration(o) as u64,
            },
        )
    } else {
        None
    }
}

/// Prices `o` on the fast-lock path, or returns `None` when the path does not
/// apply or the stake or gas available do not cover the order.
pub fn fast_evaluate_order(cfg: &PricingConfig, o: &Order, env: &PricingEnv) -> (r: Option<
    PricingOutcome,
>)
    ensures
        r == spec_fast_evaluate(*cfg, *o, *env),
{
    let applies = match cfg.fast_lock_min_price {
        Some(p) => o.fulfillment_type == FulfillmentType::LockAndFulfill && o.offer.max_price >= p
            && o.offer.lock_stake < FAST_LOCK_MAX_STAKE && effective_expiration(o) as i128
            - env.now as i128 >= FAST_LOCK_MIN_DEADLINE as i128,
        None => false,
    };
    if !applies {
        return None;
    }
    if lockin_stake(o) > env.stake_balance.saturating_sub(env.reserved_stake) {
        return None;
    }
    let gas = estimate_gas_to_fulfill(cfg, o);
    if gas_cost_exceeds(env.gas_price, gas, env.gas_balance.saturating_sub(env.reserved_gas)) {
        return None;
    }
    Some(
        PricingOutcome::Lock {
            total_cycles: FAST_LOCK_MAX_CYCLES,
            target_timestamp_secs: 0,
            expiry_secs: lock_expiration(o),
        },
    )
}

/// An admission that skips for `reason`.
pub open spec fn skip(reason: SkipReason) -> Admission {
    Admission::Decided(PricingOutcome::Skip(reason))
}

/// The decision taken before the preflight, clause by clause; the first clause
/// that matches decides. `locked` and `fulfilled` say what the request database
/// records of the request.
pub open spec fn spec_admission(
    cfg: PricingConfig,
    o: Order,
    env: PricingEnv,
    locked: bool,
    fulfilled: bool,
) -> Admission {
    let exp = spec_effective_expiration(o);
    let client = o.request_id.client;
    let lock_and_fulfill = o.fulfillment_type == FulfillmentType::LockAndFulfill;
    if exp <= env.now + cfg.min_deadline {
        if exp <= env.now {
            skip(SkipReason::Expired)
        } else {
            skip(SkipReason::WithinMinDeadline)
        }
    } else if lock_and_fulfill && locked {
        skip(SkipReason::AlreadyLocked)
    } else if !lock_and_fulfill && fulfilled {
        skip(SkipReason::AlreadyFulfilled)
    } else if (match cfg.allow_client_addresses {
        Some(v) => !v@.contains(client),
        None => false,
    }) {
        skip(SkipReason::NotAllowed)
    } else if (match cfg.deny_requestor_addresses {
        Some(v) => v@.contains(client),
        None => false,
    }) {
        skip(SkipReason::Denied)
    } else if spec_proof_type_of(cfg.supported_selectors@, o.requirements.selector) is None {
        skip(SkipReason::UnsupportedSelector)
    } else if spec_lockin_stake(o) > cfg.max_stake {
        skip(SkipReason::StakeAboveMax)
    } else if spec_lockin_stake(o) > spec_available_stake(env) {
        skip(SkipReason::InsufficientStake)
    } else if spec_gas_cost(cfg, o, env) > spec_available_gas(env) {
        skip(SkipReason::InsufficientGas)
    } else if lock_and_fulfill && spec_gas_cost(cfg, o, env) > o.offer.max_price {
        skip(SkipReason::GasExceedsPrice)
    } else if spec_exec_limit(cfg, o, env.now as int) < MIN_EXEC_LIMIT_CYCLES {
        skip(SkipReason::ExecLimitTooLow)
    } else if spec_fast_evaluate(cfg, o, env) is Some {
        Admission::Decided(spec_fast_evaluate(cfg, o, env)->0)
    } else {
        Admission::Preflight { exec_limit_cycles: spec_exec_limit(cfg, o, env.now as int) as u64 }
    }
}

/// Prices `o` up to the preflight: skips it, locks it on the fast path, or asks
/// for a preflight with a cycle ceiling.
pub fn evaluate_order(
    cfg: &PricingConfig,
    o: &Order,
    env: &PricingEnv,
    locked: bool,
    fulfilled: bool,
) -> (r: Admission)
    ensures
        r == spec_admission(*cfg, *o, *env, locked, fulfilled),
{
    let exp = effective_expiration(o);
    let client = o.request_id.client;
    let lock_and_fulfill = o.fulfillment_type == FulfillmentType::LockAndFulfill;
    if exp <= env.now || exp - env.now <= cfg.min_deadline {
        if exp <= env.now {
            return Admission::Decided(PricingOutcome::Skip(SkipReason::Expired));
        } else {
            return Admission::Decided(PricingOutcome::Skip(SkipReason::WithinMinDeadline));
        }
    }
    if lock_and_fulfill && locked {
        return Admission::Decided(PricingOutcome::Skip(SkipReason::AlreadyLocked));
    }
    if !lock_and_fulfill && fulfilled {
        return Admission::Decided(PricingOutcome::Skip(SkipReason::AlreadyFulfilled));
    }
    match &cfg.allow_client_addresses {
        Some(v) => {
            if !contains_address(v, client) {
                return Admission::Decided(PricingOutcome::Skip(SkipReason::NotAllowed));
            }
        },
        None => {},
    }
    match &cfg.deny_requestor_addresses {
        Some(v) => {
            if contains_address(v, client) {
                return Admission::Decided(PricingOutcome::Skip(SkipReason::Denied));
            }
        },
        None => {},
    }
    if proof_type_of(&cfg.supported_selectors, o.requirements.selector).is_none() {
        return Admission::Decided(PricingOutcome::Skip(SkipReason::UnsupportedSelector));
    }
    let stake = lockin_stake(o);
    if stake > cfg.max_stake {
        return Admission::Decided(PricingOutcome::Skip(SkipReason::StakeAboveMax));
    }
    if stake > env.stake_balance.saturating_sub(env.reserved_stake) {
        return Admission::Decided(PricingOutcome::Skip(SkipReason::InsufficientStake));
    }
    let gas = estimate_gas_to_fulfill(cfg, o);
    if gas_cost_exceeds(env.gas_price, gas, env.gas_balance.saturating_sub(env.reserved_gas)) {
        return Admission::Decided(PricingOutcome::Skip(SkipReason::InsufficientGas));
    }
    if lock_and_fulfill && gas_cost_exceeds(env.gas_price, gas, o.offer.max_price) {
        return Admission::Decided(PricingOutcome::Skip(SkipReason::GasExceedsPrice));
    }
    let limit = exec_limit_cycles(cfg, o, env.now);
    if limit < MIN_EXEC_LIMIT_CYCLES {
        return Admission::Decided(PricingOutcome::Skip(SkipReason::ExecLimitTooLow));
    }
    match fast_evaluate_order(cfg, o, env) {
        Some(outcome) => {
            return Admission::Decided(outcome);
        },
        None => {},
    }
    Admission::Preflight { exec_limit_cycles: limit }
}

/// The outcome once the preflight has reported, with `env` read afresh for the
/// gas recheck.
pub open spec fn spec_price_preflight(
    cfg: PricingConfig,
    o: Order,
    env: PricingEnv,
    pr: PreflightResult,
) -> Result<PricingOutcome, OrderPickerErr> {
    match pr {
        PreflightResult::SessionLimitExceeded => Ok(
            PricingOutcome::Skip(SkipReason::SessionLimitExceeded),
        ),
        PreflightResult::GuestPanic(m) => Err(OrderPickerErr::GuestPanic(m)),
        PreflightResult::FetchImageFailed(m) => Err(OrderPickerErr::FetchImageErr(m)),
        PreflightResult::FetchInputFailed(m) => Err(OrderPickerErr::FetchInputErr(m)),
        PreflightResult::Failed(m) => Err(OrderPickerErr::UnexpectedErr(m)),
        PreflightResult::Completed { total_cycles, journal_size } => {
            if journal_size > cfg.max_journal_bytes {
                Ok(PricingOutcome::Skip(SkipReason::JournalTooLarge))
            } else if spec_gas_cost(cfg, o, env) > spec_available_gas(env) {
                Ok(PricingOutcome::Skip(SkipReason::InsufficientGas))
            } else if o.fulfillment_type == FulfillmentType::LockAndFulfill {
                Ok(
                    PricingOutcome::Lock {
                        total_cycles,
                        target_timestamp_secs: 0,
                        expiry_secs: spec_lock_expiration(o) as u64,
                    },
                )
            } else {
                Ok(
                    PricingOutcome::ProveAfterLockExpire {
                        total_cycles,
                        lock_expire_timestamp_secs: spec_lock_expiration(o) as u64,
                        expiry_secs: spec_order_expiration(o) as u64,
                    },
                )
            }
        },
    }
}

/// Finishes pricing `o` from the preflight's report `pr`: skips it, emits it,
/// or reports the preflight's error.
pub fn price_preflight(
    cfg: &PricingConfig,
    o: &Order,
    env: &PricingEnv,
    pr: PreflightResult,
) -> (r: Result<PricingOutcome, OrderPickerErr>)
    ensures
        r == spec_price_preflight(*cfg, *o, *env, pr),
{
    match pr {
        PreflightResult::SessionLimitExceeded => Ok(
            PricingOutcome::Skip(SkipReason::SessionLimitExceeded),
        ),
        PreflightResult::GuestPanic(m) => Err(OrderPickerErr::GuestPanic(m)),
        PreflightResult::FetchImageFailed(m) => Err(OrderPickerErr::FetchImageErr(m)),
        PreflightResult::FetchInputFailed(m) => Err(OrderPickerErr::FetchInputErr(m)),
        PreflightResult::Failed(m) => Err(OrderPickerErr::UnexpectedErr(m)),
        PreflightResult::Completed { total_cycles, journal_size } => {
            if journal_size > cfg.max_journal_bytes {
                return Ok(PricingOutcome::Skip(SkipReason::JournalTooLarge));
            }
            let gas = estimate_gas_to_fulfill(cfg, o);
            if gas_cost_exceeds(
                env.gas_price,
                gas,
                env.gas_balance.saturating_sub(env.reserved_gas),
            ) {
                return Ok(PricingOutcome::Skip(SkipReason::InsufficientGas));
            }
            match o.fulfillment_type {
                FulfillmentType::LockAndFulfill => Ok(
                    PricingOutcome::Lock {
                        total_cycles,
                        target_timestamp_secs: 0,
                        expiry_secs: lock_expiration(o),
                    },
                ),
                FulfillmentType::FulfillAfterLockExpire => Ok(
                    PricingOutcome::ProveAfterLockExpire {
                        total_cycles,
                        lock_expire_timestamp_secs: lock_expiration(o),
                        expiry_secs: order_expiration(o),
                    },
                ),
            }
        },
    }
}

} // verus!
