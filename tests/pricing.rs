use broker::accounting::{
    available_balance, estimate_gas_to_fulfill_pending, estimate_stake_to_lock_pending,
    gas_balance_reserved,
};
use broker::admission::{settle_pricing, TaskEnd};
use broker::pricing::{
    calculate_exec_limit_from_price, calculate_max_cycles_for_time, estimate_gas_to_fulfill,
    evaluate_order, exec_limit_cycles, price_preflight, Admission, PreflightResult,
    PricingConfig, PricingEnv, PricingOutcome, ProofType, SkipReason, SupportedSelector,
};
use broker::types::{
    Address, Digest, FulfillmentType, Offer, Order, RequestId, Requirements,
};

const NOW: u64 = 1_700_000_000;
const ETHER: u128 = 1_000_000_000_000_000_000;
const INCLUSION_SELECTOR: u32 = 0x242f9d5b;
const GROTH16_SELECTOR: u32 = 0x9f39696c;
const GROTH16_V1_1_SELECTOR: u32 = 0x50bd1769;

fn signer() -> Address {
    Address { hi: 0xf39fd6e51aad88f6f4ce6ab8827279cf, lo: 0xfffb9226 }
}

fn config() -> PricingConfig {
    PricingConfig {
        min_deadline: 0,
        // "0.0000001" ether per mcycle
        mcycle_price: 100_000_000_000,
        mcycle_price_stake_token: 0,
        max_mcycle_limit: Some(8000),
        peak_prove_khz: None,
        max_journal_bytes: 10_000,
        max_stake: 10 * ETHER,
        fulfill_gas_estimate: 300_000,
        groth16_verify_gas_estimate: 250_000,
        smart_contract_sig_verify_gas_estimate: 150_000,
        allow_client_addresses: None,
        deny_requestor_addresses: None,
        priority_requestor_addresses: None,
        supported_selectors: vec![
            SupportedSelector { selector: INCLUSION_SELECTOR, proof_type: ProofType::Inclusion },
            SupportedSelector { selector: GROTH16_SELECTOR, proof_type: ProofType::Groth16 },
        ],
        fast_lock_min_price: None,
    }
}

fn order(index: u32) -> Order {
    Order {
        request_id: RequestId { client: signer(), index, smart_contract_signed: false },
        digest: Digest { w0: 1, w1: 2, w2: 3, w3: index as u64 },
        fulfillment_type: FulfillmentType::LockAndFulfill,
        offer: Offer {
            min_price: 2 * ETHER / 100,
            max_price: 4 * ETHER / 100,
            bidding_start: NOW,
            ramp_up_period: 1,
            lock_timeout: 900,
            timeout: 1200,
            lock_stake: 0,
        },
        requirements: Requirements { selector: INCLUSION_SELECTOR, callback_gas_limit: 0 },
    }
}

fn env() -> PricingEnv {
    PricingEnv {
        now: NOW,
        gas_price: 1_000_000_000,
        gas_balance: 10_000 * ETHER,
        reserved_gas: 0,
        stake_balance: 0,
        reserved_stake: 0,
    }
}

fn completed(total_cycles: u64) -> PreflightResult {
    PreflightResult::Completed { total_cycles, journal_size: 4 }
}

fn skipped(a: Admission) -> SkipReason {
    match a {
        Admission::Decided(PricingOutcome::Skip(r)) => r,
        other => panic!("expected a skip, got {:?}", other),
    }
}

fn exec_limit(a: Admission) -> u64 {
    match a {
        Admission::Preflight { exec_limit_cycles } => exec_limit_cycles,
        other => panic!("expected a preflight, got {:?}", other),
    }
}

#[test]
fn price_order() {
    let cfg = config();
    let o = order(1);
    let a = evaluate_order(&cfg, &o, &env(), false, false);
    // 0.04 ether at 0.0000001 ether per mcycle, capped by 8000 mcycles
    assert_eq!(exec_limit(a), 8_000_000_000);
    let r = price_preflight(&cfg, &o, &env(), completed(1_000_000));
    assert_eq!(
        r,
        Ok(PricingOutcome::Lock {
            total_cycles: 1_000_000,
            target_timestamp_secs: 0,
            expiry_secs: NOW + 900
        })
    );
    match settle_pricing(o, Some(r)) {
        TaskEnd::Emit(p) => {
            assert_eq!(p.target_timestamp, 0);
            assert_eq!(p.expire_timestamp, NOW + 900);
            assert_eq!(p.total_cycles, 1_000_000);
        }
        other => panic!("expected an emission, got {:?}", other),
    }
}

#[test]
fn happy_lock_uses_price_limit_without_ceiling() {
    let mut cfg = config();
    cfg.max_mcycle_limit = None;
    let a = evaluate_order(&cfg, &order(1), &env(), false, false);
    // 0.04 ether * 10^6 / 0.0000001 ether
    assert_eq!(exec_limit(a), 400_000_000_000);
}

#[test]
fn skip_unsupported_selector() {
    let mut o = order(1);
    o.requirements.selector = GROTH16_V1_1_SELECTOR;
    let r = skipped(evaluate_order(&config(), &o, &env(), false, false));
    assert_eq!(r, SkipReason::UnsupportedSelector);
    assert!(r.message().contains("unsupported selector"));
    let end = settle_pricing(o, Some(Ok(PricingOutcome::Skip(r))));
    assert_eq!(end, TaskEnd::RecordSkip(o.id()));
}

fn ether_fraction(numerator: u128, denominator: u128) -> u128 {
    numerator * ETHER / denominator
}

fn priced_order(index: u32, min_price: u128, max_price: u128) -> Order {
    let mut o = order(index);
    o.offer.min_price = min_price;
    o.offer.max_price = max_price;
    o
}

fn expect_lock(cfg: &PricingConfig, o: &Order, e: &PricingEnv) {
    assert!(matches!(evaluate_order(cfg, o, e, false, false), Admission::Preflight { .. }));
    let r = price_preflight(cfg, o, e, completed(1_000));
    match settle_pricing(*o, Some(r)) {
        TaskEnd::Emit(p) => assert_eq!(p.target_timestamp, 0),
        other => panic!("expected an emission, got {:?}", other),
    }
}

fn expect_gas_above_price(cfg: &PricingConfig, o: &Order, e: &PricingEnv) {
    let r = skipped(evaluate_order(cfg, o, e, false, false));
    assert_eq!(r, SkipReason::GasExceedsPrice);
    assert!(r.message().contains("Estimated gas cost to lock and fulfill order"));
    let end = settle_pricing(*o, Some(Ok(PricingOutcome::Skip(r))));
    assert_eq!(end, TaskEnd::RecordSkip(o.id()));
}

#[test]
fn skip_price_less_than_gas_costs() {
    let cfg = config();
    let o = priced_order(1, ether_fraction(5, 10_000), ether_fraction(10, 10_000));
    // 300_000 gas at about 6.67 gwei is 0.002 ether; the signer keeps 10_000 ether
    let mut e = env();
    e.gas_price = 6_666_666_667;
    assert!(300_000 * e.gas_price > o.offer.max_price);
    expect_gas_above_price(&cfg, &o, &e);
}

fn groth16_env() -> PricingEnv {
    let mut e = env();
    // 300_000 gas cost 0.0009 ether, below the 0.0013 ether price
    e.gas_price = 3_000_000_000;
    e
}

#[test]
fn skip_price_less_than_gas_costs_groth16() {
    let cfg = config();
    let e = groth16_env();
    let price = ether_fraction(13, 10_000);
    let o1 = priced_order(1, price, price);
    assert_eq!(estimate_gas_to_fulfill(&cfg, &o1), 300_000);
    expect_lock(&cfg, &o1, &e);
    let mut o2 = priced_order(2, price, price);
    o2.requirements.selector = GROTH16_SELECTOR;
    assert_eq!(estimate_gas_to_fulfill(&cfg, &o2), 550_000);
    expect_gas_above_price(&cfg, &o2, &e);
}

#[test]
fn skip_price_less_than_gas_costs_callback() {
    let cfg = config();
    let e = groth16_env();
    let price = ether_fraction(13, 10_000);
    expect_lock(&cfg, &priced_order(1, price, price), &e);
    let mut o2 = priced_order(2, price, price);
    o2.requirements.callback_gas_limit = 200_000;
    assert_eq!(estimate_gas_to_fulfill(&cfg, &o2), 500_000);
    expect_gas_above_price(&cfg, &o2, &e);
}

#[test]
fn skip_price_less_than_gas_costs_smart_contract_signature() {
    let cfg = config();
    let e = groth16_env();
    let price = ether_fraction(13, 10_000);
    expect_lock(&cfg, &priced_order(1, price, price), &e);
    let mut o2 = priced_order(2, price, price);
    o2.request_id.smart_contract_signed = true;
    assert_eq!(estimate_gas_to_fulfill(&cfg, &o2), 450_000);
    expect_gas_above_price(&cfg, &o2, &e);
}

#[test]
fn gas_balance_starved_signer_skips() {
    let cfg = config();
    let mut e = env();
    e.gas_balance = ETHER / 10_000;
    let r = skipped(evaluate_order(&cfg, &order(1), &e, false, false));
    assert_eq!(r, SkipReason::InsufficientGas);
    assert!(r.message().contains("don't have enough gas tokens"));
}

#[test]
fn skip_unallowed_addr() {
    let mut cfg = config();
    cfg.allow_client_addresses = Some(vec![Address { hi: 0, lo: 0 }]);
    let r = skipped(evaluate_order(&cfg, &order(1), &env(), false, false));
    assert_eq!(r, SkipReason::NotAllowed);
    assert!(r.message().contains("because it is not in allowed addrs"));
}

#[test]
fn skip_denied_addr() {
    let mut cfg = config();
    cfg.deny_requestor_addresses = Some(vec![signer()]);
    let r = skipped(evaluate_order(&cfg, &order(1), &env(), false, false));
    assert_eq!(r, SkipReason::Denied);
    assert!(r.message().contains("because it is in denied addrs"));
}

#[test]
fn cannot_overcommit_stake() {
    let mut cfg = config();
    // "10" stake tokens with 6 decimals
    cfg.max_stake = 10_000_000;
    let mut e = env();
    e.stake_balance = 150;
    let mut o1 = order(1);
    o1.offer.lock_stake = 100;
    assert!(matches!(evaluate_order(&cfg, &o1, &e, false, false), Admission::Preflight { .. }));

    let mut o2 = order(2);
    o2.offer.lock_stake = 151;
    let r = skipped(evaluate_order(&cfg, &o2, &e, false, false));
    assert_eq!(r, SkipReason::InsufficientStake);
    assert!(r.message().contains("Insufficient available stake to lock order"));

    let mut o3 = order(3);
    o3.offer.lock_stake = 11 * ETHER;
    let r = skipped(evaluate_order(&cfg, &o3, &e, false, false));
    assert_eq!(r, SkipReason::StakeAboveMax);
    assert!(r.message().contains("Removing high stake order"));
}

#[test]
fn stake_overcommit_two_orders() {
    let cfg = config();
    let mut e = env();
    e.stake_balance = 150;
    let mut o1 = order(1);
    o1.offer.lock_stake = 100;
    let mut o2 = order(2);
    o2.offer.lock_stake = 100;
    assert!(matches!(evaluate_order(&cfg, &o1, &e, false, false), Admission::Preflight { .. }));
    // the first order is committed and holds its stake back
    e.reserved_stake = estimate_stake_to_lock_pending(&vec![o1]);
    assert_eq!(e.reserved_stake, 100);
    let r = skipped(evaluate_order(&cfg, &o2, &e, false, false));
    assert_eq!(r, SkipReason::InsufficientStake);
    assert!(r.message().contains("Insufficient available stake"));
}

#[test]
fn use_gas_to_fulfill_estimate_from_config() {
    let mut cfg = config();
    cfg.fulfill_gas_estimate = 123_456;
    let o1 = order(1);
    assert_eq!(estimate_gas_to_fulfill_pending(&cfg, &vec![o1]), 123_456);
    let o2 = order(2);
    assert_eq!(estimate_gas_to_fulfill_pending(&cfg, &vec![o1, o2]), 2 * 123_456);
    assert_eq!(estimate_gas_to_fulfill_pending(&cfg, &vec![]), 0);
}

#[test]
fn skips_journal_exceeding_limit() {
    let mut cfg = config();
    cfg.max_journal_bytes = 1;
    let r = price_preflight(
        &cfg,
        &order(1),
        &env(),
        PreflightResult::Completed { total_cycles: 100, journal_size: 4 },
    );
    assert_eq!(r, Ok(PricingOutcome::Skip(SkipReason::JournalTooLarge)));
    assert!(SkipReason::JournalTooLarge.message().contains("journal larger than set limit"));
}

fn lock_expired_order(index: u32, lock_stake: u128) -> Order {
    let mut o = order(index);
    o.fulfillment_type = FulfillmentType::FulfillAfterLockExpire;
    o.offer.lock_stake = lock_stake;
    o
}

#[test]
fn price_locked_by_other() {
    let cfg = config();
    let mut o = lock_expired_order(1, 100_000);
    o.offer.lock_timeout = 1000;
    o.offer.timeout = 10000;
    let a = evaluate_order(&cfg, &o, &env(), false, false);
    assert!(matches!(a, Admission::Preflight { .. }));
    let r = price_preflight(&cfg, &o, &env(), completed(5000));
    assert_eq!(
        r,
        Ok(PricingOutcome::ProveAfterLockExpire {
            total_cycles: 5000,
            lock_expire_timestamp_secs: NOW + 1000,
            expiry_secs: NOW + 10000
        })
    );
    match settle_pricing(o, Some(r)) {
        TaskEnd::Emit(p) => {
            assert_eq!(p.target_timestamp, NOW + 1000);
            assert_eq!(p.expire_timestamp, NOW + 10000);
        }
        other => panic!("expected an emission, got {:?}", other),
    }
}

#[test]
fn price_locked_by_other_unprofitable() {
    let mut cfg = config();
    // "0.1" stake tokens per mcycle, 6 decimals
    cfg.mcycle_price_stake_token = 100_000;
    let mut o = lock_expired_order(1, 10);
    o.offer.lock_timeout = 0;
    o.offer.timeout = 10000;
    let limit = exec_limit(evaluate_order(&cfg, &o, &env(), false, false));
    assert_eq!(limit, 20);
    let r = price_preflight(&cfg, &o, &env(), PreflightResult::SessionLimitExceeded);
    assert_eq!(r, Ok(PricingOutcome::Skip(SkipReason::SessionLimitExceeded)));
    assert!(SkipReason::SessionLimitExceeded.message().contains("due to session limit exceeded"));
}

#[test]
fn skip_mcycle_limit_for_allowed_address() {
    let mut cfg = config();
    cfg.max_mcycle_limit = Some(1000);
    cfg.priority_requestor_addresses = Some(vec![signer()]);
    let o = order(1);
    assert_eq!(exec_limit(evaluate_order(&cfg, &o, &env(), false, false)), 400_000_000_000);
    let mut o2 = order(2);
    o2.request_id.client = Address { hi: 0, lo: 0 };
    assert_eq!(exec_limit(evaluate_order(&cfg, &o2, &env(), false, false)), 1_000_000_000);
}

#[test]
fn test_deadline_exec_limit_and_peak_prove_khz() {
    let mut cfg = config();
    cfg.peak_prove_khz = Some(1);
    cfg.min_deadline = 10;
    let mut o = order(1);
    o.offer.min_price = 10 * ETHER;
    o.offer.max_price = 10 * ETHER;
    o.offer.lock_timeout = 150;
    o.offer.timeout = 300;
    // 1 kHz for the 150 seconds left
    assert_eq!(exec_limit(evaluate_order(&cfg, &o, &env(), false, false)), 150_000);
    assert_eq!(exec_limit_cycles(&cfg, &o, NOW + 50), 100_000);
}

#[test]
fn test_lock_expired_exec_limit_precision_loss() {
    let mut cfg = config();
    // "1" stake token per mcycle, 6 decimals
    cfg.mcycle_price_stake_token = 1_000_000;
    let mut o = lock_expired_order(1, 4);
    o.offer.bidding_start = NOW - 100;
    o.offer.lock_timeout = 10;
    o.offer.timeout = 300;
    let r = skipped(evaluate_order(&cfg, &o, &env(), false, false));
    assert_eq!(r, SkipReason::ExecLimitTooLow);
    assert!(r.message().contains("exec limit is too low"));

    let mut o2 = lock_expired_order(2, 40);
    o2.offer.bidding_start = NOW - 100;
    o2.offer.lock_timeout = 10;
    o2.offer.timeout = 300;
    assert_eq!(exec_limit(evaluate_order(&cfg, &o2, &env(), false, false)), 10);
    let r = price_preflight(&cfg, &o2, &env(), PreflightResult::SessionLimitExceeded);
    assert_eq!(r, Ok(PricingOutcome::Skip(SkipReason::SessionLimitExceeded)));
}

#[test]
fn test_order_is_locked_check() {
    let cfg = config();
    let r = skipped(evaluate_order(&cfg, &order(1), &env(), true, false));
    assert_eq!(r, SkipReason::AlreadyLocked);
    assert!(r.message().contains("is already locked, skipping"));
    // a lock does not stop a fulfill-after-lock-expire order
    let o = lock_expired_order(1, 0);
    assert!(matches!(evaluate_order(&cfg, &o, &env(), true, false), Admission::Preflight { .. }));
    assert_eq!(skipped(evaluate_order(&cfg, &o, &env(), false, true)), SkipReason::AlreadyFulfilled);
}

#[test]
fn expiry_at_min_deadline_skips() {
    let mut cfg = config();
    cfg.min_deadline = 300;
    let mut o = order(1);
    o.offer.lock_timeout = 300;
    assert_eq!(skipped(evaluate_order(&cfg, &o, &env(), false, false)), SkipReason::WithinMinDeadline);
    o.offer.lock_timeout = 301;
    assert!(matches!(evaluate_order(&cfg, &o, &env(), false, false), Admission::Preflight { .. }));
    o.offer.bidding_start = NOW - 1000;
    assert_eq!(skipped(evaluate_order(&cfg, &o, &env(), false, false)), SkipReason::Expired);
}

#[test]
fn stake_boundary_values() {
    let cfg = config();
    let mut o = order(1);
    o.offer.lock_stake = 100;
    let mut e = env();
    e.stake_balance = 130;
    e.reserved_stake = 30;
    assert!(matches!(evaluate_order(&cfg, &o, &e, false, false), Admission::Preflight { .. }));
    e.reserved_stake = 31;
    assert_eq!(skipped(evaluate_order(&cfg, &o, &e, false, false)), SkipReason::InsufficientStake);
}

#[test]
fn zero_cycles_at_price_skips() {
    let mut cfg = config();
    cfg.mcycle_price = ETHER;
    let mut o = order(1);
    o.offer.max_price = ETHER / 1_000_000 - 1;
    // free gas, so that only the cycle budget decides
    let mut e = env();
    e.gas_price = 0;
    assert_eq!(skipped(evaluate_order(&cfg, &o, &e, false, false)), SkipReason::ExecLimitTooLow);
}

#[test]
fn fast_lock_skips_preflight_within_means() {
    let mut cfg = config();
    cfg.fast_lock_min_price = Some(100);
    let o = order(1);
    assert_eq!(
        evaluate_order(&cfg, &o, &env(), false, false),
        Admission::Decided(PricingOutcome::Lock {
            total_cycles: 5_000_000_000,
            target_timestamp_secs: 0,
            expiry_secs: NOW + 900
        })
    );
    let mut e = env();
    e.gas_balance = 0;
    assert_eq!(skipped(evaluate_order(&cfg, &o, &e, false, false)), SkipReason::InsufficientGas);
}

#[test]
fn preflight_errors_are_classified() {
    let cfg = config();
    let o = order(1);
    let r = price_preflight(&cfg, &o, &env(), PreflightResult::GuestPanic("GuestPanic: boom".to_string()));
    let err = r.clone().unwrap_err();
    assert_eq!(err.code(), "[B-OP-003]");
    assert_eq!(err.detail(), "GuestPanic: boom");
    assert_eq!(settle_pricing(o, Some(r)), TaskEnd::RecordSkip(o.id()));
    let r = price_preflight(&cfg, &o, &env(), PreflightResult::Failed("disk".to_string()));
    assert_eq!(r.unwrap_err().code(), "[B-OP-500]");
    let mut e = env();
    e.gas_balance = 0;
    assert_eq!(
        price_preflight(&cfg, &o, &e, completed(10)),
        Ok(PricingOutcome::Skip(SkipReason::InsufficientGas))
    );
}

#[test]
fn exec_limit_from_price_values() {
    assert_eq!(calculate_exec_limit_from_price(4 * ETHER / 100, 100_000_000_000), 400_000_000_000);
    assert_eq!(calculate_exec_limit_from_price(7, 2_000_000), 3);
    assert_eq!(calculate_exec_limit_from_price(5, 0), u64::MAX);
    assert_eq!(calculate_exec_limit_from_price(u128::MAX, 1), u64::MAX);
    assert_eq!(calculate_exec_limit_from_price(u128::MAX, u128::MAX), 1_000_000);
}

#[test]
fn max_cycles_for_time_values() {
    assert_eq!(calculate_max_cycles_for_time(1, 150), 150_000);
    assert_eq!(calculate_max_cycles_for_time(0, 150), 0);
    assert_eq!(calculate_max_cycles_for_time(u64::MAX, 0), 0);
    assert_eq!(calculate_max_cycles_for_time(u64::MAX / 10, 2), u64::MAX);
}

#[test]
fn gas_reservation_values() {
    assert_eq!(gas_balance_reserved(3, 7), 21);
    assert_eq!(gas_balance_reserved(u128::MAX, 2), u128::MAX);
    assert_eq!(available_balance(100, 30), 70);
    assert_eq!(available_balance(30, 100), 0);
}

#[test]
fn cancelled_task_leaves_no_record() {
    let o = order(1);
    assert_eq!(settle_pricing(o, None), TaskEnd::Cancelled);
}

#[test]
fn resubmitted_order_gets_same_skip_record() {
    let o = order(1);
    let again = o;
    let first = settle_pricing(o, Some(Ok(PricingOutcome::Skip(SkipReason::InsufficientGas))));
    let second = settle_pricing(
        again,
        Some(Err(broker::errors::OrderPickerErr::UnexpectedErr("timeout".to_string()))),
    );
    assert_eq!(first, TaskEnd::RecordSkip(o.id()));
    assert_eq!(first, second);
}

#[test]
fn failed_reads_go_to_supervisor() {
    let o = order(1);
    let err = broker::errors::OrderPickerErr::RpcErr("rpc down".to_string());
    assert_eq!(settle_pricing(o, Some(Err(err.clone()))), TaskEnd::Propagate(err));
}

#[test]
fn staging_failures_keep_their_codes() {
    let cfg = config();
    let o = order(1);
    let r = price_preflight(&cfg, &o, &env(), PreflightResult::FetchImageFailed("404".to_string()));
    assert_eq!(r.unwrap_err().code(), "[B-OP-002]");
    let r = price_preflight(&cfg, &o, &env(), PreflightResult::FetchInputFailed("404".to_string()));
    assert_eq!(r.clone().unwrap_err().code(), "[B-OP-001]");
    assert_eq!(settle_pricing(o, Some(r)), TaskEnd::RecordSkip(o.id()));
}

#[test]
fn fast_lock_checks_stake() {
    let mut cfg = config();
    cfg.fast_lock_min_price = Some(100);
    let mut o = order(1);
    o.offer.lock_stake = 500;
    let mut e = env();
    e.stake_balance = 499;
    assert_eq!(broker::pricing::fast_evaluate_order(&cfg, &o, &e), None);
    e.stake_balance = 500;
    assert_eq!(
        broker::pricing::fast_evaluate_order(&cfg, &o, &e),
        Some(PricingOutcome::Lock {
            total_cycles: 5_000_000_000,
            target_timestamp_secs: 0,
            expiry_secs: NOW + 900
        })
    );
}
