use broker::admission::{
    price_at, Dispatch, Dispatched, SpawnedTask, settle_pricing, OrderPicker, OrderPricingPriority, OrderStateChange, TaskEnd,
};
use broker::dedup::OrderCache;
use broker::types::{Address, Digest, FulfillmentType, Offer, Order, RequestId, Requirements};

const NOW: u64 = 1_700_000_000;

/// The started tasks and the dropped duplicates of a dispatch round.
fn split(d: Dispatched) -> (Vec<SpawnedTask>, Vec<Order>) {
    let mut started = Vec::new();
    let mut dropped = Vec::new();
    for x in d.decisions {
        match x {
            Dispatch::Start(t) => started.push(t),
            Dispatch::Duplicate(o) => dropped.push(o),
        }
    }
    (started, dropped)
}

fn order(index: u32, fulfillment_type: FulfillmentType) -> Order {
    Order {
        request_id: RequestId {
            client: Address { hi: 0xabcdef, lo: 7 },
            index,
            smart_contract_signed: false,
        },
        digest: Digest { w0: 9, w1: 9, w2: 9, w3: index as u64 },
        fulfillment_type,
        offer: Offer {
            min_price: 1000,
            max_price: 2000,
            bidding_start: NOW,
            ramp_up_period: 100,
            lock_timeout: 900,
            timeout: 1200,
            lock_stake: 0,
        },
        requirements: Requirements { selector: 1, callback_gas_limit: 0 },
    }
}

fn lock_order(index: u32) -> Order {
    order(index, FulfillmentType::LockAndFulfill)
}

#[test]
fn preemption_cancels_without_skip_record() {
    let mut cache = OrderCache::new();
    let mut picker = OrderPicker::new(4, OrderPricingPriority::Fifo);
    let o = lock_order(1);
    picker.add_order(o, NOW, None);
    let d = split(picker.dispatch(&mut cache, NOW));
    assert_eq!(d.0.len(), 1);
    let task = d.0[0].task;
    let cancelled = picker.handle_lock_event(o.request_id);
    assert_eq!(cancelled.len(), 1);
    assert_eq!(cancelled[0].task, task);
    assert!(picker.active.is_empty());
    let end = settle_pricing(o, None);
    assert_eq!(end, TaskEnd::Cancelled);
}

#[test]
fn lock_event_spares_lock_expired_orders() {
    let mut cache = OrderCache::new();
    let mut picker = OrderPicker::new(1, OrderPricingPriority::Fifo);
    let locker = lock_order(1);
    let late = order(1, FulfillmentType::FulfillAfterLockExpire);
    let other = lock_order(2);
    picker.add_order(locker, NOW, None);
    picker.add_order(late, NOW, None);
    picker.add_order(other, NOW, None);
    let d = split(picker.dispatch(&mut cache, NOW));
    assert_eq!(d.0.len(), 1);
    assert_eq!(d.0[0].order, locker);
    // another pending LockAndFulfill order of the same request
    let twin = Order { digest: Digest { w0: 5, w1: 5, w2: 5, w3: 5 }, ..locker };
    picker.add_order(twin, NOW, None);
    let cancelled = picker.handle_lock_event(locker.request_id);
    assert_eq!(cancelled.len(), 1);
    assert!(picker.active.is_empty());
    let left: Vec<Order> = picker.pending.iter().map(|p| p.order).collect();
    assert_eq!(left, vec![late, other]);
}

#[test]
fn fulfill_event_removes_all_orders_of_request() {
    let mut cache = OrderCache::new();
    let mut picker = OrderPicker::new(1, OrderPricingPriority::Fifo);
    let late = order(1, FulfillmentType::FulfillAfterLockExpire);
    let locker = lock_order(1);
    let other = lock_order(2);
    picker.add_order(late, NOW, None);
    picker.add_order(locker, NOW, None);
    picker.add_order(other, NOW, None);
    let d = split(picker.dispatch(&mut cache, NOW));
    assert_eq!(d.0[0].order, late);
    let cancelled = picker.handle_fulfill_event(late.request_id);
    assert_eq!(cancelled.len(), 1);
    assert!(picker.active.is_empty());
    let left: Vec<Order> = picker.pending.iter().map(|p| p.order).collect();
    assert_eq!(left, vec![other]);
    let none = picker.apply_state_change(OrderStateChange::Fulfilled { request_id: late.request_id });
    assert!(none.is_empty());
}

#[test]
fn test_duplicate_order_cache() {
    let mut cache = OrderCache::new();
    let mut picker = OrderPicker::new(4, OrderPricingPriority::Fifo);
    let o1 = lock_order(1);
    let o2 = o1;
    assert_eq!(o1.id(), o2.id(), "Both orders should have the same ID");
    picker.add_order(o1, NOW, None);
    picker.add_order(o2, NOW, None);
    let d = split(picker.dispatch(&mut cache, NOW));
    assert_eq!(d.0.len(), 1, "First order should be processed");
    assert_eq!(d.1, vec![o1], "Second order should be deduplicated and not processed");
    // after the first task finished, the cache still knows the order
    picker.task_completed(d.0[0].task);
    assert!(picker.active.is_empty());
    picker.add_order(o1, NOW, None);
    let d = split(picker.dispatch(&mut cache, NOW));
    assert!(d.0.is_empty());
    assert_eq!(d.1.len(), 1);
}

#[test]
fn test_capacity_change() {
    let mut cache = OrderCache::new();
    let mut picker = OrderPicker::new(2, OrderPricingPriority::Fifo);
    for i in 0..3 {
        picker.add_order(lock_order(i), NOW, None);
    }
    let d = split(picker.dispatch(&mut cache, NOW));
    assert_eq!(d.0.len(), 2);
    assert_eq!(picker.pending.len(), 1);
    // a decrease never cancels tasks in flight
    assert!(picker.refresh_config(1, OrderPricingPriority::Fifo));
    assert_eq!(picker.active.len(), 2);
    assert!(!picker.refresh_config(1, OrderPricingPriority::Fifo));
    let d = split(picker.dispatch(&mut cache, NOW));
    assert!(d.0.is_empty());
    picker.task_completed(0);
    picker.task_completed(1);
    let d = split(picker.dispatch(&mut cache, NOW));
    assert_eq!(d.0.len(), 1);
    assert_eq!(picker.active.len(), 1);
}

#[test]
fn fifo_and_urgent_head() {
    let mut picker = OrderPicker::new(1, OrderPricingPriority::Fifo);
    let a = lock_order(1);
    let b = lock_order(2);
    let mut c = lock_order(3);
    c.offer.min_price = 50_000;
    c.offer.max_price = 50_000;
    assert!(!picker.add_order(a, NOW, Some(10_000)));
    assert!(!picker.add_order(b, NOW, Some(10_000)));
    assert!(picker.add_order(c, NOW, Some(10_000)));
    assert_eq!(picker.select_next_pricing_order(NOW), Some(c));
    assert_eq!(picker.select_next_pricing_order(NOW), Some(a));
    assert_eq!(picker.select_next_pricing_order(NOW), Some(b));
    assert_eq!(picker.select_next_pricing_order(NOW), None);
}

#[test]
fn shortest_expiry_first() {
    let mut picker = OrderPicker::new(1, OrderPricingPriority::ShortestExpiryFirst);
    let mut a = lock_order(1);
    a.offer.lock_timeout = 500;
    let mut b = lock_order(2);
    b.offer.lock_timeout = 300;
    let mut c = lock_order(3);
    c.offer.lock_timeout = 300;
    picker.add_order(a, NOW, None);
    picker.add_order(b, NOW, None);
    picker.add_order(c, NOW, None);
    assert_eq!(picker.select_next_pricing_order(NOW), Some(b));
    assert_eq!(picker.select_next_pricing_order(NOW), Some(c));
    assert_eq!(picker.select_next_pricing_order(NOW), Some(a));
}

#[test]
fn highest_price_first() {
    let mut picker = OrderPicker::new(1, OrderPricingPriority::HighestPriceFirst);
    let a = lock_order(1);
    let mut b = lock_order(2);
    b.offer.max_price = 3000;
    let mut c = lock_order(3);
    c.offer.min_price = 1500;
    picker.add_order(a, NOW, None);
    picker.add_order(b, NOW, None);
    picker.add_order(c, NOW, None);
    // at the start of bidding c leads; after the ramp b leads
    assert_eq!(picker.select_next_pricing_order(NOW), Some(c));
    picker.add_order(c, NOW, None);
    assert_eq!(picker.select_next_pricing_order(NOW + 100), Some(b));
}

#[test]
fn price_ramps_linearly() {
    let o = lock_order(1);
    assert_eq!(price_at(&o.offer, NOW - 10), 1000);
    assert_eq!(price_at(&o.offer, NOW), 1000);
    assert_eq!(price_at(&o.offer, NOW + 25), 1250);
    assert_eq!(price_at(&o.offer, NOW + 99), 1990);
    assert_eq!(price_at(&o.offer, NOW + 100), 2000);
    assert_eq!(price_at(&o.offer, NOW + 5000), 2000);
    let mut big = o.offer;
    big.min_price = 0;
    big.max_price = u128::MAX;
    assert_eq!(price_at(&big, NOW + 50), u128::MAX / 2);
}

#[test]
fn dispatch_follows_priority_and_new_mode() {
    let mut cache = OrderCache::new();
    let mut picker = OrderPicker::new(1, OrderPricingPriority::Fifo);
    let mut a = lock_order(1);
    a.offer.lock_timeout = 800;
    let mut b = lock_order(2);
    b.offer.lock_timeout = 400;
    picker.add_order(a, NOW, None);
    picker.add_order(b, NOW, None);
    picker.refresh_config(1, OrderPricingPriority::ShortestExpiryFirst);
    let d = picker.dispatch(&mut cache, NOW);
    assert_eq!(d.decisions.len(), 1);
    assert!(matches!(d.decisions[0], Dispatch::Start(t) if t.order == b));
}
