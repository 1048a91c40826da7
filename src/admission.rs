use vstd::prelude::*;

use crate::pricing::{
    effective_expiration, mul_div, sat_sub, spec_effective_expiration, PricingOutcome,
};
use crate::dedup::OrderCache;
use crate::types::{FulfillmentType, Offer, Order, OrderId, RequestId};

verus! {

/// How the next order to price is chosen from the pending queue.
#[derive(Clone, Copy, Debug, PartialEq, Eq, Structural)]
pub enum OrderPricingPriority {
    /// Oldest first.
    Fifo,
    /// Soonest effective expiration first.
    ShortestExpiryFirst,
    /// Highest current price first.
    HighestPriceFirst,
}

/// A queued order; an urgent one was queued at the head and goes first
/// whatever the mode.
#[derive(Clone, Copy, Debug, PartialEq, Eq, Structural)]
pub struct PendingOrder {
    pub order: Order,
    pub urgent: bool,
}

/// An in-flight pricing task: its handle and the order it prices.
#[derive(Clone, Copy, Debug, PartialEq, Eq, Structural)]
pub struct ActiveTask {
    pub task: u64,
    pub order_id: OrderId,
}

/// The price of `offer` at time `now`: `min_price` until bidding starts, then
/// rising linearly to `max_price` over the ramp-up period (never below
/// `min_price`).
pub open spec fn spec_price_at(offer: Offer, now: int) -> int {
    let spread = sat_sub(offer.max_price as int, offer.min_price as int);
    let elapsed = now - offer.bidding_start;
    if elapsed <= 0 {
        offer.min_price as int
    } else if elapsed >= offer.ramp_up_period {
        offer.min_price + spread
    } else {
        offer.min_price + spread * elapsed / (offer.ramp_up_period as int)
    }
}

/// The price of `offer` at time `now`.
pub fn price_at(offer: &Offer, now: u64) -> (r: u128)
    ensures
        r as int == spec_price_at(*offer, now as int),
{
    let spread = offer.max_price.saturating_sub(offer.min_price);
    if now <= offer.bidding_start {
        return offer.min_price;
    }
    let elapsed = now - offer.bidding_start;
    if elapsed >= offer.ramp_up_period as u64 {
        return offer.min_price + spread;
    }
    let part = mul_div(spread, elapsed as u128, offer.ramp_up_period as u128);
    proof {
        let s = spread as int;
        let e = elapsed as int;
        let d = offer.ramp_up_period as int;
        assert(s * e <= s * d) by (nonlinear_arith)
            requires
                0 <= e < d,
                s >= 0,
        ;
        assert(s * e / d <= s * d / d) by (nonlinear_arith)
            requires
                s * e <= s * d,
                d > 0,
                s * e >= 0,
        ;
        assert(s * d / d == s) by (nonlinear_arith)
            requires
                d > 0,
        ;
    }
    offer.min_price + part
}

/// The index that the priority policy picks from a non-empty queue `s`: the
/// first urgent order if there is one; otherwise, by mode, the oldest order, the
/// first of the soonest-expiring ones, or the first of the highest-priced ones.
pub open spec fn spec_picks(
    s: Seq<PendingOrder>,
    mode: OrderPricingPriority,
    now: int,
    i: int,
) -> bool {
    &&& 0 <= i < s.len()
    &&& if exists|j: int| 0 <= j < s.len() && (#[trigger] s[j]).urgent {
        s[i].urgent && forall|j: int| 0 <= j < i ==> !(#[trigger] s[j]).urgent
    } else {
        match mode {
            OrderPricingPriority::Fifo => i == 0,
            OrderPricingPriority::ShortestExpiryFirst => {
                &&& forall|j: int|
                    0 <= j < s.len() ==> spec_effective_expiration(s[i].order)
                        <= spec_effective_expiration(#[trigger] s[j].order)
                &&& forall|j: int|
                    0 <= j < i ==> spec_effective_expiration(#[trigger] s[j].order)
                        > spec_effective_expiration(s[i].order)
            },
            OrderPricingPriority::HighestPriceFirst => {
                &&& forall|j: int|
                    0 <= j < s.len() ==> spec_price_at(s[i].order.offer, now) >= spec_price_at(
                        (#[trigger] s[j]).order.offer,
                        now,
                    )
                &&& forall|j: int|
                    0 <= j < i ==> spec_price_at((#[trigger] s[j]).order.offer, now)
                        < spec_price_at(s[i].order.offer, now)
            },
        }
    }
}

/// The index the priority policy picks from the non-empty queue `s`.
fn pick_index(s: &Vec<PendingOrder>, mode: OrderPricingPriority, now: u64) -> (r: usize)
    requires
        s@.len() > 0,
    ensures
        spec_picks(s@, mode, now as int, r as int),
{
    let mut i: usize = 0;
    while i < s.len()
        invariant
            i <= s.len(),
            forall|j: int| 0 <= j < i ==> !(#[trigger] s@[j]).urgent,
        decreases s.len() - i,
    {
        if s[i].urgent {
            return i;
        }
        i = i + 1;
    }
    match mode {
        OrderPricingPriority::Fifo => 0,
        OrderPricingPriority::ShortestExpiryFirst => {
            let mut best: usize = 0;
            let mut best_exp = effective_expiration(&s[0].order);
            let mut k: usize = 1;
            while k < s.len()
                invariant
                    1 <= k <= s.len(),
                    best < k,
                    best_exp as int == spec_effective_expiration(s@[best as int].order),
                    forall|j: int|
                        0 <= j < k ==> best_exp <= spec_effective_expiration(
                            #[trigger] s@[j].order,
                        ),
                    forall|j: int|
                        0 <= j < best ==> spec_effective_expiration(#[trigger] s@[j].order)
                            > best_exp,
                decreases s.len() - k,
            {
                let e = effective_expiration(&s[k].order);
                if e < best_exp {
                    best = k;
                    best_exp = e;
                }
                k = k + 1;
            }
            best
        },
        OrderPricingPriority::HighestPriceFirst => {
            let mut best: usize = 0;
            let mut best_price = price_at(&s[0].order.offer, now);
            let mut k: usize = 1;
            while k < s.len()
                invariant
                    1 <= k <= s.len(),
                    best < k,
                    best_price as int == spec_price_at(s@[best as int].order.offer, now as int),
                    forall|j: int|
                        0 <= j < k ==> best_price >= spec_price_at(
                            (#[trigger] s@[j]).order.offer,
                            now as int,
                        ),
                    forall|j: int|
                        0 <= j < best ==> spec_price_at((#[trigger] s@[j]).order.offer, now as int)
                            < best_price,
                decreases s.len() - k,
            {
                let p = price_at(&s[k].order.offer, now);
                if p > best_price {
                    best = k;
                    best_price = p;
                }
                k = k + 1;
            }
            best
        },
    }
}


/// An event from the chain watcher about a request.
#[derive(Clone, Copy, Debug, PartialEq, Eq, Structural)]
pub enum OrderStateChange {
    /// Some prover locked the request.
    Locked { request_id: RequestId },
    /// The request was fulfilled.
    Fulfilled { request_id: RequestId },
}

/// Whether an order with identity `id` survives event `ev`: a lock preempts the
/// request's `LockAndFulfill` orders, a fulfillment all of the request's orders.
pub open spec fn spares(ev: OrderStateChange, id: OrderId) -> bool {
    match ev {
        OrderStateChange::Locked { request_id } => !(id.request_id == request_id
            && id.fulfillment_type == FulfillmentType::LockAndFulfill),
        OrderStateChange::Fulfilled { request_id } => id.request_id != request_id,
    }
}

/// The pending orders of `s` that survive `ev`, in their order.
pub open spec fn spared_pending(s: Seq<PendingOrder>, ev: OrderStateChange) -> Seq<PendingOrder>
    decreases s.len(),
{
    if s.len() == 0 {
        s
    } else if spares(ev, s.last().order.spec_id()) {
        spared_pending(s.drop_last(), ev).push(s.last())
    } else {
        spared_pending(s.drop_last(), ev)
    }
}

/// The tasks of `s` that satisfy `pred`, in their order.
pub open spec fn keep_tasks(s: Seq<ActiveTask>, pred: spec_fn(ActiveTask) -> bool) -> Seq<
    ActiveTask,
>
    decreases s.len(),
{
    if s.len() == 0 {
        s
    } else if pred(s.last()) {
        keep_tasks(s.drop_last(), pred).push(s.last())
    } else {
        keep_tasks(s.drop_last(), pred)
    }
}

/// The active tasks of `s` that survive `ev`, in their order.
pub open spec fn spared_tasks(s: Seq<ActiveTask>, ev: OrderStateChange) -> Seq<ActiveTask> {
    keep_tasks(s, |t: ActiveTask| spares(ev, t.order_id))
}

/// The active tasks of `s` that `ev` cancels, in their order.
pub open spec fn cancelled_tasks(s: Seq<ActiveTask>, ev: OrderStateChange) -> Seq<ActiveTask> {
    keep_tasks(s, |t: ActiveTask| !spares(ev, t.order_id))
}

/// The active tasks of `s` but the one with handle `task`.
pub open spec fn without_task(s: Seq<ActiveTask>, task: u64) -> Seq<ActiveTask> {
    keep_tasks(s, |t: ActiveTask| t.task != task)
}

proof fn lemma_spared_pending(s: Seq<PendingOrder>, ev: OrderStateChange)
    ensures
        forall|i: int|
            0 <= i < spared_pending(s, ev).len() ==> spares(
                ev,
                (#[trigger] spared_pending(s, ev)[i]).order.spec_id(),
            ),
    decreases s.len(),
{
    if s.len() > 0 {
        lemma_spared_pending(s.drop_last(), ev);
    }
}

/// Handles and identities each occur once among `s`, and every handle is below
/// `next`.
pub open spec fn tasks_wf(s: Seq<ActiveTask>, next: u64) -> bool {
    &&& forall|i: int, j: int|
        0 <= i < s.len() && 0 <= j < s.len() && i != j ==> (#[trigger] s[i]).task != (
        #[trigger] s[j]).task && s[i].order_id != s[j].order_id
    &&& forall|i: int| 0 <= i < s.len() ==> (#[trigger] s[i]).task < next
}

pub proof fn lemma_keep_tasks(s: Seq<ActiveTask>, pred: spec_fn(ActiveTask) -> bool, next: u64)
    ensures
        forall|i: int|
            0 <= i < keep_tasks(s, pred).len() ==> pred(#[trigger] keep_tasks(s, pred)[i])
                && s.contains(keep_tasks(s, pred)[i]),
        forall|i: int|
            0 <= i < s.len() && pred(#[trigger] s[i]) ==> keep_tasks(s, pred).contains(s[i]),
        tasks_wf(s, next) ==> tasks_wf(keep_tasks(s, pred), next),
    decreases s.len(),
{
    if s.len() > 0 {
        let p = s.drop_last();
        lemma_keep_tasks(p, pred, next);
        let r = keep_tasks(p, pred);
        let t = keep_tasks(s, pred);
        assert(s[s.len() - 1] == s.last());
        assert forall|i: int| 0 <= i < r.len() implies s.contains(#[trigger] r[i]) by {
            let k = choose|k: int| 0 <= k < p.len() && p[k] == r[i];
            assert(s[k] == r[i]);
        }
        assert forall|i: int| 0 <= i < s.len() && pred(#[trigger] s[i]) implies t.contains(
            s[i],
        ) by {
            if i < s.len() - 1 {
                assert(p[i] == s[i]);
                let k = choose|k: int| 0 <= k < r.len() && r[k] == p[i];
                assert(t[k] == s[i]);
            } else {
                assert(t[t.len() - 1] == s[i]);
            }
        }
        if tasks_wf(s, next) {
            assert(tasks_wf(p, next)) by {
                assert forall|i: int, j: int|
                    0 <= i < p.len() && 0 <= j < p.len() && i != j implies (#[trigger] p[i]).task
                    != (#[trigger] p[j]).task && p[i].order_id != p[j].order_id by {
                    assert(p[i] == s[i] && p[j] == s[j]);
                }
                assert forall|i: int| 0 <= i < p.len() implies (#[trigger] p[i]).task < next by {
                    assert(p[i] == s[i]);
                }
            }
            if pred(s.last()) {
                assert forall|i: int| 0 <= i < r.len() implies (#[trigger] r[i]).task != s.last().task
                    && r[i].order_id != s.last().order_id by {
                    let k = choose|k: int| 0 <= k < p.len() && p[k] == r[i];
                    assert(s[k] == r[i]);
                }
            }
        }
    }
}


/// Whether an order with identity `id` survives `ev`.
pub fn survives(ev: OrderStateChange, id: OrderId) -> (r: bool)
    ensures
        r == spares(ev, id),
{
    match ev {
        OrderStateChange::Locked { request_id } => !(id.request_id == request_id
            && id.fulfillment_type == FulfillmentType::LockAndFulfill),
        OrderStateChange::Fulfilled { request_id } => id.request_id != request_id,
    }
}

fn spare_pending(s: &Vec<PendingOrder>, ev: OrderStateChange) -> (r: Vec<PendingOrder>)
    ensures
        r@ == spared_pending(s@, ev),
{
    let mut r: Vec<PendingOrder> = Vec::new();
    let mut i: usize = 0;
    while i < s.len()
        invariant
            i <= s.len(),
            r@ == spared_pending(s@.take(i as int), ev),
        decreases s.len() - i,
    {
        assert(s@.take(i + 1).drop_last() =~= s@.take(i as int));
        let p = s[i];
        if survives(ev, p.order.id()) {
            r.push(p);
        }
        i = i + 1;
    }
    assert(s@.take(i as int) =~= s@);
    r
}

fn split_tasks(s: &Vec<ActiveTask>, ev: OrderStateChange) -> (r: (Vec<ActiveTask>, Vec<ActiveTask>))
    ensures
        r.0@ == spared_tasks(s@, ev),
        r.1@ == cancelled_tasks(s@, ev),
{
    let mut kept: Vec<ActiveTask> = Vec::new();
    let mut gone: Vec<ActiveTask> = Vec::new();
    let mut i: usize = 0;
    while i < s.len()
        invariant
            i <= s.len(),
            kept@ == spared_tasks(s@.take(i as int), ev),
            gone@ == cancelled_tasks(s@.take(i as int), ev),
        decreases s.len() - i,
    {
        assert(s@.take(i + 1).drop_last() =~= s@.take(i as int));
        let t = s[i];
        if survives(ev, t.order_id) {
            kept.push(t);
        } else {
            gone.push(t);
        }
        i = i + 1;
    }
    assert(s@.take(i as int) =~= s@);
    (kept, gone)
}

fn drop_task(s: &Vec<ActiveTask>, task: u64) -> (r: Vec<ActiveTask>)
    ensures
        r@ == without_task(s@, task),
{
    let mut kept: Vec<ActiveTask> = Vec::new();
    let mut i: usize = 0;
    while i < s.len()
        invariant
            i <= s.len(),
            kept@ == without_task(s@.take(i as int), task),
        decreases s.len() - i,
    {
        assert(s@.take(i + 1).drop_last() =~= s@.take(i as int));
        if s[i].task != task {
            kept.push(s[i]);
        }
        i = i + 1;
    }
    assert(s@.take(i as int) =~= s@);
    kept
}

/// A pricing task to start: its handle and its order.
#[derive(Clone, Copy, Debug, PartialEq, Eq, Structural)]
pub struct SpawnedTask {
    pub task: u64,
    pub order: Order,
}

/// What dispatch did with one order it took off the queue: started a task for
/// it, or dropped it as a duplicate of an order already taken up.
#[derive(Clone, Copy, Debug, PartialEq, Eq, Structural)]
pub enum Dispatch {
    Start(SpawnedTask),
    Duplicate(Order),
}

/// What one dispatch round did, in the order the orders were taken.
#[derive(Clone, Debug)]
pub struct Dispatched {
    pub decisions: Vec<Dispatch>,
}

/// The order a dispatch decision is about.
pub open spec fn dispatch_order(d: Dispatch) -> Order {
    match d {
        Dispatch::Start(t) => t.order,
        Dispatch::Duplicate(o) => o,
    }
}

/// The in-flight tasks that the decisions `ds` started, in order.
pub open spec fn started(ds: Seq<Dispatch>) -> Seq<ActiveTask>
    decreases ds.len(),
{
    if ds.len() == 0 {
        Seq::empty()
    } else {
        match ds.last() {
            Dispatch::Start(t) => started(ds.drop_last()).push(
                ActiveTask { task: t.task, order_id: t.order.spec_id() },
            ),
            Dispatch::Duplicate(_) => started(ds.drop_last()),
        }
    }
}

/// Whether some task of `s` prices the order with identity `id`.
pub open spec fn has_id(s: Seq<ActiveTask>, id: OrderId) -> bool {
    exists|i: int| 0 <= i < s.len() && (#[trigger] s[i]).order_id == id
}

/// Deduplication in the decisions `ds`, taken with the cache remembering `rem`
/// and the tasks `active` in flight: an order is dropped only when its identity
/// is remembered, in flight, or started earlier in `ds`; an order is started
/// only when its identity is neither in flight nor started earlier.
pub open spec fn dedup_sound(ds: Seq<Dispatch>, rem: Set<OrderId>, active: Seq<ActiveTask>) -> bool {
    &&& forall|k: int|
        0 <= k < ds.len() && (#[trigger] ds[k]) is Duplicate ==> {
            let id = dispatch_order(ds[k]).spec_id();
            ||| rem.contains(id)
            ||| has_id(active, id)
            ||| has_id(started(ds.take(k)), id)
        }
    &&& forall|k: int|
        0 <= k < ds.len() && (#[trigger] ds[k]) is Start ==> {
            let id = dispatch_order(ds[k]).spec_id();
            &&& !has_id(active, id)
            &&& !has_id(started(ds.take(k)), id)
        }
}

/// The index the priority policy picks from the queue `q`.
pub open spec fn pick_of(q: Seq<PendingOrder>, mode: OrderPricingPriority, now: int) -> int {
    choose|i: int| spec_picks(q, mode, now, i)
}

/// The queue left after the priority policy took `n` orders from `q`.
pub open spec fn queue_after(
    q: Seq<PendingOrder>,
    mode: OrderPricingPriority,
    now: int,
    n: nat,
) -> Seq<PendingOrder>
    decreases n,
{
    if n == 0 {
        q
    } else {
        let p = queue_after(q, mode, now, (n - 1) as nat);
        if p.len() == 0 {
            p
        } else {
            p.remove(pick_of(p, mode, now))
        }
    }
}

/// The first `n` orders the priority policy takes from `q`, in order.
pub open spec fn policy_picks(
    q: Seq<PendingOrder>,
    mode: OrderPricingPriority,
    now: int,
    n: nat,
) -> Seq<Order>
    decreases n,
{
    if n == 0 {
        Seq::empty()
    } else {
        let p = queue_after(q, mode, now, (n - 1) as nat);
        if p.len() == 0 {
            policy_picks(q, mode, now, (n - 1) as nat)
        } else {
            policy_picks(q, mode, now, (n - 1) as nat).push(p[pick_of(p, mode, now)].order)
        }
    }
}

/// The priority policy picks one index at most.
pub proof fn lemma_pick_unique(
    q: Seq<PendingOrder>,
    mode: OrderPricingPriority,
    now: int,
    i: int,
    j: int,
)
    requires
        spec_picks(q, mode, now, i),
        spec_picks(q, mode, now, j),
    ensures
        i == j,
{
    if i < j {
        assert(q[i] == q[i]);
        if exists|k: int| 0 <= k < q.len() && (#[trigger] q[k]).urgent {
        } else {
            match mode {
                OrderPricingPriority::Fifo => {},
                OrderPricingPriority::ShortestExpiryFirst => {
                    assert(spec_effective_expiration(q[i].order) <= spec_effective_expiration(
                        q[j].order,
                    ));
                },
                OrderPricingPriority::HighestPriceFirst => {
                    assert(spec_price_at(q[i].order.offer, now) >= spec_price_at(
                        q[j].order.offer,
                        now,
                    ));
                },
            }
        }
    } else if j < i {
        assert(q[j] == q[j]);
        if exists|k: int| 0 <= k < q.len() && (#[trigger] q[k]).urgent {
        } else {
            match mode {
                OrderPricingPriority::Fifo => {},
                OrderPricingPriority::ShortestExpiryFirst => {
                    assert(spec_effective_expiration(q[j].order) <= spec_effective_expiration(
                        q[i].order,
                    ));
                },
                OrderPricingPriority::HighestPriceFirst => {
                    assert(spec_price_at(q[j].order.offer, now) >= spec_price_at(
                        q[i].order.offer,
                        now,
                    ));
                },
            }
        }
    }
}

/// An order priced for the downstream executor.
#[derive(Clone, Copy, Debug, PartialEq, Eq, Structural)]
pub struct PricedOrder {
    pub order: Order,
    pub total_cycles: u64,
    pub target_timestamp: u64,
    pub expire_timestamp: u64,
}

/// How a pricing task ends: exactly one of emitting the order downstream,
/// recording it as skipped, handing a failed read to the supervisor (no
/// record; the order may be priced again), or nothing because it was cancelled.
#[derive(Clone, Debug, PartialEq, Eq)]
pub enum TaskEnd {
    Emit(PricedOrder),
    RecordSkip(OrderId),
    Propagate(crate::errors::OrderPickerErr),
    Cancelled,
}

/// The one way a pricing task of `order` ends, given what pricing returned, or
/// `None` when the task was cancelled first.
pub open spec fn spec_settle(
    order: Order,
    priced: Option<Result<PricingOutcome, crate::errors::OrderPickerErr>>,
) -> TaskEnd {
    match priced {
        None => TaskEnd::Cancelled,
        Some(Ok(PricingOutcome::Lock { total_cycles, target_timestamp_secs, expiry_secs })) => {
            TaskEnd::Emit(
                PricedOrder {
                    order,
                    total_cycles,
                    target_timestamp: target_timestamp_secs,
                    expire_timestamp: expiry_secs,
                },
            )
        },
        Some(
            Ok(
                PricingOutcome::ProveAfterLockExpire {
                    total_cycles,
                    lock_expire_timestamp_secs,
                    expiry_secs,
                },
            ),
        ) => TaskEnd::Emit(
            PricedOrder {
                order,
                total_cycles,
                target_timestamp: lock_expire_timestamp_secs,
                expire_timestamp: expiry_secs,
            },
        ),
        Some(Err(crate::errors::OrderPickerErr::RpcErr(m))) => TaskEnd::Propagate(
            crate::errors::OrderPickerErr::RpcErr(m),
        ),
        Some(_) => TaskEnd::RecordSkip(order.spec_id()),
    }
}

/// Ends a pricing task of `order`: a cancelled task (`None`) leaves no record;
/// a priced order is emitted with its cycles and timestamps; a failed read
/// (`RpcErr`) goes to the supervisor; any other skip or failure is recorded as
/// skipped.
pub fn settle_pricing(
    order: Order,
    priced: Option<Result<PricingOutcome, crate::errors::OrderPickerErr>>,
) -> (r: TaskEnd)
    ensures
        r == spec_settle(order, priced),
{
    match priced {
        None => TaskEnd::Cancelled,
        Some(Ok(PricingOutcome::Lock { total_cycles, target_timestamp_secs, expiry_secs })) => {
            TaskEnd::Emit(
                PricedOrder {
                    order,
                    total_cycles,
                    target_timestamp: target_timestamp_secs,
                    expire_timestamp: expiry_secs,
                },
            )
        },
        Some(
            Ok(
                PricingOutcome::ProveAfterLockExpire {
                    total_cycles,
                    lock_expire_timestamp_secs,
                    expiry_secs,
                },
            ),
        ) => TaskEnd::Emit(
            PricedOrder {
                order,
                total_cycles,
                target_timestamp: lock_expire_timestamp_secs,
                expire_timestamp: expiry_secs,
            },
        ),
        Some(Err(crate::errors::OrderPickerErr::RpcErr(m))) => TaskEnd::Propagate(
            crate::errors::OrderPickerErr::RpcErr(m),
        ),
        Some(_) => TaskEnd::RecordSkip(order.id()),
    }
}

/// The state of the admission controller: the pending queue, the table of
/// in-flight pricing tasks, the pricing capacity and the priority mode.
pub struct OrderPicker {
    pub pending: Vec<PendingOrder>,
    pub active: Vec<ActiveTask>,
    pub capacity: usize,
    pub priority_mode: OrderPricingPriority,
    pub next_task: u64,
}

impl OrderPicker {
    /// No two in-flight tasks share a handle or an order identity, and the next
    /// handle is unused.
    pub open spec fn wf(&self) -> bool {
        tasks_wf(self.active@, self.next_task)
    }

    /// An idle controller with the given capacity and mode.
    pub fn new(capacity: usize, priority_mode: OrderPricingPriority) -> (r: Self)
        ensures
            r.wf(),
            r.pending@ == Seq::<PendingOrder>::empty(),
            r.active@ == Seq::<ActiveTask>::empty(),
            r.capacity == capacity,
            r.priority_mode == priority_mode,
    {
        OrderPicker {
            pending: Vec::new(),
            active: Vec::new(),
            capacity,
            priority_mode,
            next_task: 0,
        }
    }

    /// Queues `order`: at the head when its price at `now` exceeds the
    /// high-value threshold, at the tail otherwise. Returns whether it went to
    /// the head.
    pub fn add_order(&mut self, order: Order, now: u64, high_value_threshold: Option<u128>) -> (r:
        bool)
        requires
            old(self).wf(),
        ensures
            final(self).wf(),
            r == match high_value_threshold {
                Some(t) => spec_price_at(order.offer, now as int) > t,
                None => false,
            },
            r ==> final(self).pending@ == seq![PendingOrder { order, urgent: true }] + old(
                self,
            ).pending@,
            !r ==> final(self).pending@ == old(self).pending@.push(
                PendingOrder { order, urgent: false },
            ),
            final(self).active@ == old(self).active@,
            final(self).next_task == old(self).next_task,
            final(self).capacity == old(self).capacity,
            final(self).priority_mode == old(self).priority_mode,
    {
        let urgent = match high_value_threshold {
            Some(t) => price_at(&order.offer, now) > t,
            None => false,
        };
        if urgent {
            self.pending.insert(0, PendingOrder { order, urgent: true });
            assert(self.pending@ =~= seq![PendingOrder { order, urgent: true }] + old(
                self,
            ).pending@);
        } else {
            self.pending.push(PendingOrder { order, urgent: false });
        }
        urgent
    }

    /// Takes the next order to price off the queue, by the priority policy.
    pub fn select_next_pricing_order(&mut self, now: u64) -> (r: Option<Order>)
        requires
            old(self).wf(),
        ensures
            final(self).wf(),
            old(self).pending@.len() == 0 ==> r is None && final(self).pending@ == old(
                self,
            ).pending@,
            old(self).pending@.len() > 0 ==> exists|i: int|
                spec_picks(old(self).pending@, old(self).priority_mode, now as int, i) && r
                    == Some(old(self).pending@[i].order) && final(self).pending@ == old(
                    self,
                ).pending@.remove(i),
            final(self).active@ == old(self).active@,
            final(self).next_task == old(self).next_task,
            final(self).capacity == old(self).capacity,
            final(self).priority_mode == old(self).priority_mode,
    {
        if self.pending.len() == 0 {
            return None;
        }
        let i = pick_index(&self.pending, self.priority_mode, now);
        let p = self.pending.remove(i);
        assert(spec_picks(old(self).pending@, old(self).priority_mode, now as int, i as int));
        Some(p.order)
    }

    /// Whether an in-flight task prices the order with identity `id`.
    pub fn is_active(&self, id: &OrderId) -> (r: bool)
        ensures
            r == exists|i: int| 0 <= i < self.active@.len() && (#[trigger] self.active@[i]).order_id
                == *id,
    {
        let mut i: usize = 0;
        while i < self.active.len()
            invariant
                i <= self.active.len(),
                forall|j: int| 0 <= j < i ==> (#[trigger] self.active@[j]).order_id != *id,
            decreases self.active.len() - i,
        {
            if self.active[i].order_id == *id {
                return true;
            }
            i = i + 1;
        }
        false
    }

    /// Applies a state-change event: cancels the in-flight tasks and drops the
    /// pending orders that `ev` preempts, keeping the others in their order.
    /// Returns the cancelled tasks.
    pub fn apply_state_change(&mut self, ev: OrderStateChange) -> (r: Vec<ActiveTask>)
        requires
            old(self).wf(),
        ensures
            final(self).wf(),
            final(self).pending@ == spared_pending(old(self).pending@, ev),
            final(self).active@ == spared_tasks(old(self).active@, ev),
            r@ == cancelled_tasks(old(self).active@, ev),
            forall|i: int|
                0 <= i < final(self).pending@.len() ==> spares(
                    ev,
                    (#[trigger] final(self).pending@[i]).order.spec_id(),
                ),
            forall|i: int|
                0 <= i < final(self).active@.len() ==> spares(
                    ev,
                    (#[trigger] final(self).active@[i]).order_id,
                ),
            final(self).next_task == old(self).next_task,
            final(self).capacity == old(self).capacity,
            final(self).priority_mode == old(self).priority_mode,
    {
        let pending = spare_pending(&self.pending, ev);
        let (kept, gone) = split_tasks(&self.active, ev);
        proof {
            lemma_spared_pending(old(self).pending@, ev);
            lemma_keep_tasks(
                old(self).active@,
                |t: ActiveTask| spares(ev, t.order_id),
                old(self).next_task,
            );
        }
        self.pending = pending;
        self.active = kept;
        gone
    }

    /// A lock of `request_id` by any prover: cancels and drops the request's
    /// `LockAndFulfill` orders and leaves its `FulfillAfterLockExpire` orders.
    pub fn handle_lock_event(&mut self, request_id: RequestId) -> (r: Vec<ActiveTask>)
        requires
            old(self).wf(),
        ensures
            final(self).wf(),
            final(self).pending@ == spared_pending(
                old(self).pending@,
                OrderStateChange::Locked { request_id },
            ),
            final(self).active@ == spared_tasks(
                old(self).active@,
                OrderStateChange::Locked { request_id },
            ),
            r@ == cancelled_tasks(old(self).active@, OrderStateChange::Locked { request_id }),
            forall|i: int|
                0 <= i < final(self).pending@.len() ==> !((#[trigger] final(self).pending@[i]).order.request_id
                    == request_id && final(self).pending@[i].order.fulfillment_type
                    == FulfillmentType::LockAndFulfill),
            forall|i: int|
                0 <= i < final(self).active@.len() ==> !((#[trigger] final(self).active@[i]).order_id.request_id
                    == request_id && final(self).active@[i].order_id.fulfillment_type
                    == FulfillmentType::LockAndFulfill),
            final(self).next_task == old(self).next_task,
            final(self).capacity == old(self).capacity,
            final(self).priority_mode == old(self).priority_mode,
    {
        self.apply_state_change(OrderStateChange::Locked { request_id })
    }

    /// A fulfillment of `request_id`: cancels and drops all of the request's
    /// orders.
    pub fn handle_fulfill_event(&mut self, request_id: RequestId) -> (r: Vec<ActiveTask>)
        requires
            old(self).wf(),
        ensures
            final(self).wf(),
            final(self).pending@ == spared_pending(
                old(self).pending@,
                OrderStateChange::Fulfilled { request_id },
            ),
            final(self).active@ == spared_tasks(
                old(self).active@,
                OrderStateChange::Fulfilled { request_id },
            ),
            r@ == cancelled_tasks(old(self).active@, OrderStateChange::Fulfilled { request_id }),
            forall|i: int|
                0 <= i < final(self).pending@.len() ==> (#[trigger] final(self).pending@[i]).order.request_id
                    != request_id,
            forall|i: int|
                0 <= i < final(self).active@.len() ==> (#[trigger] final(self).active@[i]).order_id.request_id
                    != request_id,
            final(self).next_task == old(self).next_task,
            final(self).capacity == old(self).capacity,
            final(self).priority_mode == old(self).priority_mode,
    {
        self.apply_state_change(OrderStateChange::Fulfilled { request_id })
    }

    /// A pricing task finished: releases its slot.
    pub fn task_completed(&mut self, task: u64)
        requires
            old(self).wf(),
        ensures
            final(self).wf(),
            final(self).active@ == without_task(old(self).active@, task),
            forall|i: int|
                0 <= i < final(self).active@.len() ==> (#[trigger] final(self).active@[i]).task
                    != task,
            final(self).pending@ == old(self).pending@,
            final(self).next_task == old(self).next_task,
            final(self).capacity == old(self).capacity,
            final(self).priority_mode == old(self).priority_mode,
    {
        let kept = drop_task(&self.active, task);
        proof {
            lemma_keep_tasks(old(self).active@, |t: ActiveTask| t.task != task, old(self).next_task);
        }
        self.active = kept;
    }

    /// A configuration refresh: takes the new capacity and priority mode at once.
    /// In-flight tasks and queued orders are left as they are, also when the
    /// capacity goes down. Returns whether the capacity changed.
    pub fn refresh_config(&mut self, capacity: usize, priority_mode: OrderPricingPriority) -> (r:
        bool)
        requires
            old(self).wf(),
        ensures
            final(self).wf(),
            r == (capacity != old(self).capacity),
            final(self).capacity == capacity,
            final(self).priority_mode == priority_mode,
            final(self).active@ == old(self).active@,
            final(self).pending@ == old(self).pending@,
            final(self).next_task == old(self).next_task,
    {
        let changed = capacity != self.capacity;
        self.capacity = capacity;
        self.priority_mode = priority_mode;
        changed
    }

    /// Starts pricing tasks while there is capacity and the queue is not empty,
    /// taking orders by the priority policy. An order whose identity is in
    /// flight, or that the deduplication cache reports, is dropped as a
    /// duplicate; any other is remembered in the cache and gets a fresh task.
    /// In-flight tasks are never removed.
    pub fn dispatch(&mut self, cache: &mut OrderCache, now: u64) -> (r: Dispatched)
        requires
            old(self).wf(),
        ensures
            final(self).wf(),
            final(self).capacity == old(self).capacity,
            final(self).priority_mode == old(self).priority_mode,
            r.decisions@.len() <= old(self).pending@.len(),
            policy_picks(
                old(self).pending@,
                old(self).priority_mode,
                now as int,
                r.decisions@.len() as nat,
            ).len() == r.decisions@.len(),
            forall|k: int|
                0 <= k < r.decisions@.len() ==> dispatch_order(#[trigger] r.decisions@[k])
                    == policy_picks(
                    old(self).pending@,
                    old(self).priority_mode,
                    now as int,
                    r.decisions@.len() as nat,
                )[k],
            final(self).pending@ == queue_after(
                old(self).pending@,
                old(self).priority_mode,
                now as int,
                r.decisions@.len() as nat,
            ),
            final(self).active@ == old(self).active@ + started(r.decisions@),
            dedup_sound(r.decisions@, old(cache).spec_remembered(), old(self).active@),
            forall|id: OrderId|
                #![trigger final(cache).spec_remembered().contains(id)]
                final(cache).spec_remembered().contains(id) <==> (old(
                    cache,
                ).spec_remembered().contains(id) || has_id(started(r.decisions@), id)),
            final(cache).spec_max_capacity() == old(cache).spec_max_capacity(),
            final(cache).spec_ttl_secs() == old(cache).spec_ttl_secs(),
            old(self).active@.len() <= old(self).capacity ==> final(self).active@.len()
                <= old(self).capacity,
            old(self).active@.len() > old(self).capacity ==> started(r.decisions@).len() == 0,
            final(self).pending@.len() == 0 || final(self).active@.len() >= final(self).capacity
                || final(self).next_task == u64::MAX,
    {
        let mut decisions: Vec<Dispatch> = Vec::new();
        let ghost old_active = self.active@;
        let ghost q0 = self.pending@;
        let ghost old_rem = cache.spec_remembered();
        let ghost mode = self.priority_mode;
        while self.active.len() < self.capacity && self.pending.len() > 0 && self.next_task
            < u64::MAX
            invariant
                self.wf(),
                self.capacity == old(self).capacity,
                self.priority_mode == mode,
                mode == old(self).priority_mode,
                old_active == old(self).active@,
                q0 == old(self).pending@,
                old_rem == old(cache).spec_remembered(),
                decisions@.len() <= q0.len(),
                self.pending@ == queue_after(q0, mode, now as int, decisions@.len() as nat),
                self.pending@.len() + decisions@.len() == q0.len(),
                policy_picks(q0, mode, now as int, decisions@.len() as nat).len()
                    == decisions@.len(),
                forall|k: int|
                    0 <= k < decisions@.len() ==> dispatch_order(#[trigger] decisions@[k])
                        == policy_picks(q0, mode, now as int, decisions@.len() as nat)[k],
                self.active@ == old_active + started(decisions@),
                forall|k: int|
                    0 <= k < decisions@.len() && (#[trigger] decisions@[k]) is Duplicate ==> {
                        let id = dispatch_order(decisions@[k]).spec_id();
                        ||| old_rem.contains(id)
                        ||| has_id(old_active, id)
                        ||| has_id(started(decisions@.take(k)), id)
                    },
                forall|k: int|
                    0 <= k < decisions@.len() && (#[trigger] decisions@[k]) is Start ==> {
                        let id = dispatch_order(decisions@[k]).spec_id();
                        &&& !has_id(old_active, id)
                        &&& !has_id(started(decisions@.take(k)), id)
                    },
                forall|id: OrderId|
                    #![trigger cache.spec_remembered().contains(id)]
                    cache.spec_remembered().contains(id) <==> (old_rem.contains(id) || has_id(
                        started(decisions@),
                        id,
                    )),
                cache.spec_max_capacity() == old(cache).spec_max_capacity(),
                cache.spec_ttl_secs() == old(cache).spec_ttl_secs(),
                old_active.len() <= self.capacity ==> self.active@.len() <= self.capacity,
                old_active.len() > self.capacity ==> started(decisions@).len() == 0,
            decreases self.pending@.len(),
        {
            let ghost before_pending = self.pending@;
            let ghost before_active = self.active@;
            let ghost ds = decisions@;
            let ghost n = decisions@.len();
            let next = self.select_next_pricing_order(now);
            let order = next.unwrap();
            let id = order.id();
            proof {
                let i = choose|i: int|
                    spec_picks(before_pending, mode, now as int, i) && next == Some(
                        before_pending[i].order,
                    ) && self.pending@ == before_pending.remove(i);
                lemma_pick_unique(
                    before_pending,
                    mode,
                    now as int,
                    i,
                    pick_of(before_pending, mode, now as int),
                );
                assert(queue_after(q0, mode, now as int, (n + 1) as nat) == before_pending.remove(
                    i,
                ));
                assert(policy_picks(q0, mode, now as int, (n + 1) as nat) == policy_picks(
                    q0,
                    mode,
                    now as int,
                    n as nat,
                ).push(order));
            }
            let in_flight = self.is_active(&id);
            proof {
                if in_flight {
                    let j = choose|j: int|
                        0 <= j < self.active@.len() && (#[trigger] self.active@[j]).order_id == id;
                    if j < old_active.len() {
                        assert(old_active[j] == self.active@[j]);
                    } else {
                        assert(started(ds)[j - old_active.len()] == self.active@[j]);
                    }
                } else {
                    assert forall|j: int| 0 <= j < old_active.len() implies (
                    #[trigger] old_active[j]).order_id != id by {
                        assert(old_active[j] == self.active@[j]);
                    }
                    assert forall|j: int| 0 <= j < started(ds).len() implies (
                    #[trigger] started(ds)[j]).order_id != id by {
                        assert(started(ds)[j] == self.active@[old_active.len() + j]);
                    }
                }
            }
            if in_flight || cache.seen(&id) {
                decisions.push(Dispatch::Duplicate(order));
                proof {
                    assert(decisions@.drop_last() =~= ds);
                    assert(decisions@.take(n as int) =~= ds);
                    assert(started(decisions@) == started(ds));
                    assert forall|k: int| 0 <= k < n implies #[trigger] decisions@.take(k)
                        =~= ds.take(k) by {}
                }
            } else {
                cache.remember(id);
                let task = self.next_task;
                self.active.push(ActiveTask { task, order_id: id });
                self.next_task = self.next_task + 1;
                decisions.push(Dispatch::Start(SpawnedTask { task, order }));
                proof {
                    assert(decisions@.drop_last() =~= ds);
                    assert(decisions@.take(n as int) =~= ds);
                    let st = started(ds).push(ActiveTask { task, order_id: id });
                    assert(started(decisions@) == st);
                    assert forall|k: int| 0 <= k < n implies #[trigger] decisions@.take(k)
                        =~= ds.take(k) by {}
                    assert(self.active@ =~= old_active + st);
                    assert forall|x: OrderId| has_id(st, x) <==> (has_id(started(ds), x) || x
                        == id) by {
                        if x == id {
                            assert(st[st.len() - 1].order_id == id);
                        }
                        if has_id(started(ds), x) {
                            let j = choose|j: int|
                                0 <= j < started(ds).len() && (#[trigger] started(ds)[j]).order_id
                                    == x;
                            assert(st[j] == started(ds)[j]);
                        }
                        if has_id(st, x) {
                            let j = choose|j: int| 0 <= j < st.len() && (#[trigger] st[j]).order_id == x;
                            if j < started(ds).len() {
                                assert(st[j] == started(ds)[j]);
                            }
                        }
                    }
                    assert forall|i: int, j: int|
                        0 <= i < self.active@.len() && 0 <= j < self.active@.len() && i != j implies (
                        #[trigger] self.active@[i]).task != (#[trigger] self.active@[j]).task
                        && self.active@[i].order_id != self.active@[j].order_id by {
                        if i < before_active.len() && j < before_active.len() {
                            assert(before_active[i] == self.active@[i] && before_active[j]
                                == self.active@[j]);
                        } else if i < before_active.len() {
                            assert(before_active[i] == self.active@[i]);
                            if before_active[i].order_id == id {
                                if i < old_active.len() {
                                    assert(old_active[i] == before_active[i]);
                                } else {
                                    assert(started(ds)[i - old_active.len()] == before_active[i]);
                                }
                            }
                        } else if j < before_active.len() {
                            assert(before_active[j] == self.active@[j]);
                            if before_active[j].order_id == id {
                                if j < old_active.len() {
                                    assert(old_active[j] == before_active[j]);
                                } else {
                                    assert(started(ds)[j - old_active.len()] == before_active[j]);
                                }
                            }
                        }
                    }
                    assert forall|i: int| 0 <= i < self.active@.len() implies (
                    #[trigger] self.active@[i]).task < self.next_task by {
                        if i < before_active.len() {
                            assert(before_active[i] == self.active@[i]);
                        }
                    }
                }
            }
        }
        Dispatched { decisions }
    }
}

} // verus!
