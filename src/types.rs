use vstd::prelude::*;

verus! {

/// A 160-bit account address, held as its high 128 bits and its low 32 bits.
#[derive(Clone, Copy, Debug, PartialEq, Eq, Structural, Hash)]
pub struct Address {
    pub hi: u128,
    pub lo: u32,
}

/// A 256-bit request identifier: the client address, the client's request index
/// and the flag that marks a request signed by a smart contract.
#[derive(Clone, Copy, Debug, PartialEq, Eq, Structural, Hash)]
pub struct RequestId {
    pub client: Address,
    pub index: u32,
    pub smart_contract_signed: bool,
}

/// A 32-byte digest, as four 64-bit words (most significant first).
#[derive(Clone, Copy, Debug, PartialEq, Eq, Structural, Hash)]
pub struct Digest {
    pub w0: u64,
    pub w1: u64,
    pub w2: u64,
    pub w3: u64,
}

/// How the broker means to fulfill an order.
#[derive(Clone, Copy, Debug, PartialEq, Eq, Structural, Hash)]
pub enum FulfillmentType {
    /// Lock the request with stake, then prove and fulfill it.
    LockAndFulfill,
    /// Do not lock; prove and fulfill once the current locker's lock has expired.
    FulfillAfterLockExpire,
}

/// Identity of an order: two orders are the same order iff request id, request
/// digest and fulfillment type all match.
#[derive(Clone, Copy, Debug, PartialEq, Eq, Structural, Hash)]
pub struct OrderId {
    pub request_id: RequestId,
    pub digest: Digest,
    pub fulfillment_type: FulfillmentType,
}

/// The offer of a request. Prices and stake are in the smallest unit of their
/// token; times are epoch seconds and durations seconds from `bidding_start`.
#[derive(Clone, Copy, Debug, PartialEq, Eq, Structural)]
pub struct Offer {
    pub min_price: u128,
    pub max_price: u128,
    pub bidding_start: u64,
    pub ramp_up_period: u32,
    pub lock_timeout: u32,
    pub timeout: u32,
    pub lock_stake: u128,
}

/// The parts of a request's requirements that the pricing logic reads.
#[derive(Clone, Copy, Debug, PartialEq, Eq, Structural)]
pub struct Requirements {
    /// Proof-format selector.
    pub selector: u32,
    /// Gas limit of the callback, zero when the request has none.
    pub callback_gas_limit: u64,
}

/// A candidate order: a proof request and the broker's fulfillment intent.
#[derive(Clone, Copy, Debug, PartialEq, Eq, Structural)]
pub struct Order {
    pub request_id: RequestId,
    pub digest: Digest,
    pub fulfillment_type: FulfillmentType,
    pub offer: Offer,
    pub requirements: Requirements,
}

impl Order {
    pub open spec fn spec_id(&self) -> OrderId {
        OrderId {
            request_id: self.request_id,
            digest: self.digest,
            fulfillment_type: self.fulfillment_type,
        }
    }

    /// The identity under which the order is deduplicated.
    pub fn id(&self) -> (r: OrderId)
        ensures
            r == self.spec_id(),
    {
        OrderId {
            request_id: self.request_id,
            digest: self.digest,
            fulfillment_type: self.fulfillment_type,
        }
    }
}

} // verus!
