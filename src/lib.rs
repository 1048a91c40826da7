//! Order admission and pricing core of a proof-marketplace broker.
//!
//! The library decides, for each incoming proof-request order, whether to lock it,
//! to prove it after another prover's lock expires, or to skip it; it keeps the
//! pending queue and the table of in-flight pricing tasks, applies preemption
//! events, and accounts for the stake and gas that committed orders reserve.
//! Everything that talks to the network, the chain, the database or the prover
//! lives outside; those results reach the library as plain values.

pub mod accounting;
pub mod admission;
pub mod dedup;
pub mod errors;
pub mod laws;
pub mod pricing;
pub mod stream;
pub mod types;
