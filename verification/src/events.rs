use vstd::prelude::*;
use crate::identity::Address;
use crate::state::Direction;
use crate::state::Identity;
use crate::state::Outcome;

verus! {

/// Emitted by a successful publish, carrying the full signal payload. The
/// event stream, not the stored record, is the channel by which the raw
/// asset text leaves the system; the record keeps only the fingerprint of
/// the reasoning. Operations return their event; the hosting environment
/// appends it to the externally observable log.
#[derive(Debug)]
pub struct SignalPublished {
    pub agent: Identity,
    pub signal: Address,
    pub asset: Vec<u8>,
    pub direction: Direction,
    pub confidence: u8,
    pub entry_price: u64,
    pub target_price: u64,
    pub time_horizon: i64,
    pub timestamp: i64,
}

/// Emitted by a successful resolution, carrying the settled outcome and the
/// recomputed accuracy of the owning profile.
#[derive(Clone, Copy, PartialEq, Eq, Structural, Debug)]
pub struct SignalResolved {
    pub agent: Identity,
    pub signal: Address,
    pub outcome: Outcome,
    pub resolution_price: u64,
    pub accuracy_bps: u16,
    pub timestamp: i64,
}

/// Emitted by a successful subscription purchase.
#[derive(Clone, Copy, PartialEq, Eq, Structural, Debug)]
pub struct SubscriptionCreated {
    pub subscriber: Identity,
    pub agent: Identity,
    pub fee_paid: u64,
    pub expires_at: i64,
    pub timestamp: i64,
}

/// Emitted by a successful consumption.
#[derive(Clone, Copy, PartialEq, Eq, Structural, Debug)]
pub struct SignalConsumed {
    pub subscriber: Identity,
    pub signal: Address,
    pub signal_index: u64,
    pub timestamp: i64,
}

} // verus!
