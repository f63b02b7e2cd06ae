use vstd::prelude::*;

verus! {

/// The typed failures of the registry core.
///
/// Every operation either fully commits or returns one of these with the
/// store left untouched; no partial write ever survives a failure.
#[derive(Clone, Copy, PartialEq, Eq, Structural, Debug)]
pub enum SolSignalError {
    /// An agent name longer than `MAX_NAME_LEN` bytes.
    NameTooLong,
    /// An asset symbol longer than `MAX_ASSET_LEN` bytes.
    AssetTooLong,
    /// A confidence value above 100.
    InvalidConfidence,
    /// A reasoning text longer than `MAX_REASONING_LEN` bytes.
    ReasoningTooLong,
    /// A time horizon that is not strictly in the future.
    InvalidTimeHorizon,
    /// A resolution attempted on a signal that is already settled.
    AlreadyResolved,
    /// A resolution attempted before the signal's time horizon.
    TimeHorizonNotReached,
    /// A resolution whose profile is not the one owning the target signal.
    Unauthorized,
    /// A subscription fee of zero.
    InvalidFee,
    /// A consumption against a subscription whose `active` flag is cleared.
    SubscriptionInactive,
    /// A consumption at or after the subscription's expiry time.
    SubscriptionExpired,
    /// A creation whose derived address is already occupied: a duplicate
    /// registry bootstrap, agent registration, subscription or consumption.
    AlreadyExists,
}

} // verus!
