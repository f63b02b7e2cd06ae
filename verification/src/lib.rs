//! A registry in which pseudonymous agents publish falsifiable, time-bounded
//! market predictions ("signals"), sell time-limited read access to them, and
//! later settle each prediction against an observed price to maintain a
//! tamper-evident reputation score.
//!
//! The core is the entity lifecycle and settlement state machine: the global
//! counters, per-agent reputation, per-signal resolution state and
//! per-subscriber access rights are kept mutually consistent by the verified
//! operations in [`registration`], [`lifecycle`] and [`gateway`], each of
//! which either fully commits or fails with a typed error and no side
//! effect. The hosting execution environment supplies atomic commits, the
//! clock and funds transfers; it hands every operation the current time and
//! performs the subscription fee transfer in the same atomic unit.

pub mod errors;
pub mod events;
pub mod fingerprint;
pub mod gateway;
pub mod identity;
pub mod laws;
pub mod lifecycle;
pub mod model;
pub mod registration;
pub mod state;
pub mod store;

pub use errors::SolSignalError;
pub use events::SignalConsumed;
pub use events::SignalPublished;
pub use events::SignalResolved;
pub use events::SubscriptionCreated;
pub use gateway::consume_signal;
pub use gateway::subscribe;
pub use gateway::ConsumeSignal;
pub use gateway::Subscribe;
pub use identity::Address;
pub use lifecycle::publish_signal;
pub use lifecycle::resolve_signal;
pub use lifecycle::PublishSignal;
pub use lifecycle::ResolveSignal;
pub use registration::initialize;
pub use registration::register_agent;
pub use registration::Initialize;
pub use registration::RegisterAgent;
pub use state::AgentProfile;
pub use state::ConsumptionLog;
pub use state::Direction;
pub use state::Identity;
pub use state::Outcome;
pub use state::Registry;
pub use state::Signal;
pub use state::Subscription;
pub use store::Store;
