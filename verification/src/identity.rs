use vstd::prelude::*;
use crate::state::Identity;

verus! {

/// The derived storage address of an entity.
///
/// Every record lives at the address derived from its kind and its owning
/// components, so entities are located without a directory lookup and a
/// second creation of the same entity collides structurally. On the hosting
/// ledger this derivation is a keyed hash of the component tuple; here the
/// tuple itself is the address, which keeps the derivation pure,
/// deterministic and collision-free by construction.
#[derive(Clone, Copy, PartialEq, Eq, Structural, Debug)]
pub enum Address {
    /// The global singleton registry; no components.
    Registry,
    /// An agent profile, owned by the agent identity.
    Agent { agent: Identity },
    /// A signal, owned by its agent and numbered by the registry counter
    /// value read at publish time.
    Signal { agent: Identity, index: u64 },
    /// A subscription, one per (subscriber, agent) pair.
    Subscription { subscriber: Identity, agent: Identity },
    /// A consumption log, one per (subscriber, signal address) pair; the
    /// signal address components are carried inline.
    Consumption { subscriber: Identity, signal_agent: Identity, signal_index: u64 },
}

/// Derives the address of a signal from its agent and sequence number.
pub fn signal_address(agent: Identity, index: u64) -> (a: Address)
    ensures
        a == (Address::Signal { agent, index }),
{
    Address::Signal { agent, index }
}

/// Derivation is collision-free: signals with distinct component tuples
/// never share an address.
pub proof fn lemma_signal_address_injective(
    agent1: Identity,
    index1: u64,
    agent2: Identity,
    index2: u64,
)
    ensures
        (Address::Signal { agent: agent1, index: index1 }) == (Address::Signal {
            agent: agent2,
            index: index2,
        }) ==> agent1 == agent2 && index1 == index2,
{
}

} // verus!
