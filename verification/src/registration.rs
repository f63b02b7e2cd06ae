use vstd::prelude::*;
use crate::errors::SolSignalError;
use crate::model::lemma_initialize_preserves_wf;
use crate::model::lemma_register_preserves_wf;
use crate::state::AgentProfile;
use crate::state::Identity;
use crate::state::Registry;
use crate::state::MAX_NAME_LEN;
use crate::store::Store;

verus! {

/// The entities named by a registry bootstrap: only the bootstrapping
/// authority.
#[derive(Clone, Copy, PartialEq, Eq, Structural, Debug)]
pub struct Initialize {
    /// The identity that will own the registry.
    pub authority: Identity,
}

/// The entities named by an agent registration: only the registering agent;
/// the registry singleton is implicit.
#[derive(Clone, Copy, PartialEq, Eq, Structural, Debug)]
pub struct RegisterAgent {
    /// The identity registering a profile for itself.
    pub agent: Identity,
}

/// Bootstraps the global registry singleton with all counters at zero.
///
/// Must run exactly once ever; a second call fails with `AlreadyExists`
/// because the singleton address is already occupied.
pub fn initialize(store: &mut Store, accounts: Initialize) -> (r: Result<(), SolSignalError>)
    requires
        old(store).wf(),
    ensures
        final(store).wf(),
        match r {
            Ok(_) => old(store)@.initialize(accounts.authority) is Ok
                && final(store)@ == old(store)@.initialize(accounts.authority)->Ok_0,
            Err(e) => old(store)@.initialize(accounts.authority) matches Err(e2) && e == e2
                && final(store)@ == old(store)@,
        },
{
    if store.registry.is_some() {
        return Err(SolSignalError::AlreadyExists);
    }
    store.registry = Some(
        Registry {
            authority: accounts.authority,
            total_signals: 0,
            total_agents: 0,
            signal_fee: 0,
        },
    );
    proof {
        assert(store@ =~= old(store)@.initialize(accounts.authority)->Ok_0);
        lemma_initialize_preserves_wf(old(store)@, accounts.authority);
    }
    Ok(())
}

/// Registers a profile for `accounts.agent` with all counters at zero and
/// counts it in the registry.
///
/// Fails with `NameTooLong` on a name over `MAX_NAME_LEN` bytes and with
/// `AlreadyExists` when the identity already has a profile.
pub fn register_agent(store: &mut Store, accounts: RegisterAgent, name: Vec<u8>, now: i64) -> (r:
    Result<(), SolSignalError>)
    requires
        old(store).wf(),
        old(store)@.registry is Some,
        old(store)@.registry.unwrap().total_agents < u64::MAX,
    ensures
        final(store).wf(),
        match r {
            Ok(_) => old(store)@.register_agent(accounts.agent, name@, now) is Ok
                && final(store)@ == old(store)@.register_agent(accounts.agent, name@, now)->Ok_0,
            Err(e) => old(store)@.register_agent(accounts.agent, name@, now) matches Err(e2) && e
                == e2 && final(store)@ == old(store)@,
        },
{
    if name.len() > MAX_NAME_LEN {
        return Err(SolSignalError::NameTooLong);
    }
    if store.find_agent(accounts.agent).is_some() {
        return Err(SolSignalError::AlreadyExists);
    }
    let ghost m0 = store@;
    let reg = store.registry.unwrap();
    store.registry = Some(Registry { total_agents: reg.total_agents + 1, ..reg });
    store.agents.push(
        AgentProfile {
            authority: accounts.agent,
            name,
            total_signals: 0,
            correct_signals: 0,
            incorrect_signals: 0,
            expired_signals: 0,
            accuracy_bps: 0,
            reputation_score: 0,
            created_at: now,
        },
    );
    proof {
        assert(store@.agents =~= m0.register_agent(accounts.agent, name@, now)->Ok_0.agents);
        assert(store@ =~= m0.register_agent(accounts.agent, name@, now)->Ok_0);
        lemma_register_preserves_wf(m0, accounts.agent, name@, now);
    }
    Ok(())
}

} // verus!
