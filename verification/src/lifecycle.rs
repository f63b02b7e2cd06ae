use vstd::prelude::*;
use crate::errors::SolSignalError;
use crate::events::SignalPublished;
use crate::events::SignalResolved;
use crate::fingerprint::reasoning_fingerprint;
use crate::identity::Address;
use crate::model::lemma_agent_pos_of;
use crate::model::lemma_outcome_partition;
use crate::model::lemma_pending_count_positive;
use crate::model::lemma_publish_preserves_wf;
use crate::model::lemma_resolve_preserves_wf;
use crate::model::lemma_signal_pos_of;
use crate::model::outcome_for;
use crate::model::PublishRequest;
use crate::state::Direction;
use crate::state::Identity;
use crate::state::Outcome;
use crate::state::Registry;
use crate::state::Signal;
use crate::state::MAX_ASSET_LEN;
use crate::state::MAX_REASONING_LEN;
use crate::store::Store;

verus! {

/// The entities named by a publish: the publishing agent; the registry
/// singleton and the agent's profile are implicit, and the new signal's
/// address is derived from the agent and the advanced registry counter.
#[derive(Clone, Copy, PartialEq, Eq, Structural, Debug)]
pub struct PublishSignal {
    /// The publishing agent, which owns the new signal.
    pub agent: Identity,
}

/// The entities named by a resolution: the target signal's address
/// components, the profile to settle into, and the caller.
#[derive(Clone, Copy, PartialEq, Eq, Structural, Debug)]
pub struct ResolveSignal {
    /// The agent component of the target signal's address.
    pub signal_agent: Identity,
    /// The sequence-number component of the target signal's address.
    pub signal_index: u64,
    /// The authority of the profile to settle the outcome into; must be
    /// the signal's author.
    pub agent_profile: Identity,
    /// The identity triggering settlement. Resolution is permissionless:
    /// any identity may trigger it, so this is never checked.
    pub resolver: Identity,
}

/// The publish arguments as one request value, for the transition and the
/// laws that speak about it.
pub open spec fn publish_request(
    accounts: PublishSignal,
    asset: Seq<u8>,
    direction: Direction,
    confidence: u8,
    entry_price: u64,
    target_price: u64,
    stop_loss: u64,
    time_horizon: i64,
    reasoning: Seq<u8>,
    now: i64,
) -> PublishRequest {
    PublishRequest {
        agent: accounts.agent,
        asset,
        direction,
        confidence,
        entry_price,
        target_price,
        stop_loss,
        time_horizon,
        reasoning,
        now,
    }
}

/// Copies a byte string.
fn copy_bytes(v: &Vec<u8>) -> (r: Vec<u8>)
    ensures
        r@ == v@,
{
    let mut r: Vec<u8> = Vec::new();
    let mut i: usize = 0;
    while i < v.len()
        invariant
            i <= v.len(),
            r@ == v@.take(i as int),
        decreases v.len() - i,
    {
        r.push(v[i]);
        proof {
            assert(r@ =~= v@.take(i + 1));
        }
        i = i + 1;
    }
    proof {
        assert(v@.take(v@.len() as int) =~= v@);
    }
    r
}

/// Publishes a new trading signal for `accounts.agent`.
///
/// Validates, in order: the asset symbol fits in `MAX_ASSET_LEN` bytes
/// (`AssetTooLong`), the confidence is at most 100 (`InvalidConfidence`),
/// the reasoning fits in `MAX_REASONING_LEN` bytes (`ReasoningTooLong`),
/// and the time horizon lies strictly in the future (`InvalidTimeHorizon`).
/// The prices are deliberately not validated against each other or the
/// direction. On success, one atomic unit advances the registry counter,
/// bumps the agent's published total, and writes the new pending signal —
/// whose sequence number is the advanced counter value, so the first signal
/// ever has number 1 — at the address derived from the agent and that
/// number; the returned event carries the full payload.
pub fn publish_signal(
    store: &mut Store,
    accounts: PublishSignal,
    asset: Vec<u8>,
    direction: Direction,
    confidence: u8,
    entry_price: u64,
    target_price: u64,
    stop_loss: u64,
    time_horizon: i64,
    reasoning: Vec<u8>,
    now: i64,
) -> (r: Result<SignalPublished, SolSignalError>)
    requires
        old(store).wf(),
        old(store)@.registry is Some,
        old(store)@.registry.unwrap().total_signals < u64::MAX,
        old(store)@.has_agent(accounts.agent),
        old(store)@.agent_at(accounts.agent).total_signals < u32::MAX,
    ensures
        final(store).wf(),
        match r {
            Ok(ev) => {
                let req = publish_request(
                    accounts,
                    asset@,
                    direction,
                    confidence,
                    entry_price,
                    target_price,
                    stop_loss,
                    time_horizon,
                    reasoning@,
                    now,
                );
                &&& old(store)@.publish_signal(req) is Ok
                &&& final(store)@ == old(store)@.publish_signal(req)->Ok_0
                &&& ev.agent == accounts.agent
                &&& ev.signal == (Address::Signal {
                    agent: accounts.agent,
                    index: (old(store)@.registry.unwrap().total_signals + 1) as u64,
                })
                &&& ev.asset@ == asset@
                &&& ev.direction == direction
                &&& ev.confidence == confidence
                &&& ev.entry_price == entry_price
                &&& ev.target_price == target_price
                &&& ev.time_horizon == time_horizon
                &&& ev.timestamp == now
            },
            Err(e) => {
                let req = publish_request(
                    accounts,
                    asset@,
                    direction,
                    confidence,
                    entry_price,
                    target_price,
                    stop_loss,
                    time_horizon,
                    reasoning@,
                    now,
                );
                &&& old(store)@.publish_signal(req) matches Err(e2) && e == e2
                &&& final(store)@ == old(store)@
            },
        },
{
    if asset.len() > MAX_ASSET_LEN {
        return Err(SolSignalError::AssetTooLong);
    }
    if confidence > 100 {
        return Err(SolSignalError::InvalidConfidence);
    }
    if reasoning.len() > MAX_REASONING_LEN {
        return Err(SolSignalError::ReasoningTooLong);
    }
    if time_horizon <= now {
        return Err(SolSignalError::InvalidTimeHorizon);
    }
    let ghost m0 = store@;
    let ghost req = publish_request(
        accounts,
        asset@,
        direction,
        confidence,
        entry_price,
        target_price,
        stop_loss,
        time_horizon,
        reasoning@,
        now,
    );
    let reasoning_hash = reasoning_fingerprint(&reasoning);
    let j = match store.find_agent(accounts.agent) {
        Some(j) => j,
        None => unreached(),
    };
    proof {
        lemma_agent_pos_of(m0, j as int);
    }
    let reg = store.registry.unwrap();
    let index = reg.total_signals + 1;
    store.registry = Some(Registry { total_signals: index, ..reg });
    let profile = &mut store.agents[j];
    profile.total_signals = profile.total_signals + 1;
    let asset_event = copy_bytes(&asset);
    store.signals.push(
        Signal {
            agent: accounts.agent,
            index,
            asset,
            direction,
            confidence,
            entry_price,
            target_price,
            stop_loss,
            time_horizon,
            reasoning_hash,
            created_at: now,
            resolved: false,
            outcome: Outcome::Pending,
            resolution_price: 0,
        },
    );
    proof {
        assert(store@.agents =~= m0.publish_signal(req)->Ok_0.agents);
        assert(store@.signals =~= m0.publish_signal(req)->Ok_0.signals);
        assert(store@ =~= m0.publish_signal(req)->Ok_0);
        lemma_publish_preserves_wf(m0, req);
    }
    Ok(
        SignalPublished {
            agent: accounts.agent,
            signal: Address::Signal { agent: accounts.agent, index },
            asset: asset_event,
            direction,
            confidence,
            entry_price,
            target_price,
            time_horizon,
            timestamp: now,
        },
    )
}

/// Resolves a published signal against an observed price after its time
/// horizon has passed.
///
/// Resolution is permissionless; the only authorization check binds the
/// profile being updated to the signal's author (`Unauthorized` otherwise).
/// Gates, in order: `AlreadyResolved` for a settled signal, then
/// `TimeHorizonNotReached` while `now` is before the horizon. On success a
/// long signal settles `Correct` exactly when the observed price is at
/// least the target, a short one exactly when it is at most the target; the
/// stop-loss is never consulted. The owning profile absorbs the outcome and
/// its accuracy and reputation scores are recomputed.
pub fn resolve_signal(
    store: &mut Store,
    accounts: ResolveSignal,
    resolution_price: u64,
    now: i64,
) -> (r: Result<SignalResolved, SolSignalError>)
    requires
        old(store).wf(),
        old(store)@.has_signal(accounts.signal_agent, accounts.signal_index),
        old(store)@.has_agent(accounts.agent_profile),
    ensures
        final(store).wf(),
        match r {
            Ok(ev) => {
                &&& old(store)@.resolve_signal(
                    accounts.signal_agent,
                    accounts.signal_index,
                    accounts.agent_profile,
                    resolution_price,
                    now,
                ) is Ok
                &&& final(store)@ == old(store)@.resolve_signal(
                    accounts.signal_agent,
                    accounts.signal_index,
                    accounts.agent_profile,
                    resolution_price,
                    now,
                )->Ok_0
                &&& ev.agent == accounts.signal_agent
                &&& ev.signal == (Address::Signal {
                    agent: accounts.signal_agent,
                    index: accounts.signal_index,
                })
                &&& ev.outcome == outcome_for(
                    old(store)@.signal_at(accounts.signal_agent, accounts.signal_index).direction,
                    resolution_price,
                    old(store)@.signal_at(
                        accounts.signal_agent,
                        accounts.signal_index,
                    ).target_price,
                )
                &&& ev.resolution_price == resolution_price
                &&& ev.accuracy_bps == final(store)@.agent_at(accounts.agent_profile).accuracy_bps
                &&& ev.timestamp == now
            },
            Err(e) => {
                &&& old(store)@.resolve_signal(
                    accounts.signal_agent,
                    accounts.signal_index,
                    accounts.agent_profile,
                    resolution_price,
                    now,
                ) matches Err(e2) && e == e2
                &&& final(store)@ == old(store)@
            },
        },
{
    let ghost m0 = store@;
    let j = match store.find_signal(accounts.signal_agent, accounts.signal_index) {
        Some(j) => j,
        None => unreached(),
    };
    proof {
        lemma_signal_pos_of(m0, j as int);
    }
    if accounts.signal_agent != accounts.agent_profile {
        return Err(SolSignalError::Unauthorized);
    }
    if store.signals[j].resolved {
        return Err(SolSignalError::AlreadyResolved);
    }
    if now < store.signals[j].time_horizon {
        return Err(SolSignalError::TimeHorizonNotReached);
    }
    let k = match store.find_agent(accounts.agent_profile) {
        Some(k) => k,
        None => unreached(),
    };
    proof {
        lemma_agent_pos_of(m0, k as int);
        lemma_outcome_partition(m0.signals, accounts.agent_profile);
        lemma_pending_count_positive(m0.signals, accounts.agent_profile, j as int);
    }
    let target = store.signals[j].target_price;
    let correct = match store.signals[j].direction {
        Direction::Long => resolution_price >= target,
        Direction::Short => resolution_price <= target,
    };
    let outcome = if correct {
        Outcome::Correct
    } else {
        Outcome::Incorrect
    };
    let signal = &mut store.signals[j];
    signal.resolved = true;
    signal.resolution_price = resolution_price;
    signal.outcome = outcome;
    let profile = &mut store.agents[k];
    if correct {
        profile.correct_signals = profile.correct_signals + 1;
    } else {
        profile.incorrect_signals = profile.incorrect_signals + 1;
    }
    profile.accuracy_bps = crate::state::compute_accuracy_bps(
        profile.correct_signals,
        profile.incorrect_signals,
    );
    profile.reputation_score = crate::state::compute_reputation(
        profile.correct_signals,
        profile.incorrect_signals,
    );
    let accuracy_bps = profile.accuracy_bps;
    proof {
        let m2 = m0.resolve_signal(
            accounts.signal_agent,
            accounts.signal_index,
            accounts.agent_profile,
            resolution_price,
            now,
        )->Ok_0;
        assert(store@.signals =~= m2.signals);
        assert(store@.agents =~= m2.agents);
        assert(store@ =~= m2);
        lemma_resolve_preserves_wf(
            m0,
            accounts.signal_agent,
            accounts.signal_index,
            accounts.agent_profile,
            resolution_price,
            now,
        );
        lemma_agent_pos_of(store@, k as int);
    }
    Ok(
        SignalResolved {
            agent: accounts.signal_agent,
            signal: Address::Signal {
                agent: accounts.signal_agent,
                index: accounts.signal_index,
            },
            outcome,
            resolution_price,
            accuracy_bps,
            timestamp: now,
        },
    )
}

} // verus!
