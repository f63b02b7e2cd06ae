use vstd::prelude::*;
use crate::errors::SolSignalError;
use crate::events::SignalConsumed;
use crate::events::SubscriptionCreated;
use crate::identity::Address;
use crate::model::lemma_consume_preserves_wf;
use crate::model::lemma_subscribe_preserves_wf;
use crate::state::Identity;
use crate::state::Subscription;
use crate::state::ConsumptionLog;
use crate::state::SUBSCRIPTION_DURATION_SECS;
use crate::store::Store;

verus! {

/// The entities named by a subscription purchase: the payer and the agent
/// wallet receiving the fee. The agent need not be registered; the grant is
/// keyed by the pair of identities alone.
#[derive(Clone, Copy, PartialEq, Eq, Structural, Debug)]
pub struct Subscribe {
    /// The paying identity.
    pub subscriber: Identity,
    /// The agent whose signals the grant covers.
    pub agent: Identity,
}

/// The entities named by a consumption: the subscriber and the consumed
/// signal's address components; the subscription to the signal's agent is
/// implicit.
#[derive(Clone, Copy, PartialEq, Eq, Structural, Debug)]
pub struct ConsumeSignal {
    /// The consuming identity.
    pub subscriber: Identity,
    /// The agent component of the consumed signal's address.
    pub signal_agent: Identity,
    /// The sequence-number component of the consumed signal's address.
    pub signal_index: u64,
}

/// Creates the paid, thirty-day access grant for
/// `(accounts.subscriber, accounts.agent)`.
///
/// Fails with `InvalidFee` on a zero fee, before any record is created, and
/// with `AlreadyExists` on a repeat purchase for the same pair; this core
/// defines no renewal. The fee transfer itself is the hosting environment's:
/// it moves `fee_lamports` from subscriber to agent in the same atomic unit
/// and abandons the grant record if the transfer fails.
pub fn subscribe(store: &mut Store, accounts: Subscribe, fee_lamports: u64, now: i64) -> (r:
    Result<SubscriptionCreated, SolSignalError>)
    requires
        old(store).wf(),
        now + SUBSCRIPTION_DURATION_SECS <= i64::MAX,
    ensures
        final(store).wf(),
        match r {
            Ok(ev) => {
                &&& old(store)@.subscribe(accounts.subscriber, accounts.agent, fee_lamports, now)
                    is Ok
                &&& final(store)@ == old(store)@.subscribe(
                    accounts.subscriber,
                    accounts.agent,
                    fee_lamports,
                    now,
                )->Ok_0
                &&& ev == (SubscriptionCreated {
                    subscriber: accounts.subscriber,
                    agent: accounts.agent,
                    fee_paid: fee_lamports,
                    expires_at: (now + SUBSCRIPTION_DURATION_SECS) as i64,
                    timestamp: now,
                })
            },
            Err(e) => {
                &&& old(store)@.subscribe(accounts.subscriber, accounts.agent, fee_lamports, now)
                    matches Err(e2) && e == e2
                &&& final(store)@ == old(store)@
            },
        },
{
    if fee_lamports == 0 {
        return Err(SolSignalError::InvalidFee);
    }
    if store.find_subscription(accounts.subscriber, accounts.agent).is_some() {
        return Err(SolSignalError::AlreadyExists);
    }
    let ghost m0 = store@;
    let expires_at = now + SUBSCRIPTION_DURATION_SECS;
    store.subscriptions.push(
        Subscription {
            subscriber: accounts.subscriber,
            agent: accounts.agent,
            fee_paid: fee_lamports,
            subscribed_at: now,
            expires_at,
            active: true,
        },
    );
    proof {
        assert(store@ =~= m0.subscribe(accounts.subscriber, accounts.agent, fee_lamports, now)->Ok_0);
        lemma_subscribe_preserves_wf(m0, accounts.subscriber, accounts.agent, fee_lamports, now);
    }
    Ok(
        SubscriptionCreated {
            subscriber: accounts.subscriber,
            agent: accounts.agent,
            fee_paid: fee_lamports,
            expires_at,
            timestamp: now,
        },
    )
}

/// Records that `accounts.subscriber` consumed the signal at
/// `(accounts.signal_agent, accounts.signal_index)`.
///
/// The subscriber's grant for the signal's agent gates access: the call
/// fails with `SubscriptionInactive` when the grant's `active` flag is
/// cleared and with `SubscriptionExpired` from the expiry time onward. A
/// repeat consumption of the same signal by the same subscriber fails with
/// `AlreadyExists` — the mechanism preventing double counting of access
/// events — because the log's derived address collides.
pub fn consume_signal(store: &mut Store, accounts: ConsumeSignal, now: i64) -> (r: Result<
    SignalConsumed,
    SolSignalError,
>)
    requires
        old(store).wf(),
        old(store)@.has_signal(accounts.signal_agent, accounts.signal_index),
        old(store)@.has_subscription(accounts.subscriber, accounts.signal_agent),
    ensures
        final(store).wf(),
        match r {
            Ok(ev) => {
                &&& old(store)@.consume_signal(
                    accounts.subscriber,
                    accounts.signal_agent,
                    accounts.signal_index,
                    now,
                ) is Ok
                &&& final(store)@ == old(store)@.consume_signal(
                    accounts.subscriber,
                    accounts.signal_agent,
                    accounts.signal_index,
                    now,
                )->Ok_0
                &&& ev == (SignalConsumed {
                    subscriber: accounts.subscriber,
                    signal: Address::Signal {
                        agent: accounts.signal_agent,
                        index: accounts.signal_index,
                    },
                    signal_index: accounts.signal_index,
                    timestamp: now,
                })
            },
            Err(e) => {
                &&& old(store)@.consume_signal(
                    accounts.subscriber,
                    accounts.signal_agent,
                    accounts.signal_index,
                    now,
                ) matches Err(e2) && e == e2
                &&& final(store)@ == old(store)@
            },
        },
{
    let ghost m0 = store@;
    let s = match store.find_subscription(accounts.subscriber, accounts.signal_agent) {
        Some(j) => j,
        None => unreached(),
    };
    proof {
        crate::model::lemma_subscription_pos_of(m0, s as int);
    }
    if !store.subscriptions[s].active {
        return Err(SolSignalError::SubscriptionInactive);
    }
    if now >= store.subscriptions[s].expires_at {
        return Err(SolSignalError::SubscriptionExpired);
    }
    let signal = crate::identity::signal_address(accounts.signal_agent, accounts.signal_index);
    if store.find_consumption(accounts.subscriber, signal).is_some() {
        return Err(SolSignalError::AlreadyExists);
    }
    store.consumptions.push(
        ConsumptionLog { subscriber: accounts.subscriber, signal, consumed_at: now },
    );
    proof {
        assert(store@ =~= m0.consume_signal(
            accounts.subscriber,
            accounts.signal_agent,
            accounts.signal_index,
            now,
        )->Ok_0);
        lemma_consume_preserves_wf(
            m0,
            accounts.subscriber,
            accounts.signal_agent,
            accounts.signal_index,
            now,
        );
    }
    Ok(
        SignalConsumed {
            subscriber: accounts.subscriber,
            signal,
            signal_index: accounts.signal_index,
            timestamp: now,
        },
    )
}

} // verus!
