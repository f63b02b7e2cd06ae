use vstd::prelude::*;
use crate::errors::SolSignalError;
use crate::fingerprint::fingerprint;
use crate::identity::Address;
use crate::state::accuracy_bps_of;
use crate::state::reputation_of;
use crate::state::AgentProfileModel;
use crate::state::ConsumptionLog;
use crate::state::Direction;
use crate::state::Identity;
use crate::state::Outcome;
use crate::state::Registry;
use crate::state::SignalModel;
use crate::state::Subscription;
use crate::state::MAX_ASSET_LEN;
use crate::state::MAX_NAME_LEN;
use crate::state::MAX_REASONING_LEN;
use crate::state::SUBSCRIPTION_DURATION_SECS;

verus! {

/// The mathematical value of the whole entity store: the registry singleton
/// and one sequence per record kind. Every operation of the core is defined
/// here as a pure transition on this value; the executable store proves that
/// it steps exactly as these transitions say.
#[verifier::ext_equal]
pub struct StoreModel {
    pub registry: Option<Registry>,
    pub agents: Seq<AgentProfileModel>,
    pub signals: Seq<SignalModel>,
    pub subscriptions: Seq<Subscription>,
    pub consumptions: Seq<ConsumptionLog>,
}

/// The arguments of one publish operation, bundled so that transitions and
/// laws can speak of a publish as a single value.
#[verifier::ext_equal]
pub struct PublishRequest {
    pub agent: Identity,
    pub asset: Seq<u8>,
    pub direction: Direction,
    pub confidence: u8,
    pub entry_price: u64,
    pub target_price: u64,
    pub stop_loss: u64,
    pub time_horizon: i64,
    pub reasoning: Seq<u8>,
    pub now: i64,
}

/// How many signals in `signals` belong to `agent`.
pub open spec fn signals_of(signals: Seq<SignalModel>, agent: Identity) -> nat
    decreases signals.len(),
{
    if signals.len() == 0 {
        0
    } else {
        signals_of(signals.drop_last(), agent) + (if signals.last().agent == agent {
            1nat
        } else {
            0nat
        })
    }
}

/// How many signals in `signals` belong to `agent` and sit in settlement
/// state `outcome`.
pub open spec fn outcome_count(signals: Seq<SignalModel>, agent: Identity, outcome: Outcome) -> nat
    decreases signals.len(),
{
    if signals.len() == 0 {
        0
    } else {
        outcome_count(signals.drop_last(), agent, outcome) + (if signals.last().agent == agent
            && signals.last().outcome == outcome {
            1nat
        } else {
            0nat
        })
    }
}

/// How many consumption logs in `consumptions` record `subscriber` consuming
/// the signal at `signal`.
pub open spec fn consumptions_of(
    consumptions: Seq<ConsumptionLog>,
    subscriber: Identity,
    signal: Address,
) -> nat
    decreases consumptions.len(),
{
    if consumptions.len() == 0 {
        0
    } else {
        consumptions_of(consumptions.drop_last(), subscriber, signal) + (if consumptions.last().subscriber
            == subscriber && consumptions.last().signal == signal {
            1nat
        } else {
            0nat
        })
    }
}

/// Appending a signal raises the counts of its agent and its settlement
/// state by one and leaves every other count unchanged.
pub proof fn lemma_counts_push(signals: Seq<SignalModel>, x: SignalModel)
    ensures
        forall|a: Identity|
            #[trigger] signals_of(signals.push(x), a) == signals_of(signals, a) + (if x.agent == a {
                1nat
            } else {
                0nat
            }),
        forall|a: Identity, o: Outcome|
            #[trigger] outcome_count(signals.push(x), a, o) == outcome_count(signals, a, o) + (
            if x.agent == a && x.outcome == o {
                1nat
            } else {
                0nat
            }),
{
    assert(signals.push(x).drop_last() =~= signals);
    assert(signals.push(x).last() == x);
}

/// Replacing the signal at `j` shifts the counts of `a` and `o` by the
/// difference between the old and the new element.
pub proof fn lemma_counts_update(
    signals: Seq<SignalModel>,
    j: int,
    x: SignalModel,
    a: Identity,
    o: Outcome,
)
    requires
        0 <= j < signals.len(),
    ensures
        signals_of(signals.update(j, x), a) + (if signals[j].agent == a {
            1nat
        } else {
            0nat
        }) == signals_of(signals, a) + (if x.agent == a {
            1nat
        } else {
            0nat
        }),
        outcome_count(signals.update(j, x), a, o) + (if signals[j].agent == a && signals[j].outcome
            == o {
            1nat
        } else {
            0nat
        }) == outcome_count(signals, a, o) + (if x.agent == a && x.outcome == o {
            1nat
        } else {
            0nat
        }),
    decreases signals.len(),
{
    let u = signals.update(j, x);
    if j == signals.len() - 1 {
        assert(u.drop_last() =~= signals.drop_last());
        assert(u.last() == x);
        assert(signals.last() == signals[j]);
    } else {
        assert(u.drop_last() =~= signals.drop_last().update(j, x));
        assert(u.last() == signals.last());
        assert(signals.drop_last()[j] == signals[j]);
        lemma_counts_update(signals.drop_last(), j, x, a, o);
    }
}

/// An agent no signal belongs to has every count at zero.
pub proof fn lemma_counts_zero(signals: Seq<SignalModel>, agent: Identity, o: Outcome)
    requires
        forall|j: int| 0 <= j < signals.len() ==> (#[trigger] signals[j]).agent != agent,
    ensures
        signals_of(signals, agent) == 0,
        outcome_count(signals, agent, o) == 0,
    decreases signals.len(),
{
    if signals.len() > 0 {
        assert(signals.last() == signals[signals.len() - 1]);
        assert(forall|j: int|
            0 <= j < signals.drop_last().len() ==> (#[trigger] signals.drop_last()[j]).agent
                != agent);
        lemma_counts_zero(signals.drop_last(), agent, o);
    }
}

/// An agent's signals are partitioned by their settlement state.
pub proof fn lemma_outcome_partition(signals: Seq<SignalModel>, agent: Identity)
    ensures
        signals_of(signals, agent) == outcome_count(signals, agent, Outcome::Pending)
            + outcome_count(signals, agent, Outcome::Correct) + outcome_count(
            signals,
            agent,
            Outcome::Incorrect,
        ) + outcome_count(signals, agent, Outcome::Expired),
    decreases signals.len(),
{
    if signals.len() > 0 {
        lemma_outcome_partition(signals.drop_last(), agent);
    }
}

/// A pending signal of an agent witnesses at least one pending count.
pub proof fn lemma_pending_count_positive(signals: Seq<SignalModel>, agent: Identity, j: int)
    requires
        0 <= j < signals.len(),
        signals[j].agent == agent,
        signals[j].outcome == Outcome::Pending,
    ensures
        outcome_count(signals, agent, Outcome::Pending) >= 1,
    decreases signals.len(),
{
    if j == signals.len() - 1 {
        assert(signals.last() == signals[j]);
    } else {
        assert(signals.drop_last()[j] == signals[j]);
        lemma_pending_count_positive(signals.drop_last(), agent, j);
    }
}

/// A well-formed profile: the name fits, the counters count exactly the
/// agent's signals by settlement state, and the scores follow the formulas.
pub open spec fn profile_wf(p: AgentProfileModel, signals: Seq<SignalModel>) -> bool {
    &&& p.name.len() <= MAX_NAME_LEN
    &&& p.total_signals == signals_of(signals, p.authority)
    &&& p.correct_signals == outcome_count(signals, p.authority, Outcome::Correct)
    &&& p.incorrect_signals == outcome_count(signals, p.authority, Outcome::Incorrect)
    &&& p.expired_signals == outcome_count(signals, p.authority, Outcome::Expired)
    &&& p.accuracy_bps == accuracy_bps_of(p.correct_signals, p.incorrect_signals)
    &&& p.reputation_score == reputation_of(p.correct_signals, p.incorrect_signals)
}

/// A well-formed signal record.
pub open spec fn signal_wf(s: SignalModel) -> bool {
    &&& s.asset.len() <= MAX_ASSET_LEN
    &&& s.confidence <= 100
    &&& s.reasoning_hash.len() == 32
    &&& s.index >= 1
    &&& (s.resolved <==> s.outcome != Outcome::Pending)
    &&& (!s.resolved ==> s.resolution_price == 0)
}

/// A well-formed subscription record.
pub open spec fn subscription_wf(s: Subscription) -> bool {
    &&& s.fee_paid >= 1
    &&& s.expires_at == s.subscribed_at + SUBSCRIPTION_DURATION_SECS
    &&& s.active
}

impl StoreModel {
    /// A store with no registry and no records: the state before bootstrap.
    pub open spec fn empty() -> StoreModel {
        StoreModel {
            registry: None,
            agents: Seq::empty(),
            signals: Seq::empty(),
            subscriptions: Seq::empty(),
            consumptions: Seq::empty(),
        }
    }

    /// Whether `authority` has a registered profile.
    pub open spec fn has_agent(self, authority: Identity) -> bool {
        exists|j: int|
            0 <= j < self.agents.len() && (#[trigger] self.agents[j]).authority == authority
    }

    /// The position of `authority`'s profile; unique in a well-formed store.
    pub open spec fn agent_pos(self, authority: Identity) -> int {
        choose|j: int|
            0 <= j < self.agents.len() && (#[trigger] self.agents[j]).authority == authority
    }

    /// The profile of `authority`.
    pub open spec fn agent_at(self, authority: Identity) -> AgentProfileModel
        recommends
            self.has_agent(authority),
    {
        self.agents[self.agent_pos(authority)]
    }

    /// Whether a signal lives at the address derived from `(agent, index)`.
    pub open spec fn has_signal(self, agent: Identity, index: u64) -> bool {
        exists|j: int|
            0 <= j < self.signals.len() && (#[trigger] self.signals[j]).agent == agent
                && self.signals[j].index == index
    }

    /// The position of that signal; unique in a well-formed store.
    pub open spec fn signal_pos(self, agent: Identity, index: u64) -> int {
        choose|j: int|
            0 <= j < self.signals.len() && (#[trigger] self.signals[j]).agent == agent
                && self.signals[j].index == index
    }

    /// The signal at the address derived from `(agent, index)`.
    pub open spec fn signal_at(self, agent: Identity, index: u64) -> SignalModel
        recommends
            self.has_signal(agent, index),
    {
        self.signals[self.signal_pos(agent, index)]
    }

    /// Whether a subscription lives at the address derived from
    /// `(subscriber, agent)`.
    pub open spec fn has_subscription(self, subscriber: Identity, agent: Identity) -> bool {
        exists|j: int|
            0 <= j < self.subscriptions.len() && (#[trigger] self.subscriptions[j]).subscriber
                == subscriber && self.subscriptions[j].agent == agent
    }

    /// The position of that subscription; unique in a well-formed store.
    pub open spec fn subscription_pos(self, subscriber: Identity, agent: Identity) -> int {
        choose|j: int|
            0 <= j < self.subscriptions.len() && (#[trigger] self.subscriptions[j]).subscriber
                == subscriber && self.subscriptions[j].agent == agent
    }

    /// The subscription of `(subscriber, agent)`.
    pub open spec fn subscription_at(self, subscriber: Identity, agent: Identity) -> Subscription
        recommends
            self.has_subscription(subscriber, agent),
    {
        self.subscriptions[self.subscription_pos(subscriber, agent)]
    }

    /// Whether a consumption log lives at the address derived from
    /// `(subscriber, signal)`.
    pub open spec fn has_consumption(self, subscriber: Identity, signal: Address) -> bool {
        exists|j: int|
            0 <= j < self.consumptions.len() && (#[trigger] self.consumptions[j]).subscriber
                == subscriber && self.consumptions[j].signal == signal
    }

    /// The registry singleton must exist before agents or signals do, its
    /// agent counter counts the profiles, and its signal counter bounds
    /// every assigned sequence number.
    pub open spec fn registry_wf(self) -> bool {
        match self.registry {
            None => self.agents.len() == 0 && self.signals.len() == 0,
            Some(r) => {
                &&& r.total_agents == self.agents.len()
                &&& forall|j: int|
                    0 <= j < self.signals.len() ==> (#[trigger] self.signals[j]).index
                        <= r.total_signals
            },
        }
    }

    /// Profiles are keyed by distinct authorities and each is well-formed
    /// against the signal sequence.
    pub open spec fn agents_wf(self) -> bool {
        &&& forall|j: int, k: int|
            0 <= j < self.agents.len() && 0 <= k < self.agents.len() && j != k ==> (
            #[trigger] self.agents[j]).authority != (#[trigger] self.agents[k]).authority
        &&& forall|j: int|
            0 <= j < self.agents.len() ==> profile_wf(#[trigger] self.agents[j], self.signals)
    }

    /// Signals carry distinct sequence numbers, are each well-formed, and
    /// belong to registered agents.
    pub open spec fn signals_wf(self) -> bool {
        &&& forall|j: int, k: int|
            0 <= j < self.signals.len() && 0 <= k < self.signals.len() && j != k ==> (
            #[trigger] self.signals[j]).index != (#[trigger] self.signals[k]).index
        &&& forall|j: int| 0 <= j < self.signals.len() ==> signal_wf(#[trigger] self.signals[j])
        &&& forall|j: int|
            0 <= j < self.signals.len() ==> self.has_agent((#[trigger] self.signals[j]).agent)
    }

    /// Subscriptions are keyed by distinct (subscriber, agent) pairs and are
    /// each well-formed.
    pub open spec fn subscriptions_wf(self) -> bool {
        &&& forall|j: int, k: int|
            0 <= j < self.subscriptions.len() && 0 <= k < self.subscriptions.len() && j != k
                ==> !((#[trigger] self.subscriptions[j]).subscriber == (
            #[trigger] self.subscriptions[k]).subscriber && self.subscriptions[j].agent
                == self.subscriptions[k].agent)
        &&& forall|j: int|
            0 <= j < self.subscriptions.len() ==> subscription_wf(#[trigger] self.subscriptions[j])
    }

    /// Consumption logs are keyed by distinct (subscriber, signal) pairs.
    pub open spec fn consumptions_wf(self) -> bool {
        forall|j: int, k: int|
            0 <= j < self.consumptions.len() && 0 <= k < self.consumptions.len() && j != k ==> !((
            #[trigger] self.consumptions[j]).subscriber == (
            #[trigger] self.consumptions[k]).subscriber && self.consumptions[j].signal
                == self.consumptions[k].signal)
    }

    /// The store invariant every operation preserves.
    pub open spec fn wf(self) -> bool {
        &&& self.registry_wf()
        &&& self.agents_wf()
        &&& self.signals_wf()
        &&& self.subscriptions_wf()
        &&& self.consumptions_wf()
    }

    /// Bootstraps the registry singleton with all counters at zero; fails if
    /// it already exists.
    pub open spec fn initialize(self, authority: Identity) -> Result<StoreModel, SolSignalError> {
        if self.registry is Some {
            Err(SolSignalError::AlreadyExists)
        } else {
            Ok(
                StoreModel {
                    registry: Some(
                        Registry { authority, total_signals: 0, total_agents: 0, signal_fee: 0 },
                    ),
                    ..self
                },
            )
        }
    }

    /// Creates a fresh profile for `agent` and counts it in the registry;
    /// fails on an oversized name or an already registered identity.
    pub open spec fn register_agent(self, agent: Identity, name: Seq<u8>, now: i64) -> Result<
        StoreModel,
        SolSignalError,
    >
        recommends
            self.registry is Some,
    {
        if name.len() > MAX_NAME_LEN {
            Err(SolSignalError::NameTooLong)
        } else if self.has_agent(agent) {
            Err(SolSignalError::AlreadyExists)
        } else {
            let reg = self.registry.unwrap();
            Ok(
                StoreModel {
                    registry: Some(
                        Registry { total_agents: (reg.total_agents + 1) as u64, ..reg },
                    ),
                    agents: self.agents.push(
                        AgentProfileModel {
                            authority: agent,
                            name,
                            total_signals: 0,
                            correct_signals: 0,
                            incorrect_signals: 0,
                            expired_signals: 0,
                            accuracy_bps: 0,
                            reputation_score: 0,
                            created_at: now,
                        },
                    ),
                    ..self
                },
            )
        }
    }

    /// Validates a publish request, advances the registry counter, bumps the
    /// agent's published total and appends the new pending signal, whose
    /// sequence number is the advanced counter value.
    pub open spec fn publish_signal(self, req: PublishRequest) -> Result<
        StoreModel,
        SolSignalError,
    >
        recommends
            self.registry is Some,
            self.has_agent(req.agent),
    {
        if req.asset.len() > MAX_ASSET_LEN {
            Err(SolSignalError::AssetTooLong)
        } else if req.confidence > 100 {
            Err(SolSignalError::InvalidConfidence)
        } else if req.reasoning.len() > MAX_REASONING_LEN {
            Err(SolSignalError::ReasoningTooLong)
        } else if req.time_horizon <= req.now {
            Err(SolSignalError::InvalidTimeHorizon)
        } else {
            let reg = self.registry.unwrap();
            let index = (reg.total_signals + 1) as u64;
            let ap = self.agent_pos(req.agent);
            let p = self.agents[ap];
            let p2 = AgentProfileModel { total_signals: (p.total_signals + 1) as u32, ..p };
            Ok(
                StoreModel {
                    registry: Some(Registry { total_signals: index, ..reg }),
                    agents: self.agents.update(ap, p2),
                    signals: self.signals.push(new_signal(req, index)),
                    ..self
                },
            )
        }
    }

    /// Creates the paid access grant for `(subscriber, agent)`, expiring
    /// thirty days after `now`; fails on a zero fee or a duplicate pair.
    pub open spec fn subscribe(
        self,
        subscriber: Identity,
        agent: Identity,
        fee_lamports: u64,
        now: i64,
    ) -> Result<StoreModel, SolSignalError> {
        if fee_lamports == 0 {
            Err(SolSignalError::InvalidFee)
        } else if self.has_subscription(subscriber, agent) {
            Err(SolSignalError::AlreadyExists)
        } else {
            Ok(
                StoreModel {
                    subscriptions: self.subscriptions.push(
                        Subscription {
                            subscriber,
                            agent,
                            fee_paid: fee_lamports,
                            subscribed_at: now,
                            expires_at: (now + SUBSCRIPTION_DURATION_SECS) as i64,
                            active: true,
                        },
                    ),
                    ..self
                },
            )
        }
    }

    /// Records that `subscriber` consumed the signal at `(signal_agent,
    /// signal_index)`, gated by the subscriber's grant for the signal's
    /// agent; a repeat consumption collides at the derived address.
    pub open spec fn consume_signal(
        self,
        subscriber: Identity,
        signal_agent: Identity,
        signal_index: u64,
        now: i64,
    ) -> Result<StoreModel, SolSignalError>
        recommends
            self.has_signal(signal_agent, signal_index),
            self.has_subscription(subscriber, signal_agent),
    {
        let sub = self.subscription_at(subscriber, signal_agent);
        let signal = (Address::Signal { agent: signal_agent, index: signal_index });
        if !sub.active {
            Err(SolSignalError::SubscriptionInactive)
        } else if now >= sub.expires_at {
            Err(SolSignalError::SubscriptionExpired)
        } else if self.has_consumption(subscriber, signal) {
            Err(SolSignalError::AlreadyExists)
        } else {
            Ok(
                StoreModel {
                    consumptions: self.consumptions.push(
                        ConsumptionLog { subscriber, signal, consumed_at: now },
                    ),
                    ..self
                },
            )
        }
    }

    /// Settles the signal at `(signal_agent, signal_index)` against the
    /// observed price and folds the outcome into the owning profile. Anyone
    /// may trigger settlement; the only authorization binds the profile
    /// being updated to the signal's author.
    pub open spec fn resolve_signal(
        self,
        signal_agent: Identity,
        signal_index: u64,
        profile_authority: Identity,
        resolution_price: u64,
        now: i64,
    ) -> Result<StoreModel, SolSignalError>
        recommends
            self.has_signal(signal_agent, signal_index),
            self.has_agent(profile_authority),
    {
        let s = self.signal_at(signal_agent, signal_index);
        if signal_agent != profile_authority {
            Err(SolSignalError::Unauthorized)
        } else if s.resolved {
            Err(SolSignalError::AlreadyResolved)
        } else if now < s.time_horizon {
            Err(SolSignalError::TimeHorizonNotReached)
        } else {
            let o = outcome_for(s.direction, resolution_price, s.target_price);
            let s2 = SignalModel { resolved: true, outcome: o, resolution_price, ..s };
            let p = self.agent_at(profile_authority);
            let c2 = if o == Outcome::Correct {
                (p.correct_signals + 1) as u32
            } else {
                p.correct_signals
            };
            let i2 = if o == Outcome::Incorrect {
                (p.incorrect_signals + 1) as u32
            } else {
                p.incorrect_signals
            };
            let p2 = AgentProfileModel {
                correct_signals: c2,
                incorrect_signals: i2,
                accuracy_bps: accuracy_bps_of(c2, i2),
                reputation_score: reputation_of(c2, i2),
                ..p
            };
            Ok(
                StoreModel {
                    signals: self.signals.update(
                        self.signal_pos(signal_agent, signal_index),
                        s2,
                    ),
                    agents: self.agents.update(self.agent_pos(profile_authority), p2),
                    ..self
                },
            )
        }
    }
}

/// The chosen position of a registered agent is within bounds and keyed as
/// asked.
pub proof fn lemma_agent_pos_valid(m: StoreModel, authority: Identity)
    requires
        m.has_agent(authority),
    ensures
        0 <= m.agent_pos(authority) < m.agents.len(),
        m.agents[m.agent_pos(authority)].authority == authority,
{
}

/// In a store with distinct authorities, a profile's position is the one
/// its authority resolves to.
pub proof fn lemma_agent_pos_of(m: StoreModel, j: int)
    requires
        m.agents_wf(),
        0 <= j < m.agents.len(),
    ensures
        m.has_agent(m.agents[j].authority),
        m.agent_pos(m.agents[j].authority) == j,
{
    let a = m.agents[j].authority;
    assert(m.has_agent(a));
    lemma_agent_pos_valid(m, a);
}

/// The chosen position of an existing signal is within bounds and keyed as
/// asked.
pub proof fn lemma_signal_pos_valid(m: StoreModel, agent: Identity, index: u64)
    requires
        m.has_signal(agent, index),
    ensures
        0 <= m.signal_pos(agent, index) < m.signals.len(),
        m.signals[m.signal_pos(agent, index)].agent == agent,
        m.signals[m.signal_pos(agent, index)].index == index,
{
}

/// In a store with distinct sequence numbers, a signal's position is the
/// one its address resolves to.
pub proof fn lemma_signal_pos_of(m: StoreModel, j: int)
    requires
        m.signals_wf(),
        0 <= j < m.signals.len(),
    ensures
        m.has_signal(m.signals[j].agent, m.signals[j].index),
        m.signal_pos(m.signals[j].agent, m.signals[j].index) == j,
{
    let a = m.signals[j].agent;
    let i = m.signals[j].index;
    assert(m.has_signal(a, i));
    lemma_signal_pos_valid(m, a, i);
}

/// The chosen position of an existing subscription is within bounds and
/// keyed as asked.
pub proof fn lemma_subscription_pos_valid(m: StoreModel, subscriber: Identity, agent: Identity)
    requires
        m.has_subscription(subscriber, agent),
    ensures
        0 <= m.subscription_pos(subscriber, agent) < m.subscriptions.len(),
        m.subscriptions[m.subscription_pos(subscriber, agent)].subscriber == subscriber,
        m.subscriptions[m.subscription_pos(subscriber, agent)].agent == agent,
{
}

/// In a store with distinct subscription pairs, a subscription's position
/// is the one its pair resolves to.
pub proof fn lemma_subscription_pos_of(m: StoreModel, j: int)
    requires
        m.subscriptions_wf(),
        0 <= j < m.subscriptions.len(),
    ensures
        m.has_subscription(m.subscriptions[j].subscriber, m.subscriptions[j].agent),
        m.subscription_pos(m.subscriptions[j].subscriber, m.subscriptions[j].agent) == j,
{
    let s = m.subscriptions[j].subscriber;
    let a = m.subscriptions[j].agent;
    assert(m.has_subscription(s, a));
    lemma_subscription_pos_valid(m, s, a);
}

/// Bootstrapping the registry preserves the store invariant.
pub proof fn lemma_initialize_preserves_wf(m: StoreModel, authority: Identity)
    requires
        m.wf(),
        m.initialize(authority) is Ok,
    ensures
        m.initialize(authority).unwrap().wf(),
{
}

/// Registering an agent preserves the store invariant.
pub proof fn lemma_register_preserves_wf(m: StoreModel, agent: Identity, name: Seq<u8>, now: i64)
    requires
        m.wf(),
        m.registry is Some,
        m.registry.unwrap().total_agents < u64::MAX,
        m.register_agent(agent, name, now) is Ok,
    ensures
        m.register_agent(agent, name, now).unwrap().wf(),
{
    let m2 = m.register_agent(agent, name, now).unwrap();
    let p0 = m2.agents.last();
    assert(forall|j: int| 0 <= j < m.signals.len() ==> (#[trigger] m.signals[j]).agent != agent);
    assert forall|j: int| 0 <= j < m2.agents.len() implies profile_wf(
        #[trigger] m2.agents[j],
        m2.signals,
    ) by {
        if j < m.agents.len() {
            assert(m2.agents[j] == m.agents[j]);
        } else {
            assert(m2.agents[j] == p0);
            lemma_counts_zero(m.signals, agent, Outcome::Correct);
            lemma_counts_zero(m.signals, agent, Outcome::Incorrect);
            lemma_counts_zero(m.signals, agent, Outcome::Expired);
        }
    }
    assert forall|j: int| 0 <= j < m2.signals.len() implies m2.has_agent(
        (#[trigger] m2.signals[j]).agent,
    ) by {
        assert(m.has_agent(m.signals[j].agent));
        let k = m.agent_pos(m.signals[j].agent);
        lemma_agent_pos_valid(m, m.signals[j].agent);
        assert(m2.agents[k] == m.agents[k]);
    }
}

/// Publishing a signal preserves the store invariant.
pub proof fn lemma_publish_preserves_wf(m: StoreModel, req: PublishRequest)
    requires
        m.wf(),
        m.registry is Some,
        m.registry.unwrap().total_signals < u64::MAX,
        m.has_agent(req.agent),
        m.agent_at(req.agent).total_signals < u32::MAX,
        m.publish_signal(req) is Ok,
    ensures
        m.publish_signal(req).unwrap().wf(),
{
    let reg = m.registry.unwrap();
    let index = (reg.total_signals + 1) as u64;
    let ap = m.agent_pos(req.agent);
    let sig = new_signal(req, index);
    let m2 = m.publish_signal(req).unwrap();
    lemma_agent_pos_valid(m, req.agent);
    lemma_counts_push(m.signals, sig);
    assert(m2.signals == m.signals.push(sig));
    assert(m2.signals.last() == sig);
    assert(forall|j: int| 0 <= j < m.signals.len() ==> m2.signals[j] == m.signals[j]);
    assert forall|j: int| 0 <= j < m2.agents.len() implies profile_wf(
        #[trigger] m2.agents[j],
        m2.signals,
    ) by {
        if j == ap {
            assert(m2.agents[j].authority == req.agent);
        } else {
            assert(m2.agents[j] == m.agents[j]);
            assert(m.agents[j].authority != req.agent);
        }
    }
    assert forall|j: int| 0 <= j < m2.signals.len() implies m2.has_agent(
        (#[trigger] m2.signals[j]).agent,
    ) by {
        let a = m2.signals[j].agent;
        if j < m.signals.len() {
            assert(m.has_agent(a));
            let k = m.agent_pos(a);
            lemma_agent_pos_valid(m, a);
            assert(m2.agents[k].authority == a);
        } else {
            assert(a == req.agent);
            assert(m2.agents[ap].authority == req.agent);
        }
    }
}

/// Subscribing preserves the store invariant.
pub proof fn lemma_subscribe_preserves_wf(
    m: StoreModel,
    subscriber: Identity,
    agent: Identity,
    fee_lamports: u64,
    now: i64,
)
    requires
        m.wf(),
        now + SUBSCRIPTION_DURATION_SECS <= i64::MAX,
        m.subscribe(subscriber, agent, fee_lamports, now) is Ok,
    ensures
        m.subscribe(subscriber, agent, fee_lamports, now).unwrap().wf(),
{
    let m2 = m.subscribe(subscriber, agent, fee_lamports, now).unwrap();
    assert(forall|j: int|
        0 <= j < m.subscriptions.len() ==> m2.subscriptions[j] == m.subscriptions[j]);
    let s0 = m2.subscriptions.last();
    assert(subscription_wf(s0));
    assert forall|j: int, k: int|
        0 <= j < m2.subscriptions.len() && 0 <= k < m2.subscriptions.len() && j != k implies !((
    #[trigger] m2.subscriptions[j]).subscriber == (#[trigger] m2.subscriptions[k]).subscriber
        && m2.subscriptions[j].agent == m2.subscriptions[k].agent) by {
        if j < m.subscriptions.len() && k < m.subscriptions.len() {
        } else if j < m.subscriptions.len() {
            assert(m2.subscriptions[k] == s0);
            assert(!(m.subscriptions[j].subscriber == subscriber && m.subscriptions[j].agent
                == agent));
        } else {
            assert(m2.subscriptions[j] == s0);
            assert(!(m.subscriptions[k].subscriber == subscriber && m.subscriptions[k].agent
                == agent));
        }
    }
}

/// Consuming a signal preserves the store invariant.
pub proof fn lemma_consume_preserves_wf(
    m: StoreModel,
    subscriber: Identity,
    signal_agent: Identity,
    signal_index: u64,
    now: i64,
)
    requires
        m.wf(),
        m.consume_signal(subscriber, signal_agent, signal_index, now) is Ok,
    ensures
        m.consume_signal(subscriber, signal_agent, signal_index, now).unwrap().wf(),
{
    let m2 = m.consume_signal(subscriber, signal_agent, signal_index, now).unwrap();
    assert(forall|j: int|
        0 <= j < m.consumptions.len() ==> m2.consumptions[j] == m.consumptions[j]);
}

/// Resolving a signal preserves the store invariant; the counters of the
/// owning profile absorb exactly one settlement.
pub proof fn lemma_resolve_preserves_wf(
    m: StoreModel,
    signal_agent: Identity,
    signal_index: u64,
    profile_authority: Identity,
    resolution_price: u64,
    now: i64,
)
    requires
        m.wf(),
        m.has_signal(signal_agent, signal_index),
        m.has_agent(profile_authority),
        m.resolve_signal(signal_agent, signal_index, profile_authority, resolution_price, now)
            is Ok,
    ensures
        m.resolve_signal(
            signal_agent,
            signal_index,
            profile_authority,
            resolution_price,
            now,
        ).unwrap().wf(),
{
    let m2 = m.resolve_signal(
        signal_agent,
        signal_index,
        profile_authority,
        resolution_price,
        now,
    ).unwrap();
    let sp = m.signal_pos(signal_agent, signal_index);
    let ap = m.agent_pos(profile_authority);
    let s = m.signals[sp];
    let p = m.agents[ap];
    let o = outcome_for(s.direction, resolution_price, s.target_price);
    let s2 = SignalModel { resolved: true, outcome: o, resolution_price, ..s };
    lemma_signal_pos_valid(m, signal_agent, signal_index);
    lemma_agent_pos_valid(m, profile_authority);
    assert(s.outcome == Outcome::Pending);
    lemma_outcome_partition(m.signals, profile_authority);
    lemma_pending_count_positive(m.signals, profile_authority, sp);
    assert(m2.signals == m.signals.update(sp, s2));
    assert(forall|j: int|
        0 <= j < m2.signals.len() && j != sp ==> m2.signals[j] == m.signals[j]);
    assert(m2.signals[sp] == s2);
    assert forall|j: int| 0 <= j < m2.agents.len() implies profile_wf(
        #[trigger] m2.agents[j],
        m2.signals,
    ) by {
        let a = m.agents[j].authority;
        lemma_counts_update(m.signals, sp, s2, a, Outcome::Correct);
        lemma_counts_update(m.signals, sp, s2, a, Outcome::Incorrect);
        lemma_counts_update(m.signals, sp, s2, a, Outcome::Expired);
        if j == ap {
            assert(m2.agents[j].authority == profile_authority);
        } else {
            assert(m2.agents[j] == m.agents[j]);
            assert(a != profile_authority);
        }
    }
    assert forall|j: int| 0 <= j < m2.signals.len() implies m2.has_agent(
        (#[trigger] m2.signals[j]).agent,
    ) by {
        let a = m2.signals[j].agent;
        assert(a == m.signals[j].agent);
        assert(m.has_agent(a));
        let k = m.agent_pos(a);
        lemma_agent_pos_valid(m, a);
        assert(m2.agents[k].authority == a);
    }
}

/// The record a valid publish request creates: pending, with the observed
/// price zeroed and the reasoning reduced to its fingerprint.
pub open spec fn new_signal(req: PublishRequest, index: u64) -> SignalModel {
    SignalModel {
        agent: req.agent,
        index,
        asset: req.asset,
        direction: req.direction,
        confidence: req.confidence,
        entry_price: req.entry_price,
        target_price: req.target_price,
        stop_loss: req.stop_loss,
        time_horizon: req.time_horizon,
        reasoning_hash: fingerprint(req.reasoning),
        created_at: req.now,
        resolved: false,
        outcome: Outcome::Pending,
        resolution_price: 0,
    }
}

/// The settlement rule: a long prediction is correct when the observed
/// price reaches the target, a short one when it does not exceed it.
pub open spec fn outcome_for(direction: Direction, resolution_price: u64, target_price: u64) -> Outcome {
    let correct = match direction {
        Direction::Long => resolution_price >= target_price,
        Direction::Short => resolution_price <= target_price,
    };
    if correct {
        Outcome::Correct
    } else {
        Outcome::Incorrect
    }
}

} // verus!
