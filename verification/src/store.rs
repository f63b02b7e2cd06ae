use vstd::prelude::*;
use crate::identity::Address;
use crate::model::consumptions_of;
use crate::model::lemma_agent_pos_of;
use crate::model::lemma_signal_pos_of;
use crate::model::lemma_subscription_pos_of;
use crate::model::StoreModel;
use crate::state::AgentProfile;
use crate::state::ConsumptionLog;
use crate::state::Identity;
use crate::state::Registry;
use crate::state::Signal;
use crate::state::Subscription;

verus! {

/// The persistent keyed record store: the registry singleton and one
/// collection per record kind, each record addressed by the components its
/// address is derived from. Cross-entity consistency is enforced by the
/// operations, not by the store; the store only guarantees that a creation
/// at an occupied address fails.
///
/// Every public operation requires and preserves [`StoreModel::wf`], the
/// invariant tying the registry counters, the profile counters and the
/// signal records together.
pub struct Store {
    /// The singleton registry; `None` until bootstrapped.
    pub registry: Option<Registry>,
    /// Agent profiles, keyed by their authority.
    pub agents: Vec<AgentProfile>,
    /// Signals, keyed by (agent, sequence number).
    pub signals: Vec<Signal>,
    /// Subscriptions, keyed by (subscriber, agent).
    pub subscriptions: Vec<Subscription>,
    /// Consumption logs, keyed by (subscriber, signal address).
    pub consumptions: Vec<ConsumptionLog>,
}

impl View for Store {
    type V = StoreModel;

    open spec fn view(&self) -> StoreModel {
        StoreModel {
            registry: self.registry,
            agents: self.agents@.map_values(|p: AgentProfile| p@),
            signals: self.signals@.map_values(|s: Signal| s@),
            subscriptions: self.subscriptions@,
            consumptions: self.consumptions@,
        }
    }
}

impl Store {
    /// The store invariant; see [`StoreModel::wf`].
    pub open spec fn wf(&self) -> bool {
        self@.wf()
    }

    /// An empty store, the state before the registry is bootstrapped.
    pub fn new() -> (s: Store)
        ensures
            s@ == StoreModel::empty(),
            s.wf(),
    {
        let s = Store {
            registry: None,
            agents: Vec::new(),
            signals: Vec::new(),
            subscriptions: Vec::new(),
            consumptions: Vec::new(),
        };
        proof {
            assert(s@ =~= StoreModel::empty());
        }
        s
    }

    /// Reads the registry singleton, if bootstrapped.
    pub fn get_registry(&self) -> (r: Option<Registry>)
        ensures
            r == self@.registry,
    {
        self.registry
    }

    /// Locates the profile registered to `authority`.
    pub(crate) fn find_agent(&self, authority: Identity) -> (r: Option<usize>)
        ensures
            match r {
                Some(j) => j < self@.agents.len() && self@.agents[j as int].authority == authority,
                None => !self@.has_agent(authority),
            },
    {
        let mut i: usize = 0;
        while i < self.agents.len()
            invariant
                i <= self.agents.len(),
                forall|k: int| 0 <= k < i ==> (#[trigger] self@.agents[k]).authority != authority,
            decreases self.agents.len() - i,
        {
            if self.agents[i].authority == authority {
                return Some(i);
            }
            i = i + 1;
        }
        None
    }

    /// Locates the signal at the address derived from `(agent, index)`.
    pub(crate) fn find_signal(&self, agent: Identity, index: u64) -> (r: Option<usize>)
        ensures
            match r {
                Some(j) => j < self@.signals.len() && self@.signals[j as int].agent == agent
                    && self@.signals[j as int].index == index,
                None => !self@.has_signal(agent, index),
            },
    {
        let mut i: usize = 0;
        while i < self.signals.len()
            invariant
                i <= self.signals.len(),
                forall|k: int|
                    0 <= k < i ==> !((#[trigger] self@.signals[k]).agent == agent
                        && self@.signals[k].index == index),
            decreases self.signals.len() - i,
        {
            if self.signals[i].agent == agent && self.signals[i].index == index {
                return Some(i);
            }
            i = i + 1;
        }
        None
    }

    /// Locates the subscription at the address derived from
    /// `(subscriber, agent)`.
    pub(crate) fn find_subscription(&self, subscriber: Identity, agent: Identity) -> (r: Option<
        usize,
    >)
        ensures
            match r {
                Some(j) => j < self@.subscriptions.len() && self@.subscriptions[j as int].subscriber
                    == subscriber && self@.subscriptions[j as int].agent == agent,
                None => !self@.has_subscription(subscriber, agent),
            },
    {
        let mut i: usize = 0;
        while i < self.subscriptions.len()
            invariant
                i <= self.subscriptions.len(),
                forall|k: int|
                    0 <= k < i ==> !((#[trigger] self@.subscriptions[k]).subscriber == subscriber
                        && self@.subscriptions[k].agent == agent),
            decreases self.subscriptions.len() - i,
        {
            if self.subscriptions[i].subscriber == subscriber && self.subscriptions[i].agent
                == agent {
                return Some(i);
            }
            i = i + 1;
        }
        None
    }

    /// Locates the consumption log at the address derived from
    /// `(subscriber, signal)`.
    pub(crate) fn find_consumption(&self, subscriber: Identity, signal: Address) -> (r: Option<
        usize,
    >)
        ensures
            match r {
                Some(j) => j < self@.consumptions.len() && self@.consumptions[j as int].subscriber
                    == subscriber && self@.consumptions[j as int].signal == signal,
                None => !self@.has_consumption(subscriber, signal),
            },
    {
        let mut i: usize = 0;
        while i < self.consumptions.len()
            invariant
                i <= self.consumptions.len(),
                forall|k: int|
                    0 <= k < i ==> !((#[trigger] self@.consumptions[k]).subscriber == subscriber
                        && self@.consumptions[k].signal == signal),
            decreases self.consumptions.len() - i,
        {
            if self.consumptions[i].subscriber == subscriber && self.consumptions[i].signal
                == signal {
                return Some(i);
            }
            i = i + 1;
        }
        None
    }

    /// Reads the profile registered to `authority`, if any.
    pub fn get_agent(&self, authority: Identity) -> (r: Option<&AgentProfile>)
        requires
            self.wf(),
        ensures
            match r {
                Some(p) => self@.has_agent(authority) && p@ == self@.agent_at(authority),
                None => !self@.has_agent(authority),
            },
    {
        match self.find_agent(authority) {
            Some(j) => {
                proof {
                    lemma_agent_pos_of(self@, j as int);
                }
                Some(&self.agents[j])
            },
            None => None,
        }
    }

    /// Reads the signal at the address derived from `(agent, index)`, if
    /// any.
    pub fn get_signal(&self, agent: Identity, index: u64) -> (r: Option<&Signal>)
        requires
            self.wf(),
        ensures
            match r {
                Some(s) => self@.has_signal(agent, index) && s@ == self@.signal_at(agent, index),
                None => !self@.has_signal(agent, index),
            },
    {
        match self.find_signal(agent, index) {
            Some(j) => {
                proof {
                    lemma_signal_pos_of(self@, j as int);
                }
                Some(&self.signals[j])
            },
            None => None,
        }
    }

    /// Reads the subscription of `(subscriber, agent)`, if any.
    pub fn get_subscription(&self, subscriber: Identity, agent: Identity) -> (r: Option<
        Subscription,
    >)
        requires
            self.wf(),
        ensures
            match r {
                Some(s) => self@.has_subscription(subscriber, agent) && s == self@.subscription_at(
                    subscriber,
                    agent,
                ),
                None => !self@.has_subscription(subscriber, agent),
            },
    {
        match self.find_subscription(subscriber, agent) {
            Some(j) => {
                proof {
                    lemma_subscription_pos_of(self@, j as int);
                }
                Some(self.subscriptions[j])
            },
            None => None,
        }
    }

    /// Counts the consumption logs recorded for `(subscriber, signal)`;
    /// at most one in a well-formed store.
    pub fn consumption_count(&self, subscriber: Identity, signal: Address) -> (n: usize)
        ensures
            n == consumptions_of(self@.consumptions, subscriber, signal),
    {
        let ghost all = self@.consumptions;
        let mut n: usize = 0;
        let mut i: usize = 0;
        while i < self.consumptions.len()
            invariant
                i <= self.consumptions.len(),
                n <= i,
                all == self@.consumptions,
                n == consumptions_of(all.take(i as int), subscriber, signal),
            decreases self.consumptions.len() - i,
        {
            proof {
                assert(all.take(i + 1).drop_last() =~= all.take(i as int));
                assert(all.take(i + 1).last() == all[i as int]);
            }
            if self.consumptions[i].subscriber == subscriber && self.consumptions[i].signal
                == signal {
                n = n + 1;
            }
            i = i + 1;
        }
        proof {
            assert(all.take(self.consumptions.len() as int) =~= all);
        }
        n
    }
}

} // verus!
