use vstd::prelude::*;
use crate::errors::SolSignalError;
use crate::model::lemma_agent_pos_of;
use crate::model::lemma_agent_pos_valid;
use crate::model::lemma_outcome_partition;
use crate::model::lemma_pending_count_positive;
use crate::model::lemma_publish_preserves_wf;
use crate::model::lemma_resolve_preserves_wf;
use crate::model::lemma_signal_pos_of;
use crate::model::lemma_signal_pos_valid;
use crate::model::PublishRequest;
use crate::model::StoreModel;
use crate::state::lemma_accuracy_bps_bounds;
use crate::state::Identity;

verus! {

/// Law: every successful publish assigns the sequence number one past the
/// registry counter read at call time and advances that counter by exactly
/// one, so the numbers of successive publishes strictly increase; and in
/// the store both publishes leave behind, no two signals share a number.
pub proof fn lemma_publish_index_strictly_increases(
    m0: StoreModel,
    r1: PublishRequest,
    r2: PublishRequest,
)
    requires
        m0.wf(),
        m0.registry is Some,
        m0.registry.unwrap().total_signals + 2 <= u64::MAX,
        m0.has_agent(r1.agent),
        m0.agent_at(r1.agent).total_signals < u32::MAX,
        m0.publish_signal(r1) is Ok,
        m0.publish_signal(r1)->Ok_0.has_agent(r2.agent),
        m0.publish_signal(r1)->Ok_0.agent_at(r2.agent).total_signals < u32::MAX,
        m0.publish_signal(r1)->Ok_0.publish_signal(r2) is Ok,
    ensures
        m0.publish_signal(r1)->Ok_0.signals.last().index == m0.registry.unwrap().total_signals
            + 1,
        m0.publish_signal(r1)->Ok_0.registry.unwrap().total_signals == m0.registry.unwrap().total_signals
            + 1,
        m0.publish_signal(r1)->Ok_0.publish_signal(r2)->Ok_0.signals.last().index == m0.registry.unwrap().total_signals
            + 2,
        m0.publish_signal(r1)->Ok_0.publish_signal(r2)->Ok_0.signals.last().index > m0.publish_signal(
            r1,
        )->Ok_0.signals.last().index,
        forall|j: int, k: int|
            0 <= j < m0.publish_signal(r1)->Ok_0.publish_signal(r2)->Ok_0.signals.len() && 0 <= k
                < m0.publish_signal(r1)->Ok_0.publish_signal(r2)->Ok_0.signals.len() && j != k
                ==> (#[trigger] m0.publish_signal(r1)->Ok_0.publish_signal(r2)->Ok_0.signals[j]).index
                != (#[trigger] m0.publish_signal(r1)->Ok_0.publish_signal(r2)->Ok_0.signals[k]).index,
{
    let m1 = m0.publish_signal(r1)->Ok_0;
    let m2 = m1.publish_signal(r2)->Ok_0;
    lemma_publish_preserves_wf(m0, r1);
    lemma_publish_preserves_wf(m1, r2);
    assert(m1.signals.last().index == m0.registry.unwrap().total_signals + 1);
    assert(m2.signals.last().index == m1.registry.unwrap().total_signals + 1);
}

/// Law: settlement is idempotent-safe. A successful resolution settles the
/// signal and folds exactly one settlement into the owning profile's
/// counters, and a repeat resolution of the same signal — at any later
/// time, with any price — fails with `AlreadyResolved` and carries no
/// effect to apply.
pub proof fn lemma_resolve_idempotent_safe(
    m0: StoreModel,
    signal_agent: Identity,
    signal_index: u64,
    profile_authority: Identity,
    price1: u64,
    now1: i64,
    price2: u64,
    now2: i64,
)
    requires
        m0.wf(),
        m0.has_signal(signal_agent, signal_index),
        m0.has_agent(profile_authority),
        m0.resolve_signal(signal_agent, signal_index, profile_authority, price1, now1) is Ok,
    ensures
        m0.resolve_signal(
            signal_agent,
            signal_index,
            profile_authority,
            price1,
            now1,
        )->Ok_0.signal_at(signal_agent, signal_index).resolved,
        m0.resolve_signal(
            signal_agent,
            signal_index,
            profile_authority,
            price1,
            now1,
        )->Ok_0.agent_at(profile_authority).correct_signals + m0.resolve_signal(
            signal_agent,
            signal_index,
            profile_authority,
            price1,
            now1,
        )->Ok_0.agent_at(profile_authority).incorrect_signals == m0.agent_at(
            profile_authority,
        ).correct_signals + m0.agent_at(profile_authority).incorrect_signals + 1,
        m0.resolve_signal(
            signal_agent,
            signal_index,
            profile_authority,
            price1,
            now1,
        )->Ok_0.resolve_signal(signal_agent, signal_index, profile_authority, price2, now2)
            matches Err(e) && e == SolSignalError::AlreadyResolved,
{
    let m1 = m0.resolve_signal(signal_agent, signal_index, profile_authority, price1, now1)->Ok_0;
    let sp = m0.signal_pos(signal_agent, signal_index);
    let ap = m0.agent_pos(profile_authority);
    lemma_signal_pos_valid(m0, signal_agent, signal_index);
    lemma_agent_pos_valid(m0, profile_authority);
    lemma_resolve_preserves_wf(
        m0,
        signal_agent,
        signal_index,
        profile_authority,
        price1,
        now1,
    );
    lemma_outcome_partition(m0.signals, profile_authority);
    lemma_pending_count_positive(m0.signals, profile_authority, sp);
    lemma_signal_pos_of(m1, sp);
    lemma_agent_pos_of(m1, ap);
    assert(m1.signal_at(signal_agent, signal_index) == m1.signals[sp]);
}

/// Law: in a well-formed store every profile's accuracy lies within the
/// basis-point scale, equals the floored share of correct settlements
/// whenever anything is settled, and is zero otherwise.
pub proof fn lemma_accuracy_within_scale(m: StoreModel, j: int)
    requires
        m.wf(),
        0 <= j < m.agents.len(),
    ensures
        m.agents[j].accuracy_bps <= 10000,
        m.agents[j].correct_signals + m.agents[j].incorrect_signals > 0 ==> m.agents[j].accuracy_bps
            == (m.agents[j].correct_signals * 10000) / (m.agents[j].correct_signals
            + m.agents[j].incorrect_signals),
        m.agents[j].correct_signals + m.agents[j].incorrect_signals == 0
            ==> m.agents[j].accuracy_bps == 0,
{
    lemma_accuracy_bps_bounds(m.agents[j].correct_signals, m.agents[j].incorrect_signals);
}

} // verus!
