use vstd::prelude::*;

verus! {

/// An account identity.
///
/// The hosting ledger identifies every participant by a public key; this core
/// reads nothing of an identity except equality, so it is held as a plain
/// integer handle that the environment assigns one-to-one to keys.
pub type Identity = u64;

/// Maximum byte length of an agent name.
pub const MAX_NAME_LEN: usize = 32;
/// Maximum byte length of an asset symbol (e.g. `SOL/USDC`).
pub const MAX_ASSET_LEN: usize = 32;
/// Maximum byte length of a reasoning text.
pub const MAX_REASONING_LEN: usize = 512;
/// Lifetime of a subscription, in seconds.
pub const SUBSCRIPTION_DURATION_SECS: i64 = 30 * 24 * 60 * 60;
/// Upper bound of the accuracy scale, in basis points.
pub const MAX_ACCURACY_BPS: u16 = 10000;

/// The side of a price prediction.
#[derive(Clone, Copy, PartialEq, Eq, Structural, Debug)]
pub enum Direction {
    /// The price is predicted to reach or exceed the target.
    Long,
    /// The price is predicted to fall to or below the target.
    Short,
}

/// The settlement state of a signal.
#[derive(Clone, Copy, PartialEq, Eq, Structural, Debug)]
pub enum Outcome {
    /// Not yet settled.
    Pending,
    /// Settled: the prediction held.
    Correct,
    /// Settled: the prediction failed.
    Incorrect,
    /// Reserved for a future auto-expiry path; no operation produces it.
    Expired,
}

/// The singleton registry: global counters and the bootstrap authority.
#[derive(Clone, Copy, PartialEq, Eq, Structural, Debug)]
pub struct Registry {
    /// The identity that bootstrapped the registry.
    pub authority: Identity,
    /// Monotonic counter, the source of truth for signal sequence numbers.
    pub total_signals: u64,
    /// Number of registered agents.
    pub total_agents: u64,
    /// Reserved fee per publish; currently always zero.
    pub signal_fee: u64,
}

/// One agent's profile: name and settlement record.
#[derive(Debug)]
pub struct AgentProfile {
    /// The identity that owns this profile.
    pub authority: Identity,
    /// Display name, at most `MAX_NAME_LEN` bytes.
    pub name: Vec<u8>,
    /// Number of signals this agent has published.
    pub total_signals: u32,
    /// Number of signals settled as correct.
    pub correct_signals: u32,
    /// Number of signals settled as incorrect.
    pub incorrect_signals: u32,
    /// Reserved counter for the never-produced `Expired` outcome.
    pub expired_signals: u32,
    /// `floor(correct * 10000 / (correct + incorrect))`, or zero when
    /// nothing is settled yet.
    pub accuracy_bps: u16,
    /// `floor(accuracy_bps * (correct + incorrect) / 100)`.
    pub reputation_score: u64,
    /// Timestamp of registration.
    pub created_at: i64,
}

/// One published prediction.
#[derive(Debug)]
pub struct Signal {
    /// The identity of the publishing agent.
    pub agent: Identity,
    /// Globally unique sequence number, the registry counter at creation.
    pub index: u64,
    /// Asset symbol, at most `MAX_ASSET_LEN` bytes.
    pub asset: Vec<u8>,
    /// The side of the prediction.
    pub direction: Direction,
    /// Self-reported confidence, 0 to 100.
    pub confidence: u8,
    /// Price at publication; informational only.
    pub entry_price: u64,
    /// Price the prediction is settled against.
    pub target_price: u64,
    /// Stop-loss level; stored but never consulted by settlement.
    pub stop_loss: u64,
    /// Earliest timestamp at which the signal may be resolved.
    pub time_horizon: i64,
    /// Lossy 32-byte fingerprint of the reasoning text.
    pub reasoning_hash: Vec<u8>,
    /// Timestamp of publication.
    pub created_at: i64,
    /// Whether the signal has been settled.
    pub resolved: bool,
    /// The settlement state; `Pending` exactly while `resolved` is false.
    pub outcome: Outcome,
    /// The observed price used at settlement; zero until then.
    pub resolution_price: u64,
}

/// A paid, time-limited grant of read access to one agent's signals.
#[derive(Clone, Copy, PartialEq, Eq, Structural, Debug)]
pub struct Subscription {
    /// The paying identity.
    pub subscriber: Identity,
    /// The agent whose signals are covered.
    pub agent: Identity,
    /// The fee that was transferred, in the smallest currency unit.
    pub fee_paid: u64,
    /// Timestamp of purchase.
    pub subscribed_at: i64,
    /// `subscribed_at + SUBSCRIPTION_DURATION_SECS`.
    pub expires_at: i64,
    /// Set at creation and never cleared; reserved for future revocation.
    /// Expiry is decided by `expires_at` alone.
    pub active: bool,
}

/// Write-once proof that a subscriber consumed one signal.
///
/// Its existence is itself the invariant: a second consumption of the same
/// signal by the same subscriber collides at the same derived address.
#[derive(Clone, Copy, PartialEq, Eq, Structural, Debug)]
pub struct ConsumptionLog {
    /// The consuming identity.
    pub subscriber: Identity,
    /// The derived address of the consumed signal.
    pub signal: crate::identity::Address,
    /// Timestamp of consumption.
    pub consumed_at: i64,
}

/// The mathematical value of an [`AgentProfile`].
#[verifier::ext_equal]
pub struct AgentProfileModel {
    pub authority: Identity,
    pub name: Seq<u8>,
    pub total_signals: u32,
    pub correct_signals: u32,
    pub incorrect_signals: u32,
    pub expired_signals: u32,
    pub accuracy_bps: u16,
    pub reputation_score: u64,
    pub created_at: i64,
}

/// The mathematical value of a [`Signal`].
#[verifier::ext_equal]
pub struct SignalModel {
    pub agent: Identity,
    pub index: u64,
    pub asset: Seq<u8>,
    pub direction: Direction,
    pub confidence: u8,
    pub entry_price: u64,
    pub target_price: u64,
    pub stop_loss: u64,
    pub time_horizon: i64,
    pub reasoning_hash: Seq<u8>,
    pub created_at: i64,
    pub resolved: bool,
    pub outcome: Outcome,
    pub resolution_price: u64,
}

impl View for AgentProfile {
    type V = AgentProfileModel;

    open spec fn view(&self) -> AgentProfileModel {
        AgentProfileModel {
            authority: self.authority,
            name: self.name@,
            total_signals: self.total_signals,
            correct_signals: self.correct_signals,
            incorrect_signals: self.incorrect_signals,
            expired_signals: self.expired_signals,
            accuracy_bps: self.accuracy_bps,
            reputation_score: self.reputation_score,
            created_at: self.created_at,
        }
    }
}

impl View for Signal {
    type V = SignalModel;

    open spec fn view(&self) -> SignalModel {
        SignalModel {
            agent: self.agent,
            index: self.index,
            asset: self.asset@,
            direction: self.direction,
            confidence: self.confidence,
            entry_price: self.entry_price,
            target_price: self.target_price,
            stop_loss: self.stop_loss,
            time_horizon: self.time_horizon,
            reasoning_hash: self.reasoning_hash@,
            created_at: self.created_at,
            resolved: self.resolved,
            outcome: self.outcome,
            resolution_price: self.resolution_price,
        }
    }
}

/// `floor(correct * 10000 / (correct + incorrect))` when something is
/// settled, else zero.
pub open spec fn accuracy_bps_of(correct: u32, incorrect: u32) -> u16 {
    if correct + incorrect == 0 {
        0u16
    } else {
        ((correct * 10000) / (correct + incorrect)) as u16
    }
}

/// `floor(accuracy_bps * settled / 100)`: accuracy weighted by settled
/// volume. The operand widths keep the product below `u64::MAX`, so the
/// saturation the executable computation applies on overflow never fires.
pub open spec fn reputation_of(correct: u32, incorrect: u32) -> u64 {
    ((accuracy_bps_of(correct, incorrect) * (correct + incorrect)) / 100) as u64
}

/// The accuracy quotient never exceeds the full scale of 10000.
pub proof fn lemma_accuracy_bps_bounds(correct: u32, incorrect: u32)
    ensures
        accuracy_bps_of(correct, incorrect) <= 10000,
        correct + incorrect > 0 ==> accuracy_bps_of(correct, incorrect) == (correct * 10000) / (
        correct + incorrect),
        correct + incorrect == 0 ==> accuracy_bps_of(correct, incorrect) == 0,
{
    if correct + incorrect > 0 {
        let c = correct as int;
        let d = correct as int + incorrect as int;
        assert((c * 10000) / d <= 10000) by (nonlinear_arith)
            requires
                0 < d,
                0 <= c <= d,
        ;
    }
}

/// The weighted reputation fits comfortably in `u64`.
pub proof fn lemma_reputation_bounds(correct: u32, incorrect: u32)
    ensures
        reputation_of(correct, incorrect) == (accuracy_bps_of(correct, incorrect) * (correct
            + incorrect)) / 100,
        accuracy_bps_of(correct, incorrect) * (correct + incorrect) <= 10000 * 2 * (
        u32::MAX as int),
{
    lemma_accuracy_bps_bounds(correct, incorrect);
    let a = accuracy_bps_of(correct, incorrect) as int;
    let r = correct as int + incorrect as int;
    assert(a * r <= 10000 * 2 * (u32::MAX as int)) by (nonlinear_arith)
        requires
            0 <= a <= 10000,
            0 <= r <= 2 * (u32::MAX as int),
    ;
}

/// Recomputes the accuracy score from the settled counters.
pub fn compute_accuracy_bps(correct: u32, incorrect: u32) -> (r: u16)
    ensures
        r == accuracy_bps_of(correct, incorrect),
{
    let settled = correct as u64 + incorrect as u64;
    if settled == 0 {
        0
    } else {
        proof {
            lemma_accuracy_bps_bounds(correct, incorrect);
        }
        ((correct as u64 * 10000) / settled) as u16
    }
}

/// Recomputes the reputation score from the settled counters, saturating the
/// weighting product to zero should it ever overflow.
pub fn compute_reputation(correct: u32, incorrect: u32) -> (r: u64)
    requires
        correct + incorrect <= u32::MAX,
    ensures
        r == reputation_of(correct, incorrect),
{
    let accuracy = compute_accuracy_bps(correct, incorrect);
    let settled = correct + incorrect;
    proof {
        lemma_reputation_bounds(correct, incorrect);
    }
    (accuracy as u64).checked_mul(settled as u64).unwrap_or(0) / 100
}

} // verus!
