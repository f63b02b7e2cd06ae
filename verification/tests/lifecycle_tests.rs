use sol_signal::consume_signal;
use sol_signal::initialize;
use sol_signal::publish_signal;
use sol_signal::register_agent;
use sol_signal::resolve_signal;
use sol_signal::subscribe;
use sol_signal::Address;
use sol_signal::ConsumeSignal;
use sol_signal::Direction;
use sol_signal::Initialize;
use sol_signal::Outcome;
use sol_signal::PublishSignal;
use sol_signal::RegisterAgent;
use sol_signal::ResolveSignal;
use sol_signal::SolSignalError;
use sol_signal::Store;
use sol_signal::Subscribe;

const DEPLOYER: u64 = 1;
const AGENT: u64 = 2;
const OTHER_AGENT: u64 = 3;
const SUBSCRIBER: u64 = 7;
const THIRTY_DAYS: i64 = 30 * 24 * 60 * 60;

/// A bootstrapped store with one registered agent.
fn setup() -> Store {
    let mut store = Store::new();
    initialize(&mut store, Initialize { authority: DEPLOYER }).unwrap();
    register_agent(&mut store, RegisterAgent { agent: AGENT }, b"alice".to_vec(), 100).unwrap();
    store
}

/// Publishes one signal for AGENT with the given direction, target and
/// horizon, returning its sequence number.
fn publish_one(store: &mut Store, direction: Direction, target_price: u64, horizon: i64) -> u64 {
    let ev = publish_signal(
        store,
        PublishSignal { agent: AGENT },
        b"SOL/USDC".to_vec(),
        direction,
        80,
        95,
        target_price,
        90,
        horizon,
        b"momentum looks strong".to_vec(),
        1_000,
    )
    .unwrap();
    match ev.signal {
        Address::Signal { index, .. } => index,
        other => panic!("unexpected address kind {:?}", other),
    }
}

#[test]
fn initialize_zeroes_the_registry() {
    let mut store = Store::new();
    initialize(&mut store, Initialize { authority: DEPLOYER }).unwrap();
    let reg = store.get_registry().unwrap();
    assert_eq!(reg.authority, DEPLOYER);
    assert_eq!(reg.total_signals, 0);
    assert_eq!(reg.total_agents, 0);
    assert_eq!(reg.signal_fee, 0);
}

#[test]
fn initialize_twice_fails_already_exists() {
    let mut store = Store::new();
    initialize(&mut store, Initialize { authority: DEPLOYER }).unwrap();
    let r = initialize(&mut store, Initialize { authority: OTHER_AGENT });
    assert_eq!(r, Err(SolSignalError::AlreadyExists));
    assert_eq!(store.get_registry().unwrap().authority, DEPLOYER);
}

#[test]
fn register_agent_creates_zeroed_profile() {
    let store = setup();
    let p = store.get_agent(AGENT).unwrap();
    assert_eq!(p.authority, AGENT);
    assert_eq!(p.name, b"alice".to_vec());
    assert_eq!(p.total_signals, 0);
    assert_eq!(p.correct_signals, 0);
    assert_eq!(p.incorrect_signals, 0);
    assert_eq!(p.expired_signals, 0);
    assert_eq!(p.accuracy_bps, 0);
    assert_eq!(p.reputation_score, 0);
    assert_eq!(p.created_at, 100);
    assert_eq!(store.get_registry().unwrap().total_agents, 1);
}

#[test]
fn register_agent_name_at_limit_is_accepted() {
    let mut store = Store::new();
    initialize(&mut store, Initialize { authority: DEPLOYER }).unwrap();
    let name = vec![b'x'; 32];
    register_agent(&mut store, RegisterAgent { agent: AGENT }, name.clone(), 5).unwrap();
    assert_eq!(store.get_agent(AGENT).unwrap().name, name);
}

#[test]
fn register_agent_name_too_long_is_rejected() {
    let mut store = Store::new();
    initialize(&mut store, Initialize { authority: DEPLOYER }).unwrap();
    let r = register_agent(&mut store, RegisterAgent { agent: AGENT }, vec![b'x'; 33], 5);
    assert_eq!(r, Err(SolSignalError::NameTooLong));
    assert!(store.get_agent(AGENT).is_none());
    assert_eq!(store.get_registry().unwrap().total_agents, 0);
}

#[test]
fn register_agent_twice_fails_already_exists() {
    let mut store = setup();
    let r = register_agent(&mut store, RegisterAgent { agent: AGENT }, b"bob".to_vec(), 200);
    assert_eq!(r, Err(SolSignalError::AlreadyExists));
    assert_eq!(store.get_agent(AGENT).unwrap().name, b"alice".to_vec());
    assert_eq!(store.get_registry().unwrap().total_agents, 1);
}

#[test]
fn publish_assigns_strictly_increasing_indices() {
    let mut store = setup();
    register_agent(&mut store, RegisterAgent { agent: OTHER_AGENT }, b"bob".to_vec(), 100)
        .unwrap();
    let i1 = publish_one(&mut store, Direction::Long, 100, 2_000);
    assert_eq!(store.get_registry().unwrap().total_signals, 1);
    let i2 = publish_one(&mut store, Direction::Short, 50, 2_000);
    let ev = publish_signal(
        &mut store,
        PublishSignal { agent: OTHER_AGENT },
        b"BTC/USDC".to_vec(),
        Direction::Long,
        10,
        1,
        2,
        3,
        9_000,
        Vec::new(),
        1_000,
    )
    .unwrap();
    let i3 = match ev.signal {
        Address::Signal { agent, index } => {
            assert_eq!(agent, OTHER_AGENT);
            index
        }
        other => panic!("unexpected address kind {:?}", other),
    };
    assert_eq!((i1, i2, i3), (1, 2, 3));
    assert!(i1 < i2 && i2 < i3);
    assert_eq!(store.get_registry().unwrap().total_signals, 3);
    assert_eq!(store.get_agent(AGENT).unwrap().total_signals, 2);
    assert_eq!(store.get_agent(OTHER_AGENT).unwrap().total_signals, 1);
}

#[test]
fn publish_writes_the_pending_record() {
    let mut store = setup();
    let index = publish_one(&mut store, Direction::Long, 100, 2_000);
    let s = store.get_signal(AGENT, index).unwrap();
    assert_eq!(s.agent, AGENT);
    assert_eq!(s.index, 1);
    assert_eq!(s.asset, b"SOL/USDC".to_vec());
    assert_eq!(s.direction, Direction::Long);
    assert_eq!(s.confidence, 80);
    assert_eq!(s.entry_price, 95);
    assert_eq!(s.target_price, 100);
    assert_eq!(s.stop_loss, 90);
    assert_eq!(s.time_horizon, 2_000);
    assert_eq!(s.created_at, 1_000);
    assert!(!s.resolved);
    assert_eq!(s.outcome, Outcome::Pending);
    assert_eq!(s.resolution_price, 0);
}

#[test]
fn publish_event_carries_the_full_payload() {
    let mut store = setup();
    let ev = publish_signal(
        &mut store,
        PublishSignal { agent: AGENT },
        b"SOL/USDC".to_vec(),
        Direction::Short,
        55,
        10,
        20,
        30,
        5_000,
        b"why not".to_vec(),
        1_000,
    )
    .unwrap();
    assert_eq!(ev.agent, AGENT);
    assert_eq!(ev.signal, Address::Signal { agent: AGENT, index: 1 });
    assert_eq!(ev.asset, b"SOL/USDC".to_vec());
    assert_eq!(ev.direction, Direction::Short);
    assert_eq!(ev.confidence, 55);
    assert_eq!(ev.entry_price, 10);
    assert_eq!(ev.target_price, 20);
    assert_eq!(ev.time_horizon, 5_000);
    assert_eq!(ev.timestamp, 1_000);
}

#[test]
fn publish_asset_too_long_is_rejected() {
    let mut store = setup();
    let r = publish_signal(
        &mut store,
        PublishSignal { agent: AGENT },
        vec![b'a'; 33],
        Direction::Long,
        80,
        95,
        100,
        90,
        2_000,
        Vec::new(),
        1_000,
    );
    assert!(matches!(r, Err(SolSignalError::AssetTooLong)));
    assert_eq!(store.get_registry().unwrap().total_signals, 0);
}

#[test]
fn publish_confidence_over_hundred_is_rejected() {
    let mut store = setup();
    let r = publish_signal(
        &mut store,
        PublishSignal { agent: AGENT },
        b"SOL".to_vec(),
        Direction::Long,
        101,
        95,
        100,
        90,
        2_000,
        Vec::new(),
        1_000,
    );
    assert!(matches!(r, Err(SolSignalError::InvalidConfidence)));
}

#[test]
fn publish_reasoning_too_long_is_rejected() {
    let mut store = setup();
    let r = publish_signal(
        &mut store,
        PublishSignal { agent: AGENT },
        b"SOL".to_vec(),
        Direction::Long,
        80,
        95,
        100,
        90,
        2_000,
        vec![b'r'; 513],
        1_000,
    );
    assert!(matches!(r, Err(SolSignalError::ReasoningTooLong)));
}

#[test]
fn publish_horizon_not_in_future_is_rejected() {
    let mut store = setup();
    let r = publish_signal(
        &mut store,
        PublishSignal { agent: AGENT },
        b"SOL".to_vec(),
        Direction::Long,
        80,
        95,
        100,
        90,
        1_000,
        Vec::new(),
        1_000,
    );
    assert!(matches!(r, Err(SolSignalError::InvalidTimeHorizon)));
}

#[test]
fn publish_boundary_values_are_accepted() {
    let mut store = setup();
    let r = publish_signal(
        &mut store,
        PublishSignal { agent: AGENT },
        vec![b'a'; 32],
        Direction::Long,
        100,
        95,
        100,
        90,
        1_001,
        vec![b'r'; 512],
        1_000,
    );
    assert!(r.is_ok());
}

#[test]
fn long_resolution_at_target_is_correct() {
    let mut store = setup();
    let index = publish_one(&mut store, Direction::Long, 100, 2_000);
    let ev = resolve_signal(
        &mut store,
        ResolveSignal {
            signal_agent: AGENT,
            signal_index: index,
            agent_profile: AGENT,
            resolver: SUBSCRIBER,
        },
        100,
        2_500,
    )
    .unwrap();
    assert_eq!(ev.outcome, Outcome::Correct);
    assert_eq!(ev.resolution_price, 100);
    assert_eq!(ev.accuracy_bps, 10_000);
    assert_eq!(ev.timestamp, 2_500);
    let s = store.get_signal(AGENT, index).unwrap();
    assert!(s.resolved);
    assert_eq!(s.outcome, Outcome::Correct);
    assert_eq!(s.resolution_price, 100);
    let p = store.get_agent(AGENT).unwrap();
    assert_eq!(p.correct_signals, 1);
    assert_eq!(p.incorrect_signals, 0);
    assert_eq!(p.accuracy_bps, 10_000);
    assert_eq!(p.reputation_score, 100);
}

#[test]
fn long_resolution_below_target_is_incorrect() {
    let mut store = setup();
    let index = publish_one(&mut store, Direction::Long, 100, 2_000);
    let ev = resolve_signal(
        &mut store,
        ResolveSignal {
            signal_agent: AGENT,
            signal_index: index,
            agent_profile: AGENT,
            resolver: SUBSCRIBER,
        },
        99,
        2_500,
    )
    .unwrap();
    assert_eq!(ev.outcome, Outcome::Incorrect);
    let p = store.get_agent(AGENT).unwrap();
    assert_eq!(p.correct_signals, 0);
    assert_eq!(p.incorrect_signals, 1);
    assert_eq!(p.accuracy_bps, 0);
    assert_eq!(p.reputation_score, 0);
}

#[test]
fn short_resolution_at_target_is_correct() {
    let mut store = setup();
    let index = publish_one(&mut store, Direction::Short, 100, 2_000);
    let ev = resolve_signal(
        &mut store,
        ResolveSignal {
            signal_agent: AGENT,
            signal_index: index,
            agent_profile: AGENT,
            resolver: SUBSCRIBER,
        },
        100,
        2_500,
    )
    .unwrap();
    assert_eq!(ev.outcome, Outcome::Correct);
}

#[test]
fn short_resolution_above_target_is_incorrect() {
    let mut store = setup();
    let index = publish_one(&mut store, Direction::Short, 100, 2_000);
    let ev = resolve_signal(
        &mut store,
        ResolveSignal {
            signal_agent: AGENT,
            signal_index: index,
            agent_profile: AGENT,
            resolver: SUBSCRIBER,
        },
        101,
        2_500,
    )
    .unwrap();
    assert_eq!(ev.outcome, Outcome::Incorrect);
}

#[test]
fn resolve_twice_fails_already_resolved() {
    let mut store = setup();
    let index = publish_one(&mut store, Direction::Long, 100, 2_000);
    let accounts = ResolveSignal {
        signal_agent: AGENT,
        signal_index: index,
        agent_profile: AGENT,
        resolver: SUBSCRIBER,
    };
    resolve_signal(&mut store, accounts, 150, 2_500).unwrap();
    let r = resolve_signal(&mut store, accounts, 40, 3_000);
    assert_eq!(r, Err(SolSignalError::AlreadyResolved));
    let p = store.get_agent(AGENT).unwrap();
    assert_eq!(p.correct_signals + p.incorrect_signals, 1);
    let s = store.get_signal(AGENT, index).unwrap();
    assert_eq!(s.resolution_price, 150);
}

#[test]
fn resolve_before_horizon_fails_and_changes_nothing() {
    let mut store = setup();
    let index = publish_one(&mut store, Direction::Long, 100, 2_000);
    let r = resolve_signal(
        &mut store,
        ResolveSignal {
            signal_agent: AGENT,
            signal_index: index,
            agent_profile: AGENT,
            resolver: SUBSCRIBER,
        },
        150,
        1_999,
    );
    assert_eq!(r, Err(SolSignalError::TimeHorizonNotReached));
    let s = store.get_signal(AGENT, index).unwrap();
    assert!(!s.resolved);
    assert_eq!(s.outcome, Outcome::Pending);
    assert_eq!(s.resolution_price, 0);
    let p = store.get_agent(AGENT).unwrap();
    assert_eq!(p.correct_signals, 0);
    assert_eq!(p.incorrect_signals, 0);
    assert_eq!(p.accuracy_bps, 0);
}

#[test]
fn resolve_at_horizon_is_allowed() {
    let mut store = setup();
    let index = publish_one(&mut store, Direction::Long, 100, 2_000);
    let r = resolve_signal(
        &mut store,
        ResolveSignal {
            signal_agent: AGENT,
            signal_index: index,
            agent_profile: AGENT,
            resolver: SUBSCRIBER,
        },
        150,
        2_000,
    );
    assert!(r.is_ok());
}

#[test]
fn resolve_with_mismatched_profile_fails_unauthorized() {
    let mut store = setup();
    register_agent(&mut store, RegisterAgent { agent: OTHER_AGENT }, b"bob".to_vec(), 100)
        .unwrap();
    let index = publish_one(&mut store, Direction::Long, 100, 2_000);
    let r = resolve_signal(
        &mut store,
        ResolveSignal {
            signal_agent: AGENT,
            signal_index: index,
            agent_profile: OTHER_AGENT,
            resolver: SUBSCRIBER,
        },
        150,
        2_500,
    );
    assert_eq!(r, Err(SolSignalError::Unauthorized));
    assert!(!store.get_signal(AGENT, index).unwrap().resolved);
}

#[test]
fn accuracy_and_reputation_follow_the_formulas() {
    let mut store = setup();
    let i1 = publish_one(&mut store, Direction::Long, 100, 2_000);
    let i2 = publish_one(&mut store, Direction::Long, 100, 2_000);
    let i3 = publish_one(&mut store, Direction::Long, 100, 2_000);
    for (index, price) in [(i1, 100), (i2, 120), (i3, 10)] {
        resolve_signal(
            &mut store,
            ResolveSignal {
                signal_agent: AGENT,
                signal_index: index,
                agent_profile: AGENT,
                resolver: SUBSCRIBER,
            },
            price,
            2_500,
        )
        .unwrap();
    }
    let p = store.get_agent(AGENT).unwrap();
    assert_eq!(p.correct_signals, 2);
    assert_eq!(p.incorrect_signals, 1);
    assert_eq!(p.accuracy_bps, 6_666);
    assert_eq!(p.reputation_score, 199);
    assert_eq!(p.expired_signals, 0);
}

#[test]
fn subscribe_zero_fee_fails_before_any_record() {
    let mut store = setup();
    let r = subscribe(&mut store, Subscribe { subscriber: SUBSCRIBER, agent: AGENT }, 0, 1_000);
    assert_eq!(r, Err(SolSignalError::InvalidFee));
    assert!(store.get_subscription(SUBSCRIBER, AGENT).is_none());
}

#[test]
fn subscribe_creates_thirty_day_grant() {
    let mut store = setup();
    let ev = subscribe(
        &mut store,
        Subscribe { subscriber: SUBSCRIBER, agent: AGENT },
        500,
        1_000,
    )
    .unwrap();
    assert_eq!(ev.subscriber, SUBSCRIBER);
    assert_eq!(ev.agent, AGENT);
    assert_eq!(ev.fee_paid, 500);
    assert_eq!(ev.expires_at, 1_000 + THIRTY_DAYS);
    assert_eq!(ev.timestamp, 1_000);
    let s = store.get_subscription(SUBSCRIBER, AGENT).unwrap();
    assert_eq!(s.subscriber, SUBSCRIBER);
    assert_eq!(s.agent, AGENT);
    assert_eq!(s.fee_paid, 500);
    assert_eq!(s.subscribed_at, 1_000);
    assert_eq!(s.expires_at, 1_000 + THIRTY_DAYS);
    assert!(s.active);
}

#[test]
fn subscribe_twice_fails_already_exists() {
    let mut store = setup();
    subscribe(&mut store, Subscribe { subscriber: SUBSCRIBER, agent: AGENT }, 500, 1_000)
        .unwrap();
    let r = subscribe(&mut store, Subscribe { subscriber: SUBSCRIBER, agent: AGENT }, 900, 2_000);
    assert_eq!(r, Err(SolSignalError::AlreadyExists));
    assert_eq!(store.get_subscription(SUBSCRIBER, AGENT).unwrap().fee_paid, 500);
}

#[test]
fn consume_records_one_log_and_emits_the_event() {
    let mut store = setup();
    let index = publish_one(&mut store, Direction::Long, 100, 2_000);
    subscribe(&mut store, Subscribe { subscriber: SUBSCRIBER, agent: AGENT }, 500, 1_000)
        .unwrap();
    let ev = consume_signal(
        &mut store,
        ConsumeSignal { subscriber: SUBSCRIBER, signal_agent: AGENT, signal_index: index },
        1_500,
    )
    .unwrap();
    assert_eq!(ev.subscriber, SUBSCRIBER);
    assert_eq!(ev.signal, Address::Signal { agent: AGENT, index });
    assert_eq!(ev.signal_index, index);
    assert_eq!(ev.timestamp, 1_500);
    let addr = Address::Signal { agent: AGENT, index };
    assert_eq!(store.consumption_count(SUBSCRIBER, addr), 1);
}

#[test]
fn consume_twice_fails_and_keeps_one_log() {
    let mut store = setup();
    let index = publish_one(&mut store, Direction::Long, 100, 2_000);
    subscribe(&mut store, Subscribe { subscriber: SUBSCRIBER, agent: AGENT }, 500, 1_000)
        .unwrap();
    let accounts = ConsumeSignal {
        subscriber: SUBSCRIBER,
        signal_agent: AGENT,
        signal_index: index,
    };
    consume_signal(&mut store, accounts, 1_500).unwrap();
    let r = consume_signal(&mut store, accounts, 1_600);
    assert_eq!(r, Err(SolSignalError::AlreadyExists));
    let addr = Address::Signal { agent: AGENT, index };
    assert_eq!(store.consumption_count(SUBSCRIBER, addr), 1);
}

#[test]
fn consume_after_expiry_fails() {
    let mut store = setup();
    let index = publish_one(&mut store, Direction::Long, 100, 2_000);
    subscribe(&mut store, Subscribe { subscriber: SUBSCRIBER, agent: AGENT }, 500, 1_000)
        .unwrap();
    let r = consume_signal(
        &mut store,
        ConsumeSignal { subscriber: SUBSCRIBER, signal_agent: AGENT, signal_index: index },
        1_000 + THIRTY_DAYS,
    );
    assert_eq!(r, Err(SolSignalError::SubscriptionExpired));
    let addr = Address::Signal { agent: AGENT, index };
    assert_eq!(store.consumption_count(SUBSCRIBER, addr), 0);
}

#[test]
fn consume_with_inactive_grant_fails() {
    // The public operations never clear `active`; the flag is reserved for a
    // future revocation feature, so an inactive grant is staged directly.
    let mut store = setup();
    let index = publish_one(&mut store, Direction::Long, 100, 2_000);
    subscribe(&mut store, Subscribe { subscriber: SUBSCRIBER, agent: AGENT }, 500, 1_000)
        .unwrap();
    store.subscriptions[0].active = false;
    let r = consume_signal(
        &mut store,
        ConsumeSignal { subscriber: SUBSCRIBER, signal_agent: AGENT, signal_index: index },
        1_500,
    );
    assert_eq!(r, Err(SolSignalError::SubscriptionInactive));
}
