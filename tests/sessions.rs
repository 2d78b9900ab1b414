use shell_gateway::endpoint::EndpointKey;
use shell_gateway::error::{ConnectError, PoolError, ReplyError, SessionError};
use shell_gateway::hub::{handle_message, ping, reply_of, ConnectStep, DataStep, EndOutcome, Inbound, Reply, SessionHub, Step};
use shell_gateway::pool::{PoolConfig, PooledConnection};
use shell_gateway::registry::{SessionRegistry, SessionState};

fn key() -> EndpointKey {
    EndpointKey::new("10.0.0.5".to_string(), 22, "deploy".to_string())
}

fn config(max_size: usize) -> PoolConfig {
    PoolConfig {
        max_size,
        min_idle: 2,
        max_idle_time: 5_000,
        max_lifetime: 60_000,
        connection_timeout: 1_000,
    }
}

/// Runs a connect request through to the end, opening channels successfully.
fn connect(hub: &mut SessionHub, session_id: u128, now: u64) -> ConnectStep {
    match hub.connect(&key(), session_id, now) {
        ConnectStep::MustOpen { permit, .. } => hub.opened(permit, Ok(()), session_id, now),
        other => other,
    }
}

#[test]
fn second_connect_reuses_returned_connection() {
    let mut hub = SessionHub::new(config(4));
    let first = match connect(&mut hub, 1, 0) {
        ConnectStep::Attached { session_id, connection } => {
            assert_eq!(session_id, 1);
            connection
        }
        _ => panic!("first connect failed"),
    };
    assert!(matches!(hub.disconnect(1, true, 100), EndOutcome::Returned { connection } if connection == first));
    match hub.connect(&key(), 2, 200) {
        ConnectStep::Attached { session_id, connection } => {
            assert_eq!(session_id, 2);
            assert_eq!(connection, first);
        }
        _ => panic!("expected reuse without opening"),
    }
    assert_eq!(hub.pool_ref().get_stats().total_created, 1);
}

#[test]
fn disconnect_returns_or_discards() {
    let mut hub = SessionHub::new(config(4));
    assert!(matches!(connect(&mut hub, 1, 0), ConnectStep::Attached { .. }));
    assert!(matches!(connect(&mut hub, 2, 0), ConnectStep::Attached { .. }));
    assert_eq!(hub.pool_ref().live_connections(), 2);

    assert!(matches!(hub.disconnect(1, true, 10), EndOutcome::Returned { .. }));
    assert_eq!(hub.registry_ref().get(1), None);
    assert_eq!(hub.pool_ref().idle_count(), 1);
    assert_eq!(hub.pool_ref().live_connections(), 2);

    assert!(matches!(hub.disconnect(2, false, 10), EndOutcome::Discarded { .. }));
    assert_eq!(hub.registry_ref().get(2), None);
    assert_eq!(hub.pool_ref().idle_count(), 1);
    assert_eq!(hub.pool_ref().live_connections(), 1);

    assert!(matches!(hub.disconnect(3, true, 10), EndOutcome::NotFound));
}

#[test]
fn client_close_ends_all_its_sessions() {
    let mut hub = SessionHub::new(config(4));
    connect(&mut hub, 1, 0);
    connect(&mut hub, 2, 0);
    connect(&mut hub, 3, 0);
    let outcomes = hub.disconnect_all(&vec![(1, true), (3, false)], 50);
    assert_eq!(outcomes.len(), 2);
    assert!(!hub.registry_ref().contains(1));
    assert!(hub.registry_ref().contains(2));
    assert!(!hub.registry_ref().contains(3));
    assert_eq!(hub.registry_ref().len(), 1);
    assert_eq!(hub.pool_ref().live_connections(), 2);
}

#[test]
fn data_routes_to_session_connection() {
    let mut hub = SessionHub::new(config(4));
    let conn = match connect(&mut hub, 7, 0) {
        ConnectStep::Attached { connection, .. } => connection,
        _ => panic!("connect failed"),
    };
    match hub.data(7, b"ls\n".to_vec(), 10) {
        DataStep::Write { connection, data } => {
            assert_eq!(connection, conn);
            assert_eq!(data, b"ls\n".to_vec());
        }
        _ => panic!("expected a write"),
    }
    match hub.batch_data(7, vec![b"echo ".to_vec(), b"hi".to_vec(), b"\n".to_vec()], 20) {
        DataStep::Write { data, .. } => assert_eq!(data, b"echo hi\n".to_vec()),
        _ => panic!("expected a write"),
    }
    assert!(matches!(
        hub.data(8, b"x".to_vec(), 10),
        DataStep::Reject { error: ReplyError::Session(SessionError::NotFound) }
    ));
}

#[test]
fn failed_open_leaves_nothing_behind() {
    let mut hub = SessionHub::new(config(1));
    match hub.connect(&key(), 1, 0) {
        ConnectStep::MustOpen { permit, evicted } => {
            assert!(evicted.is_none());
            assert_eq!(hub.pool_ref().live_connections(), 1);
            let step = hub.opened(permit, Err(ConnectError::Auth), 1, 0);
            assert!(matches!(step, ConnectStep::Failed { error: ReplyError::Connect(ConnectError::Auth) }));
        }
        _ => panic!("expected to open"),
    }
    assert_eq!(hub.pool_ref().live_connections(), 0);
    assert!(!hub.registry_ref().contains(1));
}

#[test]
fn full_pool_reports_pool_full() {
    let mut hub = SessionHub::new(config(1));
    assert!(matches!(connect(&mut hub, 1, 0), ConnectStep::Attached { .. }));
    assert!(matches!(
        hub.connect(&key(), 2, 0),
        ConnectStep::Failed { error: ReplyError::Pool(PoolError::PoolFull) }
    ));
}

#[test]
fn duplicate_session_id_is_refused() {
    let mut hub = SessionHub::new(config(2));
    assert!(matches!(connect(&mut hub, 1, 0), ConnectStep::Attached { .. }));
    assert!(matches!(
        hub.connect(&key(), 1, 0),
        ConnectStep::Failed { error: ReplyError::Session(SessionError::DuplicateId) }
    ));
    assert_eq!(hub.pool_ref().live_connections(), 1);
}

#[test]
fn reaper_evicts_idle_connections() {
    let mut hub = SessionHub::new(config(4));
    connect(&mut hub, 1, 0);
    hub.disconnect(1, true, 0);
    assert!(hub.cleanup_expired(4_000).is_empty());
    assert_eq!(hub.cleanup_expired(6_000).len(), 1);
    assert_eq!(hub.pool_ref().live_connections(), 0);
}

#[test]
fn warm_up_fills_idle_set() {
    let mut hub = SessionHub::new(config(3));
    let count = hub.pool_ref().warmup_count();
    assert_eq!(count, 2);
    for _ in 0..count {
        let permit = hub.warm_reserve(&key()).unwrap();
        assert!(hub.warm_opened(permit, Ok(()), 0).is_some());
    }
    assert_eq!(hub.pool_ref().idle_count(), 2);
    let permit = hub.warm_reserve(&key()).unwrap();
    assert!(hub.warm_opened(permit, Err(ConnectError::Network), 0).is_none());
    assert_eq!(hub.pool_ref().live_connections(), 2);
    // a connect now reuses a warm connection
    assert!(matches!(hub.connect(&key(), 9, 10), ConnectStep::Attached { .. }));
    assert_eq!(hub.pool_ref().idle_count(), 1);
}

#[test]
fn ping_answers_pong() {
    assert!(matches!(ping(), Reply::Pong));
}

#[test]
fn registry_create_get_remove() {
    let mut reg = SessionRegistry::new();
    let conn = PooledConnection::new(5, key(), 0);
    assert!(reg.create(42, conn, 0).is_ok());
    assert_eq!(reg.get(42), Some(5));
    assert_eq!(reg.len(), 1);
    let again = PooledConnection::new(6, key(), 0);
    assert!(reg.create(42, again, 0).is_err());
    assert!(reg.touch(42, 99));
    let s = reg.remove(42).unwrap();
    assert_eq!(s.state, SessionState::Closing);
    assert_eq!(s.last_activity, 99);
    assert_eq!(s.connection.id, 5);
    assert_eq!(reg.get(42), None);
    assert!(reg.remove(42).is_none());
    assert!(!reg.touch(42, 100));
}

#[test]
fn session_state_moves() {
    assert!(SessionState::Connecting.may_advance(SessionState::Active));
    assert!(SessionState::Active.may_advance(SessionState::Closing));
    assert!(SessionState::Closing.may_advance(SessionState::Closed));
    assert!(!SessionState::Closed.may_advance(SessionState::Active));
    assert!(!SessionState::Active.may_advance(SessionState::Connecting));
}

#[test]
fn shell_output_records_activity() {
    let mut hub = SessionHub::new(config(2));
    connect(&mut hub, 4, 0);
    assert!(hub.output_received(4, 77));
    assert!(!hub.output_received(5, 77));
    let mut reg_view = hub.disconnect(4, true, 80);
    assert!(matches!(reg_view, EndOutcome::Returned { .. }));
    reg_view = hub.disconnect(4, true, 81);
    assert!(matches!(reg_view, EndOutcome::NotFound));
}

#[test]
fn handle_message_dispatches_each_kind() {
    let mut hub = SessionHub::new(config(2));
    let step = handle_message(&mut hub, Inbound::Ping, 0, 0);
    assert!(matches!(reply_of(&step), Some(Reply::Pong)));

    let step = handle_message(&mut hub, Inbound::Connect { key: key() }, 11, 0);
    let permit = match step {
        Step::Connect(ConnectStep::MustOpen { permit, .. }) => permit,
        _ => panic!("expected to open"),
    };
    let attached = Step::Connect(hub.opened(permit, Ok(()), 11, 0));
    assert!(matches!(reply_of(&attached), Some(Reply::Connected { session_id: 11 })));

    let step = handle_message(&mut hub, Inbound::Data { session_id: 11, data: b"pwd\n".to_vec() }, 0, 1);
    assert!(matches!(step, Step::Data(DataStep::Write { .. })));
    assert!(reply_of(&step).is_none());

    let step = handle_message(&mut hub, Inbound::Data { session_id: 12, data: b"pwd\n".to_vec() }, 0, 1);
    assert!(matches!(
        reply_of(&step),
        Some(Reply::Error { error: ReplyError::Session(SessionError::NotFound) })
    ));

    let step = handle_message(&mut hub, Inbound::Disconnect { session_id: 11, alive: true }, 0, 2);
    assert!(matches!(reply_of(&step), Some(Reply::Disconnected { session_id: 11 })));
    assert!(!hub.registry_ref().contains(11));
    assert_eq!(hub.pool_ref().idle_count(), 1);
}

#[test]
fn client_close_reports_each_connection_fate() {
    let mut hub = SessionHub::new(config(4));
    connect(&mut hub, 1, 0);
    connect(&mut hub, 2, 0);
    let idle_before = hub.pool_ref().idle_count();
    let live_before = hub.pool_ref().live_connections();
    let outcomes = hub.disconnect_all(&vec![(1, true), (1, true), (2, false), (9, true)], 10);
    assert!(matches!(outcomes[0], EndOutcome::Returned { .. }));
    assert!(matches!(outcomes[1], EndOutcome::NotFound));
    assert!(matches!(outcomes[2], EndOutcome::Discarded { .. }));
    assert!(matches!(outcomes[3], EndOutcome::NotFound));
    assert_eq!(hub.pool_ref().idle_count(), idle_before + 1);
    assert_eq!(hub.pool_ref().live_connections(), live_before - 1);
    assert_eq!(hub.registry_ref().len(), 0);
}

#[test]
fn failed_open_leaves_counters_unchanged() {
    let mut hub = SessionHub::new(config(2));
    let before = hub.pool_ref().get_stats();
    if let ConnectStep::MustOpen { permit, .. } = hub.connect(&key(), 1, 0) {
        hub.opened(permit, Err(ConnectError::Network), 1, 0);
    } else {
        panic!("expected to open");
    }
    let after = hub.pool_ref().get_stats();
    assert_eq!(after.total_created, before.total_created);
    assert_eq!(after.current_size, before.current_size);
    assert_eq!(after.current_idle, before.current_idle);
}

#[test]
fn reused_connection_counts_its_uses() {
    let mut hub = SessionHub::new(config(2));
    let first = match connect(&mut hub, 1, 0) {
        ConnectStep::Attached { connection, .. } => connection,
        _ => panic!("connect failed"),
    };
    hub.disconnect(1, true, 5);
    assert!(matches!(hub.connect(&key(), 2, 6), ConnectStep::Attached { connection, .. } if connection == first));
    let s = hub.disconnect(2, true, 7);
    assert!(matches!(s, EndOutcome::Returned { .. }));
    let stats = hub.pool_ref().usage_stats();
    assert_eq!(stats.max_usage, 1);
    assert_eq!(hub.pool_ref().get_stats().total_created, 1);
}
