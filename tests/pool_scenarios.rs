use shell_gateway::endpoint::EndpointKey;
use shell_gateway::error::PoolError;
use shell_gateway::pool::{Checkout, ConnectionPool, OpenPermit, PoolConfig, PoolStats, PooledConnection, ReturnOutcome};

fn key(host: &str) -> EndpointKey {
    EndpointKey::new(host.to_string(), 22, "root".to_string())
}

fn config(max_size: usize) -> PoolConfig {
    PoolConfig {
        max_size,
        min_idle: 1,
        max_idle_time: 5_000,
        max_lifetime: 60_000,
        connection_timeout: 1_000,
    }
}

fn open_new(pool: &mut ConnectionPool, k: &EndpointKey, now: u64) -> PooledConnection {
    match pool.get_connection(k, now) {
        Ok(Checkout::Open { permit, evicted }) => {
            assert!(evicted.is_none());
            pool.complete_open(permit, now).unwrap()
        }
        _ => panic!("expected a slot for a new connection"),
    }
}

#[test]
fn checkout_beyond_max_size_is_pool_full() {
    let mut pool = ConnectionPool::new(config(2));
    let a = open_new(&mut pool, &key("a"), 0);
    let b = open_new(&mut pool, &key("b"), 0);
    assert_eq!(pool.live_connections(), 2);
    assert!(matches!(pool.get_connection(&key("c"), 0), Err(PoolError::PoolFull)));
    assert_eq!(pool.live_connections(), 2);

    // returning A lets C in, at A's expense
    assert!(matches!(pool.return_connection(a, true, 10), ReturnOutcome::Pooled));
    match pool.get_connection(&key("c"), 20) {
        Ok(Checkout::Open { permit, evicted }) => {
            assert_eq!(evicted.unwrap().key.host, "a");
            let c = pool.complete_open(permit, 20).unwrap();
            assert_eq!(c.key.host, "c");
        }
        _ => panic!("expected an eviction"),
    }
    assert_eq!(pool.live_connections(), 2);

    // discarding B frees a slot without evicting anything
    assert!(pool.discard(b));
    assert_eq!(pool.live_connections(), 1);
    let d = open_new(&mut pool, &key("d"), 30);
    assert_eq!(d.key.host, "d");
    assert_eq!(pool.live_connections(), 2);
}

#[test]
fn idle_connection_evicted_after_max_idle_time() {
    let mut pool = ConnectionPool::new(config(4));
    let c = open_new(&mut pool, &key("a"), 0);
    assert!(matches!(pool.return_connection(c, true, 0), ReturnOutcome::Pooled));

    let evicted = pool.cleanup_expired(4_000);
    assert!(evicted.is_empty());
    assert_eq!(pool.idle_count(), 1);

    let evicted = pool.cleanup_expired(6_000);
    assert_eq!(evicted.len(), 1);
    assert_eq!(pool.idle_count(), 0);
    assert_eq!(pool.live_connections(), 0);
    assert_eq!(pool.get_stats().total_destroyed, 1);
}

#[test]
fn returned_connection_is_reused_for_same_endpoint() {
    let mut pool = ConnectionPool::new(config(4));
    let c = open_new(&mut pool, &key("a"), 0);
    let id = c.id;
    assert_eq!(c.use_count, 0);
    assert!(matches!(pool.return_connection(c, true, 100), ReturnOutcome::Pooled));
    match pool.get_connection(&key("a"), 200) {
        Ok(Checkout::Reused(again)) => {
            assert_eq!(again.id, id);
            assert_eq!(again.use_count, 1);
            assert_eq!(again.last_used, 200);
        }
        _ => panic!("expected reuse"),
    }
    let stats = pool.get_stats();
    assert_eq!(stats.total_created, 1);
    assert_eq!(stats.total_checkouts, 2);
    assert_eq!(stats.total_returns, 1);
}

#[test]
fn most_recently_returned_connection_is_preferred() {
    let mut pool = ConnectionPool::new(config(4));
    let first = open_new(&mut pool, &key("a"), 0);
    let second = open_new(&mut pool, &key("a"), 0);
    let second_id = second.id;
    pool.return_connection(first, true, 10);
    pool.return_connection(second, true, 20);
    match pool.get_connection(&key("a"), 30) {
        Ok(Checkout::Reused(c)) => assert_eq!(c.id, second_id),
        _ => panic!("expected reuse"),
    }
}

#[test]
fn other_endpoint_is_not_reused() {
    let mut pool = ConnectionPool::new(config(4));
    let c = open_new(&mut pool, &key("a"), 0);
    pool.return_connection(c, true, 0);
    let other_user = EndpointKey::new("a".to_string(), 22, "admin".to_string());
    assert!(matches!(pool.get_connection(&other_user, 10), Ok(Checkout::Open { .. })));
}

#[test]
fn connection_past_lifetime_is_never_handed_out() {
    let mut cfg = config(4);
    cfg.max_lifetime = 1_000;
    cfg.max_idle_time = 10_000;
    let mut pool = ConnectionPool::new(cfg);
    let c = open_new(&mut pool, &key("a"), 0);
    assert!(matches!(pool.return_connection(c, true, 500), ReturnOutcome::Pooled));
    assert!(matches!(pool.get_connection(&key("a"), 1_500), Ok(Checkout::Open { .. })));
}

#[test]
fn expired_or_dead_connection_is_discarded_on_return() {
    let mut cfg = config(4);
    cfg.max_lifetime = 1_000;
    let mut pool = ConnectionPool::new(cfg);
    let c = open_new(&mut pool, &key("a"), 0);
    assert!(matches!(pool.return_connection(c, true, 2_000), ReturnOutcome::Discarded(_)));
    assert_eq!(pool.live_connections(), 0);
    let d = open_new(&mut pool, &key("a"), 0);
    assert!(matches!(pool.return_connection(d, false, 10), ReturnOutcome::Discarded(_)));
    assert_eq!(pool.idle_count(), 0);
    assert_eq!(pool.get_stats().total_destroyed, 2);
}

#[test]
fn unknown_connection_is_refused_on_return() {
    let mut pool = ConnectionPool::new(config(4));
    let stranger = PooledConnection::new(99, key("a"), 0);
    assert!(matches!(pool.return_connection(stranger, true, 0), ReturnOutcome::Unknown(_)));
    assert_eq!(pool.idle_count(), 0);
    let stranger = PooledConnection::new(98, key("a"), 0);
    assert!(!pool.discard(stranger));
}

#[test]
fn abandoned_open_frees_its_slot() {
    let mut pool = ConnectionPool::new(config(1));
    match pool.get_connection(&key("a"), 0) {
        Ok(Checkout::Open { permit, .. }) => {
            assert_eq!(pool.live_connections(), 1);
            pool.abandon_open(permit);
        }
        _ => panic!("expected a slot"),
    }
    assert_eq!(pool.live_connections(), 0);
}

#[test]
fn zero_sized_pool_is_always_full() {
    let mut pool = ConnectionPool::new(config(0));
    assert!(matches!(pool.get_connection(&key("a"), 0), Err(PoolError::PoolFull)));
}

#[test]
fn capacity_never_exceeded_over_mixed_operations() {
    let mut pool = ConnectionPool::new(config(3));
    let mut held: Vec<PooledConnection> = Vec::new();
    let hosts = ["a", "b", "a", "c", "b", "d", "a"];
    for (step, host) in hosts.iter().enumerate() {
        let now = (step as u64) * 100;
        match pool.get_connection(&key(host), now) {
            Ok(Checkout::Reused(c)) => held.push(c),
            Ok(Checkout::Open { permit, .. }) => held.push(pool.complete_open(permit, now).unwrap()),
            Err(_) => {
                if let Some(c) = held.pop() {
                    pool.return_connection(c, step % 2 == 0, now);
                }
            }
        }
        assert!(pool.live_connections() <= 3);
    }
}

#[test]
fn clear_empties_idle_set() {
    let mut pool = ConnectionPool::new(config(4));
    let a = open_new(&mut pool, &key("a"), 0);
    let b = open_new(&mut pool, &key("b"), 0);
    pool.return_connection(a, true, 1);
    pool.return_connection(b, true, 2);
    let gone = pool.clear();
    assert_eq!(gone.len(), 2);
    assert_eq!(pool.idle_count(), 0);
    assert_eq!(pool.get_stats().total_destroyed, 2);
}

#[test]
fn warmup_count_respects_free_slots() {
    let mut cfg = config(2);
    cfg.min_idle = 5;
    let mut pool = ConnectionPool::new(cfg);
    assert_eq!(pool.warmup_count(), 2);
    let _a = open_new(&mut pool, &key("a"), 0);
    assert_eq!(pool.warmup_count(), 1);
}

#[test]
fn connection_age_checks() {
    let c = PooledConnection::new(1, key("a"), 1_000);
    assert!(!c.is_expired(500, 1_500));
    assert!(c.is_expired(500, 1_501));
    assert!(!c.is_idle_too_long(500, 900));
    let mut c = c;
    c.mark_used(3_000);
    assert_eq!(c.use_count, 1);
    assert_eq!(c.last_used, 3_000);
}

#[test]
fn default_pool_config_values() {
    let cfg = PoolConfig::default();
    assert_eq!(cfg.max_size, 50);
    assert_eq!(cfg.min_idle, 5);
    assert_eq!(cfg.max_idle_time, 300_000);
    assert_eq!(cfg.max_lifetime, 3_600_000);
    assert_eq!(cfg.connection_timeout, 10_000);
    assert_eq!(PoolStats::new(), PoolStats::default());
}

#[test]
fn completing_without_an_outstanding_permit_fails() {
    let mut pool = ConnectionPool::new(config(2));
    let stray = OpenPermit { key: key("a") };
    assert!(matches!(pool.complete_open(stray, 0), Err(PoolError::NoConnectionAvailable)));
    assert_eq!(pool.live_connections(), 0);
}

#[test]
fn reserve_claims_a_slot() {
    let mut pool = ConnectionPool::new(config(1));
    let (permit, evicted) = pool.reserve(&key("a")).unwrap();
    assert!(evicted.is_none());
    assert_eq!(permit.key.host, "a");
    assert_eq!(pool.live_connections(), 1);
    assert!(matches!(pool.reserve(&key("b")), Err(PoolError::PoolFull)));
    let c = pool.complete_open(permit, 5).unwrap();
    assert_eq!(c.id, 0);
    assert_eq!(c.created_at, 5);
}

#[test]
fn usage_statistics_over_idle_connections() {
    let mut pool = ConnectionPool::new(config(4));
    let empty = pool.usage_stats();
    assert_eq!((empty.size, empty.avg_usage, empty.max_usage, empty.min_usage), (0, 0, 0, 0));
    let a = open_new(&mut pool, &key("a"), 0);
    let b = open_new(&mut pool, &key("b"), 0);
    pool.return_connection(a, true, 1);
    let a = match pool.get_connection(&key("a"), 2) {
        Ok(Checkout::Reused(c)) => c,
        _ => panic!("expected reuse"),
    };
    pool.return_connection(a, true, 3);
    pool.return_connection(b, true, 3);
    let s = pool.usage_stats();
    assert_eq!(s.size, 2);
    assert_eq!(s.max_usage, 1);
    assert_eq!(s.min_usage, 0);
    assert_eq!(s.avg_usage, 0);
}

#[test]
fn reuse_prefers_latest_use_even_if_clock_steps_back() {
    let mut pool = ConnectionPool::new(config(4));
    let first = open_new(&mut pool, &key("a"), 0);
    let second = open_new(&mut pool, &key("a"), 0);
    let second_id = second.id;
    pool.return_connection(first, true, 100);
    // a return stamped before the previous one still counts as the latest
    pool.return_connection(second, true, 50);
    match pool.get_connection(&key("a"), 120) {
        Ok(Checkout::Reused(c)) => assert_eq!(c.id, second_id),
        _ => panic!("expected reuse"),
    }
}
