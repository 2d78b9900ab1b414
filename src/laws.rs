use vstd::prelude::*;
use crate::pool::{
    ConnectionPool, PooledConnection, fresh, is_mru_match, used_at, sat_inc, fresh_pred, stale_pred,
};
use crate::hub::SessionHub;
use crate::stream::{OutputBatcher, WriteQueue};

verus! {

broadcast use vstd::seq_lib::group_seq_properties;

/// A well-formed pool never holds more live connections (idle, checked out
/// or being opened) than its `max_size`. Every pool operation keeps the
/// pool well-formed.
pub proof fn law_capacity(pool: ConnectionPool)
    requires
        pool.wf(),
    ensures
        pool.live_count() <= pool.cfg().max_size,
        pool.idle_seq().len() <= pool.cfg().max_size,
{
}

/// A connection is owned by at most one holder: no idle connection is also
/// serving a session, no two sessions share a connection, and no connection
/// sits twice in the idle set.
pub proof fn law_exclusive_ownership(hub: SessionHub)
    requires
        hub.wf(),
    ensures
        forall|i: int, s: u128|
            0 <= i < hub.pool().idle_seq().len() && #[trigger] hub.sessions().contains_key(s)
                ==> #[trigger] hub.pool().idle_seq()[i].id != hub.sessions()[s].connection.id,
        forall|s1: u128, s2: u128|
            #[trigger] hub.sessions().contains_key(s1) && #[trigger] hub.sessions().contains_key(s2)
                && s1 != s2 ==> hub.sessions()[s1].connection.id != hub.sessions()[s2].connection.id,
        forall|i: int, j: int|
            0 <= i < hub.pool().idle_seq().len() && 0 <= j < hub.pool().idle_seq().len() && i != j
                ==> #[trigger] hub.pool().idle_seq()[i].id != #[trigger] hub.pool().idle_seq()[j].id,
{
    assert forall|i: int, s: u128|
        0 <= i < hub.pool().idle_seq().len() && #[trigger] hub.sessions().contains_key(s)
            implies #[trigger] hub.pool().idle_seq()[i].id != hub.sessions()[s].connection.id by {
        let k = hub.pool().out_ids().index_of(hub.sessions()[s].connection.id);
        assert(hub.pool().out_ids()[k] == hub.sessions()[s].connection.id);
    }
}

/// Once a connection is returned to the pool (it is then the most recently
/// returned idle connection), a checkout for its endpoint made while it is
/// still fresh picks exactly that connection, whose use count then grows
/// by one.
pub proof fn law_reuse_after_return(pool: ConnectionPool, c: PooledConnection, now: u64)
    requires
        pool.wf(),
        pool.idle_seq().len() > 0,
        pool.idle_seq().last() == c,
        fresh(c, pool.cfg(), now),
    ensures
        is_mru_match(pool.idle_seq(), pool.idle_seq().len() - 1, c.key@, pool.cfg(), now),
        forall|i: int|
            #[trigger] is_mru_match(pool.idle_seq(), i, c.key@, pool.cfg(), now) ==> i == pool.idle_seq().len()
                - 1,
        used_at(c, now).id == c.id,
        used_at(c, now).use_count == sat_inc(c.use_count),
        c.use_count < u64::MAX ==> used_at(c, now).use_count == c.use_count + 1,
{
}

/// A cleanup at `now` keeps an idle connection exactly when it is neither
/// past its lifetime nor idle longer than `max_idle_time`, and evicts it
/// otherwise (the idle set after `cleanup_expired` is the kept part, the
/// result the evicted part).
pub proof fn law_idle_eviction(pool: ConnectionPool, c: PooledConnection, now: u64)
    requires
        pool.wf(),
        pool.idle_seq().contains(c),
    ensures
        pool.idle_seq().filter(fresh_pred(pool.cfg(), now)).contains(c) <==> fresh(c, pool.cfg(), now),
        pool.idle_seq().filter(stale_pred(pool.cfg(), now)).contains(c) <==> !fresh(c, pool.cfg(), now),
{
    let s = pool.idle_seq();
    let keep = fresh_pred(pool.cfg(), now);
    let drop = stale_pred(pool.cfg(), now);
    let i = choose|i: int| 0 <= i < s.len() && s[i] == c;
    if fresh(c, pool.cfg(), now) {
        s.lemma_filter_contains(keep, i);
    } else {
        s.lemma_filter_contains(drop, i);
    }
    if s.filter(keep).contains(c) {
        let k = choose|k: int| 0 <= k < s.filter(keep).len() && s.filter(keep)[k] == c;
        s.lemma_filter_pred(keep, k);
    }
    if s.filter(drop).contains(c) {
        let k = choose|k: int| 0 <= k < s.filter(drop).len() && s.filter(drop)[k] == c;
        s.lemma_filter_pred(drop, k);
    }
}

/// The writes that reach a session's shell are a prefix of the writes
/// submitted, in the same order.
pub proof fn law_writes_in_order(q: WriteQueue)
    requires
        q.wf(),
    ensures
        q.started().len() <= q.submitted().len(),
        forall|i: int| 0 <= i < q.started().len() ==> #[trigger] q.started()[i] == q.submitted()[i],
{
}

/// The output bytes sent to the client are a prefix of the bytes the shell
/// produced, in the same order; batching neither drops nor reorders.
pub proof fn law_output_in_order(b: OutputBatcher)
    requires
        b.wf(),
    ensures
        b.emitted().len() <= b.received().len(),
        forall|i: int| 0 <= i < b.emitted().len() ==> #[trigger] b.emitted()[i] == b.received()[i],
        b.received().subrange(b.emitted().len() as int, b.received().len() as int) == b.pending(),
{
    assert(b.received().subrange(b.emitted().len() as int, b.received().len() as int) =~= b.pending());
}

} // verus!
