use vstd::prelude::*;
use crate::endpoint::EndpointKey;
use crate::error::{PoolError, ReplyError, SessionError, ConnectError};
use crate::pool::{
    ConnectionPool, PoolConfig, PooledConnection, OpenPermit, Checkout, ReturnOutcome,
    spec_expired, no_match, is_mru_match, latest_used, used_at, sat_inc, PoolStats,
};
use crate::registry::{SessionRegistry, Session, SessionState};

verus! {

/// A message to the client.
pub enum Reply {
    Connected { session_id: u128 },
    Output { session_id: u128, data: Vec<u8> },
    Error { error: ReplyError },
    Disconnected { session_id: u128 },
    Pong,
}

/// The answer to a liveness probe of the client link itself.
pub fn ping() -> (r: Reply)
    ensures
        r is Pong,
{
    Reply::Pong
}

/// Where a connect request stands after a step.
pub enum ConnectStep {
    /// The session is live on `connection`: start its reader and reply `Connected`.
    Attached { session_id: u128, connection: u64 },
    /// Close `evicted` if any, open a channel for the permit, then call `opened`.
    MustOpen { permit: OpenPermit, evicted: Option<PooledConnection> },
    /// Nothing was created: reply with the error.
    Failed { error: ReplyError },
}

/// What the data path asks the caller to do.
pub enum DataStep {
    /// Schedule this write on the channel of `connection`.
    Write { connection: u64, data: Vec<u8> },
    /// Reply with the error.
    Reject { error: ReplyError },
}

/// What became of the connection of a session that ended.
pub enum EndOutcome {
    /// Back in the pool, idle.
    Returned { connection: u64 },
    /// Dropped from the pool: the caller closes its channel.
    Discarded { connection: u64 },
    /// No such session was live.
    NotFound,
}

/// What a connect request for `session_id` to `key` at `now` does, from hub
/// `o` to hub `n`, answering `r`.
pub open spec fn connect_outcome(
    o: SessionHub,
    n: SessionHub,
    key: EndpointKey,
    session_id: u128,
    now: u64,
    r: ConnectStep,
) -> bool {
    let idle = o.pool().idle_seq();
    let cfg = o.pool().cfg();
    let free = !o.sessions().contains_key(session_id);
    &&& n.pool().cfg() == cfg
    &&& o.sessions().contains_key(session_id) ==> r == (ConnectStep::Failed {
        error: ReplyError::Session(SessionError::DuplicateId),
    }) && n == o
    &&& free && !no_match(idle, key@, cfg, now) ==> r is Attached
    &&& free && no_match(idle, key@, cfg, now) && (o.pool().live_count() < cfg.max_size || idle.len() > 0)
        ==> r is MustOpen
    &&& free && no_match(idle, key@, cfg, now) && o.pool().live_count() >= cfg.max_size && idle.len() == 0
        ==> r == (ConnectStep::Failed { error: ReplyError::Pool(PoolError::PoolFull) }) && n == o
    &&& r matches ConnectStep::Attached { session_id: s, connection: c } ==> {
        &&& s == session_id
        &&& free
        &&& n.sessions().contains_key(session_id)
        &&& n.sessions().remove(session_id) == o.sessions()
        &&& n.sessions()[session_id].connection.id == c
        &&& n.sessions()[session_id].state == SessionState::Active
        &&& exists|i: int|
            {
                &&& #[trigger] is_mru_match(idle, i, key@, cfg, now)
                &&& latest_used(idle, i, key@, cfg, now)
                &&& n.sessions()[session_id].connection == used_at(idle[i], now)
                &&& n.pool().idle_seq() == idle.remove(i)
            }
        &&& n.pool().out_ids() == o.pool().out_ids().push(c)
        &&& n.pool().pending_count() == o.pool().pending_count()
        &&& n.pool().live_count() == o.pool().live_count()
        &&& n.pool().counters() == (PoolStats {
            total_checkouts: sat_inc(o.pool().counters().total_checkouts),
            ..o.pool().counters()
        })
    }
    &&& r matches ConnectStep::MustOpen { permit, evicted } ==> {
        &&& permit.key == key
        &&& free && no_match(idle, key@, cfg, now)
        &&& n.sessions() == o.sessions()
        &&& n.pool().out_ids() == o.pool().out_ids()
        &&& n.pool().pending_count() == o.pool().pending_count() + 1
        &&& n.pool().next_fresh_id() == o.pool().next_fresh_id()
        &&& o.pool().live_count() < cfg.max_size ==> evicted is None && n.pool().idle_seq() == idle
            && n.pool().counters() == o.pool().counters()
        &&& o.pool().live_count() >= cfg.max_size ==> idle.len() > 0 && evicted == Some(idle[0])
            && n.pool().idle_seq() == idle.remove(0) && n.pool().counters() == (PoolStats {
            total_destroyed: sat_inc(o.pool().counters().total_destroyed),
            ..o.pool().counters()
        })
    }
    &&& r is Failed ==> n == o
}

/// What a write for `session_id` at `now` does, from hub `o` to hub `n`.
pub open spec fn data_outcome(o: SessionHub, n: SessionHub, session_id: u128, data: Vec<u8>, now: u64, r: DataStep) -> bool {
    &&& n.pool() == o.pool()
    &&& o.sessions().contains_key(session_id) ==> r == (DataStep::Write {
        connection: o.sessions()[session_id].connection.id,
        data,
    }) && n.sessions() == o.sessions().insert(
        session_id,
        Session { last_activity: now, ..o.sessions()[session_id] },
    )
    &&& !o.sessions().contains_key(session_id) ==> r == (DataStep::Reject {
        error: ReplyError::Session(SessionError::NotFound),
    }) && n == o
}

/// What ending `session_id` at `now` does, from hub `o` to hub `n`: the
/// session is gone, and its connection is either idle again or out of the pool.
pub open spec fn disconnect_outcome(
    o: SessionHub,
    n: SessionHub,
    session_id: u128,
    alive: bool,
    now: u64,
    r: EndOutcome,
) -> bool {
    &&& !n.sessions().contains_key(session_id)
    &&& n.sessions() == o.sessions().remove(session_id)
    &&& n.pool().cfg() == o.pool().cfg()
    &&& r is NotFound <==> !o.sessions().contains_key(session_id)
    &&& r is NotFound ==> n.sessions() == o.sessions() && n.pool() == o.pool()
    &&& r matches EndOutcome::Returned { connection } ==> {
        &&& connection == o.sessions()[session_id].connection.id
        &&& alive
        &&& !spec_expired(o.sessions()[session_id].connection, o.pool().cfg().max_lifetime, now)
        &&& n.pool().idle_seq().len() == o.pool().idle_seq().len() + 1
        &&& n.pool().idle_seq().last().id == connection
        &&& n.pool().live_count() == o.pool().live_count()
    }
    &&& r matches EndOutcome::Discarded { connection } ==> {
        &&& connection == o.sessions()[session_id].connection.id
        &&& !alive || spec_expired(o.sessions()[session_id].connection, o.pool().cfg().max_lifetime, now)
        &&& n.pool().idle_seq() == o.pool().idle_seq()
        &&& n.pool().live_count() == o.pool().live_count() - 1
    }
}

/// `s` is the id of one of the first `i` entries.
pub open spec fn listed_before(ended: Seq<(u128, bool)>, i: int, s: u128) -> bool {
    exists|j: int| 0 <= j < i && (#[trigger] ended[j]).0 == s
}

/// The outcome of entry `i` of a bulk disconnect, against the sessions
/// live before it: not found exactly when the session was not live or an
/// earlier entry already ended it; otherwise its connection was returned
/// (only if found alive) or discarded.
pub open spec fn end_entry(live: Map<u128, Session>, ended: Seq<(u128, bool)>, i: int, o: EndOutcome) -> bool {
    let s = ended[i].0;
    &&& o is NotFound <==> !live.contains_key(s) || listed_before(ended, i, s)
    &&& o matches EndOutcome::Returned { connection } ==> connection == live[s].connection.id && ended[i].1
    &&& o matches EndOutcome::Discarded { connection } ==> connection == live[s].connection.id
}

/// How many outcomes returned their connection to the pool.
pub open spec fn count_returned(r: Seq<EndOutcome>) -> nat
    decreases r.len(),
{
    if r.len() == 0 {
        0
    } else {
        count_returned(r.drop_last()) + if r.last() is Returned {
            1nat
        } else {
            0nat
        }
    }
}

/// How many outcomes discarded their connection.
pub open spec fn count_discarded(r: Seq<EndOutcome>) -> nat
    decreases r.len(),
{
    if r.len() == 0 {
        0
    } else {
        count_discarded(r.drop_last()) + if r.last() is Discarded {
            1nat
        } else {
            0nat
        }
    }
}

/// The pool and the session registry together, so that each checked-out
/// connection is owned by exactly one live session.
pub struct SessionHub {
    pool: ConnectionPool,
    registry: SessionRegistry,
}

impl SessionHub {
    pub closed spec fn pool(&self) -> ConnectionPool {
        self.pool
    }

    pub closed spec fn registry(&self) -> SessionRegistry {
        self.registry
    }

    pub open spec fn sessions(&self) -> Map<u128, Session> {
        self.registry().sessions()
    }

    pub open spec fn wf(&self) -> bool {
        &&& self.pool().wf()
        &&& self.registry().wf()
        &&& forall|s: u128|
            #[trigger] self.sessions().contains_key(s) ==> self.pool().out_ids().contains(
                self.sessions()[s].connection.id,
            )
        &&& forall|s1: u128, s2: u128|
            #[trigger] self.sessions().contains_key(s1) && #[trigger] self.sessions().contains_key(s2)
                && s1 != s2 ==> self.sessions()[s1].connection.id != self.sessions()[s2].connection.id
    }

    pub fn new(config: PoolConfig) -> (r: SessionHub)
        ensures
            r.wf(),
            r.pool().cfg() == config,
            r.pool().live_count() == 0,
            r.pool().next_fresh_id() == 0,
            r.sessions() == Map::<u128, Session>::empty(),
    {
        SessionHub { pool: ConnectionPool::new(config), registry: SessionRegistry::new() }
    }

    pub fn pool_ref(&self) -> (r: &ConnectionPool)
        ensures
            *r == self.pool(),
    {
        &self.pool
    }

    pub fn registry_ref(&self) -> (r: &SessionRegistry)
        ensures
            *r == self.registry(),
    {
        &self.registry
    }

    proof fn lemma_register(old_hub: SessionHub, new_hub: SessionHub, sid: u128, c: PooledConnection)
        requires
            old_hub.wf(),
            new_hub.pool().wf(),
            new_hub.registry().wf(),
            !old_hub.sessions().contains_key(sid),
            !old_hub.pool().out_ids().contains(c.id),
            new_hub.pool().out_ids() == old_hub.pool().out_ids().push(c.id),
            new_hub.sessions() == old_hub.sessions().insert(
                sid,
                Session {
                    id: sid,
                    connection: c,
                    created_at: new_hub.sessions()[sid].created_at,
                    last_activity: new_hub.sessions()[sid].last_activity,
                    state: SessionState::Active,
                },
            ),
        ensures
            new_hub.wf(),
    {
        assert forall|s: u128| #[trigger] new_hub.sessions().contains_key(s) implies new_hub.pool().out_ids().contains(
            new_hub.sessions()[s].connection.id,
        ) by {
            if s != sid {
                let k = old_hub.pool().out_ids().index_of(old_hub.sessions()[s].connection.id);
                assert(new_hub.pool().out_ids()[k] == old_hub.sessions()[s].connection.id);
            } else {
                assert(new_hub.pool().out_ids()[new_hub.pool().out_ids().len() - 1] == c.id);
            }
        }
    }

    /// First step of a connect request for `session_id`: reuse an idle
    /// connection to the endpoint, or ask for a new one to be opened.
    pub fn connect(&mut self, key: &EndpointKey, session_id: u128, now: u64) -> (r: ConnectStep)
        requires
            old(self).wf(),
        ensures
            final(self).wf(),
            final(self).pool().cfg() == old(self).pool().cfg(),
            connect_outcome(*old(self), *final(self), *key, session_id, now, r),
    {
        if self.registry.contains(session_id) {
            return ConnectStep::Failed { error: ReplyError::Session(SessionError::DuplicateId) };
        }
        let ghost old_hub = *self;
        match self.pool.get_connection(key, now) {
            Ok(Checkout::Reused(c)) => {
                let id = c.id;
                match self.registry.create(session_id, c, now) {
                    Ok(()) => {
                        proof {
                            SessionHub::lemma_register(old_hub, *self, session_id, self.sessions()[session_id].connection);
                            assert(self.sessions().remove(session_id) =~= old_hub.sessions());
                        }
                        ConnectStep::Attached { session_id, connection: id }
                    },
                    Err(c) => {
                        proof {
                            // cannot happen: the id was found free above
                            assert(false);
                        }
                        ConnectStep::Failed { error: ReplyError::Session(SessionError::DuplicateId) }
                    },
                }
            },
            Ok(Checkout::Open { permit, evicted }) => {
                ConnectStep::MustOpen { permit, evicted }
            },
            Err(e) => ConnectStep::Failed { error: ReplyError::Pool(e) },
        }
    }

    /// Second step of a connect request, once the caller tried to open a
    /// channel for `permit`. A failure frees the slot and nothing is left
    /// behind; a success registers the session on the new connection. If
    /// `session_id` turned out to be live already, the new connection leaves
    /// the pool again and the caller closes its channel.
    pub fn opened(
        &mut self,
        permit: OpenPermit,
        outcome: Result<(), ConnectError>,
        session_id: u128,
        now: u64,
    ) -> (r: ConnectStep)
        requires
            old(self).wf(),
        ensures
            final(self).wf(),
            final(self).pool().cfg() == old(self).pool().cfg(),
            r is MustOpen ==> false,
            outcome matches Err(e) ==> r == (ConnectStep::Failed { error: ReplyError::Connect(e) })
                && final(self).sessions() == old(self).sessions() && final(self).pool().idle_seq() == old(
                self,
            ).pool().idle_seq() && final(self).pool().out_ids() == old(self).pool().out_ids()
                && final(self).pool().counters() == old(self).pool().counters()
                && final(self).pool().next_fresh_id() == old(self).pool().next_fresh_id()
                && final(self).pool().live_count()
                == if old(self).pool().pending_count() > 0 {
                old(self).pool().live_count() - 1
            } else {
                old(self).pool().live_count() as int
            },
            outcome is Ok && old(self).pool().pending_count() > 0 && old(self).pool().next_fresh_id() < u64::MAX
                && !old(self).sessions().contains_key(session_id) ==> (r matches ConnectStep::Attached {
                session_id: s,
                connection: c,
            } && s == session_id && c == old(self).pool().next_fresh_id() && final(self).sessions().contains_key(
                session_id,
            ) && final(self).sessions()[session_id].connection.id == c
                && final(self).sessions()[session_id].connection.use_count == 0
                && final(self).sessions().remove(session_id) == old(self).sessions()
                && final(self).pool().idle_seq() == old(self).pool().idle_seq()
                && final(self).pool().counters().total_created == sat_inc(old(self).pool().counters().total_created)
                && final(self).pool().live_count() == old(self).pool().live_count()),
            outcome is Ok && (old(self).pool().pending_count() == 0 || old(self).pool().next_fresh_id()
                == u64::MAX) ==> r == (ConnectStep::Failed {
                error: ReplyError::Pool(PoolError::NoConnectionAvailable),
            }),
            outcome is Ok && old(self).sessions().contains_key(session_id) && old(self).pool().pending_count()
                > 0 && old(self).pool().next_fresh_id() < u64::MAX ==> r == (ConnectStep::Failed {
                error: ReplyError::Session(SessionError::DuplicateId),
            }) && final(self).sessions() == old(self).sessions() && final(self).pool().live_count()
                == old(self).pool().live_count() - 1,
    {
        match outcome {
            Err(e) => {
                self.pool.abandon_open(permit);
                ConnectStep::Failed { error: ReplyError::Connect(e) }
            },
            Ok(()) => {
                let ghost old_hub = *self;
                match self.pool.complete_open(permit, now) {
                    Err(e) => ConnectStep::Failed { error: ReplyError::Pool(e) },
                    Ok(c) => {
                        let id = c.id;
                        if self.registry.contains(session_id) {
                            // the caller closes the channel it opened
                            let ghost mid = self.pool;
                            let _ = self.pool.discard(c);
                            proof {
                                assert(mid.out_ids()[mid.out_ids().len() - 1] == id);
                                let k = choose|k: int|
                                    0 <= k < mid.out_ids().len() && mid.out_ids()[k] == id
                                        && self.pool.out_ids() == mid.out_ids().remove(k);
                                if k < mid.out_ids().len() - 1 {
                                    assert(mid.out_ids()[k] == old_hub.pool().out_ids()[k]);
                                }
                                assert(self.pool.out_ids() =~= old_hub.pool().out_ids());
                            }
                            return ConnectStep::Failed {
                                error: ReplyError::Session(SessionError::DuplicateId),
                            };
                        }
                        proof {
                            assert(!old_hub.pool().out_ids().contains(id));
                        }
                        match self.registry.create(session_id, c, now) {
                            Ok(()) => {
                                proof {
                                    SessionHub::lemma_register(
                                        old_hub,
                                        *self,
                                        session_id,
                                        self.sessions()[session_id].connection,
                                    );
                                }
                                ConnectStep::Attached { session_id, connection: id }
                            },
                            Err(c) => {
                                proof {
                                    // cannot happen: the id was found free above
                                    assert(false);
                                }
                                ConnectStep::Failed {
                                    error: ReplyError::Session(SessionError::DuplicateId),
                                }
                            },
                        }
                    },
                }
            },
        }
    }


    /// Routes an inbound write to the session's connection and records the
    /// activity; an unknown session is answered with `NotFound`.
    pub fn data(&mut self, session_id: u128, data: Vec<u8>, now: u64) -> (r: DataStep)
        requires
            old(self).wf(),
        ensures
            final(self).wf(),
            final(self).pool() == old(self).pool(),
            data_outcome(*old(self), *final(self), session_id, data, now, r),
    {
        match self.registry.get(session_id) {
            Some(connection) => {
                let ghost before = self.sessions();
                self.registry.touch(session_id, now);
                proof {
                    assert forall|s: u128| #[trigger] self.sessions().contains_key(s) implies self.sessions()[s].connection.id
                        == before[s].connection.id && before.contains_key(s) by {}
                }
                DataStep::Write { connection, data }
            },
            None => DataStep::Reject { error: ReplyError::Session(SessionError::NotFound) },
        }
    }

    /// Records shell output received for a session at `now`; false if the
    /// session is no longer live (its reader should stop).
    pub fn output_received(&mut self, session_id: u128, now: u64) -> (r: bool)
        requires
            old(self).wf(),
        ensures
            final(self).wf(),
            final(self).pool() == old(self).pool(),
            r == old(self).sessions().contains_key(session_id),
            r ==> final(self).sessions() == old(self).sessions().insert(
                session_id,
                Session { last_activity: now, ..old(self).sessions()[session_id] },
            ),
            !r ==> final(self).sessions() == old(self).sessions(),
    {
        let ghost before = self.sessions();
        let r = self.registry.touch(session_id, now);
        proof {
            assert forall|s: u128| #[trigger] self.sessions().contains_key(s) implies self.sessions()[s].connection.id
                == before[s].connection.id && before.contains_key(s) by {}
        }
        r
    }

    /// Routes a batch of inbound writes as one write of their bytes in order.
    pub fn batch_data(&mut self, session_id: u128, chunks: Vec<Vec<u8>>, now: u64) -> (r: DataStep)
        requires
            old(self).wf(),
            crate::stream::chunk_views(chunks@).flatten().len() <= usize::MAX,
        ensures
            final(self).wf(),
            final(self).pool() == old(self).pool(),
            old(self).sessions().contains_key(session_id) ==> (r matches DataStep::Write { connection, data }
                && connection == old(self).sessions()[session_id].connection.id && data@
                == crate::stream::chunk_views(chunks@).flatten()) && final(self).sessions() == old(
                self,
            ).sessions().insert(session_id, Session { last_activity: now, ..old(self).sessions()[session_id] }),
            !old(self).sessions().contains_key(session_id) ==> r == (DataStep::Reject {
                error: ReplyError::Session(SessionError::NotFound),
            }) && *final(self) == *old(self),
    {
        let joined = crate::stream::concat_chunks(chunks);
        self.data(session_id, joined, now)
    }

    /// Ends a session: removes it from the registry, returns its connection
    /// to the pool when the caller found the channel alive (and it is not
    /// too old), and discards it otherwise.
    pub fn disconnect(&mut self, session_id: u128, alive: bool, now: u64) -> (r: EndOutcome)
        requires
            old(self).wf(),
        ensures
            final(self).wf(),
            disconnect_outcome(*old(self), *final(self), session_id, alive, now, r),
    {
        let ghost old_hub = *self;
        match self.registry.remove(session_id) {
            None => {
                proof {
                    assert(self.sessions() =~= old_hub.sessions());
                }
                EndOutcome::NotFound
            },
            Some(session) => {
                let id = session.connection.id;
                proof {
                    assert(old_hub.sessions().contains_key(session_id));
                    assert(old_hub.pool().out_ids().contains(id));
                }
                let outcome = self.pool.return_connection(session.connection, alive, now);
                proof {
                    let k = choose|k: int|
                        0 <= k < old_hub.pool().out_ids().len() && old_hub.pool().out_ids()[k] == id
                            && self.pool.out_ids() == old_hub.pool().out_ids().remove(k);
                    assert forall|s: u128| #[trigger] self.sessions().contains_key(s) implies self.pool().out_ids().contains(
                        self.sessions()[s].connection.id,
                    ) by {
                        let cid = self.sessions()[s].connection.id;
                        assert(old_hub.sessions().contains_key(s));
                        let j = old_hub.pool().out_ids().index_of(cid);
                        assert(cid != id);
                        if j < k {
                            assert(self.pool().out_ids()[j] == cid);
                        } else {
                            assert(self.pool().out_ids()[j - 1] == cid);
                        }
                    }
                }
                match outcome {
                    ReturnOutcome::Pooled => EndOutcome::Returned { connection: id },
                    ReturnOutcome::Discarded(_) => EndOutcome::Discarded { connection: id },
                    ReturnOutcome::Unknown(_) => {
                        proof {
                            // cannot happen: a live session's connection is checked out
                            assert(false);
                        }
                        EndOutcome::NotFound
                    },
                }
            },
        }
    }

    /// Evicts the idle connections that are too old or idle too long at
    /// `now`; returns the ids of their channels, to be closed.
    pub fn cleanup_expired(&mut self, now: u64) -> (r: Vec<u64>)
        requires
            old(self).wf(),
        ensures
            final(self).wf(),
            final(self).sessions() == old(self).sessions(),
            final(self).pool().idle_seq() == old(self).pool().idle_seq().filter(
                crate::pool::fresh_pred(old(self).pool().cfg(), now),
            ),
            r@ == old(self).pool().idle_seq().filter(crate::pool::stale_pred(old(self).pool().cfg(), now)).map_values(
                |c: PooledConnection| c.id,
            ),
    {
        let evicted = self.pool.cleanup_expired(now);
        let mut ids: Vec<u64> = Vec::new();
        let mut i: usize = 0;
        while i < evicted.len()
            invariant
                i <= evicted@.len(),
                ids@ == evicted@.subrange(0, i as int).map_values(|c: PooledConnection| c.id),
            decreases evicted@.len() - i,
        {
            ids.push(evicted[i].id);
            i = i + 1;
            proof {
                assert(evicted@.subrange(0, i as int).map_values(|c: PooledConnection| c.id) =~= evicted@.subrange(
                    0,
                    i - 1,
                ).map_values(|c: PooledConnection| c.id).push(evicted@[i - 1].id));
            }
        }
        proof {
            assert(evicted@.subrange(0, i as int) =~= evicted@);
        }
        ids
    }


    /// Ends every session of a client link that closed. Each entry is a
    /// session id and whether its channel was found alive. Every connection
    /// of a session that was live is returned to the pool or leaves it.
    pub fn disconnect_all(&mut self, ended: &Vec<(u128, bool)>, now: u64) -> (r: Vec<EndOutcome>)
        requires
            old(self).wf(),
        ensures
            final(self).wf(),
            final(self).pool().cfg() == old(self).pool().cfg(),
            r@.len() == ended@.len(),
            forall|s: u128|
                #[trigger] final(self).sessions().contains_key(s) <==> old(self).sessions().contains_key(s)
                    && !listed_before(ended@, ended@.len() as int, s),
            forall|s: u128|
                #[trigger] final(self).sessions().contains_key(s) ==> final(self).sessions()[s] == old(
                    self,
                ).sessions()[s],
            forall|i: int|
                0 <= i < ended@.len() ==> end_entry(old(self).sessions(), ended@, i, #[trigger] r@[i]),
            final(self).pool().idle_seq().len() == old(self).pool().idle_seq().len() + count_returned(r@),
            final(self).pool().live_count() + count_discarded(r@) == old(self).pool().live_count(),
    {
        let mut outcomes: Vec<EndOutcome> = Vec::new();
        let mut i: usize = 0;
        while i < ended.len()
            invariant
                self.wf(),
                i <= ended@.len(),
                outcomes@.len() == i,
                self.pool().cfg() == old(self).pool().cfg(),
                forall|s: u128|
                    #[trigger] self.sessions().contains_key(s) <==> old(self).sessions().contains_key(s)
                        && !listed_before(ended@, i as int, s),
                forall|s: u128|
                    #[trigger] self.sessions().contains_key(s) ==> self.sessions()[s] == old(self).sessions()[s],
                forall|k: int| 0 <= k < i ==> end_entry(old(self).sessions(), ended@, k, #[trigger] outcomes@[k]),
                self.pool().idle_seq().len() == old(self).pool().idle_seq().len() + count_returned(outcomes@),
                self.pool().live_count() + count_discarded(outcomes@) == old(self).pool().live_count(),
            decreases ended@.len() - i,
        {
            let (sid, alive) = ended[i];
            let ghost before = *self;
            let ghost prev = outcomes@;
            let o = self.disconnect(sid, alive, now);
            proof {
                assert forall|s: u128|
                    #[trigger] self.sessions().contains_key(s) <==> old(self).sessions().contains_key(s)
                        && !listed_before(ended@, i + 1, s) by {
                    if listed_before(ended@, i + 1, s) && !listed_before(ended@, i as int, s) {
                        let j = choose|j: int| 0 <= j < i + 1 && (#[trigger] ended@[j]).0 == s;
                        assert(j == i);
                    }
                    if listed_before(ended@, i as int, s) {
                        let j = choose|j: int| 0 <= j < i && (#[trigger] ended@[j]).0 == s;
                        assert(0 <= j < i + 1 && ended@[j].0 == s);
                    }
                    if s == sid {
                        assert(0 <= i < i + 1 && ended@[i as int].0 == s);
                    }
                }
                assert(before.sessions().contains_key(sid) <==> old(self).sessions().contains_key(sid)
                    && !listed_before(ended@, i as int, sid));
                assert(end_entry(old(self).sessions(), ended@, i as int, o));
            }
            outcomes.push(o);
            proof {
                assert(outcomes@.drop_last() == prev);
                assert forall|k: int| 0 <= k < i + 1 implies end_entry(
                    old(self).sessions(),
                    ended@,
                    k,
                    #[trigger] outcomes@[k],
                ) by {
                    if k < i {
                        assert(outcomes@[k] == prev[k]);
                    }
                }
            }
            i = i + 1;
        }
        outcomes
    }

    /// Claims a slot for a warm-up connection, only while slots are free:
    /// warming up never evicts.
    pub fn warm_reserve(&mut self, key: &EndpointKey) -> (r: Option<OpenPermit>)
        requires
            old(self).wf(),
        ensures
            final(self).wf(),
            final(self).sessions() == old(self).sessions(),
            r is Some <==> old(self).pool().live_count() < old(self).pool().cfg().max_size,
            r is Some ==> r.unwrap().key == *key && final(self).pool().pending_count() == old(
                self,
            ).pool().pending_count() + 1 && final(self).pool().idle_seq() == old(self).pool().idle_seq(),
            r is None ==> *final(self) == *old(self),
    {
        if self.pool.live_connections() < self.pool.config().max_size {
            match self.pool.reserve(key) {
                Ok((permit, _)) => Some(permit),
                Err(_) => None,
            }
        } else {
            None
        }
    }

    /// Puts a warm-up connection into the idle set once its channel opened;
    /// a failed open frees the slot. Returns the new connection's id.
    pub fn warm_opened(&mut self, permit: OpenPermit, outcome: Result<(), ConnectError>, now: u64) -> (r: Option<u64>)
        requires
            old(self).wf(),
        ensures
            final(self).wf(),
            final(self).sessions() == old(self).sessions(),
            final(self).pool().cfg() == old(self).pool().cfg(),
            r is Some <==> outcome is Ok && old(self).pool().pending_count() > 0
                && old(self).pool().next_fresh_id() < u64::MAX,
            r is Some ==> r.unwrap() == old(self).pool().next_fresh_id() && final(self).pool().idle_seq().len()
                == old(self).pool().idle_seq().len() + 1 && final(self).pool().idle_seq().last().id
                == r.unwrap() && final(self).pool().live_count() == old(self).pool().live_count(),
    {
        match outcome {
            Err(_) => {
                self.pool.abandon_open(permit);
                None
            },
            Ok(()) => {
                let ghost old_hub = *self;
                match self.pool.complete_open(permit, now) {
                    Err(_) => None,
                    Ok(c) => {
                        let id = c.id;
                        let ghost mid = self.pool;
                        let _ = self.pool.return_connection(c, true, now);
                        proof {
                            assert(mid.out_ids()[mid.out_ids().len() - 1] == id);
                            let k = choose|k: int|
                                0 <= k < mid.out_ids().len() && mid.out_ids()[k] == id
                                    && self.pool.out_ids() == mid.out_ids().remove(k);
                            if k < mid.out_ids().len() - 1 {
                                assert(mid.out_ids()[k] == old_hub.pool().out_ids()[k]);
                            }
                            assert(self.pool.out_ids() =~= old_hub.pool().out_ids());
                        }
                        Some(id)
                    },
                }
            },
        }
    }

}

/// An inbound message, decoded. For `Disconnect` the caller has looked at
/// the session's channel and says whether it is still alive.
pub enum Inbound {
    Connect { key: EndpointKey },
    Data { session_id: u128, data: Vec<u8> },
    BatchData { session_id: u128, chunks: Vec<Vec<u8>> },
    Disconnect { session_id: u128, alive: bool },
    Ping,
}

/// The outcome of handling one inbound message.
pub enum Step {
    Connect(ConnectStep),
    Data(DataStep),
    Ended { session_id: u128, outcome: EndOutcome },
    Pong,
}

/// The reply a step owes the client, if it owes one now. A connect that
/// still has to open a channel replies after `opened`; a write is answered
/// by the shell's output.
pub fn reply_of(step: &Step) -> (r: Option<Reply>)
    ensures
        step matches Step::Connect(ConnectStep::Attached { session_id, .. }) ==> r matches Some(
            Reply::Connected { session_id: s },
        ) && s == session_id,
        step matches Step::Connect(ConnectStep::Failed { error }) ==> r matches Some(Reply::Error { error: e })
            && e == error,
        step matches Step::Connect(ConnectStep::MustOpen { .. }) ==> r is None,
        step matches Step::Data(DataStep::Write { .. }) ==> r is None,
        step matches Step::Data(DataStep::Reject { error }) ==> r matches Some(Reply::Error { error: e })
            && e == error,
        step matches Step::Ended { session_id, .. } ==> r matches Some(Reply::Disconnected { session_id: s })
            && s == session_id,
        step is Pong ==> r matches Some(Reply::Pong),
{
    match step {
        Step::Connect(ConnectStep::Attached { session_id, .. }) => Some(Reply::Connected { session_id: *session_id }),
        Step::Connect(ConnectStep::Failed { error }) => Some(Reply::Error { error: *error }),
        Step::Connect(ConnectStep::MustOpen { .. }) => None,
        Step::Data(DataStep::Write { .. }) => None,
        Step::Data(DataStep::Reject { error }) => Some(Reply::Error { error: *error }),
        Step::Ended { session_id, .. } => Some(Reply::Disconnected { session_id: *session_id }),
        Step::Pong => Some(Reply::Pong),
    }
}

/// Handles one inbound message against the hub. `fresh_id` is the id a
/// new session would get; it is used only by `Connect`.
pub fn handle_message(hub: &mut SessionHub, msg: Inbound, fresh_id: u128, now: u64) -> (r: Step)
    requires
        old(hub).wf(),
        msg matches Inbound::BatchData { chunks, .. } ==> crate::stream::chunk_views(chunks@).flatten().len()
            <= usize::MAX,
    ensures
        final(hub).wf(),
        msg is Connect <==> r is Connect,
        msg is Data || msg is BatchData <==> r is Data,
        msg is Disconnect <==> r is Ended,
        msg is Ping <==> r is Pong,
        msg is Ping ==> *final(hub) == *old(hub),
        msg matches Inbound::Connect { key } ==> (r matches Step::Connect(step) && connect_outcome(
            *old(hub),
            *final(hub),
            key,
            fresh_id,
            now,
            step,
        )),
        msg matches Inbound::Data { session_id, data } ==> (r matches Step::Data(step) && data_outcome(
            *old(hub),
            *final(hub),
            session_id,
            data,
            now,
            step,
        )),
        msg matches Inbound::BatchData { session_id, chunks } ==> (old(hub).sessions().contains_key(session_id)
            <==> (r matches Step::Data(DataStep::Write { connection, data: d }) && d@
            == crate::stream::chunk_views(chunks@).flatten() && connection
            == old(hub).sessions()[session_id].connection.id)),
        msg matches Inbound::BatchData { session_id, .. } ==> (!old(hub).sessions().contains_key(session_id)
            ==> r == Step::Data(DataStep::Reject { error: ReplyError::Session(SessionError::NotFound) })
            && *final(hub) == *old(hub)),
        msg matches Inbound::Disconnect { session_id, alive } ==> (r matches Step::Ended {
            session_id: s,
            outcome,
        } && s == session_id && disconnect_outcome(*old(hub), *final(hub), session_id, alive, now, outcome)),
{
    match msg {
        Inbound::Connect { key } => Step::Connect(hub.connect(&key, fresh_id, now)),
        Inbound::Data { session_id, data } => Step::Data(hub.data(session_id, data, now)),
        Inbound::BatchData { session_id, chunks } => Step::Data(hub.batch_data(session_id, chunks, now)),
        Inbound::Disconnect { session_id, alive } => {
            let outcome = hub.disconnect(session_id, alive, now);
            Step::Ended { session_id, outcome }
        },
        Inbound::Ping => Step::Pong,
    }
}

} // verus!
