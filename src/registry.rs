use vstd::prelude::*;
use dashmap::DashMap;
use crate::pool::PooledConnection;

verus! {

#[verifier::external_type_specification]
#[verifier::external_body]
#[verifier::reject_recursive_types(K)]
#[verifier::reject_recursive_types(V)]
#[verifier::reject_recursive_types(S)]
pub struct ExDashMap<K, V, S>(DashMap<K, V, S>);

/// Life of a client-visible session. Only `Active` sessions are registered:
/// `Connecting` lasts while the channel is set up, `Closing` from removal
/// until the connection is returned or discarded.
#[derive(Debug, Clone, Copy, PartialEq, Eq, Structural)]
pub enum SessionState {
    Connecting,
    Active,
    Closing,
    Closed,
}

/// The moves of the session state machine: forward one step, or straight
/// to `Closed` when setting up or tearing down fails.
pub open spec fn spec_may_advance(from: SessionState, to: SessionState) -> bool {
    match (from, to) {
        (SessionState::Connecting, SessionState::Active) => true,
        (SessionState::Connecting, SessionState::Closed) => true,
        (SessionState::Active, SessionState::Closing) => true,
        (SessionState::Active, SessionState::Closed) => true,
        (SessionState::Closing, SessionState::Closed) => true,
        _ => false,
    }
}

impl SessionState {
    pub fn may_advance(&self, to: SessionState) -> (r: bool)
        ensures
            r == spec_may_advance(*self, to),
    {
        match (*self, to) {
            (SessionState::Connecting, SessionState::Active) => true,
            (SessionState::Connecting, SessionState::Closed) => true,
            (SessionState::Active, SessionState::Closing) => true,
            (SessionState::Active, SessionState::Closed) => true,
            (SessionState::Closing, SessionState::Closed) => true,
            _ => false,
        }
    }
}

/// A live session and the connection it owns.
pub struct Session {
    pub id: u128,
    pub connection: PooledConnection,
    pub created_at: u64,
    pub last_activity: u64,
    pub state: SessionState,
}

/// What the concurrent map of sessions holds, by session id.
pub uninterp spec fn session_table(m: DashMap<u128, Session>) -> Map<u128, Session>;

/// Relies on `DashMap::new`: a map with no entries.
#[verifier::external_body]
fn table_new() -> (r: DashMap<u128, Session>)
    ensures
        session_table(r).dom() == Set::<u128>::empty(),
{
    DashMap::new()
}

/// Relies on `DashMap::insert`: the entry is set and the one it replaced is returned.
#[verifier::external_body]
fn table_insert(m: &mut DashMap<u128, Session>, k: u128, v: Session) -> (r: Option<Session>)
    ensures
        session_table(*final(m)) == session_table(*old(m)).insert(k, v),
        r == if session_table(*old(m)).contains_key(k) {
            Some(session_table(*old(m))[k])
        } else {
            None
        },
{
    m.insert(k, v)
}

/// Relies on `DashMap::remove`: the entry is taken out and its value returned.
#[verifier::external_body]
fn table_remove(m: &mut DashMap<u128, Session>, k: u128) -> (r: Option<Session>)
    ensures
        session_table(*final(m)) == session_table(*old(m)).remove(k),
        r == if session_table(*old(m)).contains_key(k) {
            Some(session_table(*old(m))[k])
        } else {
            None
        },
{
    m.remove(&k).map(|(_, v)| v)
}

/// Relies on `DashMap::contains_key`.
#[verifier::external_body]
fn table_contains(m: &DashMap<u128, Session>, k: u128) -> (r: bool)
    ensures
        r == session_table(*m).contains_key(k),
{
    m.contains_key(&k)
}

/// Relies on `DashMap::get`, reading the id of the session's connection.
#[verifier::external_body]
fn table_connection_of(m: &DashMap<u128, Session>, k: u128) -> (r: Option<u64>)
    ensures
        r == if session_table(*m).contains_key(k) {
            Some(session_table(*m)[k].connection.id)
        } else {
            None
        },
{
    m.get(&k).map(|e| e.connection.id)
}

/// Relies on `DashMap::len`: the number of entries.
#[verifier::external_body]
fn table_len(m: &DashMap<u128, Session>) -> (r: usize)
    ensures
        r == session_table(*m).len(),
{
    m.len()
}

/// Live sessions by id. The map is sharded, so tasks serving different
/// clients can share it behind a reference.
pub struct SessionRegistry {
    table: DashMap<u128, Session>,
}

impl SessionRegistry {
    pub closed spec fn sessions(&self) -> Map<u128, Session> {
        session_table(self.table)
    }

    pub open spec fn wf(&self) -> bool {
        &&& self.sessions().dom().finite()
        &&& forall|k: u128| #[trigger] self.sessions().contains_key(k) ==> self.sessions()[k].id == k
    }

    pub fn new() -> (r: SessionRegistry)
        ensures
            r.wf(),
            r.sessions() == Map::<u128, Session>::empty(),
    {
        SessionRegistry { table: table_new() }
    }

    /// Registers an active session on `connection`. An id already in use is
    /// refused and the connection handed back untouched.
    pub fn create(&mut self, session_id: u128, connection: PooledConnection, now: u64) -> (r: Result<(), PooledConnection>)
        requires
            old(self).wf(),
        ensures
            final(self).wf(),
            r is Err <==> old(self).sessions().contains_key(session_id),
            r is Err ==> r == Err::<(), PooledConnection>(connection) && final(self).sessions() == old(self).sessions(),
            r is Ok ==> final(self).sessions() == old(self).sessions().insert(
                session_id,
                Session {
                    id: session_id,
                    connection,
                    created_at: now,
                    last_activity: now,
                    state: SessionState::Active,
                },
            ),
    {
        if table_contains(&self.table, session_id) {
            return Err(connection);
        }
        let s = Session {
            id: session_id,
            connection,
            created_at: now,
            last_activity: now,
            state: SessionState::Active,
        };
        let _ = table_insert(&mut self.table, session_id, s);
        Ok(())
    }

    /// The id of the connection that serves `session_id`, if it is live.
    pub fn get(&self, session_id: u128) -> (r: Option<u64>)
        ensures
            r == if self.sessions().contains_key(session_id) {
                Some(self.sessions()[session_id].connection.id)
            } else {
                None
            },
    {
        table_connection_of(&self.table, session_id)
    }

    pub fn contains(&self, session_id: u128) -> (r: bool)
        ensures
            r == self.sessions().contains_key(session_id),
    {
        table_contains(&self.table, session_id)
    }

    /// Takes a session out, handing its connection to the caller, who
    /// returns it to the pool or discards it. The session is `Closing`.
    pub fn remove(&mut self, session_id: u128) -> (r: Option<Session>)
        requires
            old(self).wf(),
        ensures
            final(self).wf(),
            final(self).sessions() == old(self).sessions().remove(session_id),
            r == if old(self).sessions().contains_key(session_id) {
                Some(Session { state: SessionState::Closing, ..old(self).sessions()[session_id] })
            } else {
                None
            },
    {
        match table_remove(&mut self.table, session_id) {
            Some(s) => {
                let mut s = s;
                s.state = SessionState::Closing;
                Some(s)
            },
            None => None,
        }
    }

    /// Records activity on a session; false if it is not live.
    pub fn touch(&mut self, session_id: u128, now: u64) -> (r: bool)
        requires
            old(self).wf(),
        ensures
            final(self).wf(),
            r == old(self).sessions().contains_key(session_id),
            r ==> final(self).sessions() == old(self).sessions().insert(
                session_id,
                Session { last_activity: now, ..old(self).sessions()[session_id] },
            ),
            !r ==> final(self).sessions() == old(self).sessions(),
    {
        match table_remove(&mut self.table, session_id) {
            Some(s) => {
                let mut s = s;
                s.last_activity = now;
                let _ = table_insert(&mut self.table, session_id, s);
                proof {
                    assert(self.sessions() =~= old(self).sessions().insert(
                        session_id,
                        Session { last_activity: now, ..old(self).sessions()[session_id] },
                    ));
                }
                true
            },
            None => false,
        }
    }

    pub fn len(&self) -> (r: usize)
        requires
            self.wf(),
        ensures
            r == self.sessions().len(),
    {
        table_len(&self.table)
    }
}

} // verus!
