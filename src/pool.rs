use vstd::prelude::*;
use crate::endpoint::EndpointKey;
use crate::error::PoolError;

verus! {

broadcast use vstd::seq_lib::group_seq_properties;

/// Milliseconds from `since` to `now`; a clock that went backwards counts as none.
pub open spec fn elapsed(since: u64, now: u64) -> nat {
    if now >= since {
        (now - since) as nat
    } else {
        0
    }
}

/// A counter step that stops at the largest value instead of wrapping.
pub open spec fn sat_inc(x: u64) -> u64 {
    if x < u64::MAX {
        (x + 1) as u64
    } else {
        x
    }
}

pub fn bump(x: u64) -> (r: u64)
    ensures
        r == sat_inc(x),
{
    if x < u64::MAX {
        x + 1
    } else {
        x
    }
}

fn elapsed_ms(since: u64, now: u64) -> (r: u64)
    ensures
        r == elapsed(since, now),
{
    if now >= since {
        now - since
    } else {
        0
    }
}

/// Pool limits. All durations are in milliseconds.
#[derive(Clone, Copy, Debug, PartialEq, Eq, Structural)]
pub struct PoolConfig {
    pub max_size: usize,
    pub min_idle: usize,
    pub max_idle_time: u64,
    pub max_lifetime: u64,
    pub connection_timeout: u64,
}

impl Default for PoolConfig {
    fn default() -> (r: PoolConfig)
        ensures
            r.max_size == 50,
            r.min_idle == 5,
            r.max_idle_time == 300_000,
            r.max_lifetime == 3_600_000,
            r.connection_timeout == 10_000,
    {
        PoolConfig {
            max_size: 50,
            min_idle: 5,
            max_idle_time: 300_000,
            max_lifetime: 3_600_000,
            connection_timeout: 10_000,
        }
    }
}

/// The bookkeeping record of one live remote connection. The channel itself
/// is held by the caller under `id`.
pub struct PooledConnection {
    pub id: u64,
    pub key: EndpointKey,
    pub created_at: u64,
    pub last_used: u64,
    pub use_count: u64,
}

pub open spec fn spec_expired(c: PooledConnection, max_lifetime: u64, now: u64) -> bool {
    elapsed(c.created_at, now) > max_lifetime
}

pub open spec fn spec_idle_too_long(c: PooledConnection, max_idle_time: u64, now: u64) -> bool {
    elapsed(c.last_used, now) > max_idle_time
}

/// Neither too old nor idle for too long.
pub open spec fn fresh(c: PooledConnection, cfg: PoolConfig, now: u64) -> bool {
    !spec_expired(c, cfg.max_lifetime, now) && !spec_idle_too_long(c, cfg.max_idle_time, now)
}

pub open spec fn fresh_pred(cfg: PoolConfig, now: u64) -> spec_fn(PooledConnection) -> bool {
    |c: PooledConnection| fresh(c, cfg, now)
}

pub open spec fn stale_pred(cfg: PoolConfig, now: u64) -> spec_fn(PooledConnection) -> bool {
    |c: PooledConnection| !fresh(c, cfg, now)
}

/// An idle connection that a checkout for `key` may hand out.
pub open spec fn reusable(
    c: PooledConnection,
    key: (Seq<char>, u16, Seq<char>),
    cfg: PoolConfig,
    now: u64,
) -> bool {
    c.key@ == key && fresh(c, cfg, now)
}

/// What `mark_used` makes of a connection.
pub open spec fn used_at(c: PooledConnection, now: u64) -> PooledConnection {
    PooledConnection { last_used: now, use_count: sat_inc(c.use_count), ..c }
}

impl PooledConnection {
    pub fn new(id: u64, key: EndpointKey, now: u64) -> (r: PooledConnection)
        ensures
            r.id == id,
            r.key == key,
            r.created_at == now,
            r.last_used == now,
            r.use_count == 0,
    {
        PooledConnection { id, key, created_at: now, last_used: now, use_count: 0 }
    }

    pub fn is_expired(&self, max_age: u64, now: u64) -> (r: bool)
        ensures
            r == spec_expired(*self, max_age, now),
    {
        elapsed_ms(self.created_at, now) > max_age
    }

    pub fn is_idle_too_long(&self, max_idle: u64, now: u64) -> (r: bool)
        ensures
            r == spec_idle_too_long(*self, max_idle, now),
    {
        elapsed_ms(self.last_used, now) > max_idle
    }

    pub fn mark_used(&mut self, now: u64)
        ensures
            *final(self) == used_at(*old(self), now),
    {
        self.last_used = now;
        self.use_count = bump(self.use_count);
    }

    fn is_fresh(&self, cfg: &PoolConfig, now: u64) -> (r: bool)
        ensures
            r == fresh(*self, *cfg, now),
    {
        !self.is_expired(cfg.max_lifetime, now) && !self.is_idle_too_long(cfg.max_idle_time, now)
    }
}

/// Counters and gauges of a pool, for observation only.
#[derive(Clone, Copy, Debug, Default, PartialEq, Eq, Structural)]
pub struct PoolStats {
    pub total_created: u64,
    pub total_destroyed: u64,
    pub total_checkouts: u64,
    pub total_returns: u64,
    pub current_size: usize,
    pub current_idle: usize,
}

impl PoolStats {
    pub open spec fn spec_zero() -> PoolStats {
        PoolStats {
            total_created: 0,
            total_destroyed: 0,
            total_checkouts: 0,
            total_returns: 0,
            current_size: 0,
            current_idle: 0,
        }
    }

    pub fn new() -> (r: PoolStats)
        ensures
            r == (PoolStats {
                total_created: 0,
                total_destroyed: 0,
                total_checkouts: 0,
                total_returns: 0,
                current_size: 0,
                current_idle: 0,
            }),
    {
        PoolStats {
            total_created: 0,
            total_destroyed: 0,
            total_checkouts: 0,
            total_returns: 0,
            current_size: 0,
            current_idle: 0,
        }
    }
}


/// Saturating addition of a count to a counter.
pub open spec fn sat_add(x: u64, n: nat) -> u64 {
    if x + n <= u64::MAX {
        (x + n) as u64
    } else {
        u64::MAX
    }
}

/// No connection id occurs twice among the idle records and the checked-out ids.
pub open spec fn distinct_ids(idle: Seq<PooledConnection>, out: Seq<u64>) -> bool {
    &&& forall|i: int, j: int|
        0 <= i < idle.len() && 0 <= j < idle.len() && i != j ==> #[trigger] idle[i].id
            != #[trigger] idle[j].id
    &&& forall|i: int, j: int|
        0 <= i < out.len() && 0 <= j < out.len() && i != j ==> #[trigger] out[i] != #[trigger] out[j]
    &&& forall|i: int, j: int|
        0 <= i < idle.len() && 0 <= j < out.len() ==> #[trigger] idle[i].id != #[trigger] out[j]
}

/// `i` is the most recently returned idle connection that a checkout for `key` may take.
pub open spec fn is_mru_match(
    s: Seq<PooledConnection>,
    i: int,
    key: (Seq<char>, u16, Seq<char>),
    cfg: PoolConfig,
    now: u64,
) -> bool {
    &&& 0 <= i < s.len()
    &&& reusable(s[i], key, cfg, now)
    &&& forall|j: int| i < j < s.len() ==> !reusable(#[trigger] s[j], key, cfg, now)
}

/// No connection that may serve `key` was used later than the one at `i`.
pub open spec fn latest_used(
    s: Seq<PooledConnection>,
    i: int,
    key: (Seq<char>, u16, Seq<char>),
    cfg: PoolConfig,
    now: u64,
) -> bool {
    forall|j: int|
        0 <= j < s.len() && reusable(#[trigger] s[j], key, cfg, now) ==> s[j].last_used <= s[i].last_used
}

pub open spec fn no_match(
    s: Seq<PooledConnection>,
    key: (Seq<char>, u16, Seq<char>),
    cfg: PoolConfig,
    now: u64,
) -> bool {
    forall|j: int| 0 <= j < s.len() ==> !reusable(#[trigger] s[j], key, cfg, now)
}

/// A claim on one connection slot, handed out before a channel is opened.
pub struct OpenPermit {
    pub key: EndpointKey,
}

/// What a checkout yields when it does not fail.
pub enum Checkout {
    /// An idle connection for the endpoint, already marked as used.
    Reused(PooledConnection),
    /// A slot for a new connection; `evicted` is the least recently used
    /// idle connection that had to leave to make room, to be closed.
    Open { permit: OpenPermit, evicted: Option<PooledConnection> },
}

/// What became of a connection handed back to the pool.
pub enum ReturnOutcome {
    /// It is idle in the pool again.
    Pooled,
    /// It was dead or too old: its slot is freed and it is to be closed.
    Discarded(PooledConnection),
    /// The pool had not handed it out: nothing changed.
    Unknown(PooledConnection),
}

/// Sum of the use counts.
pub open spec fn total_uses(s: Seq<PooledConnection>) -> nat
    decreases s.len(),
{
    if s.len() == 0 {
        0
    } else {
        total_uses(s.drop_last()) + s.last().use_count as nat
    }
}

/// Largest use count, 0 for none.
pub open spec fn max_uses(s: Seq<PooledConnection>) -> u64
    decreases s.len(),
{
    if s.len() == 0 {
        0
    } else if s.last().use_count > max_uses(s.drop_last()) {
        s.last().use_count
    } else {
        max_uses(s.drop_last())
    }
}

/// Smallest use count, 0 for none.
pub open spec fn min_uses(s: Seq<PooledConnection>) -> u64
    decreases s.len(),
{
    if s.len() == 0 {
        0
    } else if s.len() == 1 || s.last().use_count < min_uses(s.drop_last()) {
        s.last().use_count
    } else {
        min_uses(s.drop_last())
    }
}

/// How much the idle connections have been used.
#[derive(Clone, Copy, Debug, PartialEq, Eq, Structural)]
pub struct UsageStats {
    pub size: usize,
    pub avg_usage: u64,
    pub max_usage: u64,
    pub min_usage: u64,
}

/// Idle connections stand in the order of their last use.
pub open spec fn ordered_by_use(s: Seq<PooledConnection>) -> bool {
    forall|a: int, b: int| 0 <= a < b < s.len() ==> #[trigger] s[a].last_used <= #[trigger] s[b].last_used
}

/// The stamp a return at `now` gets: `now`, or the latest stamp so far if
/// the caller's clock went back.
pub open spec fn stamp(now: u64, clock: u64) -> u64 {
    if now > clock {
        now
    } else {
        clock
    }
}

/// Bounded, keyed set of reusable remote connections.
///
/// Every live connection occupies one slot: idle in the pool, checked out,
/// or being opened under a permit. The slots never exceed `max_size`.
pub struct ConnectionPool {
    idle: Vec<PooledConnection>,
    out: Vec<u64>,
    pending: usize,
    next_id: u64,
    clock: u64,
    config: PoolConfig,
    counters: PoolStats,
}

impl ConnectionPool {
    /// Idle connections, least recently returned first, which is also the
    /// order of their last use.
    pub closed spec fn idle_seq(&self) -> Seq<PooledConnection> {
        self.idle@
    }

    /// Ids of the connections that are checked out.
    pub closed spec fn out_ids(&self) -> Seq<u64> {
        self.out@
    }

    /// Slots claimed by permits whose connection is not open yet.
    pub closed spec fn pending_count(&self) -> nat {
        self.pending as nat
    }

    pub closed spec fn next_fresh_id(&self) -> u64 {
        self.next_id
    }

    /// The latest return stamp handed out; it never goes back.
    pub closed spec fn clock(&self) -> u64 {
        self.clock
    }

    pub closed spec fn cfg(&self) -> PoolConfig {
        self.config
    }

    pub closed spec fn counters(&self) -> PoolStats {
        self.counters
    }

    pub open spec fn live_count(&self) -> nat {
        self.idle_seq().len() + self.out_ids().len() + self.pending_count()
    }

    pub open spec fn wf(&self) -> bool {
        &&& self.live_count() <= self.cfg().max_size
        &&& distinct_ids(self.idle_seq(), self.out_ids())
        &&& forall|i: int|
            0 <= i < self.idle_seq().len() ==> #[trigger] self.idle_seq()[i].id < self.next_fresh_id()
        &&& forall|i: int|
            0 <= i < self.out_ids().len() ==> #[trigger] self.out_ids()[i] < self.next_fresh_id()
        &&& ordered_by_use(self.idle_seq())
        &&& forall|i: int|
            0 <= i < self.idle_seq().len() ==> #[trigger] self.idle_seq()[i].last_used <= self.clock()
    }

    pub fn new(config: PoolConfig) -> (r: ConnectionPool)
        ensures
            r.wf(),
            r.cfg() == config,
            r.idle_seq().len() == 0,
            r.out_ids().len() == 0,
            r.pending_count() == 0,
            r.next_fresh_id() == 0,
            r.clock() == 0,
            r.counters() == PoolStats::spec_zero(),
    {
        ConnectionPool {
            idle: Vec::new(),
            out: Vec::new(),
            pending: 0,
            next_id: 0,
            clock: 0,
            config,
            counters: PoolStats::new(),
        }
    }

    pub fn config(&self) -> (r: PoolConfig)
        ensures
            r == self.cfg(),
    {
        self.config
    }

    /// Number of live connection slots in use.
    pub fn live_connections(&self) -> (r: usize)
        requires
            self.wf(),
        ensures
            r == self.live_count(),
    {
        self.idle.len() + self.out.len() + self.pending
    }

    pub fn idle_count(&self) -> (r: usize)
        ensures
            r == self.idle_seq().len(),
    {
        self.idle.len()
    }

    /// Counters together with the current gauges.
    pub fn get_stats(&self) -> (r: PoolStats)
        requires
            self.wf(),
        ensures
            r.total_created == self.counters().total_created,
            r.total_destroyed == self.counters().total_destroyed,
            r.total_checkouts == self.counters().total_checkouts,
            r.total_returns == self.counters().total_returns,
            r.current_size == self.live_count(),
            r.current_idle == self.idle_seq().len(),
    {
        PoolStats {
            total_created: self.counters.total_created,
            total_destroyed: self.counters.total_destroyed,
            total_checkouts: self.counters.total_checkouts,
            total_returns: self.counters.total_returns,
            current_size: self.idle.len() + self.out.len() + self.pending,
            current_idle: self.idle.len(),
        }
    }

    /// Use counts over the idle connections: their number, mean (rounded
    /// down), largest and smallest.
    pub fn usage_stats(&self) -> (r: UsageStats)
        ensures
            r.size == self.idle_seq().len(),
            r.max_usage == max_uses(self.idle_seq()),
            r.min_usage == min_uses(self.idle_seq()),
            r.avg_usage == if self.idle_seq().len() == 0 {
                0
            } else {
                total_uses(self.idle_seq()) / self.idle_seq().len()
            },
    {
        let n = self.idle.len();
        let mut total: u128 = 0;
        let mut max: u64 = 0;
        let mut min: u64 = 0;
        let mut i: usize = 0;
        while i < n
            invariant
                n == self.idle@.len(),
                i <= n,
                total == total_uses(self.idle@.subrange(0, i as int)),
                total <= i * (u64::MAX as int),
                max == max_uses(self.idle@.subrange(0, i as int)),
                min == min_uses(self.idle@.subrange(0, i as int)),
            decreases n - i,
        {
            let u = self.idle[i].use_count;
            proof {
                assert(self.idle@.subrange(0, i + 1).drop_last() =~= self.idle@.subrange(0, i as int));
                assert(self.idle@.subrange(0, i + 1).last() == self.idle@[i as int]);
                assert((i + 1) * (u64::MAX as int) == i * (u64::MAX as int) + u64::MAX) by (nonlinear_arith);
            }
            total = total + u as u128;
            if u > max {
                max = u;
            }
            if i == 0 || u < min {
                min = u;
            }
            i = i + 1;
        }
        proof {
            assert(self.idle@.subrange(0, n as int) =~= self.idle@);
        }
        let avg: u64 = if n == 0 {
            0
        } else {
            let a = total / (n as u128);
            assert(a <= u64::MAX) by (nonlinear_arith)
                requires
                    a == total / (n as u128),
                    total <= n * (u64::MAX as int),
                    n > 0,
            ;
            a as u64
        };
        UsageStats { size: n, avg_usage: avg, max_usage: max, min_usage: min }
    }

    /// How many connections a warm-up may open now: the warm floor, bounded
    /// by the free slots.
    pub fn warmup_count(&self) -> (r: usize)
        requires
            self.wf(),
        ensures
            r as int == if self.cfg().min_idle as int <= self.cfg().max_size - self.live_count() {
                self.cfg().min_idle as int
            } else {
                self.cfg().max_size - self.live_count()
            },
    {
        let free = self.config.max_size - (self.idle.len() + self.out.len() + self.pending);
        if self.config.min_idle <= free {
            self.config.min_idle
        } else {
            free
        }
    }

    /// The most recently returned idle connection that may serve `key`.
    fn find_mru(&self, key: &EndpointKey, now: u64) -> (r: Option<usize>)
        ensures
            match r {
                Some(i) => is_mru_match(self.idle@, i as int, key@, self.config, now),
                None => no_match(self.idle@, key@, self.config, now),
            },
    {
        let mut i: usize = self.idle.len();
        let mut found = false;
        while i > 0 && !found
            invariant
                i <= self.idle.len(),
                found ==> i >= 1 && reusable(self.idle@[i - 1], key@, self.config, now),
                forall|j: int| i <= j < self.idle@.len() ==> !reusable(#[trigger] self.idle@[j], key@, self.config, now),
            decreases i + if found { 0int } else { 1int },
        {
            let c = &self.idle[i - 1];
            if c.key.same_endpoint(key) && c.is_fresh(&self.config, now) {
                found = true;
            } else {
                i = i - 1;
            }
        }
        if found {
            Some(i - 1)
        } else {
            None
        }
    }

    /// Claims a slot for a new connection to `key`. When every slot is taken,
    /// the least recently returned idle connection is evicted to make room;
    /// with no idle connection to evict the pool is full.
    pub fn reserve(&mut self, key: &EndpointKey) -> (r: Result<(OpenPermit, Option<PooledConnection>), PoolError>)
        requires
            old(self).wf(),
        ensures
            final(self).clock() == old(self).clock(),
            final(self).wf(),
            final(self).cfg() == old(self).cfg(),
            final(self).out_ids() == old(self).out_ids(),
            final(self).next_fresh_id() == old(self).next_fresh_id(),
            final(self).counters().total_created == old(self).counters().total_created,
            final(self).counters().total_checkouts == old(self).counters().total_checkouts,
            final(self).counters().total_returns == old(self).counters().total_returns,
            old(self).live_count() < old(self).cfg().max_size ==> r is Ok && final(self).idle_seq()
                == old(self).idle_seq() && final(self).pending_count() == old(self).pending_count() + 1
                && final(self).counters() == old(self).counters()
                && r.unwrap().0.key == *key && r.unwrap().1 is None,
            old(self).live_count() >= old(self).cfg().max_size && old(self).idle_seq().len() > 0 ==> r is Ok
                && final(self).idle_seq() == old(self).idle_seq().remove(0) && final(self).pending_count()
                == old(self).pending_count() + 1 && final(self).counters() == (PoolStats {
                total_destroyed: sat_inc(old(self).counters().total_destroyed),
                ..old(self).counters()
            }) && r.unwrap().0.key == *key && r.unwrap().1 == Some(old(self).idle_seq()[0]),
            old(self).live_count() >= old(self).cfg().max_size && old(self).idle_seq().len() == 0 ==> r
                == Err::<(OpenPermit, Option<PooledConnection>), PoolError>(PoolError::PoolFull) && *final(self)
                == *old(self),
    {
        let live = self.idle.len() + self.out.len() + self.pending;
        if live < self.config.max_size {
            self.pending = self.pending + 1;
            Ok((OpenPermit { key: key.duplicate() }, None))
        } else if self.idle.len() > 0 {
            let victim = self.idle.remove(0);
            self.counters.total_destroyed = bump(self.counters.total_destroyed);
            self.pending = self.pending + 1;
            Ok((OpenPermit { key: key.duplicate() }, Some(victim)))
        } else {
            Err(PoolError::PoolFull)
        }
    }

    /// Hands out a connection for `key`: among the idle ones that are
    /// neither too old nor idle too long, the one used last (the most
    /// recently returned), else a slot to open a new one (see `reserve`).
    /// A full pool is reported, never waited on.
    pub fn get_connection(&mut self, key: &EndpointKey, now: u64) -> (r: Result<Checkout, PoolError>)
        requires
            old(self).wf(),
        ensures
            final(self).clock() == old(self).clock(),
            final(self).wf(),
            final(self).cfg() == old(self).cfg(),
            final(self).next_fresh_id() == old(self).next_fresh_id(),
            match r {
                Ok(Checkout::Reused(c)) => (exists|i: int|
                    {
                        &&& #[trigger] is_mru_match(old(self).idle_seq(), i, key@, old(self).cfg(), now)
                        &&& latest_used(old(self).idle_seq(), i, key@, old(self).cfg(), now)
                        &&& c == used_at(old(self).idle_seq()[i], now)
                        &&& final(self).idle_seq() == old(self).idle_seq().remove(i)
                    }) && !spec_expired(c, old(self).cfg().max_lifetime, now) && final(self).out_ids()
                    == old(self).out_ids().push(c.id) && final(self).pending_count()
                    == old(self).pending_count() && final(self).counters() == (PoolStats {
                    total_checkouts: sat_inc(old(self).counters().total_checkouts),
                    ..old(self).counters()
                }),
                Ok(Checkout::Open { permit, evicted }) => no_match(
                    old(self).idle_seq(),
                    key@,
                    old(self).cfg(),
                    now,
                ) && permit.key == *key && final(self).out_ids() == old(self).out_ids()
                    && final(self).pending_count() == old(self).pending_count() + 1 && (old(
                    self,
                ).live_count() < old(self).cfg().max_size ==> evicted is None && final(self).idle_seq()
                    == old(self).idle_seq() && final(self).counters() == old(self).counters()) && (old(
                    self,
                ).live_count() >= old(self).cfg().max_size ==> old(self).idle_seq().len() > 0 && evicted
                    == Some(old(self).idle_seq()[0]) && final(self).idle_seq() == old(
                    self,
                ).idle_seq().remove(0) && final(self).counters() == (PoolStats {
                    total_destroyed: sat_inc(old(self).counters().total_destroyed),
                    ..old(self).counters()
                })),
                Err(e) => e == PoolError::PoolFull && no_match(
                    old(self).idle_seq(),
                    key@,
                    old(self).cfg(),
                    now,
                ) && old(self).live_count() >= old(self).cfg().max_size && old(self).idle_seq().len()
                    == 0 && *final(self) == *old(self),
            },
    {
        match self.find_mru(key, now) {
            Some(i) => {
                let ghost before = self.idle@;
                proof {
                    assert forall|j: int|
                        0 <= j < self.idle@.len() && reusable(#[trigger] self.idle@[j], key@, self.config, now)
                            implies self.idle@[j].last_used <= self.idle@[i as int].last_used by {
                        if j < i {
                            assert(self.idle@[j].last_used <= self.idle@[i as int].last_used);
                        }
                    }
                }
                let mut c = self.idle.remove(i);
                c.mark_used(now);
                self.out.push(c.id);
                self.counters.total_checkouts = bump(self.counters.total_checkouts);
                proof {
                    assert(latest_used(before, i as int, key@, self.config, now));
                    assert(is_mru_match(before, i as int, key@, self.config, now));
                }
                Ok(Checkout::Reused(c))
            },
            None => {
                match self.reserve(key) {
                    Ok((permit, evicted)) => Ok(Checkout::Open { permit, evicted }),
                    Err(e) => Err(e),
                }
            },
        }
    }

    /// Turns a permit into a connection once its channel is open. Fails only
    /// when no permit is outstanding or the id space is spent.
    pub fn complete_open(&mut self, permit: OpenPermit, now: u64) -> (r: Result<PooledConnection, PoolError>)
        requires
            old(self).wf(),
        ensures
            final(self).clock() == old(self).clock(),
            final(self).wf(),
            final(self).cfg() == old(self).cfg(),
            final(self).idle_seq() == old(self).idle_seq(),
            r is Ok <==> old(self).pending_count() > 0 && old(self).next_fresh_id() < u64::MAX,
            r is Err ==> r == Err::<PooledConnection, PoolError>(PoolError::NoConnectionAvailable)
                && *final(self) == *old(self),
            r matches Ok(c) ==> {
                &&& c.id == old(self).next_fresh_id()
                &&& final(self).next_fresh_id() == old(self).next_fresh_id() + 1
                &&& c.key == permit.key
                &&& c.created_at == now && c.last_used == now && c.use_count == 0
                &&& final(self).out_ids() == old(self).out_ids().push(c.id)
                &&& final(self).pending_count() == old(self).pending_count() - 1
                &&& final(self).counters() == (PoolStats {
                    total_created: sat_inc(old(self).counters().total_created),
                    total_checkouts: sat_inc(old(self).counters().total_checkouts),
                    ..old(self).counters()
                })
            },
    {
        if self.pending == 0 || self.next_id == u64::MAX {
            return Err(PoolError::NoConnectionAvailable);
        }
        let id = self.next_id;
        self.next_id = self.next_id + 1;
        self.pending = self.pending - 1;
        self.out.push(id);
        self.counters.total_created = bump(self.counters.total_created);
        self.counters.total_checkouts = bump(self.counters.total_checkouts);
        Ok(PooledConnection::new(id, permit.key, now))
    }

    /// Gives back the slot of a permit whose channel could not be opened.
    pub fn abandon_open(&mut self, permit: OpenPermit)
        requires
            old(self).wf(),
        ensures
            final(self).clock() == old(self).clock(),
            final(self).wf(),
            final(self).pending_count() == if old(self).pending_count() > 0 {
                old(self).pending_count() - 1
            } else {
                0
            },
            final(self).idle_seq() == old(self).idle_seq(),
            final(self).out_ids() == old(self).out_ids(),
            final(self).cfg() == old(self).cfg(),
            final(self).counters() == old(self).counters(),
            final(self).next_fresh_id() == old(self).next_fresh_id(),
    {
        if self.pending > 0 {
            self.pending = self.pending - 1;
        }
    }

    fn position_out(&self, id: u64) -> (r: Option<usize>)
        ensures
            match r {
                Some(k) => k < self.out@.len() && self.out@[k as int] == id,
                None => !self.out@.contains(id),
            },
    {
        let mut k: usize = 0;
        while k < self.out.len()
            invariant
                k <= self.out@.len(),
                forall|j: int| 0 <= j < k ==> self.out@[j] != id,
            decreases self.out@.len() - k,
        {
            if self.out[k] == id {
                return Some(k);
            }
            k = k + 1;
        }
        None
    }

    /// Takes back a checked-out connection. A live one that is not too old
    /// becomes idle again, stamped as used at `now` (or at the latest stamp
    /// handed out, should `now` lie before it, so that the idle set stays in
    /// order of use); otherwise it is discarded and its slot freed.
    pub fn return_connection(&mut self, conn: PooledConnection, alive: bool, now: u64) -> (r: ReturnOutcome)
        requires
            old(self).wf(),
        ensures
            final(self).wf(),
            final(self).cfg() == old(self).cfg(),
            final(self).pending_count() == old(self).pending_count(),
            final(self).next_fresh_id() == old(self).next_fresh_id(),
            !old(self).out_ids().contains(conn.id) <==> r is Unknown,
            r is Unknown ==> *final(self) == *old(self) && r == ReturnOutcome::Unknown(conn),
            !(r is Unknown) ==> exists|k: int|
                0 <= k < old(self).out_ids().len() && old(self).out_ids()[k] == conn.id
                    && final(self).out_ids() == old(self).out_ids().remove(k),
            r is Pooled <==> old(self).out_ids().contains(conn.id) && alive && !spec_expired(
                conn,
                old(self).cfg().max_lifetime,
                now,
            ),
            r is Pooled ==> final(self).idle_seq() == old(self).idle_seq().push(
                PooledConnection { last_used: stamp(now, old(self).clock()), ..conn },
            ) && final(self).clock() == stamp(now, old(self).clock()) && final(self).counters() == (PoolStats {
                total_returns: sat_inc(old(self).counters().total_returns),
                ..old(self).counters()
            }),
            r is Discarded ==> r == ReturnOutcome::Discarded(conn) && final(self).idle_seq() == old(
                self,
            ).idle_seq() && final(self).counters() == (PoolStats {
                total_destroyed: sat_inc(old(self).counters().total_destroyed),
                ..old(self).counters()
            }),
    {
        match self.position_out(conn.id) {
            None => ReturnOutcome::Unknown(conn),
            Some(k) => {
                self.out.remove(k);
                if alive && !conn.is_expired(self.config.max_lifetime, now) {
                    let at = if now > self.clock {
                        now
                    } else {
                        self.clock
                    };
                    self.clock = at;
                    let mut c = conn;
                    c.last_used = at;
                    self.idle.push(c);
                    self.counters.total_returns = bump(self.counters.total_returns);
                    ReturnOutcome::Pooled
                } else {
                    self.counters.total_destroyed = bump(self.counters.total_destroyed);
                    ReturnOutcome::Discarded(conn)
                }
            },
        }
    }

    /// Drops a checked-out connection whose channel the caller has closed,
    /// freeing its slot. Returns whether the pool had handed it out.
    pub fn discard(&mut self, conn: PooledConnection) -> (r: bool)
        requires
            old(self).wf(),
        ensures
            final(self).clock() == old(self).clock(),
            final(self).wf(),
            r == old(self).out_ids().contains(conn.id),
            !r ==> *final(self) == *old(self),
            r ==> exists|k: int|
                0 <= k < old(self).out_ids().len() && old(self).out_ids()[k] == conn.id
                    && final(self).out_ids() == old(self).out_ids().remove(k),
            r ==> final(self).counters() == (PoolStats {
                total_destroyed: sat_inc(old(self).counters().total_destroyed),
                ..old(self).counters()
            }),
            final(self).idle_seq() == old(self).idle_seq(),
            final(self).pending_count() == old(self).pending_count(),
            final(self).cfg() == old(self).cfg(),
            final(self).next_fresh_id() == old(self).next_fresh_id(),
    {
        match self.position_out(conn.id) {
            None => false,
            Some(k) => {
                self.out.remove(k);
                self.counters.total_destroyed = bump(self.counters.total_destroyed);
                true
            },
        }
    }


    /// Evicts every idle connection that is too old or idle too long at `now`
    /// and returns them, in pool order, for the caller to close.
    pub fn cleanup_expired(&mut self, now: u64) -> (r: Vec<PooledConnection>)
        requires
            old(self).wf(),
        ensures
            final(self).clock() == old(self).clock(),
            final(self).wf(),
            final(self).idle_seq() == old(self).idle_seq().filter(fresh_pred(old(self).cfg(), now)),
            r@ == old(self).idle_seq().filter(stale_pred(old(self).cfg(), now)),
            forall|i: int|
                0 <= i < final(self).idle_seq().len() ==> fresh(
                    #[trigger] final(self).idle_seq()[i],
                    old(self).cfg(),
                    now,
                ),
            final(self).out_ids() == old(self).out_ids(),
            final(self).pending_count() == old(self).pending_count(),
            final(self).cfg() == old(self).cfg(),
            final(self).next_fresh_id() == old(self).next_fresh_id(),
            final(self).counters() == (PoolStats {
                total_destroyed: sat_add(old(self).counters().total_destroyed, r@.len()),
                ..old(self).counters()
            }),
    {
        let ghost orig = self.idle@;
        let ghost keep = fresh_pred(self.config, now);
        let ghost drop = stale_pred(self.config, now);
        let mut evicted: Vec<PooledConnection> = Vec::new();
        let mut i: usize = 0;
        let ghost mut k: int = 0;
        while i < self.idle.len()
            invariant
                self.wf(),
                0 <= i <= k <= orig.len(),
                self.idle@.len() - i == orig.len() - k,
                self.config == old(self).config,
                self.out@ == old(self).out@,
                self.pending == old(self).pending,
                self.next_id == old(self).next_id,
                self.clock == old(self).clock,
                keep == fresh_pred(self.config, now),
                drop == stale_pred(self.config, now),
                self.idle@.subrange(0, i as int) == orig.subrange(0, k).filter(keep),
                self.idle@.subrange(i as int, self.idle@.len() as int) == orig.subrange(k, orig.len() as int),
                evicted@ == orig.subrange(0, k).filter(drop),
                self.counters == (PoolStats {
                    total_destroyed: sat_add(old(self).counters.total_destroyed, evicted@.len()),
                    ..old(self).counters
                }),
            decreases self.idle@.len() - i,
        {
            proof {
                assert(orig[k] == self.idle@[i as int]) by {
                    assert(self.idle@.subrange(i as int, self.idle@.len() as int)[0] == self.idle@[i as int]);
                    assert(orig.subrange(k, orig.len() as int)[0] == orig[k]);
                }
                assert(orig.subrange(0, k + 1) =~= orig.subrange(0, k).push(orig[k]));
                orig.subrange(0, k).lemma_filter_push(orig[k], keep);
                orig.subrange(0, k).lemma_filter_push(orig[k], drop);
            }
            if self.idle[i].is_fresh(&self.config, now) {
                proof {
                    assert(self.idle@.subrange(0, i + 1) =~= self.idle@.subrange(0, i as int).push(self.idle@[i as int]));
                    assert(self.idle@.subrange(i + 1, self.idle@.len() as int) =~= self.idle@.subrange(i as int, self.idle@.len() as int).drop_first());
                    assert(orig.subrange(k + 1, orig.len() as int) =~= orig.subrange(k, orig.len() as int).drop_first());
                }
                i = i + 1;
            } else {
                let ghost before = self.idle@;
                let c = self.idle.remove(i);
                evicted.push(c);
                self.counters.total_destroyed = bump(self.counters.total_destroyed);
                proof {
                    assert(self.idle@.subrange(0, i as int) =~= before.subrange(0, i as int));
                    assert(self.idle@.subrange(i as int, self.idle@.len() as int) =~= before.subrange(i as int, before.len() as int).drop_first());
                    assert(orig.subrange(k + 1, orig.len() as int) =~= orig.subrange(k, orig.len() as int).drop_first());
                }
            }
            proof {
                k = k + 1;
            }
        }
        proof {
            assert(orig.subrange(0, orig.len() as int) =~= orig);
            assert(self.idle@.subrange(0, i as int) =~= self.idle@);
            assert(self.idle@ == orig.filter(keep));
            assert forall|j: int| 0 <= j < self.idle@.len() implies fresh(#[trigger] self.idle@[j], self.config, now) by {
                orig.lemma_filter_pred(keep, j);
            }
        }
        evicted
    }

    /// Empties the idle set and returns what was in it, for the caller to close.
    pub fn clear(&mut self) -> (r: Vec<PooledConnection>)
        requires
            old(self).wf(),
        ensures
            final(self).clock() == old(self).clock(),
            final(self).wf(),
            r@ == old(self).idle_seq(),
            final(self).idle_seq().len() == 0,
            final(self).out_ids() == old(self).out_ids(),
            final(self).pending_count() == old(self).pending_count(),
            final(self).cfg() == old(self).cfg(),
            final(self).next_fresh_id() == old(self).next_fresh_id(),
            final(self).counters() == (PoolStats {
                total_destroyed: sat_add(old(self).counters().total_destroyed, r@.len()),
                ..old(self).counters()
            }),
    {
        let mut taken: Vec<PooledConnection> = Vec::new();
        core::mem::swap(&mut self.idle, &mut taken);
        let mut destroyed = self.counters.total_destroyed;
        let mut n: usize = 0;
        while n < taken.len()
            invariant
                n <= taken@.len(),
                destroyed == sat_add(old(self).counters.total_destroyed, n as nat),
            decreases taken@.len() - n,
        {
            destroyed = bump(destroyed);
            n = n + 1;
        }
        self.counters.total_destroyed = destroyed;
        taken
    }

}

} // verus!
