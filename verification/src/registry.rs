//! The station registry: the live mapping from an authenticated station
//! identity to its connection.  At most one connection is registered per
//! identity at any instant; a new handshake for a registered identity
//! displaces the old connection; a connection with no activity for
//! `ALIVE_TIMEOUT` seconds is evicted.
//!
//! The registry is modelled as a finite map from identity to its entry, and
//! every operation states exactly the map it leaves behind.
use vstd::prelude::*;

verus! {

/// Seconds of inactivity after which a station connection is closed.
pub const ALIVE_TIMEOUT: u64 = 600;

/// One registered station: the handle of its connection and the time of its
/// last liveness signal.  Connection handles are chosen by the transport
/// layer; the registry only stores them.
#[derive(Debug, Clone, Copy, PartialEq, Eq, Structural)]
pub struct StationConn {
    pub conn: u64,
    pub id: usize,
    pub last_seen: u64,
}

/// Whether an entry last seen at `last_seen` still counts as live at `now`.
pub open spec fn live_at(last_seen: u64, now: u64) -> bool {
    now < last_seen + ALIVE_TIMEOUT
}

/// The entry a fresh handshake admits.
pub open spec fn fresh_entry(id: usize, conn: u64, now: u64) -> StationConn {
    StationConn { conn, id, last_seen: now }
}

/// The same entry with its liveness refreshed.
pub open spec fn touched(e: StationConn, now: u64) -> StationConn {
    StationConn { last_seen: now, ..e }
}

/// No identity occurs twice.
pub open spec fn distinct_ids(s: Seq<StationConn>) -> bool {
    forall|i: int, j: int| 0 <= i < j < s.len() ==> s[i].id != s[j].id
}

/// The map an entry sequence denotes; a later entry for the same identity
/// would win, and under `distinct_ids` there is only one.
pub open spec fn map_of(s: Seq<StationConn>) -> Map<usize, StationConn>
    decreases s.len(),
{
    if s.len() == 0 {
        Map::empty()
    } else {
        map_of(s.drop_last()).insert(s.last().id, s.last())
    }
}

/// The registry after an eviction pass at `now`: only the live entries.
pub open spec fn evict_map(m: Map<usize, StationConn>, now: u64) -> Map<usize, StationConn> {
    Map::new(|id: usize| m.contains_key(id) && live_at(m[id].last_seen, now), |id: usize| m[id])
}

/// Whether `c` is the connection of some entry of `m` that is stale at `now`.
pub open spec fn evicted_conn(m: Map<usize, StationConn>, now: u64, c: u64) -> bool {
    exists|id: usize|
        #[trigger] m.contains_key(id) && !live_at(m[id].last_seen, now) && m[id].conn == c
}

proof fn lemma_map_of_contains(s: Seq<StationConn>, id: usize)
    ensures
        map_of(s).contains_key(id) <==> exists|i: int| 0 <= i < s.len() && s[i].id == id,
    decreases s.len(),
{
    if s.len() > 0 {
        lemma_map_of_contains(s.drop_last(), id);
        if map_of(s).contains_key(id) {
            if s.last().id == id {
                assert(s[s.len() - 1].id == id);
            } else {
                let i = choose|i: int| 0 <= i < s.drop_last().len() && s.drop_last()[i].id == id;
                assert(s[i].id == id);
            }
        }
        if exists|i: int| 0 <= i < s.len() && s[i].id == id {
            let i = choose|i: int| 0 <= i < s.len() && s[i].id == id;
            if i < s.len() - 1 {
                assert(s.drop_last()[i].id == id);
            }
        }
    }
}

proof fn lemma_map_of_get(s: Seq<StationConn>, i: int)
    requires
        distinct_ids(s),
        0 <= i < s.len(),
    ensures
        map_of(s).contains_key(s[i].id),
        map_of(s)[s[i].id] == s[i],
    decreases s.len(),
{
    if i < s.len() - 1 {
        assert(distinct_ids(s.drop_last()));
        lemma_map_of_get(s.drop_last(), i);
        assert(s.drop_last()[i] == s[i]);
        assert(s[i].id != s.last().id);
    }
}

proof fn lemma_map_of_push(s: Seq<StationConn>, e: StationConn)
    ensures
        map_of(s.push(e)) == map_of(s).insert(e.id, e),
{
    assert(s.push(e).drop_last() =~= s);
    assert(s.push(e).last() == e);
}

proof fn lemma_push_contains<A>(s: Seq<A>, e: A, x: A)
    ensures
        s.push(e).contains(x) <==> (s.contains(x) || x == e),
{
    if s.contains(x) {
        let i = choose|i: int| 0 <= i < s.len() && s[i] == x;
        assert(s.push(e)[i] == x);
    }
    if s.push(e).contains(x) {
        let i = choose|i: int| 0 <= i < s.push(e).len() && s.push(e)[i] == x;
        if i < s.len() {
            assert(s[i] == x);
        } else {
            assert(x == e);
        }
    }
    assert(s.push(e)[s.len() as int] == e);
}

proof fn lemma_map_of_remove(s: Seq<StationConn>, i: int)
    requires
        distinct_ids(s),
        0 <= i < s.len(),
    ensures
        map_of(s.remove(i)) == map_of(s).remove(s[i].id),
        distinct_ids(s.remove(i)),
    decreases s.len(),
{
    assert(distinct_ids(s.remove(i))) by {
        assert(forall|a: int, b: int|
            0 <= a < b < s.remove(i).len() ==> s.remove(i)[a].id != s.remove(i)[b].id) by {
            assert(forall|a: int|
                0 <= a < s.remove(i).len() ==> s.remove(i)[a] == (if a < i {
                    s[a]
                } else {
                    s[a + 1]
                }));
        }
    }
    if i == s.len() - 1 {
        assert(s.remove(i) =~= s.drop_last());
        lemma_map_of_contains(s.drop_last(), s[i].id);
        assert(forall|j: int|
            0 <= j < s.drop_last().len() ==> s.drop_last()[j].id != s[i].id);
        assert(!map_of(s.drop_last()).contains_key(s[i].id));
        assert(map_of(s.drop_last()) =~= map_of(s).remove(s[i].id));
    } else {
        assert(distinct_ids(s.drop_last()));
        lemma_map_of_remove(s.drop_last(), i);
        assert(s.remove(i).drop_last() =~= s.drop_last().remove(i));
        assert(s.remove(i).last() == s.last());
        assert(map_of(s.remove(i)) == map_of(s.drop_last().remove(i)).insert(
            s.last().id,
            s.last(),
        ));
        assert(s.drop_last()[i] == s[i]);
        assert(s[i].id != s.last().id);
        assert(map_of(s.drop_last()).remove(s[i].id).insert(s.last().id, s.last())
            =~= map_of(s.drop_last()).insert(s.last().id, s.last()).remove(s[i].id));
    }
}

/// The live mapping from station identity to its connection.
pub struct Registry {
    entries: Vec<StationConn>,
}

impl View for Registry {
    type V = Map<usize, StationConn>;

    closed spec fn view(&self) -> Map<usize, StationConn> {
        map_of(self.entries@)
    }
}

impl Registry {
    /// Identities are never duplicated among the stored entries.
    pub closed spec fn wf(&self) -> bool {
        distinct_ids(self.entries@)
    }

    /// An empty registry.
    pub fn new() -> (r: Self)
        ensures
            r.wf(),
            r@ == Map::<usize, StationConn>::empty(),
    {
        Registry { entries: Vec::new() }
    }

    /// How many stations are registered.
    pub fn len(&self) -> (n: usize)
        requires
            self.wf(),
        ensures
            self@.dom().finite(),
            n == self@.dom().len(),
    {
        proof {
            self.lemma_dom_len();
        }
        self.entries.len()
    }

    proof fn lemma_dom_len(&self)
        requires
            self.wf(),
        ensures
            self@.dom().finite(),
            self@.dom().len() == self.entries@.len(),
    {
        Self::lemma_map_of_dom_len(self.entries@);
    }

    proof fn lemma_map_of_dom_len(s: Seq<StationConn>)
        requires
            distinct_ids(s),
        ensures
            map_of(s).dom().finite(),
            map_of(s).dom().len() == s.len(),
        decreases s.len(),
    {
        if s.len() > 0 {
            assert(distinct_ids(s.drop_last()));
            Self::lemma_map_of_dom_len(s.drop_last());
            lemma_map_of_contains(s.drop_last(), s.last().id);
            assert(forall|j: int|
                0 <= j < s.drop_last().len() ==> s.drop_last()[j].id != s.last().id);
            assert(!map_of(s.drop_last()).contains_key(s.last().id));
        }
    }

    /// Looks an identity up for dispatch; `None` means currently unreachable.
    pub fn route(&self, id: usize) -> (r: Option<u64>)
        requires
            self.wf(),
        ensures
            match r {
                Some(c) => self@.contains_key(id) && self@[id].conn == c,
                None => !self@.contains_key(id),
            },
    {
        let n = self.entries.len();
        let mut k: usize = 0;
        while k < n
            invariant
                n == self.entries@.len(),
                k <= n,
                distinct_ids(self.entries@),
                forall|j: int| 0 <= j < k ==> self.entries@[j].id != id,
            decreases n - k,
        {
            if self.entries[k].id == id {
                proof {
                    lemma_map_of_get(self.entries@, k as int);
                }
                return Some(self.entries[k].conn);
            }
            k = k + 1;
        }
        proof {
            lemma_map_of_contains(self.entries@, id);
        }
        None
    }

    /// Admits a connection for an identity whose handshake succeeded.  If the
    /// identity was already registered, its old connection leaves the
    /// registry here and is handed back so the caller closes it before the
    /// new entry is ever observable.
    pub fn promote(&mut self, id: usize, conn: u64, now: u64) -> (displaced: Option<u64>)
        requires
            old(self).wf(),
        ensures
            final(self).wf(),
            final(self)@ == old(self)@.insert(id, fresh_entry(id, conn, now)),
            match displaced {
                Some(c) => old(self)@.contains_key(id) && old(self)@[id].conn == c,
                None => !old(self)@.contains_key(id),
            },
    {
        let displaced = self.remove(id);
        proof {
            lemma_map_of_push(self.entries@, fresh_entry(id, conn, now));
            lemma_map_of_contains(self.entries@, id);
            assert(forall|j: int| 0 <= j < self.entries@.len() ==> self.entries@[j].id != id);
            assert(distinct_ids(self.entries@.push(fresh_entry(id, conn, now))));
            assert(old(self)@.remove(id).insert(id, fresh_entry(id, conn, now)) =~= old(
                self,
            )@.insert(id, fresh_entry(id, conn, now)));
        }
        self.entries.push(StationConn { conn, id, last_seen: now });
        displaced
    }

    /// Takes an identity out of the registry, handing back its connection.
    pub fn remove(&mut self, id: usize) -> (r: Option<u64>)
        requires
            old(self).wf(),
        ensures
            final(self).wf(),
            final(self)@ == old(self)@.remove(id),
            match r {
                Some(c) => old(self)@.contains_key(id) && old(self)@[id].conn == c,
                None => !old(self)@.contains_key(id),
            },
    {
        let n = self.entries.len();
        let mut k: usize = 0;
        while k < n
            invariant
                n == self.entries@.len(),
                k <= n,
                distinct_ids(self.entries@),
                self.entries@ == old(self).entries@,
                forall|j: int| 0 <= j < k ==> self.entries@[j].id != id,
            decreases n - k,
        {
            if self.entries[k].id == id {
                let c = self.entries[k].conn;
                proof {
                    lemma_map_of_get(self.entries@, k as int);
                    lemma_map_of_remove(self.entries@, k as int);
                }
                self.entries.remove(k);
                return Some(c);
            }
            k = k + 1;
        }
        proof {
            lemma_map_of_contains(self.entries@, id);
            assert(old(self)@.remove(id) =~= old(self)@);
        }
        None
    }

    /// Refreshes the liveness timestamp of a registered identity; reports
    /// whether the identity was registered at all.
    pub fn refresh(&mut self, id: usize, now: u64) -> (found: bool)
        requires
            old(self).wf(),
        ensures
            final(self).wf(),
            found == old(self)@.contains_key(id),
            final(self)@ == (if old(self)@.contains_key(id) {
                old(self)@.insert(id, touched(old(self)@[id], now))
            } else {
                old(self)@
            }),
    {
        let n = self.entries.len();
        let mut k: usize = 0;
        while k < n
            invariant
                n == self.entries@.len(),
                k <= n,
                distinct_ids(self.entries@),
                self.entries@ == old(self).entries@,
                forall|j: int| 0 <= j < k ==> self.entries@[j].id != id,
            decreases n - k,
        {
            if self.entries[k].id == id {
                let e = self.entries[k];
                proof {
                    lemma_map_of_get(self.entries@, k as int);
                    lemma_map_of_remove(self.entries@, k as int);
                }
                self.entries.remove(k);
                proof {
                    lemma_map_of_push(self.entries@, touched(e, now));
                    lemma_map_of_contains(self.entries@, id);
                    assert(forall|j: int|
                        0 <= j < self.entries@.len() ==> self.entries@[j].id != id);
                    assert(distinct_ids(self.entries@.push(touched(e, now))));
                    assert(old(self)@.remove(id).insert(id, touched(e, now)) =~= old(
                        self,
                    )@.insert(id, touched(e, now)));
                }
                self.entries.push(StationConn { last_seen: now, ..e });
                return true;
            }
            k = k + 1;
        }
        proof {
            lemma_map_of_contains(self.entries@, id);
        }
        false
    }

    /// Closes every entry whose last activity lies `ALIVE_TIMEOUT` or more
    /// seconds in the past, handing back the connections to close.  What
    /// remains is exactly the live part of the registry.
    pub fn evict_stale(&mut self, now: u64) -> (closed: Vec<u64>)
        requires
            old(self).wf(),
        ensures
            final(self).wf(),
            final(self)@ == evict_map(old(self)@, now),
            forall|c: u64| #[trigger] closed@.contains(c) <==> evicted_conn(old(self)@, now, c),
    {
        let n = self.entries.len();
        let mut kept: Vec<StationConn> = Vec::new();
        let mut closed: Vec<u64> = Vec::new();
        let mut k: usize = 0;
        while k < n
            invariant
                n == self.entries@.len(),
                k <= n,
                distinct_ids(self.entries@),
                self.entries@ == old(self).entries@,
                distinct_ids(kept@),
                map_of(kept@) == evict_map(map_of(self.entries@.take(k as int)), now),
                forall|j: int|
                    0 <= j < kept@.len() ==> exists|t: int|
                        0 <= t < k && self.entries@[t] == #[trigger] kept@[j],
                forall|c: u64| #[trigger] closed@.contains(c) <==> evicted_conn(
                    map_of(self.entries@.take(k as int)),
                    now,
                    c,
                ),
            decreases n - k,
        {
            let e = self.entries[k];
            proof {
                assert(self.entries@.take(k + 1 as int).drop_last() =~= self.entries@.take(
                    k as int,
                ));
                assert(self.entries@.take(k + 1 as int).last() == e);
                lemma_map_of_contains(self.entries@.take(k as int), e.id);
                assert(forall|t: int|
                    0 <= t < k ==> self.entries@.take(k as int)[t] == self.entries@[t]);
                assert(!map_of(self.entries@.take(k as int)).contains_key(e.id));
            }
            let stale = now >= ALIVE_TIMEOUT && e.last_seen <= now - ALIVE_TIMEOUT;
            proof {
                assert(stale == !live_at(e.last_seen, now));
            }
            if stale {
                let ghost closed0 = closed@;
                closed.push(e.conn);
                proof {
                    let m1 = map_of(self.entries@.take(k + 1 as int));
                    let m0 = map_of(self.entries@.take(k as int));
                    assert(m1 == m0.insert(e.id, e));
                    assert(map_of(kept@) =~= evict_map(m1, now));
                    assert forall|c: u64| #[trigger] closed@.contains(c) <==> evicted_conn(
                        m1,
                        now,
                        c,
                    ) by {
                        lemma_push_contains(closed0, e.conn, c);
                        if closed@.contains(c) {
                            if c == e.conn {
                                assert(m1.contains_key(e.id) && !live_at(m1[e.id].last_seen, now)
                                    && m1[e.id].conn == c);
                            } else {
                                assert(closed0.contains(c));
                                let id = choose|id: usize|
                                    #[trigger] m0.contains_key(id) && !live_at(
                                        m0[id].last_seen,
                                        now,
                                    ) && m0[id].conn == c;
                                assert(m1.contains_key(id) && !live_at(m1[id].last_seen, now)
                                    && m1[id].conn == c);
                            }
                        }
                        if evicted_conn(m1, now, c) {
                            let id = choose|id: usize|
                                #[trigger] m1.contains_key(id) && !live_at(m1[id].last_seen, now)
                                    && m1[id].conn == c;
                            if id == e.id {
                                assert(c == e.conn);
                            } else {
                                assert(m0.contains_key(id) && !live_at(m0[id].last_seen, now)
                                    && m0[id].conn == c);
                                assert(closed0.contains(c));
                            }
                        }
                    }
                }
            } else {
                proof {
                    let m1 = map_of(self.entries@.take(k + 1 as int));
                    let m0 = map_of(self.entries@.take(k as int));
                    assert(m1 == m0.insert(e.id, e));
                    assert(forall|j: int|
                        0 <= j < kept@.len() ==> #[trigger] kept@[j].id != e.id) by {
                        assert(forall|j: int|
                            0 <= j < kept@.len() ==> exists|t: int|
                                0 <= t < k && self.entries@[t] == #[trigger] kept@[j]);
                    }
                    assert(distinct_ids(kept@.push(e)));
                    lemma_map_of_push(kept@, e);
                    assert(map_of(kept@.push(e)) =~= evict_map(m1, now));
                    assert forall|c: u64| #[trigger] closed@.contains(c) <==> evicted_conn(
                        m1,
                        now,
                        c,
                    ) by {
                        if closed@.contains(c) {
                            let id = choose|id: usize|
                                #[trigger] m0.contains_key(id) && !live_at(m0[id].last_seen, now)
                                    && m0[id].conn == c;
                            assert(m1.contains_key(id) && !live_at(m1[id].last_seen, now)
                                && m1[id].conn == c);
                        }
                        if evicted_conn(m1, now, c) {
                            let id = choose|id: usize|
                                #[trigger] m1.contains_key(id) && !live_at(m1[id].last_seen, now)
                                    && m1[id].conn == c;
                            assert(id != e.id);
                            assert(m0.contains_key(id) && !live_at(m0[id].last_seen, now)
                                && m0[id].conn == c);
                        }
                    }
                }
                kept.push(e);
            }
            k = k + 1;
        }
        proof {
            assert(self.entries@.take(n as int) =~= self.entries@);
        }
        self.entries = kept;
        closed
    }
}

/// At most one live station connection exists per identity at any
/// observation point: the registry is a map keyed by identity, so any two
/// stored entries with the same identity are the same entry.
pub proof fn lemma_identity_unique(r: &Registry, id: usize)
    requires
        r.wf(),
    ensures
        forall|e1: StationConn, e2: StationConn|
            (#[trigger] r@.contains_value(e1) && #[trigger] r@.contains_value(e2) && e1.id == id
                && e2.id == id) ==> e1 == e2,
{
    assert forall|e1: StationConn, e2: StationConn|
        (#[trigger] r@.contains_value(e1) && #[trigger] r@.contains_value(e2) && e1.id == id
            && e2.id == id) implies e1 == e2 by {
        let k1 = choose|k: usize| #[trigger] r@.contains_key(k) && r@[k] == e1;
        let k2 = choose|k: usize| #[trigger] r@.contains_key(k) && r@[k] == e2;
        lemma_map_of_key_id(r.entries@, k1);
        lemma_map_of_key_id(r.entries@, k2);
    }
}

/// Every stored entry sits under its own identity as key.
proof fn lemma_map_of_key_id(s: Seq<StationConn>, id: usize)
    requires
        map_of(s).contains_key(id),
    ensures
        map_of(s)[id].id == id,
    decreases s.len(),
{
    if s.len() > 0 {
        if id != s.last().id {
            lemma_map_of_key_id(s.drop_last(), id);
        }
    }
}

/// A registered connection with no activity for `ALIVE_TIMEOUT` or more
/// seconds is absent from the registry after an eviction pass; one whose
/// last activity is more recent persists, unchanged.
pub proof fn lemma_eviction_threshold(m: Map<usize, StationConn>, now: u64, id: usize)
    requires
        m.contains_key(id),
    ensures
        evict_map(m, now).contains_key(id) <==> now < m[id].last_seen + ALIVE_TIMEOUT,
        evict_map(m, now).contains_key(id) ==> evict_map(m, now)[id] == m[id],
{
}

/// A station evicted for inactivity can register again: after an eviction
/// pass, a fresh handshake for any identity routes to the new connection.
pub proof fn lemma_reconnect_after_eviction(
    m: Map<usize, StationConn>,
    now: u64,
    id: usize,
    conn: u64,
    later: u64,
)
    ensures
        evict_map(m, now).insert(id, fresh_entry(id, conn, later)).contains_key(id),
        evict_map(m, now).insert(id, fresh_entry(id, conn, later))[id].conn == conn,
{
}

} // verus!
