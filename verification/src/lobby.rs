//! Lobby rules of the web server: the pool of game-server ports and the
//! record of recently killed lobbies.
use vstd::prelude::*;
use std::collections::HashMap;
use vstd::std_specs::hash::spec_keys_iter;
use vstd::std_specs::iter::IteratorSpec;

verus! {

broadcast use vstd::std_specs::hash::group_hash_axioms;

/// Information stashed when a lobby is destroyed, so the client polling the
/// lobby status can be told *why* the lobby disappeared.
#[derive(Debug)]
pub struct KilledInfo {
    /// Why the lobby was destroyed
    pub reason: String,
    /// When it was destroyed, in milliseconds on the server's clock
    pub killed_at_ms: u64,
}

fn key_list(map: &HashMap<i64, KilledInfo>) -> (r: Vec<i64>)
    ensures
        r@.to_set() == map@.dom(),
{
    let mut keys: Vec<i64> = Vec::new();
    let ghost all = spec_keys_iter(map).remaining().unref();
    for k in it: map.keys()
        invariant
            it.seq() == spec_keys_iter(map).remaining(),
            all == spec_keys_iter(map).remaining().unref(),
            keys@ == all.take(it.index()),
    {
        assert(all.take(it.index() + 1) =~= all.take(it.index()).push(*k));
        keys.push(*k);
    }
    assert(all.take(all.len() as int) == all);
    keys
}


/// Starting port for dynamically allocated game servers.
pub const BASE_GAME_PORT: u16 = 1338;

/// Last allowable game-server port (inclusive). 100 ports total.
pub const MAX_GAME_PORT: u16 = 1437;

/// How long the reason for a killed lobby is kept, in milliseconds.
pub const KILLED_RETENTION_MS: u64 = 300_000;

/// The port belongs to the pool of game-server ports.
pub open spec fn in_pool(p: int) -> bool {
    BASE_GAME_PORT <= p <= MAX_GAME_PORT
}

/// The port is in the map and not in use.
pub open spec fn port_free(m: Map<u16, bool>, p: int) -> bool {
    0 <= p <= u16::MAX && m.contains_key(p as u16) && m[p as u16] == false
}

/// The lowest free port of the pool that is not below `from`.
pub open spec fn first_free(m: Map<u16, bool>, from: int) -> Option<u16>
    decreases MAX_GAME_PORT + 1 - from,
{
    if from > MAX_GAME_PORT {
        None
    } else if port_free(m, from) {
        Some(from as u16)
    } else {
        first_free(m, from + 1)
    }
}

/// The port handed out by an allocation and the pool afterwards.
pub open spec fn spec_allocate(m: Map<u16, bool>) -> (Option<u16>, Map<u16, bool>) {
    match first_free(m, BASE_GAME_PORT as int) {
        Some(p) => (Some(p), m.insert(p, true)),
        None => (None, m),
    }
}

/// The pool after releasing a port; ports outside the pool are ignored.
pub open spec fn spec_release(m: Map<u16, bool>, p: u16) -> Map<u16, bool> {
    if m.contains_key(p) {
        m.insert(p, false)
    } else {
        m
    }
}

/// A pool with every port free.
pub fn new_port_pool() -> (r: HashMap<u16, bool>)
    ensures
        forall|p: u16| #[trigger] r@.contains_key(p) <==> in_pool(p as int),
        forall|p: u16| #[trigger] r@.contains_key(p) ==> r@[p] == false,
{
    let mut m: HashMap<u16, bool> = HashMap::new();
    let mut p: u16 = BASE_GAME_PORT;
    while p <= MAX_GAME_PORT
        invariant
            BASE_GAME_PORT <= p <= MAX_GAME_PORT + 1,
            forall|q: u16| #[trigger] m@.contains_key(q) <==> BASE_GAME_PORT <= q < p,
            forall|q: u16| #[trigger] m@.contains_key(q) ==> m@[q] == false,
        decreases MAX_GAME_PORT + 1 - p,
    {
        m.insert(p, false);
        p = p + 1;
    }
    m
}

/// Pick the lowest-numbered free port, mark it in-use, return it.  Returns
/// `None` once every port of the pool is in use.
pub fn allocate_port(pool: &mut HashMap<u16, bool>) -> (r: Option<u16>)
    ensures
        r == spec_allocate(old(pool)@).0,
        final(pool)@ == spec_allocate(old(pool)@).1,
{
    let ghost m = pool@;
    let mut p: u16 = BASE_GAME_PORT;
    while p <= MAX_GAME_PORT
        invariant
            BASE_GAME_PORT <= p <= MAX_GAME_PORT + 1,
            pool@ == m,
            m == old(pool)@,
            first_free(m, BASE_GAME_PORT as int) == first_free(m, p as int),
        decreases MAX_GAME_PORT + 1 - p,
    {
        let free = match pool.get(&p) {
            Some(b) => !*b,
            None => false,
        };
        if free {
            assert(port_free(m, p as int));
            assert(first_free(m, p as int) == Some(p));
            pool.insert(p, true);
            assert(pool@ == m.insert(p, true));
            assert(spec_allocate(m) == (Some(p), m.insert(p, true)));
            return Some(p);
        }
        assert(!port_free(m, p as int));
        p = p + 1;
    }
    None
}

/// Mark the given port as not-in-use. No-op if port is outside the pool.
pub fn release_port(pool: &mut HashMap<u16, bool>, port: u16)
    ensures
        final(pool)@ == spec_release(old(pool)@, port),
{
    if pool.contains_key(&port) {
        pool.insert(port, false);
    }
}

proof fn lemma_first_free_found(m: Map<u16, bool>, from: int)
    requires
        BASE_GAME_PORT <= from,
    ensures
        first_free(m, from) matches Some(p) ==> port_free(m, p as int) && in_pool(p as int)
            && from <= p,
    decreases MAX_GAME_PORT + 1 - from,
{
    if from <= MAX_GAME_PORT && !port_free(m, from) {
        lemma_first_free_found(m, from + 1);
    }
}

/// Releasing the port just allocated gives back the pool as it was, and
/// until then that port is not handed out again.
pub proof fn law_allocate_release(m: Map<u16, bool>)
    ensures
        spec_allocate(m).0 matches Some(p) ==> {
            &&& spec_release(spec_allocate(m).1, p) == m
            &&& spec_allocate(spec_allocate(m).1).0 != Some(p)
        },
{
    lemma_first_free_found(m, BASE_GAME_PORT as int);
    if let Some(p) = spec_allocate(m).0 {
        let m2 = spec_allocate(m).1;
        assert(spec_release(m2, p) =~= m);
        lemma_first_free_found(m2, BASE_GAME_PORT as int);
    }
}

/// An allocation hands out the lowest free port of the pool.
pub proof fn law_allocate_lowest(m: Map<u16, bool>, q: u16)
    requires
        in_pool(q as int),
        port_free(m, q as int),
    ensures
        spec_allocate(m).0 matches Some(p) && p <= q,
{
    lemma_first_free_le(m, BASE_GAME_PORT as int, q);
}

proof fn lemma_first_free_le(m: Map<u16, bool>, from: int, q: u16)
    requires
        from <= q,
        in_pool(q as int),
        port_free(m, q as int),
    ensures
        first_free(m, from) matches Some(p) && p <= q,
    decreases MAX_GAME_PORT + 1 - from,
{
    if !port_free(m, from) {
        lemma_first_free_le(m, from + 1, q);
    }
}

/// The entry is younger than the retention time at `now_ms`; entries
/// stamped after `now_ms` count as brand new.
pub open spec fn still_recent(info: KilledInfo, now_ms: u64) -> bool {
    now_ms < info.killed_at_ms + KILLED_RETENTION_MS
}

/// Record that a lobby was killed and why.
pub fn mark_lobby_killed(map: &mut HashMap<i64, KilledInfo>, id: i64, reason: &str, now_ms: u64)
    ensures
        final(map)@.dom() == old(map)@.dom().insert(id),
        final(map)@[id].reason@ == reason@,
        final(map)@[id].killed_at_ms == now_ms,
        forall|k: i64| k != id && #[trigger] old(map)@.contains_key(k) ==> final(map)@[k] == old(map)@[k],
{
    map.insert(id, KilledInfo { reason: reason.to_owned(), killed_at_ms: now_ms });
}

/// Look up the kill reason for a lobby, if it was recently killed.
pub fn lookup_killed(map: &HashMap<i64, KilledInfo>, id: i64) -> (r: Option<KilledInfo>)
    ensures
        r is Some <==> map@.contains_key(id),
        r matches Some(info) ==> info.reason@ == map@[id].reason@ && info.killed_at_ms
            == map@[id].killed_at_ms,
{
    match map.get(&id) {
        Some(info) => Some(KilledInfo { reason: info.reason.clone(), killed_at_ms: info.killed_at_ms }),
        None => None,
    }
}

/// Drop killed-lobby entries older than the retention time, so the map
/// doesn't grow without bound over a long-running server.
pub fn prune_killed(map: &mut HashMap<i64, KilledInfo>, now_ms: u64)
    ensures
        forall|k: i64| #[trigger] final(map)@.contains_key(k) <==> old(map)@.contains_key(k) && still_recent(old(map)@[k], now_ms),
        forall|k: i64| #[trigger] final(map)@.contains_key(k) ==> final(map)@[k] == old(map)@[k],
{
    let keys = key_list(map);
    let ghost orig = map@;
    let n = keys.len();
    let mut i: usize = 0;
    while i < n
        invariant
            n == keys@.len(),
            i <= n,
            keys@.to_set() == orig.dom(),
            forall|k: i64| #[trigger] map@.contains_key(k) ==> orig.contains_key(k) && map@[k] == orig[k],
            forall|k: i64| #[trigger] orig.contains_key(k) && !keys@.take(i as int).contains(k) ==> map@.contains_key(k),
            forall|k: i64| #[trigger] keys@.take(i as int).contains(k) ==> (map@.contains_key(k) <==> still_recent(orig[k], now_ms)),
        decreases n - i,
    {
        let k = keys[i];
        assert(keys@.to_set().contains(k));
        assert(keys@.take(i + 1) =~= keys@.take(i as int).push(k));
        let ghost prev = map@;
        let stale = match map.get(&k) {
            Some(info) => now_ms >= info.killed_at_ms && now_ms - info.killed_at_ms >= KILLED_RETENTION_MS,
            None => false,
        };
        assert(stale <==> prev.contains_key(k) && !still_recent(orig[k], now_ms));
        if stale {
            map.remove(&k);
            assert(map@ == prev.remove(k));
        }
        proof {
            assert forall|j: i64| #[trigger] keys@.take(i + 1).contains(j) implies (map@.contains_key(j) <==> still_recent(orig[j], now_ms)) by {
                if j != k {
                    assert(keys@.take(i as int).contains(j));
                }
            }
            assert forall|j: i64| #[trigger] orig.contains_key(j) && !keys@.take(i + 1).contains(j) implies map@.contains_key(j) by {
                assert(keys@.take(i + 1)[i as int] == k);
                assert(!keys@.take(i as int).contains(j));
            }
        }
        i = i + 1;
    }
    assert(keys@.take(n as int) == keys@);
    assert forall|k: i64| #[trigger] map@.contains_key(k) <==> orig.contains_key(k) && still_recent(orig[k], now_ms) by {
        if orig.contains_key(k) {
            assert(keys@.to_set().contains(k));
        }
    }
}

} // verus!
