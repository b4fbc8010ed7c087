//! Relay states and the geographic pre-filter applied to relay candidates
//! before the weighted random choice: nearest regions first, at most two
//! relays per network (ASN), at most `max_candidates` in all.

use vstd::prelude::*;
use crate::text::{str_equal, chars_of};

verus! {

/// Lifecycle state of a relay as the master sees it.
#[derive(Debug, Clone, Copy, PartialEq, Eq, Structural)]
pub enum RelayState {
    New,
    Probation,
    Active,
    Degraded,
    Draining,
    Quarantined,
    Banned,
}

impl Default for RelayState {
    fn default() -> (r: Self)
        ensures
            r == RelayState::New,
    {
        RelayState::New
    }
}

/// Whether a relay in `state` may still be chosen when no relay scores above
/// zero.
pub fn is_fallback_state(state: RelayState) -> (b: bool)
    ensures
        b == (state == RelayState::Active || state == RelayState::Probation || state
            == RelayState::Degraded),
{
    match state {
        RelayState::Active | RelayState::Probation | RelayState::Degraded => true,
        _ => false,
    }
}

/// The part of `s` before the first `c` (all of `s` when there is none).
pub open spec fn take_until(s: Seq<char>, c: char) -> Seq<char>
    decreases s.len(),
{
    if s.len() == 0 || s[0] == c {
        Seq::empty()
    } else {
        seq![s[0]] + take_until(s.drop_first(), c)
    }
}

proof fn lemma_take_until_at(s: Seq<char>, c: char, p: int)
    requires
        0 <= p <= s.len(),
        forall|j: int| 0 <= j < p ==> #[trigger] s[j] != c,
        p == s.len() || s[p] == c,
    ensures
        take_until(s, c) == s.subrange(0, p),
    decreases p,
{
    if p == 0 {
        assert(s.subrange(0, 0) =~= Seq::<char>::empty());
    } else {
        let t = s.drop_first();
        assert forall|j: int| 0 <= j < p - 1 implies #[trigger] t[j] != c by {
            assert(t[j] == s[j + 1]);
        }
        if p - 1 < t.len() {
            assert(t[p - 1] == s[p]);
        }
        lemma_take_until_at(t, c, p - 1);
        assert(seq![s[0]] + t.subrange(0, p - 1) =~= s.subrange(0, p));
    }
}

/// The part of `s` before the first `c` (what `str::split(c).next()` gives).
pub fn before_char(s: &str, c: char) -> (r: String)
    ensures
        r@ == take_until(s@, c),
{
    let v = chars_of(s);
    let mut p: usize = 0;
    while p < v.len() && v[p] != c
        invariant
            p <= v.len(),
            v@ == s@,
            forall|j: int| 0 <= j < p ==> #[trigger] v@[j] != c,
        decreases v.len() - p,
    {
        p = p + 1;
    }
    proof {
        lemma_take_until_at(s@, c, p as int);
    }
    crate::text::string_from_chars(&v, 0, p)
}

/// The part of `s` before the first `-`.
fn continent_of(s: &str) -> (r: String)
    ensures
        r@ == take_until(s@, '-'),
{
    before_char(s, '-')
}

/// Distance between two regions: 0 when equal, 1 on the same continent (the
/// part before the first `-`), 5 otherwise.
pub open spec fn region_dist(r1: Seq<char>, r2: Seq<char>) -> int {
    if r1 == r2 {
        0
    } else if take_until(r1, '-') == take_until(r2, '-') {
        1
    } else {
        5
    }
}

/// Distance between regions `r1` and `r2`.
pub fn region_distance(r1: &str, r2: &str) -> (d: u32)
    ensures
        d == region_dist(r1@, r2@),
{
    if str_equal(r1, r2) {
        return 0;
    }
    let p1 = continent_of(r1);
    let p2 = continent_of(r2);
    if str_equal(p1.as_str(), p2.as_str()) {
        1
    } else {
        5
    }
}

/// What the geographic filter reads of a relay candidate.
#[derive(Debug, Clone)]
pub struct GeoInfo {
    pub region: Option<String>,
    pub asn: Option<u32>,
}

/// The optional character sequence of an optional string.
pub open spec fn opt_string(s: Option<String>) -> Option<Seq<char>> {
    match s {
        Some(x) => Some(x@),
        None => None,
    }
}

/// How far a relay in `region` is from the two peers: the sum of its region
/// distances to each, 2 for a peer of unknown region; a relay of unknown
/// region counts as region `unknown`.
pub open spec fn geo_key(region: Option<Seq<char>>, client: Option<Seq<char>>, server: Option<Seq<char>>) -> int {
    let r = match region {
        Some(x) => x,
        None => "unknown"@,
    };
    (match client {
        Some(c) => region_dist(r, c),
        None => 2,
    }) + (match server {
        Some(s) => region_dist(r, s),
        None => 2,
    })
}

/// The distance keys of all candidates.
pub open spec fn geo_keys(candidates: Seq<GeoInfo>, client: Option<Seq<char>>, server: Option<Seq<char>>) -> Seq<int> {
    candidates.map_values(|g: GeoInfo| geo_key(opt_string(g.region), client, server))
}

/// The networks of all candidates.
pub open spec fn geo_asns(candidates: Seq<GeoInfo>) -> Seq<Option<u32>> {
    candidates.map_values(|g: GeoInfo| g.asn)
}

/// Whether candidate `a` comes before `b`: smaller key, or equal key and
/// earlier position (a stable sort by key).
pub open spec fn before(keys: Seq<int>, a: int, b: int) -> bool {
    keys[a] < keys[b] || (keys[a] == keys[b] && a < b)
}

/// `order` lists each of `0..keys.len()` once, stably sorted by key.
pub open spec fn stably_sorted(order: Seq<usize>, keys: Seq<int>) -> bool {
    &&& forall|j: int| 0 <= j < keys.len() ==> #[trigger] order.contains(j as usize)
    &&& forall|p: int| 0 <= p < order.len() ==> #[trigger] order[p] < keys.len()
    &&& forall|p: int, q: int|
        0 <= p < q < order.len() ==> before(keys, #[trigger] order[p] as int, #[trigger] order[q] as int)
}

/// The network of candidate `i`, 0 when unknown.
pub open spec fn asn_of(asns: Seq<Option<u32>>, i: usize) -> u32 {
    match asns[i as int] {
        Some(a) => a,
        None => 0,
    }
}

/// How many of `picked` are in network `asn`.
pub open spec fn asn_count(picked: Seq<usize>, asns: Seq<Option<u32>>, asn: u32) -> int
    decreases picked.len(),
{
    if picked.len() == 0 {
        0
    } else {
        asn_count(picked.drop_last(), asns, asn) + if asn_of(asns, picked.last()) == asn {
            1int
        } else {
            0int
        }
    }
}

/// The candidates taken from `order`, in order: each one while fewer than
/// `max` are taken and fewer than two of its network are.
pub open spec fn geo_pick(order: Seq<usize>, asns: Seq<Option<u32>>, max: int) -> Seq<usize>
    decreases order.len(),
{
    if order.len() == 0 {
        Seq::empty()
    } else {
        let p = geo_pick(order.drop_last(), asns, max);
        if p.len() < max && asn_count(p, asns, asn_of(asns, order.last())) < 2 {
            p.push(order.last())
        } else {
            p
        }
    }
}

proof fn lemma_geo_pick_len(order: Seq<usize>, asns: Seq<Option<u32>>, max: int)
    ensures
        geo_pick(order, asns, max).len() <= order.len(),
    decreases order.len(),
{
    if order.len() > 0 {
        lemma_geo_pick_len(order.drop_last(), asns, max);
    }
}

/// How many of `picked` are in network `asn`.
fn count_asn(picked: &Vec<usize>, geo: &Vec<GeoInfo>, asn: u32) -> (n: usize)
    requires
        forall|p: int| 0 <= p < picked@.len() ==> #[trigger] picked@[p] < geo@.len(),
    ensures
        n == asn_count(picked@, geo_asns(geo@), asn),
{
    let ghost asns = geo_asns(geo@);
    let mut n: usize = 0;
    let mut i: usize = 0;
    while i < picked.len()
        invariant
            i <= picked@.len(),
            asns == geo_asns(geo@),
            forall|p: int| 0 <= p < picked@.len() ==> #[trigger] picked@[p] < geo@.len(),
            n == asn_count(picked@.take(i as int), asns, asn),
            n <= i,
        decreases picked@.len() - i,
    {
        proof {
            assert(picked@.take(i + 1).drop_last() =~= picked@.take(i as int));
        }
        let a = match geo[picked[i]].asn {
            Some(a) => a,
            None => 0,
        };
        if a == asn {
            n = n + 1;
        }
        i = i + 1;
    }
    proof {
        assert(picked@.take(picked@.len() as int) =~= picked@);
    }
    n
}

/// The positions of the candidates to keep, nearest to the two peers first
/// (a stable sort by [`geo_key`]), at most two per network and at most
/// `max_candidates` in all. When neither peer's region is known every key is
/// the same, so the candidates keep their order.
pub fn filter_by_geography(
    candidates: &Vec<GeoInfo>,
    client_region: Option<&str>,
    server_region: Option<&str>,
    max_candidates: usize,
) -> (r: Vec<usize>)
    ensures
        exists|order: Seq<usize>|
            #[trigger] stably_sorted(
                order,
                geo_keys(candidates@, crate::security::opt_chars(client_region), crate::security::opt_chars(server_region)),
            ) && r@ == geo_pick(order, geo_asns(candidates@), max_candidates as int),
{
    let n = candidates.len();
    let ghost keys = geo_keys(
        candidates@,
        crate::security::opt_chars(client_region),
        crate::security::opt_chars(server_region),
    );
    let mut key_of: Vec<u32> = Vec::new();
    let mut i: usize = 0;
    while i < n
        invariant
            i <= n,
            n == candidates@.len(),
            keys == geo_keys(
                candidates@,
                crate::security::opt_chars(client_region),
                crate::security::opt_chars(server_region),
            ),
            key_of@.len() == i,
            forall|j: int| 0 <= j < i ==> #[trigger] key_of@[j] == keys[j] && key_of@[j] <= 10,
        decreases n - i,
    {
        let region: &str = match &candidates[i].region {
            Some(r) => r.as_str(),
            None => "unknown",
        };
        let d1: u32 = match client_region {
            Some(c) => region_distance(region, c),
            None => 2,
        };
        let d2: u32 = match server_region {
            Some(s) => region_distance(region, s),
            None => 2,
        };
        key_of.push(d1 + d2);
        i = i + 1;
    }
    let mut order: Vec<usize> = Vec::new();
    let mut k: u32 = 0;
    while k <= 10
        invariant
            n == candidates@.len() == key_of@.len() == keys.len(),
            k <= 11,
            forall|j: int| 0 <= j < n ==> #[trigger] key_of@[j] == keys[j] && key_of@[j] <= 10,
            forall|j: int| 0 <= j < n ==> (keys[j] < k <==> #[trigger] order@.contains(j as usize)),
            forall|p: int| 0 <= p < order@.len() ==> #[trigger] order@[p] < n && keys[order@[p] as int] < k,
            forall|p: int, q: int|
                0 <= p < q < order@.len() ==> before(keys, #[trigger] order@[p] as int, #[trigger] order@[q] as int),
        decreases 11 - k,
    {
        let mut j: usize = 0;
        while j < n
            invariant
                n == candidates@.len() == key_of@.len() == keys.len(),
                k <= 10,
                j <= n,
                forall|x: int| 0 <= x < n ==> #[trigger] key_of@[x] == keys[x] && key_of@[x] <= 10,
                forall|x: int|
                    0 <= x < n ==> ((keys[x] < k || (keys[x] == k && x < j)) <==> #[trigger] order@.contains(
                        x as usize,
                    )),
                forall|p: int|
                    0 <= p < order@.len() ==> #[trigger] order@[p] < n && (keys[order@[p] as int] < k
                        || (keys[order@[p] as int] == k && order@[p] < j)),
                forall|p: int, q: int|
                    0 <= p < q < order@.len() ==> before(keys, #[trigger] order@[p] as int, #[trigger] order@[q] as int),
            decreases n - j,
        {
            if key_of[j] == k {
                let ghost o0 = order@;
                order.push(j);
                proof {
                    assert forall|x: int|
                        0 <= x < n implies ((keys[x] < k || (keys[x] == k && x < j + 1))
                            <==> #[trigger] order@.contains(x as usize)) by {
                        if x == j {
                            assert(order@[o0.len() as int] == j);
                        } else {
                            if order@.contains(x as usize) {
                                let p = choose|p: int| 0 <= p < order@.len() && order@[p] == x as usize;
                                if p < o0.len() {
                                    assert(o0[p] == x as usize);
                                }
                            }
                            if o0.contains(x as usize) {
                                let p = choose|p: int| 0 <= p < o0.len() && o0[p] == x as usize;
                                assert(order@[p] == x as usize);
                            }
                        }
                    }
                    assert forall|p: int, q: int|
                        0 <= p < q < order@.len() implies before(
                        keys,
                        #[trigger] order@[p] as int,
                        #[trigger] order@[q] as int,
                    ) by {
                        if q < o0.len() {
                            assert(before(keys, o0[p] as int, o0[q] as int));
                        } else {
                            assert(o0[p] < n);
                        }
                    }
                }
            } else {
                proof {
                    assert forall|x: int|
                        0 <= x < n implies ((keys[x] < k || (keys[x] == k && x < j + 1))
                            <==> #[trigger] order@.contains(x as usize)) by {
                        if x == j {
                            if order@.contains(x as usize) {
                                let p = choose|p: int| 0 <= p < order@.len() && order@[p] == x as usize;
                            }
                        }
                    }
                }
            }
            j = j + 1;
        }
        k = k + 1;
    }
    let ghost asns = geo_asns(candidates@);
    let mut result: Vec<usize> = Vec::new();
    let mut i: usize = 0;
    while i < order.len()
        invariant
            i <= order@.len(),
            n == candidates@.len(),
            asns == geo_asns(candidates@),
            forall|p: int| 0 <= p < order@.len() ==> #[trigger] order@[p] < n,
            result@ == geo_pick(order@.take(i as int), asns, max_candidates as int),
            forall|p: int| 0 <= p < result@.len() ==> #[trigger] result@[p] < n,
        decreases order@.len() - i,
    {
        proof {
            assert(order@.take(i + 1).drop_last() =~= order@.take(i as int));
        }
        if result.len() >= max_candidates {
            proof {
                assert(result@ == geo_pick(order@.take(i + 1), asns, max_candidates as int));
            }
        } else {
            let c = order[i];
            let asn = match candidates[c].asn {
                Some(a) => a,
                None => 0,
            };
            if count_asn(&result, candidates, asn) < 2 {
                result.push(c);
            }
        }
        i = i + 1;
    }
    proof {
        assert(order@.take(order@.len() as int) =~= order@);
        assert(stably_sorted(order@, keys));
    }
    result
}

/// How long after its last heartbeat a relay may still be assigned, in
/// nanoseconds (two minutes).
pub const RELAY_FRESHNESS_NS: u64 = 120_000_000_000;

/// Whether a relay in `state` whose last heartbeat was at `last_seen` may be
/// assigned at `now`: heard from within two minutes and not draining,
/// quarantined or banned. Times are monotonic instants in nanoseconds.
pub fn relay_is_assignable(state: RelayState, last_seen: u64, now: u64) -> (b: bool)
    ensures
        b == ((if now >= last_seen {
            now - last_seen
        } else {
            0
        }) <= RELAY_FRESHNESS_NS && (state == RelayState::Active || state == RelayState::Probation
            || state == RelayState::Degraded || state == RelayState::New)),
{
    let fresh = now.saturating_sub(last_seen) <= RELAY_FRESHNESS_NS;
    let state_ok = match state {
        RelayState::Active | RelayState::Probation | RelayState::Degraded | RelayState::New => true,
        _ => false,
    };
    fresh && state_ok
}

} // verus!
