//! Per-address packet rate limiting and strike-based banning for the
//! gateway's UDP relay.
//!
//! Addresses are keyed as 128-bit IPv6 values, IPv4 ones in their
//! IPv4-mapped form. Times are monotonic instants in nanoseconds.

use std::collections::HashMap;
use vstd::prelude::*;

verus! {

broadcast use vstd::std_specs::hash::group_hash_axioms;

/// Nanoseconds in a second.
pub const SECOND_NS: u64 = 1_000_000_000;

/// Strikes after which an address is banned.
pub const MAX_STRIKES: u32 = 5;

/// How long a ban lasts, in nanoseconds (five minutes).
pub const BAN_DURATION_NS: u64 = 300_000_000_000;

/// How long strikes below the ban threshold are remembered (one hour).
pub const STRIKE_MEMORY_NS: u64 = 3_600_000_000_000;

/// Time from `start` to `now`, zero when `now` is earlier.
pub open spec fn since(now: u64, start: u64) -> int {
    if now >= start {
        now - start
    } else {
        0
    }
}

/// The entries of `m` whose value satisfies `keep`.
pub open spec fn kept<V>(m: Map<u128, V>, keep: spec_fn(V) -> bool) -> Map<u128, V> {
    m.restrict(m.dom().filter(|k: u128| keep(m[k])))
}

/// Removes the entries of `m` whose value fails `keep`.
fn retain_entries<V: Copy, F: Fn(&V) -> bool>(
    m: &mut HashMap<u128, V>,
    keep: &F,
    Ghost(pred): Ghost<spec_fn(V) -> bool>,
)
    requires
        forall|v: &V| #[trigger] keep.requires((v,)),
        forall|v: &V, b: bool| keep.ensures((v,), b) ==> b == pred(*v),
    ensures
        final(m)@ == kept(old(m)@, pred),
{
    let ghost m0 = m@;
    let mut to_remove: Vec<u128> = Vec::new();
    for k in it: m.keys()
        invariant
            m0 == m@,
            it.seq().unref().to_set() == m0.dom(),
            forall|v: &V| #[trigger] keep.requires((v,)),
            forall|v: &V, b: bool| keep.ensures((v,), b) ==> b == pred(*v),
            forall|i: int|
                0 <= i < to_remove@.len() ==> m0.contains_key(#[trigger] to_remove@[i]) && !pred(
                    m0[to_remove@[i]],
                ),
            forall|i: int|
                0 <= i < it.index() ==> !pred(m0[*it.seq()[i]]) ==> to_remove@.contains(
                    *#[trigger] it.seq()[i],
                ),
        ensures
            forall|k: u128| m0.contains_key(k) && !pred(m0[k]) ==> to_remove@.contains(k),
            forall|i: int|
                0 <= i < to_remove@.len() ==> m0.contains_key(#[trigger] to_remove@[i]) && !pred(
                    m0[to_remove@[i]],
                ),
    {
        proof {
            let j = it.index();
            assert(it.seq().unref()[j] == *k);
            assert(it.seq().unref().to_set().contains(*k));
        }
        let ghost tr0 = to_remove@;
        if let Some(v) = m.get(k) {
            if !keep(v) {
                to_remove.push(*k);
            }
        }
        proof {
            let i0 = it.index();
            assert forall|i: int|
                0 <= i < i0 + 1 && !pred(m0[*it.seq()[i]]) implies to_remove@.contains(
                *#[trigger] it.seq()[i],
            ) by {
                if i < i0 {
                    assert(tr0.contains(*it.seq()[i]));
                    let w = choose|w: int| 0 <= w < tr0.len() && tr0[w] == *it.seq()[i];
                    assert(to_remove@[w] == tr0[w]);
                } else {
                    assert(to_remove@.last() == *k);
                }
            }
        }
    }
    let mut i: usize = 0;
    let ghost mut removed: Set<u128> = Set::empty();
    while i < to_remove.len()
        invariant
            i <= to_remove@.len(),
            forall|x: u128|
                removed.contains(x) <==> exists|j: int| 0 <= j < i && #[trigger] to_remove@[j] == x,
            forall|j: int|
                0 <= j < to_remove@.len() ==> m0.contains_key(#[trigger] to_remove@[j]) && !pred(
                    m0[to_remove@[j]],
                ),
            forall|k: u128| m0.contains_key(k) && !pred(m0[k]) ==> to_remove@.contains(k),
            m@ == m0.remove_keys(removed),
        decreases to_remove@.len() - i,
    {
        let k = to_remove[i];
        m.remove(&k);
        proof {
            let old_removed = removed;
            removed = removed.insert(k);
            assert forall|x: u128|
                removed.contains(x) <==> exists|j: int|
                    0 <= j < i + 1 && #[trigger] to_remove@[j] == x by {
                if x == k {
                    assert(to_remove@[i as int] == x);
                }
                if exists|j: int| 0 <= j < i + 1 && #[trigger] to_remove@[j] == x {
                    let j = choose|j: int| 0 <= j < i + 1 && #[trigger] to_remove@[j] == x;
                    if j < i {
                        assert(old_removed.contains(x));
                    }
                }
            }
            assert(m@ =~= m0.remove_keys(removed));
        }
        i = i + 1;
    }
    proof {
        assert forall|k: u128| #[trigger] removed.contains(k) <==> (m0.contains_key(k) && !pred(m0[k])) by {
            if removed.contains(k) {
                let j = choose|j: int| 0 <= j < i && #[trigger] to_remove@[j] == k;
            }
            if m0.contains_key(k) && !pred(m0[k]) {
                assert(to_remove@.contains(k));
                let j = choose|j: int| 0 <= j < to_remove@.len() && to_remove@[j] == k;
                assert(to_remove@[j] == k);
            }
        }
        assert(m@ =~= kept(m0, pred));
    }
}

/// `x + 1`, wrapping to zero past `u64::MAX`.
pub open spec fn inc64(x: u64) -> u64 {
    if x == u64::MAX {
        0
    } else {
        (x + 1) as u64
    }
}

/// `x + 1`, wrapping to zero past `u32::MAX`.
pub open spec fn inc32(x: u32) -> u32 {
    if x == u32::MAX {
        0
    } else {
        (x + 1) as u32
    }
}

/// Abstract state of an [`IpRateLimiter`].
pub ghost struct IpRateView {
    /// Packets counted and start of the one-second window, per address.
    pub counts: Map<u128, (u64, u64)>,
    pub max_pps: u64,
}

/// The state and answer after a packet from `ip` at `now`.
pub open spec fn ip_check_outcome(v: IpRateView, ip: u128, now: u64) -> (IpRateView, bool) {
    let e = if v.counts.contains_key(ip) {
        v.counts[ip]
    } else {
        (0u64, now)
    };
    let e1 = if since(now, e.1) >= SECOND_NS {
        (0u64, now)
    } else {
        e
    };
    let e2 = (inc64(e1.0), e1.1);
    (IpRateView { counts: v.counts.insert(ip, e2), ..v }, e2.0 <= v.max_pps)
}

/// Packets per second allowed from each address.
pub struct IpRateLimiter {
    counts: HashMap<u128, (u64, u64)>,
    max_pps: u64,
}

impl View for IpRateLimiter {
    type V = IpRateView;

    closed spec fn view(&self) -> IpRateView {
        IpRateView { counts: self.counts@, max_pps: self.max_pps }
    }
}

impl IpRateLimiter {
    /// A limiter allowing `max_pps` packets per second per address.
    pub fn new(max_pps: u64) -> (r: Self)
        ensures
            r@ == (IpRateView { counts: Map::empty(), max_pps }),
    {
        IpRateLimiter { counts: HashMap::new(), max_pps }
    }

    /// Counts a packet from `ip` at `now` and says whether it is allowed.
    pub fn check(&mut self, ip: u128, now: u64) -> (b: bool)
        ensures
            (final(self)@, b) == ip_check_outcome(old(self)@, ip, now),
    {
        let e = match self.counts.get(&ip) {
            Some(e) => *e,
            None => (0u64, now),
        };
        let e1 = if now.saturating_sub(e.1) >= SECOND_NS {
            (0u64, now)
        } else {
            e
        };
        let e2 = (e1.0.wrapping_add(1), e1.1);
        self.counts.insert(ip, e2);
        e2.0 <= self.max_pps
    }

    /// Forgets addresses whose window started two seconds or more before `now`.
    pub fn cleanup(&mut self, now: u64)
        ensures
            final(self)@ == (IpRateView {
                counts: kept(old(self)@.counts, |e: (u64, u64)| since(now, e.1) < 2 * SECOND_NS),
                ..old(self)@
            }),
    {
        let keep = |e: &(u64, u64)| -> (b: bool)
            ensures
                b == (since(now, e.1) < 2 * SECOND_NS),
            { now.saturating_sub(e.1) < 2 * SECOND_NS };
        retain_entries(
            &mut self.counts,
            &keep,
            Ghost(|e: (u64, u64)| since(now, e.1) < 2 * SECOND_NS),
        );
    }
}

/// Abstract state of [`BannedIPs`].
pub ghost struct BanView {
    /// Strikes and time of the last one, per address.
    pub strikes: Map<u128, (u32, u64)>,
}

/// Whether an address with entry `e` is banned at `now`.
pub open spec fn ban_active(e: (u32, u64), now: u64) -> bool {
    e.0 >= MAX_STRIKES && since(now, e.1) < BAN_DURATION_NS
}

/// Whether an entry is still remembered at `now`: a ban until it ends, fewer
/// strikes for an hour after the last one.
pub open spec fn strike_remembered(e: (u32, u64), now: u64) -> bool {
    if e.0 >= MAX_STRIKES {
        since(now, e.1) < BAN_DURATION_NS
    } else {
        since(now, e.1) < STRIKE_MEMORY_NS
    }
}

/// Strikes against addresses that misbehave, and the bans they lead to.
pub struct BannedIPs {
    strikes: HashMap<u128, (u32, u64)>,
}

impl View for BannedIPs {
    type V = BanView;

    closed spec fn view(&self) -> BanView {
        BanView { strikes: self.strikes@ }
    }
}

impl BannedIPs {
    /// No strikes against anyone.
    pub fn new() -> (r: Self)
        ensures
            r@.strikes == Map::<u128, (u32, u64)>::empty(),
    {
        BannedIPs { strikes: HashMap::new() }
    }

    /// Whether `ip` is banned at `now`; an expired ban is forgotten.
    pub fn is_banned(&mut self, ip: u128, now: u64) -> (b: bool)
        ensures
            b == (old(self)@.strikes.contains_key(ip) && ban_active(old(self)@.strikes[ip], now)),
            final(self)@.strikes == if old(self)@.strikes.contains_key(ip)
                && old(self)@.strikes[ip].0 >= MAX_STRIKES && !ban_active(
                old(self)@.strikes[ip],
                now,
            ) {
                old(self)@.strikes.remove(ip)
            } else {
                old(self)@.strikes
            },
    {
        let entry = match self.strikes.get(&ip) {
            Some(e) => Some(*e),
            None => None,
        };
        if let Some((strikes, banned_at)) = entry {
            if strikes >= MAX_STRIKES {
                if now.saturating_sub(banned_at) < BAN_DURATION_NS {
                    return true;
                } else {
                    self.strikes.remove(&ip);
                }
            }
        }
        false
    }

    /// Records a strike against `ip` at `now`.
    pub fn add_strike(&mut self, ip: u128, now: u64)
        ensures
            final(self)@.strikes == old(self)@.strikes.insert(
                ip,
                (
                    inc32(
                        if old(self)@.strikes.contains_key(ip) {
                            old(self)@.strikes[ip].0
                        } else {
                            0
                        },
                    ),
                    now,
                ),
            ),
    {
        let count = match self.strikes.get(&ip) {
            Some(e) => e.0,
            None => 0,
        };
        self.strikes.insert(ip, (count.wrapping_add(1), now));
    }

    /// Forgets ended bans and strikes older than an hour.
    pub fn cleanup(&mut self, now: u64)
        ensures
            final(self)@.strikes == kept(
                old(self)@.strikes,
                |e: (u32, u64)| strike_remembered(e, now),
            ),
    {
        let keep = |e: &(u32, u64)| -> (b: bool)
            ensures
                b == strike_remembered(*e, now),
            {
                if e.0 >= MAX_STRIKES {
                    now.saturating_sub(e.1) < BAN_DURATION_NS
                } else {
                    now.saturating_sub(e.1) < STRIKE_MEMORY_NS
                }
            };
        retain_entries(
            &mut self.strikes,
            &keep,
            Ghost(|e: (u32, u64)| strike_remembered(e, now)),
        );
    }
}

/// Five strikes get an address banned for five minutes from the last one.
pub proof fn law_fifth_strike_bans(v: BanView, ip: u128, now: u64)
    requires
        v.strikes.contains_key(ip),
        v.strikes[ip].0 == MAX_STRIKES - 1,
    ensures
        ban_active(
            (inc32(v.strikes[ip].0), now),
            now,
        ),
{
}

/// Within one window, an address gets at most `max_pps` packets through: once
/// its count has reached the limit, the next packet is refused.
pub proof fn law_packets_over_limit_refused(v: IpRateView, ip: u128, now: u64)
    requires
        v.counts.contains_key(ip),
        since(now, v.counts[ip].1) < SECOND_NS,
        v.max_pps <= v.counts[ip].0 < u64::MAX,
    ensures
        !ip_check_outcome(v, ip, now).1,
{
}

} // verus!
