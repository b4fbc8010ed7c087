//! Fixed-window rate limiting per key.
//!
//! Each key gets at most `max_requests` allowed requests per window. When more
//! than `max_keys` keys are tracked, keys whose window has passed are
//! forgotten; if that does not bring the count down, new requests are refused.
//! Times are monotonic instants in nanoseconds, supplied by the caller.

use vstd::prelude::*;

verus! {

/// Per-key request count in the current window.
#[derive(Debug, Clone, Copy, PartialEq, Eq, Structural)]
pub struct RateEntry {
    pub count: u32,
    pub window_start: u64,
}

/// Time elapsed from `start` to `now`, zero when `now` is earlier.
pub open spec fn elapsed(now: u64, start: u64) -> int {
    if now >= start {
        now - start
    } else {
        0
    }
}

/// The map of keys to entries that a list of distinct keys denotes.
pub open spec fn entries_map(s: Seq<(String, RateEntry)>) -> Map<Seq<char>, RateEntry>
    decreases s.len(),
{
    if s.len() == 0 {
        Map::empty()
    } else {
        entries_map(s.drop_last()).insert(s.last().0@, s.last().1)
    }
}

/// Whether the keys of `s` are pairwise distinct.
pub open spec fn distinct_keys(s: Seq<(String, RateEntry)>) -> bool {
    forall|i: int, j: int|
        0 <= i < s.len() && 0 <= j < s.len() && i != j ==> #[trigger] s[i].0@ != #[trigger] s[j].0@
}

/// Abstract state of a [`FixedWindowRateLimiter`].
pub ghost struct LimiterView {
    pub max_requests: u32,
    pub window: u64,
    pub max_keys: usize,
    pub entries: Map<Seq<char>, RateEntry>,
}

/// The entries still inside their window at `now`.
pub open spec fn fresh_entries(m: Map<Seq<char>, RateEntry>, now: u64, window: u64) -> Map<
    Seq<char>,
    RateEntry,
> {
    m.restrict(m.dom().filter(|k: Seq<char>| elapsed(now, m[k].window_start) < window))
}

/// The entry of `key` after counting one request at `now`.
pub open spec fn counted(old_entry: Option<RateEntry>, now: u64, window: u64) -> RateEntry {
    let e = match old_entry {
        Some(e) => e,
        None => RateEntry { count: 0, window_start: now },
    };
    let e1 = if elapsed(now, e.window_start) >= window {
        RateEntry { count: 0, window_start: now }
    } else {
        e
    };
    RateEntry {
        count: if e1.count < u32::MAX {
            (e1.count + 1) as u32
        } else {
            u32::MAX
        },
        ..e1
    }
}

impl LimiterView {
    /// The state and answer after a request for `key` at `now`.
    pub open spec fn allow_outcome(self, key: Seq<char>, now: u64) -> (LimiterView, bool) {
        let m0 = if self.entries.len() > self.max_keys {
            fresh_entries(self.entries, now, self.window)
        } else {
            self.entries
        };
        if self.entries.len() > self.max_keys && m0.len() > self.max_keys {
            (LimiterView { entries: m0, ..self }, false)
        } else {
            let e = counted(
                if m0.contains_key(key) {
                    Some(m0[key])
                } else {
                    None
                },
                now,
                self.window,
            );
            (LimiterView { entries: m0.insert(key, e), ..self }, e.count <= self.max_requests)
        }
    }
}

/// Fixed-window rate limiter keyed by strings.
pub struct FixedWindowRateLimiter {
    max_requests: u32,
    window: u64,
    max_keys: usize,
    entries: Vec<(String, RateEntry)>,
}

impl View for FixedWindowRateLimiter {
    type V = LimiterView;

    closed spec fn view(&self) -> LimiterView {
        LimiterView {
            max_requests: self.max_requests,
            window: self.window,
            max_keys: self.max_keys,
            entries: entries_map(self.entries@),
        }
    }
}

proof fn lemma_entries_map_lookup(s: Seq<(String, RateEntry)>, i: int)
    requires
        distinct_keys(s),
        0 <= i < s.len(),
    ensures
        entries_map(s).contains_key(s[i].0@),
        entries_map(s)[s[i].0@] == s[i].1,
    decreases s.len(),
{
    if i < s.len() - 1 {
        lemma_entries_map_lookup(s.drop_last(), i);
        assert(s.drop_last()[i] == s[i]);
        assert(s.last().0@ != s[i].0@);
    }
}

proof fn lemma_entries_map_dom(s: Seq<(String, RateEntry)>, k: Seq<char>)
    ensures
        entries_map(s).contains_key(k) <==> exists|i: int| 0 <= i < s.len() && #[trigger] s[i].0@ == k,
    decreases s.len(),
{
    if s.len() > 0 {
        lemma_entries_map_dom(s.drop_last(), k);
        if exists|i: int| 0 <= i < s.len() - 1 && #[trigger] s.drop_last()[i].0@ == k {
            let i = choose|i: int| 0 <= i < s.len() - 1 && #[trigger] s.drop_last()[i].0@ == k;
            assert(s[i].0@ == k);
        }
        if exists|i: int| 0 <= i < s.len() && #[trigger] s[i].0@ == k {
            let i = choose|i: int| 0 <= i < s.len() && #[trigger] s[i].0@ == k;
            if i < s.len() - 1 {
                assert(s.drop_last()[i].0@ == k);
            }
        }
    }
}

proof fn lemma_entries_map_len(s: Seq<(String, RateEntry)>)
    requires
        distinct_keys(s),
    ensures
        entries_map(s).dom().finite(),
        entries_map(s).len() == s.len(),
    decreases s.len(),
{
    if s.len() > 0 {
        let t = s.drop_last();
        assert(distinct_keys(t)) by {
            assert forall|i: int, j: int|
                0 <= i < t.len() && 0 <= j < t.len() && i != j implies #[trigger] t[i].0@
                    != #[trigger] t[j].0@ by {
                assert(s[i].0@ != s[j].0@);
            }
        }
        lemma_entries_map_len(t);
        lemma_entries_map_dom(t, s.last().0@);
        if entries_map(t).contains_key(s.last().0@) {
            let i = choose|i: int| 0 <= i < t.len() && #[trigger] t[i].0@ == s.last().0@;
            assert(s[i].0@ == s[s.len() - 1].0@);
        }
    }
}

proof fn lemma_entries_map_update(s: Seq<(String, RateEntry)>, i: int, e: RateEntry)
    requires
        distinct_keys(s),
        0 <= i < s.len(),
    ensures
        entries_map(s.update(i, (s[i].0, e))) == entries_map(s).insert(s[i].0@, e),
        distinct_keys(s.update(i, (s[i].0, e))),
    decreases s.len(),
{
    let t = s.update(i, (s[i].0, e));
    assert(distinct_keys(t)) by {
        assert forall|a: int, b: int|
            0 <= a < t.len() && 0 <= b < t.len() && a != b implies #[trigger] t[a].0@
                != #[trigger] t[b].0@ by {
            assert(s[a].0@ != s[b].0@);
        }
    }
    if i == s.len() - 1 {
        assert(t.drop_last() =~= s.drop_last());
        lemma_entries_map_dom(s.drop_last(), s[i].0@);
        assert(entries_map(t) =~= entries_map(s).insert(s[i].0@, e));
    } else {
        let sd = s.drop_last();
        assert(distinct_keys(sd)) by {
            assert forall|a: int, b: int|
                0 <= a < sd.len() && 0 <= b < sd.len() && a != b implies #[trigger] sd[a].0@
                    != #[trigger] sd[b].0@ by {
                assert(s[a].0@ != s[b].0@);
            }
        }
        lemma_entries_map_update(sd, i, e);
        assert(t.drop_last() =~= sd.update(i, (s[i].0, e)));
        assert(s.last().0@ != s[i].0@);
        assert(entries_map(t) =~= entries_map(s).insert(s[i].0@, e));
    }
}

impl FixedWindowRateLimiter {
    /// A limiter allowing `max_requests` requests per `window` nanoseconds
    /// for each key, tracking up to `max_keys` keys before evicting.
    pub fn new(max_requests: u32, window: u64, max_keys: usize) -> (l: Self)
        ensures
            l@ == (LimiterView {
                max_requests,
                window,
                max_keys,
                entries: Map::<Seq<char>, RateEntry>::empty(),
            }),
            l.wf(),
    {
        let l = FixedWindowRateLimiter { max_requests, window, max_keys, entries: Vec::new() };
        proof {
            assert(entries_map(l.entries@) =~= Map::<Seq<char>, RateEntry>::empty());
        }
        l
    }

    /// Keys are tracked once each.
    pub closed spec fn wf(&self) -> bool {
        distinct_keys(self.entries@)
    }

    /// Forget every key whose window has passed at `now`.
    fn evict_stale(&mut self, now: u64)
        requires
            old(self).wf(),
        ensures
            final(self).wf(),
            final(self)@ == (LimiterView {
                entries: fresh_entries(old(self)@.entries, now, old(self)@.window),
                ..old(self)@
            }),
    {
        let ghost s0 = self.entries@;
        let mut kept: Vec<(String, RateEntry)> = Vec::new();
        let mut i: usize = 0;
        while i < self.entries.len()
            invariant
                i <= self.entries@.len(),
                self.entries@ == s0,
                distinct_keys(s0),
                distinct_keys(kept@),
                forall|a: int|
                    0 <= a < kept@.len() ==> exists|b: int|
                        0 <= b < i && #[trigger] kept@[a] == s0[b] && elapsed(
                            now,
                            s0[b].1.window_start,
                        ) < self.window,
                forall|b: int|
                    0 <= b < i && elapsed(now, #[trigger] s0[b].1.window_start) < self.window
                        ==> exists|a: int| 0 <= a < kept@.len() && kept@[a] == s0[b],
            decreases self.entries@.len() - i,
        {
            let entry = &self.entries[i];
            if now.saturating_sub(entry.1.window_start) < self.window {
                let ghost k0 = kept@;
                proof {
                    assert forall|a: int| 0 <= a < k0.len() implies k0[a].0@ != s0[i as int].0@ by {
                        let b = choose|b: int|
                            0 <= b < i && #[trigger] k0[a] == s0[b] && elapsed(
                                now,
                                s0[b].1.window_start,
                            ) < self.window;
                        assert(s0[b].0@ != s0[i as int].0@);
                    }
                }
                kept.push((entry.0.clone(), entry.1));
                proof {
                    assert forall|a: int, c: int|
                        0 <= a < kept@.len() && 0 <= c < kept@.len() && a != c implies #[trigger] kept@[a].0@
                            != #[trigger] kept@[c].0@ by {
                        if a < k0.len() && c < k0.len() {
                            assert(k0[a].0@ != k0[c].0@);
                        }
                    }
                    assert forall|a: int| 0 <= a < kept@.len() implies exists|b: int|
                        0 <= b < i + 1 && #[trigger] kept@[a] == s0[b] && elapsed(
                            now,
                            s0[b].1.window_start,
                        ) < self.window by {
                        if a < k0.len() {
                            let b = choose|b: int|
                                0 <= b < i && #[trigger] k0[a] == s0[b] && elapsed(
                                    now,
                                    s0[b].1.window_start,
                                ) < self.window;
                            assert(kept@[a] == s0[b]);
                        } else {
                            assert(kept@[a] == s0[i as int]);
                        }
                    }
                    assert forall|b: int|
                        0 <= b < i + 1 && elapsed(now, #[trigger] s0[b].1.window_start)
                            < self.window implies exists|a: int|
                        0 <= a < kept@.len() && kept@[a] == s0[b] by {
                        if b < i {
                            let a = choose|a: int| 0 <= a < k0.len() && k0[a] == s0[b];
                            assert(kept@[a] == s0[b]);
                        } else {
                            assert(kept@[kept@.len() - 1] == s0[b]);
                        }
                    }
                }
            }
            i = i + 1;
        }
        proof {
            let m0 = entries_map(s0);
            let target = fresh_entries(m0, now, self.window);
            assert forall|k: Seq<char>| entries_map(kept@).contains_key(k) <==> target.contains_key(k) by {
                lemma_entries_map_dom(kept@, k);
                lemma_entries_map_dom(s0, k);
                if entries_map(kept@).contains_key(k) {
                    let a = choose|a: int| 0 <= a < kept@.len() && #[trigger] kept@[a].0@ == k;
                    let b = choose|b: int|
                        0 <= b < i && #[trigger] kept@[a] == s0[b] && elapsed(
                            now,
                            s0[b].1.window_start,
                        ) < self.window;
                    lemma_entries_map_lookup(s0, b);
                    assert(s0[b].0@ == k);
                }
                if target.contains_key(k) {
                    let b = choose|b: int| 0 <= b < s0.len() && #[trigger] s0[b].0@ == k;
                    lemma_entries_map_lookup(s0, b);
                    let a = choose|a: int| 0 <= a < kept@.len() && kept@[a] == s0[b];
                    assert(kept@[a].0@ == k);
                }
            }
            assert forall|k: Seq<char>| #[trigger] entries_map(kept@).contains_key(k) implies entries_map(kept@)[k] == target[k] by {
                lemma_entries_map_dom(kept@, k);
                let a = choose|a: int| 0 <= a < kept@.len() && #[trigger] kept@[a].0@ == k;
                let b = choose|b: int|
                    0 <= b < i && #[trigger] kept@[a] == s0[b] && elapsed(
                        now,
                        s0[b].1.window_start,
                    ) < self.window;
                lemma_entries_map_lookup(s0, b);
                lemma_entries_map_lookup(kept@, a);
            }
            assert(entries_map(kept@) =~= target);
        }
        self.entries = kept;
    }

    /// Position of `key`, if tracked.
    fn find(&self, key: &str) -> (r: Option<usize>)
        requires
            self.wf(),
        ensures
            r is Some <==> self@.entries.contains_key(key@),
            r matches Some(i) ==> i < self.entries@.len() && self.entries@[i as int].0@ == key@,
    {
        let mut i: usize = 0;
        while i < self.entries.len()
            invariant
                i <= self.entries@.len(),
                forall|j: int| 0 <= j < i ==> self.entries@[j].0@ != key@,
            decreases self.entries@.len() - i,
        {
            if crate::text::str_equal(self.entries[i].0.as_str(), key) {
                proof {
                    lemma_entries_map_dom(self.entries@, key@);
                }
                return Some(i);
            }
            i = i + 1;
        }
        proof {
            lemma_entries_map_dom(self.entries@, key@);
        }
        None
    }

    /// Count a request for `key` at `now` and say whether it is allowed.
    pub fn allow(&mut self, key: &str, now: u64) -> (b: bool)
        requires
            old(self).wf(),
        ensures
            final(self).wf(),
            (final(self)@, b) == old(self)@.allow_outcome(key@, now),
    {
        proof {
            lemma_entries_map_len(self.entries@);
        }
        let over = self.entries.len() > self.max_keys;
        if over {
            self.evict_stale(now);
            proof {
                lemma_entries_map_len(self.entries@);
            }
            if self.entries.len() > self.max_keys {
                return false;
            }
        }
        let ghost m0 = self@.entries;
        let pos = self.find(key);
        let (idx, entry) = match pos {
            Some(i) => (i, self.entries[i].1),
            None => {
                let ghost s0 = self.entries@;
                let e = RateEntry { count: 0, window_start: now };
                let k = key.to_owned();
                self.entries.push((k, e));
                proof {
                    assert(self.entries@.drop_last() =~= s0);
                    lemma_entries_map_dom(s0, key@);
                    assert forall|a: int, c: int|
                        0 <= a < self.entries@.len() && 0 <= c < self.entries@.len() && a != c implies #[trigger] self.entries@[a].0@
                            != #[trigger] self.entries@[c].0@ by {
                        if a < s0.len() && c < s0.len() {
                            assert(s0[a].0@ != s0[c].0@);
                        } else if a < s0.len() {
                            assert(s0[a].0@ != key@);
                        } else {
                            assert(s0[c].0@ != key@);
                        }
                    }
                    assert(entries_map(self.entries@) == m0.insert(key@, e));
                }
                (self.entries.len() - 1, e)
            },
        };
        proof {
            lemma_entries_map_lookup(self.entries@, idx as int);
            assert(self.entries@[idx as int].0@ == key@);
            assert(entries_map(self.entries@).insert(key@, entry) == m0.insert(key@, entry)) by {
                if !m0.contains_key(key@) {
                    assert(entries_map(self.entries@) == m0.insert(key@, entry));
                } else {
                    assert(entries_map(self.entries@) == m0);
                }
            }
        }
        let mut e = entry;
        if now.saturating_sub(e.window_start) >= self.window {
            e = RateEntry { count: 0, window_start: now };
        }
        e.count = e.count.saturating_add(1);
        let ghost s1 = self.entries@;
        let name = self.entries[idx].0.clone();
        self.entries.set(idx, (name, e));
        proof {
            assert(self.entries@ =~= s1.update(idx as int, (s1[idx as int].0, e)));
            lemma_entries_map_update(s1, idx as int, e);
            assert(e == counted(
                if m0.contains_key(key@) {
                    Some(m0[key@])
                } else {
                    None
                },
                now,
                self.window,
            ));
            assert(entries_map(s1).insert(key@, e) =~= m0.insert(key@, e));
        }
        e.count <= self.max_requests
    }
}

/// A request that is allowed leaves its key with between one and
/// `max_requests` requests counted in the current window.
pub proof fn law_allowed_within_budget(v: LimiterView, key: Seq<char>, now: u64)
    ensures
        ({
            let (v2, b) = v.allow_outcome(key, now);
            b ==> v2.entries.contains_key(key) && 1 <= v2.entries[key].count <= v.max_requests
        }),
{
}

/// Once a key has used up its budget in the current window, further requests
/// in that window are refused while the limiter is within its key capacity
/// (a budget of `u32::MAX` is never used up, since the count saturates).
pub proof fn law_refused_once_budget_spent(v: LimiterView, key: Seq<char>, now: u64)
    requires
        v.entries.len() <= v.max_keys,
        v.entries.contains_key(key),
        elapsed(now, v.entries[key].window_start) < v.window,
        v.entries[key].count >= v.max_requests,
        v.max_requests < u32::MAX,
    ensures
        !v.allow_outcome(key, now).1,
        v.allow_outcome(key, now).0.entries[key].window_start == v.entries[key].window_start,
{
}

/// When the window of a key has passed, its count starts over: the request is
/// the first of a new window starting now.
pub proof fn law_new_window_resets(v: LimiterView, key: Seq<char>, now: u64)
    requires
        v.entries.len() <= v.max_keys,
        v.entries.contains_key(key),
        elapsed(now, v.entries[key].window_start) >= v.window,
        v.max_requests >= 1,
    ensures
        v.allow_outcome(key, now).1,
        v.allow_outcome(key, now).0.entries[key] == (RateEntry { count: 1, window_start: now }),
{
}

/// Requests for one key never change the entries of other keys, except that
/// stale keys may be forgotten when the limiter is over capacity.
pub proof fn law_other_keys_untouched(v: LimiterView, key: Seq<char>, other: Seq<char>, now: u64)
    requires
        v.entries.len() <= v.max_keys,
        key != other,
    ensures
        v.allow_outcome(key, now).0.entries.contains_key(other) == v.entries.contains_key(other),
        v.entries.contains_key(other) ==> v.allow_outcome(key, now).0.entries[other]
            == v.entries[other],
{
}


/// The entry of `key` in `m`, if tracked.
pub open spec fn entry_of(m: Map<Seq<char>, RateEntry>, key: Seq<char>) -> Option<RateEntry> {
    if m.contains_key(key) {
        Some(m[key])
    } else {
        None
    }
}

/// The state and the answers after the requests `reqs` (a key and a time
/// each), in turn.
pub open spec fn run_requests(v: LimiterView, reqs: Seq<(Seq<char>, u64)>) -> (LimiterView, Seq<bool>)
    decreases reqs.len(),
{
    if reqs.len() == 0 {
        (v, Seq::empty())
    } else {
        let (v1, bs) = run_requests(v, reqs.drop_last());
        let (v2, b) = v1.allow_outcome(reqs.last().0, reqs.last().1);
        (v2, bs.push(b))
    }
}

/// Before every one of `reqs`, at most `max_keys` keys are tracked.
pub open spec fn within_capacity(v: LimiterView, reqs: Seq<(Seq<char>, u64)>) -> bool
    decreases reqs.len(),
{
    reqs.len() == 0 || (within_capacity(v, reqs.drop_last()) && run_requests(
        v,
        reqs.drop_last(),
    ).0.entries.len() <= v.max_keys)
}

/// The times of the requests for `key` among `reqs`, in order.
pub open spec fn times_for(reqs: Seq<(Seq<char>, u64)>, key: Seq<char>) -> Seq<u64>
    decreases reqs.len(),
{
    if reqs.len() == 0 {
        Seq::empty()
    } else if reqs.last().0 == key {
        times_for(reqs.drop_last(), key).push(reqs.last().1)
    } else {
        times_for(reqs.drop_last(), key)
    }
}

/// The answers `bs` to the requests for `key` among `reqs`, in order.
pub open spec fn answers_for(reqs: Seq<(Seq<char>, u64)>, bs: Seq<bool>, key: Seq<char>) -> Seq<bool>
    decreases reqs.len(),
{
    if reqs.len() == 0 || bs.len() == 0 {
        Seq::empty()
    } else if reqs.last().0 == key {
        answers_for(reqs.drop_last(), bs.drop_last(), key).push(bs.last())
    } else {
        answers_for(reqs.drop_last(), bs.drop_last(), key)
    }
}

/// The entry of one key after its requests at `times`, starting from `e`.
pub open spec fn key_entry_after(e: Option<RateEntry>, times: Seq<u64>, window: u64) -> Option<RateEntry>
    decreases times.len(),
{
    if times.len() == 0 {
        e
    } else {
        Some(counted(key_entry_after(e, times.drop_last(), window), times.last(), window))
    }
}

/// The answers to one key's requests at `times`, starting from entry `e`.
pub open spec fn key_answers(e: Option<RateEntry>, times: Seq<u64>, window: u64, max: u32) -> Seq<bool>
    decreases times.len(),
{
    if times.len() == 0 {
        Seq::empty()
    } else {
        key_answers(e, times.drop_last(), window, max).push(
            counted(key_entry_after(e, times.drop_last(), window), times.last(), window).count <= max,
        )
    }
}

/// The window start of one key's entry after each of its requests.
pub open spec fn key_starts(e: Option<RateEntry>, times: Seq<u64>, window: u64) -> Seq<u64>
    decreases times.len(),
{
    if times.len() == 0 {
        Seq::empty()
    } else {
        key_starts(e, times.drop_last(), window).push(
            counted(key_entry_after(e, times.drop_last(), window), times.last(), window).window_start,
        )
    }
}

/// How many of `answers` are allowances within the window starting at `w`.
pub open spec fn allowed_in(answers: Seq<bool>, starts: Seq<u64>, w: u64) -> nat
    decreases answers.len(),
{
    if answers.len() == 0 || starts.len() == 0 {
        0
    } else {
        allowed_in(answers.drop_last(), starts.drop_last(), w) + if answers.last() && starts.last()
            == w {
            1nat
        } else {
            0nat
        }
    }
}

/// Keys are limited independently: while the limiter stays within its key
/// capacity, what a key's entry becomes and what its requests are answered
/// depend only on its own entry and the times of its own requests, whatever
/// requests for other keys come between.
pub proof fn law_keys_limited_independently(
    v: LimiterView,
    reqs: Seq<(Seq<char>, u64)>,
    key: Seq<char>,
)
    requires
        within_capacity(v, reqs),
    ensures
        entry_of(run_requests(v, reqs).0.entries, key) == key_entry_after(
            entry_of(v.entries, key),
            times_for(reqs, key),
            v.window,
        ),
        answers_for(reqs, run_requests(v, reqs).1, key) == key_answers(
            entry_of(v.entries, key),
            times_for(reqs, key),
            v.window,
            v.max_requests,
        ),
        run_requests(v, reqs).1.len() == reqs.len(),
        run_requests(v, reqs).0.max_requests == v.max_requests,
        run_requests(v, reqs).0.window == v.window,
        run_requests(v, reqs).0.max_keys == v.max_keys,
    decreases reqs.len(),
{
    if reqs.len() > 0 {
        let d = reqs.drop_last();
        law_keys_limited_independently(v, d, key);
        let (v1, bs) = run_requests(v, d);
        let (k, t) = reqs.last();
        let (v2, b) = v1.allow_outcome(k, t);
        assert(run_requests(v, reqs) == (v2, bs.push(b)));
        assert(bs.push(b).drop_last() =~= bs);
        if k == key {
            assert(times_for(reqs, key) == times_for(d, key).push(t));
            assert(times_for(reqs, key).drop_last() =~= times_for(d, key));
        } else {
            assert(entry_of(v2.entries, key) == entry_of(v1.entries, key));
        }
    }
}

proof fn lemma_fresh_key_counts(times: Seq<u64>, window: u64)
    requires
        window > 0,
        times.len() > 0,
        forall|i: int| 0 <= i < times.len() ==> times[0] <= #[trigger] times[i] && times[i] - times[0] < window,
    ensures
        key_entry_after(None, times, window) == Some(
            RateEntry {
                count: if times.len() < u32::MAX {
                    times.len() as u32
                } else {
                    u32::MAX
                },
                window_start: times[0],
            },
        ),
    decreases times.len(),
{
    if times.len() > 1 {
        let d = times.drop_last();
        assert forall|i: int| 0 <= i < d.len() implies d[0] <= #[trigger] d[i] && d[i] - d[0] < window by {
            assert(d[i] == times[i]);
        }
        lemma_fresh_key_counts(d, window);
        assert(d[0] == times[0]);
        let t = times[times.len() - 1];
        assert(times[0] <= t && t - times[0] < window);
        assert(times.last() == t);
    } else {
        assert(times.drop_last() =~= Seq::<u64>::empty());
        assert(key_entry_after(None, times.drop_last(), window) is None);
        assert(times.last() == times[0]);
    }
}

/// A key seen for the first time, whose requests all come within one window
/// of its first, has its first `max_requests` requests allowed and every
/// later one refused (a budget of `u32::MAX` is never used up, since the
/// count saturates).
pub proof fn law_first_requests_allowed(times: Seq<u64>, window: u64, max: u32)
    requires
        window > 0,
        forall|i: int| 0 <= i < times.len() ==> times[0] <= #[trigger] times[i] && times[i] - times[0] < window,
    ensures
        key_answers(None, times, window, max).len() == times.len(),
        forall|i: int|
            0 <= i < times.len() ==> #[trigger] key_answers(None, times, window, max)[i] == (i + 1
                <= max || max == u32::MAX),
    decreases times.len(),
{
    if times.len() > 0 {
        let d = times.drop_last();
        assert forall|i: int| 0 <= i < d.len() implies d[0] <= #[trigger] d[i] && d[i] - d[0] < window by {
            assert(d[i] == times[i]);
        }
        law_first_requests_allowed(d, window, max);
        let n = d.len();
        if n > 0 {
            lemma_fresh_key_counts(d, window);
            assert(times[n as int] == times.last());
        } else {
            assert(d =~= Seq::<u64>::empty());
        }
        let a = key_answers(None, times, window, max);
        assert(a == key_answers(None, d, window, max).push(
            counted(key_entry_after(None, d, window), times.last(), window).count <= max,
        ));
    }
}

/// Within every window of a key at most `max_requests` of its requests are
/// allowed, and the request that opens a window (the key untracked, or its
/// window passed) is allowed whenever the budget is at least one. A budget
/// of `u32::MAX` is left out: the count saturates, so it is never used up.
pub proof fn law_window_budget(e: Option<RateEntry>, times: Seq<u64>, window: u64, max: u32, w: u64)
    requires
        window > 0,
        max < u32::MAX,
    ensures
        allowed_in(key_answers(e, times, window, max), key_starts(e, times, window), w) <= max,
        forall|i: int|
            0 <= i < times.len() && (key_entry_after(e, times.take(i), window) is None || elapsed(
                times[i],
                key_entry_after(e, times.take(i), window)->0.window_start,
            ) >= window) ==> #[trigger] key_answers(e, times, window, max)[i] == (max >= 1),
{
    lemma_window_budget(e, times, window, max);
    assert forall|i: int|
        0 <= i < times.len() && (key_entry_after(e, times.take(i), window) is None || elapsed(
            times[i],
            key_entry_after(e, times.take(i), window)->0.window_start,
        ) >= window) implies #[trigger] key_answers(e, times, window, max)[i] == (max >= 1) by {
        lemma_answer_at(e, times, window, max, i);
    }
}

/// The answer to request `i` is decided by the entry its predecessors left.
proof fn lemma_answer_at(e: Option<RateEntry>, times: Seq<u64>, window: u64, max: u32, i: int)
    requires
        0 <= i < times.len(),
    ensures
        key_answers(e, times, window, max).len() == times.len(),
        key_answers(e, times, window, max)[i] == (counted(
            key_entry_after(e, times.take(i), window),
            times[i],
            window,
        ).count <= max),
    decreases times.len(),
{
    let d = times.drop_last();
    lemma_answers_len(e, d, window, max);
    if i < times.len() - 1 {
        lemma_answer_at(e, d, window, max, i);
        assert(d.take(i) =~= times.take(i));
    } else {
        assert(d =~= times.take(i));
    }
}

proof fn lemma_answers_len(e: Option<RateEntry>, times: Seq<u64>, window: u64, max: u32)
    ensures
        key_answers(e, times, window, max).len() == times.len(),
        key_starts(e, times, window).len() == times.len(),
    decreases times.len(),
{
    if times.len() > 0 {
        lemma_answers_len(e, times.drop_last(), window, max);
    }
}

/// The count of a key's entry bounds the allowances in its current window,
/// no allowance lies in a later window, and every window stays in budget.
proof fn lemma_window_budget(e: Option<RateEntry>, times: Seq<u64>, window: u64, max: u32)
    requires
        window > 0,
        max < u32::MAX,
    ensures
        key_entry_after(e, times, window) is None ==> times.len() == 0,
        forall|w: u64|
            #[trigger] allowed_in(key_answers(e, times, window, max), key_starts(e, times, window), w)
                <= max,
        key_entry_after(e, times, window) matches Some(c) ==> allowed_in(
            key_answers(e, times, window, max),
            key_starts(e, times, window),
            c.window_start,
        ) <= c.count,
        key_entry_after(e, times, window) matches Some(c) ==> forall|w: u64|
            w > c.window_start ==> #[trigger] allowed_in(
                key_answers(e, times, window, max),
                key_starts(e, times, window),
                w,
            ) == 0,
    decreases times.len(),
{
    lemma_answers_len(e, times, window, max);
    if times.len() > 0 {
        let d = times.drop_last();
        lemma_window_budget(e, d, window, max);
        lemma_answers_len(e, d, window, max);
        let a0 = key_answers(e, d, window, max);
        let s0 = key_starts(e, d, window);
        let prev = key_entry_after(e, d, window);
        let t = times.last();
        let c = counted(prev, t, window);
        let a = key_answers(e, times, window, max);
        let s = key_starts(e, times, window);
        assert(a == a0.push(c.count <= max));
        assert(s == s0.push(c.window_start));
        assert(a.drop_last() =~= a0);
        assert(s.drop_last() =~= s0);
        assert forall|w: u64| #[trigger] allowed_in(a, s, w) <= max by {
            assert(allowed_in(a, s, w) == allowed_in(a0, s0, w) + if c.count <= max
                && c.window_start == w {
                1nat
            } else {
                0nat
            });
            if c.count <= max && c.window_start == w {
                match prev {
                    None => {
                        assert(allowed_in(a0, s0, w) == 0) by {
                            assert(a0.len() == 0);
                        }
                    },
                    Some(p) => {
                        if elapsed(t, p.window_start) >= window {
                            assert(w > p.window_start);
                        } else {
                            assert(allowed_in(a0, s0, w) <= p.count);
                        }
                    },
                }
            }
        }
        assert forall|w: u64| w > c.window_start implies #[trigger] allowed_in(a, s, w) == 0 by {
            assert(allowed_in(a, s, w) == allowed_in(a0, s0, w) + if c.count <= max
                && c.window_start == w {
                1nat
            } else {
                0nat
            });
            match prev {
                None => {
                    assert(a0.len() == 0);
                },
                Some(p) => {
                    assert(c.window_start >= p.window_start);
                },
            }
        }
        assert(allowed_in(a, s, c.window_start) == allowed_in(a0, s0, c.window_start) + if c.count
            <= max {
            1nat
        } else {
            0nat
        });
        match prev {
            None => {
                assert(a0.len() == 0);
            },
            Some(p) => {
                if elapsed(t, p.window_start) >= window {
                    assert(c.window_start > p.window_start);
                } else {
                    assert(allowed_in(a0, s0, p.window_start) <= p.count);
                }
            },
        }
    }
}

/// Requests for `key` at each of `times`.
pub open spec fn requests_for(key: Seq<char>, times: Seq<u64>) -> Seq<(Seq<char>, u64)> {
    times.map_values(|t: u64| (key, t))
}

proof fn lemma_single_key_run(v: LimiterView, key: Seq<char>, times: Seq<u64>)
    requires
        v.entries.dom().finite(),
        v.entries.len() < v.max_keys,
    ensures
        within_capacity(v, requests_for(key, times)),
        run_requests(v, requests_for(key, times)).0.entries.dom() == if times.len() == 0 {
            v.entries.dom()
        } else {
            v.entries.dom().insert(key)
        },
        run_requests(v, requests_for(key, times)).0.max_keys == v.max_keys,
    decreases times.len(),
{
    let r = requests_for(key, times);
    if times.len() > 0 {
        let d = times.drop_last();
        lemma_single_key_run(v, key, d);
        assert(r.drop_last() =~= requests_for(key, d));
        let (v1, bs) = run_requests(v, requests_for(key, d));
        assert(v1.entries.dom().finite());
        assert(v1.entries.len() <= v.max_keys) by {
            if d.len() > 0 {
                vstd::set::axiom_set_insert_len(v.entries.dom(), key);
            }
        }
        assert(r.last() == (key, times.last()));
        assert(run_requests(v, r).0.entries.dom() =~= v.entries.dom().insert(key));
    }
}

/// A key not tracked before, while fewer than `max_keys` other keys are
/// tracked, has its first `max_requests` requests within one window of the
/// first allowed and the later ones in that window refused (a budget of
/// `u32::MAX` is never used up).
pub proof fn law_fresh_key_budget(v: LimiterView, key: Seq<char>, times: Seq<u64>)
    requires
        v.entries.dom().finite(),
        v.entries.len() < v.max_keys,
        !v.entries.contains_key(key),
        v.window > 0,
        forall|i: int| 0 <= i < times.len() ==> times[0] <= #[trigger] times[i] && times[i] - times[0] < v.window,
    ensures
        run_requests(v, requests_for(key, times)).1.len() == times.len(),
        forall|i: int|
            0 <= i < times.len() ==> #[trigger] run_requests(v, requests_for(key, times)).1[i] == (i + 1
                <= v.max_requests || v.max_requests == u32::MAX),
{
    let r = requests_for(key, times);
    lemma_single_key_run(v, key, times);
    law_keys_limited_independently(v, r, key);
    law_first_requests_allowed(times, v.window, v.max_requests);
    lemma_single_key_filters(r.len() as int, v, key, times);
}

proof fn lemma_single_key_filters(n: int, v: LimiterView, key: Seq<char>, times: Seq<u64>)
    requires
        n == times.len(),
    ensures
        times_for(requests_for(key, times), key) == times,
        answers_for(requests_for(key, times), run_requests(v, requests_for(key, times)).1, key)
            == run_requests(v, requests_for(key, times)).1,
    decreases n,
{
    let r = requests_for(key, times);
    if n > 0 {
        let d = times.drop_last();
        lemma_single_key_filters(n - 1, v, key, d);
        assert(r.drop_last() =~= requests_for(key, d));
        assert(r.last() == (key, times.last()));
        let bs = run_requests(v, r).1;
        assert(bs.drop_last() =~= run_requests(v, requests_for(key, d)).1);
        assert(times_for(r, key) =~= times);
        assert(answers_for(r, bs, key) =~= bs);
    } else {
        assert(times =~= Seq::<u64>::empty());
        assert(r =~= Seq::<(Seq<char>, u64)>::empty());
    }
}

} // verus!
