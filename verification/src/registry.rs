//! The master's relay registry: registration with a bandwidth floor and a
//! cap on relays per host, heartbeats that move a relay between load bands,
//! administrative state changes, and the counts behind the health checks.
//!
//! Loads are in hundredths of a percent; times are monotonic instants in
//! nanoseconds.

use vstd::prelude::*;
use crate::selection::{RelayState, take_until, before_char, relay_is_assignable, RELAY_FRESHNESS_NS};
use crate::text::{all_ws, trims_to_empty, has_prefix, starts_with, str_equal, string_views};
use crate::auth_flow::ov;

verus! {

/// The least bandwidth a relay must offer, in kbit/s (also the bandwidth
/// assumed when a relay states none).
pub const MIN_RELAY_BITRATE_KBPS: u32 = 10_000;

/// How many registered relays may serve one host.
pub const MAX_RELAYS_PER_HOST: usize = 5;

/// How often relays are asked to send heartbeats, in milliseconds.
pub const RELAY_HEARTBEAT_INTERVAL_MS: u64 = 5_000;

/// The highest load a heartbeat may report: 100 percent.
pub const MAX_LOAD_CENTI: u32 = 10_000;

/// A relay's request to register.
pub struct RelayRegisterRequest {
    pub relay_id: String,
    pub endpoints: Vec<String>,
    pub region: Option<String>,
    pub asn: Option<u32>,
    pub max_bitrate_kbps: Option<u32>,
}

/// Abstract view of [`RelayRegisterRequest`].
pub ghost struct RegisterRequestView {
    pub id: Seq<char>,
    pub endpoints: Seq<Seq<char>>,
    pub region: Option<Seq<char>>,
    pub asn: Option<u32>,
    pub max_bitrate_kbps: Option<u32>,
}

impl RelayRegisterRequest {
    pub open spec fn view(&self) -> RegisterRequestView {
        RegisterRequestView {
            id: self.relay_id@,
            endpoints: string_views(self.endpoints@),
            region: ov(self.region),
            asn: self.asn,
            max_bitrate_kbps: self.max_bitrate_kbps,
        }
    }
}

/// A registered relay.
pub struct RelayRecord {
    pub relay_id: String,
    pub endpoints: Vec<String>,
    pub load_centi: u32,
    pub last_seen: u64,
    pub region: Option<String>,
    pub asn: Option<u32>,
    pub max_bitrate_kbps: u32,
    pub state: RelayState,
}

/// Abstract view of [`RelayRecord`].
pub ghost struct RecordView {
    pub id: Seq<char>,
    pub endpoints: Seq<Seq<char>>,
    pub load_centi: u32,
    pub last_seen: u64,
    pub region: Option<Seq<char>>,
    pub asn: Option<u32>,
    pub max_bitrate_kbps: u32,
    pub state: RelayState,
}

impl RelayRecord {
    pub open spec fn view(&self) -> RecordView {
        RecordView {
            id: self.relay_id@,
            endpoints: string_views(self.endpoints@),
            load_centi: self.load_centi,
            last_seen: self.last_seen,
            region: ov(self.region),
            asn: self.asn,
            max_bitrate_kbps: self.max_bitrate_kbps,
            state: self.state,
        }
    }
}

/// The views of a list of records.
pub open spec fn records_view(v: Seq<RelayRecord>) -> Seq<RecordView> {
    v.map_values(|r: RelayRecord| r@)
}

/// Whether no two records share an id.
pub open spec fn distinct_ids(s: Seq<RecordView>) -> bool {
    forall|i: int, j: int| 0 <= i < s.len() && 0 <= j < s.len() && i != j ==> s[i].id != s[j].id
}

/// Whether some record has this id.
pub open spec fn has_id(s: Seq<RecordView>, id: Seq<char>) -> bool {
    exists|i: int| 0 <= i < s.len() && s[i].id == id
}

/// The position of the record with this id.
pub open spec fn index_of_id(s: Seq<RecordView>, id: Seq<char>) -> int {
    choose|i: int| 0 <= i < s.len() && s[i].id == id
}

/// The records with `r` in place of the record with its id, or added.
pub open spec fn upsert(s: Seq<RecordView>, r: RecordView) -> Seq<RecordView> {
    if has_id(s, r.id) {
        s.update(index_of_id(s, r.id), r)
    } else {
        s.push(r)
    }
}

/// The host of an endpoint: the part before the first ':'.
pub open spec fn host_of(endpoint: Seq<char>) -> Seq<char> {
    take_until(endpoint, ':')
}

/// Whether one of the relay's endpoints begins with `host`.
pub open spec fn serves_host(r: RecordView, host: Seq<char>) -> bool {
    exists|k: int| 0 <= k < r.endpoints.len() && has_prefix(#[trigger] r.endpoints[k], host)
}

/// How many relays have an endpoint beginning with `host`.
pub open spec fn host_count(s: Seq<RecordView>, host: Seq<char>) -> nat
    decreases s.len(),
{
    if s.len() == 0 {
        0
    } else {
        host_count(s.drop_last(), host) + if serves_host(s.last(), host) {
            1nat
        } else {
            0nat
        }
    }
}

/// The outcome of a registration.
#[derive(Debug, Clone, Copy, PartialEq, Eq, Structural)]
pub enum RegisterOutcome {
    /// A blank id or no endpoints.
    BadRequest,
    /// Less bandwidth than the floor.
    BitrateTooLow,
    /// The host of the first endpoint already serves the most relays allowed.
    TooManyForHost,
    Registered,
}

/// The bandwidth a request states, or the floor when it states none.
pub open spec fn requested_bitrate(req: RegisterRequestView) -> u32 {
    match req.max_bitrate_kbps {
        Some(b) => b,
        None => MIN_RELAY_BITRATE_KBPS,
    }
}

/// How the registry answers a registration.
pub open spec fn register_outcome(s: Seq<RecordView>, req: RegisterRequestView) -> RegisterOutcome {
    if all_ws(req.id) || req.endpoints.len() == 0 {
        RegisterOutcome::BadRequest
    } else if requested_bitrate(req) < MIN_RELAY_BITRATE_KBPS {
        RegisterOutcome::BitrateTooLow
    } else if host_count(s, host_of(req.endpoints[0])) >= MAX_RELAYS_PER_HOST {
        RegisterOutcome::TooManyForHost
    } else {
        RegisterOutcome::Registered
    }
}

/// The record a registration makes: unloaded, seen now, in state `New`.
pub open spec fn new_record(req: RegisterRequestView, now: u64) -> RecordView {
    RecordView {
        id: req.id,
        endpoints: req.endpoints,
        load_centi: 0,
        last_seen: now,
        region: req.region,
        asn: req.asn,
        max_bitrate_kbps: requested_bitrate(req),
        state: RelayState::New,
    }
}

/// The records after a registration.
pub open spec fn after_register(s: Seq<RecordView>, req: RegisterRequestView, now: u64) -> Seq<RecordView> {
    if register_outcome(s, req) == RegisterOutcome::Registered {
        upsert(s, new_record(req, now))
    } else {
        s
    }
}

/// The state a heartbeat's load puts a relay in: degraded from 95 percent,
/// on probation from 85 percent, else active.
pub open spec fn load_band(load_centi: u32) -> RelayState {
    if load_centi >= 9500 {
        RelayState::Degraded
    } else if load_centi >= 8500 {
        RelayState::Probation
    } else {
        RelayState::Active
    }
}

/// The outcome of a heartbeat.
#[derive(Debug, Clone, Copy, PartialEq, Eq, Structural)]
pub enum HeartbeatOutcome {
    /// A load above 100 percent or a blank id.
    BadRequest,
    NotFound,
    Accepted,
}

/// How the registry answers a heartbeat.
pub open spec fn heartbeat_outcome(s: Seq<RecordView>, id: Seq<char>, load_centi: u32) -> HeartbeatOutcome {
    if load_centi > MAX_LOAD_CENTI || all_ws(id) {
        HeartbeatOutcome::BadRequest
    } else if !has_id(s, id) {
        HeartbeatOutcome::NotFound
    } else {
        HeartbeatOutcome::Accepted
    }
}

/// A record after a heartbeat: the load and time are taken, and the state
/// follows the load band unless the relay is draining or banned.
pub open spec fn beat(r: RecordView, load_centi: u32, now: u64) -> RecordView {
    RecordView {
        load_centi,
        last_seen: now,
        state: if r.state == RelayState::Draining || r.state == RelayState::Banned {
            r.state
        } else {
            load_band(load_centi)
        },
        ..r
    }
}

/// The records after a heartbeat.
pub open spec fn after_heartbeat(s: Seq<RecordView>, id: Seq<char>, load_centi: u32, now: u64) -> Seq<RecordView> {
    if heartbeat_outcome(s, id, load_centi) == HeartbeatOutcome::Accepted {
        let i = index_of_id(s, id);
        s.update(i, beat(s[i], load_centi, now))
    } else {
        s
    }
}

/// Whether a record may be assigned at `now`.
pub open spec fn assignable(r: RecordView, now: u64) -> bool {
    &&& (if now >= r.last_seen {
        now - r.last_seen
    } else {
        0
    }) <= RELAY_FRESHNESS_NS
    &&& (r.state == RelayState::Active || r.state == RelayState::Probation || r.state
        == RelayState::Degraded || r.state == RelayState::New)
}

/// How many records may be assigned at `now`.
pub open spec fn assignable_count(s: Seq<RecordView>, now: u64) -> nat
    decreases s.len(),
{
    if s.len() == 0 {
        0
    } else {
        assignable_count(s.drop_last(), now) + if assignable(s.last(), now) {
            1nat
        } else {
            0nat
        }
    }
}

/// The registered relays.
pub struct RelayRegistry {
    pub relays: Vec<RelayRecord>,
}

/// One relay as the registry lists it.
pub struct RelayListing {
    pub relay_id: String,
    pub endpoints: Vec<String>,
    pub load_centi: u32,
    /// Milliseconds since the last heartbeat.
    pub last_seen_ms_ago: u64,
    pub max_bitrate_kbps: u32,
    pub state: RelayState,
}

/// Whether a listing shows a record at `now`.
pub open spec fn lists(l: RelayListing, r: RecordView, now: u64) -> bool {
    &&& l.relay_id@ == r.id
    &&& string_views(l.endpoints@) == r.endpoints
    &&& l.load_centi == r.load_centi
    &&& l.last_seen_ms_ago == (if now >= r.last_seen {
        now - r.last_seen
    } else {
        0
    }) / 1_000_000
    &&& l.max_bitrate_kbps == r.max_bitrate_kbps
    &&& l.state == r.state
}

/// A copy of a list of strings.
fn copy_strings(v: &Vec<String>) -> (r: Vec<String>)
    ensures
        string_views(r@) == string_views(v@),
{
    let mut r: Vec<String> = Vec::new();
    let mut i: usize = 0;
    while i < v.len()
        invariant
            i <= v.len(),
            r@.len() == i,
            forall|k: int| 0 <= k < i ==> (#[trigger] r@[k])@ == v@[k]@,
        decreases v.len() - i,
    {
        let c = v[i].clone();
        r.push(c);
        i = i + 1;
    }
    proof {
        assert forall|k: int| 0 <= k < r@.len() implies string_views(r@)[k] == string_views(v@)[k] by {
            assert(r@[k]@ == v@[k]@);
        }
        assert(string_views(r@) =~= string_views(v@));
    }
    r
}

/// Whether one of `r`'s endpoints begins with `host`.
fn record_serves(r: &RelayRecord, host: &str) -> (b: bool)
    ensures
        b == serves_host(r@, host@),
{
    let mut j: usize = 0;
    while j < r.endpoints.len()
        invariant
            j <= r.endpoints@.len(),
            forall|k: int| 0 <= k < j ==> !has_prefix(#[trigger] r@.endpoints[k], host@),
        decreases r.endpoints.len() - j,
    {
        if starts_with(r.endpoints[j].as_str(), host) {
            assert(has_prefix(r@.endpoints[j as int], host@));
            return true;
        }
        j = j + 1;
    }
    false
}

/// How long a relay may go unheard before it is quarantined, in
/// nanoseconds (two minutes).
pub const QUARANTINE_AFTER_NS: u64 = 120_000_000_000;

/// How long a relay may go unheard before it is forgotten, in nanoseconds
/// (ten minutes).
pub const PURGE_AFTER_NS: u64 = 600_000_000_000;

/// Time since a relay was last heard from at `now` (zero if `now` is
/// earlier).
pub open spec fn unheard_for(r: RecordView, now: u64) -> int {
    if now >= r.last_seen {
        now - r.last_seen
    } else {
        0
    }
}

/// A record after the sweep at `now`: quarantined when unheard for more
/// than two minutes, unless draining or banned.
pub open spec fn swept_record(r: RecordView, now: u64) -> RecordView {
    if unheard_for(r, now) > QUARANTINE_AFTER_NS && !(r.state == RelayState::Draining || r.state
        == RelayState::Banned) {
        RecordView { state: RelayState::Quarantined, ..r }
    } else {
        r
    }
}

/// The registry after the periodic sweep at `now`: relays unheard for more
/// than ten minutes are forgotten, and the others swept in order.
pub open spec fn registry_sweep(s: Seq<RecordView>, now: u64) -> Seq<RecordView>
    decreases s.len(),
{
    if s.len() == 0 {
        s
    } else if unheard_for(s.last(), now) <= PURGE_AFTER_NS {
        registry_sweep(s.drop_last(), now).push(swept_record(s.last(), now))
    } else {
        registry_sweep(s.drop_last(), now)
    }
}

/// After a sweep no relay has gone unheard for more than ten minutes, and
/// none unheard for more than two can be offered: it is quarantined,
/// draining or banned.
pub proof fn law_sweep_quarantines_stale(s: Seq<RecordView>, now: u64)
    ensures
        forall|i: int|
            0 <= i < registry_sweep(s, now).len() ==> unheard_for(#[trigger] registry_sweep(s, now)[i], now)
                <= PURGE_AFTER_NS && (unheard_for(registry_sweep(s, now)[i], now) > QUARANTINE_AFTER_NS ==> (
                registry_sweep(s, now)[i].state == RelayState::Quarantined || registry_sweep(s, now)[i].state
                == RelayState::Draining || registry_sweep(s, now)[i].state == RelayState::Banned)),
    decreases s.len(),
{
    if s.len() > 0 {
        law_sweep_quarantines_stale(s.drop_last(), now);
        let p = registry_sweep(s.drop_last(), now);
        let q = registry_sweep(s, now);
        assert forall|i: int| 0 <= i < q.len() implies unheard_for(#[trigger] q[i], now) <= PURGE_AFTER_NS && (
            unheard_for(q[i], now) > QUARANTINE_AFTER_NS ==> (q[i].state == RelayState::Quarantined
                || q[i].state == RelayState::Draining || q[i].state == RelayState::Banned)) by {
            if i < p.len() {
                assert(q[i] == p[i]);
            }
        }
    }
}

proof fn lemma_registry_sweep_ids(s: Seq<RecordView>, now: u64)
    ensures
        forall|id: Seq<char>| has_id(registry_sweep(s, now), id) ==> has_id(s, id),
        distinct_ids(s) ==> distinct_ids(registry_sweep(s, now)),
    decreases s.len(),
{
    if s.len() > 0 {
        let d = s.drop_last();
        lemma_registry_sweep_ids(d, now);
        let p = registry_sweep(d, now);
        let q = registry_sweep(s, now);
        assert forall|id: Seq<char>| has_id(q, id) implies has_id(s, id) by {
            let j = choose|j: int| 0 <= j < q.len() && q[j].id == id;
            if j < p.len() {
                assert(p[j] == q[j]);
                assert(has_id(p, id));
                assert(has_id(d, id));
                assert(exists|i: int| 0 <= i < d.len() && d[i].id == id);
                let i = choose|i: int| 0 <= i < d.len() && d[i].id == id;
                assert(s[i] == d[i]);
            } else {
                assert(s[s.len() - 1].id == id);
            }
        }
        if distinct_ids(s) {
            assert(distinct_ids(d)) by {
                assert forall|i: int, j: int| 0 <= i < d.len() && 0 <= j < d.len() && i != j implies d[i].id != d[j].id by {
                    assert(s[i] == d[i] && s[j] == d[j]);
                }
            }
            assert forall|i: int, j: int| 0 <= i < q.len() && 0 <= j < q.len() && i != j implies q[i].id != q[j].id by {
                if i < p.len() && j < p.len() {
                    assert(q[i] == p[i] && q[j] == p[j]);
                } else if i < p.len() || j < p.len() {
                    let a = if i < p.len() { i } else { j };
                    assert(q[a] == p[a]);
                    if q[a].id == s.last().id {
                        assert(has_id(p, s.last().id));
                        assert(has_id(d, s.last().id));
                        assert(exists|k: int| 0 <= k < d.len() && d[k].id == s.last().id);
                        let k = choose|k: int| 0 <= k < d.len() && d[k].id == s.last().id;
                        assert(s[k] == d[k]);
                        assert(s[k].id == s[s.len() - 1].id);
                    }
                }
            }
        }
    }
}

impl RelayRegistry {
    pub open spec fn view(&self) -> Seq<RecordView> {
        records_view(self.relays@)
    }

    /// No two relays share an id.
    pub open spec fn wf(&self) -> bool {
        distinct_ids(self@)
    }

    /// An empty registry.
    pub fn new() -> (r: Self)
        ensures
            r.wf(),
            r@ == Seq::<RecordView>::empty(),
    {
        let r = RelayRegistry { relays: Vec::new() };
        assert(r@ =~= Seq::<RecordView>::empty());
        r
    }

    /// The periodic sweep at `now` (every 30 s): relays unheard for more
    /// than two minutes are quarantined unless draining or banned, and
    /// relays unheard for more than ten minutes are forgotten.
    pub fn sweep(&mut self, now: u64)
        requires
            old(self).wf(),
        ensures
            final(self).wf(),
            final(self)@ == registry_sweep(old(self)@, now),
    {
        let ghost orig = self@;
        let mut old_relays: Vec<RelayRecord> = Vec::new();
        std::mem::swap(&mut old_relays, &mut self.relays);
        let n = old_relays.len();
        let mut kept: Vec<RelayRecord> = Vec::new();
        let mut i: usize = 0;
        while i < n
            invariant
                i <= n,
                n == old_relays@.len(),
                orig.len() == n,
                forall|j: int| i <= j < n ==> #[trigger] old_relays@[j]@ == orig[j],
                records_view(kept@) == registry_sweep(orig.subrange(0, i as int), now),
            decreases n - i,
        {
            let mut r = RelayRecord {
                relay_id: String::new(),
                endpoints: Vec::new(),
                load_centi: 0,
                last_seen: 0,
                region: None,
                asn: None,
                max_bitrate_kbps: 0,
                state: RelayState::New,
            };
            old_relays.set_and_swap(i, &mut r);
            proof {
                let t = orig.subrange(0, i + 1);
                assert(t.drop_last() =~= orig.subrange(0, i as int));
                assert(t.last() == orig[i as int]);
                assert(r@ == orig[i as int]);
            }
            let ghost kv = records_view(kept@);
            let age = now.saturating_sub(r.last_seen);
            if age <= PURGE_AFTER_NS {
                if age > QUARANTINE_AFTER_NS && !(r.state == RelayState::Draining || r.state
                    == RelayState::Banned) {
                    r.state = RelayState::Quarantined;
                }
                let ghost rv = r@;
                kept.push(r);
                proof {
                    assert(records_view(kept@) =~= kv.push(rv));
                }
            }
            i = i + 1;
        }
        proof {
            assert(orig.subrange(0, n as int) =~= orig);
            lemma_registry_sweep_ids(orig, now);
        }
        self.relays = kept;
    }

    /// The number of registered relays.
    pub fn len(&self) -> (n: usize)
        ensures
            n == self@.len(),
    {
        self.relays.len()
    }

    /// The position of the relay with this id.
    pub fn find(&self, id: &str) -> (r: Option<usize>)
        requires
            self.wf(),
        ensures
            match r {
                Some(i) => i < self@.len() && self@[i as int].id == id@ && index_of_id(self@, id@) == i,
                None => !has_id(self@, id@),
            },
    {
        let mut i: usize = 0;
        while i < self.relays.len()
            invariant
                self.wf(),
                i <= self@.len(),
                forall|k: int| 0 <= k < i ==> #[trigger] self@[k].id != id@,
            decreases self.relays.len() - i,
        {
            if str_equal(self.relays[i].relay_id.as_str(), id) {
                proof {
                    assert(self@[i as int].id == id@);
                    let j = index_of_id(self@, id@);
                    assert(0 <= j < self@.len() && self@[j].id == id@);
                    assert(distinct_ids(self@));
                    if j != i {
                        assert(self@[j].id != self@[i as int].id);
                    }
                }
                return Some(i);
            }
            i = i + 1;
        }
        None
    }

    /// How many relays have an endpoint beginning with `host`.
    pub fn count_host(&self, host: &str) -> (n: usize)
        ensures
            n == host_count(self@, host@),
    {
        let mut n: usize = 0;
        let mut i: usize = 0;
        while i < self.relays.len()
            invariant
                i <= self@.len(),
                n <= i,
                n == host_count(self@.subrange(0, i as int), host@),
            decreases self.relays.len() - i,
        {
            let serves = record_serves(&self.relays[i], host);
            proof {
                let t = self@.subrange(0, i + 1);
                assert(t.drop_last() =~= self@.subrange(0, i as int));
                assert(t.last() == self@[i as int]);
            }
            if serves {
                n = n + 1;
            }
            i = i + 1;
        }
        proof {
            assert(self@.subrange(0, self@.len() as int) =~= self@);
        }
        n
    }

    /// Registers a relay, replacing an earlier registration with its id.
    pub fn register(&mut self, req: RelayRegisterRequest, now: u64) -> (o: RegisterOutcome)
        requires
            old(self).wf(),
        ensures
            final(self).wf(),
            o == register_outcome(old(self)@, req@),
            final(self)@ == after_register(old(self)@, req@, now),
    {
        if trims_to_empty(req.relay_id.as_str()) || req.endpoints.len() == 0 {
            return RegisterOutcome::BadRequest;
        }
        let bitrate = match req.max_bitrate_kbps {
            Some(b) => b,
            None => MIN_RELAY_BITRATE_KBPS,
        };
        if bitrate < MIN_RELAY_BITRATE_KBPS {
            return RegisterOutcome::BitrateTooLow;
        }
        let host = before_char(req.endpoints[0].as_str(), ':');
        if self.count_host(host.as_str()) >= MAX_RELAYS_PER_HOST {
            return RegisterOutcome::TooManyForHost;
        }
        let ghost rv = req@;
        let found = self.find(req.relay_id.as_str());
        let record = RelayRecord {
            relay_id: req.relay_id,
            endpoints: req.endpoints,
            load_centi: 0,
            last_seen: now,
            region: req.region,
            asn: req.asn,
            max_bitrate_kbps: bitrate,
            state: RelayState::New,
        };
        assert(record@ == new_record(rv, now));
        let ghost before = self@;
        match found {
            Some(i) => {
                self.relays.set(i, record);
                assert(self@ =~= before.update(i as int, new_record(rv, now)));
            },
            None => {
                self.relays.push(record);
                assert(self@ =~= before.push(new_record(rv, now)));
            },
        }
        RegisterOutcome::Registered
    }

    /// Takes a heartbeat: the relay's load and time, and its load band
    /// unless it is draining or banned.
    pub fn heartbeat(&mut self, relay_id: &str, load_centi: u32, now: u64) -> (o: HeartbeatOutcome)
        requires
            old(self).wf(),
        ensures
            final(self).wf(),
            o == heartbeat_outcome(old(self)@, relay_id@, load_centi),
            final(self)@ == after_heartbeat(old(self)@, relay_id@, load_centi, now),
    {
        if load_centi > MAX_LOAD_CENTI || trims_to_empty(relay_id) {
            return HeartbeatOutcome::BadRequest;
        }
        let i = match self.find(relay_id) {
            None => return HeartbeatOutcome::NotFound,
            Some(i) => i,
        };
        let ghost before = self@;
        let keep = self.relays[i].state == RelayState::Draining || self.relays[i].state
            == RelayState::Banned;
        let new_state = if keep {
            self.relays[i].state
        } else if load_centi >= 9500 {
            RelayState::Degraded
        } else if load_centi >= 8500 {
            RelayState::Probation
        } else {
            RelayState::Active
        };
        let r = &mut self.relays[i];
        r.load_centi = load_centi;
        r.last_seen = now;
        r.state = new_state;
        proof {
            assert(self@ =~= before.update(i as int, beat(before[i as int], load_centi, now)));
        }
        HeartbeatOutcome::Accepted
    }

    /// Sets a relay's state (an administrator's decision); false when no
    /// relay has the id.
    pub fn update_state(&mut self, relay_id: &str, state: RelayState) -> (found: bool)
        requires
            old(self).wf(),
        ensures
            final(self).wf(),
            found == has_id(old(self)@, relay_id@),
            final(self)@ == (if found {
                old(self)@.update(
                    index_of_id(old(self)@, relay_id@),
                    RecordView { state, ..old(self)@[index_of_id(old(self)@, relay_id@)] },
                )
            } else {
                old(self)@
            }),
    {
        match self.find(relay_id) {
            None => false,
            Some(i) => {
                let ghost before = self@;
                let r = &mut self.relays[i];
                r.state = state;
                proof {
                    assert(self@ =~= before.update(i as int, RecordView { state, ..before[i as int] }));
                }
                true
            },
        }
    }

    /// How many relays may be assigned at `now`.
    pub fn count_assignable(&self, now: u64) -> (n: usize)
        ensures
            n == assignable_count(self@, now),
    {
        let mut n: usize = 0;
        let mut i: usize = 0;
        while i < self.relays.len()
            invariant
                i <= self@.len(),
                n <= i,
                n == assignable_count(self@.subrange(0, i as int), now),
            decreases self.relays.len() - i,
        {
            let ok = relay_is_assignable(self.relays[i].state, self.relays[i].last_seen, now);
            proof {
                let t = self@.subrange(0, i + 1);
                assert(t.drop_last() =~= self@.subrange(0, i as int));
                assert(t.last() == self@[i as int]);
            }
            if ok {
                n = n + 1;
            }
            i = i + 1;
        }
        proof {
            assert(self@.subrange(0, self@.len() as int) =~= self@);
        }
        n
    }

    /// Whether the master is ready: its signing key was provisioned and some
    /// relay may be assigned.
    pub fn is_ready(&self, provisioned_signing_key: bool, now: u64) -> (b: bool)
        ensures
            b == (provisioned_signing_key && assignable_count(self@, now) > 0),
    {
        provisioned_signing_key && self.count_assignable(now) > 0
    }

    /// Every relay as listed at `now`, in registry order.
    pub fn list(&self, now: u64) -> (r: Vec<RelayListing>)
        ensures
            r@.len() == self@.len(),
            forall|i: int| 0 <= i < r@.len() ==> lists(#[trigger] r@[i], self@[i], now),
    {
        let mut out: Vec<RelayListing> = Vec::new();
        let mut i: usize = 0;
        while i < self.relays.len()
            invariant
                i <= self@.len(),
                out@.len() == i,
                forall|k: int| 0 <= k < i ==> lists(#[trigger] out@[k], self@[k], now),
            decreases self.relays.len() - i,
        {
            let rec = &self.relays[i];
            let ago = now.saturating_sub(rec.last_seen) / 1_000_000;
            out.push(
                RelayListing {
                    relay_id: rec.relay_id.clone(),
                    endpoints: copy_strings(&rec.endpoints),
                    load_centi: rec.load_centi,
                    last_seen_ms_ago: ago,
                    max_bitrate_kbps: rec.max_bitrate_kbps,
                    state: rec.state,
                },
            );
            i = i + 1;
        }
        out
    }
}

proof fn lemma_upsert(s: Seq<RecordView>, r: RecordView)
    requires
        distinct_ids(s),
    ensures
        distinct_ids(upsert(s, r)),
        has_id(upsert(s, r), r.id),
        upsert(s, r)[index_of_id(upsert(s, r), r.id)] == r,
        forall|id: Seq<char>| id != r.id ==> (has_id(upsert(s, r), id) == has_id(s, id)),
{
    let u = upsert(s, r);
    let p = if has_id(s, r.id) {
        index_of_id(s, r.id)
    } else {
        s.len() as int
    };
    assert(0 <= p < u.len() && u[p] == r);
    assert(has_id(u, r.id));
    let j = index_of_id(u, r.id);
    assert(0 <= j < u.len() && u[j].id == r.id);
    assert(distinct_ids(u));
    assert(j == p);
    assert forall|id: Seq<char>| id != r.id implies (has_id(u, id) == has_id(s, id)) by {
        if has_id(s, id) {
            let k = choose|k: int| 0 <= k < s.len() && s[k].id == id;
            assert(u[k].id == id);
        }
        if has_id(u, id) {
            let k = choose|k: int| 0 <= k < u.len() && u[k].id == id;
            assert(k != p);
            assert(s[k].id == id);
        }
    }
}

/// A successful registration leaves the relay registered, as a new,
/// unloaded relay seen at that moment, and touches no other id.
pub proof fn law_registered_relay_is_listed(s: Seq<RecordView>, req: RegisterRequestView, now: u64)
    requires
        distinct_ids(s),
        register_outcome(s, req) == RegisterOutcome::Registered,
    ensures
        ({
            let t = after_register(s, req, now);
            &&& distinct_ids(t)
            &&& has_id(t, req.id)
            &&& t[index_of_id(t, req.id)] == new_record(req, now)
            &&& t[index_of_id(t, req.id)].state == RelayState::New
            &&& forall|id: Seq<char>| id != req.id ==> (has_id(t, id) == has_id(s, id))
        }),
{
    lemma_upsert(s, new_record(req, now));
}

proof fn lemma_host_count_update(s: Seq<RecordView>, i: int, r: RecordView, h: Seq<char>)
    requires
        0 <= i < s.len(),
    ensures
        host_count(s.update(i, r), h) <= host_count(s, h) + 1,
    decreases s.len(),
{
    let u = s.update(i, r);
    if i == s.len() - 1 {
        assert(u.drop_last() =~= s.drop_last());
    } else {
        assert(u.drop_last() =~= s.drop_last().update(i, r));
        assert(u.last() == s.last());
        lemma_host_count_update(s.drop_last(), i, r, h);
    }
}

/// After a successful registration the host of its first endpoint serves at
/// most five relays: a registration that would go beyond is refused.
pub proof fn law_host_cap_after_registration(s: Seq<RecordView>, req: RegisterRequestView, now: u64)
    requires
        register_outcome(s, req) == RegisterOutcome::Registered,
    ensures
        host_count(after_register(s, req, now), host_of(req.endpoints[0])) <= MAX_RELAYS_PER_HOST,
{
    let h = host_of(req.endpoints[0]);
    let r = new_record(req, now);
    if has_id(s, r.id) {
        lemma_host_count_update(s, index_of_id(s, r.id), r, h);
    } else {
        assert(s.push(r).drop_last() =~= s);
    }
}

/// A heartbeat never lifts a drain or a ban: a draining or banned relay
/// stays so, whatever load it reports.
pub proof fn law_heartbeat_keeps_drain_and_ban(
    s: Seq<RecordView>,
    id: Seq<char>,
    load_centi: u32,
    now: u64,
    k: int,
)
    requires
        0 <= k < s.len(),
        s[k].state == RelayState::Draining || s[k].state == RelayState::Banned,
    ensures
        after_heartbeat(s, id, load_centi, now)[k].state == s[k].state,
{
}

/// An accepted heartbeat makes a relay that is not draining or banned
/// assignable at that moment, in the band of its load.
pub proof fn law_heartbeat_makes_assignable(s: Seq<RecordView>, id: Seq<char>, load_centi: u32, now: u64)
    requires
        distinct_ids(s),
        heartbeat_outcome(s, id, load_centi) == HeartbeatOutcome::Accepted,
        s[index_of_id(s, id)].state != RelayState::Draining,
        s[index_of_id(s, id)].state != RelayState::Banned,
    ensures
        ({
            let t = after_heartbeat(s, id, load_centi, now);
            let i = index_of_id(s, id);
            &&& t[i].id == id
            &&& t[i].state == load_band(load_centi)
            &&& assignable(t[i], now)
        }),
{
    let i = index_of_id(s, id);
    assert(0 <= i < s.len() && s[i].id == id);
}

/// How many leases one user may be issued within a window.
pub const LEASE_LIMIT_PER_WINDOW: usize = 10;

/// The window of the lease quota: one minute, in nanoseconds.
pub const LEASE_WINDOW_NS: u64 = 60_000_000_000;

/// Whether a lease issued at `t` still counts at `now` (a clock reading
/// before `t` counts as no time passed).
pub open spec fn in_window(t: u64, now: u64) -> bool {
    (if now >= t {
        now - t
    } else {
        0
    }) < LEASE_WINDOW_NS
}

/// The issue times that still count at `now`, in order.
pub open spec fn recent(times: Seq<u64>, now: u64) -> Seq<u64>
    decreases times.len(),
{
    if times.len() == 0 {
        times
    } else if in_window(times.last(), now) {
        recent(times.drop_last(), now).push(times.last())
    } else {
        recent(times.drop_last(), now)
    }
}

/// The lease issue times of each user, for the per-user quota.
pub struct LeaseQuota {
    pub users: Vec<(String, Vec<u64>)>,
}

/// Abstract view of one user's entry.
pub open spec fn quota_entry_view(e: (String, Vec<u64>)) -> (Seq<char>, Seq<u64>) {
    (e.0@, e.1@)
}

/// The times recorded for a user (none when the user has no entry).
pub open spec fn times_of(users: Seq<(Seq<char>, Seq<u64>)>, user: Seq<char>) -> Seq<u64> {
    if exists|i: int| 0 <= i < users.len() && users[i].0 == user {
        users[choose|i: int| 0 <= i < users.len() && users[i].0 == user].1
    } else {
        Seq::empty()
    }
}

/// Whether no two entries are for one user.
pub open spec fn distinct_users(users: Seq<(Seq<char>, Seq<u64>)>) -> bool {
    forall|i: int, j: int| 0 <= i < users.len() && 0 <= j < users.len() && i != j ==> users[i].0 != users[j].0
}

/// The times kept for a user after a request at `now`: those still in the
/// window, and `now` when the request is granted.
pub open spec fn times_after(times: Seq<u64>, now: u64) -> Seq<u64> {
    if recent(times, now).len() < LEASE_LIMIT_PER_WINDOW {
        recent(times, now).push(now)
    } else {
        recent(times, now)
    }
}

fn keep_recent(times: &Vec<u64>, now: u64) -> (r: Vec<u64>)
    ensures
        r@ == recent(times@, now),
{
    let mut r: Vec<u64> = Vec::new();
    let mut i: usize = 0;
    while i < times.len()
        invariant
            i <= times@.len(),
            r@ == recent(times@.subrange(0, i as int), now),
        decreases times.len() - i,
    {
        proof {
            let t = times@.subrange(0, i + 1);
            assert(t.drop_last() =~= times@.subrange(0, i as int));
            assert(t.last() == times@[i as int]);
        }
        if now.saturating_sub(times[i]) < LEASE_WINDOW_NS {
            r.push(times[i]);
        }
        i = i + 1;
    }
    proof {
        assert(times@.subrange(0, times@.len() as int) =~= times@);
    }
    r
}

proof fn lemma_recent_len(times: Seq<u64>, now: u64)
    ensures
        recent(times, now).len() <= times.len(),
    decreases times.len(),
{
    if times.len() > 0 {
        lemma_recent_len(times.drop_last(), now);
    }
}

impl LeaseQuota {
    pub open spec fn view(&self) -> Seq<(Seq<char>, Seq<u64>)> {
        self.users@.map_values(|e: (String, Vec<u64>)| quota_entry_view(e))
    }

    pub open spec fn wf(&self) -> bool {
        distinct_users(self@)
    }

    /// A quota with no issued leases.
    pub fn new() -> (q: Self)
        ensures
            q.wf(),
            q@ == Seq::<(Seq<char>, Seq<u64>)>::empty(),
    {
        let q = LeaseQuota { users: Vec::new() };
        assert(q@ =~= Seq::<(Seq<char>, Seq<u64>)>::empty());
        q
    }

    /// Whether `user` may be issued a lease at `now`; a granted request is
    /// recorded. Times that left the window are dropped either way.
    pub fn check(&mut self, user: &str, now: u64) -> (granted: bool)
        requires
            old(self).wf(),
        ensures
            final(self).wf(),
            granted == (recent(times_of(old(self)@, user@), now).len() < LEASE_LIMIT_PER_WINDOW),
            times_of(final(self)@, user@) == times_after(times_of(old(self)@, user@), now),
            forall|other: Seq<char>| other != user@ ==> times_of(final(self)@, other) == times_of(old(self)@, other),
    {
        let ghost before = self@;
        let mut i: usize = 0;
        while i < self.users.len()
            invariant
                self@ == before,
                self.wf(),
                i <= self@.len(),
                forall|k: int| 0 <= k < i ==> #[trigger] self@[k].0 != user@,
            ensures
                self@ == before,
                self.wf(),
                i <= self@.len(),
                forall|k: int| 0 <= k < i ==> #[trigger] self@[k].0 != user@,
                i < self@.len() ==> self@[i as int].0 == user@,
            decreases self.users.len() - i,
        {
            if str_equal(self.users[i].0.as_str(), user) {
                break;
            }
            i = i + 1;
        }
        let times: Vec<u64> = if i < self.users.len() {
            self.users[i].1.clone()
        } else {
            Vec::new()
        };
        proof {
            if i < self@.len() {
                assert(self@[i as int].0 == user@);
                let j = choose|j: int| 0 <= j < self@.len() && self@[j].0 == user@;
                assert(j == i);
                assert(times@ == times_of(before, user@));
            } else {
                assert(times@ =~= times_of(before, user@));
            }
        }
        let mut kept = keep_recent(&times, now);
        proof {
            lemma_recent_len(times@, now);
        }
        let granted = kept.len() < LEASE_LIMIT_PER_WINDOW;
        if granted {
            kept.push(now);
        }
        let ghost kv = kept@;
        assert(kv == times_after(times_of(before, user@), now));
        let name = crate::text::to_owned_string(user);
        if i < self.users.len() {
            self.users.set(i, (name, kept));
            proof {
                assert(self@ =~= before.update(i as int, (user@, kv)));
            }
        } else {
            self.users.push((name, kept));
            proof {
                assert(self@ =~= before.push((user@, kv)));
            }
        }
        proof {
            let p = if i < before.len() {
                i as int
            } else {
                before.len() as int
            };
            assert(self@[p] == (user@, kv));
            assert forall|a: int, b: int| 0 <= a < self@.len() && 0 <= b < self@.len() && a != b
                implies self@[a].0 != self@[b].0 by {
                if a != p && b != p {
                    assert(before[a] == self@[a] && before[b] == self@[b]);
                }
            }
            let j = choose|j: int| 0 <= j < self@.len() && self@[j].0 == user@;
            assert(self@[j].0 == user@);
            assert(j == p);
            assert forall|other: Seq<char>| other != user@ implies times_of(self@, other) == times_of(before, other) by {
                if exists|k: int| 0 <= k < before.len() && before[k].0 == other {
                    let k = choose|k: int| 0 <= k < before.len() && before[k].0 == other;
                    assert(self@[k].0 == other);
                    let k2 = choose|k2: int| 0 <= k2 < self@.len() && self@[k2].0 == other;
                    assert(k2 == k);
                }
                if exists|k: int| 0 <= k < self@.len() && self@[k].0 == other {
                    let k = choose|k: int| 0 <= k < self@.len() && self@[k].0 == other;
                    assert(k != p);
                    assert(before[k].0 == other);
                }
            }
        }
        granted
    }
}

/// A user is never granted more leases than the quota within one window:
/// after any request, at most ten of the user's times are recorded.
pub proof fn law_lease_quota_bounded(times: Seq<u64>, now: u64)
    requires
        times.len() <= LEASE_LIMIT_PER_WINDOW,
    ensures
        times_after(times, now).len() <= LEASE_LIMIT_PER_WINDOW,
        recent(times_after(times, now), now).len() <= LEASE_LIMIT_PER_WINDOW,
{
    lemma_recent_len(times, now);
    lemma_recent_len(times_after(times, now), now);
}

} // verus!
