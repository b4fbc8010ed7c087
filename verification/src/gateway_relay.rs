//! The gateway's built-in relay: signaling opens sessions under random
//! tokens, lease presentations bind each session's host and client
//! addresses, a bound pair gets a route each way, and forwarded packets are
//! checked against their route, their session and a per-second byte budget.
//!
//! Times are monotonic instants in nanoseconds.

use vstd::prelude::*;
use vstd::utf8::{valid_utf8, decode_utf8, encode_utf8};
use crate::relay_session::{PeerAddr, PeerRole};
use crate::security::valid_session_token;
use crate::text::str_equal;

verus! {

/// Bytes a session may forward per second.
pub const BANDWIDTH_LIMIT_BYTES_PER_SEC: usize = 512_000;

/// How long a route lives without traffic (two minutes).
pub const ROUTE_IDLE_TIMEOUT_NS: u64 = 120_000_000_000;

/// The lifetime a lease acknowledgement grants, in seconds.
pub const DEFAULT_LEASE_TTL_SECS: u64 = 300;

/// The period of the byte budget (one second).
pub const BUDGET_PERIOD_NS: u64 = 1_000_000_000;

/// A relayed session between a host and a client.
pub struct RelaySession {
    pub host_email: String,
    pub client_email: String,
    pub session_id: u128,
    pub host_addr: Option<PeerAddr>,
    pub client_addr: Option<PeerAddr>,
    pub created_at: u64,
    /// Bytes forwarded in the current budget period.
    pub bytes_sent: usize,
    /// Start of the current budget period.
    pub last_tick: u64,
}

/// Abstract view of [`RelaySession`].
pub ghost struct SessionView {
    pub host_email: Seq<char>,
    pub client_email: Seq<char>,
    pub session_id: u128,
    pub host_addr: Option<PeerAddr>,
    pub client_addr: Option<PeerAddr>,
    pub created_at: u64,
    pub bytes_sent: usize,
    pub last_tick: u64,
}

impl RelaySession {
    pub open spec fn view(&self) -> SessionView {
        SessionView {
            host_email: self.host_email@,
            client_email: self.client_email@,
            session_id: self.session_id,
            host_addr: self.host_addr,
            client_addr: self.client_addr,
            created_at: self.created_at,
            bytes_sent: self.bytes_sent,
            last_tick: self.last_tick,
        }
    }
}

/// Which side of a session a route carries packets from.
#[derive(Debug, Clone, Copy, PartialEq, Eq, Structural)]
pub enum RouteSide {
    Host,
    Client,
}

/// Where packets from one address go.
pub struct RouteEntry {
    pub src: PeerAddr,
    pub token: String,
    pub session_id: u128,
    pub side: RouteSide,
    pub dest: PeerAddr,
    pub last_seen: u64,
}

/// Abstract view of [`RouteEntry`].
pub ghost struct RouteView {
    pub src: PeerAddr,
    pub token: Seq<char>,
    pub session_id: u128,
    pub side: RouteSide,
    pub dest: PeerAddr,
    pub last_seen: u64,
}

impl RouteEntry {
    pub open spec fn view(&self) -> RouteView {
        RouteView {
            src: self.src,
            token: self.token@,
            session_id: self.session_id,
            side: self.side,
            dest: self.dest,
            last_seen: self.last_seen,
        }
    }
}

/// Sessions by token.
pub type SessionsView = Seq<(Seq<char>, SessionView)>;

/// Whether a session has this token.
pub open spec fn has_token(s: SessionsView, t: Seq<char>) -> bool {
    exists|i: int| 0 <= i < s.len() && s[i].0 == t
}

/// The position of the session with this token.
pub open spec fn token_index(s: SessionsView, t: Seq<char>) -> int {
    choose|i: int| 0 <= i < s.len() && s[i].0 == t
}

/// No two sessions share a token.
pub open spec fn distinct_tokens(s: SessionsView) -> bool {
    forall|i: int, j: int| 0 <= i < s.len() && 0 <= j < s.len() && i != j ==> s[i].0 != s[j].0
}

/// Whether a route starts at this address.
pub open spec fn has_route(r: Seq<RouteView>, src: PeerAddr) -> bool {
    exists|i: int| 0 <= i < r.len() && r[i].src == src
}

/// The position of the route from this address.
pub open spec fn route_index(r: Seq<RouteView>, src: PeerAddr) -> int {
    choose|i: int| 0 <= i < r.len() && r[i].src == src
}

/// No two routes start at one address.
pub open spec fn distinct_sources(r: Seq<RouteView>) -> bool {
    forall|i: int, j: int| 0 <= i < r.len() && 0 <= j < r.len() && i != j ==> r[i].src != r[j].src
}

/// The routes with `e` in place of the route from its address, or added.
pub open spec fn route_upsert(r: Seq<RouteView>, e: RouteView) -> Seq<RouteView> {
    if has_route(r, e.src) {
        r.update(route_index(r, e.src), e)
    } else {
        r.push(e)
    }
}

/// A slot after a peer at `src` asks for it: an empty slot takes the
/// address; a taken one is kept, and counts as bound only to its own
/// address.
pub open spec fn bind_slot(slot: Option<PeerAddr>, src: PeerAddr) -> (Option<PeerAddr>, bool) {
    match slot {
        None => (Some(src), true),
        Some(a) => (slot, a == src),
    }
}

/// A session after a peer at `src` presents a lease for `role`, and whether
/// the peer got a slot: its own role's slot, or else the other one while
/// that is still empty.
pub open spec fn bound_session(sess: SessionView, role: PeerRole, src: PeerAddr) -> (SessionView, bool) {
    match role {
        PeerRole::Server => {
            let (h, hb) = bind_slot(sess.host_addr, src);
            if !hb && sess.client_addr is None {
                (SessionView { client_addr: Some(src), ..sess }, true)
            } else {
                (SessionView { host_addr: h, ..sess }, hb)
            }
        },
        PeerRole::Client => {
            let (c, cb) = bind_slot(sess.client_addr, src);
            if !cb && sess.host_addr is None {
                (SessionView { host_addr: Some(src), ..sess }, true)
            } else {
                (SessionView { client_addr: c, ..sess }, cb)
            }
        },
    }
}

/// The token a lease carries, if its bytes are UTF-8 text that is a
/// well-formed session token.
pub open spec fn presented_token(bytes: Seq<u8>) -> Option<Seq<char>> {
    if valid_utf8(bytes) && valid_session_token(decode_utf8(bytes)) {
        Some(decode_utf8(bytes))
    } else {
        None
    }
}

/// Why a lease was refused.
#[derive(Debug, Clone, Copy, PartialEq, Eq, Structural)]
pub enum LeaseRejectReason {
    InvalidSignature,
    Expired,
    WrongRelay,
    SessionFull,
}

/// The routes of a session whose host and client are both bound: each
/// address to the other.
pub open spec fn session_routes(r: Seq<RouteView>, t: Seq<char>, sess: SessionView, now: u64) -> Seq<RouteView> {
    match (sess.host_addr, sess.client_addr) {
        (Some(h), Some(c)) => route_upsert(
            route_upsert(
                r,
                RouteView { src: h, token: t, session_id: sess.session_id, side: RouteSide::Host, dest: c, last_seen: now },
            ),
            RouteView { src: c, token: t, session_id: sess.session_id, side: RouteSide::Client, dest: h, last_seen: now },
        ),
        _ => r,
    }
}

/// The sessions, the routes and the answer after a lease presentation from
/// `src` in a packet for session `header_session`; the lease is its token
/// bytes and role, `None` when it did not decode.
pub open spec fn lease_outcome(
    s: SessionsView,
    r: Seq<RouteView>,
    lease: Option<(Seq<u8>, PeerRole)>,
    header_session: u128,
    src: PeerAddr,
    now: u64,
) -> (SessionsView, Seq<RouteView>, Result<u128, LeaseRejectReason>) {
    match lease {
        None => (s, r, Err(LeaseRejectReason::InvalidSignature)),
        Some((bytes, role)) => match presented_token(bytes) {
            None => (s, r, Err(LeaseRejectReason::InvalidSignature)),
            Some(t) => if !has_token(s, t) {
                (s, r, Err(LeaseRejectReason::InvalidSignature))
            } else {
                let i = token_index(s, t);
                if s[i].1.session_id != header_session {
                    (s, r, Err(LeaseRejectReason::WrongRelay))
                } else {
                    let (ns, ok) = bound_session(s[i].1, role, src);
                    if !ok {
                        (s, r, Err(LeaseRejectReason::SessionFull))
                    } else {
                        (s.update(i, (t, ns)), session_routes(r, t, ns, now), Ok(ns.session_id))
                    }
                }
            },
        },
    }
}

/// What to do with a forwarded packet once its route and session are checked.
#[derive(Debug, Clone, Copy, PartialEq, Eq, Structural)]
pub enum ForwardGate {
    /// No route starts at the sender.
    NoRoute,
    /// The route no longer matches its session and was removed.
    RouteDropped,
    /// The session spent its byte budget for this second.
    OverBudget,
    /// Check the packet's sequence number on this side's replay window, then
    /// commit it.
    Check(RouteSide),
}

/// Whether the route `e` still matches its session `sess` for a packet from
/// `src` in session `header_session`.
pub open spec fn route_matches(e: RouteView, sess: SessionView, src: PeerAddr, header_session: u128) -> bool {
    &&& sess.session_id == header_session
    &&& match e.side {
        RouteSide::Host => sess.host_addr == Some(src),
        RouteSide::Client => sess.client_addr == Some(src),
    }
}

/// A session's budget at `now`: a new period starts once a second has passed.
pub open spec fn ticked(sess: SessionView, now: u64) -> SessionView {
    if (if now >= sess.last_tick {
        now - sess.last_tick
    } else {
        0
    }) >= BUDGET_PERIOD_NS {
        SessionView { bytes_sent: 0, last_tick: now, ..sess }
    } else {
        sess
    }
}

/// The sessions, routes and decision for a packet of `len` bytes from `src`
/// in session `header_session`.
pub open spec fn gate_outcome(
    s: SessionsView,
    r: Seq<RouteView>,
    src: PeerAddr,
    header_session: u128,
    len: nat,
    now: u64,
) -> (SessionsView, Seq<RouteView>, ForwardGate) {
    if !has_route(r, src) {
        (s, r, ForwardGate::NoRoute)
    } else {
        let k = route_index(r, src);
        let e = r[k];
        if e.session_id != header_session || !has_token(s, e.token) {
            (s, r.remove(k), ForwardGate::RouteDropped)
        } else {
            let i = token_index(s, e.token);
            if !route_matches(e, s[i].1, src, header_session) {
                (s, r.remove(k), ForwardGate::RouteDropped)
            } else {
                let sess = ticked(s[i].1, now);
                let s2 = s.update(i, (e.token, sess));
                if sess.bytes_sent + len > BANDWIDTH_LIMIT_BYTES_PER_SEC {
                    (s2, r, ForwardGate::OverBudget)
                } else {
                    (s2, r, ForwardGate::Check(e.side))
                }
            }
        }
    }
}

/// The relay's sessions, by token, and its routes, by source address.
pub struct GatewayRelay {
    pub sessions: Vec<(String, RelaySession)>,
    pub routes: Vec<RouteEntry>,
}

/// The view of one session entry.
pub open spec fn session_entry_view(e: (String, RelaySession)) -> (Seq<char>, SessionView) {
    (e.0@, e.1@)
}

/// The sessions a signaling request opens into: the expired ones (created
/// `ttl` or longer ago) are dropped first, and there must then be fewer than
/// `limit` left.
pub open spec fn live_sessions(s: SessionsView, now: u64, ttl: u64) -> SessionsView
    decreases s.len(),
{
    if s.len() == 0 {
        s
    } else if (if now >= s.last().1.created_at {
        now - s.last().1.created_at
    } else {
        0
    }) < ttl {
        live_sessions(s.drop_last(), now, ttl).push(s.last())
    } else {
        live_sessions(s.drop_last(), now, ttl)
    }
}

proof fn lemma_live_sessions_sub(s: SessionsView, now: u64, ttl: u64)
    ensures
        live_sessions(s, now, ttl).len() <= s.len(),
        forall|j: int| 0 <= j < live_sessions(s, now, ttl).len() ==> exists|i: int| 0 <= i < s.len()
            && #[trigger] live_sessions(s, now, ttl)[j] == s[i],
    decreases s.len(),
{
    if s.len() > 0 {
        lemma_live_sessions_sub(s.drop_last(), now, ttl);
        let l = live_sessions(s, now, ttl);
        let p = live_sessions(s.drop_last(), now, ttl);
        assert forall|j: int| 0 <= j < l.len() implies exists|i: int| 0 <= i < s.len() && #[trigger] l[j] == s[i] by {
            if j < p.len() {
                let i = choose|i: int| 0 <= i < s.drop_last().len() && p[j] == s.drop_last()[i];
                assert(l[j] == s[i]);
            } else {
                assert(l[j] == s[s.len() - 1]);
            }
        }
    }
}

/// Keeps the relay's well-formedness when sessions are filtered.
proof fn lemma_live_sessions_distinct(s: SessionsView, now: u64, ttl: u64)
    requires
        distinct_tokens(s),
    ensures
        distinct_tokens(live_sessions(s, now, ttl)),
        forall|t: Seq<char>| has_token(live_sessions(s, now, ttl), t) ==> has_token(s, t),
    decreases s.len(),
{
    if s.len() > 0 {
        let d = s.drop_last();
        assert(distinct_tokens(d));
        lemma_live_sessions_distinct(d, now, ttl);
        lemma_live_sessions_sub(d, now, ttl);
        let p = live_sessions(d, now, ttl);
        let l = live_sessions(s, now, ttl);
        assert forall|t: Seq<char>| has_token(l, t) implies has_token(s, t) by {
            let j = choose|j: int| 0 <= j < l.len() && l[j].0 == t;
            if j < p.len() {
                assert(has_token(p, t));
                let i = choose|i: int| 0 <= i < d.len() && d[i].0 == t;
                assert(s[i].0 == t);
            } else {
                assert(s[s.len() - 1].0 == t);
            }
        }
        if l.len() == p.len() + 1 {
            assert forall|a: int, b: int| 0 <= a < l.len() && 0 <= b < l.len() && a != b implies l[a].0 != l[b].0 by {
                if a < p.len() && b < p.len() {
                } else if a < p.len() {
                    let i = choose|i: int| 0 <= i < d.len() && #[trigger] p[a] == d[i];
                    assert(l[b] == s[s.len() - 1]);
                    assert(s[i].0 != s[s.len() - 1].0);
                } else {
                    let i = choose|i: int| 0 <= i < d.len() && #[trigger] p[b] == d[i];
                    assert(l[a] == s[s.len() - 1]);
                    assert(s[i].0 != s[s.len() - 1].0);
                }
            }
        }
    }
}

impl GatewayRelay {
    pub open spec fn sessions_view(&self) -> SessionsView {
        self.sessions@.map_values(|e: (String, RelaySession)| session_entry_view(e))
    }

    pub open spec fn routes_view(&self) -> Seq<RouteView> {
        self.routes@.map_values(|e: RouteEntry| e@)
    }

    /// No two sessions share a token, no two routes a source.
    pub open spec fn wf(&self) -> bool {
        distinct_tokens(self.sessions_view()) && distinct_sources(self.routes_view())
    }

    /// A relay with no sessions and no routes.
    pub fn new() -> (g: Self)
        ensures
            g.wf(),
            g.sessions_view().len() == 0,
            g.routes_view().len() == 0,
    {
        let g = GatewayRelay { sessions: Vec::new(), routes: Vec::new() };
        assert(g.sessions_view() =~= Seq::<(Seq<char>, SessionView)>::empty());
        assert(g.routes_view() =~= Seq::<RouteView>::empty());
        g
    }

    fn find_session(&self, token: &str) -> (r: Option<usize>)
        requires
            self.wf(),
        ensures
            match r {
                Some(i) => i < self.sessions_view().len() && self.sessions_view()[i as int].0 == token@
                    && token_index(self.sessions_view(), token@) == i,
                None => !has_token(self.sessions_view(), token@),
            },
    {
        let mut i: usize = 0;
        while i < self.sessions.len()
            invariant
                self.wf(),
                i <= self.sessions_view().len(),
                forall|k: int| 0 <= k < i ==> #[trigger] self.sessions_view()[k].0 != token@,
            decreases self.sessions.len() - i,
        {
            if str_equal(self.sessions[i].0.as_str(), token) {
                proof {
                    let s = self.sessions_view();
                    assert(s[i as int].0 == token@);
                    let j = token_index(s, token@);
                    assert(0 <= j < s.len() && s[j].0 == token@);
                    if j != i {
                        assert(s[j].0 != s[i as int].0);
                    }
                }
                return Some(i);
            }
            i = i + 1;
        }
        None
    }

    fn find_route(&self, src: PeerAddr) -> (r: Option<usize>)
        requires
            self.wf(),
        ensures
            match r {
                Some(i) => i < self.routes_view().len() && self.routes_view()[i as int].src == src
                    && route_index(self.routes_view(), src) == i,
                None => !has_route(self.routes_view(), src),
            },
    {
        let mut i: usize = 0;
        while i < self.routes.len()
            invariant
                self.wf(),
                i <= self.routes_view().len(),
                forall|k: int| 0 <= k < i ==> #[trigger] self.routes_view()[k].src != src,
            decreases self.routes.len() - i,
        {
            if self.routes[i].src == src {
                proof {
                    let r = self.routes_view();
                    assert(r[i as int].src == src);
                    let j = route_index(r, src);
                    assert(0 <= j < r.len() && r[j].src == src);
                    if j != i {
                        assert(r[j].src != r[i as int].src);
                    }
                }
                return Some(i);
            }
            i = i + 1;
        }
        None
    }

    fn upsert_route(&mut self, e: RouteEntry)
        requires
            old(self).wf(),
        ensures
            final(self).wf(),
            final(self).sessions_view() == old(self).sessions_view(),
            final(self).routes_view() == route_upsert(old(self).routes_view(), e@),
    {
        let ghost before = self.routes_view();
        let ghost ev = e@;
        match self.find_route(e.src) {
            Some(i) => {
                self.routes.set(i, e);
                proof {
                    assert(self.routes_view() =~= before.update(i as int, ev));
                    let r = self.routes_view();
                    assert forall|a: int, b: int| 0 <= a < r.len() && 0 <= b < r.len() && a != b implies r[a].src != r[b].src by {
                        if a != i && b != i {
                            assert(r[a] == before[a] && r[b] == before[b]);
                        } else if a == i {
                            assert(r[b] == before[b] && before[i as int].src == ev.src);
                        } else {
                            assert(r[a] == before[a] && before[i as int].src == ev.src);
                        }
                    }
                }
            },
            None => {
                self.routes.push(e);
                proof {
                    assert(self.routes_view() =~= before.push(ev));
                    let r = self.routes_view();
                    assert forall|a: int, b: int| 0 <= a < r.len() && 0 <= b < r.len() && a != b implies r[a].src != r[b].src by {
                        if a < before.len() && b < before.len() {
                            assert(r[a] == before[a] && r[b] == before[b]);
                        } else if a < before.len() {
                            assert(r[a] == before[a]);
                            assert(r[b] == ev);
                        } else {
                            assert(r[b] == before[b]);
                            assert(r[a] == ev);
                        }
                    }
                }
            },
        }
    }
}

/// The view of a decoded lease.
pub open spec fn lease_view(lease: Option<(Vec<u8>, PeerRole)>) -> Option<(Seq<u8>, PeerRole)> {
    match lease {
        Some((b, role)) => Some((b@, role)),
        None => None,
    }
}

/// The sessions with `(t, sess)` in place of the session with token `t`, or added.
pub open spec fn session_upsert(s: SessionsView, t: Seq<char>, sess: SessionView) -> SessionsView {
    if has_token(s, t) {
        s.update(token_index(s, t), (t, sess))
    } else {
        s.push((t, sess))
    }
}

/// A new session between `host` and `client`, unbound, opened at `now`.
pub open spec fn fresh_session(host: Seq<char>, client: Seq<char>, session_id: u128, now: u64) -> SessionView {
    SessionView {
        host_email: host,
        client_email: client,
        session_id,
        host_addr: None,
        client_addr: None,
        created_at: now,
        bytes_sent: 0,
        last_tick: now,
    }
}

/// The sessions and answer after signaling asks to open a session under
/// `token`: expired sessions go, and the new one comes in unless `limit`
/// sessions are still live.
pub open spec fn open_outcome(
    s: SessionsView,
    token: Seq<char>,
    sess: SessionView,
    now: u64,
    ttl: u64,
    limit: usize,
) -> (SessionsView, bool) {
    let live = live_sessions(s, now, ttl);
    if live.len() >= limit {
        (live, false)
    } else {
        (session_upsert(live, token, sess), true)
    }
}

/// The sessions, routes and destination after committing a checked packet
/// of `len` bytes from `src`: the session's budget is charged and the
/// route refreshed.
pub open spec fn commit_outcome(s: SessionsView, r: Seq<RouteView>, src: PeerAddr, len: nat, now: u64) -> (
    SessionsView,
    Seq<RouteView>,
    Option<PeerAddr>,
) {
    if !has_route(r, src) {
        (s, r, None)
    } else {
        let k = route_index(r, src);
        let e = r[k];
        if !has_token(s, e.token) {
            (s, r, None)
        } else {
            let i = token_index(s, e.token);
            let sess = s[i].1;
            if sess.bytes_sent + len > BANDWIDTH_LIMIT_BYTES_PER_SEC {
                (s, r, None)
            } else {
                (
                    s.update(i, (e.token, SessionView { bytes_sent: (sess.bytes_sent + len) as usize, ..sess })),
                    r.update(k, RouteView { last_seen: now, ..e }),
                    Some(e.dest),
                )
            }
        }
    }
}

/// The routes still in use at `now`, in order.
pub open spec fn live_routes(r: Seq<RouteView>, now: u64) -> Seq<RouteView>
    decreases r.len(),
{
    if r.len() == 0 {
        r
    } else if (if now >= r.last().last_seen {
        now - r.last().last_seen
    } else {
        0
    }) <= ROUTE_IDLE_TIMEOUT_NS {
        live_routes(r.drop_last(), now).push(r.last())
    } else {
        live_routes(r.drop_last(), now)
    }
}

fn copy_session(s: &RelaySession) -> (r: RelaySession)
    ensures
        r@ == s@,
{
    RelaySession {
        host_email: s.host_email.clone(),
        client_email: s.client_email.clone(),
        session_id: s.session_id,
        host_addr: s.host_addr,
        client_addr: s.client_addr,
        created_at: s.created_at,
        bytes_sent: s.bytes_sent,
        last_tick: s.last_tick,
    }
}

fn copy_route(e: &RouteEntry) -> (r: RouteEntry)
    ensures
        r@ == e@,
{
    RouteEntry {
        src: e.src,
        token: e.token.clone(),
        session_id: e.session_id,
        side: e.side,
        dest: e.dest,
        last_seen: e.last_seen,
    }
}

proof fn lemma_remove_keeps_distinct_sources(r: Seq<RouteView>, k: int)
    requires
        distinct_sources(r),
        0 <= k < r.len(),
    ensures
        distinct_sources(r.remove(k)),
{
    let q = r.remove(k);
    assert forall|a: int, b: int| 0 <= a < q.len() && 0 <= b < q.len() && a != b implies q[a].src != q[b].src by {
        let a2 = if a < k { a } else { a + 1 };
        let b2 = if b < k { b } else { b + 1 };
        assert(q[a] == r[a2] && q[b] == r[b2]);
    }
}

/// The position of the oldest session (the first of the oldest when
/// several were opened at the same instant).
pub open spec fn oldest_index(s: SessionsView) -> int
    decreases s.len(),
{
    if s.len() <= 1 {
        0
    } else {
        let k = oldest_index(s.drop_last());
        if s.last().1.created_at < s[k].1.created_at {
            s.len() - 1
        } else {
            k
        }
    }
}

/// The sessions left after dropping the oldest one `n` times.
pub open spec fn drop_oldest(s: SessionsView, n: nat) -> SessionsView
    decreases n,
{
    if n == 0 {
        s
    } else {
        let t = drop_oldest(s, (n - 1) as nat);
        if t.len() == 0 {
            t
        } else {
            t.remove(oldest_index(t))
        }
    }
}

/// The sessions a periodic sweep at `now` leaves: the live ones (opened less
/// than `ttl` ago), and of those, when more than `max` are left, the oldest
/// are dropped until `max` remain.
pub open spec fn sweep_outcome(s: SessionsView, now: u64, ttl: u64, max: usize) -> SessionsView {
    let live = live_sessions(s, now, ttl);
    drop_oldest(live, if live.len() > max { (live.len() - max) as nat } else { 0 })
}

proof fn lemma_oldest_index(s: SessionsView)
    requires
        s.len() > 0,
    ensures
        0 <= oldest_index(s) < s.len(),
        forall|j: int| 0 <= j < s.len() ==> s[oldest_index(s)].1.created_at <= #[trigger] s[j].1.created_at,
    decreases s.len(),
{
    if s.len() > 1 {
        let d = s.drop_last();
        lemma_oldest_index(d);
        assert forall|j: int| 0 <= j < s.len() implies s[oldest_index(s)].1.created_at <= #[trigger] s[j].1.created_at by {
            if j < s.len() - 1 {
                assert(s[j] == d[j]);
            }
            assert(s[oldest_index(d)] == d[oldest_index(d)]);
        }
    }
}

proof fn lemma_drop_oldest_len(s: SessionsView, n: nat)
    requires
        n <= s.len(),
    ensures
        drop_oldest(s, n).len() == s.len() - n,
    decreases n,
{
    if n > 0 {
        lemma_drop_oldest_len(s, (n - 1) as nat);
        lemma_oldest_index(drop_oldest(s, (n - 1) as nat));
    }
}

/// A sweep leaves at most `max` sessions: as many of the live ones as fit.
pub proof fn law_sweep_bounded(s: SessionsView, now: u64, ttl: u64, max: usize)
    ensures
        sweep_outcome(s, now, ttl, max).len() == if live_sessions(s, now, ttl).len() > max {
            max as nat
        } else {
            live_sessions(s, now, ttl).len()
        },
{
    let live = live_sessions(s, now, ttl);
    lemma_drop_oldest_len(live, if live.len() > max { (live.len() - max) as nat } else { 0 });
}

proof fn lemma_remove_keeps_distinct_tokens(s: SessionsView, k: int)
    requires
        distinct_tokens(s),
        0 <= k < s.len(),
    ensures
        distinct_tokens(s.remove(k)),
        forall|t: Seq<char>| has_token(s.remove(k), t) ==> has_token(s, t),
{
    let q = s.remove(k);
    assert forall|a: int, b: int| 0 <= a < q.len() && 0 <= b < q.len() && a != b implies q[a].0 != q[b].0 by {
        let a2 = if a < k { a } else { a + 1 };
        let b2 = if b < k { b } else { b + 1 };
        assert(q[a] == s[a2] && q[b] == s[b2]);
    }
    assert forall|t: Seq<char>| has_token(q, t) implies has_token(s, t) by {
        let j = choose|j: int| 0 <= j < q.len() && q[j].0 == t;
        let j2 = if j < k { j } else { j + 1 };
        assert(q[j] == s[j2]);
    }
}

impl GatewayRelay {
    /// Drops the sessions opened `ttl` or longer ago.
    fn retain_live(&mut self, now: u64, ttl: u64)
        requires
            old(self).wf(),
        ensures
            final(self).wf(),
            final(self).routes_view() == old(self).routes_view(),
            final(self).sessions_view() == live_sessions(old(self).sessions_view(), now, ttl),
    {
        let ghost before = self.sessions_view();
        let mut kept: Vec<(String, RelaySession)> = Vec::new();
        let mut i: usize = 0;
        while i < self.sessions.len()
            invariant
                i <= self.sessions@.len(),
                before == self.sessions_view(),
                kept@.map_values(|e: (String, RelaySession)| session_entry_view(e)) == live_sessions(
                    before.subrange(0, i as int),
                    now,
                    ttl,
                ),
            decreases self.sessions.len() - i,
        {
            proof {
                let t = before.subrange(0, i + 1);
                assert(t.drop_last() =~= before.subrange(0, i as int));
                assert(t.last() == before[i as int]);
            }
            let ghost kv = kept@.map_values(|e: (String, RelaySession)| session_entry_view(e));
            if now.saturating_sub(self.sessions[i].1.created_at) < ttl {
                let e = (self.sessions[i].0.clone(), copy_session(&self.sessions[i].1));
                let ghost ev = session_entry_view(e);
                kept.push(e);
                proof {
                    assert(kept@.map_values(|e: (String, RelaySession)| session_entry_view(e)) =~= kv.push(ev));
                }
            }
            i = i + 1;
        }
        proof {
            assert(before.subrange(0, before.len() as int) =~= before);
            lemma_live_sessions_distinct(before, now, ttl);
        }
        self.sessions = kept;
    }

    /// The position of the oldest session.
    fn oldest_session(&self) -> (k: usize)
        requires
            self.sessions@.len() > 0,
        ensures
            k == oldest_index(self.sessions_view()),
    {
        let ghost s = self.sessions_view();
        let mut best: usize = 0;
        let mut i: usize = 1;
        proof {
            assert(s.subrange(0, 1).len() == 1);
        }
        while i < self.sessions.len()
            invariant
                1 <= i <= self.sessions@.len(),
                s == self.sessions_view(),
                best == oldest_index(s.subrange(0, i as int)),
                best < i,
            decreases self.sessions.len() - i,
        {
            proof {
                let t = s.subrange(0, i + 1);
                assert(t.drop_last() =~= s.subrange(0, i as int));
                assert(t.last() == s[i as int]);
                assert(t[best as int] == s[best as int]);
            }
            if self.sessions[i].1.created_at < self.sessions[best].1.created_at {
                best = i;
            }
            i = i + 1;
        }
        proof {
            assert(s.subrange(0, s.len() as int) =~= s);
        }
        best
    }

    /// The periodic sweep of relay sessions at `now`: the sessions opened
    /// `ttl` or longer ago are dropped, and while more than `max` remain,
    /// the oldest of them. Routes are left to their own cleanup.
    pub fn sweep(&mut self, now: u64, ttl: u64, max: usize)
        requires
            old(self).wf(),
        ensures
            final(self).wf(),
            final(self).routes_view() == old(self).routes_view(),
            final(self).sessions_view() == sweep_outcome(old(self).sessions_view(), now, ttl, max),
    {
        self.retain_live(now, ttl);
        let ghost live = self.sessions_view();
        let ghost mut removed: nat = 0;
        while self.sessions.len() > max
            invariant
                self.wf(),
                self.routes_view() == old(self).routes_view(),
                live == live_sessions(old(self).sessions_view(), now, ttl),
                self.sessions_view() == drop_oldest(live, removed),
                removed <= live.len(),
                self.sessions@.len() == live.len() - removed,
                self.sessions@.len() >= max || removed == 0,
            decreases self.sessions@.len(),
        {
            let k = self.oldest_session();
            let ghost before = self.sessions_view();
            proof {
                lemma_oldest_index(before);
                lemma_remove_keeps_distinct_tokens(before, k as int);
            }
            self.sessions.remove(k);
            proof {
                assert(self.sessions_view() =~= before.remove(k as int));
                removed = removed + 1;
                assert(drop_oldest(live, removed) == before.remove(oldest_index(before)));
            }
        }
        proof {
            assert(removed == if live.len() > max { (live.len() - max) as nat } else { 0nat });
        }
    }

    /// Opens a session under `token` for signaling, after dropping the
    /// sessions opened `ttl` or longer ago; refused ("Relay session capacity
    /// reached") while `limit` sessions are still live.
    pub fn open_session(
        &mut self,
        token: String,
        session: RelaySession,
        now: u64,
        ttl: u64,
        limit: usize,
    ) -> (r: Result<(), &'static str>)
        requires
            old(self).wf(),
        ensures
            final(self).wf(),
            final(self).routes_view() == old(self).routes_view(),
            ({
                let (s2, ok) = open_outcome(old(self).sessions_view(), token@, session@, now, ttl, limit);
                &&& final(self).sessions_view() == s2
                &&& r.is_ok() == ok
                &&& (r matches Err(m) ==> m@ == "Relay session capacity reached"@)
            }),
    {
        self.retain_live(now, ttl);
        if self.sessions.len() >= limit {
            return Err("Relay session capacity reached");
        }
        let ghost live = self.sessions_view();
        let ghost sv = session@;
        let ghost tv = token@;
        match self.find_session(token.as_str()) {
            Some(k) => {
                self.sessions.set(k, (token, session));
                proof {
                    assert(self.sessions_view() =~= live.update(k as int, (tv, sv)));
                    let q = self.sessions_view();
                    assert forall|a: int, b: int| 0 <= a < q.len() && 0 <= b < q.len() && a != b implies q[a].0 != q[b].0 by {
                        if a != k && b != k {
                            assert(q[a] == live[a] && q[b] == live[b]);
                        } else if a == k {
                            assert(q[b] == live[b]);
                        } else {
                            assert(q[a] == live[a]);
                        }
                    }
                }
            },
            None => {
                self.sessions.push((token, session));
                proof {
                    assert(self.sessions_view() =~= live.push((tv, sv)));
                    let q = self.sessions_view();
                    assert forall|a: int, b: int| 0 <= a < q.len() && 0 <= b < q.len() && a != b implies q[a].0 != q[b].0 by {
                        if a < live.len() && b < live.len() {
                            assert(q[a] == live[a] && q[b] == live[b]);
                        } else if a < live.len() {
                            assert(q[a] == live[a]);
                        } else {
                            assert(q[b] == live[b]);
                        }
                    }
                }
            },
        }
        Ok(())
    }

    /// Handles a lease presented by `src` in a packet for session
    /// `header_session` (`lease` is the lease's token bytes and role, `None`
    /// when it did not decode): `Ok` with the session id to acknowledge, or
    /// the reason to refuse.
    pub fn present_lease(
        &mut self,
        lease: Option<(Vec<u8>, PeerRole)>,
        header_session: u128,
        src: PeerAddr,
        now: u64,
    ) -> (r: Result<u128, LeaseRejectReason>)
        requires
            old(self).wf(),
        ensures
            final(self).wf(),
            (final(self).sessions_view(), final(self).routes_view(), r) == lease_outcome(
                old(self).sessions_view(),
                old(self).routes_view(),
                lease_view(lease),
                header_session,
                src,
                now,
            ),
    {
        let (bytes, role) = match lease {
            None => return Err(LeaseRejectReason::InvalidSignature),
            Some(l) => l,
        };
        let token = match crate::totp::utf8_string(bytes) {
            None => return Err(LeaseRejectReason::InvalidSignature),
            Some(t) => t,
        };
        if !crate::security::is_valid_session_token(token.as_str()) {
            return Err(LeaseRejectReason::InvalidSignature);
        }
        let i = match self.find_session(token.as_str()) {
            None => return Err(LeaseRejectReason::InvalidSignature),
            Some(i) => i,
        };
        if self.sessions[i].1.session_id != header_session {
            return Err(LeaseRejectReason::WrongRelay);
        }
        let host = self.sessions[i].1.host_addr;
        let client = self.sessions[i].1.client_addr;
        let (nh, nc, ok) = match role {
            PeerRole::Server => match host {
                None => (Some(src), client, true),
                Some(a) => if a == src {
                    (host, client, true)
                } else if client.is_none() {
                    (host, Some(src), true)
                } else {
                    (host, client, false)
                },
            },
            PeerRole::Client => match client {
                None => (host, Some(src), true),
                Some(a) => if a == src {
                    (host, client, true)
                } else if host.is_none() {
                    (Some(src), client, true)
                } else {
                    (host, client, false)
                },
            },
        };
        if !ok {
            return Err(LeaseRejectReason::SessionFull);
        }
        let ghost before = self.sessions_view();
        let ghost t = token@;
        let e = &mut self.sessions[i];
        e.1.host_addr = nh;
        e.1.client_addr = nc;
        let sid = self.sessions[i].1.session_id;
        proof {
            let ns = SessionView { host_addr: nh, client_addr: nc, ..before[i as int].1 };
            assert(self.sessions_view() =~= before.update(i as int, (t, ns)));
            let q = self.sessions_view();
            assert forall|a: int, b: int| 0 <= a < q.len() && 0 <= b < q.len() && a != b implies q[a].0 != q[b].0 by {
                assert(q[a].0 == before[a].0 && q[b].0 == before[b].0);
            }
        }
        match (nh, nc) {
            (Some(h), Some(c)) => {
                self.upsert_route(
                    RouteEntry {
                        src: h,
                        token: token.clone(),
                        session_id: sid,
                        side: RouteSide::Host,
                        dest: c,
                        last_seen: now,
                    },
                );
                self.upsert_route(
                    RouteEntry { src: c, token, session_id: sid, side: RouteSide::Client, dest: h, last_seen: now },
                );
            },
            _ => {},
        }
        Ok(sid)
    }
}

impl GatewayRelay {
    /// Checks a forwarded packet of `len` bytes from `src` in session
    /// `header_session` against its route and session, starting a new budget
    /// period when a second has passed; a route that no longer matches is
    /// removed.
    pub fn forward_gate(&mut self, src: PeerAddr, header_session: u128, len: usize, now: u64) -> (g: ForwardGate)
        requires
            old(self).wf(),
        ensures
            final(self).wf(),
            (final(self).sessions_view(), final(self).routes_view(), g) == gate_outcome(
                old(self).sessions_view(),
                old(self).routes_view(),
                src,
                header_session,
                len as nat,
                now,
            ),
    {
        let k = match self.find_route(src) {
            None => return ForwardGate::NoRoute,
            Some(k) => k,
        };
        let ghost routes_before = self.routes_view();
        if self.routes[k].session_id != header_session {
            self.routes.remove(k);
            proof {
                assert(self.routes_view() =~= routes_before.remove(k as int));
                lemma_remove_keeps_distinct_sources(routes_before, k as int);
            }
            return ForwardGate::RouteDropped;
        }
        let i = match self.find_session(self.routes[k].token.as_str()) {
            None => {
                self.routes.remove(k);
                proof {
                    assert(self.routes_view() =~= routes_before.remove(k as int));
                    lemma_remove_keeps_distinct_sources(routes_before, k as int);
                }
                return ForwardGate::RouteDropped;
            },
            Some(i) => i,
        };
        let side = self.routes[k].side;
        let slot = match side {
            RouteSide::Host => self.sessions[i].1.host_addr,
            RouteSide::Client => self.sessions[i].1.client_addr,
        };
        let from_bound = match slot {
            Some(a) => a == src,
            None => false,
        };
        if self.sessions[i].1.session_id != header_session || !from_bound {
            self.routes.remove(k);
            proof {
                assert(self.routes_view() =~= routes_before.remove(k as int));
                lemma_remove_keeps_distinct_sources(routes_before, k as int);
            }
            return ForwardGate::RouteDropped;
        }
        let ghost before = self.sessions_view();
        if now.saturating_sub(self.sessions[i].1.last_tick) >= BUDGET_PERIOD_NS {
            let e = &mut self.sessions[i];
            e.1.bytes_sent = 0;
            e.1.last_tick = now;
        }
        proof {
            let t = before[i as int].0;
            assert(self.sessions_view() =~= before.update(i as int, (t, ticked(before[i as int].1, now))));
            let q = self.sessions_view();
            assert forall|a: int, b: int| 0 <= a < q.len() && 0 <= b < q.len() && a != b implies q[a].0 != q[b].0 by {
                assert(q[a].0 == before[a].0 && q[b].0 == before[b].0);
            }
        }
        let sent = self.sessions[i].1.bytes_sent;
        if sent > BANDWIDTH_LIMIT_BYTES_PER_SEC || len > BANDWIDTH_LIMIT_BYTES_PER_SEC - sent {
            return ForwardGate::OverBudget;
        }
        ForwardGate::Check(side)
    }

    /// Commits a packet of `len` bytes from `src` that passed its checks:
    /// charges its session's budget and refreshes its route; the address to
    /// send it to, or `None` when the route, the session or the budget is
    /// gone.
    pub fn forward_commit(&mut self, src: PeerAddr, len: usize, now: u64) -> (dest: Option<PeerAddr>)
        requires
            old(self).wf(),
        ensures
            final(self).wf(),
            (final(self).sessions_view(), final(self).routes_view(), dest) == commit_outcome(
                old(self).sessions_view(),
                old(self).routes_view(),
                src,
                len as nat,
                now,
            ),
    {
        let k = match self.find_route(src) {
            None => return None,
            Some(k) => k,
        };
        let i = match self.find_session(self.routes[k].token.as_str()) {
            None => return None,
            Some(i) => i,
        };
        let sent = self.sessions[i].1.bytes_sent;
        if sent > BANDWIDTH_LIMIT_BYTES_PER_SEC || len > BANDWIDTH_LIMIT_BYTES_PER_SEC - sent {
            return None;
        }
        let ghost sb = self.sessions_view();
        let ghost rb = self.routes_view();
        let e = &mut self.sessions[i];
        e.1.bytes_sent = sent + len;
        let r = &mut self.routes[k];
        r.last_seen = now;
        let dest = self.routes[k].dest;
        proof {
            let t = sb[i as int].0;
            assert(self.sessions_view() =~= sb.update(
                i as int,
                (t, SessionView { bytes_sent: (sent + len) as usize, ..sb[i as int].1 }),
            ));
            assert(self.routes_view() =~= rb.update(k as int, RouteView { last_seen: now, ..rb[k as int] }));
            let q = self.sessions_view();
            assert forall|a: int, b: int| 0 <= a < q.len() && 0 <= b < q.len() && a != b implies q[a].0 != q[b].0 by {
                assert(q[a].0 == sb[a].0 && q[b].0 == sb[b].0);
            }
            let w = self.routes_view();
            assert forall|a: int, b: int| 0 <= a < w.len() && 0 <= b < w.len() && a != b implies w[a].src != w[b].src by {
                assert(w[a].src == rb[a].src && w[b].src == rb[b].src);
            }
        }
        Some(dest)
    }

    /// Drops the routes unused for more than two minutes.
    pub fn cleanup_routes(&mut self, now: u64)
        requires
            old(self).wf(),
        ensures
            final(self).wf(),
            final(self).sessions_view() == old(self).sessions_view(),
            final(self).routes_view() == live_routes(old(self).routes_view(), now),
    {
        let ghost before = self.routes_view();
        let mut kept: Vec<RouteEntry> = Vec::new();
        let mut i: usize = 0;
        while i < self.routes.len()
            invariant
                i <= self.routes@.len(),
                before == self.routes_view(),
                kept@.map_values(|e: RouteEntry| e@) == live_routes(before.subrange(0, i as int), now),
            decreases self.routes.len() - i,
        {
            proof {
                let t = before.subrange(0, i + 1);
                assert(t.drop_last() =~= before.subrange(0, i as int));
                assert(t.last() == before[i as int]);
            }
            let ghost kv = kept@.map_values(|e: RouteEntry| e@);
            if now.saturating_sub(self.routes[i].last_seen) <= ROUTE_IDLE_TIMEOUT_NS {
                let e = copy_route(&self.routes[i]);
                let ghost ev = e@;
                kept.push(e);
                proof {
                    assert(kept@.map_values(|e: RouteEntry| e@) =~= kv.push(ev));
                }
            }
            i = i + 1;
        }
        proof {
            assert(before.subrange(0, before.len() as int) =~= before);
            lemma_live_routes_distinct(before, now);
        }
        self.routes = kept;
    }
}

proof fn lemma_live_routes_distinct(r: Seq<RouteView>, now: u64)
    requires
        distinct_sources(r),
    ensures
        distinct_sources(live_routes(r, now)),
        forall|j: int| 0 <= j < live_routes(r, now).len() ==> exists|i: int| 0 <= i < r.len()
            && #[trigger] live_routes(r, now)[j] == r[i],
    decreases r.len(),
{
    if r.len() > 0 {
        let d = r.drop_last();
        lemma_live_routes_distinct(d, now);
        let p = live_routes(d, now);
        let l = live_routes(r, now);
        assert forall|j: int| 0 <= j < l.len() implies exists|i: int| 0 <= i < r.len() && #[trigger] l[j] == r[i] by {
            if j < p.len() {
                let i = choose|i: int| 0 <= i < d.len() && p[j] == d[i];
                assert(l[j] == r[i]);
            } else {
                assert(l[j] == r[r.len() - 1]);
            }
        }
        if l.len() == p.len() + 1 {
            assert forall|a: int, b: int| 0 <= a < l.len() && 0 <= b < l.len() && a != b implies l[a].src != l[b].src by {
                if a < p.len() && b < p.len() {
                } else if a < p.len() {
                    let i = choose|i: int| 0 <= i < d.len() && #[trigger] p[a] == d[i];
                    assert(l[b] == r[r.len() - 1]);
                    assert(r[i].src != r[r.len() - 1].src);
                } else {
                    let i = choose|i: int| 0 <= i < d.len() && #[trigger] p[b] == d[i];
                    assert(l[a] == r[r.len() - 1]);
                    assert(r[i].src != r[r.len() - 1].src);
                }
            }
        }
    }
}

/// A lease that is accepted leaves its presenter bound in the session: in
/// the host or the client slot.
pub proof fn law_accepted_lease_binds_presenter(
    s: SessionsView,
    r: Seq<RouteView>,
    lease: Option<(Seq<u8>, PeerRole)>,
    header_session: u128,
    src: PeerAddr,
    now: u64,
)
    requires
        lease_outcome(s, r, lease, header_session, src, now).2 is Ok,
    ensures
        ({
            let (s2, _, _) = lease_outcome(s, r, lease, header_session, src, now);
            let t = presented_token((lease->0).0)->0;
            let i = token_index(s, t);
            &&& s2[i].0 == t
            &&& s2[i].1.host_addr == Some(src) || s2[i].1.client_addr == Some(src)
        }),
{
    let t = presented_token((lease->0).0)->0;
    let i = token_index(s, t);
    assert(0 <= i < s.len() && s[i].0 == t);
}

/// A bound address is never replaced by a lease: whatever is presented,
/// every slot that held an address holds the same one afterwards.
pub proof fn law_bound_slots_are_kept(
    s: SessionsView,
    r: Seq<RouteView>,
    lease: Option<(Seq<u8>, PeerRole)>,
    header_session: u128,
    src: PeerAddr,
    now: u64,
    j: int,
)
    requires
        0 <= j < s.len(),
    ensures
        ({
            let (s2, _, _) = lease_outcome(s, r, lease, header_session, src, now);
            &&& s2.len() == s.len()
            &&& s[j].1.host_addr is Some ==> s2[j].1.host_addr == s[j].1.host_addr
            &&& s[j].1.client_addr is Some ==> s2[j].1.client_addr == s[j].1.client_addr
        }),
{
}

/// Only a bound peer's packets are ever checked for forwarding: the route
/// from the sender exists, belongs to the packet's session, and the
/// session's slot on the route's side holds the sender.
pub proof fn law_forwarding_needs_bound_sender(
    s: SessionsView,
    r: Seq<RouteView>,
    src: PeerAddr,
    header_session: u128,
    len: nat,
    now: u64,
)
    requires
        gate_outcome(s, r, src, header_session, len, now).2 is Check,
    ensures
        has_route(r, src),
        has_token(s, r[route_index(r, src)].token),
        route_matches(r[route_index(r, src)], s[token_index(s, r[route_index(r, src)].token)].1, src, header_session),
{
}

/// A session never forwards more than its budget within one period: a
/// committed packet leaves the session's count within the limit.
pub proof fn law_commit_stays_in_budget(s: SessionsView, r: Seq<RouteView>, src: PeerAddr, len: nat, now: u64)
    requires
        commit_outcome(s, r, src, len, now).2 is Some,
    ensures
        ({
            let (s2, _, _) = commit_outcome(s, r, src, len, now);
            let i = token_index(s, r[route_index(r, src)].token);
            s2[i].1.bytes_sent <= BANDWIDTH_LIMIT_BYTES_PER_SEC
        }),
{
    let k = route_index(r, src);
    let i = token_index(s, r[k].token);
    assert(0 <= k < r.len() && r[k].src == src);
    assert(0 <= i < s.len() && s[i].0 == r[k].token);
}

/// A lower-case hexadecimal digit.
pub open spec fn is_lower_hex(c: char) -> bool {
    ('0' <= c && c <= '9') || ('a' <= c && c <= 'f')
}

proof fn lemma_hex_lower_digits(bytes: Seq<u8>)
    ensures
        crate::security::hex_lower(bytes).len() == 2 * bytes.len(),
        forall|i: int| 0 <= i < crate::security::hex_lower(bytes).len() ==> is_lower_hex(
            #[trigger] crate::security::hex_lower(bytes)[i],
        ),
    decreases bytes.len(),
{
    if bytes.len() > 0 {
        lemma_hex_lower_digits(bytes.drop_last());
        let x = bytes.last() as int;
        let hi = crate::security::hex_digit_char(x / 16);
        let lo = crate::security::hex_digit_char(x % 16);
        assert(is_lower_hex(hi) && is_lower_hex(lo)) by {
            assert(0 <= x / 16 < 16);
            assert(0 <= x % 16 < 16);
        }
        let p = crate::security::hex_lower(bytes.drop_last());
        let h = crate::security::hex_lower(bytes);
        assert(h == p + seq![hi, lo]);
        assert forall|i: int| 0 <= i < h.len() implies is_lower_hex(#[trigger] h[i]) by {
            if i < p.len() {
                assert(h[i] == p[i]);
            } else if i == p.len() {
                assert(h[i] == hi);
            } else {
                assert(h[i] == lo);
            }
        }
    }
}

/// A fresh relay session token: the lower-case hex of 32 bytes from the
/// operating system's random source.
pub fn random_relay_token() -> (r: String)
    ensures
        r@.len() == 64,
        exists|b: Seq<u8>| b.len() == 32 && r@ == crate::security::hex_lower(b),
        valid_session_token(r@),
{
    let bytes = crate::totp::os_random_bytes(32);
    let token = crate::security::hex_encode(bytes.as_slice());
    proof {
        let t = token@;
        lemma_hex_lower_digits(bytes@);
        assert(vstd::utf8::is_ascii_chars(t)) by {
            assert forall|i: int| 0 <= i < t.len() implies '\0' <= #[trigger] t[i] <= '\u{7f}' by {
                assert(is_lower_hex(t[i]));
            }
        }
        vstd::utf8::is_ascii_chars_encode_utf8(t);
        assert forall|i: int| 0 <= i < t.len() implies crate::security::is_token_char(#[trigger] t[i]) by {
            assert(is_lower_hex(t[i]));
        }
    }
    token
}

/// A well-formed session token, presented as its UTF-8 bytes, is read back
/// as itself: the relay accepts the tokens signaling hands out.
pub proof fn law_token_presents_as_itself(t: Seq<char>)
    requires
        valid_session_token(t),
    ensures
        presented_token(encode_utf8(t)) == Some(t),
{
    vstd::utf8::encode_utf8_valid_utf8(t);
    vstd::utf8::encode_utf8_decode_utf8(t);
}

} // verus!
