//! Relay session lifecycle:
//! INIT (lease presented) -> WAITING_PEER (one peer registered) -> ACTIVE
//! (both peers registered, forwarding enabled) -> EXPIRED.
//!
//! Times are monotonic instants in nanoseconds, supplied by the caller.

use std::collections::HashMap;
use vstd::prelude::*;

verus! {

broadcast use vstd::std_specs::hash::group_hash_axioms;

/// Session states.
#[derive(Debug, Clone, Copy, PartialEq, Eq, Structural)]
pub enum SessionState {
    /// First lease presented, validating.
    Init,
    /// One peer ready, waiting for the other.
    WaitingPeer,
    /// Both peers ready, forwarding enabled.
    Active,
    /// Lease renewed with both peers present.
    Renewed,
    /// Session ended.
    Expired,
    /// Validation failed.
    Rejected,
}

/// The role a peer plays in a session.
#[derive(Debug, Clone, Copy, PartialEq, Eq, Structural)]
pub enum PeerRole {
    Client,
    Server,
}

/// A peer's network address: the IP address as a 128-bit number (IPv4
/// addresses in their low 32 bits), the port, and the address family.
#[derive(Debug, Clone, Copy, PartialEq, Eq, Structural)]
pub struct PeerAddr {
    pub ip: u128,
    pub port: u16,
    pub ipv6: bool,
}

/// Per-peer state within a session.
#[derive(Debug)]
pub struct PeerState {
    /// The peer's Wavry id (from its lease).
    pub wavry_id: String,
    /// Last seen address (changes on NAT rebinding).
    pub socket_addr: PeerAddr,
    /// Last activity time.
    pub last_seen: u64,
}

impl PeerState {
    pub fn new(wavry_id: String, socket_addr: PeerAddr, now: u64) -> (p: Self)
        ensures
            p.wavry_id@ == wavry_id@,
            p.socket_addr == socket_addr,
            p.last_seen == now,
    {
        PeerState { wavry_id, socket_addr, last_seen: now }
    }
}

/// Errors of session management.
#[derive(Debug, Clone, Copy, PartialEq, Eq, Structural)]
pub enum SessionError {
    PeerAlreadyRegistered,
    SessionNotActive,
    LeaseExpired,
    UnknownPeer,
    ReplayDetected,
    RateLimited,
    SessionNotFound,
    SessionFull,
    InvalidLease,
}

/// Abstract view of a peer slot: the peer's id, address and last activity.
pub ghost struct PeerView {
    pub wavry_id: Seq<char>,
    pub socket_addr: PeerAddr,
    pub last_seen: u64,
}

/// View of an optional peer.
pub open spec fn peer_view(p: Option<PeerState>) -> Option<PeerView> {
    match p {
        Some(s) => Some(PeerView { wavry_id: s.wavry_id@, socket_addr: s.socket_addr, last_seen: s.last_seen }),
        None => None,
    }
}

/// View of an optional locked id.
pub open spec fn id_view(s: Option<String>) -> Option<Seq<char>> {
    match s {
        Some(v) => Some(v@),
        None => None,
    }
}

/// Abstract state of a [`RelaySession`].
pub ghost struct SessionView {
    pub session_id: u128,
    pub state: SessionState,
    pub client: Option<PeerView>,
    pub server: Option<PeerView>,
    pub client_id: Option<Seq<char>>,
    pub server_id: Option<Seq<char>>,
    pub lease_expires: u64,
    pub created_at: u64,
    pub last_activity: u64,
    pub packets_forwarded: u64,
    pub bytes_forwarded: u64,
    pub soft_limit_kbps: u32,
    pub hard_limit_kbps: u32,
    pub last_stats_reset: u64,
    pub bytes_sent_window: u64,
}

/// The state implied by which peers are present.
pub open spec fn state_for_peers(client: bool, server: bool) -> SessionState {
    if client && server {
        SessionState::Active
    } else if client || server {
        SessionState::WaitingPeer
    } else {
        SessionState::Init
    }
}

impl SessionView {
    pub open spec fn slot(self, role: PeerRole) -> Option<PeerView> {
        match role {
            PeerRole::Client => self.client,
            PeerRole::Server => self.server,
        }
    }

    pub open spec fn locked_id(self, role: PeerRole) -> Option<Seq<char>> {
        match role {
            PeerRole::Client => self.client_id,
            PeerRole::Server => self.server_id,
        }
    }

    /// Whether forwarding is allowed at time `now`.
    pub open spec fn active_at(self, now: u64) -> bool {
        (self.state == SessionState::Active || self.state == SessionState::Renewed) && now
            < self.lease_expires
    }

    /// Whether the session is over at time `now`.
    pub open spec fn expired_at(self, now: u64) -> bool {
        self.state == SessionState::Expired || self.state == SessionState::Rejected || now
            >= self.lease_expires
    }

    /// The session with the id lock of `role` set.
    pub open spec fn with_lock(self, role: PeerRole, id: Seq<char>) -> SessionView {
        match role {
            PeerRole::Client => SessionView { client_id: Some(id), ..self },
            PeerRole::Server => SessionView { server_id: Some(id), ..self },
        }
    }

    /// The session with the peer slot of `role` replaced.
    pub open spec fn with_slot(self, role: PeerRole, p: Option<PeerView>) -> SessionView {
        match role {
            PeerRole::Client => SessionView { client: p, ..self },
            PeerRole::Server => SessionView { server: p, ..self },
        }
    }

    /// The outcome of registering `id` at `addr` in `role` at time `now`.
    pub open spec fn register_outcome(
        self,
        role: PeerRole,
        id: Seq<char>,
        addr: PeerAddr,
        now: u64,
    ) -> (SessionView, Result<(), SessionError>) {
        if self.locked_id(role) is Some && self.locked_id(role)->0 != id {
            (self, Err(SessionError::InvalidLease))
        } else {
            let locked = self.with_lock(role, id);
            match self.slot(role) {
                Some(existing) => {
                    if existing.wavry_id != id {
                        (locked, Err(SessionError::PeerAlreadyRegistered))
                    } else {
                        let s1 = locked.with_slot(
                            role,
                            Some(PeerView { socket_addr: addr, last_seen: now, ..existing }),
                        );
                        (
                            SessionView {
                                state: state_for_peers(s1.client is Some, s1.server is Some),
                                last_activity: now,
                                ..s1
                            },
                            Ok(()),
                        )
                    }
                },
                None => {
                    let s1 = locked.with_slot(
                        role,
                        Some(PeerView { wavry_id: id, socket_addr: addr, last_seen: now }),
                    );
                    (
                        SessionView {
                            state: state_for_peers(s1.client is Some, s1.server is Some),
                            last_activity: now,
                            ..s1
                        },
                        Ok(()),
                    )
                },
            }
        }
    }

    /// The outcome of renewing the lease for `duration` at time `now`.
    pub open spec fn renew_outcome(self, duration: u64, now: u64) -> (
        SessionView,
        Result<(), SessionError>,
    ) {
        if self.expired_at(now) {
            (SessionView { state: SessionState::Expired, ..self }, Err(SessionError::LeaseExpired))
        } else {
            (
                SessionView {
                    lease_expires: (now + duration) as u64,
                    state: if self.client is Some && self.server is Some {
                        SessionState::Renewed
                    } else {
                        SessionState::WaitingPeer
                    },
                    last_activity: now,
                    ..self
                },
                Ok(()),
            )
        }
    }
}

/// A relay session between two peers.
#[derive(Debug)]
pub struct RelaySession {
    pub session_id: u128,
    pub state: SessionState,
    pub client: Option<PeerState>,
    pub server: Option<PeerState>,
    pub client_id: Option<String>,
    pub server_id: Option<String>,
    pub lease_expires: u64,
    pub created_at: u64,
    pub last_activity: u64,
    pub packets_forwarded: u64,
    pub bytes_forwarded: u64,
    pub soft_limit_kbps: u32,
    pub hard_limit_kbps: u32,
    pub last_stats_reset: u64,
    pub bytes_sent_window: u64,
}

impl View for RelaySession {
    type V = SessionView;

    open spec fn view(&self) -> SessionView {
        SessionView {
            session_id: self.session_id,
            state: self.state,
            client: peer_view(self.client),
            server: peer_view(self.server),
            client_id: id_view(self.client_id),
            server_id: id_view(self.server_id),
            lease_expires: self.lease_expires,
            created_at: self.created_at,
            last_activity: self.last_activity,
            packets_forwarded: self.packets_forwarded,
            bytes_forwarded: self.bytes_forwarded,
            soft_limit_kbps: self.soft_limit_kbps,
            hard_limit_kbps: self.hard_limit_kbps,
            last_stats_reset: self.last_stats_reset,
            bytes_sent_window: self.bytes_sent_window,
        }
    }
}

/// A freshly created session.
pub open spec fn new_session_view(session_id: u128, lease_duration: u64, now: u64) -> SessionView {
    SessionView {
        session_id,
        state: SessionState::Init,
        client: None,
        server: None,
        client_id: None,
        server_id: None,
        lease_expires: (now + lease_duration) as u64,
        created_at: now,
        last_activity: now,
        packets_forwarded: 0,
        bytes_forwarded: 0,
        soft_limit_kbps: 50_000,
        hard_limit_kbps: 100_000,
        last_stats_reset: now,
        bytes_sent_window: 0,
    }
}

impl RelaySession {
    /// Create a session whose lease runs `lease_duration` from `now`.
    pub fn new(session_id: u128, lease_duration: u64, now: u64) -> (s: Self)
        requires
            now + lease_duration <= u64::MAX,
        ensures
            s@ == new_session_view(session_id, lease_duration, now),
    {
        RelaySession {
            session_id,
            state: SessionState::Init,
            client: None,
            server: None,
            client_id: None,
            server_id: None,
            lease_expires: now + lease_duration,
            created_at: now,
            last_activity: now,
            packets_forwarded: 0,
            bytes_forwarded: 0,
            soft_limit_kbps: 50_000,
            hard_limit_kbps: 100_000,
            last_stats_reset: now,
            bytes_sent_window: 0,
        }
    }

    /// Register a peer in `role`. A role whose id is locked to another id is
    /// refused; the same id re-registering (NAT rebinding, reconnect) updates
    /// the address.
    pub fn register_peer(
        &mut self,
        role: PeerRole,
        wavry_id: String,
        socket_addr: PeerAddr,
        now: u64,
    ) -> (r: Result<(), SessionError>)
        ensures
            (final(self)@, r) == old(self)@.register_outcome(role, wavry_id@, socket_addr, now),
    {
        match role {
            PeerRole::Client => {
                if let Some(locked) = &self.client_id {
                    if !str_eq(locked, &wavry_id) {
                        return Err(SessionError::InvalidLease);
                    }
                } else {
                    self.client_id = Some(wavry_id.clone());
                }
            },
            PeerRole::Server => {
                if let Some(locked) = &self.server_id {
                    if !str_eq(locked, &wavry_id) {
                        return Err(SessionError::InvalidLease);
                    }
                } else {
                    self.server_id = Some(wavry_id.clone());
                }
            },
        }
        let slot_taken = match role {
            PeerRole::Client => self.client.take(),
            PeerRole::Server => self.server.take(),
        };
        let new_slot = match slot_taken {
            Some(existing) => {
                if !str_eq(&existing.wavry_id, &wavry_id) {
                    match role {
                        PeerRole::Client => self.client = Some(existing),
                        PeerRole::Server => self.server = Some(existing),
                    }
                    return Err(SessionError::PeerAlreadyRegistered);
                }
                PeerState { wavry_id: existing.wavry_id, socket_addr, last_seen: now }
            },
            None => PeerState::new(wavry_id, socket_addr, now),
        };
        match role {
            PeerRole::Client => self.client = Some(new_slot),
            PeerRole::Server => self.server = Some(new_slot),
        }
        self.state = if self.client.is_some() && self.server.is_some() {
            SessionState::Active
        } else if self.client.is_some() || self.server.is_some() {
            SessionState::WaitingPeer
        } else {
            SessionState::Init
        };
        self.last_activity = now;
        Ok(())
    }

    /// Whether the session can forward packets at time `now`.
    pub fn is_active(&self, now: u64) -> (b: bool)
        ensures
            b == self@.active_at(now),
    {
        (self.state == SessionState::Active || self.state == SessionState::Renewed) && now
            < self.lease_expires
    }

    /// Whether the session has ended at time `now`.
    pub fn is_expired(&self, now: u64) -> (b: bool)
        ensures
            b == self@.expired_at(now),
    {
        self.state == SessionState::Expired || self.state == SessionState::Rejected || now
            >= self.lease_expires
    }

    /// Identify which peer sent a packet from `src`; returns the sender's role,
    /// the sender and the destination. Both peers must be registered.
    pub fn identify_peer(&self, src: PeerAddr) -> (r: Option<(PeerRole, &PeerState, &PeerState)>)
        ensures
            r is Some <==> (self.client is Some && self.server is Some && (
            self.client->0.socket_addr == src || self.server->0.socket_addr == src)),
            r matches Some((role, from, to)) ==> {
                if self.client->0.socket_addr == src {
                    role == PeerRole::Client && *from == self.client->0 && *to == self.server->0
                } else {
                    role == PeerRole::Server && *from == self.server->0 && *to == self.client->0
                }
            },
    {
        match (&self.client, &self.server) {
            (Some(client), Some(server)) => {
                if client.socket_addr == src {
                    Some((PeerRole::Client, client, server))
                } else if server.socket_addr == src {
                    Some((PeerRole::Server, server, client))
                } else {
                    None
                }
            },
            _ => None,
        }
    }

    /// Record a peer's new address after NAT rebinding.
    pub fn update_peer_address(&mut self, role: PeerRole, new_addr: PeerAddr, now: u64)
        ensures
            final(self)@ == (SessionView {
                last_activity: now,
                ..match old(self)@.slot(role) {
                    Some(p) => old(self)@.with_slot(
                        role,
                        Some(PeerView { socket_addr: new_addr, last_seen: now, ..p }),
                    ),
                    None => old(self)@,
                }
            }),
    {
        match role {
            PeerRole::Client => {
                if let Some(peer) = self.client.take() {
                    self.client = Some(PeerState { socket_addr: new_addr, last_seen: now, ..peer });
                }
            },
            PeerRole::Server => {
                if let Some(peer) = self.server.take() {
                    self.server = Some(PeerState { socket_addr: new_addr, last_seen: now, ..peer });
                }
            },
        }
        self.last_activity = now;
    }

    /// Count one forwarded packet of `bytes` bytes.
    pub fn record_forward(&mut self, bytes: usize, now: u64)
        requires
            old(self).packets_forwarded < u64::MAX,
            old(self).bytes_forwarded + bytes <= u64::MAX,
        ensures
            final(self)@ == (SessionView {
                packets_forwarded: (old(self).packets_forwarded + 1) as u64,
                bytes_forwarded: (old(self).bytes_forwarded + bytes) as u64,
                last_activity: now,
                ..old(self)@
            }),
    {
        self.packets_forwarded = self.packets_forwarded + 1;
        self.bytes_forwarded = self.bytes_forwarded + bytes as u64;
        self.last_activity = now;
    }

    /// Renew the lease for `new_duration` from `now`; an expired session is
    /// marked expired and refused.
    pub fn renew_lease(&mut self, new_duration: u64, now: u64) -> (r: Result<(), SessionError>)
        requires
            !old(self)@.expired_at(now) ==> now + new_duration <= u64::MAX,
        ensures
            (final(self)@, r) == old(self)@.renew_outcome(new_duration, now),
    {
        if self.is_expired(now) {
            self.state = SessionState::Expired;
            return Err(SessionError::LeaseExpired);
        }
        self.lease_expires = now + new_duration;
        self.state = if self.client.is_some() && self.server.is_some() {
            SessionState::Renewed
        } else {
            SessionState::WaitingPeer
        };
        self.last_activity = now;
        Ok(())
    }

    /// End the session.
    pub fn expire(&mut self)
        ensures
            final(self)@ == (SessionView { state: SessionState::Expired, ..old(self)@ }),
    {
        self.state = SessionState::Expired;
    }

    /// Apply the rate limits carried by a lease: the soft limit is raised to
    /// at least 1000 kbps and the hard limit to at least the soft limit.
    pub fn apply_lease_limits(&mut self, soft_limit_kbps: Option<u32>, hard_limit_kbps: Option<u32>)
        ensures
            final(self).soft_limit_kbps == match soft_limit_kbps {
                Some(s) => if s >= 1000 {
                    s
                } else {
                    1000
                },
                None => old(self).soft_limit_kbps,
            },
            final(self).hard_limit_kbps == match hard_limit_kbps {
                Some(h) => if h >= final(self).soft_limit_kbps {
                    h
                } else {
                    final(self).soft_limit_kbps
                },
                None => old(self).hard_limit_kbps,
            },
            final(self)@ == (SessionView {
                soft_limit_kbps: final(self).soft_limit_kbps,
                hard_limit_kbps: final(self).hard_limit_kbps,
                ..old(self)@
            }),
    {
        if let Some(soft) = soft_limit_kbps {
            self.soft_limit_kbps = if soft >= 1000 {
                soft
            } else {
                1000
            };
        }
        if let Some(hard) = hard_limit_kbps {
            self.hard_limit_kbps = if hard >= self.soft_limit_kbps {
                hard
            } else {
                self.soft_limit_kbps
            };
        }
    }
}


/// Result of a cleanup pass.
#[derive(Debug, Clone, Copy, PartialEq, Eq, Structural)]
pub struct CleanupStats {
    pub expired_sessions: usize,
    pub idle_sessions: usize,
}

impl Default for CleanupStats {
    fn default() -> (s: Self)
        ensures
            s.expired_sessions == 0,
            s.idle_sessions == 0,
    {
        CleanupStats { expired_sessions: 0, idle_sessions: 0 }
    }
}

impl CleanupStats {
    /// Number of sessions removed in all.
    pub fn total_removed(self) -> (n: usize)
        requires
            self.expired_sessions + self.idle_sessions <= usize::MAX,
        ensures
            n == self.expired_sessions + self.idle_sessions,
    {
        self.expired_sessions + self.idle_sessions
    }
}

/// Ids of the sessions of `m` that are over at `now`.
pub open spec fn expired_ids(m: Map<u128, RelaySession>, now: u64) -> Set<u128> {
    m.dom().filter(|k: u128| m[k]@.expired_at(now))
}

/// Ids of the sessions of `m` that are not over but idle for longer than `timeout` at `now`.
pub open spec fn idle_ids(m: Map<u128, RelaySession>, now: u64, timeout: u64) -> Set<u128> {
    m.dom().filter(
        |k: u128|
            !m[k]@.expired_at(now) && (if now >= m[k].last_activity {
                now - m[k].last_activity
            } else {
                0
            }) > timeout,
    )
}

/// Ids of the sessions of `m` that are active or renewed.
pub open spec fn active_ids(m: Map<u128, RelaySession>) -> Set<u128> {
    m.dom().filter(
        |k: u128| m[k].state == SessionState::Active || m[k].state == SessionState::Renewed,
    )
}

/// All sessions of a relay, bounded in number.
#[derive(Debug)]
pub struct SessionPool {
    sessions: HashMap<u128, RelaySession>,
    max_sessions: usize,
    session_idle_timeout: u64,
}

/// Abstract state of a [`SessionPool`].
pub ghost struct SessionPoolView {
    pub sessions: Map<u128, RelaySession>,
    pub max_sessions: usize,
    pub session_idle_timeout: u64,
}

impl View for SessionPool {
    type V = SessionPoolView;

    closed spec fn view(&self) -> SessionPoolView {
        SessionPoolView {
            sessions: self.sessions@,
            max_sessions: self.max_sessions,
            session_idle_timeout: self.session_idle_timeout,
        }
    }
}

impl SessionPool {
    pub fn new(max_sessions: usize, idle_timeout: u64) -> (p: Self)
        ensures
            p@.sessions == Map::<u128, RelaySession>::empty(),
            p@.max_sessions == max_sessions,
            p@.session_idle_timeout == idle_timeout,
    {
        SessionPool { sessions: HashMap::new(), max_sessions, session_idle_timeout: idle_timeout }
    }

    /// Make sure a session with `session_id` exists, creating it with a lease
    /// of `lease_duration` from `now` unless the pool is full.
    pub fn get_or_create(&mut self, session_id: u128, lease_duration: u64, now: u64) -> (r: Result<
        (),
        SessionError,
    >)
        requires
            !old(self)@.sessions.contains_key(session_id) ==> now + lease_duration <= u64::MAX,
        ensures
            final(self)@.max_sessions == old(self)@.max_sessions,
            final(self)@.session_idle_timeout == old(self)@.session_idle_timeout,
            old(self)@.sessions.contains_key(session_id) ==> r is Ok && final(self)@ == old(self)@,
            !old(self)@.sessions.contains_key(session_id) && old(self)@.sessions.len()
                >= old(self)@.max_sessions ==> r == Err::<(), SessionError>(SessionError::SessionFull)
                && final(self)@ == old(self)@,
            !old(self)@.sessions.contains_key(session_id) && old(self)@.sessions.len()
                < old(self)@.max_sessions ==> r is Ok && final(self)@.sessions.dom() == old(
                self,
            )@.sessions.dom().insert(session_id) && final(self)@.sessions.remove(session_id)
                == old(self)@.sessions && final(self)@.sessions[session_id]@ == new_session_view(
                session_id,
                lease_duration,
                now,
            ),
    {
        if !self.sessions.contains_key(&session_id) {
            if self.sessions.len() >= self.max_sessions {
                return Err(SessionError::SessionFull);
            }
            let session = RelaySession::new(session_id, lease_duration, now);
            self.sessions.insert(session_id, session);
            proof {
                assert(self@.sessions.remove(session_id) =~= old(self)@.sessions);
            }
        }
        Ok(())
    }

    /// The session with `session_id`, if any.
    pub fn get(&self, session_id: &u128) -> (r: Option<&RelaySession>)
        ensures
            r is Some <==> self@.sessions.contains_key(*session_id),
            r matches Some(s) ==> *s == self@.sessions[*session_id],
    {
        self.sessions.get(session_id)
    }

    /// Remove and return the session with `session_id`.
    pub fn remove(&mut self, session_id: &u128) -> (r: Option<RelaySession>)
        ensures
            r is Some <==> old(self)@.sessions.contains_key(*session_id),
            r matches Some(s) ==> s == old(self)@.sessions[*session_id],
            final(self)@.sessions == old(self)@.sessions.remove(*session_id),
            final(self)@.max_sessions == old(self)@.max_sessions,
            final(self)@.session_idle_timeout == old(self)@.session_idle_timeout,
    {
        self.sessions.remove(session_id)
    }

    /// Put a session (taken out with [`SessionPool::remove`]) back under its id.
    pub fn insert_session(&mut self, session: RelaySession)
        ensures
            final(self)@.sessions == old(self)@.sessions.insert(session.session_id, session),
            final(self)@.max_sessions == old(self)@.max_sessions,
            final(self)@.session_idle_timeout == old(self)@.session_idle_timeout,
    {
        self.sessions.insert(session.session_id, session);
    }

    /// Remove every listed id.
    fn remove_all(&mut self, ids: &Vec<u128>)
        ensures
            final(self)@.sessions == old(self)@.sessions.remove_keys(ids@.to_set()),
            final(self)@.max_sessions == old(self)@.max_sessions,
            final(self)@.session_idle_timeout == old(self)@.session_idle_timeout,
    {
        let ghost m = self@.sessions;
        let ghost mut removed: Set<u128> = Set::empty();
        let mut i: usize = 0;
        while i < ids.len()
            invariant
                i <= ids@.len(),
                self@.max_sessions == old(self)@.max_sessions,
                self@.session_idle_timeout == old(self)@.session_idle_timeout,
                m == old(self)@.sessions,
                forall|x: u128| removed.contains(x) <==> exists|j: int| 0 <= j < i && #[trigger] ids@[j] == x,
                self@.sessions == m.remove_keys(removed),
            decreases ids@.len() - i,
        {
            let k = ids[i];
            self.sessions.remove(&k);
            proof {
                let old_removed = removed;
                removed = removed.insert(k);
                assert forall|x: u128| removed.contains(x) <==> exists|j: int| 0 <= j < i + 1 && #[trigger] ids@[j] == x by {
                    if x == k {
                        assert(ids@[i as int] == x);
                    }
                    if exists|j: int| 0 <= j < i + 1 && #[trigger] ids@[j] == x {
                        let j = choose|j: int| 0 <= j < i + 1 && #[trigger] ids@[j] == x;
                        if j < i {
                            assert(old_removed.contains(x));
                        }
                    }
                }
                assert(self@.sessions =~= m.remove_keys(removed));
            }
            i = i + 1;
        }
        proof {
            assert(removed =~= ids@.to_set()) by {
                assert forall|x: u128| removed.contains(x) <==> ids@.to_set().contains(x) by {
                    if ids@.contains(x) {
                        let j = choose|j: int| 0 <= j < ids@.len() && ids@[j] == x;
                        assert(ids@[j] == x);
                    }
                }
            }
        }
    }

    /// Remove every expired session and every idle one, reporting how many
    /// of each were removed.
    pub fn cleanup(&mut self, now: u64) -> (c: CleanupStats)
        ensures
            final(self)@.sessions == old(self)@.sessions.remove_keys(
                expired_ids(old(self)@.sessions, now).union(
                    idle_ids(old(self)@.sessions, now, old(self)@.session_idle_timeout),
                ),
            ),
            c.expired_sessions == expired_ids(old(self)@.sessions, now).len(),
            c.idle_sessions == idle_ids(
                old(self)@.sessions,
                now,
                old(self)@.session_idle_timeout,
            ).len(),
            final(self)@.max_sessions == old(self)@.max_sessions,
            final(self)@.session_idle_timeout == old(self)@.session_idle_timeout,
    {
        let idle_timeout = self.session_idle_timeout;
        let ghost m = self@.sessions;
        let ghost ex = expired_ids(m, now);
        let ghost idl = idle_ids(m, now, idle_timeout);
        let mut expired_list: Vec<u128> = Vec::new();
        let mut idle_list: Vec<u128> = Vec::new();
        let ghost mut seen: Set<u128> = Set::empty();
        for k in it: self.sessions.keys()
            invariant
                m == self@.sessions,
                idle_timeout == self@.session_idle_timeout,
                ex == expired_ids(m, now),
                idl == idle_ids(m, now, idle_timeout),
                it.seq().unref().to_set() == m.dom(),
                it.seq().no_duplicates(),
                expired_list@.no_duplicates(),
                idle_list@.no_duplicates(),
                forall|t: int| 0 <= t < expired_list@.len() ==> ex.contains(#[trigger] expired_list@[t]),
                forall|t: int| 0 <= t < idle_list@.len() ==> idl.contains(#[trigger] idle_list@[t]),
                forall|j: int|
                    0 <= j < it.index() ==> (ex.contains(*#[trigger] it.seq()[j])
                        ==> expired_list@.contains(*it.seq()[j])),
                forall|j: int|
                    0 <= j < it.index() ==> (idl.contains(*#[trigger] it.seq()[j])
                        ==> idle_list@.contains(*it.seq()[j])),
                forall|x: u128|
                    #[trigger] seen.contains(x) <==> exists|j: int|
                        0 <= j < it.index() && it.seq().unref()[j] == x,
                forall|t: int| 0 <= t < expired_list@.len() ==> seen.contains(#[trigger] expired_list@[t]),
                forall|t: int| 0 <= t < idle_list@.len() ==> seen.contains(#[trigger] idle_list@[t]),
            ensures
                expired_list@.to_set() == ex,
                idle_list@.to_set() == idl,
                expired_list@.no_duplicates(),
                idle_list@.no_duplicates(),
        {
            let ghost i0 = it.index();
            let ghost el0 = expired_list@;
            let ghost il0 = idle_list@;
            proof {
                assert(it.seq().unref()[i0] == *k);
                assert(it.seq().unref().to_set().contains(*k));
            }
            if let Some(session) = self.sessions.get(k) {
                let expired = session.is_expired(now);
                let idle = now.saturating_sub(session.last_activity) > idle_timeout;
                if expired || idle {
                    if expired {
                        proof {
                            assert forall|t: int| 0 <= t < el0.len() implies el0[t] != *k by {
                                assert(seen.contains(el0[t]));
                                let j = choose|j: int| 0 <= j < i0 && it.seq().unref()[j] == el0[t];
                                assert(it.seq()[j] != it.seq()[i0]);
                            }
                        }
                        expired_list.push(*k);
                    } else {
                        proof {
                            assert forall|t: int| 0 <= t < il0.len() implies il0[t] != *k by {
                                assert(seen.contains(il0[t]));
                                let j = choose|j: int| 0 <= j < i0 && it.seq().unref()[j] == il0[t];
                                assert(it.seq()[j] != it.seq()[i0]);
                            }
                        }
                        idle_list.push(*k);
                    }
                }
            }
            proof {
                let old_seen = seen;
                seen = seen.insert(*k);
                assert forall|x: u128|
                    #[trigger] seen.contains(x) <==> exists|j: int|
                        0 <= j < i0 + 1 && it.seq().unref()[j] == x by {
                    if x == *k {
                        assert(it.seq().unref()[i0] == x);
                    } else if exists|j: int| 0 <= j < i0 + 1 && it.seq().unref()[j] == x {
                        let j = choose|j: int| 0 <= j < i0 + 1 && it.seq().unref()[j] == x;
                        if j < i0 {
                            assert(old_seen.contains(x));
                        }
                    }
                }
                assert forall|t: int| 0 <= t < expired_list@.len() implies seen.contains(#[trigger] expired_list@[t]) by {
                    if t < el0.len() {
                        assert(old_seen.contains(el0[t]));
                    }
                }
                assert forall|t: int| 0 <= t < idle_list@.len() implies seen.contains(#[trigger] idle_list@[t]) by {
                    if t < il0.len() {
                        assert(old_seen.contains(il0[t]));
                    }
                }
                assert forall|j: int|
                    0 <= j < i0 + 1 && ex.contains(*#[trigger] it.seq()[j]) implies expired_list@.contains(*it.seq()[j]) by {
                    if j < i0 {
                        let w = choose|w: int| 0 <= w < el0.len() && el0[w] == *it.seq()[j];
                        assert(expired_list@[w] == el0[w]);
                    } else {
                        assert(expired_list@.last() == *k);
                    }
                }
                assert forall|j: int|
                    0 <= j < i0 + 1 && idl.contains(*#[trigger] it.seq()[j]) implies idle_list@.contains(*it.seq()[j]) by {
                    if j < i0 {
                        let w = choose|w: int| 0 <= w < il0.len() && il0[w] == *it.seq()[j];
                        assert(idle_list@[w] == il0[w]);
                    } else {
                        assert(idle_list@.last() == *k);
                    }
                }
                if i0 + 1 == m.dom().len() {
                    assert forall|x: u128| ex.contains(x) implies expired_list@.to_set().contains(x) by {
                        assert(it.seq().unref().to_set().contains(x));
                        let j = choose|j: int| 0 <= j < it.seq().unref().len() && it.seq().unref()[j] == x;
                        assert(*it.seq()[j] == x);
                    }
                    assert forall|x: u128| idl.contains(x) implies idle_list@.to_set().contains(x) by {
                        assert(it.seq().unref().to_set().contains(x));
                        let j = choose|j: int| 0 <= j < it.seq().unref().len() && it.seq().unref()[j] == x;
                        assert(*it.seq()[j] == x);
                    }
                    assert(expired_list@.to_set() =~= ex);
                    assert(idle_list@.to_set() =~= idl);
                }
            }
        }
        let expired_count = expired_list.len();
        let idle_count = idle_list.len();
        proof {
            expired_list@.unique_seq_to_set();
            idle_list@.unique_seq_to_set();
        }
        self.remove_all(&expired_list);
        self.remove_all(&idle_list);
        proof {
            assert(self@.sessions =~= m.remove_keys(ex.union(idl)));
        }
        CleanupStats { expired_sessions: expired_count, idle_sessions: idle_count }
    }

    /// Number of sessions.
    pub fn len(&self) -> (n: usize)
        ensures
            n == self@.sessions.len(),
    {
        self.sessions.len()
    }

    pub fn max_sessions(&self) -> (n: usize)
        ensures
            n == self@.max_sessions,
    {
        self.max_sessions
    }

    pub fn contains(&self, session_id: &u128) -> (b: bool)
        ensures
            b == self@.sessions.contains_key(*session_id),
    {
        self.sessions.contains_key(session_id)
    }


    /// Number of sessions that are active or renewed.
    pub fn active_count(&self) -> (n: usize)
        ensures
            n == active_ids(self@.sessions).len(),
    {
        let ghost m = self@.sessions;
        let ghost act = active_ids(m);
        let mut list: Vec<u128> = Vec::new();
        let ghost mut seen: Set<u128> = Set::empty();
        for k in it: self.sessions.keys()
            invariant
                m == self@.sessions,
                act == active_ids(m),
                it.seq().unref().to_set() == m.dom(),
                it.seq().no_duplicates(),
                list@.no_duplicates(),
                forall|t: int| 0 <= t < list@.len() ==> act.contains(#[trigger] list@[t]),
                forall|j: int|
                    0 <= j < it.index() ==> (act.contains(*#[trigger] it.seq()[j])
                        ==> list@.contains(*it.seq()[j])),
                forall|x: u128|
                    #[trigger] seen.contains(x) <==> exists|j: int|
                        0 <= j < it.index() && it.seq().unref()[j] == x,
                forall|t: int| 0 <= t < list@.len() ==> seen.contains(#[trigger] list@[t]),
            ensures
                list@.to_set() == act,
                list@.no_duplicates(),
        {
            let ghost i0 = it.index();
            let ghost l0 = list@;
            proof {
                assert(it.seq().unref()[i0] == *k);
                assert(it.seq().unref().to_set().contains(*k));
            }
            if let Some(session) = self.sessions.get(k) {
                if session.state == SessionState::Active || session.state == SessionState::Renewed {
                    proof {
                        assert forall|t: int| 0 <= t < l0.len() implies l0[t] != *k by {
                            assert(seen.contains(l0[t]));
                            let j = choose|j: int| 0 <= j < i0 && it.seq().unref()[j] == l0[t];
                            assert(it.seq()[j] != it.seq()[i0]);
                        }
                    }
                    list.push(*k);
                }
            }
            proof {
                let old_seen = seen;
                seen = seen.insert(*k);
                assert forall|x: u128|
                    #[trigger] seen.contains(x) <==> exists|j: int|
                        0 <= j < i0 + 1 && it.seq().unref()[j] == x by {
                    if x == *k {
                        assert(it.seq().unref()[i0] == x);
                    } else if exists|j: int| 0 <= j < i0 + 1 && it.seq().unref()[j] == x {
                        let j = choose|j: int| 0 <= j < i0 + 1 && it.seq().unref()[j] == x;
                        if j < i0 {
                            assert(old_seen.contains(x));
                        }
                    }
                }
                assert forall|t: int| 0 <= t < list@.len() implies seen.contains(#[trigger] list@[t]) by {
                    if t < l0.len() {
                        assert(old_seen.contains(l0[t]));
                    }
                }
                assert forall|j: int|
                    0 <= j < i0 + 1 && act.contains(*#[trigger] it.seq()[j]) implies list@.contains(*it.seq()[j]) by {
                    if j < i0 {
                        let w = choose|w: int| 0 <= w < l0.len() && l0[w] == *it.seq()[j];
                        assert(list@[w] == l0[w]);
                    } else {
                        assert(list@.last() == *k);
                    }
                }
                if i0 + 1 == m.dom().len() {
                    assert forall|x: u128| act.contains(x) implies list@.to_set().contains(x) by {
                        assert(it.seq().unref().to_set().contains(x));
                        let j = choose|j: int| 0 <= j < it.seq().unref().len() && it.seq().unref()[j] == x;
                        assert(*it.seq()[j] == x);
                    }
                    assert(list@.to_set() =~= act);
                }
            }
        }
        proof {
            list@.unique_seq_to_set();
        }
        list.len()
    }

    pub fn is_empty(&self) -> (b: bool)
        ensures
            b == (self@.sessions.len() == 0),
    {
        self.sessions.is_empty()
    }
}


/// After a successful registration the state reflects exactly which peers are present.
pub proof fn law_register_state_tracks_peers(s: SessionView, role: PeerRole, id: Seq<char>, addr: PeerAddr, now: u64)
    ensures
        s.register_outcome(role, id, addr, now).1 is Ok ==> {
            let t = s.register_outcome(role, id, addr, now).0;
            &&& t.state == state_for_peers(t.client is Some, t.server is Some)
            &&& t.slot(role) is Some
            &&& t.slot(role)->0.socket_addr == addr
            &&& t.locked_id(role) == Some(id)
        },
{
}

/// A role locked to one identity refuses any other identity and nothing changes.
pub proof fn law_locked_role_refuses_other_identity(
    s: SessionView,
    role: PeerRole,
    id: Seq<char>,
    addr: PeerAddr,
    now: u64,
)
    requires
        s.locked_id(role) is Some,
        s.locked_id(role)->0 != id,
    ensures
        s.register_outcome(role, id, addr, now) == (s, Err::<(), SessionError>(SessionError::InvalidLease)),
{
}

/// The registered identity re-registering from a new address (NAT rebinding)
/// succeeds and moves the peer to the new address.
pub proof fn law_rebinding_same_identity(
    s: SessionView,
    role: PeerRole,
    addr: PeerAddr,
    now: u64,
)
    requires
        s.slot(role) is Some,
        s.locked_id(role) == Some(s.slot(role)->0.wavry_id),
    ensures
        s.register_outcome(role, s.slot(role)->0.wavry_id, addr, now).1 is Ok,
        s.register_outcome(role, s.slot(role)->0.wavry_id, addr, now).0.slot(role)->0.socket_addr == addr,
        s.register_outcome(role, s.slot(role)->0.wavry_id, addr, now).0.slot(role)->0.wavry_id == s.slot(role)->0.wavry_id,
{
}

/// Renewing an expired session fails and leaves it expired; renewing a live
/// session with both peers makes it active until the new expiry.
pub proof fn law_renew(s: SessionView, duration: u64, now: u64)
    requires
        !s.expired_at(now) ==> now + duration <= u64::MAX,
    ensures
        s.expired_at(now) ==> s.renew_outcome(duration, now).1 == Err::<(), SessionError>(SessionError::LeaseExpired)
            && s.renew_outcome(duration, now).0.state == SessionState::Expired
            && s.renew_outcome(duration, now).0.expired_at(now),
        !s.expired_at(now) && s.client is Some && s.server is Some && duration > 0 ==> s.renew_outcome(duration, now).0.active_at(now),
{
}

/// Renewing a session that has not expired succeeds and moves its lease end
/// to exactly `duration` after `now`: with both peers registered it is then
/// active at every instant before that end and expired from it on.
pub proof fn law_renew_extends_lease(s: SessionView, duration: u64, now: u64, t: u64)
    requires
        !s.expired_at(now),
        now + duration <= u64::MAX,
    ensures
        s.renew_outcome(duration, now).1 == Ok::<(), SessionError>(()),
        s.renew_outcome(duration, now).0.lease_expires == now + duration,
        s.client is Some && s.server is Some ==> s.renew_outcome(duration, now).0.state == SessionState::Renewed,
        s.client is Some && s.server is Some && now <= t < now + duration ==> s.renew_outcome(duration, now).0.active_at(t),
        t >= now + duration ==> s.renew_outcome(duration, now).0.expired_at(t),
{
}

/// After a cleanup at `now`, no remaining session is expired or idle at `now`.
pub proof fn law_cleanup_leaves_no_stale(m: Map<u128, RelaySession>, now: u64, timeout: u64)
    ensures
        forall|k: u128| #[trigger] m.remove_keys(expired_ids(m, now).union(idle_ids(m, now, timeout))).contains_key(k) ==> {
            &&& !m[k]@.expired_at(now)
            &&& (if now >= m[k].last_activity { now - m[k].last_activity } else { 0 }) <= timeout
        },
{
    assert forall|k: u128| #[trigger] m.remove_keys(expired_ids(m, now).union(idle_ids(m, now, timeout))).contains_key(k) implies {
            &&& !m[k]@.expired_at(now)
            &&& (if now >= m[k].last_activity { now - m[k].last_activity } else { 0 }) <= timeout
        } by {
        assert(!expired_ids(m, now).contains(k));
        assert(!idle_ids(m, now, timeout).contains(k));
    }
}

/// Creating sessions never takes the pool past its maximum.
pub proof fn law_pool_bounded(pre: SessionPoolView, post: SessionPoolView, session_id: u128)
    requires
        pre.sessions.dom().finite(),
        pre.sessions.len() <= pre.max_sessions,
        post.max_sessions == pre.max_sessions,
        pre.sessions.contains_key(session_id) ==> post == pre,
        !pre.sessions.contains_key(session_id) && pre.sessions.len() >= pre.max_sessions ==> post == pre,
        !pre.sessions.contains_key(session_id) && pre.sessions.len() < pre.max_sessions
            ==> post.sessions.dom() == pre.sessions.dom().insert(session_id),
    ensures
        post.sessions.len() <= post.max_sessions,
{
}

/// String equality.
fn str_eq(a: &String, b: &String) -> (r: bool)
    ensures
        r == (a@ == b@),
{
    *a == *b
}

/// The session count at which new sessions are shed: `pct` percent of the
/// capacity, at least one.
pub open spec fn shed_threshold(max_sessions: int, pct: int) -> int {
    if max_sessions * pct / 100 >= 1 {
        max_sessions * pct / 100
    } else {
        1
    }
}

/// The session count at which new sessions are shed, for a capacity of
/// `max_sessions` and a threshold of `pct` percent.
pub fn load_shed_threshold(max_sessions: usize, pct: u8) -> (t: usize)
    requires
        pct <= 100,
        max_sessions as int * pct as int <= u64::MAX,
    ensures
        t == shed_threshold(max_sessions as int, pct as int),
{
    let product: u64 = (max_sessions as u64) * (pct as u64);
    let t = product / 100;
    proof {
        assert(t <= max_sessions) by (nonlinear_arith)
            requires
                product == max_sessions * pct,
                pct <= 100,
                t == product / 100,
        ;
    }
    if t >= 1 {
        t as usize
    } else {
        1
    }
}

impl SessionPool {
    /// Whether a packet opening session `session_id` is turned away because
    /// the pool holds `pct` percent of its capacity or more.
    pub fn should_shed_new_session(&self, session_id: u128, pct: u8) -> (b: bool)
        requires
            pct <= 100,
            self@.max_sessions as int * pct as int <= u64::MAX,
        ensures
            b == (!self@.sessions.contains_key(session_id) && self@.sessions.len() >= shed_threshold(
                self@.max_sessions as int,
                pct as int,
            )),
    {
        if self.contains(&session_id) {
            return false;
        }
        self.len() >= load_shed_threshold(self.max_sessions(), pct)
    }

    /// Whether the relay takes new sessions: it has the master's key, is
    /// registered, and holds fewer sessions than the shedding threshold.
    pub fn is_ready(&self, has_master_key: bool, registered: bool, pct: u8) -> (b: bool)
        requires
            pct <= 100,
            self@.max_sessions as int * pct as int <= u64::MAX,
        ensures
            b == (has_master_key && registered && self@.sessions.len() < shed_threshold(
                self@.max_sessions as int,
                pct as int,
            )),
    {
        if !has_master_key || !registered {
            return false;
        }
        self.len() < load_shed_threshold(self.max_sessions(), pct)
    }
}

} // verus!
