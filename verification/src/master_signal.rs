//! The master's signaling socket: a client binds a name, then asks for a
//! relay to reach another user (within its lease quota) or sends WebRTC
//! messages, which go to their target with the sender's name in place of
//! the target's.

use vstd::prelude::*;
use crate::registry::{LeaseQuota, RelayRegistry, RecordView, recent, times_of, times_after, LEASE_LIMIT_PER_WINDOW};
use crate::selection::{GeoInfo, RelayState};
use crate::text::{chars_of, push_char, to_owned_string};

verus! {

/// A message a client sends to the master, as far as the master reads it.
#[derive(Debug, Clone)]
pub enum MasterSignal {
    Bind { token: String },
    RequestRelay { target_username: String, region: Option<String> },
    Offer { target_username: String, sdp: String, public_addr: Option<String> },
    Answer { target_username: String, sdp: String, public_addr: Option<String> },
    Candidate { target_username: String, candidate: String },
    /// Any other message.
    Other,
}

/// What the master does with a message.
#[derive(Debug)]
pub enum MasterAction {
    /// Record this connection as the peer of this user.
    RegisterPeer(String),
    /// Send the client an error.
    Error { code: u16, message: String },
    /// Choose a relay near `region` for a session between `host` (the
    /// sender) and `client`, and send both their leases.
    AssignRelay { host: String, client: String, region: Option<String> },
    /// Send this message to this user.
    Relay { target: String, message: MasterSignal },
    Ignore,
}

/// The name a bind token gives: "user_" and the token's first eight
/// characters.
pub open spec fn bind_name(token: Seq<char>) -> Seq<char> {
    "user_"@ + token.take(if token.len() < 8 { token.len() as int } else { 8 })
}

/// The name of the user a bind token stands for.
pub fn bind_username(token: &str) -> (r: String)
    ensures
        r@ == bind_name(token@),
{
    let chars = chars_of(token);
    let n: usize = if chars.len() < 8 { chars.len() } else { 8 };
    let mut r = to_owned_string("user_");
    let mut i: usize = 0;
    while i < n
        invariant
            n <= chars@.len(),
            chars@ == token@,
            i <= n,
            r@ == "user_"@ + token@.take(i as int),
        decreases n - i,
    {
        push_char(&mut r, chars[i]);
        i = i + 1;
        proof {
            assert(token@.take(i as int) =~= token@.take(i - 1).push(token@[i - 1]));
        }
    }
    r
}

/// Whether `a` relays the WebRTC message `m` from `sender` to its target:
/// the same payload, addressed to the target, naming the sender.
pub open spec fn master_relays(m: MasterSignal, sender: Seq<char>, a: MasterAction) -> bool {
    match (m, a) {
        (
            MasterSignal::Offer { target_username: t, sdp, public_addr },
            MasterAction::Relay {
                target,
                message: MasterSignal::Offer { target_username: n, sdp: s, public_addr: p },
            },
        ) => target@ == t@ && n@ == sender && s@ == sdp@ && p == public_addr,
        (
            MasterSignal::Answer { target_username: t, sdp, public_addr },
            MasterAction::Relay {
                target,
                message: MasterSignal::Answer { target_username: n, sdp: s, public_addr: p },
            },
        ) => target@ == t@ && n@ == sender && s@ == sdp@ && p == public_addr,
        (
            MasterSignal::Candidate { target_username: t, candidate },
            MasterAction::Relay {
                target,
                message: MasterSignal::Candidate { target_username: n, candidate: c },
            },
        ) => target@ == t@ && n@ == sender && c@ == candidate@,
        _ => false,
    }
}

/// A client's connection to the master.
pub struct MasterSocket {
    /// The name the client bound, if any.
    pub username: Option<String>,
}

impl MasterSocket {
    /// A connection that has bound no name.
    pub fn new() -> (s: Self)
        ensures
            s.username is None,
    {
        MasterSocket { username: None }
    }

    /// Handles one message; `quota` counts the leases of each user at `now`.
    pub fn on_message(&mut self, msg: MasterSignal, quota: &mut LeaseQuota, now: u64) -> (a: MasterAction)
        requires
            old(quota).wf(),
        ensures
            final(quota).wf(),
            match msg {
                MasterSignal::Bind { token } => {
                    &&& final(self).username matches Some(u) && u@ == bind_name(token@)
                    &&& (a matches MasterAction::RegisterPeer(u) && u@ == bind_name(token@))
                    &&& final(quota)@ == old(quota)@
                },
                MasterSignal::RequestRelay { target_username, region } => {
                    &&& final(self).username == old(self).username
                    &&& match old(self).username {
                        None => a is Ignore && final(quota)@ == old(quota)@,
                        Some(src) => {
                            let granted = recent(times_of(old(quota)@, src@), now).len()
                                < LEASE_LIMIT_PER_WINDOW;
                            &&& granted ==> (a matches MasterAction::AssignRelay { host, client, region: r }
                                && host@ == src@ && client@ == target_username@ && r == region)
                            &&& !granted ==> (a matches MasterAction::Error { code, message } && code
                                == 429 && message@ == "Lease rate limit exceeded. Please wait a moment."@)
                            &&& times_of(final(quota)@, src@) == times_after(times_of(old(quota)@, src@), now)
                            &&& forall|u: Seq<char>|
                                u != src@ ==> #[trigger] times_of(final(quota)@, u) == times_of(old(quota)@, u)
                        },
                    }
                },
                MasterSignal::Other => {
                    &&& a is Ignore
                    &&& final(self).username == old(self).username
                    &&& final(quota)@ == old(quota)@
                },
                _ => {
                    &&& final(self).username == old(self).username
                    &&& final(quota)@ == old(quota)@
                    &&& match old(self).username {
                        None => a is Ignore,
                        Some(src) => master_relays(msg, src@, a),
                    }
                },
            },
    {
        match msg {
            MasterSignal::Bind { token } => {
                let name = bind_username(token.as_str());
                self.username = Some(name.clone());
                MasterAction::RegisterPeer(name)
            },
            MasterSignal::RequestRelay { target_username, region } => match &self.username {
                None => MasterAction::Ignore,
                Some(src) => {
                    if !quota.check(src.as_str(), now) {
                        MasterAction::Error {
                            code: 429,
                            message: to_owned_string("Lease rate limit exceeded. Please wait a moment."),
                        }
                    } else {
                        MasterAction::AssignRelay { host: src.clone(), client: target_username, region }
                    }
                },
            },
            MasterSignal::Offer { target_username, sdp, public_addr } => match &self.username {
                None => MasterAction::Ignore,
                Some(src) => MasterAction::Relay {
                    target: target_username,
                    message: MasterSignal::Offer { target_username: src.clone(), sdp, public_addr },
                },
            },
            MasterSignal::Answer { target_username, sdp, public_addr } => match &self.username {
                None => MasterAction::Ignore,
                Some(src) => MasterAction::Relay {
                    target: target_username,
                    message: MasterSignal::Answer { target_username: src.clone(), sdp, public_addr },
                },
            },
            MasterSignal::Candidate { target_username, candidate } => match &self.username {
                None => MasterAction::Ignore,
                Some(src) => MasterAction::Relay {
                    target: target_username,
                    message: MasterSignal::Candidate { target_username: src.clone(), candidate },
                },
            },
            MasterSignal::Other => MasterAction::Ignore,
        }
    }
}

/// Whether a relay in `state` may be offered to a client at all: not
/// draining, quarantined or banned.
pub open spec fn offerable(state: RelayState) -> bool {
    !(state == RelayState::Draining || state == RelayState::Quarantined || state == RelayState::Banned)
}

/// The positions of the relays that may be offered, in registry order.
pub open spec fn candidate_indices(s: Seq<RecordView>) -> Seq<usize>
    decreases s.len(),
{
    if s.len() == 0 {
        seq![]
    } else if offerable(s.last().state) {
        candidate_indices(s.drop_last()).push((s.len() - 1) as usize)
    } else {
        candidate_indices(s.drop_last())
    }
}

/// The positions of the relays that may be offered to a client.
pub fn relay_candidates(registry: &RelayRegistry) -> (r: Vec<usize>)
    ensures
        r@ == candidate_indices(registry@),
{
    let mut r: Vec<usize> = Vec::new();
    let mut i: usize = 0;
    while i < registry.relays.len()
        invariant
            i <= registry@.len(),
            r@ == candidate_indices(registry@.subrange(0, i as int)),
        decreases registry.relays.len() - i,
    {
        proof {
            let t = registry@.subrange(0, i + 1);
            assert(t.drop_last() =~= registry@.subrange(0, i as int));
            assert(t.last() == registry@[i as int]);
        }
        let st = registry.relays[i].state;
        if !(st == RelayState::Draining || st == RelayState::Quarantined || st == RelayState::Banned) {
            r.push(i);
        }
        i = i + 1;
    }
    proof {
        assert(registry@.subrange(0, registry@.len() as int) =~= registry@);
    }
    r
}

/// A copy of an optional string.
fn copy_opt(s: &Option<String>) -> (r: Option<String>)
    ensures
        crate::auth_flow::ov(r) == crate::auth_flow::ov(*s),
{
    match s {
        Some(v) => Some(v.clone()),
        None => None,
    }
}

/// The region and network of each relay at the given positions, for the
/// geographic filter.
pub fn candidate_geo(registry: &RelayRegistry, indices: &Vec<usize>) -> (r: Vec<GeoInfo>)
    requires
        forall|k: int| 0 <= k < indices@.len() ==> indices@[k] < registry@.len(),
    ensures
        r@.len() == indices@.len(),
        forall|k: int|
            0 <= k < indices@.len() ==> crate::auth_flow::ov((#[trigger] r@[k]).region)
                == registry@[indices@[k] as int].region && r@[k].asn == registry@[indices@[k] as int].asn,
{
    let mut r: Vec<GeoInfo> = Vec::new();
    let mut k: usize = 0;
    while k < indices.len()
        invariant
            forall|j: int| 0 <= j < indices@.len() ==> indices@[j] < registry@.len(),
            k <= indices@.len(),
            r@.len() == k,
            forall|j: int|
                0 <= j < k ==> crate::auth_flow::ov((#[trigger] r@[j]).region)
                    == registry@[indices@[j] as int].region && r@[j].asn == registry@[indices@[j] as int].asn,
        decreases indices.len() - k,
    {
        let i = indices[k];
        let rec = &registry.relays[i];
        r.push(GeoInfo { region: copy_opt(&rec.region), asn: rec.asn });
        k = k + 1;
    }
    r
}

/// The public half of an Ed25519 signing key held as its 64 bytes (the seed,
/// then the public key): the last 32 bytes.
pub fn public_key_from_signing_key(signing_key: &[u8]) -> (r: Vec<u8>)
    requires
        signing_key@.len() == 64,
    ensures
        r@ == signing_key@.subrange(32, 64),
{
    crate::nal::copy_range(signing_key, 32, 64)
}

/// The id a signing key goes by when none is configured: "k" and the hex of
/// the first eight bytes of its public key.
pub fn derive_default_key_id(signing_key: &[u8]) -> (r: String)
    requires
        signing_key@.len() == 64,
    ensures
        r@ == "k"@ + crate::security::hex_lower(signing_key@.subrange(32, 40)),
{
    let public = public_key_from_signing_key(signing_key);
    let prefix = crate::nal::copy_range(public.as_slice(), 0, 8);
    proof {
        assert(prefix@ =~= signing_key@.subrange(32, 40));
    }
    let hex = crate::security::hex_encode(prefix.as_slice());
    let mut r = to_owned_string("k");
    crate::text::append_str(&mut r, hex.as_str());
    r
}

} // verus!
