//! The signalling WebSocket of the gateway as a state machine: for each
//! frame a client sends, what the connection answers, relays or asks of the
//! database, and when it closes. Sending, receiving, JSON decoding and the
//! database are the caller's.

use vstd::prelude::*;
use crate::rate_limit::FixedWindowRateLimiter;
use crate::security::{byte_len, valid_session_token, valid_username};

verus! {

/// Largest text frame accepted, in bytes.
pub const WS_MAX_TEXT_BYTES: usize = 65536;

/// Frames accepted per minute on one connection.
pub const WS_MAX_MESSAGES_PER_MINUTE: u32 = 600;

/// Largest SDP relayed, in bytes.
pub const MAX_SIGNAL_SDP_BYTES: usize = 32768;

/// Largest ICE candidate relayed, in bytes.
pub const MAX_SIGNAL_CANDIDATE_BYTES: usize = 4096;

/// Largest RIFT hello or acknowledgement relayed, in bytes.
pub const MAX_RIFT_PAYLOAD_BYTES: usize = 8192;

/// A minute in nanoseconds.
pub const MINUTE_NS: u64 = 60_000_000_000;

/// A signalling message, in either direction.
#[derive(Debug, Clone)]
pub enum SignalMessage {
    Bind { token: String },
    OfferRift { target_username: String, hello_base64: String },
    AnswerRift { target_username: String, ack_base64: String },
    Offer { target_username: String, sdp: String },
    Answer { target_username: String, sdp: String },
    Candidate { target_username: String, candidate: String },
    RequestRelay { target_username: String },
    RelayCredentials { token: String, addr: String, session_id: u128 },
    Error { message: String },
    Bound,
}

/// What a client sent on the socket, as far as the caller could read it.
#[derive(Debug, Clone)]
pub enum SocketEvent {
    /// A text frame holding a well-formed message.
    Text(SignalMessage),
    /// A text frame of more than [`WS_MAX_TEXT_BYTES`] bytes.
    TextTooLarge,
    /// A text frame that is not a valid message.
    InvalidJson,
    Binary,
    Close,
    /// A ping or pong.
    Control,
}

/// The event a text frame of `byte_len` bytes makes: too large beyond
/// [`WS_MAX_TEXT_BYTES`], else the message it parses to (`parsed`), or
/// invalid when it parses to none.
pub fn text_frame_event(byte_len: usize, parsed: Option<SignalMessage>) -> (e: SocketEvent)
    ensures
        byte_len > WS_MAX_TEXT_BYTES ==> e is TextTooLarge,
        byte_len <= WS_MAX_TEXT_BYTES ==> match parsed {
            Some(m) => e == SocketEvent::Text(m),
            None => e is InvalidJson,
        },
{
    if byte_len > WS_MAX_TEXT_BYTES {
        return SocketEvent::TextTooLarge;
    }
    match parsed {
        Some(m) => SocketEvent::Text(m),
        None => SocketEvent::InvalidJson,
    }
}

/// What the connection does in answer.
#[derive(Debug, Clone)]
pub enum SocketAction {
    /// Nothing; read the next frame.
    Ignore,
    /// Close without a word.
    Close,
    /// Send an error message, then close.
    ErrorAndClose(&'static str),
    /// Send an error message and read the next frame.
    Error(&'static str),
    /// Look up the user of this session token, then report with
    /// [`SignalSocket::on_token_lookup`].
    LookupToken(String),
    /// Register this connection for the user, replacing an older one, and
    /// send [`SignalMessage::Bound`].
    Bind(String),
    /// Forward the message to the connection of the target user, if any.
    Relay { target: String, message: SignalMessage },
    /// Set up relay credentials between the bound user and `client`.
    CreateRelay { host: String, client: String },
}

/// The message relayed to `target` when `src` sends `m`: the same message,
/// naming `src` as its counterpart.
pub open spec fn relayed(m: SignalMessage, src: Seq<char>, out: SignalMessage) -> bool {
    match (m, out) {
        (
            SignalMessage::OfferRift { hello_base64: h, .. },
            SignalMessage::OfferRift { target_username: t, hello_base64: h2 },
        ) => t@ == src && h2@ == h@,
        (
            SignalMessage::AnswerRift { ack_base64: a, .. },
            SignalMessage::AnswerRift { target_username: t, ack_base64: a2 },
        ) => t@ == src && a2@ == a@,
        (SignalMessage::Offer { sdp: s, .. }, SignalMessage::Offer { target_username: t, sdp: s2 }) =>
            t@ == src && s2@ == s@,
        (SignalMessage::Answer { sdp: s, .. }, SignalMessage::Answer { target_username: t, sdp: s2 }) =>
            t@ == src && s2@ == s@,
        (
            SignalMessage::Candidate { candidate: c, .. },
            SignalMessage::Candidate { target_username: t, candidate: c2 },
        ) => t@ == src && c2@ == c@,
        _ => false,
    }
}

/// The target user and payload of a message that is relayed, with the
/// payload's size limit and the error sent when either is invalid.
pub open spec fn relay_parts(m: SignalMessage) -> Option<(Seq<char>, Seq<char>, int, Seq<char>)> {
    match m {
        SignalMessage::OfferRift { target_username, hello_base64 } => Some(
            (
                target_username@,
                hello_base64@,
                MAX_RIFT_PAYLOAD_BYTES as int,
                "Invalid OFFER_RIFT payload"@,
            ),
        ),
        SignalMessage::AnswerRift { target_username, ack_base64 } => Some(
            (
                target_username@,
                ack_base64@,
                MAX_RIFT_PAYLOAD_BYTES as int,
                "Invalid ANSWER_RIFT payload"@,
            ),
        ),
        SignalMessage::Offer { target_username, sdp } => Some(
            (target_username@, sdp@, MAX_SIGNAL_SDP_BYTES as int, "Invalid OFFER payload"@),
        ),
        SignalMessage::Answer { target_username, sdp } => Some(
            (target_username@, sdp@, MAX_SIGNAL_SDP_BYTES as int, "Invalid ANSWER payload"@),
        ),
        SignalMessage::Candidate { target_username, candidate } => Some(
            (
                target_username@,
                candidate@,
                MAX_SIGNAL_CANDIDATE_BYTES as int,
                "Invalid CANDIDATE payload"@,
            ),
        ),
        _ => None,
    }
}

/// Abstract state of a [`SignalSocket`].
pub ghost struct SocketView {
    pub username: Option<Seq<char>>,
    pub window_start: u64,
    pub message_count: u32,
    pub awaiting_lookup: bool,
}

/// Whether `a` is the error `msg` (closing or not).
pub open spec fn is_error(a: SocketAction, msg: Seq<char>, close: bool) -> bool {
    if close {
        (a matches SocketAction::ErrorAndClose(m) && m@ == msg)
    } else {
        (a matches SocketAction::Error(m) && m@ == msg)
    }
}

/// What the connection does with a message from a client bound as `src`
/// (or not bound, `None`), with the bind limiter's answer `bind_allowed`.
pub open spec fn message_action(
    username: Option<Seq<char>>,
    m: SignalMessage,
    bind_allowed: bool,
    a: SocketAction,
) -> bool {
    match m {
        SignalMessage::Bind { token } => if username is Some {
            is_error(a, "Already bound"@, true)
        } else if !bind_allowed {
            is_error(a, "Bind rate limit exceeded"@, true)
        } else if !valid_session_token(token@) {
            is_error(a, "Invalid token format"@, true)
        } else {
            (a matches SocketAction::LookupToken(t) && t@ == token@)
        },
        SignalMessage::RequestRelay { target_username } => if username is None {
            is_error(a, "Bind required before signaling"@, true)
        } else if !valid_username(target_username@) {
            is_error(a, "Invalid target username"@, false)
        } else {
            (a matches SocketAction::CreateRelay { host, client } && host@ == username->0 && client@
                == target_username@)
        },
        SignalMessage::RelayCredentials { .. } | SignalMessage::Error { .. } | SignalMessage::Bound =>
            is_error(a, "Unsupported client message type"@, false),
        _ => {
            let (target, payload, max, err) = relay_parts(m)->0;
            if username is None {
                is_error(a, "Bind required before signaling"@, true)
            } else if !valid_username(target) || byte_len(payload) > max {
                is_error(a, err, false)
            } else {
                (a matches SocketAction::Relay { target: t, message } && t@ == target && relayed(
                    m,
                    username->0,
                    message,
                ))
            }
        },
    }
}

/// The message count and window after one more frame at `now`.
pub open spec fn counted_frame(v: SocketView, now: u64) -> (u64, u32) {
    let (start, count) = if (if now >= v.window_start {
        now - v.window_start
    } else {
        0
    }) >= MINUTE_NS {
        (now, 0u32)
    } else {
        (v.window_start, v.message_count)
    };
    (
        start,
        if count < u32::MAX {
            (count + 1) as u32
        } else {
            u32::MAX
        },
    )
}

/// The connection state of one signalling client.
pub struct SignalSocket {
    username: Option<String>,
    window_start: u64,
    message_count: u32,
    awaiting_lookup: bool,
}

/// The optional view of an optional string.
pub open spec fn opt_view(s: Option<String>) -> Option<Seq<char>> {
    match s {
        Some(x) => Some(x@),
        None => None,
    }
}

impl View for SignalSocket {
    type V = SocketView;

    closed spec fn view(&self) -> SocketView {
        SocketView {
            username: opt_view(self.username),
            window_start: self.window_start,
            message_count: self.message_count,
            awaiting_lookup: self.awaiting_lookup,
        }
    }
}

impl SignalSocket {
    /// A connection opened at `now`, not bound to a user.
    pub fn new(now: u64) -> (s: Self)
        ensures
            s@ == (SocketView {
                username: None,
                window_start: now,
                message_count: 0,
                awaiting_lookup: false,
            }),
    {
        SignalSocket { username: None, window_start: now, message_count: 0, awaiting_lookup: false }
    }

    /// The user this connection is bound to, if any.
    pub fn username(&self) -> (r: Option<&String>)
        ensures
            opt_view(
                match r {
                    Some(u) => Some(*u),
                    None => None,
                },
            ) == self@.username,
    {
        match &self.username {
            Some(u) => Some(u),
            None => None,
        }
    }

    /// The answer to a frame received at `now` from address `ip`; a bind is
    /// counted on `bind_limiter` under the key `bind:<ip>`.
    pub fn on_frame(
        &mut self,
        now: u64,
        event: SocketEvent,
        ip: &str,
        bind_limiter: &mut FixedWindowRateLimiter,
    ) -> (a: SocketAction)
        requires
            old(bind_limiter).wf(),
            !old(self)@.awaiting_lookup,
        ensures
            final(bind_limiter).wf(),
            ({
                let (start, count) = counted_frame(old(self)@, now);
                &&& final(self)@.window_start == start
                &&& final(self)@.message_count == count
                &&& final(self)@.username == old(self)@.username
                &&& final(self)@.awaiting_lookup == (a is LookupToken)
                &&& if count > WS_MAX_MESSAGES_PER_MINUTE {
                    is_error(a, "Rate limit exceeded"@, true) && final(bind_limiter)@ == old(
                        bind_limiter,
                    )@
                } else {
                    match event {
                        SocketEvent::Binary => is_error(a, "Binary messages are not supported"@, true),
                        SocketEvent::Close => a is Close,
                        SocketEvent::Control => a is Ignore,
                        SocketEvent::TextTooLarge => is_error(a, "Message too large"@, true),
                        SocketEvent::InvalidJson => is_error(a, "Invalid JSON"@, true),
                        SocketEvent::Text(m) => {
                            let binding = m is Bind && old(self)@.username is None;
                            let key = seq!['b', 'i', 'n', 'd', ':'] + ip@;
                            let (lim, allowed) = old(bind_limiter)@.allow_outcome(key, now);
                            &&& binding ==> final(bind_limiter)@ == lim
                            &&& !binding ==> final(bind_limiter)@ == old(bind_limiter)@
                            &&& message_action(old(self)@.username, m, allowed, a)
                        },
                    }
                }
            }),
    {
        if now.saturating_sub(self.window_start) >= MINUTE_NS {
            self.window_start = now;
            self.message_count = 0;
        }
        self.message_count = self.message_count.saturating_add(1);
        if self.message_count > WS_MAX_MESSAGES_PER_MINUTE {
            return SocketAction::ErrorAndClose("Rate limit exceeded");
        }
        let m = match event {
            SocketEvent::Binary => return SocketAction::ErrorAndClose(
                "Binary messages are not supported",
            ),
            SocketEvent::Close => return SocketAction::Close,
            SocketEvent::Control => return SocketAction::Ignore,
            SocketEvent::TextTooLarge => return SocketAction::ErrorAndClose("Message too large"),
            SocketEvent::InvalidJson => return SocketAction::ErrorAndClose("Invalid JSON"),
            SocketEvent::Text(m) => m,
        };
        match m {
            SignalMessage::Bind { token } => {
                if self.username.is_some() {
                    return SocketAction::ErrorAndClose("Already bound");
                }
                let key = crate::auth::rate_limit_key("bind", ip);
                proof {
                    reveal_strlit("bind");
                    assert("bind"@ + seq![':'] + ip@ =~= seq!['b', 'i', 'n', 'd', ':'] + ip@);
                }
                if !bind_limiter.allow(key.as_str(), now) {
                    return SocketAction::ErrorAndClose("Bind rate limit exceeded");
                }
                if !crate::security::is_valid_session_token(token.as_str()) {
                    return SocketAction::ErrorAndClose("Invalid token format");
                }
                self.awaiting_lookup = true;
                SocketAction::LookupToken(token)
            },
            SignalMessage::RequestRelay { target_username } => {
                let src = match &self.username {
                    Some(u) => u.clone(),
                    None => return SocketAction::ErrorAndClose("Bind required before signaling"),
                };
                if !crate::security::is_valid_username(target_username.as_str()) {
                    return SocketAction::Error("Invalid target username");
                }
                SocketAction::CreateRelay { host: src, client: target_username }
            },
            SignalMessage::RelayCredentials { .. } | SignalMessage::Error { .. }
            | SignalMessage::Bound => SocketAction::Error("Unsupported client message type"),
            SignalMessage::OfferRift { target_username, hello_base64 } => {
                let src = match &self.username {
                    Some(u) => u.clone(),
                    None => return SocketAction::ErrorAndClose("Bind required before signaling"),
                };
                if !crate::security::is_valid_username(target_username.as_str())
                    || hello_base64.as_str().as_bytes().len() > MAX_RIFT_PAYLOAD_BYTES {
                    return SocketAction::Error("Invalid OFFER_RIFT payload");
                }
                SocketAction::Relay {
                    target: target_username,
                    message: SignalMessage::OfferRift { target_username: src, hello_base64 },
                }
            },
            SignalMessage::AnswerRift { target_username, ack_base64 } => {
                let src = match &self.username {
                    Some(u) => u.clone(),
                    None => return SocketAction::ErrorAndClose("Bind required before signaling"),
                };
                if !crate::security::is_valid_username(target_username.as_str())
                    || ack_base64.as_str().as_bytes().len() > MAX_RIFT_PAYLOAD_BYTES {
                    return SocketAction::Error("Invalid ANSWER_RIFT payload");
                }
                SocketAction::Relay {
                    target: target_username,
                    message: SignalMessage::AnswerRift { target_username: src, ack_base64 },
                }
            },
            SignalMessage::Offer { target_username, sdp } => {
                let src = match &self.username {
                    Some(u) => u.clone(),
                    None => return SocketAction::ErrorAndClose("Bind required before signaling"),
                };
                if !crate::security::is_valid_username(target_username.as_str())
                    || sdp.as_str().as_bytes().len() > MAX_SIGNAL_SDP_BYTES {
                    return SocketAction::Error("Invalid OFFER payload");
                }
                SocketAction::Relay {
                    target: target_username,
                    message: SignalMessage::Offer { target_username: src, sdp },
                }
            },
            SignalMessage::Answer { target_username, sdp } => {
                let src = match &self.username {
                    Some(u) => u.clone(),
                    None => return SocketAction::ErrorAndClose("Bind required before signaling"),
                };
                if !crate::security::is_valid_username(target_username.as_str())
                    || sdp.as_str().as_bytes().len() > MAX_SIGNAL_SDP_BYTES {
                    return SocketAction::Error("Invalid ANSWER payload");
                }
                SocketAction::Relay {
                    target: target_username,
                    message: SignalMessage::Answer { target_username: src, sdp },
                }
            },
            SignalMessage::Candidate { target_username, candidate } => {
                let src = match &self.username {
                    Some(u) => u.clone(),
                    None => return SocketAction::ErrorAndClose("Bind required before signaling"),
                };
                if !crate::security::is_valid_username(target_username.as_str())
                    || candidate.as_str().as_bytes().len() > MAX_SIGNAL_CANDIDATE_BYTES {
                    return SocketAction::Error("Invalid CANDIDATE payload");
                }
                SocketAction::Relay {
                    target: target_username,
                    message: SignalMessage::Candidate { target_username: src, candidate },
                }
            },
        }
    }

    /// The answer once the user of a bind's token was looked up: `Ok(Some)`
    /// with the user name, `Ok(None)` when no session has the token, `Err`
    /// when the lookup failed.
    pub fn on_token_lookup(&mut self, result: Result<Option<String>, ()>) -> (a: SocketAction)
        requires
            old(self)@.awaiting_lookup,
        ensures
            !final(self)@.awaiting_lookup,
            final(self)@.window_start == old(self)@.window_start,
            final(self)@.message_count == old(self)@.message_count,
            match result {
                Ok(Some(u)) => final(self)@.username == Some(u@) && (a matches SocketAction::Bind(b)
                    && b@ == u@),
                Ok(None) => final(self)@.username == old(self)@.username && is_error(
                    a,
                    "Invalid Token"@,
                    true,
                ),
                Err(()) => final(self)@.username == old(self)@.username && is_error(
                    a,
                    "Token lookup failed"@,
                    true,
                ),
            },
    {
        self.awaiting_lookup = false;
        match result {
            Ok(Some(username)) => {
                let bound = username.clone();
                self.username = Some(username);
                SocketAction::Bind(bound)
            },
            Ok(None) => SocketAction::ErrorAndClose("Invalid Token"),
            Err(()) => SocketAction::ErrorAndClose("Token lookup failed"),
        }
    }
}

/// Nothing is relayed for a client that has not bound to a user: every
/// relayable message from it is refused and closes the connection.
pub proof fn law_unbound_clients_relay_nothing(m: SignalMessage, bind_allowed: bool, a: SocketAction)
    requires
        relay_parts(m) is Some,
        message_action(None, m, bind_allowed, a),
    ensures
        !(a is Relay),
        is_error(a, "Bind required before signaling"@, true),
{
}

/// A relayed message always names the bound sender as its counterpart, so a
/// client cannot speak for another user.
pub proof fn law_relay_names_sender(src: Seq<char>, m: SignalMessage, bind_allowed: bool, a: SocketAction)
    requires
        message_action(Some(src), m, bind_allowed, a),
        a is Relay,
    ensures
        ({
            let out = a->Relay_message;
            match out {
                SignalMessage::OfferRift { target_username, .. } => target_username@ == src,
                SignalMessage::AnswerRift { target_username, .. } => target_username@ == src,
                SignalMessage::Offer { target_username, .. } => target_username@ == src,
                SignalMessage::Answer { target_username, .. } => target_username@ == src,
                SignalMessage::Candidate { target_username, .. } => target_username@ == src,
                _ => false,
            }
        }),
{
}

/// Relay sessions the gateway keeps at most, from the setting's text
/// (default 4096).
pub fn relay_session_limit(value: Option<&str>) -> (r: usize)
    ensures
        r == crate::security::number_setting(
            crate::security::opt_chars(value),
            usize::MAX as int,
            4096,
        ),
{
    crate::security::setting_usize(value, 4096)
}

/// Lifetime of a relay session in seconds, from the setting's text (default
/// 300, at least 30).
pub fn relay_session_ttl_secs(value: Option<&str>) -> (r: u64)
    ensures
        ({
            let n = crate::security::number_setting(
                crate::security::opt_chars(value),
                u64::MAX as int,
                300,
            );
            r == if n >= 30 {
                n
            } else {
                30
            }
        }),
{
    let n = crate::security::setting_u64(value, 300);
    if n >= 30 {
        n
    } else {
        30
    }
}

/// Signalling connections accepted at once, from the setting's text (default
/// 4096).
pub fn ws_connection_limit(value: Option<&str>) -> (r: usize)
    ensures
        r == crate::security::number_setting(
            crate::security::opt_chars(value),
            usize::MAX as int,
            4096,
        ),
{
    crate::security::setting_usize(value, 4096)
}

/// The address relays are reached at, from the setting's text (default
/// `127.0.0.1:3478`).
pub fn relay_public_addr(value: Option<&str>) -> (r: String)
    ensures
        r@ == match value {
            Some(v) => v@,
            None => "127.0.0.1:3478"@,
        },
{
    match value {
        Some(v) => crate::text::to_owned_string(v),
        None => crate::text::to_owned_string("127.0.0.1:3478"),
    }
}

} // verus!
