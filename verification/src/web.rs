//! WebRTC signalling requests relayed by the gateway, their checks, and the
//! signalling configuration it hands to browsers.

use vstd::prelude::*;
use crate::security::{byte_len, valid_session_token, valid_username};

verus! {

/// Largest SDP body accepted, in bytes.
pub const MAX_SDP_BYTES: usize = 32768;

/// Largest ICE candidate accepted, in bytes.
pub const MAX_CANDIDATE_BYTES: usize = 4096;

/// An SDP offer for another user.
#[derive(Debug, Clone)]
pub struct WebRtcOfferRequest {
    pub session_token: String,
    pub target_username: String,
    pub sdp: String,
}

/// An SDP answer for another user.
#[derive(Debug, Clone)]
pub struct WebRtcAnswerRequest {
    pub session_token: String,
    pub target_username: String,
    pub sdp: String,
}

/// An ICE candidate for another user.
#[derive(Debug, Clone)]
pub struct WebRtcCandidateRequest {
    pub session_token: String,
    pub target_username: String,
    pub candidate: String,
}

/// The answer to a relayed signalling message.
#[derive(Debug, Clone)]
pub struct WebRtcRelayResponse {
    pub from_username: String,
    pub target_username: String,
    pub relayed: bool,
}

/// Where browsers send their signalling.
#[derive(Debug, Clone)]
pub struct WebRtcConfigResponse {
    pub ws_signaling_url: String,
    pub offer_endpoint: String,
    pub answer_endpoint: String,
    pub candidate_endpoint: String,
}

/// A relay usage report from a client.
#[derive(Debug, Clone)]
pub struct RelayReportRequest {
    pub session_token: String,
    pub relay_id: String,
    pub success: bool,
    pub bytes_sent: i64,
    pub duration_secs: i64,
}

/// The outcome of the checks every signalling request goes through.
pub open spec fn common_check(session_token: Seq<char>, target_username: Seq<char>) -> Result<(), Seq<char>> {
    if !valid_session_token(session_token) {
        Err("Invalid session token"@)
    } else if !valid_username(target_username) {
        Err("Invalid target username"@)
    } else {
        Ok(())
    }
}

/// Checks a signalling request's session token and target user name.
pub fn validate_common(session_token: &str, target_username: &str) -> (r: Result<(), &'static str>)
    ensures
        match r {
            Ok(()) => common_check(session_token@, target_username@) == Ok::<(), Seq<char>>(()),
            Err(m) => common_check(session_token@, target_username@) == Err::<(), Seq<char>>(m@),
        },
{
    if !crate::security::is_valid_session_token(session_token) {
        return Err("Invalid session token");
    }
    if !crate::security::is_valid_username(target_username) {
        return Err("Invalid target username");
    }
    Ok(())
}

/// The outcome of checking a signalling payload of `len_ok` size after the
/// common checks, with the size error `size_error`.
pub open spec fn payload_check(
    session_token: Seq<char>,
    target_username: Seq<char>,
    payload: Seq<char>,
    max: int,
    size_error: Seq<char>,
) -> Result<(), Seq<char>> {
    match common_check(session_token, target_username) {
        Err(m) => Err(m),
        Ok(()) => if payload.len() == 0 || byte_len(payload) > max {
            Err(size_error)
        } else {
            Ok(())
        },
    }
}

fn check_payload(
    session_token: &str,
    target_username: &str,
    payload: &str,
    max: usize,
    size_error: &'static str,
) -> (r: Result<(), &'static str>)
    ensures
        match r {
            Ok(()) => payload_check(session_token@, target_username@, payload@, max as int, size_error@)
                == Ok::<(), Seq<char>>(()),
            Err(m) => payload_check(session_token@, target_username@, payload@, max as int, size_error@)
                == Err::<(), Seq<char>>(m@),
        },
{
    match validate_common(session_token, target_username) {
        Err(m) => Err(m),
        Ok(()) => if payload.is_empty() || payload.as_bytes().len() > max {
            Err(size_error)
        } else {
            Ok(())
        },
    }
}

impl WebRtcOfferRequest {
    /// Checks the request: token, target and a non-empty SDP of at most 32 KiB.
    pub fn validate(&self) -> (r: Result<(), &'static str>)
        ensures
            match r {
                Ok(()) => payload_check(self.session_token@, self.target_username@, self.sdp@, MAX_SDP_BYTES as int, "Invalid SDP size"@)
                    == Ok::<(), Seq<char>>(()),
                Err(m) => payload_check(self.session_token@, self.target_username@, self.sdp@, MAX_SDP_BYTES as int, "Invalid SDP size"@)
                    == Err::<(), Seq<char>>(m@),
            },
    {
        check_payload(
            self.session_token.as_str(),
            self.target_username.as_str(),
            self.sdp.as_str(),
            MAX_SDP_BYTES,
            "Invalid SDP size",
        )
    }
}

impl WebRtcAnswerRequest {
    /// Checks the request: token, target and a non-empty SDP of at most 32 KiB.
    pub fn validate(&self) -> (r: Result<(), &'static str>)
        ensures
            match r {
                Ok(()) => payload_check(self.session_token@, self.target_username@, self.sdp@, MAX_SDP_BYTES as int, "Invalid SDP size"@)
                    == Ok::<(), Seq<char>>(()),
                Err(m) => payload_check(self.session_token@, self.target_username@, self.sdp@, MAX_SDP_BYTES as int, "Invalid SDP size"@)
                    == Err::<(), Seq<char>>(m@),
            },
    {
        check_payload(
            self.session_token.as_str(),
            self.target_username.as_str(),
            self.sdp.as_str(),
            MAX_SDP_BYTES,
            "Invalid SDP size",
        )
    }
}

impl WebRtcCandidateRequest {
    /// Checks the request: token, target and a non-empty candidate of at most
    /// 4 KiB.
    pub fn validate(&self) -> (r: Result<(), &'static str>)
        ensures
            match r {
                Ok(()) => payload_check(self.session_token@, self.target_username@, self.candidate@, MAX_CANDIDATE_BYTES as int, "Invalid ICE candidate size"@)
                    == Ok::<(), Seq<char>>(()),
                Err(m) => payload_check(self.session_token@, self.target_username@, self.candidate@, MAX_CANDIDATE_BYTES as int, "Invalid ICE candidate size"@)
                    == Err::<(), Seq<char>>(m@),
            },
    {
        check_payload(
            self.session_token.as_str(),
            self.target_username.as_str(),
            self.candidate.as_str(),
            MAX_CANDIDATE_BYTES,
            "Invalid ICE candidate size",
        )
    }
}

/// The signalling configuration: the configured WebSocket URL (or
/// `ws://localhost:3000/ws`) and the three HTTP endpoints.
pub fn webrtc_config(ws_signaling_url: Option<&str>) -> (r: WebRtcConfigResponse)
    ensures
        r.ws_signaling_url@ == match ws_signaling_url {
            Some(u) => u@,
            None => "ws://localhost:3000/ws"@,
        },
        r.offer_endpoint@ == "/webrtc/offer"@,
        r.answer_endpoint@ == "/webrtc/answer"@,
        r.candidate_endpoint@ == "/webrtc/candidate"@,
{
    let url = match ws_signaling_url {
        Some(u) => crate::text::to_owned_string(u),
        None => crate::text::to_owned_string("ws://localhost:3000/ws"),
    };
    WebRtcConfigResponse {
        ws_signaling_url: url,
        offer_endpoint: crate::text::to_owned_string("/webrtc/offer"),
        answer_endpoint: crate::text::to_owned_string("/webrtc/answer"),
        candidate_endpoint: crate::text::to_owned_string("/webrtc/candidate"),
    }
}

/// The sender of a browser's WebRTC message, from the lookup of its session
/// token (`Err` when the lookup failed): the user, or the status and message
/// of the refusal.
pub fn webrtc_sender(lookup: Result<Option<String>, String>) -> (r: Result<String, (u16, &'static str)>)
    ensures
        match lookup {
            Ok(Some(u)) => r matches Ok(v) && v@ == u@,
            Ok(None) => r matches Err((s, m)) && s == 401 && m@ == "Invalid or expired session token"@,
            Err(_) => r matches Err((s, m)) && s == 500 && m@ == "Session lookup failed"@,
        },
{
    match lookup {
        Ok(Some(u)) => Ok(u),
        Ok(None) => Err((401, "Invalid or expired session token")),
        Err(_) => Err((500, "Session lookup failed")),
    }
}

/// The answer once a browser's WebRTC message from `from_username` was handed
/// on, or not, to `target_username`: 202 with the relay record, or 404.
pub fn webrtc_delivery(from_username: String, target_username: String, delivered: bool) -> (r: Result<
    (u16, WebRtcRelayResponse),
    (u16, String),
>)
    ensures
        delivered ==> (r matches Ok((s, resp)) && s == 202 && resp.from_username@ == from_username@
            && resp.target_username@ == target_username@ && resp.relayed),
        !delivered ==> (r matches Err((s, m)) && s == 404 && m@ == "Target user '"@ + target_username@
            + "' is not connected"@),
{
    if delivered {
        Ok((202, WebRtcRelayResponse { from_username, target_username, relayed: true }))
    } else {
        let mut m = crate::text::to_owned_string("Target user '");
        crate::text::append_str(&mut m, target_username.as_str());
        crate::text::append_str(&mut m, "' is not connected");
        Err((404, m))
    }
}

impl WebRtcOfferRequest {
    /// The message relayed to the target: the offer, naming its sender.
    pub fn signal_from(self, from_username: String) -> (m: crate::signal::SignalMessage)
        ensures
            m matches crate::signal::SignalMessage::Offer { target_username, sdp } && target_username@
                == from_username@ && sdp@ == self.sdp@,
    {
        crate::signal::SignalMessage::Offer { target_username: from_username, sdp: self.sdp }
    }
}

impl WebRtcAnswerRequest {
    /// The message relayed to the target: the answer, naming its sender.
    pub fn signal_from(self, from_username: String) -> (m: crate::signal::SignalMessage)
        ensures
            m matches crate::signal::SignalMessage::Answer { target_username, sdp } && target_username@
                == from_username@ && sdp@ == self.sdp@,
    {
        crate::signal::SignalMessage::Answer { target_username: from_username, sdp: self.sdp }
    }
}

impl WebRtcCandidateRequest {
    /// The message relayed to the target: the candidate, naming its sender.
    pub fn signal_from(self, from_username: String) -> (m: crate::signal::SignalMessage)
        ensures
            m matches crate::signal::SignalMessage::Candidate { target_username, candidate }
                && target_username@ == from_username@ && candidate@ == self.candidate@,
    {
        crate::signal::SignalMessage::Candidate { target_username: from_username, candidate: self.candidate }
    }
}

} // verus!
