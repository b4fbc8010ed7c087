//! Signaling over WebTransport sessions: a session is bound to a user by a
//! session token on its control stream; WebRTC messages it sends then go to
//! their target user with the sender's name in place of the target's, and
//! its input datagrams follow its last offer.

use vstd::prelude::*;
use crate::signal::SignalMessage;
use crate::text_map::TextMap;

verus! {

/// A message on a session's control stream, as far as signaling reads it.
#[derive(Debug, Clone)]
pub enum ControlMessage {
    Connect { session_token: String },
    WebRtcOffer { target_username: String, sdp: String },
    WebRtcAnswer { target_username: String, sdp: String },
    WebRtcCandidate { target_username: String, candidate: String },
    /// Any other control message.
    Other,
}

/// What to do with a control message.
#[derive(Debug)]
pub enum ControlAction {
    /// Look up the user of this session token, then report with
    /// [`WebTransportSessions::bind`].
    LookupToken(String),
    /// Send this message to this user.
    Relay { target: String, message: SignalMessage },
    Ignore,
}

/// The sessions bound to users, and the user each session last offered to.
pub struct WebTransportSessions {
    /// Session id to user name.
    pub users: TextMap,
    /// Session id to the target of its last offer.
    pub targets: TextMap,
}

/// Whether `a` relays the WebRTC message `m` from `sender` to its target:
/// the same payload, addressed to the target, naming the sender.
pub open spec fn relays_from(m: ControlMessage, sender: Seq<char>, a: ControlAction) -> bool {
    match (m, a) {
        (
            ControlMessage::WebRtcOffer { target_username: t, sdp },
            ControlAction::Relay { target, message: SignalMessage::Offer { target_username: n, sdp: s } },
        ) => target@ == t@ && n@ == sender && s@ == sdp@,
        (
            ControlMessage::WebRtcAnswer { target_username: t, sdp },
            ControlAction::Relay { target, message: SignalMessage::Answer { target_username: n, sdp: s } },
        ) => target@ == t@ && n@ == sender && s@ == sdp@,
        (
            ControlMessage::WebRtcCandidate { target_username: t, candidate },
            ControlAction::Relay {
                target,
                message: SignalMessage::Candidate { target_username: n, candidate: c },
            },
        ) => target@ == t@ && n@ == sender && c@ == candidate@,
        _ => false,
    }
}

impl WebTransportSessions {
    pub open spec fn wf(&self) -> bool {
        self.users.wf() && self.targets.wf()
    }

    /// No session bound, no offer made.
    pub fn new() -> (s: Self)
        ensures
            s.wf(),
            s.users@ == Map::<Seq<char>, Seq<char>>::empty(),
            s.targets@ == Map::<Seq<char>, Seq<char>>::empty(),
    {
        WebTransportSessions { users: TextMap::new(), targets: TextMap::new() }
    }

    /// Binds a session to the user its token names, when the token named one
    /// and the session can still be written to; true when bound.
    pub fn bind(&mut self, session_id: &str, username: Option<String>, session_open: bool) -> (bound: bool)
        requires
            old(self).wf(),
        ensures
            final(self).wf(),
            bound == (username.is_some() && session_open),
            final(self).targets@ == old(self).targets@,
            final(self).users@ == (if bound {
                old(self).users@.insert(session_id@, username->0@)
            } else {
                old(self).users@
            }),
    {
        if !session_open {
            return false;
        }
        match username {
            Some(u) => {
                self.users.insert(crate::text::to_owned_string(session_id), u);
                true
            },
            None => false,
        }
    }

    /// Handles one control message of a session.
    pub fn on_control(&mut self, session_id: &str, msg: ControlMessage) -> (a: ControlAction)
        requires
            old(self).wf(),
        ensures
            final(self).wf(),
            final(self).users@ == old(self).users@,
            match msg {
                ControlMessage::Connect { session_token } => {
                    &&& final(self).targets@ == old(self).targets@
                    &&& (a matches ControlAction::LookupToken(t) && t@ == session_token@)
                },
                ControlMessage::Other => a is Ignore && final(self).targets@ == old(self).targets@,
                _ => if old(self).users@.contains_key(session_id@) {
                    &&& relays_from(msg, old(self).users@[session_id@], a)
                    &&& final(self).targets@ == (if msg is WebRtcOffer {
                        old(self).targets@.insert(session_id@, msg->WebRtcOffer_target_username@)
                    } else {
                        old(self).targets@
                    })
                } else {
                    a is Ignore && final(self).targets@ == old(self).targets@
                },
            },
    {
        match msg {
            ControlMessage::Connect { session_token } => ControlAction::LookupToken(session_token),
            ControlMessage::Other => ControlAction::Ignore,
            ControlMessage::WebRtcOffer { target_username, sdp } => match self.users.get(session_id) {
                None => ControlAction::Ignore,
                Some(from) => {
                    let target = target_username.clone();
                    self.targets.insert(crate::text::to_owned_string(session_id), target_username);
                    ControlAction::Relay {
                        target,
                        message: SignalMessage::Offer { target_username: from, sdp },
                    }
                },
            },
            ControlMessage::WebRtcAnswer { target_username, sdp } => match self.users.get(session_id) {
                None => ControlAction::Ignore,
                Some(from) => ControlAction::Relay {
                    target: target_username,
                    message: SignalMessage::Answer { target_username: from, sdp },
                },
            },
            ControlMessage::WebRtcCandidate { target_username, candidate } => match self.users.get(
                session_id,
            ) {
                None => ControlAction::Ignore,
                Some(from) => ControlAction::Relay {
                    target: target_username,
                    message: SignalMessage::Candidate { target_username: from, candidate },
                },
            },
        }
    }

    /// The user an input datagram of this session goes to: the target of its
    /// last offer.
    pub fn datagram_target(&self, session_id: &str) -> (r: Option<String>)
        requires
            self.wf(),
        ensures
            match r {
                Some(t) => self.targets@.contains_key(session_id@) && self.targets@[session_id@] == t@,
                None => !self.targets@.contains_key(session_id@),
            },
    {
        self.targets.get(session_id)
    }
}

} // verus!
