//! The relay's signalling protocol: the messages and the reply that each
//! client message gets.
use vstd::prelude::*;

use crate::relay::session::{
    after_cleanup, after_create, after_remove, after_set_sender_addr, lookup, opt_string_view,
    session_id_for, ManagerView, Session, SessionManager, SessionView,
};
use crate::text::{owned, str_eq};

verus! {

/// A message from a client to the relay.
#[derive(Debug, Clone)]
#[allow(inconsistent_fields)]
pub enum ClientMessage {
    Create {
        mode: String,
        filename: String,
        filesize: u64,
        code: String,
        worldwide_qr: Option<bool>,
    },
    Join { session_id: String, code: Option<String> },
    P2pReady { session_id: String, addr: String },
    Data { session_id: String, payload: String },
}

/// A message from the relay to a client.
#[derive(Debug, Clone)]
pub enum ServerMessage {
    Created { session_id: String },
    Joined { mode: String, filename: String, filesize: u64, sender_addr: Option<String> },
    P2pReadyAck {},
    SessionClosed { reason: String },
    Error { message: String },
}

/// The mathematical content of a [`ClientMessage`].
#[allow(inconsistent_fields)]
pub enum ClientMessageView {
    Create {
        mode: Seq<char>,
        filename: Seq<char>,
        filesize: u64,
        code: Seq<char>,
        worldwide_qr: Option<bool>,
    },
    Join { session_id: Seq<char>, code: Option<Seq<char>> },
    P2pReady { session_id: Seq<char>, addr: Seq<char> },
    Data { session_id: Seq<char>, payload: Seq<char> },
}

/// The mathematical content of a [`ServerMessage`].
pub enum ServerMessageView {
    Created { session_id: Seq<char> },
    Joined {
        mode: Seq<char>,
        filename: Seq<char>,
        filesize: u64,
        sender_addr: Option<Seq<char>>,
    },
    P2pReadyAck,
    SessionClosed { reason: Seq<char> },
    Error { message: Seq<char> },
}

impl View for ClientMessage {
    type V = ClientMessageView;

    open spec fn view(&self) -> ClientMessageView {
        match self {
            ClientMessage::Create { mode, filename, filesize, code, worldwide_qr } => {
                ClientMessageView::Create {
                    mode: mode@,
                    filename: filename@,
                    filesize: *filesize,
                    code: code@,
                    worldwide_qr: *worldwide_qr,
                }
            },
            ClientMessage::Join { session_id, code } => ClientMessageView::Join {
                session_id: session_id@,
                code: opt_string_view(*code),
            },
            ClientMessage::P2pReady { session_id, addr } => ClientMessageView::P2pReady {
                session_id: session_id@,
                addr: addr@,
            },
            ClientMessage::Data { session_id, payload } => ClientMessageView::Data {
                session_id: session_id@,
                payload: payload@,
            },
        }
    }
}

impl View for ServerMessage {
    type V = ServerMessageView;

    open spec fn view(&self) -> ServerMessageView {
        match self {
            ServerMessage::Created { session_id } => ServerMessageView::Created {
                session_id: session_id@,
            },
            ServerMessage::Joined { mode, filename, filesize, sender_addr } => {
                ServerMessageView::Joined {
                    mode: mode@,
                    filename: filename@,
                    filesize: *filesize,
                    sender_addr: opt_string_view(*sender_addr),
                }
            },
            ServerMessage::P2pReadyAck {  } => ServerMessageView::P2pReadyAck,
            ServerMessage::SessionClosed { reason } => ServerMessageView::SessionClosed {
                reason: reason@,
            },
            ServerMessage::Error { message } => ServerMessageView::Error { message: message@ },
        }
    }
}

pub open spec fn opt_reply_view(r: Option<ServerMessage>) -> Option<ServerMessageView> {
    match r {
        Some(m) => Some(m@),
        None => None,
    }
}

/// The reply to a line that is not a client message.
pub open spec fn invalid_json_view() -> ServerMessageView {
    ServerMessageView::Error { message: "invalid JSON"@ }
}

/// What a joining client learns of a session.
pub open spec fn joined_view(s: SessionView) -> ServerMessageView {
    ServerMessageView::Joined {
        mode: s.mode,
        filename: s.filename,
        filesize: s.filesize,
        sender_addr: s.sender_addr,
    }
}

/// The reply to a join of the session `found` (if it exists) with `code`:
/// a session in blast mode is joined only with its own code, and a wrong
/// code is refused without saying what the right one is.
pub open spec fn join_reply(found: Option<SessionView>, code: Option<Seq<char>>) -> ServerMessageView {
    match found {
        None => ServerMessageView::Error { message: "session not found or expired"@ },
        Some(s) => if s.mode == "blast"@ {
            match code {
                Some(c) => if c != s.code {
                    ServerMessageView::Error { message: "invalid blast code"@ }
                } else {
                    joined_view(s)
                },
                None => ServerMessageView::Error { message: "blast mode requires a code"@ },
            }
        } else {
            joined_view(s)
        },
    }
}

/// The relay's state after `msg`, and its reply, when the clock reads `now`.
pub open spec fn dispatch(m: ManagerView, msg: ClientMessageView, now: i64) -> (
    ManagerView,
    Option<ServerMessageView>,
) {
    match msg {
        ClientMessageView::Create { mode, filename, filesize, code, worldwide_qr } => {
            let ww = match worldwide_qr {
                Some(b) => b,
                None => false,
            };
            (
                after_create(m, mode, filename, filesize, code, ww, now),
                Some(ServerMessageView::Created { session_id: session_id_for(mode, filename, code) }),
            )
        },
        ClientMessageView::Join { session_id, code } => {
            let c = after_cleanup(m, now);
            (c, Some(join_reply(lookup(c, session_id), code)))
        },
        ClientMessageView::P2pReady { session_id, addr } => (
            after_set_sender_addr(m, session_id, addr),
            Some(
                if m.sessions.contains_key(session_id) {
                    ServerMessageView::P2pReadyAck
                } else {
                    ServerMessageView::Error { message: "session not found"@ }
                },
            ),
        ),
        ClientMessageView::Data { session_id, payload } => if payload == "done"@ {
            (
                after_remove(m, session_id),
                Some(ServerMessageView::SessionClosed { reason: "transfer complete"@ }),
            )
        } else {
            (m, None)
        },
    }
}

/// The reply to a line that does not parse as a client message.
pub fn invalid_json() -> (r: ServerMessage)
    ensures
        r@ == invalid_json_view(),
{
    ServerMessage::Error { message: owned("invalid JSON") }
}

fn joined_reply(s: Session) -> (r: ServerMessage)
    ensures
        r@ == joined_view(s@),
{
    ServerMessage::Joined {
        mode: s.mode,
        filename: s.filename,
        filesize: s.filesize,
        sender_addr: s.sender_addr,
    }
}

/// Answers a join of `found` (the session looked up, if any) with `code`.
pub fn answer_join(found: Option<Session>, code: Option<String>) -> (r: ServerMessage)
    ensures
        r@ == join_reply(
            match found {
                Some(s) => Some(s@),
                None => None,
            },
            opt_string_view(code),
        ),
{
    match found {
        None => ServerMessage::Error { message: owned("session not found or expired") },
        Some(session) => {
            if str_eq(session.mode.as_str(), "blast") {
                match code {
                    Some(c) => {
                        if !str_eq(c.as_str(), session.code.as_str()) {
                            ServerMessage::Error { message: owned("invalid blast code") }
                        } else {
                            joined_reply(session)
                        }
                    },
                    None => ServerMessage::Error { message: owned("blast mode requires a code") },
                }
            } else {
                joined_reply(session)
            }
        },
    }
}

/// Applies `msg` to the relay's state with the clock at `now`, and returns
/// the reply to send, if any.
pub fn handle_msg_at(sm: &mut SessionManager, msg: ClientMessage, now: i64) -> (r: Option<
    ServerMessage,
>)
    ensures
        (final(sm)@, opt_reply_view(r)) == dispatch(old(sm)@, msg@, now),
{
    match msg {
        ClientMessage::Create { mode, filename, filesize, code, worldwide_qr } => {
            let ww = match worldwide_qr {
                Some(b) => b,
                None => false,
            };
            let session_id = sm.create_at(mode, filename, filesize, code, ww, now);
            Some(ServerMessage::Created { session_id })
        },
        ClientMessage::Join { session_id, code } => {
            let found = sm.join_at(session_id.as_str(), now);
            Some(answer_join(found, code))
        },
        ClientMessage::P2pReady { session_id, addr } => {
            if sm.set_sender_addr(session_id.as_str(), addr) {
                Some(ServerMessage::P2pReadyAck {  })
            } else {
                Some(ServerMessage::Error { message: owned("session not found") })
            }
        },
        ClientMessage::Data { session_id, payload } => {
            if str_eq(payload.as_str(), "done") {
                sm.remove(session_id.as_str());
                Some(ServerMessage::SessionClosed { reason: owned("transfer complete") })
            } else {
                None
            }
        },
    }
}

/// Applies `msg` to the relay's state with the clock at the current time
/// (see [`handle_msg_at`]), and returns the reply to send, if any.
pub fn handle_msg(sm: &mut SessionManager, msg: ClientMessage) -> (r: Option<ServerMessage>)
    ensures
        exists|now: i64| (final(sm)@, opt_reply_view(r)) == #[trigger] dispatch(old(sm)@, msg@, now),
{
    let now = crate::relay::session::unix_now();
    handle_msg_at(sm, msg, now)
}

} // verus!
