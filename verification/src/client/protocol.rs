//! The signalling messages as the client knows them, and how it waits for
//! the reply it expects.
use vstd::prelude::*;

use crate::relay::session::opt_string_view;
use crate::text::{owned, push_str};

verus! {

/// A message from the client to the relay.
#[derive(Debug)]
#[allow(inconsistent_fields)]
pub enum ClientMessage {
    Create {
        mode: String,
        filename: String,
        filesize: u64,
        code: String,
        worldwide_qr: Option<bool>,
    },
    Join { session_id: String, code: Option<String> },
    P2pReady { session_id: String, addr: String },
    Data { session_id: String, payload: String },
    UploadStart { session_id: String, filesize: u64 },
    UploadChunk { session_id: String, data: String, is_last: bool },
}

/// A message from the relay to the client.
#[derive(Debug)]
pub enum ServerMessage {
    Created { session_id: String },
    Joined { mode: String, filename: String, filesize: u64, sender_addr: Option<String> },
    P2pReadyAck {},
    SessionClosed { reason: String },
    UploadComplete { session_id: String },
    Error { message: String },
}

/// The mathematical content of a [`ClientMessage`].
#[allow(inconsistent_fields)]
pub enum ClientMessageView {
    Create {
        mode: Seq<char>,
        filename: Seq<char>,
        filesize: u64,
        code: Seq<char>,
        worldwide_qr: Option<bool>,
    },
    Join { session_id: Seq<char>, code: Option<Seq<char>> },
    P2pReady { session_id: Seq<char>, addr: Seq<char> },
    Data { session_id: Seq<char>, payload: Seq<char> },
    UploadStart { session_id: Seq<char>, filesize: u64 },
    UploadChunk { session_id: Seq<char>, data: Seq<char>, is_last: bool },
}

impl View for ClientMessage {
    type V = ClientMessageView;

    open spec fn view(&self) -> ClientMessageView {
        match self {
            ClientMessage::Create { mode, filename, filesize, code, worldwide_qr } => {
                ClientMessageView::Create {
                    mode: mode@,
                    filename: filename@,
                    filesize: *filesize,
                    code: code@,
                    worldwide_qr: *worldwide_qr,
                }
            },
            ClientMessage::Join { session_id, code } => ClientMessageView::Join {
                session_id: session_id@,
                code: opt_string_view(*code),
            },
            ClientMessage::P2pReady { session_id, addr } => ClientMessageView::P2pReady {
                session_id: session_id@,
                addr: addr@,
            },
            ClientMessage::Data { session_id, payload } => ClientMessageView::Data {
                session_id: session_id@,
                payload: payload@,
            },
            ClientMessage::UploadStart { session_id, filesize } => ClientMessageView::UploadStart {
                session_id: session_id@,
                filesize: *filesize,
            },
            ClientMessage::UploadChunk { session_id, data, is_last } => {
                ClientMessageView::UploadChunk {
                    session_id: session_id@,
                    data: data@,
                    is_last: *is_last,
                }
            },
        }
    }
}

/// The reply that the client waits for.
#[derive(Debug, Clone, Copy, PartialEq, Eq, Structural)]
pub enum Expected {
    Created,
    Joined,
    P2pReadyAck,
}

/// What the client does with a reply while it waits.
#[derive(Debug)]
pub enum ReplyAction {
    /// The reply it waited for.
    Accept,
    /// Some other reply: keep waiting.
    Skip,
    /// The relay reported an error: give up with this message.
    Fail(String),
}

/// The reply is of the expected kind.
pub open spec fn is_expected(msg: ServerMessage, expected: Expected) -> bool {
    match expected {
        Expected::Created => msg is Created,
        Expected::Joined => msg is Joined,
        Expected::P2pReadyAck => msg is P2pReadyAck,
    }
}

/// An error reply ends the wait with `Server error: ` and its message;
/// otherwise the expected kind is taken and any other kind passed over.
pub open spec fn reply_action_view(msg: ServerMessage, expected: Expected) -> Option<
    Option<Seq<char>>,
> {
    match msg {
        ServerMessage::Error { message } => Some(Some("Server error: "@ + message@)),
        _ => if is_expected(msg, expected) {
            Some(None)
        } else {
            None
        },
    }
}

pub open spec fn action_view(a: ReplyAction) -> Option<Option<Seq<char>>> {
    match a {
        ReplyAction::Accept => Some(None),
        ReplyAction::Skip => None,
        ReplyAction::Fail(m) => Some(Some(m@)),
    }
}

/// Decides what to do with `msg` while waiting for `expected`.
pub fn classify_reply(msg: &ServerMessage, expected: Expected) -> (r: ReplyAction)
    ensures
        action_view(r) == reply_action_view(*msg, expected),
{
    if let ServerMessage::Error { message } = msg {
        let mut m = owned("Server error: ");
        push_str(&mut m, message.as_str());
        return ReplyAction::Fail(m);
    }
    let hit = match expected {
        Expected::Created => matches!(msg, ServerMessage::Created { .. }),
        Expected::Joined => matches!(msg, ServerMessage::Joined { .. }),
        Expected::P2pReadyAck => matches!(msg, ServerMessage::P2pReadyAck { .. }),
    };
    if hit {
        ReplyAction::Accept
    } else {
        ReplyAction::Skip
    }
}

/// The message that tells the relay a transfer is complete.
pub fn done_message(session_id: &str) -> (r: ClientMessage)
    ensures
        r@ == (ClientMessageView::Data { session_id: session_id@, payload: "done"@ }),
{
    ClientMessage::Data { session_id: owned(session_id), payload: owned("done") }
}

} // verus!
