//! What `send` and `receive` do with their arguments: the transfer mode,
//! the session key, the codes shown and copied, the messages to the relay,
//! and where the encryption key comes from.
use vstd::prelude::*;

use crate::client::protocol::{ClientMessage, ClientMessageView};
use crate::relay::session::opt_string_view;
use crate::text::{byte_len, chars_of, owned, push_str};

verus! {

/// How a file travels.
#[derive(Debug, Clone, Copy, PartialEq, Eq, Structural)]
pub enum TransferMode {
    /// No encryption; the session is named after the file.
    Fast,
    /// Encrypted; the session is named after a four-digit code.
    Secure,
    /// Encrypted; the session is named after the file and guarded by a
    /// four-character code.
    Blast,
}

/// The mode's name on the wire.
pub open spec fn mode_text(mode: TransferMode) -> Seq<char> {
    match mode {
        TransferMode::Fast => "fast"@,
        TransferMode::Secure => "secure"@,
        TransferMode::Blast => "blast"@,
    }
}

/// The mode's name on the wire.
pub fn mode_name(mode: TransferMode) -> (r: &'static str)
    ensures
        r@ == mode_text(mode),
{
    match mode {
        TransferMode::Fast => "fast",
        TransferMode::Secure => "secure",
        TransferMode::Blast => "blast",
    }
}

/// The sender's mode: blast wins over secure, and fast is the default.
pub fn send_mode(secure: bool, secure_blast: bool) -> (r: TransferMode)
    ensures
        r == if secure_blast {
            TransferMode::Blast
        } else if secure {
            TransferMode::Secure
        } else {
            TransferMode::Fast
        },
{
    if secure_blast {
        TransferMode::Blast
    } else if secure {
        TransferMode::Secure
    } else {
        TransferMode::Fast
    }
}

/// Where the file to send comes from.
#[derive(Debug)]
pub enum SendSource {
    /// A path or file copied to the clipboard.
    Clipboard,
    /// The path given on the command line.
    Path(String),
}

/// `--clip` wins over a path; with neither the command fails.
pub fn send_source(file: Option<String>, clip: bool) -> (r: Result<SendSource, String>)
    ensures
        clip ==> r matches Ok(SendSource::Clipboard),
        !clip ==> match file {
            Some(f) => (r matches Ok(SendSource::Path(p)) && p@ == f@),
            None => (r matches Err(e) && e@ == "Either provide a file path or use --clip"@),
        },
{
    if clip {
        Ok(SendSource::Clipboard)
    } else {
        match file {
            Some(f) => Ok(SendSource::Path(f)),
            None => Err(owned("Either provide a file path or use --clip")),
        }
    }
}

/// The notices printed when a QR option is asked for in blast mode, which
/// has no QR: one for `--qr`, one for `--global-qr`.
pub fn blast_qr_notices(mode: TransferMode, qr: bool, global_qr: bool) -> (r: (bool, bool))
    ensures
        r == (mode == TransferMode::Blast && qr, mode == TransferMode::Blast && global_qr),
{
    (mode == TransferMode::Blast && qr, mode == TransferMode::Blast && global_qr)
}

/// Everything the sender decides once it knows the mode, the file and the
/// code it drew.
#[derive(Debug)]
pub struct SendPlan {
    /// The session's name at the relay.
    pub session_key: String,
    /// The code shown to the sender.
    pub display_code: String,
    /// What is copied to the clipboard for the receiver, if anything.
    pub clipboard_text: Option<String>,
    /// The message that creates the session; its code is the code shown
    /// (the file name in fast mode), which the relay names a secure session
    /// after and checks a blast receiver's code against.
    pub create: ClientMessage,
    /// Upload the file to the relay and show the relay's QR.
    pub global_qr: bool,
    /// Serve the file from this machine and show a QR for it.
    pub local_qr: bool,
    /// The code that the local QR page asks for, if any.
    pub qr_auth_code: Option<String>,
    /// The text that the encryption key is derived from, if the stream is
    /// encrypted.
    pub key_source: Option<String>,
}

/// The session key: the code in secure mode, the file name otherwise.
pub open spec fn session_key_of(mode: TransferMode, filename: Seq<char>, code: Seq<char>) -> Seq<
    char,
> {
    if mode == TransferMode::Secure {
        code
    } else {
        filename
    }
}

/// The code shown: the file name in fast mode, the drawn code otherwise.
pub open spec fn display_code_of(mode: TransferMode, filename: Seq<char>, code: Seq<char>) -> Seq<
    char,
> {
    if mode == TransferMode::Fast {
        filename
    } else {
        code
    }
}

/// What the sender copies to the clipboard: the command a blast receiver
/// runs, or the secure code.
pub open spec fn clipboard_text_of(mode: TransferMode, filename: Seq<char>, code: Seq<char>) -> Option<
    Seq<char>,
> {
    match mode {
        TransferMode::Blast => Some("vb receive "@ + filename + " "@ + code),
        TransferMode::Secure => Some(code),
        TransferMode::Fast => None,
    }
}

/// The sender's plan, as its fields' contents.
pub open spec fn plan_matches(
    p: SendPlan,
    mode: TransferMode,
    filename: Seq<char>,
    filesize: u64,
    code: Seq<char>,
    qr: bool,
    global_qr: bool,
) -> bool {
    let key = session_key_of(mode, filename, code);
    let display = display_code_of(mode, filename, code);
    &&& p.session_key@ == key
    &&& p.display_code@ == display
    &&& opt_string_view(p.clipboard_text) == clipboard_text_of(mode, filename, code)
    &&& p.create@ == ClientMessageView::Create {
        mode: mode_text(mode),
        filename,
        filesize,
        code: display,
        worldwide_qr: if global_qr {
            Some(true)
        } else {
            None
        },
    }
    &&& p.global_qr == (global_qr && mode != TransferMode::Blast)
    &&& p.local_qr == (!global_qr && qr && mode != TransferMode::Blast)
    &&& opt_string_view(p.qr_auth_code) == if mode == TransferMode::Secure {
        Some(display)
    } else {
        None
    }
    &&& opt_string_view(p.key_source) == match mode {
        TransferMode::Blast => Some(display),
        TransferMode::Secure => Some(key),
        TransferMode::Fast => None,
    }
}

/// Plans a send of `filename` (`filesize` bytes) in `mode`, with the code
/// drawn for it (ignored in fast mode).
pub fn plan_send(
    mode: TransferMode,
    filename: &str,
    filesize: u64,
    code: &str,
    qr: bool,
    global_qr: bool,
) -> (r: SendPlan)
    ensures
        plan_matches(r, mode, filename@, filesize, code@, qr, global_qr),
{
    let session_key = if mode == TransferMode::Secure {
        owned(code)
    } else {
        owned(filename)
    };
    let display_code = if mode == TransferMode::Fast {
        owned(filename)
    } else {
        owned(code)
    };
    let clipboard_text = match mode {
        TransferMode::Blast => {
            let mut t = owned("vb receive ");
            push_str(&mut t, filename);
            push_str(&mut t, " ");
            push_str(&mut t, code);
            Some(t)
        },
        TransferMode::Secure => Some(owned(code)),
        TransferMode::Fast => None,
    };
    let create = ClientMessage::Create {
        mode: owned(mode_name(mode)),
        filename: owned(filename),
        filesize,
        code: display_code.clone(),
        worldwide_qr: if global_qr {
            Some(true)
        } else {
            None
        },
    };
    let qr_auth_code = if mode == TransferMode::Secure {
        Some(display_code.clone())
    } else {
        None
    };
    let key_source = match mode {
        TransferMode::Blast => Some(display_code.clone()),
        TransferMode::Secure => Some(session_key.clone()),
        TransferMode::Fast => None,
    };
    SendPlan {
        session_key,
        display_code,
        clipboard_text,
        create,
        global_qr: global_qr && mode != TransferMode::Blast,
        local_qr: !global_qr && qr && mode != TransferMode::Blast,
        qr_auth_code,
        key_source,
    }
}

/// The URL of a session's file at the relay, as its QR shows it.
pub fn global_qr_url(relay: &str, session_id: &str) -> (r: String)
    ensures
        r@ == "http://"@ + relay@ + "/dl/"@ + session_id@,
{
    let mut s = owned("http://");
    push_str(&mut s, relay);
    push_str(&mut s, "/dl/");
    push_str(&mut s, session_id);
    s
}

/// Exactly four bytes, all decimal digits: a secure-mode code.
pub open spec fn is_digit_code(id: Seq<char>) -> bool {
    vstd::utf8::encode_utf8(id).len() == 4 && forall|i: int|
        0 <= i < id.len() ==> '0' <= #[trigger] id[i] <= '9'
}

/// The receiver's mode from its arguments: a code means blast, a
/// four-digit identifier means secure, anything else fast.
pub open spec fn receive_mode_for(id: Seq<char>, code_given: bool) -> TransferMode {
    if code_given {
        TransferMode::Blast
    } else if is_digit_code(id) {
        TransferMode::Secure
    } else {
        TransferMode::Fast
    }
}

/// Whether `id` is a four-digit code.
pub fn digit_code(id: &str) -> (r: bool)
    ensures
        r == is_digit_code(id@),
{
    if byte_len(id) != 4 {
        return false;
    }
    let v = chars_of(id);
    let mut i: usize = 0;
    while i < v.len()
        invariant
            i <= v@.len(),
            v@ == id@,
            vstd::utf8::encode_utf8(id@).len() == 4,
            forall|j: int| 0 <= j < i ==> '0' <= #[trigger] v@[j] <= '9',
        decreases v@.len() - i,
    {
        if !('0' <= v[i] && v[i] <= '9') {
            assert(!('0' <= id@[i as int] <= '9'));
            return false;
        }
        i = i + 1;
    }
    true
}

/// What the receiver joins.
#[derive(Debug)]
pub enum ReceiveTarget {
    /// The file name copied to the clipboard, in fast mode.
    Clipboard,
    /// The identifier (and code) given on the command line.
    Given { id: String, code: Option<String>, mode: TransferMode },
}

/// Reads the receiver's arguments. `--clip` takes no identifier (its code
/// argument, if any, is not used); without `--clip` an identifier is
/// needed.
pub fn receive_target(identifier: Option<String>, code: Option<String>, clip: bool) -> (r: Result<
    ReceiveTarget,
    String,
>)
    ensures
        clip && identifier is Some ==> (r matches Err(e) && e@
            == "Cannot use --clip with an identifier argument"@),
        clip && identifier is None ==> r matches Ok(ReceiveTarget::Clipboard),
        !clip && identifier is None ==> (r matches Err(e) && e@
            == "Provide an identifier (filename or code) or use --clip"@),
        !clip && identifier is Some ==> (r matches Ok(ReceiveTarget::Given { id, code: c, mode })
            && id@ == identifier->0@ && opt_string_view(c) == opt_string_view(code) && mode
            == receive_mode_for(id@, code is Some)),
{
    if clip {
        if identifier.is_some() {
            return Err(owned("Cannot use --clip with an identifier argument"));
        }
        Ok(ReceiveTarget::Clipboard)
    } else {
        match identifier {
            None => Err(owned("Provide an identifier (filename or code) or use --clip")),
            Some(id) => {
                let mode = if code.is_some() {
                    TransferMode::Blast
                } else if digit_code(id.as_str()) {
                    TransferMode::Secure
                } else {
                    TransferMode::Fast
                };
                Ok(ReceiveTarget::Given { id, code, mode })
            },
        }
    }
}

/// Everything the receiver decides before it waits for the sender.
#[derive(Debug)]
pub struct ReceivePlan {
    /// The message that joins the session.
    pub join: ClientMessage,
    /// The text that the decryption key is derived from, if any.
    pub key_source: Option<String>,
    /// The code passed to a download from the relay, if any.
    pub relay_code: Option<String>,
}

/// The text a receiver derives its key from: the code in blast mode, the
/// identifier in secure mode, none in fast mode.
pub open spec fn receive_key_of(mode: TransferMode, id: Seq<char>, code: Option<Seq<char>>) -> Option<
    Seq<char>,
> {
    match mode {
        TransferMode::Blast => code,
        TransferMode::Secure => Some(id),
        TransferMode::Fast => None,
    }
}

/// Plans a receive of session `id` in `mode`: blast joins with its code
/// and derives the key from it; secure derives the key from the
/// identifier, which is also the relay code; fast needs neither.
pub fn plan_receive(mode: TransferMode, id: &str, code: Option<String>) -> (r: ReceivePlan)
    requires
        mode == TransferMode::Blast ==> code is Some,
    ensures
        r.join@ == (ClientMessageView::Join {
            session_id: id@,
            code: if mode == TransferMode::Blast {
                opt_string_view(code)
            } else {
                None
            },
        }),
        opt_string_view(r.key_source) == receive_key_of(mode, id@, opt_string_view(code)),
        opt_string_view(r.relay_code) == match mode {
            TransferMode::Blast => opt_string_view(code),
            TransferMode::Secure => Some(id@),
            TransferMode::Fast => None,
        },
{
    match mode {
        TransferMode::Blast => {
            let c = match code {
                Some(c) => c,
                None => owned(""),
            };
            ReceivePlan {
                join: ClientMessage::Join { session_id: owned(id), code: Some(c.clone()) },
                key_source: Some(c.clone()),
                relay_code: Some(c),
            }
        },
        TransferMode::Secure => ReceivePlan {
            join: ClientMessage::Join { session_id: owned(id), code: None },
            key_source: Some(owned(id)),
            relay_code: Some(owned(id)),
        },
        TransferMode::Fast => ReceivePlan {
            join: ClientMessage::Join { session_id: owned(id), code: None },
            key_source: None,
            relay_code: None,
        },
    }
}

} // verus!
