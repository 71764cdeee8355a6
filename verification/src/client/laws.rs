//! What holds of the client across its steps.
use vstd::prelude::*;

use crate::client::commands::{
    display_code_of, is_digit_code, mode_text, plan_matches, receive_key_of, receive_mode_for,
    session_key_of,
    SendPlan, TransferMode,
};
use crate::client::protocol::{reply_action_view, Expected, ServerMessage};
use crate::client::qr_server::text_response;
use crate::web::{code_page, is_alpha_code};
use crate::relay::session::opt_string_view;
use crate::text::has_prefix;
use crate::relay::protocol::{dispatch, ClientMessageView, ServerMessageView};
use crate::relay::session::{ManagerView, SESSION_TTL_SECS};
use crate::client::pipeline::{frame_len_bytes, le_u32_value};
use crate::client::qr_server::qr_answer;
use crate::relay::http::request_path;
use crate::text::{dec, digit_char, split_seq};

verus! {

/// The length a receiver reads from a frame's prefix is the length the
/// sender wrote, for every frame shorter than 2^32 bytes.
pub proof fn law_frame_length_roundtrip(len: nat)
    requires
        len < 0x1_0000_0000,
    ensures
        le_u32_value(frame_len_bytes(len)) == len,
{
    let b0 = len % 256;
    let b1 = (len / 256) % 256;
    let b2 = (len / 65536) % 256;
    let b3 = len / 16777216;
    assert(len == b0 + 256 * b1 + 65536 * b2 + 16777216 * b3) by (nonlinear_arith)
        requires
            b0 == len % 256,
            b1 == (len / 256) % 256,
            b2 == (len / 65536) % 256,
            b3 == len / 16777216,
    {
        assert(len == 256 * (len / 256) + len % 256);
        assert(len / 256 == 256 * ((len / 256) / 256) + (len / 256) % 256);
        assert((len / 256) / 256 == len / 65536);
        assert(len / 65536 == 256 * ((len / 65536) / 256) + (len / 65536) % 256);
        assert((len / 65536) / 256 == len / 16777216);
    }
    let bs = frame_len_bytes(len);
    assert(bs[0] as nat == b0);
    assert(bs[1] as nat == b1);
    assert(bs[2] as nat == b2);
    assert(b3 < 256);
    assert(bs[3] as nat == b3);
}

/// A secure code, 1000 to 9999 in decimal, reads as a secure code.
pub proof fn law_secure_code_is_detected(n: nat)
    requires
        1000 <= n <= 9999,
    ensures
        is_digit_code(dec(n)),
{
    reveal_with_fuel(dec, 4);
    let s = dec(n);
    assert(s =~= seq![
        digit_char(n / 1000),
        digit_char((n / 100) % 10),
        digit_char((n / 10) % 10),
        digit_char(n % 10),
    ]) by {
        assert(n / 10 / 10 == n / 100);
        assert(n / 100 / 10 == n / 1000);
    }
    assert(vstd::utf8::is_ascii_chars(s));
    vstd::utf8::is_ascii_chars_encode_utf8(s);
}

/// What the sender tells the receiver to type: the file name in fast mode,
/// the code in secure mode, both in blast mode.
pub open spec fn receiver_args(mode: TransferMode, filename: Seq<char>, code: Seq<char>) -> (
    Seq<char>,
    Option<Seq<char>>,
) {
    match mode {
        TransferMode::Fast => (filename, None),
        TransferMode::Secure => (code, None),
        TransferMode::Blast => (filename, Some(code)),
    }
}

/// A receiver that types what the sender shows is put in the sender's
/// mode, joins the sender's session, and derives its key from the same
/// text; a fast-mode file name must not look like a secure code.
pub proof fn law_receiver_matches_sender(mode: TransferMode, filename: Seq<char>, code: Seq<char>, n: nat)
    requires
        mode == TransferMode::Secure ==> 1000 <= n <= 9999 && code == dec(n),
        mode == TransferMode::Fast ==> !is_digit_code(filename),
    ensures
        ({
            let (id, given) = receiver_args(mode, filename, code);
            let key = session_key_of(mode, filename, code);
            let display = display_code_of(mode, filename, code);
            &&& receive_mode_for(id, given is Some) == mode
            &&& id == key
            &&& match mode {
                TransferMode::Blast => given == Some(display),
                TransferMode::Secure => Some(id) == Some(key),
                TransferMode::Fast => true,
            }
        }),
{
    if mode == TransferMode::Secure {
        law_secure_code_is_detected(n);
    }
}

/// The handshake through the relay: a sender creates its session, and a
/// receiver who types what the sender shows joins it within the time to
/// live and is told the file's mode, name and size. The relay names the
/// session what the receiver types first, and in blast mode checks the
/// code typed second against the drawn code.
pub proof fn law_transfer_handshake(
    m: ManagerView,
    mode: TransferMode,
    filename: Seq<char>,
    filesize: u64,
    code: Seq<char>,
    n: nat,
    global_qr: bool,
    created: i64,
    joined: i64,
)
    requires
        mode == TransferMode::Secure ==> 1000 <= n <= 9999 && code == dec(n),
        mode == TransferMode::Fast ==> !is_digit_code(filename),
        joined - created < SESSION_TTL_SECS,
    ensures
        ({
            let (m1, created_reply) = dispatch(
                m,
                ClientMessageView::Create {
                    mode: mode_text(mode),
                    filename,
                    filesize,
                    code: display_code_of(mode, filename, code),
                    worldwide_qr: if global_qr {
                        Some(true)
                    } else {
                        None
                    },
                },
                created,
            );
            let (id, given) = receiver_args(mode, filename, code);
            let join_code = if receive_mode_for(id, given is Some) == TransferMode::Blast {
                given
            } else {
                None
            };
            let reply = dispatch(
                m1,
                ClientMessageView::Join { session_id: id, code: join_code },
                joined,
            ).1;
            &&& created_reply == Some(
                ServerMessageView::Created { session_id: session_key_of(mode, filename, code) },
            )
            &&& reply == Some(
                ServerMessageView::Joined {
                    mode: mode_text(mode),
                    filename,
                    filesize,
                    sender_addr: None,
                },
            )
        }),
{
    law_receiver_matches_sender(mode, filename, code, n);
    reveal_strlit("blast");
    reveal_strlit("fast");
    reveal_strlit("secure");
    assert("fast"@.len() != "blast"@.len());
    assert("secure"@.len() != "blast"@.len());
    assert(mode_text(mode) == "blast"@ <==> mode == TransferMode::Blast);
}

/// A blast receiver that types the file name with any code other than the
/// drawn one is refused, and learns nothing of the drawn code.
pub proof fn law_blast_wrong_code_refused(
    m: ManagerView,
    filename: Seq<char>,
    filesize: u64,
    code: Seq<char>,
    guess: Seq<char>,
    global_qr: bool,
    created: i64,
    joined: i64,
)
    requires
        guess != code,
        joined - created < SESSION_TTL_SECS,
    ensures
        ({
            let m1 = dispatch(
                m,
                ClientMessageView::Create {
                    mode: mode_text(TransferMode::Blast),
                    filename,
                    filesize,
                    code: display_code_of(TransferMode::Blast, filename, code),
                    worldwide_qr: if global_qr {
                        Some(true)
                    } else {
                        None
                    },
                },
                created,
            ).0;
            dispatch(
                m1,
                ClientMessageView::Join { session_id: filename, code: Some(guess) },
                joined,
            ).1 == Some(ServerMessageView::Error { message: "invalid blast code"@ })
        }),
{
    reveal_strlit("blast");
}

/// The QR server hands out the file of a session with a code only to a
/// request that carries that code after `?code=`.
pub proof fn law_qr_file_needs_code(request: Seq<char>, session_id: Seq<char>, code: Seq<char>)
    ensures
        qr_answer(request, session_id, Some(code)) is None ==> ({
            let pieces = split_seq(request_path(request), "?code="@);
            pieces.len() > 1 && pieces[1] == code
        }),
{
    reveal_strlit("");
}

/// While the client waits, a reply of the kind it waits for is taken, a
/// reply of any other kind is never taken, and an error reply ends the
/// wait with the relay's message.
pub proof fn law_reply_of_expected_kind(msg: ServerMessage, expected: Expected)
    ensures
        expected == Expected::Created && msg is Created ==> reply_action_view(msg, expected)
            == Some(None::<Seq<char>>),
        expected == Expected::Joined && msg is Joined ==> reply_action_view(msg, expected) == Some(
            None::<Seq<char>>,
        ),
        expected == Expected::P2pReadyAck && msg is P2pReadyAck ==> reply_action_view(msg, expected)
            == Some(None::<Seq<char>>),
        reply_action_view(msg, expected) == Some(None::<Seq<char>>) ==> match expected {
            Expected::Created => msg is Created,
            Expected::Joined => msg is Joined,
            Expected::P2pReadyAck => msg is P2pReadyAck,
        },
        msg matches ServerMessage::Error { message } ==> reply_action_view(msg, expected) == Some(
            Some("Server error: "@ + message@),
        ),
        !(msg is Error) ==> reply_action_view(msg, expected) != Some(None::<Seq<char>>)
            ==> reply_action_view(msg, expected) is None,
{
}

/// A sender and a receiver who types what the sender shows derive their
/// keys from the same text, and every encrypted mode has one.
pub proof fn law_sender_receiver_same_key(
    p: SendPlan,
    mode: TransferMode,
    filename: Seq<char>,
    filesize: u64,
    code: Seq<char>,
    n: nat,
    qr: bool,
    global_qr: bool,
)
    requires
        plan_matches(p, mode, filename, filesize, code, qr, global_qr),
        mode == TransferMode::Secure ==> 1000 <= n <= 9999 && code == dec(n),
        mode == TransferMode::Fast ==> !is_digit_code(filename),
    ensures
        ({
            let (id, given) = receiver_args(mode, filename, code);
            opt_string_view(p.key_source) == receive_key_of(
                receive_mode_for(id, given is Some),
                id,
                given,
            )
        }),
        mode != TransferMode::Fast ==> opt_string_view(p.key_source) == Some(code),
        mode == TransferMode::Fast ==> p.key_source is None,
{
    law_receiver_matches_sender(mode, filename, code, n);
}

/// The QR options of a send: blast mode serves no QR; otherwise
/// `--global-qr` uploads to the relay (and wins over `--qr`), and `--qr`
/// alone serves the file from this machine, behind the drawn code in
/// secure mode and open in fast mode. Never both at once.
pub proof fn law_plan_qr(
    p: SendPlan,
    mode: TransferMode,
    filename: Seq<char>,
    filesize: u64,
    code: Seq<char>,
    qr: bool,
    global_qr: bool,
)
    requires
        plan_matches(p, mode, filename, filesize, code, qr, global_qr),
    ensures
        !(p.local_qr && p.global_qr),
        mode == TransferMode::Blast ==> !p.local_qr && !p.global_qr,
        mode != TransferMode::Blast ==> p.global_qr == global_qr && p.local_qr == (qr
            && !global_qr),
        mode == TransferMode::Secure ==> opt_string_view(p.qr_auth_code) == Some(code),
        mode == TransferMode::Fast ==> p.qr_auth_code is None,
{
}

/// The QR server answers any path other than the session's download path
/// with `404 Not found`, whatever the code.
pub proof fn law_qr_other_paths_not_found(
    request: Seq<char>,
    session_id: Seq<char>,
    auth_code: Option<Seq<char>>,
)
    requires
        !has_prefix(request_path(request), "/dl/"@ + session_id),
    ensures
        qr_answer(request, session_id, auth_code) == Some(
            text_response(404, "text/plain"@, "Not found"@),
        ),
{
    let path = request_path(request);
    let e = "/dl/"@ + session_id;
    assert(path != e) by {
        if path == e {
            assert(path.subrange(0, e.len() as int) =~= e);
        }
    }
}

/// On the session's download path with a code set, a request that gives
/// that code after `?code=` gets the file, one that gives no code gets the
/// page asking for it, and one that gives another code gets `403`.
pub proof fn law_qr_code_checked(request: Seq<char>, session_id: Seq<char>, code: Seq<char>)
    requires
        has_prefix(request_path(request), "/dl/"@ + session_id),
        code.len() > 0,
    ensures
        ({
            let pieces = split_seq(request_path(request), "?code="@);
            let given = if pieces.len() > 1 {
                pieces[1]
            } else {
                ""@
            };
            &&& given == code ==> qr_answer(request, session_id, Some(code)) is None
            &&& given.len() == 0 ==> qr_answer(request, session_id, Some(code)) == Some(
                text_response(200, "text/html"@, code_page(session_id, is_alpha_code(code))),
            )
            &&& given.len() > 0 && given != code ==> qr_answer(request, session_id, Some(code))
                == Some(text_response(403, "text/plain"@, "Invalid code"@))
        }),
{
}

/// On the session's download path with no code set, the file is handed
/// out.
pub proof fn law_qr_open_file(request: Seq<char>, session_id: Seq<char>)
    requires
        has_prefix(request_path(request), "/dl/"@ + session_id),
    ensures
        qr_answer(request, session_id, None) is None,
{
}

/// The `404 Not found` response, spelled out.
pub proof fn law_qr_not_found_text()
    ensures
        text_response(404, "text/plain"@, "Not found"@)
            == "HTTP/1.1 404 Not Found\r\nContent-Type: text/plain\r\nContent-Length: 9\r\nAccess-Control-Allow-Origin: *\r\n\r\nNot found"@,
{
    reveal_strlit("Not found");
    reveal_strlit("text/plain");
    reveal_strlit("HTTP/1.1 ");
    reveal_strlit(" ");
    reveal_strlit("Not Found");
    reveal_strlit("\r\nContent-Type: ");
    reveal_strlit("\r\nContent-Length: ");
    reveal_strlit("\r\nAccess-Control-Allow-Origin: *\r\n\r\n");
    reveal_strlit("HTTP/1.1 404 Not Found\r\nContent-Type: text/plain\r\nContent-Length: 9\r\nAccess-Control-Allow-Origin: *\r\n\r\nNot found");
    let body = "Not found"@;
    assert(vstd::utf8::is_ascii_chars(body));
    vstd::utf8::is_ascii_chars_encode_utf8(body);
    reveal_with_fuel(dec, 3);
    assert(dec(404) =~= seq!['4', '0', '4']);
    assert(dec(9) =~= seq!['9']);
    assert(text_response(404, "text/plain"@, body) =~= "HTTP/1.1 404 Not Found\r\nContent-Type: text/plain\r\nContent-Length: 9\r\nAccess-Control-Allow-Origin: *\r\n\r\nNot found"@);
}

} // verus!
