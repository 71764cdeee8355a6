//! The sender's temporary HTTP server for phones: its URL, how it routes a
//! request, and the responses it writes.
use vstd::prelude::*;

use crate::relay::http::{lemma_split_nonempty, request_path};
use crate::text::{
    byte_len, decode_lossy, dec, has_prefix, owned, push_decimal, push_str, split, split_seq,
    split_whitespace, starts_with, str_eq, utf8_lossy,
};
use crate::web::{attachment_head, attachment_head_text, code_page, code_page_text, http_head, http_head_text, alpha_code, is_alpha_code};

verus! {

/// The QR server that was started: its port and the URL its QR shows.
#[derive(Debug)]
pub struct QrServer {
    pub port: u16,
    pub url: String,
}

/// The URL that a phone opens: this machine's local address (or
/// `127.0.0.1`), the port, and the session's download path.
pub fn qr_server_url(local_ip: Option<String>, port: u16, session_id: &str) -> (r: String)
    ensures
        r@ == "http://"@ + match local_ip {
            Some(ip) => ip@,
            None => "127.0.0.1"@,
        } + ":"@ + dec(port as nat) + "/dl/"@ + session_id@,
{
    let mut s = owned("http://");
    match local_ip {
        Some(ip) => push_str(&mut s, ip.as_str()),
        None => push_str(&mut s, "127.0.0.1"),
    }
    push_str(&mut s, ":");
    push_decimal(&mut s, port as u64);
    push_str(&mut s, "/dl/");
    push_str(&mut s, session_id);
    s
}

/// A whole text response: the head, with the body's length in bytes, then
/// the body.
pub open spec fn text_response(status: u16, content_type: Seq<char>, body: Seq<char>) -> Seq<char> {
    http_head(status, content_type, vstd::utf8::encode_utf8(body).len()) + body
}

/// A whole text response (`make_text_response`).
pub fn make_text_response(status: u16, content_type: &str, body: &str) -> (r: String)
    ensures
        r@ == text_response(status, content_type@, body@),
{
    let mut s = http_head_text(status, content_type, byte_len(body));
    push_str(&mut s, body);
    s
}

/// The page that asks a phone for the code; a blast code is asked for as
/// four characters, anything else as four digits.
pub fn html_code_page(session_id: &str, auth_code: Option<&str>) -> (r: String)
    ensures
        r@ == code_page(
            session_id@,
            match auth_code {
                Some(c) => is_alpha_code(c@),
                None => false,
            },
        ),
{
    let alpha = match auth_code {
        Some(c) => alpha_code(c),
        None => false,
    };
    code_page_text(session_id, alpha)
}

/// How the QR server answers a request.
#[derive(Debug)]
pub enum QrRoute {
    /// Write this response and close.
    Reply(String),
    /// Stream the file.
    ServeFile,
}

/// The answer to a request whose text is `request`: a path under
/// `/dl/<session>` gets the file, once the code (if one is set) is given
/// after `?code=`; without a code the page asking for it, with a wrong one
/// 403; any other path 404. `None` stands for the file.
pub open spec fn qr_answer(request: Seq<char>, session_id: Seq<char>, auth_code: Option<Seq<char>>) -> Option<
    Seq<char>,
> {
    let path = request_path(request);
    let expected = "/dl/"@ + session_id;
    if has_prefix(path, expected) || path == expected {
        match auth_code {
            Some(code) => {
                let pieces = split_seq(path, "?code="@);
                let q = if pieces.len() > 1 {
                    pieces[1]
                } else {
                    ""@
                };
                if q.len() == 0 {
                    Some(
                        text_response(
                            200,
                            "text/html"@,
                            code_page(session_id, is_alpha_code(code)),
                        ),
                    )
                } else if q != code {
                    Some(text_response(403, "text/plain"@, "Invalid code"@))
                } else {
                    None
                }
            },
            None => None,
        }
    } else {
        Some(text_response(404, "text/plain"@, "Not found"@))
    }
}

pub open spec fn qr_route_view(r: QrRoute) -> Option<Seq<char>> {
    match r {
        QrRoute::Reply(s) => Some(s@),
        QrRoute::ServeFile => None,
    }
}

/// Routes a request by its text.
pub fn route_qr_request(request: &str, session_id: &str, auth_code: Option<&str>) -> (r: QrRoute)
    ensures
        qr_route_view(r) == qr_answer(
            request@,
            session_id@,
            match auth_code {
                Some(c) => Some(c@),
                None => None,
            },
        ),
{
    let words = split_whitespace(request);
    let path = if words.len() > 1 {
        words[1].clone()
    } else {
        owned("/")
    };
    let mut expected = owned("/dl/");
    push_str(&mut expected, session_id);
    if starts_with(path.as_str(), expected.as_str()) || str_eq(path.as_str(), expected.as_str()) {
        match auth_code {
            Some(code) => {
                proof {
                    reveal_strlit("?code=");
                }
                let pieces = split(path.as_str(), "?code=");
                let q = if pieces.len() > 1 {
                    pieces[1].clone()
                } else {
                    owned("")
                };
                if q.as_str().is_empty() {
                    let html = html_code_page(session_id, Some(code));
                    QrRoute::Reply(make_text_response(200, "text/html", html.as_str()))
                } else if !str_eq(q.as_str(), code) {
                    QrRoute::Reply(make_text_response(403, "text/plain", "Invalid code"))
                } else {
                    QrRoute::ServeFile
                }
            },
            None => QrRoute::ServeFile,
        }
    } else {
        QrRoute::Reply(make_text_response(404, "text/plain", "Not found"))
    }
}

/// Routes the bytes a phone sent (read as UTF-8, invalid sequences
/// replaced).
pub fn route_qr_bytes(request: &[u8], session_id: &str, auth_code: Option<&str>) -> (r: QrRoute)
    ensures
        qr_route_view(r) == qr_answer(
            utf8_lossy(request@),
            session_id@,
            match auth_code {
                Some(c) => Some(c@),
                None => None,
            },
        ),
{
    let text = decode_lossy(request);
    route_qr_request(text.as_str(), session_id, auth_code)
}

/// The name under which a served file is offered: what follows the last
/// `\` and then the last `/` of its path.
pub open spec fn served_name(filepath: Seq<char>) -> Seq<char> {
    let a = split_seq(filepath, "\\"@);
    let b = split_seq(a.last(), "/"@);
    b.last()
}

/// The name under which a served file is offered.
pub fn served_filename(filepath: &str) -> (r: String)
    ensures
        r@ == served_name(filepath@),
{
    proof {
        reveal_strlit("\\");
        reveal_strlit("/");
        lemma_split_nonempty(filepath@, "\\"@);
    }
    let a = split(filepath, "\\");
    let last_a = a[a.len() - 1].clone();
    proof {
        lemma_split_nonempty(last_a@, "/"@);
    }
    let b = split(last_a.as_str(), "/");
    b[b.len() - 1].clone()
}

/// The head written before a served file of `len` bytes.
pub fn file_response_head(len: usize, filepath: &str) -> (r: String)
    ensures
        r@ == attachment_head(len as nat, served_name(filepath@)),
{
    let name = served_filename(filepath);
    attachment_head_text(len, name.as_str())
}

/// Whether the server goes on accepting connections after answering one:
/// it stops once it has handed out the file in full, as the transfer is
/// then done.
pub fn keeps_serving(route: &QrRoute, delivered: bool) -> (r: bool)
    ensures
        r == !(*route is ServeFile && delivered),
{
    match route {
        QrRoute::ServeFile => !delivered,
        QrRoute::Reply(_) => true,
    }
}

} // verus!
