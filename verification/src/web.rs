//! HTTP response text shared by the relay and the sender's QR server: the
//! response heads and the page that asks a phone for the transfer code.
use vstd::prelude::*;

use crate::text::{dec, owned, push_decimal, push_str};

verus! {

/// The reason phrase for a status code.
pub open spec fn reason_phrase(status: u16) -> Seq<char> {
    if status == 200 {
        "OK"@
    } else if status == 403 {
        "Forbidden"@
    } else if status == 404 {
        "Not Found"@
    } else {
        "Error"@
    }
}

/// The head of a response with the given status, content type and declared
/// body length.
pub open spec fn http_head(status: u16, content_type: Seq<char>, content_len: nat) -> Seq<char> {
    "HTTP/1.1 "@ + dec(status as nat) + " "@ + reason_phrase(status) + "\r\nContent-Type: "@
        + content_type + "\r\nContent-Length: "@ + dec(content_len)
        + "\r\nAccess-Control-Allow-Origin: *\r\n\r\n"@
}

/// The head of a response that hands over a file of `len` bytes under the
/// name `filename`.
pub open spec fn attachment_head(len: nat, filename: Seq<char>) -> Seq<char> {
    "HTTP/1.1 200 OK\r\nContent-Type: application/octet-stream\r\nContent-Length: "@ + dec(len)
        + "\r\nContent-Disposition: attachment; filename=\""@ + filename
        + "\"\r\nAccess-Control-Allow-Origin: *\r\n\r\n"@
}

/// The code is four bytes long and not all decimal digits: it is a blast
/// code, typed in capitals.
pub open spec fn is_alpha_code(code: Seq<char>) -> bool {
    vstd::utf8::encode_utf8(code).len() == 4 && !(forall|i: int|
        0 <= i < code.len() ==> '0' <= #[trigger] code[i] <= '9')
}

/// The page that asks for the code of session `session_id`.
pub open spec fn code_page(session_id: Seq<char>, alpha: bool) -> Seq<char> {
    code_page_start() + (if alpha {
        "4-character"@
    } else {
        "4-digit"@
    }) + code_page_input() + (if alpha {
        " oninput=\"this.value=this.value.toUpperCase()\""@
    } else {
        ""@
    }) + code_page_button() + session_id + code_page_end()
}

pub open spec fn code_page_start() -> Seq<char> {
    "<!DOCTYPE html>\n<html><head><meta charset=\"UTF-8\"><meta name=\"viewport\" content=\"width=device-width,initial-scale=1\">\n<title>VoidDrop</title><style>\nbody{font-family:sans-serif;background:#0a0a0f;color:#fff;display:flex;justify-content:center;align-items:center;height:100vh;margin:0}\n.card{text-align:center;padding:2rem;border:1px solid #6c63ff;border-radius:12px;background:#12121a;max-width:320px}\nh1{color:#6c63ff;margin:0 0 0.5rem}p{color:#888;margin:0 0 1.5rem;font-size:0.9rem}\ninput{padding:0.75rem;font-size:1.5rem;text-align:center;width:100px;border:2px solid #6c63ff;border-radius:8px;background:#1a1a2e;color:#fff;outline:none;letter-spacing:4px}\ninput:focus{border-color:#00d4ff}\nbutton{padding:0.75rem 2rem;font-size:1rem;background:#6c63ff;color:#fff;border:none;border-radius:8px;cursor:pointer;margin-top:1rem;font-weight:bold}\nbutton:hover{background:#5a52e0}\n.hint{color:#555;font-size:0.8rem;margin-top:1rem}\n</style></head>\n<body><div class=\"card\"><h1>\u{26a1} VoidDrop</h1><p>Enter the "@
}

pub open spec fn code_page_input() -> Seq<char> {
    " code</p>\n<input type=\"text\" id=\"code\" maxlength=\"4\" autofocus"@
}

pub open spec fn code_page_button() -> Seq<char> {
    "/>\n<br/><button onclick=\"location.href='/dl/"@
}

pub open spec fn code_page_end() -> Seq<char> {
    "?code='+encodeURIComponent(code.value)\">Download</button>\n<div class=\"hint\">Code is shown on the sender's terminal</div></div></body></html>"@
}

/// The reason phrase for `status`.
pub fn reason(status: u16) -> (r: &'static str)
    ensures
        r@ == reason_phrase(status),
{
    if status == 200 {
        "OK"
    } else if status == 403 {
        "Forbidden"
    } else if status == 404 {
        "Not Found"
    } else {
        "Error"
    }
}

/// The head of a response: status line, content type, declared length.
pub fn http_head_text(status: u16, content_type: &str, content_len: usize) -> (r: String)
    ensures
        r@ == http_head(status, content_type@, content_len as nat),
{
    let mut s = owned("HTTP/1.1 ");
    push_decimal(&mut s, status as u64);
    push_str(&mut s, " ");
    push_str(&mut s, reason(status));
    push_str(&mut s, "\r\nContent-Type: ");
    push_str(&mut s, content_type);
    push_str(&mut s, "\r\nContent-Length: ");
    push_decimal(&mut s, content_len as u64);
    push_str(&mut s, "\r\nAccess-Control-Allow-Origin: *\r\n\r\n");
    s
}

/// The head of a response that hands over a file.
pub fn attachment_head_text(len: usize, filename: &str) -> (r: String)
    ensures
        r@ == attachment_head(len as nat, filename@),
{
    let mut s = owned(
        "HTTP/1.1 200 OK\r\nContent-Type: application/octet-stream\r\nContent-Length: ",
    );
    push_decimal(&mut s, len as u64);
    push_str(&mut s, "\r\nContent-Disposition: attachment; filename=\"");
    push_str(&mut s, filename);
    push_str(&mut s, "\"\r\nAccess-Control-Allow-Origin: *\r\n\r\n");
    s
}

/// Whether `code` is a blast code (see [`is_alpha_code`]).
pub fn alpha_code(code: &str) -> (r: bool)
    ensures
        r == is_alpha_code(code@),
{
    if crate::text::byte_len(code) != 4 {
        return false;
    }
    let v = crate::text::chars_of(code);
    let mut i: usize = 0;
    while i < v.len()
        invariant
            i <= v@.len(),
            v@ == code@,
            vstd::utf8::encode_utf8(code@).len() == 4,
            forall|j: int| 0 <= j < i ==> '0' <= #[trigger] v@[j] <= '9',
        decreases v@.len() - i,
    {
        if !('0' <= v[i] && v[i] <= '9') {
            assert(!('0' <= code@[i as int] <= '9'));
            return true;
        }
        i = i + 1;
    }
    false
}

/// The page that asks a phone for the code of `session_id`.
pub fn code_page_text(session_id: &str, alpha: bool) -> (r: String)
    ensures
        r@ == code_page(session_id@, alpha),
{
    let mut s = owned(
        "<!DOCTYPE html>\n<html><head><meta charset=\"UTF-8\"><meta name=\"viewport\" content=\"width=device-width,initial-scale=1\">\n<title>VoidDrop</title><style>\nbody{font-family:sans-serif;background:#0a0a0f;color:#fff;display:flex;justify-content:center;align-items:center;height:100vh;margin:0}\n.card{text-align:center;padding:2rem;border:1px solid #6c63ff;border-radius:12px;background:#12121a;max-width:320px}\nh1{color:#6c63ff;margin:0 0 0.5rem}p{color:#888;margin:0 0 1.5rem;font-size:0.9rem}\ninput{padding:0.75rem;font-size:1.5rem;text-align:center;width:100px;border:2px solid #6c63ff;border-radius:8px;background:#1a1a2e;color:#fff;outline:none;letter-spacing:4px}\ninput:focus{border-color:#00d4ff}\nbutton{padding:0.75rem 2rem;font-size:1rem;background:#6c63ff;color:#fff;border:none;border-radius:8px;cursor:pointer;margin-top:1rem;font-weight:bold}\nbutton:hover{background:#5a52e0}\n.hint{color:#555;font-size:0.8rem;margin-top:1rem}\n</style></head>\n<body><div class=\"card\"><h1>\u{26a1} VoidDrop</h1><p>Enter the ",
    );
    if alpha {
        push_str(&mut s, "4-character");
    } else {
        push_str(&mut s, "4-digit");
    }
    push_str(&mut s, " code</p>\n<input type=\"text\" id=\"code\" maxlength=\"4\" autofocus");
    if alpha {
        push_str(&mut s, " oninput=\"this.value=this.value.toUpperCase()\"");
    } else {
        push_str(&mut s, "");
    }
    push_str(&mut s, "/>\n<br/><button onclick=\"location.href='/dl/");
    push_str(&mut s, session_id);
    push_str(
        &mut s,
        "?code='+encodeURIComponent(code.value)\">Download</button>\n<div class=\"hint\">Code is shown on the sender's terminal</div></div></body></html>",
    );
    s
}

} // verus!
