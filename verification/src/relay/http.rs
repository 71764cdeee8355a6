//! The relay's HTTP side: telling HTTP requests from protocol messages,
//! reading the request line and headers, and answering uploads and
//! downloads.
use vstd::prelude::*;

use crate::relay::session::{
    after_cleanup, after_store_file, after_upload_start, lookup, stored_file, ManagerView,
    SessionManager, SessionView,
};
use crate::text::{
    byte_char, byte_len, chars_of, decode_lossy, has_prefix, owned, split, split_seq, utf8_lossy,
    split_whitespace, starts_with, str_eq, strip_prefix, strip_prefix_seq, trim, trim_seq,
    ws_tokens,
};
use crate::web::{
    alpha_code, attachment_head, attachment_head_text, code_page, code_page_text, http_head,
    http_head_text, is_alpha_code,
};

verus! {

// ---------------------------------------------------------------------------
// Percent-decoding
// ---------------------------------------------------------------------------

/// The value of a hexadecimal digit.
pub open spec fn hex_digit(c: char) -> Option<nat> {
    if '0' <= c <= '9' {
        Some((c as nat - 48) as nat)
    } else if 'a' <= c <= 'f' {
        Some((c as nat - 87) as nat)
    } else if 'A' <= c <= 'F' {
        Some((c as nat - 55) as nat)
    } else {
        None
    }
}

/// `u8::from_str_radix(h, 16)` for a text `h` of at most two characters: an
/// optional `+`, then one or two hexadecimal digits.
pub open spec fn parse_hex_byte(h: Seq<char>) -> Option<u8> {
    let d = if h.len() > 1 && h[0] == '+' {
        h.drop_first()
    } else {
        h
    };
    if d.len() == 1 {
        match hex_digit(d[0]) {
            Some(v) => Some(v as u8),
            None => None,
        }
    } else if d.len() == 2 {
        match (hex_digit(d[0]), hex_digit(d[1])) {
            (Some(a), Some(b)) => Some((a * 16 + b) as u8),
            _ => None,
        }
    } else {
        None
    }
}

/// The characters whose values are the bytes `b` (each byte read as
/// Latin-1, as `b as char` does).
pub open spec fn latin1(b: Seq<u8>) -> Seq<char> {
    b.map_values(|x: u8| x as char)
}

/// Percent-decoding of the bytes of a path: `%` takes the next (at most)
/// two bytes; when they read as a hexadecimal number (see
/// [`parse_hex_byte`]), the byte with that value replaces all three,
/// otherwise the three are kept as they are. Every other byte is kept.
pub open spec fn percent_bytes(b: Seq<u8>) -> Seq<u8>
    decreases b.len(),
{
    if b.len() == 0 {
        seq![]
    } else if b[0] == 0x25u8 {
        let end = if b.len() < 3 {
            b.len() as int
        } else {
            3
        };
        let h = b.subrange(1, end);
        let rest = b.subrange(end, b.len() as int);
        match parse_hex_byte(latin1(h)) {
            Some(x) => seq![x] + percent_bytes(rest),
            None => seq![0x25u8] + h + percent_bytes(rest),
        }
    } else {
        seq![b[0]] + percent_bytes(b.subrange(1, b.len() as int))
    }
}

/// The text that bytes spell: their UTF-8 decoding when they are valid
/// UTF-8, otherwise what `String::from_utf8_lossy` makes of them.
pub open spec fn utf8_text(b: Seq<u8>) -> Seq<char> {
    if vstd::utf8::valid_utf8(b) {
        vstd::utf8::decode_utf8(b)
    } else {
        utf8_lossy(b)
    }
}

/// Percent-decoding of a request path: the path's UTF-8 bytes with every
/// `%XX` escape replaced by the byte it gives, read back as UTF-8, so that
/// `%C3%A9` is `é`.
pub open spec fn percent_decoded(s: Seq<char>) -> Seq<char> {
    utf8_text(percent_bytes(vstd::utf8::encode_utf8(s)))
}

fn hex_digit_exec(c: char) -> (r: Option<u8>)
    ensures
        match r {
            Some(v) => hex_digit(c) == Some(v as nat) && v < 16,
            None => hex_digit(c) is None,
        },
{
    if '0' <= c && c <= '9' {
        Some((c as u32 - 48) as u8)
    } else if 'a' <= c && c <= 'f' {
        Some((c as u32 - 87) as u8)
    } else if 'A' <= c && c <= 'F' {
        Some((c as u32 - 55) as u8)
    } else {
        None
    }
}

fn parse_hex_byte_exec(h: &Vec<char>) -> (r: Option<u8>)
    requires
        h@.len() <= 2,
    ensures
        r == parse_hex_byte(h@),
{
    let start: usize = if h.len() > 1 && h[0] == '+' {
        1
    } else {
        0
    };
    proof {
        let d = if h@.len() > 1 && h@[0] == '+' {
            h@.drop_first()
        } else {
            h@
        };
        assert(d =~= h@.subrange(start as int, h@.len() as int));
    }
    let n = h.len() - start;
    if n == 1 {
        match hex_digit_exec(h[start]) {
            Some(v) => Some(v),
            None => None,
        }
    } else if n == 2 {
        match (hex_digit_exec(h[start]), hex_digit_exec(h[start + 1])) {
            (Some(a), Some(b)) => Some(a * 16 + b),
            _ => None,
        }
    } else {
        None
    }
}

/// Bytes without `%` are left as they are.
pub proof fn lemma_percent_bytes_plain(b: Seq<u8>)
    requires
        forall|i: int| 0 <= i < b.len() ==> b[i] != 0x25u8,
    ensures
        percent_bytes(b) == b,
    decreases b.len(),
{
    if b.len() > 0 {
        let r = b.subrange(1, b.len() as int);
        lemma_percent_bytes_plain(r);
        assert(seq![b[0]] + r =~= b);
    }
}

/// No byte of the UTF-8 encoding of a character other than `%` is `%`.
proof fn lemma_scalar_no_percent(c: char)
    requires
        c != '%',
    ensures
        forall|j: int|
            0 <= j < vstd::utf8::encode_scalar(c as u32).len()
                ==> #[trigger] vstd::utf8::encode_scalar(c as u32)[j] != 0x25u8,
{
    let v = c as u32;
    vstd::utf8::char_u32_cast(c, v);
    assert(v != 0x25u32);
    assert(v <= 0x7F ==> ((v & 0x7F) as u8) != 0x25u8) by (bit_vector)
        requires
            v != 0x25u32,
    ;
    assert((0xC0u8 | ((v >> 6) & 0x1F) as u8) != 0x25u8) by (bit_vector);
    assert((0xE0u8 | ((v >> 12) & 0x0F) as u8) != 0x25u8) by (bit_vector);
    assert((0xF0u8 | ((v >> 18) & 0x7) as u8) != 0x25u8) by (bit_vector);
    assert((0x80u8 | (v & 0x3F) as u8) != 0x25u8) by (bit_vector);
    assert((0x80u8 | ((v >> 6) & 0x3F) as u8) != 0x25u8) by (bit_vector);
    assert((0x80u8 | ((v >> 12) & 0x3F) as u8) != 0x25u8) by (bit_vector);
}

/// The UTF-8 encoding of a text without `%` has no `%` byte.
pub proof fn lemma_encode_no_percent(s: Seq<char>)
    requires
        forall|i: int| 0 <= i < s.len() ==> s[i] != '%',
    ensures
        forall|i: int|
            0 <= i < vstd::utf8::encode_utf8(s).len() ==> #[trigger] vstd::utf8::encode_utf8(s)[i]
                != 0x25u8,
    decreases s.len(),
{
    if s.len() > 0 {
        let t = s.drop_first();
        lemma_encode_no_percent(t);
        lemma_scalar_no_percent(s[0]);
        let a = vstd::utf8::encode_scalar(s[0] as u32);
        let r = vstd::utf8::encode_utf8(t);
        let e = vstd::utf8::encode_utf8(s);
        assert(e == a + r);
        assert forall|i: int| 0 <= i < e.len() implies #[trigger] e[i] != 0x25u8 by {
            if i < a.len() {
                assert(e[i] == a[i]);
            } else {
                assert(e[i] == r[i - a.len()]);
            }
        }
    }
}

/// The bytes `b[i..j]` as characters, one per byte.
fn latin1_chars(b: &[u8], i: usize, j: usize) -> (r: Vec<char>)
    requires
        i <= j <= b@.len(),
    ensures
        r@ == latin1(b@.subrange(i as int, j as int)),
{
    let mut r: Vec<char> = Vec::new();
    let mut k = i;
    while k < j
        invariant
            i <= k <= j <= b@.len(),
            r@ == latin1(b@.subrange(i as int, k as int)),
        decreases j - k,
    {
        let c = byte_char(b[k]);
        proof {
            assert(c == b@[k as int] as char);
        }
        r.push(c);
        assert(r@ =~= latin1(b@.subrange(i as int, k + 1)));
        k = k + 1;
    }
    r
}

/// Decodes `%XX` escapes in a request path, reading the decoded bytes as
/// UTF-8.
pub fn percent_decode(s: &str) -> (r: String)
    ensures
        r@ == percent_decoded(s@),
{
    let b = s.as_bytes();
    let ghost bv = b@;
    assert(bv == vstd::utf8::encode_utf8(s@));
    let n = b.len();
    let mut out: Vec<u8> = Vec::new();
    let mut i: usize = 0;
    assert(bv.subrange(0, n as int) =~= bv);
    while i < n
        invariant
            i <= n == bv.len(),
            b@ == bv,
            percent_bytes(bv) == out@ + percent_bytes(bv.subrange(i as int, n as int)),
        decreases n - i,
    {
        let ghost rest = bv.subrange(i as int, n as int);
        let ghost out0 = out@;
        if b[i] == 0x25u8 {
            let end: usize = if n - i < 3 {
                n
            } else {
                i + 3
            };
            let h = latin1_chars(b, i + 1, end);
            proof {
                let e = if rest.len() < 3 {
                    rest.len() as int
                } else {
                    3
                };
                assert(e == end - i);
                assert(rest.subrange(1, e) =~= bv.subrange(i + 1, end as int));
                assert(rest.subrange(e, rest.len() as int) =~= bv.subrange(end as int, n as int));
            }
            match parse_hex_byte_exec(&h) {
                Some(x) => {
                    out.push(x);
                },
                None => {
                    out.push(0x25u8);
                    let mut k = i + 1;
                    while k < end
                        invariant
                            i + 1 <= k <= end <= n,
                            b@ == bv,
                            n == bv.len(),
                            out@ == out0.push(0x25u8) + bv.subrange(i + 1, k as int),
                        decreases end - k,
                    {
                        out.push(b[k]);
                        assert(bv.subrange(i + 1, k as int).push(bv[k as int]) =~= bv.subrange(
                            i + 1,
                            k + 1,
                        ));
                        k = k + 1;
                    }
                },
            }
            proof {
                assert(out@ + percent_bytes(bv.subrange(end as int, n as int)) =~= out0
                    + percent_bytes(rest));
            }
            i = end;
        } else {
            out.push(b[i]);
            proof {
                assert(rest.subrange(1, rest.len() as int) =~= bv.subrange(i + 1, n as int));
                assert(out@ + percent_bytes(bv.subrange(i + 1, n as int)) =~= out0
                    + percent_bytes(rest));
            }
            i = i + 1;
        }
    }
    assert(out@ + percent_bytes(bv.subrange(n as int, n as int)) =~= out@);
    decode_lossy(out.as_slice())
}

// ---------------------------------------------------------------------------
// Requests
// ---------------------------------------------------------------------------

/// How the relay treats the first line that a connection sends.
pub enum FirstLine {
    /// Nothing but whitespace: the connection is closed.
    Empty,
    /// An HTTP request line (trimmed).
    Http(String),
    /// A protocol message (trimmed).
    Message(String),
}

/// The trimmed line decides: empty, an HTTP request (it begins with `GET`
/// or `POST`), or a protocol message.
pub open spec fn first_line_kind(line: Seq<char>) -> (int, Seq<char>) {
    let t = trim_seq(line);
    if t.len() == 0 {
        (0, t)
    } else if has_prefix(t, "GET"@) || has_prefix(t, "POST"@) {
        (1, t)
    } else {
        (2, t)
    }
}

pub open spec fn first_line_view(f: FirstLine) -> (int, Seq<char>) {
    match f {
        FirstLine::Empty => (0, Seq::empty()),
        FirstLine::Http(t) => (1, t@),
        FirstLine::Message(t) => (2, t@),
    }
}

/// Classifies the first line of a connection.
pub fn classify_first_line(line: &str) -> (r: FirstLine)
    ensures
        first_line_view(r) == first_line_kind(line@),
{
    let t = trim(line);
    if t.as_str().is_empty() {
        assert(t@ =~= Seq::<char>::empty());
        FirstLine::Empty
    } else if starts_with(t.as_str(), "GET") || starts_with(t.as_str(), "POST") {
        FirstLine::Http(t)
    } else {
        FirstLine::Message(t)
    }
}

/// What one header line of a request means to the relay.
pub enum HeaderLine {
    /// The blank line that ends the headers.
    End,
    /// A `Content-Length` header with the length it gives.
    ContentLength(usize),
    /// Any other header.
    Other,
}

/// `usize::from_str`: an optional `+`, then decimal digits, with a value
/// that fits in `usize`.
pub open spec fn parse_usize(s: Seq<char>) -> Option<nat> {
    let d = unsigned_digits(s);
    if d.len() > 0 && all_digits(d) && digits_value(d) <= usize::MAX {
        Some(digits_value(d))
    } else {
        None
    }
}

/// `s` without the `+` sign that may lead a longer number.
pub open spec fn unsigned_digits(s: Seq<char>) -> Seq<char> {
    if s.len() > 1 && s[0] == '+' {
        s.drop_first()
    } else {
        s
    }
}

/// Every character of `d` is a decimal digit.
pub open spec fn all_digits(d: Seq<char>) -> bool {
    forall|i: int| 0 <= i < d.len() ==> '0' <= #[trigger] d[i] <= '9'
}

/// The number that the decimal digits `d` spell.
pub open spec fn digits_value(d: Seq<char>) -> nat
    decreases d.len(),
{
    if d.len() == 0 {
        0
    } else {
        digits_value(d.drop_last()) * 10 + (d.last() as nat - 48) as nat
    }
}

/// A header line: blank ends the headers; `Content-Length:` (in that
/// spelling or all in lower case) gives the body length, 0 when it does not
/// parse.
pub open spec fn header_line(line: Seq<char>) -> Option<Option<nat>> {
    let t = trim_seq(line);
    if t.len() == 0 {
        None
    } else {
        let val = match strip_prefix_seq(t, "Content-Length:"@) {
            Some(v) => Some(v),
            None => strip_prefix_seq(t, "content-length:"@),
        };
        match val {
            Some(v) => Some(
                Some(
                    match parse_usize(trim_seq(v)) {
                        Some(n) => n,
                        None => 0,
                    },
                ),
            ),
            None => Some(None),
        }
    }
}

pub open spec fn header_line_view(h: HeaderLine) -> Option<Option<nat>> {
    match h {
        HeaderLine::End => None,
        HeaderLine::ContentLength(n) => Some(Some(n as nat)),
        HeaderLine::Other => Some(None),
    }
}

/// `usize::from_str`, with `None` for an error.
pub fn parse_usize_exec(s: &str) -> (r: Option<usize>)
    ensures
        match r {
            Some(n) => parse_usize(s@) == Some(n as nat),
            None => parse_usize(s@) is None,
        },
{
    let v = chars_of(s);
    let ghost sv = s@;
    let start: usize = if v.len() > 1 && v[0] == '+' {
        1
    } else {
        0
    };
    let ghost d = unsigned_digits(sv);
    assert(d =~= sv.subrange(start as int, sv.len() as int));
    if start >= v.len() {
        return None;
    }
    let mut acc: usize = 0;
    let mut i = start;
    while i < v.len()
        invariant
            start <= i <= v@.len(),
            v@ == sv,
            sv == s@,
            d == unsigned_digits(sv),
            d == sv.subrange(start as int, sv.len() as int),
            forall|j: int| 0 <= j < i - start ==> '0' <= #[trigger] d[j] <= '9',
            acc as nat == digits_value(d.subrange(0, i - start)),
        decreases v@.len() - i,
    {
        let c = v[i];
        if !('0' <= c && c <= '9') {
            assert(!('0' <= d[i - start] <= '9'));
            return None;
        }
        let digit = (c as u32 - 48) as usize;
        proof {
            assert(d.subrange(0, i + 1 - start).drop_last() =~= d.subrange(0, i - start));
            assert(d.subrange(0, i + 1 - start).last() == c);
        }
        if acc > (usize::MAX - digit) / 10 {
            proof {
                assert(acc * 10 + digit > usize::MAX) by (nonlinear_arith)
                    requires
                        acc > (usize::MAX - digit) / 10,
                        digit <= 9,
                ;
                if all_digits(d) {
                    lemma_digits_value_grows(d, (i + 1 - start) as int);
                }
            }
            return None;
        }
        assert(acc * 10 + digit <= usize::MAX) by (nonlinear_arith)
            requires
                acc <= (usize::MAX - digit) / 10,
                digit <= 9,
        ;
        acc = acc * 10 + digit;
        i = i + 1;
    }
    assert(d.subrange(0, d.len() as int) =~= d);
    Some(acc)
}

/// A longer prefix of digits spells at least as large a number.
proof fn lemma_digits_value_grows(d: Seq<char>, k: int)
    requires
        0 <= k <= d.len(),
        forall|j: int| 0 <= j < d.len() ==> '0' <= #[trigger] d[j] <= '9',
    ensures
        digits_value(d.subrange(0, k)) <= digits_value(d),
    decreases d.len() - k,
{
    if k < d.len() {
        lemma_digits_value_grows(d, k + 1);
        assert(d.subrange(0, k + 1).drop_last() =~= d.subrange(0, k));
    } else {
        assert(d.subrange(0, k) =~= d);
    }
}

/// Reads one header line.
pub fn read_header_line(line: &str) -> (r: HeaderLine)
    ensures
        header_line_view(r) == header_line(line@),
{
    let t = trim(line);
    if t.as_str().is_empty() {
        return HeaderLine::End;
    }
    let val = match strip_prefix(t.as_str(), "Content-Length:") {
        Some(v) => Some(v),
        None => strip_prefix(t.as_str(), "content-length:"),
    };
    match val {
        Some(v) => {
            let tv = trim(v.as_str());
            match parse_usize_exec(tv.as_str()) {
                Some(n) => HeaderLine::ContentLength(n),
                None => HeaderLine::ContentLength(0),
            }
        },
        None => HeaderLine::Other,
    }
}

/// What an HTTP request asks of the relay.
pub enum HttpRoute {
    /// `POST`: store the body as the file of this session.
    Upload { session_id: String },
    /// Anything else: hand out the file of this session, given this code.
    Download { session_id: String, query_code: String },
}

pub open spec fn route_view(r: HttpRoute) -> (bool, Seq<char>, Seq<char>) {
    match r {
        HttpRoute::Upload { session_id } => (true, session_id@, Seq::empty()),
        HttpRoute::Download { session_id, query_code } => (false, session_id@, query_code@),
    }
}

/// The first piece of a split, which every split has.
pub proof fn lemma_split_nonempty(s: Seq<char>, p: Seq<char>)
    ensures
        split_seq(s, p).len() >= 1,
{
}

/// The request line's method and path: its first two words, with `""` and
/// `"/"` standing in for missing ones.
pub open spec fn request_method(line: Seq<char>) -> Seq<char> {
    let w = ws_tokens(line);
    if w.len() > 0 {
        w[0]
    } else {
        ""@
    }
}

pub open spec fn request_path(line: Seq<char>) -> Seq<char> {
    let w = ws_tokens(line);
    if w.len() > 1 {
        w[1]
    } else {
        "/"@
    }
}

/// The route of a request line: a `POST` uploads to the session named after
/// `/upload/`; anything else downloads from the session named after `/dl/`
/// (up to `?`), with the code that follows `?code=`. Names are
/// percent-decoded.
pub open spec fn http_route(line: Seq<char>) -> (bool, Seq<char>, Seq<char>) {
    let method = request_method(line);
    let path = request_path(line);
    if method == "POST"@ {
        (
            true,
            percent_decoded(
                match strip_prefix_seq(path, "/upload/"@) {
                    Some(r) => r,
                    None => ""@,
                },
            ),
            Seq::empty(),
        )
    } else {
        let id = match strip_prefix_seq(path, "/dl/"@) {
            Some(r) => split_seq(r, "?"@)[0],
            None => ""@,
        };
        let pieces = split_seq(path, "?code="@);
        (
            false,
            percent_decoded(id),
            if pieces.len() > 1 {
                pieces[1]
            } else {
                ""@
            },
        )
    }
}

/// Routes an HTTP request by its request line.
pub fn route_request(first_line: &str) -> (r: HttpRoute)
    ensures
        route_view(r) == http_route(first_line@),
{
    let words = split_whitespace(first_line);
    let method = if words.len() > 0 {
        words[0].clone()
    } else {
        owned("")
    };
    let path = if words.len() > 1 {
        words[1].clone()
    } else {
        owned("/")
    };
    proof {
        assert(method@ == request_method(first_line@));
        assert(path@ == request_path(first_line@));
    }
    if str_eq(method.as_str(), "POST") {
        let target = match strip_prefix(path.as_str(), "/upload/") {
            Some(r) => r,
            None => owned(""),
        };
        HttpRoute::Upload { session_id: percent_decode(target.as_str()) }
    } else {
        let target = match strip_prefix(path.as_str(), "/dl/") {
            Some(r) => {
                proof {
                    lemma_split_nonempty(r@, "?"@);
                    reveal_strlit("?");
                }
                let pieces = split(r.as_str(), "?");
                pieces[0].clone()
            },
            None => owned(""),
        };
        proof {
            reveal_strlit("?code=");
        }
        let pieces = split(path.as_str(), "?code=");
        let query_code = if pieces.len() > 1 {
            pieces[1].clone()
        } else {
            owned("")
        };
        HttpRoute::Download { session_id: percent_decode(target.as_str()), query_code }
    }
}

// ---------------------------------------------------------------------------
// Responses
// ---------------------------------------------------------------------------

/// A response body: text or the bytes of a file.
pub enum HttpBody {
    Text(String),
    Bytes(Vec<u8>),
}

/// A response: its head, then its body.
pub struct HttpReply {
    pub head: String,
    pub body: HttpBody,
}

/// The mathematical content of a response body.
pub enum HttpBodyView {
    Text(Seq<char>),
    Bytes(Seq<u8>),
}

/// The mathematical content of a response.
pub struct HttpReplyView {
    pub head: Seq<char>,
    pub body: HttpBodyView,
}

impl View for HttpReply {
    type V = HttpReplyView;

    open spec fn view(&self) -> HttpReplyView {
        HttpReplyView {
            head: self.head@,
            body: match self.body {
                HttpBody::Text(t) => HttpBodyView::Text(t@),
                HttpBody::Bytes(b) => HttpBodyView::Bytes(b@),
            },
        }
    }
}

/// A plain-text response; the declared length is given apart from the body.
pub open spec fn text_reply(status: u16, declared_len: nat, body: Seq<char>) -> HttpReplyView {
    HttpReplyView {
        head: http_head(status, "text/plain"@, declared_len),
        body: HttpBodyView::Text(body),
    }
}

/// The answer to an upload for a session that does not exist.
pub open spec fn upload_rejected_view() -> HttpReplyView {
    text_reply(404, 26, "Session not found for upload"@)
}

/// The answer to an upload that was stored.
pub open spec fn upload_accepted_view() -> HttpReplyView {
    text_reply(200, 2, "OK"@)
}

/// Whether a session's file is handed out only with its code: secure and
/// blast sessions.
pub open spec fn download_needs_code(mode: Seq<char>) -> bool {
    mode == "secure"@ || mode == "blast"@
}

/// The answer to a download request for `session_id` with `query_code`:
/// `found` is the session (if it exists and its upload is complete) and
/// `file` the file stored for it. A session in secure or blast mode first
/// asks for the code, and refuses a wrong one.
pub open spec fn download_reply_view(
    session_id: Seq<char>,
    query_code: Seq<char>,
    found: Option<SessionView>,
    file: Option<Seq<u8>>,
) -> HttpReplyView {
    match found {
        None => text_reply(404, 19, "Session not found"@),
        Some(s) => if download_needs_code(s.mode) && query_code.len() == 0 {
            let html = code_page(session_id, is_alpha_code(s.code));
            HttpReplyView {
                head: http_head(
                    200,
                    "text/html; charset=utf-8"@,
                    vstd::utf8::encode_utf8(html).len(),
                ),
                body: HttpBodyView::Text(html),
            }
        } else if download_needs_code(s.mode) && query_code != s.code {
            text_reply(403, 11, "Invalid code"@)
        } else {
            match file {
                Some(data) => HttpReplyView {
                    head: attachment_head(data.len(), s.filename),
                    body: HttpBodyView::Bytes(data),
                },
                None => text_reply(404, 14, "File not found"@),
            }
        },
    }
}

/// The session that a download may read: it exists and its upload is
/// complete.
pub open spec fn ready_session(m: ManagerView, id: Seq<char>) -> Option<SessionView> {
    match lookup(m, id) {
        Some(s) => if s.upload_ready {
            Some(s)
        } else {
            None
        },
        None => None,
    }
}

fn text_reply_exec(status: u16, declared_len: usize, body: &str) -> (r: HttpReply)
    ensures
        r@ == text_reply(status, declared_len as nat, body@),
{
    HttpReply {
        head: http_head_text(status, "text/plain", declared_len),
        body: HttpBody::Text(owned(body)),
    }
}

/// The answer to an upload for a session that does not exist.
pub fn upload_rejected() -> (r: HttpReply)
    ensures
        r@ == upload_rejected_view(),
{
    text_reply_exec(404, 26, "Session not found for upload")
}

/// The answer to an upload that was stored.
pub fn upload_accepted() -> (r: HttpReply)
    ensures
        r@ == upload_accepted_view(),
{
    text_reply_exec(200, 2, "OK")
}

/// Begins an upload to `session_id`: the session's file becomes empty.
/// A session that does not exist is refused at once (its body is not
/// read); `None` means the body is to be read and stored.
pub fn begin_upload(sm: &mut SessionManager, session_id: &str) -> (r: Option<HttpReply>)
    ensures
        final(sm)@ == after_upload_start(old(sm)@, session_id@),
        r is None <==> old(sm)@.sessions.contains_key(session_id@),
        r matches Some(reply) ==> reply@ == upload_rejected_view(),
{
    if sm.upload_start(session_id) {
        None
    } else {
        Some(upload_rejected())
    }
}

/// Stores the body of an upload as the file of `session_id`, marks the
/// session ready for download, and answers the upload.
pub fn finish_upload(sm: &mut SessionManager, session_id: &str, body: &[u8]) -> (r: HttpReply)
    ensures
        final(sm)@ == after_store_file(old(sm)@, session_id@, body@),
        r@ == upload_accepted_view(),
{
    sm.store_file(session_id, body);
    upload_accepted()
}

/// The head of a plain response (`make_http_header`).
pub fn make_http_header(status: u16, content_type: &str, content_len: usize) -> (r: String)
    ensures
        r@ == http_head(status, content_type@, content_len as nat),
{
    http_head_text(status, content_type, content_len)
}

/// The page that asks a phone for the code of `session_id`; `code` decides
/// whether it asks for four digits or four characters.
pub fn html_code_page(session_id: &str, code: &str) -> (r: String)
    ensures
        r@ == code_page(session_id@, is_alpha_code(code@)),
{
    code_page_text(session_id, alpha_code(code))
}

/// Answers a download request, with the clock at `now` (expired sessions
/// are dropped first).
pub fn download_reply_at(sm: &mut SessionManager, session_id: &str, query_code: &str, now: i64) -> (r:
    HttpReply)
    ensures
        final(sm)@ == after_cleanup(old(sm)@, now),
        r@ == download_reply_view(
            session_id@,
            query_code@,
            ready_session(final(sm)@, session_id@),
            stored_file(final(sm)@, session_id@),
        ),
{
    let found = sm.join_at(session_id, now);
    let session = match found {
        Some(s) => if s.upload_ready {
            Some(s)
        } else {
            None
        },
        None => None,
    };
    match session {
        None => text_reply_exec(404, 19, "Session not found"),
        Some(sess) => {
            let guarded = str_eq(sess.mode.as_str(), "secure") || str_eq(sess.mode.as_str(), "blast");
            if guarded && query_code.is_empty() {
                let html = html_code_page(session_id, sess.code.as_str());
                let len = byte_len(html.as_str());
                HttpReply {
                    head: http_head_text(200, "text/html; charset=utf-8", len),
                    body: HttpBody::Text(html),
                }
            } else if guarded && !str_eq(query_code, sess.code.as_str()) {
                text_reply_exec(403, 11, "Invalid code")
            } else {
                match sm.get_file(session_id) {
                    Some(data) => HttpReply {
                        head: attachment_head_text(data.len(), sess.filename.as_str()),
                        body: HttpBody::Bytes(data),
                    },
                    None => text_reply_exec(404, 14, "File not found"),
                }
            }
        },
    }
}

/// Answers a download request at the current time (see
/// [`download_reply_at`]).
pub fn download_reply(sm: &mut SessionManager, session_id: &str, query_code: &str) -> (r: HttpReply)
    ensures
        exists|now: i64|
            final(sm)@ == #[trigger] after_cleanup(old(sm)@, now) && r@ == download_reply_view(
                session_id@,
                query_code@,
                ready_session(final(sm)@, session_id@),
                stored_file(final(sm)@, session_id@),
            ),
{
    let now = crate::relay::session::unix_now();
    download_reply_at(sm, session_id, query_code, now)
}

} // verus!
