//! What holds of the relay across operations.
use vstd::prelude::*;

use crate::relay::http::{
    all_digits, digits_value, header_line, parse_usize, unsigned_digits,
    download_needs_code, download_reply_view, hex_digit, latin1, lemma_encode_no_percent,
    lemma_percent_bytes_plain, parse_hex_byte, percent_bytes, percent_decoded, ready_session,
    HttpBodyView,
};
use crate::relay::protocol::{
    dispatch, join_reply, joined_view, ClientMessageView, ServerMessageView,
};
use crate::text::{dec, digit_char, is_ws, lead_ws, trail_ws, trim_seq};
use crate::relay::session::{
    after_cleanup, after_create, after_remove, after_set_sender_addr, after_store_file,
    after_upload_start, is_live, lookup, new_session, ready_sessions_have_files, session_id_for,
    stored_file, ManagerView, SessionView,
    SESSION_TTL_SECS,
};

verus! {

/// A session can be joined, with exactly what its creator gave, until its
/// time to live has run out; after that it is gone.
pub proof fn law_join_after_create(
    m: ManagerView,
    mode: Seq<char>,
    filename: Seq<char>,
    filesize: u64,
    code: Seq<char>,
    worldwide_qr: bool,
    created: i64,
    joined: i64,
)
    ensures
        lookup(
            after_cleanup(
                after_create(m, mode, filename, filesize, code, worldwide_qr, created),
                joined,
            ),
            session_id_for(mode, filename, code),
        ) == if joined - created < SESSION_TTL_SECS {
            Some(new_session(mode, filename, filesize, code, worldwide_qr, created))
        } else {
            None
        },
{
}

/// A file that was stored is what a later read gives back.
pub proof fn law_get_after_store(m: ManagerView, id: Seq<char>, data: Seq<u8>)
    ensures
        stored_file(after_store_file(m, id, data), id) == Some(data),
{
}

/// One call on the session table, as a value: the table's methods with
/// their arguments (the clock reading, for the calls that read it).
pub enum TableCall {
    Create {
        mode: Seq<char>,
        filename: Seq<char>,
        filesize: u64,
        code: Seq<char>,
        worldwide_qr: bool,
        now: i64,
    },
    Join { id: Seq<char>, now: i64 },
    SetSenderAddr { id: Seq<char>, addr: Seq<char> },
    Remove { id: Seq<char> },
    UploadStart { id: Seq<char> },
    StoreFile { id: Seq<char>, data: Seq<u8> },
}

/// The table after one call, as the method's contract states it.
pub open spec fn after_call(m: ManagerView, c: TableCall) -> ManagerView {
    match c {
        TableCall::Create { mode, filename, filesize, code, worldwide_qr, now } => after_create(
            m,
            mode,
            filename,
            filesize,
            code,
            worldwide_qr,
            now,
        ),
        TableCall::Join { id, now } => after_cleanup(m, now),
        TableCall::SetSenderAddr { id, addr } => after_set_sender_addr(m, id, addr),
        TableCall::Remove { id } => after_remove(m, id),
        TableCall::UploadStart { id } => after_upload_start(m, id),
        TableCall::StoreFile { id, data } => after_store_file(m, id, data),
    }
}

/// The table after a run of calls, in order.
pub open spec fn after_calls(m: ManagerView, calls: Seq<TableCall>) -> ManagerView
    decreases calls.len(),
{
    if calls.len() == 0 {
        m
    } else {
        after_calls(after_call(m, calls[0]), calls.drop_first())
    }
}

/// Whether a call leaves the file of session `id` alone, when that
/// session was created at `created` (`None`: there is no such session):
/// it does not remove, restart or store that session's file, and a call
/// that reads the clock (and so drops expired sessions and the files of
/// missing ones) finds the session there and within its time to live.
pub open spec fn keeps_file_of(c: TableCall, id: Seq<char>, created: Option<i64>) -> bool {
    match c {
        TableCall::Create { now, .. } => created matches Some(t) && now - t < SESSION_TTL_SECS,
        TableCall::Join { now, .. } => created matches Some(t) && now - t < SESSION_TTL_SECS,
        TableCall::SetSenderAddr { .. } => true,
        TableCall::Remove { id: other } => other != id,
        TableCall::UploadStart { id: other } => other != id,
        TableCall::StoreFile { id: other, .. } => other != id,
    }
}

/// When the session `id` was created after a call: a create of that id
/// records it anew at its clock reading.
pub open spec fn created_after_call(c: TableCall, id: Seq<char>, created: Option<i64>) -> Option<
    i64,
> {
    match c {
        TableCall::Create { mode, filename, code, now, .. } => if session_id_for(
            mode,
            filename,
            code,
        ) == id {
            Some(now)
        } else {
            created
        },
        _ => created,
    }
}

/// Whether every call of a run leaves the file of session `id` alone,
/// following the session's creation time along the run.
pub open spec fn keeps_file_along(calls: Seq<TableCall>, id: Seq<char>, created: Option<i64>) -> bool
    decreases calls.len(),
{
    calls.len() == 0 || (keeps_file_of(calls[0], id, created) && keeps_file_along(
        calls.drop_first(),
        id,
        created_after_call(calls[0], id, created),
    ))
}

/// The creation time of session `id` in `m`, if it is there.
pub open spec fn created_in(m: ManagerView, id: Seq<char>) -> Option<i64> {
    if m.sessions.contains_key(id) {
        Some(m.sessions[id].created_at)
    } else {
        None
    }
}

/// A file stored for a session is what a read gives back after any run of
/// calls that leaves it alone (see [`keeps_file_along`]): no call removes,
/// restarts or stores that file, and each call that reads the clock finds
/// the session within its time to live, counted from its latest creation.
pub proof fn law_get_after_store_and_calls(
    m: ManagerView,
    id: Seq<char>,
    data: Seq<u8>,
    calls: Seq<TableCall>,
)
    requires
        keeps_file_along(calls, id, created_in(m, id)),
    ensures
        stored_file(after_calls(after_store_file(m, id, data), calls), id) == Some(data),
{
    lemma_calls_keep_file(after_store_file(m, id, data), id, data, created_in(m, id), calls);
}

proof fn lemma_calls_keep_file(
    m: ManagerView,
    id: Seq<char>,
    data: Seq<u8>,
    created: Option<i64>,
    calls: Seq<TableCall>,
)
    requires
        created == created_in(m, id),
        m.files.contains_key(id),
        m.files[id] == data,
        keeps_file_along(calls, id, created),
    ensures
        stored_file(after_calls(m, calls), id) == Some(data),
    decreases calls.len(),
{
    if calls.len() > 0 {
        let c = calls[0];
        let m1 = after_call(m, c);
        let created1 = created_after_call(c, id, created);
        assert(created1 == created_in(m1, id) && m1.files.contains_key(id) && m1.files[id] == data)
            by {
            match c {
                TableCall::Create { mode, filename, filesize, code, worldwide_qr, now } => {
                    assert(is_live(m.sessions[id], now));
                },
                TableCall::Join { id: j, now } => {
                    assert(is_live(m.sessions[id], now));
                },
                _ => {},
            }
        }
        lemma_calls_keep_file(m1, id, data, created1, calls.drop_first());
    }
}

/// Starting an upload for an existing session leaves it an empty file;
/// for a missing session it changes nothing.
pub proof fn law_upload_start(m: ManagerView, id: Seq<char>)
    ensures
        m.sessions.contains_key(id) ==> stored_file(after_upload_start(m, id), id) == Some(
            Seq::<u8>::empty(),
        ),
        !m.sessions.contains_key(id) ==> after_upload_start(m, id) == m,
{
}

/// After a removal neither the session nor its file can be found.
pub proof fn law_remove_forgets(m: ManagerView, id: Seq<char>)
    ensures
        lookup(after_remove(m, id), id) is None,
        stored_file(after_remove(m, id), id) is None,
{
}

/// The address a sender announces is what a joining receiver is told.
pub proof fn law_sender_addr_seen(m: ManagerView, id: Seq<char>, addr: Seq<char>)
    requires
        m.sessions.contains_key(id),
    ensures
        lookup(after_set_sender_addr(m, id, addr), id) == Some(
            SessionView { sender_addr: Some(addr), ..m.sessions[id] },
        ),
{
}

/// Operations on one session leave every other session and file as it was.
pub proof fn law_other_sessions_untouched(
    m: ManagerView,
    id: Seq<char>,
    other: Seq<char>,
    addr: Seq<char>,
    data: Seq<u8>,
)
    requires
        id != other,
    ensures
        lookup(after_set_sender_addr(m, id, addr), other) == lookup(m, other),
        lookup(after_store_file(m, id, data), other) == lookup(m, other),
        stored_file(after_store_file(m, id, data), other) == stored_file(m, other),
        lookup(after_remove(m, id), other) == lookup(m, other),
        stored_file(after_remove(m, id), other) == stored_file(m, other),
        stored_file(after_upload_start(m, id), other) == stored_file(m, other),
{
}

/// After a cleanup every session is live and every file belongs to a
/// session; a second cleanup at the same time changes nothing.
pub proof fn law_cleanup(m: ManagerView, now: i64)
    ensures
        forall|k: Seq<char>| #[trigger]
            after_cleanup(m, now).sessions.contains_key(k) ==> is_live(
                after_cleanup(m, now).sessions[k],
                now,
            ),
        forall|k: Seq<char>| #[trigger]
            after_cleanup(m, now).files.contains_key(k) ==> after_cleanup(
                m,
                now,
            ).sessions.contains_key(k),
        after_cleanup(after_cleanup(m, now), now) == after_cleanup(m, now),
{
    let c = after_cleanup(m, now);
    let cc = after_cleanup(c, now);
    assert(cc.sessions =~= c.sessions);
    assert(cc.files =~= c.files);
}

/// A session in blast mode is joined only with its own code, and the
/// refusal of any other code is the same whatever the right code is.
pub proof fn law_blast_join_needs_code(s: SessionView, t: SessionView, code: Option<Seq<char>>)
    requires
        s.mode == "blast"@,
        t == (SessionView { code: t.code, ..s }),
        code != Some(s.code),
        code != Some(t.code),
    ensures
        join_reply(Some(s), Some(s.code)) == joined_view(s),
        join_reply(Some(s), code) != joined_view(s),
        join_reply(Some(s), code) == join_reply(Some(t), code),
{
}

/// A receiver that joins a session created less than its time to live
/// ago, under the id the relay gave it, is told its mode, file name and
/// size; in blast mode only when it gives the session's code.
pub proof fn law_create_then_join(
    m: ManagerView,
    mode: Seq<char>,
    filename: Seq<char>,
    filesize: u64,
    code: Seq<char>,
    worldwide_qr: Option<bool>,
    join_code: Option<Seq<char>>,
    created: i64,
    joined: i64,
)
    requires
        joined - created < SESSION_TTL_SECS,
    ensures
        ({
            let m1 = dispatch(
                m,
                ClientMessageView::Create { mode, filename, filesize, code, worldwide_qr },
                created,
            ).0;
            let reply = dispatch(
                m1,
                ClientMessageView::Join {
                    session_id: session_id_for(mode, filename, code),
                    code: join_code,
                },
                joined,
            ).1;
            (reply == Some(
                ServerMessageView::Joined { mode, filename, filesize, sender_addr: None },
            )) <==> (mode != "blast"@ || join_code == Some(code))
        }),
{
}

/// Once a sender reports `done`, the session can no longer be joined.
pub proof fn law_done_closes(m: ManagerView, id: Seq<char>, code: Option<Seq<char>>, now: i64)
    ensures
        ({
            let m1 = dispatch(m, ClientMessageView::Data { session_id: id, payload: "done"@ }, now).0;
            dispatch(m1, ClientMessageView::Join { session_id: id, code }, now).1 == Some(
                ServerMessageView::Error { message: "session not found or expired"@ },
            )
        }),
{
}

/// A download hands out the file of a secure or blast session only to the
/// right code.
pub proof fn law_download_needs_code(
    id: Seq<char>,
    query_code: Seq<char>,
    s: SessionView,
    file: Option<Seq<u8>>,
)
    requires
        s.mode == "secure"@ || s.mode == "blast"@,
    ensures
        download_reply_view(id, query_code, Some(s), file).body is Bytes ==> query_code == s.code,
{
}

/// What was uploaded to a live session is what its download hands out
/// (given the code, for a secure or blast session).
pub proof fn law_download_after_upload(
    m: ManagerView,
    id: Seq<char>,
    data: Seq<u8>,
    query_code: Seq<char>,
    now: i64,
)
    requires
        m.sessions.contains_key(id),
        is_live(m.sessions[id], now),
        download_needs_code(m.sessions[id].mode) ==> query_code == m.sessions[id].code,
        query_code.len() > 0,
    ensures
        ({
            let m1 = after_cleanup(after_store_file(after_upload_start(m, id), id, data), now);
            download_reply_view(id, query_code, ready_session(m1, id), stored_file(m1, id)).body
                == HttpBodyView::Bytes(data)
        }),
{
}

/// In a state where every ready session has its file (which every
/// operation of the session table keeps), a download of a ready session
/// never answers that the file is missing, and a cleanup keeps it so.
pub proof fn law_ready_download_has_file(m: ManagerView, id: Seq<char>, query_code: Seq<char>, now: i64)
    requires
        ready_sessions_have_files(m),
    ensures
        ready_session(m, id) is Some ==> stored_file(m, id) is Some,
        ready_sessions_have_files(after_cleanup(m, now)),
{
    let c = after_cleanup(m, now);
    assert forall|k: Seq<char>| #[trigger]
        c.sessions.contains_key(k) && c.sessions[k].upload_ready implies c.files.contains_key(k) by {
        assert(m.sessions.contains_key(k) && m.sessions[k].upload_ready);
    }
}

/// A path without `%` decodes to itself.
pub proof fn law_percent_decode_plain(s: Seq<char>)
    requires
        forall|i: int| 0 <= i < s.len() ==> s[i] != '%',
    ensures
        percent_decoded(s) == s,
{
    let e = vstd::utf8::encode_utf8(s);
    lemma_encode_no_percent(s);
    lemma_percent_bytes_plain(e);
    vstd::utf8::encode_utf8_valid_utf8(s);
    vstd::utf8::encode_utf8_decode_utf8(s);
}


/// The hexadecimal digit for a value below 16, in upper or lower case.
pub open spec fn hex_char(v: nat, upper: bool) -> char {
    if v < 10 {
        (48 + v) as char
    } else if upper {
        (55 + v) as char
    } else {
        (87 + v) as char
    }
}

/// `s` with each character that `esc` marks written as `%` and the two
/// hexadecimal digits of its value (in upper case where `upper` says so).
pub open spec fn percent_escaped(s: Seq<char>, esc: Seq<bool>, upper: Seq<bool>) -> Seq<char>
    decreases s.len(),
{
    if s.len() == 0 {
        seq![]
    } else {
        let c = s[0];
        let first = if esc[0] {
            seq!['%', hex_char(c as nat / 16, upper[0]), hex_char(c as nat % 16, upper[0])]
        } else {
            seq![c]
        };
        first + percent_escaped(s.drop_first(), esc.drop_first(), upper.drop_first())
    }
}

/// The byte of each character of an ASCII text.
pub open spec fn ascii_bytes(s: Seq<char>) -> Seq<u8> {
    s.map_values(|c: char| c as u8)
}

proof fn lemma_ascii_encode(s: Seq<char>)
    requires
        vstd::utf8::is_ascii_chars(s),
    ensures
        vstd::utf8::encode_utf8(s) == ascii_bytes(s),
{
    vstd::utf8::is_ascii_chars_encode_utf8(s);
    assert(vstd::utf8::encode_utf8(s) =~= ascii_bytes(s));
}

proof fn lemma_hex_char(v: nat, upper: bool)
    requires
        v < 16,
    ensures
        (hex_char(v, upper) as nat) < 128,
        hex_char(v, upper) != '+',
        hex_digit(((hex_char(v, upper) as u8) as char)) == Some(v),
{
}

proof fn lemma_escaped_bytes(s: Seq<char>, esc: Seq<bool>, upper: Seq<bool>)
    requires
        vstd::utf8::is_ascii_chars(s),
        esc.len() == s.len(),
        upper.len() == s.len(),
        forall|i: int| 0 <= i < s.len() && s[i] == '%' ==> #[trigger] esc[i],
    ensures
        vstd::utf8::is_ascii_chars(percent_escaped(s, esc, upper)),
        percent_bytes(ascii_bytes(percent_escaped(s, esc, upper))) == ascii_bytes(s),
    decreases s.len(),
{
    if s.len() > 0 {
        let c = s[0];
        let s1 = s.drop_first();
        let e1 = esc.drop_first();
        let u1 = upper.drop_first();
        assert forall|i: int| 0 <= i < s1.len() && s1[i] == '%' implies #[trigger] e1[i] by {
            assert(s[i + 1] == s1[i]);
            assert(esc[i + 1] == e1[i]);
        }
        assert(vstd::utf8::is_ascii_chars(s1)) by {
            assert forall|i: int| 0 <= i < s1.len() implies '\0' <= #[trigger] s1[i] <= '\u{7f}' by {
                assert(s[i + 1] == s1[i]);
            }
        }
        lemma_escaped_bytes(s1, e1, u1);
        let t1 = percent_escaped(s1, e1, u1);
        let r = ascii_bytes(t1);
        assert('\0' <= s[0] <= '\u{7f}');
        if esc[0] {
            let hi = c as nat / 16;
            let lo = c as nat % 16;
            lemma_hex_char(hi, upper[0]);
            lemma_hex_char(lo, upper[0]);
            let first = seq!['%', hex_char(hi, upper[0]), hex_char(lo, upper[0])];
            let t = first + t1;
            assert(percent_escaped(s, esc, upper) == t);
            assert(vstd::utf8::is_ascii_chars(t)) by {
                assert forall|i: int| 0 <= i < t.len() implies '\0' <= #[trigger] t[i] <= '\u{7f}' by {
                    if i >= 3 {
                        assert(t[i] == t1[i - 3]);
                    }
                }
            }
            let b = ascii_bytes(t);
            assert(b =~= seq![0x25u8, hex_char(hi, upper[0]) as u8, hex_char(lo, upper[0]) as u8] + r);
            let h = b.subrange(1, 3);
            assert(latin1(h) =~= seq![
                (hex_char(hi, upper[0]) as u8) as char,
                (hex_char(lo, upper[0]) as u8) as char,
            ]);
            assert(parse_hex_byte(latin1(h)) == Some(c as u8));
            assert(b.subrange(3, b.len() as int) =~= r);
            assert(ascii_bytes(s) =~= seq![c as u8] + ascii_bytes(s1));
        } else {
            let t = seq![c] + t1;
            assert(percent_escaped(s, esc, upper) == t);
            assert(vstd::utf8::is_ascii_chars(t)) by {
                assert forall|i: int| 0 <= i < t.len() implies '\0' <= #[trigger] t[i] <= '\u{7f}' by {
                    if i >= 1 {
                        assert(t[i] == t1[i - 1]);
                    }
                }
            }
            let b = ascii_bytes(t);
            assert(b =~= seq![c as u8] + r);
            assert(c != '%');
            assert(c as u8 != 0x25u8);
            assert(b.subrange(1, b.len() as int) =~= r);
            assert(ascii_bytes(s) =~= seq![c as u8] + ascii_bytes(s1));
        }
    } else {
        assert(ascii_bytes(s) =~= Seq::<u8>::empty());
        assert(ascii_bytes(percent_escaped(s, esc, upper)) =~= Seq::<u8>::empty());
    }
}

/// An ASCII text with `%` and any other chosen characters written as `%`
/// and two hexadecimal digits (in either case) decodes to itself.
pub proof fn law_percent_decode_roundtrip(s: Seq<char>, esc: Seq<bool>, upper: Seq<bool>)
    requires
        vstd::utf8::is_ascii_chars(s),
        esc.len() == s.len(),
        upper.len() == s.len(),
        forall|i: int| 0 <= i < s.len() && s[i] == '%' ==> #[trigger] esc[i],
    ensures
        percent_decoded(percent_escaped(s, esc, upper)) == s,
{
    lemma_escaped_bytes(s, esc, upper);
    let t = percent_escaped(s, esc, upper);
    lemma_ascii_encode(t);
    lemma_ascii_encode(s);
    vstd::utf8::encode_utf8_valid_utf8(s);
    vstd::utf8::encode_utf8_decode_utf8(s);
}


// ---------------------------------------------------------------------------
// Request headers
// ---------------------------------------------------------------------------

/// Trailing whitespace after a text that ends in a non-whitespace
/// character is counted in the tail alone.
proof fn lemma_trail_ws_concat(a: Seq<char>, v: Seq<char>)
    requires
        a.len() > 0,
        !is_ws(a.last()),
    ensures
        trail_ws(a + v) == trail_ws(v),
    decreases v.len(),
{
    if v.len() == 0 {
        assert(a + v =~= a);
    } else {
        assert((a + v).last() == v.last());
        if is_ws(v.last()) {
            assert((a + v).drop_last() =~= a + v.drop_last());
            lemma_trail_ws_concat(a, v.drop_last());
        }
    }
}

/// A text of whitespace is all trailing whitespace.
proof fn lemma_trail_ws_all(v: Seq<char>)
    requires
        forall|i: int| 0 <= i < v.len() ==> is_ws(#[trigger] v[i]),
    ensures
        trail_ws(v) == v.len(),
    decreases v.len(),
{
    if v.len() > 0 {
        assert(is_ws(v[v.len() - 1]));
        lemma_trail_ws_all(v.drop_last());
    }
}

/// Leading whitespace before a text that begins with a non-whitespace
/// character is the whitespace alone.
proof fn lemma_lead_ws_concat(w: Seq<char>, x: Seq<char>)
    requires
        forall|i: int| 0 <= i < w.len() ==> is_ws(#[trigger] w[i]),
        x.len() > 0,
        !is_ws(x[0]),
    ensures
        lead_ws(w + x) == w.len(),
    decreases w.len(),
{
    if w.len() == 0 {
        assert(w + x =~= x);
    } else {
        assert((w + x)[0] == w[0]);
        assert((w + x).drop_first() =~= w.drop_first() + x);
        lemma_lead_ws_concat(w.drop_first(), x);
    }
}

/// The decimal digits of `n`: none is whitespace or `+`, and they spell
/// `n`.
proof fn lemma_dec_digits(n: nat)
    ensures
        dec(n).len() > 0,
        all_digits(dec(n)),
        digits_value(dec(n)) == n,
        !is_ws(dec(n)[0]),
        !is_ws(dec(n).last()),
        dec(n)[0] != '+',
    decreases n,
{
    if n < 10 {
        let d = dec(n);
        assert(d == seq![digit_char(n)]);
        assert(d.drop_last() =~= Seq::<char>::empty());
        assert(digit_char(n) as nat == n + 48);
        assert(digits_value(d) == digits_value(d.drop_last()) * 10 + (d.last() as nat - 48) as nat);
    } else {
        lemma_dec_digits(n / 10);
        let d = dec(n);
        assert(d.drop_last() =~= dec(n / 10));
        assert(d[0] == dec(n / 10)[0]);
        assert(d.last() == digit_char(n % 10));
        assert(digit_char(n % 10) as nat == n % 10 + 48);
        assert(digits_value(d) == digits_value(d.drop_last()) * 10 + (d.last() as nat - 48) as nat);
        assert(n == (n / 10) * 10 + n % 10);
        assert forall|i: int| 0 <= i < d.len() implies '0' <= #[trigger] d[i] <= '9' by {
            if i < d.len() - 1 {
                assert(d[i] == dec(n / 10)[i]);
            }
        }
    }
}

/// A header line that names the length in lower case is read exactly as
/// one that names it in the usual spelling, whatever follows the name.
pub proof fn law_content_length_spellings(v: Seq<char>)
    ensures
        header_line("content-length:"@ + v) == header_line("Content-Length:"@ + v),
{
    reveal_strlit("content-length:");
    reveal_strlit("Content-Length:");
    let p1 = "Content-Length:"@;
    let p2 = "content-length:"@;
    let s1 = p1 + v;
    let s2 = p2 + v;
    assert(!is_ws(p1.last()) && !is_ws(p2.last()));
    lemma_trail_ws_concat(p1, v);
    lemma_trail_ws_concat(p2, v);
    assert(s1[0] == 'C' && s2[0] == 'c');
    assert(lead_ws(s1) == 0 && lead_ws(s2) == 0);
    assert(s1.subrange(0, s1.len() as int) =~= s1);
    assert(s2.subrange(0, s2.len() as int) =~= s2);
    let w = v.subrange(0, v.len() - trail_ws(v));
    crate::text::lemma_trail_ws_bound(v);
    assert(trim_seq(s1) =~= p1 + w);
    assert(trim_seq(s2) =~= p2 + w);
    let t1 = trim_seq(s1);
    let t2 = trim_seq(s2);
    assert(t1.subrange(0, 15) =~= p1);
    assert(t2.subrange(0, 15) =~= p2);
    assert(t2.subrange(0, 15) != p1) by {
        assert(t2.subrange(0, 15)[0] != p1[0]);
    }
    assert(t1.subrange(15, t1.len() as int) =~= w);
    assert(t2.subrange(15, t2.len() as int) =~= w);
}

/// Whitespace after a text that begins and ends with other characters is
/// all that trimming removes.
proof fn lemma_trim_line(a: Seq<char>, after: Seq<char>)
    requires
        a.len() > 0,
        !is_ws(a[0]),
        !is_ws(a.last()),
        forall|i: int| 0 <= i < after.len() ==> is_ws(#[trigger] after[i]),
    ensures
        trim_seq(a + after) == a,
{
    let s = a + after;
    lemma_trail_ws_concat(a, after);
    lemma_trail_ws_all(after);
    assert(s[0] == a[0]);
    assert(lead_ws(s) == 0);
    assert(s.subrange(0, s.len() as int) =~= s);
    assert(s.subrange(0, s.len() - after.len()) =~= a);
}

/// Whitespace before a text that begins and ends with other characters is
/// all that trimming removes.
proof fn lemma_trim_lead(before: Seq<char>, d: Seq<char>)
    requires
        d.len() > 0,
        !is_ws(d[0]),
        !is_ws(d.last()),
        forall|i: int| 0 <= i < before.len() ==> is_ws(#[trigger] before[i]),
    ensures
        trim_seq(before + d) == d,
{
    let s = before + d;
    lemma_lead_ws_concat(before, d);
    assert(s.subrange(before.len() as int, s.len() as int) =~= d);
    assert(d.drop_last().len() + 1 == d.len());
    assert(trail_ws(d) == 0);
    assert(d.subrange(0, d.len() as int) =~= d);
}

/// A `Content-Length` header (in either spelling), with any whitespace
/// around the number and after it (such as the line's `\r\n`), gives the
/// number, for every number a `usize` holds.
pub proof fn law_content_length_read(n: nat, before: Seq<char>, after: Seq<char>)
    requires
        n <= usize::MAX,
        forall|i: int| 0 <= i < before.len() ==> is_ws(#[trigger] before[i]),
        forall|i: int| 0 <= i < after.len() ==> is_ws(#[trigger] after[i]),
    ensures
        header_line("Content-Length:"@ + before + dec(n) + after) == Some(Some(n)),
        header_line("content-length:"@ + before + dec(n) + after) == Some(Some(n)),
{
    reveal_strlit("Content-Length:");
    let p1 = "Content-Length:"@;
    let d = dec(n);
    lemma_dec_digits(n);
    let v = before + d + after;
    let a = p1 + before + d;
    let s = a + after;
    assert(p1 + before + d + after =~= s);
    assert(p1 + v =~= s);
    assert("content-length:"@ + before + d + after =~= "content-length:"@ + v);
    law_content_length_spellings(v);
    assert(a[0] == 'C');
    assert(a.last() == d.last());
    lemma_trim_line(a, after);
    assert(a.subrange(0, 15) =~= p1);
    let rest = a.subrange(15, a.len() as int);
    assert(rest =~= before + d);
    lemma_trim_lead(before, d);
    assert(unsigned_digits(d) == d);
    assert(parse_usize(d) == Some(n));
}
/// A join that follows a sender's announcement of its address, and that
/// the relay answers with `Joined`, carries that address, in every mode;
/// a join of a session that did not exist at the announcement is refused.
pub proof fn law_join_sees_sender_addr(
    m: ManagerView,
    id: Seq<char>,
    addr: Seq<char>,
    code: Option<Seq<char>>,
    announced: i64,
    joined: i64,
)
    ensures
        ({
            let m1 = dispatch(m, ClientMessageView::P2pReady { session_id: id, addr }, announced).0;
            let reply = dispatch(m1, ClientMessageView::Join { session_id: id, code }, joined).1;
            &&& reply matches Some(ServerMessageView::Joined { sender_addr, .. }) ==> sender_addr
                == Some(addr)
            &&& !m.sessions.contains_key(id) ==> reply == Some(
                ServerMessageView::Error { message: "session not found or expired"@ },
            )
        }),
{
    let m1 = after_set_sender_addr(m, id, addr);
    let c = after_cleanup(m1, joined);
    if m.sessions.contains_key(id) {
        assert(m1.sessions[id].sender_addr == Some(addr));
        if c.sessions.contains_key(id) {
            assert(c.sessions[id] == m1.sessions[id]);
        }
    } else {
        assert(m1 == m);
        assert(!c.sessions.contains_key(id));
    }
}

/// A line of nothing but whitespace (such as the bare `\r\n`) ends the
/// headers.
pub proof fn law_blank_line_ends_headers(line: Seq<char>)
    requires
        forall|i: int| 0 <= i < line.len() ==> is_ws(#[trigger] line[i]),
    ensures
        header_line(line) is None,
{
    lemma_lead_ws_all(line);
    assert(line.subrange(line.len() as int, line.len() as int) =~= Seq::<char>::empty());
}

proof fn lemma_lead_ws_all(v: Seq<char>)
    requires
        forall|i: int| 0 <= i < v.len() ==> is_ws(#[trigger] v[i]),
    ensures
        lead_ws(v) == v.len(),
    decreases v.len(),
{
    if v.len() > 0 {
        assert(is_ws(v[0]));
        assert forall|i: int| 0 <= i < v.drop_first().len() implies is_ws(#[trigger] v.drop_first()[i]) by {
            assert(v.drop_first()[i] == v[i + 1]);
        }
        lemma_lead_ws_all(v.drop_first());
    }
}

} // verus!
