//! What the client shows: the QR code's lines, and the public address read
//! from an address service's reply.
use qrcode::render::unicode::Dense1x2;
use qrcode::QrCode;
use vstd::prelude::*;

use crate::relay::http::lemma_split_nonempty;
use crate::relay::session::opt_string_view;
use crate::text::{decode_lossy, owned, push_str, split, split_seq, trim, trim_seq, utf8_lossy, views};

verus! {

/// The text that `qrcode` draws for `url` with half-height block
/// characters, or `None` when `url` does not fit in a QR code.
pub uninterp spec fn qr_dense_image(url: Seq<char>) -> Option<Seq<char>>;

/// `QrCode::new(url)` rendered with `Dense1x2` (dark on light): the QR code
/// for the bytes of `url` as text. Claimed: the result depends on `url`
/// alone (named by [`qr_dense_image`]); `None` stands for the error that
/// `QrCode::new` returns when the data is too long.
#[verifier::external_body]
fn render_qr(url: &str) -> (r: Option<String>)
    ensures
        opt_string_view(r) == qr_dense_image(url@),
{
    match QrCode::new(url) {
        Ok(code) => Some(
            code.render::<Dense1x2>().dark_color(Dense1x2::Dark).light_color(Dense1x2::Light).build(),
        ),
        Err(_) => None,
    }
}

/// `p` without one carriage return at its end.
pub open spec fn strip_cr(p: Seq<char>) -> Seq<char> {
    if p.len() > 0 && p.last() == '\r' {
        p.drop_last()
    } else {
        p
    }
}

/// The lines of `s` as `str::lines` yields them: split at `\n`, a `\r`
/// before a `\n` dropped, and no empty line after a final `\n`.
pub open spec fn text_lines(s: Seq<char>) -> Seq<Seq<char>> {
    let pieces = split_seq(s, "\n"@);
    let n = if pieces.last().len() == 0 {
        pieces.len() - 1
    } else {
        pieces.len() as int
    };
    Seq::new(
        n as nat,
        |i: int|
            if i < pieces.len() - 1 {
                strip_cr(pieces[i])
            } else {
                pieces[i]
            },
    )
}

/// The lines printed for a QR image: each line indented by two spaces.
pub open spec fn qr_display_lines(image: Seq<char>) -> Seq<Seq<char>> {
    let lines = text_lines(image);
    Seq::new(lines.len(), |i: int| "  "@ + lines[i])
}

fn strip_cr_exec(p: &String) -> (r: String)
    ensures
        r@ == strip_cr(p@),
{
    let v = crate::text::chars_of(p.as_str());
    if v.len() > 0 && v[v.len() - 1] == '\r' {
        let r = crate::text::string_from_range(&v, 0, v.len() - 1);
        assert(r@ =~= p@.drop_last());
        r
    } else {
        p.clone()
    }
}

/// The indented lines of a rendered QR image.
pub fn qr_lines(image: &str) -> (r: Vec<String>)
    ensures
        views(r@) == qr_display_lines(image@),
{
    proof {
        reveal_strlit("\n");
        lemma_split_nonempty(image@, "\n"@);
    }
    let pieces = split(image, "\n");
    let ghost ps = split_seq(image@, "\n"@);
    assert(views(pieces@).len() == pieces@.len());
    let n = pieces.len();
    let count = if pieces[n - 1].as_str().is_empty() {
        n - 1
    } else {
        n
    };
    proof {
        assert(ps.last() == pieces@[n - 1]@);
    }
    let mut out: Vec<String> = Vec::new();
    let mut i: usize = 0;
    while i < count
        invariant
            i <= count <= n == pieces@.len(),
            views(pieces@) == ps,
            count == text_lines(image@).len(),
            ps == split_seq(image@, "\n"@),
            out@.len() == i,
            forall|j: int| 0 <= j < i ==> #[trigger] out@[j]@ == qr_display_lines(image@)[j],
        decreases count - i,
    {
        let line = if i < n - 1 {
            strip_cr_exec(&pieces[i])
        } else {
            pieces[i].clone()
        };
        let mut shown = owned("  ");
        push_str(&mut shown, line.as_str());
        proof {
            assert(ps[i as int] == pieces@[i as int]@);
            assert(text_lines(image@)[i as int] == line@);
        }
        out.push(shown);
        i = i + 1;
    }
    assert(views(out@) =~= qr_display_lines(image@));
    out
}

/// The lines to print for the QR code of `url`, or `None` when `url` does
/// not fit in a QR code.
pub fn qr_display(url: &str) -> (r: Option<Vec<String>>)
    ensures
        match qr_dense_image(url@) {
            Some(image) => r matches Some(lines) && views(lines@) == qr_display_lines(image),
            None => r is None,
        },
{
    match render_qr(url) {
        Some(image) => Some(qr_lines(image.as_str())),
        None => None,
    }
}

/// The public address in an address service's HTTP reply: the body after
/// the first blank line, trimmed, when it is not empty.
pub open spec fn public_ip_in(resp: Seq<char>) -> Option<Seq<char>> {
    let pieces = split_seq(resp, "\r\n\r\n"@);
    if pieces.len() > 1 && trim_seq(pieces[1]).len() > 0 {
        Some(trim_seq(pieces[1]))
    } else {
        None
    }
}

/// Reads the public address from an address service's reply.
pub fn parse_public_ip(resp: &str) -> (r: Option<String>)
    ensures
        opt_string_view(r) == public_ip_in(resp@),
{
    proof {
        reveal_strlit("\r\n\r\n");
    }
    let pieces = split(resp, "\r\n\r\n");
    if pieces.len() > 1 {
        let ip = trim(pieces[1].as_str());
        if ip.as_str().is_empty() {
            None
        } else {
            Some(ip)
        }
    } else {
        None
    }
}

/// Reads the public address from the bytes of an address service's reply
/// (read as UTF-8, invalid sequences replaced).
pub fn public_ip_from_reply(reply: &[u8]) -> (r: Option<String>)
    ensures
        opt_string_view(r) == public_ip_in(utf8_lossy(reply@)),
{
    let text = decode_lossy(reply);
    parse_public_ip(text.as_str())
}

} // verus!
