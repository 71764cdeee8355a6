//! Codes, session ids, and the human-readable sizes and durations that the
//! client prints.
use rand::Rng;
use vstd::prelude::*;

use crate::text::{dec, push_char, push_decimal, push_str};

verus! {

// ---------------------------------------------------------------------------
// Random codes and ids
// ---------------------------------------------------------------------------

/// A lower-case hexadecimal digit.
pub open spec fn is_lower_hex(c: char) -> bool {
    ('0' <= c <= '9') || ('a' <= c <= 'f')
}

/// The hyphenated text of a version-4 UUID: 36 characters, hyphens at
/// 8, 13, 18 and 23, lower-case hex digits elsewhere, version digit `4`
/// and a variant digit among `8`, `9`, `a`, `b`.
pub open spec fn is_v4_uuid_text(s: Seq<char>) -> bool {
    &&& s.len() == 36
    &&& forall|i: int|
        0 <= i < 36 ==> if i == 8 || i == 13 || i == 18 || i == 23 {
            #[trigger] s[i] == '-'
        } else {
            is_lower_hex(s[i])
        }
    &&& s[14] == '4'
    &&& (s[19] == '8' || s[19] == '9' || s[19] == 'a' || s[19] == 'b')
}

/// `uuid::Uuid::new_v4().to_string()`: a random version-4 UUID in its
/// hyphenated lower-case form. Claimed: the shape of that text (from
/// `new_v4`, which sets the version and variant bits, and the hyphenated
/// formatter); the digits themselves are random.
#[verifier::external_body]
fn new_v4_text() -> (r: String)
    ensures
        is_v4_uuid_text(r@),
{
    uuid::Uuid::new_v4().to_string()
}

/// `rand::thread_rng().gen_range(1000..=9999)`: a random number from 1000
/// to 9999. Claimed: only that range.
#[verifier::external_body]
fn random_code_number() -> (n: u32)
    ensures
        1000 <= n <= 9999,
{
    rand::thread_rng().gen_range(1000u32..=9999)
}

/// `rand::thread_rng().gen_range(0..len)`: a random index below `len`
/// (which must not be 0: the range would be empty, and `gen_range` panics).
/// Claimed: only that range.
#[verifier::external_body]
fn random_index(len: usize) -> (i: usize)
    requires
        len > 0,
    ensures
        i < len,
{
    rand::thread_rng().gen_range(0..len)
}

/// A fresh random session id.
pub fn generate_session_id() -> (r: String)
    ensures
        is_v4_uuid_text(r@),
{
    new_v4_text()
}

/// The text of a secure-mode code for the number `n`.
pub fn code_from_number(n: u32) -> (r: String)
    ensures
        r@ == dec(n as nat),
{
    crate::text::decimal(n as u64)
}

/// A random four-digit code (from 1000 to 9999) for secure mode.
pub fn generate_code() -> (r: String)
    ensures
        exists|n: nat| 1000 <= n <= 9999 && r@ == #[trigger] dec(n),
{
    let n = random_code_number();
    code_from_number(n)
}

/// The characters a blast code is drawn from: capitals and digits without
/// the easily confused `I`, `O`, `0` and `1`.
pub open spec fn blast_alphabet() -> Seq<char> {
    "ABCDEFGHJKLMNPQRSTUVWXYZ23456789"@
}

/// The blast code whose characters are the alphabet's characters at
/// `picks`.
pub open spec fn blast_code_of(picks: Seq<usize>) -> Seq<char> {
    Seq::new(picks.len(), |i: int| blast_alphabet()[picks[i] as int])
}

/// Spells a blast code from the positions `picks` in the alphabet.
pub fn blast_code_from_picks(picks: &Vec<usize>) -> (r: String)
    requires
        forall|i: int| 0 <= i < picks@.len() ==> #[trigger] picks@[i] < 32,
    ensures
        r@ == blast_code_of(picks@),
{
    let alphabet = crate::text::chars_of("ABCDEFGHJKLMNPQRSTUVWXYZ23456789");
    proof {
        reveal_strlit("ABCDEFGHJKLMNPQRSTUVWXYZ23456789");
    }
    let mut r = String::new();
    let mut i: usize = 0;
    while i < picks.len()
        invariant
            i <= picks@.len(),
            alphabet@ == blast_alphabet(),
            alphabet@.len() == 32,
            forall|j: int| 0 <= j < picks@.len() ==> #[trigger] picks@[j] < 32,
            r@ == blast_code_of(picks@.subrange(0, i as int)),
        decreases picks@.len() - i,
    {
        let c = alphabet[picks[i]];
        push_char(&mut r, c);
        proof {
            assert(blast_code_of(picks@.subrange(0, i + 1)) =~= blast_code_of(
                picks@.subrange(0, i as int),
            ).push(c));
        }
        i = i + 1;
    }
    assert(picks@.subrange(0, picks@.len() as int) =~= picks@);
    r
}

/// A random four-character blast code.
pub fn generate_blast_code() -> (r: String)
    ensures
        r@.len() == 4,
        forall|i: int| 0 <= i < 4 ==> blast_alphabet().contains(#[trigger] r@[i]),
{
    proof {
        reveal_strlit("ABCDEFGHJKLMNPQRSTUVWXYZ23456789");
    }
    let mut picks: Vec<usize> = Vec::new();
    let mut k: usize = 0;
    while k < 4
        invariant
            k <= 4,
            picks@.len() == k,
            forall|i: int| 0 <= i < picks@.len() ==> #[trigger] picks@[i] < 32,
        decreases 4 - k,
    {
        picks.push(random_index(32));
        k = k + 1;
    }
    let r = blast_code_from_picks(&picks);
    assert forall|i: int| 0 <= i < 4 implies blast_alphabet().contains(#[trigger] r@[i]) by {
        assert(r@[i] == blast_alphabet()[picks@[i] as int]);
    }
    r
}

// ---------------------------------------------------------------------------
// Sizes and durations
// ---------------------------------------------------------------------------

/// `num / den` rounded to the nearest integer, ties to the even one.
pub open spec fn round_half_even(num: nat, den: nat) -> nat {
    let q = num / den;
    let r = num % den;
    if 2 * r > den || (2 * r == den && q % 2 == 1) {
        q + 1
    } else {
        q
    }
}

/// The spacing of the 64-bit floating-point numbers around `n`.
pub open spec fn f64_ulp(n: nat) -> nat
    decreases n,
{
    if n < 0x20_0000_0000_0000 {
        1
    } else {
        2 * f64_ulp(n / 2)
    }
}

/// `n as f64` for a whole number `n`: the nearest 64-bit floating-point
/// number, ties to an even significand.
pub open spec fn nearest_f64(n: nat) -> nat {
    round_half_even(n, f64_ulp(n)) * f64_ulp(n)
}

/// A number with one decimal place, given as a count of tenths.
pub open spec fn tenths_text(q: nat) -> Seq<char> {
    dec(q / 10) + "."@ + dec(q % 10)
}

/// A number with two decimal places, given as a count of hundredths.
pub open spec fn hundredths_text(q: nat) -> Seq<char> {
    dec(q / 100) + "."@ + dec((q % 100) / 10) + dec(q % 10)
}

/// How a byte count is shown: whole bytes below 1 KiB; KB and MB with one
/// decimal and GB with two, each rounded half to even from the exact
/// quotient of the count (as a 64-bit float) by the unit.
pub open spec fn size_text(bytes: u64) -> Seq<char> {
    if bytes < 1024 {
        dec(bytes as nat) + " B"@
    } else if bytes < 1024 * 1024 {
        tenths_text(round_half_even(bytes as nat * 10, 1024)) + " KB"@
    } else if bytes < 1024 * 1024 * 1024 {
        tenths_text(round_half_even(bytes as nat * 10, 1024 * 1024)) + " MB"@
    } else {
        hundredths_text(round_half_even(nearest_f64(bytes as nat) * 100, 1024 * 1024 * 1024))
            + " GB"@
    }
}

/// How a number of seconds is shown.
pub open spec fn duration_text(secs: u64) -> Seq<char> {
    if secs < 60 {
        dec(secs as nat) + "s"@
    } else if secs < 3600 {
        dec(secs as nat / 60) + "m "@ + dec(secs as nat % 60) + "s"@
    } else {
        dec(secs as nat / 3600) + "h "@ + dec((secs as nat % 3600) / 60) + "m"@
    }
}

fn round_half_even_exec(num: u128, den: u128) -> (r: u128)
    requires
        den > 0,
        num / den < u128::MAX,
    ensures
        r == round_half_even(num as nat, den as nat),
{
    let q = num / den;
    let r = num % den;
    if r > den - r || (r == den - r && q % 2 == 1) {
        q + 1
    } else {
        q
    }
}

proof fn lemma_ulp_step(n: nat, u: nat)
    requires
        u >= 1,
        n / u >= 0x20_0000_0000_0000,
        f64_ulp(n) == u * f64_ulp(n / u),
    ensures
        f64_ulp(n) == (2 * u) * f64_ulp(n / (2 * u)),
{
    vstd::arithmetic::div_mod::lemma_div_denominator(n as int, u as int, 2);
    assert((n / u) / 2 == n / (u * 2));
    assert(u * 2 == 2 * u);
    assert(f64_ulp(n / u) == 2 * f64_ulp((n / u) / 2));
    assert(u * (2 * f64_ulp(n / (2 * u))) == (2 * u) * f64_ulp(n / (2 * u))) by (nonlinear_arith);
}

/// `n as f64`, as a whole number.
fn nearest_f64_exec(n: u64) -> (r: u128)
    ensures
        r == nearest_f64(n as nat),
        r <= 0x2_0000_0000_0000_0000,
{
    let mut u: u128 = 1;
    let ghost nn = n as nat;
    assert(nn / 1 == nn);
    while (n as u128) / u >= 0x20_0000_0000_0000
        invariant
            1 <= u < 0x1000,
            f64_ulp(nn) == u * f64_ulp(nn / (u as nat)),
            nn == n as nat,
        decreases 0x1000 - u,
    {
        proof {
            lemma_ulp_step(nn, u as nat);
            let d = nn / (u as nat);
            assert(d * u <= nn) by (nonlinear_arith)
                requires
                    d == nn / (u as nat),
                    u >= 1,
            ;
            assert(u < 0x800) by (nonlinear_arith)
                requires
                    d >= 0x20_0000_0000_0000,
                    d * u <= nn,
                    nn < 0x1_0000_0000_0000_0000,
            ;
        }
        u = 2 * u;
    }
    let ghost d = nn / (u as nat);
    proof {
        assert(f64_ulp(d) == 1);
        assert(f64_ulp(nn) == u * f64_ulp(d));
        assert(f64_ulp(nn) == u) by (nonlinear_arith)
            requires
                f64_ulp(nn) == u * f64_ulp(d),
                f64_ulp(d) == 1,
        ;
    }
    let q = round_half_even_exec(n as u128, u);
    proof {
        assert(q <= 0x20_0000_0000_0000);
        assert(q * u <= 0x20_0000_0000_0000 * 0x1000) by (nonlinear_arith)
            requires
                q <= 0x20_0000_0000_0000,
                u < 0x1000,
        ;
    }
    q * u
}

fn push_tenths(s: &mut String, q: u64)
    ensures
        final(s)@ == old(s)@ + tenths_text(q as nat),
{
    push_decimal(s, q / 10);
    push_str(s, ".");
    push_decimal(s, q % 10);
}

/// How a byte count is shown (see [`size_text`]).
pub fn format_size(bytes: u64) -> (r: String)
    ensures
        r@ == size_text(bytes),
{
    let mut s = String::new();
    if bytes < 1024 {
        push_decimal(&mut s, bytes);
        push_str(&mut s, " B");
    } else if bytes < 1024 * 1024 {
        let q = round_half_even_exec(bytes as u128 * 10, 1024);
        push_tenths(&mut s, q as u64);
        push_str(&mut s, " KB");
    } else if bytes < 1024 * 1024 * 1024 {
        let q = round_half_even_exec(bytes as u128 * 10, 1024 * 1024);
        push_tenths(&mut s, q as u64);
        push_str(&mut s, " MB");
    } else {
        let v = nearest_f64_exec(bytes);
        let q = round_half_even_exec(v * 100, 1024 * 1024 * 1024);
        let q64 = q as u64;
        push_decimal(&mut s, q64 / 100);
        push_str(&mut s, ".");
        push_decimal(&mut s, (q64 % 100) / 10);
        push_decimal(&mut s, q64 % 10);
        push_str(&mut s, " GB");
    }
    assert(s@ =~= size_text(bytes));
    s
}

/// How a number of seconds is shown (see [`duration_text`]).
pub fn format_duration(secs: u64) -> (r: String)
    ensures
        r@ == duration_text(secs),
{
    let mut s = String::new();
    if secs < 60 {
        push_decimal(&mut s, secs);
        push_str(&mut s, "s");
    } else if secs < 3600 {
        push_decimal(&mut s, secs / 60);
        push_str(&mut s, "m ");
        push_decimal(&mut s, secs % 60);
        push_str(&mut s, "s");
    } else {
        push_decimal(&mut s, secs / 3600);
        push_str(&mut s, "h ");
        push_decimal(&mut s, (secs % 3600) / 60);
        push_str(&mut s, "m");
    }
    assert(s@ =~= duration_text(secs));
    s
}

} // verus!
