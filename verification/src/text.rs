//! Character-level string operations with mathematical specifications.
//!
//! Every operation here works on the character view (`Seq<char>`) of a
//! string and states its result with a spec function over that view.
use vstd::prelude::*;

verus! {

broadcast use vstd::string::group_string_axioms;

// ---------------------------------------------------------------------------
// Specifications
// ---------------------------------------------------------------------------

/// The Unicode `White_Space` property, which `char::is_whitespace`,
/// `str::trim` and `str::split_whitespace` use.
pub open spec fn is_ws(c: char) -> bool {
    let u = c as int;
    ||| 9 <= u <= 13
    ||| u == 32
    ||| u == 0x85
    ||| u == 0xA0
    ||| u == 0x1680
    ||| 0x2000 <= u <= 0x200A
    ||| u == 0x2028
    ||| u == 0x2029
    ||| u == 0x202F
    ||| u == 0x205F
    ||| u == 0x3000
}

/// Number of whitespace characters at the start of `s`.
pub open spec fn lead_ws(s: Seq<char>) -> nat
    decreases s.len(),
{
    if s.len() > 0 && is_ws(s[0]) {
        1 + lead_ws(s.drop_first())
    } else {
        0
    }
}

/// Number of whitespace characters at the end of `s`.
pub open spec fn trail_ws(s: Seq<char>) -> nat
    decreases s.len(),
{
    if s.len() > 0 && is_ws(s.last()) {
        1 + trail_ws(s.drop_last())
    } else {
        0
    }
}

/// Number of non-whitespace characters at the start of `s`.
pub open spec fn token_len(s: Seq<char>) -> nat
    decreases s.len(),
{
    if s.len() > 0 && !is_ws(s[0]) {
        1 + token_len(s.drop_first())
    } else {
        0
    }
}

/// `s` without leading and trailing whitespace (`str::trim`).
pub open spec fn trim_seq(s: Seq<char>) -> Seq<char> {
    let t = s.subrange(lead_ws(s) as int, s.len() as int);
    t.subrange(0, t.len() - trail_ws(t))
}

/// The whitespace-separated words of `s` (`str::split_whitespace`).
pub open spec fn ws_tokens(s: Seq<char>) -> Seq<Seq<char>>
    decreases s.len(),
{
    let n = lead_ws(s);
    if n >= s.len() {
        seq![]
    } else {
        let t = s.subrange(n as int, s.len() as int);
        let k = token_len(t);
        if 0 < k <= t.len() {
            seq![t.subrange(0, k as int)] + ws_tokens(t.subrange(k as int, t.len() as int))
        } else {
            seq![]
        }
    }
}

/// `p` occurs in `s` at index `i`.
pub open spec fn matches_at(s: Seq<char>, p: Seq<char>, i: int) -> bool {
    0 <= i && i + p.len() <= s.len() && s.subrange(i, i + p.len()) == p
}

/// The first index at or after `i` where `p` occurs in `s`.
pub open spec fn first_match_from(s: Seq<char>, p: Seq<char>, i: int) -> Option<int>
    decreases s.len() - i,
{
    if i < 0 || p.len() == 0 || i + p.len() > s.len() {
        None
    } else if matches_at(s, p, i) {
        Some(i)
    } else {
        first_match_from(s, p, i + 1)
    }
}

/// The pieces of `s` between the non-overlapping occurrences of `p`, found
/// from left to right (`str::split` with a string pattern).
pub open spec fn split_seq(s: Seq<char>, p: Seq<char>) -> Seq<Seq<char>>
    decreases s.len(),
{
    if p.len() == 0 {
        seq![s]
    } else {
        match first_match_from(s, p, 0) {
            Some(i) => if 0 <= i && i + p.len() <= s.len() {
                seq![s.subrange(0, i)] + split_seq(s.subrange(i + p.len(), s.len() as int), p)
            } else {
                seq![s]
            },
            None => seq![s],
        }
    }
}

/// `s` begins with `p`.
pub open spec fn has_prefix(s: Seq<char>, p: Seq<char>) -> bool {
    p.len() <= s.len() && s.subrange(0, p.len() as int) == p
}

/// `s` ends with `p`.
pub open spec fn has_suffix(s: Seq<char>, p: Seq<char>) -> bool {
    p.len() <= s.len() && s.subrange(s.len() - p.len(), s.len() as int) == p
}

/// `str::strip_prefix`.
pub open spec fn strip_prefix_seq(s: Seq<char>, p: Seq<char>) -> Option<Seq<char>> {
    if has_prefix(s, p) {
        Some(s.subrange(p.len() as int, s.len() as int))
    } else {
        None
    }
}

/// The decimal digit character for `d < 10`.
pub open spec fn digit_char(d: nat) -> char {
    (d + 48) as char
}

/// The decimal representation of `n`, without sign or leading zeros.
pub open spec fn dec(n: nat) -> Seq<char>
    decreases n,
{
    if n < 10 {
        seq![digit_char(n)]
    } else {
        dec(n / 10).push(digit_char(n % 10))
    }
}

/// The decimal representation of `n` padded with zeros to `width` digits.
pub open spec fn dec_padded(n: nat, width: nat) -> Seq<char> {
    let d = dec(n);
    if d.len() >= width {
        d
    } else {
        Seq::new((width - d.len()) as nat, |i: int| '0') + d
    }
}

/// The views of a sequence of strings.
pub open spec fn views(v: Seq<String>) -> Seq<Seq<char>> {
    v.map_values(|s: String| s@)
}

// ---------------------------------------------------------------------------
// Lemmas
// ---------------------------------------------------------------------------

pub proof fn lemma_lead_ws_bound(s: Seq<char>)
    ensures
        lead_ws(s) <= s.len(),
        forall|i: int| 0 <= i < lead_ws(s) ==> is_ws(#[trigger] s[i]),
        lead_ws(s) < s.len() ==> !is_ws(s[lead_ws(s) as int]),
    decreases s.len(),
{
    if s.len() > 0 && is_ws(s[0]) {
        lemma_lead_ws_bound(s.drop_first());
        assert forall|i: int| 0 <= i < lead_ws(s) implies is_ws(#[trigger] s[i]) by {
            if i > 0 {
                assert(s[i] == s.drop_first()[i - 1]);
            }
        }
    }
}

pub proof fn lemma_token_len_bound(s: Seq<char>)
    ensures
        token_len(s) <= s.len(),
        forall|i: int| 0 <= i < token_len(s) ==> !is_ws(#[trigger] s[i]),
        token_len(s) < s.len() ==> is_ws(s[token_len(s) as int]),
        s.len() > 0 && !is_ws(s[0]) ==> token_len(s) >= 1,
    decreases s.len(),
{
    if s.len() > 0 && !is_ws(s[0]) {
        lemma_token_len_bound(s.drop_first());
        assert forall|i: int| 0 <= i < token_len(s) implies !is_ws(#[trigger] s[i]) by {
            if i > 0 {
                assert(s[i] == s.drop_first()[i - 1]);
            }
        }
    }
}

pub proof fn lemma_trail_ws_bound(s: Seq<char>)
    ensures
        trail_ws(s) <= s.len(),
        forall|i: int| s.len() - trail_ws(s) <= i < s.len() ==> is_ws(#[trigger] s[i]),
        trail_ws(s) < s.len() ==> !is_ws(s[s.len() - trail_ws(s) - 1]),
    decreases s.len(),
{
    if s.len() > 0 && is_ws(s.last()) {
        lemma_trail_ws_bound(s.drop_last());
        assert forall|i: int| s.len() - trail_ws(s) <= i < s.len() implies is_ws(#[trigger] s[i]) by {
            if i < s.len() - 1 {
                assert(s[i] == s.drop_last()[i]);
            }
        }
    }
}

/// `lead_ws` counts exactly the whitespace run that ends before `i` when
/// the characters before `i` are all whitespace.
proof fn lemma_lead_ws_step(s: Seq<char>, i: int)
    requires
        0 <= i < s.len(),
        is_ws(s[i]),
    ensures
        lead_ws(s.subrange(i, s.len() as int)) == 1 + lead_ws(s.subrange(i + 1, s.len() as int)),
{
    assert(s.subrange(i, s.len() as int).drop_first() =~= s.subrange(i + 1, s.len() as int));
}

proof fn lemma_token_len_step(s: Seq<char>, i: int)
    requires
        0 <= i < s.len(),
        !is_ws(s[i]),
    ensures
        token_len(s.subrange(i, s.len() as int)) == 1 + token_len(
            s.subrange(i + 1, s.len() as int),
        ),
{
    assert(s.subrange(i, s.len() as int).drop_first() =~= s.subrange(i + 1, s.len() as int));
}

proof fn lemma_trail_ws_step(s: Seq<char>, j: int)
    requires
        0 < j <= s.len(),
        is_ws(s[j - 1]),
    ensures
        trail_ws(s.subrange(0, j)) == 1 + trail_ws(s.subrange(0, j - 1)),
{
    assert(s.subrange(0, j).drop_last() =~= s.subrange(0, j - 1));
}

pub proof fn lemma_first_match(s: Seq<char>, p: Seq<char>, i: int)
    requires
        0 <= i,
        p.len() > 0,
    ensures
        match first_match_from(s, p, i) {
            Some(j) => i <= j && matches_at(s, p, j) && forall|k: int|
                i <= k < j ==> !#[trigger] matches_at(s, p, k),
            None => forall|k: int| i <= k ==> !#[trigger] matches_at(s, p, k),
        },
    decreases s.len() - i,
{
    if i + p.len() > s.len() {
    } else if matches_at(s, p, i) {
    } else {
        lemma_first_match(s, p, i + 1);
    }
}

/// The first match is the one that a left-to-right search finds.
pub proof fn lemma_first_match_is(s: Seq<char>, p: Seq<char>, m: Option<int>)
    requires
        p.len() > 0,
        match m {
            Some(j) => matches_at(s, p, j) && forall|k: int|
                0 <= k < j ==> !#[trigger] matches_at(s, p, k),
            None => forall|k: int| 0 <= k ==> !#[trigger] matches_at(s, p, k),
        },
    ensures
        first_match_from(s, p, 0) == m,
{
    lemma_first_match(s, p, 0);
    match first_match_from(s, p, 0) {
        Some(j2) => {
            match m {
                Some(j) => {
                    if j2 < j {
                        assert(!matches_at(s, p, j2));
                    }
                    if j < j2 {
                        assert(!matches_at(s, p, j));
                    }
                },
                None => {
                    assert(!matches_at(s, p, j2));
                },
            }
        },
        None => {
            match m {
                Some(j) => {
                    assert(!matches_at(s, p, j));
                },
                None => {},
            }
        },
    }
}

// ---------------------------------------------------------------------------
// Executable operations
// ---------------------------------------------------------------------------

/// `String::push`: appends `c` to `s`. Claimed: the characters of `s`
/// become the old ones followed by `c`, as the documentation says.
#[verifier::external_body]
pub(crate) fn push_char(s: &mut String, c: char)
    ensures
        final(s)@ == old(s)@.push(c),
{
    s.push(c);
}

/// The characters that `String::from_utf8_lossy` reads from `bytes`.
pub uninterp spec fn utf8_lossy(bytes: Seq<u8>) -> Seq<char>;

/// `String::from_utf8_lossy`: `bytes` read as UTF-8, each invalid sequence
/// replaced by U+FFFD. Claimed: the result depends on the bytes alone
/// (named by [`utf8_lossy`]), and bytes that are valid UTF-8 come out as
/// the characters they encode (the documentation: only invalid sequences
/// are replaced). What the replacements make of invalid bytes is not
/// stated.
#[verifier::external_body]
pub(crate) fn decode_lossy(bytes: &[u8]) -> (r: String)
    ensures
        r@ == utf8_lossy(bytes@),
        vstd::utf8::valid_utf8(bytes@) ==> r@ == vstd::utf8::decode_utf8(bytes@),
{
    String::from_utf8_lossy(bytes).into_owned()
}

/// The character whose scalar value is `b` (Latin-1), as `b as char`.
pub fn byte_char(b: u8) -> (c: char)
    ensures
        c as int == b as int,
{
    b as char
}

/// The characters of `s`.
pub fn chars_of(s: &str) -> (v: Vec<char>)
    ensures
        v@ == s@,
{
    let mut v: Vec<char> = Vec::new();
    for c in it: s.chars()
        invariant
            v@ == it.seq().take(it.index() as int),
            it.seq() == s@,
    {
        v.push(c);
    }
    v
}

/// A string made of `v[a..b]`.
pub fn string_from_range(v: &Vec<char>, a: usize, b: usize) -> (r: String)
    requires
        a <= b <= v.len(),
    ensures
        r@ == v@.subrange(a as int, b as int),
{
    let mut r = String::new();
    let mut i = a;
    while i < b
        invariant
            a <= i <= b <= v.len(),
            r@ == v@.subrange(a as int, i as int),
        decreases b - i,
    {
        push_char(&mut r, v[i]);
        assert(v@.subrange(a as int, i as int).push(v@[i as int]) =~= v@.subrange(
            a as int,
            i + 1,
        ));
        i = i + 1;
    }
    r
}

/// An owned copy of `s`.
pub fn owned(s: &str) -> (r: String)
    ensures
        r@ == s@,
{
    s.to_owned()
}

/// Appends `t` to `s`.
pub fn push_str(s: &mut String, t: &str)
    ensures
        final(s)@ == old(s)@ + t@,
{
    s.append(t);
}

/// The length of `s` in bytes, UTF-8 encoded (`str::len`).
pub fn byte_len(s: &str) -> (n: usize)
    ensures
        n == vstd::utf8::encode_utf8(s@).len(),
{
    s.as_bytes().len()
}

/// `a == b` on string slices.
pub fn str_eq(a: &str, b: &str) -> (r: bool)
    ensures
        r == (a@ == b@),
{
    let x = owned(a);
    let y = owned(b);
    x == y
}

/// `char::is_whitespace`.
pub fn is_whitespace(c: char) -> (r: bool)
    ensures
        r == is_ws(c),
{
    let u = c as u32;
    (9 <= u && u <= 13) || u == 32 || u == 0x85 || u == 0xA0 || u == 0x1680 || (0x2000 <= u && u
        <= 0x200A) || u == 0x2028 || u == 0x2029 || u == 0x202F || u == 0x205F || u == 0x3000
}

/// `str::trim`.
pub fn trim(s: &str) -> (r: String)
    ensures
        r@ == trim_seq(s@),
{
    let v = chars_of(s);
    let n = v.len();
    let ghost sv = s@;
    let mut i: usize = 0;
    assert(sv.subrange(0, n as int) =~= sv);
    while i < n && is_whitespace(v[i])
        invariant
            i <= n == sv.len(),
            v@ == sv,
            lead_ws(sv) == i + lead_ws(sv.subrange(i as int, n as int)),
        decreases n - i,
    {
        proof {
            lemma_lead_ws_step(sv, i as int);
        }
        i = i + 1;
    }
    proof {
        if i < n {
            assert(sv.subrange(i as int, n as int)[0] == sv[i as int]);
        }
    }
    let ghost t = sv.subrange(i as int, n as int);
    let mut j: usize = n;
    assert(t.subrange(0, n - i) =~= t);
    while j > i && is_whitespace(v[j - 1])
        invariant
            i <= j <= n == sv.len(),
            v@ == sv,
            t == sv.subrange(i as int, n as int),
            trail_ws(t) == (n - j) + trail_ws(t.subrange(0, j - i)),
        decreases j,
    {
        proof {
            assert(t.subrange(0, j - i)[j - i - 1] == v@[j - 1]);
            lemma_trail_ws_step(t, j - i);
            assert(t.subrange(0, j - i).subrange(0, j - i - 1) =~= t.subrange(0, j - i - 1));
        }
        j = j - 1;
    }
    proof {
        if j > i {
            assert(t.subrange(0, j - i).last() == v@[j - 1]);
        }
        assert(t.subrange(0, t.len() - trail_ws(t)) =~= sv.subrange(i as int, j as int));
    }
    string_from_range(&v, i, j)
}

/// `str::split_whitespace`, collected.
pub fn split_whitespace(s: &str) -> (r: Vec<String>)
    ensures
        views(r@) == ws_tokens(s@),
{
    let v = chars_of(s);
    let n = v.len();
    let ghost sv = s@;
    let mut r: Vec<String> = Vec::new();
    let mut i: usize = 0;
    assert(sv.subrange(0, n as int) =~= sv);
    assert(views(r@) =~= seq![]);
    assert(views(r@) + ws_tokens(sv) =~= ws_tokens(sv));
    loop
        invariant
            i <= n == sv.len(),
            v@ == sv,
            sv == s@,
            ws_tokens(sv) == views(r@) + ws_tokens(sv.subrange(i as int, n as int)),
        decreases n - i,
    {
        let ghost rest = sv.subrange(i as int, n as int);
        let mut j = i;
        while j < n && is_whitespace(v[j])
            invariant
                i <= j <= n == sv.len(),
                v@ == sv,
                rest == sv.subrange(i as int, n as int),
                lead_ws(rest) == (j - i) + lead_ws(sv.subrange(j as int, n as int)),
            decreases n - j,
        {
            proof {
                lemma_lead_ws_step(sv, j as int);
            }
            j = j + 1;
        }
        proof {
            if j < n {
                assert(sv.subrange(j as int, n as int)[0] == sv[j as int]);
            }
        }
        if j == n {
            proof {
                assert(sv.subrange(n as int, n as int) =~= Seq::<char>::empty());
                assert(lead_ws(rest) >= rest.len());
                assert(ws_tokens(rest) =~= seq![]);
                assert(views(r@) + ws_tokens(rest) =~= views(r@));
            }
            return r;
        }
        let mut k = j;
        while k < n && !is_whitespace(v[k])
            invariant
                j <= k <= n == sv.len(),
                v@ == sv,
                token_len(sv.subrange(j as int, n as int)) == (k - j) + token_len(
                    sv.subrange(k as int, n as int),
                ),
            decreases n - k,
        {
            proof {
                lemma_token_len_step(sv, k as int);
            }
            k = k + 1;
        }
        proof {
            if k < n {
                assert(sv.subrange(k as int, n as int)[0] == sv[k as int]);
            }
            let t = rest.subrange((j - i) as int, rest.len() as int);
            assert(t =~= sv.subrange(j as int, n as int));
            assert(t.subrange(0, (k - j) as int) =~= sv.subrange(j as int, k as int));
            assert(t.subrange((k - j) as int, t.len() as int) =~= sv.subrange(k as int, n as int));
        }
        let word = string_from_range(&v, j, k);
        let ghost r0 = r@;
        r.push(word);
        proof {
            assert(r@.drop_last() =~= r0);
            assert(views(r@) =~= views(r0).push(word@));
        }
        i = k;
    }
}

/// Whether `p` occurs in `v` at index `j`.
fn matches_at_exec(v: &Vec<char>, p: &Vec<char>, j: usize) -> (r: bool)
    ensures
        r == matches_at(v@, p@, j as int),
{
    if j > v.len() || p.len() > v.len() - j {
        return false;
    }
    let mut k: usize = 0;
    while k < p.len()
        invariant
            j + p.len() <= v.len(),
            k <= p.len(),
            forall|m: int| 0 <= m < k ==> v@[j + m] == p@[m],
        decreases p.len() - k,
    {
        if v[j + k] != p[k] {
            assert(v@.subrange(j as int, j + p.len())[k as int] != p@[k as int]);
            return false;
        }
        k = k + 1;
    }
    assert(v@.subrange(j as int, j + p.len()) =~= p@);
    true
}

proof fn lemma_matches_shift(s: Seq<char>, p: Seq<char>, a: int, k: int)
    requires
        0 <= a <= s.len(),
    ensures
        matches_at(s.subrange(a, s.len() as int), p, k) <==> (0 <= k && matches_at(s, p, a + k)),
{
    let r = s.subrange(a, s.len() as int);
    if 0 <= k && k + p.len() <= r.len() {
        assert(r.subrange(k, k + p.len()) =~= s.subrange(a + k, a + k + p.len()));
    }
}

/// `str::split` with a non-empty pattern, collected.
pub fn split(s: &str, pat: &str) -> (r: Vec<String>)
    requires
        pat@.len() > 0,
    ensures
        views(r@) == split_seq(s@, pat@),
{
    let v = chars_of(s);
    let p = chars_of(pat);
    let n = v.len();
    let ghost sv = s@;
    let ghost pv = pat@;
    let mut r: Vec<String> = Vec::new();
    let mut start: usize = 0;
    assert(sv.subrange(0, n as int) =~= sv);
    assert(views(r@) + split_seq(sv, pv) =~= split_seq(sv, pv));
    loop
        invariant
            start <= n == sv.len(),
            v@ == sv,
            p@ == pv,
            sv == s@,
            pv == pat@,
            pv.len() > 0,
            split_seq(sv, pv) == views(r@) + split_seq(sv.subrange(start as int, n as int), pv),
        decreases n - start,
    {
        let ghost rest = sv.subrange(start as int, n as int);
        let mut j = start;
        let mut found = false;
        while j < n && !found
            invariant
                start <= j <= n == sv.len(),
                v@ == sv,
                p@ == pv,
                rest == sv.subrange(start as int, n as int),
                found ==> j < n && matches_at(sv, pv, j as int),
                forall|k: int| start <= k < j ==> !#[trigger] matches_at(sv, pv, k),
            decreases n - j + (if found { 0int } else { 1int }),
        {
            if matches_at_exec(&v, &p, j) {
                found = true;
            } else {
                j = j + 1;
            }
        }
        proof {
            assert forall|k: int| 0 <= k < j - start implies !#[trigger] matches_at(rest, pv, k) by {
                lemma_matches_shift(sv, pv, start as int, k);
            }
            if found {
                lemma_matches_shift(sv, pv, start as int, j - start);
                lemma_first_match_is(rest, pv, Some(j - start));
            } else {
                assert forall|k: int| 0 <= k implies !#[trigger] matches_at(rest, pv, k) by {
                    lemma_matches_shift(sv, pv, start as int, k);
                    if k >= j - start {
                        assert(!matches_at(sv, pv, start + k));
                    }
                }
                lemma_first_match_is(rest, pv, None);
            }
        }
        if !found {
            let piece = string_from_range(&v, start, n);
            let ghost r0 = r@;
            r.push(piece);
            proof {
                assert(split_seq(rest, pv) == seq![rest]);
                assert(r@.drop_last() =~= r0);
                assert(views(r@) =~= views(r0).push(piece@));
            }
            return r;
        }
        let piece = string_from_range(&v, start, j);
        let ghost r0 = r@;
        r.push(piece);
        proof {
            assert(r@.drop_last() =~= r0);
            let m = (j - start) as int;
            assert(rest.subrange(0, m) =~= sv.subrange(start as int, j as int));
            assert(rest.subrange(m + pv.len(), rest.len() as int) =~= sv.subrange(
                j + pv.len(),
                n as int,
            ));
            assert(views(r@) =~= views(r@.drop_last()).push(piece@));
        }
        start = j + p.len();
    }
}

/// `str::starts_with` with a string pattern.
pub fn starts_with(s: &str, p: &str) -> (r: bool)
    ensures
        r == has_prefix(s@, p@),
{
    let v = chars_of(s);
    let q = chars_of(p);
    if q.len() > v.len() {
        return false;
    }
    let b = matches_at_exec(&v, &q, 0);
    proof {
        if b {
            assert(v@.subrange(0, q@.len() as int) == q@);
        } else {
            assert(!(v@.subrange(0, q@.len() as int) == q@));
        }
    }
    b
}

/// `str::ends_with` with a string pattern.
pub fn ends_with(s: &str, p: &str) -> (r: bool)
    ensures
        r == has_suffix(s@, p@),
{
    let v = chars_of(s);
    let q = chars_of(p);
    if q.len() > v.len() {
        return false;
    }
    matches_at_exec(&v, &q, v.len() - q.len())
}

/// `str::strip_prefix` with a string pattern.
pub fn strip_prefix(s: &str, p: &str) -> (r: Option<String>)
    ensures
        match r {
            Some(t) => strip_prefix_seq(s@, p@) == Some(t@),
            None => strip_prefix_seq(s@, p@) is None,
        },
{
    if starts_with(s, p) {
        let v = chars_of(s);
        let q_len = chars_of(p).len();
        Some(string_from_range(&v, q_len, v.len()))
    } else {
        None
    }
}

/// Appends the decimal representation of `n`.
pub fn push_decimal(s: &mut String, n: u64)
    ensures
        final(s)@ == old(s)@ + dec(n as nat),
    decreases n,
{
    if n >= 10 {
        push_decimal(s, n / 10);
    }
    let d = (n % 10) as u8;
    push_char(s, byte_char(d + 48));
    proof {
        assert(digit_char((n % 10) as nat) == byte_char_spec(d + 48));
    }
}

spec fn byte_char_spec(b: int) -> char {
    b as char
}

/// The decimal representation of `n` (`n.to_string()`).
pub fn decimal(n: u64) -> (r: String)
    ensures
        r@ == dec(n as nat),
{
    let mut s = String::new();
    push_decimal(&mut s, n);
    assert(s@ =~= dec(n as nat));
    s
}

} // verus!
