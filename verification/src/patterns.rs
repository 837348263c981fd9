//! The fixed set of sensitive lexical shapes, their matchers, and the
//! registry that fixes the order in which the engine applies them.
//!
//! Each shape is given by a spec function `<shape>_len_at(s, i)` that
//! returns the length of the match beginning at position `i` of `s`, or `0`
//! when no match begins there.  The shapes follow the common lexical
//! conventions for each kind of datum, delimited by word boundaries:
//!
//! - `ip`: four runs of one to three decimal digits separated by dots;
//! - `email`: a local part (`a-zA-Z0-9._%+-`), `@`, a domain, and a final
//!   dot-separated label of at least two letters; the domain extends to the
//!   last dot that is followed by such a label;
//! - `uuid`: `8-4-4-4-12` hex digits with hyphens, a version digit `1-5`
//!   and a variant digit `8, 9, a, b, A, B`;
//! - `sha256`: exactly 64 hex digits;
//! - `md5`: exactly 32 hex digits;
//! - `jwt`: `eyJ` followed by three dot-separated runs of token bytes
//!   (`a-zA-Z0-9_-`), the last trimmed back to end on a word byte.
//!
//! A match must begin and end at a word boundary, so a hex run longer than
//! its shape allows matches neither as `sha256` nor as `md5`.

use vstd::prelude::*;
use crate::classes::{
    ByteClass, boundary, boundary_at, byte_in_class, is_word_byte, run_from, run_len,
    lemma_run_len_bounds, word_at,
};

verus! {

/// The six kinds of sensitive data the engine redacts, listed in the order
/// in which the engine applies them (see [`pattern_order`]).
#[derive(Clone, Copy, PartialEq, Eq, Structural, Debug)]
pub enum PatternKind {
    Email,
    Jwt,
    Uuid,
    Ip,
    Sha256,
    Md5,
}

/// The order in which the engine applies the patterns.  The order is fixed
/// and documented: structured, multi-part shapes come first (an e-mail or
/// token match may enclose a bare hex run, and redacting the structured
/// shape whole leaves no fragment behind), then the bare hex-run shapes,
/// longest first, so that the more specific 64-digit shape is never
/// pre-empted by the 32-digit one.
pub open spec fn pattern_order() -> Seq<PatternKind> {
    seq![
        PatternKind::Email,
        PatternKind::Jwt,
        PatternKind::Uuid,
        PatternKind::Ip,
        PatternKind::Sha256,
        PatternKind::Md5,
    ]
}

/// The marker that replaces a matched span of kind `k`.
pub open spec fn marker_seq(k: PatternKind) -> Seq<u8> {
    match k {
        PatternKind::Email => seq![
            91u8, 82u8, 69u8, 68u8, 65u8, 67u8, 84u8, 69u8, 68u8, 95u8, 69u8, 77u8, 65u8, 73u8,
            76u8, 93u8,
        ],
        PatternKind::Jwt => seq![
            91u8, 82u8, 69u8, 68u8, 65u8, 67u8, 84u8, 69u8, 68u8, 95u8, 74u8, 87u8, 84u8, 93u8,
        ],
        PatternKind::Uuid => seq![
            91u8, 82u8, 69u8, 68u8, 65u8, 67u8, 84u8, 69u8, 68u8, 95u8, 85u8, 85u8, 73u8, 68u8,
            93u8,
        ],
        PatternKind::Ip => seq![
            91u8, 82u8, 69u8, 68u8, 65u8, 67u8, 84u8, 69u8, 68u8, 95u8, 73u8, 80u8, 93u8,
        ],
        PatternKind::Sha256 => seq![
            91u8, 82u8, 69u8, 68u8, 65u8, 67u8, 84u8, 69u8, 68u8, 95u8, 83u8, 72u8, 65u8, 50u8,
            53u8, 54u8, 93u8,
        ],
        PatternKind::Md5 => seq![
            91u8, 82u8, 69u8, 68u8, 65u8, 67u8, 84u8, 69u8, 68u8, 95u8, 77u8, 68u8, 53u8, 93u8,
        ],
    }
}

/// Appends the marker for kind `k` to `out`.
pub fn push_marker(out: &mut Vec<u8>, k: PatternKind)
    ensures
        final(out)@ == old(out)@ + marker_seq(k),
{
    out.push(91u8);
    out.push(82u8);
    out.push(69u8);
    out.push(68u8);
    out.push(65u8);
    out.push(67u8);
    out.push(84u8);
    out.push(69u8);
    out.push(68u8);
    out.push(95u8);
    match k {
        PatternKind::Email => {
            out.push(69u8);
            out.push(77u8);
            out.push(65u8);
            out.push(73u8);
            out.push(76u8);
        }
        PatternKind::Jwt => {
            out.push(74u8);
            out.push(87u8);
            out.push(84u8);
        }
        PatternKind::Uuid => {
            out.push(85u8);
            out.push(85u8);
            out.push(73u8);
            out.push(68u8);
        }
        PatternKind::Ip => {
            out.push(73u8);
            out.push(80u8);
        }
        PatternKind::Sha256 => {
            out.push(83u8);
            out.push(72u8);
            out.push(65u8);
            out.push(50u8);
            out.push(53u8);
            out.push(54u8);
        }
        PatternKind::Md5 => {
            out.push(77u8);
            out.push(68u8);
            out.push(53u8);
        }
    }
    out.push(93u8);
    proof {
        assert(out@ =~= old(out)@ + marker_seq(k));
    }
}

/// Match length at `i` of a bare hex run of exactly `n` digits (the common
/// shape of the `sha256` and `md5` digests), delimited by word boundaries.
pub open spec fn hex_run_len_at(s: Seq<u8>, i: int, n: int) -> int {
    if boundary(s, i) && run_len(s, ByteClass::HexDigit, i) == n && boundary(s, i + n) {
        n
    } else {
        0
    }
}

/// Whether `b` is a valid UUID variant digit (`8`, `9`, `a`, `b`, `A`, `B`).
pub open spec fn is_uuid_variant(b: u8) -> bool {
    b == 56u8 || b == 57u8 || b == 97u8 || b == 98u8 || b == 65u8 || b == 66u8
}

/// Match length at `i` of the UUID shape.
pub open spec fn uuid_len_at(s: Seq<u8>, i: int) -> int {
    if boundary(s, i) && 0 <= i && i + 36 <= s.len() && run_len(s, ByteClass::HexDigit, i) == 8
        && s[i + 8] == 45u8 && run_len(s, ByteClass::HexDigit, i + 9) == 4 && s[i + 13] == 45u8
        && run_len(s, ByteClass::HexDigit, i + 14) == 4 && 49u8 <= s[i + 14] <= 53u8
        && s[i + 18] == 45u8 && run_len(s, ByteClass::HexDigit, i + 19) == 4
        && is_uuid_variant(s[i + 19]) && s[i + 23] == 45u8
        && run_len(s, ByteClass::HexDigit, i + 24) == 12 && boundary(s, i + 36) {
        36
    } else {
        0
    }
}

/// Match length at `i` of the IPv4 shape: four maximal digit runs of one to
/// three digits separated by dots, delimited by word boundaries.
pub open spec fn ip_len_at(s: Seq<u8>, i: int) -> int {
    let a = run_len(s, ByteClass::Digit, i);
    let b = run_len(s, ByteClass::Digit, i + a + 1);
    let c = run_len(s, ByteClass::Digit, i + a + b + 2);
    let d = run_len(s, ByteClass::Digit, i + a + b + c + 3);
    if boundary(s, i) && 0 <= i && 1 <= a <= 3 && i + a < s.len() && s[i + a] == 46u8 && 1 <= b
        <= 3 && i + a + 1 + b < s.len() && s[i + a + 1 + b] == 46u8 && 1 <= c <= 3 && i + a + b + 2
        + c < s.len() && s[i + a + b + 2 + c] == 46u8 && 1 <= d <= 3
        && boundary(s, i + a + b + c + d + 3) {
        a + b + c + d + 3
    } else {
        0
    }
}

/// Whether `p` is a usable final dot of an e-mail domain: a dot followed by
/// a maximal run of at least two letters that ends at a word boundary.
pub open spec fn email_dot_ok(s: Seq<u8>, p: int) -> bool {
    &&& 0 <= p < s.len()
    &&& s[p] == 46u8
    &&& run_len(s, ByteClass::Letter, p + 1) >= 2
    &&& !word_at(s, p + 1 + run_len(s, ByteClass::Letter, p + 1))
}

/// The largest position in `(lo, hi]` that is a usable final dot, or `-1`.
/// The matcher prefers the rightmost dot, mirroring a greedy domain scan.
pub open spec fn email_last_dot(s: Seq<u8>, lo: int, hi: int) -> int
    decreases hi - lo,
{
    if hi <= lo {
        -1
    } else if email_dot_ok(s, hi) {
        hi
    } else {
        email_last_dot(s, lo, hi - 1)
    }
}

/// Match length at `i` of the e-mail shape.
pub open spec fn email_len_at(s: Seq<u8>, i: int) -> int {
    let ll = run_len(s, ByteClass::EmailLocal, i);
    if boundary(s, i) && 0 <= i && ll >= 1 && i + ll < s.len() && s[i + ll] == 64u8 {
        let d0 = i + ll + 1;
        let dr = run_len(s, ByteClass::EmailDomain, d0);
        let p = email_last_dot(s, d0, d0 + dr - 1);
        if p >= 0 {
            (p + 1 + run_len(s, ByteClass::Letter, p + 1)) - i
        } else {
            0
        }
    } else {
        0
    }
}

/// The longest prefix of the `t`-byte run at `p` that ends on a word byte
/// (a token segment must not end on `-`).
pub open spec fn trim_to_word(s: Seq<u8>, p: int, t: int) -> int
    decreases t,
{
    if t <= 0 {
        0
    } else if is_word_byte(s[p + t - 1]) {
        t
    } else {
        trim_to_word(s, p, t - 1)
    }
}

/// Match length at `i` of the web-token shape: `eyJ`, then three
/// dot-separated runs of token bytes, the last trimmed to end on a word
/// byte.
pub open spec fn jwt_len_at(s: Seq<u8>, i: int) -> int {
    if boundary(s, i) && 0 <= i && i + 3 <= s.len() && s[i] == 101u8 && s[i + 1] == 121u8 && s[i
        + 2] == 74u8 {
        let r1 = run_len(s, ByteClass::TokenSeg, i + 3);
        if r1 >= 1 && i + 3 + r1 < s.len() && s[i + 3 + r1] == 46u8 {
            let r2 = run_len(s, ByteClass::TokenSeg, i + 4 + r1);
            if r2 >= 1 && i + 4 + r1 + r2 < s.len() && s[i + 4 + r1 + r2] == 46u8 {
                let p3 = i + 5 + r1 + r2;
                let t = trim_to_word(s, p3, run_len(s, ByteClass::TokenSeg, p3));
                if t >= 1 {
                    (p3 + t) - i
                } else {
                    0
                }
            } else {
                0
            }
        } else {
            0
        }
    } else {
        0
    }
}

/// Match length at `i` of the shape of kind `k`, or `0` when no match of
/// that kind begins at `i`.
pub open spec fn pattern_len_at(s: Seq<u8>, k: PatternKind, i: int) -> int {
    match k {
        PatternKind::Email => email_len_at(s, i),
        PatternKind::Jwt => jwt_len_at(s, i),
        PatternKind::Uuid => uuid_len_at(s, i),
        PatternKind::Ip => ip_len_at(s, i),
        PatternKind::Sha256 => hex_run_len_at(s, i, 64),
        PatternKind::Md5 => hex_run_len_at(s, i, 32),
    }
}

pub proof fn lemma_trim_bounds(s: Seq<u8>, p: int, t: int)
    ensures
        0 <= trim_to_word(s, p, t) <= (if t >= 0 { t } else { 0 }),
    decreases t,
{
    if t > 0 && !is_word_byte(s[p + t - 1]) {
        lemma_trim_bounds(s, p, t - 1);
    }
}

pub proof fn lemma_email_last_dot(s: Seq<u8>, lo: int, hi: int)
    ensures
        email_last_dot(s, lo, hi) == -1 || (lo < email_last_dot(s, lo, hi) <= hi && email_dot_ok(
            s,
            email_last_dot(s, lo, hi),
        )),
    decreases hi - lo,
{
    if hi > lo && !email_dot_ok(s, hi) {
        lemma_email_last_dot(s, lo, hi - 1);
    }
}

/// A match is never empty and never runs past the end of the text.
pub proof fn lemma_pattern_len_bounds(s: Seq<u8>, k: PatternKind, i: int)
    requires
        0 <= i <= s.len(),
    ensures
        pattern_len_at(s, k, i) == 0 || (1 <= pattern_len_at(s, k, i) && i + pattern_len_at(
            s,
            k,
            i,
        ) <= s.len()),
{
    match k {
        PatternKind::Email => {
            let ll = run_len(s, ByteClass::EmailLocal, i);
            lemma_run_len_bounds(s, ByteClass::EmailLocal, i);
            if boundary(s, i) && ll >= 1 && i + ll < s.len() && s[i + ll] == 64u8 {
                let d0 = i + ll + 1;
                let dr = run_len(s, ByteClass::EmailDomain, d0);
                lemma_run_len_bounds(s, ByteClass::EmailDomain, d0);
                let p = email_last_dot(s, d0, d0 + dr - 1);
                lemma_email_last_dot(s, d0, d0 + dr - 1);
                if p >= 0 {
                    lemma_run_len_bounds(s, ByteClass::Letter, p + 1);
                }
            }
        }
        PatternKind::Jwt => {
            if jwt_len_at(s, i) != 0 {
                let r1 = run_len(s, ByteClass::TokenSeg, i + 3);
                lemma_run_len_bounds(s, ByteClass::TokenSeg, i + 3);
                let r2 = run_len(s, ByteClass::TokenSeg, i + 4 + r1);
                lemma_run_len_bounds(s, ByteClass::TokenSeg, i + 4 + r1);
                let p3 = i + 5 + r1 + r2;
                let r3 = run_len(s, ByteClass::TokenSeg, p3);
                lemma_run_len_bounds(s, ByteClass::TokenSeg, p3);
                lemma_trim_bounds(s, p3, r3);
            }
        }
        PatternKind::Uuid => {
        }
        PatternKind::Ip => {
            if ip_len_at(s, i) != 0 {
                let a = run_len(s, ByteClass::Digit, i);
                let b = run_len(s, ByteClass::Digit, i + a + 1);
                let c = run_len(s, ByteClass::Digit, i + a + b + 2);
                lemma_run_len_bounds(s, ByteClass::Digit, i + a + b + c + 3);
            }
        }
        PatternKind::Sha256 => {
            lemma_run_len_bounds(s, ByteClass::HexDigit, i);
        }
        PatternKind::Md5 => {
            lemma_run_len_bounds(s, ByteClass::HexDigit, i);
        }
    }
}

/// Match length at `i` of a bare hex run of exactly `n` digits.
fn match_hex_run(s: &Vec<u8>, i: usize, n: usize) -> (l: usize)
    requires
        i <= s.len(),
        n >= 1,
    ensures
        l == hex_run_len_at(s@, i as int, n as int),
{
    let r = run_from(s, ByteClass::HexDigit, i);
    if r == n && boundary_at(s, i) && boundary_at(s, i + n) {
        n
    } else {
        0
    }
}

/// Match length at `i` of the UUID shape.
fn match_uuid(s: &Vec<u8>, i: usize) -> (l: usize)
    requires
        i <= s.len(),
    ensures
        l == uuid_len_at(s@, i as int),
{
    if s.len() - i < 36 {
        return 0;
    }
    if !(run_from(s, ByteClass::HexDigit, i) == 8 && s[i + 8] == 45u8) {
        return 0;
    }
    if !(run_from(s, ByteClass::HexDigit, i + 9) == 4 && s[i + 13] == 45u8) {
        return 0;
    }
    if !(run_from(s, ByteClass::HexDigit, i + 14) == 4 && 49u8 <= s[i + 14] && s[i + 14] <= 53u8)
    {
        return 0;
    }
    if !(run_from(s, ByteClass::HexDigit, i + 19) == 4) {
        return 0;
    }
    let v = s[i + 19];
    if !(v == 56u8 || v == 57u8 || v == 97u8 || v == 98u8 || v == 65u8 || v == 66u8) {
        return 0;
    }
    if !(s[i + 18] == 45u8 && s[i + 23] == 45u8) {
        return 0;
    }
    if !(run_from(s, ByteClass::HexDigit, i + 24) == 12) {
        return 0;
    }
    if boundary_at(s, i) && boundary_at(s, i + 36) {
        36
    } else {
        0
    }
}

/// Match length at `i` of the IPv4 shape.
fn match_ip(s: &Vec<u8>, i: usize) -> (l: usize)
    requires
        i <= s.len(),
    ensures
        l == ip_len_at(s@, i as int),
{
    let a = run_from(s, ByteClass::Digit, i);
    if !(1 <= a && a <= 3 && i + a < s.len() && s[i + a] == 46u8) {
        return 0;
    }
    let b = run_from(s, ByteClass::Digit, i + a + 1);
    if !(1 <= b && b <= 3 && i + a + 1 + b < s.len() && s[i + a + 1 + b] == 46u8) {
        return 0;
    }
    let c = run_from(s, ByteClass::Digit, i + a + b + 2);
    if !(1 <= c && c <= 3 && i + a + b + 2 + c < s.len() && s[i + a + b + 2 + c] == 46u8) {
        return 0;
    }
    let d = run_from(s, ByteClass::Digit, i + a + b + c + 3);
    if !(1 <= d && d <= 3) {
        return 0;
    }
    if boundary_at(s, i) && boundary_at(s, i + a + b + c + d + 3) {
        a + b + c + d + 3
    } else {
        0
    }
}

/// Whether `p` is a usable final dot of an e-mail domain.
fn email_dot_at(s: &Vec<u8>, p: usize) -> (r: bool)
    requires
        p < s.len(),
    ensures
        r == email_dot_ok(s@, p as int),
{
    if s[p] != 46u8 {
        return false;
    }
    let lr = run_from(s, ByteClass::Letter, p + 1);
    if lr < 2 {
        return false;
    }
    p + 1 + lr == s.len() || !byte_in_class(s[p + 1 + lr], ByteClass::Word)
}

/// Match length at `i` of the e-mail shape.
fn match_email(s: &Vec<u8>, i: usize) -> (l: usize)
    requires
        i <= s.len(),
    ensures
        l == email_len_at(s@, i as int),
{
    if !boundary_at(s, i) {
        return 0;
    }
    let ll = run_from(s, ByteClass::EmailLocal, i);
    if !(ll >= 1 && i + ll < s.len() && s[i + ll] == 64u8) {
        return 0;
    }
    let d0 = i + ll + 1;
    let dr = run_from(s, ByteClass::EmailDomain, d0);
    if dr == 0 {
        return 0;
    }
    let mut p: usize = d0 + dr - 1;
    loop
        invariant
            d0 <= p < s.len(),
            d0 + dr - 1 < s.len(),
            email_last_dot(s@, d0 as int, d0 + dr - 1) == email_last_dot(s@, d0 as int, p as int),
        ensures
            email_last_dot(s@, d0 as int, d0 + dr - 1) == (if p > d0 && email_dot_ok(
                s@,
                p as int,
            ) {
                p as int
            } else {
                -1
            }),
        decreases p,
    {
        if p == d0 {
            break;
        }
        if email_dot_at(s, p) {
            break;
        }
        p = p - 1;
    }
    if p > d0 && email_dot_at(s, p) {
        let lr = run_from(s, ByteClass::Letter, p + 1);
        p + 1 + lr - i
    } else {
        0
    }
}

/// Match length at `i` of the web-token shape.
fn match_jwt(s: &Vec<u8>, i: usize) -> (l: usize)
    requires
        i <= s.len(),
    ensures
        l == jwt_len_at(s@, i as int),
{
    if !(boundary_at(s, i) && s.len() - i >= 3 && s[i] == 101u8 && s[i + 1] == 121u8 && s[i + 2]
        == 74u8) {
        return 0;
    }
    let r1 = run_from(s, ByteClass::TokenSeg, i + 3);
    if !(r1 >= 1 && i + 3 + r1 < s.len() && s[i + 3 + r1] == 46u8) {
        return 0;
    }
    let r2 = run_from(s, ByteClass::TokenSeg, i + 4 + r1);
    if !(r2 >= 1 && i + 4 + r1 + r2 < s.len() && s[i + 4 + r1 + r2] == 46u8) {
        return 0;
    }
    let p3 = i + 5 + r1 + r2;
    let r3 = run_from(s, ByteClass::TokenSeg, p3);
    let mut t: usize = r3;
    loop
        invariant
            0 <= t <= r3,
            p3 + r3 <= s.len(),
            trim_to_word(s@, p3 as int, r3 as int) == trim_to_word(s@, p3 as int, t as int),
        ensures
            0 <= t <= r3,
            p3 + r3 <= s.len(),
            trim_to_word(s@, p3 as int, r3 as int) == (if t > 0 && is_word_byte(
                s@[p3 + t - 1],
            ) {
                t as int
            } else {
                0
            }),
        decreases t,
    {
        if t == 0 {
            break;
        }
        if byte_in_class(s[p3 + t - 1], ByteClass::Word) {
            break;
        }
        t = t - 1;
    }
    if t >= 1 && byte_in_class(s[p3 + t - 1], ByteClass::Word) {
        p3 + t - i
    } else {
        0
    }
}

/// Match length at `i` of the shape of kind `k`, or `0` when no match of
/// that kind begins at `i`.
pub fn match_len(s: &Vec<u8>, k: PatternKind, i: usize) -> (l: usize)
    requires
        i <= s.len(),
    ensures
        l == pattern_len_at(s@, k, i as int),
{
    match k {
        PatternKind::Email => match_email(s, i),
        PatternKind::Jwt => match_jwt(s, i),
        PatternKind::Uuid => match_uuid(s, i),
        PatternKind::Ip => match_ip(s, i),
        PatternKind::Sha256 => match_hex_run(s, i, 64),
        PatternKind::Md5 => match_hex_run(s, i, 32),
    }
}

/// The registry of patterns: built once, immutable thereafter, holding the
/// six patterns in their documented application order.
pub struct Registry {
    kinds: Vec<PatternKind>,
}

impl Registry {
    /// Every registry holds exactly the fixed pattern set, in order.
    #[verifier::type_invariant]
    pub closed spec fn wf(self) -> bool {
        self.kinds@ == pattern_order()
    }

    /// Builds the registry.  The pattern set is fixed at build time, so
    /// construction cannot fail and every instance is identical.
    pub fn new() -> (r: Registry) {
        let mut kinds: Vec<PatternKind> = Vec::new();
        kinds.push(PatternKind::Email);
        kinds.push(PatternKind::Jwt);
        kinds.push(PatternKind::Uuid);
        kinds.push(PatternKind::Ip);
        kinds.push(PatternKind::Sha256);
        kinds.push(PatternKind::Md5);
        proof {
            assert(kinds@ =~= pattern_order());
        }
        Registry { kinds }
    }

    /// The number of registered patterns.
    pub fn len(&self) -> (n: usize)
        ensures
            n == pattern_order().len(),
    {
        proof {
            use_type_invariant(self);
        }
        self.kinds.len()
    }

    /// The pattern at position `idx` of the application order.
    pub fn kind_at(&self, idx: usize) -> (k: PatternKind)
        requires
            idx < pattern_order().len(),
        ensures
            k == pattern_order()[idx as int],
    {
        proof {
            use_type_invariant(self);
        }
        self.kinds[idx]
    }
}

} // verus!
