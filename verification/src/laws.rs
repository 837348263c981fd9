//! The engine's general guarantees, stated and proved once and for all:
//!
//! - a line in which no pattern matches is returned unchanged;
//! - where a pattern matches, its application emits that pattern's marker;
//! - marker text never re-matches any pattern, so redacting an
//!   already-redacted line never rewrites or corrupts a marker, and a
//!   marker present in the input survives the whole engine;
//! - a line that holds an e-mail shape (or, absent the more specific
//!   shapes, an IPv4 shape) is sanitized to a line that holds the
//!   corresponding marker.

use vstd::prelude::*;
use crate::classes::{
    ByteClass, in_class, is_digit, is_hex_digit, lemma_run_len_bounds, lemma_run_len_content,
    run_len,
};
use crate::engine::{apply_kinds, redact_from, sanitize_seq};
use crate::patterns::{
    PatternKind, email_last_dot, lemma_email_last_dot, lemma_pattern_len_bounds,
    lemma_trim_bounds, marker_seq, pattern_len_at, pattern_order,
};

verus! {

/// Whether `needle` occurs as a contiguous substring of `hay`.
pub open spec fn contains_seq(hay: Seq<u8>, needle: Seq<u8>) -> bool {
    exists|t: int|
        0 <= t && t + needle.len() <= hay.len() && #[trigger] hay.subrange(
            t,
            t + needle.len() as int,
        ) == needle
}

proof fn lemma_contains_prefix(n: Seq<u8>, rest: Seq<u8>)
    ensures
        contains_seq(n + rest, n),
{
    let t: int = 0;
    assert((n + rest).subrange(t, t + n.len() as int) =~= n);
}

proof fn lemma_contains_prepend(x: Seq<u8>, h: Seq<u8>, n: Seq<u8>)
    requires
        contains_seq(h, n),
    ensures
        contains_seq(x + h, n),
{
    let t = choose|t: int|
        0 <= t && t + n.len() <= h.len() && #[trigger] h.subrange(t, t + n.len() as int) == n;
    assert((x + h).subrange(x.len() + t, x.len() + t + n.len() as int) =~= h.subrange(
        t,
        t + n.len() as int,
    ));
}

/// Applying a pattern that matches nowhere in `s[i..]` keeps `s[i..]`.
proof fn lemma_redact_identity(s: Seq<u8>, k: PatternKind, i: int)
    requires
        0 <= i <= s.len(),
        forall|j: int| i <= j < s.len() ==> pattern_len_at(s, k, j) == 0,
    ensures
        redact_from(s, k, i) == s.subrange(i, s.len() as int),
    decreases s.len() - i,
{
    if i < s.len() {
        lemma_redact_identity(s, k, i + 1);
    }
    assert(redact_from(s, k, i) =~= s.subrange(i, s.len() as int));
}

proof fn lemma_apply_kinds_identity(s: Seq<u8>, ks: Seq<PatternKind>)
    requires
        forall|k: PatternKind, j: int| 0 <= j < s.len() ==> pattern_len_at(s, k, j) == 0,
    ensures
        apply_kinds(s, ks) == s,
    decreases ks.len(),
{
    if ks.len() != 0 {
        lemma_redact_identity(s, ks[0], 0);
        assert(s.subrange(0, s.len() as int) =~= s);
        lemma_apply_kinds_identity(s, ks.drop_first());
    }
}

/// A line in which no pattern matches anywhere is returned unchanged.
pub proof fn lemma_unmatched_line_unchanged(s: Seq<u8>)
    requires
        forall|k: PatternKind, j: int| 0 <= j < s.len() ==> pattern_len_at(s, k, j) == 0,
    ensures
        sanitize_seq(s) == s,
{
    lemma_apply_kinds_identity(s, pattern_order());
}

/// Where a match of `k` begins at or after `i`, applying `k` emits its
/// marker.
proof fn lemma_redact_emits(s: Seq<u8>, k: PatternKind, i: int)
    requires
        0 <= i <= s.len(),
        exists|j: int| i <= j < s.len() && pattern_len_at(s, k, j) >= 1,
    ensures
        contains_seq(redact_from(s, k, i), marker_seq(k)),
    decreases s.len() - i,
{
    lemma_pattern_len_bounds(s, k, i);
    let l = pattern_len_at(s, k, i);
    let j = choose|j: int| i <= j < s.len() && pattern_len_at(s, k, j) >= 1;
    if l >= 1 {
        lemma_contains_prefix(marker_seq(k), redact_from(s, k, i + l));
    } else {
        assert(j >= i + 1);
        lemma_redact_emits(s, k, i + 1);
        lemma_contains_prepend(seq![s[i]], redact_from(s, k, i + 1), marker_seq(k));
    }
}

/// The byte alphabet a match of kind `k` is drawn from.
spec fn match_byte_ok(b: u8, k: PatternKind) -> bool {
    match k {
        PatternKind::Email => in_class(b, ByteClass::EmailLocal) || b == 64,
        PatternKind::Jwt => in_class(b, ByteClass::TokenSeg) || b == 46,
        PatternKind::Uuid => is_hex_digit(b) || b == 45,
        PatternKind::Ip => is_digit(b) || b == 46,
        PatternKind::Sha256 => is_hex_digit(b),
        PatternKind::Md5 => is_hex_digit(b),
    }
}

/// Every byte inside a match of kind `k` belongs to that kind's alphabet.
proof fn lemma_match_bytes(s: Seq<u8>, k: PatternKind, q: int, t: int)
    requires
        0 <= q <= s.len(),
        pattern_len_at(s, k, q) >= 1,
        q <= t < q + pattern_len_at(s, k, q),
    ensures
        match_byte_ok(s[t], k),
{
    match k {
        PatternKind::Email => {
            let ll = run_len(s, ByteClass::EmailLocal, q);
            lemma_run_len_bounds(s, ByteClass::EmailLocal, q);
            lemma_run_len_content(s, ByteClass::EmailLocal, q);
            let d0 = q + ll + 1;
            let dr = run_len(s, ByteClass::EmailDomain, d0);
            lemma_run_len_bounds(s, ByteClass::EmailDomain, d0);
            lemma_run_len_content(s, ByteClass::EmailDomain, d0);
            let p = email_last_dot(s, d0, d0 + dr - 1);
            lemma_email_last_dot(s, d0, d0 + dr - 1);
            lemma_run_len_bounds(s, ByteClass::Letter, p + 1);
            lemma_run_len_content(s, ByteClass::Letter, p + 1);
        }
        PatternKind::Jwt => {
            let r1 = run_len(s, ByteClass::TokenSeg, q + 3);
            lemma_run_len_bounds(s, ByteClass::TokenSeg, q + 3);
            lemma_run_len_content(s, ByteClass::TokenSeg, q + 3);
            let r2 = run_len(s, ByteClass::TokenSeg, q + 4 + r1);
            lemma_run_len_bounds(s, ByteClass::TokenSeg, q + 4 + r1);
            lemma_run_len_content(s, ByteClass::TokenSeg, q + 4 + r1);
            let p3 = q + 5 + r1 + r2;
            let r3 = run_len(s, ByteClass::TokenSeg, p3);
            lemma_run_len_bounds(s, ByteClass::TokenSeg, p3);
            lemma_run_len_content(s, ByteClass::TokenSeg, p3);
            lemma_trim_bounds(s, p3, r3);
        }
        PatternKind::Uuid => {
            lemma_run_len_content(s, ByteClass::HexDigit, q);
            lemma_run_len_content(s, ByteClass::HexDigit, q + 9);
            lemma_run_len_content(s, ByteClass::HexDigit, q + 14);
            lemma_run_len_content(s, ByteClass::HexDigit, q + 19);
            lemma_run_len_content(s, ByteClass::HexDigit, q + 24);
        }
        PatternKind::Ip => {
            let a = run_len(s, ByteClass::Digit, q);
            lemma_run_len_bounds(s, ByteClass::Digit, q);
            lemma_run_len_content(s, ByteClass::Digit, q);
            let b = run_len(s, ByteClass::Digit, q + a + 1);
            lemma_run_len_bounds(s, ByteClass::Digit, q + a + 1);
            lemma_run_len_content(s, ByteClass::Digit, q + a + 1);
            let c = run_len(s, ByteClass::Digit, q + a + b + 2);
            lemma_run_len_bounds(s, ByteClass::Digit, q + a + b + 2);
            lemma_run_len_content(s, ByteClass::Digit, q + a + b + 2);
            lemma_run_len_bounds(s, ByteClass::Digit, q + a + b + c + 3);
            lemma_run_len_content(s, ByteClass::Digit, q + a + b + c + 3);
        }
        PatternKind::Sha256 => {
            lemma_run_len_content(s, ByteClass::HexDigit, q);
        }
        PatternKind::Md5 => {
            lemma_run_len_content(s, ByteClass::HexDigit, q);
        }
    }
}

/// The bytes of every marker: brackets at the edges, and nowhere a byte
/// that any pattern needs (`@`, `.`, `-`, `e`), nor anything outside
/// upper-case letters, digits, `_`, `[` and `]`.
proof fn lemma_marker_bytes(mk: PatternKind)
    ensures
        9 <= marker_seq(mk).len() <= 17,
        marker_seq(mk)[0] == 91,
        marker_seq(mk)[marker_seq(mk).len() - 1] == 93,
        forall|t: int|
            0 <= t < marker_seq(mk).len() ==> (#[trigger] marker_seq(mk)[t]) != 64
                && marker_seq(mk)[t] != 46 && marker_seq(mk)[t] != 45 && marker_seq(mk)[t] != 101,
{
    match mk {
        PatternKind::Email => {
            assert(forall|t: int|
                0 <= t < marker_seq(mk).len() ==> (#[trigger] marker_seq(mk)[t]) != 64
                    && marker_seq(mk)[t] != 46 && marker_seq(mk)[t] != 45 && marker_seq(mk)[t]
                    != 101);
        }
        PatternKind::Jwt => {
            assert(forall|t: int|
                0 <= t < marker_seq(mk).len() ==> (#[trigger] marker_seq(mk)[t]) != 64
                    && marker_seq(mk)[t] != 46 && marker_seq(mk)[t] != 45 && marker_seq(mk)[t]
                    != 101);
        }
        PatternKind::Uuid => {
            assert(forall|t: int|
                0 <= t < marker_seq(mk).len() ==> (#[trigger] marker_seq(mk)[t]) != 64
                    && marker_seq(mk)[t] != 46 && marker_seq(mk)[t] != 45 && marker_seq(mk)[t]
                    != 101);
        }
        PatternKind::Ip => {
            assert(forall|t: int|
                0 <= t < marker_seq(mk).len() ==> (#[trigger] marker_seq(mk)[t]) != 64
                    && marker_seq(mk)[t] != 46 && marker_seq(mk)[t] != 45 && marker_seq(mk)[t]
                    != 101);
        }
        PatternKind::Sha256 => {
            assert(forall|t: int|
                0 <= t < marker_seq(mk).len() ==> (#[trigger] marker_seq(mk)[t]) != 64
                    && marker_seq(mk)[t] != 46 && marker_seq(mk)[t] != 45 && marker_seq(mk)[t]
                    != 101);
        }
        PatternKind::Md5 => {
            assert(forall|t: int|
                0 <= t < marker_seq(mk).len() ==> (#[trigger] marker_seq(mk)[t]) != 64
                    && marker_seq(mk)[t] != 46 && marker_seq(mk)[t] != 45 && marker_seq(mk)[t]
                    != 101);
        }
    }
}

/// No match of any pattern overlaps an occurrence of a redaction marker:
/// a match would have to cover a bracket or draw a byte the marker does
/// not contain.
proof fn lemma_no_overlap(h: Seq<u8>, mk: PatternKind, a: int, k: PatternKind, q: int)
    requires
        0 <= a,
        a + marker_seq(mk).len() <= h.len(),
        h.subrange(a, a + marker_seq(mk).len() as int) == marker_seq(mk),
        0 <= q <= h.len(),
        pattern_len_at(h, k, q) >= 1,
    ensures
        q + pattern_len_at(h, k, q) <= a || q >= a + marker_seq(mk).len(),
{
    let m = marker_seq(mk);
    let ml = m.len() as int;
    let l = pattern_len_at(h, k, q);
    lemma_marker_bytes(mk);
    lemma_pattern_len_bounds(h, k, q);
    if q + l > a && q < a + ml {
        assert(forall|t: int| a <= t < a + ml ==> h[t] == m[t - a]) by {
            assert(forall|u: int|
                0 <= u < ml ==> h.subrange(a, a + ml)[u] == #[trigger] m[u]);
        }
        if q < a {
            lemma_match_bytes(h, k, q, a);
            assert(h[a] == m[0]);
            assert(false);
        } else if q + l > a + ml {
            lemma_match_bytes(h, k, q, a + ml - 1);
            assert(h[a + ml - 1] == m[ml - 1]);
            assert(false);
        } else {
            match k {
                PatternKind::Email => {
                    let ll = run_len(h, ByteClass::EmailLocal, q);
                    lemma_run_len_bounds(h, ByteClass::EmailLocal, q);
                    let d0 = q + ll + 1;
                    let dr = run_len(h, ByteClass::EmailDomain, d0);
                    lemma_email_last_dot(h, d0, d0 + dr - 1);
                    assert(h[q + ll] == m[q + ll - a]);
                    assert(false);
                }
                PatternKind::Jwt => {
                    assert(h[q] == m[q - a]);
                    assert(false);
                }
                PatternKind::Uuid => {
                    assert(h[q + 8] == m[q + 8 - a]);
                    assert(false);
                }
                PatternKind::Ip => {
                    let ar = run_len(h, ByteClass::Digit, q);
                    lemma_run_len_bounds(h, ByteClass::Digit, q);
                    assert(h[q + ar] == m[q + ar - a]);
                    assert(false);
                }
                PatternKind::Sha256 => {
                    assert(false);
                }
                PatternKind::Md5 => {
                    assert(false);
                }
            }
        }
    }
}

/// A stretch with no match is copied through unchanged.
proof fn lemma_redact_span(h: Seq<u8>, k: PatternKind, x: int, y: int)
    requires
        0 <= x <= y <= h.len(),
        forall|t: int| x <= t < y ==> pattern_len_at(h, k, t) == 0,
    ensures
        redact_from(h, k, x) == h.subrange(x, y) + redact_from(h, k, y),
    decreases y - x,
{
    if x < y {
        lemma_redact_span(h, k, x + 1, y);
    }
    assert(redact_from(h, k, x) =~= h.subrange(x, y) + redact_from(h, k, y));
}

proof fn lemma_redact_keeps_marker(h: Seq<u8>, k: PatternKind, mk: PatternKind, a: int, i: int)
    requires
        0 <= i <= a,
        a + marker_seq(mk).len() <= h.len(),
        h.subrange(a, a + marker_seq(mk).len() as int) == marker_seq(mk),
    ensures
        contains_seq(redact_from(h, k, i), marker_seq(mk)),
    decreases a - i,
{
    let m = marker_seq(mk);
    let ml = m.len() as int;
    lemma_marker_bytes(mk);
    if i == a {
        assert forall|t: int| a <= t < a + ml implies pattern_len_at(h, k, t) == 0 by {
            lemma_pattern_len_bounds(h, k, t);
            if pattern_len_at(h, k, t) >= 1 {
                lemma_no_overlap(h, mk, a, k, t);
            }
        }
        lemma_redact_span(h, k, a, a + ml);
        lemma_contains_prefix(m, redact_from(h, k, a + ml));
    } else {
        let l = pattern_len_at(h, k, i);
        lemma_pattern_len_bounds(h, k, i);
        if l >= 1 {
            lemma_no_overlap(h, mk, a, k, i);
            lemma_redact_keeps_marker(h, k, mk, a, i + l);
            lemma_contains_prepend(marker_seq(k), redact_from(h, k, i + l), m);
        } else {
            lemma_redact_keeps_marker(h, k, mk, a, i + 1);
            lemma_contains_prepend(seq![h[i]], redact_from(h, k, i + 1), m);
        }
    }
}

/// A marker already present in a line survives the application of any
/// single pattern.
pub proof fn lemma_pass_keeps_marker(h: Seq<u8>, k: PatternKind, mk: PatternKind)
    requires
        contains_seq(h, marker_seq(mk)),
    ensures
        contains_seq(redact_from(h, k, 0), marker_seq(mk)),
{
    let m = marker_seq(mk);
    let a = choose|a: int|
        0 <= a && a + m.len() <= h.len() && #[trigger] h.subrange(a, a + m.len() as int) == m;
    lemma_redact_keeps_marker(h, k, mk, a, 0);
}

proof fn lemma_apply_kinds_keeps_marker(s: Seq<u8>, ks: Seq<PatternKind>, mk: PatternKind)
    requires
        contains_seq(s, marker_seq(mk)),
    ensures
        contains_seq(apply_kinds(s, ks), marker_seq(mk)),
    decreases ks.len(),
{
    if ks.len() != 0 {
        lemma_pass_keeps_marker(s, ks[0], mk);
        lemma_apply_kinds_keeps_marker(redact_from(s, ks[0], 0), ks.drop_first(), mk);
    }
}

/// A marker already present in a line survives the whole engine.
pub proof fn lemma_sanitize_keeps_marker(s: Seq<u8>, mk: PatternKind)
    requires
        contains_seq(s, marker_seq(mk)),
    ensures
        contains_seq(sanitize_seq(s), marker_seq(mk)),
{
    lemma_apply_kinds_keeps_marker(s, pattern_order(), mk);
}

/// Marker text never re-matches: no pattern matches anywhere inside a
/// redaction marker.
pub proof fn lemma_marker_never_matches(mk: PatternKind, k: PatternKind, j: int)
    ensures
        pattern_len_at(marker_seq(mk), k, j) == 0,
{
    let m = marker_seq(mk);
    let ml = m.len() as int;
    if 0 <= j <= ml && pattern_len_at(m, k, j) >= 1 {
        assert(m.subrange(0, ml) =~= m);
        lemma_pattern_len_bounds(m, k, j);
        lemma_no_overlap(m, mk, 0, k, j);
        assert(false);
    }
}

/// Redacting marker text alone returns it unchanged: an already-inserted
/// marker is never rewritten by a later pass.
pub proof fn lemma_marker_fixed_point(mk: PatternKind)
    ensures
        sanitize_seq(marker_seq(mk)) == marker_seq(mk),
{
    assert forall|k: PatternKind, j: int|
        0 <= j < marker_seq(mk).len() implies pattern_len_at(marker_seq(mk), k, j) == 0 by {
        lemma_marker_never_matches(mk, k, j);
    }
    lemma_unmatched_line_unchanged(marker_seq(mk));
}

/// A line that holds an e-mail shape is sanitized to a line that holds
/// the `[REDACTED_EMAIL]` marker: the e-mail pattern is applied first, and
/// the marker it emits survives every later pass.
pub proof fn lemma_email_redacted(s: Seq<u8>)
    requires
        exists|j: int| 0 <= j < s.len() && pattern_len_at(s, PatternKind::Email, j) >= 1,
    ensures
        contains_seq(sanitize_seq(s), marker_seq(PatternKind::Email)),
{
    lemma_redact_emits(s, PatternKind::Email, 0);
    let ks = pattern_order();
    assert(ks[0] == PatternKind::Email);
    lemma_apply_kinds_keeps_marker(redact_from(s, ks[0], 0), ks.drop_first(), PatternKind::Email);
}

/// A line that holds an IPv4 shape but no e-mail, token or UUID shape is
/// sanitized to a line that holds the `[REDACTED_IP]` marker.  (An e-mail,
/// token or UUID match may legitimately enclose the IPv4 text; it is then
/// redacted under that earlier, more specific marker instead.)
pub proof fn lemma_ip_redacted(s: Seq<u8>)
    requires
        exists|j: int| 0 <= j < s.len() && pattern_len_at(s, PatternKind::Ip, j) >= 1,
        forall|j: int| 0 <= j < s.len() ==> pattern_len_at(s, PatternKind::Email, j) == 0,
        forall|j: int| 0 <= j < s.len() ==> pattern_len_at(s, PatternKind::Jwt, j) == 0,
        forall|j: int| 0 <= j < s.len() ==> pattern_len_at(s, PatternKind::Uuid, j) == 0,
    ensures
        contains_seq(sanitize_seq(s), marker_seq(PatternKind::Ip)),
{
    let ks = pattern_order();
    lemma_redact_identity(s, PatternKind::Email, 0);
    lemma_redact_identity(s, PatternKind::Jwt, 0);
    lemma_redact_identity(s, PatternKind::Uuid, 0);
    assert(s.subrange(0, s.len() as int) =~= s);
    lemma_redact_emits(s, PatternKind::Ip, 0);
    let h = redact_from(s, PatternKind::Ip, 0);
    lemma_pass_keeps_marker(h, PatternKind::Sha256, PatternKind::Ip);
    let h2 = redact_from(h, PatternKind::Sha256, 0);
    lemma_pass_keeps_marker(h2, PatternKind::Md5, PatternKind::Ip);
    let h3 = redact_from(h2, PatternKind::Md5, 0);
    let ks1 = seq![
        PatternKind::Jwt,
        PatternKind::Uuid,
        PatternKind::Ip,
        PatternKind::Sha256,
        PatternKind::Md5,
    ];
    let ks2 = seq![PatternKind::Uuid, PatternKind::Ip, PatternKind::Sha256, PatternKind::Md5];
    let ks3 = seq![PatternKind::Ip, PatternKind::Sha256, PatternKind::Md5];
    let ks4 = seq![PatternKind::Sha256, PatternKind::Md5];
    let ks5 = seq![PatternKind::Md5];
    assert(ks.drop_first() =~= ks1);
    assert(ks1.drop_first() =~= ks2);
    assert(ks2.drop_first() =~= ks3);
    assert(ks3.drop_first() =~= ks4);
    assert(ks4.drop_first() =~= ks5);
    assert(ks5.drop_first() =~= Seq::<PatternKind>::empty());
    assert(apply_kinds(s, ks) == apply_kinds(s, ks1));
    assert(apply_kinds(s, ks1) == apply_kinds(s, ks2));
    assert(apply_kinds(s, ks2) == apply_kinds(s, ks3));
    assert(apply_kinds(s, ks3) == apply_kinds(h, ks4));
    assert(apply_kinds(h, ks4) == apply_kinds(h2, ks5));
    assert(apply_kinds(h2, ks5) == apply_kinds(h3, Seq::<PatternKind>::empty()));
    assert(apply_kinds(h3, Seq::<PatternKind>::empty()) == h3);
}

} // verus!
