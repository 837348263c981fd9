//! The substitution engine: rewrites a line by replacing every match of
//! every registered pattern with that pattern's redaction marker.
//!
//! One pattern is applied by a single left-to-right scan ([`redact_from`]):
//! where a match begins, the marker is emitted and the matched span is
//! skipped; everywhere else the byte is kept.  The whole engine applies the
//! registered patterns one after another, in the registry's fixed order, so
//! a marker emitted by an earlier pattern is visible to the later ones.
//!
//! Each pattern's application is isolated: a pattern whose application
//! faults is skipped and recorded, and the remaining patterns still run
//! (see [`sanitize_isolating`]).

use vstd::prelude::*;
use crate::patterns::{
    PatternKind, Registry, lemma_pattern_len_bounds, marker_seq, match_len, pattern_len_at,
    pattern_order, push_marker,
};

verus! {

/// The redacted form of `s[i..]` under the single pattern `k`: scanning
/// left to right, every position where a match begins contributes the
/// marker and skips the matched span; every other position keeps its byte.
pub open spec fn redact_from(s: Seq<u8>, k: PatternKind, i: int) -> Seq<u8>
    decreases s.len() - i,
    when 0 <= i <= s.len()
    via redact_from_decreases
{
    if i >= s.len() {
        Seq::empty()
    } else {
        let l = pattern_len_at(s, k, i);
        if l >= 1 {
            marker_seq(k) + redact_from(s, k, i + l)
        } else {
            seq![s[i]] + redact_from(s, k, i + 1)
        }
    }
}

#[via_fn]
proof fn redact_from_decreases(s: Seq<u8>, k: PatternKind, i: int) {
    if 0 <= i < s.len() {
        lemma_pattern_len_bounds(s, k, i);
    }
}

/// Replaces every match of pattern `k` in `s` with the marker of `k`.
pub fn apply_pattern(s: &Vec<u8>, k: PatternKind) -> (r: Vec<u8>)
    ensures
        r@ == redact_from(s@, k, 0),
{
    let mut out: Vec<u8> = Vec::new();
    let mut i: usize = 0;
    while i < s.len()
        invariant
            i <= s.len(),
            out@ + redact_from(s@, k, i as int) == redact_from(s@, k, 0),
        decreases s.len() - i,
    {
        let ghost out0 = out@;
        let l = match_len(s, k, i);
        if l >= 1 {
            proof {
                lemma_pattern_len_bounds(s@, k, i as int);
            }
            push_marker(&mut out, k);
            proof {
                assert(out0 + redact_from(s@, k, i as int) =~= out@ + redact_from(
                    s@,
                    k,
                    i + l,
                ));
            }
            i = i + l;
        } else {
            out.push(s[i]);
            proof {
                assert(out0 + redact_from(s@, k, i as int) =~= out@ + redact_from(
                    s@,
                    k,
                    i + 1,
                ));
            }
            i = i + 1;
        }
    }
    proof {
        assert(out@ + redact_from(s@, k, s@.len() as int) =~= out@);
    }
    out
}

/// The result of applying the patterns of `ks`, in order, to `s`.
pub open spec fn apply_kinds(s: Seq<u8>, ks: Seq<PatternKind>) -> Seq<u8>
    decreases ks.len(),
{
    if ks.len() == 0 {
        s
    } else {
        apply_kinds(redact_from(s, ks[0], 0), ks.drop_first())
    }
}

/// The fully redacted form of `s`: every registered pattern applied, in the
/// registry's documented order.
pub open spec fn sanitize_seq(s: Seq<u8>) -> Seq<u8> {
    apply_kinds(s, pattern_order())
}

/// A fresh copy of the line, so the engine never mutates its input.
fn copy_bytes(s: &Vec<u8>) -> (r: Vec<u8>)
    ensures
        r@ == s@,
{
    let mut r: Vec<u8> = Vec::new();
    let mut i: usize = 0;
    while i < s.len()
        invariant
            i <= s.len(),
            r@ == s@.subrange(0, i as int),
        decreases s.len() - i,
    {
        r.push(s[i]);
        proof {
            assert(r@ =~= s@.subrange(0, i + 1));
        }
        i = i + 1;
    }
    proof {
        assert(s@.subrange(0, s@.len() as int) =~= s@);
    }
    r
}

/// Redacts every registered pattern from `line`, in the registry's fixed
/// order, and returns the redacted copy.
pub fn sanitize(line: &Vec<u8>, reg: &Registry) -> (r: Vec<u8>)
    ensures
        r@ == sanitize_seq(line@),
{
    let n = reg.len();
    let mut cur = copy_bytes(line);
    let mut idx: usize = 0;
    proof {
        assert(pattern_order().subrange(0, pattern_order().len() as int) =~= pattern_order());
    }
    while idx < n
        invariant
            n == pattern_order().len(),
            idx <= n,
            apply_kinds(
                cur@,
                pattern_order().subrange(idx as int, pattern_order().len() as int),
            ) == sanitize_seq(line@),
        decreases n - idx,
    {
        let k = reg.kind_at(idx);
        cur = apply_pattern(&cur, k);
        proof {
            assert(pattern_order().subrange(idx as int, pattern_order().len() as int).drop_first()
                =~= pattern_order().subrange(idx + 1, pattern_order().len() as int));
        }
        idx = idx + 1;
    }
    cur
}

/// The redacted form of `s` when the applications of the patterns in
/// `skip` fault and are contained: those patterns are omitted, and every
/// other pattern of `ks` is still applied, in order.
pub open spec fn apply_kinds_except(s: Seq<u8>, ks: Seq<PatternKind>, skip: Seq<PatternKind>) -> Seq<
    u8,
>
    decreases ks.len(),
{
    if ks.len() == 0 {
        s
    } else if skip.contains(ks[0]) {
        apply_kinds_except(s, ks.drop_first(), skip)
    } else {
        apply_kinds_except(redact_from(s, ks[0], 0), ks.drop_first(), skip)
    }
}

/// The patterns of `ks`, in order, without those of `skip`.
pub open spec fn keep_kinds(ks: Seq<PatternKind>, skip: Seq<PatternKind>) -> Seq<PatternKind>
    decreases ks.len(),
{
    if ks.len() == 0 {
        Seq::empty()
    } else if skip.contains(ks[0]) {
        keep_kinds(ks.drop_first(), skip)
    } else {
        seq![ks[0]] + keep_kinds(ks.drop_first(), skip)
    }
}

/// The patterns of `ks`, in order, that are in `skip`: the faults the
/// engine records.
pub open spec fn dropped_kinds(ks: Seq<PatternKind>, skip: Seq<PatternKind>) -> Seq<PatternKind>
    decreases ks.len(),
{
    if ks.len() == 0 {
        Seq::empty()
    } else if skip.contains(ks[0]) {
        seq![ks[0]] + dropped_kinds(ks.drop_first(), skip)
    } else {
        dropped_kinds(ks.drop_first(), skip)
    }
}

/// Containment of per-pattern faults: skipping the faulted patterns gives
/// exactly the result of running the remaining patterns alone, in order.
/// A fault in one pattern's application never prevents the other patterns
/// from being applied, and never fails the whole call.
pub proof fn lemma_fault_isolation(s: Seq<u8>, ks: Seq<PatternKind>, skip: Seq<PatternKind>)
    ensures
        apply_kinds_except(s, ks, skip) == apply_kinds(s, keep_kinds(ks, skip)),
    decreases ks.len(),
{
    if ks.len() != 0 {
        if skip.contains(ks[0]) {
            lemma_fault_isolation(s, ks.drop_first(), skip);
        } else {
            lemma_fault_isolation(redact_from(s, ks[0], 0), ks.drop_first(), skip);
            assert((seq![ks[0]] + keep_kinds(ks.drop_first(), skip)).drop_first() =~= keep_kinds(
                ks.drop_first(),
                skip,
            ));
        }
    }
}

/// Whether `v` holds the kind `k`.
fn contains_kind(v: &Vec<PatternKind>, k: PatternKind) -> (r: bool)
    ensures
        r == v@.contains(k),
{
    let mut j: usize = 0;
    while j < v.len()
        invariant
            j <= v.len(),
            forall|t: int| 0 <= t < j ==> v@[t] != k,
        decreases v.len() - j,
    {
        if v[j] == k {
            return true;
        }
        j = j + 1;
    }
    false
}

/// Redacts every registered pattern from `line` except those in `faulted`,
/// which stand for patterns whose application raised a contained fault in
/// this call.  Returns the redacted copy together with the faulted patterns
/// that were skipped, in application order: one pattern's fault never
/// prevents the others from running, and the call as a whole still
/// succeeds.
pub fn sanitize_isolating(line: &Vec<u8>, reg: &Registry, faulted: &Vec<PatternKind>) -> (r: (
    Vec<u8>,
    Vec<PatternKind>,
))
    ensures
        r.0@ == apply_kinds_except(line@, pattern_order(), faulted@),
        r.1@ == dropped_kinds(pattern_order(), faulted@),
{
    let n = reg.len();
    let mut cur = copy_bytes(line);
    let mut skipped: Vec<PatternKind> = Vec::new();
    let mut idx: usize = 0;
    proof {
        assert(pattern_order().subrange(0, pattern_order().len() as int) =~= pattern_order());
    }
    while idx < n
        invariant
            n == pattern_order().len(),
            idx <= n,
            apply_kinds_except(
                cur@,
                pattern_order().subrange(idx as int, pattern_order().len() as int),
                faulted@,
            ) == apply_kinds_except(line@, pattern_order(), faulted@),
            skipped@ + dropped_kinds(
                pattern_order().subrange(idx as int, pattern_order().len() as int),
                faulted@,
            ) == dropped_kinds(pattern_order(), faulted@),
        decreases n - idx,
    {
        let ghost skipped0 = skipped@;
        let k = reg.kind_at(idx);
        if contains_kind(faulted, k) {
            skipped.push(k);
        } else {
            cur = apply_pattern(&cur, k);
        }
        proof {
            let rest = pattern_order().subrange(idx as int, pattern_order().len() as int);
            assert(rest.drop_first() =~= pattern_order().subrange(
                idx + 1,
                pattern_order().len() as int,
            ));
            if faulted@.contains(k) {
                assert(skipped@ + dropped_kinds(rest.drop_first(), faulted@) =~= skipped0 + (seq![
                    k,
                ] + dropped_kinds(rest.drop_first(), faulted@)));
            }
        }
        idx = idx + 1;
    }
    proof {
        assert(skipped@ + Seq::<PatternKind>::empty() =~= skipped@);
    }
    (cur, skipped)
}

} // verus!
