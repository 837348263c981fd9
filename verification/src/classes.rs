//! Byte classes used by the lexical shapes, and maximal-run scanning.
//!
//! Every shape the engine recognizes is defined over ASCII byte classes
//! (digits, hex digits, letters, word bytes, and the composite classes that
//! appear in e-mail addresses and web tokens), together with word-boundary
//! conditions: a boundary sits between two positions exactly when one holds
//! a word byte and the other does not (positions outside the text count as
//! non-word).

use vstd::prelude::*;

verus! {

/// The byte classes the matchers scan over.
#[derive(Clone, Copy, PartialEq, Eq, Structural, Debug)]
pub enum ByteClass {
    /// ASCII decimal digit `0-9`.
    Digit,
    /// ASCII hex digit `0-9a-fA-F`.
    HexDigit,
    /// ASCII letter `a-zA-Z`.
    Letter,
    /// Word byte `a-zA-Z0-9_`.
    Word,
    /// Byte allowed in the local part of an e-mail address:
    /// `a-zA-Z0-9._%+-`.
    EmailLocal,
    /// Byte allowed in the domain of an e-mail address: `a-zA-Z0-9.-`.
    EmailDomain,
    /// Byte allowed in a web-token segment: `a-zA-Z0-9_-`.
    TokenSeg,
}

pub open spec fn is_digit(b: u8) -> bool {
    48 <= b <= 57
}

pub open spec fn is_hex_digit(b: u8) -> bool {
    is_digit(b) || (97 <= b <= 102) || (65 <= b <= 70)
}

pub open spec fn is_letter(b: u8) -> bool {
    (97 <= b <= 122) || (65 <= b <= 90)
}

pub open spec fn is_word_byte(b: u8) -> bool {
    is_letter(b) || is_digit(b) || b == 95
}

pub open spec fn in_class(b: u8, c: ByteClass) -> bool {
    match c {
        ByteClass::Digit => is_digit(b),
        ByteClass::HexDigit => is_hex_digit(b),
        ByteClass::Letter => is_letter(b),
        ByteClass::Word => is_word_byte(b),
        ByteClass::EmailLocal => is_word_byte(b) || b == 46 || b == 37 || b == 43 || b == 45,
        ByteClass::EmailDomain => is_letter(b) || is_digit(b) || b == 46 || b == 45,
        ByteClass::TokenSeg => is_word_byte(b) || b == 45,
    }
}

/// Whether position `i` of `s` exists and holds a word byte.
pub open spec fn word_at(s: Seq<u8>, i: int) -> bool {
    0 <= i < s.len() && is_word_byte(s[i])
}

/// Word boundary between positions `i - 1` and `i`: exactly one side is a
/// word byte; the edges of the text count as non-word.
pub open spec fn boundary(s: Seq<u8>, i: int) -> bool {
    word_at(s, i) != word_at(s, i - 1)
}

/// Length of the maximal run of bytes of class `c` starting at `i`.
pub open spec fn run_len(s: Seq<u8>, c: ByteClass, i: int) -> int
    decreases s.len() - i when i <= s.len()
{
    if i < 0 || i >= s.len() || !in_class(s[i], c) {
        0
    } else {
        1 + run_len(s, c, i + 1)
    }
}

/// A maximal run is no longer than the rest of the text.
pub proof fn lemma_run_len_bounds(s: Seq<u8>, c: ByteClass, i: int)
    requires
        i <= s.len(),
    ensures
        0 <= run_len(s, c, i),
        i >= 0 ==> i + run_len(s, c, i) <= s.len(),
    decreases s.len() - i,
{
    if !(i < 0 || i >= s.len() || !in_class(s[i], c)) {
        lemma_run_len_bounds(s, c, i + 1);
    }
}

/// Every byte of a maximal run is in the class, and the byte just past the
/// run (if any) is not.
pub proof fn lemma_run_len_content(s: Seq<u8>, c: ByteClass, i: int)
    requires
        0 <= i <= s.len(),
    ensures
        forall|k: int| i <= k < i + run_len(s, c, i) ==> in_class(#[trigger] s[k], c),
        i + run_len(s, c, i) < s.len() ==> !in_class(s[i + run_len(s, c, i)], c),
    decreases s.len() - i,
{
    lemma_run_len_bounds(s, c, i);
    if !(i >= s.len() || !in_class(s[i], c)) {
        lemma_run_len_content(s, c, i + 1);
    }
}

/// A run that covers `[i, j)` with a non-class byte (or the end of the text)
/// at `j` is the maximal run.
pub proof fn lemma_run_len_exact(s: Seq<u8>, c: ByteClass, i: int, j: int)
    requires
        0 <= i <= j <= s.len(),
        forall|k: int| i <= k < j ==> in_class(#[trigger] s[k], c),
        j == s.len() || !in_class(s[j], c),
    ensures
        run_len(s, c, i) == j - i,
    decreases j - i,
{
    if i < j {
        lemma_run_len_exact(s, c, i + 1, j);
    }
}

/// Whether `b` belongs to class `c`.
pub fn byte_in_class(b: u8, c: ByteClass) -> (r: bool)
    ensures
        r == in_class(b, c),
{
    match c {
        ByteClass::Digit => 48 <= b && b <= 57,
        ByteClass::HexDigit => (48 <= b && b <= 57) || (97 <= b && b <= 102) || (65 <= b && b <= 70),
        ByteClass::Letter => (97 <= b && b <= 122) || (65 <= b && b <= 90),
        ByteClass::Word => (97 <= b && b <= 122) || (65 <= b && b <= 90) || (48 <= b && b <= 57)
            || b == 95,
        ByteClass::EmailLocal => (97 <= b && b <= 122) || (65 <= b && b <= 90)
            || (48 <= b && b <= 57) || b == 95 || b == 46 || b == 37 || b == 43 || b == 45,
        ByteClass::EmailDomain => (97 <= b && b <= 122) || (65 <= b && b <= 90)
            || (48 <= b && b <= 57) || b == 46 || b == 45,
        ByteClass::TokenSeg => (97 <= b && b <= 122) || (65 <= b && b <= 90)
            || (48 <= b && b <= 57) || b == 95 || b == 45,
    }
}

/// Length of the maximal run of class-`c` bytes starting at `i`.
pub fn run_from(s: &Vec<u8>, c: ByteClass, i: usize) -> (n: usize)
    requires
        i <= s.len(),
    ensures
        n == run_len(s@, c, i as int),
        i + n <= s.len(),
{
    let mut j: usize = i;
    loop
        invariant
            i <= j <= s.len(),
            forall|k: int| i <= k < j ==> in_class(#[trigger] s@[k], c),
        ensures
            i <= j <= s.len(),
            forall|k: int| i <= k < j ==> in_class(#[trigger] s@[k], c),
            j == s.len() || !in_class(s@[j as int], c),
        decreases s.len() - j,
    {
        if j == s.len() {
            break;
        }
        if !byte_in_class(s[j], c) {
            break;
        }
        j = j + 1;
    }
    proof {
        lemma_run_len_exact(s@, c, i as int, j as int);
    }
    j - i
}

/// Whether a word boundary sits just before position `i`.
pub fn boundary_at(s: &Vec<u8>, i: usize) -> (r: bool)
    requires
        i <= s.len(),
    ensures
        r == boundary(s@, i as int),
{
    let here = i < s.len() && byte_in_class(s[i], ByteClass::Word);
    let before = i > 0 && byte_in_class(s[i - 1], ByteClass::Word);
    here != before
}

} // verus!
