//! UTF-8 validity, as the boundary adapter requires of raw input bytes.
//!
//! A byte sequence is valid when it parses as a sequence of UTF-8 encoded
//! scalar values: one byte below `0x80`; a two-byte form `C2-DF` then a
//! continuation byte; a three-byte form with the usual restrictions that
//! exclude overlong encodings (`E0 A0-BF`) and surrogates (`ED 80-9F`); or
//! a four-byte form restricted to the scalar range (`F0 90-BF` through
//! `F4 80-8F`).

use vstd::prelude::*;

verus! {

/// Whether `b` is a continuation byte (`80-BF`).
pub open spec fn is_continuation(b: u8) -> bool {
    128 <= b <= 191
}

/// The length of the well-formed UTF-8 sequence beginning at `i`, or `0`
/// if no well-formed sequence begins there.
pub open spec fn utf8_step(s: Seq<u8>, i: int) -> int {
    if !(0 <= i < s.len()) {
        0
    } else {
        let b0 = s[i];
        if b0 < 128 {
            1
        } else if 194 <= b0 <= 223 && i + 2 <= s.len() && is_continuation(s[i + 1]) {
            2
        } else if b0 == 224 && i + 3 <= s.len() && 160 <= s[i + 1] <= 191 && is_continuation(
            s[i + 2],
        ) {
            3
        } else if (225 <= b0 <= 236 || b0 == 238 || b0 == 239) && i + 3 <= s.len()
            && is_continuation(s[i + 1]) && is_continuation(s[i + 2]) {
            3
        } else if b0 == 237 && i + 3 <= s.len() && 128 <= s[i + 1] <= 159 && is_continuation(
            s[i + 2],
        ) {
            3
        } else if b0 == 240 && i + 4 <= s.len() && 144 <= s[i + 1] <= 191 && is_continuation(
            s[i + 2],
        ) && is_continuation(s[i + 3]) {
            4
        } else if 241 <= b0 <= 243 && i + 4 <= s.len() && is_continuation(s[i + 1])
            && is_continuation(s[i + 2]) && is_continuation(s[i + 3]) {
            4
        } else if b0 == 244 && i + 4 <= s.len() && 128 <= s[i + 1] <= 143 && is_continuation(
            s[i + 2],
        ) && is_continuation(s[i + 3]) {
            4
        } else {
            0
        }
    }
}

/// Whether `s[i..]` is a sequence of well-formed UTF-8 sequences.
pub open spec fn valid_utf8_from(s: Seq<u8>, i: int) -> bool
    decreases s.len() - i,
    when 0 <= i <= s.len()
{
    if i >= s.len() {
        true
    } else {
        utf8_step(s, i) > 0 && valid_utf8_from(s, i + utf8_step(s, i))
    }
}

/// Whether `s` decodes as valid UTF-8 text.
pub open spec fn valid_utf8(s: Seq<u8>) -> bool {
    valid_utf8_from(s, 0)
}

/// The length of the well-formed UTF-8 sequence beginning at `i`, or `0`.
fn step_at(s: &Vec<u8>, i: usize) -> (n: usize)
    requires
        i < s.len(),
    ensures
        n == utf8_step(s@, i as int),
        i + n <= s.len(),
{
    let b0 = s[i];
    if b0 < 128 {
        return 1;
    }
    if 194 <= b0 && b0 <= 223 {
        if s.len() - i >= 2 && 128 <= s[i + 1] && s[i + 1] <= 191 {
            return 2;
        }
        return 0;
    }
    if b0 == 224 {
        if s.len() - i >= 3 && 160 <= s[i + 1] && s[i + 1] <= 191 && 128 <= s[i + 2] && s[i + 2]
            <= 191 {
            return 3;
        }
        return 0;
    }
    if (225 <= b0 && b0 <= 236) || b0 == 238 || b0 == 239 {
        if s.len() - i >= 3 && 128 <= s[i + 1] && s[i + 1] <= 191 && 128 <= s[i + 2] && s[i + 2]
            <= 191 {
            return 3;
        }
        return 0;
    }
    if b0 == 237 {
        if s.len() - i >= 3 && 128 <= s[i + 1] && s[i + 1] <= 159 && 128 <= s[i + 2] && s[i + 2]
            <= 191 {
            return 3;
        }
        return 0;
    }
    if b0 == 240 {
        if s.len() - i >= 4 && 144 <= s[i + 1] && s[i + 1] <= 191 && 128 <= s[i + 2] && s[i + 2]
            <= 191 && 128 <= s[i + 3] && s[i + 3] <= 191 {
            return 4;
        }
        return 0;
    }
    if 241 <= b0 && b0 <= 243 {
        if s.len() - i >= 4 && 128 <= s[i + 1] && s[i + 1] <= 191 && 128 <= s[i + 2] && s[i + 2]
            <= 191 && 128 <= s[i + 3] && s[i + 3] <= 191 {
            return 4;
        }
        return 0;
    }
    if b0 == 244 {
        if s.len() - i >= 4 && 128 <= s[i + 1] && s[i + 1] <= 143 && 128 <= s[i + 2] && s[i + 2]
            <= 191 && 128 <= s[i + 3] && s[i + 3] <= 191 {
            return 4;
        }
        return 0;
    }
    0
}

/// Whether `s` decodes as valid UTF-8 text.
pub fn validate_utf8(s: &Vec<u8>) -> (r: bool)
    ensures
        r == valid_utf8(s@),
{
    let mut i: usize = 0;
    while i < s.len()
        invariant
            i <= s.len(),
            valid_utf8(s@) == valid_utf8_from(s@, i as int),
        decreases s.len() - i,
    {
        let n = step_at(s, i);
        if n == 0 {
            return false;
        }
        i = i + n;
    }
    true
}

} // verus!
