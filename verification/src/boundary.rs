//! The boundary adapter: validates raw, possibly-absent, possibly
//! malformed input and yields either a redacted line or the failure
//! sentinel.
//!
//! The sentinel is `None`.  Absent input and input that does not decode as
//! UTF-8 text both collapse to the sentinel; valid input always yields the
//! redacted line.  The verified functions here cannot panic, so no
//! internal fault can unwind past the boundary.

use vstd::prelude::*;
use crate::encoding::{valid_utf8, validate_utf8};
use crate::engine::{sanitize, sanitize_seq};
use crate::patterns::Registry;

verus! {

/// Redacts `raw`, or returns the sentinel (`None`) when `raw` is absent or
/// is not valid UTF-8 text.  On success the returned allocation is a new,
/// caller-owned copy holding the redacted line.
pub fn sanitize_line(raw: Option<&Vec<u8>>, reg: &Registry) -> (r: Option<Vec<u8>>)
    ensures
        raw is None ==> r is None,
        raw matches Some(b) ==> (valid_utf8(b@) <==> r is Some),
        raw matches Some(b) ==> (valid_utf8(b@) ==> (r matches Some(out) && out@
            == sanitize_seq(b@))),
{
    match raw {
        None => None,
        Some(line) => {
            if !validate_utf8(line) {
                None
            } else {
                Some(sanitize(line, reg))
            }
        },
    }
}

} // verus!
