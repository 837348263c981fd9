//! Redaction of sensitive substrings (IP addresses, e-mail addresses, UUIDs,
//! hex digests, JSON web tokens) from single lines of text.
//!
//! The library is split along the design's three components:
//! - [`patterns`]: the fixed set of lexical shapes and the registry that
//!   holds them in their documented application order;
//! - [`engine`]: the substitution engine that rewrites a line by replacing
//!   every match of every registered pattern with its redaction marker;
//! - [`boundary`]: the adapter that validates possibly-absent, possibly
//!   malformed byte input and turns it into either a redacted line or the
//!   failure sentinel (`None`).
//!
//! All text is handled as bytes; the shapes recognized here are pure ASCII,
//! and [`encoding`] provides the UTF-8 validity check the boundary requires.

pub mod classes;
pub mod patterns;
pub mod engine;
pub mod encoding;
pub mod boundary;
pub mod laws;
