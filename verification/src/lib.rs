//! A memory-safe model of a length-prefixed, 16-bit-code-unit string format
//! (the platform "BSTR" convention): a `0u16`-terminated buffer of UTF-16ish
//! code units preceded by an out-of-band byte-length prefix.
//!
//! The crate offers an owned string ([`BString`](bstring::BString)), a
//! borrowed, non-growable view ([`BStr`](bstr::BStr)), conversions from plain
//! text and from raw foreign data, and the literal encoder that turns source
//! text with escape sequences into the packed wire layout.

use vstd::prelude::*;

pub mod args;
pub mod bstr;
pub mod bstring;
pub mod cmp;
pub mod literal;
pub mod packed;
pub mod units;
pub mod utf16;

verus! {

} // verus!
