//! Terms of a Fibonacci-style sequence, and bounds-checked access into a
//! fixed collection driven by a textual index.
//!
//! The sequence generator defines both of its first two terms as 1 and
//! reports overflow instead of wrapping. The accessor trims and parses the
//! index text, validates it against the collection's length, and only then
//! retrieves the element, so an invalid index is an error value rather than
//! a panic.

use vstd::prelude::*;

pub mod access;
pub mod fib;
pub mod funcs;

verus! {

/// Every failure the library reports.
#[derive(Clone, Copy, Debug, PartialEq, Eq, Structural)]
pub enum Error {
    /// The index text, once trimmed, is empty, holds a non-digit character,
    /// or denotes a number too large for `usize`.
    ParseError,
    /// The parsed index `index` falls outside `[0, len)` for a collection of
    /// length `len`.
    IndexOutOfRange { index: usize, len: usize },
    /// The next sequence term would exceed `u64::MAX`.
    ArithmeticOverflow,
}

} // verus!
