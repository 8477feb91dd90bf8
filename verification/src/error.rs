//! The error taxonomy of the library. Every failure is fail-fast: the first
//! error aborts the whole classification or compilation and reaches the
//! caller unchanged.

use vstd::prelude::*;

verus! {

/// An error raised while classifying or compiling a tag query.
#[derive(Clone, Debug, PartialEq, Eq)]
pub enum Error {
    /// The raw-key-to-tag-name mapping failed; carries the offending key.
    Classification(String),
    /// A semantic rule was violated by a classified query; carries the
    /// offending tag name in raw form.
    Validation(String),
    /// An encoder operation failed; carries the encoder's own message, which
    /// the compiler propagates verbatim.
    Encoding(String),
}

} // verus!
