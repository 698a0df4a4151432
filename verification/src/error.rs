use vstd::prelude::*;

verus! {

/// Everything that can go wrong while locating placeholders or patching
/// header fields. There is no local recovery: each error names a template or
/// configuration authoring bug that must be fixed at its source.
#[derive(Debug)]
pub enum Error {
    /// The sentinel pattern occurs nowhere in the scanned buffer.
    PlaceholderNotFound { name: String },
    /// The sentinel pattern occurs more than once in the scanned buffer.
    AmbiguousPlaceholder { name: String, occurrences: usize },
    /// A value's natural byte width differs from its destination width.
    ValueWidthMismatch { expected: usize, actual: usize },
    /// A computed header value does not fit in its fixed 2-byte field.
    IntegerOverflow { field: String, value: usize },
    /// A placeholder configuration entry could not be decoded.
    ConfigurationError,
}

} // verus!
