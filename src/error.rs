use vstd::prelude::*;

verus! {

/// Why witness assignment for a region was refused. Each is an input error
/// that aborts witness generation for the proof at hand.
#[derive(Clone, Copy, Debug, PartialEq, Eq, Structural)]
pub enum AssignError {
    /// The region reaches past the rows that were handed in.
    RowMissing,
    /// A row is narrower than the fixed layout of its row type.
    RowTooShort,
    /// A byte slice is shorter than the length that its RLP header declares.
    Truncated,
    /// An RLP header byte outside the forms that the layout admits.
    UnsupportedHeader,
    /// A leaf key that is empty, too long, or has no leaf hex-prefix flag.
    BadKeyEncoding,
    /// A load from a memory slot that no store has filled.
    MissingStore,
}

} // verus!
