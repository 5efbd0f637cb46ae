//! The typed error values that every decoder in this crate reports
//! instead of panicking on malformed input.

use vstd::prelude::*;

verus! {

/// One decode failure, recoverable by the caller.
///
/// Each variant names the condition that stopped the decode; the
/// variants with fields carry what a caller needs to report the
/// failure (the cursor offset at which it happened, the unexpected
/// byte, and so on).
#[derive(Debug, Clone, Copy, PartialEq, Eq, Structural)]
pub enum DecodeError {
    /// A read ran past the end of the buffer: `expected` bytes were
    /// requested at position `offset`.
    TruncatedInput { offset: u64, expected: u64 },
    /// A TIFF stream did not start with `II`/`MM`, or its magic
    /// number was not 42.
    BadMagic,
    /// A JPEG marker's lead byte, read at `offset`, was not `0xFF`.
    UnexpectedMarker { offset: u64, byte: u8 },
    /// A TIFF entry declared a value type outside the twelve known ones.
    UnrecognizedValueType { value_type: u16 },
    /// A semantic projection expected a differently typed entry value.
    TypeMismatch,
    /// A semantic projection expected a different number of values.
    ArityMismatch,
    /// A box decoder met a sub-box of a type not valid in its context.
    UnexpectedChildType,
    /// An `iloc` nibble-coded field width was not one of 0, 4 or 8.
    FieldWidthOutOfRange { width: u8 },
    /// A chain of directory offsets revisited a position and can
    /// never reach its end marker.
    CyclicStructure,
}

} // verus!
