//! The error taxonomy shared by every decoder and encoder in the crate.
use vstd::prelude::*;

verus! {

/// Why a read or write of a binary container failed.
///
/// Every variant carries the plain values a caller needs to report the
/// failure: the offending offset, the expected and actual magic, and so on.
#[derive(Clone, Copy, Debug, PartialEq, Eq, Structural)]
pub enum Xc3Error {
    /// A declared magic number did not match the bytes on disk.
    MagicMismatch { expected: u32, actual: u32, offset: usize },
    /// A resolved offset points outside the file.
    OffsetOutOfBounds { offset: usize, file_size: usize },
    /// A read asked for more bytes than remain.
    UnexpectedEof { requested: usize, available: usize },
    /// A scalar field holds none of its enumerated values.
    EnumOutOfRange { value: u32 },
    /// A decompressed stream did not produce the declared number of bytes.
    DecompressionFailure { declared: usize, produced: usize },
    /// A swizzled payload is smaller than the surface description requires.
    SwizzleSizeMismatch { expected_size: usize, actual_size: usize },
    /// A vertex attribute type code outside the supported set.
    AttributeUnsupported { type_code: u32 },
    /// A structural invariant of the in-memory model does not hold.
    InvariantViolation,
}

} // verus!
