//! Errors reported by every TurboQuant component.
use vstd::prelude::*;

verus! {

/// Everything that can go wrong in TurboQuant.
#[derive(Debug, Clone, PartialEq, Eq)]
pub enum TurboQuantError {
    /// The dimension is not a power of two.
    DimensionNotPowerOfTwo(usize),
    /// The bit width is not one of 2, 3 or 4.
    UnsupportedBitWidth { bits: u8 },
    /// A vector does not have the expected dimension.
    DimensionMismatch { expected: usize, got: usize },
    /// The input is empty.
    EmptyInput,
    /// The GPU could not be initialised.
    GpuInitFailed { reason: String },
    /// A GPU buffer could not be allocated.
    GpuAllocFailed { size: usize, reason: String },
    /// A GPU kernel could not be launched.
    GpuKernelFailed { reason: String },
}

/// Result type of the crate.
pub type Result<T> = core::result::Result<T, TurboQuantError>;

} // verus!
