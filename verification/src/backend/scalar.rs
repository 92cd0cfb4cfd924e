//! Scalar (non-vectorized) backend.
use vstd::prelude::*;

use crate::error::{Result, TurboQuantError};

use super::{check_power_of_two, is_power_of_two};

verus! {

/// Scalar compute backend — no SIMD or GPU acceleration.
///
/// The backend used when no acceleration is asked for.
#[derive(Clone, Copy, Debug, Default)]
pub struct ScalarBackend;

impl ScalarBackend {
    /// Accepts exactly the power-of-two dimensions.
    pub fn validate_dimension(&self, dim: usize) -> (r: Result<()>)
        ensures
            r is Ok <==> is_power_of_two(dim as nat),
            !is_power_of_two(dim as nat) ==> r == Err::<(), TurboQuantError>(
                TurboQuantError::DimensionNotPowerOfTwo(dim),
            ),
    {
        check_power_of_two(dim)
    }
}

} // verus!
