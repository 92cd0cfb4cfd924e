//! Dimension checks shared by the compressors.
use vstd::prelude::*;

use crate::error::{Result, TurboQuantError};

verus! {

/// Succeeds when `got` is the `expected` dimension, else reports the
/// mismatch.
pub fn check_dim(expected: usize, got: usize) -> (r: Result<()>)
    ensures
        r is Ok <==> got == expected,
        got != expected ==> r == Err::<(), TurboQuantError>(
            TurboQuantError::DimensionMismatch { expected, got },
        ),
{
    if got != expected {
        Err(TurboQuantError::DimensionMismatch { expected, got })
    } else {
        Ok(())
    }
}

/// Succeeds when every length in `lens` is `expected`; otherwise reports
/// the first length that is not.
pub fn check_dims(expected: usize, lens: &[usize]) -> (r: Result<()>)
    ensures
        r is Ok <==> (forall|i: int| 0 <= i < lens@.len() ==> #[trigger] lens@[i] == expected),
        r is Err ==> exists|k: int|
            0 <= k < lens@.len() && lens@[k] != expected && (forall|j: int|
                0 <= j < k ==> #[trigger] lens@[j] == expected) && r == Err::<(), TurboQuantError>(
                TurboQuantError::DimensionMismatch { expected, got: lens@[k] },
            ),
{
    let mut i: usize = 0;
    while i < lens.len()
        invariant
            i <= lens@.len(),
            forall|j: int| 0 <= j < i ==> #[trigger] lens@[j] == expected,
        decreases lens@.len() - i,
    {
        if lens[i] != expected {
            let r = Err(TurboQuantError::DimensionMismatch { expected, got: lens[i] });
            assert(lens@[i as int] != expected);
            return r;
        }
        i += 1;
    }
    Ok(())
}

} // verus!
