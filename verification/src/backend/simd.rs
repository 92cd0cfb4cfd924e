//! SIMD backends and the runtime choice between them.
//!
//! | Tier | Target | Width |
//! |---|---|---|
//! | `Avx512Backend` | x86_64 + AVX-512F | 16 f32/cycle |
//! | `SimdBackend` | x86_64 + AVX2 (+FMA), or aarch64 + NEON | 8 or 4 f32/cycle |
//! | `ScalarBackend` | all | 1 f32/cycle |
use vstd::prelude::*;

use crate::error::{Result, TurboQuantError};

use super::{check_power_of_two, is_power_of_two, ScalarBackend};

verus! {

/// AVX2 / NEON SIMD backend.
#[derive(Clone, Copy, Debug, Default)]
pub struct SimdBackend;

/// AVX-512F backend.
#[derive(Clone, Copy, Debug, Default)]
pub struct Avx512Backend;

/// The CPU features that decide the backend tier, as detected on the
/// running machine (`avx512f` and `avx2` on x86_64, `neon` on aarch64).
#[derive(Clone, Copy, Debug, Default, PartialEq, Eq)]
pub struct CpuFeatures {
    pub avx512f: bool,
    pub avx2: bool,
    pub neon: bool,
}

/// Runtime-selected backend: one of the three tiers.
#[derive(Clone, Copy, Debug)]
pub enum RuntimeBackend {
    /// Pure scalar — no SIMD.
    Scalar(ScalarBackend),
    /// AVX2 / FMA (x86_64) or NEON (aarch64).
    Simd(SimdBackend),
    /// AVX-512F.
    Avx512(Avx512Backend),
}

impl SimdBackend {
    /// Accepts exactly the power-of-two dimensions.
    pub fn validate_dimension(&self, dim: usize) -> (r: Result<()>)
        ensures
            r is Ok <==> is_power_of_two(dim as nat),
            !is_power_of_two(dim as nat) ==> r == Err::<(), TurboQuantError>(
                TurboQuantError::DimensionNotPowerOfTwo(dim),
            ),
    {
        check_power_of_two(dim)
    }
}

impl Avx512Backend {
    /// Accepts exactly the power-of-two dimensions.
    pub fn validate_dimension(&self, dim: usize) -> (r: Result<()>)
        ensures
            r is Ok <==> is_power_of_two(dim as nat),
            !is_power_of_two(dim as nat) ==> r == Err::<(), TurboQuantError>(
                TurboQuantError::DimensionNotPowerOfTwo(dim),
            ),
    {
        check_power_of_two(dim)
    }
}

impl RuntimeBackend {
    /// The fastest tier that `features` allow: AVX-512F first, then AVX2 or
    /// NEON, then scalar.
    pub fn best_available(features: CpuFeatures) -> (r: Self)
        ensures
            features.avx512f ==> r is Avx512,
            !features.avx512f && (features.avx2 || features.neon) ==> r is Simd,
            !features.avx512f && !features.avx2 && !features.neon ==> r is Scalar,
    {
        if features.avx512f {
            return RuntimeBackend::Avx512(Avx512Backend);
        }
        if features.avx2 {
            return RuntimeBackend::Simd(SimdBackend);
        }
        if features.neon {
            return RuntimeBackend::Simd(SimdBackend);
        }
        RuntimeBackend::Scalar(ScalarBackend)
    }

    /// A human-readable description of the selected tier.
    pub fn name(&self) -> (r: &'static str)
        ensures
            self is Scalar ==> r@ == "scalar"@,
            self is Simd ==> r@ == "simd (avx2/fma/neon)"@,
            self is Avx512 ==> r@ == "avx512f"@,
    {
        match self {
            RuntimeBackend::Scalar(_) => "scalar",
            RuntimeBackend::Simd(_) => "simd (avx2/fma/neon)",
            RuntimeBackend::Avx512(_) => "avx512f",
        }
    }

    /// Accepts exactly the power-of-two dimensions, whatever the tier.
    pub fn validate_dimension(&self, dim: usize) -> (r: Result<()>)
        ensures
            r is Ok <==> is_power_of_two(dim as nat),
            !is_power_of_two(dim as nat) ==> r == Err::<(), TurboQuantError>(
                TurboQuantError::DimensionNotPowerOfTwo(dim),
            ),
    {
        match self {
            RuntimeBackend::Scalar(bk) => bk.validate_dimension(dim),
            RuntimeBackend::Simd(bk) => bk.validate_dimension(dim),
            RuntimeBackend::Avx512(bk) => bk.validate_dimension(dim),
        }
    }
}

} // verus!
