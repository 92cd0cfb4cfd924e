//! How full TurboQuant splits its bit budget between the two stages.
//!
//! | Variant  | Description                                   |
//! |----------|-----------------------------------------------|
//! | **MSE**  | All `b` bits go to Lloyd-Max PolarQuant        |
//! | **Prod** | `(b-1)`-bit PolarQuant + 1-bit QJL correction |
//!
//! The Prod variant needs at least two bits for its PolarQuant stage, so it
//! exists only from `b = 3` on; below that, compression falls back to MSE.
use vstd::prelude::*;

verus! {

/// Offset of the Prod variant's PolarQuant seed from the base seed.
pub const PROD_POLAR_SEED_OFFSET: u64 = 0x1111;

/// Offset of the QJL rotation's seed from the base seed.
pub const QJL_SEED_OFFSET: u64 = 1;

/// Parameters of the Prod variant's two stages.
#[derive(Clone, Copy, Debug, PartialEq, Eq)]
pub struct ProdStage {
    /// Bit width of the Stage-1 PolarQuant quantizer.
    pub polar_bits: u8,
    /// Seed of the Stage-1 PolarQuant rotation.
    pub polar_seed: u64,
    /// Seed of the Stage-2 QJL rotation.
    pub qjl_seed: u64,
}

/// The Prod variant's stages for a `bits`-bit budget and base `seed`:
/// `bits - 1` bits of PolarQuant and a QJL sketch, with seeds derived from
/// `seed` (wrapping); none when `bits` is below 3.
pub fn prod_stage(bits: u8, seed: u64) -> (r: Option<ProdStage>)
    ensures
        r is Some <==> bits >= 3,
        r matches Some(p) ==> p.polar_bits == bits - 1 && p.polar_seed
            == vstd::wrapping::u64_specs::wrapping_add(seed, PROD_POLAR_SEED_OFFSET) && p.qjl_seed
            == vstd::wrapping::u64_specs::wrapping_add(seed, QJL_SEED_OFFSET),
{
    if bits >= 3 {
        Some(
            ProdStage {
                polar_bits: bits - 1,
                polar_seed: seed.wrapping_add(PROD_POLAR_SEED_OFFSET),
                qjl_seed: seed.wrapping_add(QJL_SEED_OFFSET),
            },
        )
    } else {
        None
    }
}

} // verus!
