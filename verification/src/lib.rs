//! TurboQuant: compressed KV-cache building blocks.
//!
//! TurboQuant compresses the key/value cache of attention to a few bits per
//! coordinate: a randomized Hadamard rotation followed by Lloyd-Max scalar
//! quantization (PolarQuant), optionally corrected by a 1-bit QJL sketch of
//! the residual.
//!
//! This crate holds the integer side of TurboQuant, proved with Verus:
//! bit-packing of quantization indices, the seeded sign pattern of the
//! rotation and its sign flip, the sign-bit sketch of QJL, backend selection,
//! the split of the bit budget between the two stages, and the shape checks
//! shared by every compressor.

pub mod backend;
pub mod bitpack;
pub mod error;
pub mod qjl;
pub mod rotation;
pub mod shape;
pub mod sizes;
pub mod turboquant;

pub use backend::{Avx512Backend, CpuFeatures, DefaultBackend, RuntimeBackend, ScalarBackend, SimdBackend};
pub use error::{Result, TurboQuantError};
pub use qjl::{Qjl, QjlVector};
pub use rotation::Rotation;
