//! Quantized Johnson-Lindenstrauss (QJL) sketch — Stage 2 of TurboQuant.
//!
//! QJL projects the quantization residual r with its own randomized Hadamard
//! rotation S and keeps one bit per coordinate: the sign of (S r)ᵢ.  The
//! inner product ⟨q, r⟩ is then estimated as √(π/(2d)) · ⟨S q, b_r⟩.
//!
//! This module holds the rotation of the sketch and the sign bits: how the
//! signs are packed, eight to a byte, and read back.
use vstd::prelude::*;

use crate::backend::is_power_of_two;
use vstd::arithmetic::power2::{lemma2_to64, pow2};
use crate::error::{Result, TurboQuantError};
use crate::rotation::{rotation_signs, sign_masks_of, Rotation};

verus! {

/// Bit `i` of the little-endian bit string `bits`: bit `i % 8` of byte
/// `i / 8`.
pub open spec fn sign_bit(bits: Seq<u8>, i: int) -> bool {
    (bits[i / 8] >> (i % 8) as u8) & 1u8 == 1u8
}

/// A 1-bit QJL-compressed vector (sign sketch of the JL projection).
#[derive(Debug, Clone)]
pub struct QjlVector {
    /// Bit-packed signs: bit i = 1 if (S·v)_i ≥ 0.
    pub bits: Vec<u8>,
    /// Dimension of the original vector.
    pub dim: usize,
}

/// The weight `2^j` that sign `i` gives its byte when it is non-negative.
pub open spec fn sign_weight(nonneg: Seq<bool>, i: int, w: int) -> int {
    if 0 <= i < nonneg.len() && nonneg[i] {
        w
    } else {
        0
    }
}

/// The value of byte `b` of the sketch of `nonneg`: signs `8b` to `8b + 7`
/// as binary digits, least significant first.
pub open spec fn sign_byte(nonneg: Seq<bool>, b: int) -> int {
    sign_weight(nonneg, 8 * b, 1) + sign_weight(nonneg, 8 * b + 1, 2) + sign_weight(
        nonneg,
        8 * b + 2,
        4,
    ) + sign_weight(nonneg, 8 * b + 3, 8) + sign_weight(nonneg, 8 * b + 4, 16) + sign_weight(
        nonneg,
        8 * b + 5,
        32,
    ) + sign_weight(nonneg, 8 * b + 6, 64) + sign_weight(nonneg, 8 * b + 7, 128)
}

proof fn lemma_byte_digits(x: u8)
    by (bit_vector)
    ensures
        x == ((x >> 0u8) & 1u8) + 2 * ((x >> 1u8) & 1u8) + 4 * ((x >> 2u8) & 1u8) + 8 * ((x
            >> 3u8) & 1u8) + 16 * ((x >> 4u8) & 1u8) + 32 * ((x >> 5u8) & 1u8) + 64 * ((x >> 6u8)
            & 1u8) + 128 * ((x >> 7u8) & 1u8),
        (x >> 0u8) & 1u8 <= 1,
        (x >> 1u8) & 1u8 <= 1,
        (x >> 2u8) & 1u8 <= 1,
        (x >> 3u8) & 1u8 <= 1,
        (x >> 4u8) & 1u8 <= 1,
        (x >> 5u8) & 1u8 <= 1,
        (x >> 6u8) & 1u8 <= 1,
        (x >> 7u8) & 1u8 <= 1,
{
}

/// A byte whose eight bits are the signs `8b` to `8b + 7` has the value of
/// those signs as binary digits.
proof fn lemma_byte_of_bits(bits: Seq<u8>, nonneg: Seq<bool>, b: int)
    requires
        0 <= b < bits.len(),
        forall|i: int|
            0 <= i < bits.len() * 8 ==> #[trigger] sign_bit(bits, i) == (i < nonneg.len()
                && nonneg[i]),
    ensures
        bits[b] as int == sign_byte(nonneg, b),
{
    let x = bits[b];
    lemma_byte_digits(x);
    assert forall|j: int| 0 <= j < 8 implies #[trigger] sign_bit(bits, 8 * b + j) == (((x
        >> j as u8) & 1u8) == 1u8) by {
        assert((8 * b + j) / 8 == b);
        assert((8 * b + j) % 8 == j);
    }
    assert(sign_bit(bits, 8 * b) == (((x >> 0u8) & 1u8) == 1u8));
    assert(sign_bit(bits, 8 * b + 1) == (((x >> 1u8) & 1u8) == 1u8));
    assert(sign_bit(bits, 8 * b + 2) == (((x >> 2u8) & 1u8) == 1u8));
    assert(sign_bit(bits, 8 * b + 3) == (((x >> 3u8) & 1u8) == 1u8));
    assert(sign_bit(bits, 8 * b + 4) == (((x >> 4u8) & 1u8) == 1u8));
    assert(sign_bit(bits, 8 * b + 5) == (((x >> 5u8) & 1u8) == 1u8));
    assert(sign_bit(bits, 8 * b + 6) == (((x >> 6u8) & 1u8) == 1u8));
    assert(sign_bit(bits, 8 * b + 7) == (((x >> 7u8) & 1u8) == 1u8));
}

proof fn lemma_bit_is_digit(x: u8, p: u8)
    requires
        p < 8,
    ensures
        ((x >> p) & 1u8 == 1u8) == ((x as int / pow2(p as nat) as int) % 2 == 1),
{
    lemma_pow2_shr(x, p);
    assert((x >> p) & 1u8 == (x >> p) % 2) by (bit_vector);
}

proof fn lemma_pow2_shr(x: u8, p: u8)
    requires
        p < 8,
    ensures
        (x >> p) as int == x as int / pow2(p as nat) as int,
{
    lemma2_to64();
    assert(x >> 0u8 == x / 1 && x >> 1u8 == x / 2 && x >> 2u8 == x / 4 && x >> 3u8 == x / 8
        && x >> 4u8 == x / 16 && x >> 5u8 == x / 32 && x >> 6u8 == x / 64 && x >> 7u8 == x / 128)
        by (bit_vector);
}

proof fn lemma_set_bit(x: u8, p: u8, q: u8)
    by (bit_vector)
    requires
        p < 8,
        q < 8,
    ensures
        ((x | (1u8 << p)) >> q) & 1u8 == (if q == p {
            1u8
        } else {
            (x >> q) & 1u8
        }),
{
}

proof fn lemma_zero_bit(q: u8)
    by (bit_vector)
    ensures
        (0u8 >> q) & 1u8 == 0u8,
{
}

impl Default for QjlVector {
    /// The empty placeholder sketch: no bits, dimension 0.
    fn default() -> (r: Self)
        ensures
            r.bits@.len() == 0,
            r.dim == 0,
    {
        QjlVector { bits: Vec::new(), dim: 0 }
    }
}

impl QjlVector {
    /// The sketch of a vector whose projected coordinates have the signs
    /// `nonneg` (`true` where the coordinate is ≥ 0): bit `i` is set exactly
    /// where `nonneg[i]` holds, in `ceil(len / 8)` bytes, padding bits clear.
    pub fn from_signs(nonneg: &[bool]) -> (r: QjlVector)
        ensures
            r.dim == nonneg@.len(),
            r.bits@.len() == (nonneg@.len() + 7) / 8,
            forall|i: int|
                0 <= i < r.bits@.len() * 8 ==> #[trigger] sign_bit(r.bits@, i) == (i
                    < nonneg@.len() && nonneg@[i]),
            forall|b: int|
                0 <= b < r.bits@.len() ==> #[trigger] r.bits@[b] as int == sign_byte(nonneg@, b),
    {
        let dim = nonneg.len();
        let byte_count = dim / 8 + if dim % 8 == 0 {
            0
        } else {
            1
        };
        let mut sign_bits = vec![0u8; byte_count];
        assert forall|j: int| 0 <= j < byte_count * 8 implies !#[trigger] sign_bit(
            sign_bits@,
            j,
        ) by {
            assert(sign_bits@[j / 8] == 0u8);
            lemma_zero_bit((j % 8) as u8);
        }
        let mut i: usize = 0;
        while i < dim
            invariant
                dim == nonneg@.len(),
                byte_count == (dim + 7) / 8,
                sign_bits@.len() == byte_count,
                i <= dim,
                forall|j: int|
                    0 <= j < byte_count * 8 ==> #[trigger] sign_bit(sign_bits@, j) == (j < i
                        && nonneg@[j]),
            decreases dim - i,
        {
            if nonneg[i] {
                let b = i / 8;
                let p: u8 = (i % 8) as u8;
                let old_byte = sign_bits[b];
                let ghost before = sign_bits@;
                sign_bits.set(b, old_byte | (1u8 << p));
                assert forall|j: int| 0 <= j < byte_count * 8 implies #[trigger] sign_bit(
                    sign_bits@,
                    j,
                ) == (j < i + 1 && nonneg@[j]) by {
                    assert(sign_bit(before, j) == (j < i && nonneg@[j]));
                    if j / 8 == b as int {
                        lemma_set_bit(old_byte, p, (j % 8) as u8);
                    } else {
                        assert(sign_bits@[j / 8] == before[j / 8]);
                    }
                }
            }
            i += 1;
        }
        let r = QjlVector { bits: sign_bits, dim };
        proof {
            assert forall|b: int| 0 <= b < r.bits@.len() implies #[trigger] r.bits@[b] as int
                == sign_byte(nonneg@, b) by {
                lemma_byte_of_bits(r.bits@, nonneg@, b);
            }
        }
        r
    }

    /// Sign bit `i`: `true` where the projected coordinate was ≥ 0.
    pub fn sign(&self, i: usize) -> (r: bool)
        requires
            i / 8 < self.bits@.len(),
        ensures
            r == sign_bit(self.bits@, i as int),
            r == ((self.bits@[(i / 8) as int] as int / pow2((i % 8) as nat) as int) % 2 == 1),
    {
        proof {
            lemma_bit_is_digit(self.bits@[(i / 8) as int], (i % 8) as u8);
        }
        let p: u8 = (i % 8) as u8;
        (self.bits[i / 8] >> p) & 1u8 == 1u8
    }

    /// Compressed size in bytes.
    pub fn byte_size(&self) -> (r: usize)
        ensures
            r == self.bits@.len(),
    {
        self.bits.len()
    }

    /// True if this is an empty / placeholder QJL vector.
    pub fn is_empty_sketch(&self) -> (r: bool)
        ensures
            r == (self.bits@.len() == 0),
    {
        self.bits.len() == 0
    }
}

/// 1-bit QJL compressor with its own independent randomized Hadamard rotation.
#[derive(Debug, Clone)]
pub struct Qjl {
    rotation: Rotation,
}

impl Qjl {
    /// The rotation S of the sketch.
    pub closed spec fn rotation_of(&self) -> Rotation {
        self.rotation
    }

    /// A QJL compressor for dimension `dim` (a power of two), whose rotation
    /// is seeded with `seed`.  Use a different seed from the Stage-1 rotation.
    pub fn new(dim: usize, seed: u64) -> (r: Result<Self>)
        ensures
            r is Ok <==> is_power_of_two(dim as nat),
            !is_power_of_two(dim as nat) ==> r == Err::<Self, TurboQuantError>(
                TurboQuantError::DimensionNotPowerOfTwo(dim),
            ),
            r matches Ok(q) ==> q.rotation_of().wf() && q.rotation_of().dim_of() == dim && q.rotation_of().seed_of()
                == seed && q.rotation_of().sign_seq() == rotation_signs(seed, dim as nat)
                && q.rotation_of().mask_seq() == sign_masks_of(q.rotation_of().sign_seq()),
    {
        let rotation = Rotation::new(dim, seed)?;
        Ok(Qjl { rotation })
    }

    /// The dimension of the vectors the sketch compresses.
    pub fn dim(&self) -> (r: usize)
        ensures
            r == self.rotation_of().dim_of(),
    {
        self.rotation.dim()
    }

    /// The rotation S of the sketch.
    pub fn rotation(&self) -> (r: &Rotation)
        ensures
            *r == self.rotation_of(),
    {
        &self.rotation
    }
}

} // verus!
