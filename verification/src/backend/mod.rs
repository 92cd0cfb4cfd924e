//! Compute backends.
//!
//! A backend runs the numeric kernels of TurboQuant (Hadamard transform, dot
//! product, sign flips).  This module holds what every backend shares and
//! what is decided on integers: which dimensions a backend accepts, which
//! tier the CPU supports, and the sign flip itself, which works on the bit
//! patterns of the values.
use vstd::prelude::*;

use crate::error::{Result, TurboQuantError};
use vstd::arithmetic::power::{lemma_pow_positive, pow};
use vstd::arithmetic::power2::{is_pow2, is_pow2_equiv, is_pow2_exists, pow2};

mod gpu;
mod scalar;
mod simd;

pub use gpu::{classify_gpu_init_error, GpuInitCause};
pub use scalar::ScalarBackend;
pub use simd::{Avx512Backend, CpuFeatures, RuntimeBackend, SimdBackend};

verus! {

/// The backend used when none is named.
pub type DefaultBackend = ScalarBackend;

/// `n` is a power of two: `n == 2^k` for some `k`.
pub open spec fn is_power_of_two(n: nat) -> bool {
    exists|k: nat| #[trigger] pow2(k) == n
}

proof fn lemma_odd_bits(n: usize)
    by (bit_vector)
    requires
        n > 1,
        n % 2 == 1,
    ensures
        n & ((n - 1) as usize) != 0,
{
}

proof fn lemma_even_bits(n: usize)
    by (bit_vector)
    requires
        n > 1,
        n % 2 == 0,
    ensures
        (n & ((n - 1) as usize) == 0) == ((n / 2) & ((n / 2 - 1) as usize) == 0),
{
}

/// The bit trick against vstd's recursive characterisation.
proof fn lemma_bits_is_pow2(n: usize)
    ensures
        (n != 0 && n & ((n - 1) as usize) == 0) == is_pow2(n as int),
    decreases n,
{
    reveal(is_pow2);
    if n == 0 {
    } else if n == 1 {
        assert(1usize & 0usize == 0) by (bit_vector);
    } else if n % 2 == 1 {
        lemma_odd_bits(n);
    } else {
        lemma_even_bits(n);
        lemma_bits_is_pow2(n / 2);
    }
}

proof fn lemma_power_of_two_bits(n: usize)
    ensures
        (n != 0 && n & ((n - 1) as usize) == 0) == is_power_of_two(n as nat),
{
    lemma_bits_is_pow2(n);
    is_pow2_equiv(n as int);
    if is_pow2_exists(n as int) {
        let i = choose|i: nat| pow(2, i) == n as int;
        assert(pow2(i) == n as nat);
    }
    if is_power_of_two(n as nat) {
        let k = choose|k: nat| #[trigger] pow2(k) == n as nat;
        lemma_pow_positive(2, k);
        assert(pow(2, k) == n as int);
    }
}

/// Whether `n` is a power of two.
pub fn is_power_of_two_usize(n: usize) -> (r: bool)
    ensures
        r == is_power_of_two(n as nat),
{
    proof {
        lemma_power_of_two_bits(n);
    }
    n != 0 && (n & (n - 1)) == 0
}

/// Accepts exactly the power-of-two dimensions; any other is
/// `DimensionNotPowerOfTwo(dim)`.
pub fn check_power_of_two(dim: usize) -> (r: Result<()>)
    ensures
        r is Ok <==> is_power_of_two(dim as nat),
        !is_power_of_two(dim as nat) ==> r == Err::<(), TurboQuantError>(
            TurboQuantError::DimensionNotPowerOfTwo(dim),
        ),
{
    if !is_power_of_two_usize(dim) {
        Err(TurboQuantError::DimensionNotPowerOfTwo(dim))
    } else {
        Ok(())
    }
}

/// `data` with `masks` XOR-ed into it, element by element, over the common
/// length; elements past the end of `masks` are kept.
pub open spec fn xor_masks(data: Seq<u32>, masks: Seq<u32>) -> Seq<u32> {
    Seq::new(
        data.len(),
        |i: int|
            if i < masks.len() {
                data[i] ^ masks[i]
            } else {
                data[i]
            },
    )
}

/// Diagonal sign flip on the bit patterns of `f32` values:
/// `data[i] ^= sign_masks[i]`, where a mask is `0x8000_0000` for a sign of
/// −1 (the sign bit) and `0` for +1.
pub fn apply_sign_masks(data: &mut [u32], sign_masks: &[u32])
    ensures
        final(data)@ == xor_masks(old(data)@, sign_masks@),
        final(data)@.len() == old(data)@.len(),
        forall|i: int|
            0 <= i < old(data)@.len() && i < sign_masks@.len() ==> #[trigger] final(data)@[i]
                == old(data)@[i] ^ sign_masks@[i],
        forall|i: int|
            sign_masks@.len() <= i < old(data)@.len() ==> #[trigger] final(data)@[i]
                == old(data)@[i],
{
    proof {
        lemma_xor_masks_elementwise(old(data)@, sign_masks@);
    }
    let n = data.len();
    let mut i: usize = 0;
    while i < n && i < sign_masks.len()
        invariant
            n == data@.len(),
            n == old(data)@.len(),
            i <= n,
            forall|j: int|
                0 <= j < n ==> #[trigger] data@[j] == (if j < i {
                    xor_masks(old(data)@, sign_masks@)[j]
                } else {
                    old(data)@[j]
                }),
        decreases n - i,
    {
        let x = data[i];
        data[i] = x ^ sign_masks[i];
        i += 1;
    }
    assert(data@ =~= xor_masks(old(data)@, sign_masks@));
}

/// The sign flip XORs every element that has a mask with that mask, and
/// keeps the elements past the end of the masks: the length is kept and
/// element `i` depends on `data[i]` and `masks[i]` alone.
pub proof fn lemma_xor_masks_elementwise(data: Seq<u32>, masks: Seq<u32>)
    ensures
        xor_masks(data, masks).len() == data.len(),
        forall|i: int|
            0 <= i < data.len() && i < masks.len() ==> #[trigger] xor_masks(data, masks)[i]
                == data[i] ^ masks[i],
        forall|i: int|
            masks.len() <= i < data.len() ==> #[trigger] xor_masks(data, masks)[i] == data[i],
{
}

/// A mask of all sign bits negates every value: each `f32` bit pattern
/// `x` becomes `x` with its sign bit flipped, over the whole common length.
pub proof fn lemma_all_sign_bits_flip_every_sign(data: Seq<u32>, masks: Seq<u32>)
    requires
        masks.len() >= data.len(),
        forall|i: int| 0 <= i < masks.len() ==> #[trigger] masks[i] == 0x8000_0000u32,
    ensures
        forall|i: int|
            0 <= i < data.len() ==> (#[trigger] xor_masks(data, masks)[i] >> 31u32) != (data[i]
                >> 31u32) && (xor_masks(data, masks)[i] & 0x7fff_ffffu32) == (data[i]
                & 0x7fff_ffffu32),
{
    assert forall|i: int| 0 <= i < data.len() implies (#[trigger] xor_masks(data, masks)[i]
        >> 31u32) != (data[i] >> 31u32) && (xor_masks(data, masks)[i] & 0x7fff_ffffu32) == (
    data[i] & 0x7fff_ffffu32) by {
        let x = data[i];
        assert(xor_masks(data, masks)[i] == x ^ 0x8000_0000u32);
        assert(((x ^ 0x8000_0000u32) >> 31u32) != (x >> 31u32) && ((x ^ 0x8000_0000u32)
            & 0x7fff_ffffu32) == (x & 0x7fff_ffffu32)) by (bit_vector);
    }
}

/// Flipping the signs twice with the same masks gives back the data: the
/// diagonal sign matrix is its own inverse.
pub proof fn lemma_sign_flip_involution(data: Seq<u32>, masks: Seq<u32>)
    ensures
        xor_masks(xor_masks(data, masks), masks) == data,
{
    assert forall|i: int| 0 <= i < data.len() implies #[trigger] xor_masks(
        xor_masks(data, masks),
        masks,
    )[i] == data[i] by {
        if i < masks.len() {
            let x = data[i];
            let m = masks[i];
            assert((x ^ m) ^ m == x) by (bit_vector);
        }
    }
    assert(xor_masks(xor_masks(data, masks), masks) =~= data);
}

} // verus!
