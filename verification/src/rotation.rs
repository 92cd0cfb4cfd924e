//! Randomized Hadamard rotation  R = H̃ · D.
//!
//!   - D = diag(s₁, …, s_d), sᵢ ∈ {+1, −1}, drawn from a seeded generator
//!   - H̃ = (1/√d) · H_d, the normalized Walsh-Hadamard matrix
//!
//! R is orthogonal.  The forward transform multiplies by the signs and then
//! applies the normalized FWHT; the inverse applies the FWHT and then the
//! signs, since D = Dᵀ = D⁻¹.
//!
//! This module holds the seeded sign pattern D: it is generated here,
//! together with the XOR masks that flip the sign bit of an `f32` wherever
//! the sign is −1.
use vstd::prelude::*;

use crate::backend::{check_power_of_two, is_power_of_two, ScalarBackend};
use crate::error::{Result, TurboQuantError};

verus! {

/// The Weyl increment of the sign generator.
pub const SIGN_GAMMA: u64 = 0x9e37_79b9_7f4a_7c15;

/// First multiplier of the sign generator's mixing function.
pub const SIGN_MIX_1: u64 = 0xbf58_476d_1ce4_e5b9;

/// Second multiplier of the sign generator's mixing function.
pub const SIGN_MIX_2: u64 = 0x94d0_49bb_1331_11eb;

/// XOR mask that flips the sign bit of an `f32`.
pub const SIGN_BIT: u32 = 0x8000_0000;

/// The splitmix64 finaliser: xor-shift by 30, multiply, xor-shift by 27,
/// multiply, xor-shift by 31 (multiplications wrap).
pub open spec fn splitmix_mix(x: u64) -> u64 {
    let a = x ^ (x >> 30u64);
    let b = vstd::wrapping::u64_specs::wrapping_mul(a, SIGN_MIX_1);
    let c = b ^ (b >> 27u64);
    let d = vstd::wrapping::u64_specs::wrapping_mul(c, SIGN_MIX_2);
    d ^ (d >> 31u64)
}

/// State of the sign generator after `k` draws: it starts at
/// `seed + γ`, and each draw adds `γ` and mixes (additions wrap).
pub open spec fn sign_state(seed: u64, k: nat) -> u64
    decreases k,
{
    if k == 0 {
        vstd::wrapping::u64_specs::wrapping_add(seed, SIGN_GAMMA)
    } else {
        splitmix_mix(
            vstd::wrapping::u64_specs::wrapping_add(sign_state(seed, (k - 1) as nat), SIGN_GAMMA),
        )
    }
}

/// The sign a generator state gives: +1 when its top bit is clear, −1
/// when it is set.
pub open spec fn sign_of_state(s: u64) -> i8 {
    if (s >> 63u64) & 1u64 == 0 {
        1i8
    } else {
        -1i8
    }
}

/// The `dim` signs of the rotation seeded with `seed`: sign `k` is drawn by
/// draw `k + 1` of the generator.
pub open spec fn rotation_signs(seed: u64, dim: nat) -> Seq<i8> {
    Seq::new(dim, |k: int| sign_of_state(sign_state(seed, (k + 1) as nat)))
}

/// The XOR mask for a sign: the `f32` sign bit for −1, zero for +1.
pub open spec fn sign_mask(s: i8) -> u32 {
    if s < 0 {
        SIGN_BIT
    } else {
        0
    }
}

/// The XOR masks for a sequence of signs.
pub open spec fn sign_masks_of(signs: Seq<i8>) -> Seq<u32> {
    Seq::new(signs.len(), |i: int| sign_mask(signs[i]))
}

/// Splitmix64-based sign generation.
fn gen_signs(dim: usize, seed: u64) -> (signs: Vec<i8>)
    ensures
        signs@ == rotation_signs(seed, dim as nat),
{
    let mut s = seed.wrapping_add(SIGN_GAMMA);
    let mut out: Vec<i8> = Vec::with_capacity(dim);
    let mut k: usize = 0;
    while k < dim
        invariant
            k <= dim,
            s == sign_state(seed, k as nat),
            out@ =~= rotation_signs(seed, k as nat),
        decreases dim - k,
    {
        s = s.wrapping_add(SIGN_GAMMA);
        s ^= s >> 30u64;
        s = s.wrapping_mul(SIGN_MIX_1);
        s ^= s >> 27u64;
        s = s.wrapping_mul(SIGN_MIX_2);
        s ^= s >> 31u64;
        let sign: i8 = if (s >> 63u64) & 1u64 == 0 {
            1
        } else {
            -1
        };
        out.push(sign);
        k += 1;
        assert(s == sign_state(seed, k as nat));
    }
    out
}

/// The XOR masks for `signs`.
fn masks_for_signs(signs: &Vec<i8>) -> (masks: Vec<u32>)
    ensures
        masks@ == sign_masks_of(signs@),
{
    let mut masks: Vec<u32> = Vec::with_capacity(signs.len());
    let mut i: usize = 0;
    while i < signs.len()
        invariant
            i <= signs@.len(),
            masks@ =~= sign_masks_of(signs@.subrange(0, i as int)),
        decreases signs@.len() - i,
    {
        let m: u32 = if signs[i] < 0 {
            SIGN_BIT
        } else {
            0
        };
        masks.push(m);
        i += 1;
    }
    assert(signs@.subrange(0, signs@.len() as int) =~= signs@);
    masks
}

/// A seeded, reproducible randomized Hadamard rotation for a fixed dimension.
#[derive(Debug, Clone)]
pub struct Rotation<B = ScalarBackend> {
    /// ±1 signs of the diagonal matrix D.
    signs: Vec<i8>,
    /// XOR masks for the sign flip: the `f32` sign bit where the sign is −1.
    sign_masks: Vec<u32>,
    pub dim: usize,
    pub seed: u64,
    backend: B,
}

impl Rotation<ScalarBackend> {
    /// A rotation of dimension `dim` seeded with `seed`, on the scalar
    /// backend.  `dim` must be a power of two.
    pub fn new(dim: usize, seed: u64) -> (r: Result<Self>)
        ensures
            r is Ok <==> is_power_of_two(dim as nat),
            !is_power_of_two(dim as nat) ==> r == Err::<Self, TurboQuantError>(
                TurboQuantError::DimensionNotPowerOfTwo(dim),
            ),
            r matches Ok(rot) ==> rot.wf() && rot.dim_of() == dim && rot.seed_of() == seed
                && rot.sign_seq() == rotation_signs(seed, dim as nat) && rot.mask_seq()
                == sign_masks_of(rot.sign_seq()),
    {
        Self::new_with_backend(dim, seed, ScalarBackend)
    }
}

impl<B> Rotation<B> {
    /// The dimension.
    pub closed spec fn dim_of(&self) -> usize {
        self.dim
    }

    /// The seed.
    pub closed spec fn seed_of(&self) -> u64 {
        self.seed
    }

    /// The signs of D.
    pub closed spec fn sign_seq(&self) -> Seq<i8> {
        self.signs@
    }

    /// The sign-flip masks.
    pub closed spec fn mask_seq(&self) -> Seq<u32> {
        self.sign_masks@
    }

    /// The signs are those drawn for the seed and dimension, and the masks
    /// are those of the signs.
    pub open spec fn wf(&self) -> bool {
        &&& self.sign_seq() == rotation_signs(self.seed_of(), self.dim_of() as nat)
        &&& self.mask_seq() == sign_masks_of(self.sign_seq())
    }

    /// The backend the rotation runs on.
    pub closed spec fn backend_value(&self) -> B {
        self.backend
    }

    /// A rotation of dimension `dim` seeded with `seed`, on `backend`.
    /// `dim` must be a power of two.
    pub fn new_with_backend(dim: usize, seed: u64, backend: B) -> (r: Result<Self>)
        ensures
            r is Ok <==> is_power_of_two(dim as nat),
            !is_power_of_two(dim as nat) ==> r == Err::<Self, TurboQuantError>(
                TurboQuantError::DimensionNotPowerOfTwo(dim),
            ),
            r matches Ok(rot) ==> rot.wf() && rot.dim_of() == dim && rot.seed_of() == seed
                && rot.sign_seq() == rotation_signs(seed, dim as nat) && rot.mask_seq()
                == sign_masks_of(rot.sign_seq()) && rot.backend_value() == backend,
    {
        match check_power_of_two(dim) {
            Err(e) => Err(e),
            Ok(()) => {
                let signs = gen_signs(dim, seed);
                let sign_masks = masks_for_signs(&signs);
                Ok(Rotation { signs, sign_masks, dim, seed, backend })
            },
        }
    }

    /// The dimension.
    pub fn dim(&self) -> (r: usize)
        ensures
            r == self.dim_of(),
    {
        self.dim
    }

    /// The seed.
    pub fn seed(&self) -> (r: u64)
        ensures
            r == self.seed_of(),
    {
        self.seed
    }

    /// The ±1 signs of D.
    pub fn signs(&self) -> (r: &[i8])
        ensures
            r@ == self.sign_seq(),
    {
        self.signs.as_slice()
    }

    /// The sign-flip masks, one per coordinate.
    pub fn sign_masks(&self) -> (r: &[u32])
        ensures
            r@ == self.mask_seq(),
    {
        self.sign_masks.as_slice()
    }

    /// The backend the rotation runs on.
    pub fn backend(&self) -> (r: &B)
        ensures
            *r == self.backend_value(),
    {
        &self.backend
    }
}

/// A rotation is reproducible: two rotations of the same dimension and seed
/// have the same signs and the same masks, whatever their backends.
pub proof fn lemma_rotation_reproducible<B1, B2>(a: Rotation<B1>, b: Rotation<B2>)
    requires
        a.wf(),
        b.wf(),
        a.dim_of() == b.dim_of(),
        a.seed_of() == b.seed_of(),
    ensures
        a.sign_seq() == b.sign_seq(),
        a.mask_seq() == b.mask_seq(),
{
}

/// Sign `k` of the rotation, for every coordinate `k < dim`, is read off the
/// generator: +1 when its state after `k + 1` draws is below `2^63` (top
/// bit clear), −1 otherwise.
pub proof fn lemma_sign_is_top_bit_of_state(seed: u64, dim: nat, k: int)
    requires
        0 <= k < dim,
    ensures
        rotation_signs(seed, dim).len() == dim,
        rotation_signs(seed, dim)[k] == (if sign_state(seed, (k + 1) as nat)
            < 0x8000_0000_0000_0000u64 {
            1i8
        } else {
            -1i8
        }),
{
    let s = sign_state(seed, (k + 1) as nat);
    assert(((s >> 63u64) & 1u64 == 0) == (s < 0x8000_0000_0000_0000u64)) by (bit_vector);
}

/// Starting the generator from the state it reaches after one draw
/// continues the same stream.
proof fn lemma_state_shift(seed: u64, j: nat)
    ensures
        sign_state(
            vstd::wrapping::u64_specs::wrapping_sub(sign_state(seed, 1), SIGN_GAMMA),
            j,
        ) == sign_state(seed, j + 1),
    decreases j,
{
    if j > 0 {
        lemma_state_shift(seed, (j - 1) as nat);
    }
}

/// Every sign is drawn from the same stream: dropping the first sign of a
/// rotation gives the rotation whose seed continues the generator after
/// its first draw.
pub proof fn lemma_signs_shift(seed: u64, dim: nat, k: int)
    requires
        0 <= k < dim,
    ensures
        rotation_signs(seed, dim + 1)[k + 1] == rotation_signs(
            vstd::wrapping::u64_specs::wrapping_sub(sign_state(seed, 1), SIGN_GAMMA),
            dim,
        )[k],
{
    lemma_state_shift(seed, (k + 1) as nat);
}

/// A sign's mask is the `f32` sign bit exactly where the sign is negative,
/// for any signs.
pub proof fn lemma_masks_follow_signs(signs: Seq<i8>, i: int)
    requires
        0 <= i < signs.len(),
    ensures
        sign_masks_of(signs).len() == signs.len(),
        (sign_masks_of(signs)[i] == 0x8000_0000u32) == (signs[i] < 0),
        (sign_masks_of(signs)[i] == 0u32) == (signs[i] >= 0),
{
}

/// Every sign of a rotation is +1 or −1, and its mask is the `f32` sign bit
/// exactly where the sign is −1.
pub proof fn lemma_signs_are_unit(seed: u64, dim: nat, i: int)
    requires
        0 <= i < dim,
    ensures
        rotation_signs(seed, dim)[i] == 1 || rotation_signs(seed, dim)[i] == -1,
        sign_masks_of(rotation_signs(seed, dim))[i] == (if rotation_signs(seed, dim)[i] == -1 {
            SIGN_BIT
        } else {
            0u32
        }),
{
}

/// The sign pattern depends on the seed and the dimension alone, and a
/// smaller dimension draws a prefix of the same signs.
pub proof fn lemma_signs_prefix(seed: u64, d1: nat, d2: nat)
    requires
        d1 <= d2,
    ensures
        rotation_signs(seed, d1) == rotation_signs(seed, d2).subrange(0, d1 as int),
{
    assert(rotation_signs(seed, d1) =~= rotation_signs(seed, d2).subrange(0, d1 as int));
}

/// Different seeds give different rotations; for instance the rotations of
/// dimension 32 seeded with 1 and with 2 first differ at sign 4.
pub proof fn lemma_seeds_1_and_2_differ()
    ensures
        rotation_signs(1, 32)[4] == -1,
        rotation_signs(2, 32)[4] == 1,
        rotation_signs(1, 32) != rotation_signs(2, 32),
{
    assert({
        &&& 0x3c6ef372fe94f82bu64 ^ (0x3c6ef372fe94f82bu64 >> 30u64) == 0x3c6ef3720f2f35e0u64
        &&& 0x6b3cb552afcf4ee0u64 ^ (0x6b3cb552afcf4ee0u64 >> 27u64) == 0x6b3cb55fc859e4b5u64
        &&& 0xbeeb8da01859f727u64 ^ (0xbeeb8da01859f727u64 >> 31u64) == 0xbeeb8da1658eec67u64
        &&& 0x5d23075ae4d9687cu64 ^ (0x5d23075ae4d9687cu64 >> 30u64) == 0x5d23075b90557517u64
        &&& 0xc5ff59fd8bfb309fu64 ^ (0xc5ff59fd8bfb309fu64 >> 27u64) == 0xc5ff59e534100f2eu64
        &&& 0x778b1aa92d8dfd3au64 ^ (0x778b1aa92d8dfd3au64 >> 31u64) == 0x778b1aa9c29bc868u64
        &&& 0x15c2946341e6447du64 ^ (0x15c2946341e6447du64 >> 30u64) == 0x15c2946316ec15f0u64
        &&& 0x9e3702f689fb8a70u64 ^ (0x9e3702f689fb8a70u64 >> 27u64) == 0x9e3702e54f1bd4a1u64
        &&& 0x63a52771d7be0cbu64 ^ (0x63a52771d7be0cbu64 >> 31u64) == 0x63a5277110f4425u64
        &&& 0xa471cc309059c03au64 ^ (0xa471cc309059c03au64 >> 30u64) == 0xa471cc32019ef0f8u64
        &&& 0x995d81181649fb38u64 ^ (0x995d81181649fb38u64 >> 27u64) == 0x995d810b3df9d83au64
        &&& 0x427118ac2ccf573eu64 ^ (0x427118ac2ccf573eu64 >> 31u64) == 0x427118aca82d6666u64
        &&& 0xe0a892662777e27bu64 ^ (0xe0a892662777e27bu64 >> 30u64) == 0xe0a89265a5d5abe3u64
        &&& 0xf71fee8de457460bu64 ^ (0xf71fee8de457460bu64 >> 27u64) == 0xf71fee9307aa97b7u64
        &&& 0xdc6de710fcb36bfdu64 ^ (0xdc6de710fcb36bfdu64 >> 31u64) == 0xdc6de7114468a5dcu64
        &&& (0xdc6de7114468a5dcu64 >> 63u64) & 1u64 == 1u64
        &&& 0x3c6ef372fe94f82cu64 ^ (0x3c6ef372fe94f82cu64 >> 30u64) == 0x3c6ef3720f2f35e7u64
        &&& 0xa6a6a94e7a1196efu64 ^ (0xa6a6a94e7a1196efu64 >> 27u64) == 0xa6a6a95aaec4bf20u64
        &&& 0xbfc84611746c9260u64 ^ (0xbfc84611746c9260u64 >> 31u64) == 0xbfc846100bfc1e42u64
        &&& 0x5dffbfc98b469a57u64 ^ (0x5dffbfc98b469a57u64 >> 30u64) == 0x5dffbfc8fcb86571u64
        &&& 0x6b8329bf48a363a9u64 ^ (0x6b8329bf48a363a9u64 >> 27u64) == 0x6b8329b238c65440u64
        &&& 0x17657d5629e796c0u64 ^ (0x17657d5629e796c0u64 >> 31u64) == 0x17657d56072d6c6cu64
        &&& 0xb59cf70f8677e881u64 ^ (0xb59cf70f8677e881u64 >> 30u64) == 0xb59cf70d500434bfu64
        &&& 0x31c99097454f907u64 ^ (0x31c99097454f907u64 >> 27u64) == 0x31c990917c7d829u64
        &&& 0x69da0f2b84a726a3u64 ^ (0x69da0f2b84a726a3u64 >> 31u64) == 0x69da0f2b571338f4u64
        &&& 0x81188e4d65db509u64 ^ (0x81188e4d65db509u64 >> 30u64) == 0x81188e4f61b969au64
        &&& 0x966ac83980cf974au64 ^ (0x966ac83980cf974au64 >> 27u64) == 0x966ac82b4d96907au64
        &&& 0x39aaf98fee28b9feu64 ^ (0x39aaf98fee28b9feu64 >> 31u64) == 0x39aaf98f9d7d4ae1u64
        &&& 0xd7e273491cc7c6f6u64 ^ (0xd7e273491cc7c6f6u64 >> 30u64) == 0xd7e2734a434e0bd2u64
        &&& 0x6cf98016f30164c2u64 ^ (0x6cf98016f30164c2u64 >> 27u64) == 0x6cf9801b6c31661cu64
        &&& 0x6dc55dd8387c97b4u64 ^ (0x6dc55dd8387c97b4u64 >> 31u64) == 0x6dc55dd8e3f62c04u64
        &&& (0x6dc55dd8e3f62c04u64 >> 63u64) & 1u64 == 0u64
    }) by (bit_vector);
    assert(sign_state(1, 0) == 0x9e3779b97f4a7c16u64);
    assert(sign_state(2, 0) == 0x9e3779b97f4a7c17u64);
    assert(vstd::wrapping::u64_specs::wrapping_add(0x9e3779b97f4a7c16u64, SIGN_GAMMA) == 0x3c6ef372fe94f82bu64);
    assert(vstd::wrapping::u64_specs::wrapping_mul(0x3c6ef3720f2f35e0u64, SIGN_MIX_1) == 0x6b3cb552afcf4ee0u64);
    assert(vstd::wrapping::u64_specs::wrapping_mul(0x6b3cb55fc859e4b5u64, SIGN_MIX_2) == 0xbeeb8da01859f727u64);
    assert(splitmix_mix(0x3c6ef372fe94f82bu64) == 0xbeeb8da1658eec67u64);
    assert(sign_state(1, 1) == 0xbeeb8da1658eec67u64);
    assert(vstd::wrapping::u64_specs::wrapping_add(0xbeeb8da1658eec67u64, SIGN_GAMMA) == 0x5d23075ae4d9687cu64);
    assert(vstd::wrapping::u64_specs::wrapping_mul(0x5d23075b90557517u64, SIGN_MIX_1) == 0xc5ff59fd8bfb309fu64);
    assert(vstd::wrapping::u64_specs::wrapping_mul(0xc5ff59e534100f2eu64, SIGN_MIX_2) == 0x778b1aa92d8dfd3au64);
    assert(splitmix_mix(0x5d23075ae4d9687cu64) == 0x778b1aa9c29bc868u64);
    assert(sign_state(1, 2) == 0x778b1aa9c29bc868u64);
    assert(vstd::wrapping::u64_specs::wrapping_add(0x778b1aa9c29bc868u64, SIGN_GAMMA) == 0x15c2946341e6447du64);
    assert(vstd::wrapping::u64_specs::wrapping_mul(0x15c2946316ec15f0u64, SIGN_MIX_1) == 0x9e3702f689fb8a70u64);
    assert(vstd::wrapping::u64_specs::wrapping_mul(0x9e3702e54f1bd4a1u64, SIGN_MIX_2) == 0x63a52771d7be0cbu64);
    assert(splitmix_mix(0x15c2946341e6447du64) == 0x63a5277110f4425u64);
    assert(sign_state(1, 3) == 0x63a5277110f4425u64);
    assert(vstd::wrapping::u64_specs::wrapping_add(0x63a5277110f4425u64, SIGN_GAMMA) == 0xa471cc309059c03au64);
    assert(vstd::wrapping::u64_specs::wrapping_mul(0xa471cc32019ef0f8u64, SIGN_MIX_1) == 0x995d81181649fb38u64);
    assert(vstd::wrapping::u64_specs::wrapping_mul(0x995d810b3df9d83au64, SIGN_MIX_2) == 0x427118ac2ccf573eu64);
    assert(splitmix_mix(0xa471cc309059c03au64) == 0x427118aca82d6666u64);
    assert(sign_state(1, 4) == 0x427118aca82d6666u64);
    assert(vstd::wrapping::u64_specs::wrapping_add(0x427118aca82d6666u64, SIGN_GAMMA) == 0xe0a892662777e27bu64);
    assert(vstd::wrapping::u64_specs::wrapping_mul(0xe0a89265a5d5abe3u64, SIGN_MIX_1) == 0xf71fee8de457460bu64);
    assert(vstd::wrapping::u64_specs::wrapping_mul(0xf71fee9307aa97b7u64, SIGN_MIX_2) == 0xdc6de710fcb36bfdu64);
    assert(splitmix_mix(0xe0a892662777e27bu64) == 0xdc6de7114468a5dcu64);
    assert(sign_state(1, 5) == 0xdc6de7114468a5dcu64);
    assert(vstd::wrapping::u64_specs::wrapping_add(0x9e3779b97f4a7c17u64, SIGN_GAMMA) == 0x3c6ef372fe94f82cu64);
    assert(vstd::wrapping::u64_specs::wrapping_mul(0x3c6ef3720f2f35e7u64, SIGN_MIX_1) == 0xa6a6a94e7a1196efu64);
    assert(vstd::wrapping::u64_specs::wrapping_mul(0xa6a6a95aaec4bf20u64, SIGN_MIX_2) == 0xbfc84611746c9260u64);
    assert(splitmix_mix(0x3c6ef372fe94f82cu64) == 0xbfc846100bfc1e42u64);
    assert(sign_state(2, 1) == 0xbfc846100bfc1e42u64);
    assert(vstd::wrapping::u64_specs::wrapping_add(0xbfc846100bfc1e42u64, SIGN_GAMMA) == 0x5dffbfc98b469a57u64);
    assert(vstd::wrapping::u64_specs::wrapping_mul(0x5dffbfc8fcb86571u64, SIGN_MIX_1) == 0x6b8329bf48a363a9u64);
    assert(vstd::wrapping::u64_specs::wrapping_mul(0x6b8329b238c65440u64, SIGN_MIX_2) == 0x17657d5629e796c0u64);
    assert(splitmix_mix(0x5dffbfc98b469a57u64) == 0x17657d56072d6c6cu64);
    assert(sign_state(2, 2) == 0x17657d56072d6c6cu64);
    assert(vstd::wrapping::u64_specs::wrapping_add(0x17657d56072d6c6cu64, SIGN_GAMMA) == 0xb59cf70f8677e881u64);
    assert(vstd::wrapping::u64_specs::wrapping_mul(0xb59cf70d500434bfu64, SIGN_MIX_1) == 0x31c99097454f907u64);
    assert(vstd::wrapping::u64_specs::wrapping_mul(0x31c990917c7d829u64, SIGN_MIX_2) == 0x69da0f2b84a726a3u64);
    assert(splitmix_mix(0xb59cf70f8677e881u64) == 0x69da0f2b571338f4u64);
    assert(sign_state(2, 3) == 0x69da0f2b571338f4u64);
    assert(vstd::wrapping::u64_specs::wrapping_add(0x69da0f2b571338f4u64, SIGN_GAMMA) == 0x81188e4d65db509u64);
    assert(vstd::wrapping::u64_specs::wrapping_mul(0x81188e4f61b969au64, SIGN_MIX_1) == 0x966ac83980cf974au64);
    assert(vstd::wrapping::u64_specs::wrapping_mul(0x966ac82b4d96907au64, SIGN_MIX_2) == 0x39aaf98fee28b9feu64);
    assert(splitmix_mix(0x81188e4d65db509u64) == 0x39aaf98f9d7d4ae1u64);
    assert(sign_state(2, 4) == 0x39aaf98f9d7d4ae1u64);
    assert(vstd::wrapping::u64_specs::wrapping_add(0x39aaf98f9d7d4ae1u64, SIGN_GAMMA) == 0xd7e273491cc7c6f6u64);
    assert(vstd::wrapping::u64_specs::wrapping_mul(0xd7e2734a434e0bd2u64, SIGN_MIX_1) == 0x6cf98016f30164c2u64);
    assert(vstd::wrapping::u64_specs::wrapping_mul(0x6cf9801b6c31661cu64, SIGN_MIX_2) == 0x6dc55dd8387c97b4u64);
    assert(splitmix_mix(0xd7e273491cc7c6f6u64) == 0x6dc55dd8e3f62c04u64);
    assert(sign_state(2, 5) == 0x6dc55dd8e3f62c04u64);
    assert(rotation_signs(1, 32)[4] != rotation_signs(2, 32)[4]);
}

} // verus!
