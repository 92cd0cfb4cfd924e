//! Compact bit-packing for 2-, 3- and 4-bit unsigned indices.
//!
//! | bits | values per byte | packed bytes for 128 values |
//! |------|-----------------|------------------------------|
//! |  2   |        4        |             32               |
//! |  3   |     8 per 3 B   |             48               |
//! |  4   |        2        |             64               |
//!
//! Index `i` of a 2-bit packing sits in byte `i / 4` at bit `2 * (i % 4)`;
//! of a 4-bit packing in byte `i / 2` at bit `4 * (i % 2)`.  A 3-bit packing
//! groups eight indices into a little-endian 24-bit word of three bytes, index
//! `i` sitting in word `i / 8` at bit `3 * (i % 8)`; a last, partial group
//! keeps only the bytes that hold index bits.  At every width the packing of
//! `n` indices takes `ceil(n * bits / 8)` bytes, the size `packed_byte_size`
//! gives: the indices form one little-endian bit stream.
use vstd::prelude::*;

use crate::error::{Result, TurboQuantError};

verus! {

// ── Specification of the format ─────────────────────────────────────────────

/// The bit widths the format supports.
pub open spec fn supported_bits(bits: u8) -> bool {
    bits == 2 || bits == 3 || bits == 4
}

/// The largest index value a `bits`-bit slot holds (`2^bits - 1`).
pub open spec fn index_mask(bits: u8) -> u8 {
    if bits == 2 {
        3
    } else if bits == 3 {
        7
    } else {
        15
    }
}

/// Number of bytes that a packing of `count` indices occupies: the
/// `count * bits` index bits rounded up to whole bytes.
pub open spec fn packed_len(count: int, bits: u8) -> int {
    (count * bits + 7) / 8
}

/// Number of index slots that a packing of `count` indices provides
/// (`count` rounded up to a whole number of bytes, or of 3-byte groups, the
/// bytes missing from a last partial group reading as zero).
pub open spec fn slot_count(count: int, bits: u8) -> int {
    if bits == 2 {
        ((count + 3) / 4) * 4
    } else if bits == 3 {
        ((count + 7) / 8) * 8
    } else {
        ((count + 1) / 2) * 2
    }
}

/// Byte `k` of `data`, or zero past its end.
pub open spec fn byte_at(data: Seq<u8>, k: int) -> u8 {
    if 0 <= k < data.len() {
        data[k]
    } else {
        0
    }
}

/// The little-endian 24-bit word made of bytes `3g`, `3g + 1`, `3g + 2`
/// (bytes past the end of `data` reading as zero).
pub open spec fn word3(data: Seq<u8>, g: int) -> u32 {
    (byte_at(data, 3 * g) as u32) | ((byte_at(data, 3 * g + 1) as u32) << 8u32) | ((byte_at(
        data,
        3 * g + 2,
    ) as u32) << 16u32)
}

/// The index that slot `i` of the packed bytes `data` holds.
pub open spec fn packed_index(data: Seq<u8>, i: int, bits: u8) -> u8 {
    if bits == 2 {
        (data[i / 4] >> ((i % 4) * 2) as u8) & 3u8
    } else if bits == 3 {
        ((word3(data, i / 8) >> ((i % 8) * 3) as u32) & 7u32) as u8
    } else {
        (data[i / 2] >> ((i % 2) * 4) as u8) & 15u8
    }
}

/// What slot `i` of a packing of `idx` must hold: the index, cut to `bits`
/// bits, or zero past the end of `idx`.
pub open spec fn slot_value(idx: Seq<u8>, i: int, bits: u8) -> u8 {
    if 0 <= i < idx.len() {
        idx[i] & index_mask(bits)
    } else {
        0
    }
}

/// `data` is the packing of `idx` at `bits` bits: it has the packed length,
/// every slot of an index holds that index cut to `bits` bits, and every
/// padding slot holds zero.
pub open spec fn packs(data: Seq<u8>, idx: Seq<u8>, bits: u8) -> bool {
    &&& data.len() == packed_len(idx.len() as int, bits)
    &&& forall|i: int|
        0 <= i < slot_count(idx.len() as int, bits) ==> #[trigger] packed_index(data, i, bits)
            == slot_value(idx, i, bits)
}

/// The first `count` indices read back from `data`.
pub open spec fn unpacked(data: Seq<u8>, count: int, bits: u8) -> Seq<u8> {
    Seq::new(count as nat, |i: int| packed_index(data, i, bits))
}

// ── Bit-level facts ─────────────────────────────────────────────────────────

proof fn lemma_or_field2(x: u8, v: u8, p: u8, q: u8)
    by (bit_vector)
    requires
        p < 4,
        q < 4,
        (x >> (p * 2)) & 3u8 == 0,
    ensures
        ((x | ((v & 3u8) << (p * 2))) >> (q * 2)) & 3u8 == (if q == p {
            v & 3u8
        } else {
            (x >> (q * 2)) & 3u8
        }),
{
}

proof fn lemma_or_field4(x: u8, v: u8, p: u8, q: u8)
    by (bit_vector)
    requires
        p < 2,
        q < 2,
        (x >> (p * 4)) & 15u8 == 0,
    ensures
        ((x | ((v & 15u8) << (p * 4))) >> (q * 4)) & 15u8 == (if q == p {
            v & 15u8
        } else {
            (x >> (q * 4)) & 15u8
        }),
{
}

proof fn lemma_or_field3(w: u32, v: u32, k: u32, q: u32)
    by (bit_vector)
    requires
        k < 8,
        q < 8,
        v < 8,
        w >> (k * 3) == 0,
    ensures
        (w | (v << (k * 3))) >> ((k + 1) * 3) == 0,
        q <= k ==> ((w | (v << (k * 3))) >> (q * 3)) & 7u32 == (if q == k {
            v
        } else {
            (w >> (q * 3)) & 7u32
        }),
{
}

proof fn lemma_word3_split(w: u32)
    by (bit_vector)
    requires
        w >> 24u32 == 0,
    ensures
        ((w as u8) as u32) | ((((w >> 8u32) as u8) as u32) << 8u32) | ((((w >> 16u32) as u8)
            as u32) << 16u32) == w,
{
}

proof fn lemma_zero_fields(x: u8, w: u32, s: u8, t: u32)
    by (bit_vector)
    ensures
        (0u8 >> s) & x == 0,
        (0u32 >> t) & w == 0,
{
}

proof fn lemma_mask_small(x: u8, bits: u8)
    by (bit_vector)
    requires
        (bits == 2 && x < 4) || (bits == 3 && x < 8) || (bits == 4 && x < 16),
    ensures
        x & (if bits == 2 {
            3u8
        } else if bits == 3 {
            7u8
        } else {
            15u8
        }) == x,
{
}

proof fn lemma_packed_len_forms(count: int)
    requires
        count >= 0,
    ensures
        packed_len(count, 2) == (count + 3) / 4,
        packed_len(count, 4) == (count + 1) / 2,
        packed_len(count, 3) == 3 * (count / 8) + (3 * (count % 8) + 7) / 8,
{
    let q = count / 8;
    let r = count % 8;
    assert(count == 8 * q + r);
    assert(count * 3 + 7 == 24 * q + (3 * r + 7));
    assert(count * 2 + 7 == 16 * q + (2 * r + 7));
    assert(count * 4 + 7 == 32 * q + (4 * r + 7));
}

proof fn lemma_shr_zero_mono(w: u32, a: u32, b: u32)
    by (bit_vector)
    requires
        w >> a == 0,
        a <= b,
        b < 32,
    ensures
        w >> b == 0,
        (w >> b) & 7u32 == 0,
        ((w >> b) as u8) == 0u8,
{
}

// ── Public API ──────────────────────────────────────────────────────────────

/// Number of packed bytes needed for `count` values at `bits` bits each.
pub fn packed_byte_size(count: usize, bits: u8) -> (r: usize)
    requires
        count * bits + 7 <= usize::MAX,
    ensures
        r == (count * bits + 7) / 8,
{
    (count * bits as usize + 7) / 8
}

/// Number of bytes that a packing of `count` indices at `bits` bits
/// occupies, `ceil(count * bits / 8)`: the value of `packed_byte_size`,
/// computed without overflow for every `count`.
pub fn packed_len_of(count: usize, bits: u8) -> (r: usize)
    requires
        supported_bits(bits),
    ensures
        r == packed_len(count as int, bits),
{
    proof {
        lemma_packed_len_forms(count as int);
    }
    if bits == 2 {
        count / 4 + if count % 4 == 0 {
            0
        } else {
            1
        }
    } else if bits == 3 {
        3 * (count / 8) + (3 * (count % 8) + 7) / 8
    } else {
        count / 2 + if count % 2 == 0 {
            0
        } else {
            1
        }
    }
}

/// Succeeds exactly when `bits` is a supported bit width (2, 3 or 4).
pub fn check_bit_width(bits: u8) -> (r: Result<()>)
    ensures
        supported_bits(bits) <==> r is Ok,
        !supported_bits(bits) ==> r == Err::<(), TurboQuantError>(
            TurboQuantError::UnsupportedBitWidth { bits },
        ),
{
    if bits == 2 || bits == 3 || bits == 4 {
        Ok(())
    } else {
        Err(TurboQuantError::UnsupportedBitWidth { bits })
    }
}

/// Pack `indices` (each in `0..2^bits`) into a compact byte buffer.
///
/// Each index is cut to its low `bits` bits; slots past the last index are
/// zero.  An unsupported bit width is an error.
pub fn pack(indices: &[u8], bits: u8) -> (r: Result<Vec<u8>>)
    ensures
        supported_bits(bits) <==> r is Ok,
        r matches Ok(out) ==> packs(out@, indices@, bits),
        !supported_bits(bits) ==> r == Err::<Vec<u8>, TurboQuantError>(
            TurboQuantError::UnsupportedBitWidth { bits },
        ),
{
    match bits {
        2 => Ok(pack2(indices)),
        3 => Ok(pack3(indices)),
        4 => Ok(pack4(indices)),
        _ => Err(TurboQuantError::UnsupportedBitWidth { bits }),
    }
}

/// Unpack `count` indices from `data` at `bits` bits each.
///
/// `data` must hold at least the bytes of a packing of `count` indices.
pub fn unpack(data: &[u8], count: usize, bits: u8) -> (r: Result<Vec<u8>>)
    requires
        supported_bits(bits) ==> data@.len() >= packed_len(count as int, bits),
    ensures
        supported_bits(bits) <==> r is Ok,
        r matches Ok(out) ==> out@ == unpacked(data@, count as int, bits),
        !supported_bits(bits) ==> r == Err::<Vec<u8>, TurboQuantError>(
            TurboQuantError::UnsupportedBitWidth { bits },
        ),
{
    match bits {
        2 => Ok(unpack2(data, count)),
        3 => Ok(unpack3(data, count)),
        4 => Ok(unpack4(data, count)),
        _ => Err(TurboQuantError::UnsupportedBitWidth { bits }),
    }
}

// ── 2-bit: 4 values per byte ───────────────────────────────────────────────

fn pack2(idx: &[u8]) -> (out: Vec<u8>)
    ensures
        packs(out@, idx@, 2),
{
    let n = idx.len();
    let len = packed_len_of(n, 2);
    let mut out = vec![0u8; len];
    proof {
        lemma_packed_len_forms(n as int);
    }
    assert(len == (n + 3) / 4);
    assert forall|j: int| 0 <= j < slot_count(n as int, 2) implies #[trigger] packed_index(
        out@,
        j,
        2,
    ) == 0 by {
        assert(out@[j / 4] == 0u8);
        lemma_zero_fields(3u8, 0u32, ((j % 4) * 2) as u8, 0u32);
    }
    let mut i: usize = 0;
    while i < n
        invariant
            n == idx@.len(),
            len == (n + 3) / 4,
            out@.len() == len,
            i <= n,
            forall|j: int|
                0 <= j < slot_count(n as int, 2) ==> #[trigger] packed_index(out@, j, 2) == (if j
                    < i {
                    idx@[j] & 3u8
                } else {
                    0u8
                }),
        decreases n - i,
    {
        let v = idx[i];
        let b = i / 4;
        let p: u8 = (i % 4) as u8;
        let old_byte = out[b];
        let ghost before = out@;
        assert(packed_index(before, i as int, 2) == 0u8);
        out.set(b, old_byte | ((v & 3u8) << (p * 2)));
        assert forall|j: int| 0 <= j < slot_count(n as int, 2) implies #[trigger] packed_index(
            out@,
            j,
            2,
        ) == (if j < i + 1 {
            idx@[j] & 3u8
        } else {
            0u8
        }) by {
            assert(packed_index(before, j, 2) == (if j < i {
                idx@[j] & 3u8
            } else {
                0u8
            }));
            if j / 4 == b as int {
                lemma_or_field2(old_byte, v, p, (j % 4) as u8);
            } else {
                assert(out@[j / 4] == before[j / 4]);
            }
        }
        i += 1;
    }
    assert forall|j: int| 0 <= j < slot_count(n as int, 2) implies #[trigger] packed_index(
        out@,
        j,
        2,
    ) == slot_value(idx@, j, 2) by {}
    out
}

fn unpack2(data: &[u8], count: usize) -> (out: Vec<u8>)
    requires
        data@.len() >= packed_len(count as int, 2),
    ensures
        out@ == unpacked(data@, count as int, 2),
{
    proof {
        lemma_packed_len_forms(count as int);
    }
    let mut out: Vec<u8> = Vec::with_capacity(count);
    let mut i: usize = 0;
    while i < count
        invariant
            data@.len() >= (count + 3) / 4,
            i <= count,
            out@ == unpacked(data@, i as int, 2),
        decreases count - i,
    {
        let p: u8 = (i % 4) as u8;
        out.push((data[i / 4] >> (p * 2)) & 3u8);
        i += 1;
    }
    out
}

// ── 3-bit: 8 values per 3 bytes (24 bits) ─────────────────────────────────

fn pack3(idx: &[u8]) -> (out: Vec<u8>)
    ensures
        packs(out@, idx@, 3),
{
    let n = idx.len();
    let groups = n / 8 + if n % 8 == 0 {
        0
    } else {
        1
    };
    assert(groups == (n + 7) / 8);
    let len = packed_len_of(n, 3);
    proof {
        lemma_packed_len_forms(n as int);
    }
    let mut out = vec![0u8; len];
    let mut g: usize = 0;
    while g < groups
        invariant
            n == idx@.len(),
            groups == (n + 7) / 8,
            len == 3 * (n / 8) + (3 * (n % 8) + 7) / 8,
            out@.len() == len,
            g <= groups,
            forall|j: int|
                0 <= j < g * 8 ==> #[trigger] packed_index(out@, j, 3) == slot_value(idx@, j, 3),
        decreases groups - g,
    {
        let start = g * 8;
        // Indices of this group: eight, or the `n % 8` of a last partial group.
        let kmax: u32 = if n - start >= 8 {
            8
        } else {
            (n - start) as u32
        };
        let mut word: u32 = 0;
        let mut k: u32 = 0;
        assert(0u32 >> 0u32 == 0u32) by (bit_vector);
        while k < kmax
            invariant
                n == idx@.len(),
                start == g * 8,
                g < groups,
                kmax <= 8,
                start + kmax <= n,
                k <= kmax,
                word >> (k * 3) == 0,
                forall|q: u32|
                    q < k ==> (#[trigger] (word >> (q * 3)) & 7u32) == slot_value(
                        idx@,
                        start + q,
                        3,
                    ) as u32,
            decreases kmax - k,
        {
            let x = idx[start + k as usize];
            let v: u32 = (x & 7u8) as u32;
            assert(v == slot_value(idx@, start + k, 3) as u32 && v < 8) by {
                assert(x & 7u8 <= 7u8) by (bit_vector);
            }
            let ghost w0 = word;
            word = word | (v << (k * 3));
            assert forall|q: u32| q < k + 1 implies (#[trigger] (word >> (q * 3)) & 7u32)
                == slot_value(idx@, start + q, 3) as u32 by {
                lemma_or_field3(w0, v, k, q);
            }
            proof {
                lemma_or_field3(w0, v, k, 0);
            }
            k += 1;
        }
        proof {
            lemma_shr_zero_mono(word, (kmax * 3) as u32, 24);
        }
        let base = g * 3;
        let ghost before = out@;
        // The bytes of a last partial group that hold no index bits are left off.
        if base < len {
            out.set(base, #[verifier::truncate] (word as u8));
        }
        if base + 1 < len {
            out.set(base + 1, #[verifier::truncate] ((word >> 8u32) as u8));
        }
        if base + 2 < len {
            out.set(base + 2, #[verifier::truncate] ((word >> 16u32) as u8));
        }
        proof {
            // A byte left off holds only bits of slots past the last index.
            if g < n / 8 {
                assert(kmax == 8);
                assert(base + 2 < len);
            } else {
                assert(g == n / 8);
                assert(kmax == n % 8);
                assert(len - base == (3 * kmax + 7) / 8);
            }
            if base + 1 >= len {
                lemma_shr_zero_mono(word, (kmax * 3) as u32, 8);
            }
            if base + 2 >= len {
                lemma_shr_zero_mono(word, (kmax * 3) as u32, 16);
            }
            if base >= len {
                lemma_shr_zero_mono(word, (kmax * 3) as u32, 0);
            }
            assert(byte_at(out@, base as int) == #[verifier::truncate] (word as u8));
            assert(byte_at(out@, base + 1) == #[verifier::truncate] ((word >> 8u32) as u8));
            assert(byte_at(out@, base + 2) == #[verifier::truncate] ((word >> 16u32) as u8));
            lemma_word3_split(word);
            assert(word3(out@, g as int) == word);
        }
        assert forall|j: int| 0 <= j < (g + 1) * 8 implies #[trigger] packed_index(out@, j, 3)
            == slot_value(idx@, j, 3) by {
            if j < g * 8 {
                assert(word3(out@, j / 8) == word3(before, j / 8));
                assert(packed_index(before, j, 3) == slot_value(idx@, j, 3));
            } else {
                let q = (j - start) as u32;
                assert(j / 8 == g);
                assert(j % 8 == q);
                assert(((j % 8) * 3) as u32 == q * 3);
                assert(packed_index(out@, j, 3) == ((word >> (q * 3)) & 7u32) as u8);
                if q < kmax {
                    assert((word >> (q * 3)) & 7u32 == slot_value(idx@, start + q, 3) as u32);
                    let s = slot_value(idx@, j, 3);
                    assert(s & 7u8 == s) by {
                        let x = idx@[j];
                        assert((x & 7u8) & 7u8 == x & 7u8) by (bit_vector);
                    }
                    assert(((s as u32) as u8) == s);
                    assert(slot_value(idx@, start + q, 3) == s);
                } else {
                    lemma_shr_zero_mono(word, (kmax * 3) as u32, (q * 3) as u32);
                    assert(j >= n);
                }
            }
        }
        g += 1;
    }
    proof {
        assert forall|j: int| 0 <= j < slot_count(n as int, 3) implies #[trigger] packed_index(
            out@,
            j,
            3,
        ) == slot_value(idx@, j, 3) by {}
    }
    out
}

fn unpack3(data: &[u8], count: usize) -> (out: Vec<u8>)
    requires
        data@.len() >= packed_len(count as int, 3),
    ensures
        out@ == unpacked(data@, count as int, 3),
{
    let len = data.len();
    let mut out: Vec<u8> = Vec::with_capacity(count);
    let mut i: usize = 0;
    while i < count
        invariant
            len == data@.len(),
            i <= count,
            out@ == unpacked(data@, i as int, 3),
        decreases count - i,
    {
        let g = i / 8;
        let pos: u32 = (i % 8) as u32;
        let base = g * 3;
        // Bytes missing from a last partial group read as zero.
        let b0: u8 = if base < len {
            data[base]
        } else {
            0
        };
        let b1: u8 = if base + 1 < len {
            data[base + 1]
        } else {
            0
        };
        let b2: u8 = if base + 2 < len {
            data[base + 2]
        } else {
            0
        };
        let word = (b0 as u32) | ((b1 as u32) << 8u32) | ((b2 as u32) << 16u32);
        assert(word == word3(data@, g as int));
        out.push(((word >> (pos * 3)) & 7u32) as u8);
        i += 1;
    }
    out
}

// ── 4-bit: 2 values per byte ───────────────────────────────────────────────

fn pack4(idx: &[u8]) -> (out: Vec<u8>)
    ensures
        packs(out@, idx@, 4),
{
    let n = idx.len();
    let len = packed_len_of(n, 4);
    let mut out = vec![0u8; len];
    proof {
        lemma_packed_len_forms(n as int);
    }
    assert(len == (n + 1) / 2);
    assert forall|j: int| 0 <= j < slot_count(n as int, 4) implies #[trigger] packed_index(
        out@,
        j,
        4,
    ) == 0 by {
        assert(out@[j / 2] == 0u8);
        lemma_zero_fields(15u8, 0u32, ((j % 2) * 4) as u8, 0u32);
    }
    let mut i: usize = 0;
    while i < n
        invariant
            n == idx@.len(),
            len == (n + 1) / 2,
            out@.len() == len,
            i <= n,
            forall|j: int|
                0 <= j < slot_count(n as int, 4) ==> #[trigger] packed_index(out@, j, 4) == (if j
                    < i {
                    idx@[j] & 15u8
                } else {
                    0u8
                }),
        decreases n - i,
    {
        let v = idx[i];
        let b = i / 2;
        let p: u8 = (i % 2) as u8;
        let old_byte = out[b];
        let ghost before = out@;
        assert(packed_index(before, i as int, 4) == 0u8);
        out.set(b, old_byte | ((v & 15u8) << (p * 4)));
        assert forall|j: int| 0 <= j < slot_count(n as int, 4) implies #[trigger] packed_index(
            out@,
            j,
            4,
        ) == (if j < i + 1 {
            idx@[j] & 15u8
        } else {
            0u8
        }) by {
            assert(packed_index(before, j, 4) == (if j < i {
                idx@[j] & 15u8
            } else {
                0u8
            }));
            if j / 2 == b as int {
                lemma_or_field4(old_byte, v, p, (j % 2) as u8);
            } else {
                assert(out@[j / 2] == before[j / 2]);
            }
        }
        i += 1;
    }
    assert forall|j: int| 0 <= j < slot_count(n as int, 4) implies #[trigger] packed_index(
        out@,
        j,
        4,
    ) == slot_value(idx@, j, 4) by {}
    out
}

fn unpack4(data: &[u8], count: usize) -> (out: Vec<u8>)
    requires
        data@.len() >= packed_len(count as int, 4),
    ensures
        out@ == unpacked(data@, count as int, 4),
{
    proof {
        lemma_packed_len_forms(count as int);
    }
    let mut out: Vec<u8> = Vec::with_capacity(count);
    let mut i: usize = 0;
    while i < count
        invariant
            data@.len() >= (count + 1) / 2,
            i <= count,
            out@ == unpacked(data@, i as int, 4),
        decreases count - i,
    {
        let p: u8 = (i % 2) as u8;
        out.push((data[i / 2] >> (p * 4)) & 15u8);
        i += 1;
    }
    out
}

// ── Laws ────────────────────────────────────────────────────────────────────

/// Unpacking a packing gives back every index cut to `bits` bits.
pub proof fn lemma_unpack_of_pack(idx: Seq<u8>, data: Seq<u8>, bits: u8)
    requires
        supported_bits(bits),
        packs(data, idx, bits),
    ensures
        data.len() >= packed_len(idx.len() as int, bits),
        unpacked(data, idx.len() as int, bits) == Seq::new(
            idx.len(),
            |i: int| idx[i] & index_mask(bits),
        ),
{
    assert forall|i: int| 0 <= i < idx.len() implies #[trigger] unpacked(
        data,
        idx.len() as int,
        bits,
    )[i] == idx[i] & index_mask(bits) by {
        assert(packed_index(data, i, bits) == slot_value(idx, i, bits));
    }
    assert(unpacked(data, idx.len() as int, bits) =~= Seq::new(
        idx.len(),
        |i: int| idx[i] & index_mask(bits),
    ));
}

/// Round trip: when every index fits in `bits` bits, unpacking the packing
/// of `idx` gives back exactly `idx`.
pub proof fn lemma_roundtrip(idx: Seq<u8>, data: Seq<u8>, bits: u8)
    requires
        supported_bits(bits),
        packs(data, idx, bits),
        forall|i: int| 0 <= i < idx.len() ==> #[trigger] idx[i] <= index_mask(bits),
    ensures
        unpacked(data, idx.len() as int, bits) == idx,
{
    lemma_unpack_of_pack(idx, data, bits);
    assert forall|i: int| 0 <= i < idx.len() implies #[trigger] unpacked(
        data,
        idx.len() as int,
        bits,
    )[i] == idx[i] by {
        lemma_mask_small(idx[i], bits);
    }
    assert(unpacked(data, idx.len() as int, bits) =~= idx);
}

/// At every width the packing of `n` indices takes `ceil(n * bits / 8)`
/// bytes, the size that `packed_byte_size` gives.
pub proof fn lemma_packed_len_is_byte_size(idx: Seq<u8>, data: Seq<u8>, bits: u8)
    requires
        supported_bits(bits),
        packs(data, idx, bits),
    ensures
        data.len() == (idx.len() * bits + 7) / 8,
{
}

proof fn lemma_byte_fields(x: u8)
    by (bit_vector)
    ensures
        x == (x & 3u8) + 4 * ((x >> 2u8) & 3u8) + 16 * ((x >> 4u8) & 3u8) + 64 * ((x >> 6u8)
            & 3u8),
        x == (x & 15u8) + 16 * ((x >> 4u8) & 15u8),
        x >> 0u8 == x,
{
}

/// How the bytes of a 2- or 4-bit packing are made: byte `b` holds its
/// indices as base-4 (2 bits) or base-16 (4 bits) digits, least significant
/// first, each index cut to its width and zero past the last index.
pub proof fn lemma_packed_bytes(idx: Seq<u8>, data: Seq<u8>, bits: u8, b: int)
    requires
        bits == 2 || bits == 4,
        packs(data, idx, bits),
        0 <= b < data.len(),
    ensures
        bits == 2 ==> data[b] as int == slot_value(idx, 4 * b, 2) + 4 * slot_value(idx, 4 * b + 1, 2)
            + 16 * slot_value(idx, 4 * b + 2, 2) + 64 * slot_value(idx, 4 * b + 3, 2),
        bits == 4 ==> data[b] as int == slot_value(idx, 2 * b, 4) + 16 * slot_value(
            idx,
            2 * b + 1,
            4,
        ),
{
    let x = data[b];
    lemma_byte_fields(x);
    lemma_packed_len_forms(idx.len() as int);
    if bits == 2 {
        assert(packed_index(data, 4 * b, 2) == slot_value(idx, 4 * b, 2));
        assert(packed_index(data, 4 * b + 1, 2) == slot_value(idx, 4 * b + 1, 2));
        assert(packed_index(data, 4 * b + 2, 2) == slot_value(idx, 4 * b + 2, 2));
        assert(packed_index(data, 4 * b + 3, 2) == slot_value(idx, 4 * b + 3, 2));
    } else {
        assert(packed_index(data, 2 * b, 4) == slot_value(idx, 2 * b, 4));
        assert(packed_index(data, 2 * b + 1, 4) == slot_value(idx, 2 * b + 1, 4));
    }
}

/// Every index read back from packed bytes fits in `bits` bits, so it is a
/// valid position in a codebook of `2^bits` centroids.
pub proof fn lemma_packed_index_in_range(data: Seq<u8>, i: int, bits: u8)
    requires
        supported_bits(bits),
    ensures
        packed_index(data, i, bits) <= index_mask(bits),
{
    if bits == 2 {
        let x = data[i / 4];
        let s = ((i % 4) * 2) as u8;
        assert((x >> s) & 3u8 <= 3u8) by (bit_vector);
    } else if bits == 3 {
        let w = word3(data, i / 8);
        let t = ((i % 8) * 3) as u32;
        assert((w >> t) & 7u32 <= 7u32) by (bit_vector);
    } else {
        let x = data[i / 2];
        let s = ((i % 2) * 4) as u8;
        assert((x >> s) & 15u8 <= 15u8) by (bit_vector);
    }
}

// ── The packing as a bit stream ─────────────────────────────────────────────

/// Bit `k` of the little-endian bit stream of `data`: bit `k % 8` of byte
/// `k / 8`.
pub open spec fn stream_bit(data: Seq<u8>, k: int) -> int {
    ((data[k / 8] >> (k % 8) as u8) & 1u8) as int
}

/// The `width`-bit number stored little-endian from stream bit `start` on.
pub open spec fn stream_value(data: Seq<u8>, start: int, width: nat) -> int
    decreases width,
{
    if width == 0 {
        0
    } else {
        stream_bit(data, start) + 2 * stream_value(data, start + 1, (width - 1) as nat)
    }
}

proof fn lemma_field2_bits(x: u8, p: u8)
    by (bit_vector)
    requires
        p < 4,
    ensures
        (x >> (p * 2)) & 3u8 == ((x >> (p * 2)) & 1u8) + 2 * ((x >> (p * 2 + 1)) & 1u8),
{
}

proof fn lemma_field4_bits(x: u8, p: u8)
    by (bit_vector)
    requires
        p < 2,
    ensures
        (x >> (p * 4)) & 15u8 == ((x >> (p * 4)) & 1u8) + 2 * ((x >> (p * 4 + 1)) & 1u8) + 4 * ((x
            >> (p * 4 + 2)) & 1u8) + 8 * ((x >> (p * 4 + 3)) & 1u8),
{
}

proof fn lemma_field3_bits(w: u32, p: u32)
    by (bit_vector)
    requires
        p < 8,
    ensures
        (w >> (p * 3)) & 7u32 == ((w >> (p * 3)) & 1u32) + 2 * ((w >> (p * 3 + 1)) & 1u32) + 4 * ((
        w >> (p * 3 + 2)) & 1u32),
{
}

proof fn lemma_word3_bit(b0: u8, b1: u8, b2: u8, t: u32)
    by (bit_vector)
    requires
        t < 24,
    ensures
        t < 8 ==> (((b0 as u32) | ((b1 as u32) << 8u32) | ((b2 as u32) << 16u32)) >> t) & 1u32
            == ((b0 >> (t as u8)) & 1u8) as u32,
        8 <= t < 16 ==> (((b0 as u32) | ((b1 as u32) << 8u32) | ((b2 as u32) << 16u32)) >> t)
            & 1u32 == ((b1 >> ((t - 8) as u8)) & 1u8) as u32,
        16 <= t ==> (((b0 as u32) | ((b1 as u32) << 8u32) | ((b2 as u32) << 16u32)) >> t) & 1u32
            == ((b2 >> ((t - 16) as u8)) & 1u8) as u32,
{
}

/// Bit `3 * (i % 8) + j` of word `i / 8` is bit `3 * i + j` of the stream.
proof fn lemma_word3_stream_bit(data: Seq<u8>, i: int, j: int)
    requires
        0 <= i,
        0 <= j < 3,
        3 * i + j < data.len() * 8,
    ensures
        ((word3(data, i / 8) >> ((i % 8) * 3 + j) as u32) & 1u32) as int == stream_bit(
            data,
            3 * i + j,
        ),
{
    let g = i / 8;
    let t = (i % 8) * 3 + j;
    let k = 3 * i + j;
    assert(k == 24 * g + t);
    assert(k / 8 == 3 * g + t / 8);
    assert(k % 8 == t % 8);
    assert(k / 8 < data.len());
    lemma_word3_bit(
        byte_at(data, 3 * g),
        byte_at(data, 3 * g + 1),
        byte_at(data, 3 * g + 2),
        t as u32,
    );
}

/// The format is the little-endian bit stream of the bytes: slot `i` holds
/// the `bits`-bit number at stream bits `bits * i` to `bits * i + bits - 1`,
/// for 3-bit packings too, whose groups of eight indices fill three bytes
/// and whose last partial group keeps only the bytes with index bits.
pub proof fn lemma_packed_index_is_stream(data: Seq<u8>, i: int, bits: u8)
    requires
        supported_bits(bits),
        0 <= i,
        (i + 1) * bits <= data.len() * 8,
    ensures
        packed_index(data, i, bits) as int == stream_value(data, i * bits, bits as nat),
{
    reveal_with_fuel(stream_value, 5);
    if bits == 2 {
        let p = (i % 4) as u8;
        lemma_field2_bits(data[i / 4], p);
        assert((2 * i) / 8 == i / 4 && (2 * i) % 8 == 2 * (i % 4));
        assert((2 * i + 1) / 8 == i / 4 && (2 * i + 1) % 8 == 2 * (i % 4) + 1);
        assert(i * 2 == 2 * i);
        let x = data[i / 4];
        assert(stream_bit(data, 2 * i) == ((x >> (p * 2)) & 1u8) as int);
        assert(stream_bit(data, 2 * i + 1) == ((x >> (p * 2 + 1)) & 1u8) as int);
        assert(packed_index(data, i, 2) == (x >> (p * 2)) & 3u8);
        assert(stream_value(data, 2 * i, 2) == stream_bit(data, 2 * i) + 2 * stream_bit(data, 2 * i + 1));
        assert(packed_index(data, i, bits) as int == stream_value(data, i * bits, bits as nat));
    } else if bits == 4 {
        let p = (i % 2) as u8;
        lemma_field4_bits(data[i / 2], p);
        assert((4 * i) / 8 == i / 2 && (4 * i) % 8 == 4 * (i % 2));
        assert((4 * i + 1) / 8 == i / 2 && (4 * i + 1) % 8 == 4 * (i % 2) + 1);
        assert((4 * i + 2) / 8 == i / 2 && (4 * i + 2) % 8 == 4 * (i % 2) + 2);
        assert((4 * i + 3) / 8 == i / 2 && (4 * i + 3) % 8 == 4 * (i % 2) + 3);
        assert(i * 4 == 4 * i);
        assert(packed_index(data, i, bits) as int == stream_value(data, i * bits, bits as nat));
    } else {
        let w = word3(data, i / 8);
        let p = (i % 8) as u32;
        lemma_field3_bits(w, p);
        assert(((i % 8) * 3) as u32 == p * 3);
        assert(((i % 8) * 3 + 1) as u32 == p * 3 + 1);
        assert(((i % 8) * 3 + 2) as u32 == p * 3 + 2);
        assert(packed_index(data, i, 3) == ((w >> (p * 3)) & 7u32) as u8);
        lemma_word3_stream_bit(data, i, 0);
        lemma_word3_stream_bit(data, i, 1);
        lemma_word3_stream_bit(data, i, 2);
        assert(i * 3 == 3 * i);
        assert(stream_value(data, 3 * i, 3) == stream_bit(data, 3 * i) + 2 * stream_bit(data, 3 * i + 1) + 4 * stream_bit(data, 3 * i + 2));
        assert(((w >> (p * 3)) & 7u32) as int == stream_value(data, 3 * i, 3));
        assert((w >> (p * 3)) & 7u32 <= 7u32) by (bit_vector);
        assert(packed_index(data, i, bits) as int == stream_value(data, i * bits, bits as nat));
    }
}

} // verus!
