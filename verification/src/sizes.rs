//! Memory footprint of compressed vectors and of a compressed KV cache.
//!
//! A PolarQuant vector stores its `f32` norm (4 bytes) and its packed
//! indices; a Prod vector adds its QJL sketch.  A cache entry is one key and
//! one value vector, against `2 * head_dim * 4` bytes in `f32`.
use vstd::prelude::*;

use crate::bitpack::{packs, supported_bits};

verus! {

/// Bytes of the `f32` norm stored with every PolarQuant vector.
pub const NORM_BYTES: usize = 4;

/// Bytes of one `f32` coordinate.
pub const F32_BYTES: usize = 4;

/// Compressed size of a PolarQuant vector whose packed indices take
/// `packed_len` bytes: the norm plus the indices.
pub fn quantized_byte_size(packed_len: usize) -> (r: usize)
    requires
        packed_len + NORM_BYTES <= usize::MAX,
    ensures
        r == NORM_BYTES + packed_len,
{
    NORM_BYTES + packed_len
}

/// Compressed size of a Prod vector: its PolarQuant part (norm and
/// `packed_len` bytes of indices) plus its QJL sketch of `sketch_len` bytes.
pub fn prod_byte_size(packed_len: usize, sketch_len: usize) -> (r: usize)
    requires
        NORM_BYTES + packed_len + sketch_len <= usize::MAX,
    ensures
        r == NORM_BYTES + packed_len + sketch_len,
{
    quantized_byte_size(packed_len) + sketch_len
}

/// Compressed size of a cache entry whose key and value packings take
/// `key_len` and `val_len` bytes.
pub open spec fn entry_bytes(key_len: usize, val_len: usize) -> int {
    (NORM_BYTES + key_len) + (NORM_BYTES + val_len)
}

/// Compressed size of all entries, given their packed lengths.
pub open spec fn entries_bytes(lens: Seq<(usize, usize)>) -> int
    decreases lens.len(),
{
    if lens.len() == 0 {
        0
    } else {
        entries_bytes(lens.drop_last()) + entry_bytes(lens.last().0, lens.last().1)
    }
}

/// Compressed size of a cache whose entries' key and value packings take
/// the lengths in `lens`: each entry counts both norms and both packings.
/// `None` when the total does not fit in a `usize`.
pub fn compressed_cache_bytes(lens: &[(usize, usize)]) -> (r: Option<usize>)
    ensures
        r is Some <==> entries_bytes(lens@) <= usize::MAX,
        r matches Some(total) ==> total == entries_bytes(lens@),
        lens@.len() == 0 ==> r == Some(0usize),
        lens@.len() == 1 ==> (r is Some <==> 8 + lens@[0].0 + lens@[0].1 <= usize::MAX),
        lens@.len() == 1 && r is Some ==> r == Some((8 + lens@[0].0 + lens@[0].1) as usize),
{
    proof {
        if lens@.len() == 1 {
            lemma_single_entry_bytes(lens@[0].0, lens@[0].1);
            assert(lens@ =~= seq![(lens@[0].0, lens@[0].1)]);
        }
    }
    let mut total: usize = 0;
    let mut i: usize = 0;
    while i < lens.len()
        invariant
            i <= lens@.len(),
            total == entries_bytes(lens@.subrange(0, i as int)),
        decreases lens@.len() - i,
    {
        proof {
            assert(lens@.subrange(0, i + 1).drop_last() =~= lens@.subrange(0, i as int));
            lemma_entries_bytes_prefix_mono(lens@, i + 1);
        }
        let (k, v) = lens[i];
        if k > usize::MAX - NORM_BYTES || v > usize::MAX - NORM_BYTES {
            assert(entries_bytes(lens@.subrange(0, i + 1)) > usize::MAX);
            return None;
        }
        let e = NORM_BYTES + k;
        let f = NORM_BYTES + v;
        if e > usize::MAX - f || total > usize::MAX - (e + f) {
            assert(entries_bytes(lens@.subrange(0, i + 1)) > usize::MAX);
            return None;
        }
        total = total + (e + f);
        i += 1;
    }
    assert(lens@.subrange(0, lens@.len() as int) =~= lens@);
    Some(total)
}

/// Entry sizes are not negative, so a prefix of the entries never takes
/// more than all of them.
proof fn lemma_entries_bytes_prefix_mono(lens: Seq<(usize, usize)>, i: int)
    requires
        0 <= i <= lens.len(),
    ensures
        0 <= entries_bytes(lens.subrange(0, i)) <= entries_bytes(lens),
    decreases lens.len(),
{
    if lens.len() > 0 {
        if i == lens.len() {
            assert(lens.subrange(0, i) =~= lens);
            lemma_entries_bytes_prefix_mono(lens.drop_last(), i - 1);
            assert(lens.drop_last().subrange(0, i - 1) =~= lens.subrange(0, i - 1));
        } else {
            lemma_entries_bytes_prefix_mono(lens.drop_last(), i);
            assert(lens.drop_last().subrange(0, i) =~= lens.subrange(0, i));
        }
    }
}

/// Bytes that `entries` cache entries of dimension `head_dim` would take in
/// `f32` (a key and a value each), computed left to right as
/// `entries * 2 * head_dim * 4`; `None` when a step overflows a `usize`.
pub fn uncompressed_cache_bytes(entries: usize, head_dim: usize) -> (r: Option<usize>)
    ensures
        r is Some <==> (entries * 2 <= usize::MAX && entries * 2 * head_dim <= usize::MAX
            && entries * 2 * head_dim * 4 <= usize::MAX),
        r matches Some(total) ==> total == entries * 2 * head_dim * 4,
{
    match entries.checked_mul(2) {
        None => None,
        Some(a) => match a.checked_mul(head_dim) {
            None => None,
            Some(b) => match b.checked_mul(F32_BYTES) {
                None => None,
                Some(c) => Some(c),
            },
        },
    }
}

/// The compressed size of the entries adds up entry by entry: no entries
/// take nothing, and appending an entry whose key and value packings take
/// `k` and `v` bytes adds both 4-byte norms, `k` and `v`.
pub proof fn lemma_entries_bytes_append(lens: Seq<(usize, usize)>, k: usize, v: usize)
    ensures
        entries_bytes(Seq::<(usize, usize)>::empty()) == 0,
        entries_bytes(lens.push((k, v))) == entries_bytes(lens) + 8 + k + v,
{
    assert(lens.push((k, v)).drop_last() =~= lens);
}

/// One entry takes its key vector's size plus its value vector's size,
/// each a 4-byte norm plus its packed indices.
pub proof fn lemma_single_entry_bytes(k: usize, v: usize)
    ensures
        entries_bytes(seq![(k, v)]) == (4 + k) + (4 + v),
{
    lemma_entries_bytes_append(Seq::<(usize, usize)>::empty(), k, v);
    assert(Seq::<(usize, usize)>::empty().push((k, v)) =~= seq![(k, v)]);
}

/// Memory layout of a compressed vector: the packing of `dim` indices at
/// `bits` bits, stored with its norm, takes `4 + ceil(dim * bits / 8)` bytes.
pub proof fn lemma_quantized_layout(idx: Seq<u8>, data: Seq<u8>, bits: u8)
    requires
        supported_bits(bits),
        packs(data, idx, bits),
    ensures
        NORM_BYTES + data.len() == 4 + (idx.len() * bits + 7) / 8,
{
}

} // verus!
