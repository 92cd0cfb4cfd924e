use turboquant::bitpack::packed_len_of;
use turboquant::sizes::{compressed_cache_bytes, prod_byte_size, quantized_byte_size, uncompressed_cache_bytes};

#[test]
fn quantized_vector_sizes() {
    // 4 bytes norm + ceil(128 * 3 / 8) = 48 bytes packed = 52 total
    assert_eq!(quantized_byte_size(packed_len_of(128, 3)), 52);
    // 4 bytes norm + ceil(4 * 3 / 8) = 2 bytes packed
    assert_eq!(quantized_byte_size(packed_len_of(4, 3)), 6);
    assert_eq!(quantized_byte_size(packed_len_of(128, 2)), 36);
    assert_eq!(quantized_byte_size(packed_len_of(128, 4)), 68);
}

#[test]
fn prod_vector_size() {
    // 2-bit PolarQuant part of 128 coordinates plus a 16-byte sketch.
    assert_eq!(prod_byte_size(packed_len_of(128, 2), 16), 4 + 32 + 16);
}

#[test]
fn cache_sizes() {
    assert_eq!(compressed_cache_bytes(&[]), Some(0));
    assert_eq!(compressed_cache_bytes(&[(48, 48), (48, 48)]), Some(2 * 104));
    assert_eq!(compressed_cache_bytes(&[(usize::MAX - 4, 0)]), None);
    assert_eq!(compressed_cache_bytes(&[(usize::MAX / 2, usize::MAX / 2)]), None);
    assert_eq!(uncompressed_cache_bytes(0, 128), Some(0));
    assert_eq!(uncompressed_cache_bytes(100, 128), Some(100 * 1024));
    assert_eq!(uncompressed_cache_bytes(usize::MAX, 0), None);
    assert_eq!(uncompressed_cache_bytes(1, usize::MAX / 4), None);
}
