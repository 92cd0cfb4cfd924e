use turboquant::bitpack::{check_bit_width, pack, packed_byte_size, packed_len_of, unpack};
use turboquant::TurboQuantError;

fn roundtrip(bits: u8, count: usize) {
    let max = (1u8 << bits) - 1;
    let idx: Vec<u8> = (0..count).map(|i| (i as u8) % (max + 1)).collect();
    let packed = pack(&idx, bits).unwrap();
    let unpacked = unpack(&packed, count, bits).unwrap();
    assert_eq!(idx, unpacked, "{bits}-bit roundtrip failed for count={count}");
}

#[test]
fn rt_2bit_128() {
    roundtrip(2, 128);
}

#[test]
fn rt_3bit_128() {
    roundtrip(3, 128);
}

#[test]
fn rt_4bit_128() {
    roundtrip(4, 128);
}

#[test]
fn rt_3bit_odd() {
    roundtrip(3, 10);
}

#[test]
fn rt_2bit_1() {
    roundtrip(2, 1);
}

#[test]
fn packed_sizes() {
    assert_eq!(packed_byte_size(128, 2), 32);
    assert_eq!(packed_byte_size(128, 3), 48);
    assert_eq!(packed_byte_size(128, 4), 64);
}

#[test]
fn invalid_bit_width_returns_error() {
    assert!(pack(&[0, 1, 2], 5).is_err());
    assert!(unpack(&[0u8; 4], 4, 5).is_err());
}

#[test]
fn unsupported_width_error_names_the_width() {
    assert_eq!(pack(&[0, 1], 1), Err(TurboQuantError::UnsupportedBitWidth { bits: 1 }));
    assert_eq!(unpack(&[], 0, 8), Err(TurboQuantError::UnsupportedBitWidth { bits: 8 }));
    assert_eq!(check_bit_width(0), Err(TurboQuantError::UnsupportedBitWidth { bits: 0 }));
    assert!(check_bit_width(2).is_ok());
    assert!(check_bit_width(3).is_ok());
    assert!(check_bit_width(4).is_ok());
}

#[test]
fn pack2_exact_bytes() {
    // 1 | 2 << 2 | 3 << 4 | 0 << 6 = 0b0011_1001; then 3, padding zero.
    assert_eq!(pack(&[1, 2, 3, 0, 3], 2).unwrap(), vec![0x39, 0x03]);
}

#[test]
fn pack4_exact_bytes() {
    assert_eq!(pack(&[0xA, 0x5, 0xF], 4).unwrap(), vec![0x5A, 0x0F]);
}

#[test]
fn pack3_exact_bytes() {
    // word = 1 | 2 << 3 | 7 << 21 = 0x00E0_0011, little-endian in 3 bytes.
    assert_eq!(pack(&[1, 2, 0, 0, 0, 0, 0, 7], 3).unwrap(), vec![0x11, 0x00, 0xE0]);
}

#[test]
fn pack3_length_is_rounded_bit_count() {
    // 10 indices take 30 bits: ceil(30 / 8) = 4 bytes.
    assert_eq!(pack(&[0u8; 10], 3).unwrap().len(), 4);
    assert_eq!(packed_byte_size(10, 3), 4);
    // 4 indices take 12 bits: 2 bytes.
    assert_eq!(pack(&[0u8; 4], 3).unwrap().len(), 2);
}

#[test]
fn pack3_partial_group_exact_bytes() {
    // word = 1 | 2 << 3 | 3 << 6 | 4 << 9 = 0x08D1, its third byte left off.
    let packed = pack(&[1, 2, 3, 4], 3).unwrap();
    assert_eq!(packed, vec![0xD1, 0x08]);
    assert_eq!(unpack(&packed, 4, 3).unwrap(), vec![1, 2, 3, 4]);
    // 11 indices: one full group of 3 bytes plus ceil(9 / 8) = 2 bytes.
    let idx: Vec<u8> = (0..11u8).map(|i| 7 - (i % 8)).collect();
    let packed = pack(&idx, 3).unwrap();
    assert_eq!(packed.len(), 5);
    assert_eq!(unpack(&packed, 11, 3).unwrap(), idx);
}

#[test]
fn pack_cuts_indices_to_width() {
    let packed = pack(&[0xFF, 0x06], 2).unwrap();
    assert_eq!(unpack(&packed, 2, 2).unwrap(), vec![3, 2]);
    let packed = pack(&[0xFF, 0x09], 3).unwrap();
    assert_eq!(unpack(&packed, 2, 3).unwrap(), vec![7, 1]);
}

#[test]
fn pack_empty() {
    for bits in [2u8, 3, 4] {
        assert!(pack(&[], bits).unwrap().is_empty());
        assert!(unpack(&[], 0, bits).unwrap().is_empty());
    }
}

#[test]
fn unpack_reads_fields() {
    assert_eq!(unpack(&[0x39], 4, 2).unwrap(), vec![1, 2, 3, 0]);
    assert_eq!(unpack(&[0x5A], 2, 4).unwrap(), vec![0xA, 0x5]);
    assert_eq!(unpack(&[0x11, 0x00, 0xE0], 8, 3).unwrap(), vec![1, 2, 0, 0, 0, 0, 0, 7]);
}

fn stream_value(data: &[u8], start: usize, width: usize) -> u8 {
    let mut v = 0u8;
    for j in (0..width).rev() {
        let k = start + j;
        v = (v << 1) | ((data[k / 8] >> (k % 8)) & 1);
    }
    v
}

#[test]
fn packing_is_little_endian_bit_stream() {
    for bits in [2u8, 3, 4] {
        let idx: Vec<u8> = (0..40u32).map(|i| ((i * 7 + 3) % (1u32 << bits)) as u8).collect();
        let packed = pack(&idx, bits).unwrap();
        for (i, &v) in idx.iter().enumerate() {
            assert_eq!(stream_value(&packed, i * bits as usize, bits as usize), v, "bits={bits} i={i}");
        }
    }
}

#[test]
fn packed_len_matches_byte_size() {
    for count in [0usize, 1, 3, 4, 5, 7, 8, 10, 64, 128, 129] {
        for bits in [2u8, 3, 4] {
            assert_eq!(packed_len_of(count, bits), packed_byte_size(count, bits));
            assert_eq!(pack(&vec![0u8; count], bits).unwrap().len(), packed_byte_size(count, bits));
        }
    }
}

#[test]
fn unpacked_indices_fit_in_width() {
    let data: Vec<u8> = (0..64u32).map(|i| (i * 37 + 11) as u8).collect();
    for bits in [2u8, 3, 4] {
        for v in unpack(&data, 128, bits).unwrap() {
            assert!(v < (1u8 << bits));
        }
    }
}
