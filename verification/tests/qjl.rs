use turboquant::qjl::{Qjl, QjlVector};
use turboquant::TurboQuantError;

#[test]
fn sketch_of_128_signs_takes_16_bytes() {
    let signs: Vec<bool> = (0..128).map(|i| (i as f32 * 0.1).sin() >= 0.0).collect();
    let qv = QjlVector::from_signs(&signs);
    assert_eq!(qv.byte_size(), 16, "128 bits / 8 = 16 bytes");
    assert_eq!(qv.dim, 128);
    for (i, &s) in signs.iter().enumerate() {
        assert_eq!(qv.sign(i), s);
    }
}

#[test]
fn sketch_bits_exact() {
    let qv = QjlVector::from_signs(&[true, false, true, true, false, false, false, false, true, true]);
    assert_eq!(qv.bits, vec![0b0000_1101, 0b0000_0011]);
    assert!(!qv.sign(15));
}

#[test]
fn empty_sketch() {
    assert!(QjlVector::default().is_empty_sketch());
    assert!(QjlVector::from_signs(&[]).is_empty_sketch());
    assert!(!QjlVector::from_signs(&[false]).is_empty_sketch());
    assert_eq!(QjlVector::from_signs(&[false]).bits, vec![0]);
}

#[test]
fn qjl_new_and_dim() {
    let q = Qjl::new(128, 99).unwrap();
    assert_eq!(q.dim(), 128);
    assert_eq!(q.rotation().seed, 99);
    assert!(matches!(Qjl::new(100, 1), Err(TurboQuantError::DimensionNotPowerOfTwo(100))));
}
