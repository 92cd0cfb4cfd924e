use turboquant::rotation::SIGN_BIT;
use turboquant::{Rotation, ScalarBackend, TurboQuantError};

#[test]
fn different_seeds_give_different_rotations() {
    let r1 = Rotation::new(32, 1).unwrap();
    let r2 = Rotation::new(32, 2).unwrap();
    assert_ne!(r1.signs(), r2.signs());
}

#[test]
fn rotation_rejects_non_power_of_two() {
    assert!(matches!(Rotation::new(7, 1), Err(TurboQuantError::DimensionNotPowerOfTwo(7))));
    assert!(matches!(Rotation::new(0, 1), Err(TurboQuantError::DimensionNotPowerOfTwo(0))));
}

#[test]
fn rotation_sign_values() {
    let r = Rotation::new(8, 42).unwrap();
    assert_eq!(r.signs(), &[1, -1, -1, 1, 1, 1, -1, -1]);
    let r = Rotation::new(8, 0).unwrap();
    assert_eq!(r.signs(), &[1, 1, -1, -1, -1, -1, -1, -1]);
    assert_eq!(r.dim, 8);
    assert_eq!(r.seed, 0);
}

#[test]
fn rotation_masks_follow_signs() {
    let r = Rotation::new(128, 7).unwrap();
    assert_eq!(r.signs().len(), 128);
    assert_eq!(r.sign_masks().len(), 128);
    for (&s, &m) in r.signs().iter().zip(r.sign_masks()) {
        assert!(s == 1 || s == -1);
        assert_eq!(m, if s < 0 { SIGN_BIT } else { 0 });
    }
}

#[test]
fn rotation_reproducible_and_prefix() {
    let a = Rotation::new(64, 99).unwrap();
    let b = Rotation::new_with_backend(64, 99, ScalarBackend).unwrap();
    assert_eq!(a.signs(), b.signs());
    assert_eq!(a.sign_masks(), b.sign_masks());
    let small = Rotation::new(16, 99).unwrap();
    assert_eq!(small.signs(), &a.signs()[..16]);
}

#[test]
fn rotation_sign_flip_is_its_own_inverse() {
    let r = Rotation::new(64, 5).unwrap();
    let original: Vec<u32> = (0..64u32).map(|i| (i as f32 - 31.5).to_bits()).collect();
    let mut data = original.clone();
    turboquant::backend::apply_sign_masks(&mut data, r.sign_masks());
    for ((&o, &d), &s) in original.iter().zip(&data).zip(r.signs()) {
        assert_eq!(f32::from_bits(d), f32::from_bits(o) * s as f32);
    }
    turboquant::backend::apply_sign_masks(&mut data, r.sign_masks());
    assert_eq!(data, original);
}

#[test]
fn seeds_1_and_2_first_differ_at_sign_4() {
    let r1 = Rotation::new(32, 1).unwrap();
    let r2 = Rotation::new(32, 2).unwrap();
    assert_eq!(&r1.signs()[..4], &r2.signs()[..4]);
    assert_eq!(r1.signs()[4], -1);
    assert_eq!(r2.signs()[4], 1);
}
