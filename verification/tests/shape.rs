use turboquant::shape::{check_dim, check_dims};
use turboquant::turboquant::{prod_stage, ProdStage};
use turboquant::TurboQuantError;

#[test]
fn check_dim_reports_mismatch() {
    assert!(check_dim(128, 128).is_ok());
    assert_eq!(check_dim(128, 64), Err(TurboQuantError::DimensionMismatch { expected: 128, got: 64 }));
}

#[test]
fn check_dims_reports_first_mismatch() {
    assert!(check_dims(128, &[]).is_ok());
    assert!(check_dims(128, &[128, 128, 128]).is_ok());
    assert_eq!(check_dims(128, &[128, 64, 32]), Err(TurboQuantError::DimensionMismatch { expected: 128, got: 64 }));
}

#[test]
fn prod_stage_split() {
    assert_eq!(prod_stage(2, 99), None);
    assert_eq!(prod_stage(1, 99), None);
    assert_eq!(prod_stage(3, 42), Some(ProdStage { polar_bits: 2, polar_seed: 42 + 0x1111, qjl_seed: 43 }));
    assert_eq!(prod_stage(4, u64::MAX), Some(ProdStage { polar_bits: 3, polar_seed: 0x1110, qjl_seed: 0 }));
}
