use turboquant::backend::{apply_sign_masks, classify_gpu_init_error, GpuInitCause};
use turboquant::{Avx512Backend, CpuFeatures, RuntimeBackend, ScalarBackend, SimdBackend, TurboQuantError};

fn features(avx512f: bool, avx2: bool, neon: bool) -> CpuFeatures {
    CpuFeatures { avx512f, avx2, neon }
}

#[test]
fn scalar_backend_implements_trait() {
    let backend = ScalarBackend;
    assert!(backend.validate_dimension(128).is_ok());
    assert!(backend.validate_dimension(7).is_err());
}

#[test]
fn simd_backend_implements_trait() {
    let backend = SimdBackend;
    assert!(backend.validate_dimension(128).is_ok());
    assert!(backend.validate_dimension(7).is_err());
}

#[test]
fn runtime_backend_selects_best() {
    for f in [features(false, false, false), features(false, true, false), features(true, true, false), features(false, false, true)] {
        let backend = RuntimeBackend::best_available(f);
        assert!(backend.validate_dimension(128).is_ok());
        assert!(backend.validate_dimension(7).is_err());
    }
}

#[test]
fn avx512_backend_implements_trait() {
    let backend = Avx512Backend;
    assert!(backend.validate_dimension(128).is_ok());
    assert!(backend.validate_dimension(7).is_err());
}

#[test]
fn runtime_backend_name_is_non_empty() {
    let name = RuntimeBackend::best_available(CpuFeatures::default()).name();
    assert!(!name.is_empty());
}

#[test]
fn best_available_prefers_fastest_tier() {
    assert!(matches!(RuntimeBackend::best_available(features(true, true, false)), RuntimeBackend::Avx512(_)));
    assert!(matches!(RuntimeBackend::best_available(features(true, false, false)), RuntimeBackend::Avx512(_)));
    assert!(matches!(RuntimeBackend::best_available(features(false, true, false)), RuntimeBackend::Simd(_)));
    assert!(matches!(RuntimeBackend::best_available(features(false, false, true)), RuntimeBackend::Simd(_)));
    assert!(matches!(RuntimeBackend::best_available(features(false, false, false)), RuntimeBackend::Scalar(_)));
}

#[test]
fn runtime_backend_names() {
    assert_eq!(RuntimeBackend::Scalar(ScalarBackend).name(), "scalar");
    assert_eq!(RuntimeBackend::Simd(SimdBackend).name(), "simd (avx2/fma/neon)");
    assert_eq!(RuntimeBackend::Avx512(Avx512Backend).name(), "avx512f");
}

#[test]
fn validate_dimension_accepts_powers_of_two_only() {
    let backend = ScalarBackend;
    for exp in 0..20 {
        assert!(backend.validate_dimension(1usize << exp).is_ok());
    }
    for dim in [0usize, 3, 6, 12, 100, 129, usize::MAX] {
        assert_eq!(backend.validate_dimension(dim), Err(TurboQuantError::DimensionNotPowerOfTwo(dim)));
    }
}

#[test]
fn apply_signs_flips_sign_bit_where_masked() {
    let values = [1.5f32, -2.0, 0.25, 3.0];
    let mut bits: Vec<u32> = values.iter().map(|v| v.to_bits()).collect();
    let masks = [0x8000_0000u32, 0, 0x8000_0000, 0];
    apply_sign_masks(&mut bits, &masks);
    let out: Vec<f32> = bits.iter().map(|&b| f32::from_bits(b)).collect();
    assert_eq!(out, vec![-1.5, -2.0, -0.25, 3.0]);
}

#[test]
fn apply_signs_involution_on_bits() {
    let original: Vec<u32> = (0..128u32).map(|i| ((i as f32) * 0.37).sin().to_bits()).collect();
    let masks: Vec<u32> = (0..128u32).map(|i| if i % 3 == 0 { 0x8000_0000 } else { 0 }).collect();
    let mut data = original.clone();
    apply_sign_masks(&mut data, &masks);
    assert_ne!(data, original);
    apply_sign_masks(&mut data, &masks);
    assert_eq!(data, original);
}

#[test]
fn apply_signs_keeps_elements_past_masks() {
    let mut data = vec![1u32, 2, 3];
    apply_sign_masks(&mut data, &[0x8000_0000]);
    assert_eq!(data, vec![0x8000_0001, 2, 3]);
}

#[test]
fn gpu_init_error_causes() {
    assert_eq!(classify_gpu_init_error("DriverError(CUDA_ERROR_NO_DEVICE, \"no CUDA-capable device is detected\")"), GpuInitCause::NoDevice);
    assert_eq!(classify_gpu_init_error("CUDA driver version is insufficient for CUDA runtime version"), GpuInitCause::DriverOutdated);
    assert_eq!(classify_gpu_init_error("failed to load libcuda.so.1"), GpuInitCause::RuntimeMissing);
    assert_eq!(classify_gpu_init_error("nvcuda.dll not found"), GpuInitCause::RuntimeMissing);
    assert_eq!(classify_gpu_init_error("CUDA_ERROR_OUT_OF_MEMORY"), GpuInitCause::Other);
    assert_eq!(classify_gpu_init_error(""), GpuInitCause::Other);
}

#[test]
fn gpu_init_reasons() {
    assert_eq!(GpuInitCause::NoDevice.reason(), Some("No NVIDIA GPU detected"));
    assert_eq!(GpuInitCause::DriverOutdated.reason(), Some("CUDA driver outdated — update NVIDIA drivers"));
    assert_eq!(GpuInitCause::RuntimeMissing.reason(), Some("CUDA runtime library not found — install CUDA Toolkit"));
    assert_eq!(GpuInitCause::Other.reason(), None);
}
