use rust_llm_runner::hardware::{
    detect_accelerator, gpu_layers, optimal_threads, parse_device_count, Accelerator, AcceleratorType,
};

#[test]
fn detection_prefers_metal_then_cuda() {
    assert_eq!(detect_accelerator(true, true), AcceleratorType::Metal);
    assert_eq!(detect_accelerator(false, true), AcceleratorType::CUDA);
    assert_eq!(detect_accelerator(false, false), AcceleratorType::CPU);
}

#[test]
fn accelerator_counts_and_layers() {
    let cpu = Accelerator::new(AcceleratorType::CPU, 4, false);
    assert_eq!(cpu.get_type(), AcceleratorType::CPU);
    assert_eq!(cpu.device_count(), 1);
    assert!(!cpu.is_gpu_available());
    assert_eq!(cpu.get_recommended_layers(), 0);
    let cuda = Accelerator::new(AcceleratorType::CUDA, 2, false);
    assert_eq!(cuda.device_count(), 2);
    assert_eq!(cuda.get_recommended_layers(), -1);
    assert_eq!(Accelerator::new(AcceleratorType::Metal, 0, false).device_count(), 0);
    assert_eq!(Accelerator::new(AcceleratorType::Metal, 0, true).device_count(), 1);
    assert_eq!(Accelerator::new(AcceleratorType::ROCm, 3, true).device_count(), 0);
}

#[test]
fn device_count_output_parsing() {
    assert_eq!(parse_device_count("  2\n"), 2);
    assert_eq!(parse_device_count("+3"), 3);
    assert_eq!(parse_device_count("2\n2\n"), 0);
    assert_eq!(parse_device_count(""), 0);
    assert_eq!(parse_device_count("-1"), 0);
}

#[test]
fn gpu_layer_override() {
    assert_eq!(gpu_layers(Some("12"), false), 12);
    assert_eq!(gpu_layers(Some("0"), true), 0);
    assert_eq!(gpu_layers(Some("-1"), false), u32::MAX);
    assert_eq!(gpu_layers(Some("x"), true), 999);
    assert_eq!(gpu_layers(None, false), 0);
    assert_eq!(gpu_layers(Some("99999999999"), false), 0);
}

#[test]
fn thread_choice() {
    assert_eq!(optimal_threads(Some("6"), 16, true), 6);
    assert_eq!(optimal_threads(None, 16, true), 8);
    assert_eq!(optimal_threads(None, 6, true), 4);
    assert_eq!(optimal_threads(None, 6, false), 6);
    assert_eq!(optimal_threads(Some("bad"), 2, false), 2);
}
