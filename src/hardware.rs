use vstd::prelude::*;

use crate::text::{parse_i32, parse_usize, parsed_i32, parsed_usize, trim_text, trimmed};

verus! {

/// The compute device inference runs on.
#[derive(Debug, Clone, Copy, PartialEq, Eq, Structural)]
pub enum AcceleratorType {
    CPU,
    CUDA,
    Metal,
    ROCm,
}

/// Picks the device from what was probed: Metal first (on macOS), then CUDA,
/// else the CPU.
pub fn detect_accelerator(metal_available: bool, cuda_available: bool) -> (r: AcceleratorType)
    ensures
        r == (if metal_available {
            AcceleratorType::Metal
        } else if cuda_available {
            AcceleratorType::CUDA
        } else {
            AcceleratorType::CPU
        }),
{
    if metal_available {
        return AcceleratorType::Metal;
    }
    if cuda_available {
        return AcceleratorType::CUDA;
    }
    AcceleratorType::CPU
}

pub open spec fn device_count_of(t: AcceleratorType, cuda_devices: usize, on_macos: bool) -> usize {
    match t {
        AcceleratorType::CPU => 1,
        AcceleratorType::CUDA => cuda_devices,
        AcceleratorType::Metal => if on_macos { 1 } else { 0 },
        AcceleratorType::ROCm => 0,
    }
}

/// The GPU count that `nvidia-smi --query-gpu=count` printed: the trimmed
/// output read as a number, 0 when it is not one.
pub fn parse_device_count(output: &str) -> (r: usize)
    ensures
        r == (match parsed_usize(trimmed(output@)) {
            Some(n) => n,
            None => 0,
        }),
{
    let t = trim_text(output);
    match parse_usize(t.as_str()) {
        Some(n) => n,
        None => 0,
    }
}

/// The device chosen for inference and how many of it there are.
pub struct Accelerator {
    accel_type: AcceleratorType,
    device_count: usize,
}

impl Accelerator {
    pub closed spec fn kind(&self) -> AcceleratorType {
        self.accel_type
    }

    pub closed spec fn count(&self) -> usize {
        self.device_count
    }

    /// An accelerator of type `accel_type`; `cuda_devices` is the probed CUDA
    /// device count and `on_macos` whether Metal can be present.
    pub fn new(accel_type: AcceleratorType, cuda_devices: usize, on_macos: bool) -> (r: Self)
        ensures
            r.kind() == accel_type,
            r.count() == device_count_of(accel_type, cuda_devices, on_macos),
    {
        let device_count = Self::get_device_count(accel_type, cuda_devices, on_macos);
        Accelerator { accel_type, device_count }
    }

    fn get_device_count(accel_type: AcceleratorType, cuda_devices: usize, on_macos: bool) -> (r: usize)
        ensures
            r == device_count_of(accel_type, cuda_devices, on_macos),
    {
        match accel_type {
            AcceleratorType::CPU => 1,
            AcceleratorType::CUDA => cuda_devices,
            AcceleratorType::Metal => if on_macos {
                1
            } else {
                0
            },
            AcceleratorType::ROCm => 0,
        }
    }

    pub fn get_type(&self) -> (r: AcceleratorType)
        ensures
            r == self.kind(),
    {
        self.accel_type
    }

    pub fn device_count(&self) -> (r: usize)
        ensures
            r == self.count(),
    {
        self.device_count
    }

    pub fn is_gpu_available(&self) -> (r: bool)
        ensures
            r == (self.kind() != AcceleratorType::CPU),
    {
        match self.accel_type {
            AcceleratorType::CUDA | AcceleratorType::Metal | AcceleratorType::ROCm => true,
            AcceleratorType::CPU => false,
        }
    }

    /// Layers to offload: all of them (-1) on a GPU, none on the CPU.
    pub fn get_recommended_layers(&self) -> (r: i32)
        ensures
            r == (if self.kind() != AcceleratorType::CPU { -1i32 } else { 0i32 }),
    {
        if self.is_gpu_available() {
            -1
        } else {
            0
        }
    }
}

/// Layers offloaded to the GPU: an override that reads as a number wins
/// (a negative one wraps, as a cast to `u32` does), else 999 with a GPU, else 0.
pub fn gpu_layers(override_value: Option<&str>, gpu_present: bool) -> (r: u32)
    ensures
        r == (match override_value {
            Some(v) => match parsed_i32(v@) {
                Some(n) => n as u32,
                None => if gpu_present { 999u32 } else { 0u32 },
            },
            None => if gpu_present { 999u32 } else { 0u32 },
        }),
{
    if let Some(v) = override_value {
        if let Some(n) = parse_i32(v) {
            return n as u32;
        }
    }
    if gpu_present {
        999
    } else {
        0
    }
}

/// CPU threads for inference: an override that reads as a number wins;
/// else half the cores (at least 4) with an NVIDIA GPU, or all of them.
pub fn optimal_threads(override_value: Option<&str>, cpus: usize, nvidia_gpu: bool) -> (r: usize)
    ensures
        r == (match override_value {
            Some(v) => match parsed_usize(v@) {
                Some(n) => n,
                None => if nvidia_gpu { if cpus / 2 > 4 { cpus / 2 } else { 4 } } else { cpus },
            },
            None => if nvidia_gpu { if cpus / 2 > 4 { cpus / 2 } else { 4 } } else { cpus },
        }),
{
    if let Some(v) = override_value {
        if let Some(n) = parse_usize(v) {
            return n;
        }
    }
    if nvidia_gpu {
        let half = cpus / 2;
        if half > 4 {
            half
        } else {
            4
        }
    } else {
        cpus
    }
}

} // verus!
