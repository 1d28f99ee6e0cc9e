//! GPU identity: vendor ids, the software-adapter test, memory units and
//! the GPU engine counters that count as 3D load.
use vstd::prelude::*;
use crate::text::{ascii_lower_chars, ascii_lower_seq, chars_of, contains, contains_exec};

verus! {

/// The GPU vendor, from the PCI vendor id.
#[derive(Debug, Clone, Copy, PartialEq, Eq, Structural)]
pub enum GpuVendor {
    Nvidia,
    Amd,
    Intel,
    Unknown,
}

/// Static identity of the gaming GPU.
#[derive(Debug, Clone)]
pub struct GpuInfo {
    pub vendor: GpuVendor,
    pub name: String,
    pub driver_version: String,
    pub vram_total_mb: u64,
}

/// PCI vendor id of NVIDIA.
pub const VENDOR_NVIDIA: u32 = 0x10DE;

/// PCI vendor id of AMD.
pub const VENDOR_AMD: u32 = 0x1002;

/// The second PCI vendor id that AMD/ATI devices report.
pub const VENDOR_AMD_ATI: u32 = 0x1022;

/// PCI vendor id of Intel.
pub const VENDOR_INTEL: u32 = 0x8086;

/// PCI vendor id of Microsoft, which the Basic Render Driver reports.
pub const VENDOR_MICROSOFT: u32 = 0x1414;

/// `DXGI_ADAPTER_FLAG_SOFTWARE`.
pub const ADAPTER_FLAG_SOFTWARE: u32 = 2;

/// The vendor that a PCI vendor id names.
pub open spec fn vendor_of(id: u32) -> GpuVendor {
    if id == VENDOR_NVIDIA {
        GpuVendor::Nvidia
    } else if id == VENDOR_AMD || id == VENDOR_AMD_ATI {
        GpuVendor::Amd
    } else if id == VENDOR_INTEL {
        GpuVendor::Intel
    } else {
        GpuVendor::Unknown
    }
}

/// Maps a PCI vendor id to the GPU vendor.
pub fn vendor_from_id(id: u32) -> (r: GpuVendor)
    ensures
        r == vendor_of(id),
{
    if id == VENDOR_NVIDIA {
        GpuVendor::Nvidia
    } else if id == VENDOR_AMD || id == VENDOR_AMD_ATI {
        GpuVendor::Amd
    } else if id == VENDOR_INTEL {
        GpuVendor::Intel
    } else {
        GpuVendor::Unknown
    }
}

/// A DXGI adapter is a software one when its flags carry
/// `DXGI_ADAPTER_FLAG_SOFTWARE` or its vendor is Microsoft (the Basic Render
/// Driver); such adapters are skipped when the gaming GPU is chosen.
pub fn is_software_adapter(flags: u32, vendor_id: u32) -> (r: bool)
    ensures
        r == ((flags & ADAPTER_FLAG_SOFTWARE) != 0 || vendor_id == VENDOR_MICROSOFT),
{
    (flags & ADAPTER_FLAG_SOFTWARE) != 0 || vendor_id == VENDOR_MICROSOFT
}

/// Whole mebibytes in a byte count, rounded down.
pub fn bytes_to_mib(bytes: u64) -> (r: u64)
    ensures
        r as int == bytes as int / 1048576,
{
    bytes / (1024 * 1024)
}

/// Number of slots in the NVAPI usages block.
pub const NV_USAGE_SLOTS: usize = 34;

/// The GPU load that NVAPI `GetUsages` reports: slot 3 of the usages block,
/// capped at 100.
pub fn nv_gpu_usage_pct(usage: &[u32; 34]) -> (r: u32)
    ensures
        r == if usage@[3] <= 100 {
            usage@[3]
        } else {
            100
        },
{
    let v = usage[3];
    if v <= 100 {
        v
    } else {
        100
    }
}

/// Whether a `GPU Engine` performance-counter instance name is a 3D engine:
/// its ASCII-lowercased form contains `engtype_3d` or `3d`.
pub fn engine_name_is_3d(name: &str) -> (r: bool)
    ensures
        r == (contains(ascii_lower_seq(name@), "engtype_3d"@) || contains(
            ascii_lower_seq(name@),
            "3d"@,
        )),
{
    let lower = ascii_lower_chars(&chars_of(name));
    contains_exec(&lower, &chars_of("engtype_3d")) || contains_exec(&lower, &chars_of("3d"))
}

/// Whether a `GPU Engine` counter instance name carries the exact
/// `engtype_3D` tag (the test the service's own GPU counter applies).
pub fn is_3d_engine_instance(name: &str) -> (r: bool)
    ensures
        r == contains(name@, "engtype_3D"@),
{
    contains_exec(&chars_of(name), &chars_of("engtype_3D"))
}

} // verus!
