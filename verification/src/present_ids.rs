//! PresentMon event ids of the DXGI and D3D9 providers that mark a frame.
use vstd::prelude::*;
use crate::ipc::{le_value, prefix_len};

verus! {

/// Microsoft-Windows-DXGI Present::Start
pub const DXGI_PRESENT_START: u16 = 0x002a;

/// Microsoft-Windows-DXGI PresentMultiplaneOverlay::Start
pub const DXGI_PRESENT_MPO_START: u16 = 0x0037;

/// Microsoft-Windows-D3D9 Present::Start
pub const D3D9_PRESENT_START: u16 = 0x0001;

/// DXGI_PRESENT_TEST: a status probe, not a displayed frame.
pub const DXGI_PRESENT_TEST: u32 = 0x1;

/// SwapChain::Start uses opcode 1 as well; it is not a frame.
pub const DXGI_SWAPCHAIN_START: u16 = 0x000a;

/// ResizeBuffers::Start uses opcode 1 as well; it is not a frame.
pub const DXGI_RESIZEBUFFERS_START: u16 = 0x002d;

/// The DXGI event ids that mark a presented frame.
pub open spec fn dxgi_frame_id(id: u16) -> bool {
    id == DXGI_PRESENT_START || id == DXGI_PRESENT_MPO_START
}

/// True exactly for the DXGI Present::Start and PresentMultiplaneOverlay::Start ids.
pub fn is_dxgi_present_start(id: u16) -> (r: bool)
    ensures
        r == dxgi_frame_id(id),
{
    id == DXGI_PRESENT_START || id == DXGI_PRESENT_MPO_START
}

/// True exactly for the D3D9 Present::Start id.
pub fn is_d3d9_present_start(id: u16) -> (r: bool)
    ensures
        r == (id == D3D9_PRESENT_START),
{
    id == D3D9_PRESENT_START
}


/// The ETW provider of an event.
#[derive(Debug, Clone, Copy, PartialEq, Eq, Structural)]
pub enum PresentProvider {
    /// Microsoft-Windows-DXGI, {CA11C036-0102-4A2D-A6AD-F03CFED5D3C9}.
    Dxgi,
    /// Microsoft-Windows-D3D9, {783ACA0A-790E-4D7F-8451-AA850511C6B9}.
    D3d9,
    /// Any other provider.
    Other,
}

/// An event is a displayed frame when it is a Present::Start of its
/// provider and its payload does not carry `DXGI_PRESENT_TEST`.
/// `payload_flags` is the DWORD at byte 8 of the event's user data, `None`
/// when the user data is missing or shorter than 12 bytes.
pub open spec fn is_frame_event(provider: PresentProvider, id: u16, payload_flags: Option<u32>) -> bool {
    &&& match provider {
        PresentProvider::Dxgi => dxgi_frame_id(id),
        PresentProvider::D3d9 => id == D3D9_PRESENT_START,
        PresentProvider::Other => false,
    }
    &&& !(payload_flags matches Some(f) && f & DXGI_PRESENT_TEST != 0)
}

/// Whether an ETW event counts as a displayed frame.
pub fn present_counts_as_frame(provider: PresentProvider, id: u16, payload_flags: Option<u32>) -> (r: bool)
    ensures
        r == is_frame_event(provider, id, payload_flags),
{
    let is_frame = match provider {
        PresentProvider::Dxgi => is_dxgi_present_start(id),
        PresentProvider::D3d9 => is_d3d9_present_start(id),
        PresentProvider::Other => false,
    };
    if !is_frame {
        return false;
    }
    match payload_flags {
        Some(f) => f & DXGI_PRESENT_TEST == 0,
        None => true,
    }
}

/// The DWORD at byte 8 of a Present event's user data, read little-endian
/// (the byte order of the machines the events come from), or `None` when
/// the data is shorter than 12 bytes.
pub fn payload_flags(user_data: &[u8]) -> (r: Option<u32>)
    ensures
        match r {
            None => user_data@.len() < 12,
            Some(f) => user_data@.len() >= 12 && f as int == le_value(user_data@.subrange(8, 12)),
        },
{
    if user_data.len() < 12 {
        return None;
    }
    let b = [user_data[8], user_data[9], user_data[10], user_data[11]];
    assert(b@ =~= user_data@.subrange(8, 12));
    Some(prefix_len(b))
}

} // verus!
