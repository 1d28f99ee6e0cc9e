use sable::present_ids::{
    payload_flags, present_counts_as_frame, PresentProvider,
    is_d3d9_present_start, is_dxgi_present_start, D3D9_PRESENT_START, DXGI_PRESENT_MPO_START,
    DXGI_PRESENT_START, DXGI_RESIZEBUFFERS_START, DXGI_SWAPCHAIN_START,
};

#[test]
fn presentmon_ids_are_frames() {
    assert!(is_dxgi_present_start(42));
    assert!(is_dxgi_present_start(55));
    assert!(is_d3d9_present_start(1));
}

#[test]
fn opcode1_lookalikes_are_not_frames() {
    assert!(!is_dxgi_present_start(DXGI_SWAPCHAIN_START));
    assert!(!is_dxgi_present_start(DXGI_RESIZEBUFFERS_START));
    assert!(!is_dxgi_present_start(43)); // Present_Stop
}

#[test]
fn presentmon_frame_ids_only() {
    assert!(is_dxgi_present_start(DXGI_PRESENT_START));
    assert!(is_dxgi_present_start(DXGI_PRESENT_MPO_START));
    assert!(!is_dxgi_present_start(DXGI_SWAPCHAIN_START));
    assert!(!is_dxgi_present_start(DXGI_RESIZEBUFFERS_START));
    assert!(is_d3d9_present_start(D3D9_PRESENT_START));
}

#[test]
fn d3d9_ids_other_than_present_start_are_not_frames() {
    assert!(!is_d3d9_present_start(0));
    assert!(!is_d3d9_present_start(2));
    assert!(!is_d3d9_present_start(42));
}

#[test]
fn payload_flags_at_byte_eight() {
    assert_eq!(payload_flags(&[0u8; 11]), None);
    assert_eq!(payload_flags(&[0, 0, 0, 0, 0, 0, 0, 0, 1, 0, 0, 0]), Some(1));
    assert_eq!(payload_flags(&[9, 9, 9, 9, 9, 9, 9, 9, 0x78, 0x56, 0x34, 0x12, 7]), Some(0x1234_5678));
}

#[test]
fn test_presents_are_not_frames() {
    assert!(present_counts_as_frame(PresentProvider::Dxgi, 42, Some(0)));
    assert!(!present_counts_as_frame(PresentProvider::Dxgi, 42, Some(1)));
    assert!(present_counts_as_frame(PresentProvider::Dxgi, 55, None));
    assert!(present_counts_as_frame(PresentProvider::D3d9, 1, Some(2)));
    assert!(!present_counts_as_frame(PresentProvider::D3d9, 42, None));
    assert!(!present_counts_as_frame(PresentProvider::Other, 42, None));
}
