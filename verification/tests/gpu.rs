use sable::gpu::{bytes_to_mib, engine_name_is_3d, is_3d_engine_instance, is_software_adapter, nv_gpu_usage_pct, vendor_from_id, GpuVendor};

#[test]
fn vendors_by_pci_id() {
    assert_eq!(vendor_from_id(0x10DE), GpuVendor::Nvidia);
    assert_eq!(vendor_from_id(0x1002), GpuVendor::Amd);
    assert_eq!(vendor_from_id(0x1022), GpuVendor::Amd);
    assert_eq!(vendor_from_id(0x8086), GpuVendor::Intel);
    assert_eq!(vendor_from_id(0x1414), GpuVendor::Unknown);
}

#[test]
fn software_adapters() {
    assert!(is_software_adapter(2, 0x10DE));
    assert!(is_software_adapter(0, 0x1414));
    assert!(!is_software_adapter(0, 0x10DE));
    assert!(!is_software_adapter(1, 0x1002));
}

#[test]
fn mebibytes_round_down() {
    assert_eq!(bytes_to_mib(8 * 1024 * 1024 * 1024), 8192);
    assert_eq!(bytes_to_mib(1024 * 1024 - 1), 0);
}

#[test]
fn nvapi_usage_slot() {
    let mut u = [0u32; 34];
    u[3] = 57;
    assert_eq!(nv_gpu_usage_pct(&u), 57);
    u[3] = 250;
    assert_eq!(nv_gpu_usage_pct(&u), 100);
}

#[test]
fn three_d_engines() {
    assert!(engine_name_is_3d("pid_1234_luid_0x0_0x1_phys_0_eng_0_engtype_3D"));
    assert!(engine_name_is_3d("GPU 3d"));
    assert!(!engine_name_is_3d("pid_1234_luid_0x0_0x1_phys_0_eng_4_engtype_Copy"));
    assert!(!engine_name_is_3d("engtype_VideoDecode"));
}

#[test]
fn exact_3d_engine_tag() {
    assert!(is_3d_engine_instance("pid_1_luid_0x0_0x1_phys_0_eng_0_engtype_3D"));
    assert!(!is_3d_engine_instance("pid_1_luid_0x0_0x1_phys_0_eng_0_engtype_3d"));
    assert!(!is_3d_engine_instance("engtype_Copy"));
}
