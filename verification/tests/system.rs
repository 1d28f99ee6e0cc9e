use sable::system::{count_ones, logical_processor_count, os_version_text, ram_usage_mb};

#[test]
fn ram_in_mebibytes() {
    let gib = 1024u64 * 1024 * 1024;
    assert_eq!(ram_usage_mb(16 * gib, 6 * gib), (10 * 1024, 16 * 1024));
    assert_eq!(ram_usage_mb(1024 * 1024 + 5, 1024 * 1024 - 1), (1, 1));
}

#[test]
fn bits_of_masks() {
    assert_eq!(count_ones(0), 0);
    assert_eq!(count_ones(0b1011), 3);
    assert_eq!(count_ones(u64::MAX), 64);
    assert_eq!(logical_processor_count(&vec![0b11, 0b1100, 0b110000]), Some(6));
    assert_eq!(logical_processor_count(&vec![]), None);
    assert_eq!(logical_processor_count(&vec![0, 0]), None);
}

#[test]
fn os_version_names() {
    assert_eq!(
        os_version_text(Some("Windows 11 Pro".to_string()), Some("23H2".to_string())),
        "Windows 11 Pro 23H2"
    );
    assert_eq!(os_version_text(None, Some("22H2".to_string())), "Windows 22H2");
    assert_eq!(os_version_text(Some("Windows 10 Home".to_string()), None), "Windows 10 Home");
    assert_eq!(os_version_text(None, None), "Windows");
}
