use sable::wide::{registry_sz, registry_value_text, utf16_name};

fn units(s: &str) -> Vec<u16> {
    s.encode_utf16().collect()
}

#[test]
fn adapter_name_stops_at_nul() {
    let mut raw = units("  NVIDIA GeForce RTX 4080 ");
    raw.push(0);
    raw.extend(units("garbage"));
    raw.resize(128, 0);
    assert_eq!(utf16_name(&raw), "NVIDIA GeForce RTX 4080");
    assert_eq!(utf16_name(&units("Radeon")), "Radeon");
    assert_eq!(utf16_name(&[0u16; 4]), "");
}

#[test]
fn registry_sz_drops_the_terminator_and_trims() {
    let mut buf = units(" 31.0.15.5222 ");
    buf.push(0);
    let size = (buf.len() * 2) as u32;
    buf.resize(128, 0);
    assert_eq!(registry_sz(&buf, size), "31.0.15.5222");
    assert_eq!(registry_sz(&buf, 0), "");
    assert_eq!(registry_sz(&buf, 1), "");
}

#[test]
fn registry_sz_stays_in_the_buffer() {
    let buf = units("abc");
    assert_eq!(registry_sz(&buf, 100), "abc");
}

#[test]
fn registry_value_keeps_spaces_and_drops_nuls() {
    let mut buf = units(" C:\\Games ");
    buf.push(0);
    buf.push(0);
    let size = (buf.len() * 2) as u32;
    assert_eq!(registry_value_text(&buf, size), " C:\\Games ");
    assert_eq!(registry_value_text(&buf, 1000), " C:\\Games ");
}

#[test]
fn unpaired_surrogate_becomes_replacement() {
    let buf = vec![0x48u16, 0xD800, 0x49];
    assert_eq!(utf16_name(&buf), "H\u{FFFD}I");
}

#[test]
fn power_plan_names() {
    use_name(&units("  High performance \u{0}junk"), "High performance");
    use_name(&[0u16, 65, 66], "Unknown");
    use_name(&units("   "), "Unknown");
}

fn use_name(buf: &[u16], expected: &str) {
    assert_eq!(sable::wide::power_plan_display_name(buf), expected);
}
