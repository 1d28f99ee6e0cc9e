use sable::ids::{invalid_uuid_text, parse_uuid};

#[test]
fn hyphenated_uuid_reads_as_its_value() {
    assert_eq!(
        parse_uuid("8c5e7fda-e8bf-4a96-9a85-a6e23a8c635c"),
        Ok(0x8c5e7fda_e8bf_4a96_9a85_a6e23a8c635c)
    );
    assert_eq!(parse_uuid("00000000-0000-0000-0000-000000000001"), Ok(1));
    assert_eq!(
        parse_uuid("8C5E7FDA-E8BF-4A96-9A85-A6E23A8C635C"),
        Ok(0x8c5e7fda_e8bf_4a96_9a85_a6e23a8c635c)
    );
}

#[test]
fn other_forms_the_crate_accepts() {
    assert_eq!(parse_uuid("8c5e7fdae8bf4a969a85a6e23a8c635c"), Ok(0x8c5e7fda_e8bf_4a96_9a85_a6e23a8c635c));
    assert_eq!(
        parse_uuid("{8c5e7fda-e8bf-4a96-9a85-a6e23a8c635c}"),
        Ok(0x8c5e7fda_e8bf_4a96_9a85_a6e23a8c635c)
    );
}

#[test]
fn rejected_uuid_message() {
    let e = parse_uuid("not-a-uuid").unwrap_err();
    assert!(e.starts_with("Invalid UUID 'not-a-uuid': "));
    let why = uuid::Uuid::parse_str("not-a-uuid").unwrap_err().to_string();
    assert_eq!(e, invalid_uuid_text("not-a-uuid", &why));
    assert!(!why.is_empty());
    assert_eq!(invalid_uuid_text("x", "why"), "Invalid UUID 'x': why");
}
