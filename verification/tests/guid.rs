use sable::guid::{format_guid, guid_text_slices_badly, parse_guid, Guid, GuidParseError};

#[test]
fn test_parse_guid() {
    let result = parse_guid("8c5e7fda-e8bf-4a96-9a85-a6e23a8c635c");
    assert!(result.is_ok());
}

#[test]
fn parse_guid_reads_the_fields() {
    let g = parse_guid("8c5e7fda-e8bf-4a96-9a85-a6e23a8c635c").unwrap();
    assert_eq!(g.data1, 0x8c5e7fda);
    assert_eq!(g.data2, 0xe8bf);
    assert_eq!(g.data3, 0x4a96);
    assert_eq!(g.data4, [0x9a, 0x85, 0xa6, 0xe2, 0x3a, 0x8c, 0x63, 0x5c]);
    // upper case and missing hyphens are read the same way
    assert_eq!(parse_guid("8C5E7FDAE8BF4A969A85A6E23A8C635C").unwrap(), g);
}

#[test]
fn parse_guid_errors() {
    assert_eq!(parse_guid(""), Err(GuidParseError::TooShort));
    assert_eq!(parse_guid("8c5e7fda-e8bf-4a96-9a85"), Err(GuidParseError::TooShort));
    assert_eq!(
        parse_guid("8c5e7fdz-e8bf-4a96-9a85-a6e23a8c635c"),
        Err(GuidParseError::BadHex)
    );
    // a leading plus sign is accepted by the field reader
    let g = parse_guid("+c5e7fda-e8bf-4a96-9a85-a6e23a8c635c").unwrap();
    assert_eq!(g.data1, 0x0c5e7fda);
}

#[test]
fn guid_text_that_would_slice_a_character() {
    assert!(guid_text_slices_badly("日日日日日日日日日日日日"));
    assert!(!guid_text_slices_badly("8c5e7fda-e8bf-4a96-9a85-a6e23a8c635c"));
    assert!(!guid_text_slices_badly(""));
}

#[test]
fn format_then_parse_gives_the_same_guid() {
    let g = Guid {
        data1: 0x0000_00ab,
        data2: 0x0c,
        data3: 0xffff,
        data4: [0, 1, 2, 3, 0xfe, 0xdc, 0xba, 0x98],
    };
    let t = format_guid(&g);
    assert_eq!(t, "000000ab-000c-ffff-0001-0203fedcba98");
    assert_eq!(parse_guid(&t).unwrap(), g);
}
