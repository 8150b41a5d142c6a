use rosregview::output::value::{
    decode_dword, decode_qword, decode_string_value, format_multi_lines, reg_type_from_code,
    reg_type_label, trim_nul_string, DataJson, RawBytesPreview, RegType,
};

#[test]
fn reg_type_label_covers_all_nt_hive_variants() {
    let labels = [
        (RegType::RegNone, "REG_NONE"),
        (RegType::RegSZ, "REG_SZ"),
        (RegType::RegExpandSZ, "REG_EXPAND_SZ"),
        (RegType::RegBinary, "REG_BINARY"),
        (RegType::RegDWord, "REG_DWORD"),
        (RegType::RegDWordBigEndian, "REG_DWORD_BIG_ENDIAN"),
        (RegType::RegLink, "REG_LINK"),
        (RegType::RegMultiSZ, "REG_MULTI_SZ"),
        (RegType::RegResourceList, "REG_RESOURCE_LIST"),
        (RegType::RegFullResourceDescriptor, "REG_FULL_RESOURCE_DESCRIPTOR"),
        (
            RegType::RegResourceRequirementsList,
            "REG_RESOURCE_REQUIREMENTS_LIST",
        ),
        (RegType::RegQWord, "REG_QWORD"),
    ];
    for (variant, expected) in labels {
        assert_eq!(reg_type_label(variant), expected);
    }
}

#[test]
fn string_search_text_is_not_truncated_with_display() {
    let input = format!("{}needle", "x".repeat(100));
    let formatted = decode_string_value(&input, false);
    assert!(!formatted.human.contains("needle"));
    assert!(formatted.search.contains("needle"));
    assert!(matches!(formatted.json, DataJson::Null));
}

#[test]
fn reg_type_codes_follow_the_on_disk_numbers() {
    assert_eq!(reg_type_from_code(0), RegType::RegNone);
    assert_eq!(reg_type_from_code(1), RegType::RegSZ);
    assert_eq!(reg_type_from_code(4), RegType::RegDWord);
    assert_eq!(reg_type_from_code(5), RegType::RegDWordBigEndian);
    assert_eq!(reg_type_from_code(7), RegType::RegMultiSZ);
    assert_eq!(reg_type_from_code(11), RegType::RegQWord);
}

#[test]
fn string_value_drops_trailing_nuls_and_cuts_display() {
    let fv = decode_string_value("sz-test\0\0", true);
    assert_eq!(fv.human, "sz-test");
    assert_eq!(fv.search, "sz-test");
    assert!(matches!(&fv.json, DataJson::Text(t) if t == "sz-test"));

    let long = "y".repeat(81);
    let fv = decode_string_value(&long, false);
    assert_eq!(fv.human.chars().count(), 80);
    assert!(fv.human.ends_with('…'));
    assert_eq!(fv.search, long);

    let exact = "z".repeat(80);
    assert_eq!(decode_string_value(&exact, false).human, exact);
}

#[test]
fn dword_renders_decimal_and_padded_hex() {
    let fv = decode_dword(42, true);
    assert_eq!(fv.human, "42 (0x0000002a)");
    assert_eq!(fv.search, "42 (0x0000002a)");
    assert!(matches!(fv.json, DataJson::Number(42)));
    assert_eq!(decode_dword(u32::MAX, false).human, "4294967295 (0xffffffff)");
    assert!(matches!(decode_dword(0, false).json, DataJson::Null));
}

#[test]
fn qword_renders_decimal_and_padded_hex() {
    let fv = decode_qword(u64::MAX, true);
    assert_eq!(fv.human, "18446744073709551615 (0xffffffffffffffff)");
    assert!(matches!(fv.json, DataJson::Number(n) if n == u64::MAX));
    assert_eq!(decode_qword(1, false).human, "1 (0x0000000000000001)");
}

#[test]
fn multi_string_lines_are_joined_or_empty() {
    let fv = format_multi_lines(vec!["a".to_string(), "b".to_string()], true);
    assert_eq!(fv.human, "a  |  b");
    assert_eq!(fv.search, "a  |  b");
    assert!(matches!(&fv.json, DataJson::Lines(ls) if ls.len() == 2 && ls[0] == "a" && ls[1] == "b"));

    let fv = format_multi_lines(Vec::new(), false);
    assert_eq!(fv.human, "<empty>");
    assert!(matches!(fv.json, DataJson::Null));

    let many: Vec<String> = (0..30).map(|i| format!("line{i}")).collect();
    let fv = format_multi_lines(many, false);
    assert_eq!(fv.human.chars().count(), 80);
    assert!(fv.search.contains("line29"));
}

#[test]
fn trim_nul_string_only_trims_the_end() {
    assert_eq!(trim_nul_string("a\0b\0\0"), "a\0b");
    assert_eq!(trim_nul_string("\0"), "");
    assert_eq!(trim_nul_string("plain"), "plain");
}

#[test]
fn raw_preview_shows_the_first_bytes_and_counts_the_rest() {
    let mut p = RawBytesPreview::new(true);
    let data: Vec<u8> = (0u8..40).collect();
    p.consume(&data[0..10]);
    p.consume(&data[10..40]);
    let fv = p.finish();
    let head: Vec<String> = (0u8..32).map(|b| format!("{b:02x}")).collect();
    let expected = format!("{} … (8 more bytes)", head.join(" "));
    assert_eq!(fv.human, expected);
    assert_eq!(fv.search, expected);
    assert!(matches!(&fv.json, DataJson::Bytes(b) if *b == data));
}

#[test]
fn raw_preview_of_short_data_is_a_plain_hex_dump() {
    let mut p = RawBytesPreview::new(false);
    p.consume(&[0xde, 0xad]);
    p.consume(&[]);
    p.consume(&[0xbe, 0xef]);
    let fv = p.finish();
    assert_eq!(fv.human, "de ad be ef");
    assert!(matches!(fv.json, DataJson::Null));

    let empty = RawBytesPreview::new(true).finish();
    assert_eq!(empty.human, "");
    assert!(matches!(&empty.json, DataJson::Bytes(b) if b.is_empty()));
}

#[test]
fn raw_preview_of_exactly_the_preview_size_has_no_suffix() {
    let mut p = RawBytesPreview::new(false);
    p.consume(&[0u8; 32]);
    let fv = p.finish();
    assert!(!fv.human.contains("more bytes"));
    assert_eq!(fv.human.len(), 32 * 3 - 1);
}
