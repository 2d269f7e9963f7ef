use jinspect::error::DecodeError;
use jinspect::flag::AccessFlag;
use jinspect::reader::ByteReader;

#[test]
fn class_mask_yields_labels_in_table_order() {
    // Bits for "public" and "super".
    let flag = AccessFlag::ClassLevel(0x0021);
    assert_eq!(flag.to_string(), "public super");
}

#[test]
fn label_string_is_deterministic() {
    let flag = AccessFlag::MethodLevel(0x0009);
    let first = flag.to_string();
    let second = flag.to_string();
    assert_eq!(first, second);
    assert_eq!(first, "public static");
}

#[test]
fn no_matching_bit_yields_empty_text() {
    let flag = AccessFlag::ClassLevel(0x0000);
    assert_eq!(flag.to_string(), "");
}

#[test]
fn field_and_method_tables_differ() {
    // 0x0040 is "volatile" for fields but "bridge" for methods.
    assert_eq!(AccessFlag::FieldLevel(0x0040).to_string(), "volatile");
    assert_eq!(AccessFlag::MethodLevel(0x0040).to_string(), "bridge");
}

#[test]
fn parse_reads_big_endian_mask_per_context() {
    let mut r = ByteReader::new(vec![0x00, 0x21, 0x00, 0x01, 0x04, 0x01]);
    assert_eq!(AccessFlag::parse_class_level(&mut r).unwrap(), AccessFlag::ClassLevel(0x21));
    assert_eq!(AccessFlag::parse_field_level(&mut r).unwrap(), AccessFlag::FieldLevel(0x01));
    assert_eq!(AccessFlag::parse_method_level(&mut r).unwrap(), AccessFlag::MethodLevel(0x0401));
    assert_eq!(AccessFlag::parse_class_level(&mut r), Err(DecodeError::IoTruncated));
}

#[test]
fn level_names_follow_context() {
    assert_eq!(AccessFlag::ClassLevel(0).level_name(), "Class");
    assert_eq!(AccessFlag::FieldLevel(0).level_name(), "Field");
    assert_eq!(AccessFlag::MethodLevel(0).level_name(), "Method");
}
