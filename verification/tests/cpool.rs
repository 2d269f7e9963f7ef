use jinspect::cpool::{ConstantPool, ConstantPoolItem};
use jinspect::error::DecodeError;
use jinspect::reader::ByteReader;

fn pool_from(bytes: Vec<u8>) -> ConstantPool {
    let mut r = ByteReader::new(bytes);
    ConstantPool::from(&mut r).unwrap()
}

#[test]
fn pool_one_utf8_entry_resolves_and_bounds_fail() {
    // Count field 2 : one live Utf8 entry "Foo" at index 1.
    let bytes = vec![0x00, 0x02, 0x01, 0x00, 0x03, b'F', b'o', b'o'];
    let pool = pool_from(bytes);
    assert_eq!(pool.len(), 1);
    assert_eq!(pool.resolve(1).unwrap(), "Foo");
    assert_eq!(pool.get(2), Err(DecodeError::InvalidPoolIndex));
    assert_eq!(pool.get(0), Err(DecodeError::InvalidPoolIndex));
    assert!(pool.get(1).is_ok());
}

#[test]
fn pool_entry_count_is_count_field_minus_one() {
    // Count field 3 : two live entries.
    let bytes = vec![0x00, 0x03, 0x07, 0x00, 0x01, 0x03, 0x00, 0x00, 0x30, 0x39];
    let pool = pool_from(bytes);
    assert_eq!(pool.len(), 2);
}

#[test]
fn pool_get_succeeds_exactly_in_range() {
    let bytes = vec![0x00, 0x03, 0x07, 0x00, 0x01, 0x08, 0x00, 0x01];
    let pool = pool_from(bytes);
    for i in 1..=pool.len() as u16 {
        assert!(pool.get(i).is_ok());
    }
    assert_eq!(pool.get(0), Err(DecodeError::InvalidPoolIndex));
    assert_eq!(pool.get(pool.len() as u16 + 1), Err(DecodeError::InvalidPoolIndex));
}

#[test]
fn pool_resolve_is_idempotent() {
    let bytes = vec![0x00, 0x03, 0x01, 0x00, 0x02, b'H', b'i', 0x07, 0x00, 0x01];
    let pool = pool_from(bytes);
    let first = pool.resolve(2).unwrap();
    let second = pool.resolve(2).unwrap();
    assert_eq!(first, second);
    assert_eq!(first, "Hi");
}

#[test]
fn pool_class_resolves_to_its_utf8_text() {
    // Index 1: Utf8 "Foo"; index 2: Class -> 1.
    let bytes = vec![0x00, 0x03, 0x01, 0x00, 0x03, b'F', b'o', b'o', 0x07, 0x00, 0x01];
    let pool = pool_from(bytes);
    assert_eq!(pool.resolve(2).unwrap(), pool.resolve(1).unwrap());
    assert_eq!(pool.resolve(2).unwrap(), "Foo");
}

#[test]
fn pool_fieldref_resolves_with_prefix() {
    // 1: Fieldref(2, 3); 2: Utf8 "name"; 3: Utf8 "I".
    let bytes = vec![
        0x00, 0x04, 0x09, 0x00, 0x02, 0x00, 0x03, 0x01, 0x00, 0x04, b'n', b'a', b'm', b'e', 0x01,
        0x00, 0x01, b'I',
    ];
    let pool = pool_from(bytes);
    assert_eq!(pool.resolve(1).unwrap(), "Field: name I");
}

#[test]
fn pool_name_and_type_joins_with_space() {
    let bytes = vec![
        0x00, 0x04, 0x0C, 0x00, 0x02, 0x00, 0x03, 0x01, 0x00, 0x01, b'f', 0x01, 0x00, 0x01, b'V',
    ];
    let pool = pool_from(bytes);
    assert_eq!(pool.resolve(1).unwrap(), "f V");
}

#[test]
fn pool_numeric_entries_resolve_to_decimal_text() {
    // 1: Integer 12345; 2: Long high 1 low 2.
    let bytes = vec![
        0x00, 0x03, 0x03, 0x00, 0x00, 0x30, 0x39, 0x05, 0x00, 0x00, 0x00, 0x01, 0x00, 0x00, 0x00,
        0x02,
    ];
    let pool = pool_from(bytes);
    assert_eq!(pool.resolve(1).unwrap(), "12345");
    assert_eq!(pool.resolve(2).unwrap(), "H:1,L:2");
}

#[test]
fn pool_unknown_tag_is_kept_not_fatal() {
    // Tag 99 is unrecognized; the entry after it still parses.
    let bytes = vec![0x00, 0x03, 0x63, 0x01, 0x00, 0x02, b'o', b'k'];
    let pool = pool_from(bytes);
    assert_eq!(pool.len(), 2);
    assert_eq!(pool.resolve(1).unwrap(), "Unknown(99)");
    assert_eq!(pool.resolve(2).unwrap(), "ok");
}

#[test]
fn pool_method_entry_kind_is_unresolved() {
    let bytes = vec![0x00, 0x02, 0x0A, 0x00, 0x01, 0x00, 0x01];
    let pool = pool_from(bytes);
    assert_eq!(pool.resolve(1), Err(DecodeError::UnresolvedEntryKind));
}

#[test]
fn pool_self_referential_class_is_too_deep() {
    let bytes = vec![0x00, 0x02, 0x07, 0x00, 0x01];
    let pool = pool_from(bytes);
    assert_eq!(pool.resolve(1), Err(DecodeError::ResolutionTooDeep));
}

#[test]
fn pool_truncated_stream_is_fatal() {
    let mut r = ByteReader::new(vec![0x00, 0x03, 0x01, 0x00, 0x08, b'x']);
    assert!(matches!(ConstantPool::from(&mut r), Err(DecodeError::IoTruncated)));
}

#[test]
fn pool_invalid_utf8_is_fatal() {
    let mut r = ByteReader::new(vec![0x00, 0x02, 0x01, 0x00, 0x01, 0xFF]);
    assert!(matches!(ConstantPool::from(&mut r), Err(DecodeError::InvalidText)));
}

#[test]
fn pool_item_resolve_and_display() {
    let bytes = vec![0x00, 0x02, 0x01, 0x00, 0x03, b'F', b'o', b'o'];
    let pool = pool_from(bytes);
    let item = pool.get(1).unwrap();
    assert_eq!(item.resolve(&pool).unwrap(), "Foo");
    assert_eq!(item.as_type(), "UTF8");
    assert_eq!(item.as_value(), "Foo");
    assert_eq!(item.display_string(), "UTF8 => Value: Foo");

    let class = ConstantPoolItem::Class(3);
    assert_eq!(class.as_type(), "CLASS");
    assert_eq!(class.as_value(), "CLASS");
    assert_eq!(class.display_string(), "Class => Index: 3");

    let field = ConstantPoolItem::Field(2, 7);
    assert_eq!(field.display_string(), "Field => ClassIndex: 2, NatIndex: 7");

    let double = ConstantPoolItem::Double(10, 20);
    assert_eq!(double.display_string(), "Double => High: 10, Low: 20");

    let unknown = ConstantPoolItem::Unknown(42);
    assert_eq!(unknown.display_string(), "Unknown => Tag: 42");
    assert_eq!(unknown.as_value(), "UNKNOWN");
}

#[test]
fn pool_zero_count_field_yields_empty_pool() {
    let pool = pool_from(vec![0x00, 0x00]);
    assert_eq!(pool.len(), 0);
    assert_eq!(pool.get(1), Err(DecodeError::InvalidPoolIndex));
}
