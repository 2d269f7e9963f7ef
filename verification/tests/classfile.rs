use jinspect::classfile::{decode_attribute, AttributePayload, ClassFile, Header};
use jinspect::cpool::ConstantPool;
use jinspect::error::DecodeError;
use jinspect::flag::AccessFlag;
use jinspect::reader::ByteReader;

fn pool_from(bytes: Vec<u8>) -> ConstantPool {
    let mut r = ByteReader::new(bytes);
    ConstantPool::from(&mut r).unwrap()
}

fn utf8_entry(text: &str) -> Vec<u8> {
    let mut v = vec![0x01, 0x00, text.len() as u8];
    v.extend_from_slice(text.as_bytes());
    v
}

#[test]
fn header_reads_magic_and_versions() {
    let mut r = ByteReader::new(vec![0xCA, 0xFE, 0xBA, 0xBE, 0x00, 0x01, 0x00, 0x34]);
    let h = Header::from(&mut r).unwrap();
    assert_eq!(h.magic, 0xCAFEBABE);
    assert_eq!(h.minor, 1);
    assert_eq!(h.major, 52);
    assert!(h.is_valid_magic());
    let other = Header { magic: 7, major: 0, minor: 0 };
    assert!(!other.is_valid_magic());
}

#[test]
fn header_truncated_fails() {
    let mut r = ByteReader::new(vec![0xCA, 0xFE]);
    assert!(matches!(Header::from(&mut r), Err(DecodeError::IoTruncated)));
}

#[test]
fn code_attribute_consumes_exactly_declared_length() {
    let mut pool_bytes = vec![0x00, 0x03];
    pool_bytes.extend_from_slice(&utf8_entry("Code"));
    pool_bytes.extend_from_slice(&utf8_entry("LineNumberTable"));
    let pool = pool_from(pool_bytes);

    let mut attr = vec![0x00, 0x01, 0x00, 0x00, 0x00, 50];
    attr.extend_from_slice(&[0x00, 0x01]); // max_stack
    attr.extend_from_slice(&[0x00, 0x02]); // max_locals
    attr.extend_from_slice(&[0x00, 0x00, 0x00, 0x02, 0xAA, 0xBB]); // code
    attr.extend_from_slice(&[0x00, 0x02]); // exception table length
    attr.extend_from_slice(&[0, 1, 0, 2, 0, 3, 0, 4]);
    attr.extend_from_slice(&[0, 5, 0, 6, 0, 7, 0, 8]);
    attr.extend_from_slice(&[0x00, 0x01]); // nested attribute count
    attr.extend_from_slice(&[0x00, 0x02, 0x00, 0x00, 0x00, 0x0E]); // LineNumberTable, length 14
    attr.extend_from_slice(&[0x00, 0x03]); // three rows
    attr.extend_from_slice(&[0, 1, 0, 10, 0, 2, 0, 20, 0, 3, 0, 30]);

    let mut r = ByteReader::new(attr);
    let before = r.position();
    let record = decode_attribute(&mut r, &pool).unwrap();
    let after = r.position();
    assert_eq!(after, before + 6 + 50);
    assert_eq!(record.name, "Code");
    assert_eq!(record.length, 50);
    assert!(!record.length_mismatch);
    match &record.payload {
        AttributePayload::Code { max_stack, max_locals, code, exception_table, attributes } => {
            assert_eq!(*max_stack, 1);
            assert_eq!(*max_locals, 2);
            assert_eq!(code.as_slice(), &[0xAA, 0xBB]);
            assert_eq!(exception_table.len(), 2);
            assert_eq!(exception_table[0].start_pc, 1);
            assert_eq!(exception_table[1].catch_type, 8);
            assert_eq!(attributes.len(), 1);
            assert_eq!(attributes[0].name, "LineNumberTable");
            match &attributes[0].payload {
                AttributePayload::LineNumberTable(rows) => {
                    assert_eq!(rows.len(), 3);
                    assert_eq!(rows[0].start_pc, 1);
                    assert_eq!(rows[0].line_number, 10);
                    assert_eq!(rows[2].line_number, 30);
                },
                _ => panic!("nested attribute should be a line number table"),
            }
        },
        _ => panic!("payload should be a Code attribute"),
    }
}

#[test]
fn unrecognized_attribute_kept_verbatim() {
    let mut pool_bytes = vec![0x00, 0x02];
    pool_bytes.extend_from_slice(&utf8_entry("Whatever"));
    let pool = pool_from(pool_bytes);

    let attr = vec![0x00, 0x01, 0x00, 0x00, 0x00, 0x05, 9, 8, 7, 6, 5];
    let mut r = ByteReader::new(attr);
    let before = r.position();
    let record = decode_attribute(&mut r, &pool).unwrap();
    let after = r.position();
    assert_eq!(after, before + 6 + 5);
    assert_eq!(record.name, "Whatever");
    assert_eq!(record.length, 5);
    assert!(!record.length_mismatch);
    match &record.payload {
        AttributePayload::Opaque(bytes) => assert_eq!(bytes.as_slice(), &[9, 8, 7, 6, 5]),
        _ => panic!("payload should be opaque"),
    }
}

#[test]
fn length_mismatch_is_reported_and_stream_realigned() {
    let mut pool_bytes = vec![0x00, 0x03];
    pool_bytes.extend_from_slice(&utf8_entry("SourceFile"));
    pool_bytes.extend_from_slice(&utf8_entry("A.java"));
    let pool = pool_from(pool_bytes);

    // Declared length 4, but a SourceFile payload holds only 2 bytes.
    let attr = vec![0x00, 0x01, 0x00, 0x00, 0x00, 0x04, 0x00, 0x02, 0xEE, 0xEE];
    let mut r = ByteReader::new(attr);
    let before = r.position();
    let record = decode_attribute(&mut r, &pool).unwrap();
    let after = r.position();
    assert_eq!(after, before + 6 + 4);
    assert!(record.length_mismatch);
    match &record.payload {
        AttributePayload::SourceFile(index, name) => {
            assert_eq!(*index, 2);
            assert_eq!(name, "A.java");
        },
        _ => panic!("payload should be a source file"),
    }
}

fn minimal_class_file() -> Vec<u8> {
    let mut bytes = vec![0xCA, 0xFE, 0xBA, 0xBE, 0x00, 0x00, 0x00, 0x34];
    bytes.extend_from_slice(&[0x00, 0x03]);
    bytes.extend_from_slice(&utf8_entry("Foo"));
    bytes.extend_from_slice(&[0x07, 0x00, 0x01]);
    bytes.extend_from_slice(&[0x00, 0x21]); // access flags
    bytes.extend_from_slice(&[0x00, 0x02]); // this class
    bytes.extend_from_slice(&[0x00, 0x02]); // super class
    bytes.extend_from_slice(&[0x00, 0x00]); // interfaces
    bytes.extend_from_slice(&[0x00, 0x00]); // fields
    bytes.extend_from_slice(&[0x00, 0x00]); // methods
    bytes.extend_from_slice(&[0x00, 0x00]); // attributes
    bytes
}

#[test]
fn class_file_decodes_in_fixed_order() {
    let cf = ClassFile::decode(minimal_class_file()).unwrap();
    assert_eq!(cf.header.magic, 0xCAFEBABE);
    assert!(cf.header.is_valid_magic());
    assert_eq!(cf.header.major, 52);
    assert_eq!(cf.header.minor, 0);
    assert_eq!(cf.constant_pool.len(), 2);
    assert_eq!(cf.access_flags, AccessFlag::ClassLevel(0x21));
    assert_eq!(cf.access_flags.to_string(), "public super");
    assert_eq!(cf.this_class, Some(2));
    assert_eq!(cf.super_class, Some(2));
    assert_eq!(cf.constant_pool.resolve(2).unwrap(), "Foo");
    assert!(cf.interfaces.is_none());
    assert!(cf.fields.is_none());
    assert!(cf.methods.is_none());
    assert!(cf.attributes.is_none());
}

#[test]
fn class_file_with_field_and_interface() {
    let mut bytes = vec![0xCA, 0xFE, 0xBA, 0xBE, 0x00, 0x00, 0x00, 0x34];
    bytes.extend_from_slice(&[0x00, 0x05]);
    bytes.extend_from_slice(&utf8_entry("Foo"));
    bytes.extend_from_slice(&[0x07, 0x00, 0x01]);
    bytes.extend_from_slice(&utf8_entry("x"));
    bytes.extend_from_slice(&utf8_entry("I"));
    bytes.extend_from_slice(&[0x00, 0x21]);
    bytes.extend_from_slice(&[0x00, 0x02]);
    bytes.extend_from_slice(&[0x00, 0x02]);
    bytes.extend_from_slice(&[0x00, 0x01, 0x00, 0x01]); // one interface, index 1
    bytes.extend_from_slice(&[0x00, 0x01]); // one field
    bytes.extend_from_slice(&[0x00, 0x01, 0x00, 0x03, 0x00, 0x04, 0x00, 0x00]);
    bytes.extend_from_slice(&[0x00, 0x01]); // one method
    bytes.extend_from_slice(&[0x00, 0x09, 0x00, 0x03, 0x00, 0x04, 0x00, 0x00]);
    bytes.extend_from_slice(&[0x00, 0x00]); // attributes

    let cf = ClassFile::decode(bytes).unwrap();
    let interfaces = cf.interfaces.unwrap();
    assert_eq!(interfaces, vec!["Foo".to_string()]);
    let fields = cf.fields.unwrap();
    assert_eq!(fields.len(), 1);
    assert_eq!(fields[0].flags, AccessFlag::FieldLevel(0x01));
    assert_eq!(fields[0].flags.to_string(), "public");
    assert_eq!(fields[0].name, "x");
    assert_eq!(fields[0].descriptor, "I");
    assert!(fields[0].attributes.is_none());
    let methods = cf.methods.unwrap();
    assert_eq!(methods.len(), 1);
    assert_eq!(methods[0].flags, AccessFlag::MethodLevel(0x09));
    assert_eq!(methods[0].flags.to_string(), "public static");
}

#[test]
fn class_file_non_class_reference_is_none() {
    let mut bytes = minimal_class_file();
    // Point this_class at the Utf8 entry instead of the Class entry.
    bytes[21] = 0x00;
    bytes[22] = 0x01;
    let cf = ClassFile::decode(bytes).unwrap();
    assert_eq!(cf.this_class, None);
}

#[test]
fn class_file_reference_out_of_range_fails() {
    let mut bytes = minimal_class_file();
    bytes[21] = 0x00;
    bytes[22] = 0x09;
    assert!(matches!(ClassFile::decode(bytes), Err(DecodeError::InvalidPoolIndex)));
}

#[test]
fn class_file_truncated_fails() {
    let mut bytes = minimal_class_file();
    bytes.truncate(bytes.len() - 3);
    assert!(matches!(ClassFile::decode(bytes), Err(DecodeError::IoTruncated)));
}

#[test]
fn empty_attribute_block_yields_no_list() {
    let pool = pool_from(vec![0x00, 0x01]);
    let mut r = ByteReader::new(vec![0x00, 0x00]);
    let attrs = jinspect::classfile::parse_attributes(&mut r, &pool).unwrap();
    assert!(attrs.is_none());
    assert_eq!(r.position(), 2);
}
