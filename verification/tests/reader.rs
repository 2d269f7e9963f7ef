use jinspect::error::DecodeError;
use jinspect::reader::ByteReader;

#[test]
fn reads_are_big_endian_and_advance_the_cursor() {
    let mut r = ByteReader::new(vec![0x12, 0x34, 0x56, 0x78, 0x9A, 0xBC, 0xDE]);
    assert_eq!(r.position(), 0);
    assert_eq!(r.read_u8().unwrap(), 0x12);
    assert_eq!(r.position(), 1);
    assert_eq!(r.read_u16().unwrap(), 0x3456);
    assert_eq!(r.position(), 3);
    assert_eq!(r.read_u32().unwrap(), 0x789ABCDE);
    assert_eq!(r.position(), 7);
    assert_eq!(r.remaining(), 0);
}

#[test]
fn short_reads_fail_and_leave_the_reader_unchanged() {
    let mut r = ByteReader::new(vec![0x01]);
    assert_eq!(r.read_u16(), Err(DecodeError::IoTruncated));
    assert_eq!(r.read_u32(), Err(DecodeError::IoTruncated));
    assert_eq!(r.position(), 0);
    assert_eq!(r.read_u8().unwrap(), 0x01);
    assert_eq!(r.read_u8(), Err(DecodeError::IoTruncated));
    assert_eq!(r.position(), 1);
}

#[test]
fn read_n_returns_exactly_the_requested_bytes() {
    let mut r = ByteReader::new(vec![1, 2, 3, 4, 5]);
    assert_eq!(r.read_n(3).unwrap(), vec![1, 2, 3]);
    assert_eq!(r.read_n(3), Err(DecodeError::IoTruncated));
    assert_eq!(r.read_n(2).unwrap(), vec![4, 5]);
}

#[test]
fn read_str_decodes_text_and_rejects_malformed_bytes() {
    let mut r = ByteReader::new(vec![b'h', b'i', 0xFF, 0xFE]);
    assert_eq!(r.read_str(2).unwrap(), "hi");
    assert_eq!(r.read_str(2), Err(DecodeError::InvalidText));
    assert_eq!(r.position(), 2);
    assert_eq!(r.read_str(5), Err(DecodeError::IoTruncated));
}

#[test]
fn read_str_decodes_multibyte_text() {
    // "é" is two bytes of UTF-8.
    let mut r = ByteReader::new(vec![0xC3, 0xA9]);
    assert_eq!(r.read_str(2).unwrap(), "\u{e9}");
}
