use duke::bytes::ClassReader;
use duke::class_reader::{read_class_header, skip_attributes, skip_members};
use duke::error::Error;
use duke::jstring::JavaString;
use duke::tree::class::ClassName;
use duke::tree::version::Version;

fn js(s: &str) -> JavaString {
    JavaString::from_str(s)
}

/// The start of a class `A` extending `B` and implementing `A`, in version `major.minor`.
fn header(major: u16, minor: u16) -> Vec<u8> {
    let mut b = vec![0xCA, 0xFE, 0xBA, 0xBE];
    b.extend_from_slice(&minor.to_be_bytes());
    b.extend_from_slice(&major.to_be_bytes());
    // pool: 1 "A", 2 Class A, 3 "B", 4 Class B
    b.extend_from_slice(&[0, 5, 1, 0, 1, b'A', 7, 0, 1, 1, 0, 1, b'B', 7, 0, 3]);
    // access: public, super
    b.extend_from_slice(&[0x00, 0x21]);
    // this, super, one interface
    b.extend_from_slice(&[0, 2, 0, 4, 0, 1, 0, 2]);
    b
}

#[test]
fn class_header_reads() {
    let bytes = header(52, 0);
    let length = bytes.len();
    let mut reader = ClassReader::new(bytes);
    let h = read_class_header(&mut reader).unwrap();
    assert_eq!(h.version, Version::new(52, 0));
    assert!(h.access.is_public);
    assert!(h.access.is_super);
    assert!(!h.access.is_interface);
    assert_eq!(h.this_class, ClassName::from_inner_unchecked(js("A")));
    assert_eq!(h.super_class, Some(ClassName::from_inner_unchecked(js("B"))));
    assert_eq!(h.interfaces, vec![ClassName::from_inner_unchecked(js("A"))]);
    assert_eq!(h.pool.len(), 5);
    assert_eq!(reader.marker(), length);
}

#[test]
fn class_header_without_super() {
    let mut bytes = header(45, 3);
    let n = bytes.len();
    // super index zero
    bytes[n - 5] = 0;
    bytes[n - 6] = 0;
    let mut reader = ClassReader::new(bytes);
    let h = read_class_header(&mut reader).unwrap();
    assert_eq!(h.super_class, None);
}

#[test]
fn class_header_errors() {
    let mut bytes = header(52, 0);
    bytes[0] = 0xCB;
    assert_eq!(read_class_header(&mut ClassReader::new(bytes)).unwrap_err(), Error::WrongMagic);
    // the newest version that can be read is 67.0
    assert!(read_class_header(&mut ClassReader::new(header(67, 0))).is_ok());
    assert_eq!(read_class_header(&mut ClassReader::new(header(67, 1))).unwrap_err(), Error::UnsupportedVersion);
    assert_eq!(read_class_header(&mut ClassReader::new(header(68, 0))).unwrap_err(), Error::UnsupportedVersion);
    let mut bytes = header(52, 0);
    bytes.truncate(bytes.len() - 1);
    assert_eq!(read_class_header(&mut ClassReader::new(bytes)).unwrap_err(), Error::UnexpectedEnd);
    assert_eq!(read_class_header(&mut ClassReader::new(vec![0xCA, 0xFE])).unwrap_err(), Error::UnexpectedEnd);
}

#[test]
fn skip_attributes_moves_past_them() {
    // two attributes, of lengths 3 and 0, then a byte that is not read
    let bytes = vec![0, 2, 0, 1, 0, 0, 0, 3, 9, 9, 9, 0, 1, 0, 0, 0, 0, 7];
    let mut reader = ClassReader::new(bytes);
    skip_attributes(&mut reader).unwrap();
    assert_eq!(reader.marker(), 17);
}

#[test]
fn skip_members_moves_past_them() {
    // two members: flags, name, descriptor, then attributes
    let bytes = vec![
        0, 2,
        0, 1, 0, 2, 0, 3, 0, 0,
        0, 1, 0, 2, 0, 3, 0, 1, 0, 4, 0, 0, 0, 1, 5,
        8,
    ];
    let mut reader = ClassReader::new(bytes);
    skip_members(&mut reader).unwrap();
    assert_eq!(reader.marker(), 25);
}
