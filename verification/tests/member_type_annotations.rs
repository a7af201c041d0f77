use duke::bytes::ClassReader;
use duke::class_reader::annotation::{read_class_type_annotations, read_field_type_annotations,
    read_method_type_annotations};
use duke::class_reader::pool::PoolRead;
use duke::error::Error;
use duke::jstring::JavaString;
use duke::simple_class_writer::pool::PoolWrite;
use duke::tree::type_annotation::{TargetInfoClass, TargetInfoField, TargetInfoMethod, TypePathKind};

/// A pool whose first entry is the UTF-8 text of an annotation type.
fn pool() -> PoolRead {
    let mut pool = PoolWrite::new();
    let index = pool.put_utf8(&JavaString::from_str("LMarker;")).unwrap();
    assert_eq!(index, 1);
    let mut bytes = Vec::new();
    pool.write(&mut bytes).unwrap();
    PoolRead::read(&mut ClassReader::new(bytes)).unwrap()
}

#[test]
fn class_type_annotations_read() {
    let pool = pool();
    let bytes = vec![
        0x00, 0x03,
        // extends, empty path, @Marker
        0x10, 0xFF, 0xFF, 0x00, 0x00, 0x01, 0x00, 0x00,
        // implements #1, path [type argument 2], @Marker
        0x10, 0x00, 0x01, 0x01, 0x03, 0x02, 0x00, 0x01, 0x00, 0x00,
        // bound 1 of type parameter 0, path [array, nested], @Marker
        0x11, 0x00, 0x01, 0x02, 0x00, 0x00, 0x01, 0x00, 0x00, 0x01, 0x00, 0x00,
    ];
    let length = bytes.len();
    let mut reader = ClassReader::new(bytes);
    let read = read_class_type_annotations(&mut reader, &pool).unwrap();
    assert_eq!(reader.marker(), length);
    assert_eq!(read.len(), 3);
    assert_eq!(read[0].type_reference, TargetInfoClass::Extends);
    assert!(read[0].type_path.path.is_empty());
    assert!(read[0].annotation.annotation_type.as_inner().equals_str("LMarker;"));
    assert!(read[0].annotation.element_value_pairs.is_empty());
    assert_eq!(read[1].type_reference, TargetInfoClass::Implements { index: 1 });
    assert_eq!(read[1].type_path.path, vec![TypePathKind::TypeArgument { index: 2 }]);
    assert_eq!(read[2].type_reference,
        TargetInfoClass::ClassTypeParameterBound { type_parameter_index: 0, bound_index: 1 });
    assert_eq!(read[2].type_path.path, vec![TypePathKind::ArrayDeeper, TypePathKind::NestedDeeper]);
}

#[test]
fn field_type_annotations_read() {
    let pool = pool();
    let bytes = vec![0x00, 0x01, 0x13, 0x01, 0x02, 0x00, 0x00, 0x01, 0x00, 0x00];
    let mut reader = ClassReader::new(bytes);
    let read = read_field_type_annotations(&mut reader, &pool).unwrap();
    assert_eq!(read.len(), 1);
    assert_eq!(read[0].type_reference, TargetInfoField::Field);
    assert_eq!(read[0].type_path.path, vec![TypePathKind::WildcardBound]);
}

#[test]
fn method_type_annotations_read() {
    let pool = pool();
    let bytes = vec![
        0x00, 0x02,
        0x16, 0x03, 0x00, 0x00, 0x01, 0x00, 0x00,
        0x17, 0x00, 0x02, 0x00, 0x00, 0x01, 0x00, 0x00,
    ];
    let mut reader = ClassReader::new(bytes);
    let read = read_method_type_annotations(&mut reader, &pool).unwrap();
    assert_eq!(read.len(), 2);
    assert_eq!(read[0].type_reference, TargetInfoMethod::FormalParameter { index: 3 });
    assert_eq!(read[1].type_reference, TargetInfoMethod::Throws { index: 2 });
}

#[test]
fn type_annotations_errors() {
    let pool = pool();
    // a method target where a field target belongs
    let mut reader = ClassReader::new(vec![0x00, 0x01, 0x14, 0x00, 0x00, 0x01, 0x00, 0x00]);
    assert_eq!(read_field_type_annotations(&mut reader, &pool).unwrap_err(), Error::UnknownTag);
    // a path step with an argument where none belongs
    let mut reader = ClassReader::new(vec![0x00, 0x01, 0x13, 0x01, 0x00, 0x05, 0x00, 0x01, 0x00, 0x00]);
    assert_eq!(read_field_type_annotations(&mut reader, &pool).unwrap_err(), Error::InvalidTypePath);
    // the count promises more than there is
    let mut reader = ClassReader::new(vec![0x00, 0x02, 0x13, 0x00, 0x00, 0x01, 0x00, 0x00]);
    assert_eq!(read_field_type_annotations(&mut reader, &pool).unwrap_err(), Error::UnexpectedEnd);
}
