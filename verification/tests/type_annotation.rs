use duke::bytes::ClassReader;
use duke::class_reader::labels::Labels;
use duke::error::Error;
use duke::simple_class_writer::labels::Labels as WriteLabels;
use duke::tree::code::{Label, LabelRange, LvIndex};
use duke::tree::type_annotation::{
    read_type_path, read_type_reference_code, write_type_path, write_type_reference_code, TargetInfoClass,
    TargetInfoCode, TargetInfoField, TargetInfoMethod, TypePath, TypePathKind,
};

#[test]
fn class_targets_round_trip() {
    for t in [
        TargetInfoClass::ClassTypeParameter { index: 3 },
        TargetInfoClass::Extends,
        TargetInfoClass::Implements { index: 7 },
        TargetInfoClass::ClassTypeParameterBound { type_parameter_index: 1, bound_index: 2 },
    ] {
        let mut w = Vec::new();
        TargetInfoClass::write_type_reference(&mut w, &t);
        let mut r = ClassReader::new(w);
        assert_eq!(TargetInfoClass::read_type_reference(&mut r).unwrap(), t);
    }
}

#[test]
fn class_target_implements_max_reads_as_extends() {
    let mut w = Vec::new();
    TargetInfoClass::write_type_reference(&mut w, &TargetInfoClass::Implements { index: 0xFFFF });
    assert_eq!(w, vec![0x10, 0xff, 0xff]);
    let mut r = ClassReader::new(w);
    assert_eq!(TargetInfoClass::read_type_reference(&mut r).unwrap(), TargetInfoClass::Extends);
}

#[test]
fn method_and_field_targets_round_trip() {
    for t in [
        TargetInfoMethod::MethodTypeParameter { index: 0 },
        TargetInfoMethod::MethodTypeParameterBound { type_parameter_index: 1, bound_index: 1 },
        TargetInfoMethod::Return,
        TargetInfoMethod::Receiver,
        TargetInfoMethod::FormalParameter { index: 4 },
        TargetInfoMethod::Throws { index: 300 },
    ] {
        let mut w = Vec::new();
        TargetInfoMethod::write_type_reference(&mut w, &t);
        let mut r = ClassReader::new(w);
        assert_eq!(TargetInfoMethod::read_type_reference(&mut r).unwrap(), t);
    }
    let mut w = Vec::new();
    TargetInfoField::write_type_reference(&mut w, &TargetInfoField::Field);
    assert_eq!(w, vec![0x13]);
    let mut r = ClassReader::new(vec![0x14]);
    assert_eq!(TargetInfoField::read_type_reference(&mut r).unwrap_err(), Error::UnknownTag);
}

#[test]
fn type_path_round_trip() {
    let path = TypePath {
        path: vec![TypePathKind::ArrayDeeper, TypePathKind::TypeArgument { index: 2 }, TypePathKind::WildcardBound],
    };
    let mut w = Vec::new();
    write_type_path(&mut w, &path).unwrap();
    assert_eq!(w, vec![3, 0, 0, 3, 2, 2, 0]);
    let mut r = ClassReader::new(w);
    assert_eq!(read_type_path(&mut r).unwrap().path, path.path);
}

#[test]
fn type_path_errors() {
    let mut r = ClassReader::new(vec![1, 0, 1]);
    assert_eq!(read_type_path(&mut r).unwrap_err(), Error::InvalidTypePath);
    let mut r = ClassReader::new(vec![1, 4, 0]);
    assert_eq!(read_type_path(&mut r).unwrap_err(), Error::InvalidTypePath);
    let mut r = ClassReader::new(vec![2, 0, 0]);
    assert_eq!(read_type_path(&mut r).unwrap_err(), Error::UnexpectedEnd);
    let long = TypePath { path: vec![TypePathKind::ArrayDeeper; 256] };
    let mut w = Vec::new();
    assert_eq!(write_type_path(&mut w, &long).unwrap_err(), Error::ValueTooLarge);
    assert!(w.is_empty());
}

#[test]
fn code_target_read_then_write() {
    // a local variable table of one entry: start 2, length 3, index 1
    let bytes = vec![0x40, 0, 1, 0, 2, 0, 3, 0, 1];
    let mut r = ClassReader::new(bytes.clone());
    let mut labels = Labels::new(10);
    let target = read_type_reference_code(&mut r, &mut labels).unwrap();
    assert_eq!(
        target,
        TargetInfoCode::LocalVariable {
            table: vec![(LabelRange { start: Label { id: 0 }, end: Label { id: 1 } }, LvIndex { index: 1 })],
        }
    );
    let mut w = Vec::new();
    let mut write_labels = WriteLabels::new();
    write_labels.add_opcode_pos_label(Label { id: 0 }, 2);
    write_labels.add_opcode_pos_label(Label { id: 1 }, 5);
    write_type_reference_code(&mut w, &target, &write_labels).unwrap();
    assert_eq!(w, bytes);
}

#[test]
fn code_target_labels() {
    let mut r = ClassReader::new(vec![0x47, 0, 4, 1]);
    let mut labels = Labels::new(10);
    let target = read_type_reference_code(&mut r, &mut labels).unwrap();
    assert_eq!(target, TargetInfoCode::Cast { label: Label { id: 0 }, index: 1 });
    let mut r = ClassReader::new(vec![0x43, 0, 10]);
    assert_eq!(read_type_reference_code(&mut r, &mut labels).unwrap_err(), Error::LabelOutOfBounds);
    let mut w = Vec::new();
    assert_eq!(
        write_type_reference_code(&mut w, &TargetInfoCode::New(Label { id: 7 }), &WriteLabels::new()).unwrap_err(),
        Error::MissingLabel
    );
}
