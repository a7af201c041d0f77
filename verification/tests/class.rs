use duke::bytes::ClassReader;
use duke::class_reader::class::{read_class, read_class_from};
use duke::class_reader::method::read_method;
use duke::class_reader::pool::PoolRead;
use duke::tree::type_annotation::{TargetInfoClass, TargetInfoMethod};
use duke::error::Error;
use duke::jstring::JavaString;
use duke::tree::class::ClassName;
use duke::tree::instruction::Instruction;
use duke::tree::version::Version;
use duke::visitor::{ClassInterests, CodeInterests, FieldInterests, MethodInterests};

fn js(s: &str) -> JavaString {
    JavaString::from_str(s)
}

fn utf8(b: &mut Vec<u8>, s: &str) {
    b.push(1);
    b.extend_from_slice(&(s.len() as u16).to_be_bytes());
    b.extend_from_slice(s.as_bytes());
}

/// The constant pool of the test classes.
fn pool() -> Vec<u8> {
    let mut b = vec![0, 20];
    utf8(&mut b, "Foo"); // 1
    b.extend_from_slice(&[7, 0, 1]); // 2
    utf8(&mut b, "java/lang/Object"); // 3
    b.extend_from_slice(&[7, 0, 3]); // 4
    utf8(&mut b, "SourceFile"); // 5
    utf8(&mut b, "Foo.java"); // 6
    utf8(&mut b, "x"); // 7
    utf8(&mut b, "I"); // 8
    utf8(&mut b, "run"); // 9
    utf8(&mut b, "()V"); // 10
    utf8(&mut b, "Code"); // 11
    utf8(&mut b, "Deprecated"); // 12
    utf8(&mut b, "Custom"); // 13
    utf8(&mut b, "Record"); // 14
    utf8(&mut b, "Signature"); // 15
    utf8(&mut b, "TT;"); // 16
    utf8(&mut b, "NestHost"); // 17
    utf8(&mut b, "RuntimeVisibleTypeAnnotations"); // 18
    utf8(&mut b, "LMarker;"); // 19
    b
}

/// A class `Foo` with one field `int x`, one method `void run()` that
/// returns, and the attributes `attributes` (their count first).
fn class_with(attributes: &[u8]) -> Vec<u8> {
    let mut b = vec![0xCA, 0xFE, 0xBA, 0xBE, 0, 0, 0, 52];
    b.extend_from_slice(&pool());
    // public super, this Foo, super Object, no interfaces
    b.extend_from_slice(&[0x00, 0x21, 0, 2, 0, 4, 0, 0]);
    // one private field x of type I, no attributes
    b.extend_from_slice(&[0, 1, 0x00, 0x02, 0, 7, 0, 8, 0, 0]);
    // one public method run()V with a Code attribute: max_stack 1, max_locals 1, `return`
    b.extend_from_slice(&[0, 1, 0x00, 0x01, 0, 9, 0, 10, 0, 1]);
    b.extend_from_slice(&[0, 11, 0, 0, 0, 13, 0, 1, 0, 1, 0, 0, 0, 1, 0xB1, 0, 0, 0, 0]);
    b.extend_from_slice(attributes);
    b
}

/// `SourceFile` "Foo.java", `Deprecated`, and an unknown attribute `Custom` of three bytes.
fn attributes() -> Vec<u8> {
    vec![0, 3, 0, 5, 0, 0, 0, 2, 0, 6, 0, 12, 0, 0, 0, 0, 0, 13, 0, 0, 0, 3, 1, 2, 3]
}

#[test]
fn read_class_reads_a_whole_class() {
    let c = read_class(class_with(&attributes())).unwrap();
    assert_eq!(c.version, Version::new(52, 0));
    assert!(c.access.is_public);
    assert!(c.access.is_super);
    assert_eq!(c.name, ClassName::from_inner_unchecked(js("Foo")));
    assert_eq!(c.super_class, Some(ClassName::from_inner_unchecked(js("java/lang/Object"))));
    assert!(c.interfaces.is_empty());

    assert_eq!(c.fields.len(), 1);
    assert!(c.fields[0].name.as_inner().equals_str("x"));
    assert!(c.fields[0].descriptor.as_inner().equals_str("I"));
    assert!(c.fields[0].access.is_private);

    assert_eq!(c.methods.len(), 1);
    assert!(c.methods[0].name.as_inner().equals_str("run"));
    assert!(c.methods[0].descriptor.as_inner().equals_str("()V"));
    let code = c.methods[0].code.as_ref().unwrap();
    assert_eq!(code.max_stack, Some(1));
    assert_eq!(code.max_locals, Some(1));
    assert_eq!(code.instructions.len(), 1);
    assert_eq!(code.instructions[0].instruction, Instruction::Return);

    assert_eq!(c.source_file, Some(js("Foo.java")));
    assert!(c.has_deprecated_attribute);
    assert!(!c.has_synthetic_attribute);
    assert_eq!(c.attributes.len(), 1);
    assert!(c.attributes[0].name.equals_str("Custom"));
    assert_eq!(c.attributes[0].bytes, vec![1, 2, 3]);
    assert!(c.signature.is_none());
    assert!(c.record_components.is_empty());
}

#[test]
fn read_class_from_leaves_the_reader_after_the_class() {
    let mut bytes = class_with(&attributes());
    let length = bytes.len();
    // a second class file may follow
    bytes.extend_from_slice(&[0xCA, 0xFE]);
    let mut reader = ClassReader::new(bytes);
    let c = read_class_from(&mut reader, &ClassInterests::all(), &FieldInterests::all(), &MethodInterests::all(),
        &CodeInterests::all()).unwrap();
    assert_eq!(reader.marker(), length);
    assert_eq!(c.methods.len(), 1);
}

#[test]
fn read_class_without_interest_skips_attributes() {
    let mut reader = ClassReader::new(class_with(&attributes()));
    let c = read_class_from(&mut reader, &ClassInterests::none(), &FieldInterests::none(), &MethodInterests::none(),
        &CodeInterests::none()).unwrap();
    assert_eq!(c.source_file, None);
    assert!(c.attributes.is_empty());
    // the Deprecated attribute is always seen
    assert!(c.has_deprecated_attribute);
    assert_eq!(c.methods.len(), 1);
    assert!(c.methods[0].code.is_none());
}

#[test]
fn read_class_reads_a_record() {
    // a Record attribute with one component `x` of type `I` that has a Signature `TT;`
    let attrs = vec![0, 1, 0, 14, 0, 0, 0, 16, 0, 1, 0, 7, 0, 8, 0, 1, 0, 15, 0, 0, 0, 2, 0, 16];
    let c = read_class(class_with(&attrs)).unwrap();
    assert_eq!(c.record_components.len(), 1);
    assert!(c.record_components[0].name.as_inner().equals_str("x"));
    assert!(c.record_components[0].descriptor.as_inner().equals_str("I"));
    assert!(c.record_components[0].signature.as_ref().unwrap().as_inner().equals_str("TT;"));
}

#[test]
fn read_class_errors() {
    // a second SourceFile attribute
    let attrs = vec![0, 2, 0, 5, 0, 0, 0, 2, 0, 6, 0, 5, 0, 0, 0, 2, 0, 6];
    assert_eq!(read_class(class_with(&attrs)).unwrap_err(), Error::DuplicateAttribute);
    // a second Record attribute
    let attrs = vec![0, 2, 0, 14, 0, 0, 0, 2, 0, 0, 0, 14, 0, 0, 0, 2, 0, 0];
    assert_eq!(read_class(class_with(&attrs)).unwrap_err(), Error::DuplicateAttribute);
    // a NestHost that names a `Utf8` entry
    let attrs = vec![0, 1, 0, 17, 0, 0, 0, 2, 0, 1];
    assert!(read_class(class_with(&attrs)).is_err());
    // the attributes are cut short
    let mut bytes = class_with(&attributes());
    bytes.truncate(bytes.len() - 1);
    assert_eq!(read_class(bytes).unwrap_err(), Error::UnexpectedEnd);
    // a wrong magic number
    let mut bytes = class_with(&attributes());
    bytes[3] = 0;
    assert_eq!(read_class(bytes).unwrap_err(), Error::WrongMagic);
}

#[test]
fn read_class_reads_type_annotations() {
    // @Marker on the superclass, twice in two attributes: both are kept
    let one = [0, 18, 0, 0, 0, 10, 0, 1, 0x10, 0xFF, 0xFF, 0, 0, 19, 0, 0];
    let mut attrs = vec![0, 2];
    attrs.extend_from_slice(&one);
    attrs.extend_from_slice(&one);
    let c = read_class(class_with(&attrs)).unwrap();
    assert_eq!(c.runtime_visible_type_annotations.len(), 2);
    assert_eq!(c.runtime_visible_type_annotations[0].type_reference, TargetInfoClass::Extends);
    assert!(c.runtime_visible_type_annotations[1].annotation.annotation_type.as_inner().equals_str("LMarker;"));
    assert!(c.runtime_invisible_type_annotations.is_empty());
    // without interest they are skipped
    let mut reader = ClassReader::new(class_with(&attrs));
    let c = read_class_from(&mut reader, &ClassInterests::none(), &FieldInterests::none(), &MethodInterests::none(),
        &CodeInterests::none()).unwrap();
    assert!(c.runtime_visible_type_annotations.is_empty());
}

#[test]
fn read_method_reads_type_annotations() {
    let pool = PoolRead::read(&mut ClassReader::new(pool())).unwrap();
    // public run()V with @Marker on its return type
    let bytes = vec![0x00, 0x01, 0, 9, 0, 10, 0, 1, 0, 18, 0, 0, 0, 8, 0, 1, 0x14, 0, 0, 19, 0, 0];
    let mut reader = ClassReader::new(bytes);
    let m = read_method(&mut reader, &pool, &None, &MethodInterests::all(), &CodeInterests::all()).unwrap();
    assert_eq!(m.runtime_visible_type_annotations.len(), 1);
    assert_eq!(m.runtime_visible_type_annotations[0].type_reference, TargetInfoMethod::Return);
    assert!(m.runtime_visible_type_annotations[0].type_path.path.is_empty());
}
