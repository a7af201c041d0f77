use duke::bytes::ClassReader;
use duke::class_reader::field::read_field;
use duke::class_reader::pool::PoolRead;
use duke::jstring::JavaString;
use duke::simple_class_writer::member::{write_field, write_record_component};
use duke::tree::record::{RecordComponent, RecordName};
use duke::simple_class_writer::pool::PoolWrite;
use duke::tree::attribute::Attribute;
use duke::tree::field::{FieldAccess, FieldDescriptor, FieldName, FieldSignature};
use duke::tree::member::{ConstantValue, Field};
use duke::visitor::FieldInterests;

fn js(s: &str) -> JavaString {
    JavaString::from_str(s)
}

fn sample() -> Field {
    let access = FieldAccess { is_public: true, is_static: true, is_final: true, ..FieldAccess::default() };
    let mut f = Field::new(access, FieldName::try_from(js("MAX")).unwrap(), FieldDescriptor::try_from(js("J")).unwrap());
    f.has_deprecated_attribute = true;
    f.constant_value = Some(ConstantValue::Long(1 << 40));
    f.signature = Some(FieldSignature::from_inner_unchecked(js("TT;")));
    f.attributes.push(Attribute { name: js("Custom"), bytes: vec![7, 8] });
    f
}

fn read_back(field: &Field) -> (Field, usize, usize) {
    let mut pool = PoolWrite::new();
    let mut bytes = Vec::new();
    write_field(&mut bytes, &mut pool, field).unwrap();
    let mut pool_bytes = Vec::new();
    pool.write(&mut pool_bytes).unwrap();
    let pool = PoolRead::read(&mut ClassReader::new(pool_bytes)).unwrap();
    let length = bytes.len();
    let mut reader = ClassReader::new(bytes);
    let read = read_field(&mut reader, &pool, &FieldInterests::all()).unwrap();
    (read, reader.marker(), length)
}

#[test]
fn field_write_then_read() {
    let field = sample();
    let (read, end, length) = read_back(&field);
    assert_eq!(end, length);
    assert_eq!(read.access, field.access);
    assert!(read.name.as_inner().equals_str("MAX"));
    assert!(read.descriptor.as_inner().equals_str("J"));
    assert!(read.has_deprecated_attribute);
    assert!(!read.has_synthetic_attribute);
    assert_eq!(read.constant_value, Some(ConstantValue::Long(1 << 40)));
    assert_eq!(read.signature, Some(FieldSignature::from_inner_unchecked(js("TT;"))));
    assert_eq!(read.attributes, vec![Attribute { name: js("Custom"), bytes: vec![7, 8] }]);
}

#[test]
fn field_write_then_read_constants() {
    let constants = vec![
        ConstantValue::Integer(-5),
        ConstantValue::Float(0x3FC0_0000),
        ConstantValue::Double(0x3FF8_0000_0000_0000),
        ConstantValue::String(js("hello")),
    ];
    for c in constants {
        let mut field = Field::new(FieldAccess::default(), FieldName::try_from(js("x")).unwrap(),
            FieldDescriptor::try_from(js("I")).unwrap());
        let expected = match &c {
            ConstantValue::Integer(v) => ConstantValue::Integer(*v),
            ConstantValue::Float(v) => ConstantValue::Float(*v),
            ConstantValue::Long(v) => ConstantValue::Long(*v),
            ConstantValue::Double(v) => ConstantValue::Double(*v),
            ConstantValue::String(s) => ConstantValue::String(s.duplicate()),
        };
        field.constant_value = Some(c);
        let (read, _, _) = read_back(&field);
        assert_eq!(read.constant_value, Some(expected));
    }
}

#[test]
fn field_write_bytes() {
    let field = Field::new(FieldAccess { is_private: true, ..FieldAccess::default() },
        FieldName::try_from(js("x")).unwrap(), FieldDescriptor::try_from(js("I")).unwrap());
    let mut pool = PoolWrite::new();
    let mut bytes = Vec::new();
    write_field(&mut bytes, &mut pool, &field).unwrap();
    // private, name at 1, descriptor at 2, no attributes
    assert_eq!(bytes, vec![0, 2, 0, 1, 0, 2, 0, 0]);
    assert_eq!(pool.constant_pool_count(), 3);
    // writing it again adds no entries
    let mut again = Vec::new();
    write_field(&mut again, &mut pool, &field).unwrap();
    assert_eq!(again, bytes);
    assert_eq!(pool.constant_pool_count(), 3);
}

#[test]
fn field_write_attribute_order() {
    let mut field = Field::new(FieldAccess::default(), FieldName::try_from(js("x")).unwrap(),
        FieldDescriptor::try_from(js("I")).unwrap());
    field.has_synthetic_attribute = true;
    field.constant_value = Some(ConstantValue::Integer(3));
    let mut pool = PoolWrite::new();
    let mut bytes = Vec::new();
    write_field(&mut bytes, &mut pool, &field).unwrap();
    // 1 "x", 2 "I", 3 "Synthetic", 4 "ConstantValue", 5 Integer 3
    assert_eq!(bytes, vec![0, 0, 0, 1, 0, 2, 0, 2, 0, 3, 0, 0, 0, 0, 0, 4, 0, 0, 0, 2, 0, 5]);
}

#[test]
fn record_component_write_bytes() {
    let mut component = RecordComponent::new(RecordName::from_inner_unchecked(js("x")), FieldDescriptor::try_from(js("I")).unwrap());
    component.signature = Some(FieldSignature::from_inner_unchecked(js("TT;")));
    component.attributes.push(Attribute { name: js("Custom"), bytes: vec![9] });
    let mut pool = PoolWrite::new();
    let mut bytes = Vec::new();
    write_record_component(&mut bytes, &mut pool, &component).unwrap();
    // 1 "x", 2 "I", 3 "Signature", 4 "TT;", 5 "Custom"
    assert_eq!(bytes, vec![0, 1, 0, 2, 0, 2, 0, 3, 0, 0, 0, 2, 0, 4, 0, 5, 0, 0, 0, 1, 9]);
    assert_eq!(pool.constant_pool_count(), 6);
}
