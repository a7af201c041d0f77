use duke::bytes::ClassReader;
use duke::class_reader::annotation::{read_annotations, read_element_value};
use duke::class_reader::field::read_field;
use duke::class_reader::pool::PoolRead;
use duke::error::Error;
use duke::jstring::JavaString;
use duke::simple_class_writer::annotation::{write_annotations, write_element_value};
use duke::simple_class_writer::member::write_field;
use duke::simple_class_writer::pool::PoolWrite;
use duke::tree::annotation::{Annotation, ElementValue, ElementValuePair, Object};
use duke::tree::descriptor::ReturnDescriptor;
use duke::tree::field::{FieldAccess, FieldDescriptor, FieldName};
use duke::tree::member::Field;
use duke::visitor::FieldInterests;

fn js(s: &str) -> JavaString {
    JavaString::from_str(s)
}

fn desc(s: &str) -> FieldDescriptor {
    FieldDescriptor::try_from(js(s)).unwrap()
}

fn pair(name: &str, value: ElementValue) -> ElementValuePair {
    ElementValuePair { name: js(name), value }
}

/// An annotation with one element of each kind.
fn sample() -> Annotation {
    Annotation {
        annotation_type: desc("Lcom/example/Marker;"),
        element_value_pairs: vec![
            pair("b", ElementValue::Object(Object::Byte(-3))),
            pair("c", ElementValue::Object(Object::Char(0x41))),
            pair("d", ElementValue::Object(Object::Double(0x4000_0000_0000_0000))),
            pair("f", ElementValue::Object(Object::Float(0x3F80_0000))),
            pair("i", ElementValue::Object(Object::Integer(70000))),
            pair("j", ElementValue::Object(Object::Long(-1))),
            pair("s", ElementValue::Object(Object::Short(-300))),
            pair("z", ElementValue::Object(Object::Boolean(true))),
            pair("str", ElementValue::Object(Object::String(js("text")))),
            pair("e", ElementValue::Enum { enum_type: desc("Ljava/lang/annotation/RetentionPolicy;"), const_name: js("RUNTIME") }),
            pair("cls", ElementValue::Class(ReturnDescriptor::from_inner_unchecked(js("V")))),
            pair("nested", ElementValue::AnnotationInterface(Annotation {
                annotation_type: desc("Lcom/example/Inner;"),
                element_value_pairs: vec![pair("x", ElementValue::Object(Object::Integer(1)))],
            })),
            pair("arr", ElementValue::ArrayType(vec![
                ElementValue::Object(Object::Integer(1)),
                ElementValue::ArrayType(vec![]),
                ElementValue::Object(Object::String(js("two"))),
            ])),
        ],
    }
}

fn pool_read(pool: PoolWrite) -> PoolRead {
    let mut bytes = Vec::new();
    pool.write(&mut bytes).unwrap();
    PoolRead::read(&mut ClassReader::new(bytes)).unwrap()
}

#[test]
fn annotations_write_then_read() {
    let annotations = vec![sample(), Annotation { annotation_type: desc("LEmpty;"), element_value_pairs: vec![] }];
    let mut pool = PoolWrite::new();
    let mut bytes = Vec::new();
    write_annotations(&mut bytes, &mut pool, &annotations).unwrap();
    let pool = pool_read(pool);
    let length = bytes.len();
    let mut reader = ClassReader::new(bytes);
    let read = read_annotations(&mut reader, &pool).unwrap();
    assert_eq!(read, annotations);
    assert_eq!(reader.marker(), length);
}

#[test]
fn element_value_write_then_read() {
    let value = ElementValue::ArrayType(vec![ElementValue::Object(Object::Boolean(false))]);
    let mut pool = PoolWrite::new();
    let mut bytes = Vec::new();
    write_element_value(&mut bytes, &mut pool, &value).unwrap();
    // `[`, one element, `Z` and the index of the `Integer` entry 0
    assert_eq!(bytes, vec![b'[', 0, 1, b'Z', 0, 1]);
    let pool = pool_read(pool);
    let read = read_element_value(&mut ClassReader::new(bytes), &pool).unwrap();
    assert_eq!(read, value);
}

#[test]
fn annotations_read_bytes() {
    // pool: 1 "LA;", 2 "v", 3 Integer 5
    let mut pool = PoolWrite::new();
    pool.put_utf8(&js("LA;")).unwrap();
    pool.put_utf8(&js("v")).unwrap();
    pool.put_integer(5).unwrap();
    let pool = pool_read(pool);
    // one annotation of type 1 with one pair: v = (int) 5
    let bytes = vec![0, 1, 0, 1, 0, 1, 0, 2, b'I', 0, 3];
    let read = read_annotations(&mut ClassReader::new(bytes), &pool).unwrap();
    assert_eq!(read, vec![Annotation {
        annotation_type: desc("LA;"),
        element_value_pairs: vec![pair("v", ElementValue::Object(Object::Integer(5)))],
    }]);
}

#[test]
fn annotations_read_errors() {
    let mut pool = PoolWrite::new();
    pool.put_utf8(&js("LA;")).unwrap();
    pool.put_utf8(&js("v")).unwrap();
    pool.put_integer(5).unwrap();
    pool.put_utf8(&js("not a descriptor")).unwrap();
    let pool = pool_read(pool);
    // an unknown tag
    let bytes = vec![0, 1, 0, 1, 0, 1, 0, 2, b'X', 0, 3];
    assert_eq!(read_annotations(&mut ClassReader::new(bytes), &pool).unwrap_err(), Error::UnknownTag);
    // a type that is not a field descriptor
    let bytes = vec![0, 1, 0, 4, 0, 0];
    assert_eq!(read_annotations(&mut ClassReader::new(bytes), &pool).unwrap_err(), Error::InvalidDescriptor);
    // a `byte` constant that names a `Utf8` entry
    let bytes = vec![0, 1, 0, 1, 0, 1, 0, 2, b'B', 0, 2];
    assert_eq!(read_annotations(&mut ClassReader::new(bytes), &pool).unwrap_err(), Error::WrongPoolEntry);
    // cut short
    let bytes = vec![0, 1, 0, 1, 0, 1, 0, 2, b'I', 0];
    assert_eq!(read_annotations(&mut ClassReader::new(bytes), &pool).unwrap_err(), Error::UnexpectedEnd);
}

#[test]
fn field_annotations_write_then_read() {
    let mut field = Field::new(FieldAccess::default(), FieldName::try_from(js("x")).unwrap(), desc("I"));
    field.runtime_visible_annotations.push(sample());
    field.runtime_invisible_annotations.push(Annotation { annotation_type: desc("LHidden;"), element_value_pairs: vec![] });
    let mut pool = PoolWrite::new();
    let mut bytes = Vec::new();
    write_field(&mut bytes, &mut pool, &field).unwrap();
    let pool = pool_read(pool);
    let read = read_field(&mut ClassReader::new(bytes), &pool, &FieldInterests::all()).unwrap();
    assert_eq!(read.runtime_visible_annotations, field.runtime_visible_annotations);
    assert_eq!(read.runtime_invisible_annotations, field.runtime_invisible_annotations);
}
