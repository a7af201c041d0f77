use duke::bytes::ClassReader;
use duke::class_reader::labels::Labels;
use duke::class_reader::pool::PoolRead;
use duke::class_reader::tables::{read_exception_table, read_line_number_table, read_local_variable_table};
use duke::error::Error;
use duke::jstring::JavaString;
use duke::tree::class::ClassName;
use duke::tree::code::{Label, LabelRange, LocalVariableName, LvIndex};
use duke::tree::field::{FieldDescriptor, FieldSignature};

fn js(s: &str) -> JavaString {
    JavaString::from_str(s)
}

fn utf8(bytes: &mut Vec<u8>, s: &str) {
    bytes.push(1);
    bytes.push(0);
    bytes.push(s.len() as u8);
    bytes.extend_from_slice(s.as_bytes());
}

/// A pool with `java/lang/Exception` (1), its class (2), `x` (3), `I` (4), `[` (5),
/// `a;b` (6) and `TT;` (7).
fn pool() -> PoolRead {
    let mut bytes = vec![0, 8];
    utf8(&mut bytes, "java/lang/Exception");
    bytes.extend_from_slice(&[7, 0, 1]);
    utf8(&mut bytes, "x");
    utf8(&mut bytes, "I");
    utf8(&mut bytes, "[");
    utf8(&mut bytes, "a;b");
    utf8(&mut bytes, "TT;");
    let mut reader = ClassReader::new(bytes);
    PoolRead::read(&mut reader).unwrap()
}

#[test]
fn exception_table_labels_and_catch() {
    let pool = pool();
    let mut labels = Labels::new(20);
    let bytes = vec![0, 2, 0, 0, 0, 10, 0, 12, 0, 2, 0, 10, 0, 12, 0, 15, 0, 0];
    let mut reader = ClassReader::new(bytes);
    let table = read_exception_table(&mut reader, &mut labels, &pool).unwrap();
    assert_eq!(table.len(), 2);
    assert_eq!(table[0].start, Label { id: 0 });
    assert_eq!(table[0].end, Label { id: 1 });
    assert_eq!(table[0].handler, Label { id: 2 });
    assert_eq!(table[0].catch, Some(ClassName::from_inner_unchecked(js("java/lang/Exception"))));
    // offsets met before keep their labels
    assert_eq!(table[1].start, Label { id: 1 });
    assert_eq!(table[1].end, Label { id: 2 });
    assert_eq!(table[1].handler, Label { id: 3 });
    assert_eq!(table[1].catch, None);
    assert_eq!(reader.marker(), 18);
    assert_eq!(labels.get(15), Some(Label { id: 3 }));
}

#[test]
fn exception_table_errors() {
    let pool = pool();
    // the end offset is the code length, which has no instruction
    let mut labels = Labels::new(20);
    let mut reader = ClassReader::new(vec![0, 1, 0, 0, 0, 20, 0, 12, 0, 0]);
    assert_eq!(read_exception_table(&mut reader, &mut labels, &pool).unwrap_err(), Error::LabelOutOfBounds);
    // the caught class index points at a Utf8 entry
    let mut labels = Labels::new(20);
    let mut reader = ClassReader::new(vec![0, 1, 0, 0, 0, 1, 0, 2, 0, 1]);
    assert_eq!(read_exception_table(&mut reader, &mut labels, &pool).unwrap_err(), Error::WrongPoolEntry);
    // the entry is cut short
    let mut labels = Labels::new(20);
    let mut reader = ClassReader::new(vec![0, 1, 0, 0, 0, 1, 0]);
    assert_eq!(read_exception_table(&mut reader, &mut labels, &pool).unwrap_err(), Error::UnexpectedEnd);
}

#[test]
fn line_number_table_reads_pairs() {
    let mut labels = Labels::new(10);
    labels.create(4).unwrap();
    let mut reader = ClassReader::new(vec![0, 2, 0, 4, 0, 7, 0, 0, 1, 2]);
    let table = read_line_number_table(&mut reader, &mut labels).unwrap();
    assert_eq!(table, vec![(Label { id: 0 }, 7), (Label { id: 1 }, 258)]);
    assert_eq!(reader.marker(), 10);

    let mut reader = ClassReader::new(vec![0, 1, 0, 10, 0, 7]);
    assert_eq!(read_line_number_table(&mut reader, &mut labels).unwrap_err(), Error::LabelOutOfBounds);
}

#[test]
fn local_variable_table_reads_entries() {
    let pool = pool();
    let mut labels = Labels::new(10);
    // from 0, length 10 (up to the code length), name `x`, descriptor `I`, index 1
    let mut reader = ClassReader::new(vec![0, 1, 0, 0, 0, 10, 0, 3, 0, 4, 0, 1]);
    let table = read_local_variable_table(&mut reader, &mut labels, &pool, false).unwrap();
    assert_eq!(table.len(), 1);
    let lv = &table[0];
    assert_eq!(lv.range, LabelRange { start: Label { id: 0 }, end: Label { id: 1 } });
    assert_eq!(lv.name, LocalVariableName::from_inner_unchecked(js("x")));
    assert_eq!(lv.descriptor, Some(FieldDescriptor::from_inner_unchecked(js("I"))));
    assert_eq!(lv.signature, None);
    assert_eq!(lv.index, LvIndex { index: 1 });
    assert_eq!(reader.marker(), 12);
}

#[test]
fn local_variable_type_table_keeps_the_signature() {
    let pool = pool();
    let mut labels = Labels::new(10);
    let mut reader = ClassReader::new(vec![0, 1, 0, 2, 0, 3, 0, 3, 0, 7, 0, 0]);
    let table = read_local_variable_table(&mut reader, &mut labels, &pool, true).unwrap();
    assert_eq!(table[0].descriptor, None);
    assert_eq!(table[0].signature, Some(FieldSignature::from_inner_unchecked(js("TT;"))));
    assert_eq!(table[0].range, LabelRange { start: Label { id: 0 }, end: Label { id: 1 } });
}

#[test]
fn local_variable_table_errors() {
    let pool = pool();
    // the name is not an unqualified name
    let mut labels = Labels::new(10);
    let mut reader = ClassReader::new(vec![0, 1, 0, 0, 0, 1, 0, 6, 0, 4, 0, 1]);
    assert_eq!(read_local_variable_table(&mut reader, &mut labels, &pool, false).unwrap_err(), Error::InvalidName);
    // the descriptor is not a field descriptor
    let mut labels = Labels::new(10);
    let mut reader = ClassReader::new(vec![0, 1, 0, 0, 0, 1, 0, 3, 0, 5, 0, 1]);
    assert_eq!(read_local_variable_table(&mut reader, &mut labels, &pool, false).unwrap_err(), Error::InvalidDescriptor);
    // the range ends after the code
    let mut labels = Labels::new(10);
    let mut reader = ClassReader::new(vec![0, 1, 0, 5, 0, 6, 0, 3, 0, 4, 0, 1]);
    assert_eq!(read_local_variable_table(&mut reader, &mut labels, &pool, false).unwrap_err(), Error::LabelOutOfBounds);
}
