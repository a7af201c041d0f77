use duke::bytes::ClassReader;
use duke::class_reader::pool::PoolRead;
use duke::error::Error;
use duke::jstring::JavaString;
use duke::simple_class_writer::pool::PoolWrite;
use duke::tree::class::ClassName;
use duke::tree::code::Handle;
use duke::tree::field::{FieldDescriptor, FieldName, FieldRef};
use duke::tree::method::{MethodDescriptor, MethodName, MethodRef};
use duke::tree::class::ObjClassName;
use duke::tree::module::{ModuleName, PackageName};

fn js(s: &str) -> JavaString {
    JavaString::from_str(s)
}

fn read_back(pool: PoolWrite) -> PoolRead {
    let mut bytes = Vec::new();
    pool.write(&mut bytes).unwrap();
    let mut reader = ClassReader::new(bytes);
    PoolRead::read(&mut reader).unwrap()
}

#[test]
fn pool_read_bytes() {
    // count 4: a Utf8 "A", a Class pointing at it, an Integer 258
    let bytes = vec![0, 4, 1, 0, 1, b'A', 7, 0, 1, 3, 0, 0, 1, 2];
    let mut reader = ClassReader::new(bytes);
    let pool = PoolRead::read(&mut reader).unwrap();
    assert_eq!(pool.len(), 4);
    assert_eq!(pool.get_utf8(1).unwrap(), js("A"));
    assert_eq!(pool.get_class(2).unwrap(), ClassName::from_inner_unchecked(js("A")));
    assert_eq!(pool.get_integer(3).unwrap(), 258);
    assert_eq!(pool.get_utf8(0).unwrap_err(), Error::MissingPoolEntry);
    assert_eq!(pool.get_utf8(4).unwrap_err(), Error::MissingPoolEntry);
    assert_eq!(pool.get_class(1).unwrap_err(), Error::WrongPoolEntry);
    assert_eq!(reader.marker(), 14);
}

#[test]
fn pool_read_errors() {
    let mut reader = ClassReader::new(vec![0, 2, 1, 0, 5, b'A']);
    assert_eq!(PoolRead::read(&mut reader).unwrap_err(), Error::UnexpectedEnd);
    let mut reader = ClassReader::new(vec![0, 2, 2]);
    assert_eq!(PoolRead::read(&mut reader).unwrap_err(), Error::UnknownTag);
    let mut reader = ClassReader::new(vec![0, 2, 1, 0, 1, 0x80]);
    assert_eq!(PoolRead::read(&mut reader).unwrap_err(), Error::InvalidModifiedUtf8);
}

#[test]
fn pool_long_takes_two_slots() {
    let bytes = vec![0, 4, 5, 0, 0, 0, 0, 0, 0, 0, 9, 3, 0, 0, 0, 1];
    let mut reader = ClassReader::new(bytes);
    let pool = PoolRead::read(&mut reader).unwrap();
    assert_eq!(pool.get_long(1).unwrap(), 9);
    assert_eq!(pool.get_integer(2).unwrap_err(), Error::MissingPoolEntry);
    assert_eq!(pool.get_integer(3).unwrap(), 1);
}

#[test]
fn pool_put_gives_indices() {
    let mut pool = PoolWrite::new();
    let object = ClassName::from_inner_unchecked(js("java/lang/Object"));
    let c = pool.put_class(&object).unwrap();
    assert_eq!(c, 2); // the Utf8 entry of the name is at 1
    assert_eq!(pool.put_class(&object).unwrap(), 2);
    assert_eq!(pool.put_utf8(&js("java/lang/Object")).unwrap(), 1);
    let l = pool.put_long(1 << 40).unwrap();
    assert_eq!(l, 3);
    let i = pool.put_integer(-7).unwrap();
    assert_eq!(i, 5); // the long took the slots 3 and 4
    assert_eq!(pool.constant_pool_count(), 6);
}

#[test]
fn pool_write_then_read() {
    let mut pool = PoolWrite::new();
    let object = ClassName::from_inner_unchecked(js("java/lang/Object"));
    let c = pool.put_class(&object).unwrap();
    let l = pool.put_long(-1).unwrap();
    let i = pool.put_integer(42).unwrap();
    let b = pool.put_boolean_as_integer(true).unwrap();
    let ch = pool.put_char_as_integer(0xFFFF).unwrap();
    let nt = pool.put_name_and_type(&js("foo"), &js("()V")).unwrap();
    let p = pool.put_package(&PackageName::from_inner_unchecked(js("java/lang"))).unwrap();
    let m = pool.put_module(&ModuleName::from_inner_unchecked(js("java.base"))).unwrap();
    let read = read_back(pool);
    assert_eq!(read.get_class(c).unwrap(), object);
    assert_eq!(read.get_long(l).unwrap(), -1);
    assert_eq!(read.get_integer(i).unwrap(), 42);
    assert_eq!(read.get_integer_as_boolean(b).unwrap(), true);
    assert_eq!(read.get_integer_as_char(ch).unwrap(), 0xFFFF);
    let (name, desc) = read.get_name_and_type(nt).unwrap();
    assert_eq!(name, js("foo"));
    assert_eq!(desc, js("()V"));
    assert_eq!(read.get_package(p).unwrap(), PackageName::from_inner_unchecked(js("java/lang")));
    assert_eq!(read.get_module(m).unwrap(), ModuleName::from_inner_unchecked(js("java.base")));
}

#[test]
fn pool_write_then_read_refs() {
    let mut pool = PoolWrite::new();
    let field = FieldRef {
        class: ObjClassName::from_inner_unchecked(js("a/B")),
        name: FieldName::from_inner_unchecked(js("x")),
        desc: FieldDescriptor::from_inner_unchecked(js("I")),
    };
    let method = MethodRef {
        class: ClassName::from_inner_unchecked(js("a/B")),
        name: MethodName::from_inner_unchecked(js("run")),
        desc: MethodDescriptor::from_inner_unchecked(js("()V")),
    };
    let f = pool.put_field_ref(&field).unwrap();
    let mr = pool.put_method_ref(&method).unwrap();
    let im = pool.put_interface_method_ref(&method).unwrap();
    let either = pool.put_method_ref_or_interface_method_ref((&method, true)).unwrap();
    assert_eq!(either, im);
    let h = pool.put_method_handle(&Handle::InvokeStatic(
        MethodRef {
            class: ClassName::from_inner_unchecked(js("a/B")),
            name: MethodName::from_inner_unchecked(js("run")),
            desc: MethodDescriptor::from_inner_unchecked(js("()V")),
        },
        false,
    )).unwrap();
    let read = read_back(pool);
    assert_eq!(read.get_field_ref(f).unwrap(), field);
    assert_eq!(read.get_method_ref(mr).unwrap(), method);
    assert_eq!(read.get_interface_method_ref(im).unwrap(), method);
    let (m2, is_interface) = read.get_method_ref_or_interface_method_ref(im).unwrap();
    assert_eq!(m2, method);
    assert!(is_interface);
    match read.get_method_handle(h).unwrap() {
        Handle::InvokeStatic(m, false) => assert_eq!(m, method),
        _ => panic!("wrong handle"),
    }
}

#[test]
fn pool_write_bytes() {
    let mut pool = PoolWrite::new();
    pool.put_integer(1).unwrap();
    let mut bytes = Vec::new();
    pool.write(&mut bytes).unwrap();
    assert_eq!(bytes, vec![0, 2, 3, 0, 0, 0, 1]);
}
