use duke::bytes::ClassReader;
use duke::class_reader::frames::{read_stack_map_frame, read_verification_type_info, StackMapData, VerificationTypeInfo};
use duke::class_reader::labels::Labels;
use duke::class_reader::pool::PoolRead;
use duke::error::Error;
use duke::tree::class::ClassName;
use duke::tree::code::Label;
use duke::jstring::JavaString;

fn pool_with_class() -> PoolRead {
    // 1: Utf8 "A", 2: Class 1
    let mut r = ClassReader::new(vec![0, 3, 1, 0, 1, b'A', 7, 0, 1]);
    PoolRead::read(&mut r).unwrap()
}

#[test]
fn type_infos() {
    let pool = pool_with_class();
    let mut labels = Labels::new(20);
    let mut r = ClassReader::new(vec![1, 7, 0, 2, 8, 0, 12, 9]);
    match read_verification_type_info(&mut r, &pool, &mut labels).unwrap() {
        VerificationTypeInfo::Integer => {},
        _ => panic!("expected an integer"),
    }
    match read_verification_type_info(&mut r, &pool, &mut labels).unwrap() {
        VerificationTypeInfo::Object(c) => assert_eq!(c, ClassName::from_inner_unchecked(JavaString::from_str("A"))),
        _ => panic!("expected an object"),
    }
    match read_verification_type_info(&mut r, &pool, &mut labels).unwrap() {
        VerificationTypeInfo::Uninitialized(l) => assert_eq!(l, Label { id: 0 }),
        _ => panic!("expected an uninitialized"),
    }
    assert_eq!(read_verification_type_info(&mut r, &pool, &mut labels).unwrap_err(), Error::UnknownTag);
}

#[test]
fn frames() {
    let pool = pool_with_class();
    let mut labels = Labels::new(20);
    // same (delta 5); same locals 1 stack item (delta 1, int); chop 2 (delta 3); append 1 (delta 4, long);
    // full (delta 6, locals [top], stack [])
    let mut r = ClassReader::new(vec![5, 65, 1, 249, 0, 3, 252, 0, 4, 4, 255, 0, 6, 0, 1, 0, 0, 0]);
    let (d, f) = read_stack_map_frame(&mut r, &pool, &mut labels).unwrap();
    assert_eq!(d, 5);
    assert!(matches!(f, StackMapData::Same));
    let (d, f) = read_stack_map_frame(&mut r, &pool, &mut labels).unwrap();
    assert_eq!(d, 1);
    assert!(matches!(f, StackMapData::SameLocals1StackItem { stack: VerificationTypeInfo::Integer }));
    let (d, f) = read_stack_map_frame(&mut r, &pool, &mut labels).unwrap();
    assert_eq!(d, 3);
    assert!(matches!(f, StackMapData::Chop { k: 2 }));
    let (d, f) = read_stack_map_frame(&mut r, &pool, &mut labels).unwrap();
    assert_eq!(d, 4);
    match f {
        StackMapData::Append { locals } => {
            assert_eq!(locals.len(), 1);
            assert!(matches!(locals[0], VerificationTypeInfo::Long));
        },
        _ => panic!("expected append"),
    }
    let (d, f) = read_stack_map_frame(&mut r, &pool, &mut labels).unwrap();
    assert_eq!(d, 6);
    match f {
        StackMapData::Full { locals, stack } => {
            assert_eq!(locals.len(), 1);
            assert!(matches!(locals[0], VerificationTypeInfo::Top));
            assert!(stack.is_empty());
        },
        _ => panic!("expected full"),
    }
    let mut r = ClassReader::new(vec![200]);
    assert_eq!(read_stack_map_frame(&mut r, &pool, &mut labels).unwrap_err(), Error::UnknownTag);
}
