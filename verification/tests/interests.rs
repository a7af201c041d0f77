use duke::visitor::{ClassInterests, CodeInterests, FieldInterests, MethodInterests};

#[test]
fn interests_none_and_all() {
    let none = ClassInterests::none();
    let all = ClassInterests::all();
    assert!(!none.fields && !none.methods && !none.record);
    assert!(all.fields && all.methods && all.record && all.unknown_attributes);
    assert_eq!(ClassInterests::default(), none);
    assert!(CodeInterests::all().line_number_table);
    assert!(!CodeInterests::none().line_number_table);
    assert!(FieldInterests::all().constant_value);
    assert_eq!(FieldInterests::default(), FieldInterests::none());
    assert!(MethodInterests::all().code);
    assert!(!MethodInterests::none().code);
}
