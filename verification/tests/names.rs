use duke::jstring::JavaString;
use duke::tree::class::{ArrClassName, ClassName, ObjClassName};
use duke::tree::field::FieldName;
use duke::tree::method::MethodName;
use duke::tree::names::{is_valid_class_name, is_valid_method_name, is_valid_unqualified_name};

fn js(s: &str) -> JavaString {
    JavaString::from_str(s)
}

#[test]
fn class_names() {
    assert!(is_valid_class_name(&js("java/lang/Object")));
    assert!(is_valid_class_name(&js("java/lang/Thread")));
    assert!(is_valid_class_name(&js("[[[D")));
    assert!(is_valid_class_name(&js("An$Inner$Class")));

    assert!(!is_valid_class_name(&js("")));
    assert!(!is_valid_class_name(&js("/")));
    assert!(!is_valid_class_name(&js("/a")));
    assert!(!is_valid_class_name(&js("a/")));
    assert!(!is_valid_class_name(&js("//a")));
    assert!(!is_valid_class_name(&js("a//")));
    assert!(!is_valid_class_name(&js("a.b")));
    assert!(!is_valid_class_name(&js("a;b")));
    assert!(!is_valid_class_name(&js("a[b")));
}

#[test]
fn unqualified_names() {
    assert!(is_valid_unqualified_name(&js("foo")));
    assert!(is_valid_unqualified_name(&js("bar")));
    assert!(is_valid_unqualified_name(&js("FOO")));
    assert!(is_valid_unqualified_name(&js("1234567")));
    assert!(is_valid_unqualified_name(&js("---")));
    assert!(is_valid_unqualified_name(&js("a$name")));

    assert!(!is_valid_unqualified_name(&js("")));
    assert!(!is_valid_unqualified_name(&js(".")));
    assert!(!is_valid_unqualified_name(&js(";")));
    assert!(!is_valid_unqualified_name(&js("[")));
    assert!(!is_valid_unqualified_name(&js("/")));
}

#[test]
fn method_names() {
    assert!(is_valid_method_name(&js("foo")));
    assert!(is_valid_method_name(&js("bar")));
    assert!(is_valid_method_name(&js("FOO")));
    assert!(is_valid_method_name(&js("1234567")));
    assert!(is_valid_method_name(&js("---")));
    assert!(is_valid_method_name(&js("a$name")));

    assert!(!is_valid_method_name(&js("")));
    assert!(!is_valid_method_name(&js(".")));
    assert!(!is_valid_method_name(&js(";")));
    assert!(!is_valid_method_name(&js("[")));
    assert!(!is_valid_method_name(&js("/")));
    assert!(!is_valid_method_name(&js("<NotClinit>")));
    assert!(!is_valid_method_name(&js("<>")));
    assert!(!is_valid_method_name(&js("<")));
    assert!(!is_valid_method_name(&js(">")));
}

#[test]
fn valid_class_names() {
    for i in ["foo", "foo$bar", "java/lang/Object", "org/example/MyClassName", "[[[D", "[[Ljava/lang/Integer;"] {
        assert!(ClassName::is_valid(&js(i)), "{:?} is a valid class name", i);
    }
}

#[test]
fn invalid_class_names() {
    for i in ["", ".", "/", ";", "[", "a/", "/a", "[V", "L;", "//a", "a//", "a.b", "a;b", "a[b", "L;DV", "a//a"] {
        assert!(!ClassName::is_valid(&js(i)), "{:?} is an invalid class name", i);
    }
}

#[test]
fn valid_arr_class_names() {
    for i in ["[[[D", "[[Ljava/lang/Integer;"] {
        assert!(ArrClassName::is_valid(&js(i)), "{:?} is a valid array class name name", i);
    }
}

#[test]
fn invalid_arr_class_names() {
    for i in [
        "", "B", "C", "I", "J", "Z", "(", ")", "()", "[V", "L;", "()V", "foo", "foo$bar", "(D)I", "L;DV",
        "Ljava/lang/Object;", "Lorg/example/MyClassName;",
    ] {
        assert!(!ArrClassName::is_valid(&js(i)), "{:?} is an invalid array class name", i);
    }
}

#[test]
fn valid_obj_class_names() {
    for i in ["1234", "---", "foo", "foo$bar", "java/lang/Object", "org/example/MyClassName"] {
        assert!(ObjClassName::is_valid(&js(i)), "{:?} is a valid object class name", i);
    }
}

#[test]
fn invalid_obj_class_names() {
    for i in ["", "[V", "L;", "L;DV", "[[[D", "[[Ljava/lang/Integer;"] {
        assert!(!ObjClassName::is_valid(&js(i)), "{:?} is an invalid object class name", i);
    }
}

#[test]
fn valid_field_names() {
    for i in ["foo", "bar", "L<foo>", "---", "1234", "do", "while"] {
        assert!(FieldName::is_valid(&js(i)), "{:?} is a valid field name", i);
    }
}

#[test]
fn invalid_field_names() {
    for i in ["", ".", ";", "[", "/"] {
        assert!(!FieldName::is_valid(&js(i)), "{:?} is an invalid field name", i);
    }
}

#[test]
fn valid_method_names() {
    for i in ["foo", "<init>", "<clinit>", "123", "---", "bar", "$foo$"] {
        assert!(MethodName::is_valid(&js(i)), "{:?} is a valid method name", i);
    }
}

#[test]
fn invalid_method_names() {
    for i in ["", "<foo>", "<clinit", "clinit>", ".", ";", "[", "/", "<", ">"] {
        assert!(!MethodName::is_valid(&js(i)), "{:?} is an invalid method name", i);
    }
}

#[test]
fn try_from_checks_names() {
    assert!(ObjClassName::try_from(js("java/lang/Object")).is_ok());
    assert_eq!(ObjClassName::try_from(js("a//b")).unwrap_err(), duke::error::Error::InvalidName);
}
