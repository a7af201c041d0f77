use duke::jstring::JavaString;
use duke::tree::class::ClassName;
use duke::tree::descriptor::{ParsedMethodDescriptor, ReturnDescriptor, Type};
use duke::tree::field::FieldDescriptor;
use duke::tree::method::MethodDescriptor;
use duke::error::Error;

fn field(s: &str) -> FieldDescriptor {
    FieldDescriptor::from_inner_unchecked(JavaString::from_str(s))
}

fn method(s: &str) -> MethodDescriptor {
    MethodDescriptor::from_inner_unchecked(JavaString::from_str(s))
}

fn class(s: &str) -> ClassName {
    ClassName::from_inner_unchecked(JavaString::from_str(s))
}

#[test]
fn field_parse_err() {
    assert!(field("").parse().is_err());
    assert!(field("V").parse().is_err());
    assert!(field("(").parse().is_err());
    assert!(field("[V").parse().is_err());
    assert!(field("()V").parse().is_err());
    assert!(field("(D)I").parse().is_err());
    assert!(field("L;DV").parse().is_err());
}

#[test]
fn method_parse() {
    assert_eq!(
        method("(IDLjava/lang/Thread;)Ljava/lang/Object;").parse().unwrap(),
        ParsedMethodDescriptor {
            parameter_descriptors: vec![Type::I, Type::D, Type::Object(class("java/lang/Thread"))],
            return_descriptor: Some(Type::Object(class("java/lang/Object"))),
        }
    );
    assert_eq!(
        method("(IDLjava/lang/Thread;)Ljava/lang/Object;"),
        ParsedMethodDescriptor {
            parameter_descriptors: vec![Type::I, Type::D, Type::Object(class("java/lang/Thread"))],
            return_descriptor: Some(Type::Object(class("java/lang/Object"))),
        }.write()
    );
    assert_eq!(
        method("(Ljava/lang/Thread;Ljava/lang/Object;)V").parse().unwrap(),
        ParsedMethodDescriptor {
            parameter_descriptors: vec![Type::Object(class("java/lang/Thread")), Type::Object(class("java/lang/Object"))],
            return_descriptor: None,
        }
    );
    assert_eq!(
        method("(Ljava/lang/Thread;Ljava/lang/Object;)V"),
        ParsedMethodDescriptor {
            parameter_descriptors: vec![Type::Object(class("java/lang/Thread")), Type::Object(class("java/lang/Object"))],
            return_descriptor: None,
        }.write()
    );
}

#[test]
fn method_parse_err() {
    assert!(method("").parse().is_err());
    assert!(method("(").parse().is_err());
    assert!(method("(D").parse().is_err());
    assert!(method("(V").parse().is_err());
    assert!(method("()").parse().is_err());
    assert!(method("(I)").parse().is_err());
    assert!(method("(V)D").parse().is_err());
    assert!(method("(D)[").parse().is_err());
    assert!(method("(D)[V").parse().is_err());
    assert!(method("[(D)V").parse().is_err());
    assert!(method("(L;;)V").parse().is_err());
}

#[test]
fn method_get_arguments_size() {
    assert_eq!(method("(IDLjava/lang/Thread;)Ljava/lang/Object;").get_arguments_size().unwrap(), 1 + 1 + 2 + 1);
    assert_eq!(method("(Ljava/lang/Thread;Ljava/lang/Object;)V").get_arguments_size().unwrap(), 1 + 1 + 1);
    assert_eq!(method("(BCDFIJLjava/lang/Thread;SZ)Ljava/lang/Object;").get_arguments_size().unwrap(), 1 + 1 + 1 + 2 + 1 + 1 + 2 + 1 + 1 + 1);
    assert_eq!(method("(DDD)V").get_arguments_size().unwrap(), 1 + 2 + 2 + 2);
    assert_eq!(method("(JJJ)V").get_arguments_size().unwrap(), 1 + 2 + 2 + 2);
    assert_eq!(method("(D)V").get_arguments_size().unwrap(), 1 + 2);
    assert_eq!(method("(I)V").get_arguments_size().unwrap(), 1 + 1);
    assert_eq!(method("()V").get_arguments_size().unwrap(), 1);
    assert_eq!(method("()J").get_arguments_size().unwrap(), 1);
    assert_eq!(method("()D").get_arguments_size().unwrap(), 1);
}

#[test]
fn valid_field_descriptors() {
    for i in ["B", "C", "D", "F", "I", "J", "Ljava/lang/Object;", "Lorg/example/MyClassName;", "S", "Z", "[[[D"] {
        assert!(FieldDescriptor::is_valid(&JavaString::from_str(i)), "{:?} is a valid field desc", i);
    }
}

#[test]
fn invalid_field_descriptors() {
    for i in ["", "V", "(", ")", "()", "[V", "L;", "()V", "foo", "(D)I", "L;DV"] {
        assert!(!FieldDescriptor::is_valid(&JavaString::from_str(i)), "{:?} is an invalid field desc", i);
    }
}

#[test]
fn valid_method_descriptors() {
    for i in ["()V", "(D)I", "(Ljava/lang/Object;)Ljava/lang/Object;"] {
        assert!(MethodDescriptor::is_valid(&JavaString::from_str(i)), "{:?} is a valid method desc", i);
    }
}

#[test]
fn invalid_method_descriptors() {
    for i in [
        "B", "C", "D", "F", "I", "J", "Ljava/lang/Object;", "Lorg/example/MyClassName;", "S", "Z", "[[[D", "", "V", "(",
        ")", "()", "[V", "L;", "foo", "L;DV", "(L;)V",
    ] {
        assert!(!MethodDescriptor::is_valid(&JavaString::from_str(i)), "{:?} is an invalid method desc", i);
    }
}

#[test]
fn valid_return_descriptors() {
    for i in ["B", "C", "D", "F", "I", "J", "Ljava/lang/Object;", "Lorg/example/MyClassName;", "S", "Z", "[[[D", "V"] {
        assert!(ReturnDescriptor::is_valid(&JavaString::from_str(i)), "{:?} is a valid return desc", i);
    }
}

#[test]
fn invalid_return_descriptors() {
    for i in ["", "(", ")", "()", "[V", "L;", "()V", "foo", "(D)I", "L;DV"] {
        assert!(!ReturnDescriptor::is_valid(&JavaString::from_str(i)), "{:?} is an invalid return desc", i);
    }
}

#[test]
fn field_parse_write_round_trip() {
    for i in ["B", "Ljava/lang/Object;", "[[[D", "[Ljava/lang/String;"] {
        let parsed = field(i).parse().unwrap();
        assert_eq!(parsed.write(), field(i));
    }
}

#[test]
fn field_parse_array() {
    let parsed = field("[[Ljava/lang/String;").parse().unwrap();
    assert_eq!(parsed.0, Type::Array(2, duke::tree::descriptor::ArrayType::Object(class("java/lang/String"))));
}

#[test]
fn field_parse_error_kind() {
    assert_eq!(field("Q").parse().unwrap_err(), Error::InvalidDescriptor);
}

#[test]
fn many_dimensions_are_invalid() {
    let s: String = std::iter::repeat('[').take(256).chain(std::iter::once('I')).collect();
    assert!(!FieldDescriptor::is_valid(&JavaString::from_str(&s)));
    let s: String = std::iter::repeat('[').take(255).chain(std::iter::once('I')).collect();
    assert!(FieldDescriptor::is_valid(&JavaString::from_str(&s)));
}

#[test]
fn parse_refuses_bad_class_names_and_dimensions() {
    assert_eq!(field("L;").parse().unwrap_err(), Error::InvalidDescriptor);
    assert_eq!(field("[L;").parse().unwrap_err(), Error::InvalidDescriptor);
    assert_eq!(field("La//b;").parse().unwrap_err(), Error::InvalidDescriptor);
    assert!(field("La/b;").parse().is_ok());
    assert_eq!(method("(L;)V").parse().unwrap_err(), Error::InvalidDescriptor);
    let s: String = std::iter::repeat('[').take(256).chain(std::iter::once('I')).collect();
    assert_eq!(field(&s).parse().unwrap_err(), Error::InvalidDescriptor);
    let m = format!("({})V", s);
    assert_eq!(method(&m).parse().unwrap_err(), Error::InvalidDescriptor);
    let s: String = std::iter::repeat('[').take(255).chain(std::iter::once('I')).collect();
    assert!(field(&s).parse().is_ok());
}
