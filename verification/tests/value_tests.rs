use rec::RecDeserialize;
use rec::RecError;
use rec::RecObject;
use rec::RecValue;

#[test]
fn string_from_rec_succeeds_on_strings() {
    let v = RecValue::String("hello".to_string());
    assert_eq!(String::from_rec(&v).unwrap(), "hello");
}

#[test]
fn string_from_rec_rejects_other_kinds_with_a_type_error() {
    let v = RecValue::Int(3);
    match String::from_rec(&v) {
        Err(RecError::TypeError { expected, .. }) => assert_eq!(expected, "string"),
        other => panic!("expected a type error, got {:?}", other),
    }
}

#[test]
fn int_and_bool_from_rec() {
    assert_eq!(i64::from_rec(&RecValue::Int(-5)).unwrap(), -5);
    assert_eq!(bool::from_rec(&RecValue::Bool(true)).unwrap(), true);
    match i64::from_rec(&RecValue::Bool(false)) {
        Err(RecError::TypeError { expected, .. }) => assert_eq!(expected, "int"),
        other => panic!("expected a type error, got {:?}", other),
    }
    match bool::from_rec(&RecValue::Null) {
        Err(RecError::TypeError { expected, .. }) => assert_eq!(expected, "bool"),
        other => panic!("expected a type error, got {:?}", other),
    }
}

#[test]
fn vec_from_rec_converts_every_element() {
    let v = RecValue::Array(vec![RecValue::Int(1), RecValue::Int(2), RecValue::Int(3)]);
    assert_eq!(Vec::<i64>::from_rec(&v).unwrap(), vec![1, 2, 3]);
}

#[test]
fn vec_from_rec_propagates_the_first_element_failure_unchanged() {
    let v = RecValue::Array(vec![
        RecValue::Int(1),
        RecValue::String("x".to_string()),
        RecValue::Bool(true),
    ]);
    match Vec::<i64>::from_rec(&v) {
        Err(RecError::TypeError { expected, .. }) => assert_eq!(expected, "int"),
        other => panic!("expected the inner type error, got {:?}", other),
    }
}

#[test]
fn vec_from_rec_rejects_non_arrays() {
    match Vec::<i64>::from_rec(&RecValue::Int(1)) {
        Err(RecError::TypeError { expected, .. }) => assert_eq!(expected, "array"),
        other => panic!("expected a type error, got {:?}", other),
    }
}

#[test]
fn option_from_rec_maps_null_and_keeps_inner_errors() {
    assert_eq!(Option::<i64>::from_rec(&RecValue::Null).unwrap(), None);
    assert_eq!(Option::<i64>::from_rec(&RecValue::Int(9)).unwrap(), Some(9));
    match Option::<i64>::from_rec(&RecValue::Bool(true)) {
        Err(RecError::TypeError { expected, .. }) => assert_eq!(expected, "int"),
        other => panic!("expected the inner type error, got {:?}", other),
    }
}

#[test]
fn accessors_read_the_right_shapes() {
    let obj = RecObject {
        fields: vec![("a".to_string(), RecValue::Int(1))],
    };
    let v = RecValue::Object(obj);
    assert!(v.as_object().is_some());
    assert_eq!(v.get("a").unwrap().as_int().unwrap(), 1);
    assert!(v.get("b").is_none());
    assert!(v.as_string().is_none());
}
