use eris::error::RpcError;
use eris::message::{Call, Request, Response, EXCEPTION, MAX_CALL_ID, REQUEST, RESULT};
use eris::value::{Mapping, Value};

fn text(s: &str) -> Value {
    Value::String(s.to_string())
}

#[test]
fn kinds_of_messages_are_zero_one_and_two() {
    assert_eq!(REQUEST, 0);
    assert_eq!(RESULT, 1);
    assert_eq!(EXCEPTION, 2);
    assert_eq!(MAX_CALL_ID, i64::MAX as u64);
}

#[test]
fn request_is_a_list_of_kind_identifier_and_content() {
    let mut kwargs = Mapping::new();
    kwargs.insert("b".to_string(), Value::Bool(false));
    let call = Call::new("m".to_string(), vec![Value::Number(-1)], kwargs.clone());
    let wire = Request::new(3, call).encode().unwrap();
    assert_eq!(
        wire,
        Value::Array(vec![
            Value::Number(0),
            Value::Number(3),
            Value::Array(vec![text("m"), Value::Array(vec![Value::Number(-1)]), Value::Object(kwargs)]),
        ])
    );
}

#[test]
fn identifier_beyond_the_wire_cannot_be_encoded() {
    let call = Call::new("m".to_string(), Vec::new(), Mapping::new());
    assert!(Request::new(MAX_CALL_ID, call.clone()).encode().is_ok());
    assert_eq!(Request::new(MAX_CALL_ID + 1, call.clone()).encode(), Err(RpcError::EncodeError));
    assert_eq!(Request::new(u64::MAX, call).encode(), Err(RpcError::EncodeError));
}

#[test]
fn result_decodes_to_its_value() {
    let wire = Value::Array(vec![Value::Number(1), Value::Number(8), text("fine")]);
    assert_eq!(Response::decode(wire), Ok(Response { id: 8, outcome: Ok(text("fine")) }));
}

#[test]
fn exception_decodes_to_its_message() {
    let wire = Value::Array(vec![Value::Number(2), Value::Number(0), text("boom")]);
    assert_eq!(Response::decode(wire), Ok(Response { id: 0, outcome: Err("boom".to_string()) }));
}

#[test]
fn anything_else_is_a_decode_error() {
    let wrong = vec![
        Value::Null,
        Value::Number(1),
        text("[1, 0, null]"),
        Value::Object(Mapping::new()),
        Value::Array(Vec::new()),
        Value::Array(vec![Value::Number(1), Value::Number(0)]),
        Value::Array(vec![Value::Number(1), Value::Number(0), Value::Null, Value::Null]),
        Value::Array(vec![Value::Number(0), Value::Number(0), Value::Null]),
        Value::Array(vec![Value::Number(3), Value::Number(0), Value::Null]),
        Value::Array(vec![Value::Number(-1), Value::Number(0), Value::Null]),
        Value::Array(vec![text("1"), Value::Number(0), Value::Null]),
        Value::Array(vec![Value::Number(1), Value::Number(-1), Value::Null]),
        Value::Array(vec![Value::Number(1), text("0"), Value::Null]),
        Value::Array(vec![Value::Number(1), Value::Null, Value::Null]),
        Value::Array(vec![Value::Number(2), Value::Number(0), Value::Null]),
        Value::Array(vec![Value::Number(2), Value::Number(0), Value::Number(7)]),
    ];
    for wire in wrong {
        assert_eq!(Response::decode(wire.clone()), Err(RpcError::DecodeError), "{:?}", wire);
    }
}

#[test]
fn number_that_is_not_whole_is_no_identifier_and_no_kind() {
    let one = 1.0f64.to_bits();
    let wire = Value::Array(vec![Value::Real(one), Value::Number(0), Value::Null]);
    assert_eq!(Response::decode(wire), Err(RpcError::DecodeError));
    let wire = Value::Array(vec![Value::Number(1), Value::Real(one), Value::Null]);
    assert_eq!(Response::decode(wire), Err(RpcError::DecodeError));
    let wire = Value::Array(vec![Value::Number(1), Value::Number(0), Value::Real(one)]);
    assert_eq!(Response::decode(wire), Ok(Response { id: 0, outcome: Ok(Value::Real(one)) }));
}

#[test]
fn largest_identifier_decodes() {
    let wire = Value::Array(vec![Value::Number(1), Value::Number(i64::MAX), Value::Null]);
    assert_eq!(Response::decode(wire), Ok(Response { id: MAX_CALL_ID, outcome: Ok(Value::Null) }));
}

#[test]
fn mapping_keeps_one_value_for_each_key() {
    let mut mapping = Mapping::new();
    assert_eq!(mapping.len(), 0);
    assert_eq!(mapping.insert("a".to_string(), Value::Number(1)), None);
    assert_eq!(mapping.insert("b".to_string(), Value::Number(2)), None);
    assert_eq!(mapping.insert("a".to_string(), Value::Number(3)), Some(Value::Number(1)));
    assert_eq!(mapping.len(), 2);
    assert_eq!(mapping.get(&"a".to_string()), Some(&Value::Number(3)));
    assert_eq!(mapping.get(&"b".to_string()), Some(&Value::Number(2)));
    assert_eq!(mapping.get(&"c".to_string()), None);
    let keys: Vec<&str> = mapping.entries().iter().map(|(key, _)| key.as_str()).collect();
    assert_eq!(keys, vec!["a", "b"]);
}

#[test]
fn copy_of_a_value_is_equal_to_it() {
    let mut inner = Mapping::new();
    inner.insert("k".to_string(), Value::Array(vec![Value::Null, Value::Bool(true)]));
    let value = Value::Array(vec![
        Value::Number(i64::MIN),
        Value::Real(0.5f64.to_bits()),
        text("x"),
        Value::Object(inner),
        Value::Array(vec![Value::Array(Vec::new())]),
    ]);
    let copy = value.clone();
    assert_eq!(copy, value);
    let call = Call::new("m".to_string(), vec![value], Mapping::new());
    assert_eq!(call.clone(), call);
}
