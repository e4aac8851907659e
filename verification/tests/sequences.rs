use amqp_convert::convert::convert;
use amqp_convert::convert::convert_all;
use amqp_convert::error::AmqpError;
use amqp_convert::value::Value;

fn decode_error(message: &str) -> AmqpError {
    AmqpError::decode_error(Some(message))
}

#[test]
fn list_of_ubytes_converts_to_bytes() {
    let list = Value::List(vec![Value::Ubyte(1), Value::Ubyte(2)]);
    assert_eq!(convert::<Vec<u8>>(list), Ok(vec![1, 2]));
}

#[test]
fn list_with_a_mismatch_fails_whole() {
    let list = Value::List(vec![Value::Ubyte(1), Value::Bool(true)]);
    assert_eq!(convert::<Vec<u8>>(list), Err(decode_error("Error decoding list elements")));
}

#[test]
fn array_converts_like_a_list() {
    let array = Value::Array(vec![Value::Uint(3), Value::Uint(2), Value::Uint(1)]);
    assert_eq!(convert::<Vec<u32>>(array), Ok(vec![3, 2, 1]));
    let array = Value::Array(vec![Value::Uint(3), Value::Ulong(2), Value::Uint(1)]);
    assert_eq!(convert::<Vec<u32>>(array), Err(decode_error("Error decoding array elements")));
}

#[test]
fn order_and_length_are_kept() {
    let items: Vec<Value> = (0..200u32).map(|n| Value::Uint(n * 3)).collect();
    let expected: Vec<u32> = (0..200u32).map(|n| n * 3).collect();
    assert_eq!(convert::<Vec<u32>>(Value::List(items.clone())), Ok(expected.clone()));
    assert_eq!(convert::<Vec<u32>>(Value::Array(items)), Ok(expected));
}

#[test]
fn a_failure_anywhere_fails_the_sequence() {
    for bad in 0..5usize {
        let mut items: Vec<Value> = (0..5u8).map(Value::Ubyte).collect();
        items[bad] = Value::String("x".to_string());
        assert_eq!(
            convert::<Vec<u8>>(Value::List(items)),
            Err(decode_error("Error decoding list elements"))
        );
    }
}

#[test]
fn empty_sequences_convert_to_empty() {
    assert_eq!(convert::<Vec<u8>>(Value::List(vec![])), Ok(vec![]));
    assert_eq!(convert::<Vec<String>>(Value::Array(vec![])), Ok(vec![]));
}

#[test]
fn a_single_value_becomes_one_element() {
    assert_eq!(convert::<Vec<u8>>(Value::Ubyte(7)), Ok(vec![7]));
    assert_eq!(convert::<Vec<bool>>(Value::Bool(false)), Ok(vec![false]));
    assert_eq!(
        convert::<Vec<String>>(Value::Symbol(b"one".to_vec())),
        Ok(vec!["one".to_string()])
    );
}

#[test]
fn a_single_value_that_does_not_convert_fails() {
    assert_eq!(
        convert::<Vec<u8>>(Value::Bool(true)),
        Err(decode_error("Error converting value to u8"))
    );
}

#[test]
fn null_is_a_single_value() {
    assert_eq!(convert::<Vec<u8>>(Value::Null), Err(decode_error("Error converting value to u8")));
    assert_eq!(convert::<Vec<Option<u8>>>(Value::Null), Ok(vec![None]));
}

#[test]
fn sequences_of_optionals_and_sequences() {
    let list = Value::List(vec![Value::Ubyte(1), Value::Null, Value::Ubyte(3)]);
    assert_eq!(convert::<Vec<Option<u8>>>(list), Ok(vec![Some(1), None, Some(3)]));
    let nested = Value::List(vec![
        Value::List(vec![Value::Ubyte(1), Value::Ubyte(2)]),
        Value::Array(vec![]),
        Value::Ubyte(9),
    ]);
    assert_eq!(convert::<Vec<Vec<u8>>>(nested), Ok(vec![vec![1, 2], vec![], vec![9]]));
}

#[test]
fn a_nested_failure_fails_the_outermost() {
    let nested = Value::List(vec![
        Value::List(vec![Value::Ubyte(1)]),
        Value::Array(vec![Value::Bool(true)]),
    ]);
    assert_eq!(convert::<Vec<Vec<u8>>>(nested), Err(decode_error("Error decoding list elements")));
}

#[test]
fn convert_all_names_the_failure() {
    assert_eq!(convert_all::<u8>(vec![Value::Ubyte(4)], "no"), Ok(vec![4]));
    assert_eq!(
        convert_all::<u8>(vec![Value::Ubyte(4), Value::Null], "no bytes"),
        Err(decode_error("no bytes"))
    );
}

#[test]
fn map_entries_pass_through() {
    let entries = vec![
        (Value::Ubyte(2), Value::String("two".to_string())),
        (Value::Ubyte(1), Value::Null),
        (Value::Ubyte(2), Value::String("again".to_string())),
    ];
    assert_eq!(convert::<Vec<(Value, Value)>>(Value::Mapping(entries.clone())), Ok(entries));
    assert_eq!(convert::<Vec<(Value, Value)>>(Value::Mapping(vec![])), Ok(vec![]));
}

#[test]
fn only_a_map_has_entries() {
    assert_eq!(
        convert::<Vec<(Value, Value)>>(Value::List(vec![])),
        Err(decode_error("Error converting value to Vec<(Value, Value)>"))
    );
    assert_eq!(
        convert::<Vec<(Value, Value)>>(Value::Null),
        Err(decode_error("Error converting value to Vec<(Value, Value)>"))
    );
}
