use amqp_convert::convert::convert;
use amqp_convert::decoder::FrameDecoder;
use amqp_convert::error::AmqpError;
use amqp_convert::error_condition::is_error_descriptor;
use amqp_convert::error_condition::ErrorCondition;
use amqp_convert::error_condition::DESC_ERROR;
use amqp_convert::text_map::TextMap;
use amqp_convert::value::Value;

fn decode_error(message: &str) -> AmqpError {
    AmqpError::decode_error(Some(message))
}

fn described(descriptor: Value, payload: Value) -> Value {
    Value::Described(Box::new(descriptor), Box::new(payload))
}

fn symbol(s: &str) -> Value {
    Value::Symbol(s.as_bytes().to_vec())
}

fn text(s: &str) -> Value {
    Value::String(s.to_string())
}

#[test]
fn error_condition_with_all_fields() {
    let info = Value::Mapping(vec![(symbol("retry"), Value::Bool(false))]);
    let value = described(
        Value::Ulong(0x1d),
        Value::List(vec![symbol("amqp:not-found"), text("no such node"), info]),
    );
    let mut expected_info = TextMap::new();
    expected_info.insert("retry".to_string(), Value::Bool(false));
    assert_eq!(
        convert::<ErrorCondition>(value),
        Ok(ErrorCondition {
            condition: "amqp:not-found".to_string(),
            description: "no such node".to_string(),
            info: Some(expected_info),
        })
    );
}

#[test]
fn error_condition_with_the_condition_alone() {
    let value = described(Value::Ulong(DESC_ERROR), Value::List(vec![symbol("amqp:decode-error")]));
    assert_eq!(
        convert::<ErrorCondition>(value),
        Ok(ErrorCondition {
            condition: "amqp:decode-error".to_string(),
            description: String::new(),
            info: None,
        })
    );
}

#[test]
fn null_fields_are_absent() {
    let value = described(
        Value::Ulong(DESC_ERROR),
        Value::List(vec![symbol("amqp:internal-error"), Value::Null, Value::Null]),
    );
    assert_eq!(
        convert::<ErrorCondition>(value),
        Ok(ErrorCondition {
            condition: "amqp:internal-error".to_string(),
            description: String::new(),
            info: None,
        })
    );
}

#[test]
fn fields_beyond_the_layout_are_left_alone() {
    let value = described(
        Value::Ulong(DESC_ERROR),
        Value::List(vec![symbol("c"), text("d"), Value::Null, Value::Ubyte(1), Value::Ubyte(2)]),
    );
    let condition = convert::<ErrorCondition>(value).unwrap();
    assert_eq!(condition.condition, "c");
    assert_eq!(condition.description, "d");
    assert_eq!(condition.info, None);
}

#[test]
fn missing_condition_is_an_error() {
    let value = described(Value::Ulong(DESC_ERROR), Value::List(vec![]));
    assert_eq!(
        convert::<ErrorCondition>(value),
        Err(decode_error("Missing required field: condition"))
    );
    let value = described(Value::Ulong(DESC_ERROR), Value::List(vec![Value::Null, text("d")]));
    assert_eq!(
        convert::<ErrorCondition>(value),
        Err(decode_error("Missing required field: condition"))
    );
}

#[test]
fn a_field_of_the_wrong_type_is_an_error() {
    let value = described(Value::Ulong(DESC_ERROR), Value::List(vec![Value::Uint(1)]));
    assert_eq!(
        convert::<ErrorCondition>(value),
        Err(decode_error("Error converting value to String"))
    );
    let value = described(Value::Ulong(DESC_ERROR), Value::List(vec![symbol("c"), Value::Uint(1)]));
    assert_eq!(
        convert::<ErrorCondition>(value),
        Err(decode_error("Error converting value to String"))
    );
    let value = described(
        Value::Ulong(DESC_ERROR),
        Value::List(vec![symbol("c"), text("d"), Value::List(vec![])]),
    );
    assert_eq!(
        convert::<ErrorCondition>(value),
        Err(decode_error("Error converting value to TextMap"))
    );
}

#[test]
fn another_descriptor_is_refused() {
    let value = described(Value::Ulong(0x10), Value::List(vec![symbol("amqp:not-found")]));
    assert_eq!(
        convert::<ErrorCondition>(value),
        Err(decode_error("Expected error descriptor but found Ulong(16)"))
    );
    let value = described(symbol("amqp:error:list"), Value::List(vec![symbol("amqp:not-found")]));
    let e = convert::<ErrorCondition>(value).unwrap_err();
    assert_eq!(
        e.description(),
        Some(format!("Expected error descriptor but found {:?}", symbol("amqp:error:list")).as_str())
    );
    let value = described(Value::Uint(0x1d), Value::List(vec![symbol("amqp:not-found")]));
    assert_eq!(
        convert::<ErrorCondition>(value),
        Err(decode_error("Expected error descriptor but found Uint(29)"))
    );
}

#[test]
fn the_descriptor_is_checked_before_the_payload() {
    let value = described(Value::Ulong(0x10), Value::Null);
    assert_eq!(
        convert::<ErrorCondition>(value),
        Err(decode_error("Expected error descriptor but found Ulong(16)"))
    );
}

#[test]
fn a_payload_that_is_no_list_is_refused() {
    let value = described(Value::Ulong(DESC_ERROR), Value::Ubyte(3));
    assert_eq!(
        convert::<ErrorCondition>(value),
        Err(decode_error("Error decoding frame arguments: Ubyte(3)"))
    );
}

#[test]
fn a_value_without_descriptor_is_refused() {
    for value in [
        Value::Null,
        Value::Ulong(DESC_ERROR),
        Value::List(vec![symbol("amqp:not-found")]),
        symbol("amqp:not-found"),
    ] {
        assert_eq!(
            convert::<ErrorCondition>(value),
            Err(decode_error("Missing expected error descriptor"))
        );
    }
    assert_eq!(convert::<Option<ErrorCondition>>(Value::Null), Ok(None));
}

#[test]
fn error_descriptor_is_the_unsigned_long_29() {
    assert_eq!(DESC_ERROR, 29);
    assert!(is_error_descriptor(&Value::Ulong(29)));
    assert!(!is_error_descriptor(&Value::Ulong(28)));
    assert!(!is_error_descriptor(&Value::Uint(29)));
    assert!(!is_error_descriptor(&Value::Null));
}

#[test]
fn decoder_reads_fields_in_order() {
    let payload = Value::List(vec![Value::Ubyte(1), text("two"), Value::Null, Value::Uint(4)]);
    let mut decoder = FrameDecoder::new(Value::Ulong(0x10), payload).unwrap();
    assert_eq!(decoder.descriptor(), &Value::Ulong(0x10));
    assert_eq!(decoder.remaining(), 4);
    assert_eq!(decoder.decode_required::<u8>("first"), Ok(1));
    assert_eq!(decoder.remaining(), 3);
    assert_eq!(decoder.decode_optional::<String>(), Ok(Some("two".to_string())));
    assert_eq!(decoder.decode_optional::<u16>(), Ok(None));
    assert_eq!(decoder.decode_required::<u32>("fourth"), Ok(4));
    assert_eq!(decoder.remaining(), 0);
    assert_eq!(decoder.decode_optional::<u8>(), Ok(None));
    assert_eq!(
        decoder.decode_required::<u8>("fifth"),
        Err(decode_error("Missing required field: fifth"))
    );
    assert_eq!(decoder.remaining(), 0);
}

#[test]
fn decoder_consumes_a_field_that_fails() {
    let payload = Value::List(vec![Value::Bool(true), Value::Ubyte(2)]);
    let mut decoder = FrameDecoder::new(Value::Null, payload).unwrap();
    assert_eq!(
        decoder.decode_required::<u8>("first"),
        Err(decode_error("Error converting value to u8"))
    );
    assert_eq!(decoder.remaining(), 1);
    assert_eq!(decoder.decode_required::<u8>("second"), Ok(2));
}

#[test]
fn decoder_treats_a_null_required_field_as_missing() {
    let payload = Value::List(vec![Value::Null, Value::Ubyte(2)]);
    let mut decoder = FrameDecoder::new(Value::Null, payload).unwrap();
    assert_eq!(
        decoder.decode_required::<Option<u8>>("first"),
        Err(decode_error("Missing required field: first"))
    );
    assert_eq!(decoder.decode_optional::<u8>(), Ok(Some(2)));
}

#[test]
fn decoder_wants_a_list() {
    let e = FrameDecoder::new(Value::Ulong(1), Value::Mapping(vec![])).unwrap_err();
    assert_eq!(e, decode_error("Error decoding frame arguments: Mapping([])"));
    let e = FrameDecoder::new(Value::Ulong(1), Value::Array(vec![])).unwrap_err();
    assert_eq!(e, decode_error("Error decoding frame arguments: Array([])"));
}

#[test]
fn decode_reads_what_the_decoder_has_left() {
    let payload = Value::List(vec![Value::Ubyte(0), symbol("amqp:not-allowed"), text("no")]);
    let mut decoder = FrameDecoder::new(Value::Ulong(DESC_ERROR), payload).unwrap();
    assert_eq!(decoder.decode_required::<u8>("skipped"), Ok(0));
    assert_eq!(
        ErrorCondition::decode(decoder),
        Ok(ErrorCondition {
            condition: "amqp:not-allowed".to_string(),
            description: "no".to_string(),
            info: None,
        })
    );
}

#[test]
fn clone_of_an_error_condition_is_equal() {
    let mut info = TextMap::new();
    info.insert("k".to_string(), Value::Null);
    let condition = ErrorCondition {
        condition: "amqp:not-found".to_string(),
        description: "gone".to_string(),
        info: Some(info),
    };
    assert_eq!(condition.clone(), condition);
}
