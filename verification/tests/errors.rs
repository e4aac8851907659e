use amqp_convert::condition;
use amqp_convert::error::AmqpError;

#[test]
fn decode_error_has_the_decode_condition() {
    let e = AmqpError::decode_error(Some("bad value"));
    assert_eq!(e.condition(), "amqp:decode-error");
    assert_eq!(e.condition(), condition::DECODE_ERROR);
    assert_eq!(e.description(), Some("bad value"));
}

#[test]
fn decode_error_may_lack_a_message() {
    let e = AmqpError::decode_error(None);
    assert_eq!(e.condition(), condition::DECODE_ERROR);
    assert_eq!(e.description(), None);
}

#[test]
fn amqp_error_keeps_condition_and_message() {
    let e = AmqpError::amqp_error(condition::NOT_FOUND, Some("no such queue"));
    assert_eq!(e.condition(), "amqp:not-found");
    assert_eq!(e.description(), Some("no such queue"));
    let e = AmqpError::amqp_error("vendor:custom", None);
    assert_eq!(e.condition(), "vendor:custom");
    assert_eq!(e.description(), None);
}

#[test]
fn decode_error_is_an_amqp_error_with_the_decode_condition() {
    assert_eq!(
        AmqpError::decode_error(Some("m")),
        AmqpError::amqp_error(condition::DECODE_ERROR, Some("m"))
    );
    assert_ne!(
        AmqpError::decode_error(Some("m")),
        AmqpError::amqp_error(condition::INTERNAL_ERROR, Some("m"))
    );
    assert_ne!(AmqpError::decode_error(Some("m")), AmqpError::decode_error(None));
}

#[test]
fn error_reads_as_one_line() {
    assert_eq!(
        AmqpError::decode_error(Some("bad value")).to_string(),
        "amqp:decode-error: bad value"
    );
    assert_eq!(AmqpError::amqp_error(condition::ILLEGAL_STATE, None).to_string(), "amqp:illegal-state");
}

#[test]
fn error_clone_is_equal() {
    let e = AmqpError::amqp_error(condition::NOT_ALLOWED, Some("no"));
    assert_eq!(e.clone(), e);
    let e = AmqpError::amqp_error(condition::NOT_IMPLEMENTED, None);
    assert_eq!(e.clone(), e);
}

#[test]
fn condition_codes_are_the_amqp_symbols() {
    assert_eq!(condition::INTERNAL_ERROR, "amqp:internal-error");
    assert_eq!(condition::NOT_FOUND, "amqp:not-found");
    assert_eq!(condition::DECODE_ERROR, "amqp:decode-error");
    assert_eq!(condition::INVALID_FIELD, "amqp:invalid-field");
    assert_eq!(condition::ILLEGAL_STATE, "amqp:illegal-state");
    assert_eq!(condition::NOT_ALLOWED, "amqp:not-allowed");
    assert_eq!(condition::NOT_IMPLEMENTED, "amqp:not-implemented");
}
