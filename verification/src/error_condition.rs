//! The error condition, a composite type.

use vstd::prelude::*;
use vstd::string::StringExecFns;
use crate::convert::agrees;
use crate::convert::TryFromValue;
use crate::decoder::not_a_field_list;
use crate::decoder::optional_field;
use crate::decoder::required_field;
use crate::decoder::rest_fields;
use crate::decoder::FrameDecoder;
use crate::error::decode_failure;
use crate::error::AmqpError;
use crate::error::ErrorView;
use crate::text_map::TextMap;
use crate::value::debug_text;
use crate::value::format_debug;
use crate::value::Value;
use crate::value::ValueView;

verus! {

/// The descriptor code of an error condition.
pub const DESC_ERROR: u64 = 0x1d;

/// The model of the descriptor that marks an error condition.
pub open spec fn error_descriptor() -> ValueView {
    ValueView::Ulong(DESC_ERROR)
}

/// Whether `descriptor` marks an error condition.
pub fn is_error_descriptor(descriptor: &Value) -> (b: bool)
    ensures
        b == (descriptor@ == error_descriptor()),
{
    match descriptor {
        Value::Ulong(code) => *code == DESC_ERROR,
        _ => false,
    }
}

/// What went wrong at a peer: a condition code, a description, and
/// optionally a map of further information.
#[derive(Debug, PartialEq)]
pub struct ErrorCondition {
    pub condition: String,
    pub description: String,
    pub info: Option<TextMap>,
}

/// The mathematical model of an [`ErrorCondition`].
pub struct ErrorConditionView {
    pub condition: Seq<char>,
    pub description: Seq<char>,
    pub info: Option<Map<Seq<char>, ValueView>>,
}

impl View for ErrorCondition {
    type V = ErrorConditionView;

    open spec fn view(&self) -> ErrorConditionView {
        ErrorConditionView {
            condition: self.condition@,
            description: self.description@,
            info: match self.info {
                Some(info) => Some(info@),
                None => None,
            },
        }
    }
}

impl DeepView for ErrorCondition {
    type V = ErrorConditionView;

    open spec fn deep_view(&self) -> ErrorConditionView {
        self@
    }
}

/// The error for a descriptor that does not mark an error condition.
pub open spec fn unexpected_descriptor(descriptor: ValueView) -> ErrorView {
    decode_failure("Expected error descriptor but found "@ + debug_text(descriptor))
}

/// The error condition that a list of fields holds: the condition, which is
/// mandatory, then the description, empty when absent, then the
/// information map.
pub open spec fn error_condition_fields(fields: Seq<ValueView>) -> Result<
    ErrorConditionView,
    ErrorView,
> {
    match required_field::<String>(fields, "condition"@) {
        Err(e) => Err(e),
        Ok(condition) => match optional_field::<String>(rest_fields(fields)) {
            Err(e) => Err(e),
            Ok(description) => match optional_field::<TextMap>(rest_fields(rest_fields(fields))) {
                Err(e) => Err(e),
                Ok(info) => Ok(
                    ErrorConditionView {
                        condition,
                        description: match description {
                            Some(text) => text,
                            None => Seq::empty(),
                        },
                        info,
                    },
                ),
            },
        },
    }
}

impl ErrorCondition {
    /// Reads an error condition from the fields that `decoder` has left.
    pub fn decode(decoder: FrameDecoder) -> (r: Result<ErrorCondition, AmqpError>)
        ensures
            agrees(r, error_condition_fields(decoder@.fields)),
    {
        let mut decoder = decoder;
        let condition = match decoder.decode_required::<String>("condition") {
            Ok(condition) => condition,
            Err(e) => {
                return Err(e);
            },
        };
        let description = match decoder.decode_optional::<String>() {
            Ok(Some(description)) => description,
            Ok(None) => String::new(),
            Err(e) => {
                return Err(e);
            },
        };
        let info = match decoder.decode_optional::<TextMap>() {
            Ok(info) => info,
            Err(e) => {
                return Err(e);
            },
        };
        Ok(ErrorCondition { condition, description, info })
    }
}

impl Clone for ErrorCondition {
    fn clone(&self) -> (copy: ErrorCondition)
        ensures
            copy@ == self@,
    {
        let info = match &self.info {
            Some(info) => Some(info.clone()),
            None => None,
        };
        ErrorCondition {
            condition: self.condition.clone(),
            description: self.description.clone(),
            info,
        }
    }
}

impl TryFromValue for ErrorCondition {
    /// Only a described value converts, and only if its descriptor is that
    /// of an error condition and its payload is a list of fields that hold
    /// one.
    open spec fn converted(value: ValueView) -> Result<ErrorConditionView, ErrorView> {
        match value {
            ValueView::Described(descriptor, payload) => if *descriptor == error_descriptor() {
                match *payload {
                    ValueView::List(fields) => error_condition_fields(fields),
                    _ => Err(not_a_field_list(*payload)),
                }
            } else {
                Err(unexpected_descriptor(*descriptor))
            },
            _ => Err(decode_failure("Missing expected error descriptor"@)),
        }
    }

    fn try_from(value: Value) -> (r: Result<ErrorCondition, AmqpError>) {
        match value {
            Value::Described(descriptor, payload) => {
                if is_error_descriptor(&*descriptor) {
                    match FrameDecoder::new(*descriptor, *payload) {
                        Ok(decoder) => ErrorCondition::decode(decoder),
                        Err(e) => Err(e),
                    }
                } else {
                    let message = String::from_str("Expected error descriptor but found ").concat(
                        format_debug(&*descriptor).as_str(),
                    );
                    Err(AmqpError::decode_error(Some(message.as_str())))
                }
            },
            _ => Err(AmqpError::decode_error(Some("Missing expected error descriptor"))),
        }
    }
}

} // verus!
