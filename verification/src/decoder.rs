//! Field-by-field decoding of a described value's payload.
//!
//! A composite type is sent as a descriptor and a list of fields, whose
//! positions say what they are. A [`FrameDecoder`] hands the fields out one
//! by one, each converted to the type that the composite's decode routine
//! asks for. A field that the list is too short to hold counts as null.

use vstd::prelude::*;
use vstd::string::StringExecFns;
use crate::convert::agrees;
use crate::convert::TryFromValue;
use crate::error::decode_failure;
use crate::error::AmqpError;
use crate::error::ErrorView;
use crate::value::debug_text;
use crate::value::format_debug;
use crate::value::lemma_collection_models;
use crate::value::models;
use crate::value::Value;
use crate::value::ValueView;

verus! {

/// The field that is next in line: null when none is left.
pub open spec fn next_field(fields: Seq<ValueView>) -> ValueView {
    if fields.len() > 0 {
        fields[0]
    } else {
        ValueView::Null
    }
}

/// The fields that are left once the next one is taken.
pub open spec fn rest_fields(fields: Seq<ValueView>) -> Seq<ValueView> {
    if fields.len() > 0 {
        fields.drop_first()
    } else {
        fields
    }
}

/// The error for a mandatory field that is absent.
pub open spec fn missing_field(name: Seq<char>) -> ErrorView {
    decode_failure("Missing required field: "@ + name)
}

/// The error for a payload that is no list of fields.
pub open spec fn not_a_field_list(payload: ValueView) -> ErrorView {
    decode_failure("Error decoding frame arguments: "@ + debug_text(payload))
}

/// A mandatory field of type `T` read from the head of `fields`: a null or
/// absent field is an error that names the field.
pub open spec fn required_field<T: TryFromValue>(fields: Seq<ValueView>, name: Seq<char>) -> Result<
    T::V,
    ErrorView,
> {
    if next_field(fields) is Null {
        Err(missing_field(name))
    } else {
        T::converted(next_field(fields))
    }
}

/// An optional field of type `T` read from the head of `fields`: a null or
/// absent field is `None`.
pub open spec fn optional_field<T: TryFromValue>(fields: Seq<ValueView>) -> Result<
    Option<T::V>,
    ErrorView,
> {
    <Option<T> as TryFromValue>::converted(next_field(fields))
}

/// The fields of one described value, read from first to last.
#[derive(Debug)]
pub struct FrameDecoder {
    descriptor: Value,
    fields: Vec<Value>,
    next: usize,
}

/// The mathematical model of a [`FrameDecoder`]: the descriptor and the
/// fields that have not been read yet.
pub struct DecoderView {
    pub descriptor: ValueView,
    pub fields: Seq<ValueView>,
}

impl View for FrameDecoder {
    type V = DecoderView;

    closed spec fn view(&self) -> DecoderView {
        DecoderView {
            descriptor: self.descriptor@,
            fields: if self.next <= self.fields@.len() {
                models(self.fields@).subrange(self.next as int, self.fields@.len() as int)
            } else {
                Seq::empty()
            },
        }
    }
}

impl FrameDecoder {
    /// A decoder for the fields of `payload`, which has to be a list.
    pub fn new(descriptor: Value, payload: Value) -> (r: Result<FrameDecoder, AmqpError>)
        ensures
            match r {
                Ok(decoder) => payload@ is List && decoder@ == (DecoderView {
                    descriptor: descriptor@,
                    fields: payload@->List_0,
                }),
                Err(e) => !(payload@ is List) && e@ == not_a_field_list(payload@),
            },
    {
        proof {
            lemma_collection_models(payload);
        }
        match payload {
            Value::List(fields) => {
                let decoder = FrameDecoder { descriptor, fields, next: 0 };
                assert(decoder@.fields =~= models(fields@));
                Ok(decoder)
            },
            other => {
                let message = String::from_str("Error decoding frame arguments: ").concat(
                    format_debug(&other).as_str(),
                );
                Err(AmqpError::decode_error(Some(message.as_str())))
            },
        }
    }

    /// The descriptor of the value whose fields are read.
    pub fn descriptor(&self) -> (descriptor: &Value)
        ensures
            descriptor@ == self@.descriptor,
    {
        &self.descriptor
    }

    /// How many fields have not been read yet.
    pub fn remaining(&self) -> (n: usize)
        ensures
            n == self@.fields.len(),
    {
        if self.next <= self.fields.len() {
            self.fields.len() - self.next
        } else {
            0
        }
    }

    /// Takes the next field out: null when none is left.
    fn take_next(&mut self) -> (value: Value)
        ensures
            value@ == next_field(old(self)@.fields),
            final(self)@.fields == rest_fields(old(self)@.fields),
            final(self)@.descriptor == old(self)@.descriptor,
    {
        if self.next < self.fields.len() {
            let ghost before = models(self.fields@);
            self.fields.push(Value::Null);
            let value = self.fields.swap_remove(self.next);
            self.next = self.next + 1;
            proof {
                let after = models(self.fields@);
                assert(after.len() == before.len());
                assert forall|i: int| self.next <= i < after.len() implies after[i] == before[i] by {}
                assert(self@.fields =~= rest_fields(old(self)@.fields));
            }
            value
        } else {
            Value::Null
        }
    }

    /// Reads the next field, which has to be there, as a `T`. `name` is what
    /// the error calls the field when it is absent.
    pub fn decode_required<T: TryFromValue>(&mut self, name: &str) -> (r: Result<T, AmqpError>)
        ensures
            agrees(r, required_field::<T>(old(self)@.fields, name@)),
            final(self)@.fields == rest_fields(old(self)@.fields),
            final(self)@.descriptor == old(self)@.descriptor,
    {
        let value = self.take_next();
        match value {
            Value::Null => {
                let message = String::from_str("Missing required field: ").concat(name);
                Err(AmqpError::decode_error(Some(message.as_str())))
            },
            _ => T::try_from(value),
        }
    }

    /// Reads the next field as a `T`: `None` when it is null or absent.
    pub fn decode_optional<T: TryFromValue>(&mut self) -> (r: Result<Option<T>, AmqpError>)
        ensures
            agrees(r, optional_field::<T>(old(self)@.fields)),
            final(self)@.fields == rest_fields(old(self)@.fields),
            final(self)@.descriptor == old(self)@.descriptor,
    {
        let value = self.take_next();
        <Option<T> as TryFromValue>::try_from(value)
    }
}

} // verus!
