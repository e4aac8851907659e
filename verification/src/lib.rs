//! Typed decoding of AMQP 1.0 wire values.
//!
//! A [`value::Value`] is what a decoder has read off the wire. The
//! conversions of [`convert`] narrow it to the type that the protocol
//! engine asks for: an integer of one width, a boolean, text, a symbol, an
//! optional value, a sequence, a map, or a composite such as the error
//! condition. A conversion returns the typed value or an error, and never
//! panics.

pub mod bytes;
pub mod condition;
pub mod convert;
pub mod decoder;
pub mod error;
pub mod error_condition;
pub mod laws;
pub mod symbol;
pub mod text;
pub mod text_map;
pub mod value;
