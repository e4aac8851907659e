//! Well-known AMQP 1.0 error condition codes.

use vstd::prelude::*;

verus! {

/// An internal error occurred.
pub const INTERNAL_ERROR: &'static str = "amqp:internal-error";

/// A peer attempted to work with a remote entity that does not exist.
pub const NOT_FOUND: &'static str = "amqp:not-found";

/// Data could not be decoded.
pub const DECODE_ERROR: &'static str = "amqp:decode-error";

/// An invalid field was passed in a frame body.
pub const INVALID_FIELD: &'static str = "amqp:invalid-field";

/// The peer sent a frame that is not permitted in the current state.
pub const ILLEGAL_STATE: &'static str = "amqp:illegal-state";

/// The peer tried to use a frame in a manner that is not allowed.
pub const NOT_ALLOWED: &'static str = "amqp:not-allowed";

/// The peer tried to use functionality that is not implemented.
pub const NOT_IMPLEMENTED: &'static str = "amqp:not-implemented";

} // verus!
