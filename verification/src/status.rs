//! Status codes and the structured error record.
//!
//! A host operation reports its outcome as a raw integer status code.
//! The binding layer translates that code into the closed enumeration
//! [`NapiErrorType`]; any code outside the known set is treated as a
//! generic failure, so the translation is total and never panics.

use vstd::prelude::*;

verus! {

/// The raw status code a successful host operation returns.
pub const NAPI_OK: u32 = 0;

/// Raw status code: an argument was invalid.
pub const NAPI_INVALID_ARG: u32 = 1;

/// Raw status code: an object was expected.
pub const NAPI_OBJECT_EXPECTED: u32 = 2;

/// Raw status code: a string was expected.
pub const NAPI_STRING_EXPECTED: u32 = 3;

/// Raw status code: a property name was expected.
pub const NAPI_NAME_EXPECTED: u32 = 4;

/// Raw status code: a function was expected.
pub const NAPI_FUNCTION_EXPECTED: u32 = 5;

/// Raw status code: a number was expected.
pub const NAPI_NUMBER_EXPECTED: u32 = 6;

/// Raw status code: a boolean was expected.
pub const NAPI_BOOLEAN_EXPECTED: u32 = 7;

/// Raw status code: an array was expected.
pub const NAPI_ARRAY_EXPECTED: u32 = 8;

/// Raw status code: a generic failure.
pub const NAPI_GENERIC_FAILURE: u32 = 9;

/// Raw status code: an exception is pending in the host.
pub const NAPI_PENDING_EXCEPTION: u32 = 10;

/// Raw status code: the operation was cancelled.
pub const NAPI_CANCELLED: u32 = 11;

/// The closed enumeration of failure kinds the host can report.
///
/// It mirrors exactly what the host's status codes can express and is
/// not extensible by native code.
#[derive(Clone, Copy, Debug, PartialEq, Eq, Structural)]
pub enum NapiErrorType {
    InvalidArg,
    ObjectExpected,
    StringExpected,
    NameExpected,
    FunctionExpected,
    NumberExpected,
    BooleanExpected,
    ArrayExpected,
    GenericFailure,
    PendingException,
    Cancelled,
}

/// The mapping from a raw status code to its failure kind.
///
/// Total: every code outside the known non-ok set (including the ok
/// code itself, which names no failure) maps to `GenericFailure`.
pub open spec fn spec_error_kind_of(s: u32) -> NapiErrorType {
    if s == NAPI_INVALID_ARG {
        NapiErrorType::InvalidArg
    } else if s == NAPI_OBJECT_EXPECTED {
        NapiErrorType::ObjectExpected
    } else if s == NAPI_STRING_EXPECTED {
        NapiErrorType::StringExpected
    } else if s == NAPI_NAME_EXPECTED {
        NapiErrorType::NameExpected
    } else if s == NAPI_FUNCTION_EXPECTED {
        NapiErrorType::FunctionExpected
    } else if s == NAPI_NUMBER_EXPECTED {
        NapiErrorType::NumberExpected
    } else if s == NAPI_BOOLEAN_EXPECTED {
        NapiErrorType::BooleanExpected
    } else if s == NAPI_ARRAY_EXPECTED {
        NapiErrorType::ArrayExpected
    } else if s == NAPI_PENDING_EXCEPTION {
        NapiErrorType::PendingException
    } else if s == NAPI_CANCELLED {
        NapiErrorType::Cancelled
    } else {
        NapiErrorType::GenericFailure
    }
}

impl NapiErrorType {
    /// Translates a raw status code into its failure kind; unknown
    /// codes become `GenericFailure`.
    pub fn from_status(s: u32) -> (k: NapiErrorType)
        ensures
            k == spec_error_kind_of(s),
    {
        if s == NAPI_INVALID_ARG {
            NapiErrorType::InvalidArg
        } else if s == NAPI_OBJECT_EXPECTED {
            NapiErrorType::ObjectExpected
        } else if s == NAPI_STRING_EXPECTED {
            NapiErrorType::StringExpected
        } else if s == NAPI_NAME_EXPECTED {
            NapiErrorType::NameExpected
        } else if s == NAPI_FUNCTION_EXPECTED {
            NapiErrorType::FunctionExpected
        } else if s == NAPI_NUMBER_EXPECTED {
            NapiErrorType::NumberExpected
        } else if s == NAPI_BOOLEAN_EXPECTED {
            NapiErrorType::BooleanExpected
        } else if s == NAPI_ARRAY_EXPECTED {
            NapiErrorType::ArrayExpected
        } else if s == NAPI_PENDING_EXCEPTION {
            NapiErrorType::PendingException
        } else if s == NAPI_CANCELLED {
            NapiErrorType::Cancelled
        } else {
            NapiErrorType::GenericFailure
        }
    }
}

/// The structured error record the binding layer propagates: the host's
/// human-readable message, its engine-specific numeric code, and the
/// translated failure kind.
#[derive(Clone, Debug)]
pub struct NapiError {
    pub error_message: String,
    pub engine_error_code: u32,
    pub error_code: NapiErrorType,
}

} // verus!
