//! A safety-oriented binding layer between typed native code and a
//! dynamically-typed host runtime that talks through a C-style ABI of
//! opaque handles, out-parameters and integer status codes.

mod status;
mod convert;
mod napi;
mod num;
mod function;
mod module;
mod demo;

pub use status::{
    NapiErrorType, NapiError, NAPI_OK, NAPI_INVALID_ARG, NAPI_OBJECT_EXPECTED,
    NAPI_STRING_EXPECTED, NAPI_NAME_EXPECTED, NAPI_FUNCTION_EXPECTED,
    NAPI_NUMBER_EXPECTED, NAPI_BOOLEAN_EXPECTED, NAPI_ARRAY_EXPECTED,
    NAPI_GENERIC_FAILURE, NAPI_PENDING_EXCEPTION, NAPI_CANCELLED,
    spec_error_kind_of,
};
pub use convert::{no_interior_nul, contains_nul, IntoNapiValue, FromNapiValue, FromNapiValues, lemma_bool_round_trip, lemma_string_round_trip, lemma_u64_round_trip, lemma_u64_round_trip_loss};
pub use num::{EXACT_DOUBLE_BOUND, spec_double_scale, spec_round_to_double, spec_round_i64_to_double, round_to_double, lemma_round_to_double_exact, lemma_round_to_double_bound, lemma_round_i64_exact};
pub use function::{NativeDispatch, create_function, call_function, MAX_CALL_ARGS};
pub use module::{NapiModule, NativeExport, names_distinct, module_register, register_module};
pub use demo::{HelloArgs, HelloReturn, DemoExport, hello_object, add_post, hello_post};
pub use napi::{
    NapiValue, HostField, HostFn, HostVal, LastError, NapiEnv, NapiResult,
    napi_either, get_last_error_info, simulate_host_failure,
    is_object, obj_fields, has_field, field_set, valid_handle, val_wf, last_error_record,
    get_undefined, get_null, get_global, get_boolean, create_object,
    create_array, array_with_length, create_number, set_named_property,
    get_named_property, get_property_names,
};
