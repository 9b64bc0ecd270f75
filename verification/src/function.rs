//! The callback trampoline: the bridge between the host's single
//! fixed callback shape and native functions with typed signatures.
//!
//! A registered native function lives in a dispatch table owned by the
//! addon; the host value representing it carries its declared name and
//! its table index, so no untyped pointer is ever reinterpreted.
//! Invoking it checks the handle, caps the argument count at the
//! trampoline's fixed buffer capacity, and hands the raw host values
//! to the dispatcher, which performs the typed argument and return
//! conversions.

use vstd::prelude::*;
use crate::status::NapiErrorType;
use crate::status::{NAPI_INVALID_ARG, NAPI_FUNCTION_EXPECTED, NAPI_GENERIC_FAILURE};
use crate::napi::{NapiEnv, NapiValue, NapiResult, HostVal, HostFn, valid_handle, alloc_slot, host_fail, last_error_record};
use crate::convert::{no_interior_nul, contains_nul};

verus! {

/// The fixed capacity of the trampoline's argument buffer. A call
/// supplying more host values than this is rejected as an error
/// rather than silently truncated.
pub const MAX_CALL_ARGS: usize = 16;

/// A native function as the dispatch table holds it: one call takes
/// the engine context, the receiver and the raw host values of the
/// call, and produces one host value or an error.
///
/// `dispatch_post` is the implementor's contract for one call: it
/// relates the value space before the call, the receiver and raw
/// arguments, the value space after, and the outcome. A dispatcher
/// may allocate fresh host values but leaves existing slots alone.
pub trait NativeDispatch: Sized {
    /// The implementor's description of one call's outcome.
    spec fn dispatch_post(
        self,
        pre: Seq<HostVal>,
        this: NapiValue,
        values: Seq<NapiValue>,
        post: Seq<HostVal>,
        r: NapiResult<NapiValue>,
    ) -> bool;

    /// Runs one call of the native function.
    fn dispatch(&self, env: &mut NapiEnv, this: NapiValue, values: &Vec<NapiValue>) -> (r: NapiResult<NapiValue>)
        requires
            old(env).wf(),
            valid_handle(this, old(env).slots@.len() as int),
            forall|i: int| 0 <= i < values@.len()
                ==> valid_handle(#[trigger] values@[i], old(env).slots@.len() as int),
        ensures
            final(env).wf(),
            old(env).slots@.len() <= final(env).slots@.len(),
            forall|i: int| 0 <= i < old(env).slots@.len() ==> final(env).slots@[i] == old(env).slots@[i],
            r matches Ok(h) ==> valid_handle(h, final(env).slots@.len() as int),
            r matches Err(e) ==> e == last_error_record(*final(env)),
            self.dispatch_post(old(env).slots@, this, values@, final(env).slots@, r),
    ;
}

/// Builds a host function value for the native function `f`: `f` is
/// appended to the addon's dispatch table and a fresh host value
/// carrying the declared name and the table index is returned. The
/// name crosses the boundary as a null-terminated byte sequence, so a
/// name with an interior nul is rejected.
pub fn create_function<D: NativeDispatch>(
    env: &mut NapiEnv,
    utf8name: &str,
    table: &mut Vec<D>,
    f: D,
) -> (r: NapiResult<NapiValue>)
    requires
        old(env).wf(),
    ensures
        final(env).wf(),
        no_interior_nul(utf8name@) ==> {
            &&& final(table)@ == old(table)@.push(f)
            &&& final(env).slots@.len() == old(env).slots@.len() + 1
            &&& (forall|i: int| 0 <= i < old(env).slots@.len()
                ==> final(env).slots@[i] == old(env).slots@[i])
            &&& final(env).slots@[old(env).slots@.len() as int]
                matches HostVal::Function(f) && f.index == old(table)@.len()
                    && f.name@ == utf8name@
            &&& (r matches Ok(h) && h.ix == old(env).slots@.len())
        },
        !no_interior_nul(utf8name@) ==> {
            &&& final(env).slots@ == old(env).slots@
            &&& final(table)@ == old(table)@
            &&& (r matches Err(e) && e.error_code == NapiErrorType::InvalidArg)
        },
        r matches Err(e) ==> e == last_error_record(*final(env)),
{
    if contains_nul(utf8name) {
        return host_fail(env, NAPI_INVALID_ARG, "function name holds an interior nul byte");
    }
    let ix = table.len();
    table.push(f);
    let h = alloc_slot(env, HostVal::Function(HostFn { name: utf8name.to_owned(), index: ix }));
    Ok(h)
}

/// Invokes the native function behind the host value `func`: checks
/// that the handle designates a live entry of the dispatch table,
/// rejects calls beyond the argument buffer capacity, and otherwise
/// dispatches; the outcome is then described by the dispatcher's own
/// `dispatch_post`.
pub fn call_function<D: NativeDispatch>(
    env: &mut NapiEnv,
    table: &Vec<D>,
    func: NapiValue,
    this: NapiValue,
    args: &Vec<NapiValue>,
) -> (r: NapiResult<NapiValue>)
    requires
        old(env).wf(),
        valid_handle(func, old(env).slots@.len() as int),
        valid_handle(this, old(env).slots@.len() as int),
        forall|i: int| 0 <= i < args@.len()
            ==> valid_handle(#[trigger] args@[i], old(env).slots@.len() as int),
    ensures
        final(env).wf(),
        old(env).slots@.len() <= final(env).slots@.len(),
        forall|i: int| 0 <= i < old(env).slots@.len() ==> final(env).slots@[i] == old(env).slots@[i],
        r matches Ok(h) ==> valid_handle(h, final(env).slots@.len() as int),
        r matches Err(e) ==> e == last_error_record(*final(env)),
        !(old(env).slots@[func.ix as int] matches HostVal::Function(_)) ==> {
            &&& final(env).slots@ == old(env).slots@
            &&& (r matches Err(e) && e.error_code == NapiErrorType::FunctionExpected)
        },
        (old(env).slots@[func.ix as int] matches HostVal::Function(f) && f.index >= table@.len()) ==> {
            &&& final(env).slots@ == old(env).slots@
            &&& (r matches Err(e) && e.error_code == NapiErrorType::GenericFailure)
        },
        (old(env).slots@[func.ix as int] matches HostVal::Function(f) && f.index < table@.len()
            && args@.len() > MAX_CALL_ARGS) ==> {
            &&& final(env).slots@ == old(env).slots@
            &&& (r matches Err(e) && e.error_code == NapiErrorType::InvalidArg)
        },
        (old(env).slots@[func.ix as int] matches HostVal::Function(f) && f.index < table@.len()
            && args@.len() <= MAX_CALL_ARGS)
            ==> table@[old(env).slots@[func.ix as int]->Function_0.index as int]
                .dispatch_post(old(env).slots@, this, args@, final(env).slots@, r),
{
    let fix = match &env.slots[func.ix] {
        HostVal::Function(f) => Some(f.index),
        _ => None,
    };
    let fix = match fix {
        Some(ix) => ix,
        None => {
            return host_fail(env, NAPI_FUNCTION_EXPECTED, "host value is not a function");
        },
    };
    if fix >= table.len() {
        return host_fail(env, NAPI_GENERIC_FAILURE, "function value does not designate a live native function");
    }
    if args.len() > MAX_CALL_ARGS {
        return host_fail(env, NAPI_INVALID_ARG, "call supplies more arguments than the trampoline buffer holds");
    }
    let d = &table[fix];
    d.dispatch(env, this, args)
}

} // verus!
