//! The engine context, host values, the status/error bridge and the
//! handle primitives.
//!
//! The host runtime is modelled explicitly so that every operation of
//! the binding layer can be specified and verified: an engine context
//! ([`NapiEnv`]) owns the value space (a growable sequence of slots,
//! each holding one host value) and the context's single "last error"
//! slot. A [`NapiValue`] is an opaque handle: an index into the value
//! space of the context that produced it, meaningless elsewhere.

use vstd::prelude::*;
use vstd::pervasive::unreached;
use crate::status::{NapiError, NapiErrorType, spec_error_kind_of};
use crate::status::{NAPI_OK, NAPI_INVALID_ARG, NAPI_OBJECT_EXPECTED};
use crate::convert::{contains_nul, no_interior_nul};
use crate::num::{EXACT_DOUBLE_BOUND, spec_round_i64_to_double, round_to_double, lemma_round_i64_exact};

verus! {

/// Every fallible operation of the binding layer yields the value or a
/// structured error record.
pub type NapiResult<T> = Result<T, NapiError>;

/// An opaque handle to one value in the host's value space. Only
/// meaningful paired with the engine context that produced it.
#[derive(Clone, Copy, Debug, PartialEq, Eq, Structural)]
pub struct NapiValue {
    pub ix: usize,
}

/// A host function value's payload: the native function's declared
/// name and its index into the addon's dispatch table.
#[derive(Clone, Debug)]
pub struct HostFn {
    pub name: String,
    pub index: usize,
}

/// One named property of a host object; the value is held by handle.
#[derive(Clone, Debug)]
pub struct HostField {
    pub key: String,
    pub val: NapiValue,
}

/// The contents of one slot of the host's value space.
///
/// Host numbers are doubles; the model carries the integer-valued
/// doubles the binding layer traffics in, as exact integers.
#[derive(Clone, Debug)]
pub enum HostVal {
    Undefined,
    Null,
    Boolean(bool),
    Number(i128),
    Text(String),
    Object(Vec<HostField>),
    Array(Vec<NapiValue>),
    Function(HostFn),
}

/// The context's single last-error slot: the extended error info the
/// host records when a call fails. Process-wide per context; the next
/// host call may overwrite it.
#[derive(Clone, Debug)]
pub struct LastError {
    pub message: String,
    pub engine_code: u32,
    pub status: u32,
}

/// One execution context of the host runtime: the value space and the
/// last-error slot. Slot 0 holds the context's global object.
pub struct NapiEnv {
    pub slots: Vec<HostVal>,
    pub last_error: LastError,
}

/// True of a host value all of whose handles point below `n`.
pub open spec fn val_wf(v: HostVal, n: int) -> bool {
    match v {
        HostVal::Object(fields) => forall|i: int|
            0 <= i < fields@.len() ==> (#[trigger] fields@[i]).val.ix < n,
        HostVal::Array(elems) => forall|i: int|
            0 <= i < elems@.len() ==> (#[trigger] elems@[i]).ix < n,
        _ => true,
    }
}

/// True of an object slot.
pub open spec fn is_object(v: HostVal) -> bool {
    v matches HostVal::Object(_)
}

/// The properties of an object slot, in attachment order.
pub open spec fn obj_fields(v: HostVal) -> Seq<HostField> {
    match v {
        HostVal::Object(fields) => fields@,
        _ => Seq::empty(),
    }
}

/// True when some property of `f` is named `key`.
pub open spec fn has_field(f: Seq<HostField>, key: Seq<char>) -> bool {
    exists|i: int| 0 <= i < f.len() && (#[trigger] f[i]).key@ == key
}

/// Relates an object's properties before and after setting `key` to
/// `v`: the first property named `key` is overwritten in place, or a
/// new property is appended, so enumeration order is preserved.
pub open spec fn field_set(old_f: Seq<HostField>, key: Seq<char>, v: NapiValue, new_f: Seq<HostField>) -> bool {
    if has_field(old_f, key) {
        exists|j: int|
            0 <= j < old_f.len() && (#[trigger] old_f[j]).key@ == key
            && (forall|i: int| 0 <= i < j ==> (#[trigger] old_f[i]).key@ != key)
            && new_f.len() == old_f.len()
            && new_f[j].key@ == key
            && new_f[j].val == v
            && (forall|i: int| 0 <= i < old_f.len() && i != j ==> new_f[i] == #[trigger] old_f[i])
    } else {
        new_f.len() == old_f.len() + 1
        && (forall|i: int| 0 <= i < old_f.len() ==> new_f[i] == #[trigger] old_f[i])
        && new_f[old_f.len() as int].key@ == key
        && new_f[old_f.len() as int].val == v
    }
}

impl NapiEnv {
    /// Well-formedness of the value space: the global object sits in
    /// slot 0 and no slot holds a dangling handle.
    pub open spec fn wf(self) -> bool {
        &&& self.slots@.len() >= 1
        &&& is_object(self.slots@[0])
        &&& forall|i: int| 0 <= i < self.slots@.len() ==> val_wf(#[trigger] self.slots@[i], self.slots@.len() as int)
    }

    /// A fresh context: an empty global object and a clear error slot.
    pub fn new() -> (env: NapiEnv)
        ensures
            env.wf(),
            env.slots@.len() == 1,
            obj_fields(env.slots@[0]).len() == 0,
            env.last_error.status == NAPI_OK,
    {
        let mut slots: Vec<HostVal> = Vec::new();
        slots.push(HostVal::Object(Vec::new()));
        NapiEnv {
            slots,
            last_error: LastError { message: String::new(), engine_code: 0, status: NAPI_OK },
        }
    }
}

/// A handle below `n` is valid for a value space of length `n`.
pub open spec fn valid_handle(h: NapiValue, n: int) -> bool {
    h.ix < n
}

proof fn lemma_val_wf_mono(v: HostVal, n: int, m: int)
    requires
        val_wf(v, n),
        n <= m,
    ensures
        val_wf(v, m),
{
}

/// The error record the status/error bridge builds from the context's
/// last-error slot: message and engine code carried over, the raw
/// status translated into its failure kind.
pub open spec fn last_error_record(env: NapiEnv) -> NapiError {
    NapiError {
        error_message: env.last_error.message,
        engine_error_code: env.last_error.engine_code,
        error_code: spec_error_kind_of(env.last_error.status),
    }
}

/// Queries the context for its current last-error record and
/// translates it into the structured error value.
///
/// Must be called immediately after the failing host call, before any
/// other operation on this context, since the next call may overwrite
/// the single last-error slot.
pub fn get_last_error_info(env: &NapiEnv) -> (e: NapiError)
    ensures
        e == last_error_record(*env),
{
    NapiError {
        error_message: env.last_error.message.clone(),
        engine_error_code: env.last_error.engine_code,
        error_code: NapiErrorType::from_status(env.last_error.status),
    }
}

/// The status/error bridge: passes the accompanying value through on
/// the ok status and otherwise translates the context's last-error
/// record into a structured error.
pub fn napi_either<T>(env: &NapiEnv, status: u32, val: T) -> (r: NapiResult<T>)
    ensures
        status == NAPI_OK ==> (r matches Ok(v) && v == val),
        status != NAPI_OK ==> (r matches Err(e) && e == last_error_record(*env)),
{
    if status == NAPI_OK {
        Ok(val)
    } else {
        Err(get_last_error_info(env))
    }
}

/// Models a failing host call: records extended error info in the
/// context's last-error slot and hands back the non-ok status, which
/// the caller must bridge before any further call on this context.
pub fn simulate_host_failure(env: &mut NapiEnv, status: u32, message: &str, engine_code: u32) -> (s: u32)
    requires
        status != NAPI_OK,
    ensures
        final(env).slots@ == old(env).slots@,
        final(env).last_error.status == status,
        final(env).last_error.message@ == message@,
        final(env).last_error.engine_code == engine_code,
        s == status,
{
    env.last_error = LastError { message: message.to_owned(), engine_code, status };
    status
}

/// A host call that fails natively: records the error and immediately
/// bridges it, yielding the structured error record.
pub(crate) fn host_fail<T>(env: &mut NapiEnv, status: u32, message: &str) -> (r: NapiResult<T>)
    requires
        status != NAPI_OK,
    ensures
        final(env).slots@ == old(env).slots@,
        final(env).last_error.status == status,
        final(env).last_error.message@ == message@,
        final(env).last_error.engine_code == 0,
        r matches Err(e) && e == last_error_record(*final(env)),
{
    let s = simulate_host_failure(env, status, message, 0);
    if s == NAPI_OK {
        unreached()
    } else {
        Err(get_last_error_info(env))
    }
}

/// Allocates one fresh slot holding `v` and hands back its handle.
pub(crate) fn alloc_slot(env: &mut NapiEnv, v: HostVal) -> (h: NapiValue)
    requires
        old(env).wf(),
        val_wf(v, old(env).slots@.len() as int),
    ensures
        final(env).wf(),
        final(env).slots@ == old(env).slots@.push(v),
        final(env).last_error == old(env).last_error,
        h.ix == old(env).slots@.len(),
{
    let ix = env.slots.len();
    env.slots.push(v);
    proof {
        assert forall|i: int| 0 <= i < env.slots@.len() implies val_wf(#[trigger] env.slots@[i], env.slots@.len() as int) by {
            if i < old(env).slots@.len() {
                lemma_val_wf_mono(env.slots@[i], old(env).slots@.len() as int, env.slots@.len() as int);
            } else {
                lemma_val_wf_mono(v, old(env).slots@.len() as int, env.slots@.len() as int);
            }
        }
    }
    NapiValue { ix }
}

/// Fetches the host's `undefined` value, as a fresh handle.
pub fn get_undefined(env: &mut NapiEnv) -> (r: NapiResult<NapiValue>)
    requires
        old(env).wf(),
    ensures
        final(env).wf(),
        final(env).slots@ == old(env).slots@.push(HostVal::Undefined),
        final(env).last_error == old(env).last_error,
        r matches Ok(h) && h.ix == old(env).slots@.len(),
{
    let h = alloc_slot(env, HostVal::Undefined);
    napi_either(env, NAPI_OK, h)
}

/// Fetches the host's `null` value, as a fresh handle.
pub fn get_null(env: &mut NapiEnv) -> (r: NapiResult<NapiValue>)
    requires
        old(env).wf(),
    ensures
        final(env).wf(),
        final(env).slots@ == old(env).slots@.push(HostVal::Null),
        final(env).last_error == old(env).last_error,
        r matches Ok(h) && h.ix == old(env).slots@.len(),
{
    let h = alloc_slot(env, HostVal::Null);
    napi_either(env, NAPI_OK, h)
}

/// Fetches the context's global object.
pub fn get_global(env: &mut NapiEnv) -> (r: NapiResult<NapiValue>)
    requires
        old(env).wf(),
    ensures
        final(env).wf(),
        final(env).slots@ == old(env).slots@,
        final(env).last_error == old(env).last_error,
        r matches Ok(h) && h.ix == 0,
{
    let h = NapiValue { ix: 0 };
    napi_either(env, NAPI_OK, h)
}

/// Fetches the host boolean of the given truth value.
pub fn get_boolean(env: &mut NapiEnv, value: bool) -> (r: NapiResult<NapiValue>)
    requires
        old(env).wf(),
    ensures
        final(env).wf(),
        final(env).slots@ == old(env).slots@.push(HostVal::Boolean(value)),
        final(env).last_error == old(env).last_error,
        r matches Ok(h) && h.ix == old(env).slots@.len(),
{
    let h = alloc_slot(env, HostVal::Boolean(value));
    napi_either(env, NAPI_OK, h)
}

/// Creates a fresh empty host object.
pub fn create_object(env: &mut NapiEnv) -> (r: NapiResult<NapiValue>)
    requires
        old(env).wf(),
    ensures
        final(env).wf(),
        final(env).slots@.len() == old(env).slots@.len() + 1,
        forall|i: int| 0 <= i < old(env).slots@.len() ==> final(env).slots@[i] == old(env).slots@[i],
        is_object(final(env).slots@[old(env).slots@.len() as int]),
        obj_fields(final(env).slots@[old(env).slots@.len() as int]).len() == 0,
        final(env).last_error == old(env).last_error,
        r matches Ok(h) && h.ix == old(env).slots@.len(),
{
    let h = alloc_slot(env, HostVal::Object(Vec::new()));
    napi_either(env, NAPI_OK, h)
}

/// Creates a fresh empty host array.
pub fn create_array(env: &mut NapiEnv) -> (r: NapiResult<NapiValue>)
    requires
        old(env).wf(),
    ensures
        final(env).wf(),
        final(env).slots@.len() == old(env).slots@.len() + 1,
        forall|i: int| 0 <= i < old(env).slots@.len() ==> final(env).slots@[i] == old(env).slots@[i],
        final(env).slots@[old(env).slots@.len() as int] matches HostVal::Array(es) && es@.len() == 0,
        final(env).last_error == old(env).last_error,
        r matches Ok(h) && h.ix == old(env).slots@.len(),
{
    let h = alloc_slot(env, HostVal::Array(Vec::new()));
    napi_either(env, NAPI_OK, h)
}

/// Creates a host array of the given length, every element the host's
/// `undefined` value.
pub fn array_with_length(env: &mut NapiEnv, size: usize) -> (r: NapiResult<NapiValue>)
    requires
        old(env).wf(),
    ensures
        final(env).wf(),
        final(env).slots@.len() == old(env).slots@.len() + 2,
        forall|i: int| 0 <= i < old(env).slots@.len() ==> final(env).slots@[i] == old(env).slots@[i],
        final(env).slots@[old(env).slots@.len() as int] == HostVal::Undefined,
        final(env).slots@[old(env).slots@.len() as int + 1] matches HostVal::Array(es)
            && es@.len() == size
            && (forall|i: int| 0 <= i < es@.len() ==> (#[trigger] es@[i]).ix == old(env).slots@.len()),
        final(env).last_error == old(env).last_error,
        r matches Ok(h) && h.ix == old(env).slots@.len() + 1,
{
    let undef = alloc_slot(env, HostVal::Undefined);
    let mut elems: Vec<NapiValue> = Vec::new();
    let mut k: usize = 0;
    while k < size
        invariant
            k <= size,
            elems@.len() == k,
            forall|i: int| 0 <= i < elems@.len() ==> (#[trigger] elems@[i]).ix == undef.ix,
        decreases size - k,
    {
        elems.push(undef);
        k += 1;
    }
    let h = alloc_slot(env, HostVal::Array(elems));
    napi_either(env, NAPI_OK, h)
}

/// Creates a host number holding the double nearest to the given
/// integer. Within the exact range of the double-precision bridge
/// (magnitude at most 2^53) the stored value is the integer itself;
/// beyond it, precision is lost to the bridge's documented rounding.
pub fn create_number(env: &mut NapiEnv, value: i64) -> (r: NapiResult<NapiValue>)
    requires
        old(env).wf(),
    ensures
        final(env).wf(),
        final(env).slots@ == old(env).slots@.push(
            HostVal::Number(spec_round_i64_to_double(value) as i128),
        ),
        -(EXACT_DOUBLE_BOUND as int) <= value as int <= EXACT_DOUBLE_BOUND as int
            ==> final(env).slots@ == old(env).slots@.push(HostVal::Number(value as i128)),
        final(env).last_error == old(env).last_error,
        r matches Ok(h) && h.ix == old(env).slots@.len(),
{
    let wide: i128 = if value >= 0 {
        round_to_double(value as u64) as i128
    } else {
        let mag: u64 = (-(value as i128)) as u64;
        -(round_to_double(mag) as i128)
    };
    proof {
        if -(EXACT_DOUBLE_BOUND as int) <= value as int <= EXACT_DOUBLE_BOUND as int {
            lemma_round_i64_exact(value);
        }
    }
    let h = alloc_slot(env, HostVal::Number(wide));
    napi_either(env, NAPI_OK, h)
}

/// Sets the property `utf8name` of `object` to `value`.
///
/// The name crosses the boundary as a null-terminated byte sequence,
/// so a name with an interior nul is rejected; a non-object target is
/// rejected with the object-expected kind. Otherwise the first
/// property of that name is overwritten in place, or a new property is
/// appended, preserving enumeration order.
pub fn set_named_property(env: &mut NapiEnv, object: NapiValue, utf8name: &str, value: NapiValue) -> (r: NapiResult<()>)
    requires
        old(env).wf(),
        valid_handle(object, old(env).slots@.len() as int),
        valid_handle(value, old(env).slots@.len() as int),
    ensures
        final(env).wf(),
        r matches Err(e) ==> e == last_error_record(*final(env)),
        final(env).slots@.len() == old(env).slots@.len(),
        !no_interior_nul(utf8name@) ==> final(env).slots@ == old(env).slots@
            && (r matches Err(e) && e.error_code == NapiErrorType::InvalidArg),
        no_interior_nul(utf8name@) && !is_object(old(env).slots@[object.ix as int]) ==>
            final(env).slots@ == old(env).slots@
            && (r matches Err(e) && e.error_code == NapiErrorType::ObjectExpected),
        no_interior_nul(utf8name@) && is_object(old(env).slots@[object.ix as int]) ==> {
            &&& r is Ok
            &&& forall|i: int| 0 <= i < final(env).slots@.len() && i != object.ix ==> final(env).slots@[i] == old(env).slots@[i]
            &&& is_object(final(env).slots@[object.ix as int])
            &&& field_set(
                obj_fields(old(env).slots@[object.ix as int]),
                utf8name@,
                value,
                obj_fields(final(env).slots@[object.ix as int]),
            )
        },
{
    if contains_nul(utf8name) {
        return host_fail(env, NAPI_INVALID_ARG, "property name holds an interior nul byte");
    }
    let is_obj = match &env.slots[object.ix] {
        HostVal::Object(_) => true,
        _ => false,
    };
    if !is_obj {
        return host_fail(env, NAPI_OBJECT_EXPECTED, "named property target is not an object");
    }
    let name_s: String = utf8name.to_owned();
    let mut slot: HostVal = HostVal::Undefined;
    core::mem::swap(&mut slot, &mut env.slots[object.ix]);
    match slot {
        HostVal::Object(mut fields) => {
            let n = fields.len();
            let mut j: usize = 0;
            let mut idx: Option<usize> = None;
            while j < n
                invariant
                    j <= n,
                    n == fields@.len(),
                    idx matches Some(k) ==> k < j && fields@[k as int].key@ == name_s@
                        && (forall|i: int| 0 <= i < k ==> (#[trigger] fields@[i]).key@ != name_s@),
                    idx is None ==> forall|i: int| 0 <= i < j ==> (#[trigger] fields@[i]).key@ != name_s@,
                decreases n - j,
            {
                if idx.is_none() && fields[j].key == name_s {
                    idx = Some(j);
                }
                j += 1;
            }
            match idx {
                Some(k) => {
                    fields[k] = HostField { key: name_s, val: value };
                },
                None => {
                    fields.push(HostField { key: name_s, val: value });
                },
            }
            let mut newslot = HostVal::Object(fields);
            core::mem::swap(&mut env.slots[object.ix], &mut newslot);
            proof {
                assert forall|i: int| 0 <= i < env.slots@.len() implies
                    val_wf(#[trigger] env.slots@[i], env.slots@.len() as int) by {
                    if i != object.ix {
                        assert(val_wf(old(env).slots@[i], old(env).slots@.len() as int));
                    }
                }
            }
            napi_either(env, NAPI_OK, ())
        },
        _ => unreached(),
    }
}

/// Reads the property `utf8name` of `object`. An absent property reads
/// as the host's `undefined` value, in a fresh slot.
pub fn get_named_property(env: &mut NapiEnv, object: NapiValue, utf8name: &str) -> (r: NapiResult<NapiValue>)
    requires
        old(env).wf(),
        valid_handle(object, old(env).slots@.len() as int),
    ensures
        final(env).wf(),
        r matches Err(e) ==> e == last_error_record(*final(env)),
        !is_object(old(env).slots@[object.ix as int]) ==> final(env).slots@ == old(env).slots@
            && (r matches Err(e) && e.error_code == NapiErrorType::ObjectExpected),
        is_object(old(env).slots@[object.ix as int]) ==> {
            let fields = obj_fields(old(env).slots@[object.ix as int]);
            if has_field(fields, utf8name@) {
                final(env).slots@ == old(env).slots@
                && (r matches Ok(h) && exists|j: int|
                    0 <= j < fields.len() && (#[trigger] fields[j]).key@ == utf8name@
                    && (forall|i: int| 0 <= i < j ==> (#[trigger] fields[i]).key@ != utf8name@)
                    && h == fields[j].val)
            } else {
                final(env).slots@ == old(env).slots@.push(HostVal::Undefined)
                && (r matches Ok(h) && h.ix == old(env).slots@.len())
            }
        },
{
    let is_obj = match &env.slots[object.ix] {
        HostVal::Object(_) => true,
        _ => false,
    };
    if !is_obj {
        return host_fail(env, NAPI_OBJECT_EXPECTED, "property read target is not an object");
    }
    let name_s: String = utf8name.to_owned();
    let mut found: Option<NapiValue> = None;
    match &env.slots[object.ix] {
        HostVal::Object(fields) => {
            let n = fields.len();
            let mut j: usize = 0;
            while j < n
                invariant
                    j <= n,
                    n == fields@.len(),
                    found matches Some(v) ==> exists|k: int|
                        0 <= k < j && (#[trigger] fields@[k]).key@ == name_s@
                        && (forall|i: int| 0 <= i < k ==> (#[trigger] fields@[i]).key@ != name_s@)
                        && v == fields@[k].val,
                    found is None ==> forall|i: int| 0 <= i < j ==> (#[trigger] fields@[i]).key@ != name_s@,
                decreases n - j,
            {
                if found.is_none() && fields[j].key == name_s {
                    found = Some(fields[j].val);
                }
                j += 1;
            }
        },
        _ => unreached(),
    }
    match found {
        Some(v) => napi_either(env, NAPI_OK, v),
        None => get_undefined(env),
    }
}

/// Enumerates the property names of `object`, in attachment order.
pub fn get_property_names(env: &mut NapiEnv, object: NapiValue) -> (r: NapiResult<Vec<String>>)
    requires
        old(env).wf(),
        valid_handle(object, old(env).slots@.len() as int),
    ensures
        final(env).wf(),
        r matches Err(e) ==> e == last_error_record(*final(env)),
        final(env).slots@ == old(env).slots@,
        !is_object(old(env).slots@[object.ix as int]) ==>
            (r matches Err(e) && e.error_code == NapiErrorType::ObjectExpected),
        is_object(old(env).slots@[object.ix as int]) ==> {
            let fields = obj_fields(old(env).slots@[object.ix as int]);
            r matches Ok(names)
                && names@.len() == fields.len()
                && (forall|i: int| 0 <= i < fields.len() ==> (#[trigger] names@[i])@ == fields[i].key@)
        },
{
    let is_obj = match &env.slots[object.ix] {
        HostVal::Object(_) => true,
        _ => false,
    };
    if !is_obj {
        return host_fail(env, NAPI_OBJECT_EXPECTED, "property enumeration target is not an object");
    }
    let mut names: Vec<String> = Vec::new();
    match &env.slots[object.ix] {
        HostVal::Object(fields) => {
            let n = fields.len();
            let mut j: usize = 0;
            while j < n
                invariant
                    j <= n,
                    n == fields@.len(),
                    names@.len() == j,
                    forall|i: int| 0 <= i < j ==> (#[trigger] names@[i])@ == fields@[i].key@,
                decreases n - j,
            {
                names.push(fields[j].key.clone());
                j += 1;
            }
        },
        _ => unreached(),
    }
    napi_either(env, NAPI_OK, names)
}

} // verus!
