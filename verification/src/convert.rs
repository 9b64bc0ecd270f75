//! The value conversion layer: bidirectional conversion between native
//! typed values and host values, exposed as two capability traits.
//!
//! [`IntoNapiValue`] produces exactly one host value from a native
//! value; [`FromNapiValues`] constructs a native argument type from the
//! full slice of host values supplied for one call, and is responsible
//! for its own arity and type checking. [`FromNapiValue`] is the
//! single-value inbound capability the others compose from.

use vstd::prelude::*;
use vstd::string::StrSliceExecFns;
use crate::status::{NapiErrorType};
use crate::status::{NAPI_INVALID_ARG, NAPI_NUMBER_EXPECTED, NAPI_BOOLEAN_EXPECTED, NAPI_STRING_EXPECTED};
use crate::napi::{NapiEnv, NapiValue, NapiResult, HostVal, valid_handle, alloc_slot, host_fail, get_undefined, get_boolean, last_error_record};
use crate::num::{EXACT_DOUBLE_BOUND, spec_round_to_double, round_to_double, lemma_round_to_double_exact};

verus! {

/// True of a character sequence free of the nul character, so that it
/// can cross the boundary as a null-terminated byte sequence.
pub open spec fn no_interior_nul(s: Seq<char>) -> bool {
    forall|i: int| 0 <= i < s.len() ==> s[i] != '\0'
}

/// Decides whether `s` holds an interior nul character.
pub fn contains_nul(s: &str) -> (b: bool)
    ensures
        b == !no_interior_nul(s@),
{
    let n = s.unicode_len();
    let mut j: usize = 0;
    while j < n
        invariant
            j <= n,
            n == s@.len(),
            forall|i: int| 0 <= i < j ==> s@[i] != '\0',
        decreases n - j,
    {
        if s.get_char(j) == '\0' {
            return true;
        }
        j += 1;
    }
    false
}

/// The outbound capability: a native value that can produce exactly
/// one host value in the given engine context.
///
/// A conversion may allocate fresh slots but never disturbs existing
/// ones; on success the handle it returns satisfies the implementor's
/// `represents` relation, and success is decided by `into_ok` alone.
pub trait IntoNapiValue: Sized {
    /// Whether the conversion of this value succeeds.
    spec fn into_ok(self) -> bool;

    /// Which failure kind the conversion reports when it does not.
    spec fn into_err(self) -> NapiErrorType;

    /// What it means for the handle `h` to hold this value in the
    /// value space `slots`.
    spec fn represents(self, slots: Seq<HostVal>, h: NapiValue) -> bool;

    /// Conversions only allocate, so what a handle holds survives
    /// later allocations: `represents` must be stable under extending
    /// the value space.
    proof fn represents_stable(self, s1: Seq<HostVal>, s2: Seq<HostVal>, h: NapiValue)
        requires
            self.represents(s1, h),
            valid_handle(h, s1.len() as int),
            s1.len() <= s2.len(),
            forall|i: int| 0 <= i < s1.len() ==> s2[i] == s1[i],
        ensures
            self.represents(s2, h),
    ;

    /// Converts this value into one host value.
    fn into_napi_value(self, env: &mut NapiEnv) -> (r: NapiResult<NapiValue>)
        requires
            old(env).wf(),
        ensures
            final(env).wf(),
            old(env).slots@.len() <= final(env).slots@.len(),
            forall|i: int| 0 <= i < old(env).slots@.len() ==> final(env).slots@[i] == old(env).slots@[i],
            r is Ok <==> self.into_ok(),
            r matches Ok(h) ==> valid_handle(h, final(env).slots@.len() as int)
                && self.represents(final(env).slots@, h),
            r matches Err(e) ==> e.error_code == self.into_err()
                && e == last_error_record(*final(env)),
    ;
}

/// The single-value inbound capability: a native value read back from
/// one host value. Reading never changes the value space; failure
/// reports the implementor's declared kind.
pub trait FromNapiValue: Sized {
    /// Whether the host value behind `h` converts to this type.
    spec fn from_val_ok(slots: Seq<HostVal>, h: NapiValue) -> bool;

    /// The converted value, when `from_val_ok` holds.
    spec fn from_val(slots: Seq<HostVal>, h: NapiValue) -> Self;

    /// The failure kind reported when it does not.
    spec fn from_val_err(slots: Seq<HostVal>, h: NapiValue) -> NapiErrorType;

    /// Reads this type back from one host value.
    fn from_napi_value(env: &mut NapiEnv, h: NapiValue) -> (r: NapiResult<Self>)
        requires
            old(env).wf(),
            valid_handle(h, old(env).slots@.len() as int),
        ensures
            final(env).wf(),
            final(env).slots@ == old(env).slots@,
            r is Ok <==> Self::from_val_ok(old(env).slots@, h),
            r matches Ok(v) ==> v == Self::from_val(old(env).slots@, h),
            r matches Err(e) ==> e.error_code == Self::from_val_err(old(env).slots@, h)
                && e == last_error_record(*final(env)),
    ;
}

/// The inbound capability for argument lists: a native argument type
/// constructed from the receiver and the full slice of host values
/// supplied for one call. Implementations do their own arity and type
/// checking; positions beyond those they decode are ignored.
pub trait FromNapiValues: Sized {
    /// Whether the supplied values convert to this type.
    spec fn from_args_ok(slots: Seq<HostVal>, values: Seq<NapiValue>) -> bool;

    /// The converted value, when `from_args_ok` holds.
    spec fn from_args(slots: Seq<HostVal>, values: Seq<NapiValue>) -> Self;

    /// The failure kind reported when it does not.
    spec fn from_args_err(slots: Seq<HostVal>, values: Seq<NapiValue>) -> NapiErrorType;

    /// Builds this argument type from the values of one call.
    fn from_napi_values(env: &mut NapiEnv, this: NapiValue, values: &Vec<NapiValue>) -> (r: NapiResult<Self>)
        requires
            old(env).wf(),
            valid_handle(this, old(env).slots@.len() as int),
            forall|i: int| 0 <= i < values@.len()
                ==> valid_handle(#[trigger] values@[i], old(env).slots@.len() as int),
        ensures
            final(env).wf(),
            final(env).slots@ == old(env).slots@,
            r is Ok <==> Self::from_args_ok(old(env).slots@, values@),
            r matches Ok(v) ==> v == Self::from_args(old(env).slots@, values@),
            r matches Err(e) ==> e.error_code == Self::from_args_err(old(env).slots@, values@)
                && e == last_error_record(*final(env)),
    ;
}

impl IntoNapiValue for bool {
    open spec fn into_ok(self) -> bool {
        true
    }

    open spec fn into_err(self) -> NapiErrorType {
        NapiErrorType::GenericFailure
    }

    open spec fn represents(self, slots: Seq<HostVal>, h: NapiValue) -> bool {
        slots[h.ix as int] == HostVal::Boolean(self)
    }

    proof fn represents_stable(self, s1: Seq<HostVal>, s2: Seq<HostVal>, h: NapiValue) {
    }

    fn into_napi_value(self, env: &mut NapiEnv) -> (r: NapiResult<NapiValue>) {
        get_boolean(env, self)
    }
}

impl FromNapiValue for bool {
    open spec fn from_val_ok(slots: Seq<HostVal>, h: NapiValue) -> bool {
        slots[h.ix as int] matches HostVal::Boolean(_)
    }

    open spec fn from_val(slots: Seq<HostVal>, h: NapiValue) -> bool {
        match slots[h.ix as int] {
            HostVal::Boolean(b) => b,
            _ => false,
        }
    }

    open spec fn from_val_err(slots: Seq<HostVal>, h: NapiValue) -> NapiErrorType {
        NapiErrorType::BooleanExpected
    }

    fn from_napi_value(env: &mut NapiEnv, h: NapiValue) -> (r: NapiResult<bool>) {
        let b = match &env.slots[h.ix] {
            HostVal::Boolean(b) => Some(*b),
            _ => None,
        };
        match b {
            Some(v) => Ok(v),
            None => host_fail(env, NAPI_BOOLEAN_EXPECTED, "host value is not a boolean"),
        }
    }
}

impl IntoNapiValue for u64 {
    open spec fn into_ok(self) -> bool {
        true
    }

    open spec fn into_err(self) -> NapiErrorType {
        NapiErrorType::GenericFailure
    }

    /// The handle holds the integer-valued double nearest to the
    /// native integer; within 2^53 that double is the integer itself.
    open spec fn represents(self, slots: Seq<HostVal>, h: NapiValue) -> bool {
        slots[h.ix as int] == HostVal::Number(spec_round_to_double(self as nat) as i128)
    }

    proof fn represents_stable(self, s1: Seq<HostVal>, s2: Seq<HostVal>, h: NapiValue) {
    }

    fn into_napi_value(self, env: &mut NapiEnv) -> (r: NapiResult<NapiValue>) {
        let wide = round_to_double(self);
        let h = alloc_slot(env, HostVal::Number(wide as i128));
        Ok(h)
    }
}

impl FromNapiValue for u64 {
    open spec fn from_val_ok(slots: Seq<HostVal>, h: NapiValue) -> bool {
        slots[h.ix as int] matches HostVal::Number(p) && 0 <= p <= u64::MAX as i128
    }

    open spec fn from_val(slots: Seq<HostVal>, h: NapiValue) -> u64 {
        match slots[h.ix as int] {
            HostVal::Number(p) => p as u64,
            _ => 0,
        }
    }

    open spec fn from_val_err(slots: Seq<HostVal>, h: NapiValue) -> NapiErrorType {
        match slots[h.ix as int] {
            HostVal::Number(_) => NapiErrorType::InvalidArg,
            _ => NapiErrorType::NumberExpected,
        }
    }

    fn from_napi_value(env: &mut NapiEnv, h: NapiValue) -> (r: NapiResult<u64>) {
        let p = match &env.slots[h.ix] {
            HostVal::Number(p) => Some(*p),
            _ => None,
        };
        match p {
            Some(v) => {
                if 0 <= v && v <= u64::MAX as i128 {
                    Ok(v as u64)
                } else {
                    host_fail(env, NAPI_INVALID_ARG, "host number is outside the unsigned 64-bit range")
                }
            },
            None => host_fail(env, NAPI_NUMBER_EXPECTED, "host value is not a number"),
        }
    }
}

impl IntoNapiValue for String {
    /// Strings cross the boundary as null-terminated byte sequences,
    /// so only a string without an interior nul is convertible.
    open spec fn into_ok(self) -> bool {
        no_interior_nul(self@)
    }

    open spec fn into_err(self) -> NapiErrorType {
        NapiErrorType::InvalidArg
    }

    open spec fn represents(self, slots: Seq<HostVal>, h: NapiValue) -> bool {
        slots[h.ix as int] matches HostVal::Text(t) && t@ == self@
    }

    proof fn represents_stable(self, s1: Seq<HostVal>, s2: Seq<HostVal>, h: NapiValue) {
    }

    fn into_napi_value(self, env: &mut NapiEnv) -> (r: NapiResult<NapiValue>) {
        if contains_nul(self.as_str()) {
            return host_fail(env, NAPI_INVALID_ARG, "native string holds an interior nul byte");
        }
        let h = alloc_slot(env, HostVal::Text(self));
        Ok(h)
    }
}

impl FromNapiValue for String {
    open spec fn from_val_ok(slots: Seq<HostVal>, h: NapiValue) -> bool {
        slots[h.ix as int] matches HostVal::Text(_)
    }

    open spec fn from_val(slots: Seq<HostVal>, h: NapiValue) -> String {
        match slots[h.ix as int] {
            HostVal::Text(t) => t,
            _ => vstd::pervasive::arbitrary(),
        }
    }

    open spec fn from_val_err(slots: Seq<HostVal>, h: NapiValue) -> NapiErrorType {
        NapiErrorType::StringExpected
    }

    fn from_napi_value(env: &mut NapiEnv, h: NapiValue) -> (r: NapiResult<String>) {
        let t = match &env.slots[h.ix] {
            HostVal::Text(t) => Some(t.clone()),
            _ => None,
        };
        match t {
            Some(v) => Ok(v),
            None => host_fail(env, NAPI_STRING_EXPECTED, "host value is not a string"),
        }
    }
}

impl IntoNapiValue for () {
    open spec fn into_ok(self) -> bool {
        true
    }

    open spec fn into_err(self) -> NapiErrorType {
        NapiErrorType::GenericFailure
    }

    /// A native function with no meaningful result yields the host's
    /// `undefined` value.
    open spec fn represents(self, slots: Seq<HostVal>, h: NapiValue) -> bool {
        slots[h.ix as int] == HostVal::Undefined
    }

    proof fn represents_stable(self, s1: Seq<HostVal>, s2: Seq<HostVal>, h: NapiValue) {
    }

    fn into_napi_value(self, env: &mut NapiEnv) -> (r: NapiResult<NapiValue>) {
        get_undefined(env)
    }
}

impl FromNapiValues for u64 {
    /// A one-number argument list; further supplied values are ignored.
    open spec fn from_args_ok(slots: Seq<HostVal>, values: Seq<NapiValue>) -> bool {
        values.len() >= 1 && <u64 as FromNapiValue>::from_val_ok(slots, values[0])
    }

    open spec fn from_args(slots: Seq<HostVal>, values: Seq<NapiValue>) -> u64 {
        <u64 as FromNapiValue>::from_val(slots, values[0])
    }

    open spec fn from_args_err(slots: Seq<HostVal>, values: Seq<NapiValue>) -> NapiErrorType {
        if values.len() < 1 {
            NapiErrorType::InvalidArg
        } else {
            <u64 as FromNapiValue>::from_val_err(slots, values[0])
        }
    }

    fn from_napi_values(env: &mut NapiEnv, this: NapiValue, values: &Vec<NapiValue>) -> (r: NapiResult<u64>) {
        if values.len() < 1 {
            return host_fail(env, NAPI_INVALID_ARG, "expected one argument, got none");
        }
        <u64 as FromNapiValue>::from_napi_value(env, values[0])
    }
}

impl FromNapiValues for (u64, u64, u64) {
    /// A three-number argument list, decoded by position; indexing a
    /// position beyond the supplied slice is an error, never a read
    /// out of bounds.
    open spec fn from_args_ok(slots: Seq<HostVal>, values: Seq<NapiValue>) -> bool {
        &&& values.len() >= 3
        &&& <u64 as FromNapiValue>::from_val_ok(slots, values[0])
        &&& <u64 as FromNapiValue>::from_val_ok(slots, values[1])
        &&& <u64 as FromNapiValue>::from_val_ok(slots, values[2])
    }

    open spec fn from_args(slots: Seq<HostVal>, values: Seq<NapiValue>) -> (u64, u64, u64) {
        (
            <u64 as FromNapiValue>::from_val(slots, values[0]),
            <u64 as FromNapiValue>::from_val(slots, values[1]),
            <u64 as FromNapiValue>::from_val(slots, values[2]),
        )
    }

    open spec fn from_args_err(slots: Seq<HostVal>, values: Seq<NapiValue>) -> NapiErrorType {
        if values.len() < 3 {
            NapiErrorType::InvalidArg
        } else if !<u64 as FromNapiValue>::from_val_ok(slots, values[0]) {
            <u64 as FromNapiValue>::from_val_err(slots, values[0])
        } else if !<u64 as FromNapiValue>::from_val_ok(slots, values[1]) {
            <u64 as FromNapiValue>::from_val_err(slots, values[1])
        } else {
            <u64 as FromNapiValue>::from_val_err(slots, values[2])
        }
    }

    fn from_napi_values(env: &mut NapiEnv, this: NapiValue, values: &Vec<NapiValue>) -> (r: NapiResult<(u64, u64, u64)>) {
        if values.len() < 3 {
            return host_fail(env, NAPI_INVALID_ARG, "argument position out of bounds of the supplied values");
        }
        let a = match <u64 as FromNapiValue>::from_napi_value(env, values[0]) {
            Ok(v) => v,
            Err(e) => {
                return Err(e);
            },
        };
        let b = match <u64 as FromNapiValue>::from_napi_value(env, values[1]) {
            Ok(v) => v,
            Err(e) => {
                return Err(e);
            },
        };
        let c = match <u64 as FromNapiValue>::from_napi_value(env, values[2]) {
            Ok(v) => v,
            Err(e) => {
                return Err(e);
            },
        };
        Ok((a, b, c))
    }
}

/// The failure kind a sequence conversion reports: that of its first
/// element whose own conversion fails.
pub open spec fn seq_into_err<T: IntoNapiValue>(s: Seq<T>) -> NapiErrorType
    decreases s.len(),
{
    if s.len() == 0 {
        NapiErrorType::GenericFailure
    } else if !s[0].into_ok() {
        s[0].into_err()
    } else {
        seq_into_err(s.drop_first())
    }
}

proof fn lemma_seq_into_err_at<T: IntoNapiValue>(s: Seq<T>, k: int)
    requires
        0 <= k < s.len(),
        !s[k].into_ok(),
        forall|j: int| 0 <= j < k ==> (#[trigger] s[j]).into_ok(),
    ensures
        seq_into_err(s) == s[k].into_err(),
    decreases s.len(),
{
    if k > 0 {
        assert(s.drop_first()[k - 1] == s[k]);
        assert forall|j: int| 0 <= j < k - 1 implies (#[trigger] s.drop_first()[j]).into_ok() by {
            assert(s.drop_first()[j] == s[j + 1]);
        }
        lemma_seq_into_err_at(s.drop_first(), k - 1);
    }
}

impl<T: IntoNapiValue> IntoNapiValue for Vec<T> {
    /// A sequence converts when every element does; a failing element
    /// aborts the whole conversion, propagating the first error.
    open spec fn into_ok(self) -> bool {
        forall|i: int| 0 <= i < self@.len() ==> (#[trigger] self@[i]).into_ok()
    }

    open spec fn into_err(self) -> NapiErrorType {
        seq_into_err(self@)
    }

    /// The handle holds a host array of the elements' host values, in
    /// order.
    open spec fn represents(self, slots: Seq<HostVal>, h: NapiValue) -> bool {
        slots[h.ix as int] matches HostVal::Array(es)
            && es@.len() == self@.len()
            && (forall|i: int| 0 <= i < self@.len() ==> {
                &&& (#[trigger] es@[i]).ix < slots.len()
                &&& self@[i].represents(slots, es@[i])
            })
    }

    proof fn represents_stable(self, s1: Seq<HostVal>, s2: Seq<HostVal>, h: NapiValue) {
        match s1[h.ix as int] {
            HostVal::Array(es) => {
                assert forall|i: int| 0 <= i < self@.len() implies
                    ((#[trigger] es@[i]).ix < s2.len() && self@[i].represents(s2, es@[i])) by {
                    self@[i].represents_stable(s1, s2, es@[i]);
                }
            },
            _ => {},
        }
    }

    fn into_napi_value(self, env: &mut NapiEnv) -> (r: NapiResult<NapiValue>) {
        let ghost orig = self@;
        let ghost n0 = old(env).slots@.len() as int;
        let ghost total = orig.len() as int;
        let mut pending = self;
        let mut handles: Vec<NapiValue> = Vec::new();
        let mut k: usize = 0;
        proof {
            assert(pending@.len() == pending.len());
        }
        #[verifier::loop_isolation(false)]
        while pending.len() > 0
            invariant
                env.wf(),
                n0 <= env.slots@.len(),
                forall|i: int| 0 <= i < n0 ==> env.slots@[i] == old(env).slots@[i],
                orig.len() == total,
                total <= usize::MAX as int,
                pending@ == orig.subrange(k as int, total),
                0 <= k as int <= total,
                k as int + pending@.len() == total,
                handles@.len() == k,
                forall|j: int| 0 <= j < k ==> (#[trigger] handles@[j]).ix < env.slots@.len(),
                forall|j: int| 0 <= j < k ==> (#[trigger] orig[j]).represents(env.slots@, handles@[j]),
                forall|j: int| 0 <= j < k ==> (#[trigger] orig[j]).into_ok(),
            decreases pending@.len(),
        {
            let ghost pre = env.slots@;
            let x = pending.remove(0);
            proof {
                assert(x == orig[k as int]);
                assert(pending@ =~= orig.subrange(k as int + 1, total));
            }
            match x.into_napi_value(env) {
                Ok(h) => {
                    handles.push(h);
                },
                Err(e) => {
                    proof {
                        lemma_seq_into_err_at(orig, k as int);
                    }
                    return Err(e);
                },
            }
            proof {
                assert forall|j: int| 0 <= j < k implies
                    (#[trigger] orig[j]).represents(env.slots@, handles@[j]) by {
                    orig[j].represents_stable(pre, env.slots@, handles@[j]);
                }
            }
            k += 1;
        }
        let ghost pre = env.slots@;
        let ghost hs = handles@;
        let h = alloc_slot(env, HostVal::Array(handles));
        proof {
            assert forall|j: int| 0 <= j < total implies
                (#[trigger] orig[j]).represents(env.slots@, hs[j]) by {
                orig[j].represents_stable(pre, env.slots@, hs[j]);
            }
        }
        Ok(h)
    }
}

/// Round-trip law: a boolean sent to the host reads back unchanged.
pub proof fn lemma_bool_round_trip(b: bool, slots: Seq<HostVal>, h: NapiValue)
    requires
        h.ix < slots.len(),
        b.represents(slots, h),
    ensures
        <bool as FromNapiValue>::from_val_ok(slots, h),
        <bool as FromNapiValue>::from_val(slots, h) == b,
{
}

/// Round-trip law: a string sent to the host reads back with exactly
/// the original characters.
pub proof fn lemma_string_round_trip(s: String, slots: Seq<HostVal>, h: NapiValue)
    requires
        h.ix < slots.len(),
        s.represents(slots, h),
    ensures
        <String as FromNapiValue>::from_val_ok(slots, h),
        <String as FromNapiValue>::from_val(slots, h)@ == s@,
{
}

/// Round-trip law: an unsigned integer within the exact range of the
/// double-precision bridge reads back unchanged.
pub proof fn lemma_u64_round_trip(n: u64, slots: Seq<HostVal>, h: NapiValue)
    requires
        h.ix < slots.len(),
        n.represents(slots, h),
        n <= EXACT_DOUBLE_BOUND,
    ensures
        <u64 as FromNapiValue>::from_val_ok(slots, h),
        <u64 as FromNapiValue>::from_val(slots, h) == n,
{
    lemma_round_to_double_exact(n as nat);
}

/// Precision-loss law: beyond 2^53 the value read back differs from
/// the original by at most half the rounding scale, which is itself
/// bounded by the original divided by 2^53.
pub proof fn lemma_u64_round_trip_loss(n: u64, slots: Seq<HostVal>, h: NapiValue)
    requires
        h.ix < slots.len(),
        n.represents(slots, h),
        <u64 as FromNapiValue>::from_val_ok(slots, h),
    ensures
        n <= <u64 as FromNapiValue>::from_val(slots, h) + crate::num::spec_double_scale(n as nat) / 2,
        <u64 as FromNapiValue>::from_val(slots, h) <= n + crate::num::spec_double_scale(n as nat) / 2,
        (crate::num::spec_double_scale(n as nat) / 2) * (EXACT_DOUBLE_BOUND as nat) <= n,
{
    crate::num::lemma_round_to_double_bound(n as nat);
}

} // verus!
