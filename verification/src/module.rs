//! Module registration: the descriptor the host's loader consumes and
//! the per-function attachment loop that populates an exports object.

use vstd::prelude::*;
use crate::status::{NapiError, NapiErrorType};
use crate::napi::{NapiEnv, NapiValue, NapiResult, HostVal, valid_handle, is_object, obj_fields, has_field, field_set, set_named_property, last_error_record};
use crate::convert::{no_interior_nul, contains_nul};
use crate::function::{NativeDispatch, create_function};

verus! {

/// The native module descriptor: what the host's loader needs to load
/// the addon. Built once at load time and consumed exactly once; the
/// registration routine itself is represented by the export list
/// handed to [`register_module`].
#[derive(Clone, Debug)]
pub struct NapiModule {
    pub version: i32,
    pub flags: u32,
    pub filename: String,
    pub modname: String,
}

/// One exported native function: its declared name and its dispatcher.
pub struct NativeExport<D> {
    pub name: String,
    pub func: D,
}

/// True when no two exports share a name.
pub open spec fn names_distinct<D>(items: Seq<NativeExport<D>>) -> bool {
    forall|i: int, j: int| 0 <= i < j < items.len()
        ==> (#[trigger] items[i]).name@ != (#[trigger] items[j]).name@
}

/// The table and value space after the first `k` exports have been
/// built: the dispatch table extended by their dispatchers in order,
/// one fresh function slot per export, and every other pre-existing
/// slot untouched.
pub open spec fn registration_state<D: NativeDispatch>(
    pre_slots: Seq<HostVal>,
    pre_table: Seq<D>,
    exports: NapiValue,
    items: Seq<NativeExport<D>>,
    k: int,
    post_slots: Seq<HostVal>,
    post_table: Seq<D>,
) -> bool {
    &&& post_table == pre_table + items.subrange(0, k).map_values(|e: NativeExport<D>| e.func)
    &&& post_slots.len() == pre_slots.len() + k
    &&& (forall|i: int| 0 <= i < pre_slots.len() && i != exports.ix
        ==> post_slots[i] == #[trigger] pre_slots[i])
    &&& (forall|j: int| 0 <= j < k ==> ((#[trigger] post_slots[pre_slots.len() + j])
        matches HostVal::Function(f) && f.index == pre_table.len() + j
            && f.name@ == items[j].name@))
}

/// The exports object after the first `k` exports have been attached
/// to it: its earlier properties kept, and exactly those `k` names
/// appended in declaration order, each holding its function value.
pub open spec fn exports_extended<D: NativeDispatch>(
    pre_slots: Seq<HostVal>,
    exports: NapiValue,
    items: Seq<NativeExport<D>>,
    k: int,
    post_slots: Seq<HostVal>,
) -> bool {
    let f0 = obj_fields(pre_slots[exports.ix as int]);
    let f1 = obj_fields(post_slots[exports.ix as int]);
    &&& f1.len() == f0.len() + k
    &&& (forall|i: int| 0 <= i < f0.len() ==> f1[i] == #[trigger] f0[i])
    &&& (forall|j: int| 0 <= j < k ==> {
        &&& (#[trigger] f1[f0.len() + j]).key@ == items[j].name@
        &&& f1[f0.len() + j].val.ix == pre_slots.len() + j
    })
}

/// Validates a module descriptor for the host's loader: both name
/// strings cross the boundary null-terminated, so a descriptor whose
/// file name or module name holds an interior nul is rejected.
pub fn module_register(module: &NapiModule) -> (r: NapiResult<()>)
    ensures
        r is Ok <==> no_interior_nul(module.filename@) && no_interior_nul(module.modname@),
        r matches Err(e) ==> e.error_code == NapiErrorType::InvalidArg,
{
    if contains_nul(module.filename.as_str()) {
        return Err(NapiError {
            error_message: "module file name holds an interior nul byte".to_owned(),
            engine_error_code: 0,
            error_code: NapiErrorType::InvalidArg,
        });
    }
    if contains_nul(module.modname.as_str()) {
        return Err(NapiError {
            error_message: "module name holds an interior nul byte".to_owned(),
            engine_error_code: 0,
            error_code: NapiErrorType::InvalidArg,
        });
    }
    Ok(())
}

/// Registers every exported function of an addon: for each export, in
/// declaration order, a host function value is built through the
/// trampoline and attached to the exports object under the declared
/// name. Any failure aborts registration at that export, since a
/// partially exported module is not a supported state.
///
/// On success the dispatch table is extended by the dispatchers in
/// order and each new host slot holds the matching function value;
/// when the exported names are distinct and none is already present,
/// the exports object gains exactly those names, in declaration order.
pub fn register_module<D: NativeDispatch>(
    env: &mut NapiEnv,
    table: &mut Vec<D>,
    exports: NapiValue,
    items: Vec<NativeExport<D>>,
) -> (r: NapiResult<()>)
    requires
        old(env).wf(),
        valid_handle(exports, old(env).slots@.len() as int),
    ensures
        final(env).wf(),
        r is Ok <==> ((forall|k: int| 0 <= k < items@.len()
                ==> no_interior_nul((#[trigger] items@[k]).name@))
            && (items@.len() == 0 || is_object(old(env).slots@[exports.ix as int]))),
        r matches Err(e) ==> (e.error_code == NapiErrorType::InvalidArg
            || e.error_code == NapiErrorType::ObjectExpected)
            && e == last_error_record(*final(env)),
        r is Ok ==> {
            &&& registration_state(
                old(env).slots@, old(table)@, exports, items@, items@.len() as int,
                final(env).slots@, final(table)@,
            )
            &&& (items@.len() > 0 ==> is_object(final(env).slots@[exports.ix as int]))
            &&& (names_distinct(items@)
                && (forall|k: int| 0 <= k < items@.len()
                    ==> !has_field(obj_fields(old(env).slots@[exports.ix as int]), (#[trigger] items@[k]).name@))
                ==> exports_extended(old(env).slots@, exports, items@, items@.len() as int, final(env).slots@))
        },
        // an aborted registration leaves exactly the successful prefix behind
        r is Err && is_object(old(env).slots@[exports.ix as int]) ==> exists|k: int| {
            &&& 0 <= k < items@.len()
            &&& !no_interior_nul((#[trigger] items@[k]).name@)
            &&& (forall|j: int| 0 <= j < k ==> no_interior_nul((#[trigger] items@[j]).name@))
            &&& registration_state(
                old(env).slots@, old(table)@, exports, items@, k,
                final(env).slots@, final(table)@,
            )
            &&& is_object(final(env).slots@[exports.ix as int])
            &&& (names_distinct(items@)
                && (forall|j: int| 0 <= j < items@.len()
                    ==> !has_field(obj_fields(old(env).slots@[exports.ix as int]), (#[trigger] items@[j]).name@))
                ==> exports_extended(old(env).slots@, exports, items@, k, final(env).slots@))
        },
        r is Err && !is_object(old(env).slots@[exports.ix as int])
            && no_interior_nul(items@[0].name@) ==> {
            // the first export was built; its attachment to the non-object failed
            &&& registration_state(
                old(env).slots@, old(table)@, exports, items@, 1,
                final(env).slots@, final(table)@,
            )
            &&& final(env).slots@[exports.ix as int] == old(env).slots@[exports.ix as int]
        },
        r is Err && !is_object(old(env).slots@[exports.ix as int])
            && !no_interior_nul(items@[0].name@) ==> {
            &&& final(table)@ == old(table)@
            &&& final(env).slots@ == old(env).slots@
        },
{
    let ghost orig: Seq<NativeExport<D>> = items@;
    let ghost s0: Seq<HostVal> = old(env).slots@;
    let ghost t0: Seq<D> = old(table)@;
    let ghost n0: int = s0.len() as int;
    let ghost f0: Seq<crate::napi::HostField> = obj_fields(s0[exports.ix as int]);
    let mut pending = items;
    let mut k: usize = 0;
    let ghost total: int = orig.len() as int;
    #[verifier::loop_isolation(false)]
    while pending.len() > 0
        invariant
            env.wf(),
            valid_handle(exports, n0),
            n0 == s0.len(),
            f0 == obj_fields(s0[exports.ix as int]),
            orig.len() == total,
            pending@ == orig.subrange(k as int, total),
            0 <= k as int <= total,
            k as int + pending@.len() == total,
            table@ == t0 + orig.subrange(0, k as int).map_values(|e: NativeExport<D>| e.func),
            env.slots@.len() == n0 + k,
            forall|i: int| 0 <= i < n0 && i != exports.ix ==> env.slots@[i] == s0[i],
            forall|j: int| 0 <= j < k ==> ((#[trigger] env.slots@[n0 + j])
                matches HostVal::Function(f) && f.index == t0.len() + j
                    && f.name@ == orig[j].name@),
            forall|j: int| 0 <= j < k ==> no_interior_nul((#[trigger] orig[j]).name@),
            k > 0 ==> is_object(s0[exports.ix as int]),
            k == 0 ==> env.slots@ == s0,
            is_object(env.slots@[exports.ix as int]) == is_object(s0[exports.ix as int]),
            names_distinct(orig)
                && (forall|j: int| 0 <= j < total ==> !has_field(f0, (#[trigger] orig[j]).name@))
                && is_object(s0[exports.ix as int])
                ==> {
                let fc = obj_fields(env.slots@[exports.ix as int]);
                &&& fc.len() == f0.len() + k
                &&& (forall|i: int| 0 <= i < f0.len() ==> fc[i] == f0[i])
                &&& (forall|j: int| 0 <= j < k ==> {
                    &&& (#[trigger] fc[f0.len() + j]).key@ == orig[j].name@
                    &&& fc[f0.len() + j].val.ix == n0 + j
                })
            },
        decreases pending@.len(),
    {
        let ghost head_slots = env.slots@;
        let item = pending.remove(0);
        proof {
            assert(item == orig[k as int]);
            assert(pending@ =~= orig.subrange(k as int + 1, total));
        }
        let fh = match create_function(env, item.name.as_str(), table, item.func) {
            Ok(h) => h,
            Err(e) => {
                proof {
                    assert(!no_interior_nul(orig[k as int].name@));
                    if is_object(s0[exports.ix as int]) {
                        assert(registration_state(s0, t0, exports, orig, k as int, env.slots@, table@));
                    } else {
                        assert(k == 0);
                        assert(orig.subrange(0, 0).map_values(|e: NativeExport<D>| e.func)
                            =~= Seq::<D>::empty());
                        assert(table@ =~= t0);
                    }
                }
                return Err(e);
            },
        };
        let ghost mid_slots = env.slots@;
        proof {
            assert(orig.subrange(0, k as int + 1).map_values(|e: NativeExport<D>| e.func)
                =~= orig.subrange(0, k as int).map_values(|e: NativeExport<D>| e.func).push(orig[k as int].func));
            assert(mid_slots[exports.ix as int] == head_slots[exports.ix as int]);
            if names_distinct(orig)
                && (forall|j: int| 0 <= j < total ==> !has_field(f0, (#[trigger] orig[j]).name@))
                && is_object(s0[exports.ix as int]) {
                let fc = obj_fields(mid_slots[exports.ix as int]);
                assert(fc.len() == f0.len() + k);
                assert forall|i: int| 0 <= i < fc.len() implies
                    (#[trigger] fc[i]).key@ != orig[k as int].name@ by {
                    if i < f0.len() {
                        assert(fc[i] == f0[i]);
                        if fc[i].key@ == orig[k as int].name@ {
                            assert(has_field(f0, orig[k as int].name@));
                        }
                    } else {
                        let j = i - f0.len();
                        assert(0 <= j < k);
                        assert((fc[f0.len() + j]).key@ == orig[j].name@);
                        assert(i == f0.len() + j);
                        assert(orig[j].name@ != orig[k as int].name@);
                    }
                }
                assert(!has_field(fc, orig[k as int].name@));
            }
        }
        match set_named_property(env, exports, item.name.as_str(), fh) {
            Ok(_) => {},
            Err(e) => {
                proof {
                    assert(!is_object(s0[exports.ix as int]));
                    assert(k == 0);
                    assert(head_slots == s0);
                    assert((t0 + orig.subrange(0, 0).map_values(|e: NativeExport<D>| e.func)).push(orig[0].func)
                        =~= t0 + orig.subrange(0, 1).map_values(|e: NativeExport<D>| e.func));
                    assert(env.slots@[n0] matches HostVal::Function(f) && f.name@ == orig[0].name@);
                    assert(registration_state(s0, t0, exports, orig, 1, env.slots@, table@));
                    assert(env.slots@[exports.ix as int] == s0[exports.ix as int]);
                }
                return Err(e);
            },
        }
        proof {
            if names_distinct(orig)
                && (forall|j: int| 0 <= j < total ==> !has_field(f0, (#[trigger] orig[j]).name@))
                && is_object(s0[exports.ix as int]) {
                let fb = obj_fields(mid_slots[exports.ix as int]);
                let fa = obj_fields(env.slots@[exports.ix as int]);
                assert(field_set(fb, item.name@, fh, fa));
                assert(!has_field(fb, orig[k as int].name@));
                assert(fa.len() == fb.len() + 1);
                assert forall|i: int| 0 <= i < f0.len() implies fa[i] == #[trigger] f0[i] by {
                    assert(fa[i] == fb[i]);
                }
                assert forall|j: int| 0 <= j < k + 1 implies
                    ((#[trigger] fa[f0.len() + j]).key@ == orig[j].name@
                        && fa[f0.len() + j].val.ix == n0 + j) by {
                    if j < k {
                        assert(fa[f0.len() + j] == fb[f0.len() + j]);
                    } else {
                        assert(f0.len() + j == fb.len());
                    }
                }
            }
        }
        k += 1;
    }
    proof {
        assert(orig.subrange(0, total) =~= orig);
        assert(orig.map_values(|e: NativeExport<D>| e.func)
            == orig.subrange(0, total).map_values(|e: NativeExport<D>| e.func));
        assert(k as int == total);
        assert(orig == items@);
        assert(s0 == old(env).slots@);
        assert(forall|j: int| 0 <= j < total ==> no_interior_nul((#[trigger] orig[j]).name@));
        assert(total > 0 ==> is_object(s0[exports.ix as int]));
    }
    Ok(())
}

} // verus!
