//! A small worked addon: the native functions `add` and `hello`,
//! their typed argument and return types, and their dispatcher.
//!
//! `add` doubles its one numeric argument; `hello` takes no arguments
//! and returns a struct that converts to a host object with the
//! fields `foo` (a string) and `bar` (a number), attached in
//! declaration order.

use vstd::prelude::*;
use crate::status::NapiErrorType;
use crate::status::NAPI_GENERIC_FAILURE;
use crate::napi::{NapiEnv, NapiValue, NapiResult, HostVal, host_fail, create_object, set_named_property, obj_fields, is_object, has_field};
use crate::convert::{IntoNapiValue, FromNapiValues, no_interior_nul};
use crate::function::NativeDispatch;
use crate::num::spec_round_to_double;

verus! {

/// The argument type of `hello`: no arguments. Construction succeeds
/// whatever the host supplied; every supplied value is ignored.
pub struct HelloArgs {}

impl FromNapiValues for HelloArgs {
    open spec fn from_args_ok(slots: Seq<HostVal>, values: Seq<NapiValue>) -> bool {
        true
    }

    open spec fn from_args(slots: Seq<HostVal>, values: Seq<NapiValue>) -> HelloArgs {
        HelloArgs {  }
    }

    open spec fn from_args_err(slots: Seq<HostVal>, values: Seq<NapiValue>) -> NapiErrorType {
        NapiErrorType::GenericFailure
    }

    fn from_napi_values(env: &mut NapiEnv, this: NapiValue, values: &Vec<NapiValue>) -> (r: NapiResult<HelloArgs>) {
        Ok(HelloArgs {  })
    }
}

/// The return type of `hello`: a struct whose conversion builds a
/// host object with the fields `foo` and `bar`, in that order.
pub struct HelloReturn {
    pub foo: String,
    pub bar: u64,
}

/// What the host object built from a [`HelloReturn`] looks like: two
/// fields in declaration order, `foo` holding the text and `bar` the
/// number.
pub open spec fn hello_object(ret: HelloReturn, slots: Seq<HostVal>, h: NapiValue) -> bool {
    let fields = obj_fields(slots[h.ix as int]);
    &&& is_object(slots[h.ix as int])
    &&& fields.len() == 2
    &&& fields[0].key@ == "foo"@
    &&& fields[1].key@ == "bar"@
    &&& fields[0].val.ix < slots.len()
    &&& fields[1].val.ix < slots.len()
    &&& (slots[fields[0].val.ix as int] matches HostVal::Text(t) && t@ == ret.foo@)
    &&& slots[fields[1].val.ix as int]
        == HostVal::Number(spec_round_to_double(ret.bar as nat) as i128)
}

impl IntoNapiValue for HelloReturn {
    open spec fn into_ok(self) -> bool {
        no_interior_nul(self.foo@)
    }

    open spec fn into_err(self) -> NapiErrorType {
        NapiErrorType::InvalidArg
    }

    open spec fn represents(self, slots: Seq<HostVal>, h: NapiValue) -> bool {
        hello_object(self, slots, h)
    }

    proof fn represents_stable(self, s1: Seq<HostVal>, s2: Seq<HostVal>, h: NapiValue) {
        assert(obj_fields(s2[h.ix as int]) == obj_fields(s1[h.ix as int]));
    }

    fn into_napi_value(self, env: &mut NapiEnv) -> (r: NapiResult<NapiValue>) {
        let ghost foo_chars = self.foo@;
        let ghost bar_val = self.bar;
        proof {
            reveal_strlit("foo");
            reveal_strlit("bar");
        }
        let object = match create_object(env) {
            Ok(h) => h,
            Err(e) => {
                return Err(e);
            },
        };
        let foo_h = match self.foo.into_napi_value(env) {
            Ok(h) => h,
            Err(e) => {
                return Err(e);
            },
        };
        let bar_h = match self.bar.into_napi_value(env) {
            Ok(h) => h,
            Err(e) => {
                return Err(e);
            },
        };
        proof {
            assert(env.slots@[foo_h.ix as int] matches HostVal::Text(t) && t@ == foo_chars);
            assert(env.slots@[bar_h.ix as int]
                == HostVal::Number(spec_round_to_double(bar_val as nat) as i128));
            assert(is_object(env.slots@[object.ix as int]));
            assert(obj_fields(env.slots@[object.ix as int]).len() == 0);
            assert(foo_h.ix != object.ix && bar_h.ix != object.ix && foo_h.ix != bar_h.ix);
        }
        match set_named_property(env, object, "foo", foo_h) {
            Ok(_) => {},
            Err(e) => {
                return Err(e);
            },
        }
        proof {
            let f1 = obj_fields(env.slots@[object.ix as int]);
            assert(f1.len() == 1 && f1[0].key@ == "foo"@ && f1[0].val == foo_h);
            assert("foo"@[0] == 'f' && "bar"@[0] == 'b');
            assert forall|i: int| 0 <= i < f1.len() implies (#[trigger] f1[i]).key@ != "bar"@ by {
                assert(f1[i] == f1[0]);
            }
            assert(!has_field(f1, "bar"@));
        }
        match set_named_property(env, object, "bar", bar_h) {
            Ok(_) => {},
            Err(e) => {
                return Err(e);
            },
        }
        proof {
            let f2 = obj_fields(env.slots@[object.ix as int]);
            assert(f2.len() == 2 && f2[0].key@ == "foo"@ && f2[0].val == foo_h);
            assert(f2[1].key@ == "bar"@ && f2[1].val == bar_h);
            assert(env.slots@[foo_h.ix as int] matches HostVal::Text(t) && t@ == foo_chars);
            assert(env.slots@[bar_h.ix as int]
                == HostVal::Number(spec_round_to_double(bar_val as nat) as i128));
        }
        Ok(object)
    }
}

/// The exported functions of the worked addon, as its dispatch table
/// holds them.
#[derive(Clone, Copy, Debug)]
pub enum DemoExport {
    Add,
    Hello,
}

/// The outcome of one `add` call: the one numeric argument is read
/// back, and its double is returned as a fresh host number; a sum
/// beyond the unsigned 64-bit range is a generic failure, and an
/// argument that does not convert propagates its conversion error.
pub open spec fn add_post(pre: Seq<HostVal>, values: Seq<NapiValue>, post: Seq<HostVal>, r: NapiResult<NapiValue>) -> bool {
    if <u64 as FromNapiValues>::from_args_ok(pre, values) {
        let n = <u64 as FromNapiValues>::from_args(pre, values);
        if n <= u64::MAX / 2 {
            r matches Ok(h) && h.ix < post.len()
                && post[h.ix as int] == HostVal::Number(spec_round_to_double((n + n) as nat) as i128)
        } else {
            r matches Err(e) && e.error_code == NapiErrorType::GenericFailure
        }
    } else {
        r matches Err(e) && e.error_code == <u64 as FromNapiValues>::from_args_err(pre, values)
    }
}

/// The outcome of one `hello` call: a host object carrying the text
/// `HELLO` under `foo` and the number 23 under `bar`.
pub open spec fn hello_post(post: Seq<HostVal>, r: NapiResult<NapiValue>) -> bool {
    r matches Ok(h) && h.ix < post.len()
        && (exists|ret: HelloReturn| (#[trigger] hello_object(ret, post, h))
            && ret.foo@ == "HELLO"@ && ret.bar == 23)
}

impl NativeDispatch for DemoExport {
    open spec fn dispatch_post(
        self,
        pre: Seq<HostVal>,
        this: NapiValue,
        values: Seq<NapiValue>,
        post: Seq<HostVal>,
        r: NapiResult<NapiValue>,
    ) -> bool {
        match self {
            DemoExport::Add => add_post(pre, values, post, r),
            DemoExport::Hello => hello_post(post, r),
        }
    }

    fn dispatch(&self, env: &mut NapiEnv, this: NapiValue, values: &Vec<NapiValue>) -> (r: NapiResult<NapiValue>) {
        match self {
            DemoExport::Add => {
                let n = match <u64 as FromNapiValues>::from_napi_values(env, this, values) {
                    Ok(n) => n,
                    Err(e) => {
                        return Err(e);
                    },
                };
                if n > u64::MAX / 2 {
                    return host_fail(env, NAPI_GENERIC_FAILURE, "sum exceeds the unsigned 64-bit range");
                }
                let sum = n + n;
                sum.into_napi_value(env)
            },
            DemoExport::Hello => {
                proof {
                    reveal_strlit("HELLO");
                }
                let ret = HelloReturn { foo: "HELLO".to_owned(), bar: 23 };
                let ghost g = ret;
                let r = ret.into_napi_value(env);
                proof {
                    if r is Ok {
                        assert(hello_object(g, env.slots@, r->Ok_0));
                    }
                }
                r
            },
        }
    }
}

} // verus!
