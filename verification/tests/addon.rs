use node_api::{
    array_with_length, call_function, create_function, create_object, get_boolean, get_global,
    get_named_property, get_null, get_property_names, get_undefined, register_module,
    set_named_property, DemoExport, HelloReturn, HostVal, IntoNapiValue, NapiEnv, NapiErrorType,
    NapiValue, NativeExport,
};

#[test]
fn fresh_handles_for_the_singletons() {
    let mut env = NapiEnv::new();
    let u = get_undefined(&mut env).unwrap();
    let n = get_null(&mut env).unwrap();
    assert!(matches!(env.slots[u.ix], HostVal::Undefined));
    assert!(matches!(env.slots[n.ix], HostVal::Null));
    let g = get_global(&mut env).unwrap();
    assert_eq!(g.ix, 0);
    assert!(matches!(env.slots[g.ix], HostVal::Object(_)));
    let b = get_boolean(&mut env, true).unwrap();
    assert!(matches!(env.slots[b.ix], HostVal::Boolean(true)));
}

#[test]
fn array_with_length_fills_with_undefined() {
    let mut env = NapiEnv::new();
    let a = array_with_length(&mut env, 3).unwrap();
    match &env.slots[a.ix] {
        HostVal::Array(es) => {
            assert_eq!(es.len(), 3);
            for e in es {
                assert!(matches!(env.slots[e.ix], HostVal::Undefined));
            }
        },
        other => panic!("expected an array slot, found {:?}", other),
    }
}

#[test]
fn named_properties_attach_in_order_and_replace_in_place() {
    let mut env = NapiEnv::new();
    let o = create_object(&mut env).unwrap();
    let one = 1u64.into_napi_value(&mut env).unwrap();
    let two = 2u64.into_napi_value(&mut env).unwrap();
    let three = 3u64.into_napi_value(&mut env).unwrap();
    set_named_property(&mut env, o, "first", one).unwrap();
    set_named_property(&mut env, o, "second", two).unwrap();
    assert_eq!(get_property_names(&mut env, o).unwrap(), vec!["first", "second"]);
    // overwriting an existing name keeps the enumeration order
    set_named_property(&mut env, o, "first", three).unwrap();
    assert_eq!(get_property_names(&mut env, o).unwrap(), vec!["first", "second"]);
    let h = get_named_property(&mut env, o, "first").unwrap();
    assert!(matches!(env.slots[h.ix], HostVal::Number(3)));
}

#[test]
fn named_property_on_non_object_is_rejected() {
    let mut env = NapiEnv::new();
    let n = 1u64.into_napi_value(&mut env).unwrap();
    let v = 2u64.into_napi_value(&mut env).unwrap();
    let e = set_named_property(&mut env, n, "x", v)
        .err()
        .expect("a number cannot carry named properties");
    assert_eq!(e.error_code, NapiErrorType::ObjectExpected);
}

#[test]
fn absent_property_reads_as_undefined() {
    let mut env = NapiEnv::new();
    let o = create_object(&mut env).unwrap();
    let h = get_named_property(&mut env, o, "missing").unwrap();
    assert!(matches!(env.slots[h.ix], HostVal::Undefined));
}

#[test]
fn hello_return_converts_to_an_ordered_object() {
    let mut env = NapiEnv::new();
    let ret = HelloReturn { foo: "HELLO".to_string(), bar: 23 };
    let h = ret.into_napi_value(&mut env).unwrap();
    assert_eq!(get_property_names(&mut env, h).unwrap(), vec!["foo", "bar"]);
    let foo = get_named_property(&mut env, h, "foo").unwrap();
    match &env.slots[foo.ix] {
        HostVal::Text(t) => assert_eq!(t, "HELLO"),
        other => panic!("expected a text slot, found {:?}", other),
    }
    let bar = get_named_property(&mut env, h, "bar").unwrap();
    assert!(matches!(env.slots[bar.ix], HostVal::Number(23)));
}

fn registered_demo(env: &mut NapiEnv) -> (Vec<DemoExport>, NapiValue) {
    let mut table: Vec<DemoExport> = Vec::new();
    let exports = create_object(env).unwrap();
    let items = vec![
        NativeExport { name: "add".to_string(), func: DemoExport::Add },
        NativeExport { name: "hello".to_string(), func: DemoExport::Hello },
    ];
    register_module(env, &mut table, exports, items).unwrap();
    (table, exports)
}

#[test]
fn registering_the_demo_module_exports_exactly_two_names() {
    let mut env = NapiEnv::new();
    let (_table, exports) = registered_demo(&mut env);
    let names = get_property_names(&mut env, exports).unwrap();
    assert_eq!(names, vec!["add", "hello"]);
    let add = get_named_property(&mut env, exports, "add").unwrap();
    let hello = get_named_property(&mut env, exports, "hello").unwrap();
    match &env.slots[add.ix] {
        HostVal::Function(f) => assert_eq!(f.name, "add"),
        other => panic!("expected a function slot, found {:?}", other),
    }
    match &env.slots[hello.ix] {
        HostVal::Function(f) => assert_eq!(f.name, "hello"),
        other => panic!("expected a function slot, found {:?}", other),
    }
}

#[test]
fn invoking_add_with_21_returns_42() {
    let mut env = NapiEnv::new();
    let (table, exports) = registered_demo(&mut env);
    let add = get_named_property(&mut env, exports, "add").unwrap();
    let this = get_global(&mut env).unwrap();
    let arg = 21u64.into_napi_value(&mut env).unwrap();
    let r = call_function(&mut env, &table, add, this, &vec![arg]).unwrap();
    assert!(matches!(env.slots[r.ix], HostVal::Number(42)));
}

#[test]
fn invoking_hello_returns_the_greeting_object() {
    let mut env = NapiEnv::new();
    let (table, exports) = registered_demo(&mut env);
    let hello = get_named_property(&mut env, exports, "hello").unwrap();
    let this = get_global(&mut env).unwrap();
    let r = call_function(&mut env, &table, hello, this, &Vec::new()).unwrap();
    assert_eq!(get_property_names(&mut env, r).unwrap(), vec!["foo", "bar"]);
    let foo = get_named_property(&mut env, r, "foo").unwrap();
    match &env.slots[foo.ix] {
        HostVal::Text(t) => assert_eq!(t, "HELLO"),
        other => panic!("expected a text slot, found {:?}", other),
    }
    let bar = get_named_property(&mut env, r, "bar").unwrap();
    assert!(matches!(env.slots[bar.ix], HostVal::Number(23)));
}

#[test]
fn invoking_add_without_a_number_propagates_the_conversion_error() {
    let mut env = NapiEnv::new();
    let (table, exports) = registered_demo(&mut env);
    let add = get_named_property(&mut env, exports, "add").unwrap();
    let this = get_global(&mut env).unwrap();
    // no arguments at all: the arity check reports an invalid argument
    let e = call_function(&mut env, &table, add, this, &Vec::new())
        .err()
        .expect("add needs one argument");
    assert_eq!(e.error_code, NapiErrorType::InvalidArg);
    // a boolean where a number is expected
    let b = get_boolean(&mut env, true).unwrap();
    let e = call_function(&mut env, &table, add, this, &vec![b])
        .err()
        .expect("add needs a numeric argument");
    assert_eq!(e.error_code, NapiErrorType::NumberExpected);
}

#[test]
fn invoking_add_beyond_the_unsigned_range_fails() {
    let mut env = NapiEnv::new();
    let (table, exports) = registered_demo(&mut env);
    let add = get_named_property(&mut env, exports, "add").unwrap();
    let this = get_global(&mut env).unwrap();
    let arg = (1u64 << 63).into_napi_value(&mut env).unwrap();
    let e = call_function(&mut env, &table, add, this, &vec![arg])
        .err()
        .expect("doubling 2^63 exceeds u64");
    assert_eq!(e.error_code, NapiErrorType::GenericFailure);
}

#[test]
fn calling_a_non_function_is_rejected() {
    let mut env = NapiEnv::new();
    let (table, _exports) = registered_demo(&mut env);
    let this = get_global(&mut env).unwrap();
    let n = 7u64.into_napi_value(&mut env).unwrap();
    let e = call_function(&mut env, &table, n, this, &Vec::new())
        .err()
        .expect("a number is not callable");
    assert_eq!(e.error_code, NapiErrorType::FunctionExpected);
}

#[test]
fn calls_beyond_the_argument_buffer_are_rejected() {
    let mut env = NapiEnv::new();
    let (table, exports) = registered_demo(&mut env);
    let add = get_named_property(&mut env, exports, "add").unwrap();
    let this = get_global(&mut env).unwrap();
    let mut args: Vec<NapiValue> = Vec::new();
    for i in 0..17u64 {
        args.push(i.into_napi_value(&mut env).unwrap());
    }
    let e = call_function(&mut env, &table, add, this, &args)
        .err()
        .expect("17 arguments exceed the buffer capacity");
    assert_eq!(e.error_code, NapiErrorType::InvalidArg);
}

#[test]
fn create_function_rejects_a_name_with_interior_nul() {
    let mut env = NapiEnv::new();
    let mut table: Vec<DemoExport> = Vec::new();
    let e = create_function(&mut env, "ad\u{0}d", &mut table, DemoExport::Add)
        .err()
        .expect("a function name with a nul byte must be rejected");
    assert_eq!(e.error_code, NapiErrorType::InvalidArg);
    assert!(table.is_empty());
}

#[test]
fn registering_onto_a_non_object_aborts() {
    let mut env = NapiEnv::new();
    let mut table: Vec<DemoExport> = Vec::new();
    let not_an_object = 5u64.into_napi_value(&mut env).unwrap();
    let items = vec![NativeExport { name: "add".to_string(), func: DemoExport::Add }];
    let e = register_module(&mut env, &mut table, not_an_object, items)
        .err()
        .expect("exports must be an object");
    assert_eq!(e.error_code, NapiErrorType::ObjectExpected);
    // the first export was built before the attachment failed
    assert_eq!(table.len(), 1);
    assert!(matches!(env.slots[not_an_object.ix], HostVal::Number(_)));
}

#[test]
fn create_number_holds_negative_values_exactly() {
    let mut env = NapiEnv::new();
    let h = node_api::create_number(&mut env, -5).unwrap();
    assert!(matches!(env.slots[h.ix], HostVal::Number(-5)));
    let e = <u64 as node_api::FromNapiValue>::from_napi_value(&mut env, h)
        .err()
        .expect("a negative number is outside the unsigned range");
    assert_eq!(e.error_code, NapiErrorType::InvalidArg);
}

#[test]
fn create_number_rounds_beyond_the_double_range() {
    let mut env = NapiEnv::new();
    let big: i64 = (1 << 53) + 1;
    let h = node_api::create_number(&mut env, big).unwrap();
    assert!(matches!(env.slots[h.ix], HostVal::Number(p) if p == (1i128 << 53)));
    let h2 = node_api::create_number(&mut env, -big).unwrap();
    assert!(matches!(env.slots[h2.ix], HostVal::Number(p) if p == -(1i128 << 53)));
    // within the exact range the integer is stored unchanged
    let h3 = node_api::create_number(&mut env, -(1 << 53)).unwrap();
    assert!(matches!(env.slots[h3.ix], HostVal::Number(p) if p == -(1i128 << 53)));
}

#[test]
fn aborted_registration_keeps_only_the_successful_prefix() {
    let mut env = NapiEnv::new();
    let mut table: Vec<DemoExport> = Vec::new();
    let exports = create_object(&mut env).unwrap();
    let items = vec![
        NativeExport { name: "add".to_string(), func: DemoExport::Add },
        NativeExport { name: "he\u{0}llo".to_string(), func: DemoExport::Hello },
        NativeExport { name: "later".to_string(), func: DemoExport::Add },
    ];
    let e = register_module(&mut env, &mut table, exports, items)
        .err()
        .expect("a nul byte in an export name must abort registration");
    assert_eq!(e.error_code, NapiErrorType::InvalidArg);
    // the export before the failure was built and attached; none after it
    assert_eq!(table.len(), 1);
    assert_eq!(get_property_names(&mut env, exports).unwrap(), vec!["add"]);
}
