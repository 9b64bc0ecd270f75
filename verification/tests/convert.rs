use node_api::{
    contains_nul, create_number, get_boolean, round_to_double, FromNapiValue, FromNapiValues,
    HelloArgs, HostVal, IntoNapiValue, NapiEnv, NapiErrorType, NapiValue,
};

#[test]
fn bool_round_trip() {
    let mut env = NapiEnv::new();
    for v in [true, false] {
        let h = v.into_napi_value(&mut env).unwrap();
        let back = <bool as FromNapiValue>::from_napi_value(&mut env, h).unwrap();
        assert_eq!(back, v);
    }
}

#[test]
fn string_round_trip() {
    let mut env = NapiEnv::new();
    let h = "HELLO".to_string().into_napi_value(&mut env).unwrap();
    let back = <String as FromNapiValue>::from_napi_value(&mut env, h).unwrap();
    assert_eq!(back, "HELLO");
    let h2 = String::new().into_napi_value(&mut env).unwrap();
    let back2 = <String as FromNapiValue>::from_napi_value(&mut env, h2).unwrap();
    assert_eq!(back2, "");
}

#[test]
fn u64_round_trip_exact_within_double_range() {
    let mut env = NapiEnv::new();
    for v in [0u64, 1, 21, 42, 1 << 52, (1 << 53) - 1, 1 << 53] {
        let h = v.into_napi_value(&mut env).unwrap();
        let back = <u64 as FromNapiValue>::from_napi_value(&mut env, h).unwrap();
        assert_eq!(back, v);
    }
}

#[test]
fn u64_round_trip_loses_precision_beyond_double_range() {
    let mut env = NapiEnv::new();
    // one above 2^53 is not representable; ties go to the even multiple
    let v = (1u64 << 53) + 1;
    let h = v.into_napi_value(&mut env).unwrap();
    let back = <u64 as FromNapiValue>::from_napi_value(&mut env, h).unwrap();
    assert_eq!(back, 1u64 << 53);
    // the loss stays within half the rounding scale
    let w = (1u64 << 60) + 3;
    let h2 = w.into_napi_value(&mut env).unwrap();
    let back2 = <u64 as FromNapiValue>::from_napi_value(&mut env, h2).unwrap();
    let scale = 1u64 << 8; // the double ulp for values near 2^60
    assert_eq!(back2, 1u64 << 60);
    assert!(back2.abs_diff(w) <= scale / 2);
    assert_eq!(back2 % scale, 0);
}

#[test]
fn rounding_at_the_top_of_u64() {
    // every bit set: rounds up to 2^64 exactly, one above u64::MAX
    assert_eq!(round_to_double(u64::MAX), 1u128 << 64);
    // ...and such a number no longer reads back as a u64
    let mut env = NapiEnv::new();
    let h = u64::MAX.into_napi_value(&mut env).unwrap();
    let e = <u64 as FromNapiValue>::from_napi_value(&mut env, h)
        .err()
        .expect("a payload beyond u64 must be rejected");
    assert_eq!(e.error_code, NapiErrorType::InvalidArg);
}

#[test]
fn rounding_ties_go_to_even() {
    // 2^54 + 2 is exactly between 2^54 and 2^54 + 4: the even multiple wins
    assert_eq!(round_to_double((1u64 << 54) + 2), 1u128 << 54);
    // 2^54 + 6 is between 2^54 + 4 and 2^54 + 8: the even multiple wins
    assert_eq!(round_to_double((1u64 << 54) + 6), (1u128 << 54) + 8);
}

#[test]
fn string_with_interior_nul_is_rejected() {
    let mut env = NapiEnv::new();
    let e = "he\u{0}llo".to_string()
        .into_napi_value(&mut env)
        .err()
        .expect("a string with an interior nul must be rejected");
    assert_eq!(e.error_code, NapiErrorType::InvalidArg);
}

#[test]
fn contains_nul_sees_only_interior_nuls() {
    assert!(contains_nul("a\u{0}b"));
    assert!(contains_nul("\u{0}"));
    assert!(!contains_nul("ab"));
    assert!(!contains_nul(""));
}

#[test]
fn mismatched_kinds_are_rejected_with_their_kind() {
    let mut env = NapiEnv::new();
    let num = create_number(&mut env, 7).unwrap();
    let tru = get_boolean(&mut env, true).unwrap();
    let txt = "x".to_string().into_napi_value(&mut env).unwrap();

    let e = <bool as FromNapiValue>::from_napi_value(&mut env, num)
        .err()
        .expect("a number is not a boolean");
    assert_eq!(e.error_code, NapiErrorType::BooleanExpected);

    let e = <u64 as FromNapiValue>::from_napi_value(&mut env, tru)
        .err()
        .expect("a boolean is not a number");
    assert_eq!(e.error_code, NapiErrorType::NumberExpected);

    let e = <String as FromNapiValue>::from_napi_value(&mut env, num)
        .err()
        .expect("a number is not a string");
    assert_eq!(e.error_code, NapiErrorType::StringExpected);

    let _ = txt;
}

#[test]
fn zero_argument_type_ignores_five_supplied_values() {
    let mut env = NapiEnv::new();
    let this = node_api::get_global(&mut env).unwrap();
    let mut vals: Vec<NapiValue> = Vec::new();
    for i in 0..5u64 {
        vals.push(i.into_napi_value(&mut env).unwrap());
    }
    assert_eq!(vals.len(), 5);
    let r = <HelloArgs as FromNapiValues>::from_napi_values(&mut env, this, &vals);
    assert!(r.is_ok());
}

#[test]
fn composite_type_fails_on_out_of_bounds_position() {
    let mut env = NapiEnv::new();
    let this = node_api::get_global(&mut env).unwrap();
    let one = 5u64.into_napi_value(&mut env).unwrap();
    let vals = vec![one];
    let e = <(u64, u64, u64) as FromNapiValues>::from_napi_values(&mut env, this, &vals)
        .err()
        .expect("position 2 of a 1-element slice must be an error");
    assert_eq!(e.error_code, NapiErrorType::InvalidArg);
}

#[test]
fn composite_type_decodes_three_positions() {
    let mut env = NapiEnv::new();
    let this = node_api::get_global(&mut env).unwrap();
    let mut vals: Vec<NapiValue> = Vec::new();
    for v in [10u64, 20, 30] {
        vals.push(v.into_napi_value(&mut env).unwrap());
    }
    let t = <(u64, u64, u64) as FromNapiValues>::from_napi_values(&mut env, this, &vals).unwrap();
    assert_eq!(t, (10, 20, 30));
}

#[test]
fn number_slots_hold_the_rounded_payload() {
    let mut env = NapiEnv::new();
    let h = 23u64.into_napi_value(&mut env).unwrap();
    match &env.slots[h.ix] {
        HostVal::Number(p) => assert_eq!(*p, 23),
        other => panic!("expected a number slot, found {:?}", other),
    }
}

#[test]
fn unit_converts_to_undefined() {
    let mut env = NapiEnv::new();
    let h = ().into_napi_value(&mut env).unwrap();
    assert!(matches!(env.slots[h.ix], HostVal::Undefined));
}

#[test]
fn sequence_converts_to_an_array_in_order() {
    let mut env = NapiEnv::new();
    let h = vec![10u64, 20, 30].into_napi_value(&mut env).unwrap();
    match &env.slots[h.ix] {
        HostVal::Array(es) => {
            assert_eq!(es.len(), 3);
            for (e, want) in es.iter().zip([10i128, 20, 30]) {
                match &env.slots[e.ix] {
                    HostVal::Number(p) => assert_eq!(*p, want),
                    other => panic!("expected a number slot, found {:?}", other),
                }
            }
        },
        other => panic!("expected an array slot, found {:?}", other),
    }
}

#[test]
fn sequence_conversion_fails_fast_on_a_bad_element() {
    let mut env = NapiEnv::new();
    let vals = vec!["ok".to_string(), "b\u{0}ad".to_string(), "later".to_string()];
    let e = vals
        .into_napi_value(&mut env)
        .err()
        .expect("an element with an interior nul must abort the conversion");
    assert_eq!(e.error_code, NapiErrorType::InvalidArg);
}

#[test]
fn empty_array_creation() {
    let mut env = NapiEnv::new();
    let a = node_api::create_array(&mut env).unwrap();
    match &env.slots[a.ix] {
        HostVal::Array(es) => assert!(es.is_empty()),
        other => panic!("expected an array slot, found {:?}", other),
    }
}
