use node_api::{
    get_last_error_info, napi_either, simulate_host_failure, module_register, NapiEnv, NapiErrorType,
    NapiModule, NAPI_OK,
};

fn kind_of_simulated(status: u32) -> NapiErrorType {
    let mut env = NapiEnv::new();
    let s = simulate_host_failure(&mut env, status, "boom", 7);
    let r: Result<i32, _> = napi_either(&env, s, 5);
    let e = r.err().expect("a non-ok status must bridge to an error");
    assert_eq!(e.error_message, "boom");
    assert_eq!(e.engine_error_code, 7);
    e.error_code
}

#[test]
fn bridge_passes_value_through_on_ok() {
    let env = NapiEnv::new();
    let r: Result<i32, _> = napi_either(&env, NAPI_OK, 5);
    assert_eq!(r.unwrap(), 5);
}

#[test]
fn bridge_maps_every_known_status_to_its_kind() {
    assert_eq!(kind_of_simulated(1), NapiErrorType::InvalidArg);
    assert_eq!(kind_of_simulated(2), NapiErrorType::ObjectExpected);
    assert_eq!(kind_of_simulated(3), NapiErrorType::StringExpected);
    assert_eq!(kind_of_simulated(4), NapiErrorType::NameExpected);
    assert_eq!(kind_of_simulated(5), NapiErrorType::FunctionExpected);
    assert_eq!(kind_of_simulated(6), NapiErrorType::NumberExpected);
    assert_eq!(kind_of_simulated(7), NapiErrorType::BooleanExpected);
    assert_eq!(kind_of_simulated(8), NapiErrorType::ArrayExpected);
    assert_eq!(kind_of_simulated(9), NapiErrorType::GenericFailure);
    assert_eq!(kind_of_simulated(10), NapiErrorType::PendingException);
    assert_eq!(kind_of_simulated(11), NapiErrorType::Cancelled);
}

#[test]
fn bridge_maps_unknown_status_to_generic_failure() {
    // the raw enumeration's closing sentinel names no failure kind
    assert_eq!(kind_of_simulated(12), NapiErrorType::GenericFailure);
    assert_eq!(kind_of_simulated(13), NapiErrorType::GenericFailure);
    assert_eq!(kind_of_simulated(99), NapiErrorType::GenericFailure);
    assert_eq!(kind_of_simulated(u32::MAX), NapiErrorType::GenericFailure);
}

#[test]
fn last_error_info_reads_the_error_slot() {
    let mut env = NapiEnv::new();
    simulate_host_failure(&mut env, 6, "not a number", 41);
    let e = get_last_error_info(&env);
    assert_eq!(e.error_message, "not a number");
    assert_eq!(e.engine_error_code, 41);
    assert_eq!(e.error_code, NapiErrorType::NumberExpected);
}

#[test]
fn module_register_accepts_clean_names() {
    let m = NapiModule {
        version: 1,
        flags: 0,
        filename: "demo.node".to_string(),
        modname: "demo".to_string(),
    };
    assert!(module_register(&m).is_ok());
}

#[test]
fn module_register_rejects_interior_nul() {
    let m = NapiModule {
        version: 1,
        flags: 0,
        filename: "demo\u{0}node".to_string(),
        modname: "demo".to_string(),
    };
    let e = module_register(&m).err().expect("a nul byte in the file name must be rejected");
    assert_eq!(e.error_code, NapiErrorType::InvalidArg);

    let m2 = NapiModule {
        version: 1,
        flags: 0,
        filename: "demo.node".to_string(),
        modname: "de\u{0}mo".to_string(),
    };
    let e2 = module_register(&m2).err().expect("a nul byte in the module name must be rejected");
    assert_eq!(e2.error_code, NapiErrorType::InvalidArg);
}
