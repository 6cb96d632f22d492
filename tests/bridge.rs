use rest_api_lib::error::{ApiError, Field};
use rest_api_lib::handlers::{classify_load, get_app, get_apps, load_app, load_app_now, unload_app};
use rest_api_lib::lifecycle::{Lifecycle, ServiceState};
use rest_api_lib::registry::{JrtcAppState, Registry};
use rest_api_lib::request::{marshal, JrtcAppLoadRequest, KeyValuePair, MAX_ENTRIES};
use rest_api_lib::text::{contains_nul, expand_vars};

fn kv(k: &str, v: &str) -> KeyValuePair {
    KeyValuePair { key: k.to_string(), val: v.to_string() }
}

fn request(name: &str) -> JrtcAppLoadRequest {
    JrtcAppLoadRequest {
        app: vec![1, 2, 3, 4],
        app_name: name.to_string(),
        runtime_us: 100,
        deadline_us: 200,
        period_us: 300,
        ioq_size: 16,
        app_path: "/opt/app.so".to_string(),
        app_type: "c".to_string(),
        app_params: vec![kv("k", "v")],
        device_mapping: vec![kv("dev", "$HOME")],
        app_modules: vec!["m1".to_string()],
    }
}

fn home_env() -> Vec<KeyValuePair> {
    vec![kv("HOME", "/root")]
}

fn expand(s: &str, env: &Vec<KeyValuePair>) -> String {
    expand_vars(&s.to_string(), env)
}

#[test]
fn expand_bare_variable() {
    assert_eq!(expand("$HOME/x", &home_env()), "/root/x");
}

#[test]
fn expand_missing_braced_variable_is_dropped() {
    assert_eq!(expand("${MISSING}", &home_env()), "");
}

#[test]
fn expand_trailing_dollar_is_kept() {
    assert_eq!(expand("$", &home_env()), "$");
    assert_eq!(expand("a$", &home_env()), "a$");
}

#[test]
fn expand_braced_variable() {
    assert_eq!(expand("${HOME}dir", &home_env()), "/rootdir");
}

#[test]
fn expand_unclosed_brace_is_kept() {
    assert_eq!(expand("${HOME", &home_env()), "${HOME");
    assert_eq!(expand("x${ab-c}", &home_env()), "x${ab-c}");
}

#[test]
fn expand_is_not_recursive() {
    let env = vec![kv("A", "$B"), kv("B", "no")];
    assert_eq!(expand("$A", &env), "$B");
}

#[test]
fn expand_first_binding_wins() {
    let env = vec![kv("A", "one"), kv("A", "two")];
    assert_eq!(expand("[$A]", &env), "[one]");
}

#[test]
fn expand_missing_bare_variable_is_dropped() {
    assert_eq!(expand("a$NOPE/b", &home_env()), "a/b");
}

#[test]
fn contains_nul_detects_embedded_nul() {
    assert!(contains_nul(&"a\0b".to_string()));
    assert!(!contains_nul(&"ab".to_string()));
    assert!(!contains_nul(&String::new()));
}

#[test]
fn marshal_copies_fields_and_expands_params() {
    let mut r = request("app");
    r.app_params = vec![kv("path", "$HOME/x"), kv("gone", "${MISSING}"), kv("lit", "$")];
    let d = marshal(&r, &home_env()).ok().unwrap();
    assert_eq!(d.app_size, 4);
    assert_eq!(d.app_name, "app");
    assert_eq!(d.runtime_us, 100);
    assert_eq!(d.deadline_us, 200);
    assert_eq!(d.period_us, 300);
    assert_eq!(d.ioq_size, 16);
    assert_eq!(d.app_path, "/opt/app.so");
    assert_eq!(d.app_type, "c");
    assert_eq!(d.app_params.len(), 3);
    assert_eq!(d.app_params[0].key, "path");
    assert_eq!(d.app_params[0].val, "/root/x");
    assert_eq!(d.app_params[1].val, "");
    assert_eq!(d.app_params[2].val, "$");
    assert_eq!(d.device_mapping[0].val, "$HOME");
    assert_eq!(d.app_modules, vec!["m1".to_string()]);
}

#[test]
fn marshal_refuses_nul_in_each_field() {
    let env = home_env();
    let mut r = request("a\0b");
    assert_eq!(marshal(&r, &env).err(), Some(ApiError::MalformedField(Field::AppName)));
    r = request("app");
    r.app_path = "\0".to_string();
    assert_eq!(marshal(&r, &env).err(), Some(ApiError::MalformedField(Field::AppPath)));
    r = request("app");
    r.app_type = "x\0".to_string();
    assert_eq!(marshal(&r, &env).err(), Some(ApiError::MalformedField(Field::AppType)));
    r = request("app");
    r.app_params.push(kv("k\0", "v"));
    assert_eq!(marshal(&r, &env).err(), Some(ApiError::MalformedField(Field::AppParams)));
    r = request("app");
    r.device_mapping.push(kv("k", "v\0"));
    assert_eq!(marshal(&r, &env).err(), Some(ApiError::MalformedField(Field::DeviceMapping)));
    r = request("app");
    r.app_modules.push("\0".to_string());
    assert_eq!(marshal(&r, &env).err(), Some(ApiError::MalformedField(Field::AppModules)));
}

#[test]
fn marshal_refusal_reaches_no_native_call() {
    let mut calls = 0;
    let r = request("bad\0name");
    let mut reg = Registry::new();
    if let Ok(_) = marshal(&r, &home_env()) {
        calls += 1;
        let _ = load_app(&mut reg, r, Some(1), "t".to_string());
    }
    assert_eq!(calls, 0);
    assert_eq!(reg.len(), 0);
}

#[test]
fn marshal_truncates_collections() {
    let mut r = request("app");
    r.app_params = (0..300).map(|i| kv(&format!("k{}", i), "v")).collect();
    r.device_mapping = (0..256).map(|i| kv(&format!("d{}", i), "v")).collect();
    r.app_modules = (0..1000).map(|i| format!("m{}", i)).collect();
    let d = marshal(&r, &home_env()).ok().unwrap();
    assert_eq!(MAX_ENTRIES, 255);
    assert_eq!(d.app_params.len(), 255);
    assert_eq!(d.device_mapping.len(), 255);
    assert_eq!(d.app_modules.len(), 255);
    assert_eq!(d.app_params[254].key, "k254");
    assert_eq!(d.device_mapping[0].key, "d0");
    assert_eq!(d.app_modules[254], "m254");
}

#[test]
fn marshal_keeps_exactly_capacity_entries() {
    let mut r = request("app");
    r.app_modules = (0..255).map(|i| format!("m{}", i)).collect();
    let d = marshal(&r, &home_env()).ok().unwrap();
    assert_eq!(d.app_modules.len(), 255);
}

#[test]
fn marshal_handles_empty_collections() {
    let mut r = request("");
    r.app = vec![];
    r.app_params = vec![];
    r.device_mapping = vec![];
    r.app_modules = vec![];
    let d = marshal(&r, &vec![]).ok().unwrap();
    assert_eq!(d.app_size, 0);
    assert_eq!(d.app_name, "");
    assert!(d.app_params.is_empty());
    assert!(d.device_mapping.is_empty());
    assert!(d.app_modules.is_empty());
}

#[test]
fn classify_load_codes() {
    assert_eq!(classify_load(None), Err(ApiError::CallbackMissing));
    assert_eq!(classify_load(Some(-1)), Err(ApiError::NativeRejected));
    assert_eq!(classify_load(Some(-2)), Err(ApiError::NativeFault));
    assert_eq!(classify_load(Some(i32::MIN)), Err(ApiError::NativeFault));
    assert_eq!(classify_load(Some(0)), Ok(0));
    assert_eq!(classify_load(Some(i32::MAX)), Ok(i32::MAX));
}

#[test]
fn error_status_codes() {
    assert_eq!(ApiError::MalformedField(Field::AppName).status(), 400);
    assert_eq!(ApiError::NativeRejected.status(), 400);
    assert_eq!(ApiError::NativeFault.status(), 500);
    assert_eq!(ApiError::CallbackMissing.status(), 500);
    assert_eq!(ApiError::NotFound(3).status(), 404);
    assert_eq!(Field::DeviceMapping.name(), "device_mapping");
    assert_eq!(Field::AppName.name(), "app_name");
}

#[test]
fn load_then_get_returns_record() {
    let mut reg = Registry::new();
    let r = load_app_now(&mut reg, request("first"), Some(7));
    assert_eq!(r, Ok(7));
    let e: &JrtcAppState = get_app(&reg, 7).ok().unwrap();
    assert_eq!(e.id, 7);
    assert_eq!(e.request.app_name, "first");
    assert_eq!(e.request.app, vec![1, 2, 3, 4]);
    assert_eq!(e.request.period_us, 300);
    assert!(!e.start_time.is_empty());
    assert!(e.start_time.contains('T'));
}

#[test]
fn load_failures_leave_registry_unchanged() {
    let mut reg = Registry::new();
    assert_eq!(load_app(&mut reg, request("a"), None, "t".to_string()), Err(ApiError::CallbackMissing));
    assert_eq!(load_app(&mut reg, request("a"), Some(-1), "t".to_string()), Err(ApiError::NativeRejected));
    assert_eq!(load_app(&mut reg, request("a"), Some(-5), "t".to_string()), Err(ApiError::NativeFault));
    assert_eq!(reg.len(), 0);
    assert!(get_apps(&reg).is_empty());
}

#[test]
fn load_records_given_timestamp() {
    let mut reg = Registry::new();
    assert_eq!(load_app(&mut reg, request("a"), Some(0), "2024-01-01T00:00:00+00:00".to_string()), Ok(0));
    assert_eq!(get_app(&reg, 0).ok().unwrap().start_time, "2024-01-01T00:00:00+00:00");
}

#[test]
fn get_missing_is_not_found() {
    let reg = Registry::new();
    assert_eq!(get_app(&reg, 42).err(), Some(ApiError::NotFound(42)));
}

#[test]
fn list_keeps_insertion_order() {
    let mut reg = Registry::new();
    for id in [5, 1, 3] {
        assert_eq!(load_app(&mut reg, request("w"), Some(id), "t".to_string()), Ok(id));
    }
    let ids: Vec<i32> = get_apps(&reg).iter().map(|e| e.id).collect();
    assert_eq!(ids, vec![5, 1, 3]);
}

#[test]
fn unload_already_absent_is_success() {
    let mut reg = Registry::new();
    assert_eq!(unload_app(&mut reg, 9, Some(-1)), Ok(()));
    assert_eq!(load_app(&mut reg, request("w"), Some(9), "t".to_string()), Ok(9));
    assert_eq!(unload_app(&mut reg, 9, Some(-1)), Ok(()));
    assert_eq!(reg.len(), 1);
}

#[test]
fn unload_twice_with_native_absent_both_succeed() {
    let mut reg = Registry::new();
    assert_eq!(load_app(&mut reg, request("w"), Some(4), "t".to_string()), Ok(4));
    assert_eq!(unload_app(&mut reg, 4, Some(-1)), Ok(()));
    assert_eq!(unload_app(&mut reg, 4, Some(-1)), Ok(()));
}

#[test]
fn unload_twice_with_native_success_then_not_found() {
    let mut reg = Registry::new();
    assert_eq!(load_app(&mut reg, request("w"), Some(4), "t".to_string()), Ok(4));
    assert_eq!(unload_app(&mut reg, 4, Some(0)), Ok(()));
    assert_eq!(unload_app(&mut reg, 4, Some(0)), Err(ApiError::NotFound(4)));
    assert_eq!(reg.len(), 0);
}

#[test]
fn unload_errors() {
    let mut reg = Registry::new();
    assert_eq!(load_app(&mut reg, request("w"), Some(2), "t".to_string()), Ok(2));
    assert_eq!(unload_app(&mut reg, 2, None), Err(ApiError::CallbackMissing));
    assert_eq!(unload_app(&mut reg, 2, Some(-2)), Err(ApiError::NativeFault));
    assert_eq!(reg.len(), 1);
}

#[test]
fn unload_removes_only_matching_entry() {
    let mut reg = Registry::new();
    for id in [1, 2, 3] {
        assert_eq!(load_app(&mut reg, request("w"), Some(id), "t".to_string()), Ok(id));
    }
    assert_eq!(unload_app(&mut reg, 2, Some(0)), Ok(()));
    let ids: Vec<i32> = get_apps(&reg).iter().map(|e| e.id).collect();
    assert_eq!(ids, vec![1, 3]);
}

#[test]
fn many_distinct_loads_all_recorded() {
    let mut reg = Registry::new();
    for id in 0..50 {
        assert_eq!(load_app_now(&mut reg, request("w"), Some(id)), Ok(id));
    }
    assert_eq!(reg.len(), 50);
    let mut ids: Vec<i32> = get_apps(&reg).iter().map(|e| e.id).collect();
    ids.sort();
    ids.dedup();
    assert_eq!(ids.len(), 50);
}

#[test]
fn lifecycle_start_and_stop() {
    let mut l = Lifecycle::new();
    assert_eq!(l.state(), ServiceState::Created);
    assert!(!l.accepts_requests());
    assert!(!l.start(true, false));
    assert!(!l.start(false, true));
    assert_eq!(l.state(), ServiceState::Created);
    assert!(l.start(true, true));
    assert!(l.accepts_requests());
    assert!(!l.start(true, true));
    l.stop();
    assert_eq!(l.state(), ServiceState::Stopped);
    assert!(!l.accepts_requests());
    assert!(!l.start(true, true));
}

#[test]
fn lifecycle_stop_without_start() {
    let mut l = Lifecycle::new();
    l.stop();
    assert_eq!(l.state(), ServiceState::Stopped);
    assert!(!l.start(true, true));
}
