use shirabe::backend::Backend;
use shirabe::ffi::{
    cache_engine_path, evaluate_status, foreign_engine_id, lib_name, locate_engine_lib,
    navigate_status, screenshot_status, start_status, CacheEnv, Candidate, EngineLibProbes,
};
use shirabe::platform::Platform;

#[test]
fn lib_name_is_platform_appropriate() {
    assert_eq!(lib_name(Platform::Windows, "firefox"), "shirabe_engine_firefox.dll");
    assert_eq!(lib_name(Platform::MacOs, "firefox"), "libshirabe_engine_firefox.dylib");
    assert_eq!(lib_name(Platform::Linux, "firefox"), "libshirabe_engine_firefox.so");
}

fn cand(path: &str, exists: bool) -> Candidate {
    Candidate { path: path.to_string(), exists }
}

#[test]
fn missing_engine_lib_is_a_clean_error() {
    let probes = EngineLibProbes {
        engine_path: None,
        beside_exe: Some(cand("/bin/libshirabe_engine_definitely_no_such_engine.so", false)),
        cached: cand("/c/libshirabe_engine_definitely_no_such_engine.so", false),
        cache_display: "/c".to_string(),
    };
    let err = locate_engine_lib(
        "definitely_no_such_engine",
        "libshirabe_engine_definitely_no_such_engine.so",
        probes,
    )
    .unwrap_err();
    assert_eq!(
        err,
        "no vendor engine lib for `definitely_no_such_engine` found. Set SHIRABE_ENGINE_PATH, drop `libshirabe_engine_definitely_no_such_engine.so` next to the executable, or let shirabe fetch it from a release into /c"
    );
}

#[test]
fn engine_lib_is_found_in_order() {
    let probes = |a: bool, b: bool, c: bool| EngineLibProbes {
        engine_path: Some(cand("/env/lib.so", a)),
        beside_exe: Some(cand("/exe/lib.so", b)),
        cached: cand("/cache/lib.so", c),
        cache_display: "/cache".to_string(),
    };
    assert_eq!(locate_engine_lib("x", "lib.so", probes(true, true, true)), Ok("/env/lib.so".into()));
    assert_eq!(locate_engine_lib("x", "lib.so", probes(false, true, true)), Ok("/exe/lib.so".into()));
    assert_eq!(locate_engine_lib("x", "lib.so", probes(false, false, true)), Ok("/cache/lib.so".into()));
}

#[test]
fn cache_engine_path_per_platform() {
    let env = CacheEnv {
        local_app_data: Some("C:\\Users\\u\\AppData\\Local".into()),
        home: Some("/home/u".into()),
        xdg_cache_home: None,
        temp_dir: "/tmp".into(),
    };
    let p = cache_engine_path(Platform::Linux, &env, "servo");
    assert_eq!(p.root, "/home/u");
    assert_eq!(p.parts, vec![".cache", "shirabe", "engines", "servo"]);
    let p = cache_engine_path(Platform::MacOs, &env, "servo");
    assert_eq!(p.parts, vec!["Library/Caches", "shirabe", "engines", "servo"]);
    let p = cache_engine_path(Platform::Windows, &env, "firefox");
    assert_eq!(p.root, "C:\\Users\\u\\AppData\\Local");
    assert_eq!(p.parts, vec!["shirabe", "engines", "firefox"]);
    let p = cache_engine_path(Platform::Other, &env, "firefox");
    assert_eq!(p.root, "/tmp");
    assert_eq!(p.parts, vec!["shirabe-cache", "shirabe", "engines", "firefox"]);
    let xdg = CacheEnv { xdg_cache_home: Some("/x".into()), ..env };
    let p = cache_engine_path(Platform::OtherUnix, &xdg, "firefox");
    assert_eq!(p.root, "/x");
    assert_eq!(p.parts, vec!["shirabe", "engines", "firefox"]);
}

#[test]
fn cdp_backends_have_no_vendor_lib() {
    assert_eq!(foreign_engine_id(Backend::Servo), Ok("servo"));
    assert_eq!(
        foreign_engine_id(Backend::Edge),
        Err("backend edge is CDP-driven in-process; it has no foreign engine lib".to_string())
    );
}

#[test]
fn vendor_status_codes() {
    assert_eq!(navigate_status(0), Ok(()));
    assert_eq!(navigate_status(-22), Err("vendor navigate failed (code -22)".to_string()));
    assert_eq!(
        navigate_status(i32::MIN),
        Err("vendor navigate failed (code -2147483648)".to_string())
    );
    assert_eq!(screenshot_status(0, false), Ok(()));
    assert_eq!(screenshot_status(0, true), Err("vendor screenshot failed (code 0)".to_string()));
    assert_eq!(screenshot_status(137, false), Err("vendor screenshot failed (code 137)".to_string()));
    assert_eq!(evaluate_status(true), Err("vendor evaluate returned null".to_string()));
    assert_eq!(evaluate_status(false), Ok(()));
    assert_eq!(start_status("servo", true), Err("vendor engine servo refused to start".to_string()));
    assert_eq!(start_status("servo", false), Ok(()));
}
