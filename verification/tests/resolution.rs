use shirabe::backend::Backend;
use shirabe::resolution::{resolve_executable, Answer, Probe, ResolveError, Resolver};

/// Drives a resolution with fixed answers: `vars` are the set variables,
/// `existing` the existing paths, `first` the first executable per backend,
/// `fetched` the fetch outcome. Returns the outcome and the probes asked.
fn drive(
    selected: Backend,
    baked: Option<&str>,
    vars: &[(&str, &str)],
    existing: &[&str],
    first: &[(Backend, &str)],
    fetched: Result<&str, &str>,
) -> (Result<(Backend, String), ResolveError>, Vec<String>) {
    let mut r = Resolver::start(selected, baked.map(|s| s.to_string()));
    let mut asked = Vec::new();
    for _ in 0..32 {
        match r.probe() {
            Probe::Done(out) => return (out, asked),
            Probe::ReadVar(v) => {
                asked.push(format!("var {v}"));
                let val = vars.iter().find(|(k, _)| *k == v).map(|(_, x)| x.to_string());
                r.step(Answer::Var(val));
            }
            Probe::PathExists(p) => {
                asked.push(format!("exists {p}"));
                r.step(Answer::Exists(existing.contains(&p.as_str())));
            }
            Probe::FirstCandidate(b) => {
                asked.push(format!("scan {}", b.label()));
                let hit = first.iter().find(|(x, _)| *x == b).map(|(_, p)| p.to_string());
                r.step(Answer::Candidate(hit));
            }
            Probe::Fetch => {
                asked.push("fetch".to_string());
                r.step(Answer::Fetched(
                    fetched.map(|s| s.to_string()).map_err(|e| e.to_string()),
                ));
            }
        }
    }
    panic!("resolution did not finish");
}

#[test]
fn foreign_backends_defer_to_ffi_layer() {
    let (out, asked) = drive(Backend::Firefox, None, &[], &[], &[], Ok("/x"));
    assert!(asked.is_empty());
    let err = resolve_executable(out).unwrap_err();
    assert!(err.contains("FFI"), "unexpected error: {err}");
    assert_eq!(
        err,
        "backend `firefox` is driven through the FFI engine contract, not as a spawned executable. Open it via shirabe::ffi::CdylibEngine::open; the vendor lib `libshirabe_engine_firefox` is resolved separately."
    );
    let (out, _) = drive(Backend::Servo, None, &[], &[], &[], Ok("/x"));
    assert!(matches!(out, Err(ResolveError::Foreign { backend: Backend::Servo })));
}

#[test]
fn existing_override_wins() {
    let (out, asked) = drive(
        Backend::Auto,
        Some("/baked/chrome"),
        &[("CHROME_PATH", "/opt/chrome")],
        &["/opt/chrome", "/baked/chrome"],
        &[(Backend::Chrome, "/usr/bin/google-chrome")],
        Ok("/fetched"),
    );
    assert_eq!(resolve_executable(out), Ok("/opt/chrome".to_string()));
    assert_eq!(asked, vec!["var CHROME_PATH", "exists /opt/chrome"]);
}

#[test]
fn missing_override_is_a_hard_error() {
    let (out, _) = drive(
        Backend::Chromium,
        None,
        &[("CHROMIUM_PATH", "/nope \"x\"")],
        &[],
        &[(Backend::Chromium, "/usr/bin/chromium")],
        Ok("/fetched"),
    );
    let err = resolve_executable(out).unwrap_err();
    assert_eq!(err, "CHROMIUM_PATH is set to \"/nope \\\"x\\\"\" but it does not exist");
}

#[test]
fn empty_override_is_ignored() {
    let (out, _) = drive(
        Backend::Edge,
        None,
        &[("EDGE_PATH", "")],
        &[],
        &[(Backend::Edge, "/usr/bin/microsoft-edge")],
        Ok("/fetched"),
    );
    match out {
        Ok((b, p)) => {
            assert_eq!(b, Backend::Edge);
            assert_eq!(p, "/usr/bin/microsoft-edge");
        }
        Err(e) => panic!("{}", e.message()),
    }
}

#[test]
fn baked_path_beats_system_chrome() {
    let (out, asked) = drive(
        Backend::Chrome,
        Some("/baked/chrome"),
        &[],
        &["/baked/chrome"],
        &[(Backend::Chrome, "/usr/bin/google-chrome")],
        Ok("/fetched"),
    );
    assert_eq!(resolve_executable(out), Ok("/baked/chrome".to_string()));
    assert_eq!(asked, vec!["var CHROME_PATH", "exists /baked/chrome"]);
}

#[test]
fn auto_falls_through_to_later_backends() {
    let (out, asked) = drive(
        Backend::Auto,
        Some(""),
        &[],
        &[],
        &[(Backend::Edge, "/usr/bin/microsoft-edge")],
        Ok("/fetched"),
    );
    match out {
        Ok((b, p)) => {
            assert_eq!(b, Backend::Edge);
            assert_eq!(p, "/usr/bin/microsoft-edge");
        }
        Err(e) => panic!("{}", e.message()),
    }
    assert_eq!(
        asked,
        vec![
            "var CHROME_PATH",
            "scan chrome",
            "var CHROMIUM_PATH",
            "scan chromium",
            "var EDGE_PATH",
            "scan edge"
        ]
    );
}

#[test]
fn runtime_fetch_resolves_as_chrome() {
    let (out, _) = drive(Backend::Edge, None, &[], &[], &[], Ok("/cache/chrome"));
    match out {
        Ok((b, p)) => {
            assert_eq!(b, Backend::Chrome);
            assert_eq!(p, "/cache/chrome");
        }
        Err(e) => panic!("{}", e.message()),
    }
    let (out, _) = drive(Backend::Auto, None, &[], &[], &[], Err("download failed"));
    assert_eq!(resolve_executable(out), Err("download failed".to_string()));
}

#[test]
fn wrong_answer_leaves_resolution_in_place() {
    let mut r = Resolver::start(Backend::Chrome, None);
    r.step(Answer::Exists(true));
    assert!(matches!(r.probe(), Probe::ReadVar("CHROME_PATH")));
}

#[test]
fn resolver_module_passes_fetch_through() {
    assert_eq!(
        shirabe::resolver::resolve_executable(Ok("/c".to_string())),
        Ok("/c".to_string())
    );
    assert_eq!(
        shirabe::resolver::resolve_executable(Err("e".to_string())),
        Err("e".to_string())
    );
}
