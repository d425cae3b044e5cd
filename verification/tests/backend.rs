use shirabe::backend::{system_try_names, well_known_locations, Backend, CandidateProbe};
use shirabe::platform::Platform;

#[test]
fn auto_expands_to_preference_order() {
    assert_eq!(
        Backend::Auto.order(),
        &[Backend::Chrome, Backend::Chromium, Backend::Edge]
    );
    assert_eq!(Backend::Edge.order(), &[Backend::Edge]);
}

#[test]
fn env_overrides_match_backend() {
    assert_eq!(Backend::Chrome.env_overrides(), &["CHROME_PATH"]);
    assert_eq!(Backend::Chromium.env_overrides(), &["CHROMIUM_PATH"]);
    assert_eq!(Backend::Edge.env_overrides(), &["EDGE_PATH"]);
    assert!(Backend::Auto.env_overrides().is_empty());
}

#[test]
fn from_env_parses_known_values() {
    for (raw, expected) in [
        ("chrome", Backend::Chrome),
        ("  Chromium ", Backend::Chromium),
        ("EDGE", Backend::Edge),
        ("firefox", Backend::Firefox),
        ("SERVO", Backend::Servo),
        ("unknown", Backend::Auto),
    ] {
        assert_eq!(Backend::from_env_value(Some(raw)), expected, "raw = {raw:?}");
    }
}

#[test]
fn unset_backend_variable_selects_auto() {
    assert_eq!(Backend::from_env_value(None), Backend::Auto);
    assert_eq!(Backend::from_env_value(Some("")), Backend::Auto);
    assert_eq!(Backend::from_env_value(Some("\t AUTO \n")), Backend::Auto);
    assert_eq!(Backend::from_env_value(Some("chrome-beta")), Backend::Auto);
}

#[test]
fn every_label_selects_its_backend() {
    for b in [
        Backend::Chrome,
        Backend::Chromium,
        Backend::Edge,
        Backend::Firefox,
        Backend::Servo,
        Backend::Auto,
    ] {
        assert_eq!(Backend::from_env_value(Some(b.label())), b);
    }
}

#[test]
fn labels_and_engine_ids() {
    assert_eq!(Backend::Chrome.label(), "chrome");
    assert_eq!(Backend::Auto.label(), "auto");
    assert_eq!(Backend::Firefox.engine_id(), Some("firefox"));
    assert_eq!(Backend::Servo.engine_id(), Some("servo"));
    assert!(Backend::Chrome.engine_id().is_none());
    assert!(Backend::Auto.engine_id().is_none());
    assert!(Backend::Edge.is_cdp());
    assert!(!Backend::Firefox.is_cdp());
    assert!(!Backend::Auto.is_cdp());
}

#[test]
fn foreign_backends_are_never_tried_implicitly() {
    assert!(!Backend::Auto.order().contains(&Backend::Firefox));
    assert!(!Backend::Auto.order().contains(&Backend::Servo));
    assert_eq!(Backend::Firefox.order(), &[Backend::Firefox]);
}

#[test]
fn windows_tries_exe_names_first() {
    let names = system_try_names(Platform::Windows, Backend::Edge);
    assert_eq!(
        names,
        vec![
            "microsoft-edge.exe",
            "microsoft-edge-stable.exe",
            "microsoft-edge",
            "microsoft-edge-stable"
        ]
    );
    let names = system_try_names(Platform::Linux, Backend::Chromium);
    assert_eq!(names, vec!["chromium", "chromium-browser"]);
}

#[test]
fn candidates_only_for_cdp_backends() {
    let plan = Backend::Firefox.candidates(Platform::Linux);
    assert!(plan.names.is_empty());
    assert!(plan.locations.is_empty());
    let plan = Backend::Auto.candidates(Platform::Linux);
    assert!(plan.names.is_empty());
    let plan = Backend::Chrome.candidates(Platform::Linux);
    assert_eq!(
        plan.names,
        vec![
            "google-chrome",
            "google-chrome-stable",
            "chrome",
            "chromium-browser",
            "chromium"
        ]
    );
    assert_eq!(
        plan.locations,
        vec![
            "/usr/bin/google-chrome",
            "/usr/bin/google-chrome-stable",
            "/snap/bin/chromium"
        ]
    );
}

#[test]
fn well_known_locations_per_platform() {
    assert_eq!(
        well_known_locations(Platform::MacOs, Backend::Edge),
        vec!["/Applications/Microsoft Edge.app/Contents/MacOS/Microsoft Edge"]
    );
    assert_eq!(
        well_known_locations(Platform::Windows, Backend::Auto),
        vec![
            r"C:\Program Files\Google\Chrome\Application\chrome.exe",
            r"C:\Program Files (x86)\Google\Chrome\Application\chrome.exe"
        ]
    );
    assert_eq!(
        well_known_locations(Platform::OtherUnix, Backend::Chromium),
        vec!["/usr/bin/chromium", "/usr/bin/chromium-browser", "/snap/bin/chromium"]
    );
}

fn describe(p: &CandidateProbe) -> String {
    match p {
        CandidateProbe::InDir(d, n) => format!("{d}:{n}"),
        CandidateProbe::At(l) => l.to_string(),
    }
}

#[test]
fn candidate_probes_go_directory_by_directory() {
    let probes: Vec<String> = Backend::Edge
        .candidate_probes(Platform::Linux, 2)
        .iter()
        .map(describe)
        .collect();
    assert_eq!(
        probes,
        vec![
            "0:microsoft-edge",
            "0:microsoft-edge-stable",
            "1:microsoft-edge",
            "1:microsoft-edge-stable",
            "/usr/bin/microsoft-edge",
            "/usr/bin/microsoft-edge-stable"
        ]
    );
    let probes: Vec<String> = Backend::Chromium
        .candidate_probes(Platform::MacOs, 0)
        .iter()
        .map(describe)
        .collect();
    assert_eq!(probes, vec!["/Applications/Chromium.app/Contents/MacOS/Chromium"]);
    assert!(Backend::Servo.candidate_probes(Platform::Linux, 3).is_empty());
}
