use shirabe::bundle::{
    collect_runtime_deps, parse_ldd, parse_manifest, parse_otool, render, scan_pe_imports,
    BundleReport, BundleSpec, Dep, NativeLib, ScanOutput,
};
use shirabe::platform::Platform;

#[test]
fn manifest_parses_lib_tables() {
    let toml = r#"
[[lib]]
path = "libfoo.so"
optional = true
target_os = "linux"

[[lib]]
path = "foo.dll"
"#;
    let libs = parse_manifest(toml);
    assert_eq!(libs.len(), 2);
    assert_eq!(libs[0].path, "libfoo.so");
    assert!(libs[0].optional);
    assert_eq!(libs[0].target_os.as_deref(), Some("linux"));
    assert_eq!(libs[1].path, "foo.dll");
    assert!(!libs[1].optional);
}

#[test]
fn manifest_quirks() {
    // Keys before the first table are ignored; single quotes are stripped;
    // `optional` is true only for `true`; a table without a path is dropped,
    // wherever it stands.
    let text = "path = \"ignored\"\r\n[[lib]]\r\noptional = yes\r\n[[lib]]\npath='a b'\n  unknown = 1\n[[lib]]\noptional = true\n";
    let libs = parse_manifest(text);
    assert_eq!(libs.len(), 1);
    assert_eq!(libs[0].path, "a b");
    assert!(!libs[0].optional);
    assert_eq!(libs[0].target_os, None);
    assert!(parse_manifest("").is_empty());
}

#[test]
fn manifest_table_without_path_is_dropped() {
    let libs = parse_manifest("[[lib]]\noptional = true\n[[lib]]\npath = \"a.so\"\n");
    assert_eq!(
        libs,
        vec![NativeLib { path: "a.so".to_string(), optional: false, target_os: None }]
    );
}

#[test]
fn manifest_last_assignment_wins() {
    let libs = parse_manifest("[[lib]]\npath = \"a.so\"\npath = \"b.so\"\ntarget_os = \"\"\n");
    assert_eq!(libs.len(), 1);
    assert_eq!(libs[0].path, "b.so");
    assert_eq!(libs[0].target_os.as_deref(), Some(""));
}

#[test]
fn bundle_merges_env_list_and_manifest() {
    let spec = BundleSpec::from_sources(
        Platform::Linux,
        Some(" /opt/a.so::/opt/b.so "),
        Some("[[lib]]\npath = \"c.so\"\ntarget_os = \"linux\"\n"),
    );
    let paths: Vec<&str> = spec.libs.iter().map(|l| l.path.as_str()).collect();
    assert_eq!(paths, vec!["/opt/a.so", "/opt/b.so", "c.so"]);
    assert!(!spec.libs[0].optional);
    assert_eq!(spec.libs[2].target_os.as_deref(), Some("linux"));

    let spec = BundleSpec::from_sources(Platform::Windows, Some("C:\\a.dll;C:\\b.dll"), None);
    let paths: Vec<&str> = spec.libs.iter().map(|l| l.path.as_str()).collect();
    assert_eq!(paths, vec!["C:\\a.dll", "C:\\b.dll"]);

    let spec = BundleSpec::from_sources(Platform::MacOs, None, None);
    assert!(spec.libs.is_empty());
}

#[test]
fn render_handles_empty_report() {
    let report = BundleReport::default();
    let text = render(&report, &Vec::new());
    assert!(text.contains("nothing to bundle"));
    assert_eq!(
        text,
        "# shirabe native-library bundle report\n\n(nothing to bundle)\n"
    );
}

#[test]
fn render_lists_declared_and_discovered() {
    let report = BundleReport {
        declared: vec![
            NativeLib { path: "a.so".into(), optional: false, target_os: None },
            NativeLib { path: "b.so".into(), optional: true, target_os: Some("linux".into()) },
            NativeLib { path: "c.so".into(), optional: false, target_os: None },
        ],
        discovered: vec![
            Dep { name: "libnss3.so".into(), resolved: Some("/usr/lib/libnss3.so".into()) },
            Dep { name: "libx.so".into(), resolved: None },
        ],
    };
    let text = render(&report, &vec![true, false, false]);
    assert_eq!(
        text,
        "# shirabe native-library bundle report\n\n\
## Declared libraries (ship these next to your product)\n\
- a.so [all] ok\n\
- b.so [linux] missing (optional, ignored)\n\
- c.so [all] MISSING\n\
\n\
## Backend runtime dependencies (copy resolved paths)\n\
- libnss3.so  → /usr/lib/libnss3.so\n\
- libx.so  → (unresolved — install on the target)\n"
    );
}

#[test]
fn ldd_parser_handles_arrow_form() {
    let stdout = "\tlibnss3.so => /usr/lib/x86_64-linux-gnu/libnss3.so (0x00007f123)\n\tlinux-vdso.so.1 =>  (0x000)\n";
    let deps = parse_ldd(stdout);
    assert_eq!(deps.len(), 2);
    assert_eq!(deps[0].name, "libnss3.so");
    assert_eq!(
        deps[0].resolved.as_deref().unwrap(),
        "/usr/lib/x86_64-linux-gnu/libnss3.so"
    );
    assert!(deps[1].resolved.is_none());
}

#[test]
fn ldd_not_found_is_unresolved() {
    let deps = parse_ldd("\tlibfoo.so.1 => not found\n");
    assert_eq!(
        deps,
        vec![Dep { name: "libfoo.so.1".to_string(), resolved: None }]
    );
}

#[test]
fn ldd_parser_handles_bare_form() {
    let deps = parse_ldd("\t/lib64/ld-linux-x86-64.so.2 (0x00007f)\n\n   \n\tlibm.so.6 => /lib/libm.so.6\n");
    assert_eq!(deps.len(), 2);
    assert_eq!(deps[0].name, "/lib64/ld-linux-x86-64.so.2");
    assert!(deps[0].resolved.is_none());
    assert_eq!(deps[1].name, "libm.so.6");
    assert_eq!(deps[1].resolved.as_deref(), Some("/lib/libm.so.6"));
}

#[test]
fn otool_parser_skips_first_line() {
    let out = "/Applications/X.app/X:\n\t@rpath/Foo.framework/Foo (compatibility version 1.0.0)\n\t/usr/lib/libSystem.B.dylib (compatibility version 1.0.0)\n\tlibrel.dylib (x)\n\tno parenthesis\n";
    let deps = parse_otool(out);
    assert_eq!(deps.len(), 3);
    assert_eq!(deps[0].name, "Foo");
    assert_eq!(deps[0].resolved.as_deref(), Some("@rpath/Foo.framework/Foo"));
    assert_eq!(deps[1].name, "libSystem.B.dylib");
    assert_eq!(deps[1].resolved.as_deref(), Some("/usr/lib/libSystem.B.dylib"));
    assert_eq!(deps[2].name, "librel.dylib");
    assert!(deps[2].resolved.is_none());
}

#[test]
fn pe_scan_finds_each_dll_once() {
    let mut bytes = b"\x00\x01KERNEL32.DLL\x00junk user32.dll\x00kernel32.dll\x00.dll x.DlL".to_vec();
    bytes.extend_from_slice(b"\xffmsvcrt.dll");
    let deps = scan_pe_imports(&bytes);
    let names: Vec<&str> = deps.iter().map(|d| d.name.as_str()).collect();
    assert_eq!(names, vec!["kernel32.dll", "user32.dll", "x.dll", "msvcrt.dll"]);
    assert!(deps.iter().all(|d| d.resolved.is_none()));
    assert!(scan_pe_imports(b"a.dl").is_empty());
}

#[test]
fn collect_runtime_deps_dispatches_on_scan() {
    assert!(collect_runtime_deps(&ScanOutput::Unavailable).is_empty());
    let deps = collect_runtime_deps(&ScanOutput::Ldd("libz.so.1 => /lib/libz.so.1 (0x1)\n".into()));
    assert_eq!(deps[0].name, "libz.so.1");
    let deps = collect_runtime_deps(&ScanOutput::PeImage(b"zlib1.dll".to_vec()));
    assert_eq!(deps[0].name, "zlib1.dll");
    let deps = collect_runtime_deps(&ScanOutput::Otool("x:\n\t/usr/lib/libc.dylib (c)\n".into()));
    assert_eq!(deps[0].name, "libc.dylib");
}

#[test]
fn report_build_merges_spec_and_scan() {
    let spec = BundleSpec::from_sources(Platform::Linux, Some("/a.so"), None);
    let report = BundleReport::build(spec, &ScanOutput::Ldd("libq.so => not found\n".into()));
    assert_eq!(report.declared.len(), 1);
    assert_eq!(report.discovered.len(), 1);
    assert_eq!(report.discovered[0].name, "libq.so");
    assert_eq!(report.discovered[0].resolved, None);
    let text = render(&report, &vec![true]);
    assert!(text.contains("- libq.so  → (unresolved — install on the target)\n"));
}
