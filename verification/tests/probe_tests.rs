use target_info::cfg::Cfg;
use target_info::files::{plan_file_types, FileType, TargetFileType, TargetKind};
use target_info::probe::{Kind, ProbeError, TargetInfo};

fn full_stdout() -> String {
    [
        "___",            // bin
        "lib___.rlib",    // rlib
        "lib___.so",      // dylib
        "lib___.so",      // cdylib
        "lib___.a",       // staticlib
        "lib___.so",      // proc-macro
        "/usr/local/rust",
        "debug_assertions",
        "target_os=\"linux\"",
        "unix",
    ]
    .join("\n")
}

fn naming(ti: &TargetInfo, kind: &str) -> Option<(String, String)> {
    ti.try_get(kind).expect("kind should be cached")
}

#[test]
fn combined_probe_resolves_all_kinds() {
    let ti = TargetInfo::from_probe_output(
        &full_stdout(),
        "",
        true,
        Kind::Host,
        "x86_64-unknown-linux-gnu",
        false,
    )
    .unwrap();
    assert_eq!(naming(&ti, "bin"), Some((String::new(), String::new())));
    assert_eq!(
        naming(&ti, "rlib"),
        Some(("lib".to_string(), ".rlib".to_string()))
    );
    assert_eq!(
        naming(&ti, "dylib"),
        Some(("lib".to_string(), ".so".to_string()))
    );
    assert_eq!(
        naming(&ti, "cdylib"),
        Some(("lib".to_string(), ".so".to_string()))
    );
    assert_eq!(
        naming(&ti, "staticlib"),
        Some(("lib".to_string(), ".a".to_string()))
    );
    assert_eq!(
        naming(&ti, "proc-macro"),
        Some(("lib".to_string(), ".so".to_string()))
    );
}

#[test]
fn combined_probe_reports_cfg_in_order() {
    let ti = TargetInfo::from_probe_output(
        &full_stdout(),
        "",
        true,
        Kind::Host,
        "x86_64-unknown-linux-gnu",
        false,
    )
    .unwrap();
    let cfg = ti.cfg().expect("combined probe carries cfg");
    let expected = vec![
        Cfg::Name("debug_assertions".to_string()),
        Cfg::KeyPair("target_os".to_string(), "linux".to_string()),
        Cfg::Name("unix".to_string()),
    ];
    assert_eq!(cfg, expected.as_slice());
}

#[test]
fn host_sysroot_uses_lib_on_unix_and_bin_on_windows() {
    let ti = TargetInfo::from_probe_output(
        &full_stdout(),
        "",
        true,
        Kind::Host,
        "x86_64-unknown-linux-gnu",
        false,
    )
    .unwrap();
    assert_eq!(
        ti.sysroot_libdir,
        Some(vec!["/usr/local/rust".to_string(), "lib".to_string()])
    );
    let ti = TargetInfo::from_probe_output(
        &full_stdout(),
        "",
        true,
        Kind::Host,
        "x86_64-pc-windows-msvc",
        true,
    )
    .unwrap();
    assert_eq!(
        ti.sysroot_libdir,
        Some(vec!["/usr/local/rust".to_string(), "bin".to_string()])
    );
}

#[test]
fn cross_sysroot_nests_under_the_triple() {
    let ti = TargetInfo::from_probe_output(
        &full_stdout(),
        "",
        true,
        Kind::Target,
        "aarch64-unknown-linux-gnu",
        false,
    )
    .unwrap();
    assert_eq!(
        ti.sysroot_libdir,
        Some(vec![
            "/usr/local/rust".to_string(),
            "lib".to_string(),
            "rustlib".to_string(),
            "aarch64-unknown-linux-gnu".to_string(),
            "lib".to_string(),
        ])
    );
}

#[test]
fn fallback_probe_leaves_cfg_and_sysroot_absent() {
    // The combined probe's extra prints failed; only file names were
    // probed.  Naming still resolves exactly as in the combined case.
    let stdout = "___\nlib___.rlib\nlib___.so\nlib___.so\nlib___.a\nlib___.so\n";
    let ti = TargetInfo::from_probe_output(
        stdout,
        "",
        false,
        Kind::Host,
        "x86_64-unknown-linux-gnu",
        false,
    )
    .unwrap();
    assert!(ti.cfg().is_none());
    assert!(ti.sysroot_libdir.is_none());
    assert_eq!(
        naming(&ti, "rlib"),
        Some(("lib".to_string(), ".rlib".to_string()))
    );
    assert_eq!(
        naming(&ti, "proc-macro"),
        Some(("lib".to_string(), ".so".to_string()))
    );
}

#[test]
fn unsupported_kind_consumes_no_line() {
    // proc-macro is rejected on stderr; the five remaining kinds consume
    // the five stdout lines with no shift.
    let stdout = "___\nlib___.rlib\nlib___.so\nlib___.so\nlib___.a\n";
    let stderr = "error: unsupported crate type `proc-macro` for this target\n";
    let ti = TargetInfo::from_probe_output(
        stdout,
        stderr,
        false,
        Kind::Host,
        "x86_64-unknown-linux-gnu",
        false,
    )
    .unwrap();
    assert_eq!(naming(&ti, "proc-macro"), None);
    assert_eq!(naming(&ti, "bin"), Some((String::new(), String::new())));
    assert_eq!(
        naming(&ti, "staticlib"),
        Some(("lib".to_string(), ".a".to_string()))
    );
}

#[test]
fn unknown_marker_counts_too() {
    let stdout = "lib___.rlib\nlib___.so\nlib___.so\nlib___.a\nlib___.so\n";
    let stderr = "error: unknown crate type: `bin`\n";
    let ti = TargetInfo::from_probe_output(
        stdout,
        stderr,
        false,
        Kind::Host,
        "x86_64-unknown-linux-gnu",
        false,
    )
    .unwrap();
    assert_eq!(naming(&ti, "bin"), None);
    assert_eq!(
        naming(&ti, "rlib"),
        Some(("lib".to_string(), ".rlib".to_string()))
    );
}

#[test]
fn windows_line_endings_are_handled() {
    let stdout = "___\r\nlib___.rlib\r\nlib___.dll\r\nlib___.dll\r\nlib___.lib\r\nlib___.dll\r\n";
    let ti = TargetInfo::from_probe_output(
        stdout,
        "",
        false,
        Kind::Host,
        "x86_64-pc-windows-msvc",
        true,
    )
    .unwrap();
    assert_eq!(
        naming(&ti, "rlib"),
        Some(("lib".to_string(), ".rlib".to_string()))
    );
    assert_eq!(
        naming(&ti, "dylib"),
        Some(("lib".to_string(), ".dll".to_string()))
    );
}

#[test]
fn missing_separator_is_a_fatal_error() {
    let stdout = "___\nno-separator-here\nlib___.so\nlib___.so\nlib___.a\nlib___.so\n";
    let err = TargetInfo::from_probe_output(
        stdout,
        "",
        false,
        Kind::Host,
        "x86_64-unknown-linux-gnu",
        false,
    )
    .unwrap_err();
    assert!(matches!(err, ProbeError::SeparatorMissing));
    assert_eq!(
        err.message(),
        "output of --print=file-names has changed in the compiler, cannot parse"
    );
}

#[test]
fn missing_line_names_the_kind() {
    let stdout = "___\nlib___.rlib\n";
    let err = TargetInfo::from_probe_output(
        stdout,
        "",
        false,
        Kind::Host,
        "x86_64-unknown-linux-gnu",
        false,
    )
    .unwrap_err();
    match err {
        ProbeError::MissingCrateTypeLine { crate_type } => assert_eq!(crate_type, "dylib"),
        other => panic!("unexpected error: {:?}", other),
    }
}

#[test]
fn error_messages_name_the_probe_stage() {
    let err = ProbeError::MissingCrateTypeLine {
        crate_type: "dylib".to_string(),
    };
    assert_eq!(
        err.message(),
        "malformed output when learning about crate-type dylib information"
    );
    let err = ProbeError::MalformedCfg {
        line: "1bad flag".to_string(),
    };
    assert_eq!(err.message(), "failed to parse the cfg line `1bad flag`");
}

#[test]
fn unsupported_kind_does_not_shift_the_sysroot_line() {
    // With proc-macro rejected, the sysroot line follows the five
    // consumed file-name lines directly.
    let stdout = "___\nlib___.rlib\nlib___.so\nlib___.so\nlib___.a\n/sysroot\nunix\n";
    let stderr = "error: unsupported crate type `proc-macro`\n";
    let ti = TargetInfo::from_probe_output(
        stdout,
        stderr,
        true,
        Kind::Host,
        "x86_64-unknown-linux-gnu",
        false,
    )
    .unwrap();
    assert_eq!(
        ti.sysroot_libdir,
        Some(vec!["/sysroot".to_string(), "lib".to_string()])
    );
    assert_eq!(ti.cfg().unwrap(), vec![Cfg::Name("unix".to_string())].as_slice());
    assert_eq!(naming(&ti, "proc-macro"), None);
    assert_eq!(
        naming(&ti, "staticlib"),
        Some(("lib".to_string(), ".a".to_string()))
    );
}

#[test]
fn missing_sysroot_line_is_fatal_for_a_combined_probe() {
    let stdout = "___\nlib___.rlib\nlib___.so\nlib___.so\nlib___.a\nlib___.so\n";
    let err = TargetInfo::from_probe_output(
        stdout,
        "",
        true,
        Kind::Host,
        "x86_64-unknown-linux-gnu",
        false,
    )
    .unwrap_err();
    assert!(matches!(err, ProbeError::MissingSysrootLine));
    assert_eq!(
        err.message(),
        "output of --print=sysroot missing when learning about target-specific information from rustc"
    );
}

fn strings(v: &[&str]) -> Vec<String> {
    v.iter().map(|s| s.to_string()).collect()
}

#[test]
fn probe_argument_lists_match_the_invocation_shape() {
    let flags = strings(&["-Cpanic=abort"]);
    let base = target_info::invoke::base_probe_args(&flags, Kind::Target, "wasm32-unknown-unknown");
    assert_eq!(
        base,
        strings(&[
            "-",
            "--crate-name",
            "___",
            "--print=file-names",
            "-Cpanic=abort",
            "--target",
            "wasm32-unknown-unknown",
        ])
    );
    let host_base = target_info::invoke::base_probe_args(&Vec::new(), Kind::Host, "ignored");
    assert_eq!(
        host_base,
        strings(&["-", "--crate-name", "___", "--print=file-names"])
    );
    let file_names = target_info::invoke::file_names_probe_args(&host_base);
    assert_eq!(
        file_names,
        strings(&[
            "-",
            "--crate-name",
            "___",
            "--print=file-names",
            "--crate-type",
            "bin",
            "--crate-type",
            "rlib",
            "--crate-type",
            "dylib",
            "--crate-type",
            "cdylib",
            "--crate-type",
            "staticlib",
            "--crate-type",
            "proc-macro",
        ])
    );
    let combined = target_info::invoke::combined_probe_args(&host_base);
    let mut expected = file_names.clone();
    expected.push("--print=sysroot".to_string());
    expected.push("--print=cfg".to_string());
    assert_eq!(combined, expected);
    let focused = target_info::invoke::focused_probe_args(&host_base, "dylib");
    assert_eq!(
        focused,
        strings(&[
            "-",
            "--crate-name",
            "___",
            "--print=file-names",
            "--crate-type",
            "dylib",
        ])
    );
}

#[test]
fn malformed_cfg_line_is_fatal() {
    let stdout = "___\nlib___.rlib\nlib___.so\nlib___.so\nlib___.a\nlib___.so\n/sysroot\nok_flag\n1bad flag\n";
    let err = TargetInfo::from_probe_output(
        stdout,
        "",
        true,
        Kind::Host,
        "x86_64-unknown-linux-gnu",
        false,
    )
    .unwrap_err();
    match err {
        ProbeError::MalformedCfg { line } => assert_eq!(line, "1bad flag"),
        other => panic!("unexpected error: {:?}", other),
    }
}

#[test]
fn resolve_probed_parses_once_and_caches() {
    let mut ti = TargetInfo {
        crate_types: Vec::new(),
        cfg: None,
        sysroot_libdir: None,
    };
    assert!(ti.try_get("dylib").is_none());
    let first = ti
        .resolve_probed("dylib", "lib___.dylib\n", "")
        .unwrap();
    assert_eq!(first, Some(("lib".to_string(), ".dylib".to_string())));
    // A second resolution never reads the probe output again: garbage in,
    // identical cached value out.
    let second = ti
        .resolve_probed("dylib", "total garbage", "")
        .unwrap();
    assert_eq!(second, Some(("lib".to_string(), ".dylib".to_string())));
    assert_eq!(
        ti.try_get("dylib"),
        Some(Some(("lib".to_string(), ".dylib".to_string())))
    );
}

#[test]
fn resolve_probed_stores_unsupported_results_too() {
    let mut ti = TargetInfo {
        crate_types: Vec::new(),
        cfg: None,
        sysroot_libdir: None,
    };
    let v = ti
        .resolve_probed(
            "proc-macro",
            "",
            "error: unsupported crate type `proc-macro`\n",
        )
        .unwrap();
    assert_eq!(v, None);
    assert_eq!(ti.try_get("proc-macro"), Some(None));
}

#[test]
fn round_trip_through_the_template() {
    // Joining a resolved pair back with the sentinel parses to the same
    // pair, and extra separators beyond the second part are tolerated.
    let line = "lib___.rlib";
    let (prefix, suffix) = target_info::text::split_line(line).unwrap();
    assert_eq!(prefix, "lib");
    assert_eq!(suffix, ".rlib");
    let (prefix, suffix) = target_info::text::split_line("a___b___c").unwrap();
    assert_eq!(prefix, "a");
    assert_eq!(suffix, "b");
    assert_eq!(target_info::text::split_line("no separator"), None);
    let (prefix, suffix) = target_info::text::split_line("  lib___.so \n").unwrap();
    assert_eq!(prefix, "lib");
    assert_eq!(suffix, ".so");
}

#[test]
fn cfg_lines_parse_names_and_pairs() {
    assert_eq!(
        target_info::cfg::parse_cfg("unix"),
        Some(Cfg::Name("unix".to_string()))
    );
    assert_eq!(
        target_info::cfg::parse_cfg("target_env=\"\""),
        Some(Cfg::KeyPair("target_env".to_string(), String::new()))
    );
    assert_eq!(target_info::cfg::parse_cfg(""), None);
    assert_eq!(target_info::cfg::parse_cfg("9lives"), None);
    assert_eq!(target_info::cfg::parse_cfg("a=\"b\"c"), None);
    assert_eq!(target_info::cfg::parse_cfg("a=b"), None);
}

fn fields(f: &FileType) -> (&str, &str, TargetFileType, bool) {
    (
        f.prefix.as_str(),
        f.suffix.as_str(),
        f.target_file_type,
        f.should_replace_hyphens,
    )
}

#[test]
fn msvc_dylib_gets_an_import_library() {
    let list = plan_file_types(
        "",
        ".dll",
        "dylib",
        TargetFileType::Linkable,
        &TargetKind::Lib,
        "x86_64-pc-windows-msvc",
    );
    assert_eq!(list.len(), 2);
    assert_eq!(fields(&list[0]), ("", ".dll", TargetFileType::Linkable, false));
    assert_eq!(fields(&list[1]), ("", ".dll.lib", TargetFileType::Normal, false));
}

#[test]
fn wasm_executable_gets_a_companion_binary() {
    let list = plan_file_types(
        "",
        ".js",
        "bin",
        TargetFileType::Normal,
        &TargetKind::Bin,
        "wasm32-unknown-unknown",
    );
    assert_eq!(list.len(), 2);
    assert_eq!(fields(&list[0]), ("", ".js", TargetFileType::Normal, false));
    assert_eq!(fields(&list[1]), ("", ".wasm", TargetFileType::Normal, true));
}

#[test]
fn apple_binary_gets_a_dsym_bundle() {
    let list = plan_file_types(
        "",
        "",
        "bin",
        TargetFileType::Normal,
        &TargetKind::Bin,
        "x86_64-apple-darwin",
    );
    assert_eq!(list.len(), 2);
    assert_eq!(fields(&list[1]), ("", ".dSYM", TargetFileType::DebugInfo, false));
}

#[test]
fn msvc_binary_gets_a_pdb() {
    let list = plan_file_types(
        "",
        ".exe",
        "bin",
        TargetFileType::Normal,
        &TargetKind::Bin,
        "x86_64-pc-windows-msvc",
    );
    assert_eq!(list.len(), 2);
    assert_eq!(fields(&list[1]), ("", ".pdb", TargetFileType::DebugInfo, false));
}

#[test]
fn static_library_gets_no_expansion() {
    let list = plan_file_types(
        "lib",
        ".a",
        "staticlib",
        TargetFileType::Normal,
        &TargetKind::Lib,
        "x86_64-pc-windows-msvc",
    );
    assert_eq!(list.len(), 1);
    assert_eq!(fields(&list[0]), ("lib", ".a", TargetFileType::Normal, false));
}

#[test]
fn tests_and_examples_get_no_debug_info_companion() {
    let list = plan_file_types(
        "",
        ".exe",
        "bin",
        TargetFileType::Normal,
        &TargetKind::Test,
        "x86_64-pc-windows-msvc",
    );
    assert_eq!(list.len(), 1);
}

#[test]
fn file_types_goes_through_the_cache() {
    let ti = TargetInfo::from_probe_output(
        &full_stdout(),
        "",
        true,
        Kind::Host,
        "x86_64-unknown-linux-gnu",
        false,
    )
    .unwrap();
    let list = ti
        .file_types(
            "rlib",
            TargetFileType::Linkable,
            &TargetKind::Lib,
            "x86_64-unknown-linux-gnu",
        )
        .expect("cached")
        .expect("supported");
    assert_eq!(list.len(), 1);
    assert_eq!(fields(&list[0]), ("lib", ".rlib", TargetFileType::Linkable, false));
    // An uncached kind asks for a focused probe first.
    assert!(ti
        .file_types(
            "bin2",
            TargetFileType::Normal,
            &TargetKind::Bin,
            "x86_64-unknown-linux-gnu",
        )
        .is_none());
}

#[test]
fn unsupported_kind_plans_nothing() {
    let stdout = "___\nlib___.rlib\nlib___.so\nlib___.so\nlib___.a\n";
    let stderr = "error: unsupported crate type `proc-macro`\n";
    let ti = TargetInfo::from_probe_output(
        stdout,
        stderr,
        false,
        Kind::Host,
        "x86_64-unknown-linux-gnu",
        false,
    )
    .unwrap();
    assert!(matches!(
        ti.file_types(
            "proc-macro",
            TargetFileType::Normal,
            &TargetKind::Lib,
            "x86_64-unknown-linux-gnu",
        ),
        Some(None)
    ));
}
