use anolisa::adapter::{
    detect_framework, detect_query, expand_layout_placeholders, extract_string_list, AdapterError,
    DetectProbe,
};
use anolisa::context::InstallMode;
use anolisa::layout::FsLayout;
use anolisa::manifest::{AdapterSpec, ConfigValue};

fn spec(detect: Vec<(&str, ConfigValue)>) -> AdapterSpec {
    AdapterSpec {
        name: None,
        framework: None,
        kind: None,
        plugin_id: None,
        source: None,
        dest: None,
        detect: detect
            .into_iter()
            .map(|(k, v)| (k.to_string(), v))
            .collect(),
    }
}

fn text(s: &str) -> ConfigValue {
    ConfigValue::Text(s.to_string())
}

fn list(items: &[&str]) -> ConfigValue {
    ConfigValue::List(items.iter().map(|s| text(s)).collect())
}

fn probe(binary_at: Option<&str>, exists: &[bool]) -> DetectProbe {
    DetectProbe {
        binary_at: binary_at.map(String::from),
        exists: exists.to_vec(),
    }
}

fn test_layout() -> FsLayout {
    FsLayout {
        mode: InstallMode::System,
        prefix: "/".to_string(),
        bin_dir: "/usr/local/bin".to_string(),
        lib_dir: "/usr/local/lib/anolisa".to_string(),
        libexec_dir: "/usr/local/libexec/anolisa".to_string(),
        datadir: "/usr/local/share/anolisa".to_string(),
        etc_dir: "/etc/anolisa".to_string(),
        state_dir: "/var/lib/anolisa".to_string(),
        log_dir: "/var/log/anolisa".to_string(),
        cache_dir: "/var/cache/anolisa".to_string(),
        lock_file: "/var/lib/anolisa/install.lock".to_string(),
        central_log: "/var/log/anolisa/central.jsonl".to_string(),
    }
}

#[test]
fn detect_empty_map_returns_detected() {
    let result = detect_framework(&spec(Vec::new()), &probe(None, &[]));
    assert!(result.detected);
    assert_eq!(result.reason, "no detection configured");
}

#[test]
fn detect_binary_found_in_path() {
    let spec = spec(vec![("binary", text("sh"))]);
    let result = detect_framework(&spec, &probe(Some("/bin/sh"), &[]));
    assert!(
        result.detected,
        "expected sh to be found: {}",
        result.reason
    );
    assert!(
        result.reason.contains("found at"),
        "reason should mention path: {}",
        result.reason
    );
}

#[test]
fn detect_binary_not_found() {
    let spec = spec(vec![("binary", text("nonexistent_binary_xyz_12345"))]);
    let result = detect_framework(&spec, &probe(None, &[]));
    assert!(!result.detected);
    assert!(result.reason.contains("not found in PATH"));
}

#[test]
fn detect_paths_existing() {
    let spec = spec(vec![("paths", list(&["/tmp"]))]);
    let result = detect_framework(&spec, &probe(None, &[true]));
    assert!(result.detected, "expected /tmp to exist: {}", result.reason);
    assert!(result.reason.contains("exists"));
}

#[test]
fn detect_paths_single_string() {
    let spec = spec(vec![("paths", text("/tmp"))]);
    let result = detect_framework(&spec, &probe(None, &[true]));
    assert!(
        result.detected,
        "single-string paths should work: {}",
        result.reason
    );
}

#[test]
fn detect_paths_none_exist() {
    let spec = spec(vec![(
        "paths",
        list(&["/nonexistent_path_xyz_1", "/nonexistent_path_xyz_2"]),
    )]);
    let result = detect_framework(&spec, &probe(None, &[false, false]));
    assert!(!result.detected);
    assert!(result.reason.contains("none of the paths exist"));
}

#[test]
fn detect_binary_and_paths_both_required() {
    let spec = spec(vec![
        ("binary", text("sh")),
        ("paths", list(&["/nonexistent_path_xyz_1"])),
    ]);
    let result = detect_framework(&spec, &probe(Some("/bin/sh"), &[false]));
    assert!(
        !result.detected,
        "AND logic: paths missing should fail: {}",
        result.reason
    );
}

#[test]
fn detect_binary_and_paths_both_present() {
    let spec = spec(vec![("binary", text("sh")), ("paths", list(&["/tmp"]))]);
    let result = detect_framework(&spec, &probe(Some("/bin/sh"), &[true]));
    assert!(
        result.detected,
        "both binary and path present should succeed: {}",
        result.reason
    );
}

#[test]
fn detect_unknown_keys_fail_closed() {
    let spec = spec(vec![("command", text("openclaw --version"))]);
    let result = detect_framework(&spec, &probe(None, &[]));
    assert!(
        !result.detected,
        "unknown detect keys must fail-closed: {}",
        result.reason
    );
    assert!(
        result.reason.contains("unsupported detect keys"),
        "reason should mention unsupported: {}",
        result.reason
    );
}

#[test]
fn expand_bindir() {
    let result = expand_layout_placeholders("{bindir}/agentsight", &test_layout(), &[]).unwrap();
    assert_eq!(result, "/usr/local/bin/agentsight");
}

#[test]
fn expand_datadir() {
    let result =
        expand_layout_placeholders("{datadir}/adapters/openclaw/", &test_layout(), &[]).unwrap();
    assert_eq!(result, "/usr/local/share/anolisa/adapters/openclaw/");
}

#[test]
fn expand_etcdir_alias() {
    let layout = test_layout();
    let r1 = expand_layout_placeholders("{etcdir}/conf.toml", &layout, &[]).unwrap();
    let r2 = expand_layout_placeholders("{etc_dir}/conf.toml", &layout, &[]).unwrap();
    assert_eq!(r1, r2);
    assert_eq!(r1, "/etc/anolisa/conf.toml");
}

#[test]
fn expand_statedir_alias() {
    let layout = test_layout();
    let r1 = expand_layout_placeholders("{statedir}/data", &layout, &[]).unwrap();
    let r2 = expand_layout_placeholders("{state_dir}/data", &layout, &[]).unwrap();
    assert_eq!(r1, r2);
    assert_eq!(r1, "/var/lib/anolisa/data");
}

#[test]
fn expand_logdir_alias() {
    let layout = test_layout();
    let r1 = expand_layout_placeholders("{logdir}/app.log", &layout, &[]).unwrap();
    let r2 = expand_layout_placeholders("{log_dir}/app.log", &layout, &[]).unwrap();
    assert_eq!(r1, r2);
    assert_eq!(r1, "/var/log/anolisa/app.log");
}

#[test]
fn expand_libdir_alias() {
    let layout = test_layout();
    let r1 = expand_layout_placeholders("{libdir}/plugin.so", &layout, &[]).unwrap();
    let r2 = expand_layout_placeholders("{lib_dir}/plugin.so", &layout, &[]).unwrap();
    assert_eq!(r1, r2);
    assert_eq!(r1, "/usr/local/lib/anolisa/plugin.so");
}

#[test]
fn expand_libexecdir_alias() {
    let layout = test_layout();
    let r1 = expand_layout_placeholders("{libexecdir}/helper", &layout, &[]).unwrap();
    let r2 = expand_layout_placeholders("{libexec_dir}/helper", &layout, &[]).unwrap();
    assert_eq!(r1, r2);
    assert_eq!(r1, "/usr/local/libexec/anolisa/helper");
}

#[test]
fn expand_cachedir_alias() {
    let layout = test_layout();
    let r1 = expand_layout_placeholders("{cachedir}/tmp", &layout, &[]).unwrap();
    let r2 = expand_layout_placeholders("{cache_dir}/tmp", &layout, &[]).unwrap();
    assert_eq!(r1, r2);
    assert_eq!(r1, "/var/cache/anolisa/tmp");
}

#[test]
fn expand_with_extra_vars() {
    let result = expand_layout_placeholders(
        "{datadir}/adapters/{component}/openclaw/",
        &test_layout(),
        &[("component", "tokenless")],
    )
    .unwrap();
    assert_eq!(
        result,
        "/usr/local/share/anolisa/adapters/tokenless/openclaw/"
    );
}

#[test]
fn expand_unknown_placeholder_errors() {
    let err = expand_layout_placeholders(
        "{datadir}/adapters/{unknown_thing}/",
        &test_layout(),
        &[],
    );
    assert!(err.is_err());
    let err = err.unwrap_err();
    assert!(
        err.message().contains("unknown_thing"),
        "error should name the placeholder: {}",
        err.message()
    );
}

#[test]
fn expand_no_placeholders() {
    let result =
        expand_layout_placeholders("/absolute/path/no/vars", &test_layout(), &[]).unwrap();
    assert_eq!(result, "/absolute/path/no/vars");
}

#[test]
fn replaced_text_is_not_looked_at_again() {
    let layout = test_layout();
    let r = expand_layout_placeholders("a{x}b", &layout, &[("x", "{bindir}")]).unwrap();
    assert_eq!(r, "a{bindir}b");
    let r = expand_layout_placeholders("open{ {x", &layout, &[]).unwrap();
    assert_eq!(r, "open{ {x");
    let r = expand_layout_placeholders("{bindir}", &layout, &[("bindir", "/elsewhere")]).unwrap();
    assert_eq!(r, "/usr/local/bin");
    let r = expand_layout_placeholders("{x}", &layout, &[("x", "1"), ("x", "2")]).unwrap();
    assert_eq!(r, "1");
}

#[test]
fn queries_ask_for_what_the_hints_name() {
    let q = detect_query(&spec(vec![
        ("binary", text("sh")),
        (
            "paths",
            ConfigValue::List(vec![text("/a"), ConfigValue::Integer(1), text("/b")]),
        ),
    ]));
    assert_eq!(q.binary.as_deref(), Some("sh"));
    assert_eq!(q.paths, vec!["/a", "/b"]);
    assert_eq!(extract_string_list(&ConfigValue::Boolean(true)).len(), 0);
}

#[test]
fn adapter_errors_are_told_in_one_line() {
    let s = |s: &str| s.to_string();
    let cases = [
        (
            AdapterError::UnknownPlaceholder {
                placeholder: s("x"),
                template: s("{x}"),
            },
            "unknown placeholder 'x' in template \"{x}\"",
        ),
        (
            AdapterError::ComponentNotInstalled { component: s("c") },
            "component 'c' is not installed",
        ),
        (
            AdapterError::AdapterNotDeclared {
                component: s("c"),
                framework: s("f"),
            },
            "component 'c' declares no adapter for framework 'f'",
        ),
        (
            AdapterError::UnknownFramework { framework: s("f") },
            "no driver for framework 'f'",
        ),
        (
            AdapterError::AmbiguousFramework {
                component: s("c"),
                frameworks: vec![s("f"), s("g")],
            },
            "component 'c' has more than one framework: f, g",
        ),
        (
            AdapterError::FrameworkCli {
                program: s("p"),
                reason: s("r"),
            },
            "framework command 'p' failed: r",
        ),
        (AdapterError::Lock(s("busy")), "install lock: busy"),
        (AdapterError::State(s("bad")), "installed state: bad"),
    ];
    for (error, message) in cases {
        assert_eq!(error.message(), message);
    }
}
