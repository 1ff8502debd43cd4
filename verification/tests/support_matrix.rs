use anolisa::env::EnvFacts;
use anolisa::support_matrix::{
    kernel_version_matches, match_support, os_version_matches, OsVersionSpec, SupportEntry,
};

fn env(os_id: &str, os_version: &str, arch: &str, kernel: &str) -> EnvFacts {
    EnvFacts {
        os: "linux".to_string(),
        arch: arch.to_string(),
        libc: None,
        kernel: Some(kernel.to_string()),
        pkg_base: None,
        os_id: Some(os_id.to_string()),
        os_version: Some(os_version.to_string()),
        btf: None,
        cap_bpf: None,
        container: None,
        user: "tester".to_string(),
        uid: 1000,
        home: "/home/tester".to_string(),
    }
}

fn entry(
    os: &str,
    ver: OsVersionSpec,
    arch: &[&str],
    kernel: Option<&str>,
    tier: &str,
) -> SupportEntry {
    SupportEntry {
        os: os.to_string(),
        os_version: ver,
        arch: arch.iter().map(|s| s.to_string()).collect(),
        kernel: kernel.map(|s| s.to_string()),
        tier: tier.to_string(),
        notes: None,
    }
}

#[test]
fn test_exact_os_version_match() {
    let e = env("alinux", "4", "x86_64", "6.6.30-anolisa.1");
    let matrix = vec![entry(
        "alinux",
        OsVersionSpec::Single("4".to_string()),
        &["x86_64", "aarch64"],
        Some(">=6.6"),
        "p0",
    )];
    let got = match_support(&e, "demo", &matrix).expect("should match");
    assert_eq!(got.tier, "p0");
    assert_eq!(got.os, "alinux");
}

#[test]
fn test_list_os_version_match() {
    let e = env("ubuntu", "24.04", "x86_64", "6.8.0-generic");
    let matrix = vec![entry(
        "ubuntu",
        OsVersionSpec::Multiple(vec!["24.04".to_string(), "26.04".to_string()]),
        &["x86_64"],
        Some(">=6.6"),
        "p1",
    )];
    let got = match_support(&e, "demo", &matrix).expect("should match");
    assert_eq!(got.tier, "p1");
}

#[test]
fn test_arch_mismatch() {
    let e = env("alinux", "4", "aarch64", "6.6.30-anolisa.1");
    let matrix = vec![entry(
        "alinux",
        OsVersionSpec::Single("4".to_string()),
        &["x86_64"],
        None,
        "p0",
    )];
    let err = match_support(&e, "demo", &matrix).expect_err("should not match");
    assert_eq!(err.arch, "aarch64");
    assert!(err.supported_list.contains("x86_64"));
}

#[test]
fn test_kernel_version_gte() {
    assert!(kernel_version_matches(">=6.6", "6.6.30-anolisa.1"));
    assert!(kernel_version_matches(">=6.6", "6.10.0"));
    assert!(!kernel_version_matches(">=6.6", "5.10.1-xxx"));
    assert!(!kernel_version_matches(">=6.6", "6.5.0"));
    assert!(kernel_version_matches(">=5.10", "5.10.0-1-amd64"));
}

#[test]
fn test_no_match_returns_error() {
    let e = env("debian", "12", "x86_64", "6.1.0-xxx");
    let matrix = vec![
        entry(
            "alinux",
            OsVersionSpec::Single("4".to_string()),
            &["x86_64"],
            Some(">=6.6"),
            "p0",
        ),
        entry(
            "ubuntu",
            OsVersionSpec::Multiple(vec!["24.04".to_string(), "26.04".to_string()]),
            &["x86_64", "aarch64"],
            Some(">=6.6"),
            "p1",
        ),
    ];
    let err = match_support(&e, "demo", &matrix).expect_err("should not match");
    assert_eq!(err.component, "demo");
    assert_eq!(err.os, "debian");
    assert_eq!(err.os_version, "12");
    assert_eq!(err.arch, "x86_64");
    assert!(
        err.supported_list.contains("alinux 4"),
        "supported_list missing alinux entry: {}",
        err.supported_list
    );
    assert!(
        err.supported_list.contains("ubuntu 24.04|26.04"),
        "supported_list missing ubuntu entry: {}",
        err.supported_list
    );
}

#[test]
fn test_first_match_wins() {
    let e = env("alinux", "4", "x86_64", "6.6.30-anolisa.1");
    let matrix = vec![
        entry(
            "alinux",
            OsVersionSpec::Single("4".to_string()),
            &["x86_64"],
            Some(">=6.6"),
            "p0",
        ),
        entry(
            "alinux",
            OsVersionSpec::Single("4".to_string()),
            &["x86_64"],
            None,
            "p2",
        ),
    ];
    let got = match_support(&e, "demo", &matrix).expect("should match");
    assert_eq!(got.tier, "p0");
}

#[test]
fn test_os_version_starts_with_dot() {
    // "4" should accept "4.0" but not "40"
    let spec = OsVersionSpec::Single("4".to_string());
    assert!(os_version_matches(&spec, "4"));
    assert!(os_version_matches(&spec, "4.0"));
    assert!(!os_version_matches(&spec, "40"));
}

#[test]
fn test_kernel_no_requirement() {
    let e = env("alinux", "4", "x86_64", "");
    let matrix = vec![entry(
        "alinux",
        OsVersionSpec::Single("4".to_string()),
        &["x86_64"],
        None,
        "p0",
    )];
    assert!(match_support(&e, "demo", &matrix).is_ok());
}

#[test]
fn unreadable_kernels_match_no_range() {
    assert!(!kernel_version_matches(">=6.6", ""));
    assert!(!kernel_version_matches(">=6.6", "six.six"));
    assert!(!kernel_version_matches(">=x", "6.6"));
}

#[test]
fn patch_level_and_suffix_do_not_count() {
    assert_eq!(
        kernel_version_matches(">=6.6", "6.6.0"),
        kernel_version_matches(">=6.6", "6.6.99-custom")
    );
    assert!(kernel_version_matches(">=6.6", "7.0"));
}

#[test]
fn a_host_without_facts_is_unknown() {
    let mut e = env("", "", "x86_64", "6.6");
    e.os_id = None;
    e.os_version = None;
    let matrix = vec![entry(
        "alinux",
        OsVersionSpec::Single("4".to_string()),
        &["x86_64"],
        None,
        "p0",
    )];
    let err = match_support(&e, "demo", &matrix).expect_err("no facts");
    assert_eq!(err.os, "unknown");
    assert_eq!(err.os_version, "unknown");
    assert_eq!(
        err.message(),
        format!(
            "unsupported: demo not supported on unknown unknown (x86_64); supported: {}",
            err.supported_list
        )
    );
}
