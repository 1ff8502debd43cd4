use anolisa::env::EnvFacts;
use anolisa::osbase_install::{
    conclude_install, execute_install, map_sandbox_error, map_sandbox_outcome,
    resolve_sandbox_scenario, validate_request, OsbaseDomain, OsbaseInstallError,
    OsbaseInstallRequest, PhaseStatus, RegisterHandler,
};
use anolisa::sandbox::{
    InstallPhase, SandboxBackendKind, SandboxInstallError, SandboxInstallOutcome,
    SandboxPhaseOutcome, SandboxPhaseStatus,
};

fn req(domain: OsbaseDomain, target: &str) -> OsbaseInstallRequest {
    OsbaseInstallRequest {
        domain,
        target: target.to_string(),
        register_handler: RegisterHandler::Containerd,
        register_runtimeclass: false,
        config_override: None,
        set_default: false,
        force: false,
        skip_verify: false,
        dry_run: true,
    }
}

fn test_env() -> EnvFacts {
    EnvFacts {
        os: "linux".to_string(),
        arch: "x86_64".to_string(),
        libc: None,
        kernel: Some("6.6.30".to_string()),
        pkg_base: None,
        os_id: Some("alinux".to_string()),
        os_version: Some("4".to_string()),
        btf: None,
        cap_bpf: None,
        container: None,
        user: "tester".to_string(),
        uid: 1000,
        home: "/home/tester".to_string(),
    }
}

fn root_env() -> EnvFacts {
    EnvFacts {
        uid: 0,
        user: "root".to_string(),
        ..test_env()
    }
}

#[test]
fn validate_rejects_empty_target() {
    let r = req(OsbaseDomain::Sandbox, "  ");
    assert!(matches!(
        validate_request(&r, &root_env()),
        Err(OsbaseInstallError::InvalidRequest { .. })
    ));
}

#[test]
fn validate_rejects_runtimeclass_without_handler() {
    let mut r = req(OsbaseDomain::Sandbox, "runc");
    r.register_handler = RegisterHandler::Standalone;
    r.register_runtimeclass = true;
    assert!(matches!(
        validate_request(&r, &root_env()),
        Err(OsbaseInstallError::InvalidRequest { .. })
    ));
}

#[test]
fn validate_accepts_minimal_request() {
    assert!(validate_request(&req(OsbaseDomain::Sandbox, "runc"), &root_env()).is_ok());
}

#[test]
fn validate_rejects_non_root_uid() {
    let r = req(OsbaseDomain::Sandbox, "runc");
    let env = test_env(); // uid=1000
    match validate_request(&r, &env) {
        Err(OsbaseInstallError::InvalidRequest { reason }) => {
            assert!(
                reason.contains("sudo"),
                "expected hint pointing at sudo, got: {reason}"
            );
        }
        other => panic!("expected InvalidRequest for non-root uid, got {other:?}"),
    }
}

#[test]
fn kernel_domain_is_stub() {
    let r = req(OsbaseDomain::Kernel, "agentic");
    let env = root_env();
    let err = execute_install(&r, &env).expect_err("kernel stub");
    assert!(matches!(err, OsbaseInstallError::InvalidRequest { .. }));
}

#[test]
fn security_domain_is_stub() {
    let r = req(OsbaseDomain::Security, "selinux");
    let env = root_env();
    let err = execute_install(&r, &env).expect_err("security stub");
    assert!(matches!(err, OsbaseInstallError::InvalidRequest { .. }));
}

#[test]
fn unknown_sandbox_scenario_is_invalid_request() {
    let r = req(OsbaseDomain::Sandbox, "nope-not-a-scenario");
    let env = root_env();
    let err = execute_install(&r, &env).expect_err("unknown scenario");
    match err {
        OsbaseInstallError::InvalidRequest { reason } => {
            assert!(reason.contains("nope-not-a-scenario"));
        }
        other => panic!("expected InvalidRequest, got {other:?}"),
    }
}

#[test]
fn known_scenarios_resolve() {
    for s in [
        "runc",
        "rund",
        "kata-qemu",
        "kata-clh",
        "kata-fc",
        "firecracker",
        "gvisor",
        "gvisor-substrate",
        "landlock",
    ] {
        assert!(
            resolve_sandbox_scenario(s).is_some(),
            "scenario '{s}' should resolve"
        );
    }
}

#[test]
fn standalone_engines_get_no_runtime() {
    let mut r = req(OsbaseDomain::Sandbox, "gvisor-substrate");
    let d = execute_install(&r, &root_env()).expect("dispatch");
    assert_eq!(d.request.backend, SandboxBackendKind::Gvisor);
    assert_eq!(d.request.variant, "default");
    assert_eq!(d.request.runtime.as_deref(), Some("containerd"));
    assert_eq!(d.request.control_panel.as_deref(), Some("substrate"));
    assert!(d.request.dry_run);
    assert!(d.warnings.is_empty());
    r.register_handler = RegisterHandler::Standalone;
    let d = execute_install(&r, &root_env()).expect("dispatch");
    assert_eq!(d.request.runtime, None);
    let d = execute_install(&req(OsbaseDomain::Sandbox, "firecracker"), &root_env());
    assert_eq!(d.expect("dispatch").request.runtime, None);
}

#[test]
fn options_that_are_not_honored_are_told() {
    let mut r = req(OsbaseDomain::Sandbox, "runc");
    r.config_override = Some("/etc/x".to_string());
    r.set_default = true;
    r.register_runtimeclass = true;
    let d = execute_install(&r, &root_env()).expect("dispatch");
    assert_eq!(
        d.warnings,
        vec![
            "--config override is not yet honored by the sandbox bridge",
            "--default is not yet honored by the sandbox bridge",
            "--register-runtimeclass is not yet honored by the sandbox bridge",
        ]
    );
}

fn outcome(exit_code: i32) -> SandboxInstallOutcome {
    SandboxInstallOutcome {
        backend: SandboxBackendKind::Container,
        variant: "runc".to_string(),
        phases: vec![
            SandboxPhaseOutcome {
                phase: InstallPhase::Preflight,
                label: "Preflight".to_string(),
                status: SandboxPhaseStatus::Warning,
                message: "low memory".to_string(),
            },
            SandboxPhaseOutcome {
                phase: InstallPhase::PostVerify,
                label: "Verify".to_string(),
                status: SandboxPhaseStatus::Success,
                message: String::new(),
            },
        ],
        exit_code,
        warnings: vec!["late".to_string()],
    }
}

#[test]
fn outcomes_come_into_the_shared_shape() {
    let r = req(OsbaseDomain::Sandbox, "runc");
    let o = map_sandbox_outcome(&r, outcome(2), vec!["early".to_string()]);
    assert_eq!(o.domain, OsbaseDomain::Sandbox);
    assert_eq!(o.target, "runc");
    assert_eq!(o.exit_code, 2);
    assert_eq!(o.warnings, vec!["early", "late"]);
    assert_eq!(o.phases[0].name, "preflight");
    assert_eq!(o.phases[0].status, PhaseStatus::Degraded);
    assert_eq!(o.phases[0].message.as_deref(), Some("low memory"));
    assert_eq!(o.phases[1].name, "post_verify");
    assert_eq!(o.phases[1].message, None);
    assert_eq!(map_sandbox_outcome(&r, outcome(0), Vec::new()).exit_code, 0);
    assert_eq!(map_sandbox_outcome(&r, outcome(77), Vec::new()).exit_code, 1);
}

#[test]
fn errors_name_the_phase() {
    let r = req(OsbaseDomain::Sandbox, "runc");
    let text = |e: SandboxInstallError| map_sandbox_error(&r, e).message();
    assert_eq!(
        text(SandboxInstallError::Unsupported {
            backend: "vm".to_string(),
            variant: "x".to_string()
        }),
        "invalid request: scenario 'runc' rejected by sandbox pipeline: vm x"
    );
    assert_eq!(
        text(SandboxInstallError::EnvNotSatisfied {
            reason: "no kvm".to_string(),
            remediation: Some("load it".to_string())
        }),
        "phase 'preflight' failed: no kvm — load it"
    );
    assert_eq!(
        text(SandboxInstallError::EnvNotSatisfied {
            reason: "no kvm".to_string(),
            remediation: None
        }),
        "phase 'preflight' failed: no kvm"
    );
    assert_eq!(
        text(SandboxInstallError::PackageFailed("p".to_string())),
        "phase 'packages' failed: p"
    );
    assert_eq!(
        text(SandboxInstallError::OsConfigFailed("p".to_string())),
        "phase 'os_primitives' failed: p"
    );
    assert_eq!(
        text(SandboxInstallError::ServiceFailed("p".to_string())),
        "phase 'service_setup' failed: p"
    );
    assert_eq!(
        text(SandboxInstallError::VerifyFailed("p".to_string())),
        "phase 'post_verify' failed: p"
    );
    assert_eq!(
        text(SandboxInstallError::StateFailed("p".to_string())),
        "phase 'state' failed: p"
    );
    assert_eq!(
        text(SandboxInstallError::LockHeld),
        "invalid request: install lock held by another process"
    );
    assert_eq!(
        text(SandboxInstallError::NotRoot),
        "invalid request: must run as root for system-mode install"
    );
}

#[test]
fn runs_are_concluded_by_what_they_came_to() {
    let r = req(OsbaseDomain::Sandbox, "runc");
    assert!(conclude_install(&r, Vec::new(), Ok(outcome(0))).is_ok());
    assert!(matches!(
        conclude_install(&r, Vec::new(), Err(SandboxInstallError::LockHeld)),
        Err(OsbaseInstallError::InvalidRequest { .. })
    ));
    assert_eq!(
        OsbaseInstallError::Io("disk".to_string()).message(),
        "io error: disk"
    );
    assert_eq!(OsbaseDomain::Kernel.as_str(), "kernel");
    assert_eq!(OsbaseDomain::Sandbox.as_str(), "sandbox");
    assert_eq!(OsbaseDomain::Security.as_str(), "security");
}
