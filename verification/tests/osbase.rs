use anolisa::commands::osbase::{
    handle, helper_reply, install_label, map_sandbox_err, osbase_preflight, phase_number,
    render_dry_run_plan, render_install_outcome, render_plan_report, sandbox_target_to_kind,
    ExecutionMode,
    HelperExchange, HelperRequest, HelperResponse, KernelArgs, KernelCommands, OsbaseAction,
    OsbaseArgs, OsbaseCommands, PreflightEvent, PreflightStep, SandboxArgs, SandboxCommands,
    SandboxTarget, SecurityArgs, SecurityCommands,
};
use anolisa::context::{CliContext, InstallMode};
use anolisa::response::CliError;
use anolisa::sandbox::{
    InstallPhase, SandboxBackendKind, SandboxInstallError, SandboxInstallOutcome,
    SandboxInstallRequest,
    SandboxPhaseOutcome, SandboxPhaseStatus, SandboxPlan, SandboxPlanPhase,
};

fn s(text: &str) -> Option<String> {
    Some(text.to_string())
}

fn ctx(json: bool, dry_run: bool) -> CliContext {
    CliContext {
        install_mode: InstallMode::System,
        prefix: s("/sys"),
        json,
        dry_run,
        verbose: false,
        quiet: false,
        no_color: true,
    }
}

fn sandbox(command: SandboxCommands) -> OsbaseArgs {
    OsbaseArgs {
        command: OsbaseCommands::Sandbox(SandboxArgs { command }),
    }
}

fn install(runtime: Option<&str>, dry_run: bool) -> OsbaseArgs {
    sandbox(SandboxCommands::Install {
        target: SandboxTarget::Gvisor,
        variant: None,
        runtime: runtime.map(String::from),
        control_panel: s("panel"),
        dry_run,
        force: true,
        skip_verify: false,
    })
}

#[test]
fn the_helper_is_asked_first_and_root_goes_without() {
    match osbase_preflight(PreflightEvent::Connected {
        cli_version: "1.0".to_string(),
    }) {
        PreflightStep::Send(HelperRequest::Handshake { cli_version }) => {
            assert_eq!(cli_version, "1.0");
        }
        other => panic!("expected a handshake, got {other:?}"),
    }
    let ready = |compatible| {
        osbase_preflight(PreflightEvent::Replied(HelperResponse::HandshakeOk {
            compatible,
            shown: String::new(),
        }))
    };
    assert!(matches!(
        ready(true),
        PreflightStep::Ready {
            mode: ExecutionMode::ViaHelper,
            warning: None
        }
    ));
    assert!(matches!(
        ready(false),
        PreflightStep::Ready {
            mode: ExecutionMode::ViaHelper,
            warning: Some(_)
        }
    ));
    assert!(matches!(
        osbase_preflight(PreflightEvent::NotConnected {
            is_root: true,
            exe: None
        }),
        PreflightStep::Ready {
            mode: ExecutionMode::Direct,
            warning: None
        }
    ));
}

#[test]
fn anyone_else_is_refused() {
    match osbase_preflight(PreflightEvent::NotConnected {
        is_root: false,
        exe: s("/opt/anolisa"),
    }) {
        PreflightStep::Failed(e) => {
            assert_eq!(e.code(), "PERMISSION_DENIED");
            match e {
                CliError::PermissionDenied { hint, .. } => assert_eq!(
                    hint.as_deref(),
                    Some(
                        "Either:\n  1. Install helper: sudo /opt/anolisa system setup\n  \
                         2. Run directly: sudo /opt/anolisa osbase ..."
                    )
                ),
                other => panic!("expected a refusal, got {other:?}"),
            }
        }
        other => panic!("expected a failure, got {other:?}"),
    }
    for event in [
        PreflightEvent::SendFailed("x".to_string()),
        PreflightEvent::ReceiveFailed("x".to_string()),
        PreflightEvent::Replied(HelperResponse::Other {
            shown: "?".to_string(),
        }),
    ] {
        assert!(matches!(
            osbase_preflight(event),
            PreflightStep::Failed(CliError::Runtime { .. })
        ));
    }
}

#[test]
fn failed_preflights_fail_the_command() {
    let e = handle(
        install(None, false),
        &ctx(false, false),
        Err(CliError::not_implemented("x".to_string())),
        "default",
    )
    .expect_err("preflight");
    assert_eq!(e.code(), "NOT_IMPLEMENTED");
    assert_eq!(e.reason(), "command 'x' is not implemented yet");
}

#[test]
fn installs_go_to_the_helper() {
    match handle(
        install(Some("containerd"), false),
        &ctx(false, true),
        Ok(ExecutionMode::ViaHelper),
        "default",
    )
    .expect("action")
    {
        OsbaseAction::AskHelper { request, label } => {
            assert_eq!(label, "osbase sandbox install");
            match request {
                HelperRequest::OsbaseInstall {
                    scenario,
                    register_handler,
                    register_runtimeclass,
                    config_override,
                    set_default,
                    force,
                    skip_verify,
                    dry_run,
                } => {
                    assert_eq!(scenario, "gvisor");
                    assert_eq!(register_handler, "containerd");
                    assert!(register_runtimeclass && !set_default && force && !skip_verify);
                    assert!(dry_run, "the global flag counts");
                    assert_eq!(config_override.as_deref(), Some("panel"));
                }
                other => panic!("expected an install, got {other:?}"),
            }
        }
        other => panic!("expected to ask the helper, got {other:?}"),
    }
}

#[test]
fn installs_run_directly_for_root() {
    match handle(
        install(None, false),
        &ctx(true, false),
        Ok(ExecutionMode::Direct),
        "default",
    )
    .expect("action")
    {
        OsbaseAction::Install { request, prefix } => {
            assert_eq!(request.backend, SandboxBackendKind::Gvisor);
            assert_eq!(request.variant, "default");
            assert_eq!(request.runtime, None);
            assert!(request.json && request.force && !request.dry_run);
            assert_eq!(prefix.as_deref(), Some("/sys"));
        }
        other => panic!("expected an install, got {other:?}"),
    }
    assert!(matches!(
        handle(
            install(None, true),
            &ctx(false, false),
            Ok(ExecutionMode::Direct),
            "default"
        ),
        Ok(OsbaseAction::Plan(_))
    ));
}

#[test]
fn the_other_sandbox_commands_need_the_helper() {
    let remove = || {
        sandbox(SandboxCommands::Remove {
            target: SandboxTarget::Kata,
            variant: s("qemu"),
            purge: true,
            force: false,
            dry_run: false,
        })
    };
    match handle(remove(), &ctx(false, false), Ok(ExecutionMode::ViaHelper), "").expect("action") {
        OsbaseAction::AskHelper {
            request: HelperRequest::OsbaseRemove { scenario, purge },
            ..
        } => {
            assert_eq!(scenario, "kata");
            assert!(purge);
        }
        other => panic!("expected a removal, got {other:?}"),
    }
    let e = handle(remove(), &ctx(false, false), Ok(ExecutionMode::Direct), "").expect_err("direct");
    assert_eq!(
        e.reason(),
        "command 'osbase sandbox remove kata --variant=qemu' is not implemented yet"
    );
    let list = || {
        sandbox(SandboxCommands::List {
            available: true,
            json: false,
        })
    };
    assert!(matches!(
        handle(list(), &ctx(false, false), Ok(ExecutionMode::ViaHelper), ""),
        Ok(OsbaseAction::AskHelper {
            request: HelperRequest::OsbaseList { filter: Some(f) },
            ..
        }) if f == "available"
    ));
    let status = |target| {
        sandbox(SandboxCommands::Status {
            target,
            json: false,
        })
    };
    assert!(matches!(
        handle(
            status(Some(SandboxTarget::Vm)),
            &ctx(false, false),
            Ok(ExecutionMode::ViaHelper),
            ""
        ),
        Ok(OsbaseAction::AskHelper {
            request: HelperRequest::OsbaseStatus { scenario: Some(t) },
            ..
        }) if t == "vm"
    ));
    for args in [list(), status(None)] {
        let e = handle(args, &ctx(false, false), Ok(ExecutionMode::Direct), "").expect_err("direct");
        assert_eq!(e.code(), "NOT_IMPLEMENTED");
    }
}

#[test]
fn kernel_and_security_do_not_exist_yet() {
    let reason = |command| {
        handle(
            OsbaseArgs { command },
            &ctx(false, false),
            Ok(ExecutionMode::Direct),
            "",
        )
        .expect_err("missing")
        .reason()
    };
    let kernel = |command| OsbaseCommands::Kernel(KernelArgs { command });
    let security = |command| OsbaseCommands::Security(SecurityArgs { command });
    assert!(reason(kernel(KernelCommands::Install { dry_run: false })).contains("kernel install"));
    assert!(reason(kernel(KernelCommands::Remove)).contains("osbase kernel remove"));
    assert!(reason(kernel(KernelCommands::Status)).contains("osbase kernel status"));
    assert!(reason(security(SecurityCommands::Install {
        target: "selinux".to_string(),
        dry_run: true
    }))
    .contains("osbase security install selinux"));
    assert!(reason(security(SecurityCommands::Remove {
        target: "selinux".to_string()
    }))
    .contains("osbase security remove selinux"));
    assert!(reason(security(SecurityCommands::Status { target: None }))
        .contains("osbase security status"));
}

#[test]
fn replies_of_the_helper_are_told() {
    let reply = |r| helper_reply(HelperExchange::Replied(r), "osbase sandbox install");
    assert_eq!(
        reply(HelperResponse::Success {
            message: "fine".to_string(),
            exit_code: 0
        })
        .expect("success"),
        "fine"
    );
    assert_eq!(
        reply(HelperResponse::Success {
            message: "bad".to_string(),
            exit_code: -3
        })
        .expect_err("failure")
        .reason(),
        "bad (exit_code=-3)"
    );
    assert_eq!(
        reply(HelperResponse::Error {
            code: "E1".to_string(),
            message: "no".to_string()
        })
        .expect_err("error")
        .reason(),
        "[E1] no"
    );
    assert_eq!(
        reply(HelperResponse::Other {
            shown: "Pong".to_string()
        })
        .expect_err("other")
        .reason(),
        "unexpected response from system-helper: Pong"
    );
    assert_eq!(
        helper_reply(HelperExchange::SendFailed("pipe".to_string()), "l")
            .expect_err("send")
            .reason(),
        "failed to send request to system-helper: pipe"
    );
    assert_eq!(
        helper_reply(HelperExchange::ReceiveFailed("eof".to_string()), "l")
            .expect_err("receive")
            .reason(),
        "failed to receive response from system-helper: eof"
    );
}

#[test]
fn broken_off_runs_are_the_callers_or_ours() {
    let code = |e: SandboxInstallError| {
        map_sandbox_err(&e, "shown".to_string(), SandboxBackendKind::Kata, "qemu").code()
    };
    assert_eq!(code(SandboxInstallError::NotRoot), "INVALID_ARGUMENT");
    assert_eq!(
        code(SandboxInstallError::EnvNotSatisfied {
            reason: String::new(),
            remediation: None
        }),
        "INVALID_ARGUMENT"
    );
    assert_eq!(
        code(SandboxInstallError::PackageFailed(String::new())),
        "EXECUTION_FAILED"
    );
    assert_eq!(code(SandboxInstallError::LockHeld), "EXECUTION_FAILED");
    assert_eq!(
        install_label(SandboxBackendKind::Kata, "qemu"),
        "osbase sandbox install kata --variant=qemu"
    );
    assert_eq!(
        sandbox_target_to_kind(&SandboxTarget::Landlock),
        SandboxBackendKind::Landlock
    );
    assert_eq!(SandboxTarget::Firecracker.as_str(), "firecracker");
}

#[test]
fn plans_are_shown_phase_by_phase() {
    let plan = SandboxPlan {
        backend: "gvisor".to_string(),
        variant: "default".to_string(),
        phases: vec![
            SandboxPlanPhase {
                phase: InstallPhase::Preflight,
                label: "Preflight".to_string(),
                actions: vec!["check kernel".to_string()],
            },
            SandboxPlanPhase {
                phase: InstallPhase::PostVerify,
                label: "Verify".to_string(),
                actions: Vec::new(),
            },
        ],
    };
    assert_eq!(
        render_dry_run_plan(&plan),
        vec![
            "Install plan for: gvisor (variant=default)",
            "",
            "Phase 1: Preflight",
            "  - check kernel",
            "",
            "Phase 5: Verify",
            "",
        ]
    );
    assert_eq!(phase_number(InstallPhase::OsPrimitives), 3);
    let request = SandboxInstallRequest {
        backend: SandboxBackendKind::Gvisor,
        variant: "default".to_string(),
        runtime: None,
        control_panel: None,
        dry_run: true,
        force: false,
        skip_verify: false,
        json: false,
    };
    let mut c = ctx(false, true);
    let report = render_plan_report(&c, &request, &plan);
    assert_eq!(report.json, None);
    assert_eq!(report.out, render_dry_run_plan(&plan));
    c.json = true;
    let report = render_plan_report(&c, &request, &plan);
    assert_eq!(
        report.json.as_deref(),
        Some("osbase sandbox install gvisor --variant=default")
    );
    assert!(report.out.is_empty());
}

#[test]
fn outcomes_are_shown_and_end_the_command() {
    let outcome = |exit_code| SandboxInstallOutcome {
        backend: SandboxBackendKind::Gvisor,
        variant: "default".to_string(),
        phases: vec![SandboxPhaseOutcome {
            phase: InstallPhase::Packages,
            label: "Packages".to_string(),
            status: SandboxPhaseStatus::Success,
            message: "2 installed".to_string(),
        }],
        exit_code,
        warnings: vec!["w".to_string()],
    };
    let r = render_install_outcome(&ctx(false, false), &outcome(0));
    assert_eq!(
        r.out,
        vec![
            "[1/1] Packages   \u{2713}  (2 installed)",
            "",
            "sandbox backend 'gvisor' (variant=default) installed successfully.",
        ]
    );
    assert_eq!(r.err, vec!["", "warning: w"]);
    assert!(r.result.is_ok());
    let r = render_install_outcome(&ctx(false, false), &outcome(2));
    assert_eq!(r.result.expect_err("degraded").code(), "DEGRADED");
    let r = render_install_outcome(&ctx(true, false), &outcome(1));
    assert!(r.out.is_empty() && r.err.is_empty() && r.json.is_none());
    assert_eq!(
        r.result.expect_err("failed").reason(),
        "sandbox backend 'gvisor' (variant=default) install failed (exit_code=1)"
    );
    let r = render_install_outcome(&ctx(true, false), &outcome(0));
    assert_eq!(
        r.json.as_deref(),
        Some("osbase sandbox install gvisor --variant=default")
    );
}
