use anolisa::adapter::driver::{CliOutput, FrameworkCommand};
use anolisa::adapter::process::{
    call_record, call_record_at, keep_capped, killed_output, prepend_path, spawn_failed, wait_step,
    Poll, WaitStep, OUTPUT_CAP, POLL_MS,
};
use anolisa::adapter::AdapterError;
use anolisa::central_log::{LogDetails, LogOrigin, LogStatus, Severity};
use anolisa::context::InstallMode;

fn cmd(timeout_ms: u64) -> FrameworkCommand {
    FrameworkCommand {
        program: "/no/such/binary/xyz".to_string(),
        args: vec!["-c".to_string(), "exit 3".to_string()],
        env_set: Vec::new(),
        env_remove: Vec::new(),
        path_prepend: Vec::new(),
        timeout_ms,
    }
}

fn origin() -> LogOrigin {
    LogOrigin {
        actor: "cli".to_string(),
        mode: InstallMode::User,
        component: "tokenless".to_string(),
        command: "adapter enable tokenless openclaw".to_string(),
    }
}

#[test]
fn prepend_path_puts_dirs_in_front() {
    let dirs = prepend_path(
        &vec!["/opt/a".to_string(), "/opt/b".to_string()],
        &Some(vec!["/usr/bin".to_string(), "/bin".to_string()]),
    );
    assert_eq!(dirs[0], "/opt/a");
    assert_eq!(dirs[1], "/opt/b");
    assert!(dirs.contains(&"/usr/bin".to_string()));
    assert_eq!(prepend_path(&vec!["/opt/a".to_string()], &None), vec!["/opt/a"]);
}

#[test]
fn spawn_failure_is_framework_cli_error() {
    let err = spawn_failed(&cmd(5000), "No such file or directory");
    assert!(matches!(err, AdapterError::FrameworkCli { .. }));
    assert_eq!(
        err.message(),
        "framework command '/no/such/binary/xyz' failed: failed to spawn: No such file or directory"
    );
}

#[test]
fn programs_are_waited_for_until_their_time_is_up() {
    let c = cmd(150);
    assert!(matches!(
        wait_step(Poll::Ended(Some(3)), 10_000, &c),
        WaitStep::Collect {
            status: Some(3),
            timed_out: false
        }
    ));
    assert!(matches!(wait_step(Poll::Running, 149, &c), WaitStep::Wait));
    assert!(matches!(wait_step(Poll::Running, 150, &c), WaitStep::Kill));
    assert!(matches!(
        wait_step(Poll::Failed("gone".to_string()), 0, &c),
        WaitStep::Fail(AdapterError::FrameworkCli { .. })
    ));
    let out = killed_output("part".to_string(), String::new());
    assert!(out.timed_out, "expected timeout");
    assert!(!out.success());
    assert_eq!(out.stdout, "part");
    assert_eq!(POLL_MS, 20);
}

#[test]
fn output_is_capped_whatever_the_chunks() {
    let mut kept = Vec::new();
    keep_capped(&mut kept, b"abc", 5);
    keep_capped(&mut kept, b"defg", 5);
    keep_capped(&mut kept, b"h", 5);
    assert_eq!(kept, b"abcde");
    let mut at_once = Vec::new();
    keep_capped(&mut at_once, b"abcdefgh", 5);
    assert_eq!(kept, at_once);
    assert_eq!(OUTPUT_CAP, 64 * 1024);
}

#[test]
fn success_needs_exit_zero_in_time() {
    let out = |status, timed_out| CliOutput {
        status,
        timed_out,
        stdout: String::new(),
        stderr: String::new(),
    };
    assert!(out(Some(0), false).success());
    assert!(!out(Some(3), false).success());
    assert!(!out(None, false).success());
    assert!(!out(Some(0), true).success());
}

#[test]
fn calls_are_recorded() {
    let output = CliOutput {
        status: Some(3),
        timed_out: false,
        stdout: String::new(),
        stderr: "boom".to_string(),
    };
    let r = call_record_at(
        &origin(),
        &cmd(5000),
        &output,
        "2026-06-01T10:00:00Z".to_string(),
    );
    assert_eq!(r.command, "adapter enable tokenless openclaw");
    assert_eq!(r.component.as_deref(), Some("tokenless"));
    assert_eq!(r.started_at, "2026-06-01T10:00:00Z");
    assert_eq!(r.finished_at.as_deref(), Some("2026-06-01T10:00:00Z"));
    assert_eq!(r.status, Some(LogStatus::Failed));
    assert_eq!(r.severity, Severity::Warn);
    assert_eq!(r.message, "framework cli: /no/such/binary/xyz -c exit 3");
    assert!(matches!(
        r.details,
        LogDetails::Call {
            exit: Some(3),
            timed_out: false
        }
    ));
    let now = call_record(&origin(), &cmd(5000), &output);
    assert!(chrono::DateTime::parse_from_rfc3339(&now.started_at).is_ok());
    assert!(now.started_at.ends_with('Z'));
    assert_eq!(now.started_at.len(), 20);
}
