use anolisa::adapter::claim::{AdapterClaim, ClaimStatus};
use anolisa::adapter::driver::{
    AdapterBundle, AdapterConditionKind, AdapterSummary, CliOutput, ConditionStatus,
};
use anolisa::adapter::openclaw::{
    build_install_cmd, build_list_cmd, build_uninstall_cmd, claim_plugin_id, cli_failure_reason,
    display_command, list_contains_plugin, openclaw_bin, openclaw_home, path_prepend,
    plugin_manifest_at, read_plugin_manifest_id, summarize, BundleFacts, DirLook, DisableStep,
    DriverCtx, OpenClawDriver, OpenClawEnv, OpenClawProbe, PluginListing, PluginManifestRead,
};
use anolisa::adapter::AdapterError;

fn s(text: &str) -> Option<String> {
    Some(text.to_string())
}

fn env() -> OpenClawEnv {
    OpenClawEnv {
        bin_override: None,
        home_override: None,
        user_home: s("/home/u"),
    }
}

fn ctx(declared: Option<String>) -> DriverCtx {
    DriverCtx {
        component: "tokenless".to_string(),
        resource_root: "/data/adapters/tokenless/openclaw".to_string(),
        declared_plugin_id: declared,
        env: env(),
    }
}

fn bundle(id: Option<&str>) -> AdapterBundle {
    AdapterBundle {
        resource_root: "/data/adapters/tokenless/openclaw".to_string(),
        digest: s("sha256:1"),
        plugin_id: id.map(String::from),
    }
}

fn claim() -> AdapterClaim {
    OpenClawDriver::new()
        .prepare_enable_at(
            &bundle(Some("tokenless")),
            &ctx(None),
            "2026-06-01T10:00:00Z".to_string(),
        )
        .expect("receipt")
}

fn facts(look: DirLook, plugin_manifest: PluginManifestRead) -> BundleFacts {
    BundleFacts {
        look,
        plugin_manifest,
        digest: s("sha256:1"),
    }
}

fn output(status: Option<i32>, stdout: &str, stderr: &str) -> CliOutput {
    CliOutput {
        status,
        timed_out: false,
        stdout: stdout.to_string(),
        stderr: stderr.to_string(),
    }
}

fn found() -> OpenClawProbe {
    OpenClawProbe {
        cli_at: s("/usr/bin/openclaw"),
        home_exists: true,
    }
}

fn missing() -> OpenClawProbe {
    OpenClawProbe {
        cli_at: None,
        home_exists: true,
    }
}

#[test]
fn list_contains_plugin_matches_whole_token() {
    assert!(list_contains_plugin("tokenless\nother\n", "tokenless"));
    assert!(list_contains_plugin("- tokenless (v1.2)\n", "tokenless"));
    assert!(!list_contains_plugin("tokenless-extra\n", "tokenless"));
    assert!(!list_contains_plugin("", "tokenless"));
}

#[test]
fn install_cmd_mirrors_script_contract() {
    let cmd = build_install_cmd(
        openclaw_bin(&None),
        "/data/adapters/tokenless/openclaw",
        "/home/u/.openclaw",
        &s("/home/u"),
    );
    assert_eq!(cmd.program, "openclaw");
    assert_eq!(
        cmd.args,
        vec![
            "plugins",
            "install",
            "/data/adapters/tokenless/openclaw",
            "--force",
            "--dangerously-force-unsafe-install",
        ]
    );
    assert!(cmd.env_remove.contains(&"OPENCLAW_HOME".to_string()));
    assert_eq!(
        cmd.env_set,
        vec![(
            "OPENCLAW_STATE_DIR".to_string(),
            "/home/u/.openclaw".to_string()
        )]
    );
    assert_eq!(cmd.path_prepend[0], "/home/u/.local/bin");
}

#[test]
fn uninstall_cmd_uses_force() {
    let cmd = build_uninstall_cmd(
        openclaw_bin(&None),
        "tokenless",
        "/home/u/.openclaw",
        &s("/home/u"),
    );
    assert_eq!(
        cmd.args,
        vec!["plugins", "uninstall", "tokenless", "--force"]
    );
}

#[test]
fn plugin_manifest_id_is_read_from_real_openclaw_shape() {
    let value: serde_json::Value =
        serde_json::from_slice(br#"{"id":"tokenless","name":"Tokenless"}"#).expect("json");
    let id = value.get("id").and_then(|v| v.as_str()).map(String::from);
    assert_eq!(
        read_plugin_manifest_id("/r", PluginManifestRead::Parsed { id }).expect("read"),
        s("tokenless")
    );
}

#[test]
fn summarize_prioritizes_cleanup_failed() {
    assert_eq!(
        summarize(ClaimStatus::CleanupFailed, true, ConditionStatus::True),
        AdapterSummary::CleanupFailed
    );
}

#[test]
fn summarize_healthy_only_when_detected_and_registered() {
    assert_eq!(
        summarize(ClaimStatus::Enabled, true, ConditionStatus::True),
        AdapterSummary::Healthy
    );
    assert_eq!(
        summarize(ClaimStatus::Enabled, false, ConditionStatus::True),
        AdapterSummary::Degraded
    );
    assert_eq!(
        summarize(ClaimStatus::Enabled, true, ConditionStatus::False),
        AdapterSummary::Degraded
    );
    assert_eq!(
        summarize(ClaimStatus::Enabled, true, ConditionStatus::Unknown),
        AdapterSummary::Unknown
    );
}

#[test]
fn overrides_of_program_and_home_must_not_be_empty() {
    assert_eq!(openclaw_bin(&s("/opt/oc")), "/opt/oc");
    assert_eq!(openclaw_bin(&s("")), "openclaw");
    assert_eq!(openclaw_home(&s("/srv/oc//"), &s("/home/u")), s("/srv/oc"));
    assert_eq!(openclaw_home(&s("/"), &s("/home/u")), s("/home/u/.openclaw"));
    assert_eq!(openclaw_home(&None, &None), None);
    assert_eq!(
        path_prepend("/srv/oc", &None),
        vec!["/srv/oc/bin", "/usr/local/bin"]
    );
}

#[test]
fn commands_are_shown_with_their_environment() {
    let cmd = build_list_cmd(openclaw_bin(&None), "/h", &None);
    assert_eq!(cmd.args, vec!["plugins", "list"]);
    assert_eq!(
        display_command(&cmd),
        "OPENCLAW_STATE_DIR=/h openclaw plugins list"
    );
}

#[test]
fn detection_goes_by_the_program() {
    let d = OpenClawDriver::new();
    assert_eq!(d.name(), "openclaw");
    let r = d.detect(&env(), &found());
    assert!(r.detected);
    assert_eq!(r.reason, "openclaw CLI found at /usr/bin/openclaw");
    let r = d.detect(&env(), &missing());
    assert!(!r.detected);
    assert_eq!(
        r.reason,
        "openclaw CLI not found on PATH (home /home/u/.openclaw exists but CLI is not on PATH)"
    );
    assert_eq!(d.allowed_external_roots(&env()), vec!["/home/u/.openclaw"]);
}

#[test]
fn plugin_manifests_must_declare_an_id() {
    assert_eq!(plugin_manifest_at("/r"), "/r/openclaw.plugin.json");
    assert_eq!(
        read_plugin_manifest_id("/r", PluginManifestRead::Missing).expect("none"),
        None
    );
    let e = read_plugin_manifest_id("/r", PluginManifestRead::Parsed { id: s("") })
        .expect_err("empty");
    assert_eq!(
        e.message(),
        "invalid adapter resources at /r: /r/openclaw.plugin.json does not declare a non-empty id"
    );
    let e = read_plugin_manifest_id("/r", PluginManifestRead::Malformed("eof".to_string()))
        .expect_err("malformed");
    assert_eq!(
        e.message(),
        "invalid adapter resources at /r: failed to parse /r/openclaw.plugin.json as OpenClaw plugin manifest: eof"
    );
    let e = read_plugin_manifest_id("/r", PluginManifestRead::Failed("denied".to_string()))
        .expect_err("io");
    assert!(matches!(e, AdapterError::Io { .. }));
}

#[test]
fn bundles_take_the_declared_id_first() {
    let d = OpenClawDriver::new();
    let parsed = || PluginManifestRead::Parsed { id: s("manifest-id") };
    let b = d
        .read_bundle(&ctx(s("declared-id")), facts(DirLook::Filled, parsed()))
        .expect("bundle");
    assert_eq!(b.plugin_id.as_deref(), Some("declared-id"));
    assert_eq!(b.digest.as_deref(), Some("sha256:1"));
    let b = d
        .read_bundle(&ctx(None), facts(DirLook::Filled, parsed()))
        .expect("bundle");
    assert_eq!(b.plugin_id.as_deref(), Some("manifest-id"));
    let b = d
        .read_bundle(
            &ctx(None),
            facts(DirLook::Filled, PluginManifestRead::Missing),
        )
        .expect("bundle");
    assert_eq!(b.plugin_id.as_deref(), Some("tokenless"));
    for look in [DirLook::NotADirectory, DirLook::Empty] {
        let e = d
            .read_bundle(&ctx(None), facts(look, PluginManifestRead::Missing))
            .expect_err("no resources");
        assert!(matches!(e, AdapterError::BundleInvalid { .. }));
    }
    let e = d
        .read_bundle(
            &ctx(None),
            facts(
                DirLook::Failed("denied".to_string()),
                PluginManifestRead::Missing,
            ),
        )
        .expect_err("io");
    assert!(matches!(e, AdapterError::Io { .. }));
}

#[test]
fn plans_show_the_command() {
    let d = OpenClawDriver::new();
    let plan = d.plan_enable(&bundle(Some("tokenless")), &ctx(None)).expect("plan");
    assert_eq!(plan.framework, "openclaw");
    assert_eq!(plan.component, "tokenless");
    assert_eq!(
        plan.actions,
        vec!["register openclaw plugin 'tokenless' from /data/adapters/tokenless/openclaw"]
    );
    assert_eq!(
        plan.register_command.as_deref(),
        Some(
            "OPENCLAW_STATE_DIR=/home/u/.openclaw openclaw plugins install \
             /data/adapters/tokenless/openclaw --force --dangerously-force-unsafe-install"
        )
    );
    assert!(matches!(
        d.plan_enable(&bundle(None), &ctx(None)),
        Err(AdapterError::BundleInvalid { .. })
    ));
    assert!(matches!(
        d.plan_enable(&bundle(Some("-x")), &ctx(None)),
        Err(AdapterError::ClaimValidation(_))
    ));
}

#[test]
fn receipts_name_the_plugin_and_the_home() {
    let c = claim();
    assert_eq!(c.component, "tokenless");
    assert_eq!(c.framework, "openclaw");
    assert_eq!(c.enabled_at, "2026-06-01T10:00:00Z");
    assert_eq!(c.bundle_digest.as_deref(), Some("sha256:1"));
    assert_eq!(c.status, ClaimStatus::Enabled);
    assert_eq!(c.resources.len(), 2);
    assert_eq!(claim_plugin_id(&c), s("tokenless"));
    let mut bare = claim();
    bare.resources.clear();
    bare.plugin_id = s("top");
    assert_eq!(claim_plugin_id(&bare), s("top"));
    let now = OpenClawDriver::new()
        .prepare_enable(&bundle(Some("tokenless")), &ctx(None))
        .expect("receipt");
    assert!(chrono::DateTime::parse_from_rfc3339(&now.enabled_at).is_ok());
}

#[test]
fn failures_tell_the_code_and_standard_error() {
    assert_eq!(
        cli_failure_reason("plugins install", &output(Some(3), "", " no\n")),
        "'plugins install' exited with 3: no"
    );
    assert_eq!(
        cli_failure_reason("plugins install", &output(Some(-1), "", " ")),
        "'plugins install' exited with -1"
    );
    assert_eq!(
        cli_failure_reason("plugins install", &output(None, "", "")),
        "'plugins install' exited with killed"
    );
    let mut out = output(None, "", "x");
    out.timed_out = true;
    assert_eq!(
        cli_failure_reason("plugins install", &out),
        "'plugins install' timed out"
    );
}

#[test]
fn enabling_runs_the_install_command() {
    let d = OpenClawDriver::new();
    let cmd = d.enable_command(&claim(), &env()).expect("command");
    assert_eq!(cmd.args[1], "install");
    assert!(d
        .enable_result("openclaw".to_string(), &output(Some(0), "", ""))
        .is_ok());
    let e = d
        .enable_result("openclaw".to_string(), &output(Some(1), "", "bad"))
        .expect_err("failed");
    assert_eq!(
        e.message(),
        "framework command 'openclaw' failed: 'plugins install' exited with 1: bad"
    );
}

#[test]
fn status_is_healthy_only_when_verified() {
    let d = OpenClawDriver::new();
    let digest = s("sha256:1");
    let cmd = d.status_command(&claim(), &env(), &found()).expect("listing");
    assert_eq!(cmd.args, vec!["plugins", "list"]);
    let listed = PluginListing::Ran(output(Some(0), "tokenless 1.0", ""));
    let r = d.status(&claim(), &env(), &found(), &digest, &listed);
    assert_eq!(r.summary, AdapterSummary::Healthy);
    assert_eq!(r.conditions.len(), 4);
    assert_eq!(
        r.conditions[1].kind,
        AdapterConditionKind::ResourceBundleMatches
    );
    assert_eq!(r.conditions[1].status, ConditionStatus::True);
    let unlisted = PluginListing::Ran(output(Some(0), "other", ""));
    let r = d.status(&claim(), &env(), &found(), &s("sha256:2"), &unlisted);
    assert_eq!(r.summary, AdapterSummary::Degraded);
    assert_eq!(r.conditions[1].status, ConditionStatus::False);
    assert_eq!(
        r.conditions[2].reason.as_deref(),
        Some("plugin not present in `plugins list`")
    );
    let r = d.status(&claim(), &env(), &found(), &None, &PluginListing::Failed);
    assert_eq!(r.summary, AdapterSummary::Unknown);
    let r = d.status(&claim(), &env(), &missing(), &digest, &PluginListing::NotRun);
    assert_eq!(r.summary, AdapterSummary::Degraded);
    assert!(d.status_command(&claim(), &env(), &missing()).is_none());
    let mut failed = claim();
    failed.status = ClaimStatus::CleanupFailed;
    let listed = PluginListing::Ran(output(Some(0), "tokenless", ""));
    let r = d.status(&failed, &env(), &found(), &digest, &listed);
    assert_eq!(r.summary, AdapterSummary::CleanupFailed);
}

#[test]
fn disabling_needs_the_program() {
    let d = OpenClawDriver::new();
    match d.disable(&claim(), &env(), &s("/usr/bin/openclaw")).expect("step") {
        DisableStep::Run { command, plugin_id } => {
            assert_eq!(command.args[1], "uninstall");
            assert_eq!(plugin_id, "tokenless");
        }
        other => panic!("expected a run, got {other:?}"),
    }
    match d.disable(&claim(), &env(), &None).expect("step") {
        DisableStep::Done(report) => assert!(!report.cleanup_complete),
        other => panic!("expected a report, got {other:?}"),
    }
    let r = d.disable_result("tokenless", &output(Some(0), "", ""));
    assert!(r.cleanup_complete);
    assert_eq!(r.messages, vec!["unregistered openclaw plugin 'tokenless'"]);
    let r = d.disable_result("tokenless", &output(Some(1), "", ""));
    assert!(!r.cleanup_complete);
    assert_eq!(
        r.messages,
        vec!["openclaw plugin uninstall failed: 'plugins uninstall' exited with 1"]
    );
}
