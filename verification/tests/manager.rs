use anolisa::adapter::claim::{AdapterClaim, ClaimStatus, PathFacts};
use anolisa::adapter::disable::{DisableNext, DisableTarget};
use anolisa::adapter::driver::{AdapterSummary, CliOutput, DriverPlan};
use anolisa::adapter::enable::{
    EnableApply, EnableClaim, EnableEnd, EnableNext, EnableOutcome, EnableRequest, EnableSave,
    EnableSource,
};
use anolisa::adapter::manager::{
    check_manifest, declared_frameworks, declared_plugin_id, driver_for,
    installed_component_manifest_path, log_operation_at, not_installed, resolve_framework,
    AdapterManager, SearchStep,
};
use anolisa::adapter::openclaw::{
    BundleFacts, DirLook, OpenClawEnv, OpenClawProbe, PluginListing, PluginManifestRead,
};
use anolisa::adapter::scan::{Declarations, FoundAdapter, ManifestRead, RecordSource};
use anolisa::adapter::status::{unverified_report, StatusStep};
use anolisa::adapter::AdapterError;
use anolisa::central_log::{LogKind, LogOrigin, LogStatus, Severity};
use anolisa::context::InstallMode;
use anolisa::layout::FsLayout;
use anolisa::manifest::{
    current_schema_version, default_runtime_layer, AdapterRaw, ComponentManifest,
    ComponentManifestRaw, ComponentMetaRaw, DependenciesRaw, EnvRequirementsRaw,
};
use anolisa::state::{
    InstalledObject, InstalledState, ObjectKind, ObjectStatus, SubscriptionScope,
};

fn s(text: &str) -> Option<String> {
    Some(text.to_string())
}

fn is_utc_time(text: &str) -> bool {
    text.len() == 20
        && text.char_indices().all(|(i, c)| match i {
            4 | 7 => c == '-',
            10 => c == 'T',
            13 | 16 => c == ':',
            19 => c == 'Z',
            _ => c.is_ascii_digit(),
        })
}

fn layout() -> FsLayout {
    FsLayout {
        mode: InstallMode::User,
        prefix: "/home/u/.local".to_string(),
        bin_dir: "/home/u/.local/bin".to_string(),
        lib_dir: "/home/u/.local/lib/anolisa".to_string(),
        libexec_dir: "/home/u/.local/libexec/anolisa".to_string(),
        datadir: "/home/u/.local/share/anolisa".to_string(),
        etc_dir: "/home/u/.config/anolisa".to_string(),
        state_dir: "/home/u/.local/state/anolisa".to_string(),
        log_dir: "/home/u/.local/state/anolisa/log".to_string(),
        cache_dir: "/home/u/.cache/anolisa".to_string(),
        lock_file: "/home/u/.local/state/anolisa/lock".to_string(),
        central_log: "/home/u/.local/state/anolisa/log/central.jsonl".to_string(),
    }
}

fn env() -> OpenClawEnv {
    OpenClawEnv {
        bin_override: None,
        home_override: None,
        user_home: s("/home/u"),
    }
}

fn manager() -> AdapterManager {
    AdapterManager::new(layout(), env(), "cli".to_string())
}

fn manifest(name: &str, frameworks: &[&str]) -> ComponentManifest {
    ComponentManifest::from(ComponentManifestRaw {
        schema_version: current_schema_version(),
        component: ComponentMetaRaw {
            name: name.to_string(),
            version: "0.5.0".to_string(),
            layer: default_runtime_layer(),
            domain: None,
            display_name: None,
            owner: None,
            license: None,
            repository: None,
            contract: None,
            platform: None,
            artifact: None,
            layout: None,
            health_check: None,
        },
        source: None,
        distribution: None,
        build: None,
        install: None,
        environment: EnvRequirementsRaw::default(),
        dependencies: DependenciesRaw {
            build: Vec::new(),
            runtime: Vec::new(),
            components: Vec::new(),
        },
        features: Vec::new(),
        adapters: frameworks
            .iter()
            .map(|f| AdapterRaw {
                name: None,
                framework: s(f),
                kind: None,
                plugin_id: s("tokenless-plugin"),
                source: None,
                dest: None,
                detect: Vec::new(),
            })
            .collect(),
        health_checks: Vec::new(),
    })
}

fn object(name: &str, status: ObjectStatus) -> InstalledObject {
    InstalledObject {
        kind: ObjectKind::Component,
        name: name.to_string(),
        version: "0.5.0".to_string(),
        status,
        manifest_digest: None,
        distribution_source: None,
        install_backend: s("raw"),
        installed_at: "2026-06-01T10:00:00Z".to_string(),
        last_operation_id: None,
        managed: true,
        adopted: false,
        subscription_scope: SubscriptionScope::default(),
        enabled_features: Vec::new(),
        component_refs: Vec::new(),
        files: Vec::new(),
        external_modified_files: Vec::new(),
        services: Vec::new(),
        health: Vec::new(),
    }
}

fn state(objects: Vec<InstalledObject>, claims: Vec<AdapterClaim>) -> InstalledState {
    InstalledState {
        install_mode: InstallMode::User,
        prefix: "/home/u/.local".to_string(),
        objects,
        operations: Vec::new(),
        adapter_claims: claims,
    }
}

fn no_facts(n: usize) -> Vec<PathFacts> {
    (0..n)
        .map(|_| PathFacts {
            boundary: None,
            canonical: None,
        })
        .collect()
}

fn facts() -> BundleFacts {
    BundleFacts {
        look: DirLook::Filled,
        plugin_manifest: PluginManifestRead::Missing,
        digest: s("sha256:1"),
    }
}

fn probe(cli_at: Option<&str>) -> OpenClawProbe {
    OpenClawProbe {
        cli_at: cli_at.map(String::from),
        home_exists: true,
    }
}

fn output(status: i32, stdout: &str) -> CliOutput {
    CliOutput {
        status: Some(status),
        timed_out: false,
        stdout: stdout.to_string(),
        stderr: String::new(),
    }
}

fn source(dry_run: bool) -> EnableSource {
    let target = manager()
        .enable(
            EnableRequest {
                component: "tokenless".to_string(),
                framework: None,
                dry_run,
            },
            &manifest("tokenless", &["openclaw"]),
        )
        .expect("target");
    assert_eq!(
        target.candidates,
        vec!["/home/u/.local/share/anolisa/adapters/tokenless/openclaw"]
    );
    target.found(&env(), &vec![true]).expect("resources")
}

fn planned() -> DriverPlan {
    match source(true).read(facts()).expect("read") {
        EnableNext::Ended(EnableOutcome::Planned(plan)) => plan,
        other => panic!("expected a plan, got {other:?}"),
    }
}

fn drawn() -> EnableClaim {
    match source(false).read(facts()).expect("read") {
        EnableNext::Detect(bundle) => bundle
            .detected(&probe(Some("/usr/bin/openclaw")))
            .expect("detected"),
        other => panic!("expected to look for the framework, got {other:?}"),
    }
}

fn saving() -> EnableSave {
    let claim = drawn();
    let n = claim.claim.resources.len();
    claim
        .validated(
            vec!["/home/u/.openclaw".to_string()],
            &no_facts(n),
            state(Vec::new(), Vec::new()),
        )
        .expect("sound")
}

fn enabled() -> InstalledState {
    saving().state
}

#[test]
fn dry_runs_only_plan() {
    let plan = planned();
    assert_eq!(
        plan.actions,
        vec![
            "register openclaw plugin 'tokenless-plugin' from \
             /home/u/.local/share/anolisa/adapters/tokenless/openclaw"
        ]
    );
}

#[test]
fn receipts_are_saved_before_anything_runs() {
    let save = saving();
    assert_eq!(save.state.adapter_claims.len(), 1);
    assert_eq!(save.state.adapter_claims[0].status, ClaimStatus::Enabled);
    let e = saving()
        .saved(Err("disk full".to_string()))
        .expect_err("not saved");
    assert_eq!(e.message(), "installed state: disk full");
    match saving().saved(Ok(())).expect("saved") {
        EnableApply::Run(run) => assert_eq!(run.command.args[1], "install"),
        other => panic!("expected a run, got {other:?}"),
    }
}

#[test]
fn enabling_ends_with_the_receipt() {
    let run = match saving().saved(Ok(())).expect("saved") {
        EnableApply::Run(run) => run,
        other => panic!("expected a run, got {other:?}"),
    };
    match run.applied(Ok(output(0, ""))) {
        EnableEnd::Enabled {
            outcome: EnableOutcome::Enabled(claim),
            log,
        } => {
            assert!(is_utc_time(&log.started_at), "{}", log.started_at);
            assert!(is_utc_time(&claim.enabled_at), "{}", claim.enabled_at);
            assert_eq!(log.kind, LogKind::Operation);
            assert_eq!(claim.plugin_id.as_deref(), Some("tokenless-plugin"));
            assert_eq!(log.message, "adapter enabled");
            assert_eq!(log.command, "adapter enable tokenless openclaw");
            assert_eq!(log.status, Some(LogStatus::Done));
        }
        other => panic!("expected success, got {other:?}"),
    }
}

#[test]
fn failed_runs_leave_a_marked_receipt() {
    let run = match saving().saved(Ok(())).expect("saved") {
        EnableApply::Run(run) => run,
        other => panic!("expected a run, got {other:?}"),
    };
    let failed = match run.applied(Ok(output(2, ""))) {
        EnableEnd::Failed(f) => f,
        other => panic!("expected a failure, got {other:?}"),
    };
    assert_eq!(failed.state.adapter_claims.len(), 1);
    assert_eq!(
        failed.state.adapter_claims[0].status,
        ClaimStatus::CleanupFailed
    );
    let (error, log) = failed.recorded(Err("disk full".to_string()));
    assert!(matches!(error, AdapterError::FrameworkCli { .. }));
    assert_eq!(log.status, Some(LogStatus::Partial));
    assert_eq!(
        log.message,
        "adapter enable failed; receipt status update failed"
    );
    assert!(log.warnings[0].contains("disk full"));
}

#[test]
fn unsound_receipts_go_nowhere() {
    let claim = drawn();
    let n = claim.claim.resources.len();
    let mut facts = no_facts(n);
    facts[0].canonical = s("/etc");
    let e = claim
        .validated(
            vec!["/home/u/.openclaw".to_string()],
            &facts,
            state(Vec::new(), Vec::new()),
        )
        .expect_err("leads out");
    assert!(matches!(e, AdapterError::ClaimValidation(_)));
}

#[test]
fn frameworks_must_be_there_to_be_enabled() {
    match source(false).read(facts()).expect("read") {
        EnableNext::Detect(bundle) => {
            let e = bundle.detected(&probe(None)).expect_err("no program");
            assert!(matches!(e, AdapterError::FrameworkNotDetected { .. }));
        }
        other => panic!("expected to look for the framework, got {other:?}"),
    }
    let target = manager()
        .enable(
            EnableRequest {
                component: "tokenless".to_string(),
                framework: s("openclaw"),
                dry_run: false,
            },
            &manifest("tokenless", &["openclaw"]),
        )
        .expect("target");
    let e = target.found(&env(), &vec![false]).expect_err("no resources");
    assert!(matches!(e, AdapterError::ResourceRootNotFound { .. }));
}

#[test]
fn frameworks_are_resolved_by_the_manifest() {
    let two = manifest("tokenless", &["openclaw", "hermes", "openclaw"]);
    assert_eq!(declared_frameworks(&two), vec!["hermes", "openclaw"]);
    assert_eq!(declared_plugin_id(&two, "openclaw"), s("tokenless-plugin"));
    assert_eq!(declared_plugin_id(&two, "other"), None);
    assert_eq!(
        resolve_framework("tokenless", &s("hermes"), &two).expect("named"),
        "hermes"
    );
    let e = resolve_framework("tokenless", &None, &two).expect_err("two");
    assert_eq!(
        e.message(),
        "component 'tokenless' has more than one framework: hermes, openclaw"
    );
    let e = resolve_framework("tokenless", &s("x"), &two).expect_err("undeclared");
    assert!(matches!(e, AdapterError::AdapterNotDeclared { .. }));
    let none = manifest("tokenless", &[]);
    let e = resolve_framework("tokenless", &None, &none).expect_err("none");
    assert_eq!(
        e.message(),
        "component 'tokenless' declares no adapter for framework '<any>'"
    );
    let one = manifest("tokenless", &["hermes"]);
    let e = manager()
        .enable(
            EnableRequest {
                component: "tokenless".to_string(),
                framework: None,
                dry_run: false,
            },
            &one,
        )
        .expect_err("no driver");
    assert!(matches!(e, AdapterError::UnknownFramework { .. }));
    assert!(driver_for("openclaw").is_some());
    assert!(driver_for("hermes").is_none());
}

#[test]
fn directories_are_told_apart_by_their_parts() {
    let mut m = manager();
    m.push_state_root("/var/lib/anolisa".to_string());
    m.push_state_root("/var//lib/./anolisa/".to_string());
    m.push_state_root("/home/u/.local/state/anolisa/".to_string());
    assert_eq!(
        m.state_roots,
        vec!["/home/u/.local/state/anolisa", "/var/lib/anolisa"]
    );
    m.push_datadir_root("/home/u/.local/share/anolisa/.".to_string());
    m.push_datadir_root("home/u/.local/share/anolisa".to_string());
    assert_eq!(
        m.datadir_roots,
        vec!["/home/u/.local/share/anolisa", "home/u/.local/share/anolisa"]
    );
    let mut slashed = layout();
    slashed.state_dir = "/home/u/.local/state/anolisa/".to_string();
    let mut m = AdapterManager::new(layout(), env(), "cli".to_string());
    m.layout = slashed;
    assert!(matches!(m.record_source(0), RecordSource::Current));
    let mine = state(vec![object("tokenless", ObjectStatus::Installed)], Vec::new());
    assert!(matches!(
        m.search_component("tokenless", &mine, 0),
        SearchStep::Found { at: 0, .. }
    ));
}

#[test]
fn the_first_record_of_a_component_counts() {
    let mut m = manager();
    m.push_state_root("/var/lib/anolisa".to_string());
    m.push_state_root("/var/lib/anolisa".to_string());
    assert_eq!(
        m.state_roots,
        vec!["/home/u/.local/state/anolisa", "/var/lib/anolisa"]
    );
    m.push_datadir_root("/usr/share/anolisa".to_string());
    assert_eq!(m.datadir_roots.len(), 2);
    let mine = state(vec![object("tokenless", ObjectStatus::Installed)], Vec::new());
    match m.search_component("tokenless", &mine, 0) {
        SearchStep::Found { at, state_dir } => {
            assert_eq!(at, 0);
            assert_eq!(state_dir, "/home/u/.local/state/anolisa");
        }
        other => panic!("expected to find it, got {other:?}"),
    }
    let empty = state(Vec::new(), Vec::new());
    match m.search_component("tokenless", &empty, 0) {
        SearchStep::Load { at, path } => {
            assert_eq!(at, 1);
            assert_eq!(path, "/var/lib/anolisa/installed.toml");
        }
        other => panic!("expected to load, got {other:?}"),
    }
    assert!(matches!(
        m.resume_search("tokenless", &empty, 1, &mine),
        SearchStep::Found { at: 1, .. }
    ));
    assert!(matches!(
        m.resume_search("tokenless", &empty, 1, &empty),
        SearchStep::NotInstalled
    ));
    assert_eq!(
        not_installed("tokenless").message(),
        "component 'tokenless' is not installed"
    );
}

#[test]
fn manifests_must_name_their_component() {
    assert_eq!(
        installed_component_manifest_path("/s", "tokenless"),
        "/s/component-manifests/tokenless/component.toml"
    );
    assert!(check_manifest("tokenless", "/p".to_string(), Ok(manifest("tokenless", &[]))).is_ok());
    let e = check_manifest("tokenless", "/p".to_string(), Ok(manifest("other", &[])))
        .expect_err("other");
    assert_eq!(
        e.message(),
        "manifest of component 'tokenless' at /p: manifest declares component 'other'"
    );
    let e = check_manifest("tokenless", "/p".to_string(), Err("gone".to_string()))
        .expect_err("unread");
    assert!(matches!(e, AdapterError::AdapterManifest { .. }));
}

#[test]
fn operations_are_recorded_by_how_they_ended() {
    let origin = LogOrigin {
        actor: "cli".to_string(),
        mode: InstallMode::System,
        component: "c".to_string(),
        command: "adapter enable c f".to_string(),
    };
    for (status, severity) in [
        (LogStatus::Done, Severity::Info),
        (LogStatus::Partial, Severity::Warn),
        (LogStatus::Failed, Severity::Error),
        (LogStatus::RolledBack, Severity::Error),
    ] {
        let r = log_operation_at(&origin, status, "m", s("d"), "t".to_string());
        assert_eq!(r.severity, severity);
        assert_eq!(r.install_mode.as_deref(), Some("system"));
        assert_eq!(r.objects, vec!["c"]);
        assert_eq!(r.warnings, vec!["d"]);
        assert_eq!(r.source, "anolisa-cli");
    }
}

#[test]
fn disabling_drops_the_receipt_when_clean() {
    let ready = |st: InstalledState| match manager()
        .disable("tokenless", &None, st)
        .expect("target")
    {
        DisableTarget::Found(f) => {
            let n = f.claim.resources.len();
            f.validated(vec!["/home/u/.openclaw".to_string()], &no_facts(n))
                .expect("sound")
        }
        other => panic!("expected a receipt, got {other:?}"),
    };
    let run = match ready(enabled()).begin(&s("/usr/bin/openclaw")).expect("begin") {
        DisableNext::Run(run) => run,
        other => panic!("expected a run, got {other:?}"),
    };
    let save = run.finished(Ok(output(0, ""))).expect("clean");
    assert!(save.state.adapter_claims.is_empty());
    assert!(save.outcome.claim_removed);
    assert_eq!(save.log.message, "adapter disabled");
    let gone = save.state;
    match manager().disable("tokenless", &None, gone).expect("again") {
        DisableTarget::Nothing(o) => {
            assert!(!o.claim_removed);
            assert_eq!(
                o.report.messages,
                vec!["component 'tokenless' has no enabled adapters"]
            );
        }
        other => panic!("expected nothing to do, got {other:?}"),
    }
    match ready(enabled()).begin(&None).expect("begin") {
        DisableNext::Save(save) => {
            assert!(!save.outcome.claim_removed);
            assert_eq!(
                save.state.adapter_claims[0].status,
                ClaimStatus::CleanupFailed
            );
            assert!(save.saved(Err("disk full".to_string())).is_err());
        }
        other => panic!("expected to save, got {other:?}"),
    }
}

#[test]
fn forged_receipts_run_nothing() {
    let found = match manager()
        .disable("tokenless", &s("openclaw"), enabled())
        .expect("target")
    {
        DisableTarget::Found(f) => f,
        other => panic!("expected a receipt, got {other:?}"),
    };
    let n = found.claim.resources.len();
    let mut facts = no_facts(n);
    facts[0].canonical = s("/etc");
    let e = found
        .validated(vec!["/home/u/.openclaw".to_string()], &facts)
        .expect_err("forged");
    assert!(matches!(e, AdapterError::ClaimValidation(_)));
}

#[test]
fn every_receipt_is_reported() {
    let st = enabled();
    let m = manager();
    let check = match m.status(&st, &None) {
        StatusStep::Check(c) => c,
        other => panic!("expected a check, got {other:?}"),
    };
    let n = check.claim.resources.len();
    let ask = check
        .validated(
            vec!["/home/u/.openclaw".to_string()],
            &no_facts(n),
            &env(),
            probe(Some("/usr/bin/openclaw")),
        )
        .expect("sound");
    assert_eq!(ask.command.as_ref().expect("listing").args[1], "list");
    let listing = PluginListing::Ran(output(0, "tokenless-plugin"));
    match m.status_answered(&st, &None, ask, &s("sha256:1"), &listing) {
        StatusStep::Finished(report) => {
            assert_eq!(report.entries.len(), 1);
            assert_eq!(report.entries[0].component, "tokenless");
            assert_eq!(report.entries[0].report.summary, AdapterSummary::Healthy);
        }
        other => panic!("expected the end, got {other:?}"),
    }
    assert!(matches!(
        m.status(&st, &s("other")),
        StatusStep::Finished(r) if r.entries.is_empty()
    ));
    let mut foreign = enabled();
    foreign.adapter_claims[0].framework = "hermes".to_string();
    match m.status(&foreign, &None) {
        StatusStep::Finished(r) => {
            assert_eq!(r.entries[0].report.summary, AdapterSummary::Unknown);
        }
        other => panic!("expected the end, got {other:?}"),
    }
    assert_eq!(
        unverified_report("why").conditions[0].reason.as_deref(),
        Some("why")
    );
}

#[test]
fn scans_list_what_is_declared_found_or_enabled() {
    let mut m = manager();
    m.push_state_root("/var/lib/anolisa".to_string());
    assert!(matches!(m.record_source(0), RecordSource::Current));
    assert!(
        matches!(m.record_source(1), RecordSource::Load(p) if p == "/var/lib/anolisa/installed.toml")
    );
    let mut st = enabled();
    st.objects = vec![
        object("tokenless", ObjectStatus::Installed),
        object("broken", ObjectStatus::Installed),
        object("half", ObjectStatus::Other("partial".to_string())),
    ];
    let mut d = Declarations::new();
    d.add_record(
        "/home/u/.local/state/anolisa",
        &st,
        &vec![
            ManifestRead::Read(manifest("tokenless", &["openclaw", "hermes"])),
            ManifestRead::Missing,
            ManifestRead::Missing,
        ],
    );
    let system = state(vec![object("tokenless", ObjectStatus::Installed)], Vec::new());
    d.add_record(
        "/var/lib/anolisa",
        &system,
        &vec![ManifestRead::Read(manifest("tokenless", &["hidden"]))],
    );
    d.add_failure("/srv", "denied");
    let found = vec![FoundAdapter {
        component: "stray".to_string(),
        framework: "openclaw".to_string(),
        resource_root: "/data/stray".to_string(),
    }];
    let r = m.scan(&st, &found, d, &probe(Some("/usr/bin/openclaw")));
    let keys: Vec<(&str, &str)> = r
        .entries
        .iter()
        .map(|e| (e.component.as_str(), e.framework.as_str()))
        .collect();
    assert_eq!(
        keys,
        vec![
            ("stray", "openclaw"),
            ("tokenless", "hermes"),
            ("tokenless", "openclaw")
        ]
    );
    assert!(!r.entries[0].declared);
    assert_eq!(r.entries[0].resource_root.as_deref(), Some("/data/stray"));
    assert!(r.entries[0].driver_available && r.entries[0].framework_detected);
    assert!(r.entries[1].declared && !r.entries[1].driver_available);
    assert!(!r.entries[1].framework_detected);
    assert!(r.entries[2].enabled);
    assert_eq!(r.entries[2].claim_status, Some(ClaimStatus::Enabled));
    assert!(!r.entries[1].enabled);
    assert_eq!(r.warnings.len(), 2);
    assert!(r.warnings[0].contains("broken"));
    assert_eq!(
        r.warnings[1],
        "failed to load installed state at /srv/installed.toml: denied"
    );
}
