use anolisa::commands::install::render::{Shown, Style};
use anolisa::commands::install::run::{InstallEnd, InstallNext, InstallSave, InstalledFile};
use anolisa::commands::install::{
    artifact_ext, artifact_type_wire, ensure_component_backend_compatible, handle,
    infer_backend_from_distribution_source, installed_backend_label, repo_config_err,
    ArtifactAddress, BackendChoice, BaseUrl, FileSafety, IndexReply, InstallArgs, InstallChosen,
    InstallQuery, ResolvedInstall,
};
use anolisa::context::{CliContext, InstallMode};
use anolisa::distribution::{ArtifactType, DistributionEntry};
use anolisa::env::EnvFacts;
use anolisa::layout::FsLayout;
use anolisa::manifest::{
    current_schema_version, default_runtime_layer, ComponentManifest, ComponentManifestRaw,
    ComponentMetaRaw, DependenciesRaw, EnvRequirementsRaw, FileKind, InstallFileRaw, InstallRaw,
};
use anolisa::response::CliError;
use anolisa::state::{
    InstalledObject, InstalledState, ObjectKind, ObjectStatus, SubscriptionScope,
};

fn s(text: &str) -> Option<String> {
    Some(text.to_string())
}

fn ctx(json: bool) -> CliContext {
    ctx_with_prefix(json, None)
}

fn ctx_with_prefix(json: bool, prefix: Option<&str>) -> CliContext {
    CliContext {
        install_mode: if prefix.is_some() {
            InstallMode::System
        } else {
            InstallMode::User
        },
        prefix: prefix.map(String::from),
        json,
        dry_run: false,
        verbose: false,
        quiet: true,
        no_color: true,
    }
}

fn args(component: &str) -> InstallArgs {
    InstallArgs {
        component: component.to_string(),
        version: None,
        backend: None,
        repo: None,
        package: None,
    }
}

fn file(source: Option<&str>, dest: Option<&str>, kind: FileKind) -> InstallFileRaw {
    InstallFileRaw {
        source: source.map(String::from),
        dest: dest.map(String::from),
        mode: s("0755"),
        kind,
    }
}

/// What the catalog has for `agentsight`.
fn agentsight(files: Vec<InstallFileRaw>) -> ComponentManifest {
    ComponentManifest::from(ComponentManifestRaw {
        schema_version: current_schema_version(),
        component: ComponentMetaRaw {
            name: "agentsight".to_string(),
            version: "0.2.0".to_string(),
            layer: default_runtime_layer(),
            domain: None,
            display_name: None,
            owner: None,
            license: None,
            repository: None,
            contract: None,
            platform: None,
            artifact: None,
            layout: None,
            health_check: None,
        },
        source: None,
        distribution: None,
        build: None,
        install: Some(InstallRaw {
            modes: vec!["system".to_string()],
            files,
            services: vec!["agentsight.service".to_string()],
            capabilities: Vec::new(),
        }),
        environment: EnvRequirementsRaw::default(),
        dependencies: DependenciesRaw {
            build: Vec::new(),
            runtime: Vec::new(),
            components: Vec::new(),
        },
        features: Vec::new(),
        adapters: Vec::new(),
        health_checks: Vec::new(),
    })
}

fn one_binary() -> Vec<InstallFileRaw> {
    vec![file(
        Some("target/release/agentsight"),
        Some("{bindir}/agentsight"),
        FileKind::Executable,
    )]
}

fn layout() -> FsLayout {
    FsLayout {
        mode: InstallMode::System,
        prefix: "/sys".to_string(),
        bin_dir: "/sys/usr/local/bin".to_string(),
        lib_dir: "/sys/usr/local/lib/anolisa".to_string(),
        libexec_dir: "/sys/usr/local/libexec/anolisa".to_string(),
        datadir: "/sys/usr/local/share/anolisa".to_string(),
        etc_dir: "/sys/etc/anolisa".to_string(),
        state_dir: "/sys/var/lib/anolisa".to_string(),
        log_dir: "/sys/var/log/anolisa".to_string(),
        cache_dir: "/sys/var/cache/anolisa".to_string(),
        lock_file: "/sys/var/lib/anolisa/lock".to_string(),
        central_log: "/sys/var/log/anolisa/central.jsonl".to_string(),
    }
}

fn env() -> EnvFacts {
    EnvFacts {
        os: "linux".to_string(),
        arch: "x86_64".to_string(),
        libc: s("glibc"),
        kernel: None,
        pkg_base: s("rpm"),
        os_id: None,
        os_version: None,
        btf: None,
        cap_bpf: None,
        container: None,
        user: "root".to_string(),
        uid: 0,
        home: "/root".to_string(),
    }
}

fn entry(url: &str) -> DistributionEntry {
    DistributionEntry {
        component: "agentsight".to_string(),
        version: "0.2.0".to_string(),
        artifact_type: ArtifactType::Binary,
        url: url.to_string(),
        os: "linux".to_string(),
        arch: "x86_64".to_string(),
        libc: None,
        sha256: s("abc123"),
    }
}

fn supported() -> Vec<String> {
    vec!["tar_gz".to_string(), "binary".to_string()]
}

fn state(objects: Vec<InstalledObject>) -> InstalledState {
    InstalledState {
        install_mode: InstallMode::System,
        prefix: "/sys".to_string(),
        objects,
        operations: Vec::new(),
        adapter_claims: Vec::new(),
    }
}

fn object(kind: ObjectKind, name: &str, backend: Option<&str>, source: Option<&str>) -> InstalledObject {
    InstalledObject {
        kind,
        name: name.to_string(),
        version: "0.2.0".to_string(),
        status: ObjectStatus::Installed,
        manifest_digest: None,
        distribution_source: source.map(String::from),
        install_backend: backend.map(String::from),
        installed_at: "2026-06-01T10:00:00Z".to_string(),
        last_operation_id: s("op-prior"),
        managed: true,
        adopted: false,
        subscription_scope: SubscriptionScope::default(),
        enabled_features: Vec::new(),
        component_refs: Vec::new(),
        files: Vec::new(),
        external_modified_files: Vec::new(),
        services: Vec::new(),
        health: Vec::new(),
    }
}

fn chosen(a: InstallArgs, c: &CliContext, files: Vec<InstallFileRaw>) -> InstallChosen {
    handle(a, c, Some(agentsight(files))).expect("in the catalog")
}

fn query(a: InstallArgs, c: &CliContext, files: Vec<InstallFileRaw>, url: &str) -> InstallQuery {
    chosen(a, c, files)
        .selected(BackendChoice::Selected("raw".to_string()))
        .expect("selected")
        .located(Ok(url.to_string()), "agentsight".to_string())
        .expect("located")
        .checked(Ok(state(Vec::new())))
        .expect("compatible")
}

fn safe(n: usize) -> Vec<FileSafety> {
    (0..n)
        .map(|_| FileSafety {
            dest: None,
            referent: None,
        })
        .collect()
}

fn resolved(c: &CliContext, reply: DistributionEntry) -> ResolvedInstall {
    let mut a = args("agentsight");
    a.repo = s("file:///repo/v1");
    query(a, c, one_binary(), "file:///repo/v1")
        .resolved(
            &env(),
            "file:///repo/v1/index.toml",
            IndexReply::Resolved(reply),
            &supported(),
        )
        .expect("resolved")
        .addressed(
            Ok("file:///repo/v1/agentsight/0.2.0/linux/x86_64/agentsight-0.2.0-linux-x86_64"
                .to_string()),
            "file:///repo/v1",
        )
        .expect("addressed")
        .placed(&layout(), &safe(1))
        .expect("placed")
}

fn copied() -> Vec<InstalledFile> {
    vec![InstalledFile {
        path: "/sys/usr/local/bin/agentsight".to_string(),
        sha256: "abc123".to_string(),
    }]
}

fn saving(c: &CliContext, before: InstalledState) -> InstallSave {
    match resolved(c, entry("agentsight-bin")).next() {
        InstallNext::Run(run) => run
            .start_at("2026-06-02T10:00:00Z".to_string())
            .downloaded(Ok(()))
            .expect("downloaded")
            .locked(Ok(()))
            .expect("locked")
            .loaded_at(Ok(before), "20260602100001", 42)
            .expect("loaded")
            .copied_at(&layout(), Ok(copied()), "2026-06-02T10:00:02Z".to_string())
            .expect("copied"),
        other => panic!("expected a run, got {other:?}"),
    }
}

#[test]
fn install_unknown_component_is_invalid_argument() {
    let err = handle(args("no-such-component"), &ctx(false), None).expect_err("must error");
    assert_eq!(err.code(), "INVALID_ARGUMENT");
    assert!(err.reason().contains("no-such-component"));
}

#[test]
fn install_unsupported_mode_is_invalid_argument() {
    let err = handle(
        args("agentsight"),
        &ctx(false),
        Some(agentsight(one_binary())),
    )
    .expect_err("must error");
    assert_eq!(err.code(), "INVALID_ARGUMENT");
    assert!(
        err.reason().contains("does not support user-mode"),
        "got: {}",
        err.reason()
    );
}

#[test]
fn install_unconfigured_backend_is_invalid_argument() {
    let mut a = args("agentsight");
    a.backend = s("npm");
    let err = chosen(a, &ctx_with_prefix(false, Some("/tmp/x")), one_binary())
        .selected(BackendChoice::Refused(
            "backend 'npm' is not configured in repo.toml".to_string(),
        ))
        .expect_err("must error");
    assert_eq!(err.code(), "INVALID_ARGUMENT");
    assert!(err.reason().contains("npm"), "got: {}", err.reason());
    assert!(
        err.reason().contains("repo.toml"),
        "reason must point at repo.toml: {}",
        err.reason()
    );
}

#[test]
fn install_unknown_backend_is_invalid_argument() {
    let mut a = args("agentsight");
    a.backend = s("pip");
    let err = chosen(a, &ctx_with_prefix(false, Some("/tmp/x")), one_binary())
        .selected(BackendChoice::Refused("unknown backend 'pip'".to_string()))
        .expect_err("must error");
    assert_eq!(err.code(), "INVALID_ARGUMENT");
    assert!(err.reason().contains("pip"));
}

#[test]
fn install_configured_yum_backend_is_not_implemented() {
    let mut a = args("agentsight");
    a.backend = s("yum");
    let err = chosen(a, &ctx_with_prefix(false, Some("/tmp/x")), one_binary())
        .selected(BackendChoice::Selected("yum".to_string()))
        .expect("configured")
        .located(
            Ok("https://example.com/yum-repo".to_string()),
            "agentsight".to_string(),
        )
        .expect("located")
        .checked(Ok(state(Vec::new())))
        .expect_err("must error");
    assert_eq!(err.code(), "NOT_IMPLEMENTED");
    assert!(err.reason().contains("yum"), "got: {}", err.reason());
}

#[test]
fn install_invalid_repo_override_is_invalid_argument() {
    let mut a = args("agentsight");
    a.repo = s("ftp://example.com/repo");
    let backend = chosen(a, &ctx_with_prefix(false, Some("/tmp/x")), one_binary())
        .selected(BackendChoice::Selected("raw".to_string()))
        .expect("configured");
    assert!(matches!(&backend.base, BaseUrl::Override(u) if u == "ftp://example.com/repo"));
    let err = backend
        .located(
            Err("unsupported scheme in 'ftp://example.com/repo'".to_string()),
            "agentsight".to_string(),
        )
        .expect_err("must error");
    assert_eq!(err.code(), "INVALID_ARGUMENT");
    assert!(err.reason().contains("ftp"), "got: {}", err.reason());
}

#[test]
fn install_dry_run_resolves_without_writing_files() {
    let mut c = ctx_with_prefix(true, Some("/sys"));
    c.dry_run = true;
    match resolved(&c, entry("agentsight-bin")).next() {
        InstallNext::Planned(Shown::Json(p)) => {
            assert!(p.dry_run);
            assert_eq!(p.component, "agentsight");
            assert_eq!(p.version, "0.2.0");
            assert_eq!(p.install_mode, "system");
            assert_eq!(p.artifact.artifact_type, "binary");
            assert_eq!(p.artifact.url, "file:///repo/v1/agentsight-bin");
            assert_eq!(p.artifact.sha256.as_deref(), Some("abc123"));
            assert_eq!(p.files, vec!["/sys/usr/local/bin/agentsight"]);
            assert_eq!(p.services, vec!["agentsight.service"]);
        }
        other => panic!("expected a plan, got {other:?}"),
    }
    c.json = false;
    assert!(matches!(
        resolved(&c, entry("agentsight-bin")).next(),
        InstallNext::Planned(Shown::Silent)
    ));
}

#[test]
fn install_raw_end_to_end_from_local_repo() {
    let save = saving(&ctx_with_prefix(false, Some("/sys")), state(Vec::new()));
    let state = &save.state;
    let obj = state
        .find_object(ObjectKind::Component, "agentsight")
        .expect("component object must be recorded");
    assert_eq!(obj.version, "0.2.0");
    assert!(matches!(obj.status, ObjectStatus::Installed));
    assert_eq!(obj.files.len(), 1);
    assert!(
        obj.distribution_source
            .as_deref()
            .is_some_and(|u| u.starts_with("file:///repo/v1")),
        "distribution_source must record the resolved artifact URL"
    );
    assert_eq!(
        obj.install_backend.as_deref(),
        Some("raw"),
        "install_backend must record the selected backend"
    );
    assert!(
        obj.services.iter().all(|s| !s.enabled),
        "install must not mark services enabled"
    );
    assert_eq!(state.operations.len(), 1);
    assert!(state.operations[0].id.starts_with("op-install-"));
    assert_eq!(state.operations[0].id, "op-install-20260602100001-42");
    assert_eq!(obj.services[0].manager, "systemd");
    assert_eq!(obj.installed_at, "2026-06-02T10:00:00Z");
    assert_eq!(state.prefix, "/sys");
}

#[test]
fn install_existing_component_with_different_backend_is_invalid_argument() {
    let mut a = args("agentsight");
    a.backend = s("yum");
    let err = chosen(a, &ctx_with_prefix(false, Some("/sys")), one_binary())
        .selected(BackendChoice::Selected("yum".to_string()))
        .expect("configured")
        .located(
            Ok("https://example.com/yum-repo".to_string()),
            "agentsight".to_string(),
        )
        .expect("located")
        .checked(Ok(state(vec![object(
            ObjectKind::Component,
            "agentsight",
            Some("raw"),
            Some("file:///repo/v1/agentsight-bin"),
        )])))
        .expect_err("must error");

    assert_eq!(err.code(), "INVALID_ARGUMENT");
    assert!(
        err.reason().contains("already installed via backend 'raw'")
            && err.reason().contains("backend 'yum'"),
        "reason must explain backend conflict: {}",
        err.reason()
    );
}

#[test]
fn install_derives_artifact_url_from_convention_when_index_omits_url() {
    let mut a = args("agentsight");
    a.repo = s("file:///repo/v1");
    let found = query(
        a,
        &ctx_with_prefix(false, Some("/sys")),
        one_binary(),
        "file:///repo/v1",
    )
    .resolved(
        &env(),
        "file:///repo/v1/index.toml",
        IndexReply::Resolved(entry("")),
        &supported(),
    )
    .expect("resolved");
    match &found.address {
        ArtifactAddress::Derived(p) => {
            assert_eq!(p.component, "agentsight");
            assert_eq!(p.version, "0.2.0");
            assert_eq!((p.os.as_str(), p.arch.as_str()), ("linux", "x86_64"));
            assert_eq!(p.libc, None);
            assert_eq!(p.ext, "");
        }
        other => panic!("expected a derived address, got {other:?}"),
    }
    let r = resolved(&ctx_with_prefix(false, Some("/sys")), entry(""));
    assert_eq!(
        r.artifact_url,
        "file:///repo/v1/agentsight/0.2.0/linux/x86_64/agentsight-0.2.0-linux-x86_64"
    );
    let err = found
        .addressed(Err("no {os}".to_string()), "file:///repo/v1")
        .expect_err("not derivable");
    assert_eq!(
        err.reason(),
        "cannot derive artifact URL for 'agentsight' 0.2.0 from raw repository layout: no {os}"
    );
}

#[test]
fn install_unpublished_version_is_invalid_argument() {
    let mut a = args("agentsight");
    a.repo = s("file:///repo/v1");
    a.version = s("9.9.9");
    let err = query(
        a,
        &ctx_with_prefix(false, Some("/sys")),
        one_binary(),
        "file:///repo/v1",
    )
    .resolved(
        &env(),
        "file:///repo/v1/index.toml",
        IndexReply::Unresolved("no matching entry".to_string()),
        &supported(),
    )
    .expect_err("must fail to resolve");
    assert_eq!(err.code(), "INVALID_ARGUMENT");
    assert!(err.reason().contains("9.9.9"), "got: {}", err.reason());
    assert_eq!(
        err.reason(),
        "cannot resolve package 'agentsight' (component 'agentsight', version 9.9.9, \
         linux/x86_64, system mode) from file:///repo/v1/index.toml: no matching entry"
    );
}

#[test]
fn configuration_faults_are_told_apart() {
    let e = repo_config_err("bad toml".to_string(), false);
    assert_eq!(e.code(), "EXECUTION_FAILED");
    assert_eq!(e.reason(), "failed to load repo config: bad toml");
    let e = repo_config_err("bad var".to_string(), true);
    assert_eq!(e.code(), "INVALID_ARGUMENT");
    assert_eq!(e.reason(), "bad var");
    let e = chosen(
        args("agentsight"),
        &ctx_with_prefix(false, Some("/sys")),
        one_binary(),
    )
    .selected(BackendChoice::Unloaded("bad toml".to_string()))
    .expect_err("unloaded");
    assert_eq!(e.code(), "EXECUTION_FAILED");
}

#[test]
fn plaintext_overrides_are_warned_about() {
    let c = ctx_with_prefix(false, Some("/sys"));
    let warned = |repo: Option<String>, url: &str| {
        let mut a = args("agentsight");
        a.repo = repo;
        query(a, &c, one_binary(), url).located.warnings
    };
    assert_eq!(
        warned(s("http://h/"), "http://h"),
        vec![
            "--repo uses plaintext http (http://h) — artifacts are still sha256-verified on the \
             raw backend, but the index itself is unauthenticated"
        ]
    );
    assert!(warned(s("https://h/"), "https://h").is_empty());
    assert!(warned(None, "http://h").is_empty());
}

#[test]
fn queries_go_by_the_package() {
    let mut a = args("agentsight");
    a.version = s("1.2.3");
    let q = query(
        a,
        &ctx_with_prefix(false, Some("/sys")),
        one_binary(),
        "file:///r",
    )
    .query(&env());
    assert_eq!(q.component, "agentsight");
    assert_eq!(q.version.as_deref(), Some("1.2.3"));
    assert_eq!(q.channel, None);
    assert_eq!(q.install_mode, "system");
    assert_eq!(q.libc.as_deref(), Some("glibc"));
    assert_eq!(q.pkg_base.as_deref(), Some("rpm"));
    assert!(q.preferred_types.is_empty());
}

#[test]
fn unverifiable_artifacts_are_refused() {
    let c = ctx_with_prefix(false, Some("/sys"));
    let ask = |reply: IndexReply| {
        query(args("agentsight"), &c, one_binary(), "file:///r").resolved(
            &env(),
            "file:///r/index.toml",
            reply,
            &supported(),
        )
    };
    let mut e = entry("x");
    e.sha256 = None;
    let err = ask(IndexReply::Resolved(e)).expect_err("no digest");
    assert_eq!(err.code(), "EXECUTION_FAILED");
    assert_eq!(
        err.reason(),
        "distribution entry for 'agentsight' 0.2.0 has no sha256 — refusing to install an \
         unverifiable artifact"
    );
    let mut e = entry("x");
    e.artifact_type = ArtifactType::Oci;
    let err = ask(IndexReply::Resolved(e)).expect_err("unsupported");
    assert_eq!(
        err.reason(),
        "resolved artifact type 'oci' is not installable by the raw backend (supported: tar_gz, \
         binary)"
    );
    let err = ask(IndexReply::Unfetched("404".to_string())).expect_err("unfetched");
    assert_eq!(
        err.reason(),
        "failed to fetch distribution index file:///r/index.toml: 404"
    );
    let err = ask(IndexReply::Unreadable("eof".to_string())).expect_err("unreadable");
    assert_eq!(
        err.reason(),
        "failed to parse distribution index file:///r/index.toml: eof"
    );
    let mut e = entry("x");
    e.version = "0.3.0".to_string();
    let found = ask(IndexReply::Resolved(e)).expect("newer");
    assert_eq!(
        found.located.warnings,
        vec!["artifact version 0.3.0 differs from catalog manifest version 0.2.0"]
    );
}

#[test]
fn artifacts_have_three_kinds_of_addresses() {
    let c = ctx_with_prefix(false, Some("/sys"));
    assert_eq!(
        resolved(&c, entry("//sub/bin")).artifact_url,
        "file:///repo/v1/sub/bin"
    );
    assert_eq!(
        resolved(&c, entry("https://cdn/x")).artifact_url,
        "https://cdn/x"
    );
    let forms = [
        (ArtifactType::TarGz, "tar_gz", ".tar.gz"),
        (ArtifactType::Zip, "zip", ".zip"),
        (ArtifactType::Rpm, "rpm", ".rpm"),
        (ArtifactType::Deb, "deb", ".deb"),
        (ArtifactType::Binary, "binary", ""),
        (ArtifactType::File, "file", ""),
        (ArtifactType::Oci, "oci", ""),
    ];
    for (t, wire, ext) in forms {
        assert_eq!(artifact_type_wire(&t), wire);
        assert_eq!(artifact_ext(&t), ext);
    }
}

#[test]
fn files_need_a_safe_place() {
    let c = ctx_with_prefix(false, Some("/sys"));
    let place = |files: Vec<InstallFileRaw>, safety: Vec<FileSafety>| {
        let a = query(args("agentsight"), &c, files, "file:///r")
            .resolved(
                &env(),
                "file:///r/index.toml",
                IndexReply::Resolved(entry("x")),
                &supported(),
            )
            .expect("resolved")
            .addressed(Ok(String::new()), "file:///r")
            .expect("addressed");
        let paths = a.paths(&layout());
        assert_eq!(paths.len(), safety.len());
        a.placed(&layout(), &safety)
    };
    let err = place(Vec::new(), Vec::new()).expect_err("nothing");
    assert_eq!(
        err.reason(),
        "component 'agentsight' declares no [install.files] — nothing to install"
    );
    let err = place(
        vec![file(Some("a"), Some("{nowhere}/a"), FileKind::Data)],
        safe(1),
    )
    .expect_err("unknown placeholder");
    assert_eq!(
        err.reason(),
        "failed to expand install path '{nowhere}/a': unknown placeholder 'nowhere' in template \
         \"{nowhere}/a\""
    );
    let err = place(
        vec![file(Some("a"), Some("/etc/a"), FileKind::Data)],
        vec![FileSafety {
            dest: s("outside"),
            referent: None,
        }],
    )
    .expect_err("unsafe");
    assert_eq!(
        err.reason(),
        "install destination '/etc/a' failed path safety check: outside"
    );
    let link = || {
        vec![file(
            Some("{libexecdir}/{component}/rtk"),
            Some("{bindir}/rtk"),
            FileKind::Symlink,
        )]
    };
    let ok = place(link(), safe(1)).expect("link");
    assert_eq!(
        ok.files[0].source.as_deref(),
        Some("/sys/usr/local/libexec/anolisa/agentsight/rtk")
    );
    assert_eq!(ok.files[0].dest, "/sys/usr/local/bin/rtk");
    assert_eq!(ok.files[0].mode.as_deref(), Some("0755"));
    let err = place(
        link(),
        vec![FileSafety {
            dest: None,
            referent: s("outside"),
        }],
    )
    .expect_err("unsafe referent");
    assert_eq!(
        err.reason(),
        "symlink referent '/sys/usr/local/libexec/anolisa/agentsight/rtk' failed path safety \
         check: outside"
    );
    let err = place(
        vec![file(Some("{x}"), Some("{bindir}/rtk"), FileKind::Symlink)],
        safe(1),
    )
    .expect_err("unknown referent");
    assert!(err.reason().starts_with("failed to expand symlink referent '{x}'"));
}

#[test]
fn backends_are_inferred_from_the_source() {
    assert_eq!(
        infer_backend_from_distribution_source(&s("https://h/x")),
        Some("raw")
    );
    assert_eq!(
        infer_backend_from_distribution_source(&s("file:///x")),
        Some("raw")
    );
    assert_eq!(infer_backend_from_distribution_source(&s("npm:x")), None);
    assert_eq!(infer_backend_from_distribution_source(&None), None);
    let unknown = object(ObjectKind::Component, "c", None, Some("npm:x"));
    assert_eq!(installed_backend_label(&unknown), None);
    let err = ensure_component_backend_compatible(&state(vec![unknown]), "c", "raw", "install c")
        .expect_err("unknown");
    assert_eq!(
        err.reason(),
        "component 'c' is already installed but its install backend is unknown; uninstall it \
         before installing via backend 'raw'"
    );
    let inferred = object(ObjectKind::Component, "c", None, Some("http://h/x"));
    assert!(
        ensure_component_backend_compatible(&state(vec![inferred]), "c", "raw", "install c").is_ok()
    );
}

#[test]
fn reinstalling_goes_through_the_same_backend() {
    let save = saving(&ctx_with_prefix(false, Some("/sys")), state(Vec::new()));
    assert!(
        ensure_component_backend_compatible(&save.state, "agentsight", "raw", "install").is_ok()
    );
    assert!(
        ensure_component_backend_compatible(&save.state, "agentsight", "yum", "install").is_err()
    );
}

#[test]
fn legacy_capabilities_are_pruned_and_logged() {
    let before = state(vec![
        object(ObjectKind::Capability, "old-cap", None, None),
        object(ObjectKind::Component, "other", Some("raw"), None),
    ]);
    let save = saving(&ctx_with_prefix(false, Some("/sys")), before);
    assert_eq!(save.pruned, vec!["old-cap"]);
    assert_eq!(save.state.objects.len(), 2);
    assert!(save
        .state
        .objects
        .iter()
        .all(|o| o.kind == ObjectKind::Component));
    match save.saved_at(
        Ok(()),
        "2026-06-02T10:00:03Z".to_string(),
        "2026-06-02T10:00:04Z".to_string(),
    ) {
        InstallEnd::Done(done) => {
            assert_eq!(done.command, "install agentsight");
            assert_eq!(done.records.len(), 2);
            assert_eq!(done.records[0].objects, vec!["old-cap"]);
            assert_eq!(done.records[0].status, None);
            assert_eq!(
                done.records[1].message,
                "component agentsight 0.2.0 installed via raw backend"
            );
            assert_eq!(
                done.records[1].warnings,
                vec![
                    "pruned legacy capability state object(s) written by an older release: old-cap"
                ]
            );
            assert_eq!(
                done.records[1].finished_at.as_deref(),
                Some("2026-06-02T10:00:04Z")
            );
            assert!(matches!(done.shown, Shown::Silent));
        }
        other => panic!("expected success, got {other:?}"),
    }
}

#[test]
fn a_failed_save_removes_what_was_copied() {
    let save = saving(&ctx_with_prefix(false, Some("/sys")), state(Vec::new()));
    match save.saved(Err("disk full".to_string())) {
        InstallEnd::RollBack { remove, error } => {
            assert_eq!(remove, vec!["/sys/usr/local/bin/agentsight"]);
            assert_eq!(
                error.reason(),
                "failed to save state; attempted best-effort rollback of installed files (some \
                 may remain on disk): disk full"
            );
        }
        other => panic!("expected a rollback, got {other:?}"),
    }
}

#[test]
fn every_step_of_a_run_can_fail() {
    let c = ctx_with_prefix(false, Some("/sys"));
    let run = || match resolved(&c, entry("agentsight-bin")).next() {
        InstallNext::Run(run) => run,
        other => panic!("expected a run, got {other:?}"),
    };
    let e = run().start().downloaded(Err("404".to_string())).expect_err("download");
    assert_eq!(
        e.reason(),
        "failed to download artifact file:///repo/v1/agentsight-bin: 404"
    );
    let fetched = || run().start().downloaded(Ok(())).expect("downloaded");
    let e = fetched().locked(Err("held".to_string())).expect_err("lock");
    assert_eq!(e.reason(), "failed to acquire install lock: held");
    let locked = || fetched().locked(Ok(())).expect("locked");
    let e = locked().loaded(Err("bad toml".to_string())).expect_err("state");
    assert_eq!(e.reason(), "failed to load installed state: bad toml");
    let e = locked()
        .loaded(Ok(state(vec![object(
            ObjectKind::Component,
            "agentsight",
            Some("yum"),
            None,
        )])))
        .expect_err("conflict");
    assert!(matches!(e, CliError::InvalidArgument { .. }));
    let loaded = locked().loaded(Ok(state(Vec::new()))).expect("loaded");
    let stamp = loaded.operation_id.clone();
    let parts: Vec<&str> = stamp.split('-').collect();
    assert_eq!(parts[..2], ["op", "install"]);
    assert_eq!(parts[2].len(), 14);
    assert!(parts[2].chars().all(|c| c.is_ascii_digit()));
    assert!(parts[3].parse::<u32>().is_ok());
    let e = loaded
        .copied(&layout(), Err("no space".to_string()))
        .expect_err("copy");
    assert_eq!(e.reason(), "install failed: no space");
}

#[test]
fn subscriptions_of_other_objects_are_kept() {
    let mut other = object(ObjectKind::Component, "other", Some("raw"), None);
    other.subscription_scope = SubscriptionScope::Other("team".to_string());
    let mut again = object(ObjectKind::Component, "agentsight", Some("raw"), None);
    again.subscription_scope = SubscriptionScope::Other("team".to_string());
    let c = ctx_with_prefix(false, Some("/sys"));
    let save = saving(&c, state(vec![other, again]));
    assert!(matches!(
        &save.state.objects[0].subscription_scope,
        SubscriptionScope::Other(name) if name == "team"
    ));
    assert!(matches!(
        save.state.objects[1].subscription_scope,
        SubscriptionScope::Standard
    ));
}

#[test]
fn results_are_shown_in_lines() {
    let mut c = ctx_with_prefix(false, Some("/sys"));
    c.quiet = false;
    let done = match saving(&c, state(Vec::new())).saved(Ok(())) {
        InstallEnd::Done(done) => done,
        other => panic!("expected success, got {other:?}"),
    };
    let text: Vec<String> = match &done.shown {
        Shown::Lines(lines) => lines
            .iter()
            .map(|l| l.iter().map(|s| s.text.as_str()).collect())
            .collect(),
        other => panic!("expected lines, got {other:?}"),
    };
    assert_eq!(
        text,
        vec![
            "install agentsight v0.2.0 succeeded",
            "backend: raw",
            "package: agentsight",
            "operation_id: op-install-20260602100001-42",
            "files installed: 1",
            "  - /sys/usr/local/bin/agentsight",
            "services (recorded, not started):",
            "  - agentsight.service",
        ]
    );
    c.dry_run = true;
    match resolved(&c, entry("agentsight-bin")).next() {
        InstallNext::Planned(Shown::Lines(lines)) => {
            assert_eq!(lines[0][0].style, Style::Command);
            assert_eq!(lines[0][2].style, Style::Muted);
            assert_eq!(lines[0][2].text, "(dry-run — nothing installed)");
            let artifact: String = lines[5].iter().map(|s| s.text.as_str()).collect();
            assert_eq!(artifact, "artifact: file:///repo/v1/agentsight-bin (binary)");
        }
        other => panic!("expected a plan, got {other:?}"),
    }
    c.dry_run = false;
    c.json = true;
    let done = match saving(&c, state(Vec::new())).saved(Ok(())) {
        InstallEnd::Done(done) => done,
        other => panic!("expected success, got {other:?}"),
    };
    match done.shown {
        Shown::Json(p) => {
            assert_eq!(p.operation_id, "op-install-20260602100001-42");
            assert_eq!(p.files_installed, vec!["/sys/usr/local/bin/agentsight"]);
            assert_eq!(p.artifact_url, "file:///repo/v1/agentsight-bin");
        }
        other => panic!("expected a payload, got {other:?}"),
    }
}
