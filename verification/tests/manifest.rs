use anolisa::distribution::ArtifactType;
use anolisa::manifest::{
    current_schema_version, default_runtime_layer, entry, is_default_file_kind, manifest_paths,
    AdapterRaw, ArtifactRaw, BuildOutputRaw, BuildRaw, CheckSpec, ComponentManifest,
    ComponentManifestRaw, ComponentMetaRaw, ConfigValue, ContractRaw, DependenciesRaw, DirEntry,
    DistributionRaw, DistributionSelectorRaw, EnvRequirements, EnvRequirementsRaw, FeatureRaw,
    FileKind, HealthCheckRaw, InstallCapabilityRaw, InstallCapabilitySpec, InstallFileRaw,
    InstallFileSpec, InstallRaw, LayoutFileRaw, LayoutRaw, ManifestError, SourceRaw, StringOrList,
};

fn text(s: &str) -> Option<String> {
    Some(s.to_string())
}

fn list(items: &[&str]) -> Vec<String> {
    items.iter().map(|s| s.to_string()).collect()
}

fn no_dependencies() -> DependenciesRaw {
    DependenciesRaw {
        build: Vec::new(),
        runtime: Vec::new(),
        components: Vec::new(),
    }
}

fn raw(name: &str, version: &str) -> ComponentManifestRaw {
    ComponentManifestRaw {
        schema_version: current_schema_version(),
        component: ComponentMetaRaw {
            name: name.to_string(),
            version: version.to_string(),
            layer: default_runtime_layer(),
            domain: None,
            display_name: None,
            owner: None,
            license: None,
            repository: None,
            contract: None,
            platform: None,
            artifact: None,
            layout: None,
            health_check: None,
        },
        source: None,
        distribution: None,
        build: None,
        install: None,
        environment: EnvRequirementsRaw::default(),
        dependencies: no_dependencies(),
        features: Vec::new(),
        adapters: Vec::new(),
        health_checks: Vec::new(),
    }
}

fn install(modes: &[&str], files: Vec<InstallFileRaw>) -> Option<InstallRaw> {
    Some(InstallRaw {
        modes: list(modes),
        files,
        services: Vec::new(),
        capabilities: Vec::new(),
    })
}

fn file(source: Option<&str>, dest: Option<&str>, kind: FileKind) -> InstallFileRaw {
    InstallFileRaw {
        source: source.map(String::from),
        dest: dest.map(String::from),
        mode: None,
        kind,
    }
}

fn layout_file(source: &str, target: &str, kind: FileKind) -> LayoutFileRaw {
    LayoutFileRaw {
        source: text(source),
        target: text(target),
        mode: None,
        kind,
    }
}

fn layout(files: Vec<LayoutFileRaw>) -> Option<LayoutRaw> {
    Some(LayoutRaw {
        modes: Vec::new(),
        files,
    })
}

#[test]
fn component_manifest_parses_existing_fixture() {
    let mut r = raw("agentsight", "0.2.0");
    r.component.layer = "runtime".to_string();
    r.component.domain = text("observability");
    r.build = Some(BuildRaw {
        system: text("cargo"),
        targets: list(&["agentsight"]),
        outputs_named: Vec::new(),
    });
    r.install = Some(InstallRaw {
        modes: list(&["system"]),
        files: vec![file(
            Some("target/release/agentsight"),
            Some("{bindir}/agentsight"),
            FileKind::Data,
        )],
        services: list(&["agentsight.service"]),
        capabilities: Vec::new(),
    });
    r.environment.requires_os = Some(StringOrList::One("linux".to_string()));
    r.environment.requires_arch = Some(StringOrList::Many(list(&["x86_64"])));
    r.environment.requires_kernel = text(">=5.8");
    r.environment.requires_env = vec![
        (
            "btf_available".to_string(),
            ConfigValue::Text("true".to_string()),
        ),
        (
            "capability".to_string(),
            ConfigValue::Text("CAP_BPF".to_string()),
        ),
    ];
    r.dependencies.build = list(&["rust>=1.91"]);
    r.dependencies.runtime = list(&["kernel-headers"]);
    r.features = vec![FeatureRaw {
        name: "token_counting".to_string(),
        description: "LLM Token metering".to_string(),
        default: true,
    }];
    let m = ComponentManifest::from(r);
    assert_eq!(m.component.name, "agentsight");
    assert_eq!(m.component.domain.as_deref(), Some("observability"));
    assert_eq!(m.build.backend, "cargo");
    assert_eq!(m.install.modes, vec!["system"]);
    assert_eq!(m.install.files.len(), 1);
    assert_eq!(
        m.install.files[0].source.as_deref(),
        Some("target/release/agentsight")
    );
    assert_eq!(
        m.install.files[0].dest.as_deref(),
        Some("{bindir}/agentsight")
    );
    assert_eq!(m.env_requirements.kernel_min.as_deref(), Some(">=5.8"));
    assert_eq!(m.env_requirements.btf, Some(true));
    assert_eq!(m.env_requirements.cap_bpf, Some(true));
    assert_eq!(m.features.len(), 1);
    assert_eq!(m.features[0].description, "LLM Token metering");
    assert_eq!(m.dependencies.build, vec!["rust>=1.91"]);
    assert_eq!(m.dependencies.runtime, vec!["kernel-headers"]);
    assert!(m.dependencies.components.is_empty());
}

#[test]
fn component_manifest_parses_minimal_schema() {
    let mut r = raw("tokenless", "0.5.0");
    r.component.display_name = text("Tokenless");
    r.component.owner = text("tokenless-team");
    r.component.license = text("MIT");
    r.component.repository = text("https://github.com/alibaba/anolisa");
    r.component.contract = Some(ContractRaw {
        schema_version: text("1.0"),
        min_anolisa_version: text("0.2.0"),
    });
    r.component.platform = Some(EnvRequirementsRaw {
        os: Some(StringOrList::Many(list(&["linux"]))),
        arch: Some(StringOrList::Many(list(&["x86_64", "aarch64"]))),
        kernel: text("5.4"),
        ..EnvRequirementsRaw::default()
    });
    r.component.artifact = Some(ArtifactRaw {
        artifact_type: text("archive"),
        archive_format: text("tar.gz"),
        naming_pattern: text("{name}-{version}-{os}-{arch}.tar.gz"),
    });
    r.component.layout = Some(LayoutRaw {
        modes: list(&["user", "system"]),
        files: vec![LayoutFileRaw {
            source: text("bin/tokenless"),
            target: text("{bindir}/tokenless"),
            mode: text("0755"),
            kind: FileKind::Executable,
        }],
    });
    r.component.health_check = Some(CheckSpec::BinaryVersion {
        binary: "{bindir}/tokenless".to_string(),
        expect_pattern: None,
        timeout_secs: None,
    });
    let m = ComponentManifest::from(r);
    assert_eq!(m.component.name, "tokenless");
    assert_eq!(m.component.display_name.as_deref(), Some("Tokenless"));
    assert_eq!(m.component.owner.as_deref(), Some("tokenless-team"));
    assert_eq!(m.component.license.as_deref(), Some("MIT"));
    assert_eq!(m.contract.schema_version.as_deref(), Some("1.0"));
    assert_eq!(m.contract.min_anolisa_version.as_deref(), Some("0.2.0"));
    assert_eq!(m.artifact.artifact_type.as_deref(), Some("archive"));
    assert_eq!(m.artifact.archive_format.as_deref(), Some("tar.gz"));
    assert_eq!(m.env_requirements.os, vec!["linux"]);
    assert_eq!(m.env_requirements.arch, vec!["x86_64", "aarch64"]);
    assert_eq!(m.env_requirements.kernel_min.as_deref(), Some("5.4"));
    assert_eq!(m.install.modes, vec!["user", "system"]);
    assert_eq!(m.install.files.len(), 1);
    assert_eq!(m.install.files[0].source.as_deref(), Some("bin/tokenless"));
    assert_eq!(
        m.install.files[0].dest.as_deref(),
        Some("{bindir}/tokenless")
    );
}

#[test]
fn minimal_layout_takes_precedence_over_legacy_install() {
    let mut r = raw("dual", "1.0.0");
    r.component.layout = layout(vec![layout_file("bin/new", "{bindir}/new", FileKind::Data)]);
    r.install = install(
        &["system"],
        vec![file(Some("bin/old"), Some("{bindir}/old"), FileKind::Data)],
    );
    let m = ComponentManifest::from(r);
    assert_eq!(m.install.files.len(), 1);
    assert_eq!(m.install.files[0].source.as_deref(), Some("bin/new"));
}

#[test]
fn install_files_preserve_source_dest_and_fallbacks() {
    let mut r = raw("tool", "1.0.0");
    r.install = install(
        &["user"],
        vec![
            file(
                Some("target/release/tool"),
                Some("{bindir}/tool"),
                FileKind::Data,
            ),
            file(Some("{datadir}/source-only"), None, FileKind::Data),
            file(None, Some("{etcdir}/dest-only"), FileKind::Data),
        ],
    );
    let m = ComponentManifest::from(r);

    assert_eq!(m.install.files.len(), 3);
    assert_eq!(
        m.install.files[0].source.as_deref(),
        Some("target/release/tool")
    );
    assert_eq!(m.install.files[0].dest.as_deref(), Some("{bindir}/tool"));
    assert_eq!(m.install.files[0].install_path(), Some("{bindir}/tool"));
    assert_eq!(
        m.install.files[1].source.as_deref(),
        Some("{datadir}/source-only")
    );
    assert_eq!(m.install.files[1].dest, None);
    assert_eq!(
        m.install.files[1].install_path(),
        Some("{datadir}/source-only")
    );
    assert_eq!(m.install.files[2].source, None);
    assert_eq!(
        m.install.files[2].dest.as_deref(),
        Some("{etcdir}/dest-only")
    );
    assert_eq!(
        m.install.files[2].install_path(),
        Some("{etcdir}/dest-only")
    );
}

#[test]
fn install_capabilities_preserve_path_and_caps() {
    let mut r = raw("agentsight", "0.2.0");
    r.install = Some(InstallRaw {
        modes: list(&["system"]),
        files: Vec::new(),
        services: Vec::new(),
        capabilities: vec![InstallCapabilityRaw {
            path: text("{bindir}/agentsight"),
            caps: list(&["cap_bpf", "cap_perfmon"]),
        }],
    });
    let m = ComponentManifest::from(r);

    assert_eq!(m.install.capabilities.len(), 1);
    assert_eq!(
        m.install.capabilities[0].path.as_deref(),
        Some("{bindir}/agentsight")
    );
    assert_eq!(
        m.install.capabilities[0].caps,
        vec!["cap_bpf", "cap_perfmon"]
    );
}

#[test]
fn dependencies_preserve_build_runtime_components_kind() {
    let mut r = raw("agentsight", "0.2.0");
    r.dependencies = DependenciesRaw {
        build: list(&["rust>=1.91", "clang>=14"]),
        runtime: list(&["kernel-headers"]),
        components: list(&["sec-core"]),
    };
    let m = ComponentManifest::from(r);
    assert_eq!(m.dependencies.build, vec!["rust>=1.91", "clang>=14"]);
    assert_eq!(m.dependencies.runtime, vec!["kernel-headers"]);
    assert_eq!(m.dependencies.components, vec!["sec-core"]);
}

#[test]
fn adapters_preserve_framework_kind_plugin_source_dest_detect() {
    let mut r = raw("agentsight", "0.2.0");
    r.adapters = vec![AdapterRaw {
        name: None,
        framework: text("openclaw"),
        kind: text("third-party"),
        plugin_id: text("agentsight-openclaw"),
        source: text("adapters/agentsight/openclaw"),
        dest: text("{datadir}/adapters/{component}/openclaw/"),
        detect: vec![(
            "config_path".to_string(),
            ConfigValue::Text("~/.openclaw/config.toml".to_string()),
        )],
    }];
    let m = ComponentManifest::from(r);
    assert_eq!(m.adapters.len(), 1);
    let a = &m.adapters[0];
    assert_eq!(a.framework.as_deref(), Some("openclaw"));
    assert_eq!(a.kind.as_deref(), Some("third-party"));
    assert_eq!(a.plugin_id.as_deref(), Some("agentsight-openclaw"));
    assert_eq!(a.source.as_deref(), Some("adapters/agentsight/openclaw"));
    assert_eq!(
        a.dest.as_deref(),
        Some("{datadir}/adapters/{component}/openclaw/")
    );
    let detected = match entry(&a.detect, "config_path") {
        Some(ConfigValue::Text(s)) => Some(s.as_str()),
        _ => None,
    };
    assert_eq!(detected, Some("~/.openclaw/config.toml"));
}

#[test]
fn layout_file_kind_parses_and_defaults_to_data() {
    let mut r = raw("tokenless", "0.5.0");
    r.component.layout = layout(vec![
        layout_file("bin/tokenless", "{bindir}/tokenless", FileKind::Executable),
        layout_file(
            "share/data.bin",
            "{sharedir}/tokenless/data.bin",
            FileKind::default(),
        ),
    ]);
    let m = ComponentManifest::from(r);
    assert_eq!(m.install.files.len(), 2);
    assert_eq!(m.install.files[0].kind, FileKind::Executable);
    // No `type` key: data.
    assert_eq!(m.install.files[1].kind, FileKind::Data);
    assert!(is_default_file_kind(&m.install.files[1].kind));
    assert!(!is_default_file_kind(&m.install.files[0].kind));
}

#[test]
fn symlink_file_kind_parses_in_both_schemas() {
    let mut r = raw("tokenless", "0.5.0");
    r.component.layout = layout(vec![layout_file(
        "{libexecdir}/tokenless/rtk",
        "{bindir}/rtk",
        FileKind::Symlink,
    )]);
    let minimal = ComponentManifest::from(r);
    assert_eq!(minimal.install.files[0].kind, FileKind::Symlink);

    let mut r = raw("tokenless", "0.5.0");
    r.install = install(
        &["user"],
        vec![file(
            Some("{libexecdir}/tokenless/rtk"),
            Some("{bindir}/rtk"),
            FileKind::Symlink,
        )],
    );
    let legacy = ComponentManifest::from(r);
    assert_eq!(legacy.install.files[0].kind, FileKind::Symlink);
}

#[test]
fn layout_files_target_aliases_dest() {
    let mut r = raw("t", "1.0.0");
    r.component.layout = layout(vec![layout_file("bin/t", "{bindir}/t", FileKind::Data)]);
    let m = ComponentManifest::from(r);
    assert_eq!(m.install.files[0].dest.as_deref(), Some("{bindir}/t"));
}

#[test]
fn health_spec_uses_declared_check_when_present() {
    let mut r = raw("tokenless", "0.5.0");
    r.component.health_check = Some(CheckSpec::BinaryVersion {
        binary: "{bindir}/tokenless".to_string(),
        expect_pattern: None,
        timeout_secs: None,
    });
    let m = ComponentManifest::from(r);
    match m.health_spec() {
        Some(CheckSpec::BinaryVersion { binary, .. }) => {
            assert_eq!(binary, "{bindir}/tokenless");
        }
        other => panic!("expected declared binary_version, got {other:?}"),
    }
}

#[test]
fn health_spec_synthesizes_binary_version_from_first_executable() {
    let mut r = raw("tokenless", "0.5.0");
    r.component.layout = layout(vec![
        layout_file("share/x", "{sharedir}/x", FileKind::Data),
        layout_file("bin/tokenless", "{bindir}/tokenless", FileKind::Executable),
    ]);
    let m = ComponentManifest::from(r);
    match m.health_spec() {
        Some(CheckSpec::BinaryVersion { binary, .. }) => {
            assert_eq!(binary, "{bindir}/tokenless", "first executable wins");
        }
        other => panic!("expected synthesized binary_version, got {other:?}"),
    }
}

#[test]
fn health_spec_is_none_without_check_or_executable() {
    let mut r = raw("t", "1.0.0");
    r.component.layout = layout(vec![layout_file("share/x", "{sharedir}/x", FileKind::Data)]);
    let m = ComponentManifest::from(r);
    assert!(m.health_spec().is_none());
}

#[test]
fn multiple_health_checks_are_preserved_in_order() {
    let mut r = raw("agentsight", "0.2.0");
    r.health_checks = vec![
        HealthCheckRaw {
            name: text("binary"),
            kind: text("command"),
            command: text("{bindir}/agentsight --help"),
            probe: None,
            unit: None,
            optional: None,
        },
        HealthCheckRaw {
            name: text("service"),
            kind: text("systemd"),
            command: None,
            probe: None,
            unit: text("agentsight.service"),
            optional: Some(true),
        },
    ];
    let m = ComponentManifest::from(r);
    assert_eq!(m.health_checks.len(), 2);
    assert_eq!(m.health_checks[0].name.as_deref(), Some("binary"));
    assert_eq!(m.health_checks[0].kind, "command");
    assert_eq!(
        m.health_checks[0].command.as_deref(),
        Some("{bindir}/agentsight --help")
    );
    assert_eq!(m.health_checks[1].name.as_deref(), Some("service"));
    assert_eq!(m.health_checks[1].kind, "systemd");
    assert_eq!(
        m.health_checks[1].unit.as_deref(),
        Some("agentsight.service")
    );
    assert_eq!(m.health_checks[1].optional, Some(true));
}

#[test]
fn component_domain_distinguishes_unset_from_explicit_empty() {
    let unset = ComponentManifest::from(raw("unset-domain", "1.0.0"));
    assert_eq!(unset.component.domain, None);

    let mut r = raw("empty-domain", "1.0.0");
    r.component.domain = text("");
    let explicit_empty = ComponentManifest::from(r);
    assert_eq!(explicit_empty.component.domain.as_deref(), Some(""));
}

#[test]
fn platform_takes_the_place_of_the_environment() {
    let mut r = raw("t", "1");
    r.environment.os = Some(StringOrList::One("plan9".to_string()));
    r.component.platform = Some(EnvRequirementsRaw {
        os: Some(StringOrList::One("linux".to_string())),
        ..EnvRequirementsRaw::default()
    });
    assert_eq!(ComponentManifest::from(r).env_requirements.os, vec!["linux"]);
    let mut r = raw("t", "1");
    r.environment.os = Some(StringOrList::One("plan9".to_string()));
    assert_eq!(ComponentManifest::from(r).env_requirements.os, vec!["plan9"]);
}

#[test]
fn newer_names_of_requirements_come_first() {
    let e = EnvRequirements::from(EnvRequirementsRaw {
        os: Some(StringOrList::One("new".to_string())),
        requires_os: Some(StringOrList::One("old".to_string())),
        libc: None,
        requires_libc: Some(StringOrList::Many(list(&["glibc", "musl"]))),
        kernel: text("6.6"),
        requires_kernel: text("5.4"),
        btf: Some(false),
        requires_env: vec![
            ("btf_available".to_string(), ConfigValue::Boolean(true)),
            (
                "capability".to_string(),
                ConfigValue::List(vec![
                    ConfigValue::Integer(1),
                    ConfigValue::Text("cap_bpf".to_string()),
                ]),
            ),
        ],
        ..EnvRequirementsRaw::default()
    });
    assert_eq!(e.os, vec!["new"]);
    assert_eq!(e.libc, vec!["glibc", "musl"]);
    assert_eq!(e.kernel_min.as_deref(), Some("6.6"));
    assert_eq!(e.btf, Some(false));
    assert_eq!(e.cap_bpf, Some(true));
}

#[test]
fn files_and_capabilities_without_a_place_are_dropped() {
    let mut r = raw("t", "1");
    r.install = Some(InstallRaw {
        modes: Vec::new(),
        files: vec![
            file(None, None, FileKind::Data),
            file(Some("a"), None, FileKind::Data),
        ],
        services: Vec::new(),
        capabilities: vec![
            InstallCapabilityRaw {
                path: None,
                caps: Vec::new(),
            },
            InstallCapabilityRaw {
                path: text("p"),
                caps: Vec::new(),
            },
        ],
    });
    let m = ComponentManifest::from(r);
    assert_eq!(m.install.files.len(), 1);
    assert_eq!(m.install.files[0].source.as_deref(), Some("a"));
    assert_eq!(m.install.capabilities.len(), 1);
}

#[test]
fn sources_builds_and_selectors_are_normalized() {
    let mut r = raw("t", "1");
    r.source = Some(SourceRaw {
        kind: None,
        path: text("p"),
        url: text("u"),
        upstream: text("git"),
    });
    r.build = Some(BuildRaw {
        system: None,
        targets: list(&["a"]),
        outputs_named: vec![BuildOutputRaw {
            name: "b".to_string(),
        }],
    });
    r.distribution = Some(DistributionRaw {
        selectors: vec![DistributionSelectorRaw {
            install_mode: text("user"),
            os: list(&["linux"]),
            arch: Vec::new(),
            libc: None,
            pkg_base: None,
            preferred_artifact_types: vec![ArtifactType::Rpm, ArtifactType::TarGz],
        }],
    });
    let m = ComponentManifest::from(r);
    assert_eq!(m.source.kind, "git");
    assert_eq!(m.source.path.as_deref(), Some("p"));
    assert_eq!(m.source.url.as_deref(), Some("u"));
    assert_eq!(m.build.backend, "");
    assert_eq!(m.build.outputs, vec!["a", "b"]);
    assert_eq!(m.distribution_selectors.len(), 1);
    assert_eq!(
        m.distribution_selectors[0].preferred_artifact_types,
        vec![ArtifactType::Rpm, ArtifactType::TarGz]
    );
    assert!(m.dependencies.is_empty());
    let m = ComponentManifest::from(raw("t", "1"));
    assert!(m.distribution_selectors.is_empty());
}

#[test]
fn mappings_are_shown() {
    let shown = |source: Option<&str>, dest: Option<&str>| {
        InstallFileSpec {
            source: source.map(String::from),
            dest: dest.map(String::from),
            mode: None,
            kind: FileKind::Data,
        }
        .display()
    };
    assert_eq!(shown(Some("a"), Some("b")), "a -> b");
    assert_eq!(shown(Some("a"), None), "a");
    assert_eq!(shown(None, Some("b")), "b");
    assert_eq!(shown(None, None), "<empty>");
    let caps = InstallCapabilitySpec {
        path: text("/bin/x"),
        caps: list(&["cap_bpf", "cap_perfmon"]),
    };
    assert!(caps.display().contains("/bin/x"));
    assert!(caps.display().contains("cap_bpf"));
}

#[test]
fn manifest_errors_name_the_path() {
    assert_eq!(
        ManifestError::Io("a.toml".to_string(), "gone".to_string()).message(),
        "cannot read manifest 'a.toml': gone"
    );
    assert_eq!(
        ManifestError::Parse("a.toml".to_string(), "line 1".to_string()).message(),
        "cannot parse manifest 'a.toml': line 1"
    );
}

#[test]
fn manifests_are_listed_by_name() {
    let e = |name: &str, is_file: bool| DirEntry {
        name: name.as_bytes().to_vec(),
        is_file,
    };
    let found = manifest_paths(vec![
        e("b.toml", true),
        e("a.toml", true),
        e("dir.toml", false),
        e(".toml", true),
        e("c.txt", true),
        e("B.toml", true),
    ]);
    let names: Vec<Vec<u8>> = found.into_iter().map(|d| d.name).collect();
    assert_eq!(
        names,
        vec![b"B.toml".to_vec(), b"a.toml".to_vec(), b"b.toml".to_vec()]
    );
}
