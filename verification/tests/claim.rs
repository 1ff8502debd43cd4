use anolisa::adapter::claim::{
    validate_external_path, validate_plugin_id, AdapterClaim, AllowedRoots, ClaimResource,
    ClaimResourceKind, ClaimStatus, ClaimValidationError, DriverPayload, ExternalPathError,
    OpenClawClaim, PathBoundaryError, PathFacts,
};

fn roots(paths: &[&str]) -> AllowedRoots {
    AllowedRoots {
        paths: paths.iter().map(|s| s.to_string()).collect(),
        canonical: paths.iter().map(|s| s.to_string()).collect(),
    }
}

fn no_facts() -> PathFacts {
    PathFacts {
        boundary: None,
        canonical: None,
    }
}

fn sample_claim() -> AdapterClaim {
    AdapterClaim {
        claim_schema: 1,
        component: "tokenless".to_string(),
        framework: "openclaw".to_string(),
        plugin_id: Some("tokenless".to_string()),
        enabled_at: "2026-06-01T10:00:00Z".to_string(),
        resource_root: "/usr/local/share/anolisa/adapters/tokenless/openclaw".to_string(),
        bundle_digest: Some("sha256:abc".to_string()),
        driver_schema: 1,
        status: ClaimStatus::Enabled,
        resources: vec![
            ClaimResource {
                id: "openclaw_state_dir".to_string(),
                purpose: "openclaw_state_dir".to_string(),
                kind: ClaimResourceKind::ExternalPath {
                    path: "/home/alice/.openclaw".to_string(),
                },
            },
            ClaimResource {
                id: "openclaw_plugin".to_string(),
                purpose: "openclaw_plugin".to_string(),
                kind: ClaimResourceKind::FrameworkPlugin {
                    framework: "openclaw".to_string(),
                    plugin_id: "tokenless".to_string(),
                },
            },
        ],
        driver_payload: DriverPayload::OpenClaw(OpenClawClaim {
            state_dir_resource: "openclaw_state_dir".to_string(),
            plugin_resource: "openclaw_plugin".to_string(),
        }),
    }
}

#[test]
fn validate_plugin_id_accepts_safe_ids() {
    validate_plugin_id("tokenless").expect("plain");
    validate_plugin_id("ws-ckpt").expect("dash");
    validate_plugin_id("a.b_c-1").expect("mixed");
}

#[test]
fn validate_plugin_id_rejects_unsafe_ids() {
    assert!(validate_plugin_id("").is_err(), "empty");
    assert!(validate_plugin_id("..").is_err(), "dotdot");
    assert!(validate_plugin_id("-rf").is_err(), "leading dash");
    assert!(validate_plugin_id("a/b").is_err(), "slash");
    assert!(validate_plugin_id("a b").is_err(), "space");
    assert!(validate_plugin_id("a;b").is_err(), "semicolon");
    assert!(validate_plugin_id("a$b").is_err(), "dollar");
}

#[test]
fn validate_external_path_rejects_traversal() {
    let roots = roots(&["/home/alice/.openclaw"]);
    let err = validate_external_path("/home/alice/.openclaw/../.ssh", &roots, &None)
        .expect_err("must reject");
    assert!(matches!(err, ExternalPathError::Traversal { .. }));
}

#[test]
fn validate_external_path_rejects_outside_root() {
    let roots = roots(&["/home/alice/.openclaw"]);
    let err = validate_external_path("/etc/passwd", &roots, &None).expect_err("must reject");
    assert!(matches!(err, ExternalPathError::OutsideAllowedRoots { .. }));
}

#[test]
fn validate_external_path_accepts_under_root() {
    let roots = roots(&["/home/alice/.openclaw"]);
    validate_external_path(
        "/home/alice/.openclaw/extensions/tokenless",
        &roots,
        &None,
    )
    .expect("under root must pass");
}

#[test]
fn forged_external_path_rejected_by_claim_validate() {
    let allowed = roots(&["/home/alice/.openclaw"]);
    let mut claim = sample_claim();
    claim.resources[0].kind = ClaimResourceKind::ExternalPath {
        path: "/etc/cron.d/evil".to_string(),
    };
    let err = claim
        .validate(&allowed, &vec![no_facts(), no_facts()])
        .expect_err("must reject");
    assert!(matches!(err, ClaimValidationError::ExternalPath { .. }));
}

#[test]
fn dot_segments_are_traversal() {
    let roots = roots(&["/home/alice/.openclaw"]);
    let err = validate_external_path("/home/alice/.openclaw/./x", &roots, &None)
        .expect_err("must reject");
    assert!(matches!(err, ExternalPathError::Traversal { .. }));
    assert_eq!(
        err.message(),
        "path '/home/alice/.openclaw/./x' contains a '.' or '..' segment"
    );
}

#[test]
fn siblings_of_a_root_are_outside() {
    let roots = roots(&["/home/alice/.openclaw"]);
    assert!(validate_external_path("/home/alice/.openclaw-evil/x", &roots, &None).is_err());
    assert!(validate_external_path("/home/alice/.openclaw", &roots, &None).is_ok());
}

#[test]
fn links_that_lead_out_are_outside() {
    let roots = roots(&["/home/alice/.openclaw"]);
    let err = validate_external_path(
        "/home/alice/.openclaw/link",
        &roots,
        &Some("/etc".to_string()),
    )
    .expect_err("must reject");
    assert!(matches!(err, ExternalPathError::OutsideAllowedRoots { .. }));
}

#[test]
fn sound_receipts_are_accepted() {
    let allowed = roots(&["/home/alice/.openclaw"]);
    sample_claim()
        .validate(&allowed, &vec![no_facts(), no_facts()])
        .expect("sound");
    let claim = sample_claim();
    assert_eq!(
        claim.resource("openclaw_plugin").expect("resource").purpose,
        "openclaw_plugin"
    );
    assert!(claim.resource("other").is_none());
}

#[test]
fn receipts_with_a_bad_plugin_id_are_refused() {
    let allowed = roots(&["/home/alice/.openclaw"]);
    let mut claim = sample_claim();
    claim.plugin_id = Some("--force".to_string());
    let err = claim
        .validate(&allowed, &vec![no_facts(), no_facts()])
        .expect_err("flag");
    assert_eq!(
        err.message(),
        "invalid plugin id '--force': must not start with '-' (would be parsed as a flag)"
    );
    let err = validate_plugin_id("a/b").expect_err("slash");
    assert_eq!(
        err.message(),
        "invalid plugin id 'a/b': contains disallowed character '/'"
    );
}

#[test]
fn owned_paths_go_by_the_verdict_of_the_boundary() {
    let allowed = roots(&[]);
    let r = ClaimResource {
        id: "data".to_string(),
        purpose: "data".to_string(),
        kind: ClaimResourceKind::OwnedPath {
            path: "/usr/local/share/anolisa/x".to_string(),
        },
    };
    r.validate(&allowed, &no_facts()).expect("inside");
    let outside = PathFacts {
        boundary: Some(PathBoundaryError {
            reason: "not under the prefix".to_string(),
        }),
        canonical: None,
    };
    let err = r.validate(&allowed, &outside).expect_err("outside");
    assert_eq!(
        err.message(),
        "owned-path resource 'data' failed boundary check: not under the prefix"
    );
}
