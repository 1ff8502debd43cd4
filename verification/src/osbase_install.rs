//! Installing operating-system substrate: kernels, sandboxes, security.
//!
//! A request names a domain and a target in it. It is checked and, for the
//! sandbox domain, comes to one run of the sandbox pipeline; the result of the
//! run is brought into a shape that all domains share. The kernel and security
//! domains have no pipeline.

use crate::env::EnvFacts;
use crate::sandbox::{
    InstallPhase, SandboxBackendKind, SandboxInstallError, SandboxInstallOutcome,
    SandboxInstallRequest, SandboxPhaseOutcome, SandboxPhaseStatus,
};
use crate::support_matrix::UnsupportedError;
use crate::text::{chars_of, concat2, concat3, own, same, texts, trim, trimmed};
use crate::text::laws::{is_blank, law_blank_trims_to_nothing};
use vstd::prelude::*;

verus! {

/// Domain of the substrate.
#[derive(Clone, Copy, PartialEq, Eq, Structural, Debug)]
pub enum OsbaseDomain {
    /// Kernel variants.
    Kernel,
    /// Sandbox engines.
    Sandbox,
    /// Security primitives.
    Security,
}

impl OsbaseDomain {
    /// Stable lower-case name.
    pub fn as_str(self) -> (r: &'static str)
        ensures
            r@ == match self {
                OsbaseDomain::Kernel => "kernel"@,
                OsbaseDomain::Sandbox => "sandbox"@,
                OsbaseDomain::Security => "security"@,
            },
    {
        match self {
            OsbaseDomain::Kernel => "kernel",
            OsbaseDomain::Sandbox => "sandbox",
            OsbaseDomain::Security => "security",
        }
    }
}

/// Whether an engine is registered with containerd.
#[derive(Clone, Copy, PartialEq, Eq, Structural, Debug)]
pub enum RegisterHandler {
    /// Register it.
    Containerd,
    /// Leave it standing alone.
    Standalone,
}

impl Default for RegisterHandler {
    fn default() -> (r: Self)
        ensures
            r == RegisterHandler::Containerd,
    {
        RegisterHandler::Containerd
    }
}

/// A request to install substrate.
#[derive(Debug)]
pub struct OsbaseInstallRequest {
    /// Domain.
    pub domain: OsbaseDomain,
    /// Scenario or variant.
    pub target: String,
    /// Registration with a runtime.
    pub register_handler: RegisterHandler,
    /// Also create a Kubernetes `RuntimeClass`.
    pub register_runtimeclass: bool,
    /// Configuration to use in place of the default.
    pub config_override: Option<String>,
    /// Make the engine the default runtime.
    pub set_default: bool,
    /// Pass over gates that are not fatal.
    pub force: bool,
    /// Skip verification.
    pub skip_verify: bool,
    /// Only plan.
    pub dry_run: bool,
}

/// A finished install.
#[derive(Debug)]
pub struct OsbaseInstallOutcome {
    /// Domain.
    pub domain: OsbaseDomain,
    /// Scenario or variant.
    pub target: String,
    /// Phases in order.
    pub phases: Vec<PhaseResult>,
    /// 0 success, 1 failed, 2 degraded.
    pub exit_code: i32,
    /// Warnings.
    pub warnings: Vec<String>,
}

/// One phase of a finished install.
#[derive(Debug)]
pub struct PhaseResult {
    /// Name.
    pub name: String,
    /// How it ended.
    pub status: PhaseStatus,
    /// What there is to say about it.
    pub message: Option<String>,
    /// How long it took.
    pub duration_ms: Option<u64>,
}

/// How a phase ended.
#[derive(Clone, Copy, PartialEq, Eq, Structural, Debug)]
pub enum PhaseStatus {
    /// Done.
    Success,
    /// Not needed.
    Skipped,
    /// Done, with a warning.
    Degraded,
    /// Not done.
    Failed,
}

/// Why an install failed.
#[derive(Debug)]
pub enum OsbaseInstallError {
    /// No row of the support matrix accepts the host.
    Unsupported(UnsupportedError),
    /// The request is at fault.
    InvalidRequest {
        /// What is wrong with it.
        reason: String,
    },
    /// A phase failed.
    PhaseFailed {
        /// Name of the phase.
        phase: String,
        /// What failed.
        message: String,
    },
    /// Input or output failed.
    Io(String),
}

impl OsbaseInstallError {
    /// The error as one line.
    pub open spec fn text(self) -> Seq<char> {
        match self {
            OsbaseInstallError::Unsupported(e) => "unsupported: "@ + e.text(),
            OsbaseInstallError::InvalidRequest { reason } => "invalid request: "@ + reason@,
            OsbaseInstallError::PhaseFailed { phase, message } => "phase '"@ + phase@
                + "' failed: "@ + message@,
            OsbaseInstallError::Io(e) => "io error: "@ + e@,
        }
    }

    /// The error as one line.
    pub fn message(&self) -> (r: String)
        ensures
            r@ == self.text(),
    {
        match self {
            OsbaseInstallError::Unsupported(e) => concat2("unsupported: ", e.message().as_str()),
            OsbaseInstallError::InvalidRequest { reason } => concat2(
                "invalid request: ",
                reason.as_str(),
            ),
            OsbaseInstallError::PhaseFailed { phase, message } => crate::text::concat4(
                "phase '",
                phase.as_str(),
                "' failed: ",
                message.as_str(),
            ),
            OsbaseInstallError::Io(e) => concat2("io error: ", e.as_str()),
        }
    }

    /// Whether this is a request at fault, for this reason.
    pub open spec fn is_invalid(self, why: Seq<char>) -> bool {
        self matches OsbaseInstallError::InvalidRequest { reason } && reason@ == why
    }

    /// Whether this is the failure of a phase.
    pub open spec fn is_phase(self, name: Seq<char>, why: Seq<char>) -> bool {
        self matches OsbaseInstallError::PhaseFailed { phase, message } && phase@ == name
            && message@ == why
    }
}

fn invalid(reason: &str) -> (r: OsbaseInstallError)
    ensures
        r.is_invalid(reason@),
{
    OsbaseInstallError::InvalidRequest { reason: own(reason) }
}

fn phase_failed(phase: &str, message: String) -> (r: OsbaseInstallError)
    ensures
        r.is_phase(phase@, message@),
{
    OsbaseInstallError::PhaseFailed { phase: own(phase), message }
}

// ---------------------------------------------------------------------------
// Validation
// ---------------------------------------------------------------------------

/// What is wrong with a request on this host, if anything.
pub open spec fn request_fault(request: OsbaseInstallRequest, env: EnvFacts) -> Option<Seq<char>> {
    if trim(request.target@).len() == 0 {
        Some("target must not be empty"@)
    } else if request.register_runtimeclass && request.register_handler == RegisterHandler::Standalone {
        Some("--register-runtimeclass requires a non-None --register-handler"@)
    } else if env.uid != 0 {
        Some("osbase requires root (uid=0); re-run with sudo"@)
    } else {
        None
    }
}

/// Checks a request before anything is done about it.
///
/// Refused are an empty target, a `RuntimeClass` without a handler to attach it
/// to, and a caller who is not root.
pub fn validate_request(request: &OsbaseInstallRequest, env: &EnvFacts) -> (r: Result<
    (),
    OsbaseInstallError,
>)
    ensures
        match request_fault(*request, *env) {
            Some(why) => r matches Err(e) && e.is_invalid(why),
            None => r is Ok,
        },
{
    if chars_of(trimmed(request.target.as_str()).as_str()).len() == 0 {
        return Err(invalid("target must not be empty"));
    }
    if request.register_runtimeclass && request.register_handler == RegisterHandler::Standalone {
        return Err(invalid("--register-runtimeclass requires a non-None --register-handler"));
    }
    if env.uid != 0 {
        return Err(invalid("osbase requires root (uid=0); re-run with sudo"));
    }
    Ok(())
}

// ---------------------------------------------------------------------------
// Scenarios
// ---------------------------------------------------------------------------

/// What a sandbox scenario stands for.
#[derive(Debug)]
pub struct SandboxScenario {
    /// Engine.
    pub backend: SandboxBackendKind,
    /// Variant of the engine.
    pub variant: &'static str,
    /// Runtime that the engine is registered with by default; none for an
    /// engine that is not wired to one.
    pub runtime: Option<&'static str>,
    /// Control-panel overlay.
    pub control_panel: Option<&'static str>,
}

/// The text of an optional literal.
pub open spec fn literal(o: Option<&'static str>) -> Option<Seq<char>> {
    match o {
        Some(s) => Some(s@),
        None => None,
    }
}

impl SandboxScenario {
    /// The fields as plain values.
    pub open spec fn fields(self) -> (
        SandboxBackendKind,
        Seq<char>,
        Option<Seq<char>>,
        Option<Seq<char>>,
    ) {
        (self.backend, self.variant@, literal(self.runtime), literal(self.control_panel))
    }
}

/// The table of scenarios: engine, variant, runtime and control panel.
pub open spec fn scenario_of(target: Seq<char>) -> Option<
    (SandboxBackendKind, Seq<char>, Option<Seq<char>>, Option<Seq<char>>),
> {
    if target == "runc"@ {
        Some((SandboxBackendKind::Container, "runc"@, Some("containerd"@), None))
    } else if target == "rund"@ {
        Some((SandboxBackendKind::Kata, "rund"@, Some("containerd"@), None))
    } else if target == "kata-qemu"@ {
        Some((SandboxBackendKind::Kata, "qemu"@, Some("containerd"@), None))
    } else if target == "kata-clh"@ {
        Some((SandboxBackendKind::Kata, "clh"@, Some("containerd"@), None))
    } else if target == "kata-fc"@ {
        Some((SandboxBackendKind::Firecracker, "kata-fc"@, None, None))
    } else if target == "firecracker"@ {
        Some((SandboxBackendKind::Firecracker, "standard"@, None, None))
    } else if target == "gvisor"@ {
        Some((SandboxBackendKind::Gvisor, "default"@, Some("containerd"@), None))
    } else if target == "gvisor-substrate"@ {
        Some(
            (SandboxBackendKind::Gvisor, "default"@, Some("containerd"@), Some("substrate"@)),
        )
    } else if target == "landlock"@ {
        Some((SandboxBackendKind::Landlock, "default"@, None, None))
    } else {
        None
    }
}

/// What a scenario name stands for; none for an unknown name.
pub fn resolve_sandbox_scenario(target: &str) -> (r: Option<SandboxScenario>)
    ensures
        match r {
            Some(s) => scenario_of(target@) == Some(s.fields()),
            None => scenario_of(target@) is None,
        },
{
    let (backend, variant, runtime, control_panel): (
        SandboxBackendKind,
        &'static str,
        Option<&'static str>,
        Option<&'static str>,
    ) = if same(target, "runc") {
        (SandboxBackendKind::Container, "runc", Some("containerd"), None)
    } else if same(target, "rund") {
        (SandboxBackendKind::Kata, "rund", Some("containerd"), None)
    } else if same(target, "kata-qemu") {
        (SandboxBackendKind::Kata, "qemu", Some("containerd"), None)
    } else if same(target, "kata-clh") {
        (SandboxBackendKind::Kata, "clh", Some("containerd"), None)
    } else if same(target, "kata-fc") {
        (SandboxBackendKind::Firecracker, "kata-fc", None, None)
    } else if same(target, "firecracker") {
        (SandboxBackendKind::Firecracker, "standard", None, None)
    } else if same(target, "gvisor") {
        (SandboxBackendKind::Gvisor, "default", Some("containerd"), None)
    } else if same(target, "gvisor-substrate") {
        (SandboxBackendKind::Gvisor, "default", Some("containerd"), Some("substrate"))
    } else if same(target, "landlock") {
        (SandboxBackendKind::Landlock, "default", None, None)
    } else {
        return None;
    };
    Some(SandboxScenario { backend, variant, runtime, control_panel })
}

// ---------------------------------------------------------------------------
// Dispatch
// ---------------------------------------------------------------------------

/// A run of the sandbox pipeline, and the warnings that its outcome begins
/// with.
#[derive(Debug)]
pub struct SandboxDispatch {
    /// The run.
    pub request: SandboxInstallRequest,
    /// Options of the request that the pipeline does not honor.
    pub warnings: Vec<String>,
}

fn owned_literal(o: Option<&'static str>) -> (r: Option<String>)
    ensures
        crate::text::opt_text(r) == literal(o),
{
    match o {
        Some(s) => Some(own(s)),
        None => None,
    }
}

/// The options of a request that the sandbox pipeline does not honor.
pub open spec fn unhonored(request: OsbaseInstallRequest) -> Seq<Seq<char>> {
    (if request.config_override is Some {
        seq!["--config override is not yet honored by the sandbox bridge"@]
    } else {
        seq![]
    }) + (if request.set_default {
        seq!["--default is not yet honored by the sandbox bridge"@]
    } else {
        seq![]
    }) + (if request.register_runtimeclass {
        seq!["--register-runtimeclass is not yet honored by the sandbox bridge"@]
    } else {
        seq![]
    })
}

impl SandboxDispatch {
    /// Whether this is the run that a request for the given scenario comes to.
    /// Without registration no runtime is passed on, even where the scenario
    /// has one.
    pub open spec fn carries_out(self, request: OsbaseInstallRequest) -> bool {
        &&& scenario_of(request.target@) matches Some(scenario)
        &&& self.request.backend == scenario.0
        &&& self.request.variant@ == scenario.1
        &&& crate::text::opt_text(self.request.runtime) == match request.register_handler {
            RegisterHandler::Containerd => scenario.2,
            RegisterHandler::Standalone => None,
        }
        &&& crate::text::opt_text(self.request.control_panel) == scenario.3
        &&& self.request.dry_run == request.dry_run
        &&& self.request.force == request.force
        &&& self.request.skip_verify == request.skip_verify
        &&& !self.request.json
        &&& texts(self.warnings@) == unhonored(request)
    }
}

fn sandbox_dispatch(request: &OsbaseInstallRequest) -> (r: Result<
    SandboxDispatch,
    OsbaseInstallError,
>)
    ensures
        match scenario_of(request.target@) {
            Some(_) => r matches Ok(d) && d.carries_out(*request),
            None => r matches Err(e) && e.is_invalid(
                "unknown sandbox scenario '"@ + request.target@ + "'"@,
            ),
        },
{
    let scenario = match resolve_sandbox_scenario(request.target.as_str()) {
        Some(s) => s,
        None => {
            return Err(
                OsbaseInstallError::InvalidRequest {
                    reason: concat3("unknown sandbox scenario '", request.target.as_str(), "'"),
                },
            );
        },
    };
    let runtime = match request.register_handler {
        RegisterHandler::Containerd => owned_literal(scenario.runtime),
        RegisterHandler::Standalone => None,
    };
    let mut warnings: Vec<String> = Vec::new();
    if request.config_override.is_some() {
        warnings.push(own("--config override is not yet honored by the sandbox bridge"));
    }
    if request.set_default {
        warnings.push(own("--default is not yet honored by the sandbox bridge"));
    }
    if request.register_runtimeclass {
        warnings.push(own("--register-runtimeclass is not yet honored by the sandbox bridge"));
    }
    assert(texts(warnings@) =~= unhonored(*request));
    Ok(
        SandboxDispatch {
            request: SandboxInstallRequest {
                backend: scenario.backend,
                variant: own(scenario.variant),
                runtime,
                control_panel: owned_literal(scenario.control_panel),
                dry_run: request.dry_run,
                force: request.force,
                skip_verify: request.skip_verify,
                json: false,
            },
            warnings,
        },
    )
}

/// Checks a request and says which run of the sandbox pipeline it comes to.
/// [`conclude_install`] takes the result of that run.
pub fn execute_install(request: &OsbaseInstallRequest, env: &EnvFacts) -> (r: Result<
    SandboxDispatch,
    OsbaseInstallError,
>)
    ensures
        match request_fault(*request, *env) {
            Some(why) => r matches Err(e) && e.is_invalid(why),
            None => match request.domain {
                OsbaseDomain::Sandbox => match scenario_of(request.target@) {
                    Some(_) => r matches Ok(d) && d.carries_out(*request),
                    None => r matches Err(e) && e.is_invalid(
                        "unknown sandbox scenario '"@ + request.target@ + "'"@,
                    ),
                },
                OsbaseDomain::Kernel => r matches Err(e) && e.is_invalid(
                    "kernel install not yet implemented"@,
                ),
                OsbaseDomain::Security => r matches Err(e) && e.is_invalid(
                    "security install not yet implemented"@,
                ),
            },
        },
{
    match validate_request(request, env) {
        Ok(()) => {},
        Err(e) => {
            return Err(e);
        },
    }
    match request.domain {
        OsbaseDomain::Sandbox => sandbox_dispatch(request),
        OsbaseDomain::Kernel => Err(invalid("kernel install not yet implemented")),
        OsbaseDomain::Security => Err(invalid("security install not yet implemented")),
    }
}

// ---------------------------------------------------------------------------
// Outcomes
// ---------------------------------------------------------------------------

/// Name of a phase in the shared shape.
pub open spec fn phase_name(phase: InstallPhase) -> Seq<char> {
    match phase {
        InstallPhase::Preflight => "preflight"@,
        InstallPhase::Packages => "packages"@,
        InstallPhase::OsPrimitives => "os_primitives"@,
        InstallPhase::ServiceSetup => "service_setup"@,
        InstallPhase::PostVerify => "post_verify"@,
    }
}

/// Name of a phase in the shared shape.
pub fn phase_to_name(phase: InstallPhase) -> (r: &'static str)
    ensures
        r@ == phase_name(phase),
{
    match phase {
        InstallPhase::Preflight => "preflight",
        InstallPhase::Packages => "packages",
        InstallPhase::OsPrimitives => "os_primitives",
        InstallPhase::ServiceSetup => "service_setup",
        InstallPhase::PostVerify => "post_verify",
    }
}

/// Status of a phase in the shared shape.
pub open spec fn shared_status(s: SandboxPhaseStatus) -> PhaseStatus {
    match s {
        SandboxPhaseStatus::Success => PhaseStatus::Success,
        SandboxPhaseStatus::Skipped => PhaseStatus::Skipped,
        SandboxPhaseStatus::Warning => PhaseStatus::Degraded,
        SandboxPhaseStatus::Failed => PhaseStatus::Failed,
    }
}

/// Status of a phase in the shared shape.
pub fn map_phase_status(s: SandboxPhaseStatus) -> (r: PhaseStatus)
    ensures
        r == shared_status(s),
{
    match s {
        SandboxPhaseStatus::Success => PhaseStatus::Success,
        SandboxPhaseStatus::Skipped => PhaseStatus::Skipped,
        SandboxPhaseStatus::Warning => PhaseStatus::Degraded,
        SandboxPhaseStatus::Failed => PhaseStatus::Failed,
    }
}

/// The exit codes that remain: success, degraded, and failed for all others.
pub open spec fn shared_exit_code(code: i32) -> i32 {
    if code == 0 {
        0
    } else if code == 2 {
        2
    } else {
        1
    }
}

impl PhaseResult {
    /// Whether this is a phase of the pipeline in the shared shape.
    pub open spec fn tells(self, p: SandboxPhaseOutcome) -> bool {
        &&& self.name@ == phase_name(p.phase)
        &&& self.status == shared_status(p.status)
        &&& self.message == if p.message@.len() == 0 {
            None
        } else {
            Some(p.message)
        }
        &&& self.duration_ms is None
    }
}

impl OsbaseInstallOutcome {
    /// Whether this is the outcome of a pipeline run in the shared shape, the
    /// warnings of the dispatch coming first.
    pub open spec fn tells(
        self,
        request: OsbaseInstallRequest,
        outcome: SandboxInstallOutcome,
        warnings: Seq<String>,
    ) -> bool {
        &&& self.domain == request.domain
        &&& self.target@ == request.target@
        &&& self.phases@.len() == outcome.phases@.len()
        &&& forall|k: int|
            0 <= k < outcome.phases@.len() ==> (#[trigger] self.phases@[k]).tells(
                outcome.phases@[k],
            )
        &&& self.exit_code == shared_exit_code(outcome.exit_code)
        &&& self.warnings@ == warnings + outcome.warnings@
    }
}

fn map_phases(phases: Vec<SandboxPhaseOutcome>) -> (r: Vec<PhaseResult>)
    ensures
        r@.len() == phases@.len(),
        forall|k: int| 0 <= k < phases@.len() ==> (#[trigger] r@[k]).tells(phases@[k]),
{
    let ghost all = phases@;
    let mut out: Vec<PhaseResult> = Vec::new();
    for p in it: phases.into_iter()
        invariant
            it.seq() == all,
            out@.len() == it.index(),
            forall|k: int| 0 <= k < out@.len() ==> (#[trigger] out@[k]).tells(all[k]),
    {
        let silent = chars_of(p.message.as_str()).len() == 0;
        out.push(
            PhaseResult {
                name: own(phase_to_name(p.phase)),
                status: map_phase_status(p.status),
                message: if silent {
                    None
                } else {
                    Some(p.message)
                },
                duration_ms: None,
            },
        );
    }
    out
}

/// Brings the outcome of a pipeline run into the shared shape.
pub fn map_sandbox_outcome(
    request: &OsbaseInstallRequest,
    outcome: SandboxInstallOutcome,
    warnings: Vec<String>,
) -> (r: OsbaseInstallOutcome)
    ensures
        r.tells(*request, outcome, warnings@),
{
    let mut all = warnings;
    let mut more = outcome.warnings;
    all.append(&mut more);
    let exit_code: i32 = if outcome.exit_code == 0 {
        0
    } else if outcome.exit_code == 2 {
        2
    } else {
        1
    };
    OsbaseInstallOutcome {
        domain: request.domain,
        target: request.target.clone(),
        phases: map_phases(outcome.phases),
        exit_code,
        warnings: all,
    }
}

/// Whether `e` is what a broken-off run is reported as: the phase that failed,
/// or a request that the pipeline refuses.
pub open spec fn error_tells(
    e: OsbaseInstallError,
    target: Seq<char>,
    err: SandboxInstallError,
) -> bool {
    match err {
        SandboxInstallError::Unsupported { backend, variant } => e.is_invalid(
            "scenario '"@ + target + "' rejected by sandbox pipeline: "@ + backend@ + " "@
                + variant@,
        ),
        SandboxInstallError::EnvNotSatisfied { reason, remediation } => e.is_phase(
            "preflight"@,
            match remediation {
                Some(r) => reason@ + " \u{2014} "@ + r@,
                None => reason@,
            },
        ),
        SandboxInstallError::PackageFailed(m) => e.is_phase("packages"@, m@),
        SandboxInstallError::OsConfigFailed(m) => e.is_phase("os_primitives"@, m@),
        SandboxInstallError::ServiceFailed(m) => e.is_phase("service_setup"@, m@),
        SandboxInstallError::VerifyFailed(m) => e.is_phase("post_verify"@, m@),
        SandboxInstallError::LockHeld => e.is_invalid("install lock held by another process"@),
        SandboxInstallError::StateFailed(m) => e.is_phase("state"@, m@),
        SandboxInstallError::NotRoot => e.is_invalid("must run as root for system-mode install"@),
    }
}

/// Reports a run that was broken off.
pub fn map_sandbox_error(request: &OsbaseInstallRequest, err: SandboxInstallError) -> (r:
    OsbaseInstallError)
    ensures
        error_tells(r, request.target@, err),
{
    match err {
        SandboxInstallError::Unsupported { backend, variant } => {
            let mut reason = own("scenario '");
            reason.append(request.target.as_str());
            reason.append("' rejected by sandbox pipeline: ");
            reason.append(backend.as_str());
            reason.append(" ");
            reason.append(variant.as_str());
            OsbaseInstallError::InvalidRequest { reason }
        },
        SandboxInstallError::EnvNotSatisfied { reason, remediation } => {
            let message = match remediation {
                Some(r) => concat3(reason.as_str(), " \u{2014} ", r.as_str()),
                None => reason,
            };
            phase_failed("preflight", message)
        },
        SandboxInstallError::PackageFailed(m) => phase_failed("packages", m),
        SandboxInstallError::OsConfigFailed(m) => phase_failed("os_primitives", m),
        SandboxInstallError::ServiceFailed(m) => phase_failed("service_setup", m),
        SandboxInstallError::VerifyFailed(m) => phase_failed("post_verify", m),
        SandboxInstallError::LockHeld => invalid("install lock held by another process"),
        SandboxInstallError::StateFailed(m) => phase_failed("state", m),
        SandboxInstallError::NotRoot => invalid("must run as root for system-mode install"),
    }
}

/// Reports what a dispatched run came to.
pub fn conclude_install(
    request: &OsbaseInstallRequest,
    warnings: Vec<String>,
    result: Result<SandboxInstallOutcome, SandboxInstallError>,
) -> (r: Result<OsbaseInstallOutcome, OsbaseInstallError>)
    ensures
        match result {
            Ok(outcome) => r matches Ok(o) && o.tells(*request, outcome, warnings@),
            Err(err) => r matches Err(e) && error_tells(e, request.target@, err),
        },
{
    match result {
        Ok(outcome) => Ok(map_sandbox_outcome(request, outcome, warnings)),
        Err(err) => Err(map_sandbox_error(request, err)),
    }
}

// ---------------------------------------------------------------------------
// Laws
// ---------------------------------------------------------------------------

/// Nobody but root gets past validation, whatever is asked for.
pub proof fn law_only_root_installs(request: OsbaseInstallRequest, env: EnvFacts)
    requires
        env.uid != 0,
    ensures
        request_fault(request, env) is Some,
{
}

/// An engine that is not wired to a runtime is never handed one, and neither is
/// one for which registration was declined.
pub proof fn law_standalone_stays_standalone(
    request: OsbaseInstallRequest,
    dispatch: SandboxDispatch,
)
    requires
        dispatch.carries_out(request),
        request.register_handler == RegisterHandler::Standalone || (scenario_of(request.target@)
            matches Some(s) && s.2 is None),
    ensures
        dispatch.request.runtime is None,
{
}

/// An outcome counts as a success exactly when the pipeline called it one.
pub proof fn law_success_is_not_invented(
    request: OsbaseInstallRequest,
    outcome: SandboxInstallOutcome,
    warnings: Seq<String>,
    shared: OsbaseInstallOutcome,
)
    requires
        shared.tells(request, outcome, warnings),
    ensures
        shared.exit_code == 0 <==> outcome.exit_code == 0,
        shared.exit_code == 0 || shared.exit_code == 1 || shared.exit_code == 2,
{
}

/// The names of the scenarios are told apart.
proof fn lemma_scenarios_differ()
    ensures
        "runc"@.len() == 4 && "runc"@[3] == 'c',
        "rund"@.len() == 4 && "rund"@[3] == 'd',
        "kata-qemu"@.len() == 9,
        "kata-clh"@.len() == 8 && "kata-clh"@[0] == 'k',
        "kata-fc"@.len() == 7,
        "firecracker"@.len() == 11,
        "gvisor"@.len() == 6,
        "gvisor-substrate"@.len() == 16,
        "landlock"@.len() == 8 && "landlock"@[0] == 'l',
{
    reveal_strlit("runc");
    reveal_strlit("rund");
    reveal_strlit("kata-qemu");
    reveal_strlit("kata-clh");
    reveal_strlit("kata-fc");
    reveal_strlit("firecracker");
    reveal_strlit("gvisor");
    reveal_strlit("gvisor-substrate");
    reveal_strlit("landlock");
}

/// Whether a run is of this engine and variant, with this runtime where the
/// request registers one and this control panel.
pub open spec fn runs(
    d: SandboxDispatch,
    request: OsbaseInstallRequest,
    engine: SandboxBackendKind,
    variant: Seq<char>,
    runtime: Option<Seq<char>>,
    panel: Option<Seq<char>>,
) -> bool {
    &&& d.request.backend == engine
    &&& d.request.variant@ == variant
    &&& request.register_handler == RegisterHandler::Containerd ==> crate::text::opt_text(
        d.request.runtime,
    ) == runtime
    &&& request.register_handler == RegisterHandler::Standalone ==> d.request.runtime is None
    &&& crate::text::opt_text(d.request.control_panel) == panel
}

/// Every request for a scenario runs its engine and variant, as its row has it,
/// and hands its flags on.
pub proof fn law_scenario_runs_its_engine(request: OsbaseInstallRequest, d: SandboxDispatch)
    requires
        d.carries_out(request),
    ensures
        request.target@ == "runc"@ ==> runs(
            d,
            request,
            SandboxBackendKind::Container,
            "runc"@,
            Some("containerd"@),
            None,
        ),
        request.target@ == "rund"@ ==> runs(
            d,
            request,
            SandboxBackendKind::Kata,
            "rund"@,
            Some("containerd"@),
            None,
        ),
        request.target@ == "kata-qemu"@ ==> runs(
            d,
            request,
            SandboxBackendKind::Kata,
            "qemu"@,
            Some("containerd"@),
            None,
        ),
        request.target@ == "kata-clh"@ ==> runs(
            d,
            request,
            SandboxBackendKind::Kata,
            "clh"@,
            Some("containerd"@),
            None,
        ),
        request.target@ == "kata-fc"@ ==> runs(
            d,
            request,
            SandboxBackendKind::Firecracker,
            "kata-fc"@,
            None,
            None,
        ),
        request.target@ == "firecracker"@ ==> runs(
            d,
            request,
            SandboxBackendKind::Firecracker,
            "standard"@,
            None,
            None,
        ),
        request.target@ == "gvisor"@ ==> runs(
            d,
            request,
            SandboxBackendKind::Gvisor,
            "default"@,
            Some("containerd"@),
            None,
        ),
        request.target@ == "gvisor-substrate"@ ==> runs(
            d,
            request,
            SandboxBackendKind::Gvisor,
            "default"@,
            Some("containerd"@),
            Some("substrate"@),
        ),
        request.target@ == "landlock"@ ==> runs(
            d,
            request,
            SandboxBackendKind::Landlock,
            "default"@,
            None,
            None,
        ),
        d.request.dry_run == request.dry_run,
        d.request.force == request.force,
        d.request.skip_verify == request.skip_verify,
{
    lemma_scenarios_differ();
}

/// There are nine scenarios and no others, each with the row that belongs to it.
pub proof fn law_scenario_table(target: Seq<char>)
    ensures
        scenario_of("runc"@) == Some(
            (SandboxBackendKind::Container, "runc"@, Some("containerd"@), None::<Seq<char>>),
        ),
        scenario_of("rund"@) == Some(
            (SandboxBackendKind::Kata, "rund"@, Some("containerd"@), None::<Seq<char>>),
        ),
        scenario_of("kata-qemu"@) == Some(
            (SandboxBackendKind::Kata, "qemu"@, Some("containerd"@), None::<Seq<char>>),
        ),
        scenario_of("kata-clh"@) == Some(
            (SandboxBackendKind::Kata, "clh"@, Some("containerd"@), None::<Seq<char>>),
        ),
        scenario_of("kata-fc"@) == Some(
            (SandboxBackendKind::Firecracker, "kata-fc"@, None::<Seq<char>>, None::<Seq<char>>),
        ),
        scenario_of("firecracker"@) == Some(
            (SandboxBackendKind::Firecracker, "standard"@, None::<Seq<char>>, None::<Seq<char>>),
        ),
        scenario_of("gvisor"@) == Some(
            (SandboxBackendKind::Gvisor, "default"@, Some("containerd"@), None::<Seq<char>>),
        ),
        scenario_of("gvisor-substrate"@) == Some(
            (SandboxBackendKind::Gvisor, "default"@, Some("containerd"@), Some("substrate"@)),
        ),
        scenario_of("landlock"@) == Some(
            (SandboxBackendKind::Landlock, "default"@, None::<Seq<char>>, None::<Seq<char>>),
        ),
        scenario_of(target) is Some <==> {
            ||| target == "runc"@
            ||| target == "rund"@
            ||| target == "kata-qemu"@
            ||| target == "kata-clh"@
            ||| target == "kata-fc"@
            ||| target == "firecracker"@
            ||| target == "gvisor"@
            ||| target == "gvisor-substrate"@
            ||| target == "landlock"@
        },
{
    lemma_scenarios_differ();
}

/// A request is at fault exactly where its target is blank, where a runtime class
/// is to be registered without a handler, or where root does not ask; the first
/// of these is told.
pub proof fn law_what_is_wrong_with_a_request(request: OsbaseInstallRequest, env: EnvFacts)
    ensures
        request_fault(request, env) is None <==> {
            &&& !is_blank(request.target@)
            &&& request.register_runtimeclass ==> request.register_handler
                == RegisterHandler::Containerd
            &&& env.uid == 0
        },
        is_blank(request.target@) ==> request_fault(request, env) == Some(
            "target must not be empty"@,
        ),
        !is_blank(request.target@) && request.register_runtimeclass && request.register_handler
            == RegisterHandler::Standalone ==> request_fault(request, env) == Some(
            "--register-runtimeclass requires a non-None --register-handler"@,
        ),
        !is_blank(request.target@) && !request.register_runtimeclass && env.uid != 0
            ==> request_fault(request, env) == Some(
            "osbase requires root (uid=0); re-run with sudo"@,
        ),
{
    law_blank_trims_to_nothing(request.target@);
}

/// Each option that has no effect is warned about, and no other.
pub proof fn law_options_without_effect(request: OsbaseInstallRequest, d: SandboxDispatch)
    requires
        d.carries_out(request),
    ensures
        d.warnings@.len() == (if request.config_override is Some {
            1int
        } else {
            0
        }) + (if request.set_default {
            1int
        } else {
            0
        }) + (if request.register_runtimeclass {
            1int
        } else {
            0
        }),
        request.config_override is Some ==> d.warnings@[0]@
            == "--config override is not yet honored by the sandbox bridge"@,
        request.register_runtimeclass ==> d.warnings@.last()@
            == "--register-runtimeclass is not yet honored by the sandbox bridge"@,
        request.set_default && request.config_override is None ==> d.warnings@[0]@
            == "--default is not yet honored by the sandbox bridge"@,
        request.set_default && !request.register_runtimeclass ==> d.warnings@.last()@
            == "--default is not yet honored by the sandbox bridge"@,
        request.set_default && request.config_override is Some ==> d.warnings@[1]@
            == "--default is not yet honored by the sandbox bridge"@,
{
    let list = texts(d.warnings@);
    assert(list.len() == d.warnings@.len());
    assert(forall|i: int| 0 <= i < list.len() ==> list[i] == (#[trigger] d.warnings@[i])@);
    assert(list == unhonored(request));
}

/// Every phase is told by its name, its ending and its message, in order; a
/// warning makes it degraded. The warnings of the request come before those of
/// the run.
pub proof fn law_every_phase_is_told(
    shared: OsbaseInstallOutcome,
    request: OsbaseInstallRequest,
    outcome: SandboxInstallOutcome,
    warnings: Seq<String>,
    k: int,
)
    requires
        shared.tells(request, outcome, warnings),
        0 <= k < outcome.phases@.len(),
    ensures
        shared.phases@.len() == outcome.phases@.len(),
        shared.domain == request.domain,
        shared.target@ == request.target@,
        shared.exit_code == 2 <==> outcome.exit_code == 2,
        shared.warnings@ == warnings + outcome.warnings@,
        ({
            let told = shared.phases@[k];
            let ran = outcome.phases@[k];
            &&& ran.phase == InstallPhase::Preflight ==> told.name@ == "preflight"@
            &&& ran.phase == InstallPhase::Packages ==> told.name@ == "packages"@
            &&& ran.phase == InstallPhase::OsPrimitives ==> told.name@ == "os_primitives"@
            &&& ran.phase == InstallPhase::ServiceSetup ==> told.name@ == "service_setup"@
            &&& ran.phase == InstallPhase::PostVerify ==> told.name@ == "post_verify"@
            &&& told.status == PhaseStatus::Success <==> ran.status == SandboxPhaseStatus::Success
            &&& told.status == PhaseStatus::Skipped <==> ran.status == SandboxPhaseStatus::Skipped
            &&& told.status == PhaseStatus::Degraded <==> ran.status == SandboxPhaseStatus::Warning
            &&& told.status == PhaseStatus::Failed <==> ran.status == SandboxPhaseStatus::Failed
            &&& ran.message@.len() > 0 ==> told.message == Some(ran.message)
            &&& ran.message@.len() == 0 ==> told.message is None
        }),
{
    assert(shared.phases@[k].tells(outcome.phases@[k]));
}

/// A run that is broken off is told by the phase that failed, with what it said;
/// what the pipeline refuses is a request at fault.
pub proof fn law_failed_phase_is_told(e: OsbaseInstallError, target: Seq<char>, m: String)
    ensures
        error_tells(e, target, SandboxInstallError::PackageFailed(m)) ==> e.text() == "phase '"@
            + "packages"@ + "' failed: "@ + m@,
        error_tells(e, target, SandboxInstallError::OsConfigFailed(m)) ==> e.text() == "phase '"@
            + "os_primitives"@ + "' failed: "@ + m@,
        error_tells(e, target, SandboxInstallError::ServiceFailed(m)) ==> e.text() == "phase '"@
            + "service_setup"@ + "' failed: "@ + m@,
        error_tells(e, target, SandboxInstallError::VerifyFailed(m)) ==> e.text() == "phase '"@
            + "post_verify"@ + "' failed: "@ + m@,
        error_tells(e, target, SandboxInstallError::StateFailed(m)) ==> e.text() == "phase '"@
            + "state"@ + "' failed: "@ + m@,
        error_tells(
            e,
            target,
            SandboxInstallError::EnvNotSatisfied { reason: m, remediation: None },
        ) ==> e.text() == "phase '"@ + "preflight"@ + "' failed: "@ + m@,
        error_tells(e, target, SandboxInstallError::LockHeld) ==> e.text() == "invalid request: "@
            + "install lock held by another process"@,
        error_tells(e, target, SandboxInstallError::NotRoot) ==> e.text() == "invalid request: "@
            + "must run as root for system-mode install"@,
{
}

} // verus!
