//! Requests to the sandbox install pipeline and what comes back from it.

use vstd::prelude::*;

verus! {

/// Isolation engine.
#[derive(Clone, Copy, PartialEq, Eq, Structural, Debug)]
pub enum SandboxBackendKind {
    /// OCI container runtime.
    Container,
    /// Kata Containers.
    Kata,
    /// Firecracker.
    Firecracker,
    /// gVisor.
    Gvisor,
    /// QEMU/KVM virtual machine.
    Vm,
    /// Landlock.
    Landlock,
}

impl SandboxBackendKind {
    /// Lower-case name.
    pub open spec fn name(self) -> Seq<char> {
        match self {
            SandboxBackendKind::Container => "container"@,
            SandboxBackendKind::Kata => "kata"@,
            SandboxBackendKind::Firecracker => "firecracker"@,
            SandboxBackendKind::Gvisor => "gvisor"@,
            SandboxBackendKind::Vm => "vm"@,
            SandboxBackendKind::Landlock => "landlock"@,
        }
    }

    /// Lower-case name.
    pub fn as_str(self) -> (r: &'static str)
        ensures
            r@ == self.name(),
    {
        match self {
            SandboxBackendKind::Container => "container",
            SandboxBackendKind::Kata => "kata",
            SandboxBackendKind::Firecracker => "firecracker",
            SandboxBackendKind::Gvisor => "gvisor",
            SandboxBackendKind::Vm => "vm",
            SandboxBackendKind::Landlock => "landlock",
        }
    }
}

/// A run of the pipeline.
#[derive(Debug)]
pub struct SandboxInstallRequest {
    /// Engine.
    pub backend: SandboxBackendKind,
    /// Variant of the engine.
    pub variant: String,
    /// Runtime to register the engine with.
    pub runtime: Option<String>,
    /// Control-panel overlay.
    pub control_panel: Option<String>,
    /// Only plan.
    pub dry_run: bool,
    /// Skip confirmations.
    pub force: bool,
    /// Skip the verification phase.
    pub skip_verify: bool,
    /// Machine-readable output.
    pub json: bool,
}

/// Phase of the pipeline.
#[derive(Clone, Copy, PartialEq, Eq, Structural, Debug)]
pub enum InstallPhase {
    /// Checks before anything is changed.
    Preflight,
    /// Packages.
    Packages,
    /// Kernel settings and modules.
    OsPrimitives,
    /// Services.
    ServiceSetup,
    /// Verification.
    PostVerify,
}

/// How a phase of the pipeline ended.
#[derive(Clone, Copy, PartialEq, Eq, Structural, Debug)]
pub enum SandboxPhaseStatus {
    /// Done.
    Success,
    /// Not needed.
    Skipped,
    /// Done, with a warning.
    Warning,
    /// Not done.
    Failed,
}

/// One phase of a finished run.
#[derive(Debug)]
pub struct SandboxPhaseOutcome {
    /// The phase.
    pub phase: InstallPhase,
    /// The phase as it is shown to people.
    pub label: String,
    /// How it ended.
    pub status: SandboxPhaseStatus,
    /// What there is to say about it.
    pub message: String,
}

/// A finished run.
#[derive(Debug)]
pub struct SandboxInstallOutcome {
    /// Engine.
    pub backend: SandboxBackendKind,
    /// Variant of the engine.
    pub variant: String,
    /// Phases in order.
    pub phases: Vec<SandboxPhaseOutcome>,
    /// 0 success, 2 degraded, others failed.
    pub exit_code: i32,
    /// Warnings.
    pub warnings: Vec<String>,
}

/// A run that was broken off.
#[derive(Debug)]
pub enum SandboxInstallError {
    /// The pipeline does not know the engine or the variant.
    Unsupported {
        /// Engine.
        backend: String,
        /// Variant.
        variant: String,
    },
    /// The host does not meet the requirements.
    EnvNotSatisfied {
        /// What is missing.
        reason: String,
        /// How to get it.
        remediation: Option<String>,
    },
    /// Packages could not be installed.
    PackageFailed(String),
    /// The kernel could not be set up.
    OsConfigFailed(String),
    /// Services could not be set up.
    ServiceFailed(String),
    /// The installed engine does not work.
    VerifyFailed(String),
    /// Another install is running.
    LockHeld,
    /// The state could not be recorded.
    StateFailed(String),
    /// The caller is not root.
    NotRoot,
}

/// One phase of a plan.
#[derive(Debug)]
pub struct SandboxPlanPhase {
    /// The phase.
    pub phase: InstallPhase,
    /// The phase as it is shown to people.
    pub label: String,
    /// What it would do.
    pub actions: Vec<String>,
}

/// What a run would do.
#[derive(Debug)]
pub struct SandboxPlan {
    /// Engine, as it is shown to people.
    pub backend: String,
    /// Variant of the engine.
    pub variant: String,
    /// Phases in order.
    pub phases: Vec<SandboxPlanPhase>,
}

} // verus!
