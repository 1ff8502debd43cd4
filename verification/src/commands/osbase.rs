//! `osbase`: kernel, sandbox and security substrate.
//!
//! A command runs either through the privileged system helper or, for root,
//! directly. [`osbase_preflight`] finds out which; [`handle`] then turns the
//! command into the one step that is to be taken: a request to the helper, a
//! plan, or a run of the sandbox pipeline. [`helper_reply`],
//! [`render_dry_run_plan`] and [`render_install_outcome`] say what is shown of
//! the result.

pub mod laws;

use crate::context::CliContext;
use crate::response::CliError;
use crate::sandbox::{
    InstallPhase, SandboxBackendKind, SandboxInstallError, SandboxInstallOutcome,
    SandboxInstallRequest, SandboxPhaseOutcome, SandboxPhaseStatus, SandboxPlan, SandboxPlanPhase,
};
use crate::text::{
    chars_of, concat2, concat3, concat4, copy_opt, decimal, decimal_int, number, opt_text, own, same,
    signed_number, texts,
};
use vstd::prelude::*;

verus! {

// ---------------------------------------------------------------------------
// Arguments
// ---------------------------------------------------------------------------

/// Arguments of `osbase`.
#[derive(Debug)]
pub struct OsbaseArgs {
    /// The command.
    pub command: OsbaseCommands,
}

/// Commands of `osbase`.
#[derive(Debug)]
pub enum OsbaseCommands {
    /// Kernel modules and eBPF base.
    Kernel(KernelArgs),
    /// Sandbox substrate.
    Sandbox(SandboxArgs),
    /// Security overlays.
    Security(SecurityArgs),
}

/// Arguments of `osbase kernel`.
#[derive(Debug)]
pub struct KernelArgs {
    /// The command.
    pub command: KernelCommands,
}

/// Commands of `osbase kernel`.
#[derive(Debug)]
pub enum KernelCommands {
    /// Install kernel modules and eBPF programs.
    Install {
        /// Only plan.
        dry_run: bool,
    },
    /// Remove kernel modules.
    Remove,
    /// Show the status.
    Status,
}

/// Sandbox engine.
#[derive(Clone, Copy, PartialEq, Eq, Structural, Debug)]
pub enum SandboxTarget {
    /// OCI container runtime.
    Container,
    /// Kata Containers.
    Kata,
    /// Firecracker.
    Firecracker,
    /// gVisor.
    Gvisor,
    /// QEMU/KVM virtual machine.
    Vm,
    /// Landlock.
    Landlock,
}

impl SandboxTarget {
    /// Lower-case name.
    pub open spec fn name(self) -> Seq<char> {
        match self {
            SandboxTarget::Container => "container"@,
            SandboxTarget::Kata => "kata"@,
            SandboxTarget::Firecracker => "firecracker"@,
            SandboxTarget::Gvisor => "gvisor"@,
            SandboxTarget::Vm => "vm"@,
            SandboxTarget::Landlock => "landlock"@,
        }
    }

    /// Lower-case name.
    pub fn as_str(self) -> (r: &'static str)
        ensures
            r@ == self.name(),
    {
        match self {
            SandboxTarget::Container => "container",
            SandboxTarget::Kata => "kata",
            SandboxTarget::Firecracker => "firecracker",
            SandboxTarget::Gvisor => "gvisor",
            SandboxTarget::Vm => "vm",
            SandboxTarget::Landlock => "landlock",
        }
    }

    /// The engine of the pipeline.
    pub open spec fn kind(self) -> SandboxBackendKind {
        match self {
            SandboxTarget::Container => SandboxBackendKind::Container,
            SandboxTarget::Kata => SandboxBackendKind::Kata,
            SandboxTarget::Firecracker => SandboxBackendKind::Firecracker,
            SandboxTarget::Gvisor => SandboxBackendKind::Gvisor,
            SandboxTarget::Vm => SandboxBackendKind::Vm,
            SandboxTarget::Landlock => SandboxBackendKind::Landlock,
        }
    }
}

/// The engine of the pipeline that a target names.
pub fn sandbox_target_to_kind(target: &SandboxTarget) -> (r: SandboxBackendKind)
    ensures
        r == target.kind(),
{
    match target {
        SandboxTarget::Container => SandboxBackendKind::Container,
        SandboxTarget::Kata => SandboxBackendKind::Kata,
        SandboxTarget::Firecracker => SandboxBackendKind::Firecracker,
        SandboxTarget::Gvisor => SandboxBackendKind::Gvisor,
        SandboxTarget::Vm => SandboxBackendKind::Vm,
        SandboxTarget::Landlock => SandboxBackendKind::Landlock,
    }
}

/// Arguments of `osbase sandbox`.
#[derive(Debug)]
pub struct SandboxArgs {
    /// The command.
    pub command: SandboxCommands,
}

/// Commands of `osbase sandbox`.
#[derive(Debug)]
pub enum SandboxCommands {
    /// Install an engine.
    Install {
        /// Engine.
        target: SandboxTarget,
        /// Variant of the engine.
        variant: Option<String>,
        /// Runtime to register the engine with.
        runtime: Option<String>,
        /// Control-panel overlay.
        control_panel: Option<String>,
        /// Only plan.
        dry_run: bool,
        /// Skip confirmations.
        force: bool,
        /// Skip verification.
        skip_verify: bool,
    },
    /// Remove an engine.
    Remove {
        /// Engine.
        target: SandboxTarget,
        /// Variant of the engine.
        variant: Option<String>,
        /// Also remove configuration and data.
        purge: bool,
        /// Skip dependency checks.
        force: bool,
        /// Only plan.
        dry_run: bool,
    },
    /// List the engines.
    List {
        /// Only those that can be installed.
        available: bool,
        /// Machine-readable output.
        json: bool,
    },
    /// Show the status.
    Status {
        /// Engine; all when it is left out.
        target: Option<SandboxTarget>,
        /// Machine-readable output.
        json: bool,
    },
}

/// Arguments of `osbase security`.
#[derive(Debug)]
pub struct SecurityArgs {
    /// The command.
    pub command: SecurityCommands,
}

/// Commands of `osbase security`.
#[derive(Debug)]
pub enum SecurityCommands {
    /// Install an overlay.
    Install {
        /// Overlay.
        target: String,
        /// Only plan.
        dry_run: bool,
    },
    /// Remove an overlay.
    Remove {
        /// Overlay.
        target: String,
    },
    /// Show the status.
    Status {
        /// Overlay; all when it is left out.
        target: Option<String>,
    },
}

// ---------------------------------------------------------------------------
// Preflight
// ---------------------------------------------------------------------------

/// How a command is carried out.
#[derive(Clone, Copy, PartialEq, Eq, Structural, Debug)]
pub enum ExecutionMode {
    /// Through the connected system helper.
    ViaHelper,
    /// In this process, which is root.
    Direct,
}

/// A request to the system helper.
#[derive(Debug)]
pub enum HelperRequest {
    /// First message of a connection.
    Handshake {
        /// Version of this program.
        cli_version: String,
    },
    /// Install a sandbox.
    OsbaseInstall {
        /// Scenario.
        scenario: String,
        /// Runtime, or `none`.
        register_handler: String,
        /// Also create a `RuntimeClass`.
        register_runtimeclass: bool,
        /// Configuration to use in place of the default.
        config_override: Option<String>,
        /// Make it the default.
        set_default: bool,
        /// Pass over gates that are not fatal.
        force: bool,
        /// Skip verification.
        skip_verify: bool,
        /// Only plan.
        dry_run: bool,
    },
    /// Remove a sandbox.
    OsbaseRemove {
        /// Scenario.
        scenario: String,
        /// Also remove configuration and data.
        purge: bool,
    },
    /// List sandboxes.
    OsbaseList {
        /// Which ones; all when it is left out.
        filter: Option<String>,
    },
    /// Show the status of sandboxes.
    OsbaseStatus {
        /// Scenario; all when it is left out.
        scenario: Option<String>,
    },
}

/// A reply of the system helper.
#[derive(Debug)]
pub enum HelperResponse {
    /// The helper accepts the connection.
    HandshakeOk {
        /// Whether the versions fit.
        compatible: bool,
        /// The reply as it is shown to people.
        shown: String,
    },
    /// The request was carried out.
    Success {
        /// What there is to say about it.
        message: String,
        /// Exit code.
        exit_code: i32,
    },
    /// The request was refused or failed.
    Error {
        /// Code.
        code: String,
        /// What failed.
        message: String,
    },
    /// Anything else.
    Other {
        /// The reply as it is shown to people.
        shown: String,
    },
}

/// What happened to the connection to the system helper.
#[derive(Debug)]
pub enum PreflightEvent {
    /// There is no helper to connect to.
    NotConnected {
        /// Whether this process is root.
        is_root: bool,
        /// Path of the running executable, where it is known.
        exe: Option<String>,
    },
    /// The connection stands.
    Connected {
        /// Version of this program.
        cli_version: String,
    },
    /// The handshake could not be sent.
    SendFailed(String),
    /// No reply to the handshake could be read.
    ReceiveFailed(String),
    /// The helper replied to the handshake.
    Replied(HelperResponse),
}

/// What to do next about the connection.
#[derive(Debug)]
pub enum PreflightStep {
    /// Send the handshake and wait for the reply.
    Send(HelperRequest),
    /// Go on in this mode, after showing the warning.
    Ready {
        /// The mode.
        mode: ExecutionMode,
        /// The warning.
        warning: Option<String>,
    },
    /// Give up.
    Failed(CliError),
}

/// How to get at the needed privileges.
pub open spec fn privilege_hint(exe: Option<String>) -> Seq<char> {
    let name = match exe {
        Some(e) => e@,
        None => "anolisa"@,
    };
    "Either:\n  1. Install helper: sudo "@ + name + " system setup\n  2. Run directly: sudo "@ + name
        + " osbase ..."@
}

impl PreflightStep {
    /// Whether this is what follows an event: the helper is preferred, root
    /// goes on without it, and anyone else is refused.
    pub open spec fn follows(self, event: PreflightEvent) -> bool {
        match event {
            PreflightEvent::NotConnected { is_root, exe } => if is_root {
                self == (PreflightStep::Ready { mode: ExecutionMode::Direct, warning: None })
            } else {
                &&& self matches PreflightStep::Failed(
                    CliError::PermissionDenied { command, reason, hint },
                )
                &&& command@ == "osbase"@
                &&& reason@
                    == "osbase requires root privileges and system-helper is not running"@
                &&& opt_text(hint) == Some(privilege_hint(exe))
            },
            PreflightEvent::Connected { cli_version } => self == PreflightStep::Send(
                HelperRequest::Handshake { cli_version },
            ),
            PreflightEvent::SendFailed(e) => self matches PreflightStep::Failed(err)
                && err.is_runtime(
                "osbase"@,
                "failed to send handshake to system-helper: "@ + e@,
            ),
            PreflightEvent::ReceiveFailed(e) => self matches PreflightStep::Failed(err)
                && err.is_runtime(
                "osbase"@,
                "failed to receive handshake from system-helper: "@ + e@,
            ),
            PreflightEvent::Replied(HelperResponse::HandshakeOk { compatible, .. }) => {
                &&& self matches PreflightStep::Ready { mode, warning }
                &&& mode == ExecutionMode::ViaHelper
                &&& opt_text(warning) == if compatible {
                    None
                } else {
                    Some(
                        "warning: system-helper version mismatch, consider: sudo anolisa system setup --upgrade"@,
                    )
                }
            },
            PreflightEvent::Replied(_) => self matches PreflightStep::Failed(err)
                && err.is_runtime(
                "osbase"@,
                "system-helper returned unexpected handshake response"@,
            ),
        }
    }
}

/// Says what follows an event on the connection to the system helper.
pub fn osbase_preflight(event: PreflightEvent) -> (r: PreflightStep)
    ensures
        r.follows(event),
{
    match event {
        PreflightEvent::NotConnected { is_root, exe } => {
            if is_root {
                PreflightStep::Ready { mode: ExecutionMode::Direct, warning: None }
            } else {
                let name = match exe {
                    Some(e) => e,
                    None => own("anolisa"),
                };
                let mut hint = own("Either:\n  1. Install helper: sudo ");
                hint.append(name.as_str());
                hint.append(" system setup\n  2. Run directly: sudo ");
                hint.append(name.as_str());
                hint.append(" osbase ...");
                PreflightStep::Failed(
                    CliError::PermissionDenied {
                        command: own("osbase"),
                        reason: own(
                            "osbase requires root privileges and system-helper is not running",
                        ),
                        hint: Some(hint),
                    },
                )
            }
        },
        PreflightEvent::Connected { cli_version } => PreflightStep::Send(
            HelperRequest::Handshake { cli_version },
        ),
        PreflightEvent::SendFailed(e) => PreflightStep::Failed(
            CliError::runtime(
                "osbase",
                concat2("failed to send handshake to system-helper: ", e.as_str()),
            ),
        ),
        PreflightEvent::ReceiveFailed(e) => PreflightStep::Failed(
            CliError::runtime(
                "osbase",
                concat2("failed to receive handshake from system-helper: ", e.as_str()),
            ),
        ),
        PreflightEvent::Replied(HelperResponse::HandshakeOk { compatible, .. }) => {
            let warning = if compatible {
                None
            } else {
                Some(
                    own(
                        "warning: system-helper version mismatch, consider: sudo anolisa system setup --upgrade",
                    ),
                )
            };
            PreflightStep::Ready { mode: ExecutionMode::ViaHelper, warning }
        },
        PreflightEvent::Replied(_) => PreflightStep::Failed(
            CliError::runtime(
                "osbase",
                own("system-helper returned unexpected handshake response"),
            ),
        ),
    }
}

// ---------------------------------------------------------------------------
// Commands
// ---------------------------------------------------------------------------

/// The step that a command comes to.
#[derive(Debug)]
pub enum OsbaseAction {
    /// Send a request to the helper; [`helper_reply`] takes its reply.
    AskHelper {
        /// The request.
        request: HelperRequest,
        /// Command line for errors.
        label: String,
    },
    /// Have the pipeline check the request and plan it.
    Plan(SandboxInstallRequest),
    /// Have the pipeline carry the request out, under the system layout with
    /// this prefix.
    Install {
        /// The request.
        request: SandboxInstallRequest,
        /// Root in place of the default one.
        prefix: Option<String>,
    },
}

/// What a command that does not exist yet is called in the error.
pub open spec fn missing_command(command: OsbaseCommands) -> Seq<char> {
    match command {
        OsbaseCommands::Kernel(k) => match k.command {
            KernelCommands::Install { .. } => "osbase kernel install"@,
            KernelCommands::Remove => "osbase kernel remove"@,
            KernelCommands::Status => "osbase kernel status"@,
        },
        OsbaseCommands::Security(s) => match s.command {
            SecurityCommands::Install { target, .. } => "osbase security install "@ + target@,
            SecurityCommands::Remove { target } => "osbase security remove "@ + target@,
            SecurityCommands::Status { target } => match target {
                Some(t) => "osbase security status "@ + t@,
                None => "osbase security status"@,
            },
        },
        OsbaseCommands::Sandbox(s) => match s.command {
            SandboxCommands::Install { .. } => Seq::empty(),
            SandboxCommands::Remove { target, variant, .. } => match variant {
                Some(v) => "osbase sandbox remove "@ + target.name() + " --variant="@ + v@,
                None => "osbase sandbox remove "@ + target.name(),
            },
            SandboxCommands::List { .. } => "osbase sandbox list"@,
            SandboxCommands::Status { target, .. } => match target {
                Some(t) => "osbase sandbox status "@ + t.name(),
                None => "osbase sandbox status"@,
            },
        },
    }
}

/// The runtime that the helper is asked to register, `none` when there is none.
pub open spec fn handler_name(runtime: Option<String>) -> Seq<char> {
    match runtime {
        Some(r) => r@,
        None => "none"@,
    }
}

/// The variant to install.
pub open spec fn chosen_variant(variant: Option<String>, default_variant: Seq<char>) -> Seq<char> {
    match variant {
        Some(v) => v@,
        None => default_variant,
    }
}

/// Whether `r` is the step that a sandbox command comes to. Through the helper
/// every command is passed on; directly, only installs exist.
pub open spec fn sandbox_step(
    r: Result<OsbaseAction, CliError>,
    command: SandboxCommands,
    ctx: CliContext,
    mode: ExecutionMode,
    default_variant: Seq<char>,
) -> bool {
    match (command, mode) {
        (
            SandboxCommands::Install {
                target,
                variant,
                runtime,
                control_panel,
                dry_run,
                force,
                skip_verify,
            },
            ExecutionMode::ViaHelper,
        ) => {
            &&& r matches Ok(
                OsbaseAction::AskHelper {
                    request: HelperRequest::OsbaseInstall {
                        scenario,
                        register_handler,
                        register_runtimeclass,
                        config_override,
                        set_default,
                        force: f,
                        skip_verify: s,
                        dry_run: d,
                    },
                    label,
                },
            )
            &&& scenario@ == target.name()
            &&& register_handler@ == handler_name(runtime)
            &&& register_runtimeclass == (handler_name(runtime) == "containerd"@)
            &&& config_override == control_panel
            &&& !set_default
            &&& f == force
            &&& s == skip_verify
            &&& d == (dry_run || ctx.dry_run)
            &&& label@ == "osbase sandbox install"@
        },
        (
            SandboxCommands::Install {
                target,
                variant,
                runtime,
                control_panel,
                dry_run,
                force,
                skip_verify,
            },
            ExecutionMode::Direct,
        ) => {
            let dry = dry_run || ctx.dry_run;
            &&& r matches Ok(action)
            &&& match action {
                OsbaseAction::Plan(_) => dry,
                OsbaseAction::Install { prefix, .. } => !dry && prefix == ctx.prefix,
                OsbaseAction::AskHelper { .. } => false,
            }
            &&& action.pipeline_request() matches Some(q)
            &&& q.backend == target.kind()
            &&& q.variant@ == chosen_variant(variant, default_variant)
            &&& q.runtime == runtime
            &&& q.control_panel == control_panel
            &&& q.dry_run == dry
            &&& q.force == force
            &&& q.skip_verify == skip_verify
            &&& q.json == ctx.json
        },
        (SandboxCommands::Remove { target, purge, .. }, ExecutionMode::ViaHelper) => {
            &&& r matches Ok(
                OsbaseAction::AskHelper {
                    request: HelperRequest::OsbaseRemove { scenario, purge: p },
                    label,
                },
            )
            &&& scenario@ == target.name()
            &&& p == purge
            &&& label@ == "osbase sandbox remove"@
        },
        (SandboxCommands::List { available, .. }, ExecutionMode::ViaHelper) => {
            &&& r matches Ok(
                OsbaseAction::AskHelper { request: HelperRequest::OsbaseList { filter }, label },
            )
            &&& opt_text(filter) == if available {
                Some("available"@)
            } else {
                None
            }
            &&& label@ == "osbase sandbox list"@
        },
        (SandboxCommands::Status { target, .. }, ExecutionMode::ViaHelper) => {
            &&& r matches Ok(
                OsbaseAction::AskHelper {
                    request: HelperRequest::OsbaseStatus { scenario },
                    label,
                },
            )
            &&& opt_text(scenario) == match target {
                Some(t) => Some(t.name()),
                None => None,
            }
            &&& label@ == "osbase sandbox status"@
        },
        (_, ExecutionMode::Direct) => r matches Err(e) && e.is_not_implemented(
            missing_command(OsbaseCommands::Sandbox(SandboxArgs { command })),
        ),
    }
}

impl OsbaseAction {
    /// The request that goes to the pipeline.
    pub open spec fn pipeline_request(self) -> Option<SandboxInstallRequest> {
        match self {
            OsbaseAction::Plan(q) => Some(q),
            OsbaseAction::Install { request, .. } => Some(request),
            OsbaseAction::AskHelper { .. } => None,
        }
    }
}

fn handle_sandbox_install(
    ctx: &CliContext,
    mode: ExecutionMode,
    target: SandboxTarget,
    variant: Option<String>,
    runtime: Option<String>,
    control_panel: Option<String>,
    dry_run: bool,
    force: bool,
    skip_verify: bool,
    default_variant: &str,
) -> (r: Result<OsbaseAction, CliError>)
    ensures
        sandbox_step(
            r,
            (SandboxCommands::Install {
                target,
                variant,
                runtime,
                control_panel,
                dry_run,
                force,
                skip_verify,
            }),
            *ctx,
            mode,
            default_variant@,
        ),
{
    let dry = dry_run || ctx.dry_run;
    match mode {
        ExecutionMode::ViaHelper => {
            let register_handler = match runtime {
                Some(r) => r,
                None => own("none"),
            };
            let register_runtimeclass = same(register_handler.as_str(), "containerd");
            Ok(
                OsbaseAction::AskHelper {
                    request: HelperRequest::OsbaseInstall {
                        scenario: own(target.as_str()),
                        register_handler,
                        register_runtimeclass,
                        config_override: control_panel,
                        set_default: false,
                        force,
                        skip_verify,
                        dry_run: dry,
                    },
                    label: own("osbase sandbox install"),
                },
            )
        },
        ExecutionMode::Direct => {
            let request = SandboxInstallRequest {
                backend: sandbox_target_to_kind(&target),
                variant: match variant {
                    Some(v) => v,
                    None => own(default_variant),
                },
                runtime,
                control_panel,
                dry_run: dry,
                force,
                skip_verify,
                json: ctx.json,
            };
            if dry {
                Ok(OsbaseAction::Plan(request))
            } else {
                Ok(OsbaseAction::Install { request, prefix: copy_opt(&ctx.prefix) })
            }
        },
    }
}

fn handle_sandbox(
    command: SandboxCommands,
    ctx: &CliContext,
    mode: ExecutionMode,
    default_variant: &str,
) -> (r: Result<OsbaseAction, CliError>)
    ensures
        sandbox_step(r, command, *ctx, mode, default_variant@),
{
    match command {
        SandboxCommands::Install {
            target,
            variant,
            runtime,
            control_panel,
            dry_run,
            force,
            skip_verify,
        } => handle_sandbox_install(
            ctx,
            mode,
            target,
            variant,
            runtime,
            control_panel,
            dry_run,
            force,
            skip_verify,
            default_variant,
        ),
        SandboxCommands::Remove { target, variant, purge, .. } => match mode {
            ExecutionMode::ViaHelper => Ok(
                OsbaseAction::AskHelper {
                    request: HelperRequest::OsbaseRemove { scenario: own(target.as_str()), purge },
                    label: own("osbase sandbox remove"),
                },
            ),
            ExecutionMode::Direct => {
                let cmd = match variant {
                    Some(v) => concat4(
                        "osbase sandbox remove ",
                        target.as_str(),
                        " --variant=",
                        v.as_str(),
                    ),
                    None => concat2("osbase sandbox remove ", target.as_str()),
                };
                Err(CliError::not_implemented(cmd))
            },
        },
        SandboxCommands::List { available, .. } => match mode {
            ExecutionMode::ViaHelper => {
                let filter = if available {
                    Some(own("available"))
                } else {
                    None
                };
                Ok(
                    OsbaseAction::AskHelper {
                        request: HelperRequest::OsbaseList { filter },
                        label: own("osbase sandbox list"),
                    },
                )
            },
            ExecutionMode::Direct => Err(CliError::not_implemented(own("osbase sandbox list"))),
        },
        SandboxCommands::Status { target, .. } => match mode {
            ExecutionMode::ViaHelper => {
                let scenario = match target {
                    Some(t) => Some(own(t.as_str())),
                    None => None,
                };
                Ok(
                    OsbaseAction::AskHelper {
                        request: HelperRequest::OsbaseStatus { scenario },
                        label: own("osbase sandbox status"),
                    },
                )
            },
            ExecutionMode::Direct => {
                let cmd = match target {
                    Some(t) => concat2("osbase sandbox status ", t.as_str()),
                    None => own("osbase sandbox status"),
                };
                Err(CliError::not_implemented(cmd))
            },
        },
    }
}

/// The step that a command comes to.
///
/// `preflight` is how the preflight ended; a failure there is the failure of
/// the command. `default_variant` is what the pipeline calls the default variant
/// of the engine that is to be installed.
pub fn handle(
    args: OsbaseArgs,
    ctx: &CliContext,
    preflight: Result<ExecutionMode, CliError>,
    default_variant: &str,
) -> (r: Result<OsbaseAction, CliError>)
    ensures
        match preflight {
            Err(e) => r == Result::<OsbaseAction, CliError>::Err(e),
            Ok(mode) => match args.command {
                OsbaseCommands::Sandbox(s) => sandbox_step(
                    r,
                    s.command,
                    *ctx,
                    mode,
                    default_variant@,
                ),
                command => r matches Err(e) && e.is_not_implemented(missing_command(command)),
            },
        },
{
    let mode = match preflight {
        Ok(mode) => mode,
        Err(e) => {
            return Err(e);
        },
    };
    match args.command {
        OsbaseCommands::Sandbox(s) => handle_sandbox(s.command, ctx, mode, default_variant),
        OsbaseCommands::Kernel(k) => {
            let command = match k.command {
                KernelCommands::Install { .. } => "osbase kernel install",
                KernelCommands::Remove => "osbase kernel remove",
                KernelCommands::Status => "osbase kernel status",
            };
            Err(CliError::not_implemented(own(command)))
        },
        OsbaseCommands::Security(s) => {
            let command = match s.command {
                SecurityCommands::Install { target, .. } => concat2(
                    "osbase security install ",
                    target.as_str(),
                ),
                SecurityCommands::Remove { target } => concat2(
                    "osbase security remove ",
                    target.as_str(),
                ),
                SecurityCommands::Status { target } => match target {
                    Some(t) => concat2("osbase security status ", t.as_str()),
                    None => own("osbase security status"),
                },
            };
            Err(CliError::not_implemented(command))
        },
    }
}

// ---------------------------------------------------------------------------
// Replies of the helper
// ---------------------------------------------------------------------------

/// What became of a request to the helper.
#[derive(Debug)]
pub enum HelperExchange {
    /// It could not be sent.
    SendFailed(String),
    /// No reply could be read.
    ReceiveFailed(String),
    /// The helper replied.
    Replied(HelperResponse),
}

/// Whether `r` is what a request to the helper comes to: the line to show, or
/// the failure of the command.
pub open spec fn exchange_result(
    r: Result<String, CliError>,
    exchange: HelperExchange,
    label: Seq<char>,
) -> bool {
    match exchange {
        HelperExchange::SendFailed(e) => r matches Err(err) && err.is_runtime(
            label,
            "failed to send request to system-helper: "@ + e@,
        ),
        HelperExchange::ReceiveFailed(e) => r matches Err(err) && err.is_runtime(
            label,
            "failed to receive response from system-helper: "@ + e@,
        ),
        HelperExchange::Replied(HelperResponse::Success { message, exit_code }) => if exit_code
            == 0 {
            r == Result::<String, CliError>::Ok(message)
        } else {
            r matches Err(err) && err.is_runtime(
                label,
                message@ + " (exit_code="@ + decimal_int(exit_code as int) + ")"@,
            )
        },
        HelperExchange::Replied(HelperResponse::Error { code, message }) => r matches Err(err)
            && err.is_runtime(label, "["@ + code@ + "] "@ + message@),
        HelperExchange::Replied(
            HelperResponse::HandshakeOk { shown, .. } | HelperResponse::Other { shown },
        ) => r matches Err(err) && err.is_runtime(
            label,
            "unexpected response from system-helper: "@ + shown@,
        ),
    }
}

/// Says what a request to the helper comes to.
pub fn helper_reply(exchange: HelperExchange, command_label: &str) -> (r: Result<String, CliError>)
    ensures
        exchange_result(r, exchange, command_label@),
{
    match exchange {
        HelperExchange::SendFailed(e) => Err(
            CliError::runtime(
                command_label,
                concat2("failed to send request to system-helper: ", e.as_str()),
            ),
        ),
        HelperExchange::ReceiveFailed(e) => Err(
            CliError::runtime(
                command_label,
                concat2("failed to receive response from system-helper: ", e.as_str()),
            ),
        ),
        HelperExchange::Replied(HelperResponse::Success { message, exit_code }) => {
            if exit_code == 0 {
                Ok(message)
            } else {
                Err(
                    CliError::runtime(
                        command_label,
                        concat4(
                            message.as_str(),
                            " (exit_code=",
                            signed_number(exit_code).as_str(),
                            ")",
                        ),
                    ),
                )
            }
        },
        HelperExchange::Replied(HelperResponse::Error { code, message }) => Err(
            CliError::runtime(
                command_label,
                concat4("[", code.as_str(), "] ", message.as_str()),
            ),
        ),
        HelperExchange::Replied(HelperResponse::HandshakeOk { shown, .. }) => Err(
            CliError::runtime(
                command_label,
                concat2("unexpected response from system-helper: ", shown.as_str()),
            ),
        ),
        HelperExchange::Replied(HelperResponse::Other { shown }) => Err(
            CliError::runtime(
                command_label,
                concat2("unexpected response from system-helper: ", shown.as_str()),
            ),
        ),
    }
}

// ---------------------------------------------------------------------------
// Results of the pipeline
// ---------------------------------------------------------------------------

/// Command line of an install, as it is named in results.
pub open spec fn install_command(backend: SandboxBackendKind, variant: Seq<char>) -> Seq<char> {
    "osbase sandbox install "@ + backend.name() + " --variant="@ + variant
}

/// Command line of an install, as it is named in results.
pub fn install_label(backend: SandboxBackendKind, variant: &str) -> (r: String)
    ensures
        r@ == install_command(backend, variant@),
{
    concat4("osbase sandbox install ", backend.as_str(), " --variant=", variant)
}

/// Reports a run that was broken off. `shown` is the error as it is shown to
/// people. What the host or the request lacks is the caller's to mend; all else
/// is a failure.
pub fn map_sandbox_err(
    err: &SandboxInstallError,
    shown: String,
    backend: SandboxBackendKind,
    variant: &str,
) -> (r: CliError)
    ensures
        match *err {
            SandboxInstallError::EnvNotSatisfied { .. } => r.is_invalid(
                install_command(backend, variant@),
                shown@,
            ),
            SandboxInstallError::Unsupported { .. } => r.is_invalid(
                install_command(backend, variant@),
                shown@,
            ),
            SandboxInstallError::NotRoot => r.is_invalid(
                install_command(backend, variant@),
                shown@,
            ),
            _ => r.is_runtime(install_command(backend, variant@), shown@),
        },
{
    let command = install_label(backend, variant);
    match err {
        SandboxInstallError::EnvNotSatisfied { .. } => CliError::invalid(command.as_str(), shown),
        SandboxInstallError::Unsupported { .. } => CliError::invalid(command.as_str(), shown),
        SandboxInstallError::NotRoot => CliError::invalid(command.as_str(), shown),
        _ => CliError::runtime(command.as_str(), shown),
    }
}

/// Number of a phase.
pub open spec fn phase_index(phase: InstallPhase) -> u8 {
    match phase {
        InstallPhase::Preflight => 1,
        InstallPhase::Packages => 2,
        InstallPhase::OsPrimitives => 3,
        InstallPhase::ServiceSetup => 4,
        InstallPhase::PostVerify => 5,
    }
}

/// Number of a phase.
pub fn phase_number(phase: InstallPhase) -> (r: u8)
    ensures
        r == phase_index(phase),
{
    match phase {
        InstallPhase::Preflight => 1,
        InstallPhase::Packages => 2,
        InstallPhase::OsPrimitives => 3,
        InstallPhase::ServiceSetup => 4,
        InstallPhase::PostVerify => 5,
    }
}

/// The lines of one phase of a plan.
pub open spec fn phase_plan(p: SandboxPlanPhase) -> Seq<Seq<char>> {
    seq!["Phase "@ + decimal(phase_index(p.phase) as nat) + ": "@ + p.label@] + texts(
        p.actions@,
    ).map_values(|a: Seq<char>| "  - "@ + a) + seq![Seq::<char>::empty()]
}

/// The lines of the phases of a plan.
pub open spec fn phase_plans(phases: Seq<SandboxPlanPhase>) -> Seq<Seq<char>>
    decreases phases.len(),
{
    if phases.len() == 0 {
        Seq::empty()
    } else {
        phase_plans(phases.drop_last()) + phase_plan(phases.last())
    }
}

/// The lines that show a plan.
pub open spec fn plan_lines(plan: SandboxPlan) -> Seq<Seq<char>> {
    seq![
        "Install plan for: "@ + plan.backend@ + " (variant="@ + plan.variant@ + ")"@,
        Seq::<char>::empty(),
    ] + phase_plans(plan.phases@)
}

fn push_phase_plan(lines: &mut Vec<String>, p: &SandboxPlanPhase)
    ensures
        texts(final(lines)@) == texts(old(lines)@) + phase_plan(*p),
{
    let ghost before = texts(lines@);
    lines.push(
        concat4("Phase ", number(phase_number(p.phase) as u64).as_str(), ": ", p.label.as_str()),
    );
    let ghost head = texts(lines@);
    let ghost item = |a: Seq<char>| "  - "@ + a;
    assert(head =~= before + seq![
        "Phase "@ + decimal(phase_index(p.phase) as nat) + ": "@ + p.label@,
    ]);
    let ghost all = texts(p.actions@);
    let mut i: usize = 0;
    assert(texts(lines@) =~= head + all.take(0).map_values(item));
    while i < p.actions.len()
        invariant
            i <= p.actions@.len(),
            all == texts(p.actions@),
            item == (|a: Seq<char>| "  - "@ + a),
            texts(lines@) == head + all.take(i as int).map_values(item),
        decreases p.actions.len() - i,
    {
        let ghost so_far = texts(lines@);
        lines.push(concat2("  - ", p.actions[i].as_str()));
        proof {
            assert(texts(lines@) =~= so_far.push(item(all[i as int])));
            assert(all.take(i + 1).map_values(item) =~= all.take(i as int).map_values(item).push(
                item(all[i as int]),
            ));
        }
        i += 1;
    }
    let ghost so_far = texts(lines@);
    lines.push(String::new());
    proof {
        assert(all.take(all.len() as int) =~= all);
        assert(texts(lines@) =~= so_far.push(Seq::empty()));
        assert(texts(lines@) =~= before + phase_plan(*p));
    }
}

/// The lines that show a plan.
pub fn render_dry_run_plan(plan: &SandboxPlan) -> (r: Vec<String>)
    ensures
        texts(r@) == plan_lines(*plan),
{
    let mut lines: Vec<String> = Vec::new();
    let mut title = own("Install plan for: ");
    title.append(plan.backend.as_str());
    title.append(" (variant=");
    title.append(plan.variant.as_str());
    title.append(")");
    lines.push(title);
    lines.push(String::new());
    let ghost head = texts(lines@);
    let phases = &plan.phases;
    let mut i: usize = 0;
    assert(head =~= seq![
        "Install plan for: "@ + plan.backend@ + " (variant="@ + plan.variant@ + ")"@,
        Seq::<char>::empty(),
    ]);
    assert(head + phase_plans(phases@.take(0)) =~= head);
    while i < phases.len()
        invariant
            i <= phases@.len(),
            texts(lines@) == head + phase_plans(phases@.take(i as int)),
        decreases phases.len() - i,
    {
        push_phase_plan(&mut lines, &phases[i]);
        proof {
            assert(phases@.take(i + 1).drop_last() =~= phases@.take(i as int));
            assert(head + phase_plans(phases@.take(i as int)) + phase_plan(phases@[i as int])
                =~= head + (phase_plans(phases@.take(i as int)) + phase_plan(phases@[i as int])));
        }
        i += 1;
    }
    assert(phases@.take(phases@.len() as int) =~= phases@);
    lines
}

/// What a plan shows.
#[derive(Debug)]
pub struct PlanReport {
    /// Command line for the machine-readable plan, where one is shown.
    pub json: Option<String>,
    /// Lines on standard output.
    pub out: Vec<String>,
}

/// Shows the plan for a request: to machines where the context asks for that,
/// else as lines.
pub fn render_plan_report(
    ctx: &CliContext,
    request: &SandboxInstallRequest,
    plan: &SandboxPlan,
) -> (r: PlanReport)
    ensures
        opt_text(r.json) == if ctx.json {
            Some(install_command(request.backend, request.variant@))
        } else {
            None
        },
        texts(r.out@) == if ctx.json {
            Seq::empty()
        } else {
            plan_lines(*plan)
        },
{
    if ctx.json {
        let out: Vec<String> = Vec::new();
        assert(texts(out@) =~= Seq::empty());
        PlanReport { json: Some(install_label(request.backend, request.variant.as_str())), out }
    } else {
        PlanReport { json: None, out: render_dry_run_plan(plan) }
    }
}

/// What a finished run shows and comes to.
#[derive(Debug)]
pub struct OutcomeReport {
    /// Command line for the machine-readable result, where one is shown.
    pub json: Option<String>,
    /// Lines on standard output.
    pub out: Vec<String>,
    /// Lines on standard error.
    pub err: Vec<String>,
    /// How the command ends.
    pub result: Result<(), CliError>,
}

/// The sign of a status.
pub open spec fn status_sign(s: SandboxPhaseStatus) -> Seq<char> {
    match s {
        SandboxPhaseStatus::Success => "\u{2713}"@,
        SandboxPhaseStatus::Skipped => "\u{2298}"@,
        SandboxPhaseStatus::Warning => "\u{26A0}"@,
        SandboxPhaseStatus::Failed => "\u{2717}"@,
    }
}

/// `s`, filled up with blanks to a width of ten.
pub open spec fn padded(s: Seq<char>) -> Seq<char> {
    if s.len() >= 10 {
        s
    } else {
        s + Seq::new((10 - s.len()) as nat, |i: int| ' ')
    }
}

fn pad(s: &str) -> (r: String)
    ensures
        r@ == padded(s@),
{
    let n: usize = chars_of(s).len();
    let mut out = own(s);
    let mut i: usize = n;
    assert(out@ =~= s@ + Seq::new(0, |i: int| ' '));
    while i < 10
        invariant
            n == s@.len(),
            n <= i,
            i <= 10 || i == n,
            out@ == s@ + Seq::new((i - n) as nat, |i: int| ' '),
        decreases 10 - i,
    {
        out.push(' ');
        assert(out@ =~= s@ + Seq::new((i + 1 - n) as nat, |i: int| ' '));
        i += 1;
    }
    if n >= 10 {
        assert(out@ =~= s@);
    }
    out
}

/// The line of a phase, the `index`-th of `total`.
pub open spec fn phase_line(p: SandboxPhaseOutcome, index: int, total: nat) -> Seq<char> {
    "["@ + decimal((index + 1) as nat) + "/"@ + decimal(total) + "] "@ + padded(p.label@) + " "@
        + status_sign(p.status) + "  ("@ + p.message@ + ")"@
}

fn show_phase(p: &SandboxPhaseOutcome, index: usize, total: usize) -> (r: String)
    requires
        index < total,
    ensures
        r@ == phase_line(*p, index as int, total as nat),
{
    let icon = match p.status {
        SandboxPhaseStatus::Success => "\u{2713}",
        SandboxPhaseStatus::Skipped => "\u{2298}",
        SandboxPhaseStatus::Warning => "\u{26A0}",
        SandboxPhaseStatus::Failed => "\u{2717}",
    };
    let mut out = own("[");
    out.append(number(index as u64 + 1).as_str());
    out.append("/");
    out.append(number(total as u64).as_str());
    out.append("] ");
    out.append(pad(p.label.as_str()).as_str());
    out.append(" ");
    out.append(icon);
    out.append("  (");
    out.append(p.message.as_str());
    out.append(")");
    out
}

/// `sandbox backend '<backend>' (variant=<variant>) `, with `rest` behind it.
pub open spec fn backend_text(outcome: SandboxInstallOutcome, rest: Seq<char>) -> Seq<char> {
    "sandbox backend '"@ + outcome.backend.name() + "' (variant="@ + outcome.variant@ + ") "@ + rest
}

fn backend_line(outcome: &SandboxInstallOutcome, rest: &str) -> (r: String)
    ensures
        r@ == backend_text(*outcome, rest@),
{
    let mut out = own("sandbox backend '");
    out.append(outcome.backend.as_str());
    out.append("' (variant=");
    out.append(outcome.variant.as_str());
    out.append(") ");
    out.append(rest);
    out
}

/// Whether `r` is how a command ends whose run finished with this outcome.
pub open spec fn outcome_result(r: Result<(), CliError>, outcome: SandboxInstallOutcome) -> bool {
    let cmd = install_command(outcome.backend, outcome.variant@);
    if outcome.exit_code == 0 {
        r is Ok
    } else if outcome.exit_code == 2 {
        &&& r matches Err(CliError::Degraded { command, reason })
        &&& command@ == cmd
        &&& reason@ == backend_text(outcome, "installed with warnings"@)
    } else {
        r matches Err(e) && e.is_runtime(
            cmd,
            backend_text(
                outcome,
                "install failed (exit_code="@ + decimal_int(outcome.exit_code as int) + ")"@,
            ),
        )
    }
}

fn conclude(outcome: &SandboxInstallOutcome) -> (r: Result<(), CliError>)
    ensures
        outcome_result(r, *outcome),
{
    let cmd = install_label(outcome.backend, outcome.variant.as_str());
    if outcome.exit_code == 0 {
        Ok(())
    } else if outcome.exit_code == 2 {
        Err(
            CliError::Degraded {
                command: cmd,
                reason: backend_line(outcome, "installed with warnings"),
            },
        )
    } else {
        let rest = concat3(
            "install failed (exit_code=",
            signed_number(outcome.exit_code).as_str(),
            ")",
        );
        Err(CliError::runtime(cmd.as_str(), backend_line(outcome, rest.as_str())))
    }
}

/// The lines on standard output that show an outcome.
pub open spec fn outcome_lines(outcome: SandboxInstallOutcome) -> Seq<Seq<char>> {
    let n = outcome.phases@.len();
    Seq::new(n, |i: int| phase_line(outcome.phases@[i], i, n)) + seq![Seq::<char>::empty()] + (if
    outcome.exit_code == 0 {
        seq![backend_text(outcome, "installed successfully."@)]
    } else if outcome.exit_code == 2 {
        seq![backend_text(outcome, "installed with warnings (degraded)."@)]
    } else {
        seq![]
    })
}

/// The lines on standard error that show an outcome.
pub open spec fn warning_lines(outcome: SandboxInstallOutcome) -> Seq<Seq<char>> {
    if outcome.warnings@.len() == 0 {
        Seq::empty()
    } else {
        seq![Seq::<char>::empty()] + texts(outcome.warnings@).map_values(
            |w: Seq<char>| "warning: "@ + w,
        )
    }
}

fn show_outcome(outcome: &SandboxInstallOutcome) -> (r: Vec<String>)
    ensures
        texts(r@) == outcome_lines(*outcome),
{
    let mut lines: Vec<String> = Vec::new();
    let phases = &outcome.phases;
    let total: usize = phases.len();
    let ghost shown = Seq::new(total as nat, |i: int| phase_line(phases@[i], i, total as nat));
    let mut i: usize = 0;
    while i < total
        invariant
            i <= total == phases@.len(),
            shown == Seq::new(total as nat, |i: int| phase_line(phases@[i], i, total as nat)),
            texts(lines@) == shown.take(i as int),
        decreases total - i,
    {
        let ghost before = texts(lines@);
        lines.push(show_phase(&phases[i], i, total));
        assert(texts(lines@) =~= before.push(shown[i as int]));
        assert(shown.take(i + 1) =~= shown.take(i as int).push(shown[i as int]));
        i += 1;
    }
    assert(shown.take(total as int) =~= shown);
    lines.push(String::new());
    if outcome.exit_code == 0 {
        lines.push(backend_line(outcome, "installed successfully."));
    } else if outcome.exit_code == 2 {
        lines.push(backend_line(outcome, "installed with warnings (degraded)."));
    }
    assert(texts(lines@) =~= outcome_lines(*outcome));
    lines
}

fn show_warnings(outcome: &SandboxInstallOutcome) -> (r: Vec<String>)
    ensures
        texts(r@) == warning_lines(*outcome),
{
    let mut lines: Vec<String> = Vec::new();
    let warnings = &outcome.warnings;
    if warnings.len() == 0 {
        assert(texts(lines@) =~= warning_lines(*outcome));
        return lines;
    }
    lines.push(String::new());
    let ghost item = |w: Seq<char>| "warning: "@ + w;
    let ghost all = texts(warnings@);
    let ghost head = seq![Seq::<char>::empty()];
    let mut i: usize = 0;
    assert(texts(lines@) =~= head + all.take(0).map_values(item));
    while i < warnings.len()
        invariant
            i <= warnings@.len(),
            all == texts(warnings@),
            item == (|w: Seq<char>| "warning: "@ + w),
            texts(lines@) == head + all.take(i as int).map_values(item),
        decreases warnings.len() - i,
    {
        let ghost before = texts(lines@);
        lines.push(concat2("warning: ", warnings[i].as_str()));
        proof {
            assert(texts(lines@) =~= before.push(item(all[i as int])));
            assert(all.take(i + 1).map_values(item) =~= all.take(i as int).map_values(item).push(
                item(all[i as int]),
            ));
        }
        i += 1;
    }
    assert(all.take(all.len() as int) =~= all);
    lines
}

/// Says what a finished run shows and how the command ends. A machine-readable
/// result is shown only of a run without faults: every other run ends in an
/// error, which has a machine-readable form of its own.
pub fn render_install_outcome(ctx: &CliContext, outcome: &SandboxInstallOutcome) -> (r:
    OutcomeReport)
    ensures
        outcome_result(r.result, *outcome),
        opt_text(r.json) == if ctx.json && outcome.exit_code == 0 {
            Some(install_command(outcome.backend, outcome.variant@))
        } else {
            None
        },
        texts(r.out@) == if ctx.json {
            Seq::empty()
        } else {
            outcome_lines(*outcome)
        },
        texts(r.err@) == if ctx.json {
            Seq::empty()
        } else {
            warning_lines(*outcome)
        },
{
    let result = conclude(outcome);
    if ctx.json {
        let json = if outcome.exit_code == 0 {
            Some(install_label(outcome.backend, outcome.variant.as_str()))
        } else {
            None
        };
        let out: Vec<String> = Vec::new();
        let err: Vec<String> = Vec::new();
        assert(texts(out@) =~= Seq::empty());
        assert(texts(err@) =~= Seq::empty());
        return OutcomeReport { json, out, err, result };
    }
    OutcomeReport { json: None, out: show_outcome(outcome), err: show_warnings(outcome), result }
}

// ---------------------------------------------------------------------------
// Laws
// ---------------------------------------------------------------------------

/// Without the helper, nobody but root gets to run a command.
pub proof fn law_unprivileged_is_refused(step: PreflightStep, exe: Option<String>)
    requires
        step.follows(PreflightEvent::NotConnected { is_root: false, exe }),
    ensures
        step matches PreflightStep::Failed(CliError::PermissionDenied { .. }),
{
}

/// The helper and this process never both carry a command out: what runs
/// through the helper does not touch the pipeline here, and what runs directly
/// does not reach the helper.
pub proof fn law_modes_are_exclusive(
    r: Result<OsbaseAction, CliError>,
    command: SandboxCommands,
    ctx: CliContext,
    mode: ExecutionMode,
    default_variant: Seq<char>,
)
    requires
        sandbox_step(r, command, ctx, mode, default_variant),
    ensures
        mode == ExecutionMode::ViaHelper ==> r is Ok && r->Ok_0 is AskHelper,
        mode == ExecutionMode::Direct ==> (r matches Ok(action) ==> action !is AskHelper),
{
}

/// A dry run, asked for by either flag, never comes to an install: directly it
/// is a plan, and the helper is told to plan.
pub proof fn law_dry_run_installs_nothing(
    r: Result<OsbaseAction, CliError>,
    command: SandboxCommands,
    ctx: CliContext,
    mode: ExecutionMode,
    default_variant: Seq<char>,
)
    requires
        sandbox_step(r, command, ctx, mode, default_variant),
        command is Install,
        ctx.dry_run || command->Install_dry_run,
    ensures
        r matches Ok(action) && match action {
            OsbaseAction::Install { .. } => false,
            OsbaseAction::Plan(q) => q.dry_run,
            OsbaseAction::AskHelper { request, .. } => request matches HelperRequest::OsbaseInstall {
                dry_run,
                ..
            } && dry_run,
        },
{
}

/// A command succeeds exactly when its run ended with exit code zero, and is
/// degraded exactly when that code is two.
pub proof fn law_success_means_exit_zero(
    result: Result<(), CliError>,
    outcome: SandboxInstallOutcome,
)
    requires
        outcome_result(result, outcome),
    ensures
        result is Ok <==> outcome.exit_code == 0,
        result matches Err(CliError::Degraded { .. }) <==> outcome.exit_code == 2,
{
}

} // verus!
