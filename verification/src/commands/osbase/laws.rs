//! What a command of `osbase` asks for, and what is shown of its result.

use crate::commands::osbase::{
    exchange_result, install_command, missing_command, outcome_lines, outcome_result, padded,
    phase_index, phase_line, phase_plan, phase_plans, plan_lines, privilege_hint, sandbox_step,
    warning_lines, ExecutionMode, HelperExchange, HelperRequest, OsbaseAction, OsbaseCommands, PreflightEvent, PreflightStep, SandboxCommands, SandboxTarget,
    SecurityCommands,
};
use crate::context::CliContext;
use crate::response::CliError;
use crate::sandbox::{
    InstallPhase, SandboxBackendKind, SandboxInstallOutcome, SandboxPhaseOutcome,
    SandboxPhaseStatus, SandboxPlan, SandboxPlanPhase,
};
use crate::text::{decimal, decimal_int, opt_text};
use vstd::prelude::*;

verus! {

// ---------------------------------------------------------------------------
// Names
// ---------------------------------------------------------------------------

/// A target is called as the engine that it stands for, and each has its own name.
pub proof fn law_target_is_called_as_its_engine(t: SandboxTarget)
    ensures
        t.kind().name() == t.name(),
        t is Container <==> t.kind() == SandboxBackendKind::Container,
        t is Kata <==> t.kind() == SandboxBackendKind::Kata,
        t is Firecracker <==> t.kind() == SandboxBackendKind::Firecracker,
        t is Gvisor <==> t.kind() == SandboxBackendKind::Gvisor,
        t is Vm <==> t.kind() == SandboxBackendKind::Vm,
        t is Landlock <==> t.kind() == SandboxBackendKind::Landlock,
        t is Container ==> t.name() == "container"@,
        t is Kata ==> t.name() == "kata"@,
        t is Firecracker ==> t.name() == "firecracker"@,
        t is Gvisor ==> t.name() == "gvisor"@,
        t is Vm ==> t.name() == "vm"@,
        t is Landlock ==> t.name() == "landlock"@,
{
}

/// What each command that does not exist yet is called.
pub proof fn law_missing_commands_are_named(command: OsbaseCommands)
    ensures
        command matches OsbaseCommands::Kernel(k) ==> {
            &&& k.command is Install ==> missing_command(command) == "osbase kernel install"@
            &&& k.command is Remove ==> missing_command(command) == "osbase kernel remove"@
            &&& k.command is Status ==> missing_command(command) == "osbase kernel status"@
        },
        command matches OsbaseCommands::Security(s) ==> {
            &&& s.command matches SecurityCommands::Install { target, .. } ==> missing_command(
                command,
            ) == "osbase security install "@ + target@
            &&& s.command matches SecurityCommands::Remove { target } ==> missing_command(command)
                == "osbase security remove "@ + target@
            &&& s.command matches SecurityCommands::Status { target: Some(t) } ==> missing_command(
                command,
            ) == "osbase security status "@ + t@
            &&& s.command matches SecurityCommands::Status { target: None } ==> missing_command(
                command,
            ) == "osbase security status"@
        },
{
}

// ---------------------------------------------------------------------------
// Before a command
// ---------------------------------------------------------------------------

/// A connection is greeted with the version of this program; without one, root goes
/// on directly and nobody else goes on.
pub proof fn law_how_a_command_begins(step: PreflightStep, event: PreflightEvent)
    requires
        step.follows(event),
    ensures
        event matches PreflightEvent::Connected { cli_version } ==> step is Send && step->Send_0
            == (HelperRequest::Handshake { cli_version }),
        event matches PreflightEvent::NotConnected { is_root, .. } ==> (is_root <==> step is Ready),
        event matches PreflightEvent::NotConnected { is_root, .. } && is_root ==> step->Ready_mode
            == ExecutionMode::Direct && step->Ready_warning is None,
        event is NotConnected && !event->NotConnected_is_root ==> step is Failed && step->Failed_0
            is PermissionDenied && opt_text(step->Failed_0->PermissionDenied_hint) == Some(
            privilege_hint(event->NotConnected_exe),
        ),
        event is SendFailed ==> step is Failed && step->Failed_0 is Runtime
            && step->Failed_0.reason_text() == "failed to send handshake to system-helper: "@
            + event->SendFailed_0@,
        event is ReceiveFailed ==> step is Failed && step->Failed_0 is Runtime
            && step->Failed_0.reason_text() == "failed to receive handshake from system-helper: "@
            + event->ReceiveFailed_0@,
        event is Replied && event->Replied_0 is HandshakeOk ==> step is Ready && step->Ready_mode
            == ExecutionMode::ViaHelper && (step->Ready_warning is None
            <==> event->Replied_0->HandshakeOk_compatible),
        event is Replied && event->Replied_0 !is HandshakeOk ==> step is Failed
            && step->Failed_0 is Runtime,
{
}

/// Whoever lacks the privileges is told of both ways to get them, under the name
/// that this program runs as.
pub proof fn law_hint_names_the_program(exe: Option<String>)
    ensures
        exe is Some ==> privilege_hint(exe) == "Either:\n  1. Install helper: sudo "@ + exe->0@
            + " system setup\n  2. Run directly: sudo "@ + exe->0@ + " osbase ..."@,
        exe is None ==> privilege_hint(exe) == "Either:\n  1. Install helper: sudo "@ + "anolisa"@
            + " system setup\n  2. Run directly: sudo "@ + "anolisa"@ + " osbase ..."@,
{
}

// ---------------------------------------------------------------------------
// Commands
// ---------------------------------------------------------------------------

/// What the helper is asked for is what the command says: the engine, the runtime
/// (`none` where it is left out; only `containerd` gets a runtime class), the
/// configuration and each flag; nothing becomes the default.
pub proof fn law_install_through_the_helper(
    r: Result<OsbaseAction, CliError>,
    command: SandboxCommands,
    ctx: CliContext,
    default_variant: Seq<char>,
)
    requires
        sandbox_step(r, command, ctx, ExecutionMode::ViaHelper, default_variant),
        command is Install,
    ensures
        r is Ok,
        r->Ok_0 is AskHelper,
        r->Ok_0->AskHelper_request is OsbaseInstall,
        ({
            let q = r->Ok_0->AskHelper_request;
            &&& q->OsbaseInstall_scenario@ == command->Install_target.name()
            &&& command->Install_runtime is Some ==> q->OsbaseInstall_register_handler@
                == command->Install_runtime->0@
            &&& command->Install_runtime is None ==> q->OsbaseInstall_register_handler@ == "none"@
            &&& q->OsbaseInstall_register_runtimeclass <==> command->Install_runtime is Some
                && command->Install_runtime->0@ == "containerd"@
            &&& q->OsbaseInstall_config_override == command->Install_control_panel
            &&& !q->OsbaseInstall_set_default
            &&& q->OsbaseInstall_force == command->Install_force
            &&& q->OsbaseInstall_skip_verify == command->Install_skip_verify
            &&& q->OsbaseInstall_dry_run <==> command->Install_dry_run || ctx.dry_run
        }),
        r->Ok_0->AskHelper_label@ == "osbase sandbox install"@,
{
    reveal_strlit("none");
    reveal_strlit("containerd");
    assert("none"@.len() == 4 && "containerd"@.len() == 10);
}

/// What the pipeline is asked for is what the command says, with the variant left
/// out filled in; a dry run, and only one, is planned, and anything else installs
/// below the prefix of the request.
pub proof fn law_install_directly(
    r: Result<OsbaseAction, CliError>,
    command: SandboxCommands,
    ctx: CliContext,
    default_variant: Seq<char>,
)
    requires
        sandbox_step(r, command, ctx, ExecutionMode::Direct, default_variant),
        command is Install,
    ensures
        r is Ok,
        r->Ok_0 is Plan <==> command->Install_dry_run || ctx.dry_run,
        r->Ok_0 is Install <==> !(command->Install_dry_run || ctx.dry_run),
        r->Ok_0 is Install ==> r->Ok_0->Install_prefix == ctx.prefix,
        ({
            let q = if r->Ok_0 is Plan {
                r->Ok_0->Plan_0
            } else {
                r->Ok_0->Install_request
            };
            &&& q.backend.name() == command->Install_target.name()
            &&& q.backend == command->Install_target.kind()
            &&& command->Install_variant is Some ==> q.variant@ == command->Install_variant->0@
            &&& command->Install_variant is None ==> q.variant@ == default_variant
            &&& q.runtime == command->Install_runtime
            &&& q.control_panel == command->Install_control_panel
            &&& q.dry_run <==> command->Install_dry_run || ctx.dry_run
            &&& q.force == command->Install_force
            &&& q.skip_verify == command->Install_skip_verify
            &&& q.json == ctx.json
        }),
{
}

/// Removing, listing and asking for the status are for the helper alone, which is
/// asked about what the command names; directly they do not exist.
pub proof fn law_other_commands_are_for_the_helper(
    r: Result<OsbaseAction, CliError>,
    command: SandboxCommands,
    ctx: CliContext,
    mode: ExecutionMode,
    default_variant: Seq<char>,
)
    requires
        sandbox_step(r, command, ctx, mode, default_variant),
        command !is Install,
    ensures
        r is Ok <==> mode == ExecutionMode::ViaHelper,
        r is Err ==> r->Err_0 is NotImplemented,
        r is Ok ==> r->Ok_0 is AskHelper,
        r is Ok && command is Remove ==> {
            &&& r->Ok_0->AskHelper_request is OsbaseRemove
            &&& r->Ok_0->AskHelper_request->OsbaseRemove_scenario@ == command->Remove_target.name()
            &&& r->Ok_0->AskHelper_request->OsbaseRemove_purge == command->Remove_purge
            &&& r->Ok_0->AskHelper_label@ == "osbase sandbox remove"@
        },
        r is Ok && command is List ==> {
            let filter = r->Ok_0->AskHelper_request->OsbaseList_filter;
            &&& r->Ok_0->AskHelper_request is OsbaseList
            &&& filter is Some <==> command->List_available
            &&& filter is Some ==> filter->0@ == "available"@
            &&& r->Ok_0->AskHelper_label@ == "osbase sandbox list"@
        },
        r is Ok && command is Status ==> {
            let scenario = r->Ok_0->AskHelper_request->OsbaseStatus_scenario;
            &&& r->Ok_0->AskHelper_request is OsbaseStatus
            &&& scenario is Some <==> command->Status_target is Some
            &&& scenario is Some ==> scenario->0@ == command->Status_target->0.name()
            &&& r->Ok_0->AskHelper_label@ == "osbase sandbox status"@
        },
{
}

/// A request to the helper succeeds exactly when it was carried out with exit code
/// zero, and shows what the helper said; any other reply is a failure of the command
/// that names what the helper said.
pub proof fn law_what_a_reply_comes_to(
    r: Result<String, CliError>,
    exchange: HelperExchange,
    label: Seq<char>,
)
    requires
        exchange_result(r, exchange, label),
    ensures
        r is Ok <==> exchange is Replied && exchange->Replied_0 is Success
            && exchange->Replied_0->Success_exit_code == 0,
        r is Ok ==> r->Ok_0 == exchange->Replied_0->Success_message,
        r is Err ==> r->Err_0 is Runtime && r->Err_0->Runtime_command@ == label,
        r is Err && exchange is SendFailed ==> r->Err_0.reason_text()
            == "failed to send request to system-helper: "@ + exchange->SendFailed_0@,
        r is Err && exchange is ReceiveFailed ==> r->Err_0.reason_text()
            == "failed to receive response from system-helper: "@ + exchange->ReceiveFailed_0@,
        r is Err && exchange is Replied && exchange->Replied_0 is Success
            ==> r->Err_0.reason_text() == exchange->Replied_0->Success_message@ + " (exit_code="@
            + decimal_int(exchange->Replied_0->Success_exit_code as int) + ")"@,
        r is Err && exchange is Replied && exchange->Replied_0 is Error ==> r->Err_0.reason_text()
            == "["@ + exchange->Replied_0->Error_code@ + "] "@ + exchange->Replied_0->Error_message@,
{
}

// ---------------------------------------------------------------------------
// Plans
// ---------------------------------------------------------------------------

/// The phases are numbered from one in the order in which they are run.
pub proof fn law_phases_are_numbered()
    ensures
        phase_index(InstallPhase::Preflight) == 1,
        phase_index(InstallPhase::Packages) == phase_index(InstallPhase::Preflight) + 1,
        phase_index(InstallPhase::OsPrimitives) == phase_index(InstallPhase::Packages) + 1,
        phase_index(InstallPhase::ServiceSetup) == phase_index(InstallPhase::OsPrimitives) + 1,
        phase_index(InstallPhase::PostVerify) == phase_index(InstallPhase::ServiceSetup) + 1,
{
}

/// A phase of a plan has its number and label on a line, each action on a line of
/// its own, in order, and an empty line behind them.
pub proof fn law_lines_of_a_planned_phase(p: SandboxPlanPhase, k: int)
    ensures
        phase_plan(p).len() == p.actions@.len() + 2,
        phase_plan(p)[0] == "Phase "@ + decimal(phase_index(p.phase) as nat) + ": "@ + p.label@,
        0 <= k < p.actions@.len() ==> phase_plan(p)[1 + k] == "  - "@ + p.actions@[k]@,
        phase_plan(p).last().len() == 0,
{
}

/// The phases of a plan are shown one after another, none left out, behind the
/// engine and the variant.
pub proof fn law_plan_shows_every_phase(
    plan: SandboxPlan,
    a: Seq<SandboxPlanPhase>,
    b: Seq<SandboxPlanPhase>,
    p: SandboxPlanPhase,
)
    ensures
        plan_lines(plan) == seq![
            "Install plan for: "@ + plan.backend@ + " (variant="@ + plan.variant@ + ")"@,
            Seq::<char>::empty(),
        ] + phase_plans(plan.phases@),
        phase_plans(Seq::<SandboxPlanPhase>::empty()).len() == 0,
        phase_plans(seq![p]) == phase_plan(p),
        phase_plans(a + b) == phase_plans(a) + phase_plans(b),
    decreases b.len(),
{
    let one = seq![p];
    assert(one.drop_last() =~= Seq::<SandboxPlanPhase>::empty());
    assert(phase_plans(one.drop_last()) =~= Seq::<Seq<char>>::empty());
    assert(one.last() == p);
    assert(Seq::<Seq<char>>::empty() + phase_plan(p) =~= phase_plan(p));
    if b.len() == 0 {
        assert(a + b =~= a);
        assert(phase_plans(b) =~= Seq::<Seq<char>>::empty());
        assert(phase_plans(a) + phase_plans(b) =~= phase_plans(a));
    } else {
        law_plan_shows_every_phase(plan, a, b.drop_last(), p);
        assert((a + b).drop_last() =~= a + b.drop_last());
        assert((a + b).last() == b.last());
        assert(phase_plans(a) + phase_plans(b.drop_last()) + phase_plan(b.last()) =~= phase_plans(a)
            + (phase_plans(b.drop_last()) + phase_plan(b.last())));
    }
}

// ---------------------------------------------------------------------------
// Outcomes
// ---------------------------------------------------------------------------

/// The line of a phase: its number among all, its label, its sign and what is said
/// of it.
pub proof fn law_line_of_a_phase(p: SandboxPhaseOutcome, index: int, total: nat)
    requires
        0 <= index,
    ensures
        ({
            let head = "["@ + decimal((index + 1) as nat) + "/"@ + decimal(total) + "] "@ + padded(
                p.label@,
            ) + " "@;
            &&& p.status == SandboxPhaseStatus::Success ==> phase_line(p, index, total) == head
                + "\u{2713}"@ + "  ("@ + p.message@ + ")"@
            &&& p.status == SandboxPhaseStatus::Skipped ==> phase_line(p, index, total) == head
                + "\u{2298}"@ + "  ("@ + p.message@ + ")"@
            &&& p.status == SandboxPhaseStatus::Warning ==> phase_line(p, index, total) == head
                + "\u{26A0}"@ + "  ("@ + p.message@ + ")"@
            &&& p.status == SandboxPhaseStatus::Failed ==> phase_line(p, index, total) == head
                + "\u{2717}"@ + "  ("@ + p.message@ + ")"@
        }),
{
}

/// A label is kept and filled up with blanks to ten characters.
pub proof fn law_labels_are_filled_up(s: Seq<char>, k: int)
    ensures
        s.is_prefix_of(padded(s)),
        s.len() >= 10 ==> padded(s).len() == s.len(),
        s.len() < 10 ==> padded(s).len() == 10,
        s.len() <= k < padded(s).len() ==> padded(s)[k] == ' ',
{
    assert(s =~= padded(s).subrange(0, s.len() as int));
}

/// An outcome is shown phase by phase, in order, then what became of the engine
/// where it is installed; each warning is shown, in order.
pub proof fn law_outcome_shows_every_phase(outcome: SandboxInstallOutcome, k: int)
    ensures
        ({
            let n = outcome.phases@.len();
            let lines = outcome_lines(outcome);
            let head = "sandbox backend '"@ + outcome.backend.name() + "' (variant="@
                + outcome.variant@ + ") "@;
            &&& 0 <= k < n ==> lines[k] == phase_line(outcome.phases@[k], k, n)
            &&& lines[n as int].len() == 0
            &&& outcome.exit_code == 0 ==> lines.len() == n + 2 && lines.last() == head
                + "installed successfully."@
            &&& outcome.exit_code == 2 ==> lines.len() == n + 2 && lines.last() == head
                + "installed with warnings (degraded)."@
            &&& outcome.exit_code != 0 && outcome.exit_code != 2 ==> lines.len() == n + 1
        }),
        outcome.warnings@.len() == 0 ==> warning_lines(outcome).len() == 0,
        outcome.warnings@.len() > 0 ==> warning_lines(outcome).len() == outcome.warnings@.len() + 1
            && warning_lines(outcome)[0].len() == 0,
        0 <= k < outcome.warnings@.len() ==> warning_lines(outcome)[1 + k] == "warning: "@
            + outcome.warnings@[k]@,
{
}

/// A failed command names itself, its engine and its variant, and what its run ended
/// with.
pub proof fn law_failed_command_names_itself(
    r: Result<(), CliError>,
    outcome: SandboxInstallOutcome,
)
    requires
        outcome_result(r, outcome),
    ensures
        ({
            let cmd = "osbase sandbox install "@ + outcome.backend.name() + " --variant="@
                + outcome.variant@;
            let head = "sandbox backend '"@ + outcome.backend.name() + "' (variant="@
                + outcome.variant@ + ") "@;
            &&& install_command(outcome.backend, outcome.variant@) == cmd
            &&& r is Err && outcome.exit_code == 2 ==> r->Err_0 is Degraded
                && r->Err_0->Degraded_command@ == cmd && r->Err_0.reason_text() == head
                + "installed with warnings"@
            &&& r is Err && outcome.exit_code != 2 ==> r->Err_0 is Runtime
                && r->Err_0->Runtime_command@ == cmd && r->Err_0.reason_text() == head
                + ("install failed (exit_code="@ + decimal_int(outcome.exit_code as int) + ")"@)
        }),
{
}

} // verus!
