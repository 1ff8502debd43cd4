//! Disabling an adapter.
//!
//! The stages, in order: the receipt is found ([`DisableFound`]) and validated
//! ([`DisableReady`]), the framework's program is run where there is something
//! to unregister ([`DisableRun`]), and the receipt is dropped or, where cleaning
//! up failed, kept and marked ([`DisableSave`]). Disabling what is not enabled
//! does nothing and succeeds.

use crate::adapter::claim::{
    claim_sound, first_fault, plugin_id_fault, AdapterClaim, AllowedRoots, ClaimStatus, ClaimView, PathFacts,
};
use crate::adapter::driver::{CliOutput, DisableReport, DisableReportView, FrameworkCommand};
use crate::adapter::enable::marked_failed;
use crate::adapter::manager::{
    adapter_log, driver_for, is_ambiguous, log_operation, AdapterManager,
};
use crate::adapter::openclaw::{
    claimed_id, disable_step, failure_text, DisableStep, OpenClawDriver, OpenClawEnv,
};
use crate::adapter::laws::law_what_disabling_does;
use crate::adapter::AdapterError;
use crate::central_log::{LogOrigin, LogRecord, LogStatus, LogView};
use crate::clock::like_utc_time;
use crate::state::{
    claim_at, claims_for, law_dropped_claim_is_gone, law_recorded_claim_is_found, with_claim,
    without_claim, InstalledState,
};
use crate::text::{concat3, concat4, concat5, join, joined, opt_text, own, texts};
use vstd::prelude::*;

verus! {

/// What disabling an adapter came to.
#[derive(Debug)]
pub struct DisableOutcome {
    /// Component.
    pub component: String,
    /// Framework; none where the component has no enabled adapter.
    pub framework: Option<String>,
    /// What was done.
    pub report: DisableReport,
    /// Whether the receipt was dropped.
    pub claim_removed: bool,
}

// ---------------------------------------------------------------------------
// Finding the receipt
// ---------------------------------------------------------------------------

/// A receipt that is not validated yet.
#[derive(Debug)]
pub struct DisableFound {
    /// Component.
    pub component: String,
    /// Framework.
    pub framework: String,
    /// The receipt.
    pub claim: AdapterClaim,
    /// The record that it is from.
    pub state: InstalledState,
    /// What the environment says.
    pub env: OpenClawEnv,
    /// The external roots that the driver allows.
    pub roots: Vec<String>,
    /// For records.
    pub origin: LogOrigin,
}

/// What there is to disable.
#[derive(Debug)]
pub enum DisableTarget {
    /// Nothing.
    Nothing(DisableOutcome),
    /// An adapter.
    Found(DisableFound),
}

/// Frameworks of the receipts of a component.
pub open spec fn claimed_list(claims: Seq<ClaimView>, component: Seq<char>) -> Seq<Seq<char>> {
    claims_for(claims, component).map_values(|c: ClaimView| c.framework)
}

impl DisableOutcome {
    /// Whether this says that nothing had to be done.
    pub open spec fn is_nothing(
        self,
        component: Seq<char>,
        framework: Option<Seq<char>>,
        message: Seq<char>,
    ) -> bool {
        &&& self.component@ == component
        &&& opt_text(self.framework) == framework
        &&& self.report@ == (DisableReportView {
            cleanup_complete: true,
            messages: seq![message],
        })
        &&& !self.claim_removed
    }
}

/// Whether `r` is what there is to disable for a framework.
pub open spec fn framework_target(
    r: Result<DisableTarget, AdapterError>,
    manager: AdapterManager,
    component: Seq<char>,
    framework: Seq<char>,
    state: InstalledState,
) -> bool {
    match claim_at(state.claims(), component, framework) {
        None => r matches Ok(DisableTarget::Nothing(o)) && o.is_nothing(
            component,
            Some(framework),
            "no receipt for '"@ + component + "/"@ + framework + "'; nothing to disable"@,
        ),
        Some(i) => if framework == "openclaw"@ {
            &&& r matches Ok(DisableTarget::Found(found))
            &&& found.component@ == component
            &&& found.framework@ == framework
            &&& found.claim@ == state.claims()[i]
            &&& found.state == state
            &&& found.env == manager.env
            &&& texts(found.roots@) == match manager.env.home() {
                Some(h) => seq![h],
                None => Seq::empty(),
            }
            &&& found.origin.actor@ == manager.actor@
            &&& found.origin.mode == manager.layout.mode
            &&& found.origin.component@ == component
            &&& found.origin.command@ == "adapter disable "@ + component + " "@ + framework
        } else {
            r matches Err(AdapterError::UnknownFramework { framework: f }) && f@ == framework
        },
    }
}

/// Whether `r` is what there is to disable: for the named framework, else for
/// the only one that the component has a receipt for.
pub open spec fn disable_target(
    r: Result<DisableTarget, AdapterError>,
    manager: AdapterManager,
    component: Seq<char>,
    framework: Option<Seq<char>>,
    state: InstalledState,
) -> bool {
    let list = claimed_list(state.claims(), component);
    match framework {
        Some(f) => framework_target(r, manager, component, f, state),
        None => if list.len() == 0 {
            r matches Ok(DisableTarget::Nothing(o)) && o.is_nothing(
                component,
                None,
                "component '"@ + component + "' has no enabled adapters"@,
            )
        } else if list.len() == 1 {
            framework_target(r, manager, component, list[0], state)
        } else {
            r matches Err(e) && is_ambiguous(e, component, list)
        },
    }
}

impl AdapterManager {
    /// Finds the receipt of the adapter that is to be disabled.
    pub fn disable(&self, component: &str, framework: &Option<String>, state: InstalledState) -> (r:
        Result<DisableTarget, AdapterError>)
        ensures
            disable_target(r, *self, component@, opt_text(*framework), state),
    {
        let name = match framework {
            Some(f) => f.clone(),
            None => {
                let claimed = state.claimed_frameworks(component);
                assert(texts(claimed@) == claimed_list(state.claims(), component@));
                if claimed.len() == 0 {
                    let message = concat3("component '", component, "' has no enabled adapters");
                    return Ok(
                        DisableTarget::Nothing(
                            DisableOutcome {
                                component: own(component),
                                framework: None,
                                report: DisableReport::with_message(true, message),
                                claim_removed: false,
                            },
                        ),
                    );
                }
                if claimed.len() > 1 {
                    return Err(
                        AdapterError::AmbiguousFramework {
                            component: own(component),
                            frameworks: claimed,
                        },
                    );
                }
                assert(texts(claimed@)[0] == claimed@[0]@);
                claimed[0].clone()
            },
        };
        let claim = match state.find_adapter_claim(component, name.as_str()) {
            Some(c) => c.clone(),
            None => {
                let message = concat5(
                    "no receipt for '",
                    component,
                    "/",
                    name.as_str(),
                    "'; nothing to disable",
                );
                return Ok(
                    DisableTarget::Nothing(
                        DisableOutcome {
                            component: own(component),
                            framework: Some(name),
                            report: DisableReport::with_message(true, message),
                            claim_removed: false,
                        },
                    ),
                );
            },
        };
        let driver = match driver_for(name.as_str()) {
            Some(d) => d,
            None => {
                return Err(AdapterError::UnknownFramework { framework: name });
            },
        };
        let command = concat4("adapter disable ", component, " ", name.as_str());
        let origin = LogOrigin {
            actor: self.actor.clone(),
            mode: self.layout.mode,
            component: own(component),
            command,
        };
        let roots = driver.allowed_external_roots(&self.env);
        Ok(
            DisableTarget::Found(
                DisableFound {
                    component: own(component),
                    framework: name,
                    claim,
                    state,
                    env: self.env.clone(),
                    roots,
                    origin,
                },
            ),
        )
    }
}

// ---------------------------------------------------------------------------
// Validating the receipt
// ---------------------------------------------------------------------------

/// A validated receipt.
#[derive(Debug)]
pub struct DisableReady {
    /// Component.
    pub component: String,
    /// Framework.
    pub framework: String,
    /// The receipt.
    pub claim: AdapterClaim,
    /// The record that it is from.
    pub state: InstalledState,
    /// What the environment says.
    pub env: OpenClawEnv,
    /// For records.
    pub origin: LogOrigin,
}

/// Whether `r` is what validating a receipt comes to.
pub open spec fn ready_result(
    r: Result<DisableReady, AdapterError>,
    found: DisableFound,
    allowed: AllowedRoots,
    facts: Seq<PathFacts>,
) -> bool {
    match r {
        Ok(ready) => {
            &&& claim_sound(found.claim, allowed, facts)
            &&& ready.component == found.component
            &&& ready.framework == found.framework
            &&& ready.claim == found.claim
            &&& ready.state == found.state
            &&& ready.env == found.env
            &&& ready.origin == found.origin
        },
        Err(e) => {
            &&& !claim_sound(found.claim, allowed, facts)
            &&& e matches AdapterError::ClaimValidation(fault)
            &&& first_fault(fault, found.claim, allowed, facts)
        },
    }
}

impl DisableFound {
    /// Validates the receipt before anything is done about it.
    pub fn validated(self, canonical: Vec<String>, facts: &Vec<PathFacts>) -> (r: Result<
        DisableReady,
        AdapterError,
    >)
        requires
            facts@.len() == self.claim.resources@.len(),
        ensures
            ready_result(
                r,
                self,
                (AllowedRoots { paths: self.roots, canonical }),
                facts@,
            ),
    {
        let allowed = AllowedRoots { paths: self.roots, canonical };
        match self.claim.validate(&allowed, facts) {
            Ok(()) => {},
            Err(e) => {
                return Err(AdapterError::ClaimValidation(e));
            },
        }
        Ok(
            DisableReady {
                component: self.component,
                framework: self.framework,
                claim: self.claim,
                state: self.state,
                env: self.env,
                origin: self.origin,
            },
        )
    }
}

// ---------------------------------------------------------------------------
// Cleaning up
// ---------------------------------------------------------------------------

/// A command to run.
#[derive(Debug)]
pub struct DisableRun {
    /// The command.
    pub command: FrameworkCommand,
    /// Plugin that it uninstalls.
    pub plugin_id: String,
    /// The validated receipt.
    pub ready: DisableReady,
}

/// The record as disabling leaves it, which is to be saved.
#[derive(Debug)]
pub struct DisableSave {
    /// The record to save.
    pub state: InstalledState,
    /// What disabling came to.
    pub outcome: DisableOutcome,
    /// For the log.
    pub log: LogRecord,
}

/// What follows validating the receipt.
#[derive(Debug)]
pub enum DisableNext {
    /// Run the command.
    Run(DisableRun),
    /// Save the record.
    Save(DisableSave),
}

/// The record for the log of disabling an adapter.
pub open spec fn disable_log(
    origin: LogOrigin,
    report: DisableReportView,
    now: Seq<char>,
) -> LogView {
    if report.cleanup_complete {
        adapter_log(origin, LogStatus::Done, "adapter disabled"@, None, now)
    } else {
        adapter_log(
            origin,
            LogStatus::Failed,
            "adapter cleanup incomplete; receipt kept"@,
            Some(join(report.messages, "; "@)),
            now,
        )
    }
}

impl DisableSave {
    /// Whether this is what a report on cleaning up leads to: the receipt is
    /// dropped where nothing is left to do, else kept and marked.
    pub open spec fn concludes(self, ready: DisableReady, report: DisableReportView) -> bool {
        let claims = ready.state.claims();
        &&& self.state.claims() == if report.cleanup_complete {
            without_claim(claims, ready.component@, ready.framework@)
        } else {
            with_claim(claims, marked_failed(ready.claim@))
        }
        &&& self.state.same_but_claims(ready.state)
        &&& self.outcome.component@ == ready.component@
        &&& opt_text(self.outcome.framework) == Some(ready.framework@)
        &&& self.outcome.report@ == report
        &&& self.outcome.claim_removed == report.cleanup_complete
        &&& like_utc_time(self.log.started_at@)
        &&& self.log@ == disable_log(ready.origin, report, self.log.started_at@)
    }
}

fn conclude(ready: DisableReady, report: DisableReport) -> (r: DisableSave)
    ensures
        r.concludes(ready, report@),
{
    let mut state = ready.state;
    let removed = report.cleanup_complete;
    let log = if removed {
        state.remove_adapter_claim(ready.component.as_str(), ready.framework.as_str());
        log_operation(&ready.origin, LogStatus::Done, "adapter disabled", None)
    } else {
        let mut kept = ready.claim;
        let ghost before = kept@;
        kept.status = ClaimStatus::CleanupFailed;
        assert(kept@ == marked_failed(before));
        state.upsert_adapter_claim(kept);
        log_operation(
            &ready.origin,
            LogStatus::Failed,
            "adapter cleanup incomplete; receipt kept",
            Some(joined(&report.messages, "; ")),
        )
    };
    DisableSave {
        state,
        outcome: DisableOutcome {
            component: ready.component,
            framework: Some(ready.framework),
            report,
            claim_removed: removed,
        },
        log,
    }
}

/// Whether `r` is what cleaning up begins with.
pub open spec fn begin_result(
    r: Result<DisableNext, AdapterError>,
    ready: DisableReady,
    cli_at: Option<String>,
) -> bool {
    exists|step: Result<DisableStep, AdapterError>|
        {
            &&& #[trigger] disable_step(step, ready.claim@, ready.env, cli_at)
            &&& match step {
                Err(e) => r == Result::<DisableNext, AdapterError>::Err(e),
                Ok(DisableStep::Done(report)) => r matches Ok(DisableNext::Save(save))
                    && save.concludes(ready, report@),
                Ok(DisableStep::Run { command, plugin_id }) => r == Result::<
                    DisableNext,
                    AdapterError,
                >::Ok(DisableNext::Run(DisableRun { command, plugin_id, ready })),
            }
        }
}

impl DisableReady {
    /// Begins to clean up. `cli_at` is where the framework's program is.
    pub fn begin(self, cli_at: &Option<String>) -> (r: Result<DisableNext, AdapterError>)
        ensures
            begin_result(r, self, *cli_at),
    {
        let driver = OpenClawDriver::new();
        let step = driver.disable(&self.claim, &self.env, cli_at);
        let ghost seen = step;
        assert(disable_step(seen, self.claim@, self.env, *cli_at));
        match step {
            Err(e) => Err(e),
            Ok(DisableStep::Done(report)) => Ok(DisableNext::Save(conclude(self, report))),
            Ok(DisableStep::Run { command, plugin_id }) => Ok(
                DisableNext::Run(DisableRun { command, plugin_id, ready: self }),
            ),
        }
    }
}

impl DisableRun {
    /// Goes on once the program was run; one that could not be run leaves
    /// everything as it is.
    pub fn finished(self, output: Result<CliOutput, AdapterError>) -> (r: Result<
        DisableSave,
        AdapterError,
    >)
        ensures
            match output {
                Err(e) => r == Result::<DisableSave, AdapterError>::Err(e),
                Ok(out) => r matches Ok(save) && save.concludes(
                    self.ready,
                    (DisableReportView {
                        cleanup_complete: out.succeeded(),
                        messages: seq![
                            if out.succeeded() {
                                "unregistered openclaw plugin '"@ + self.plugin_id@ + "'"@
                            } else {
                                "openclaw plugin uninstall failed: "@ + failure_text(
                                    "plugins uninstall"@,
                                    out,
                                )
                            },
                        ],
                    }),
                ),
            },
    {
        match output {
            Err(e) => Err(e),
            Ok(out) => {
                let driver = OpenClawDriver::new();
                let report = driver.disable_result(self.plugin_id.as_str(), &out);
                Ok(conclude(self.ready, report))
            },
        }
    }
}

impl DisableSave {
    /// Ends once saving the record was tried.
    pub fn saved(self, result: Result<(), String>) -> (r: Result<DisableOutcome, AdapterError>)
        ensures
            match result {
                Ok(()) => r == Result::<DisableOutcome, AdapterError>::Ok(self.outcome),
                Err(why) => r == Result::<DisableOutcome, AdapterError>::Err(
                    AdapterError::State(why),
                ),
            },
    {
        match result {
            Ok(()) => Ok(self.outcome),
            Err(why) => Err(AdapterError::State(why)),
        }
    }
}

// ---------------------------------------------------------------------------
// Laws
// ---------------------------------------------------------------------------

/// Disabling an adapter without a receipt succeeds and changes nothing.
pub proof fn law_disable_is_idempotent(
    r: Result<DisableTarget, AdapterError>,
    manager: AdapterManager,
    component: Seq<char>,
    framework: Seq<char>,
    state: InstalledState,
)
    requires
        disable_target(r, manager, component, Some(framework), state),
        claim_at(state.claims(), component, framework) is None,
    ensures
        r matches Ok(DisableTarget::Nothing(o)) && o.report.cleanup_complete && !o.claim_removed,
{
}

/// The receipt is dropped exactly when nothing is left to clean up; otherwise it
/// is kept and marked, so that cleaning up can be tried again.
pub proof fn law_receipt_dropped_iff_clean(
    save: DisableSave,
    ready: DisableReady,
    report: DisableReportView,
)
    requires
        save.concludes(ready, report),
        ready.claim@.component == ready.component@,
        ready.claim@.framework == ready.framework@,
    ensures
        save.outcome.claim_removed == report.cleanup_complete,
        report.cleanup_complete ==> claim_at(
            save.state.claims(),
            ready.component@,
            ready.framework@,
        ) is None,
        !report.cleanup_complete ==> (claim_at(
            save.state.claims(),
            ready.component@,
            ready.framework@,
        ) matches Some(i) && save.state.claims()[i] == marked_failed(ready.claim@)),
{
    law_dropped_claim_is_gone(ready.state.claims(), ready.component@, ready.framework@, 0);
    law_recorded_claim_is_found(ready.state.claims(), marked_failed(ready.claim@));
}

/// After an adapter was disabled without anything left over, disabling it again
/// does nothing.
pub proof fn law_disabling_twice_does_nothing(
    save: DisableSave,
    ready: DisableReady,
    report: DisableReportView,
    again: Result<DisableTarget, AdapterError>,
    manager: AdapterManager,
)
    requires
        save.concludes(ready, report),
        report.cleanup_complete,
        disable_target(
            again,
            manager,
            ready.component@,
            Some(ready.framework@),
            save.state,
        ),
    ensures
        again matches Ok(DisableTarget::Nothing(_)),
{
    law_dropped_claim_is_gone(ready.state.claims(), ready.component@, ready.framework@, 0);
}

/// No command is run for a receipt that is not sound.
pub proof fn law_forged_receipt_runs_nothing(
    r: Result<DisableReady, AdapterError>,
    found: DisableFound,
    allowed: AllowedRoots,
    facts: Seq<PathFacts>,
)
    requires
        ready_result(r, found, allowed, facts),
        !claim_sound(found.claim, allowed, facts),
    ensures
        r is Err,
{
}

/// For a framework, the first receipt of the component and that framework is what
/// is disabled, as it is recorded; without one there is nothing to do, and with one
/// for a framework without a driver the operation fails.
pub proof fn law_receipt_to_disable(
    r: Result<DisableTarget, AdapterError>,
    manager: AdapterManager,
    component: Seq<char>,
    framework: Seq<char>,
    state: InstalledState,
)
    requires
        disable_target(r, manager, component, Some(framework), state),
    ensures
        ({
            let claims = state.claims();
            let at = claim_at(claims, component, framework);
            &&& r is Ok && r->Ok_0 is Nothing <==> at is None
            &&& r is Ok && r->Ok_0 is Found <==> at is Some && framework == "openclaw"@
            &&& r is Err ==> r->Err_0 is UnknownFramework
            &&& r is Ok && r->Ok_0 is Nothing ==> {
                &&& r->Ok_0->Nothing_0.component@ == component
                &&& opt_text(r->Ok_0->Nothing_0.framework) == Some(framework)
                &&& r->Ok_0->Nothing_0.report.cleanup_complete
                &&& !r->Ok_0->Nothing_0.claim_removed
            }
            &&& r is Ok && r->Ok_0 is Found ==> {
                let found = r->Ok_0->Found_0;
                &&& found.claim@ == claims[at->0]
                &&& found.claim.component@ == component
                &&& found.claim.framework@ == framework
                &&& found.component@ == component
                &&& found.framework@ == framework
                &&& found.state == state
                &&& found.env == manager.env
                &&& manager.env.home() is Some ==> found.roots@.len() == 1 && found.roots@[0]@
                    == manager.env.home()->0
                &&& manager.env.home() is None ==> found.roots@.len() == 0
                &&& found.origin.command@ == "adapter disable "@ + component + " "@ + framework
                &&& found.origin.component@ == component
            }
        }),
{
    crate::state::law_first_claim_counts(state.claims(), component, framework);
    if r is Ok && r->Ok_0 is Found {
        let found = r->Ok_0->Found_0;
        let shown = texts(found.roots@);
        assert(shown.len() == found.roots@.len());
        if manager.env.home() is Some {
            assert(shown[0] == found.roots@[0]@);
        }
    }
}

/// Where no framework is named, the only receipt of the component decides: without
/// one there is nothing to do, and with more than one the framework has to be named.
pub proof fn law_only_receipt_decides(
    r: Result<DisableTarget, AdapterError>,
    manager: AdapterManager,
    component: Seq<char>,
    state: InstalledState,
)
    requires
        disable_target(r, manager, component, None, state),
    ensures
        ({
            let of_it = state.claims().filter(|c: ClaimView| c.component == component);
            &&& of_it.len() == 0 ==> r is Ok && r->Ok_0 is Nothing
                && !r->Ok_0->Nothing_0.claim_removed
            &&& of_it.len() > 1 ==> r is Err && r->Err_0 is AmbiguousFramework
                && r->Err_0->AmbiguousFramework_frameworks@.len() == of_it.len()
            &&& of_it.len() == 1 ==> disable_target(
                r,
                manager,
                component,
                Some(of_it[0].framework),
                state,
            )
        }),
{
    let keep = |c: ClaimView| c.component == component;
    assert(claims_for(state.claims(), component) == state.claims().filter(keep));
    let list = claimed_list(state.claims(), component);
    if list.len() > 1 {
        let named = r->Err_0->AmbiguousFramework_frameworks@;
        assert(texts(named).len() == named.len());
    }
}

/// A sound receipt goes on to cleaning up, and nothing about it changes.
pub proof fn law_sound_receipt_goes_on(
    r: Result<DisableReady, AdapterError>,
    found: DisableFound,
    allowed: AllowedRoots,
    facts: Seq<PathFacts>,
)
    requires
        ready_result(r, found, allowed, facts),
    ensures
        r is Ok <==> claim_sound(found.claim, allowed, facts),
        r matches Ok(ready) ==> {
            &&& ready.component == found.component
            &&& ready.framework == found.framework
            &&& ready.claim == found.claim
            &&& ready.state == found.state
            &&& ready.env == found.env
            &&& ready.origin == found.origin
        },
        r matches Err(e) ==> e is ClaimValidation,
{
}

/// Once cleaning up is complete the receipts are those before without the ones of
/// the adapter, in order; otherwise they are those before with its own marked. All
/// else in the record stays.
pub proof fn law_record_after_disabling(
    save: DisableSave,
    ready: DisableReady,
    report: DisableReportView,
    k: int,
)
    requires
        save.concludes(ready, report),
    ensures
        ({
            let before = ready.state.claims();
            let after = save.state.claims();
            &&& report.cleanup_complete ==> after == before.filter(
                |c: ClaimView| c.component != ready.component@ || c.framework != ready.framework@,
            )
            &&& !report.cleanup_complete && 0 <= k < before.len() && !(before[k].component
                == ready.claim.component@ && before[k].framework == ready.claim.framework@)
                ==> after[k] == before[k]
            &&& !report.cleanup_complete ==> after.contains(marked_failed(ready.claim@))
            &&& save.state.objects == ready.state.objects
            &&& save.state.operations == ready.state.operations
            &&& save.state.prefix == ready.state.prefix
            &&& save.state.install_mode == ready.state.install_mode
        }),
        save.outcome.component@ == ready.component@,
        opt_text(save.outcome.framework) == Some(ready.framework@),
        save.outcome.report@ == report,
        save.outcome.claim_removed == report.cleanup_complete,
{
    let before = ready.state.claims();
    let drop = |c: ClaimView|
        !crate::state::is_claim_of(c, ready.component@, ready.framework@);
    let other = |c: ClaimView| c.component != ready.component@ || c.framework != ready.framework@;
    assert(drop =~= other);
    if !report.cleanup_complete {
        let m = marked_failed(ready.claim@);
        law_recorded_claim_is_found(before, m);
        let after = with_claim(before, m);
        crate::state::law_first_claim_counts(after, m.component, m.framework);
        let i = claim_at(after, m.component, m.framework)->0;
        assert(after[i] == m);
        if 0 <= k < before.len() && !(before[k].component == m.component && before[k].framework
            == m.framework) {
            crate::state::law_other_claims_are_kept(before, m, k);
        }
    }
}

/// The log tells a completed cleanup from one that left something behind, and of
/// the latter what is left.
pub proof fn law_log_of_disabling(origin: LogOrigin, report: DisableReportView, now: Seq<char>)
    ensures
        ({
            let v = disable_log(origin, report, now);
            &&& report.cleanup_complete ==> v.status == Some(LogStatus::Done) && v.message
                == "adapter disabled"@ && v.warnings.len() == 0
            &&& !report.cleanup_complete ==> v.status == Some(LogStatus::Failed) && v.message
                == "adapter cleanup incomplete; receipt kept"@ && v.warnings == seq![
                join(report.messages, "; "@),
            ]
            &&& v.command == origin.command@
            &&& v.component == Some(origin.component@)
            &&& v.started_at == now
        }),
{
}

/// Cleaning up runs the uninstall of the receipt's plugin where it can, and what is
/// run is about that receipt; what needs no run is concluded at once.
pub proof fn law_how_cleaning_up_begins(
    r: Result<DisableNext, AdapterError>,
    ready: DisableReady,
    cli_at: Option<String>,
)
    requires
        begin_result(r, ready, cli_at),
    ensures
        ({
            let id = claimed_id(ready.claim@);
            let taken = id is Some && plugin_id_fault(id->0) is None;
            &&& r is Ok && r->Ok_0 is Run <==> taken && cli_at is Some
                && ready.env.home() is Some
            &&& r is Ok && r->Ok_0 is Run ==> {
                &&& r->Ok_0->Run_0.ready == ready
                &&& r->Ok_0->Run_0.plugin_id@ == id->0
                &&& r->Ok_0->Run_0.command.program@ == ready.env.bin()
                &&& texts(r->Ok_0->Run_0.command.args@) == seq![
                    "plugins"@,
                    "uninstall"@,
                    id->0,
                    "--force"@,
                ]
            }
            &&& id is None ==> r is Ok && r->Ok_0 is Save
                && r->Ok_0->Save_0.outcome.claim_removed
            &&& taken && cli_at is None ==> r is Ok && r->Ok_0 is Save
                && !r->Ok_0->Save_0.outcome.claim_removed
        }),
{
    let step = choose|step: Result<DisableStep, AdapterError>|
        {
            &&& #[trigger] disable_step(step, ready.claim@, ready.env, cli_at)
            &&& match step {
                Err(e) => r == Result::<DisableNext, AdapterError>::Err(e),
                Ok(DisableStep::Done(report)) => r matches Ok(DisableNext::Save(save))
                    && save.concludes(ready, report@),
                Ok(DisableStep::Run { command, plugin_id }) => r == Result::<
                    DisableNext,
                    AdapterError,
                >::Ok(DisableNext::Run(DisableRun { command, plugin_id, ready })),
            }
        };
    law_what_disabling_does(step, ready.claim@, ready.env, cli_at);
}

} // verus!
