//! Enabling an adapter.
//!
//! The stages, in order: the framework is resolved ([`EnableTarget`]), the
//! resources are found ([`EnableSource`]) and read ([`EnableBundle`]), the
//! framework is found usable and a receipt is drawn up ([`EnableClaim`]), the
//! receipt is validated and recorded ([`EnableSave`]), and only once the record
//! is saved the framework's program is run ([`EnableRun`]). A run that fails
//! leaves the receipt behind, marked for cleanup ([`EnableFailed`]).

use crate::adapter::claim::{
    claim_sound, first_fault, plugin_id_fault, AdapterClaim, AllowedRoots, ClaimStatus, ClaimView, PathFacts,
};
use crate::adapter::driver::{AdapterBundle, CliOutput, DriverPlan, FrameworkCommand};
use crate::adapter::manager::{
    adapter_log, declared_id, declared_plugin_id, declares, driver_for, framework_result,
    log_operation, resolve_framework, resource_dir, resource_dirs, AdapterManager,
};
use crate::adapter::openclaw::{
    bundle_result, claimed_id, enable_fault, enableable, failure_text, install_args, no_bundle_id,
    no_receipt_id, openclaw_detection, receipt, BundleFacts, DriverCtx, OpenClawDriver,
    OpenClawEnv, OpenClawProbe,
};
use crate::adapter::laws::{law_only_framework_is_taken, law_which_resources_are_read};
use crate::adapter::AdapterError;
use crate::central_log::{LogOrigin, LogRecord, LogStatus};
use crate::clock::like_utc_time;
use crate::manifest::ComponentManifest;
use crate::probe::{first_dir, first_directory};
use crate::state::{claim_at, law_recorded_claim_is_found, with_claim, InstalledState};
use crate::text::{concat4, copy_opt, opt_text, texts};
use vstd::prelude::*;

verus! {

impl Clone for OpenClawEnv {
    fn clone(&self) -> (r: Self)
        ensures
            r == *self,
    {
        OpenClawEnv {
            bin_override: copy_opt(&self.bin_override),
            home_override: copy_opt(&self.home_override),
            user_home: copy_opt(&self.user_home),
        }
    }
}

// ---------------------------------------------------------------------------
// Resolving the framework
// ---------------------------------------------------------------------------

/// A request to enable an adapter.
#[derive(Debug)]
pub struct EnableRequest {
    /// Component.
    pub component: String,
    /// Framework; may be left out where the component has but one.
    pub framework: Option<String>,
    /// Only plan.
    pub dry_run: bool,
}

/// An adapter with a driver, and where its resources may be.
#[derive(Debug)]
pub struct EnableTarget {
    /// Component.
    pub component: String,
    /// Framework.
    pub framework: String,
    /// Only plan.
    pub dry_run: bool,
    /// Plugin id that the manifest declares.
    pub declared_plugin_id: Option<String>,
    /// Where the resources may be, most preferred first.
    pub candidates: Vec<String>,
    /// For records.
    pub origin: LogOrigin,
}

/// Whether `r` is the target of a request.
pub open spec fn target_result(
    r: Result<EnableTarget, AdapterError>,
    manager: AdapterManager,
    request: EnableRequest,
    manifest: ComponentManifest,
) -> bool {
    exists|name: Result<String, AdapterError>|
        {
            &&& #[trigger] framework_result(
                name,
                request.component@,
                opt_text(request.framework),
                manifest.adapters@,
            )
            &&& match name {
                Err(e) => r == Result::<EnableTarget, AdapterError>::Err(e),
                Ok(f) => if f@ == "openclaw"@ {
                    r matches Ok(t) && t.is_target(manager, request, f@, manifest)
                } else {
                    r matches Err(AdapterError::UnknownFramework { framework }) && framework@ == f@
                },
            }
        }
}

impl EnableTarget {
    /// Whether this is the target of a request for a framework.
    pub open spec fn is_target(
        self,
        manager: AdapterManager,
        request: EnableRequest,
        f: Seq<char>,
        manifest: ComponentManifest,
    ) -> bool {
        &&& self.component@ == request.component@
        &&& self.framework@ == f
        &&& self.dry_run == request.dry_run
        &&& opt_text(self.declared_plugin_id) == declared_id(manifest.adapters@, f)
        &&& texts(self.candidates@) == resource_dirs(
            texts(manager.datadir_roots@),
            request.component@,
            f,
        )
        &&& self.origin.actor@ == manager.actor@
        &&& self.origin.mode == manager.layout.mode
        &&& self.origin.component@ == request.component@
        &&& self.origin.command@ == "adapter enable "@ + request.component@ + " "@ + f
    }
}

impl AdapterManager {
    /// Resolves the framework of a request by the manifest of its component.
    pub fn enable(&self, request: EnableRequest, manifest: &ComponentManifest) -> (r: Result<
        EnableTarget,
        AdapterError,
    >)
        ensures
            target_result(r, *self, request, *manifest),
    {
        let resolved = resolve_framework(request.component.as_str(), &request.framework, manifest);
        let ghost name = resolved;
        assert(framework_result(
            name,
            request.component@,
            opt_text(request.framework),
            manifest.adapters@,
        ));
        let framework = match resolved {
            Ok(f) => f,
            Err(e) => {
                return Err(e);
            },
        };
        if driver_for(framework.as_str()).is_none() {
            return Err(AdapterError::UnknownFramework { framework });
        }
        let candidates = self.resource_candidates(
            request.component.as_str(),
            framework.as_str(),
        );
        let command = concat4(
            "adapter enable ",
            request.component.as_str(),
            " ",
            framework.as_str(),
        );
        let origin = LogOrigin {
            actor: self.actor.clone(),
            mode: self.layout.mode,
            component: request.component.clone(),
            command,
        };
        let declared = declared_plugin_id(manifest, framework.as_str());
        Ok(
            EnableTarget {
                component: request.component,
                framework,
                dry_run: request.dry_run,
                declared_plugin_id: declared,
                candidates,
                origin,
            },
        )
    }
}

// ---------------------------------------------------------------------------
// Finding and reading the resources
// ---------------------------------------------------------------------------

/// An adapter with resources.
#[derive(Debug)]
pub struct EnableSource {
    /// Framework.
    pub framework: String,
    /// Only plan.
    pub dry_run: bool,
    /// For the driver.
    pub ctx: DriverCtx,
    /// For records.
    pub origin: LogOrigin,
}

impl EnableTarget {
    /// Takes the first place that has resources. `is_dir` says which of the
    /// candidates are directories, in order.
    pub fn found(self, env: &OpenClawEnv, is_dir: &Vec<bool>) -> (r: Result<
        EnableSource,
        AdapterError,
    >)
        ensures
            match first_directory(texts(self.candidates@), is_dir@) {
                Some(root) => {
                    &&& r matches Ok(s)
                    &&& s.framework == self.framework
                    &&& s.dry_run == self.dry_run
                    &&& s.ctx.component == self.component
                    &&& s.ctx.resource_root@ == root
                    &&& s.ctx.declared_plugin_id == self.declared_plugin_id
                    &&& s.ctx.env == *env
                    &&& s.origin == self.origin
                },
                None => {
                    &&& r matches Err(AdapterError::ResourceRootNotFound { component, framework })
                    &&& component@ == self.component@
                    &&& framework@ == self.framework@
                },
            },
    {
        match first_dir(&self.candidates, is_dir) {
            Some(resource_root) => Ok(
                EnableSource {
                    framework: self.framework,
                    dry_run: self.dry_run,
                    ctx: DriverCtx {
                        component: self.component,
                        resource_root,
                        declared_plugin_id: self.declared_plugin_id,
                        env: env.clone(),
                    },
                    origin: self.origin,
                },
            ),
            None => Err(
                AdapterError::ResourceRootNotFound {
                    component: self.component,
                    framework: self.framework,
                },
            ),
        }
    }
}

/// What enabling came to.
#[derive(Debug)]
pub enum EnableOutcome {
    /// What would be done; nothing was.
    Planned(DriverPlan),
    /// The receipt that was recorded.
    Enabled(Box<AdapterClaim>),
}

/// An adapter whose resources were read.
#[derive(Debug)]
pub struct EnableBundle {
    /// Framework.
    pub framework: String,
    /// For the driver.
    pub ctx: DriverCtx,
    /// The resources.
    pub bundle: AdapterBundle,
    /// For records.
    pub origin: LogOrigin,
}

/// What follows reading the resources.
#[derive(Debug)]
pub enum EnableNext {
    /// The end, for a request that asked for no more than a plan.
    Ended(EnableOutcome),
    /// Look for the framework.
    Detect(EnableBundle),
}

/// Whether `r` is what follows reading the resources of an adapter: a plan
/// where only a plan was asked for, and nothing but a plan.
pub open spec fn read_result(
    r: Result<EnableNext, AdapterError>,
    source: EnableSource,
    facts: BundleFacts,
) -> bool {
    exists|read: Result<AdapterBundle, AdapterError>|
        {
            &&& #[trigger] bundle_result(read, source.ctx, facts)
            &&& match read {
                Err(e) => r == Result::<EnableNext, AdapterError>::Err(e),
                Ok(bundle) => if source.dry_run {
                    if enableable(opt_text(bundle.plugin_id), source.ctx.env) {
                        {
                            &&& r matches Ok(EnableNext::Ended(EnableOutcome::Planned(plan)))
                            &&& plan.plans(bundle, source.ctx)
                        }
                    } else {
                        r matches Err(e) && enable_fault(
                            e,
                            opt_text(bundle.plugin_id),
                            bundle.resource_root@,
                            source.ctx.env,
                            no_bundle_id(),
                        )
                    }
                } else {
                    r == Result::<EnableNext, AdapterError>::Ok(
                        EnableNext::Detect(
                            EnableBundle {
                                framework: source.framework,
                                ctx: source.ctx,
                                bundle,
                                origin: source.origin,
                            },
                        ),
                    )
                },
            }
        }
}

impl EnableSource {
    /// Reads the resources.
    pub fn read(self, facts: BundleFacts) -> (r: Result<EnableNext, AdapterError>)
        ensures
            read_result(r, self, facts),
    {
        let driver = OpenClawDriver::new();
        let read = driver.read_bundle(&self.ctx, facts);
        let ghost seen = read;
        assert(bundle_result(seen, self.ctx, facts));
        let bundle = match read {
            Ok(b) => b,
            Err(e) => {
                return Err(e);
            },
        };
        if self.dry_run {
            return match driver.plan_enable(&bundle, &self.ctx) {
                Ok(plan) => Ok(EnableNext::Ended(EnableOutcome::Planned(plan))),
                Err(e) => Err(e),
            };
        }
        Ok(
            EnableNext::Detect(
                EnableBundle {
                    framework: self.framework,
                    ctx: self.ctx,
                    bundle,
                    origin: self.origin,
                },
            ),
        )
    }
}

// ---------------------------------------------------------------------------
// Drawing up the receipt
// ---------------------------------------------------------------------------

/// A receipt that is not validated yet.
#[derive(Debug)]
pub struct EnableClaim {
    /// For the driver.
    pub ctx: DriverCtx,
    /// The receipt.
    pub claim: AdapterClaim,
    /// The external roots that the driver allows.
    pub roots: Vec<String>,
    /// For records.
    pub origin: LogOrigin,
}

impl EnableBundle {
    /// Draws up the receipt, if the framework can be used.
    pub fn detected(self, probe: &OpenClawProbe) -> (r: Result<EnableClaim, AdapterError>)
        ensures
            ({
                let (usable, why) = openclaw_detection(self.ctx.env, *probe);
                if !usable {
                    &&& r matches Err(AdapterError::FrameworkNotDetected { framework, reason })
                    &&& framework@ == self.framework@
                    &&& reason@ == why
                } else if enableable(opt_text(self.bundle.plugin_id), self.ctx.env) {
                    &&& r matches Ok(c)
                    &&& c.ctx == self.ctx
                    &&& c.claim@ == receipt(self.bundle, self.ctx, c.claim.enabled_at@)
                    &&& like_utc_time(c.claim.enabled_at@)
                    &&& texts(c.roots@) == seq![self.ctx.env.home()->0]
                    &&& c.origin == self.origin
                } else {
                    r matches Err(e) && enable_fault(
                        e,
                        opt_text(self.bundle.plugin_id),
                        self.bundle.resource_root@,
                        self.ctx.env,
                        no_bundle_id(),
                    )
                }
            }),
    {
        let driver = OpenClawDriver::new();
        let detect = driver.detect(&self.ctx.env, probe);
        if !detect.detected {
            return Err(
                AdapterError::FrameworkNotDetected {
                    framework: self.framework,
                    reason: detect.reason,
                },
            );
        }
        match driver.prepare_enable(&self.bundle, &self.ctx) {
            Ok(claim) => {
                let roots = driver.allowed_external_roots(&self.ctx.env);
                Ok(EnableClaim { ctx: self.ctx, claim, roots, origin: self.origin })
            },
            Err(e) => Err(e),
        }
    }
}

// ---------------------------------------------------------------------------
// Recording the receipt
// ---------------------------------------------------------------------------

/// A validated receipt and the record with it, which is to be saved.
#[derive(Debug)]
pub struct EnableSave {
    /// For the driver.
    pub ctx: DriverCtx,
    /// The receipt.
    pub claim: AdapterClaim,
    /// The record to save.
    pub state: InstalledState,
    /// For records.
    pub origin: LogOrigin,
}

/// Whether `r` is what validating and recording a receipt comes to.
pub open spec fn validation_result(
    r: Result<EnableSave, AdapterError>,
    drawn: EnableClaim,
    allowed: AllowedRoots,
    facts: Seq<PathFacts>,
    state: InstalledState,
) -> bool {
    match r {
        Ok(save) => {
            &&& claim_sound(drawn.claim, allowed, facts)
            &&& save.ctx == drawn.ctx
            &&& save.claim == drawn.claim
            &&& save.state.claims() == with_claim(state.claims(), drawn.claim@)
            &&& save.state.same_but_claims(state)
            &&& save.origin == drawn.origin
        },
        Err(e) => {
            &&& !claim_sound(drawn.claim, allowed, facts)
            &&& e matches AdapterError::ClaimValidation(fault)
            &&& first_fault(fault, drawn.claim, allowed, facts)
        },
    }
}

impl EnableClaim {
    /// Validates the receipt and puts it into the record. `canonical` are the
    /// allowed roots that the file system resolves, `facts` is what it says
    /// about the resources of the receipt.
    pub fn validated(self, canonical: Vec<String>, facts: &Vec<PathFacts>, state: InstalledState) -> (r:
        Result<EnableSave, AdapterError>)
        requires
            facts@.len() == self.claim.resources@.len(),
        ensures
            validation_result(
                r,
                self,
                (AllowedRoots { paths: self.roots, canonical }),
                facts@,
                state,
            ),
    {
        let allowed = AllowedRoots { paths: self.roots, canonical };
        match self.claim.validate(&allowed, facts) {
            Ok(()) => {},
            Err(e) => {
                return Err(AdapterError::ClaimValidation(e));
            },
        }
        let mut state = state;
        state.upsert_adapter_claim(self.claim.clone());
        Ok(EnableSave { ctx: self.ctx, claim: self.claim, state, origin: self.origin })
    }
}

// ---------------------------------------------------------------------------
// Running the framework's program
// ---------------------------------------------------------------------------

/// A saved receipt and the command that carries it out.
#[derive(Debug)]
pub struct EnableRun {
    /// The command to run.
    pub command: FrameworkCommand,
    /// The receipt.
    pub claim: AdapterClaim,
    /// The record as it was saved.
    pub state: InstalledState,
    /// For records.
    pub origin: LogOrigin,
}

/// A receipt that could not be carried out, and the record with it, which is to
/// be saved.
#[derive(Debug)]
pub struct EnableFailed {
    /// Why it could not be carried out.
    pub error: AdapterError,
    /// The record to save, in which the receipt is marked for cleanup.
    pub state: InstalledState,
    /// For records.
    pub origin: LogOrigin,
}

/// What follows saving the record.
#[derive(Debug)]
pub enum EnableApply {
    /// Run the command.
    Run(EnableRun),
    /// There is no command to run.
    Failed(EnableFailed),
}

/// A receipt, marked for cleanup.
pub open spec fn marked_failed(c: ClaimView) -> ClaimView {
    ClaimView { status: ClaimStatus::CleanupFailed, ..c }
}

impl EnableFailed {
    /// Whether this is the failure to carry out a receipt that is in a record.
    pub open spec fn is_failure(
        self,
        claim: ClaimView,
        state: InstalledState,
        origin: LogOrigin,
    ) -> bool {
        &&& self.state.claims() == with_claim(state.claims(), marked_failed(claim))
        &&& self.state.same_but_claims(state)
        &&& self.origin == origin
    }
}

fn fail(error: AdapterError, claim: AdapterClaim, state: InstalledState, origin: LogOrigin) -> (r:
    EnableFailed)
    ensures
        r.error == error,
        r.is_failure(claim@, state, origin),
{
    let mut claim = claim;
    let mut state = state;
    let ghost before = claim@;
    claim.status = ClaimStatus::CleanupFailed;
    assert(claim@ == marked_failed(before));
    state.upsert_adapter_claim(claim);
    EnableFailed { error, state, origin }
}

/// Whether `r` is what follows saving the record with a receipt.
pub open spec fn save_result(
    r: Result<EnableApply, AdapterError>,
    save: EnableSave,
    result: Result<(), String>,
) -> bool {
    let env = save.ctx.env;
    match result {
        Err(why) => r == Result::<EnableApply, AdapterError>::Err(AdapterError::State(why)),
        Ok(()) => if enableable(claimed_id(save.claim@), env) {
            &&& r matches Ok(EnableApply::Run(run))
            &&& run.command.calls_openclaw(
                env.bin(),
                install_args(save.claim.resource_root@),
                env.home()->0,
                env.user_home,
            )
            &&& run.claim == save.claim
            &&& run.state == save.state
            &&& run.origin == save.origin
        } else {
            &&& r matches Ok(EnableApply::Failed(failed))
            &&& enable_fault(
                failed.error,
                claimed_id(save.claim@),
                save.claim.resource_root@,
                env,
                no_receipt_id(),
            )
            &&& failed.is_failure(save.claim@, save.state, save.origin)
        },
    }
}

impl EnableSave {
    /// Goes on once saving the record was tried.
    pub fn saved(self, result: Result<(), String>) -> (r: Result<EnableApply, AdapterError>)
        ensures
            save_result(r, self, result),
    {
        match result {
            Ok(()) => {},
            Err(why) => {
                return Err(AdapterError::State(why));
            },
        }
        let driver = OpenClawDriver::new();
        match driver.enable_command(&self.claim, &self.ctx.env) {
            Ok(command) => Ok(
                EnableApply::Run(
                    EnableRun {
                        command,
                        claim: self.claim,
                        state: self.state,
                        origin: self.origin,
                    },
                ),
            ),
            Err(e) => Ok(EnableApply::Failed(fail(e, self.claim, self.state, self.origin))),
        }
    }
}

/// How enabling ends.
#[derive(Debug)]
pub enum EnableEnd {
    /// The adapter is enabled.
    Enabled {
        /// What enabling came to.
        outcome: EnableOutcome,
        /// For the log.
        log: LogRecord,
    },
    /// The program failed.
    Failed(EnableFailed),
}

impl EnableRun {
    /// Goes on once the program was run; `output` is what came of it, or why it
    /// could not be run.
    pub fn applied(self, output: Result<CliOutput, AdapterError>) -> (r: EnableEnd)
        ensures
            match output {
                Ok(out) if out.succeeded() => {
                    &&& r matches EnableEnd::Enabled {
                        outcome: EnableOutcome::Enabled(claim),
                        log,
                    }
                    &&& *claim == self.claim
                    &&& like_utc_time(log.started_at@)
                    &&& log@ == adapter_log(
                        self.origin,
                        LogStatus::Done,
                        "adapter enabled"@,
                        None,
                        log.started_at@,
                    )
                },
                Ok(out) => {
                    &&& r matches EnableEnd::Failed(failed)
                    &&& failed.error.is_cli(
                        self.command.program@,
                        failure_text("plugins install"@, out),
                    )
                    &&& failed.is_failure(self.claim@, self.state, self.origin)
                },
                Err(e) => {
                    &&& r matches EnableEnd::Failed(failed)
                    &&& failed.error == e
                    &&& failed.is_failure(self.claim@, self.state, self.origin)
                },
            },
    {
        let driver = OpenClawDriver::new();
        let error = match output {
            Ok(out) => match driver.enable_result(self.command.program, &out) {
                Ok(()) => {
                    let log = log_operation(&self.origin, LogStatus::Done, "adapter enabled", None);
                    return EnableEnd::Enabled {
                        outcome: EnableOutcome::Enabled(Box::new(self.claim)),
                        log,
                    };
                },
                Err(e) => e,
            },
            Err(e) => e,
        };
        EnableEnd::Failed(fail(error, self.claim, self.state, self.origin))
    }
}

impl EnableFailed {
    /// Ends a failed run once saving the marked receipt was tried: the error to
    /// return, and the record for the log.
    pub fn recorded(self, result: Result<(), String>) -> (r: (AdapterError, LogRecord))
        ensures
            r.0 == self.error,
            like_utc_time(r.1.started_at@),
            r.1@ == match result {
                Err(why) => adapter_log(
                    self.origin,
                    LogStatus::Partial,
                    "adapter enable failed; receipt status update failed"@,
                    Some(
                        "enable error: "@ + self.error.text()
                            + "; failed to mark receipt cleanup_failed: "@ + why@,
                    ),
                    r.1.started_at@,
                ),
                Ok(()) => adapter_log(
                    self.origin,
                    LogStatus::Failed,
                    "adapter enable failed; receipt kept for cleanup retry"@,
                    Some(self.error.text()),
                    r.1.started_at@,
                ),
            },
    {
        let shown = self.error.message();
        let log = match result {
            Err(why) => log_operation(
                &self.origin,
                LogStatus::Partial,
                "adapter enable failed; receipt status update failed",
                Some(
                    concat4(
                        "enable error: ",
                        shown.as_str(),
                        "; failed to mark receipt cleanup_failed: ",
                        why.as_str(),
                    ),
                ),
            ),
            Ok(()) => log_operation(
                &self.origin,
                LogStatus::Failed,
                "adapter enable failed; receipt kept for cleanup retry",
                Some(shown),
            ),
        };
        (self.error, log)
    }
}

// ---------------------------------------------------------------------------
// Laws
// ---------------------------------------------------------------------------

/// Before the framework's program runs, the receipt was validated and saved:
/// the record that was saved holds it, and nothing but the receipt was changed.
pub proof fn law_saved_before_run(
    drawn: EnableClaim,
    allowed: AllowedRoots,
    facts: Seq<PathFacts>,
    state: InstalledState,
    save: EnableSave,
    result: Result<(), String>,
    run: EnableRun,
)
    requires
        validation_result(Result::<EnableSave, AdapterError>::Ok(save), drawn, allowed, facts, state),
        save_result(
            Result::<EnableApply, AdapterError>::Ok(EnableApply::Run(run)),
            save,
            result,
        ),
    ensures
        result is Ok,
        claim_sound(run.claim, allowed, facts),
        run.state == save.state,
        claim_at(run.state.claims(), run.claim@.component, run.claim@.framework) matches Some(i)
            && run.state.claims()[i] == run.claim@,
        run.state.same_but_claims(state),
{
    law_recorded_claim_is_found(state.claims(), drawn.claim@);
}

/// A receipt that is refused is never recorded: there is no record to save and
/// no command to run.
pub proof fn law_refused_receipt_goes_nowhere(
    drawn: EnableClaim,
    allowed: AllowedRoots,
    facts: Seq<PathFacts>,
    state: InstalledState,
    r: Result<EnableSave, AdapterError>,
)
    requires
        validation_result(r, drawn, allowed, facts, state),
        !claim_sound(drawn.claim, allowed, facts),
    ensures
        r is Err,
{
}

/// A dry run ends in a plan or an error; it never gets as far as a receipt.
pub proof fn law_dry_run_only_plans(
    r: Result<EnableNext, AdapterError>,
    source: EnableSource,
    facts: BundleFacts,
)
    requires
        read_result(r, source, facts),
        source.dry_run,
    ensures
        r matches Ok(next) ==> next is Ended && next->Ended_0 is Planned,
{
}

/// A run that fails keeps the receipt, marked for cleanup, so that disabling can
/// be tried.
pub proof fn law_failure_keeps_receipt(
    failed: EnableFailed,
    claim: ClaimView,
    state: InstalledState,
    origin: LogOrigin,
)
    requires
        failed.is_failure(claim, state, origin),
    ensures
        claim_at(failed.state.claims(), claim.component, claim.framework) matches Some(i)
            && failed.state.claims()[i] == marked_failed(claim),
{
    law_recorded_claim_is_found(state.claims(), marked_failed(claim));
}

/// A named framework is enabled exactly when it is declared and is OpenClaw, the
/// only one with a driver; whatever is enabled is for OpenClaw.
pub proof fn law_only_openclaw_is_enabled(
    r: Result<EnableTarget, AdapterError>,
    manager: AdapterManager,
    request: EnableRequest,
    manifest: ComponentManifest,
)
    requires
        target_result(r, manager, request, manifest),
    ensures
        request.framework is Some ==> (r is Ok <==> request.framework->0@ == "openclaw"@ && declares(
            manifest.adapters@,
            "openclaw"@,
        )),
        request.framework is Some && declares(manifest.adapters@, request.framework->0@) && r is Err
            ==> r->Err_0 is UnknownFramework && r->Err_0->UnknownFramework_framework@
            == request.framework->0@,
        request.framework is Some && !declares(manifest.adapters@, request.framework->0@) ==> r is Err
            && r->Err_0 is AdapterNotDeclared,
        r is Ok ==> declares(manifest.adapters@, "openclaw"@),
{
    let name = choose|name: Result<String, AdapterError>|
        {
            &&& #[trigger] framework_result(
                name,
                request.component@,
                opt_text(request.framework),
                manifest.adapters@,
            )
            &&& match name {
                Err(e) => r == Result::<EnableTarget, AdapterError>::Err(e),
                Ok(f) => if f@ == "openclaw"@ {
                    r matches Ok(t) && t.is_target(manager, request, f@, manifest)
                } else {
                    r matches Err(AdapterError::UnknownFramework { framework }) && framework@ == f@
                },
            }
        };
    if request.framework is None && name is Ok {
        law_only_framework_is_taken(name, request.component@, manifest.adapters@, "openclaw"@);
    }
}

/// What is to be enabled is what was asked for: the component, whether it is only
/// planned, the plugin id that the manifest declares, and where the resources may
/// be, one place below each data directory.
pub proof fn law_target_is_what_was_asked_for(
    t: EnableTarget,
    manager: AdapterManager,
    request: EnableRequest,
    manifest: ComponentManifest,
)
    requires
        target_result(Ok::<EnableTarget, AdapterError>(t), manager, request, manifest),
    ensures
        t.component@ == request.component@,
        t.framework@ == "openclaw"@,
        t.dry_run == request.dry_run,
        opt_text(t.declared_plugin_id) == declared_id(manifest.adapters@, "openclaw"@),
        t.candidates@.len() == manager.datadir_roots@.len(),
        forall|k: int|
            0 <= k < t.candidates@.len() ==> (#[trigger] t.candidates@[k])@ == resource_dir(
                manager.datadir_roots@[k]@,
                request.component@,
                "openclaw"@,
            ),
        t.origin.actor@ == manager.actor@,
        t.origin.mode == manager.layout.mode,
        t.origin.component@ == request.component@,
        t.origin.command@ == "adapter enable "@ + request.component@ + " "@ + "openclaw"@,
{
    let shown = texts(t.candidates@);
    let roots = texts(manager.datadir_roots@);
    let all = resource_dirs(roots, request.component@, "openclaw"@);
    assert(shown == all);
    assert(shown.len() == t.candidates@.len() && all.len() == manager.datadir_roots@.len());
    assert forall|k: int| 0 <= k < t.candidates@.len() implies (#[trigger] t.candidates@[k])@
        == resource_dir(manager.datadir_roots@[k]@, request.component@, "openclaw"@) by {
        assert(shown[k] == t.candidates@[k]@);
        assert(roots[k] == manager.datadir_roots@[k]@);
        assert(all[k] == resource_dir(roots[k], request.component@, "openclaw"@));
    }
}

/// Outside a dry run resources that can be read go on, exactly these, to the look
/// at the framework, with the context that they were read in.
pub proof fn law_read_resources_go_on(
    r: Result<EnableNext, AdapterError>,
    source: EnableSource,
    facts: BundleFacts,
)
    requires
        read_result(r, source, facts),
        !source.dry_run,
    ensures
        r is Ok <==> facts.look is Filled && (facts.plugin_manifest is Missing
            || (facts.plugin_manifest is Parsed && facts.plugin_manifest->Parsed_id is Some
            && facts.plugin_manifest->Parsed_id->0@.len() > 0)),
        r is Ok ==> {
            &&& r->Ok_0 is Detect
            &&& r->Ok_0->Detect_0.framework == source.framework
            &&& r->Ok_0->Detect_0.ctx == source.ctx
            &&& r->Ok_0->Detect_0.origin == source.origin
            &&& r->Ok_0->Detect_0.bundle.resource_root@ == source.ctx.resource_root@
            &&& r->Ok_0->Detect_0.bundle.digest == facts.digest
            &&& r->Ok_0->Detect_0.bundle.plugin_id is Some
        },
{
    let read = choose|read: Result<AdapterBundle, AdapterError>|
        {
            &&& #[trigger] bundle_result(read, source.ctx, facts)
            &&& match read {
                Err(e) => r == Result::<EnableNext, AdapterError>::Err(e),
                Ok(bundle) => r == Result::<EnableNext, AdapterError>::Ok(
                    EnableNext::Detect(
                        EnableBundle {
                            framework: source.framework,
                            ctx: source.ctx,
                            bundle,
                            origin: source.origin,
                        },
                    ),
                ),
            }
        };
    law_which_resources_are_read(read, source.ctx, facts);
}

/// A receipt is recorded exactly when it is sound; then the record differs from the
/// one before in that receipt alone, and the receipt is saved as it was drawn up.
pub proof fn law_recorded_iff_sound(
    r: Result<EnableSave, AdapterError>,
    drawn: EnableClaim,
    allowed: AllowedRoots,
    facts: Seq<PathFacts>,
    state: InstalledState,
    k: int,
)
    requires
        validation_result(r, drawn, allowed, facts, state),
    ensures
        r is Ok <==> claim_sound(drawn.claim, allowed, facts),
        r matches Ok(save) ==> {
            &&& save.claim == drawn.claim
            &&& save.ctx == drawn.ctx
            &&& save.origin == drawn.origin
            &&& save.state.claims().contains(drawn.claim@)
            &&& 0 <= k < state.claims().len() && !(state.claims()[k].component
                == drawn.claim.component@ && state.claims()[k].framework
                == drawn.claim.framework@) ==> save.state.claims()[k] == state.claims()[k]
            &&& save.state.objects == state.objects
            &&& save.state.operations == state.operations
        },
        r matches Err(e) ==> e is ClaimValidation,
{
    if r is Ok {
        let claims = state.claims();
        let c = drawn.claim@;
        law_recorded_claim_is_found(claims, c);
        let i = claim_at(with_claim(claims, c), c.component, c.framework)->0;
        crate::state::law_first_claim_counts(with_claim(claims, c), c.component, c.framework);
        assert(with_claim(claims, c)[i] == c);
        if 0 <= k < claims.len() && !(claims[k].component == c.component && claims[k].framework
            == c.framework) {
            crate::state::law_other_claims_are_kept(claims, c, k);
        }
    }
}

/// A receipt that is marked for cleanup says all else as before.
pub proof fn law_mark_changes_nothing_else(c: ClaimView)
    ensures
        marked_failed(c).status == ClaimStatus::CleanupFailed,
        marked_failed(c).claim_schema == c.claim_schema,
        marked_failed(c).component == c.component,
        marked_failed(c).framework == c.framework,
        marked_failed(c).plugin_id == c.plugin_id,
        marked_failed(c).enabled_at == c.enabled_at,
        marked_failed(c).resource_root == c.resource_root,
        marked_failed(c).bundle_digest == c.bundle_digest,
        marked_failed(c).driver_schema == c.driver_schema,
        marked_failed(c).resources == c.resources,
        marked_failed(c).state_dir_resource == c.state_dir_resource,
        marked_failed(c).plugin_resource == c.plugin_resource,
{
}

/// The plugin is installed exactly when the record was saved and the receipt can be
/// carried out; the command installs the resources that the receipt names.
pub proof fn law_what_is_run_after_saving(
    r: Result<EnableApply, AdapterError>,
    save: EnableSave,
    result: Result<(), String>,
)
    requires
        save_result(r, save, result),
    ensures
        r is Err <==> result is Err,
        r is Err ==> r->Err_0 == AdapterError::State(result->Err_0),
        r is Ok && r->Ok_0 is Run <==> result is Ok && claimed_id(save.claim@) is Some
            && plugin_id_fault(claimed_id(save.claim@)->0) is None && save.ctx.env.home() is Some,
        r is Ok && r->Ok_0 is Run ==> {
            &&& r->Ok_0->Run_0.claim == save.claim
            &&& r->Ok_0->Run_0.state == save.state
            &&& r->Ok_0->Run_0.origin == save.origin
            &&& r->Ok_0->Run_0.command.program@ == save.ctx.env.bin()
            &&& texts(r->Ok_0->Run_0.command.args@) == seq![
                "plugins"@,
                "install"@,
                save.claim.resource_root@,
                "--force"@,
                "--dangerously-force-unsafe-install"@,
            ]
        },
        r is Ok && r->Ok_0 is Failed ==> {
            &&& r->Ok_0->Failed_0.origin == save.origin
            &&& r->Ok_0->Failed_0.state.claims() == with_claim(
                save.state.claims(),
                marked_failed(save.claim@),
            )
            &&& r->Ok_0->Failed_0.state.objects == save.state.objects
        },
{
}

} // verus!
