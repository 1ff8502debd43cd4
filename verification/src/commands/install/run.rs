//! Carrying an installation out.
//!
//! The stages, in order: a plan is shown or the installation begins
//! ([`InstallRun`]), the artifact is downloaded and verified
//! ([`InstallDownload`]), the install root is locked ([`InstallFetched`]), its
//! record is loaded under the lock ([`InstallLocked`]), the files are copied
//! ([`InstallCopy`]) and the record is saved ([`InstallSave`]). A record that
//! cannot be saved takes the copied files with it.

use crate::central_log::{LogDetails, LogKind, LogRecord, LogStatus, LogView, Severity};
use crate::clock::{like_utc_stamp, like_utc_time, now_iso8601, now_stamp};
use crate::commands::install::render::{
    plan_shown, render_plan, render_result, result_lines, lines_of, InstallPlanPayload,
    InstallResultPayload, Shown,
};
use crate::commands::install::{
    backend_conflict, backend_of, ensure_component_backend_compatible, ResolvedInstall,
};
use crate::context::InstallMode;
use crate::layout::FsLayout;
use crate::response::CliError;
use crate::state::{
    capabilities, law_recorded_object_is_found, lemma_object_at, names_of, object_at, with_object,
    without_capabilities, FileOwner, InstalledObject, InstalledState, ObjectKind, ObjectStatus,
    OperationRecord, OwnedFile, ServiceRef, SubscriptionScope,
};
use crate::text::{
    concat2, concat4, copy_list, decimal, join, joined, number, own, texts,
};
use vstd::prelude::*;

verus! {

// ---------------------------------------------------------------------------
// Planning or beginning
// ---------------------------------------------------------------------------

/// An installation that was asked for in earnest.
#[derive(Debug)]
pub struct InstallRun {
    /// What was decided.
    pub resolved: ResolvedInstall,
    /// Command line.
    pub command: String,
}

/// What follows the decisions.
#[derive(Debug)]
pub enum InstallNext {
    /// The plan, for a request that asked for no more.
    Planned(Shown<InstallPlanPayload>),
    /// Carry it out.
    Run(InstallRun),
}

/// Whether `r` is what follows the decisions: a plan where only a plan was asked
/// for, and nothing but a plan.
pub open spec fn next_result(r: InstallNext, resolved: ResolvedInstall) -> bool {
    if resolved.ctx.dry_run {
        r matches InstallNext::Planned(shown) && plan_shown(shown, resolved)
    } else {
        r matches InstallNext::Run(run) && run.resolved == resolved && run.command@ == "install "@
            + resolved.component@
    }
}

impl ResolvedInstall {
    /// Shows the plan, or goes on.
    pub fn next(self) -> (r: InstallNext)
        ensures
            next_result(r, self),
    {
        if self.ctx.dry_run {
            return InstallNext::Planned(render_plan(&self));
        }
        let command = concat2("install ", self.component.as_str());
        InstallNext::Run(InstallRun { resolved: self, command })
    }
}

/// An installation whose artifact is to be downloaded from
/// `resolved.artifact_url` and held against `resolved.sha256`.
#[derive(Debug)]
pub struct InstallDownload {
    /// The installation.
    pub run: InstallRun,
    /// When it began.
    pub started_at: String,
}

impl InstallRun {
    /// Begins now.
    pub fn start(self) -> (r: InstallDownload)
        ensures
            r.run == self,
            like_utc_time(r.started_at@),
    {
        self.start_at(now_iso8601())
    }

    /// Begins at a given time.
    pub fn start_at(self, now: String) -> (r: InstallDownload)
        ensures
            r.run == self,
            r.started_at == now,
    {
        InstallDownload { run: self, started_at: now }
    }
}

// ---------------------------------------------------------------------------
// Downloading, locking, loading
// ---------------------------------------------------------------------------

/// An installation whose artifact was downloaded and verified; the install root
/// is to be locked.
#[derive(Debug)]
pub struct InstallFetched {
    /// The installation.
    pub run: InstallRun,
    /// When it began.
    pub started_at: String,
}

/// An installation that holds the lock; the record is to be loaded.
#[derive(Debug)]
pub struct InstallLocked {
    /// The installation.
    pub run: InstallRun,
    /// When it began.
    pub started_at: String,
}

/// An installation whose files are to be copied.
#[derive(Debug)]
pub struct InstallCopy {
    /// The installation.
    pub run: InstallRun,
    /// When it began.
    pub started_at: String,
    /// The record, as loaded under the lock.
    pub state: InstalledState,
    /// Id of the operation.
    pub operation_id: String,
}

/// The id of an operation. The nanoseconds keep processes apart that get the
/// lock within one second.
pub open spec fn operation_name(stamp: Seq<char>, nanos: u32) -> Seq<char> {
    "op-install-"@ + stamp + "-"@ + decimal(nanos as nat)
}

impl InstallDownload {
    /// Takes the result of the download.
    pub fn downloaded(self, result: Result<(), String>) -> (r: Result<InstallFetched, CliError>)
        ensures
            match result {
                Ok(_) => r == Result::<InstallFetched, CliError>::Ok(
                    InstallFetched { run: self.run, started_at: self.started_at },
                ),
                Err(shown) => r matches Err(e) && e.is_runtime(
                    self.run.command@,
                    "failed to download artifact "@ + self.run.resolved.artifact_url@ + ": "@
                        + shown@,
                ),
            },
    {
        match result {
            Ok(_) => Ok(InstallFetched { run: self.run, started_at: self.started_at }),
            Err(shown) => Err(
                CliError::runtime(
                    self.run.command.as_str(),
                    concat4(
                        "failed to download artifact ",
                        self.run.resolved.artifact_url.as_str(),
                        ": ",
                        shown.as_str(),
                    ),
                ),
            ),
        }
    }
}

impl InstallFetched {
    /// Takes the result of locking the install root.
    pub fn locked(self, result: Result<(), String>) -> (r: Result<InstallLocked, CliError>)
        ensures
            match result {
                Ok(_) => r == Result::<InstallLocked, CliError>::Ok(
                    InstallLocked { run: self.run, started_at: self.started_at },
                ),
                Err(shown) => r matches Err(e) && e.is_runtime(
                    self.run.command@,
                    "failed to acquire install lock: "@ + shown@,
                ),
            },
    {
        match result {
            Ok(_) => Ok(InstallLocked { run: self.run, started_at: self.started_at }),
            Err(shown) => Err(
                CliError::runtime(
                    self.run.command.as_str(),
                    concat2("failed to acquire install lock: ", shown.as_str()),
                ),
            ),
        }
    }
}

/// Whether `r` is what becomes of an installation with the record that was
/// loaded under the lock; the operation gets this id.
pub open spec fn loaded_result(
    r: Result<InstallCopy, CliError>,
    locked: InstallLocked,
    state: Result<InstalledState, String>,
    operation_id: Seq<char>,
) -> bool {
    let resolved = locked.run.resolved;
    match state {
        Err(shown) => r matches Err(e) && e.is_runtime(
            locked.run.command@,
            "failed to load installed state: "@ + shown@,
        ),
        Ok(s) => match backend_conflict(s.objects@, resolved.component@, resolved.backend@) {
            Some(reason) => r matches Err(e) && e.is_invalid(locked.run.command@, reason),
            None => {
                &&& r matches Ok(copy)
                &&& copy.run == locked.run
                &&& copy.started_at == locked.started_at
                &&& copy.state == s
                &&& copy.operation_id@ == operation_id
            },
        },
    }
}

impl InstallLocked {
    /// Takes the record that was loaded under the lock, now.
    pub fn loaded(self, state: Result<InstalledState, String>) -> (r: Result<InstallCopy, CliError>)
        ensures
            exists|stamp: Seq<char>, nanos: u32|
                like_utc_stamp(stamp) && nanos < 1_000_000_000 && loaded_result(
                    r,
                    self,
                    state,
                    #[trigger] operation_name(stamp, nanos),
                ),
    {
        let now = now_stamp();
        let r = self.loaded_at(state, now.0.as_str(), now.1);
        assert(loaded_result(r, self, state, operation_name(now.0@, now.1)));
        r
    }

    /// Takes the record that was loaded under the lock, at a given time.
    pub fn loaded_at(self, state: Result<InstalledState, String>, stamp: &str, nanos: u32) -> (r:
        Result<InstallCopy, CliError>)
        ensures
            loaded_result(r, self, state, operation_name(stamp@, nanos)),
    {
        let state = match state {
            Ok(s) => s,
            Err(shown) => {
                return Err(
                    CliError::runtime(
                        self.run.command.as_str(),
                        concat2("failed to load installed state: ", shown.as_str()),
                    ),
                );
            },
        };
        match ensure_component_backend_compatible(
            &state,
            self.run.resolved.component.as_str(),
            self.run.resolved.backend.as_str(),
            self.run.command.as_str(),
        ) {
            Ok(_) => {},
            Err(e) => {
                return Err(e);
            },
        }
        let operation_id = concat4("op-install-", stamp, "-", number(nanos as u64).as_str());
        Ok(InstallCopy { run: self.run, started_at: self.started_at, state, operation_id })
    }
}

// ---------------------------------------------------------------------------
// Recording
// ---------------------------------------------------------------------------

/// A file that was copied.
#[derive(Debug)]
pub struct InstalledFile {
    /// Path.
    pub path: String,
    /// Its digest.
    pub sha256: String,
}

/// An installation whose files are on disk; the record is to be saved.
#[derive(Debug)]
pub struct InstallSave {
    /// The installation.
    pub run: InstallRun,
    /// When it began.
    pub started_at: String,
    /// Id of the operation.
    pub operation_id: String,
    /// The record to save.
    pub state: InstalledState,
    /// Paths of the files that were copied.
    pub installed: Vec<String>,
    /// Capabilities of older releases that the record no longer has.
    pub pruned: Vec<String>,
}

/// The paths of files.
pub open spec fn paths_of(files: Seq<InstalledFile>) -> Seq<Seq<char>> {
    files.map_values(|f: InstalledFile| f.path@)
}

/// Whether `owned` are the copied files, as the record has them.
pub open spec fn owns(owned: Seq<OwnedFile>, files: Seq<InstalledFile>) -> bool {
    &&& owned.len() == files.len()
    &&& forall|i: int|
        0 <= i < owned.len() ==> (#[trigger] owned[i]) == (OwnedFile {
            path: files[i].path,
            owner: FileOwner::Anolisa,
            sha256: Some(files[i].sha256),
        })
}

/// Who runs the services of a mode.
pub open spec fn service_manager(mode: InstallMode) -> Seq<char> {
    match mode {
        InstallMode::System => "systemd"@,
        InstallMode::User => "systemd-user"@,
    }
}

/// Whether `refs` are the services of a component, as the record has them: not
/// enabled.
pub open spec fn records_services(
    refs: Seq<ServiceRef>,
    services: Seq<String>,
    mode: InstallMode,
) -> bool {
    &&& refs.len() == services.len()
    &&& forall|i: int|
        0 <= i < refs.len() ==> {
            &&& (#[trigger] refs[i]).name == services[i]
            &&& refs[i].manager@ == service_manager(mode)
            &&& refs[i].restartable
            &&& !refs[i].enabled
        }
}

/// Whether `o` is an installed component, as the record has it.
pub open spec fn is_recorded(
    o: InstalledObject,
    resolved: ResolvedInstall,
    files: Seq<InstalledFile>,
    started_at: Seq<char>,
    operation_id: Seq<char>,
) -> bool {
    &&& o.kind == ObjectKind::Component
    &&& o.name == resolved.component
    &&& o.version == resolved.entry.version
    &&& o.status is Installed
    &&& o.manifest_digest is None
    &&& o.distribution_source == Some(resolved.artifact_url)
    &&& o.install_backend == Some(resolved.backend)
    &&& o.installed_at@ == started_at
    &&& crate::text::opt_text(o.last_operation_id) == Some(operation_id)
    &&& o.managed
    &&& !o.adopted
    &&& o.subscription_scope is Standard
    &&& o.enabled_features@.len() == 0
    &&& o.component_refs@.len() == 0
    &&& owns(o.files@, files)
    &&& o.external_modified_files@.len() == 0
    &&& records_services(o.services@, resolved.services@, resolved.ctx.install_mode)
    &&& o.health@.len() == 0
}

/// Whether `op` is a finished operation, as the record has it.
pub open spec fn is_operation(
    op: OperationRecord,
    id: Seq<char>,
    command: Seq<char>,
    started_at: Seq<char>,
    finished_at: Seq<char>,
) -> bool {
    &&& op.id@ == id
    &&& op.command@ == command
    &&& op.status@ == "ok"@
    &&& op.started_at@ == started_at
    &&& crate::text::opt_text(op.finished_at) == Some(finished_at)
}

/// Whether `after` is a record to which an object and an operation were added,
/// and from which the capabilities of older releases were dropped.
pub open spec fn records(
    after: InstalledState,
    before: InstalledState,
    mode: InstallMode,
    prefix: Seq<char>,
    o: InstalledObject,
    op: OperationRecord,
) -> bool {
    &&& after.install_mode == mode
    &&& after.prefix@ == prefix
    &&& after.objects@ == with_object(without_capabilities(before.objects@), o)
    &&& after.operations@ == before.operations@.push(op)
    &&& after.adapter_claims == before.adapter_claims
}

/// That capabilities of older releases were dropped.
pub open spec fn pruned_text(names: Seq<Seq<char>>) -> Seq<char> {
    "pruned legacy capability state object(s) written by an older release: "@ + join(names, ", "@)
}

/// Warnings about dropped capabilities.
pub open spec fn pruned_warnings(names: Seq<Seq<char>>) -> Seq<Seq<char>> {
    if names.len() == 0 {
        Seq::<Seq<char>>::empty()
    } else {
        seq![pruned_text(names)]
    }
}

/// Whether `after` is the same installation, with warnings that may differ.
pub open spec fn same_run(after: InstallRun, before: InstallRun) -> bool {
    &&& after.command == before.command
    &&& after.resolved.component == before.resolved.component
    &&& after.resolved.package == before.resolved.package
    &&& after.resolved.backend == before.resolved.backend
    &&& after.resolved.base_url == before.resolved.base_url
    &&& after.resolved.entry == before.resolved.entry
    &&& after.resolved.sha256 == before.resolved.sha256
    &&& after.resolved.artifact_url == before.resolved.artifact_url
    &&& after.resolved.files == before.resolved.files
    &&& after.resolved.services == before.resolved.services
    &&& after.resolved.ctx == before.resolved.ctx
}

/// Whether `save` is what becomes of an installation whose files were copied.
pub open spec fn is_save(
    save: InstallSave,
    copy: InstallCopy,
    prefix: Seq<char>,
    files: Seq<InstalledFile>,
    finished_at: Seq<char>,
) -> bool {
    let dropped = names_of(capabilities(copy.state.objects@));
    &&& same_run(save.run, copy.run)
    &&& texts(save.run.resolved.warnings@) == texts(copy.run.resolved.warnings@) + pruned_warnings(
        dropped,
    )
    &&& save.started_at == copy.started_at
    &&& save.operation_id == copy.operation_id
    &&& texts(save.installed@) == paths_of(files)
    &&& texts(save.pruned@) == dropped
    &&& exists|o: InstalledObject, op: OperationRecord|
        {
            &&& #[trigger] records(
                save.state,
                copy.state,
                copy.run.resolved.ctx.install_mode,
                prefix,
                o,
                op,
            )
            &&& is_recorded(o, copy.run.resolved, files, copy.started_at@, copy.operation_id@)
            &&& is_operation(
                op,
                copy.operation_id@,
                copy.run.command@,
                copy.started_at@,
                finished_at,
            )
        }
}

/// Whether `r` is what becomes of an installation with this result of copying.
pub open spec fn copied_result(
    r: Result<InstallSave, CliError>,
    copy: InstallCopy,
    prefix: Seq<char>,
    outcome: Result<Vec<InstalledFile>, String>,
    finished_at: Seq<char>,
) -> bool {
    match outcome {
        Err(shown) => r matches Err(e) && e.is_runtime(
            copy.run.command@,
            "install failed: "@ + shown@,
        ),
        Ok(files) => r matches Ok(save) && is_save(save, copy, prefix, files@, finished_at),
    }
}

/// The copied files as the record has them, and their paths.
fn own_files(files: Vec<InstalledFile>) -> (r: (Vec<OwnedFile>, Vec<String>))
    ensures
        owns(r.0@, files@),
        texts(r.1@) == paths_of(files@),
{
    let ghost all = files@;
    let mut owned: Vec<OwnedFile> = Vec::new();
    let mut paths: Vec<String> = Vec::new();
    assert(texts(paths@) =~= paths_of(all.take(0)));
    for f in it: files.into_iter()
        invariant
            it.seq() == all,
            owns(owned@, all.take(it.index())),
            texts(paths@) == paths_of(all.take(it.index())),
    {
        let ghost k = it.index();
        let ghost before = paths@;
        let ghost path = f.path@;
        paths.push(f.path.clone());
        owned.push(OwnedFile { path: f.path, owner: FileOwner::Anolisa, sha256: Some(f.sha256) });
        assert(all.take(k + 1) =~= all.take(k).push(f));
        assert(texts(paths@) =~= texts(before).push(path));
        assert(paths_of(all.take(k + 1)) =~= paths_of(all.take(k)).push(path));
    }
    assert(all.take(all.len() as int) =~= all);
    (owned, paths)
}

/// The services of a component as the record has them.
fn service_refs(services: &Vec<String>, mode: InstallMode) -> (r: Vec<ServiceRef>)
    ensures
        records_services(r@, services@, mode),
{
    let manager = match mode {
        InstallMode::System => "systemd",
        InstallMode::User => "systemd-user",
    };
    let mut out: Vec<ServiceRef> = Vec::new();
    let mut i: usize = 0;
    while i < services.len()
        invariant
            i <= services@.len(),
            manager@ == service_manager(mode),
            records_services(out@, services@.take(i as int), mode),
        decreases services.len() - i,
    {
        out.push(
            ServiceRef {
                name: services[i].clone(),
                manager: own(manager),
                restartable: true,
                enabled: false,
            },
        );
        assert(services@.take(i + 1) =~= services@.take(i as int).push(services@[i as int]));
        i += 1;
    }
    assert(services@.take(services@.len() as int) =~= services@);
    out
}

impl InstallCopy {
    /// Takes the result of copying the files, now.
    pub fn copied(self, layout: &FsLayout, outcome: Result<Vec<InstalledFile>, String>) -> (r:
        Result<InstallSave, CliError>)
        ensures
            exists|now: Seq<char>|
                like_utc_time(now) && #[trigger] copied_result(
                    r,
                    self,
                    layout.prefix@,
                    outcome,
                    now,
                ),
    {
        let now = now_iso8601();
        let ghost time = now@;
        let r = self.copied_at(layout, outcome, now);
        assert(copied_result(r, self, layout.prefix@, outcome, time));
        r
    }

    /// Takes the result of copying the files, at a given time.
    pub fn copied_at(
        self,
        layout: &FsLayout,
        outcome: Result<Vec<InstalledFile>, String>,
        now: String,
    ) -> (r: Result<InstallSave, CliError>)
        ensures
            copied_result(r, self, layout.prefix@, outcome, now@),
    {
        let files = match outcome {
            Ok(f) => f,
            Err(shown) => {
                return Err(
                    CliError::runtime(
                        self.run.command.as_str(),
                        concat2("install failed: ", shown.as_str()),
                    ),
                );
            },
        };
        let ghost copy = self;
        let ghost all = files@;
        let mut run = self.run;
        let mut state = self.state;
        let (owned, installed) = own_files(files);
        let pruned = state.prune_legacy_capabilities();
        if pruned.len() > 0 {
            run.resolved.warnings.push(
                concat2(
                    "pruned legacy capability state object(s) written by an older release: ",
                    joined(&pruned, ", ").as_str(),
                ),
            );
        }
        assert(texts(run.resolved.warnings@) =~= texts(copy.run.resolved.warnings@)
            + pruned_warnings(texts(pruned@)));
        state.install_mode = run.resolved.ctx.install_mode;
        state.prefix = layout.prefix.clone();
        let object = InstalledObject {
            kind: ObjectKind::Component,
            name: run.resolved.component.clone(),
            version: run.resolved.entry.version.clone(),
            status: ObjectStatus::Installed,
            manifest_digest: None,
            distribution_source: Some(run.resolved.artifact_url.clone()),
            install_backend: Some(run.resolved.backend.clone()),
            installed_at: self.started_at.clone(),
            last_operation_id: Some(self.operation_id.clone()),
            managed: true,
            adopted: false,
            subscription_scope: SubscriptionScope::default(),
            enabled_features: Vec::new(),
            component_refs: Vec::new(),
            files: owned,
            external_modified_files: Vec::new(),
            services: service_refs(&run.resolved.services, run.resolved.ctx.install_mode),
            health: Vec::new(),
        };
        let ghost o = object;
        state.upsert_object(object);
        let operation = OperationRecord {
            id: self.operation_id.clone(),
            command: run.command.clone(),
            status: own("ok"),
            started_at: self.started_at.clone(),
            finished_at: Some(now),
        };
        let ghost op = operation;
        state.operations.push(operation);
        assert(records(
            state,
            copy.state,
            copy.run.resolved.ctx.install_mode,
            layout.prefix@,
            o,
            op,
        ));
        Ok(
            InstallSave {
                run,
                started_at: self.started_at,
                operation_id: self.operation_id,
                state,
                installed,
                pruned,
            },
        )
    }
}

// ---------------------------------------------------------------------------
// Ending
// ---------------------------------------------------------------------------

/// An installation that succeeded.
#[derive(Debug)]
pub struct InstallDone {
    /// Records for the log, to be appended as far as that works.
    pub records: Vec<LogRecord>,
    /// Command line.
    pub command: String,
    /// What is shown.
    pub shown: Shown<InstallResultPayload>,
}

/// How an installation ends.
#[derive(Debug)]
pub enum InstallEnd {
    /// The record was not saved: remove these files, as far as that works.
    RollBack {
        /// Paths of the files that were copied.
        remove: Vec<String>,
        /// What to report.
        error: CliError,
    },
    /// The component is installed.
    Done(InstallDone),
}

/// The record of dropped capabilities.
pub open spec fn prune_log(save: InstallSave, finished_at: Seq<char>) -> LogView {
    LogView {
        kind: LogKind::Operation,
        operation_id: Some(save.operation_id@),
        command: save.run.command@,
        source: "anolisa-cli"@,
        component: None,
        severity: Severity::Warn,
        message: pruned_text(texts(save.pruned@)),
        actor: "cli"@,
        install_mode: Some(save.run.resolved.ctx.install_mode.name()),
        started_at: save.started_at@,
        finished_at: Some(finished_at),
        status: None,
        objects: texts(save.pruned@),
        backup_ids: Seq::<Seq<char>>::empty(),
        warnings: Seq::<Seq<char>>::empty(),
        details: LogDetails::Empty,
    }
}

/// The record of an installation.
pub open spec fn install_log(save: InstallSave, finished_at: Seq<char>) -> LogView {
    let resolved = save.run.resolved;
    LogView {
        kind: LogKind::Operation,
        operation_id: Some(save.operation_id@),
        command: save.run.command@,
        source: "anolisa-cli"@,
        component: Some(resolved.component@),
        severity: Severity::Info,
        message: "component "@ + resolved.component@ + " "@ + resolved.entry.version@
            + " installed via "@ + resolved.backend@ + " backend"@,
        actor: "cli"@,
        install_mode: Some(resolved.ctx.install_mode.name()),
        started_at: save.started_at@,
        finished_at: Some(finished_at),
        status: Some(LogStatus::Done),
        objects: seq![resolved.component@],
        backup_ids: Seq::<Seq<char>>::empty(),
        warnings: texts(resolved.warnings@),
        details: LogDetails::Empty,
    }
}

/// What log records hold.
pub open spec fn logs(list: Seq<LogRecord>) -> Seq<LogView> {
    list.map_values(|l: LogRecord| l@)
}

/// The records of an installation: of dropped capabilities, where there are any,
/// and of the installation.
pub open spec fn end_logs(
    save: InstallSave,
    pruned_at: Seq<char>,
    finished_at: Seq<char>,
) -> Seq<LogView> {
    if save.pruned@.len() > 0 {
        seq![prune_log(save, pruned_at), install_log(save, finished_at)]
    } else {
        seq![install_log(save, finished_at)]
    }
}

impl InstallResultPayload {
    /// Whether this is the result of an installation.
    pub open spec fn reports(self, save: InstallSave) -> bool {
        let resolved = save.run.resolved;
        &&& self.component == resolved.component
        &&& self.package == resolved.package
        &&& self.version == resolved.entry.version
        &&& self.backend == resolved.backend
        &&& self.base_url == resolved.base_url
        &&& self.install_mode@ == resolved.ctx.install_mode.name()
        &&& self.operation_id == save.operation_id
        &&& self.artifact_url == resolved.artifact_url
        &&& self.files_installed == save.installed
        &&& self.services == resolved.services
        &&& self.warnings == resolved.warnings
    }
}

/// Whether `r` is how the result of an installation is shown.
pub open spec fn result_shown(r: Shown<InstallResultPayload>, save: InstallSave) -> bool {
    let ctx = save.run.resolved.ctx;
    if ctx.json {
        r matches Shown::Json(p) && p.reports(save)
    } else if ctx.quiet {
        r is Silent
    } else {
        r matches Shown::Lines(lines) && exists|p: InstallResultPayload|
            #![auto]
            p.reports(save) && lines_of(lines@) == result_lines(p)
    }
}

/// Whether `r` is how an installation ends with this result of saving the
/// record.
pub open spec fn end_result(
    r: InstallEnd,
    save: InstallSave,
    result: Result<(), String>,
    pruned_at: Seq<char>,
    finished_at: Seq<char>,
) -> bool {
    match result {
        Err(shown) => {
            &&& r matches InstallEnd::RollBack { remove, error }
            &&& remove == save.installed
            &&& error.is_runtime(
                save.run.command@,
                "failed to save state; attempted best-effort rollback of installed files (some may remain on disk): "@
                    + shown@,
            )
        },
        Ok(_) => {
            &&& r matches InstallEnd::Done(done)
            &&& logs(done.records@) == end_logs(save, pruned_at, finished_at)
            &&& done.command == save.run.command
            &&& result_shown(done.shown, save)
        },
    }
}

fn prune_record(save: &InstallSave, finished_at: String) -> (r: LogRecord)
    ensures
        r@ == prune_log(*save, finished_at@),
{
    let backup_ids: Vec<String> = Vec::new();
    let warnings: Vec<String> = Vec::new();
    assert(texts(backup_ids@) =~= Seq::<Seq<char>>::empty());
    assert(texts(warnings@) =~= Seq::<Seq<char>>::empty());
    LogRecord {
        kind: LogKind::Operation,
        operation_id: Some(save.operation_id.clone()),
        command: save.run.command.clone(),
        source: own("anolisa-cli"),
        component: None,
        severity: Severity::Warn,
        message: concat2(
            "pruned legacy capability state object(s) written by an older release: ",
            joined(&save.pruned, ", ").as_str(),
        ),
        actor: own("cli"),
        install_mode: Some(own(save.run.resolved.ctx.install_mode.as_str())),
        started_at: save.started_at.clone(),
        finished_at: Some(finished_at),
        status: None,
        objects: copy_list(&save.pruned),
        backup_ids,
        warnings,
        details: LogDetails::Empty,
    }
}

fn install_record(save: &InstallSave, finished_at: String) -> (r: LogRecord)
    ensures
        r@ == install_log(*save, finished_at@),
{
    let resolved = &save.run.resolved;
    let mut message = concat4(
        "component ",
        resolved.component.as_str(),
        " ",
        resolved.entry.version.as_str(),
    );
    message.append(" installed via ");
    message.append(resolved.backend.as_str());
    message.append(" backend");
    let mut objects: Vec<String> = Vec::new();
    objects.push(resolved.component.clone());
    assert(texts(objects@) =~= seq![resolved.component@]);
    let backup_ids: Vec<String> = Vec::new();
    assert(texts(backup_ids@) =~= Seq::<Seq<char>>::empty());
    LogRecord {
        kind: LogKind::Operation,
        operation_id: Some(save.operation_id.clone()),
        command: save.run.command.clone(),
        source: own("anolisa-cli"),
        component: Some(resolved.component.clone()),
        severity: Severity::Info,
        message,
        actor: own("cli"),
        install_mode: Some(own(resolved.ctx.install_mode.as_str())),
        started_at: save.started_at.clone(),
        finished_at: Some(finished_at),
        status: Some(LogStatus::Done),
        objects,
        backup_ids,
        warnings: copy_list(&resolved.warnings),
        details: LogDetails::Empty,
    }
}

impl InstallSave {
    /// Takes the result of saving the record, now.
    pub fn saved(self, result: Result<(), String>) -> (r: InstallEnd)
        ensures
            exists|pruned_at: Seq<char>, finished_at: Seq<char>|
                like_utc_time(pruned_at) && like_utc_time(finished_at) && #[trigger] end_result(
                    r,
                    self,
                    result,
                    pruned_at,
                    finished_at,
                ),
    {
        let pruned_at = now_iso8601();
        let finished_at = now_iso8601();
        let ghost a = pruned_at@;
        let ghost b = finished_at@;
        let r = self.saved_at(result, pruned_at, finished_at);
        assert(end_result(r, self, result, a, b));
        r
    }

    /// Takes the result of saving the record, at given times.
    pub fn saved_at(self, result: Result<(), String>, pruned_at: String, finished_at: String) -> (r:
        InstallEnd)
        ensures
            end_result(r, self, result, pruned_at@, finished_at@),
    {
        match result {
            Ok(_) => {},
            Err(shown) => {
                let error = CliError::runtime(
                    self.run.command.as_str(),
                    concat2(
                        "failed to save state; attempted best-effort rollback of installed files (some may remain on disk): ",
                        shown.as_str(),
                    ),
                );
                return InstallEnd::RollBack { remove: self.installed, error };
            },
        }
        let ghost save = self;
        let ghost a = pruned_at@;
        let ghost b = finished_at@;
        let mut log: Vec<LogRecord> = Vec::new();
        if self.pruned.len() > 0 {
            log.push(prune_record(&self, pruned_at));
        }
        log.push(install_record(&self, finished_at));
        assert(logs(log@) =~= end_logs(save, a, b));
        let resolved = self.run.resolved;
        let json = resolved.ctx.json;
        let quiet = resolved.ctx.quiet;
        let payload = InstallResultPayload {
            component: resolved.component,
            package: resolved.package,
            version: resolved.entry.version,
            backend: resolved.backend,
            base_url: resolved.base_url,
            install_mode: own(resolved.ctx.install_mode.as_str()),
            operation_id: self.operation_id,
            artifact_url: resolved.artifact_url,
            files_installed: self.installed,
            services: resolved.services,
            warnings: resolved.warnings,
        };
        assert(payload.reports(save));
        let shown = if json {
            Shown::Json(payload)
        } else if quiet {
            Shown::Silent
        } else {
            Shown::Lines(render_result(&payload))
        };
        InstallEnd::Done(InstallDone { records: log, command: self.run.command, shown })
    }
}

// ---------------------------------------------------------------------------
// Laws
// ---------------------------------------------------------------------------

/// A request that asked for a plan only never comes to a download.
pub proof fn law_dry_run_only_plans(r: InstallNext, resolved: ResolvedInstall)
    requires
        next_result(r, resolved),
    ensures
        r is Planned <==> resolved.ctx.dry_run,
{
}

/// An installed component is found in the record that is saved, with the version
/// and the source that were installed and no service enabled.
pub proof fn law_install_is_recorded(
    save: InstallSave,
    copy: InstallCopy,
    prefix: Seq<char>,
    files: Seq<InstalledFile>,
    finished_at: Seq<char>,
)
    requires
        is_save(save, copy, prefix, files, finished_at),
    ensures
        object_at(
            save.state.objects@,
            ObjectKind::Component,
            copy.run.resolved.component@,
        ) matches Some(i) && is_recorded(
            save.state.objects@[i],
            copy.run.resolved,
            files,
            copy.started_at@,
            copy.operation_id@,
        ),
{
    let (o, op) = choose|o: InstalledObject, op: OperationRecord|
        {
            &&& #[trigger] records(
                save.state,
                copy.state,
                copy.run.resolved.ctx.install_mode,
                prefix,
                o,
                op,
            )
            &&& is_recorded(o, copy.run.resolved, files, copy.started_at@, copy.operation_id@)
            &&& is_operation(
                op,
                copy.operation_id@,
                copy.run.command@,
                copy.started_at@,
                finished_at,
            )
        };
    law_recorded_object_is_found(without_capabilities(copy.state.objects@), o);
}

/// Once installed, a component can be installed again through the same backend
/// and through no other.
pub proof fn law_backend_sticks(
    save: InstallSave,
    copy: InstallCopy,
    prefix: Seq<char>,
    files: Seq<InstalledFile>,
    finished_at: Seq<char>,
    requested: Seq<char>,
)
    requires
        is_save(save, copy, prefix, files, finished_at),
    ensures
        backend_conflict(save.state.objects@, copy.run.resolved.component@, requested) is None
            <==> requested == copy.run.resolved.backend@,
{
    law_install_is_recorded(save, copy, prefix, files, finished_at);
    let i = object_at(
        save.state.objects@,
        ObjectKind::Component,
        copy.run.resolved.component@,
    )->0;
    assert(backend_of(save.state.objects@[i]) == Some(copy.run.resolved.backend@));
}

/// Installing leaves the receipts of enabled adapters alone and drops every
/// capability that older releases recorded.
pub proof fn law_capabilities_are_gone(
    save: InstallSave,
    copy: InstallCopy,
    prefix: Seq<char>,
    files: Seq<InstalledFile>,
    finished_at: Seq<char>,
    k: int,
)
    requires
        is_save(save, copy, prefix, files, finished_at),
        0 <= k < save.state.objects@.len(),
    ensures
        save.state.objects@[k].kind != ObjectKind::Capability,
        save.state.adapter_claims == copy.state.adapter_claims,
{
    let (o, op) = choose|o: InstalledObject, op: OperationRecord|
        {
            &&& #[trigger] records(
                save.state,
                copy.state,
                copy.run.resolved.ctx.install_mode,
                prefix,
                o,
                op,
            )
            &&& is_recorded(o, copy.run.resolved, files, copy.started_at@, copy.operation_id@)
            &&& is_operation(
                op,
                copy.operation_id@,
                copy.run.command@,
                copy.started_at@,
                finished_at,
            )
        };
    let keep = |o: InstalledObject| o.kind != ObjectKind::Capability;
    let kept = without_capabilities(copy.state.objects@);
    lemma_object_at(kept, o.kind, o.name@);
    if save.state.objects@[k] != o {
        assert(kept[k] == save.state.objects@[k]);
        copy.state.objects@.lemma_filter_pred(keep, k);
    }
}

/// A record that cannot be saved takes exactly the copied files with it.
pub proof fn law_failed_save_undoes_copy(
    r: InstallEnd,
    save: InstallSave,
    copy: InstallCopy,
    prefix: Seq<char>,
    files: Seq<InstalledFile>,
    shown: String,
    times: (Seq<char>, Seq<char>, Seq<char>),
)
    requires
        is_save(save, copy, prefix, files, times.0),
        end_result(r, save, Err(shown), times.1, times.2),
    ensures
        r matches InstallEnd::RollBack { remove, error } && texts(remove@) == paths_of(files),
{
}

} // verus!
