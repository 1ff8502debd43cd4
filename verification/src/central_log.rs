//! Records for the log of all operations.

use crate::context::InstallMode;
use crate::text::{opt_text, own, texts};
use vstd::prelude::*;

verus! {

/// What a record is about.
#[derive(Clone, Copy, PartialEq, Eq, Structural, Debug)]
pub enum LogKind {
    /// An operation.
    Operation,
}

/// How an operation ended.
#[derive(Clone, Copy, PartialEq, Eq, Structural, Debug)]
pub enum LogStatus {
    /// As it should.
    Done,
    /// In part.
    Partial,
    /// Not at all.
    Failed,
    /// Undone.
    RolledBack,
}

/// How much a record matters.
#[derive(Clone, Copy, PartialEq, Eq, Structural, Debug)]
pub enum Severity {
    /// To developers.
    Debug,
    /// To whoever looks.
    Info,
    /// Something is off.
    Warn,
    /// Something failed.
    Error,
}

/// Further data of a record.
#[derive(Debug)]
pub enum LogDetails {
    /// None.
    Empty,
    /// Of the call of a program.
    Call {
        /// Exit code.
        exit: Option<i32>,
        /// Whether the time limit ran out.
        timed_out: bool,
    },
}

/// A record of an operation.
#[derive(Debug)]
pub struct LogRecord {
    /// What it is about.
    pub kind: LogKind,
    /// Id of the operation.
    pub operation_id: Option<String>,
    /// Command line.
    pub command: String,
    /// Program that wrote the record.
    pub source: String,
    /// Component.
    pub component: Option<String>,
    /// How much it matters.
    pub severity: Severity,
    /// What happened.
    pub message: String,
    /// Who asked for it.
    pub actor: String,
    /// Whose files it was about.
    pub install_mode: Option<String>,
    /// When it began.
    pub started_at: String,
    /// When it ended.
    pub finished_at: Option<String>,
    /// How it ended.
    pub status: Option<LogStatus>,
    /// Objects that it touched.
    pub objects: Vec<String>,
    /// Backups that it made.
    pub backup_ids: Vec<String>,
    /// Warnings.
    pub warnings: Vec<String>,
    /// Further data.
    pub details: LogDetails,
}

/// What a [`LogRecord`] holds.
pub struct LogView {
    /// What it is about.
    pub kind: LogKind,
    /// Id of the operation.
    pub operation_id: Option<Seq<char>>,
    /// Command line.
    pub command: Seq<char>,
    /// Program that wrote the record.
    pub source: Seq<char>,
    /// Component.
    pub component: Option<Seq<char>>,
    /// How much it matters.
    pub severity: Severity,
    /// What happened.
    pub message: Seq<char>,
    /// Who asked for it.
    pub actor: Seq<char>,
    /// Whose files it was about.
    pub install_mode: Option<Seq<char>>,
    /// When it began.
    pub started_at: Seq<char>,
    /// When it ended.
    pub finished_at: Option<Seq<char>>,
    /// How it ended.
    pub status: Option<LogStatus>,
    /// Objects that it touched.
    pub objects: Seq<Seq<char>>,
    /// Backups that it made.
    pub backup_ids: Seq<Seq<char>>,
    /// Warnings.
    pub warnings: Seq<Seq<char>>,
    /// Further data.
    pub details: LogDetails,
}

impl View for LogRecord {
    type V = LogView;

    open spec fn view(&self) -> LogView {
        LogView {
            kind: self.kind,
            operation_id: opt_text(self.operation_id),
            command: self.command@,
            source: self.source@,
            component: opt_text(self.component),
            severity: self.severity,
            message: self.message@,
            actor: self.actor@,
            install_mode: opt_text(self.install_mode),
            started_at: self.started_at@,
            finished_at: opt_text(self.finished_at),
            status: self.status,
            objects: texts(self.objects@),
            backup_ids: texts(self.backup_ids@),
            warnings: texts(self.warnings@),
            details: self.details,
        }
    }
}

/// How much an operation that ended like this matters.
pub open spec fn severity_of(status: LogStatus) -> Severity {
    match status {
        LogStatus::Done => Severity::Info,
        LogStatus::Partial => Severity::Warn,
        LogStatus::Failed | LogStatus::RolledBack => Severity::Error,
    }
}

/// Who asked for an operation, and whose files it is about.
#[derive(Debug)]
pub struct LogOrigin {
    /// Who asked for it.
    pub actor: String,
    /// Whose files it is about.
    pub mode: InstallMode,
    /// Component.
    pub component: String,
    /// Command line.
    pub command: String,
}

/// The record of an operation on a component that took place at `now`.
pub open spec fn operation_view(
    origin: LogOrigin,
    status: LogStatus,
    severity: Severity,
    message: Seq<char>,
    warnings: Seq<Seq<char>>,
    details: LogDetails,
    now: Seq<char>,
) -> LogView {
    LogView {
        kind: LogKind::Operation,
        operation_id: None,
        command: origin.command@,
        source: "anolisa-cli"@,
        component: Some(origin.component@),
        severity,
        message,
        actor: origin.actor@,
        install_mode: Some(origin.mode.name()),
        started_at: now,
        finished_at: Some(now),
        status: Some(status),
        objects: seq![origin.component@],
        backup_ids: Seq::empty(),
        warnings,
        details,
    }
}

/// The record of an operation on a component that took place at `now`.
pub fn operation_record(
    origin: &LogOrigin,
    status: LogStatus,
    severity: Severity,
    message: String,
    warnings: Vec<String>,
    details: LogDetails,
    now: String,
) -> (r: LogRecord)
    ensures
        r@ == operation_view(
            *origin,
            status,
            severity,
            message@,
            texts(warnings@),
            details,
            now@,
        ),
{
    let mut objects: Vec<String> = Vec::new();
    objects.push(origin.component.clone());
    assert(texts(objects@) =~= seq![origin.component@]);
    let backup_ids: Vec<String> = Vec::new();
    assert(texts(backup_ids@) =~= Seq::empty());
    LogRecord {
        kind: LogKind::Operation,
        operation_id: None,
        command: origin.command.clone(),
        source: own("anolisa-cli"),
        component: Some(origin.component.clone()),
        severity,
        message,
        actor: origin.actor.clone(),
        install_mode: Some(own(origin.mode.as_str())),
        started_at: now.clone(),
        finished_at: Some(now),
        status: Some(status),
        objects,
        backup_ids,
        warnings,
        details,
    }
}

// ---------------------------------------------------------------------------
// Laws
// ---------------------------------------------------------------------------

/// How much an operation matters follows from how it ended.
pub proof fn law_severity_by_status(status: LogStatus)
    ensures
        status is Done ==> severity_of(status) == Severity::Info,
        status is Partial ==> severity_of(status) == Severity::Warn,
        status is Failed ==> severity_of(status) == Severity::Error,
        status is RolledBack ==> severity_of(status) == Severity::Error,
{
}

/// The record of an operation says who did what to which component in which mode,
/// how it ended and when, and hands on what it was given.
pub proof fn law_record_of_an_operation(
    origin: LogOrigin,
    status: LogStatus,
    severity: Severity,
    message: Seq<char>,
    warnings: Seq<Seq<char>>,
    details: LogDetails,
    now: Seq<char>,
)
    ensures
        ({
            let v = operation_view(origin, status, severity, message, warnings, details, now);
            &&& v.kind is Operation
            &&& v.operation_id is None
            &&& v.command == origin.command@
            &&& v.source == "anolisa-cli"@
            &&& v.component == Some(origin.component@)
            &&& v.objects == seq![origin.component@]
            &&& v.severity == severity
            &&& v.message == message
            &&& v.actor == origin.actor@
            &&& origin.mode is User ==> v.install_mode == Some("user"@)
            &&& origin.mode is System ==> v.install_mode == Some("system"@)
            &&& v.started_at == now
            &&& v.finished_at == Some(now)
            &&& v.status == Some(status)
            &&& v.backup_ids.len() == 0
            &&& v.warnings == warnings
            &&& v.details == details
        }),
{
}

} // verus!
