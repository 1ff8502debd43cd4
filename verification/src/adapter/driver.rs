//! What drivers and the manager exchange.

use crate::text::{copy_list, opt_text, texts};
use vstd::prelude::*;

verus! {

/// The resources of an adapter.
#[derive(Debug)]
pub struct AdapterBundle {
    /// Where they are.
    pub resource_root: String,
    /// Digest of the tree, where it could be read.
    pub digest: Option<String>,
    /// Plugin id in the framework.
    pub plugin_id: Option<String>,
}

/// What enabling an adapter would do.
#[derive(Debug)]
pub struct DriverPlan {
    /// Framework.
    pub framework: String,
    /// Component.
    pub component: String,
    /// The steps, for people.
    pub actions: Vec<String>,
    /// The command that would be run, for people.
    pub register_command: Option<String>,
}

/// A call of a framework's program.
#[derive(Debug)]
pub struct FrameworkCommand {
    /// Program.
    pub program: String,
    /// Arguments.
    pub args: Vec<String>,
    /// Environment variables to set.
    pub env_set: Vec<(String, String)>,
    /// Environment variables to unset.
    pub env_remove: Vec<String>,
    /// Directories to put in front of the search path.
    pub path_prepend: Vec<String>,
    /// Time limit in milliseconds.
    pub timeout_ms: u64,
}

/// What came of a call.
#[derive(Debug)]
pub struct CliOutput {
    /// Exit code; none for a program that was killed.
    pub status: Option<i32>,
    /// Whether the time limit ran out.
    pub timed_out: bool,
    /// Standard output, cut off at the cap.
    pub stdout: String,
    /// Standard error, cut off at the cap.
    pub stderr: String,
}

impl CliOutput {
    /// Whether the program ended by itself with exit code zero.
    pub open spec fn succeeded(self) -> bool {
        !self.timed_out && self.status == Some(0i32)
    }

    /// Whether the program ended by itself with exit code zero.
    pub fn success(&self) -> (r: bool)
        ensures
            r == self.succeeded(),
    {
        match self.status {
            Some(code) => !self.timed_out && code == 0,
            None => false,
        }
    }
}

/// What a condition is about.
#[derive(Clone, Copy, PartialEq, Eq, Structural, Debug)]
pub enum AdapterConditionKind {
    /// The framework is there.
    FrameworkDetected,
    /// The resources are those that the adapter was enabled with.
    ResourceBundleMatches,
    /// The plugin is registered.
    PluginRegistered,
    /// The registration can be looked up.
    VerificationSupported,
}

/// Whether a condition holds.
#[derive(Clone, Copy, PartialEq, Eq, Structural, Debug)]
pub enum ConditionStatus {
    /// It does.
    True,
    /// It does not.
    False,
    /// Nobody can tell.
    Unknown,
}

/// Overall state of an adapter.
#[derive(Clone, Copy, PartialEq, Eq, Structural, Debug)]
pub enum AdapterSummary {
    /// In order.
    Healthy,
    /// Not in order.
    Degraded,
    /// Nobody can tell.
    Unknown,
    /// Left behind by a cleanup that failed.
    CleanupFailed,
}

/// A resource of a receipt that a condition speaks of.
#[derive(Debug)]
pub struct ClaimResourceRef {
    /// Id of the resource.
    pub id: String,
}

/// One condition of an adapter.
#[derive(Debug)]
pub struct AdapterCondition {
    /// What it is about.
    pub kind: AdapterConditionKind,
    /// Whether it holds.
    pub status: ConditionStatus,
    /// Why.
    pub reason: Option<String>,
    /// Resource that it speaks of.
    pub resource: Option<ClaimResourceRef>,
}

/// What an [`AdapterCondition`] holds.
pub struct ConditionView {
    /// What it is about.
    pub kind: AdapterConditionKind,
    /// Whether it holds.
    pub status: ConditionStatus,
    /// Why.
    pub reason: Option<Seq<char>>,
    /// Id of the resource that it speaks of.
    pub resource: Option<Seq<char>>,
}

impl View for AdapterCondition {
    type V = ConditionView;

    open spec fn view(&self) -> ConditionView {
        ConditionView {
            kind: self.kind,
            status: self.status,
            reason: opt_text(self.reason),
            resource: match self.resource {
                Some(r) => Some(r.id@),
                None => None,
            },
        }
    }
}

/// State of an adapter.
#[derive(Debug)]
pub struct AdapterStatusReport {
    /// Overall.
    pub summary: AdapterSummary,
    /// In detail.
    pub conditions: Vec<AdapterCondition>,
}

/// What an [`AdapterStatusReport`] holds.
pub struct StatusReportView {
    /// Overall.
    pub summary: AdapterSummary,
    /// In detail.
    pub conditions: Seq<ConditionView>,
}

impl View for AdapterStatusReport {
    type V = StatusReportView;

    open spec fn view(&self) -> StatusReportView {
        StatusReportView {
            summary: self.summary,
            conditions: self.conditions@.map_values(|c: AdapterCondition| c@),
        }
    }
}

/// What became of disabling an adapter.
#[derive(Debug)]
pub struct DisableReport {
    /// Whether nothing is left to clean up.
    pub cleanup_complete: bool,
    /// What was done, for people.
    pub messages: Vec<String>,
}

/// What a [`DisableReport`] holds.
pub struct DisableReportView {
    /// Whether nothing is left to clean up.
    pub cleanup_complete: bool,
    /// What was done.
    pub messages: Seq<Seq<char>>,
}

impl View for DisableReport {
    type V = DisableReportView;

    open spec fn view(&self) -> DisableReportView {
        DisableReportView {
            cleanup_complete: self.cleanup_complete,
            messages: texts(self.messages@),
        }
    }
}

impl DisableReport {
    /// A report with one message.
    pub fn with_message(cleanup_complete: bool, message: String) -> (r: Self)
        ensures
            r@ == (DisableReportView { cleanup_complete, messages: seq![message@] }),
    {
        let mut messages: Vec<String> = Vec::new();
        messages.push(message);
        assert(texts(messages@) =~= seq![message@]);
        DisableReport { cleanup_complete, messages }
    }
}

impl Clone for DisableReport {
    fn clone(&self) -> (r: Self)
        ensures
            r@ == self@,
    {
        DisableReport {
            cleanup_complete: self.cleanup_complete,
            messages: copy_list(&self.messages),
        }
    }
}

} // verus!
