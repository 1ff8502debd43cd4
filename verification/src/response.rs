//! Failures that a command reports.

use crate::text::{concat3, own};
use vstd::prelude::*;

verus! {

/// Why a command failed.
#[derive(Debug)]
pub enum CliError {
    /// The command, or the way in which it was asked for, does not exist yet.
    NotImplemented {
        /// Command line.
        command: String,
        /// What to do instead.
        hint: Option<String>,
    },
    /// The request is at fault.
    InvalidArgument {
        /// Command line.
        command: String,
        /// What is wrong with it.
        reason: String,
    },
    /// Carrying the request out failed.
    Runtime {
        /// Command line.
        command: String,
        /// What failed.
        reason: String,
    },
    /// The caller may not do this.
    PermissionDenied {
        /// Command line.
        command: String,
        /// What is missing.
        reason: String,
        /// How to get it.
        hint: Option<String>,
    },
    /// The request was carried out, with warnings.
    Degraded {
        /// Command line.
        command: String,
        /// What was not as it should be.
        reason: String,
    },
}

impl CliError {
    /// Whether this is a request at fault, of this command and for this reason.
    pub open spec fn is_invalid(self, command: Seq<char>, reason: Seq<char>) -> bool {
        self matches CliError::InvalidArgument { command: c, reason: r } && c@ == command && r@
            == reason
    }

    /// Whether this is a failure of this command for this reason.
    pub open spec fn is_runtime(self, command: Seq<char>, reason: Seq<char>) -> bool {
        self matches CliError::Runtime { command: c, reason: r } && c@ == command && r@ == reason
    }

    /// Whether this says that the command does not exist yet.
    pub open spec fn is_not_implemented(self, command: Seq<char>) -> bool {
        self matches CliError::NotImplemented { command: c, hint } && c@ == command && hint is None
    }

    /// A command that does not exist yet.
    pub fn not_implemented(command: String) -> (r: Self)
        ensures
            r.is_not_implemented(command@),
    {
        CliError::NotImplemented { command, hint: None }
    }

    /// A command that does not exist yet, and what to do instead.
    pub fn not_implemented_with_hint(command: String, hint: String) -> (r: Self)
        ensures
            r == (CliError::NotImplemented { command, hint: Some(hint) }),
    {
        CliError::NotImplemented { command, hint: Some(hint) }
    }

    /// A request at fault.
    pub fn invalid(command: &str, reason: String) -> (r: Self)
        ensures
            r.is_invalid(command@, reason@),
    {
        CliError::InvalidArgument { command: own(command), reason }
    }

    /// A failure.
    pub fn runtime(command: &str, reason: String) -> (r: Self)
        ensures
            r.is_runtime(command@, reason@),
    {
        CliError::Runtime { command: own(command), reason }
    }

    /// Stable code of the failure, for machine-readable output.
    pub fn code(&self) -> (r: &'static str)
        ensures
            r@ == match *self {
                CliError::NotImplemented { .. } => "NOT_IMPLEMENTED"@,
                CliError::InvalidArgument { .. } => "INVALID_ARGUMENT"@,
                CliError::Runtime { .. } => "EXECUTION_FAILED"@,
                CliError::PermissionDenied { .. } => "PERMISSION_DENIED"@,
                CliError::Degraded { .. } => "DEGRADED"@,
            },
    {
        match self {
            CliError::NotImplemented { .. } => "NOT_IMPLEMENTED",
            CliError::InvalidArgument { .. } => "INVALID_ARGUMENT",
            CliError::Runtime { .. } => "EXECUTION_FAILED",
            CliError::PermissionDenied { .. } => "PERMISSION_DENIED",
            CliError::Degraded { .. } => "DEGRADED",
        }
    }

    /// What went wrong.
    pub open spec fn reason_text(self) -> Seq<char> {
        match self {
            CliError::NotImplemented { command, hint } => match hint {
                Some(h) => h@,
                None => "command '"@ + command@ + "' is not implemented yet"@,
            },
            CliError::InvalidArgument { reason, .. } => reason@,
            CliError::Runtime { reason, .. } => reason@,
            CliError::PermissionDenied { reason, .. } => reason@,
            CliError::Degraded { reason, .. } => reason@,
        }
    }

    /// What went wrong, in words.
    pub fn reason(&self) -> (r: String)
        ensures
            r@ == self.reason_text(),
    {
        match self {
            CliError::NotImplemented { command, hint } => match hint {
                Some(h) => h.clone(),
                None => concat3("command '", command.as_str(), "' is not implemented yet"),
            },
            CliError::InvalidArgument { reason, .. } => reason.clone(),
            CliError::Runtime { reason, .. } => reason.clone(),
            CliError::PermissionDenied { reason, .. } => reason.clone(),
            CliError::Degraded { reason, .. } => reason.clone(),
        }
    }
}

// ---------------------------------------------------------------------------
// Laws
// ---------------------------------------------------------------------------

/// What an error says is the reason that it was made with; a command that does not
/// exist yet is named unless there is a hint.
pub proof fn law_errors_say_their_reason(e: CliError, about: Seq<char>, why: Seq<char>)
    ensures
        e.is_invalid(about, why) ==> e is InvalidArgument && e.reason_text() == why
            && e->InvalidArgument_command@ == about,
        e.is_runtime(about, why) ==> e is Runtime && e.reason_text() == why && e->Runtime_command@
            == about,
        e.is_not_implemented(about) ==> e is NotImplemented && e.reason_text() == "command '"@
            + about + "' is not implemented yet"@,
        e is NotImplemented && e->NotImplemented_hint is Some ==> e.reason_text()
            == e->NotImplemented_hint->0@,
        e is PermissionDenied ==> e.reason_text() == e->PermissionDenied_reason@,
        e is Degraded ==> e.reason_text() == e->Degraded_reason@,
{
}

} // verus!
