//! Running the programs of frameworks.
//!
//! A program is started without a shell, its output is drained to the end and
//! kept up to a cap, and it is killed when its time is up. This module decides
//! what to keep, when to stop waiting and what to record; starting and waiting
//! is done elsewhere.

use crate::adapter::driver::{CliOutput, FrameworkCommand};
use crate::adapter::AdapterError;
use crate::central_log::{
    operation_record, operation_view, LogDetails, LogOrigin, LogRecord, LogStatus, Severity,
};
use crate::clock::{like_utc_time, now_iso8601};
use crate::text::{concat2, copy_list, join, joined, texts};
use vstd::prelude::*;

verus! {

/// Cap on the output that is kept of a program, for each of its two streams.
pub const OUTPUT_CAP: usize = 65_536;

/// Milliseconds between two looks at a running program.
pub const POLL_MS: u64 = 20;

// ---------------------------------------------------------------------------
// Output
// ---------------------------------------------------------------------------

/// The part of some output that is kept.
pub open spec fn capped(data: Seq<u8>, cap: nat) -> Seq<u8> {
    if data.len() <= cap {
        data
    } else {
        data.take(cap as int)
    }
}

/// Adds a chunk of output to what is kept so far.
pub fn keep_capped(kept: &mut Vec<u8>, chunk: &[u8], cap: usize)
    requires
        old(kept)@.len() <= cap,
    ensures
        final(kept)@ == capped(old(kept)@ + chunk@, cap as nat),
{
    let ghost before = kept@;
    let mut i: usize = 0;
    assert(kept@ =~= before + chunk@.take(0));
    while i < chunk.len() && kept.len() < cap
        invariant
            i <= chunk@.len(),
            before.len() <= cap,
            kept@.len() <= cap,
            kept@ == before + chunk@.take(i as int),
        decreases chunk.len() - i,
    {
        kept.push(chunk[i]);
        assert(before + chunk@.take(i + 1) =~= (before + chunk@.take(i as int)).push(
            chunk@[i as int],
        ));
        i += 1;
    }
    proof {
        if i == chunk@.len() {
            assert(chunk@.take(i as int) =~= chunk@);
        } else {
            assert(kept@ =~= (before + chunk@).take(cap as int));
        }
    }
}

// ---------------------------------------------------------------------------
// Waiting
// ---------------------------------------------------------------------------

/// What a look at a program found.
#[derive(Debug)]
pub enum Poll {
    /// It has ended, with an exit code unless it was killed.
    Ended(Option<i32>),
    /// It is running.
    Running,
    /// Nobody can tell.
    Failed(String),
}

/// What to do about a program.
#[derive(Debug)]
pub enum WaitStep {
    /// Take its output.
    Collect {
        /// Exit code.
        status: Option<i32>,
        /// Whether the time limit ran out.
        timed_out: bool,
    },
    /// Kill it, then take its output as that of a program whose time was up.
    Kill,
    /// Look again after [`POLL_MS`] milliseconds.
    Wait,
    /// Give up.
    Fail(AdapterError),
}

/// Says what to do about a program that was started `elapsed_ms` ago.
pub fn wait_step(poll: Poll, elapsed_ms: u64, cmd: &FrameworkCommand) -> (r: WaitStep)
    ensures
        match poll {
            Poll::Ended(status) => r == (WaitStep::Collect { status, timed_out: false }),
            Poll::Running => if elapsed_ms >= cmd.timeout_ms {
                r == WaitStep::Kill
            } else {
                r == WaitStep::Wait
            },
            Poll::Failed(e) => r matches WaitStep::Fail(err) && err.is_cli(
                cmd.program@,
                "failed to wait: "@ + e@,
            ),
        },
{
    match poll {
        Poll::Ended(status) => WaitStep::Collect { status, timed_out: false },
        Poll::Running => {
            if elapsed_ms >= cmd.timeout_ms {
                WaitStep::Kill
            } else {
                WaitStep::Wait
            }
        },
        Poll::Failed(e) => WaitStep::Fail(
            AdapterError::FrameworkCli {
                program: cmd.program.clone(),
                reason: concat2("failed to wait: ", e.as_str()),
            },
        ),
    }
}

/// A program that could not be started.
pub fn spawn_failed(cmd: &FrameworkCommand, why: &str) -> (r: AdapterError)
    ensures
        r.is_cli(cmd.program@, "failed to spawn: "@ + why@),
{
    AdapterError::FrameworkCli {
        program: cmd.program.clone(),
        reason: concat2("failed to spawn: ", why),
    }
}

/// What came of a program that was killed because its time was up.
pub fn killed_output(stdout: String, stderr: String) -> (r: CliOutput)
    ensures
        r == (CliOutput { status: None, timed_out: true, stdout, stderr }),
        !r.succeeded(),
{
    CliOutput { status: None, timed_out: true, stdout, stderr }
}

/// The search path of a program: the directories of its command, then those of
/// the search path that there is.
pub fn prepend_path(prepend: &Vec<String>, existing: &Option<Vec<String>>) -> (r: Vec<String>)
    ensures
        texts(r@) == texts(prepend@) + match *existing {
            Some(dirs) => texts(dirs@),
            None => Seq::empty(),
        },
{
    let mut parts = copy_list(prepend);
    if let Some(dirs) = existing {
        let mut more = copy_list(dirs);
        parts.append(&mut more);
    }
    assert(texts(parts@) =~= texts(prepend@) + match *existing {
        Some(dirs) => texts(dirs@),
        None => Seq::empty(),
    });
    parts
}

// ---------------------------------------------------------------------------
// Records
// ---------------------------------------------------------------------------

/// A command as a record shows it.
pub open spec fn shown_argv(cmd: FrameworkCommand) -> Seq<char> {
    join(seq![cmd.program@] + texts(cmd.args@), " "@)
}

/// The record of a call that took place at `now`.
pub open spec fn call_view(
    origin: LogOrigin,
    cmd: FrameworkCommand,
    output: CliOutput,
    now: Seq<char>,
) -> crate::central_log::LogView {
    operation_view(
        origin,
        if output.succeeded() {
            LogStatus::Done
        } else {
            LogStatus::Failed
        },
        if output.succeeded() {
            Severity::Debug
        } else {
            Severity::Warn
        },
        "framework cli: "@ + shown_argv(cmd),
        Seq::empty(),
        LogDetails::Call { exit: output.status, timed_out: output.timed_out },
        now,
    )
}

/// The record of a call that took place at `now`.
pub fn call_record_at(origin: &LogOrigin, cmd: &FrameworkCommand, output: &CliOutput, now: String)
    -> (r: LogRecord)
    ensures
        r@ == call_view(*origin, *cmd, *output, now@),
{
    let ok = output.success();
    let mut argv: Vec<String> = Vec::new();
    argv.push(cmd.program.clone());
    let mut args = copy_list(&cmd.args);
    argv.append(&mut args);
    assert(texts(argv@) =~= seq![cmd.program@] + texts(cmd.args@));
    let message = concat2("framework cli: ", joined(&argv, " ").as_str());
    let warnings: Vec<String> = Vec::new();
    assert(texts(warnings@) =~= Seq::empty());
    operation_record(
        origin,
        if ok {
            LogStatus::Done
        } else {
            LogStatus::Failed
        },
        if ok {
            Severity::Debug
        } else {
            Severity::Warn
        },
        message,
        warnings,
        LogDetails::Call { exit: output.status, timed_out: output.timed_out },
        now,
    )
}

/// The record of a call that took place now.
pub fn call_record(origin: &LogOrigin, cmd: &FrameworkCommand, output: &CliOutput) -> (r: LogRecord)
    ensures
        r@ == call_view(*origin, *cmd, *output, r.started_at@),
        like_utc_time(r.started_at@),
{
    call_record_at(origin, cmd, output, now_iso8601())
}

// ---------------------------------------------------------------------------
// Laws
// ---------------------------------------------------------------------------

/// However output is cut into chunks, what is kept of it is its beginning.
pub proof fn law_capping_by_chunks(a: Seq<u8>, b: Seq<u8>, cap: nat)
    ensures
        capped(capped(a, cap) + b, cap) == capped(a + b, cap),
        capped(a, cap).len() <= cap,
        capped(a, cap).is_prefix_of(a),
{
    assert(capped(a, cap) =~= a.subrange(0, capped(a, cap).len() as int));
    if a.len() > cap {
        assert((a.take(cap as int) + b).take(cap as int) =~= (a + b).take(cap as int));
        if b.len() == 0 {
            assert(a.take(cap as int) + b =~= a.take(cap as int));
        }
    }
}

} // verus!
