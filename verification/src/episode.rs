//! Episodes in the log of a session.
//!
//! An episode is a chain of tool calls that tells what was tried, what happened
//! and how it ended. Four patterns are looked for in the log: an edit that is
//! searched for, read, made and read back; a note that is read, drafted and
//! promoted; an error that a later call makes good; and any run of calls that is
//! long enough.

pub mod laws;

use crate::clock::{
    like_ulid, like_utc_instant, new_ulid, now_rfc3339, rfc3339_seconds, seconds_between,
};
use crate::lists::lemma_map_multiset;
use crate::sort::{is_sorted, peers, same_rank, sort, Rank, Ranked};
use crate::text::{
    chars_of, concat2, concat3, contains_char, decimal, join, joined, number, own, same,
    starts_with, texts,
};
use vstd::prelude::*;

verus! {

// ---------------------------------------------------------------------------
// Records
// ---------------------------------------------------------------------------

/// One tool call as the log of a session records it.
#[derive(Debug, Clone)]
pub struct OwnedAuditEntry {
    pub ts: String,
    pub tool: String,
    pub path: String,
    pub ok: bool,
    pub bytes: Option<u64>,
    pub error: Option<String>,
    pub trace_id: Option<String>,
}

/// A single step within an episode.
#[derive(Debug, Clone)]
pub struct EpisodeStep {
    pub step: usize,
    pub tool: String,
    /// Brief description of the input (query, path, etc.).
    pub input: String,
    /// Brief description of the result.
    pub result: String,
}

/// Outcome of an episode.
#[derive(Debug, Clone, Copy, PartialEq, Eq, Structural)]
pub enum EpisodeOutcome {
    Success,
    Partial,
    Failed,
    Promoted,
    Recovered,
}

/// A complete episode: a coherent task sequence from the session log.
#[derive(Debug, Clone)]
pub struct Episode {
    pub id: String,
    pub session_id: String,
    /// What triggered this episode (first tool call description).
    pub trigger: String,
    pub chain: Vec<EpisodeStep>,
    pub outcome: EpisodeOutcome,
    /// Duration in seconds from first to last step.
    pub duration_secs: u64,
    pub error_count: usize,
    pub created_at: String,
}

/// The kind of memory that a fact belongs to.
#[derive(Debug, Clone, Copy, PartialEq, Eq, Structural)]
pub enum FactCategory {
    Episodic,
}

/// What an episode contributes to long-term memory.
#[derive(Debug, Clone)]
pub struct ConsolidatedFact {
    pub session_id: String,
    pub category: FactCategory,
    pub title: String,
    pub content: String,
    /// Which extractor the fact comes from.
    pub source: String,
    /// Paths that the fact speaks of.
    pub paths: Vec<String>,
    /// Confidence in tenths.
    pub confidence_tenths: u8,
}

/// What a step says.
#[verifier::ext_equal]
pub struct StepView {
    pub step: nat,
    pub tool: Seq<char>,
    pub input: Seq<char>,
    pub result: Seq<char>,
}

/// What an episode says, apart from its identifier and the time it was made.
#[verifier::ext_equal]
pub struct EpisodeView {
    pub session_id: Seq<char>,
    pub trigger: Seq<char>,
    pub chain: Seq<StepView>,
    pub outcome: EpisodeOutcome,
    pub duration_secs: u64,
    pub error_count: nat,
}

/// What a fact says.
#[verifier::ext_equal]
pub struct FactView {
    pub session_id: Seq<char>,
    pub category: FactCategory,
    pub title: Seq<char>,
    pub content: Seq<char>,
    pub source: Seq<char>,
    pub paths: Seq<Seq<char>>,
    pub confidence_tenths: u8,
}

impl View for EpisodeStep {
    type V = StepView;

    open spec fn view(&self) -> StepView {
        StepView {
            step: self.step as nat,
            tool: self.tool@,
            input: self.input@,
            result: self.result@,
        }
    }
}

/// What each step of a chain says.
pub open spec fn steps(chain: Seq<EpisodeStep>) -> Seq<StepView> {
    chain.map_values(|s: EpisodeStep| s@)
}

impl View for Episode {
    type V = EpisodeView;

    open spec fn view(&self) -> EpisodeView {
        EpisodeView {
            session_id: self.session_id@,
            trigger: self.trigger@,
            chain: steps(self.chain@),
            outcome: self.outcome,
            duration_secs: self.duration_secs,
            error_count: self.error_count as nat,
        }
    }
}

impl View for ConsolidatedFact {
    type V = FactView;

    open spec fn view(&self) -> FactView {
        FactView {
            session_id: self.session_id@,
            category: self.category,
            title: self.title@,
            content: self.content@,
            source: self.source@,
            paths: texts(self.paths@),
            confidence_tenths: self.confidence_tenths,
        }
    }
}

/// What each episode of a list says.
pub open spec fn contents(list: Seq<Episode>) -> Seq<EpisodeView> {
    list.map_values(|e: Episode| e@)
}

/// Whether an episode carries an identifier and a time of making.
pub open spec fn is_stamped(e: Episode) -> bool {
    &&& like_ulid(e.id@)
    &&& exists|years: int| #[trigger] like_utc_instant(e.created_at@, years)
}

/// Whether all episodes of a list carry an identifier and a time of making.
pub open spec fn all_stamped(list: Seq<Episode>) -> bool {
    forall|i: int| 0 <= i < list.len() ==> is_stamped(#[trigger] list[i])
}

// ---------------------------------------------------------------------------
// Outcomes
// ---------------------------------------------------------------------------

impl EpisodeOutcome {
    /// The word for an outcome.
    pub open spec fn word(self) -> Seq<char> {
        match self {
            EpisodeOutcome::Success => "success"@,
            EpisodeOutcome::Partial => "partial"@,
            EpisodeOutcome::Failed => "failed"@,
            EpisodeOutcome::Promoted => "promoted"@,
            EpisodeOutcome::Recovered => "recovered"@,
        }
    }

    /// How sure an episode with this outcome makes, in tenths.
    pub open spec fn tenths(self) -> u8 {
        match self {
            EpisodeOutcome::Success | EpisodeOutcome::Promoted | EpisodeOutcome::Recovered => 9,
            EpisodeOutcome::Partial => 7,
            EpisodeOutcome::Failed => 5,
        }
    }

    /// The word for this outcome.
    pub fn as_str(&self) -> (r: &'static str)
        ensures
            r@ == self.word(),
    {
        match self {
            EpisodeOutcome::Success => "success",
            EpisodeOutcome::Partial => "partial",
            EpisodeOutcome::Failed => "failed",
            EpisodeOutcome::Promoted => "promoted",
            EpisodeOutcome::Recovered => "recovered",
        }
    }
}

// ---------------------------------------------------------------------------
// Rendering
// ---------------------------------------------------------------------------

/// `c`, or a blank in place of an ASCII control character.
pub open spec fn printable(c: char) -> char {
    if c <= '\u{1f}' || c == '\u{7f}' {
        ' '
    } else {
        c
    }
}

/// `s` with a blank for each ASCII control character.
pub open spec fn sanitized(s: Seq<char>) -> Seq<char> {
    s.map_values(|c: char| printable(c))
}

/// A step as a section of markdown.
pub open spec fn step_section(s: StepView) -> Seq<char> {
    let head = "## Step "@ + decimal(s.step) + ": "@ + s.tool + "\n"@;
    let input = if s.input.len() > 0 {
        head + "- Input: `"@ + s.input + "`\n"@
    } else {
        head
    };
    let result = if s.result.len() > 0 {
        input + "- Result: "@ + s.result + "\n"@
    } else {
        input
    };
    result.push('\n')
}

/// The sections of a chain, one after the other.
pub open spec fn step_sections(chain: Seq<StepView>) -> Seq<char>
    decreases chain.len(),
{
    if chain.len() == 0 {
        Seq::<char>::empty()
    } else {
        step_sections(chain.drop_last()) + step_section(chain.last())
    }
}

/// One line of the front matter.
pub open spec fn front_line(key: Seq<char>, value: Seq<char>) -> Seq<char> {
    key + ": "@ + value + "\n"@
}

/// The front matter of an episode.
pub open spec fn front_matter(id: Seq<char>, created_at: Seq<char>, e: EpisodeView) -> Seq<char> {
    "---\n"@ + front_line("id"@, id) + front_line("session_id"@, e.session_id) + front_line(
        "trigger"@,
        sanitized(e.trigger),
    ) + front_line("outcome"@, e.outcome.word()) + front_line(
        "error_count"@,
        decimal(e.error_count),
    ) + front_line("duration_secs"@, decimal(e.duration_secs as nat)) + front_line(
        "created_at"@,
        created_at,
    ) + "---\n\n"@
}

/// One line for each step: what was called and what came of it.
pub open spec fn outcome_lines(chain: Seq<StepView>) -> Seq<Seq<char>> {
    chain.map_values(
        |s: StepView| "Step "@ + decimal(s.step) + ": "@ + s.tool + " → "@ + s.result,
    )
}

/// For each step what was called and on what.
pub open spec fn call_texts(chain: Seq<StepView>) -> Seq<Seq<char>> {
    chain.map_values(|s: StepView| s.tool + ": "@ + s.input)
}

/// The inputs of a chain that look like paths.
pub open spec fn path_inputs(chain: Seq<StepView>) -> Seq<Seq<char>>
    decreases chain.len(),
{
    if chain.len() == 0 {
        Seq::<Seq<char>>::empty()
    } else if chain.last().input.contains('/') {
        path_inputs(chain.drop_last()).push(chain.last().input)
    } else {
        path_inputs(chain.drop_last())
    }
}

/// The fact that an episode amounts to.
pub open spec fn fact_of(e: EpisodeView) -> FactView {
    FactView {
        session_id: e.session_id,
        category: FactCategory::Episodic,
        title: "情景: "@ + e.trigger,
        content: "Episode ("@ + decimal(e.chain.len()) + " steps, "@ + e.outcome.word() + "): "@
            + e.trigger + "\n\n"@ + join(outcome_lines(e.chain), "\n"@) + "\n\nChain: "@ + join(
            call_texts(e.chain),
            " → "@,
        ),
        source: "episodic"@,
        paths: path_inputs(e.chain),
        confidence_tenths: e.outcome.tenths(),
    }
}

fn push_line(out: &mut String, key: &str, value: &str)
    ensures
        final(out)@ == old(out)@ + front_line(key@, value@),
{
    let ghost before = out@;
    out.append(key);
    out.append(": ");
    out.append(value);
    out.append("\n");
    assert(out@ =~= before + front_line(key@, value@));
}

fn push_section(out: &mut String, step: &EpisodeStep)
    ensures
        final(out)@ == old(out)@ + step_section(step@),
{
    let ghost before = out@;
    out.append("## Step ");
    out.append(number(step.step as u64).as_str());
    out.append(": ");
    out.append(step.tool.as_str());
    out.append("\n");
    if !step.input.as_str().is_empty() {
        out.append("- Input: `");
        out.append(step.input.as_str());
        out.append("`\n");
    }
    if !step.result.as_str().is_empty() {
        out.append("- Result: ");
        out.append(step.result.as_str());
        out.append("\n");
    }
    out.push('\n');
    assert(out@ =~= before + step_section(step@));
}

impl Episode {
    /// An episode with a fresh identifier, made now.
    pub fn new(
        session_id: &str,
        trigger: String,
        chain: Vec<EpisodeStep>,
        outcome: EpisodeOutcome,
        error_count: usize,
        duration_secs: u64,
    ) -> (r: Self)
        ensures
            is_stamped(r),
            r.session_id@ == session_id@,
            r.trigger == trigger,
            r.chain == chain,
            r.outcome == outcome,
            r.error_count == error_count,
            r.duration_secs == duration_secs,
    {
        let id = new_ulid();
        let now = now_rfc3339();
        Self::stamped(id, now, session_id, trigger, chain, outcome, error_count, duration_secs)
    }

    /// An episode with a given identifier and time of making.
    pub fn stamped(
        id: String,
        now: String,
        session_id: &str,
        trigger: String,
        chain: Vec<EpisodeStep>,
        outcome: EpisodeOutcome,
        error_count: usize,
        duration_secs: u64,
    ) -> (r: Self)
        ensures
            r.id == id,
            r.created_at == now,
            r.session_id@ == session_id@,
            r.trigger == trigger,
            r.chain == chain,
            r.outcome == outcome,
            r.error_count == error_count,
            r.duration_secs == duration_secs,
    {
        Self {
            id,
            session_id: own(session_id),
            trigger,
            chain,
            outcome,
            duration_secs,
            error_count,
            created_at: now,
        }
    }

    /// Serialize as markdown with YAML frontmatter.
    pub fn to_markdown(&self) -> (r: String)
        ensures
            r@ == front_matter(self.id@, self.created_at@, self@) + step_sections(self@.chain),
    {
        let mut out = own("---\n");
        push_line(&mut out, "id", self.id.as_str());
        push_line(&mut out, "session_id", self.session_id.as_str());
        push_line(&mut out, "trigger", Self::sanitize(self.trigger.as_str()).as_str());
        push_line(&mut out, "outcome", self.outcome.as_str());
        push_line(&mut out, "error_count", number(self.error_count as u64).as_str());
        push_line(&mut out, "duration_secs", number(self.duration_secs).as_str());
        push_line(&mut out, "created_at", self.created_at.as_str());
        out.append("---\n\n");
        let ghost head = front_matter(self.id@, self.created_at@, self@);
        let ghost all = self@.chain;
        assert(out@ =~= head + step_sections(all.take(0)));
        let mut i: usize = 0;
        while i < self.chain.len()
            invariant
                i <= self.chain@.len(),
                all == steps(self.chain@),
                out@ == head + step_sections(all.take(i as int)),
            decreases self.chain.len() - i,
        {
            let ghost before = out@;
            push_section(&mut out, &self.chain[i]);
            assert(all.take(i + 1).drop_last() =~= all.take(i as int));
            assert(all.take(i + 1).last() == self.chain@[i as int]@);
            assert(out@ =~= head + step_sections(all.take(i + 1)));
            i += 1;
        }
        assert(all.take(all.len() as int) =~= all);
        out
    }

    /// Convert to a fact for integration with consolidation.
    pub fn to_fact(&self) -> (r: ConsolidatedFact)
        ensures
            r@ == fact_of(self@),
    {
        let ghost all = self@.chain;
        let mut calls: Vec<String> = Vec::new();
        let mut lines: Vec<String> = Vec::new();
        let mut paths: Vec<String> = Vec::new();
        let mut i: usize = 0;
        while i < self.chain.len()
            invariant
                i <= self.chain@.len(),
                all == steps(self.chain@),
                texts(calls@) == call_texts(all.take(i as int)),
                texts(lines@) == outcome_lines(all.take(i as int)),
                texts(paths@) == path_inputs(all.take(i as int)),
            decreases self.chain.len() - i,
        {
            let s = &self.chain[i];
            let ghost before = (calls@, lines@, paths@);
            assert(all.take(i + 1).drop_last() =~= all.take(i as int));
            assert(all[i as int] == s@);
            calls.push(concat3(s.tool.as_str(), ": ", s.input.as_str()));
            let mut line = concat3("Step ", number(s.step as u64).as_str(), ": ");
            line.append(s.tool.as_str());
            line.append(" → ");
            line.append(s.result.as_str());
            lines.push(line);
            if contains_char(s.input.as_str(), '/') {
                paths.push(s.input.clone());
                assert(texts(paths@) =~= texts(before.2).push(s.input@));
            }
            assert(texts(calls@) =~= texts(before.0).push(calls@.last()@));
            assert(texts(lines@) =~= texts(before.1).push(lines@.last()@));
            assert(call_texts(all.take(i + 1)) =~= call_texts(all.take(i as int)).push(
                calls@.last()@,
            ));
            assert(outcome_lines(all.take(i + 1)) =~= outcome_lines(all.take(i as int)).push(
                lines@.last()@,
            ));
            i += 1;
        }
        assert(all.take(all.len() as int) =~= all);
        let mut content = concat3("Episode (", number(self.chain.len() as u64).as_str(), " steps, ");
        content.append(self.outcome.as_str());
        content.append("): ");
        content.append(self.trigger.as_str());
        content.append("\n\n");
        content.append(joined(&lines, "\n").as_str());
        content.append("\n\nChain: ");
        content.append(joined(&calls, " → ").as_str());
        let confidence_tenths: u8 = match self.outcome {
            EpisodeOutcome::Success => 9,
            EpisodeOutcome::Promoted => 9,
            EpisodeOutcome::Recovered => 9,
            EpisodeOutcome::Partial => 7,
            EpisodeOutcome::Failed => 5,
        };
        ConsolidatedFact {
            session_id: self.session_id.clone(),
            category: FactCategory::Episodic,
            title: concat2("情景: ", self.trigger.as_str()),
            content,
            source: own("episodic"),
            paths,
            confidence_tenths,
        }
    }

    /// Sanitize a value for safe frontmatter inclusion: newlines and other ASCII
    /// control characters become blanks. There is no quoting and no escaping;
    /// readers of the front matter interpret neither.
    pub fn sanitize(s: &str) -> (r: String)
        ensures
            r@ == sanitized(s@),
    {
        let cs = chars_of(s);
        let mut out = String::new();
        let mut i: usize = 0;
        while i < cs.len()
            invariant
                i <= cs@.len(),
                cs@ == s@,
                out@ == sanitized(s@.take(i as int)),
            decreases cs.len() - i,
        {
            let c = cs[i];
            if c <= '\u{1f}' || c == '\u{7f}' {
                out.push(' ');
            } else {
                out.push(c);
            }
            assert(out@ =~= sanitized(s@.take(i + 1)));
            i += 1;
        }
        assert(s@.take(s@.len() as int) =~= s@);
        out
    }
}

// ---------------------------------------------------------------------------
// Steps
// ---------------------------------------------------------------------------

/// What came of a call, in a word.
pub open spec fn result_text(e: OwnedAuditEntry) -> Seq<char> {
    if e.ok {
        match e.bytes {
            Some(n) => decimal(n as nat) + " bytes"@,
            None => "ok"@,
        }
    } else {
        match e.error {
            Some(text) => text@,
            None => "failed"@,
        }
    }
}

/// A call as a step of an episode.
pub open spec fn step_of(step: nat, e: OwnedAuditEntry) -> StepView {
    StepView { step, tool: e.tool@, input: e.path@, result: result_text(e) }
}

/// How many of the calls failed.
pub open spec fn failures(calls: Seq<OwnedAuditEntry>) -> nat
    decreases calls.len(),
{
    if calls.len() == 0 {
        0
    } else {
        failures(calls.drop_last()) + if calls.last().ok {
            0nat
        } else {
            1nat
        }
    }
}

/// Seconds as a duration: nothing where there are none, or fewer than none.
pub open spec fn at_least_zero(seconds: Option<i64>) -> u64 {
    match seconds {
        Some(n) if n > 0 => n as u64,
        _ => 0,
    }
}

/// Seconds from one time to another.
pub open spec fn elapsed(before: Seq<char>, after: Seq<char>) -> u64 {
    at_least_zero(rfc3339_seconds(before, after))
}

/// Seconds as a duration: nothing where there are none, or fewer than none.
pub fn duration_of(seconds: Option<i64>) -> (r: u64)
    ensures
        r == at_least_zero(seconds),
{
    match seconds {
        Some(n) => if n > 0 {
            n as u64
        } else {
            0
        },
        None => 0,
    }
}

/// Calculate the duration in seconds between two RFC3339 timestamp strings.
/// Returns 0 on parse failure (best-effort).
pub fn duration_between(before: &str, after: &str) -> (r: u64)
    ensures
        r == elapsed(before@, after@),
{
    duration_of(seconds_between(before, after))
}

/// A call as a step of an episode.
pub fn make_step(step: usize, entry: &OwnedAuditEntry) -> (r: EpisodeStep)
    ensures
        r@ == step_of(step as nat, *entry),
{
    let result = if entry.ok {
        match entry.bytes {
            Some(bytes) => concat2(number(bytes).as_str(), " bytes"),
            None => own("ok"),
        }
    } else {
        match &entry.error {
            Some(text) => text.clone(),
            None => own("failed"),
        }
    };
    EpisodeStep { step, tool: entry.tool.clone(), input: entry.path.clone(), result }
}

/// How many of the calls from `from` up to `to` failed.
fn count_failures(entries: &[OwnedAuditEntry], from: usize, to: usize) -> (r: usize)
    requires
        from <= to <= entries@.len(),
    ensures
        r == failures(entries@.subrange(from as int, to as int)),
        r <= to - from,
{
    let mut n: usize = 0;
    let mut i: usize = from;
    assert(entries@.subrange(from as int, from as int) =~= Seq::<OwnedAuditEntry>::empty());
    while i < to
        invariant
            from <= i <= to <= entries@.len(),
            n == failures(entries@.subrange(from as int, i as int)),
            n <= i - from,
        decreases to - i,
    {
        assert(entries@.subrange(from as int, i + 1).drop_last() =~= entries@.subrange(
            from as int,
            i as int,
        ));
        if !entries[i].ok {
            n += 1;
        }
        i += 1;
    }
    n
}

/// Whether a call reads.
pub open spec fn reads(e: OwnedAuditEntry) -> bool {
    e.tool@ == "mem_read"@
}

fn is_read(e: &OwnedAuditEntry) -> (r: bool)
    ensures
        r == reads(*e),
{
    same(e.tool.as_str(), "mem_read")
}

// ---------------------------------------------------------------------------
// Edit and verify
// ---------------------------------------------------------------------------

/// Whether a search, a read, an edit and a read stand at `i`.
pub open spec fn is_edit_cycle(log: Seq<OwnedAuditEntry>, i: int) -> bool {
    &&& 0 <= i && i + 3 < log.len()
    &&& log[i].tool@ == "memory_search"@ || log[i].tool@ == "mem_grep"@
    &&& reads(log[i + 1])
    &&& log[i + 2].tool@ == "mem_edit"@
    &&& reads(log[i + 3])
}

/// The episode of a search, a read, an edit and a read that stand at `i`.
pub open spec fn edit_cycle(
    log: Seq<OwnedAuditEntry>,
    session_id: Seq<char>,
    i: int,
) -> EpisodeView {
    EpisodeView {
        session_id,
        trigger: log[i].tool@ + " "@ + log[i].path@,
        chain: seq![
            step_of(1, log[i]),
            step_of(2, log[i + 1]),
            step_of(3, log[i + 2]),
            step_of(4, log[i + 3]),
        ],
        outcome: if log[i + 3].ok {
            EpisodeOutcome::Success
        } else {
            EpisodeOutcome::Partial
        },
        duration_secs: elapsed(log[i].ts@, log[i + 3].ts@),
        error_count: failures(log.subrange(i, i + 4)),
    }
}

/// The edit cycles from `i` on; none begins within another.
pub open spec fn edit_cycles(
    log: Seq<OwnedAuditEntry>,
    session_id: Seq<char>,
    i: int,
) -> Seq<EpisodeView>
    decreases log.len() - i,
{
    if i + 3 >= log.len() {
        Seq::<EpisodeView>::empty()
    } else if is_edit_cycle(log, i) {
        seq![edit_cycle(log, session_id, i)] + edit_cycles(log, session_id, i + 4)
    } else {
        edit_cycles(log, session_id, i + 1)
    }
}

/// Find each search that is followed by a read, an edit and a read.
pub fn extract_edit_cycle(entries: &[OwnedAuditEntry], session_id: &str) -> (r: Vec<Episode>)
    ensures
        contents(r@) == edit_cycles(entries@, session_id@, 0),
        all_stamped(r@),
{
    let ghost log = entries@;
    let total: usize = entries.len();
    let mut episodes: Vec<Episode> = Vec::new();
    let mut i: usize = 0;
    assert(contents(episodes@) =~= Seq::<EpisodeView>::empty());
    while i < total && total - i > 3
        invariant
            log == entries@,
            total == log.len(),
            i <= total,
            contents(episodes@) + edit_cycles(log, session_id@, i as int) == edit_cycles(
                log,
                session_id@,
                0,
            ),
            all_stamped(episodes@),
        decreases total - i,
    {
        let is_search = same(entries[i].tool.as_str(), "memory_search") || same(
            entries[i].tool.as_str(),
            "mem_grep",
        );
        if !is_search || !is_read(&entries[i + 1]) || !same(
            entries[i + 2].tool.as_str(),
            "mem_edit",
        ) || !is_read(&entries[i + 3]) {
            i += 1;
            continue;
        }
        let ghost before = episodes@;
        let mut chain: Vec<EpisodeStep> = Vec::new();
        chain.push(make_step(1, &entries[i]));
        chain.push(make_step(2, &entries[i + 1]));
        chain.push(make_step(3, &entries[i + 2]));
        chain.push(make_step(4, &entries[i + 3]));
        let outcome = if entries[i + 3].ok {
            EpisodeOutcome::Success
        } else {
            EpisodeOutcome::Partial
        };
        let error_count = count_failures(entries, i, i + 4);
        let trigger = concat3(entries[i].tool.as_str(), " ", entries[i].path.as_str());
        let duration = duration_between(entries[i].ts.as_str(), entries[i + 3].ts.as_str());
        let episode = Episode::new(session_id, trigger, chain, outcome, error_count, duration);
        assert(episode@ =~= edit_cycle(log, session_id@, i as int));
        episodes.push(episode);
        assert(contents(episodes@) =~= contents(before).push(edit_cycle(log, session_id@, i as int)));
        assert(contents(episodes@) + edit_cycles(log, session_id@, i + 4) =~= contents(before) + (
        seq![edit_cycle(log, session_id@, i as int)] + edit_cycles(log, session_id@, i + 4)));
        i += 4;
    }
    assert(contents(episodes@) + Seq::<EpisodeView>::empty() =~= contents(episodes@));
    episodes
}

// ---------------------------------------------------------------------------
// Promotion
// ---------------------------------------------------------------------------

/// Whether a call writes a draft.
pub open spec fn drafts(e: OwnedAuditEntry) -> bool {
    e.tool@ == "mem_write"@ && "scratch/"@.is_prefix_of(e.path@)
}

/// The last draft before `n`.
pub open spec fn last_draft(log: Seq<OwnedAuditEntry>, n: int) -> Option<int>
    decreases n,
{
    if n <= 0 {
        None
    } else if drafts(log[n - 1]) {
        Some(n - 1)
    } else {
        last_draft(log, n - 1)
    }
}

/// The last read before `n`.
pub open spec fn last_read(log: Seq<OwnedAuditEntry>, n: int) -> Option<int>
    decreases n,
{
    if n <= 0 {
        None
    } else if reads(log[n - 1]) {
        Some(n - 1)
    } else {
        last_read(log, n - 1)
    }
}

/// The last draft before `i`, and the last read before that draft.
pub open spec fn lead_up(log: Seq<OwnedAuditEntry>, i: int) -> Option<(int, int)> {
    match last_draft(log, i) {
        Some(w) => match last_read(log, w) {
            Some(r) => Some((r, w)),
            None => None,
        },
        None => None,
    }
}

/// The episode of the read at `r`, the draft at `w` and the promotion at `i`.
pub open spec fn promotion(
    log: Seq<OwnedAuditEntry>,
    session_id: Seq<char>,
    r: int,
    w: int,
    i: int,
) -> EpisodeView {
    EpisodeView {
        session_id,
        trigger: "promote: "@ + log[i].path@,
        chain: seq![step_of(1, log[r]), step_of(2, log[w]), step_of(3, log[i])],
        outcome: EpisodeOutcome::Promoted,
        duration_secs: elapsed(log[r].ts@, log[i].ts@),
        error_count: 0,
    }
}

/// The promotions among the first `n` calls.
pub open spec fn promotions(
    log: Seq<OwnedAuditEntry>,
    session_id: Seq<char>,
    n: int,
) -> Seq<EpisodeView>
    decreases n,
{
    if n <= 0 {
        Seq::<EpisodeView>::empty()
    } else {
        let rest = promotions(log, session_id, n - 1);
        match lead_up(log, n - 1) {
            Some((r, w)) if log[n - 1].tool@ == "mem_promote"@ => rest.push(
                promotion(log, session_id, r, w, n - 1),
            ),
            _ => rest,
        }
    }
}

fn is_draft(e: &OwnedAuditEntry) -> (r: bool)
    ensures
        r == drafts(*e),
{
    starts_with(e.path.as_str(), "scratch/") && same(e.tool.as_str(), "mem_write")
}

fn find_last_draft(entries: &[OwnedAuditEntry], n: usize) -> (r: Option<usize>)
    requires
        n <= entries@.len(),
    ensures
        match r {
            Some(k) => k < n && last_draft(entries@, n as int) == Some(k as int),
            None => last_draft(entries@, n as int) is None,
        },
{
    let mut j: usize = n;
    while j > 0
        invariant
            j <= n <= entries@.len(),
            last_draft(entries@, n as int) == last_draft(entries@, j as int),
        decreases j,
    {
        if is_draft(&entries[j - 1]) {
            return Some(j - 1);
        }
        j -= 1;
    }
    None
}

fn find_last_read(entries: &[OwnedAuditEntry], n: usize) -> (r: Option<usize>)
    requires
        n <= entries@.len(),
    ensures
        match r {
            Some(k) => k < n && last_read(entries@, n as int) == Some(k as int),
            None => last_read(entries@, n as int) is None,
        },
{
    let mut j: usize = n;
    while j > 0
        invariant
            j <= n <= entries@.len(),
            last_read(entries@, n as int) == last_read(entries@, j as int),
        decreases j,
    {
        if is_read(&entries[j - 1]) {
            return Some(j - 1);
        }
        j -= 1;
    }
    None
}

/// Find each promotion that a draft leads up to, and a read before the draft.
pub fn extract_promote_chain(entries: &[OwnedAuditEntry], session_id: &str) -> (r: Vec<Episode>)
    ensures
        contents(r@) == promotions(entries@, session_id@, entries@.len() as int),
        all_stamped(r@),
{
    let ghost log = entries@;
    let mut episodes: Vec<Episode> = Vec::new();
    let mut i: usize = 0;
    assert(contents(episodes@) =~= Seq::<EpisodeView>::empty());
    while i < entries.len()
        invariant
            log == entries@,
            i <= log.len(),
            contents(episodes@) == promotions(log, session_id@, i as int),
            all_stamped(episodes@),
        decreases entries.len() - i,
    {
        if !same(entries[i].tool.as_str(), "mem_promote") {
            i += 1;
            continue;
        }
        if let Some(w) = find_last_draft(entries, i) {
            if let Some(r) = find_last_read(entries, w) {
                let ghost before = episodes@;
                let mut chain: Vec<EpisodeStep> = Vec::new();
                chain.push(make_step(1, &entries[r]));
                chain.push(make_step(2, &entries[w]));
                chain.push(make_step(3, &entries[i]));
                let trigger = concat2("promote: ", entries[i].path.as_str());
                let duration = duration_between(entries[r].ts.as_str(), entries[i].ts.as_str());
                let episode = Episode::new(
                    session_id,
                    trigger,
                    chain,
                    EpisodeOutcome::Promoted,
                    0,
                    duration,
                );
                let ghost found = promotion(log, session_id@, r as int, w as int, i as int);
                assert(episode@ =~= found);
                episodes.push(episode);
                assert(contents(episodes@) =~= contents(before).push(found));
            }
        }
        i += 1;
    }
    episodes
}

// ---------------------------------------------------------------------------
// Recovery
// ---------------------------------------------------------------------------

/// The first call from `from` up to `to` that succeeded.
pub open spec fn first_ok(log: Seq<OwnedAuditEntry>, from: int, to: int) -> Option<int>
    decreases to - from,
{
    if from >= to || from >= log.len() {
        None
    } else if log[from].ok {
        Some(from)
    } else {
        first_ok(log, from + 1, to)
    }
}

/// Whether a call failed with an error.
pub open spec fn erred(e: OwnedAuditEntry) -> bool {
    !e.ok && e.error is Some
}

/// The episode of the error at `i` that the call at `j` made good.
pub open spec fn recovery(
    log: Seq<OwnedAuditEntry>,
    session_id: Seq<char>,
    i: int,
    j: int,
) -> EpisodeView {
    EpisodeView {
        session_id,
        trigger: "error recovery: "@ + log[i].tool@,
        chain: seq![step_of(1, log[i]), step_of(2, log[j])],
        outcome: EpisodeOutcome::Recovered,
        duration_secs: elapsed(log[i].ts@, log[j].ts@),
        error_count: 1,
    }
}

/// The errors among the first `n` calls that one of the three calls behind made
/// good.
pub open spec fn recoveries(
    log: Seq<OwnedAuditEntry>,
    session_id: Seq<char>,
    n: int,
) -> Seq<EpisodeView>
    decreases n,
{
    if n <= 0 {
        Seq::<EpisodeView>::empty()
    } else {
        let rest = recoveries(log, session_id, n - 1);
        match first_ok(log, n, n + 3) {
            Some(j) if erred(log[n - 1]) => rest.push(recovery(log, session_id, n - 1, j)),
            _ => rest,
        }
    }
}

/// The first of the three calls behind `i` that succeeded.
fn find_retry(entries: &[OwnedAuditEntry], i: usize) -> (r: Option<usize>)
    requires
        i < entries@.len(),
    ensures
        match r {
            Some(j) => i < j < entries@.len() && first_ok(entries@, i + 1, i + 4) == Some(j as int),
            None => first_ok(entries@, i + 1, i + 4) is None,
        },
{
    let total: usize = entries.len();
    let to: usize = if total - i > 4 {
        i + 4
    } else {
        total
    };
    let mut j: usize = i + 1;
    while j < to
        invariant
            i < j <= to,
            to <= total == entries@.len(),
            to == i + 4 || (to == total && total <= i + 4),
            first_ok(entries@, i + 1, i + 4) == first_ok(entries@, j as int, i + 4),
        decreases to - j,
    {
        if entries[j].ok {
            return Some(j);
        }
        j += 1;
    }
    None
}

/// Find each error that one of the next three calls makes good.
pub fn extract_error_recovery(entries: &[OwnedAuditEntry], session_id: &str) -> (r: Vec<Episode>)
    ensures
        contents(r@) == recoveries(entries@, session_id@, entries@.len() as int),
        all_stamped(r@),
{
    let ghost log = entries@;
    let mut episodes: Vec<Episode> = Vec::new();
    let mut i: usize = 0;
    assert(contents(episodes@) =~= Seq::<EpisodeView>::empty());
    while i < entries.len()
        invariant
            log == entries@,
            i <= log.len(),
            contents(episodes@) == recoveries(log, session_id@, i as int),
            all_stamped(episodes@),
        decreases entries.len() - i,
    {
        if entries[i].ok || entries[i].error.is_none() {
            i += 1;
            continue;
        }
        if let Some(j) = find_retry(entries, i) {
            let ghost before = episodes@;
            let mut chain: Vec<EpisodeStep> = Vec::new();
            chain.push(make_step(1, &entries[i]));
            chain.push(make_step(2, &entries[j]));
            let trigger = concat2("error recovery: ", entries[i].tool.as_str());
            let duration = duration_between(entries[i].ts.as_str(), entries[j].ts.as_str());
            let episode = Episode::new(
                session_id,
                trigger,
                chain,
                EpisodeOutcome::Recovered,
                1,
                duration,
            );
            let ghost found = recovery(log, session_id@, i as int, j as int);
            assert(episode@ =~= found);
            episodes.push(episode);
            assert(contents(episodes@) =~= contents(before).push(found));
        }
        i += 1;
    }
    episodes
}

// ---------------------------------------------------------------------------
// Task chains
// ---------------------------------------------------------------------------

/// Whether the call at `i` tells nothing: it lists, or it reads once more what
/// the last call that told something has read.
pub open spec fn is_noise(log: Seq<OwnedAuditEntry>, i: int) -> bool
    decreases i, 1int,
{
    ||| log[i].tool@ == "mem_list"@
    ||| reads(log[i]) && match last_telling(log, i) {
        Some(k) => reads(log[k]) && log[k].path@ == log[i].path@,
        None => false,
    }
}

/// The last call before `n` that tells something.
pub open spec fn last_telling(log: Seq<OwnedAuditEntry>, n: int) -> Option<int>
    decreases n, 0int,
{
    if n <= 0 {
        None
    } else if !is_noise(log, n - 1) {
        Some(n - 1)
    } else {
        last_telling(log, n - 1)
    }
}

/// Where the run of telling calls that ends before `n` begins.
pub open spec fn run_start(log: Seq<OwnedAuditEntry>, n: int) -> int
    decreases n,
{
    if n <= 0 {
        0
    } else if is_noise(log, n - 1) {
        n
    } else {
        run_start(log, n - 1)
    }
}

/// The steps of the calls from `from` up to `to`.
pub open spec fn steps_of(log: Seq<OwnedAuditEntry>, from: int, to: int) -> Seq<StepView> {
    Seq::new((to - from) as nat, |k: int| step_of((k + 1) as nat, log[from + k]))
}

/// The episode of the calls from `from` up to `to`.
pub open spec fn task_chain(
    log: Seq<OwnedAuditEntry>,
    session_id: Seq<char>,
    from: int,
    to: int,
) -> EpisodeView {
    EpisodeView {
        session_id,
        trigger: "task chain: "@ + decimal((to - from) as nat) + " tools"@,
        chain: steps_of(log, from, to),
        outcome: if failures(log.subrange(from, to)) == 0 {
            EpisodeOutcome::Success
        } else {
            EpisodeOutcome::Partial
        },
        duration_secs: elapsed(log[from].ts@, log[to - 1].ts@),
        error_count: failures(log.subrange(from, to)),
    }
}

/// The run of telling calls that ends before `n`, if it is long enough.
pub open spec fn closed_run(
    log: Seq<OwnedAuditEntry>,
    session_id: Seq<char>,
    min_steps: nat,
    n: int,
) -> Seq<EpisodeView> {
    let from = run_start(log, n);
    if from < n && n - from >= min_steps {
        seq![task_chain(log, session_id, from, n)]
    } else {
        Seq::<EpisodeView>::empty()
    }
}

/// The runs of telling calls among the first `n` calls that noise brings to an
/// end.
pub open spec fn closed_runs(
    log: Seq<OwnedAuditEntry>,
    session_id: Seq<char>,
    min_steps: nat,
    n: int,
) -> Seq<EpisodeView>
    decreases n,
{
    if n <= 0 {
        Seq::<EpisodeView>::empty()
    } else if is_noise(log, n - 1) {
        closed_runs(log, session_id, min_steps, n - 1) + closed_run(
            log,
            session_id,
            min_steps,
            n - 1,
        )
    } else {
        closed_runs(log, session_id, min_steps, n - 1)
    }
}

/// The runs of telling calls, in order.
pub open spec fn task_chains(
    log: Seq<OwnedAuditEntry>,
    session_id: Seq<char>,
    min_steps: nat,
) -> Seq<EpisodeView> {
    let n = log.len() as int;
    closed_runs(log, session_id, min_steps, n) + closed_run(log, session_id, min_steps, n)
}

/// The steps of the calls from `from` up to `to`.
fn make_steps(entries: &[OwnedAuditEntry], from: usize, to: usize) -> (r: Vec<EpisodeStep>)
    requires
        from <= to <= entries@.len(),
    ensures
        steps(r@) == steps_of(entries@, from as int, to as int),
{
    let mut chain: Vec<EpisodeStep> = Vec::new();
    let mut i: usize = from;
    assert(steps(chain@) =~= steps_of(entries@, from as int, from as int));
    while i < to
        invariant
            from <= i <= to <= entries@.len(),
            steps(chain@) == steps_of(entries@, from as int, i as int),
        decreases to - i,
    {
        let ghost before = chain@;
        chain.push(make_step(i - from + 1, &entries[i]));
        assert(steps(chain@) =~= steps(before).push(chain@.last()@));
        assert(steps_of(entries@, from as int, i + 1) =~= steps_of(
            entries@,
            from as int,
            i as int,
        ).push(chain@.last()@));
        i += 1;
    }
    chain
}

/// Add the calls from `from` up to `to` as an episode, if they are enough.
fn close_run(
    episodes: &mut Vec<Episode>,
    entries: &[OwnedAuditEntry],
    session_id: &str,
    min_steps: usize,
    from: usize,
    to: usize,
)
    requires
        from <= to <= entries@.len(),
        from == run_start(entries@, to as int),
        all_stamped(old(episodes)@),
    ensures
        contents(final(episodes)@) == contents(old(episodes)@) + closed_run(
            entries@,
            session_id@,
            min_steps as nat,
            to as int,
        ),
        all_stamped(final(episodes)@),
{
    let ghost before = contents(episodes@);
    if from < to && to - from >= min_steps {
        let chain = make_steps(entries, from, to);
        let error_count = count_failures(entries, from, to);
        let outcome = if error_count == 0 {
            EpisodeOutcome::Success
        } else {
            EpisodeOutcome::Partial
        };
        let trigger = concat3("task chain: ", number((to - from) as u64).as_str(), " tools");
        let duration = duration_between(entries[from].ts.as_str(), entries[to - 1].ts.as_str());
        let episode = Episode::new(session_id, trigger, chain, outcome, error_count, duration);
        let ghost found = task_chain(entries@, session_id@, from as int, to as int);
        assert(episode@ =~= found);
        episodes.push(episode);
        assert(contents(episodes@) =~= before + seq![found]);
    } else {
        assert(before + Seq::<EpisodeView>::empty() =~= before);
    }
}

/// Find each run of at least `min_steps` calls without a listing or a repeated
/// read.
pub fn extract_general_chains(
    entries: &[OwnedAuditEntry],
    session_id: &str,
    min_steps: usize,
) -> (r: Vec<Episode>)
    ensures
        contents(r@) == task_chains(entries@, session_id@, min_steps as nat),
        all_stamped(r@),
{
    let ghost log = entries@;
    let mut episodes: Vec<Episode> = Vec::new();
    let mut start: usize = 0;
    let mut last: Option<usize> = None;
    let mut i: usize = 0;
    assert(contents(episodes@) =~= Seq::<EpisodeView>::empty());
    while i < entries.len()
        invariant
            log == entries@,
            i <= log.len(),
            start <= i,
            start == run_start(log, i as int),
            match last {
                Some(k) => k < i && last_telling(log, i as int) == Some(k as int),
                None => last_telling(log, i as int) is None,
            },
            contents(episodes@) == closed_runs(log, session_id@, min_steps as nat, i as int),
            all_stamped(episodes@),
        decreases entries.len() - i,
    {
        let e = &entries[i];
        let repeated = match last {
            Some(k) => is_read(e) && is_read(&entries[k]) && same(
                e.path.as_str(),
                entries[k].path.as_str(),
            ),
            None => false,
        };
        proof {
            reveal_with_fuel(last_telling, 2);
            reveal_with_fuel(is_noise, 2);
        }
        if same(e.tool.as_str(), "mem_list") || repeated {
            close_run(&mut episodes, entries, session_id, min_steps, start, i);
            start = i + 1;
        } else {
            last = Some(i);
        }
        i += 1;
    }
    close_run(&mut episodes, entries, session_id, min_steps, start, i);
    episodes
}

// ---------------------------------------------------------------------------
// All patterns
// ---------------------------------------------------------------------------

/// Longer episodes come first.
impl Rank for EpisodeView {
    open spec fn precedes(self, other: Self) -> bool {
        self.chain.len() > other.chain.len()
    }

    proof fn asymmetric(a: Self, b: Self) {
    }

    proof fn transitive(a: Self, b: Self, c: Self) {
    }
}

/// Longer episodes come first.
impl Rank for Episode {
    open spec fn precedes(self, other: Self) -> bool {
        self.chain@.len() > other.chain@.len()
    }

    proof fn asymmetric(a: Self, b: Self) {
    }

    proof fn transitive(a: Self, b: Self, c: Self) {
    }
}

impl Ranked for Episode {
    fn is_before(&self, other: &Self) -> (r: bool) {
        self.chain.len() > other.chain.len()
    }
}

/// The episodes of all patterns, pattern by pattern.
pub open spec fn all_episodes(
    log: Seq<OwnedAuditEntry>,
    session_id: Seq<char>,
    min_steps: nat,
) -> Seq<EpisodeView> {
    edit_cycles(log, session_id, 0) + promotions(log, session_id, log.len() as int) + recoveries(
        log,
        session_id,
        log.len() as int,
    ) + task_chains(log, session_id, min_steps)
}

/// Whether `r` is the beginning of `all` in order of length, the longest first,
/// with at most `max` episodes.
pub open spec fn longest(r: Seq<EpisodeView>, all: Seq<EpisodeView>, max: nat) -> bool {
    exists|s: Seq<EpisodeView>| #[trigger]
        is_sorted(s, all) && r == s.take(
            if max < s.len() {
                max as int
            } else {
                s.len() as int
            },
        )
}

/// What the peers of an episode say are the peers of what it says.
proof fn lemma_peers_of_contents(s: Seq<Episode>, e: Episode, x: EpisodeView)
    requires
        e.chain@.len() == x.chain.len(),
    ensures
        peers(contents(s), x) == contents(peers(s, e)),
    decreases s.len(),
{
    reveal(Seq::filter);
    let keep = |y: Episode| same_rank(e, y);
    let keep_view = |y: EpisodeView| same_rank(x, y);
    if s.len() > 0 {
        lemma_peers_of_contents(s.drop_last(), e, x);
        assert(contents(s).drop_last() =~= contents(s.drop_last()));
        assert(contents(s).last() == s.last()@);
        assert(keep(s.last()) == keep_view(s.last()@));
        let rest = s.drop_last().filter(keep);
        assert(contents(rest.push(s.last())) =~= contents(rest).push(s.last()@));
    } else {
        assert(contents(s) =~= Seq::<EpisodeView>::empty());
        assert(contents(peers(s, e)) =~= Seq::<EpisodeView>::empty());
    }
}

/// Where no episode has the length of `x`, there are no peers of it.
proof fn lemma_no_peers(s: Seq<EpisodeView>, x: EpisodeView)
    requires
        forall|i: int| 0 <= i < s.len() ==> (#[trigger] s[i]).chain.len() != x.chain.len(),
    ensures
        peers(s, x) == Seq::<EpisodeView>::empty(),
{
    let keep = |y: EpisodeView| same_rank(x, y);
    assert forall|k: int| 0 <= k < s.len() implies !keep(#[trigger] s[k]) by {}
    s.lemma_all_neg_filter_empty(keep);
    assert(s.filter(keep) =~= Seq::<EpisodeView>::empty());
}

/// Sorting episodes sorts what they say.
proof fn lemma_sorted_contents(r: Seq<Episode>, s: Seq<Episode>)
    requires
        is_sorted(r, s),
    ensures
        is_sorted(contents(r), contents(s)),
        all_stamped(s) ==> all_stamped(r),
{
    lemma_map_multiset(r, s, |e: Episode| e@);
    assert forall|i: int, j: int| 0 <= i < j < contents(r).len() implies !(
    #[trigger] contents(r)[j]).precedes(#[trigger] contents(r)[i]) by {
        assert(!r[j].precedes(r[i]));
    }
    r.to_multiset_ensures();
    s.to_multiset_ensures();
    assert forall|i: int| 0 <= i < r.len() implies s.contains(#[trigger] r[i]) by {
        assert(r.contains(r[i]));
        assert(r.to_multiset().count(r[i]) > 0);
    }
    assert forall|i: int| 0 <= i < s.len() implies r.contains(#[trigger] s[i]) by {
        assert(s.contains(s[i]));
        assert(s.to_multiset().count(s[i]) > 0);
    }
    assert forall|x: EpisodeView| #[trigger]
        peers(contents(r), x) == peers(contents(s), x) by {
        if exists|i: int| 0 <= i < s.len() && (#[trigger] s[i]).chain@.len() == x.chain.len() {
            let i = choose|i: int|
                0 <= i < s.len() && (#[trigger] s[i]).chain@.len() == x.chain.len();
            lemma_peers_of_contents(r, s[i], x);
            lemma_peers_of_contents(s, s[i], x);
            assert(peers(r, s[i]) == peers(s, s[i]));
        } else {
            assert forall|k: int| 0 <= k < contents(r).len() implies (#[trigger] contents(
                r,
            )[k]).chain.len() != x.chain.len() by {
                assert(s.contains(r[k]));
            }
            assert forall|k: int| 0 <= k < contents(s).len() implies (#[trigger] contents(
                s,
            )[k]).chain.len() != x.chain.len() by {
                assert(s[k].chain@.len() != x.chain.len());
            }
            lemma_no_peers(contents(r), x);
            lemma_no_peers(contents(s), x);
        }
    }
    if all_stamped(s) {
        assert forall|i: int| 0 <= i < r.len() implies is_stamped(#[trigger] r[i]) by {
            assert(s.contains(r[i]));
        }
    }
}

/// Append a list of episodes to another.
fn extend(all: &mut Vec<Episode>, more: Vec<Episode>)
    requires
        all_stamped(old(all)@),
        all_stamped(more@),
    ensures
        final(all)@ == old(all)@ + more@,
        contents(final(all)@) == contents(old(all)@) + contents(more@),
        all_stamped(final(all)@),
{
    let ghost before = all@;
    let ghost tail = more@;
    for e in it: more.into_iter()
        invariant
            it.seq() == tail,
            all@ == before + tail.take(it.index()),
    {
        let ghost k = it.index();
        all.push(e);
        assert(tail.take(k + 1) =~= tail.take(k).push(e));
        assert(all@ =~= before + tail.take(k + 1));
    }
    assert(tail.take(tail.len() as int) =~= tail);
    assert(contents(all@) =~= contents(before) + contents(tail));
}

/// Extract episodes from a sequence of audit entries.
/// Returns up to `max_episodes` episodes.
/// `session_id` is the actual session identifier, propagated to every
/// episode so that facts derived from them carry the correct ownership.
pub fn extract_episodes(
    entries: &[OwnedAuditEntry],
    session_id: &str,
    min_steps: usize,
    max_episodes: usize,
) -> (r: Vec<Episode>)
    ensures
        longest(
            contents(r@),
            all_episodes(entries@, session_id@, min_steps as nat),
            max_episodes as nat,
        ),
        all_stamped(r@),
{
    let mut episodes = extract_edit_cycle(entries, session_id);
    extend(&mut episodes, extract_promote_chain(entries, session_id));
    extend(&mut episodes, extract_error_recovery(entries, session_id));
    extend(&mut episodes, extract_general_chains(entries, session_id, min_steps));
    let ghost all = episodes@;
    let mut sorted = sort(episodes);
    let ghost whole = sorted@;
    proof {
        lemma_sorted_contents(whole, all);
    }
    let keep: usize = if max_episodes < sorted.len() {
        max_episodes
    } else {
        sorted.len()
    };
    sorted.truncate(keep);
    assert(sorted@ =~= whole.take(keep as int));
    assert(contents(sorted@) =~= contents(whole).take(keep as int));
    assert(is_sorted(
        contents(whole),
        all_episodes(entries@, session_id@, min_steps as nat),
    ));
    sorted
}

// ---------------------------------------------------------------------------
// Laws
// ---------------------------------------------------------------------------

/// Whether an episode belongs to a session and numbers its steps from one.
pub open spec fn is_regular(e: EpisodeView, session_id: Seq<char>) -> bool {
    &&& e.session_id == session_id
    &&& e.chain.len() > 0
    &&& forall|k: int| 0 <= k < e.chain.len() ==> (#[trigger] e.chain[k]).step == k + 1
}

/// Whether all episodes of a list are regular.
pub open spec fn all_regular(list: Seq<EpisodeView>, session_id: Seq<char>) -> bool {
    forall|i: int| 0 <= i < list.len() ==> is_regular(#[trigger] list[i], session_id)
}

proof fn lemma_edit_cycles_regular(log: Seq<OwnedAuditEntry>, session_id: Seq<char>, i: int)
    ensures
        all_regular(edit_cycles(log, session_id, i), session_id),
    decreases log.len() - i,
{
    if i + 3 < log.len() {
        if is_edit_cycle(log, i) {
            lemma_edit_cycles_regular(log, session_id, i + 4);
        } else {
            lemma_edit_cycles_regular(log, session_id, i + 1);
        }
    }
}

proof fn lemma_promotions_regular(log: Seq<OwnedAuditEntry>, session_id: Seq<char>, n: int)
    ensures
        all_regular(promotions(log, session_id, n), session_id),
    decreases n,
{
    if n > 0 {
        lemma_promotions_regular(log, session_id, n - 1);
    }
}

proof fn lemma_recoveries_regular(log: Seq<OwnedAuditEntry>, session_id: Seq<char>, n: int)
    ensures
        all_regular(recoveries(log, session_id, n), session_id),
    decreases n,
{
    if n > 0 {
        lemma_recoveries_regular(log, session_id, n - 1);
    }
}

proof fn lemma_closed_runs_regular(
    log: Seq<OwnedAuditEntry>,
    session_id: Seq<char>,
    min_steps: nat,
    n: int,
)
    ensures
        all_regular(closed_runs(log, session_id, min_steps, n), session_id),
        forall|i: int|
            0 <= i < closed_runs(log, session_id, min_steps, n).len() ==> (
            #[trigger] closed_runs(log, session_id, min_steps, n)[i]).chain.len() >= min_steps,
    decreases n,
{
    if n > 0 {
        lemma_closed_runs_regular(log, session_id, min_steps, n - 1);
    }
}

/// Every episode belongs to the session that was asked for, and numbers its
/// steps from one.
pub proof fn law_episodes_belong_to_session(
    r: Seq<EpisodeView>,
    log: Seq<OwnedAuditEntry>,
    session_id: Seq<char>,
    min_steps: nat,
    max: nat,
    i: int,
)
    requires
        longest(r, all_episodes(log, session_id, min_steps), max),
        0 <= i < r.len(),
    ensures
        is_regular(r[i], session_id),
{
    let all = all_episodes(log, session_id, min_steps);
    lemma_edit_cycles_regular(log, session_id, 0);
    lemma_promotions_regular(log, session_id, log.len() as int);
    lemma_recoveries_regular(log, session_id, log.len() as int);
    lemma_closed_runs_regular(log, session_id, min_steps, log.len() as int);
    assert(all_regular(all, session_id));
    let s = choose|s: Seq<EpisodeView>| #[trigger]
        is_sorted(s, all) && r == s.take(
            if max < s.len() {
                max as int
            } else {
                s.len() as int
            },
        );
    s.to_multiset_ensures();
    all.to_multiset_ensures();
    assert(r[i] == s[i]);
    assert(s.contains(s[i]));
    assert(s.to_multiset().count(s[i]) > 0);
    assert(all.contains(s[i]));
}

/// No more episodes come than were asked for, and none that is longer than an
/// earlier one.
pub proof fn law_longest_come_first(r: Seq<EpisodeView>, all: Seq<EpisodeView>, max: nat)
    requires
        longest(r, all, max),
    ensures
        r.len() <= max,
        r.len() <= all.len(),
        all.len() <= max ==> r.len() == all.len(),
        forall|i: int, j: int|
            0 <= i < j < r.len() ==> (#[trigger] r[i]).chain.len() >= (#[trigger] r[j]).chain.len(),
{
    let s = choose|s: Seq<EpisodeView>| #[trigger]
        is_sorted(s, all) && r == s.take(
            if max < s.len() {
                max as int
            } else {
                s.len() as int
            },
        );
    s.to_multiset_ensures();
    all.to_multiset_ensures();
    assert(s.to_multiset().len() == all.to_multiset().len());
    assert forall|i: int, j: int| 0 <= i < j < r.len() implies (#[trigger] r[i]).chain.len() >= (
    #[trigger] r[j]).chain.len() by {
        assert(r[i] == s[i] && r[j] == s[j]);
        assert(!s[j].precedes(s[i]));
    }
}

/// A task chain has at least as many steps as were asked for.
pub proof fn law_task_chains_are_long_enough(
    log: Seq<OwnedAuditEntry>,
    session_id: Seq<char>,
    min_steps: nat,
    i: int,
)
    requires
        0 <= i < task_chains(log, session_id, min_steps).len(),
    ensures
        task_chains(log, session_id, min_steps)[i].chain.len() >= min_steps,
{
    lemma_closed_runs_regular(log, session_id, min_steps, log.len() as int);
}

proof fn lemma_last_draft(log: Seq<OwnedAuditEntry>, n: int)
    ensures
        last_draft(log, n) matches Some(w) ==> 0 <= w < n && drafts(log[w]),
    decreases n,
{
    if n > 0 {
        lemma_last_draft(log, n - 1);
    }
}

proof fn lemma_last_read(log: Seq<OwnedAuditEntry>, n: int)
    ensures
        last_read(log, n) matches Some(r) ==> 0 <= r < n && reads(log[r]),
    decreases n,
{
    if n > 0 {
        lemma_last_read(log, n - 1);
    }
}

/// In a promotion the read comes before the draft, and the draft before the
/// promotion.
pub proof fn law_read_before_draft_before_promotion(
    log: Seq<OwnedAuditEntry>,
    i: int,
    r: int,
    w: int,
)
    requires
        lead_up(log, i) == Some((r, w)),
    ensures
        0 <= r < w < i,
        reads(log[r]),
        drafts(log[w]),
{
    lemma_last_draft(log, i);
    lemma_last_read(log, w);
}

/// A sanitized value stays on one line and holds no control character.
pub proof fn law_sanitized_is_printable(s: Seq<char>, i: int)
    requires
        0 <= i < s.len(),
    ensures
        sanitized(s).len() == s.len(),
        sanitized(s)[i] > '\u{1f}',
        sanitized(s)[i] != '\u{7f}',
{
}

} // verus!
