//! What the episodes of a log are.
//!
//! Each pattern is told by the places of its calls in the log: which places
//! count, that each of them is told and in what order, and what an episode says
//! of the calls at its places.

use crate::clock::rfc3339_seconds;
use crate::episode::{
    all_episodes, closed_run, closed_runs, edit_cycles, fact_of, failures, first_ok, front_matter,
    is_edit_cycle, is_noise, last_draft, last_read, last_telling, lead_up, longest, path_inputs,
    promotions, recoveries, run_start, sanitized, step_section, step_sections, task_chains,
    EpisodeOutcome, EpisodeView, OwnedAuditEntry, StepView,
};
use crate::sort::{is_sorted, peers, same_rank, Rank};
use crate::text::{decimal, join};
use vstd::prelude::*;

verus! {

// ---------------------------------------------------------------------------
// What an episode says of its calls
// ---------------------------------------------------------------------------

/// Whether a step numbered `n` says what a call was and what came of it.
pub open spec fn says(s: StepView, n: int, call: OwnedAuditEntry) -> bool {
    &&& s.step == n
    &&& s.tool == call.tool@
    &&& s.input == call.path@
    &&& call.ok && call.bytes is None ==> s.result == "ok"@
    &&& call.ok && call.bytes is Some ==> s.result == decimal(call.bytes->0 as nat) + " bytes"@
    &&& !call.ok && call.error is Some ==> s.result == call.error->0@
    &&& !call.ok && call.error is None ==> s.result == "failed"@
}

/// Whether an episode says of the calls at these places, in turn, and of no
/// others, and lasts from the first to the last of them.
pub open spec fn tells_calls(
    e: EpisodeView,
    log: Seq<OwnedAuditEntry>,
    session_id: Seq<char>,
    places: Seq<int>,
) -> bool {
    &&& e.session_id == session_id
    &&& e.chain.len() == places.len()
    &&& forall|k: int|
        0 <= k < places.len() ==> says(#[trigger] e.chain[k], k + 1, log[places[k]])
    &&& match rfc3339_seconds(log[places.first()].ts@, log[places.last()].ts@) {
        Some(n) => e.duration_secs == if n > 0 {
            n as int
        } else {
            0
        },
        None => e.duration_secs == 0,
    }
}

/// Whether places stand in ascending order.
pub open spec fn in_order(at: Seq<int>) -> bool {
    forall|a: int, b: int| 0 <= a < b < at.len() ==> #[trigger] at[a] < #[trigger] at[b]
}

/// How many calls of a list failed.
proof fn lemma_failures(calls: Seq<OwnedAuditEntry>)
    ensures
        failures(calls) == calls.filter(|c: OwnedAuditEntry| !c.ok).len(),
    decreases calls.len(),
{
    reveal(Seq::filter);
    if calls.len() > 0 {
        lemma_failures(calls.drop_last());
    }
}

proof fn lemma_added(first: int, rest: Seq<int>)
    ensures
        forall|i: int| #[trigger] (seq![first] + rest).contains(i) <==> i == first
            || rest.contains(i),
{
    let all = seq![first] + rest;
    assert forall|i: int| #[trigger] all.contains(i) <==> i == first || rest.contains(i) by {
        if all.contains(i) {
            let k = choose|k: int| 0 <= k < all.len() && all[k] == i;
            if k > 0 {
                assert(rest[k - 1] == i);
            }
        }
        if i == first {
            assert(all[0] == i);
        }
        if rest.contains(i) {
            let k = choose|k: int| 0 <= k < rest.len() && rest[k] == i;
            assert(all[k + 1] == i);
        }
    }
}

proof fn lemma_pushed<A>(rest: Seq<A>, last: A)
    ensures
        forall|i: A| #[trigger] rest.push(last).contains(i) <==> i == last || rest.contains(i),
{
    let all = rest.push(last);
    assert forall|i: A| #[trigger] all.contains(i) <==> i == last || rest.contains(i) by {
        if all.contains(i) {
            let k = choose|k: int| 0 <= k < all.len() && all[k] == i;
            if k < rest.len() {
                assert(rest[k] == i);
            }
        }
        if i == last {
            assert(all[rest.len() as int] == i);
        }
        if rest.contains(i) {
            let k = choose|k: int| 0 <= k < rest.len() && rest[k] == i;
            assert(all[k] == i);
        }
    }
}

/// The names of the tools are told apart.
proof fn lemma_tools_differ()
    ensures
        "memory_search"@ != "mem_read"@,
        "memory_search"@ != "mem_edit"@,
        "mem_grep"@ != "mem_read"@,
        "mem_grep"@ != "mem_edit"@,
        "mem_list"@ != "mem_read"@,
{
    reveal_strlit("memory_search");
    reveal_strlit("mem_grep");
    reveal_strlit("mem_read");
    reveal_strlit("mem_edit");
    reveal_strlit("mem_list");
    assert("memory_search"@.len() == 13 && "mem_read"@.len() == 8 && "mem_edit"@.len() == 8);
    assert("mem_grep"@[4] == 'g' && "mem_read"@[4] == 'r' && "mem_edit"@[4] == 'e');
    assert("mem_list"@[4] == 'l');
}

// ---------------------------------------------------------------------------
// Edit cycles
// ---------------------------------------------------------------------------

/// Whether `at` are the places where a search, a read, an edit and a read stand,
/// all of them and in order.
pub open spec fn marks_edit_cycles(at: Seq<int>, log: Seq<OwnedAuditEntry>) -> bool {
    &&& in_order(at)
    &&& forall|i: int| #[trigger]
        at.contains(i) <==> {
            &&& 0 <= i && i + 3 < log.len()
            &&& log[i].tool@ == "memory_search"@ || log[i].tool@ == "mem_grep"@
            &&& log[i + 1].tool@ == "mem_read"@
            &&& log[i + 2].tool@ == "mem_edit"@
            &&& log[i + 3].tool@ == "mem_read"@
        }
}

/// Whether an episode is that of the edit cycle at a place.
pub open spec fn tells_edit_cycle(
    e: EpisodeView,
    log: Seq<OwnedAuditEntry>,
    session_id: Seq<char>,
    i: int,
) -> bool {
    &&& tells_calls(e, log, session_id, seq![i, i + 1, i + 2, i + 3])
    &&& e.trigger == log[i].tool@ + " "@ + log[i].path@
    &&& log[i + 3].ok ==> e.outcome == EpisodeOutcome::Success
    &&& !log[i + 3].ok ==> e.outcome == EpisodeOutcome::Partial
    &&& e.error_count == log.subrange(i, i + 4).filter(|c: OwnedAuditEntry| !c.ok).len()
}

proof fn edit_cycle_places(log: Seq<OwnedAuditEntry>, session_id: Seq<char>, i: int) -> (at: Seq<
    int,
>)
    requires
        0 <= i,
    ensures
        in_order(at),
        forall|k: int| #[trigger] at.contains(k) <==> k >= i && is_edit_cycle(log, k),
        edit_cycles(log, session_id, i).len() == at.len(),
        forall|k: int|
            0 <= k < at.len() ==> tells_edit_cycle(
                #[trigger] edit_cycles(log, session_id, i)[k],
                log,
                session_id,
                at[k],
            ),
    decreases log.len() - i,
{
    if i + 3 >= log.len() {
        Seq::empty()
    } else if is_edit_cycle(log, i) {
        lemma_tools_differ();
        let rest = edit_cycle_places(log, session_id, i + 4);
        let at = seq![i] + rest;
        lemma_added(i, rest);
        lemma_failures(log.subrange(i, i + 4));
        assert(rest.len() > 0 ==> rest.contains(rest[0]));
        assert forall|a: int, b: int| 0 <= a < b < at.len() implies #[trigger] at[a]
            < #[trigger] at[b] by {
            assert(rest.contains(rest[b - 1]));
        }
        let told = edit_cycles(log, session_id, i);
        assert forall|k: int| 0 <= k < at.len() implies tells_edit_cycle(
            #[trigger] told[k],
            log,
            session_id,
            at[k],
        ) by {
            if k > 0 {
                assert(told[k] == edit_cycles(log, session_id, i + 4)[k - 1]);
            }
        }
        at
    } else {
        edit_cycle_places(log, session_id, i + 1)
    }
}

/// Every search that is followed by a read, an edit and a read is told, however
/// many there are, each once and in order, and nothing else is.
pub proof fn law_every_edit_cycle_is_told(log: Seq<OwnedAuditEntry>, session_id: Seq<char>)
    ensures
        exists|at: Seq<int>| #[trigger]
            marks_edit_cycles(at, log) && edit_cycles(log, session_id, 0).len() == at.len()
                && forall|k: int|
                0 <= k < at.len() ==> tells_edit_cycle(
                    #[trigger] edit_cycles(log, session_id, 0)[k],
                    log,
                    session_id,
                    at[k],
                ),
{
    let at = edit_cycle_places(log, session_id, 0);
    assert(marks_edit_cycles(at, log));
}

/// The cycles of two logs one behind the other, where none reaches from one into
/// the other, are those of the first and then those of the second.
pub proof fn law_edit_cycles_of_joined_logs(
    a: Seq<OwnedAuditEntry>,
    b: Seq<OwnedAuditEntry>,
    session_id: Seq<char>,
)
    requires
        a.len() >= 4,
        a[a.len() - 4].tool@ == "memory_search"@ || a[a.len() - 4].tool@ == "mem_grep"@,
        a[a.len() - 3].tool@ == "mem_read"@,
        a[a.len() - 2].tool@ == "mem_edit"@,
        a[a.len() - 1].tool@ == "mem_read"@,
    ensures
        edit_cycles(a + b, session_id, 0) == edit_cycles(a, session_id, 0) + edit_cycles(
            b,
            session_id,
            0,
        ),
{
    lemma_joined_from(a, b, session_id, 0);
}

proof fn lemma_joined_from(
    a: Seq<OwnedAuditEntry>,
    b: Seq<OwnedAuditEntry>,
    session_id: Seq<char>,
    i: int,
)
    requires
        a.len() >= 4,
        is_edit_cycle(a, a.len() - 4),
        0 <= i <= a.len() - 4 || i == a.len(),
    ensures
        edit_cycles(a + b, session_id, i) == edit_cycles(a, session_id, i) + edit_cycles(
            b,
            session_id,
            0,
        ),
    decreases a.len() - i,
{
    let log = a + b;
    if i == a.len() {
        lemma_shifted(a, b, session_id, 0);
        assert(edit_cycles(a, session_id, i) + edit_cycles(b, session_id, 0) =~= edit_cycles(
            b,
            session_id,
            0,
        ));
    } else {
        lemma_tools_differ();
        assert(log[i] == a[i] && log[i + 1] == a[i + 1] && log[i + 2] == a[i + 2] && log[i + 3]
            == a[i + 3]);
        assert(is_edit_cycle(log, i) == is_edit_cycle(a, i));
        if is_edit_cycle(a, i) {
            assert(i + 4 <= a.len() - 4 || i + 4 == a.len()) by {
                let c = a.len() - 4;
                assert(a[c].tool@ == "memory_search"@ || a[c].tool@ == "mem_grep"@);
            }
            lemma_joined_from(a, b, session_id, i + 4);
            assert(log.subrange(i, i + 4) =~= a.subrange(i, i + 4));
            assert(edit_cycles(log, session_id, i) =~= edit_cycles(a, session_id, i)
                + edit_cycles(b, session_id, 0));
        } else {
            lemma_joined_from(a, b, session_id, i + 1);
        }
    }
}

proof fn lemma_shifted(
    a: Seq<OwnedAuditEntry>,
    b: Seq<OwnedAuditEntry>,
    session_id: Seq<char>,
    i: int,
)
    requires
        0 <= i,
    ensures
        edit_cycles(a + b, session_id, a.len() + i) == edit_cycles(b, session_id, i),
    decreases b.len() - i,
{
    let log = a + b;
    let n = a.len() + i;
    if i + 3 < b.len() {
        assert(log[n] == b[i] && log[n + 1] == b[i + 1] && log[n + 2] == b[i + 2] && log[n + 3]
            == b[i + 3]);
        assert(log.subrange(n, n + 4) =~= b.subrange(i, i + 4));
        lemma_shifted(a, b, session_id, i + 4);
        lemma_shifted(a, b, session_id, i + 1);
    }
}

// ---------------------------------------------------------------------------
// Promotions
// ---------------------------------------------------------------------------

/// Whether a draft is written at a place.
pub open spec fn writes_draft(log: Seq<OwnedAuditEntry>, w: int) -> bool {
    &&& 0 <= w < log.len()
    &&& log[w].tool@ == "mem_write"@
    &&& log[w].path@.len() >= 8 && log[w].path@.take(8) == "scratch/"@
}

/// Whether something is read at a place.
pub open spec fn reads_at(log: Seq<OwnedAuditEntry>, r: int) -> bool {
    0 <= r < log.len() && log[r].tool@ == "mem_read"@
}

/// Whether the draft at `w` is the last before `i`, and the read at `r` the last
/// before the draft.
pub open spec fn leads_up(log: Seq<OwnedAuditEntry>, r: int, w: int, i: int) -> bool {
    &&& r < w < i
    &&& reads_at(log, r)
    &&& writes_draft(log, w)
    &&& forall|x: int| w < x < i ==> !#[trigger] writes_draft(log, x)
    &&& forall|x: int| r < x < w ==> !#[trigger] reads_at(log, x)
}

/// Whether `at` are the places of the promotions that come after a read and a
/// later draft, all of them and in order.
pub open spec fn marks_promotions(at: Seq<int>, log: Seq<OwnedAuditEntry>, n: int) -> bool {
    &&& in_order(at)
    &&& forall|i: int| #[trigger]
        at.contains(i) <==> {
            &&& 0 <= i < n
            &&& log[i].tool@ == "mem_promote"@
            &&& exists|r: int, w: int|
                r < w < i && #[trigger] reads_at(log, r) && #[trigger] writes_draft(log, w)
        }
}

/// Whether an episode is that of the promotion at a place.
pub open spec fn tells_promotion(
    e: EpisodeView,
    log: Seq<OwnedAuditEntry>,
    session_id: Seq<char>,
    i: int,
) -> bool {
    &&& exists|r: int, w: int| #[trigger]
        leads_up(log, r, w, i) && tells_calls(e, log, session_id, seq![r, w, i])
    &&& e.trigger == "promote: "@ + log[i].path@
    &&& e.outcome == EpisodeOutcome::Promoted
    &&& e.error_count == 0
}

proof fn lemma_draft_prefix(log: Seq<OwnedAuditEntry>, w: int)
    requires
        0 <= w < log.len(),
    ensures
        crate::episode::drafts(log[w]) == writes_draft(log, w),
{
    reveal_strlit("scratch/");
    assert("scratch/"@.len() == 8);
    let p = log[w].path@;
    if p.len() >= 8 {
        assert(p.take(8) =~= p.subrange(0, 8));
    }
}

proof fn lemma_last_draft(log: Seq<OwnedAuditEntry>, n: int)
    requires
        0 <= n <= log.len(),
    ensures
        match last_draft(log, n) {
            Some(w) => w < n && writes_draft(log, w) && forall|x: int|
                w < x < n ==> !#[trigger] writes_draft(log, x),
            None => forall|x: int| x < n ==> !#[trigger] writes_draft(log, x),
        },
    decreases n,
{
    if n > 0 {
        lemma_draft_prefix(log, n - 1);
        lemma_last_draft(log, n - 1);
    }
}

proof fn lemma_last_read(log: Seq<OwnedAuditEntry>, n: int)
    requires
        0 <= n <= log.len(),
    ensures
        match last_read(log, n) {
            Some(r) => r < n && reads_at(log, r) && forall|x: int|
                r < x < n ==> !#[trigger] reads_at(log, x),
            None => forall|x: int| x < n ==> !#[trigger] reads_at(log, x),
        },
    decreases n,
{
    if n > 0 {
        lemma_last_read(log, n - 1);
    }
}

proof fn lemma_lead_up(log: Seq<OwnedAuditEntry>, i: int)
    requires
        0 <= i <= log.len(),
    ensures
        match lead_up(log, i) {
            Some((r, w)) => leads_up(log, r, w, i),
            None => !exists|r: int, w: int|
                r < w < i && #[trigger] reads_at(log, r) && #[trigger] writes_draft(log, w),
        },
{
    lemma_last_draft(log, i);
    if let Some(w) = last_draft(log, i) {
        lemma_last_read(log, w);
    }
}

proof fn promotion_places(log: Seq<OwnedAuditEntry>, session_id: Seq<char>, n: int) -> (at: Seq<
    int,
>)
    requires
        0 <= n <= log.len(),
    ensures
        marks_promotions(at, log, n),
        promotions(log, session_id, n).len() == at.len(),
        forall|k: int|
            0 <= k < at.len() ==> tells_promotion(
                #[trigger] promotions(log, session_id, n)[k],
                log,
                session_id,
                at[k],
            ),
    decreases n,
{
    if n == 0 {
        Seq::empty()
    } else {
        let rest = promotion_places(log, session_id, n - 1);
        lemma_lead_up(log, n - 1);
        if lead_up(log, n - 1) is Some && log[n - 1].tool@ == "mem_promote"@ {
            let (r, w) = lead_up(log, n - 1)->0;
            let at = rest.push(n - 1);
            lemma_pushed(rest, n - 1);
            assert forall|a: int, b: int| 0 <= a < b < at.len() implies #[trigger] at[a]
                < #[trigger] at[b] by {
                assert(rest.contains(rest[a]));
            }
            let told = promotions(log, session_id, n);
            assert(leads_up(log, r, w, n - 1));
            assert(tells_calls(told.last(), log, session_id, seq![r, w, n - 1]));
            assert forall|k: int| 0 <= k < at.len() implies tells_promotion(
                #[trigger] told[k],
                log,
                session_id,
                at[k],
            ) by {
                if k < rest.len() {
                    assert(told[k] == promotions(log, session_id, n - 1)[k]);
                }
            }
            at
        } else {
            rest
        }
    }
}

/// Every promotion behind a read and a later draft is told, each once and in
/// order, with the last draft before it and the last read before that; nothing
/// else is.
pub proof fn law_every_promotion_is_told(log: Seq<OwnedAuditEntry>, session_id: Seq<char>)
    ensures
        exists|at: Seq<int>| #[trigger]
            marks_promotions(at, log, log.len() as int) && promotions(
                log,
                session_id,
                log.len() as int,
            ).len() == at.len() && forall|k: int|
                0 <= k < at.len() ==> tells_promotion(
                    #[trigger] promotions(log, session_id, log.len() as int)[k],
                    log,
                    session_id,
                    at[k],
                ),
{
    let at = promotion_places(log, session_id, log.len() as int);
}

// ---------------------------------------------------------------------------
// Recoveries
// ---------------------------------------------------------------------------

/// Whether a call at a place succeeded.
pub open spec fn succeeds_at(log: Seq<OwnedAuditEntry>, j: int) -> bool {
    0 <= j < log.len() && log[j].ok
}

/// Whether `at` are the places of the errors that one of the three calls behind
/// makes good, all of them and in order.
pub open spec fn marks_recoveries(at: Seq<int>, log: Seq<OwnedAuditEntry>, n: int) -> bool {
    &&& in_order(at)
    &&& forall|i: int| #[trigger]
        at.contains(i) <==> {
            &&& 0 <= i < n
            &&& !log[i].ok && log[i].error is Some
            &&& succeeds_at(log, i + 1) || succeeds_at(log, i + 2) || succeeds_at(log, i + 3)
        }
}

/// Whether an episode is that of the error at a place and of the first call
/// behind it that succeeded.
pub open spec fn tells_recovery(
    e: EpisodeView,
    log: Seq<OwnedAuditEntry>,
    session_id: Seq<char>,
    i: int,
) -> bool {
    &&& exists|j: int|
        {
            &&& i < j <= i + 3
            &&& #[trigger] succeeds_at(log, j)
            &&& forall|x: int| i < x < j ==> !#[trigger] succeeds_at(log, x)
            &&& tells_calls(e, log, session_id, seq![i, j])
        }
    &&& e.trigger == "error recovery: "@ + log[i].tool@
    &&& e.outcome == EpisodeOutcome::Recovered
    &&& e.error_count == 1
}

proof fn lemma_first_ok(log: Seq<OwnedAuditEntry>, from: int, to: int)
    requires
        0 <= from,
    ensures
        match first_ok(log, from, to) {
            Some(j) => from <= j < to && succeeds_at(log, j) && forall|x: int|
                from <= x < j ==> !#[trigger] succeeds_at(log, x),
            None => forall|x: int| from <= x < to ==> !#[trigger] succeeds_at(log, x),
        },
    decreases to - from,
{
    if from < to && from < log.len() {
        lemma_first_ok(log, from + 1, to);
    }
}

proof fn recovery_places(log: Seq<OwnedAuditEntry>, session_id: Seq<char>, n: int) -> (at: Seq<int>)
    requires
        0 <= n <= log.len(),
    ensures
        marks_recoveries(at, log, n),
        recoveries(log, session_id, n).len() == at.len(),
        forall|k: int|
            0 <= k < at.len() ==> tells_recovery(
                #[trigger] recoveries(log, session_id, n)[k],
                log,
                session_id,
                at[k],
            ),
    decreases n,
{
    if n == 0 {
        Seq::empty()
    } else {
        let rest = recovery_places(log, session_id, n - 1);
        lemma_first_ok(log, n, n + 3);
        assert(succeeds_at(log, n) || succeeds_at(log, n + 1) || succeeds_at(log, n + 2)
            <==> first_ok(log, n, n + 3) is Some);
        if first_ok(log, n, n + 3) is Some && !log[n - 1].ok && log[n - 1].error is Some {
            let j = first_ok(log, n, n + 3)->0;
            let at = rest.push(n - 1);
            lemma_pushed(rest, n - 1);
            assert forall|a: int, b: int| 0 <= a < b < at.len() implies #[trigger] at[a]
                < #[trigger] at[b] by {
                assert(rest.contains(rest[a]));
            }
            let told = recoveries(log, session_id, n);
            assert(succeeds_at(log, j));
            assert(tells_calls(told.last(), log, session_id, seq![n - 1, j]));
            assert forall|k: int| 0 <= k < at.len() implies tells_recovery(
                #[trigger] told[k],
                log,
                session_id,
                at[k],
            ) by {
                if k < rest.len() {
                    assert(told[k] == recoveries(log, session_id, n - 1)[k]);
                }
            }
            at
        } else {
            rest
        }
    }
}

/// Every error that one of the next three calls makes good is told, each once
/// and in order, with the first call that did; nothing else is.
pub proof fn law_every_recovery_is_told(log: Seq<OwnedAuditEntry>, session_id: Seq<char>)
    ensures
        exists|at: Seq<int>| #[trigger]
            marks_recoveries(at, log, log.len() as int) && recoveries(
                log,
                session_id,
                log.len() as int,
            ).len() == at.len() && forall|k: int|
                0 <= k < at.len() ==> tells_recovery(
                    #[trigger] recoveries(log, session_id, log.len() as int)[k],
                    log,
                    session_id,
                    at[k],
                ),
{
    let at = recovery_places(log, session_id, log.len() as int);
}

// ---------------------------------------------------------------------------
// Task chains
// ---------------------------------------------------------------------------

/// A listing tells nothing, and neither does reading again what the last call
/// that told something has read; all else does.
pub proof fn law_what_tells_nothing(log: Seq<OwnedAuditEntry>, i: int, k: int)
    requires
        0 <= i < log.len(),
    ensures
        log[i].tool@ == "mem_list"@ ==> is_noise(log, i),
        log[i].tool@ != "mem_list"@ && log[i].tool@ != "mem_read"@ ==> !is_noise(log, i),
        log[i].tool@ == "mem_read"@ && 0 <= k < i && !is_noise(log, k) && (forall|x: int|
            k < x < i ==> #[trigger] is_noise(log, x)) ==> (is_noise(log, i) <==> log[k].tool@
            == "mem_read"@ && log[k].path@ == log[i].path@),
        log[i].tool@ == "mem_read"@ && (forall|x: int|
            0 <= x < i ==> #[trigger] is_noise(log, x)) ==> !is_noise(log, i),
        i > 0 && log[i - 1].tool@ == "mem_read"@ && log[i].tool@ == "mem_read"@ && log[i - 1].path@
            == log[i].path@ ==> is_noise(log, i),
{
    lemma_tools_differ();
    reveal_with_fuel(is_noise, 2);
    reveal_with_fuel(last_telling, 2);
    lemma_last_telling(log, i);
    if i > 0 {
        lemma_last_telling(log, i - 1);
    }
}

proof fn lemma_last_telling(log: Seq<OwnedAuditEntry>, n: int)
    ensures
        match last_telling(log, n) {
            Some(k) => 0 <= k < n && !is_noise(log, k) && forall|x: int|
                k < x < n ==> #[trigger] is_noise(log, x),
            None => forall|x: int| 0 <= x < n ==> #[trigger] is_noise(log, x),
        },
    decreases n,
{
    reveal_with_fuel(last_telling, 2);
    if n > 0 {
        lemma_last_telling(log, n - 1);
    }
}

/// Whether the calls from `from` up to `to` are a run that tells something
/// throughout and cannot be made longer.
pub open spec fn is_run(log: Seq<OwnedAuditEntry>, from: int, to: int) -> bool {
    &&& 0 <= from < to <= log.len()
    &&& forall|x: int| from <= x < to ==> !#[trigger] is_noise(log, x)
    &&& from == 0 || is_noise(log, from - 1)
    &&& to == log.len() || is_noise(log, to)
}

/// Whether `runs` are the runs of a log that end before `n` and are long enough,
/// all of them and in order.
pub open spec fn marks_runs(
    runs: Seq<(int, int)>,
    log: Seq<OwnedAuditEntry>,
    min_steps: nat,
    n: int,
) -> bool {
    &&& forall|a: int, b: int| 0 <= a < b < runs.len() ==> (#[trigger] runs[a]).1 < (
        #[trigger] runs[b]).0
    &&& forall|f: int, t: int| #[trigger]
        runs.contains((f, t)) <==> t < n && is_run(log, f, t) && t - f >= min_steps
}

/// Whether an episode is that of the calls from `from` up to `to`.
pub open spec fn tells_run(
    e: EpisodeView,
    log: Seq<OwnedAuditEntry>,
    session_id: Seq<char>,
    from: int,
    to: int,
) -> bool {
    let failed = log.subrange(from, to).filter(|c: OwnedAuditEntry| !c.ok).len();
    &&& tells_calls(e, log, session_id, Seq::new((to - from) as nat, |k: int| from + k))
    &&& e.trigger == "task chain: "@ + decimal((to - from) as nat) + " tools"@
    &&& failed == 0 ==> e.outcome == EpisodeOutcome::Success
    &&& failed > 0 ==> e.outcome == EpisodeOutcome::Partial
    &&& e.error_count == failed
}

proof fn lemma_run_start(log: Seq<OwnedAuditEntry>, n: int)
    requires
        0 <= n,
    ensures
        0 <= run_start(log, n) <= n,
        forall|x: int| run_start(log, n) <= x < n ==> !#[trigger] is_noise(log, x),
        run_start(log, n) == 0 || is_noise(log, run_start(log, n) - 1),
    decreases n,
{
    if n > 0 {
        lemma_run_start(log, n - 1);
    }
}

/// A run that ends at `n` is the one that is found there.
proof fn lemma_run_at(log: Seq<OwnedAuditEntry>, n: int)
    requires
        0 <= n <= log.len(),
        n == log.len() || is_noise(log, n),
    ensures
        forall|f: int| #[trigger]
            is_run(log, f, n) <==> f == run_start(log, n) && f < n,
{
    lemma_run_start(log, n);
    let s = run_start(log, n);
    assert forall|f: int| #[trigger] is_run(log, f, n) implies f == s by {
        if f < s {
            assert(is_noise(log, s - 1));
            assert(!is_noise(log, s - 1));
        }
        if s < f {
            assert(!is_noise(log, f - 1));
        }
    }
}

proof fn lemma_closed_run(
    log: Seq<OwnedAuditEntry>,
    session_id: Seq<char>,
    min_steps: nat,
    n: int,
)
    requires
        0 <= n <= log.len(),
        run_start(log, n) < n,
        n - run_start(log, n) >= min_steps,
    ensures
        closed_run(log, session_id, min_steps, n).len() == 1,
        tells_run(
            closed_run(log, session_id, min_steps, n)[0],
            log,
            session_id,
            run_start(log, n),
            n,
        ),
{
    lemma_run_start(log, n);
    let f = run_start(log, n);
    lemma_failures(log.subrange(f, n));
    let e = closed_run(log, session_id, min_steps, n)[0];
    let places = Seq::new((n - f) as nat, |k: int| f + k);
    assert(places.first() == f && places.last() == n - 1);
}

proof fn run_places(
    log: Seq<OwnedAuditEntry>,
    session_id: Seq<char>,
    min_steps: nat,
    n: int,
) -> (runs: Seq<(int, int)>)
    requires
        0 <= n <= log.len(),
    ensures
        marks_runs(runs, log, min_steps, n),
        closed_runs(log, session_id, min_steps, n).len() == runs.len(),
        forall|k: int|
            0 <= k < runs.len() ==> tells_run(
                #[trigger] closed_runs(log, session_id, min_steps, n)[k],
                log,
                session_id,
                runs[k].0,
                runs[k].1,
            ),
    decreases n,
{
    if n == 0 {
        Seq::empty()
    } else {
        let rest = run_places(log, session_id, min_steps, n - 1);
        let told = closed_runs(log, session_id, min_steps, n);
        if is_noise(log, n - 1) {
            lemma_run_at(log, n - 1);
            let f = run_start(log, n - 1);
            lemma_run_start(log, n - 1);
            if f < n - 1 && n - 1 - f >= min_steps {
                lemma_closed_run(log, session_id, min_steps, n - 1);
                let runs = rest.push((f, n - 1));
                lemma_pushed(rest, (f, n - 1));
                assert(is_run(log, f, n - 1));
                assert forall|a: int, b: int| 0 <= a < b < runs.len() implies (
                #[trigger] runs[a]).1 < (#[trigger] runs[b]).0 by {
                    if b == rest.len() {
                        let (g, t) = rest[a];
                        assert(rest.contains((g, t)));
                        assert(is_run(log, g, t));
                        assert(is_noise(log, t));
                        if t >= f {
                            assert(!is_noise(log, t));
                        }
                    }
                }
                assert forall|g: int, t: int| #[trigger]
                    runs.contains((g, t)) <==> t < n && is_run(log, g, t) && t - g
                        >= min_steps by {
                    assert(runs.contains((g, t)) <==> (g, t) == (f, n - 1) || rest.contains(
                        (g, t),
                    ));
                    if t == n - 1 {
                        assert(is_run(log, g, n - 1) <==> g == f && g < n - 1);
                    }
                }
                assert forall|k: int| 0 <= k < runs.len() implies tells_run(
                    #[trigger] told[k],
                    log,
                    session_id,
                    runs[k].0,
                    runs[k].1,
                ) by {
                    if k < rest.len() {
                        assert(told[k] == closed_runs(log, session_id, min_steps, n - 1)[k]);
                    }
                }
                runs
            } else {
                assert(told =~= closed_runs(log, session_id, min_steps, n - 1));
                assert forall|g: int, t: int| #[trigger]
                    rest.contains((g, t)) <==> t < n && is_run(log, g, t) && t - g
                        >= min_steps by {
                    if t == n - 1 {
                        assert(is_run(log, g, n - 1) <==> g == f && g < n - 1);
                    }
                }
                rest
            }
        } else {
            assert forall|g: int, t: int| #[trigger]
                rest.contains((g, t)) <==> t < n && is_run(log, g, t) && t - g >= min_steps by {
                if t == n - 1 {
                    assert(!is_noise(log, t));
                }
            }
            rest
        }
    }
}

/// Every run of calls without a listing or a repeated read that is long enough
/// is told as a whole, each once and in order; nothing else is.
pub proof fn law_every_task_chain_is_told(
    log: Seq<OwnedAuditEntry>,
    session_id: Seq<char>,
    min_steps: nat,
)
    ensures
        exists|runs: Seq<(int, int)>| #[trigger]
            marks_runs(runs, log, min_steps, log.len() + 1int) && task_chains(
                log,
                session_id,
                min_steps,
            ).len() == runs.len() && forall|k: int|
                0 <= k < runs.len() ==> tells_run(
                    #[trigger] task_chains(log, session_id, min_steps)[k],
                    log,
                    session_id,
                    runs[k].0,
                    runs[k].1,
                ),
{
    let n = log.len() as int;
    let rest = run_places(log, session_id, min_steps, n);
    let told = task_chains(log, session_id, min_steps);
    let closed = closed_runs(log, session_id, min_steps, n);
    lemma_run_at(log, n);
    lemma_run_start(log, n);
    let f = run_start(log, n);
    if f < n && n - f >= min_steps {
        lemma_closed_run(log, session_id, min_steps, n);
        let runs = rest.push((f, n));
        lemma_pushed(rest, (f, n));
        assert(is_run(log, f, n));
        assert forall|a: int, b: int| 0 <= a < b < runs.len() implies (#[trigger] runs[a]).1 < (
        #[trigger] runs[b]).0 by {
            if b == rest.len() {
                let (g, t) = rest[a];
                assert(rest.contains((g, t)));
                assert(is_run(log, g, t));
                assert(is_noise(log, t));
                if t >= f {
                    assert(!is_noise(log, t));
                }
            }
        }
        assert forall|g: int, t: int| #[trigger]
            runs.contains((g, t)) <==> t < n + 1 && is_run(log, g, t) && t - g >= min_steps by {
            assert(runs.contains((g, t)) <==> (g, t) == (f, n) || rest.contains((g, t)));
            if t == n {
                assert(is_run(log, g, n) <==> g == f && g < n);
            }
        }
        assert forall|k: int| 0 <= k < runs.len() implies tells_run(
            #[trigger] told[k],
            log,
            session_id,
            runs[k].0,
            runs[k].1,
        ) by {
            if k < rest.len() {
                assert(told[k] == closed[k]);
            }
        }
        assert(marks_runs(runs, log, min_steps, n + 1));
    } else {
        assert(told =~= closed);
        assert forall|g: int, t: int| #[trigger]
            rest.contains((g, t)) <==> t < n + 1 && is_run(log, g, t) && t - g >= min_steps by {
            if t == n {
                assert(is_run(log, g, n) <==> g == f && g < n);
            }
        }
        assert(marks_runs(rest, log, min_steps, n + 1));
    }
}

// ---------------------------------------------------------------------------
// All patterns
// ---------------------------------------------------------------------------

/// The episodes that are kept are as many as were asked for, or all; those that
/// are longer than the last of them are all kept, and where there is room for
/// all, all are kept.
pub proof fn law_no_longer_episode_is_lost(r: Seq<EpisodeView>, all: Seq<EpisodeView>, max: nat)
    requires
        longest(r, all, max),
    ensures
        r.len() == if all.len() <= max {
            all.len()
        } else {
            max
        },
        all.len() <= max ==> r.to_multiset() == all.to_multiset(),
        forall|x: EpisodeView|
            r.len() > 0 && x.chain.len() > r.last().chain.len() ==> #[trigger] r.to_multiset().count(
                x,
            ) == all.to_multiset().count(x),
        forall|x: EpisodeView| #[trigger]
            r.to_multiset().count(x) <= all.to_multiset().count(x),
{
    let s = choose|s: Seq<EpisodeView>| #[trigger]
        is_sorted(s, all) && r == s.take(
            if max < s.len() {
                max as int
            } else {
                s.len() as int
            },
        );
    s.to_multiset_ensures();
    all.to_multiset_ensures();
    assert(s.to_multiset().len() == all.to_multiset().len());
    let n = r.len() as int;
    let rest = s.skip(n);
    assert(s =~= r + rest);
    vstd::seq_lib::lemma_multiset_commutative(r, rest);
    assert(s.to_multiset() == r.to_multiset().add(rest.to_multiset()));
    if all.len() <= max {
        assert(r =~= s);
    }
    rest.to_multiset_ensures();
    assert forall|x: EpisodeView|
        r.len() > 0 && x.chain.len() > r.last().chain.len() implies #[trigger] r.to_multiset().count(
        x,
    ) == all.to_multiset().count(x) by {
        if rest.to_multiset().count(x) > 0 {
            assert(rest.contains(x));
            let k = choose|k: int| 0 <= k < rest.len() && rest[k] == x;
            assert(s[n + k] == x && s[n - 1] == r.last());
            assert(!s[n + k].precedes(s[n - 1]));
        }
    }
}

/// Episodes of one length stay in the order in which they were found.
pub proof fn law_equal_lengths_keep_their_order(
    r: Seq<EpisodeView>,
    all: Seq<EpisodeView>,
    max: nat,
    length: nat,
)
    requires
        longest(r, all, max),
        all.len() <= max,
    ensures
        r.filter(|e: EpisodeView| e.chain.len() == length) == all.filter(
            |e: EpisodeView| e.chain.len() == length,
        ),
{
    law_no_longer_episode_is_lost(r, all, max);
    let s = choose|s: Seq<EpisodeView>| #[trigger]
        is_sorted(s, all) && r == s.take(
            if max < s.len() {
                max as int
            } else {
                s.len() as int
            },
        );
    s.to_multiset_ensures();
    all.to_multiset_ensures();
    assert(s.to_multiset().len() == all.to_multiset().len());
    assert(r =~= s);
    let x = EpisodeView {
        session_id: Seq::empty(),
        trigger: Seq::empty(),
        chain: Seq::new(
            length,
            |k: int|
                StepView { step: 0, tool: Seq::empty(), input: Seq::empty(), result: Seq::empty() },
        ),
        outcome: EpisodeOutcome::Success,
        duration_secs: 0,
        error_count: 0,
    };
    assert(peers(s, x) == peers(all, x));
    let by_rank = |y: EpisodeView| same_rank(x, y);
    let by_length = |e: EpisodeView| e.chain.len() == length;
    assert(by_rank =~= by_length);
}

/// Where there is room, the episodes of all four patterns are there.
pub proof fn law_all_patterns_are_told(
    r: Seq<EpisodeView>,
    log: Seq<OwnedAuditEntry>,
    session_id: Seq<char>,
    min_steps: nat,
    max: nat,
    e: EpisodeView,
)
    requires
        longest(r, all_episodes(log, session_id, min_steps), max),
        edit_cycles(log, session_id, 0).len() + promotions(log, session_id, log.len() as int).len()
            + recoveries(log, session_id, log.len() as int).len() + task_chains(
            log,
            session_id,
            min_steps,
        ).len() <= max,
    ensures
        r.contains(e) <==> {
            ||| edit_cycles(log, session_id, 0).contains(e)
            ||| promotions(log, session_id, log.len() as int).contains(e)
            ||| recoveries(log, session_id, log.len() as int).contains(e)
            ||| task_chains(log, session_id, min_steps).contains(e)
        },
        r.len() == edit_cycles(log, session_id, 0).len() + promotions(
            log,
            session_id,
            log.len() as int,
        ).len() + recoveries(log, session_id, log.len() as int).len() + task_chains(
            log,
            session_id,
            min_steps,
        ).len(),
{
    let all = all_episodes(log, session_id, min_steps);
    law_no_longer_episode_is_lost(r, all, max);
    r.to_multiset_ensures();
    all.to_multiset_ensures();
    let a = edit_cycles(log, session_id, 0);
    let b = promotions(log, session_id, log.len() as int);
    let c = recoveries(log, session_id, log.len() as int);
    let d = task_chains(log, session_id, min_steps);
    assert(all == a + b + c + d);
    lemma_joined_holds(a, b, e);
    lemma_joined_holds(a + b, c, e);
    lemma_joined_holds(a + b + c, d, e);
    assert(r.contains(e) <==> r.to_multiset().count(e) > 0);
    assert(all.contains(e) <==> all.to_multiset().count(e) > 0);
}

proof fn lemma_joined_holds(a: Seq<EpisodeView>, b: Seq<EpisodeView>, e: EpisodeView)
    ensures
        (a + b).contains(e) <==> a.contains(e) || b.contains(e),
{
    if a.contains(e) {
        let k = choose|k: int| 0 <= k < a.len() && a[k] == e;
        assert((a + b)[k] == e);
    }
    if b.contains(e) {
        let k = choose|k: int| 0 <= k < b.len() && b[k] == e;
        assert((a + b)[a.len() + k] == e);
    }
}

// ---------------------------------------------------------------------------
// Facts and markdown
// ---------------------------------------------------------------------------

/// A fact belongs to the session of its episode, names what set it off, and is
/// as sure as the episode ended well.
pub proof fn law_fact_of_an_episode(e: EpisodeView)
    ensures
        fact_of(e).session_id == e.session_id,
        fact_of(e).title == "情景: "@ + e.trigger,
        fact_of(e).source == "episodic"@,
        fact_of(e).category is Episodic,
        e.outcome == EpisodeOutcome::Success ==> fact_of(e).confidence_tenths == 9,
        e.outcome == EpisodeOutcome::Promoted ==> fact_of(e).confidence_tenths == 9,
        e.outcome == EpisodeOutcome::Recovered ==> fact_of(e).confidence_tenths == 9,
        e.outcome == EpisodeOutcome::Partial ==> fact_of(e).confidence_tenths == 7,
        e.outcome == EpisodeOutcome::Failed ==> fact_of(e).confidence_tenths == 5,
        fact_of(e).paths == e.chain.map_values(|s: StepView| s.input).filter(
            |p: Seq<char>| p.contains('/'),
        ),
{
    lemma_paths(e.chain);
}

proof fn lemma_paths(chain: Seq<StepView>)
    ensures
        path_inputs(chain) == chain.map_values(|s: StepView| s.input).filter(
            |p: Seq<char>| p.contains('/'),
        ),
    decreases chain.len(),
{
    reveal(Seq::filter);
    let inputs = chain.map_values(|s: StepView| s.input);
    if chain.len() > 0 {
        lemma_paths(chain.drop_last());
        assert(inputs.drop_last() =~= chain.drop_last().map_values(|s: StepView| s.input));
        assert(inputs.last() == chain.last().input);
    } else {
        assert(inputs =~= Seq::empty());
    }
}

/// What a fact tells: how many steps there were, how they ended, and for each
/// step in turn what was called, on what, and what came of it.
pub proof fn law_fact_tells_every_step(e: EpisodeView, ending: Seq<char>)
    requires
        e.outcome == EpisodeOutcome::Success ==> ending == "success"@,
        e.outcome == EpisodeOutcome::Partial ==> ending == "partial"@,
        e.outcome == EpisodeOutcome::Failed ==> ending == "failed"@,
        e.outcome == EpisodeOutcome::Promoted ==> ending == "promoted"@,
        e.outcome == EpisodeOutcome::Recovered ==> ending == "recovered"@,
    ensures
        fact_of(e).content == "Episode ("@ + decimal(e.chain.len()) + " steps, "@ + ending + "): "@
            + e.trigger + "\n\n"@ + join(
            Seq::new(
                e.chain.len(),
                |k: int|
                    "Step "@ + decimal(e.chain[k].step) + ": "@ + e.chain[k].tool + " → "@
                        + e.chain[k].result,
            ),
            "\n"@,
        ) + "\n\nChain: "@ + join(
            Seq::new(e.chain.len(), |k: int| e.chain[k].tool + ": "@ + e.chain[k].input),
            " → "@,
        ),
{
    assert(crate::episode::outcome_lines(e.chain) =~= Seq::new(
        e.chain.len(),
        |k: int|
            "Step "@ + decimal(e.chain[k].step) + ": "@ + e.chain[k].tool + " → "@
                + e.chain[k].result,
    ));
    assert(crate::episode::call_texts(e.chain) =~= Seq::new(
        e.chain.len(),
        |k: int| e.chain[k].tool + ": "@ + e.chain[k].input,
    ));
}

/// The markdown of a chain is that of its parts one behind the other, and a step
/// shows its input and its result where it has them.
pub proof fn law_markdown_of_a_chain(a: Seq<StepView>, b: Seq<StepView>, s: StepView)
    ensures
        step_sections(a + b) == step_sections(a) + step_sections(b),
        step_sections(seq![s]) == step_section(s),
        step_section(s) == "## Step "@ + decimal(s.step) + ": "@ + s.tool + "\n"@ + (
        if s.input.len() > 0 {
            "- Input: `"@ + s.input + "`\n"@
        } else {
            Seq::empty()
        }) + (if s.result.len() > 0 {
            "- Result: "@ + s.result + "\n"@
        } else {
            Seq::empty()
        }) + "\n"@,
    decreases b.len(),
{
    reveal_strlit("\n");
    assert("\n"@ =~= seq!['\n']);
    let one = seq![s];
    assert(one.drop_last() =~= Seq::empty());
    assert(step_sections(one.drop_last()) + step_section(s) =~= step_section(s));
    assert(step_section(s) =~= "## Step "@ + decimal(s.step) + ": "@ + s.tool + "\n"@ + (
    if s.input.len() > 0 {
        "- Input: `"@ + s.input + "`\n"@
    } else {
        Seq::empty()
    }) + (if s.result.len() > 0 {
        "- Result: "@ + s.result + "\n"@
    } else {
        Seq::empty()
    }) + "\n"@);
    if b.len() > 0 {
        law_markdown_of_a_chain(a, b.drop_last(), s);
        assert((a + b).drop_last() =~= a + b.drop_last());
        assert(step_sections(a + b) =~= step_sections(a) + step_sections(b));
    } else {
        assert(a + b =~= a);
        assert(step_sections(a) + step_sections(b) =~= step_sections(a));
    }
}

/// The front matter has a line for each field, in order, and the trigger stays
/// on its line.
pub proof fn law_front_matter(id: Seq<char>, at: Seq<char>, e: EpisodeView)
    ensures
        front_matter(id, at, e) == "---\n"@ + ("id"@ + ": "@ + id + "\n"@) + ("session_id"@ + ": "@
            + e.session_id + "\n"@) + ("trigger"@ + ": "@ + sanitized(e.trigger) + "\n"@) + (
        "outcome"@ + ": "@ + e.outcome.word() + "\n"@) + ("error_count"@ + ": "@ + decimal(
            e.error_count,
        ) + "\n"@) + ("duration_secs"@ + ": "@ + decimal(e.duration_secs as nat) + "\n"@) + (
        "created_at"@ + ": "@ + at + "\n"@) + "---\n\n"@,
        sanitized(e.trigger).len() == e.trigger.len(),
        forall|i: int|
            0 <= i < e.trigger.len() ==> #[trigger] sanitized(e.trigger)[i] == if e.trigger[i]
                <= '\u{1f}' || e.trigger[i] == '\u{7f}' {
                ' '
            } else {
                e.trigger[i]
            },
{
}

proof fn lemma_beginning_filtered(
    s: Seq<EpisodeView>,
    n: int,
    keep: spec_fn(EpisodeView) -> bool,
)
    requires
        0 <= n <= s.len(),
    ensures
        s.take(n).filter(keep).is_prefix_of(s.filter(keep)),
{
    let front = s.take(n);
    let back = s.skip(n);
    assert(s =~= front + back);
    Seq::filter_distributes_over_add(front, back, keep);
    let kept = front.filter(keep);
    let rest = back.filter(keep);
    assert(kept =~= (kept + rest).subrange(0, kept.len() as int));
}

/// The longest episodes come first.
pub proof fn law_longest_come_first(
    r: Seq<EpisodeView>,
    all: Seq<EpisodeView>,
    max: nat,
    i: int,
    j: int,
)
    requires
        longest(r, all, max),
        0 <= i < j < r.len(),
    ensures
        r[i].chain.len() >= r[j].chain.len(),
{
    let s = choose|s: Seq<EpisodeView>| #[trigger]
        is_sorted(s, all) && r == s.take(
            if max < s.len() {
                max as int
            } else {
                s.len() as int
            },
        );
    assert(r[i] == s[i] && r[j] == s[j]);
    assert(!s[j].precedes(s[i]));
}

/// Of the episodes of one length the ones that were found first are kept, in order.
pub proof fn law_first_found_are_kept(
    r: Seq<EpisodeView>,
    all: Seq<EpisodeView>,
    max: nat,
    length: nat,
)
    requires
        longest(r, all, max),
    ensures
        r.filter(|e: EpisodeView| e.chain.len() == length).is_prefix_of(
            all.filter(|e: EpisodeView| e.chain.len() == length),
        ),
{
    let s = choose|s: Seq<EpisodeView>| #[trigger]
        is_sorted(s, all) && r == s.take(
            if max < s.len() {
                max as int
            } else {
                s.len() as int
            },
        );
    let keep = |e: EpisodeView| e.chain.len() == length;
    let n = if max < s.len() {
        max as int
    } else {
        s.len() as int
    };
    lemma_beginning_filtered(s, n, keep);
    assert(s.filter(keep) == all.filter(keep)) by {
        let most = if s.len() < all.len() {
            all.len()
        } else {
            s.len()
        };
        assert(s.take(s.len() as int) =~= s);
        assert(longest(s, all, most));
        law_equal_lengths_keep_their_order(s, all, most, length);
    }
}

} // verus!
