//! The state of enabled adapters.
//!
//! The receipts are gone through in order. Each one that has a driver is
//! validated before anything is asked about it ([`StatusCheck`]); the answers
//! ([`StatusAsk`]) make its entry. A receipt without a driver is reported as
//! such. Nothing is changed on the way.

use crate::adapter::claim::{
    claim_sound, first_fault, AdapterClaim, AllowedRoots, ClaimView, PathFacts,
};
use crate::adapter::driver::{
    AdapterCondition, AdapterConditionKind, AdapterStatusReport, AdapterSummary, ConditionStatus,
    ConditionView, FrameworkCommand, StatusReportView,
};
use crate::adapter::manager::{driver_for, AdapterManager};
use crate::adapter::openclaw::{
    adapter_status, list_args, needs_listing, OpenClawDriver, OpenClawEnv, OpenClawProbe,
    PluginListing,
};
use crate::adapter::AdapterError;
use crate::central_log::LogOrigin;
use crate::state::InstalledState;
use crate::text::{concat4, opt_text, own, same, texts};
use vstd::prelude::*;

verus! {

/// The state of one adapter.
#[derive(Debug)]
pub struct StatusEntry {
    /// Component.
    pub component: String,
    /// Framework.
    pub framework: String,
    /// Its state.
    pub report: AdapterStatusReport,
}

/// What a [`StatusEntry`] holds.
pub struct StatusEntryView {
    /// Component.
    pub component: Seq<char>,
    /// Framework.
    pub framework: Seq<char>,
    /// Its state.
    pub report: StatusReportView,
}

impl View for StatusEntry {
    type V = StatusEntryView;

    open spec fn view(&self) -> StatusEntryView {
        StatusEntryView {
            component: self.component@,
            framework: self.framework@,
            report: self.report@,
        }
    }
}

/// What entries hold.
pub open spec fn entries_of(s: Seq<StatusEntry>) -> Seq<StatusEntryView> {
    s.map_values(|e: StatusEntry| e@)
}

/// The state of the adapters.
#[derive(Debug)]
pub struct StatusReport {
    /// One entry for each receipt.
    pub entries: Vec<StatusEntry>,
}

/// The report on an adapter of which nothing can be told.
pub open spec fn unverified(reason: Seq<char>) -> StatusReportView {
    StatusReportView {
        summary: AdapterSummary::Unknown,
        conditions: seq![
            ConditionView {
                kind: AdapterConditionKind::VerificationSupported,
                status: ConditionStatus::False,
                reason: Some(reason),
                resource: None,
            },
        ],
    }
}

/// The report on an adapter of which nothing can be told.
pub fn unverified_report(reason: &str) -> (r: AdapterStatusReport)
    ensures
        r@ == unverified(reason@),
{
    let mut conditions: Vec<AdapterCondition> = Vec::new();
    conditions.push(
        AdapterCondition {
            kind: AdapterConditionKind::VerificationSupported,
            status: ConditionStatus::False,
            reason: Some(own(reason)),
            resource: None,
        },
    );
    let report = AdapterStatusReport { summary: AdapterSummary::Unknown, conditions };
    assert(report@.conditions =~= unverified(reason@).conditions);
    report
}

// ---------------------------------------------------------------------------
// Going through the receipts
// ---------------------------------------------------------------------------

/// Whether a receipt is asked about.
pub open spec fn wanted(c: ClaimView, component: Option<Seq<char>>) -> bool {
    component matches Some(name) ==> c.component == name
}

/// The entry of a receipt without a driver.
pub open spec fn driverless(c: ClaimView) -> StatusEntryView {
    StatusEntryView {
        component: c.component,
        framework: c.framework,
        report: unverified("no built-in driver for framework"@),
    }
}

/// The entries up to the next receipt with a driver, from the `at`-th on, and
/// the position of that receipt.
pub open spec fn advance(
    claims: Seq<ClaimView>,
    component: Option<Seq<char>>,
    at: int,
    entries: Seq<StatusEntryView>,
) -> (Seq<StatusEntryView>, Option<int>)
    decreases claims.len() - at,
{
    if at < 0 || at >= claims.len() {
        (entries, None)
    } else if !wanted(claims[at], component) {
        advance(claims, component, at + 1, entries)
    } else if claims[at].framework != "openclaw"@ {
        advance(claims, component, at + 1, entries.push(driverless(claims[at])))
    } else {
        (entries, Some(at))
    }
}

/// A receipt with a driver that is not validated yet.
#[derive(Debug)]
pub struct StatusCheck {
    /// Position of the receipt.
    pub at: usize,
    /// The receipt.
    pub claim: AdapterClaim,
    /// The external roots that the driver allows.
    pub roots: Vec<String>,
    /// For records.
    pub origin: LogOrigin,
    /// The entries so far.
    pub entries: Vec<StatusEntry>,
}

/// Whether `origin` is that of asking about a receipt.
pub open spec fn is_status_origin(
    origin: LogOrigin,
    manager: AdapterManager,
    claim: ClaimView,
) -> bool {
    &&& origin.actor == manager.actor
    &&& origin.mode == manager.layout.mode
    &&& origin.component@ == claim.component
    &&& origin.command@ == "adapter status "@ + claim.component + " "@ + claim.framework
}

/// What to do next.
#[derive(Debug)]
pub enum StatusStep {
    /// Validate a receipt.
    Check(StatusCheck),
    /// All receipts were gone through.
    Finished(StatusReport),
}

impl StatusStep {
    /// Whether this is what follows with these entries before the `at`-th
    /// receipt.
    pub open spec fn follows(
        self,
        manager: AdapterManager,
        claims: Seq<ClaimView>,
        component: Option<Seq<char>>,
        at: int,
        entries: Seq<StatusEntryView>,
    ) -> bool {
        match advance(claims, component, at, entries) {
            (all, None) => self matches StatusStep::Finished(report) && entries_of(report.entries@)
                == all,
            (all, Some(next)) => {
                &&& self matches StatusStep::Check(check)
                &&& check.at == next
                &&& check.claim@ == claims[next]
                &&& texts(check.roots@) == match manager.env.home() {
                    Some(h) => seq![h],
                    None => Seq::empty(),
                }
                &&& is_status_origin(check.origin, manager, claims[next])
                &&& entries_of(check.entries@) == all
            },
        }
    }
}

fn is_wanted(claim: &AdapterClaim, component: &Option<String>) -> (r: bool)
    ensures
        r == wanted(claim@, opt_text(*component)),
{
    match component {
        Some(name) => same(claim.component.as_str(), name.as_str()),
        None => true,
    }
}

impl AdapterManager {
    /// Goes on at the `at`-th receipt of a record with these entries.
    fn status_from(
        &self,
        state: &InstalledState,
        component: &Option<String>,
        at: usize,
        before: Vec<StatusEntry>,
    ) -> (r: StatusStep)
        ensures
            r.follows(
                *self,
                state.claims(),
                opt_text(*component),
                at as int,
                entries_of(before@),
            ),
    {
        let ghost all = state.claims();
        let ghost who = opt_text(*component);
        let ghost start = entries_of(before@);
        let mut entries = before;
        let mut i: usize = at;
        while i < state.adapter_claims.len()
            invariant
                all == state.claims(),
                who == opt_text(*component),
                start == entries_of(before@),
                advance(all, who, at as int, start) == advance(
                    all,
                    who,
                    i as int,
                    entries_of(entries@),
                ),
            decreases state.adapter_claims.len() - i,
        {
            let claim = &state.adapter_claims[i];
            assert(all[i as int] == claim@);
            if is_wanted(claim, component) {
                match driver_for(claim.framework.as_str()) {
                    Some(driver) => {
                        let roots = driver.allowed_external_roots(&self.env);
                        let origin = LogOrigin {
                            actor: self.actor.clone(),
                            mode: self.layout.mode,
                            component: claim.component.clone(),
                            command: concat4(
                                "adapter status ",
                                claim.component.as_str(),
                                " ",
                                claim.framework.as_str(),
                            ),
                        };
                        return StatusStep::Check(
                            StatusCheck { at: i, claim: claim.clone(), roots, origin, entries },
                        );
                    },
                    None => {
                        let ghost so_far = entries@;
                        let entry = StatusEntry {
                            component: claim.component.clone(),
                            framework: claim.framework.clone(),
                            report: unverified_report("no built-in driver for framework"),
                        };
                        entries.push(entry);
                        assert(entries_of(entries@) =~= entries_of(so_far).push(
                            driverless(claim@),
                        ));
                    },
                }
            }
            i += 1;
        }
        StatusStep::Finished(StatusReport { entries })
    }

    /// Begins to go through the receipts of a record, or those of one component.
    pub fn status(&self, state: &InstalledState, component: &Option<String>) -> (r: StatusStep)
        ensures
            r.follows(*self, state.claims(), opt_text(*component), 0, Seq::empty()),
    {
        let entries: Vec<StatusEntry> = Vec::new();
        assert(entries_of(entries@) =~= Seq::empty());
        self.status_from(state, component, 0, entries)
    }
}

/// A validated receipt, and what to ask the framework about it.
#[derive(Debug)]
pub struct StatusAsk {
    /// Position of the receipt.
    pub at: usize,
    /// The receipt.
    pub claim: AdapterClaim,
    /// What was found on the host.
    pub probe: OpenClawProbe,
    /// The command to run, where one is needed.
    pub command: Option<FrameworkCommand>,
    /// For records.
    pub origin: LogOrigin,
    /// The entries so far.
    pub entries: Vec<StatusEntry>,
}

/// Whether `r` is what validating a receipt comes to.
pub open spec fn check_result(
    r: Result<StatusAsk, AdapterError>,
    check: StatusCheck,
    allowed: AllowedRoots,
    facts: Seq<PathFacts>,
    env: OpenClawEnv,
    probe: OpenClawProbe,
) -> bool {
    match r {
        Ok(ask) => {
            &&& claim_sound(check.claim, allowed, facts)
            &&& ask.at == check.at
            &&& ask.claim == check.claim
            &&& ask.probe == probe
            &&& ask.origin == check.origin
            &&& ask.entries == check.entries
            &&& ask.command is Some <==> needs_listing(check.claim@, env, probe)
            &&& ask.command matches Some(cmd) ==> cmd.calls_openclaw(
                env.bin(),
                list_args(),
                env.home()->0,
                env.user_home,
            )
        },
        Err(e) => {
            &&& !claim_sound(check.claim, allowed, facts)
            &&& e matches AdapterError::ClaimValidation(fault)
            &&& first_fault(fault, check.claim, allowed, facts)
        },
    }
}

impl StatusCheck {
    /// Validates the receipt before anything is asked about it.
    pub fn validated(
        self,
        canonical: Vec<String>,
        facts: &Vec<PathFacts>,
        env: &OpenClawEnv,
        probe: OpenClawProbe,
    ) -> (r: Result<StatusAsk, AdapterError>)
        requires
            facts@.len() == self.claim.resources@.len(),
        ensures
            check_result(
                r,
                self,
                (AllowedRoots { paths: self.roots, canonical }),
                facts@,
                *env,
                probe,
            ),
    {
        let allowed = AllowedRoots { paths: self.roots, canonical };
        match self.claim.validate(&allowed, facts) {
            Ok(()) => {},
            Err(e) => {
                return Err(AdapterError::ClaimValidation(e));
            },
        }
        let driver = OpenClawDriver::new();
        let command = driver.status_command(&self.claim, env, &probe);
        Ok(
            StatusAsk {
                at: self.at,
                claim: self.claim,
                probe,
                command,
                origin: self.origin,
                entries: self.entries,
            },
        )
    }
}

/// The entry of a receipt, by the answers about it.
pub open spec fn answered_entry(
    claim: ClaimView,
    env: OpenClawEnv,
    probe: OpenClawProbe,
    digest: Option<Seq<char>>,
    listing: PluginListing,
) -> StatusEntryView {
    StatusEntryView {
        component: claim.component,
        framework: claim.framework,
        report: adapter_status(claim, env, probe, digest, listing),
    }
}

impl AdapterManager {
    /// Makes the entry of a receipt and goes on. `digest` is that of its
    /// resources now, `listing` what became of the command.
    pub fn status_answered(
        &self,
        state: &InstalledState,
        component: &Option<String>,
        ask: StatusAsk,
        digest: &Option<String>,
        listing: &PluginListing,
    ) -> (r: StatusStep)
        requires
            ask.at < state.adapter_claims@.len(),
        ensures
            r.follows(
                *self,
                state.claims(),
                opt_text(*component),
                ask.at + 1,
                entries_of(ask.entries@).push(
                    answered_entry(ask.claim@, self.env, ask.probe, opt_text(*digest), *listing),
                ),
            ),
    {
        let driver = OpenClawDriver::new();
        let report = driver.status(&ask.claim, &self.env, &ask.probe, digest, listing);
        let total: usize = state.adapter_claims.len();
        assert(ask.at < total);
        let mut entries = ask.entries;
        let ghost before = entries@;
        let entry = StatusEntry {
            component: ask.claim.component,
            framework: ask.claim.framework,
            report,
        };
        let ghost shown = entry@;
        entries.push(entry);
        assert(entries_of(entries@) =~= entries_of(before).push(shown));
        self.status_from(state, component, ask.at + 1, entries)
    }
}

// ---------------------------------------------------------------------------
// Laws
// ---------------------------------------------------------------------------

/// Component and framework of an entry.
pub open spec fn entry_key(e: StatusEntryView) -> (Seq<char>, Seq<char>) {
    (e.component, e.framework)
}

/// Component and framework of a receipt.
pub open spec fn claim_key(c: ClaimView) -> (Seq<char>, Seq<char>) {
    (c.component, c.framework)
}

/// The entries at the end, where `reports` are those on the receipts with a
/// driver.
pub open spec fn final_entries(
    claims: Seq<ClaimView>,
    component: Option<Seq<char>>,
    reports: Seq<StatusReportView>,
    at: int,
    entries: Seq<StatusEntryView>,
) -> Seq<StatusEntryView>
    decreases claims.len() - at,
    via final_entries_decreases
{
    match advance(claims, component, at, entries) {
        (all, None) => all,
        (all, Some(next)) => final_entries(
            claims,
            component,
            reports,
            next + 1,
            all.push(
                StatusEntryView {
                    component: claims[next].component,
                    framework: claims[next].framework,
                    report: reports[next],
                },
            ),
        ),
    }
}

proof fn lemma_advance_bounds(
    claims: Seq<ClaimView>,
    component: Option<Seq<char>>,
    at: int,
    entries: Seq<StatusEntryView>,
)
    ensures
        advance(claims, component, at, entries).1 matches Some(next) ==> 0 <= at <= next
            < claims.len(),
    decreases claims.len() - at,
{
    if 0 <= at < claims.len() {
        if !wanted(claims[at], component) {
            lemma_advance_bounds(claims, component, at + 1, entries);
        } else if claims[at].framework != "openclaw"@ {
            lemma_advance_bounds(claims, component, at + 1, entries.push(driverless(claims[at])));
        }
    }
}

#[via_fn]
proof fn final_entries_decreases(
    claims: Seq<ClaimView>,
    component: Option<Seq<char>>,
    reports: Seq<StatusReportView>,
    at: int,
    entries: Seq<StatusEntryView>,
) {
    lemma_advance_bounds(claims, component, at, entries);
}

/// Keys of the receipts that are asked about, from the `at`-th on.
pub open spec fn wanted_keys(
    claims: Seq<ClaimView>,
    component: Option<Seq<char>>,
    at: int,
) -> Seq<(Seq<char>, Seq<char>)>
    decreases claims.len() - at,
{
    if at < 0 || at >= claims.len() {
        Seq::empty()
    } else if wanted(claims[at], component) {
        seq![claim_key(claims[at])] + wanted_keys(claims, component, at + 1)
    } else {
        wanted_keys(claims, component, at + 1)
    }
}

proof fn lemma_advance_keys(
    claims: Seq<ClaimView>,
    component: Option<Seq<char>>,
    at: int,
    entries: Seq<StatusEntryView>,
)
    requires
        0 <= at,
    ensures
        ({
            let (all, next) = advance(claims, component, at, entries);
            let tail = match next {
                Some(n) => wanted_keys(claims, component, n),
                None => Seq::empty(),
            };
            all.map_values(|e: StatusEntryView| entry_key(e)) + tail == entries.map_values(
                |e: StatusEntryView| entry_key(e),
            ) + wanted_keys(claims, component, at)
        }),
    decreases claims.len() - at,
{
    let key = |e: StatusEntryView| entry_key(e);
    if at < claims.len() {
        if !wanted(claims[at], component) {
            lemma_advance_keys(claims, component, at + 1, entries);
        } else if claims[at].framework != "openclaw"@ {
            let more = entries.push(driverless(claims[at]));
            lemma_advance_keys(claims, component, at + 1, more);
            assert(more.map_values(key) + wanted_keys(claims, component, at + 1)
                =~= entries.map_values(key) + (seq![claim_key(claims[at])] + wanted_keys(
                claims,
                component,
                at + 1,
            )));
        }
    }
}

/// Every receipt that is asked about is reported, once and in order, whatever
/// the answers are.
pub proof fn law_every_receipt_is_reported(
    claims: Seq<ClaimView>,
    component: Option<Seq<char>>,
    reports: Seq<StatusReportView>,
    at: int,
    entries: Seq<StatusEntryView>,
)
    requires
        0 <= at,
    ensures
        final_entries(claims, component, reports, at, entries).map_values(
            |e: StatusEntryView| entry_key(e),
        ) == entries.map_values(|e: StatusEntryView| entry_key(e)) + wanted_keys(
            claims,
            component,
            at,
        ),
    decreases claims.len() - at,
{
    let key = |e: StatusEntryView| entry_key(e);
    lemma_advance_keys(claims, component, at, entries);
    lemma_advance_bounds(claims, component, at, entries);
    let (all, next) = advance(claims, component, at, entries);
    match next {
        None => {
            assert(all.map_values(key) + Seq::<(Seq<char>, Seq<char>)>::empty() =~= all.map_values(
                key,
            ));
        },
        Some(n) => {
            let entry = StatusEntryView {
                component: claims[n].component,
                framework: claims[n].framework,
                report: reports[n],
            };
            lemma_stop_is_wanted(claims, component, at, entries);
            law_every_receipt_is_reported(claims, component, reports, n + 1, all.push(entry));
            assert(all.push(entry).map_values(key) + wanted_keys(claims, component, n + 1)
                =~= all.map_values(key) + (seq![claim_key(claims[n])] + wanted_keys(
                claims,
                component,
                n + 1,
            )));
        },
    }
}

proof fn lemma_stop_is_wanted(
    claims: Seq<ClaimView>,
    component: Option<Seq<char>>,
    at: int,
    entries: Seq<StatusEntryView>,
)
    ensures
        advance(claims, component, at, entries).1 matches Some(n) ==> wanted(claims[n], component),
    decreases claims.len() - at,
{
    if 0 <= at < claims.len() {
        if !wanted(claims[at], component) {
            lemma_stop_is_wanted(claims, component, at + 1, entries);
        } else if claims[at].framework != "openclaw"@ {
            lemma_stop_is_wanted(claims, component, at + 1, entries.push(driverless(claims[at])));
        }
    }
}

/// Positions of the receipts, from the `at`-th on.
pub open spec fn positions(claims: Seq<ClaimView>, at: int) -> Seq<int> {
    if at <= claims.len() {
        Seq::new((claims.len() - at) as nat, |i: int| at + i)
    } else {
        Seq::empty()
    }
}

/// The entry of the `k`-th receipt: under its own names, the report on it where
/// the framework is OpenClaw, and otherwise that nothing drives the framework.
pub open spec fn entry_at(
    claims: Seq<ClaimView>,
    reports: Seq<StatusReportView>,
    k: int,
) -> StatusEntryView {
    StatusEntryView {
        component: claims[k].component,
        framework: claims[k].framework,
        report: if claims[k].framework == "openclaw"@ {
            reports[k]
        } else {
            StatusReportView {
                summary: AdapterSummary::Unknown,
                conditions: seq![
                    ConditionView {
                        kind: AdapterConditionKind::VerificationSupported,
                        status: ConditionStatus::False,
                        reason: Some("no built-in driver for framework"@),
                        resource: None,
                    },
                ],
            }
        },
    }
}

/// Entries of the receipts that `keep` picks, in order, from the `at`-th on.
pub open spec fn picked_entries(
    claims: Seq<ClaimView>,
    reports: Seq<StatusReportView>,
    keep: spec_fn(int) -> bool,
    at: int,
) -> Seq<StatusEntryView> {
    positions(claims, at).filter(keep).map_values(|k: int| entry_at(claims, reports, k))
}

proof fn lemma_picked_step(
    claims: Seq<ClaimView>,
    reports: Seq<StatusReportView>,
    keep: spec_fn(int) -> bool,
    at: int,
)
    requires
        0 <= at < claims.len(),
    ensures
        picked_entries(claims, reports, keep, at) == (if keep(at) {
            seq![entry_at(claims, reports, at)]
        } else {
            Seq::empty()
        }) + picked_entries(claims, reports, keep, at + 1),
{
    reveal(Seq::filter);
    let head = seq![at];
    let tail = positions(claims, at + 1);
    assert(positions(claims, at) =~= head + tail);
    Seq::filter_distributes_over_add(head, tail, keep);
    assert(head.drop_last() =~= Seq::<int>::empty());
    assert(head.drop_last().filter(keep) =~= Seq::<int>::empty());
    let one = if keep(at) {
        head
    } else {
        Seq::<int>::empty()
    };
    assert(head.filter(keep) =~= one);
    let f = |k: int| entry_at(claims, reports, k);
    assert((one + tail.filter(keep)).map_values(f) =~= one.map_values(f) + tail.filter(
        keep,
    ).map_values(f));
}

proof fn lemma_picked_end(
    claims: Seq<ClaimView>,
    reports: Seq<StatusReportView>,
    keep: spec_fn(int) -> bool,
    at: int,
)
    requires
        at >= claims.len(),
    ensures
        picked_entries(claims, reports, keep, at) == Seq::<StatusEntryView>::empty(),
{
    reveal(Seq::filter);
    assert(positions(claims, at) =~= Seq::<int>::empty());
    assert(positions(claims, at).filter(keep) =~= Seq::<int>::empty());
    assert(picked_entries(claims, reports, keep, at) =~= Seq::<StatusEntryView>::empty());
}

/// Whether a receipt is of the component that is asked about, or all are.
pub open spec fn asked_about(
    claims: Seq<ClaimView>,
    component: Option<Seq<char>>,
) -> spec_fn(int) -> bool {
    |k: int| component is None || claims[k].component == component->0
}

proof fn lemma_advance_entries(
    claims: Seq<ClaimView>,
    component: Option<Seq<char>>,
    reports: Seq<StatusReportView>,
    at: int,
    entries: Seq<StatusEntryView>,
)
    requires
        0 <= at,
    ensures
        ({
            let (all, next) = advance(claims, component, at, entries);
            let keep = asked_about(claims, component);
            let tail = match next {
                Some(n) => picked_entries(claims, reports, keep, n),
                None => Seq::empty(),
            };
            &&& all + tail == entries + picked_entries(claims, reports, keep, at)
            &&& next matches Some(n) ==> at <= n < claims.len() && keep(n) && claims[n].framework
                == "openclaw"@
        }),
    decreases claims.len() - at,
{
    let keep = asked_about(claims, component);
    if at >= claims.len() {
        lemma_picked_end(claims, reports, keep, at);
    } else {
        lemma_picked_step(claims, reports, keep, at);
        if !wanted(claims[at], component) {
            lemma_advance_entries(claims, component, reports, at + 1, entries);
            assert(Seq::<StatusEntryView>::empty() + picked_entries(claims, reports, keep, at + 1)
                =~= picked_entries(claims, reports, keep, at + 1));
        } else if claims[at].framework != "openclaw"@ {
            let entry = driverless(claims[at]);
            assert(entry.report.conditions =~= entry_at(claims, reports, at).report.conditions);
            assert(entry == entry_at(claims, reports, at));
            lemma_advance_entries(claims, component, reports, at + 1, entries.push(entry));
            assert(entries.push(entry) + picked_entries(claims, reports, keep, at + 1) =~= entries
                + (seq![entry] + picked_entries(claims, reports, keep, at + 1)));
        }
    }
}

proof fn lemma_final_entries(
    claims: Seq<ClaimView>,
    component: Option<Seq<char>>,
    reports: Seq<StatusReportView>,
    at: int,
    entries: Seq<StatusEntryView>,
)
    requires
        0 <= at,
    ensures
        final_entries(claims, component, reports, at, entries) == entries + picked_entries(
            claims,
            reports,
            asked_about(claims, component),
            at,
        ),
    decreases claims.len() - at,
{
    let keep = asked_about(claims, component);
    lemma_advance_entries(claims, component, reports, at, entries);
    let (all, next) = advance(claims, component, at, entries);
    match next {
        None => {
            assert(all + Seq::<StatusEntryView>::empty() =~= all);
        },
        Some(n) => {
            lemma_picked_step(claims, reports, keep, n);
            let entry = entry_at(claims, reports, n);
            lemma_final_entries(claims, component, reports, n + 1, all.push(entry));
            assert(all.push(entry) + picked_entries(claims, reports, keep, n + 1) =~= all + (seq![
                entry,
            ] + picked_entries(claims, reports, keep, n + 1)));
        },
    }
}

/// Asked about a component, exactly the receipts of that component are reported,
/// in order: each has its entry, with the report on it, and no other has one.
pub proof fn law_status_of_a_component(
    claims: Seq<ClaimView>,
    name: Seq<char>,
    reports: Seq<StatusReportView>,
)
    ensures
        final_entries(claims, Some(name), reports, 0, Seq::empty()) == Seq::new(
            claims.len(),
            |k: int| k,
        ).filter(|k: int| claims[k].component == name).map_values(
            |k: int| entry_at(claims, reports, k),
        ),
{
    lemma_final_entries(claims, Some(name), reports, 0, Seq::empty());
    let keep = asked_about(claims, Some(name));
    assert(keep =~= (|k: int| claims[k].component == name));
    assert(positions(claims, 0) =~= Seq::new(claims.len(), |k: int| k));
    assert(Seq::<StatusEntryView>::empty() + picked_entries(claims, reports, keep, 0)
        =~= picked_entries(claims, reports, keep, 0));
}

/// Asked about no component, every receipt is reported, in order.
pub proof fn law_status_of_all(claims: Seq<ClaimView>, reports: Seq<StatusReportView>)
    ensures
        final_entries(claims, None, reports, 0, Seq::empty()) == Seq::new(
            claims.len(),
            |k: int| entry_at(claims, reports, k),
        ),
{
    lemma_final_entries(claims, None, reports, 0, Seq::empty());
    let keep = asked_about(claims, None);
    let all = positions(claims, 0);
    lemma_filter_keeps_all(all, keep);
    assert(all.map_values(|k: int| entry_at(claims, reports, k)) =~= Seq::new(
        claims.len(),
        |k: int| entry_at(claims, reports, k),
    ));
    assert(Seq::<StatusEntryView>::empty() + picked_entries(claims, reports, keep, 0)
        =~= picked_entries(claims, reports, keep, 0));
}

proof fn lemma_filter_keeps_all(s: Seq<int>, keep: spec_fn(int) -> bool)
    requires
        forall|k: int| #[trigger] keep(k),
    ensures
        s.filter(keep) == s,
    decreases s.len(),
{
    reveal(Seq::filter);
    if s.len() > 0 {
        lemma_filter_keeps_all(s.drop_last(), keep);
        assert(s.drop_last().push(s.last()) =~= s);
    } else {
        assert(s.filter(keep) =~= s);
    }
}

/// A receipt of the component that is asked about is never left out, and no
/// receipt of another one is reported.
pub proof fn law_no_receipt_is_left_out(
    claims: Seq<ClaimView>,
    name: Seq<char>,
    reports: Seq<StatusReportView>,
    k: int,
)
    requires
        0 <= k < claims.len(),
    ensures
        claims[k].component == name ==> final_entries(
            claims,
            Some(name),
            reports,
            0,
            Seq::empty(),
        ).contains(entry_at(claims, reports, k)),
        forall|e: StatusEntryView| #[trigger]
            final_entries(claims, Some(name), reports, 0, Seq::empty()).contains(e) ==> e.component
                == name,
        final_entries(claims, None, reports, 0, Seq::empty()).contains(
            entry_at(claims, reports, k),
        ),
{
    law_status_of_a_component(claims, name, reports);
    law_status_of_all(claims, reports);
    let all = Seq::new(claims.len(), |k: int| k);
    let keep = |k: int| claims[k].component == name;
    let kept = all.filter(keep);
    let told = final_entries(claims, Some(name), reports, 0, Seq::empty());
    if keep(k) {
        assert(all[k] == k);
        all.lemma_filter_contains(keep, k);
        let j = choose|j: int| 0 <= j < kept.len() && kept[j] == k;
        assert(told[j] == entry_at(claims, reports, k));
    }
    assert forall|e: StatusEntryView| #[trigger] told.contains(e) implies e.component == name by {
        let j = choose|j: int| 0 <= j < told.len() && told[j] == e;
        all.lemma_filter_pred(keep, j);
        assert(told[j] == entry_at(claims, reports, kept[j]));
    }
    assert(final_entries(claims, None, reports, 0, Seq::empty())[k] == entry_at(
        claims,
        reports,
        k,
    ));
}

/// The receipt to validate next is one that is asked about and whose framework
/// has a driver; it is handed on as it is, with its position, the home of OpenClaw
/// as the only root and its own command line.
pub proof fn law_next_receipt_to_validate(
    step: StatusStep,
    manager: AdapterManager,
    claims: Seq<ClaimView>,
    component: Option<Seq<char>>,
    at: int,
    entries: Seq<StatusEntryView>,
)
    requires
        0 <= at,
        step.follows(manager, claims, component, at, entries),
        step is Check,
    ensures
        ({
            let check = step->Check_0;
            &&& at <= check.at < claims.len()
            &&& check.claim@ == claims[check.at as int]
            &&& component is Some ==> check.claim.component@ == component->0
            &&& check.claim.framework@ == "openclaw"@
            &&& manager.env.home() is Some ==> check.roots@.len() == 1 && check.roots@[0]@
                == manager.env.home()->0
            &&& manager.env.home() is None ==> check.roots@.len() == 0
            &&& check.origin.command@ == "adapter status "@ + check.claim.component@ + " "@
                + "openclaw"@
            &&& check.origin.component@ == check.claim.component@
            &&& check.origin.actor == manager.actor
            &&& check.origin.mode == manager.layout.mode
        }),
{
    lemma_advance_entries(claims, component, Seq::empty(), at, entries);
    let check = step->Check_0;
    let shown = texts(check.roots@);
    assert(shown.len() == check.roots@.len());
    if manager.env.home() is Some {
        assert(shown[0] == check.roots@[0]@);
    }
}

/// Nothing is asked about a receipt that is not sound; about one that is, the
/// receipt, its position and the entries so far go on unchanged.
pub proof fn law_only_sound_receipts_are_asked_about(
    r: Result<StatusAsk, AdapterError>,
    check: StatusCheck,
    allowed: AllowedRoots,
    facts: Seq<PathFacts>,
    env: OpenClawEnv,
    probe: OpenClawProbe,
)
    requires
        check_result(r, check, allowed, facts, env, probe),
    ensures
        r is Ok <==> claim_sound(check.claim, allowed, facts),
        r matches Ok(ask) ==> {
            &&& ask.at == check.at
            &&& ask.claim == check.claim
            &&& ask.probe == probe
            &&& ask.origin == check.origin
            &&& ask.entries == check.entries
            &&& ask.command is Some <==> needs_listing(check.claim@, env, probe)
        },
        r matches Err(e) ==> e is ClaimValidation,
{
}

/// An entry is under the names of its receipt.
pub proof fn law_entry_names_its_receipt(
    claim: ClaimView,
    env: OpenClawEnv,
    probe: OpenClawProbe,
    digest: Option<Seq<char>>,
    listing: PluginListing,
)
    ensures
        ({
            let e = answered_entry(claim, env, probe, digest, listing);
            &&& e.component == claim.component
            &&& e.framework == claim.framework
            &&& e.report == adapter_status(claim, env, probe, digest, listing)
        }),
{
}

/// No step loses an entry: the entries at hand and those of the receipts that are
/// left are the same before a step and after it, and at the end all are at hand.
pub proof fn law_no_step_loses_an_entry(
    step: StatusStep,
    manager: AdapterManager,
    claims: Seq<ClaimView>,
    component: Option<Seq<char>>,
    reports: Seq<StatusReportView>,
    at: int,
    entries: Seq<StatusEntryView>,
)
    requires
        0 <= at,
        step.follows(manager, claims, component, at, entries),
    ensures
        ({
            let keep = |k: int| component is None || claims[k].component == component->0;
            let left = picked_entries(claims, reports, keep, at);
            match step {
                StatusStep::Finished(report) => entries_of(report.entries@) == entries + left,
                StatusStep::Check(check) => entries_of(check.entries@) + picked_entries(
                    claims,
                    reports,
                    keep,
                    check.at as int,
                ) == entries + left,
            }
        }),
{
    lemma_advance_entries(claims, component, reports, at, entries);
    let keep = |k: int| component is None || claims[k].component == component->0;
    assert(keep =~= asked_about(claims, component));
    let (all, next) = advance(claims, component, at, entries);
    if next is None {
        assert(all + Seq::<StatusEntryView>::empty() =~= all);
    }
}

} // verus!
