//! The adapter manager.
//!
//! The manager owns the boundary to everything dangerous: it alone decides when
//! the lock is taken, when receipts are validated and written and when a
//! framework's program is run. An operation is a chain of stages, each made from
//! the one before it and from what was found or done since; a stage cannot be
//! reached without those before it.
//!
//! The resources of an adapter are at `adapters/<component>/<framework>` below
//! one of the data directories, the first that has them.

use crate::adapter::openclaw::{OpenClawDriver, OpenClawEnv};
use crate::adapter::AdapterError;
use crate::central_log::{
    operation_record, operation_view, severity_of, LogDetails, LogOrigin, LogRecord, LogStatus,
    LogView, Severity,
};
use crate::clock::{like_utc_time, now_iso8601};
use crate::layout::FsLayout;
use crate::manifest::{AdapterSpec, ComponentManifest};
use crate::order::{ascending, insert_text};
use crate::paths::{
    equal_paths, holds_path, join_path, joined_path, list_holds_path, same_path,
};
use crate::state::{object_at, InstalledState, ObjectKind};
use crate::text::{
    chars_of, concat3, list_contains, opt_text, own, same, texts, trim, trimmed,
};
use vstd::prelude::*;

verus! {

/// The adapter manager of one install root.
#[derive(Debug)]
pub struct AdapterManager {
    /// Layout of the install root.
    pub layout: FsLayout,
    /// Where the record of what is installed is kept.
    pub state_path: String,
    /// Directories with such records, most preferred first. Receipts are
    /// written to the first alone.
    pub state_roots: Vec<String>,
    /// Data directories, most preferred first.
    pub datadir_roots: Vec<String>,
    /// What the environment says.
    pub env: OpenClawEnv,
    /// Who asks.
    pub actor: String,
}

/// The driver of a framework.
pub fn driver_for(framework: &str) -> (r: Option<OpenClawDriver>)
    ensures
        r is Some <==> framework@ == "openclaw"@,
{
    if same(framework, "openclaw") {
        Some(OpenClawDriver::new())
    } else {
        None
    }
}

/// The roots with one more at the end, unless they hold it; roots are equal
/// where their parts are.
pub open spec fn with_root(roots: Seq<Seq<char>>, root: Seq<char>) -> Seq<Seq<char>> {
    if holds_path(roots, root) {
        roots
    } else {
        roots.push(root)
    }
}

/// Where the resources of an adapter are below a data directory.
pub open spec fn resource_dir(
    root: Seq<char>,
    component: Seq<char>,
    framework: Seq<char>,
) -> Seq<char> {
    joined_path(joined_path(joined_path(root, "adapters"@), component), framework)
}

/// Where the resources of an adapter may be, most preferred first.
pub open spec fn resource_dirs(
    roots: Seq<Seq<char>>,
    component: Seq<char>,
    framework: Seq<char>,
) -> Seq<Seq<char>> {
    roots.map_values(|root: Seq<char>| resource_dir(root, component, framework))
}

/// Where the record of what is installed is below a directory.
pub open spec fn record_path(state_dir: Seq<char>) -> Seq<char> {
    joined_path(state_dir, "installed.toml"@)
}

/// Where the manifest of an installed component is below a directory with
/// records.
pub open spec fn installed_manifest_path(state_dir: Seq<char>, component: Seq<char>) -> Seq<char> {
    joined_path(
        joined_path(joined_path(state_dir, "component-manifests"@), component),
        "component.toml"@,
    )
}

/// Where the manifest of an installed component is below a directory with
/// records.
pub fn installed_component_manifest_path(state_dir: &str, component: &str) -> (r: String)
    ensures
        r@ == installed_manifest_path(state_dir@, component@),
{
    let dir = join_path(state_dir, "component-manifests");
    let dir = join_path(dir.as_str(), component);
    join_path(dir.as_str(), "component.toml")
}

impl AdapterManager {
    /// A manager for a layout. Its record is `installed.toml` in the state
    /// directory; the state and data directories of the layout come first.
    pub fn new(layout: FsLayout, env: OpenClawEnv, actor: String) -> (r: Self)
        ensures
            r.layout == layout,
            r.state_path@ == record_path(layout.state_dir@),
            texts(r.state_roots@) == seq![layout.state_dir@],
            texts(r.datadir_roots@) == seq![layout.datadir@],
            r.env == env,
            r.actor == actor,
    {
        let state_path = join_path(layout.state_dir.as_str(), "installed.toml");
        let mut state_roots: Vec<String> = Vec::new();
        state_roots.push(layout.state_dir.clone());
        let mut datadir_roots: Vec<String> = Vec::new();
        datadir_roots.push(layout.datadir.clone());
        assert(texts(state_roots@) =~= seq![layout.state_dir@]);
        assert(texts(datadir_roots@) =~= seq![layout.datadir@]);
        AdapterManager { layout, state_path, state_roots, datadir_roots, env, actor }
    }

    /// Adds a data directory to look in after the others.
    pub fn push_datadir_root(&mut self, root: String)
        ensures
            texts(final(self).datadir_roots@) == with_root(texts(old(self).datadir_roots@), root@),
            final(self).layout == old(self).layout,
            final(self).state_path == old(self).state_path,
            final(self).state_roots == old(self).state_roots,
            final(self).env == old(self).env,
            final(self).actor == old(self).actor,
    {
        let ghost before = texts(self.datadir_roots@);
        if !list_holds_path(&self.datadir_roots, root.as_str()) {
            self.datadir_roots.push(root);
            assert(texts(self.datadir_roots@) =~= before.push(root@));
        }
    }

    /// Adds a directory with records to look in after the others.
    pub fn push_state_root(&mut self, root: String)
        ensures
            texts(final(self).state_roots@) == with_root(texts(old(self).state_roots@), root@),
            final(self).layout == old(self).layout,
            final(self).state_path == old(self).state_path,
            final(self).datadir_roots == old(self).datadir_roots,
            final(self).env == old(self).env,
            final(self).actor == old(self).actor,
    {
        let ghost before = texts(self.state_roots@);
        if !list_holds_path(&self.state_roots, root.as_str()) {
            self.state_roots.push(root);
            assert(texts(self.state_roots@) =~= before.push(root@));
        }
    }

    /// Where the resources of an adapter may be, most preferred first.
    pub fn resource_candidates(&self, component: &str, framework: &str) -> (r: Vec<String>)
        ensures
            texts(r@) == resource_dirs(texts(self.datadir_roots@), component@, framework@),
    {
        let ghost all = resource_dirs(texts(self.datadir_roots@), component@, framework@);
        let mut out: Vec<String> = Vec::new();
        let mut i: usize = 0;
        while i < self.datadir_roots.len()
            invariant
                i <= self.datadir_roots@.len(),
                all == resource_dirs(texts(self.datadir_roots@), component@, framework@),
                texts(out@) == all.take(i as int),
            decreases self.datadir_roots.len() - i,
        {
            let ghost before = texts(out@);
            let dir = join_path(self.datadir_roots[i].as_str(), "adapters");
            let dir = join_path(dir.as_str(), component);
            out.push(join_path(dir.as_str(), framework));
            assert(texts(out@) =~= before.push(all[i as int]));
            assert(all.take(i + 1) =~= all.take(i as int).push(all[i as int]));
            i += 1;
        }
        assert(all.take(all.len() as int) =~= all);
        out
    }
}

// ---------------------------------------------------------------------------
// Finding the record of a component
// ---------------------------------------------------------------------------

/// Whether a record holds a component.
pub open spec fn records(state: InstalledState, component: Seq<char>) -> bool {
    object_at(state.objects@, ObjectKind::Component, component) is Some
}

fn has_component(state: &InstalledState, component: &str) -> (r: bool)
    ensures
        r == records(*state, component@),
{
    state.find_object(ObjectKind::Component, component).is_some()
}

/// What to do next to find the record of a component.
#[derive(Debug)]
pub enum SearchStep {
    /// It is below this directory.
    Found {
        /// Position among the directories.
        at: usize,
        /// The directory.
        state_dir: String,
    },
    /// Load the record below a directory, then go on with
    /// [`AdapterManager::resume_search`].
    Load {
        /// Position among the directories.
        at: usize,
        /// Path of the record.
        path: String,
    },
    /// There is none.
    NotInstalled,
}

/// What to do next to find the record of a component, by position.
pub enum SearchView {
    /// It is below this directory.
    Found(int),
    /// Load the record below this directory.
    Load(int),
    /// There is none.
    NotInstalled,
}

/// What to do next to find a component from the `at`-th directory on. The
/// record of the manager's own directory, `own`, is at hand.
pub open spec fn search_from(
    roots: Seq<Seq<char>>,
    own: Seq<char>,
    own_has: bool,
    at: int,
) -> SearchView
    decreases roots.len() - at,
{
    if at < 0 || at >= roots.len() {
        SearchView::NotInstalled
    } else if !same_path(roots[at], own) {
        SearchView::Load(at)
    } else if own_has {
        SearchView::Found(at)
    } else {
        search_from(roots, own, own_has, at + 1)
    }
}

impl SearchStep {
    /// Whether this is the given step among these directories.
    pub open spec fn is_step(self, v: SearchView, roots: Seq<Seq<char>>) -> bool {
        match v {
            SearchView::Found(i) => self matches SearchStep::Found { at, state_dir } && at == i
                && state_dir@ == roots[i],
            SearchView::Load(i) => self matches SearchStep::Load { at, path } && at == i && path@
                == record_path(roots[i]),
            SearchView::NotInstalled => self is NotInstalled,
        }
    }
}

impl AdapterManager {
    /// What to do next to find a component from the `at`-th directory on.
    pub fn search_component(&self, component: &str, current: &InstalledState, at: usize) -> (r:
        SearchStep)
        ensures
            r.is_step(
                search_from(
                    texts(self.state_roots@),
                    self.layout.state_dir@,
                    records(*current, component@),
                    at as int,
                ),
                texts(self.state_roots@),
            ),
    {
        let ghost roots = texts(self.state_roots@);
        let own_has = has_component(current, component);
        let mut i: usize = at;
        while i < self.state_roots.len()
            invariant
                roots == texts(self.state_roots@),
                own_has == records(*current, component@),
                search_from(roots, self.layout.state_dir@, own_has, at as int) == search_from(
                    roots,
                    self.layout.state_dir@,
                    own_has,
                    i as int,
                ),
            decreases self.state_roots.len() - i,
        {
            assert(roots[i as int] == self.state_roots@[i as int]@);
            let dir = self.state_roots[i].as_str();
            if !equal_paths(dir, self.layout.state_dir.as_str()) {
                return SearchStep::Load { at: i, path: join_path(dir, "installed.toml") };
            }
            if own_has {
                return SearchStep::Found { at: i, state_dir: own(dir) };
            }
            i += 1;
        }
        SearchStep::NotInstalled
    }

    /// What to do next once the record below the `at`-th directory was loaded.
    pub fn resume_search(
        &self,
        component: &str,
        current: &InstalledState,
        at: usize,
        loaded: &InstalledState,
    ) -> (r: SearchStep)
        requires
            at < self.state_roots@.len(),
        ensures
            r.is_step(
                if records(*loaded, component@) {
                    SearchView::Found(at as int)
                } else {
                    search_from(
                        texts(self.state_roots@),
                        self.layout.state_dir@,
                        records(*current, component@),
                        at + 1,
                    )
                },
                texts(self.state_roots@),
            ),
    {
        let total: usize = self.state_roots.len();
        assert(at < total);
        if has_component(loaded, component) {
            assert(texts(self.state_roots@)[at as int] == self.state_roots@[at as int]@);
            SearchStep::Found { at, state_dir: self.state_roots[at].clone() }
        } else {
            self.search_component(component, current, at + 1)
        }
    }
}

/// Whether `e` says that a component is not installed.
pub open spec fn is_not_installed(e: AdapterError, name: Seq<char>) -> bool {
    e matches AdapterError::ComponentNotInstalled { component } && component@ == name
}

/// A component that is not installed.
pub fn not_installed(component: &str) -> (r: AdapterError)
    ensures
        is_not_installed(r, component@),
{
    AdapterError::ComponentNotInstalled { component: own(component) }
}

/// Whether `e` says what is wrong with the manifest of a component.
pub open spec fn is_manifest_fault(
    e: AdapterError,
    name: Seq<char>,
    at: Seq<char>,
    why: Seq<char>,
) -> bool {
    e matches AdapterError::AdapterManifest { component, path, reason } && component@ == name
        && path@ == at && reason@ == why
}

/// Checks the manifest that was read for an installed component: it has to be
/// readable and to be that of the component.
pub fn check_manifest(component: &str, path: String, read: Result<ComponentManifest, String>) -> (r:
    Result<ComponentManifest, AdapterError>)
    ensures
        match read {
            Err(why) => r matches Err(e) && is_manifest_fault(e, component@, path@, why@),
            Ok(manifest) => if manifest.component.name@ == component@ {
                r == Result::<ComponentManifest, AdapterError>::Ok(manifest)
            } else {
                r matches Err(e) && is_manifest_fault(
                    e,
                    component@,
                    path@,
                    "manifest declares component '"@ + manifest.component.name@ + "'"@,
                )
            },
        },
{
    match read {
        Err(reason) => Err(AdapterError::AdapterManifest { component: own(component), path, reason }),
        Ok(manifest) => {
            if same(manifest.component.name.as_str(), component) {
                Ok(manifest)
            } else {
                Err(
                    AdapterError::AdapterManifest {
                        component: own(component),
                        path,
                        reason: concat3(
                            "manifest declares component '",
                            manifest.component.name.as_str(),
                            "'",
                        ),
                    },
                )
            }
        },
    }
}

// ---------------------------------------------------------------------------
// Declared frameworks
// ---------------------------------------------------------------------------

/// The framework of an adapter, without surrounding white space.
pub open spec fn framework_of(a: AdapterSpec) -> Option<Seq<char>> {
    match a.framework {
        Some(f) => Some(trim(f@)),
        None => None,
    }
}

/// Whether one of the adapters is for a framework.
pub open spec fn declares(adapters: Seq<AdapterSpec>, framework: Seq<char>) -> bool {
    &&& framework.len() > 0
    &&& exists|i: int|
        0 <= i < adapters.len() && framework_of(#[trigger] adapters[i]) == Some(framework)
}

/// Whether a list holds the declared frameworks, each once, in ascending order.
pub open spec fn lists_frameworks(list: Seq<Seq<char>>, adapters: Seq<AdapterSpec>) -> bool {
    &&& ascending(list)
    &&& forall|f: Seq<char>| #[trigger] list.contains(f) <==> declares(adapters, f)
}

/// The frameworks that a manifest declares adapters for, in ascending order.
pub fn declared_frameworks(manifest: &ComponentManifest) -> (r: Vec<String>)
    ensures
        lists_frameworks(texts(r@), manifest.adapters@),
{
    let adapters = &manifest.adapters;
    let mut set: Vec<String> = Vec::new();
    let mut i: usize = 0;
    assert(texts(set@) =~= Seq::empty());
    assert forall|f: Seq<char>| #[trigger] texts(set@).contains(f) <==> declares(
        adapters@.take(0),
        f,
    ) by {}
    while i < adapters.len()
        invariant
            i <= adapters@.len(),
            lists_frameworks(texts(set@), adapters@.take(i as int)),
        decreases adapters.len() - i,
    {
        let ghost before = texts(set@);
        let ghost name = framework_of(adapters@[i as int]);
        let ghost some = name is Some && name->0.len() > 0;
        if let Some(f) = &adapters[i].framework {
            let f = trimmed(f.as_str());
            if chars_of(f.as_str()).len() > 0 {
                insert_text(&mut set, f);
            }
        }
        proof {
            let head = adapters@.take(i as int);
            let more = adapters@.take(i + 1);
            assert forall|f: Seq<char>| #[trigger] texts(set@).contains(f) <==> declares(
                more,
                f,
            ) by {
                assert(more[i as int] == adapters@[i as int]);
                if before.contains(f) {
                    assert(declares(head, f));
                    let k = choose|k: int| 0 <= k < head.len() && framework_of(head[k]) == Some(f);
                    assert(more[k] == head[k]);
                }
                if declares(more, f) && !(some && f == name->0) {
                    let k = choose|k: int| 0 <= k < more.len() && framework_of(more[k]) == Some(f);
                    assert(k < i);
                    assert(head[k] == more[k]);
                    assert(declares(head, f));
                }
            }
        }
        i += 1;
    }
    assert(adapters@.take(adapters@.len() as int) =~= adapters@);
    set
}

/// Position of the first adapter for a framework.
pub open spec fn adapter_at(adapters: Seq<AdapterSpec>, framework: Seq<char>) -> Option<int>
    decreases adapters.len(),
{
    if adapters.len() == 0 {
        None
    } else if framework_of(adapters[0]) == Some(framework) {
        Some(0)
    } else {
        match adapter_at(adapters.skip(1), framework) {
            Some(i) => Some(i + 1),
            None => None,
        }
    }
}

/// The plugin id that the first adapter for a framework declares, without
/// surrounding white space; none where it is blank.
pub open spec fn declared_id(adapters: Seq<AdapterSpec>, framework: Seq<char>) -> Option<Seq<char>> {
    match adapter_at(adapters, framework) {
        Some(i) => match adapters[i].plugin_id {
            Some(id) if trim(id@).len() > 0 => Some(trim(id@)),
            _ => None,
        },
        None => None,
    }
}

/// The plugin id that a manifest declares for a framework.
pub fn declared_plugin_id(manifest: &ComponentManifest, framework: &str) -> (r: Option<String>)
    ensures
        opt_text(r) == declared_id(manifest.adapters@, framework@),
{
    let adapters = &manifest.adapters;
    let mut i: usize = 0;
    assert(adapters@.skip(0) =~= adapters@);
    while i < adapters.len()
        invariant
            i <= adapters@.len(),
            adapters == &manifest.adapters,
            adapter_at(adapters@, framework@) == match adapter_at(
                adapters@.skip(i as int),
                framework@,
            ) {
                Some(k) => Some(k + i),
                None => None,
            },
        decreases adapters.len() - i,
    {
        if let Some(f) = &adapters[i].framework {
            if same(trimmed(f.as_str()).as_str(), framework) {
                if let Some(id) = &adapters[i].plugin_id {
                    let id = trimmed(id.as_str());
                    if chars_of(id.as_str()).len() > 0 {
                        return Some(id);
                    }
                }
                return None;
            }
        }
        assert(adapters@.skip(i as int).skip(1) =~= adapters@.skip(i + 1));
        i += 1;
    }
    None
}

/// Whether `e` says that a component declares no adapter for a framework.
pub open spec fn is_not_declared(e: AdapterError, name: Seq<char>, wanted: Seq<char>) -> bool {
    e matches AdapterError::AdapterNotDeclared { component, framework } && component@ == name
        && framework@ == wanted
}

/// Whether `e` says that a framework has to be named.
pub open spec fn is_ambiguous(e: AdapterError, name: Seq<char>, list: Seq<Seq<char>>) -> bool {
    e matches AdapterError::AmbiguousFramework { component, frameworks } && component@ == name
        && texts(frameworks@) == list
}

/// Whether `r` is the framework of an operation: the named one if it is
/// declared, else the only declared one.
pub open spec fn framework_result(
    r: Result<String, AdapterError>,
    component: Seq<char>,
    framework: Option<Seq<char>>,
    adapters: Seq<AdapterSpec>,
) -> bool {
    match framework {
        Some(f) => if declares(adapters, f) {
            r matches Ok(name) && name@ == f
        } else {
            r matches Err(e) && is_not_declared(e, component, f)
        },
        None => exists|list: Seq<Seq<char>>|
            {
                &&& #[trigger] lists_frameworks(list, adapters)
                &&& if list.len() == 0 {
                    r matches Err(e) && is_not_declared(e, component, "<any>"@)
                } else if list.len() == 1 {
                    r matches Ok(name) && name@ == list[0]
                } else {
                    r matches Err(e) && is_ambiguous(e, component, list)
                }
            },
    }
}

/// The framework of an operation on a component.
pub fn resolve_framework(
    component: &str,
    framework: &Option<String>,
    manifest: &ComponentManifest,
) -> (r: Result<String, AdapterError>)
    ensures
        framework_result(r, component@, opt_text(*framework), manifest.adapters@),
{
    let declared = declared_frameworks(manifest);
    if let Some(f) = framework {
        if list_contains(&declared, f.as_str()) {
            return Ok(f.clone());
        }
        return Err(
            AdapterError::AdapterNotDeclared { component: own(component), framework: f.clone() },
        );
    }
    assert(lists_frameworks(texts(declared@), manifest.adapters@));
    if declared.len() == 0 {
        Err(
            AdapterError::AdapterNotDeclared {
                component: own(component),
                framework: own("<any>"),
            },
        )
    } else if declared.len() == 1 {
        assert(texts(declared@)[0] == declared@[0]@);
        Ok(declared[0].clone())
    } else {
        Err(
            AdapterError::AmbiguousFramework { component: own(component), frameworks: declared },
        )
    }
}

// ---------------------------------------------------------------------------
// Records
// ---------------------------------------------------------------------------

/// The record of an adapter operation that took place at `now`.
pub open spec fn adapter_log(
    origin: LogOrigin,
    status: LogStatus,
    message: Seq<char>,
    detail: Option<Seq<char>>,
    now: Seq<char>,
) -> LogView {
    operation_view(
        origin,
        status,
        severity_of(status),
        message,
        match detail {
            Some(d) => seq![d],
            None => Seq::empty(),
        },
        LogDetails::Empty,
        now,
    )
}

/// The record of an adapter operation that took place at `now`.
pub fn log_operation_at(
    origin: &LogOrigin,
    status: LogStatus,
    message: &str,
    detail: Option<String>,
    now: String,
) -> (r: LogRecord)
    ensures
        r@ == adapter_log(*origin, status, message@, opt_text(detail), now@),
{
    let severity = match status {
        LogStatus::Done => Severity::Info,
        LogStatus::Partial => Severity::Warn,
        LogStatus::Failed | LogStatus::RolledBack => Severity::Error,
    };
    let mut warnings: Vec<String> = Vec::new();
    if let Some(d) = detail {
        warnings.push(d);
    }
    assert(texts(warnings@) =~= match opt_text(detail) {
        Some(d) => seq![d],
        None => Seq::empty(),
    });
    operation_record(origin, status, severity, own(message), warnings, LogDetails::Empty, now)
}

/// The record of an adapter operation that took place now.
pub fn log_operation(origin: &LogOrigin, status: LogStatus, message: &str, detail: Option<String>)
    -> (r: LogRecord)
    ensures
        r@ == adapter_log(*origin, status, message@, opt_text(detail), r.started_at@),
        like_utc_time(r.started_at@),
{
    log_operation_at(origin, status, message, detail, now_iso8601())
}

// ---------------------------------------------------------------------------
// Laws
// ---------------------------------------------------------------------------

/// Where a search ends that finds in the `i`-th directory a record with the
/// component exactly when `holds[i]` says so.
pub open spec fn search_end(
    roots: Seq<Seq<char>>,
    own: Seq<char>,
    own_has: bool,
    holds: Seq<bool>,
    at: int,
) -> Option<int>
    decreases roots.len() - at,
    via search_end_decreases
{
    match search_from(roots, own, own_has, at) {
        SearchView::Found(i) => Some(i),
        SearchView::Load(i) => if holds[i] {
            Some(i)
        } else {
            search_end(roots, own, own_has, holds, i + 1)
        },
        SearchView::NotInstalled => None,
    }
}

proof fn lemma_search_from(roots: Seq<Seq<char>>, own: Seq<char>, own_has: bool, at: int)
    requires
        at >= 0,
    ensures
        match search_from(roots, own, own_has, at) {
            SearchView::Found(i) => {
                &&& at <= i < roots.len()
                &&& same_path(roots[i], own)
                &&& own_has
                &&& forall|k: int| at <= k < i ==> same_path(#[trigger] roots[k], own) && !own_has
            },
            SearchView::Load(i) => {
                &&& at <= i < roots.len()
                &&& !same_path(roots[i], own)
                &&& forall|k: int| at <= k < i ==> same_path(#[trigger] roots[k], own) && !own_has
            },
            SearchView::NotInstalled => forall|k: int|
                at <= k < roots.len() ==> same_path(#[trigger] roots[k], own) && !own_has,
        },
    decreases roots.len() - at,
{
    if at < roots.len() && same_path(roots[at], own) && !own_has {
        lemma_search_from(roots, own, own_has, at + 1);
    }
}

#[via_fn]
proof fn search_end_decreases(
    roots: Seq<Seq<char>>,
    own: Seq<char>,
    own_has: bool,
    holds: Seq<bool>,
    at: int,
) {
    if at >= 0 {
        lemma_search_from(roots, own, own_has, at);
    }
}

/// Whether no two paths of a list are equal.
pub open spec fn paths_distinct(list: Seq<Seq<char>>) -> bool {
    forall|i: int, j: int|
        0 <= i < j < list.len() ==> !same_path(#[trigger] list[i], #[trigger] list[j])
}

/// A directory is never looked in twice: adding one to directories that are
/// distinct leaves them distinct, however it is written, and it is among them.
pub proof fn law_roots_stay_distinct(roots: Seq<Seq<char>>, root: Seq<char>)
    requires
        paths_distinct(roots),
    ensures
        paths_distinct(with_root(roots, root)),
        holds_path(with_root(roots, root), root),
{
    let after = with_root(roots, root);
    if !holds_path(roots, root) {
        assert(after[roots.len() as int] == root);
        assert(same_path(after[roots.len() as int], root));
    }
}

/// A component is taken from the first directory whose record holds it, and is
/// not installed only where none does.
pub proof fn law_first_record_wins(
    roots: Seq<Seq<char>>,
    own: Seq<char>,
    own_has: bool,
    holds: Seq<bool>,
    at: int,
)
    requires
        0 <= at,
        holds.len() == roots.len(),
        forall|i: int|
            0 <= i < roots.len() && same_path(#[trigger] roots[i], own) ==> holds[i] == own_has,
    ensures
        match search_end(roots, own, own_has, holds, at) {
            Some(i) => {
                &&& at <= i < roots.len()
                &&& holds[i]
                &&& forall|k: int| at <= k < i ==> !#[trigger] holds[k]
            },
            None => forall|k: int| at <= k < roots.len() ==> !#[trigger] holds[k],
        },
    decreases roots.len() - at,
{
    lemma_search_from(roots, own, own_has, at);
    match search_from(roots, own, own_has, at) {
        SearchView::Found(i) => {
            assert(holds[i] == own_has);
            assert forall|k: int| at <= k < i implies !#[trigger] holds[k] by {
                assert(same_path(roots[k], own));
            }
        },
        SearchView::Load(i) => {
            assert forall|k: int| at <= k < i implies !#[trigger] holds[k] by {
                assert(same_path(roots[k], own));
            }
            if !holds[i] {
                law_first_record_wins(roots, own, own_has, holds, i + 1);
                assert forall|k: int|
                    at <= k < (match search_end(roots, own, own_has, holds, at) {
                        Some(e) => e,
                        None => roots.len() as int,
                    }) implies !#[trigger] holds[k] by {
                    if k > i {
                        assert(!holds[k]);
                    }
                }
            }
        },
        SearchView::NotInstalled => {
            assert forall|k: int| at <= k < roots.len() implies !#[trigger] holds[k] by {
                assert(same_path(roots[k], own));
            }
        },
    }
}

} // verus!
