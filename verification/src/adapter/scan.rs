//! Listing the adapters that are there.
//!
//! An adapter is listed when an installed component declares it or when there
//! are resources for it. Declarations come from the records below the state
//! directories, gone through in order: the first record that holds a component
//! hides it in those after it. Nothing is changed on the way.

use crate::adapter::claim::{ClaimStatus, ClaimView};
use crate::adapter::manager::{
    declared_frameworks, declares, driver_for, installed_component_manifest_path,
    installed_manifest_path, record_path, AdapterManager,
};
use crate::adapter::openclaw::{openclaw_detection, OpenClawProbe};
use crate::manifest::ComponentManifest;
use crate::order::{
    ascending, compare_pairs, insert_text, key_lt, lemma_key_order, Order,
};
use crate::paths::{equal_paths, join_path, same_path};
use crate::sort::{is_sorted, sort, Rank, Ranked};
use crate::state::{claim_at, InstalledObject, InstalledState, ObjectKind, ObjectStatus};
use crate::text::{concat4, opt_text, own, same, texts};
use vstd::prelude::*;

verus! {

// ---------------------------------------------------------------------------
// Declarations
// ---------------------------------------------------------------------------

/// A declared adapter.
#[derive(Debug)]
pub struct AdapterDecl {
    /// Component.
    pub component: String,
    /// Framework.
    pub framework: String,
}

/// Component and framework of a declaration.
pub open spec fn decl_key(d: AdapterDecl) -> (Seq<char>, Seq<char>) {
    (d.component@, d.framework@)
}

/// Whether one of some declarations is that of a component and a framework.
pub open spec fn has_decl(s: Seq<AdapterDecl>, k: (Seq<char>, Seq<char>)) -> bool {
    exists|i: int| 0 <= i < s.len() && decl_key(#[trigger] s[i]) == k
}

/// What became of reading the manifest of an installed component.
#[derive(Debug)]
pub enum ManifestRead {
    /// There is none.
    Missing,
    /// It could not be read.
    Failed(String),
    /// It was read.
    Read(ComponentManifest),
}

impl ManifestRead {
    /// Whether a manifest that was read declares an adapter for a framework.
    pub open spec fn declares(self, framework: Seq<char>) -> bool {
        self matches ManifestRead::Read(m) && declares(m.adapters@, framework)
    }
}

/// The declarations found so far.
#[derive(Debug)]
pub struct Declarations {
    /// Components that were seen, in ascending order.
    pub seen: Vec<String>,
    /// What they declare.
    pub declared: Vec<AdapterDecl>,
    /// What could not be read.
    pub warnings: Vec<String>,
}

/// What [`Declarations`] hold.
#[verifier::ext_equal]
pub struct DeclarationsView {
    /// Components that were seen.
    pub seen: Set<Seq<char>>,
    /// What they declare.
    pub declared: Set<(Seq<char>, Seq<char>)>,
    /// What could not be read.
    pub warnings: Seq<Seq<char>>,
}

impl View for Declarations {
    type V = DeclarationsView;

    open spec fn view(&self) -> DeclarationsView {
        DeclarationsView {
            seen: Set::new(|c: Seq<char>| texts(self.seen@).contains(c)),
            declared: Set::new(|k: (Seq<char>, Seq<char>)| has_decl(self.declared@, k)),
            warnings: texts(self.warnings@),
        }
    }
}

/// Whether an object is an installed component.
pub open spec fn is_installed_component(o: InstalledObject) -> bool {
    o.kind == ObjectKind::Component && o.status is Installed
}

/// Why nothing is known of a component's adapters, if nothing is.
pub open spec fn manifest_warning(
    dir: Seq<char>,
    name: Seq<char>,
    read: ManifestRead,
) -> Option<Seq<char>> {
    let path = installed_manifest_path(dir, name);
    match read {
        ManifestRead::Missing => Some(
            "installed component '"@ + name + "' has no local component manifest at "@ + path,
        ),
        ManifestRead::Failed(e) => Some(
            "failed to read installed component manifest for '"@ + name + "' at "@ + path + ": "@
                + e@,
        ),
        ManifestRead::Read(m) => if m.component.name@ == name {
            None
        } else {
            Some(
                "installed component manifest at "@ + path + " declares component '"@
                    + m.component.name@ + "', expected '"@ + name + "'"@,
            )
        },
    }
}

impl DeclarationsView {
    /// The declarations once an object of a record was looked at.
    pub open spec fn with_object(
        self,
        dir: Seq<char>,
        o: InstalledObject,
        read: ManifestRead,
    ) -> DeclarationsView {
        if !is_installed_component(o) || self.seen.contains(o.name@) {
            self
        } else {
            match manifest_warning(dir, o.name@, read) {
                Some(w) => DeclarationsView {
                    seen: self.seen.insert(o.name@),
                    declared: self.declared,
                    warnings: self.warnings.push(w),
                },
                None => DeclarationsView {
                    seen: self.seen.insert(o.name@),
                    declared: Set::new(
                        |k: (Seq<char>, Seq<char>)|
                            self.declared.contains(k) || (k.0 == o.name@ && read.declares(k.1)),
                    ),
                    warnings: self.warnings,
                },
            }
        }
    }

    /// The declarations once the first objects of a record were looked at.
    pub open spec fn with_objects(
        self,
        dir: Seq<char>,
        objects: Seq<InstalledObject>,
        reads: Seq<ManifestRead>,
        n: nat,
    ) -> DeclarationsView
        decreases n,
    {
        if n == 0 {
            self
        } else {
            self.with_objects(dir, objects, reads, (n - 1) as nat).with_object(
                dir,
                objects[n - 1],
                reads[n - 1],
            )
        }
    }

    /// The declarations once a record could not be loaded.
    pub open spec fn with_failure(self, dir: Seq<char>, why: Seq<char>) -> DeclarationsView {
        DeclarationsView {
            warnings: self.warnings.push(
                "failed to load installed state at "@ + record_path(dir) + ": "@ + why,
            ),
            ..self
        }
    }
}

fn warn_about(dir: &str, name: &str, read: &ManifestRead) -> (r: Option<String>)
    ensures
        opt_text(r) == manifest_warning(dir@, name@, *read),
{
    let path = installed_component_manifest_path(dir, name);
    match read {
        ManifestRead::Missing => Some(
            concat4(
                "installed component '",
                name,
                "' has no local component manifest at ",
                path.as_str(),
            ),
        ),
        ManifestRead::Failed(e) => {
            let mut w = own("failed to read installed component manifest for '");
            w.append(name);
            w.append("' at ");
            w.append(path.as_str());
            w.append(": ");
            w.append(e.as_str());
            Some(w)
        },
        ManifestRead::Read(m) => {
            if same(m.component.name.as_str(), name) {
                None
            } else {
                let mut w = own("installed component manifest at ");
                w.append(path.as_str());
                w.append(" declares component '");
                w.append(m.component.name.as_str());
                w.append("', expected '");
                w.append(name);
                w.append("'");
                Some(w)
            }
        },
    }
}

fn installed_component(o: &InstalledObject) -> (r: bool)
    ensures
        r == is_installed_component(*o),
{
    o.kind == ObjectKind::Component && matches!(o.status, ObjectStatus::Installed)
}

fn push_frameworks(declared: &mut Vec<AdapterDecl>, component: &str, frameworks: &Vec<String>)
    ensures
        forall|k: (Seq<char>, Seq<char>)| #[trigger]
            has_decl(final(declared)@, k) <==> (has_decl(old(declared)@, k) || (k.0 == component@
                && texts(frameworks@).contains(k.1))),
{
    let ghost before = declared@;
    let ghost list = texts(frameworks@);
    let mut i: usize = 0;
    while i < frameworks.len()
        invariant
            i <= frameworks@.len(),
            list == texts(frameworks@),
            declared@.len() == before.len() + i,
            forall|k: int| 0 <= k < before.len() ==> #[trigger] declared@[k] == before[k],
            forall|k: int|
                before.len() <= k < declared@.len() ==> decl_key(#[trigger] declared@[k]) == (
                    component@,
                    list[k - before.len()],
                ),
        decreases frameworks.len() - i,
    {
        assert(list[i as int] == frameworks@[i as int]@);
        declared.push(
            AdapterDecl { component: own(component), framework: frameworks[i].clone() },
        );
        i += 1;
    }
    proof {
        let after = declared@;
        assert forall|k: (Seq<char>, Seq<char>)| #[trigger]
            has_decl(after, k) <==> (has_decl(before, k) || (k.0 == component@ && list.contains(
                k.1,
            ))) by {
            if has_decl(before, k) {
                let j = choose|j: int| 0 <= j < before.len() && decl_key(#[trigger] before[j]) == k;
                assert(after[j] == before[j]);
            }
            if k.0 == component@ && list.contains(k.1) {
                let j = choose|j: int| 0 <= j < list.len() && list[j] == k.1;
                assert(decl_key(after[before.len() + j]) == k);
            }
            if has_decl(after, k) {
                let j = choose|j: int| 0 <= j < after.len() && decl_key(#[trigger] after[j]) == k;
                if j < before.len() {
                    assert(decl_key(before[j]) == k);
                } else {
                    assert(list[j - before.len()] == k.1);
                }
            }
        }
    }
}

impl Declarations {
    /// Nothing yet.
    pub fn new() -> (r: Self)
        ensures
            r.wf(),
            r@ == (DeclarationsView {
                seen: Set::empty(),
                declared: Set::empty(),
                warnings: Seq::empty(),
            }),
    {
        let r = Declarations { seen: Vec::new(), declared: Vec::new(), warnings: Vec::new() };
        assert(texts(r.seen@) =~= Seq::empty());
        assert(r@ =~= (DeclarationsView {
            seen: Set::empty(),
            declared: Set::empty(),
            warnings: Seq::empty(),
        }));
        r
    }

    /// Whether the components that were seen are in order.
    pub open spec fn wf(self) -> bool {
        ascending(texts(self.seen@))
    }

    fn add_object(&mut self, dir: &str, o: &InstalledObject, read: &ManifestRead)
        requires
            old(self).wf(),
        ensures
            final(self).wf(),
            final(self)@ == old(self)@.with_object(dir@, *o, *read),
    {
        let ghost before = self@;
        let ghost old_seen = texts(self.seen@);
        let ghost old_declared = self.declared@;
        let ghost old_warnings = texts(self.warnings@);
        if !installed_component(o) {
            return;
        }
        let name = o.name.as_str();
        let fresh = insert_text(&mut self.seen, own(name));
        proof {
            assert(self@.seen =~= before.seen.insert(name@));
        }
        if !fresh {
            assert(before.seen.contains(name@));
            assert(before.seen.insert(name@) =~= before.seen);
            assert(self@ =~= before);
            return;
        }
        assert(!before.seen.contains(name@));
        match warn_about(dir, name, read) {
            Some(w) => {
                let ghost shown = w@;
                self.warnings.push(w);
                assert(texts(self.warnings@) =~= old_warnings.push(shown));
                assert(self@ =~= before.with_object(dir@, *o, *read));
            },
            None => {
                if let ManifestRead::Read(m) = read {
                    let frameworks = declared_frameworks(m);
                    push_frameworks(&mut self.declared, name, &frameworks);
                    proof {
                        let goal = before.with_object(dir@, *o, *read);
                        assert forall|k: (Seq<char>, Seq<char>)| self@.declared.contains(k)
                            == goal.declared.contains(k) by {
                            assert(texts(frameworks@).contains(k.1) <==> declares(
                                m.adapters@,
                                k.1,
                            ));
                        }
                        assert(self@.declared =~= goal.declared);
                        assert(self@ =~= goal);
                    }
                }
            },
        }
    }

    /// Goes through the record below a directory. `reads` is what became of
    /// reading the manifests of its objects, in order.
    pub fn add_record(&mut self, dir: &str, state: &InstalledState, reads: &Vec<ManifestRead>)
        requires
            old(self).wf(),
            reads@.len() == state.objects@.len(),
        ensures
            final(self).wf(),
            final(self)@ == old(self)@.with_objects(
                dir@,
                state.objects@,
                reads@,
                state.objects@.len(),
            ),
    {
        let ghost before = self@;
        let mut i: usize = 0;
        while i < state.objects.len()
            invariant
                i <= state.objects@.len() == reads@.len(),
                self.wf(),
                self@ == before.with_objects(dir@, state.objects@, reads@, i as nat),
            decreases state.objects.len() - i,
        {
            self.add_object(dir, &state.objects[i], &reads[i]);
            i += 1;
        }
    }

    /// Notes that the record below a directory could not be loaded.
    pub fn add_failure(&mut self, dir: &str, why: &str)
        requires
            old(self).wf(),
        ensures
            final(self).wf(),
            final(self)@ == old(self)@.with_failure(dir@, why@),
    {
        let ghost before = self@;
        let ghost old_warnings = texts(self.warnings@);
        let path = join_path(dir, "installed.toml");
        self.warnings.push(
            concat4("failed to load installed state at ", path.as_str(), ": ", why),
        );
        assert(texts(self.warnings@) =~= before.with_failure(dir@, why@).warnings);
        assert(self@ =~= before.with_failure(dir@, why@));
    }

    fn has(&self, component: &str, framework: &str) -> (r: bool)
        ensures
            r == self@.declared.contains((component@, framework@)),
    {
        let mut i: usize = 0;
        while i < self.declared.len()
            invariant
                i <= self.declared@.len(),
                forall|k: int|
                    0 <= k < i ==> decl_key(#[trigger] self.declared@[k]) != (
                        component@,
                        framework@,
                    ),
            decreases self.declared.len() - i,
        {
            if same(self.declared[i].component.as_str(), component) && same(
                self.declared[i].framework.as_str(),
                framework,
            ) {
                assert(decl_key(self.declared@[i as int]) == (component@, framework@));
                return true;
            }
            i += 1;
        }
        false
    }
}

/// Where the record below a state directory comes from.
#[derive(Debug)]
pub enum RecordSource {
    /// It is at hand.
    Current,
    /// It has to be loaded.
    Load(String),
}

impl AdapterManager {
    /// Where the record below the `at`-th state directory comes from.
    pub fn record_source(&self, at: usize) -> (r: RecordSource)
        requires
            at < self.state_roots@.len(),
        ensures
            if same_path(self.state_roots@[at as int]@, self.layout.state_dir@) {
                r is Current
            } else {
                r matches RecordSource::Load(path) && path@ == record_path(
                    self.state_roots@[at as int]@,
                )
            },
    {
        let dir = self.state_roots[at].as_str();
        if equal_paths(dir, self.layout.state_dir.as_str()) {
            RecordSource::Current
        } else {
            RecordSource::Load(join_path(dir, "installed.toml"))
        }
    }
}

// ---------------------------------------------------------------------------
// Entries
// ---------------------------------------------------------------------------

/// Resources that are there.
#[derive(Debug)]
pub struct FoundAdapter {
    /// Component.
    pub component: String,
    /// Framework.
    pub framework: String,
    /// Where they are.
    pub resource_root: String,
}

/// An adapter that is there.
#[derive(Debug)]
pub struct ScanEntry {
    /// Component.
    pub component: String,
    /// Framework.
    pub framework: String,
    /// Whether an installed component declares it.
    pub declared: bool,
    /// Where its resources are.
    pub resource_root: Option<String>,
    /// Whether there is a driver for the framework.
    pub driver_available: bool,
    /// Whether the framework is there.
    pub framework_detected: bool,
    /// Whether there is a receipt.
    pub enabled: bool,
    /// State of the receipt.
    pub claim_status: Option<ClaimStatus>,
}

/// What a [`ScanEntry`] holds.
pub struct ScanEntryView {
    /// Component and framework.
    pub key: (Seq<char>, Seq<char>),
    /// Whether an installed component declares it.
    pub declared: bool,
    /// Where its resources are.
    pub resource_root: Option<Seq<char>>,
    /// Whether there is a driver for the framework.
    pub driver_available: bool,
    /// Whether the framework is there.
    pub framework_detected: bool,
    /// Whether there is a receipt.
    pub enabled: bool,
    /// State of the receipt.
    pub claim_status: Option<ClaimStatus>,
}

impl View for ScanEntry {
    type V = ScanEntryView;

    open spec fn view(&self) -> ScanEntryView {
        ScanEntryView {
            key: (self.component@, self.framework@),
            declared: self.declared,
            resource_root: opt_text(self.resource_root),
            driver_available: self.driver_available,
            framework_detected: self.framework_detected,
            enabled: self.enabled,
            claim_status: self.claim_status,
        }
    }
}

/// The adapters that are there.
#[derive(Debug)]
pub struct ScanReport {
    /// One entry for each, by component and framework.
    pub entries: Vec<ScanEntry>,
    /// What could not be read.
    pub warnings: Vec<String>,
}

/// A key as a list, for comparing.
pub open spec fn key_list(k: (Seq<char>, Seq<char>)) -> Seq<Seq<char>> {
    seq![k.0, k.1]
}

/// Component and framework of found resources.
pub open spec fn found_key(f: FoundAdapter) -> (Seq<char>, Seq<char>) {
    (f.component@, f.framework@)
}

/// Where the first resources that were found for a key are.
pub open spec fn first_found(
    found: Seq<FoundAdapter>,
    key: (Seq<char>, Seq<char>),
) -> Option<Seq<char>>
    decreases found.len(),
{
    if found.len() == 0 {
        None
    } else {
        match first_found(found.drop_last(), key) {
            Some(root) => Some(root),
            None => if found_key(found.last()) == key {
                Some(found.last().resource_root@)
            } else {
                None
            },
        }
    }
}

/// The entry of an adapter.
pub open spec fn scan_entry(
    key: (Seq<char>, Seq<char>),
    root: Option<Seq<char>>,
    declared: bool,
    claims: Seq<ClaimView>,
    detected: bool,
) -> ScanEntryView {
    let at = claim_at(claims, key.0, key.1);
    ScanEntryView {
        key,
        declared,
        resource_root: root,
        driver_available: key.1 == "openclaw"@,
        framework_detected: key.1 == "openclaw"@ && detected,
        enabled: at is Some,
        claim_status: match at {
            Some(i) => Some(claims[i].status),
            None => None,
        },
    }
}

/// Whether there is an adapter with a key.
pub open spec fn is_there(
    key: (Seq<char>, Seq<char>),
    found: Seq<FoundAdapter>,
    declared: Set<(Seq<char>, Seq<char>)>,
) -> bool {
    first_found(found, key) is Some || declared.contains(key)
}

/// Whether every entry of a list is that of an adapter that is there.
pub open spec fn entries_true(
    entries: Seq<ScanEntry>,
    found: Seq<FoundAdapter>,
    declared: Set<(Seq<char>, Seq<char>)>,
    claims: Seq<ClaimView>,
    detected: bool,
) -> bool {
    forall|i: int|
        0 <= i < entries.len() ==> {
            let e = (#[trigger] entries[i])@;
            &&& is_there(e.key, found, declared)
            &&& e == scan_entry(
                e.key,
                first_found(found, e.key),
                declared.contains(e.key),
                claims,
                detected,
            )
        }
}

/// Whether a list has an entry for a key.
pub open spec fn has_entry(entries: Seq<ScanEntry>, key: (Seq<char>, Seq<char>)) -> bool {
    exists|i: int| 0 <= i < entries.len() && (#[trigger] entries[i])@.key == key
}

/// Whether no two entries of a list have one key.
pub open spec fn keys_distinct(entries: Seq<ScanEntry>) -> bool {
    forall|i: int, j: int|
        0 <= i < j < entries.len() ==> (#[trigger] entries[i])@.key != (#[trigger] entries[j])@.key
}

/// Whether a list is that of the adapters that are there: one entry for each,
/// with what is known of it, in ascending order of component and framework.
pub open spec fn scans(
    entries: Seq<ScanEntry>,
    found: Seq<FoundAdapter>,
    declared: Set<(Seq<char>, Seq<char>)>,
    claims: Seq<ClaimView>,
    detected: bool,
) -> bool {
    &&& entries_true(entries, found, declared, claims, detected)
    &&& forall|k: (Seq<char>, Seq<char>)|
        is_there(k, found, declared) ==> #[trigger] has_entry(entries, k)
    &&& forall|i: int, j: int|
        0 <= i < j < entries.len() ==> key_lt(
            key_list((#[trigger] entries[i])@.key),
            key_list((#[trigger] entries[j])@.key),
        )
}

impl Rank for ScanEntry {
    open spec fn precedes(self, other: Self) -> bool {
        key_lt(key_list(self@.key), key_list(other@.key))
    }

    proof fn asymmetric(a: Self, b: Self) {
        lemma_key_order();
        let lt = |x: Seq<Seq<char>>, y: Seq<Seq<char>>| key_lt(x, y);
        let ka = key_list(a@.key);
        let kb = key_list(b@.key);
        assert(!lt(ka, ka));
        assert(lt(ka, kb) && lt(kb, ka) ==> lt(ka, ka));
    }

    proof fn transitive(a: Self, b: Self, c: Self) {
        lemma_key_order();
        let lt = |x: Seq<Seq<char>>, y: Seq<Seq<char>>| key_lt(x, y);
        let ka = key_list(a@.key);
        let kb = key_list(b@.key);
        let kc = key_list(c@.key);
        assert(lt(kb, kc) || kb == kc || lt(kc, kb));
        assert(lt(ka, kb) || ka == kb || lt(kb, ka));
        assert(lt(ka, kb) && lt(kb, kc) ==> lt(ka, kc));
    }
}

impl Ranked for ScanEntry {
    fn is_before(&self, other: &Self) -> (r: bool) {
        matches!(
            compare_pairs(
                self.component.as_str(),
                self.framework.as_str(),
                other.component.as_str(),
                other.framework.as_str(),
            ),
            Order::Before
        )
    }
}

fn make_entry(
    component: &str,
    framework: &str,
    resource_root: Option<String>,
    declared: bool,
    state: &InstalledState,
    detected: bool,
) -> (r: ScanEntry)
    ensures
        r@ == scan_entry(
            (component@, framework@),
            opt_text(resource_root),
            declared,
            state.claims(),
            detected,
        ),
{
    let driver_available = driver_for(framework).is_some();
    let (enabled, claim_status) = match state.find_adapter_claim(component, framework) {
        Some(c) => (true, Some(c.status)),
        None => (false, None),
    };
    ScanEntry {
        component: own(component),
        framework: own(framework),
        declared,
        resource_root,
        driver_available,
        framework_detected: driver_available && detected,
        enabled,
        claim_status,
    }
}

fn entry_listed(entries: &Vec<ScanEntry>, component: &str, framework: &str) -> (r: bool)
    ensures
        r == has_entry(entries@, (component@, framework@)),
{
    let mut i: usize = 0;
    while i < entries.len()
        invariant
            i <= entries@.len(),
            forall|k: int|
                0 <= k < i ==> (#[trigger] entries@[k])@.key != (component@, framework@),
        decreases entries.len() - i,
    {
        if same(entries[i].component.as_str(), component) && same(
            entries[i].framework.as_str(),
            framework,
        ) {
            assert(entries@[i as int]@.key == (component@, framework@));
            return true;
        }
        i += 1;
    }
    false
}

/// One more adapter was found.
proof fn lemma_found_step(found: Seq<FoundAdapter>, n: int, key: (Seq<char>, Seq<char>))
    requires
        0 <= n < found.len(),
    ensures
        first_found(found.take(n + 1), key) == match first_found(found.take(n), key) {
            Some(root) => Some(root),
            None => if found_key(found[n]) == key {
                Some(found[n].resource_root@)
            } else {
                None
            },
        },
{
    assert(found.take(n + 1).drop_last() =~= found.take(n));
}

/// The entries of the adapters with resources, each once, not in order.
fn found_entries(
    found: &Vec<FoundAdapter>,
    declarations: &Declarations,
    state: &InstalledState,
    detected: bool,
) -> (r: Vec<ScanEntry>)
    ensures
        entries_true(r@, found@, declarations@.declared, state.claims(), detected),
        keys_distinct(r@),
        forall|k: (Seq<char>, Seq<char>)|
            has_entry(r@, k) <==> #[trigger] first_found(found@, k) is Some,
{
    let ghost declared = declarations@.declared;
    let ghost claims = state.claims();
    let mut list: Vec<ScanEntry> = Vec::new();
    let mut i: usize = 0;
    assert(found@.take(0) =~= Seq::empty());
    while i < found.len()
        invariant
            i <= found@.len(),
            declared == declarations@.declared,
            claims == state.claims(),
            entries_true(list@, found@.take(i as int), declared, claims, detected),
            keys_distinct(list@),
            forall|k: (Seq<char>, Seq<char>)|
                has_entry(list@, k) <==> #[trigger] first_found(found@.take(i as int), k) is Some,
        decreases found.len() - i,
    {
        let ghost before = list@;
        let ghost seen = found@.take(i as int);
        let ghost more = found@.take(i + 1);
        let f = &found[i];
        let ghost key = found_key(*f);
        proof {
            assert forall|k: (Seq<char>, Seq<char>)| #[trigger] first_found(more, k) == (
            match first_found(seen, k) {
                Some(root) => Some(root),
                None => if key == k {
                    Some(f.resource_root@)
                } else {
                    None
                },
            }) by {
                lemma_found_step(found@, i as int, k);
            }
        }
        if !entry_listed(&list, f.component.as_str(), f.framework.as_str()) {
            let declared_too = declarations.has(f.component.as_str(), f.framework.as_str());
            let entry = make_entry(
                f.component.as_str(),
                f.framework.as_str(),
                Some(f.resource_root.clone()),
                declared_too,
                state,
                detected,
            );
            let ghost shown = entry@;
            list.push(entry);
            proof {
                assert(first_found(seen, key) is None);
                assert(first_found(more, key) == Some(f.resource_root@));
                assert forall|k: (Seq<char>, Seq<char>)|
                    has_entry(list@, k) <==> #[trigger] first_found(more, k) is Some by {
                    if has_entry(before, k) {
                        let j = choose|j: int|
                            0 <= j < before.len() && (#[trigger] before[j])@.key == k;
                        assert(list@[j] == before[j]);
                    }
                    if k == key {
                        assert(list@[before.len() as int]@.key == k);
                    }
                    if has_entry(list@, k) && k != key {
                        let j = choose|j: int|
                            0 <= j < list@.len() && (#[trigger] list@[j])@.key == k;
                        assert(j < before.len());
                        assert(before[j]@.key == k);
                    }
                }
                assert forall|j: int| 0 <= j < list@.len() implies {
                    let e = (#[trigger] list@[j])@;
                    &&& is_there(e.key, more, declared)
                    &&& e == scan_entry(
                        e.key,
                        first_found(more, e.key),
                        declared.contains(e.key),
                        claims,
                        detected,
                    )
                } by {
                    if j < before.len() {
                        let e = before[j]@;
                        assert(has_entry(before, e.key));
                        assert(first_found(seen, e.key) is Some);
                        assert(first_found(more, e.key) == first_found(seen, e.key));
                    }
                }
                assert forall|a: int, b: int| 0 <= a < b < list@.len() implies (
                #[trigger] list@[a])@.key != (#[trigger] list@[b])@.key by {
                    if b < before.len() {
                        assert(before[a]@.key != before[b]@.key);
                    } else {
                        assert(!has_entry(before, key));
                        assert(before[a]@.key != key);
                    }
                }
            }
        } else {
            proof {
                assert(first_found(seen, key) is Some);
                assert forall|k: (Seq<char>, Seq<char>)|
                    has_entry(list@, k) <==> #[trigger] first_found(more, k) is Some by {
                    assert(first_found(more, k) == first_found(seen, k));
                }
                assert forall|j: int| 0 <= j < list@.len() implies {
                    let e = (#[trigger] list@[j])@;
                    &&& is_there(e.key, more, declared)
                    &&& e == scan_entry(
                        e.key,
                        first_found(more, e.key),
                        declared.contains(e.key),
                        claims,
                        detected,
                    )
                } by {
                    let e = before[j]@;
                    assert(first_found(more, e.key) == first_found(seen, e.key));
                }
            }
        }
        i += 1;
    }
    assert(found@.take(found@.len() as int) =~= found@);
    list
}

/// Adds the entries of the declared adapters without resources.
fn declared_entries(
    list: Vec<ScanEntry>,
    found: &Vec<FoundAdapter>,
    declarations: &Declarations,
    state: &InstalledState,
    detected: bool,
) -> (r: Vec<ScanEntry>)
    requires
        entries_true(list@, found@, declarations@.declared, state.claims(), detected),
        keys_distinct(list@),
        forall|k: (Seq<char>, Seq<char>)|
            has_entry(list@, k) <==> #[trigger] first_found(found@, k) is Some,
    ensures
        entries_true(r@, found@, declarations@.declared, state.claims(), detected),
        keys_distinct(r@),
        forall|k: (Seq<char>, Seq<char>)|
            is_there(k, found@, declarations@.declared) ==> #[trigger] has_entry(r@, k),
{
    let ghost declared = declarations@.declared;
    let ghost claims = state.claims();
    let ghost first = list@;
    let mut list = list;
    let mut i: usize = 0;
    while i < declarations.declared.len()
        invariant
            i <= declarations.declared@.len(),
            declared == declarations@.declared,
            claims == state.claims(),
            entries_true(list@, found@, declared, claims, detected),
            keys_distinct(list@),
            forall|k: (Seq<char>, Seq<char>)|
                first_found(found@, k) is Some ==> #[trigger] has_entry(list@, k),
            forall|n: int|
                0 <= n < i ==> has_entry(list@, decl_key(#[trigger] declarations.declared@[n])),
        decreases declarations.declared.len() - i,
    {
        let ghost before = list@;
        let d = &declarations.declared[i];
        let ghost key = decl_key(*d);
        if !entry_listed(&list, d.component.as_str(), d.framework.as_str()) {
            let entry = make_entry(
                d.component.as_str(),
                d.framework.as_str(),
                None,
                true,
                state,
                detected,
            );
            list.push(entry);
            proof {
                assert(first_found(found@, key) is None);
                assert(declared.contains(key)) by {
                    assert(decl_key(declarations.declared@[i as int]) == key);
                }
                assert forall|k: (Seq<char>, Seq<char>)| has_entry(before, k) implies has_entry(
                    list@,
                    k,
                ) by {
                    let j = choose|j: int|
                        0 <= j < before.len() && (#[trigger] before[j])@.key == k;
                    assert(list@[j] == before[j]);
                }
                assert(list@[before.len() as int]@.key == key);
                assert(has_entry(list@, key));
                assert forall|k: (Seq<char>, Seq<char>)|
                    first_found(found@, k) is Some implies #[trigger] has_entry(list@, k) by {
                    assert(has_entry(before, k));
                }
                assert forall|n: int| 0 <= n < i + 1 implies has_entry(
                    list@,
                    decl_key(#[trigger] declarations.declared@[n]),
                ) by {
                    if n < i {
                        assert(has_entry(before, decl_key(declarations.declared@[n])));
                    }
                }
                assert forall|a: int, b: int| 0 <= a < b < list@.len() implies (
                #[trigger] list@[a])@.key != (#[trigger] list@[b])@.key by {
                    if b < before.len() {
                        assert(before[a]@.key != before[b]@.key);
                    } else {
                        assert(!has_entry(before, key));
                        assert(before[a]@.key != key);
                    }
                }
            }
        }
        i += 1;
    }
    proof {
        assert forall|k: (Seq<char>, Seq<char>)| is_there(k, found@, declared) implies
            #[trigger] has_entry(list@, k) by {
            if first_found(found@, k) is None {
                let n = choose|n: int|
                    0 <= n < declarations.declared@.len() && decl_key(
                        #[trigger] declarations.declared@[n],
                    ) == k;
                assert(has_entry(list@, decl_key(declarations.declared@[n])));
            }
        }
    }
    list
}

/// Sorting keeps the entries, and brings them in order.
proof fn lemma_sorted_scan(
    sorted: Seq<ScanEntry>,
    list: Seq<ScanEntry>,
    found: Seq<FoundAdapter>,
    declared: Set<(Seq<char>, Seq<char>)>,
    claims: Seq<ClaimView>,
    detected: bool,
)
    requires
        is_sorted(sorted, list),
        entries_true(list, found, declared, claims, detected),
        keys_distinct(list),
        forall|k: (Seq<char>, Seq<char>)|
            is_there(k, found, declared) ==> #[trigger] has_entry(list, k),
    ensures
        scans(sorted, found, declared, claims, detected),
{
    list.to_multiset_ensures();
    sorted.to_multiset_ensures();
    assert forall|x: ScanEntry| list.contains(x) <==> sorted.contains(x) by {
        assert(list.to_multiset().count(x) == sorted.to_multiset().count(x));
    }
    assert forall|i: int, j: int| 0 <= i < list.len() && 0 <= j < list.len() && i
        != j implies list[i] != list[j] by {
        if i < j {
            assert(list[i]@.key != list[j]@.key);
        } else {
            assert(list[j]@.key != list[i]@.key);
        }
    }
    assert(list.no_duplicates());
    list.lemma_multiset_has_no_duplicates();
    sorted.lemma_multiset_has_no_duplicates_conv();
    assert forall|i: int| 0 <= i < sorted.len() implies {
        let e = (#[trigger] sorted[i])@;
        &&& is_there(e.key, found, declared)
        &&& e == scan_entry(
            e.key,
            first_found(found, e.key),
            declared.contains(e.key),
            claims,
            detected,
        )
    } by {
        assert(sorted.contains(sorted[i]));
        assert(list.contains(sorted[i]));
        let j = choose|j: int| 0 <= j < list.len() && list[j] == sorted[i];
        assert(is_there(list[j]@.key, found, declared));
    }
    assert forall|k: (Seq<char>, Seq<char>)| is_there(k, found, declared) implies
        #[trigger] has_entry(sorted, k) by {
        assert(has_entry(list, k));
        let j = choose|j: int| 0 <= j < list.len() && (#[trigger] list[j])@.key == k;
        assert(list.contains(list[j]));
        assert(sorted.contains(list[j]));
        let i = choose|i: int| 0 <= i < sorted.len() && sorted[i] == list[j];
        assert(sorted[i]@.key == k);
    }
    assert forall|i: int, j: int| 0 <= i < j < sorted.len() implies key_lt(
        key_list((#[trigger] sorted[i])@.key),
        key_list((#[trigger] sorted[j])@.key),
    ) by {
        lemma_key_order();
        let lt = |x: Seq<Seq<char>>, y: Seq<Seq<char>>| key_lt(x, y);
        let a = key_list(sorted[i]@.key);
        let b = key_list(sorted[j]@.key);
        assert(!sorted[j].precedes(sorted[i]));
        assert(lt(a, b) || a == b || lt(b, a));
        if a == b {
            assert(a[0] == b[0] && a[1] == b[1]);
            assert(sorted[i]@.key == sorted[j]@.key);
            assert(list.contains(sorted[i]) && list.contains(sorted[j])) by {
                assert(sorted.contains(sorted[i]) && sorted.contains(sorted[j]));
            }
            let p = choose|p: int| 0 <= p < list.len() && list[p] == sorted[i];
            let q = choose|q: int| 0 <= q < list.len() && list[q] == sorted[j];
            assert(sorted[i] != sorted[j]);
            if p < q {
                assert(list[p]@.key != list[q]@.key);
            } else if q < p {
                assert(list[q]@.key != list[p]@.key);
            }
        }
    }
}

impl AdapterManager {
    /// Lists the adapters that are there. `found` are the resources below the
    /// data directories, most preferred directory first; `probe` is what was
    /// found of the framework.
    pub fn scan(
        &self,
        state: &InstalledState,
        found: &Vec<FoundAdapter>,
        declarations: Declarations,
        probe: &OpenClawProbe,
    ) -> (r: ScanReport)
        ensures
            scans(
                r.entries@,
                found@,
                declarations@.declared,
                state.claims(),
                openclaw_detection(self.env, *probe).0,
            ),
            texts(r.warnings@) == declarations@.warnings,
    {
        let detected = probe.cli_at.is_some();
        let list = found_entries(found, &declarations, state, detected);
        let list = declared_entries(list, found, &declarations, state, detected);
        let ghost all = list@;
        let entries = sort(list);
        proof {
            lemma_sorted_scan(
                entries@,
                all,
                found@,
                declarations@.declared,
                state.claims(),
                detected,
            );
        }
        ScanReport { entries, warnings: declarations.warnings }
    }
}

// ---------------------------------------------------------------------------
// Laws
// ---------------------------------------------------------------------------

/// A component that was seen in one record is hidden in all records after it:
/// they neither add to nor take from what it declares.
pub proof fn law_earlier_records_hide_later(
    before: DeclarationsView,
    dir: Seq<char>,
    objects: Seq<InstalledObject>,
    reads: Seq<ManifestRead>,
    n: nat,
    key: (Seq<char>, Seq<char>),
)
    requires
        before.seen.contains(key.0),
    ensures
        before.with_objects(dir, objects, reads, n).seen.contains(key.0),
        before.with_objects(dir, objects, reads, n).declared.contains(key)
            == before.declared.contains(key),
    decreases n,
{
    if n > 0 {
        law_earlier_records_hide_later(before, dir, objects, reads, (n - 1) as nat, key);
    }
}

/// No adapter is listed twice.
pub proof fn law_adapters_listed_once(
    entries: Seq<ScanEntry>,
    found: Seq<FoundAdapter>,
    declared: Set<(Seq<char>, Seq<char>)>,
    claims: Seq<ClaimView>,
    detected: bool,
    i: int,
    j: int,
)
    requires
        scans(entries, found, declared, claims, detected),
        0 <= i < j < entries.len(),
    ensures
        entries[i]@.key != entries[j]@.key,
{
    lemma_key_order();
    let lt = |x: Seq<Seq<char>>, y: Seq<Seq<char>>| key_lt(x, y);
    let a = key_list(entries[i]@.key);
    assert(key_lt(a, key_list(entries[j]@.key)));
    assert(!lt(a, a));
}

/// An adapter is listed as enabled exactly when there is a receipt for it.
pub proof fn law_enabled_means_receipt(
    entries: Seq<ScanEntry>,
    found: Seq<FoundAdapter>,
    declared: Set<(Seq<char>, Seq<char>)>,
    claims: Seq<ClaimView>,
    detected: bool,
    i: int,
)
    requires
        scans(entries, found, declared, claims, detected),
        0 <= i < entries.len(),
    ensures
        entries[i]@.enabled <==> claim_at(claims, entries[i]@.key.0, entries[i]@.key.1) is Some,
        entries[i]@.enabled <==> entries[i]@.claim_status is Some,
{
    assert(is_there(entries[i]@.key, found, declared));
}

/// What looking at one object changes: only an installed component that was not
/// seen counts. It is seen from then on, and either its manifest cannot be used,
/// which is warned about once, or it declares what the manifest says and no more.
pub proof fn law_object_that_counts(
    before: DeclarationsView,
    dir: Seq<char>,
    o: InstalledObject,
    read: ManifestRead,
    key: (Seq<char>, Seq<char>),
)
    ensures
        ({
            let after = before.with_object(dir, o, read);
            let counts = o.kind == ObjectKind::Component && o.status is Installed
                && !before.seen.contains(o.name@);
            let usable = read is Read && read->Read_0.component.name@ == o.name@;
            &&& !counts ==> after == before
            &&& counts ==> forall|c: Seq<char>| #[trigger]
                after.seen.contains(c) <==> before.seen.contains(c) || c == o.name@
            &&& counts && usable ==> after.warnings == before.warnings
            &&& counts && !usable ==> after.warnings.len() == before.warnings.len() + 1
                && after.warnings.drop_last() == before.warnings && after.declared
                == before.declared
            &&& counts && usable ==> (after.declared.contains(key) <==> before.declared.contains(
                key,
            ) || (key.0 == o.name@ && declares(read->Read_0.adapters@, key.1)))
            &&& counts && read is Missing ==> after.warnings.last() == "installed component '"@
                + o.name@ + "' has no local component manifest at "@ + installed_manifest_path(
                dir,
                o.name@,
            )
            &&& counts && read is Failed ==> after.warnings.last()
                == "failed to read installed component manifest for '"@ + o.name@ + "' at "@
                + installed_manifest_path(dir, o.name@) + ": "@ + read->Failed_0@
        }),
{
    let after = before.with_object(dir, o, read);
    if after.warnings.len() == before.warnings.len() + 1 {
        assert(after.warnings.drop_last() =~= before.warnings);
    }
}

/// Objects are looked at one after another: looking at one more is looking at it
/// after all before it. A record that cannot be loaded is warned about and hides
/// nothing.
pub proof fn law_objects_one_after_another(
    before: DeclarationsView,
    dir: Seq<char>,
    objects: Seq<InstalledObject>,
    reads: Seq<ManifestRead>,
    n: nat,
    why: Seq<char>,
)
    ensures
        before.with_objects(dir, objects, reads, 0) == before,
        before.with_objects(dir, objects, reads, n + 1) == before.with_objects(
            dir,
            objects,
            reads,
            n,
        ).with_object(dir, objects[n as int], reads[n as int]),
        before.with_failure(dir, why).seen == before.seen,
        before.with_failure(dir, why).declared == before.declared,
        before.with_failure(dir, why).warnings == before.warnings.push(
            "failed to load installed state at "@ + record_path(dir) + ": "@ + why,
        ),
{
}

/// Resources of an adapter are those that were found first.
pub proof fn law_first_resources_count(
    found: Seq<FoundAdapter>,
    key: (Seq<char>, Seq<char>),
    i: int,
)
    requires
        0 <= i < found.len(),
        found[i].component@ == key.0 && found[i].framework@ == key.1,
        forall|k: int|
            0 <= k < i ==> !((#[trigger] found[k]).component@ == key.0 && found[k].framework@
                == key.1),
    ensures
        first_found(found, key) == Some(found[i].resource_root@),
    decreases found.len(),
{
    let rest = found.drop_last();
    if i < rest.len() {
        assert(forall|k: int| 0 <= k < rest.len() ==> rest[k] == found[k]);
        law_first_resources_count(rest, key, i);
    } else {
        assert(forall|k: int| 0 <= k < rest.len() ==> rest[k] == found[k]);
        law_no_resources(rest, key);
    }
}

/// Where nothing was found for an adapter, it has no resources.
pub proof fn law_no_resources(found: Seq<FoundAdapter>, key: (Seq<char>, Seq<char>))
    requires
        forall|k: int|
            0 <= k < found.len() ==> !((#[trigger] found[k]).component@ == key.0
                && found[k].framework@ == key.1),
    ensures
        first_found(found, key) is None,
    decreases found.len(),
{
    if found.len() > 0 {
        let rest = found.drop_last();
        assert(forall|k: int| 0 <= k < rest.len() ==> rest[k] == found[k]);
        law_no_resources(rest, key);
        assert(found.last() == found[found.len() - 1]);
    }
}

/// A scan lists exactly the adapters that were found or are declared, and of each
/// says whether it is declared, where its resources are, whether its framework has
/// a driver and was detected, and what its receipt says.
pub proof fn law_what_a_scan_lists(
    entries: Seq<ScanEntry>,
    found: Seq<FoundAdapter>,
    declared: Set<(Seq<char>, Seq<char>)>,
    claims: Seq<ClaimView>,
    detected: bool,
    key: (Seq<char>, Seq<char>),
    i: int,
)
    requires
        scans(entries, found, declared, claims, detected),
    ensures
        (exists|i: int| 0 <= i < entries.len() && (#[trigger] entries[i]).component@ == key.0
            && entries[i].framework@ == key.1) <==> first_found(found, key) is Some
            || declared.contains(key),
        0 <= i < entries.len() ==> {
            let e = entries[i];
            let at = claim_at(claims, e.component@, e.framework@);
            &&& e.declared <==> declared.contains((e.component@, e.framework@))
            &&& opt_text(e.resource_root) == first_found(found, (e.component@, e.framework@))
            &&& e.driver_available <==> e.framework@ == "openclaw"@
            &&& e.framework_detected <==> e.framework@ == "openclaw"@ && detected
            &&& e.enabled <==> at is Some
            &&& at is Some ==> e.claim_status == Some(claims[at->0].status)
            &&& at is None ==> e.claim_status is None
        },
{
    if exists|i: int|
        0 <= i < entries.len() && (#[trigger] entries[i]).component@ == key.0
            && entries[i].framework@ == key.1 {
        let i = choose|i: int|
            0 <= i < entries.len() && (#[trigger] entries[i]).component@ == key.0
                && entries[i].framework@ == key.1;
        assert(entries[i]@.key == key);
    }
    if is_there(key, found, declared) {
        assert(has_entry(entries, key));
        let i = choose|i: int| 0 <= i < entries.len() && (#[trigger] entries[i])@.key == key;
        assert(entries[i].component@ == key.0 && entries[i].framework@ == key.1);
    }
    if 0 <= i < entries.len() {
        assert(entries[i]@.key == (entries[i].component@, entries[i].framework@));
    }
}

} // verus!
