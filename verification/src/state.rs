//! The record of what is installed.

use crate::adapter::claim::{AdapterClaim, ClaimView};
use crate::context::InstallMode;
use crate::lists::lemma_filter_step;
use crate::text::{same, texts};
use vstd::prelude::*;

verus! {

/// What an object is.
#[derive(Clone, Copy, PartialEq, Eq, Structural, Debug)]
pub enum ObjectKind {
    /// A component.
    Component,
    /// A capability, as older releases recorded them.
    Capability,
}

/// State of an object.
#[derive(Debug)]
pub enum ObjectStatus {
    /// Installed.
    Installed,
    /// Something else, by its name.
    Other(String),
}

/// Whom an object is subscribed for.
#[derive(Debug)]
pub enum SubscriptionScope {
    /// As for a new object.
    Standard,
    /// Something else, by its name.
    Other(String),
}

impl Default for SubscriptionScope {
    fn default() -> (r: Self)
        ensures
            r is Standard,
    {
        SubscriptionScope::Standard
    }
}

/// Who wrote a file.
#[derive(Clone, Copy, PartialEq, Eq, Structural, Debug)]
pub enum FileOwner {
    /// This program.
    Anolisa,
    /// Somebody else.
    External,
}

/// A file of an object.
#[derive(Debug)]
pub struct OwnedFile {
    /// Path.
    pub path: String,
    /// Who wrote it.
    pub owner: FileOwner,
    /// Its digest.
    pub sha256: Option<String>,
}

/// A service of an object.
#[derive(Debug)]
pub struct ServiceRef {
    /// Unit.
    pub name: String,
    /// Service manager.
    pub manager: String,
    /// Whether it can be restarted.
    pub restartable: bool,
    /// Whether it is enabled.
    pub enabled: bool,
}

/// Something that is installed.
#[derive(Debug)]
pub struct InstalledObject {
    /// What it is.
    pub kind: ObjectKind,
    /// Name.
    pub name: String,
    /// Version.
    pub version: String,
    /// State.
    pub status: ObjectStatus,
    /// Digest of its manifest.
    pub manifest_digest: Option<String>,
    /// Where it was installed from.
    pub distribution_source: Option<String>,
    /// What it was installed through.
    pub install_backend: Option<String>,
    /// When it was installed.
    pub installed_at: String,
    /// Operation that last changed it.
    pub last_operation_id: Option<String>,
    /// Whether it is managed.
    pub managed: bool,
    /// Whether it was there before.
    pub adopted: bool,
    /// Whom it is subscribed for.
    pub subscription_scope: SubscriptionScope,
    /// Features that are on.
    pub enabled_features: Vec<String>,
    /// Components that it refers to.
    pub component_refs: Vec<String>,
    /// Files.
    pub files: Vec<OwnedFile>,
    /// Files of others that it changed.
    pub external_modified_files: Vec<String>,
    /// Services.
    pub services: Vec<ServiceRef>,
    /// Results of health checks.
    pub health: Vec<String>,
}

/// An operation that was carried out.
#[derive(Debug)]
pub struct OperationRecord {
    /// Id.
    pub id: String,
    /// Command line.
    pub command: String,
    /// How it ended.
    pub status: String,
    /// When it began.
    pub started_at: String,
    /// When it ended.
    pub finished_at: Option<String>,
}

/// The record of what is installed under one root.
#[derive(Debug)]
pub struct InstalledState {
    /// Whose files it is about.
    pub install_mode: InstallMode,
    /// Root.
    pub prefix: String,
    /// What is installed.
    pub objects: Vec<InstalledObject>,
    /// What was done, oldest first.
    pub operations: Vec<OperationRecord>,
    /// Receipts of enabled adapters.
    pub adapter_claims: Vec<AdapterClaim>,
}

// ---------------------------------------------------------------------------
// Objects
// ---------------------------------------------------------------------------

/// Position of the first object of a kind with a name.
pub open spec fn object_at(
    objects: Seq<InstalledObject>,
    kind: ObjectKind,
    name: Seq<char>,
) -> Option<int>
    decreases objects.len(),
{
    if objects.len() == 0 {
        None
    } else if objects[0].kind == kind && objects[0].name@ == name {
        Some(0)
    } else {
        match object_at(objects.skip(1), kind, name) {
            Some(i) => Some(i + 1),
            None => None,
        }
    }
}

/// The objects with `obj` in the place of the one that it replaces, or at the
/// end.
pub open spec fn with_object(
    objects: Seq<InstalledObject>,
    obj: InstalledObject,
) -> Seq<InstalledObject> {
    match object_at(objects, obj.kind, obj.name@) {
        Some(i) => objects.update(i, obj),
        None => objects.push(obj),
    }
}

/// A position that is found is one in the list.
pub proof fn lemma_object_at(objects: Seq<InstalledObject>, kind: ObjectKind, name: Seq<char>)
    ensures
        object_at(objects, kind, name) matches Some(i) ==> {
            &&& 0 <= i < objects.len()
            &&& objects[i].kind == kind
            &&& objects[i].name@ == name
        },
    decreases objects.len(),
{
    if objects.len() > 0 && !(objects[0].kind == kind && objects[0].name@ == name) {
        lemma_object_at(objects.skip(1), kind, name);
    }
}

/// Names of the objects of a list.
pub open spec fn names_of(objects: Seq<InstalledObject>) -> Seq<Seq<char>> {
    objects.map_values(|o: InstalledObject| o.name@)
}

/// The objects that are not capabilities, in order.
pub open spec fn without_capabilities(objects: Seq<InstalledObject>) -> Seq<InstalledObject> {
    objects.filter(|o: InstalledObject| o.kind != ObjectKind::Capability)
}

/// The objects that are capabilities, in order.
pub open spec fn capabilities(objects: Seq<InstalledObject>) -> Seq<InstalledObject> {
    objects.filter(|o: InstalledObject| o.kind == ObjectKind::Capability)
}

fn find_position(objects: &Vec<InstalledObject>, kind: ObjectKind, name: &str) -> (r: Option<usize>)
    ensures
        match r {
            Some(i) => i < objects@.len() && object_at(objects@, kind, name@) == Some(i as int),
            None => object_at(objects@, kind, name@) is None,
        },
{
    let mut i: usize = 0;
    assert(objects@.skip(0) =~= objects@);
    while i < objects.len()
        invariant
            i <= objects@.len(),
            object_at(objects@, kind, name@) == match object_at(
                objects@.skip(i as int),
                kind,
                name@,
            ) {
                Some(k) => Some(k + i),
                None => None,
            },
        decreases objects.len() - i,
    {
        if objects[i].kind == kind && same(objects[i].name.as_str(), name) {
            return Some(i);
        }
        assert(objects@.skip(i as int).skip(1) =~= objects@.skip(i + 1));
        i += 1;
    }
    None
}

// ---------------------------------------------------------------------------
// Receipts
// ---------------------------------------------------------------------------

/// What receipts hold.
pub open spec fn claims_of(claims: Seq<AdapterClaim>) -> Seq<ClaimView> {
    claims.map_values(|c: AdapterClaim| c@)
}

/// Whether a receipt is that of a component and a framework.
pub open spec fn is_claim_of(c: ClaimView, component: Seq<char>, framework: Seq<char>) -> bool {
    c.component == component && c.framework == framework
}

/// Position of the first receipt of a component and a framework.
pub open spec fn claim_at(
    claims: Seq<ClaimView>,
    component: Seq<char>,
    framework: Seq<char>,
) -> Option<int>
    decreases claims.len(),
{
    if claims.len() == 0 {
        None
    } else if is_claim_of(claims[0], component, framework) {
        Some(0)
    } else {
        match claim_at(claims.skip(1), component, framework) {
            Some(i) => Some(i + 1),
            None => None,
        }
    }
}

/// The receipts with `c` in the place of the one that it replaces, or at the
/// end.
pub open spec fn with_claim(claims: Seq<ClaimView>, c: ClaimView) -> Seq<ClaimView> {
    match claim_at(claims, c.component, c.framework) {
        Some(i) => claims.update(i, c),
        None => claims.push(c),
    }
}

/// The receipts without those of a component and a framework.
pub open spec fn without_claim(
    claims: Seq<ClaimView>,
    component: Seq<char>,
    framework: Seq<char>,
) -> Seq<ClaimView> {
    claims.filter(|c: ClaimView| !is_claim_of(c, component, framework))
}

/// The receipts of a component, in order.
pub open spec fn claims_for(claims: Seq<ClaimView>, component: Seq<char>) -> Seq<ClaimView> {
    claims.filter(|c: ClaimView| c.component == component)
}

/// A position that is found is the first of its kind.
proof fn lemma_claim_at(claims: Seq<ClaimView>, component: Seq<char>, framework: Seq<char>)
    ensures
        match claim_at(claims, component, framework) {
            Some(i) => {
                &&& 0 <= i < claims.len()
                &&& is_claim_of(claims[i], component, framework)
                &&& forall|k: int|
                    0 <= k < i ==> !is_claim_of(#[trigger] claims[k], component, framework)
            },
            None => forall|k: int|
                0 <= k < claims.len() ==> !is_claim_of(#[trigger] claims[k], component, framework),
        },
    decreases claims.len(),
{
    if claims.len() > 0 && !is_claim_of(claims[0], component, framework) {
        let rest = claims.skip(1);
        lemma_claim_at(rest, component, framework);
        assert forall|k: int| 0 < k < claims.len() implies claims[k] == #[trigger] rest[k - 1] by {}
        match claim_at(rest, component, framework) {
            Some(i) => {
                assert forall|k: int| 0 <= k < i + 1 implies !is_claim_of(
                    #[trigger] claims[k],
                    component,
                    framework,
                ) by {
                    if k > 0 {
                        assert(claims[k] == rest[k - 1]);
                    }
                }
            },
            None => {
                assert forall|k: int| 0 <= k < claims.len() implies !is_claim_of(
                    #[trigger] claims[k],
                    component,
                    framework,
                ) by {
                    if k > 0 {
                        assert(claims[k] == rest[k - 1]);
                    }
                }
            },
        }
    }
}

proof fn lemma_claim_at_unique(
    claims: Seq<ClaimView>,
    component: Seq<char>,
    framework: Seq<char>,
    i: int,
)
    requires
        0 <= i < claims.len(),
        is_claim_of(claims[i], component, framework),
        forall|k: int| 0 <= k < i ==> !is_claim_of(#[trigger] claims[k], component, framework),
    ensures
        claim_at(claims, component, framework) == Some(i),
{
    lemma_claim_at(claims, component, framework);
    match claim_at(claims, component, framework) {
        Some(j) => {
            if j < i {
                assert(!is_claim_of(claims[j], component, framework));
            } else if i < j {
                assert(!is_claim_of(claims[i], component, framework));
            }
        },
        None => {
            assert(!is_claim_of(claims[i], component, framework));
        },
    }
}

fn claim_position(claims: &Vec<AdapterClaim>, component: &str, framework: &str) -> (r: Option<
    usize,
>)
    ensures
        match r {
            Some(i) => i < claims@.len() && claim_at(claims_of(claims@), component@, framework@)
                == Some(i as int),
            None => claim_at(claims_of(claims@), component@, framework@) is None,
        },
{
    let ghost all = claims_of(claims@);
    let mut i: usize = 0;
    assert(all.skip(0) =~= all);
    while i < claims.len()
        invariant
            i <= claims@.len(),
            all == claims_of(claims@),
            claim_at(all, component@, framework@) == match claim_at(
                all.skip(i as int),
                component@,
                framework@,
            ) {
                Some(k) => Some(k + i),
                None => None,
            },
        decreases claims.len() - i,
    {
        assert(all[i as int] == claims@[i as int]@);
        if same(claims[i].component.as_str(), component) && same(
            claims[i].framework.as_str(),
            framework,
        ) {
            return Some(i);
        }
        assert(all.skip(i as int).skip(1) =~= all.skip(i + 1));
        i += 1;
    }
    None
}

impl InstalledState {
    /// What the receipts hold.
    pub open spec fn claims(self) -> Seq<ClaimView> {
        claims_of(self.adapter_claims@)
    }

    /// Whether everything but the receipts is as in another record.
    pub open spec fn same_but_claims(self, other: InstalledState) -> bool {
        &&& self.install_mode == other.install_mode
        &&& self.prefix == other.prefix
        &&& self.objects == other.objects
        &&& self.operations == other.operations
    }

    /// The first object of a kind with a name.
    pub fn find_object(&self, kind: ObjectKind, name: &str) -> (r: Option<&InstalledObject>)
        ensures
            match object_at(self.objects@, kind, name@) {
                Some(i) => r matches Some(o) && *o == self.objects@[i],
                None => r is None,
            },
    {
        match find_position(&self.objects, kind, name) {
            Some(i) => Some(&self.objects[i]),
            None => None,
        }
    }

    /// Records an object in the place of the one that it replaces.
    pub fn upsert_object(&mut self, obj: InstalledObject)
        ensures
            final(self).objects@ == with_object(old(self).objects@, obj),
            final(self).install_mode == old(self).install_mode,
            final(self).prefix == old(self).prefix,
            final(self).operations == old(self).operations,
            final(self).adapter_claims == old(self).adapter_claims,
    {
        match find_position(&self.objects, obj.kind, obj.name.as_str()) {
            Some(i) => {
                self.objects.set(i, obj);
            },
            None => {
                self.objects.push(obj);
            },
        }
    }

    /// Drops the capabilities that older releases recorded, and says which.
    pub fn prune_legacy_capabilities(&mut self) -> (r: Vec<String>)
        ensures
            texts(r@) == names_of(capabilities(old(self).objects@)),
            final(self).objects@ == without_capabilities(old(self).objects@),
            final(self).install_mode == old(self).install_mode,
            final(self).prefix == old(self).prefix,
            final(self).operations == old(self).operations,
            final(self).adapter_claims == old(self).adapter_claims,
    {
        let ghost all = self.objects@;
        let ghost keep = |o: InstalledObject| o.kind != ObjectKind::Capability;
        let ghost drop = |o: InstalledObject| o.kind == ObjectKind::Capability;
        let mut taken: Vec<InstalledObject> = Vec::new();
        std::mem::swap(&mut taken, &mut self.objects);
        let mut kept: Vec<InstalledObject> = Vec::new();
        let mut names: Vec<String> = Vec::new();
        proof {
            reveal(Seq::filter);
            assert(all.take(0).filter(keep) =~= Seq::empty());
            assert(all.take(0).filter(drop) =~= Seq::empty());
            assert(texts(names@) =~= names_of(all.take(0).filter(drop)));
        }
        for o in it: taken.into_iter()
            invariant
                it.seq() == all,
                keep == (|o: InstalledObject| o.kind != ObjectKind::Capability),
                drop == (|o: InstalledObject| o.kind == ObjectKind::Capability),
                kept@ == all.take(it.index()).filter(keep),
                texts(names@) == names_of(all.take(it.index()).filter(drop)),
        {
            proof {
                lemma_filter_step(all, it.index(), keep);
                lemma_filter_step(all, it.index(), drop);
            }
            if o.kind == ObjectKind::Capability {
                let ghost before = names@;
                let ghost dropped = all.take(it.index()).filter(drop);
                names.push(o.name);
                assert(texts(names@) =~= texts(before).push(o.name@));
                assert(names_of(dropped.push(o)) =~= names_of(dropped).push(o.name@));
            } else {
                kept.push(o);
            }
        }
        assert(all.take(all.len() as int) =~= all);
        self.objects = kept;
        names
    }

    /// The receipt of a component and a framework.
    pub fn find_adapter_claim(&self, component: &str, framework: &str) -> (r: Option<&AdapterClaim>)
        ensures
            match claim_at(self.claims(), component@, framework@) {
                Some(i) => r matches Some(c) && c@ == self.claims()[i] && *c
                    == self.adapter_claims@[i],
                None => r is None,
            },
    {
        match claim_position(&self.adapter_claims, component, framework) {
            Some(i) => Some(&self.adapter_claims[i]),
            None => None,
        }
    }

    /// Records a receipt in the place of the one that it replaces.
    pub fn upsert_adapter_claim(&mut self, claim: AdapterClaim)
        ensures
            final(self).claims() == with_claim(old(self).claims(), claim@),
            final(self).same_but_claims(*old(self)),
    {
        let ghost before = self.claims();
        match claim_position(
            &self.adapter_claims,
            claim.component.as_str(),
            claim.framework.as_str(),
        ) {
            Some(i) => {
                self.adapter_claims.set(i, claim);
                assert(self.claims() =~= before.update(i as int, claim@));
            },
            None => {
                self.adapter_claims.push(claim);
                assert(self.claims() =~= before.push(claim@));
            },
        }
    }

    /// Drops the receipts of a component and a framework.
    pub fn remove_adapter_claim(&mut self, component: &str, framework: &str)
        ensures
            final(self).claims() == without_claim(old(self).claims(), component@, framework@),
            final(self).same_but_claims(*old(self)),
    {
        let ghost all = self.claims();
        let ghost raw = self.adapter_claims@;
        let ghost keep = |c: ClaimView| !is_claim_of(c, component@, framework@);
        let mut taken: Vec<AdapterClaim> = Vec::new();
        std::mem::swap(&mut taken, &mut self.adapter_claims);
        let mut kept: Vec<AdapterClaim> = Vec::new();
        proof {
            reveal(Seq::filter);
            assert(all.take(0).filter(keep) =~= Seq::empty());
            assert(claims_of(kept@) =~= Seq::empty());
        }
        for c in it: taken.into_iter()
            invariant
                it.seq() == raw,
                all == claims_of(raw),
                keep == (|c: ClaimView| !is_claim_of(c, component@, framework@)),
                claims_of(kept@) == all.take(it.index()).filter(keep),
        {
            proof {
                lemma_filter_step(all, it.index(), keep);
            }
            if !(same(c.component.as_str(), component) && same(c.framework.as_str(), framework)) {
                let ghost before = kept@;
                kept.push(c);
                assert(claims_of(kept@) =~= claims_of(before).push(c@));
            }
        }
        assert(all.take(all.len() as int) =~= all);
        self.adapter_claims = kept;
    }

    /// The frameworks of the receipts of a component, in order.
    pub fn claimed_frameworks(&self, component: &str) -> (r: Vec<String>)
        ensures
            texts(r@) == claims_for(self.claims(), component@).map_values(
                |c: ClaimView| c.framework,
            ),
    {
        let ghost all = self.claims();
        let ghost keep = |c: ClaimView| c.component == component@;
        let ghost name = |c: ClaimView| c.framework;
        let mut out: Vec<String> = Vec::new();
        let mut i: usize = 0;
        proof {
            reveal(Seq::filter);
            assert(all.take(0).filter(keep) =~= Seq::empty());
            assert(texts(out@) =~= all.take(0).filter(keep).map_values(name));
        }
        while i < self.adapter_claims.len()
            invariant
                i <= self.adapter_claims@.len(),
                all == self.claims(),
                keep == (|c: ClaimView| c.component == component@),
                name == (|c: ClaimView| c.framework),
                texts(out@) == all.take(i as int).filter(keep).map_values(name),
            decreases self.adapter_claims.len() - i,
        {
            proof {
                lemma_filter_step(all, i as int, keep);
            }
            let ghost so_far = all.take(i as int).filter(keep);
            assert(all[i as int] == self.adapter_claims@[i as int]@);
            if same(self.adapter_claims[i].component.as_str(), component) {
                let ghost before = out@;
                out.push(self.adapter_claims[i].framework.clone());
                assert(texts(out@) =~= texts(before).push(all[i as int].framework));
                assert(so_far.push(all[i as int]).map_values(name) =~= so_far.map_values(name).push(
                    all[i as int].framework,
                ));
            }
            i += 1;
        }
        assert(all.take(all.len() as int) =~= all);
        out
    }
}

// ---------------------------------------------------------------------------
// Laws
// ---------------------------------------------------------------------------

/// A receipt that was recorded is found again.
pub proof fn law_recorded_claim_is_found(claims: Seq<ClaimView>, c: ClaimView)
    ensures
        claim_at(with_claim(claims, c), c.component, c.framework) matches Some(i) && with_claim(
            claims,
            c,
        )[i] == c,
{
    lemma_claim_at(claims, c.component, c.framework);
    let after = with_claim(claims, c);
    match claim_at(claims, c.component, c.framework) {
        Some(i) => {
            assert forall|k: int| 0 <= k < i implies !is_claim_of(
                #[trigger] after[k],
                c.component,
                c.framework,
            ) by {
                assert(after[k] == claims[k]);
            }
            lemma_claim_at_unique(after, c.component, c.framework, i);
        },
        None => {
            let i = claims.len() as int;
            assert forall|k: int| 0 <= k < i implies !is_claim_of(
                #[trigger] after[k],
                c.component,
                c.framework,
            ) by {
                assert(after[k] == claims[k]);
            }
            lemma_claim_at_unique(after, c.component, c.framework, i);
        },
    }
}

/// Recording a receipt leaves those of other components and frameworks alone.
pub proof fn law_recording_keeps_others(
    claims: Seq<ClaimView>,
    c: ClaimView,
    component: Seq<char>,
    framework: Seq<char>,
)
    requires
        !(component == c.component && framework == c.framework),
    ensures
        match claim_at(claims, component, framework) {
            Some(i) => claim_at(with_claim(claims, c), component, framework) == Some(i)
                && with_claim(claims, c)[i] == claims[i],
            None => claim_at(with_claim(claims, c), component, framework) is None,
        },
{
    lemma_claim_at(claims, component, framework);
    lemma_claim_at(claims, c.component, c.framework);
    let after = with_claim(claims, c);
    assert forall|k: int| 0 <= k < claims.len() implies is_claim_of(
        #[trigger] after[k],
        component,
        framework,
    ) == is_claim_of(claims[k], component, framework) by {}
    match claim_at(claims, component, framework) {
        Some(i) => {
            lemma_claim_at_unique(after, component, framework, i);
        },
        None => {
            lemma_claim_at(after, component, framework);
        },
    }
}

/// A receipt that was dropped is not found, and all others stay.
pub proof fn law_dropped_claim_is_gone(
    claims: Seq<ClaimView>,
    component: Seq<char>,
    framework: Seq<char>,
    k: int,
)
    ensures
        claim_at(without_claim(claims, component, framework), component, framework) is None,
        0 <= k < claims.len() && !is_claim_of(claims[k], component, framework) ==> without_claim(
            claims,
            component,
            framework,
        ).contains(claims[k]),
{
    let keep = |c: ClaimView| !is_claim_of(c, component, framework);
    let after = without_claim(claims, component, framework);
    assert forall|j: int| 0 <= j < after.len() implies !is_claim_of(
        #[trigger] after[j],
        component,
        framework,
    ) by {
        claims.lemma_filter_pred(keep, j);
    }
    lemma_claim_at(after, component, framework);
    if 0 <= k < claims.len() && !is_claim_of(claims[k], component, framework) {
        claims.lemma_filter_contains(keep, k);
    }
}

/// Whether there is at most one receipt for each component and framework.
pub open spec fn claims_unique(claims: Seq<ClaimView>) -> bool {
    forall|i: int, j: int|
        0 <= i < j < claims.len() ==> !is_claim_of(
            #[trigger] claims[j],
            (#[trigger] claims[i]).component,
            claims[i].framework,
        )
}

/// Recording a receipt never makes a second one for its component and
/// framework.
pub proof fn law_recording_keeps_unique(claims: Seq<ClaimView>, c: ClaimView)
    requires
        claims_unique(claims),
    ensures
        claims_unique(with_claim(claims, c)),
{
    lemma_claim_at(claims, c.component, c.framework);
    let after = with_claim(claims, c);
    assert forall|i: int, j: int| 0 <= i < j < after.len() implies !is_claim_of(
        #[trigger] after[j],
        (#[trigger] after[i]).component,
        after[i].framework,
    ) by {
        match claim_at(claims, c.component, c.framework) {
            Some(p) => {
                assert(!is_claim_of(claims[j], claims[i].component, claims[i].framework));
            },
            None => {
                if j < claims.len() {
                    assert(!is_claim_of(claims[j], claims[i].component, claims[i].framework));
                } else {
                    assert(!is_claim_of(claims[i], c.component, c.framework));
                }
            },
        }
    }
}

/// An object that was recorded is found again.
pub proof fn law_recorded_object_is_found(objects: Seq<InstalledObject>, obj: InstalledObject)
    ensures
        object_at(with_object(objects, obj), obj.kind, obj.name@) matches Some(i) && with_object(
            objects,
            obj,
        )[i] == obj,
    decreases objects.len(),
{
    lemma_object_at(objects, obj.kind, obj.name@);
    let after = with_object(objects, obj);
    if objects.len() == 0 {
        assert(after[0] == obj);
    } else if objects[0].kind == obj.kind && objects[0].name@ == obj.name@ {
        assert(after[0] == obj);
    } else {
        let rest = objects.skip(1);
        law_recorded_object_is_found(rest, obj);
        lemma_object_at(rest, obj.kind, obj.name@);
        assert(after[0] == objects[0]);
        let tail = with_object(rest, obj);
        assert(after.skip(1) =~= tail);
        lemma_object_at(tail, obj.kind, obj.name@);
        let k = object_at(tail, obj.kind, obj.name@)->0;
        assert(after[k + 1] == tail[k]);
    }
}

/// The object that counts is the first of its kind with its name.
pub proof fn law_first_object_counts(
    objects: Seq<InstalledObject>,
    kind: ObjectKind,
    name: Seq<char>,
)
    ensures
        match object_at(objects, kind, name) {
            Some(i) => {
                &&& 0 <= i < objects.len()
                &&& objects[i].kind == kind
                &&& objects[i].name@ == name
                &&& forall|k: int|
                    0 <= k < i ==> !((#[trigger] objects[k]).kind == kind && objects[k].name@
                        == name)
            },
            None => forall|k: int|
                0 <= k < objects.len() ==> !((#[trigger] objects[k]).kind == kind
                    && objects[k].name@ == name),
        },
    decreases objects.len(),
{
    if objects.len() > 0 && !(objects[0].kind == kind && objects[0].name@ == name) {
        let rest = objects.skip(1);
        law_first_object_counts(rest, kind, name);
        match object_at(rest, kind, name) {
            Some(i) => {
                assert(rest[i] == objects[i + 1]);
                assert forall|k: int| 0 <= k < i + 1 implies !((#[trigger] objects[k]).kind == kind
                    && objects[k].name@ == name) by {
                    if k > 0 {
                        assert(rest[k - 1] == objects[k]);
                    }
                }
            },
            None => {
                assert forall|k: int| 0 <= k < objects.len() implies !((
                #[trigger] objects[k]).kind == kind && objects[k].name@ == name) by {
                    if k > 0 {
                        assert(rest[k - 1] == objects[k]);
                    }
                }
            },
        }
    }
}

/// Recording an object changes no other and moves none.
pub proof fn law_recording_an_object_keeps_others(
    objects: Seq<InstalledObject>,
    obj: InstalledObject,
    k: int,
)
    requires
        0 <= k < objects.len(),
        !(objects[k].kind == obj.kind && objects[k].name@ == obj.name@),
    ensures
        with_object(objects, obj)[k] == objects[k],
        objects.len() <= with_object(objects, obj).len() <= objects.len() + 1,
        with_object(objects, obj).contains(obj),
{
    law_first_object_counts(objects, obj.kind, obj.name@);
    let after = with_object(objects, obj);
    match object_at(objects, obj.kind, obj.name@) {
        Some(i) => {
            assert(after[i] == obj);
        },
        None => {
            assert(after[objects.len() as int] == obj);
        },
    }
}

/// The receipt that counts is the first of its component and framework.
pub proof fn law_first_claim_counts(
    claims: Seq<ClaimView>,
    component: Seq<char>,
    framework: Seq<char>,
)
    ensures
        match claim_at(claims, component, framework) {
            Some(i) => {
                &&& 0 <= i < claims.len()
                &&& claims[i].component == component
                &&& claims[i].framework == framework
                &&& forall|k: int|
                    0 <= k < i ==> !((#[trigger] claims[k]).component == component
                        && claims[k].framework == framework)
            },
            None => forall|k: int|
                0 <= k < claims.len() ==> !((#[trigger] claims[k]).component == component
                    && claims[k].framework == framework),
        },
    decreases claims.len(),
{
    if claims.len() > 0 && !(claims[0].component == component && claims[0].framework
        == framework) {
        let rest = claims.skip(1);
        law_first_claim_counts(rest, component, framework);
        match claim_at(rest, component, framework) {
            Some(i) => {
                assert(rest[i] == claims[i + 1]);
                assert forall|k: int| 0 <= k < i + 1 implies !((#[trigger] claims[k]).component
                    == component && claims[k].framework == framework) by {
                    if k > 0 {
                        assert(rest[k - 1] == claims[k]);
                    }
                }
            },
            None => {
                assert forall|k: int| 0 <= k < claims.len() implies !((
                #[trigger] claims[k]).component == component && claims[k].framework
                    == framework) by {
                    if k > 0 {
                        assert(rest[k - 1] == claims[k]);
                    }
                }
            },
        }
    }
}

/// Recording a receipt changes no other and moves none, and dropping one leaves
/// the others in order.
pub proof fn law_other_claims_are_kept(
    claims: Seq<ClaimView>,
    c: ClaimView,
    k: int,
)
    requires
        0 <= k < claims.len(),
        !(claims[k].component == c.component && claims[k].framework == c.framework),
    ensures
        with_claim(claims, c)[k] == claims[k],
        with_claim(claims, c).contains(c),
        claims.len() <= with_claim(claims, c).len() <= claims.len() + 1,
        without_claim(claims, c.component, c.framework) == claims.filter(
            |x: ClaimView| x.component != c.component || x.framework != c.framework,
        ),
{
    law_first_claim_counts(claims, c.component, c.framework);
    let after = with_claim(claims, c);
    match claim_at(claims, c.component, c.framework) {
        Some(i) => {
            assert(after[i] == c);
        },
        None => {
            assert(after[claims.len() as int] == c);
        },
    }
    let one = |x: ClaimView| !is_claim_of(x, c.component, c.framework);
    let two = |x: ClaimView| x.component != c.component || x.framework != c.framework;
    assert(one =~= two);
}

/// Of a component are exactly the receipts that name it, in order.
pub proof fn law_receipts_of_a_component(claims: Seq<ClaimView>, name: Seq<char>)
    ensures
        claims_for(claims, name) == claims.filter(|c: ClaimView| c.component == name),
        forall|k: int|
            0 <= k < claims.len() && (#[trigger] claims[k]).component == name ==> claims_for(
                claims,
                name,
            ).contains(claims[k]),
        forall|k: int|
            0 <= k < claims_for(claims, name).len() ==> (#[trigger] claims_for(
                claims,
                name,
            )[k]).component == name,
{
    let keep = |c: ClaimView| c.component == name;
    let kept = claims.filter(keep);
    assert forall|k: int| 0 <= k < claims.len() && (#[trigger] claims[k]).component
        == name implies kept.contains(claims[k]) by {
        claims.lemma_filter_contains(keep, k);
    }
    assert forall|k: int| 0 <= k < kept.len() implies (#[trigger] kept[k]).component == name by {
        claims.lemma_filter_pred(keep, k);
    }
}

/// Two records that differ in their receipts alone agree in all else, and what
/// their receipts hold is told receipt by receipt.
pub proof fn law_records_but_for_receipts(one: InstalledState, other: InstalledState, k: int)
    requires
        one.same_but_claims(other),
    ensures
        one.install_mode == other.install_mode,
        one.prefix == other.prefix,
        one.objects == other.objects,
        one.operations == other.operations,
        one.claims().len() == one.adapter_claims@.len(),
        0 <= k < one.adapter_claims@.len() ==> one.claims()[k] == one.adapter_claims@[k]@,
{
}

/// Capabilities and the rest make up all objects, in order.
pub proof fn law_capabilities_and_the_rest(objects: Seq<InstalledObject>, k: int)
    requires
        0 <= k < objects.len(),
    ensures
        objects[k].kind == ObjectKind::Capability ==> capabilities(objects).contains(objects[k]),
        objects[k].kind != ObjectKind::Capability ==> without_capabilities(objects).contains(
            objects[k],
        ),
        forall|i: int|
            0 <= i < capabilities(objects).len() ==> (#[trigger] capabilities(objects)[i]).kind
                == ObjectKind::Capability,
        forall|i: int|
            0 <= i < without_capabilities(objects).len() ==> (#[trigger] without_capabilities(
                objects,
            )[i]).kind != ObjectKind::Capability,
{
    let gone = |o: InstalledObject| o.kind == ObjectKind::Capability;
    let kept = |o: InstalledObject| o.kind != ObjectKind::Capability;
    if gone(objects[k]) {
        objects.lemma_filter_contains(gone, k);
    } else {
        objects.lemma_filter_contains(kept, k);
    }
    assert forall|i: int| 0 <= i < capabilities(objects).len() implies (
    #[trigger] capabilities(objects)[i]).kind == ObjectKind::Capability by {
        objects.lemma_filter_pred(gone, i);
    }
    assert forall|i: int| 0 <= i < without_capabilities(objects).len() implies (
    #[trigger] without_capabilities(objects)[i]).kind != ObjectKind::Capability by {
        objects.lemma_filter_pred(kept, i);
    }
}

} // verus!
