//! Receipts of enabled adapters.
//!
//! A receipt is data: it says what a driver took over for a component, so that
//! the adapter can be looked at and disabled later. It holds no commands.
//! Everything in it that is used as a path or as an entry of a framework's
//! registry is a [`ClaimResource`], and every resource is validated against the
//! layout and the driver's own roots before a receipt is written and again
//! whenever one was read.

use crate::paths::{dot_segment, has_dot_segment, lies_under, under};
use crate::text::{
    chars_of, concat3, concat4, copy_opt, is_alnum, opt_text, own, same, texts,
};
use vstd::prelude::*;

verus! {

/// Schema version of receipts and their resources.
pub const CLAIM_SCHEMA_VERSION: u32 = 1;

/// Schema version of driver payloads.
pub const DRIVER_SCHEMA_VERSION: u32 = 1;

/// A receipt: for a component, the driver of a framework has taken over the
/// state that the resources describe.
#[derive(Debug)]
pub struct AdapterClaim {
    /// [`CLAIM_SCHEMA_VERSION`] at the time of writing.
    pub claim_schema: u32,
    /// Component.
    pub component: String,
    /// Framework.
    pub framework: String,
    /// Plugin id in the framework, for listings.
    pub plugin_id: Option<String>,
    /// When the receipt was written.
    pub enabled_at: String,
    /// Directory that the adapter was enabled from.
    pub resource_root: String,
    /// Digest of that directory at the time.
    pub bundle_digest: Option<String>,
    /// [`DRIVER_SCHEMA_VERSION`] at the time of writing.
    pub driver_schema: u32,
    /// State of the receipt.
    pub status: ClaimStatus,
    /// What was taken over.
    pub resources: Vec<ClaimResource>,
    /// Data of the driver.
    pub driver_payload: DriverPayload,
}

/// State of a receipt.
#[derive(Clone, Copy, PartialEq, Eq, Structural, Debug)]
pub enum ClaimStatus {
    /// The adapter is enabled.
    Enabled,
    /// Cleaning up failed; the receipt is kept to try again.
    CleanupFailed,
}

/// One thing that was taken over.
#[derive(Debug)]
pub struct ClaimResource {
    /// Stable id.
    pub id: String,
    /// Role, for people.
    pub purpose: String,
    /// The thing.
    pub kind: ClaimResourceKind,
}

/// The kinds of things that a receipt can name.
#[derive(Debug)]
pub enum ClaimResourceKind {
    /// A path inside the install root.
    OwnedPath {
        /// The path.
        path: String,
    },
    /// A path in a directory of the framework or the user. Which of these are
    /// allowed is the driver's to say, never the receipt's.
    ExternalPath {
        /// The path.
        path: String,
    },
    /// An entry in the plugin registry of a framework.
    FrameworkPlugin {
        /// Framework.
        framework: String,
        /// Plugin id.
        plugin_id: String,
    },
}

/// Data of a driver.
#[derive(Debug)]
pub enum DriverPayload {
    /// That of the OpenClaw driver.
    OpenClaw(OpenClawClaim),
}

/// Data of the OpenClaw driver: ids of resources, never paths.
#[derive(Debug)]
pub struct OpenClawClaim {
    /// Id of the state directory.
    pub state_dir_resource: String,
    /// Id of the plugin.
    pub plugin_resource: String,
}

// ---------------------------------------------------------------------------
// Contents
// ---------------------------------------------------------------------------

/// What a [`ClaimResourceKind`] holds.
pub enum ResourceKindView {
    /// A path inside the install root.
    OwnedPath(Seq<char>),
    /// A path outside of it.
    ExternalPath(Seq<char>),
    /// A framework and a plugin id.
    FrameworkPlugin(Seq<char>, Seq<char>),
}

impl View for ClaimResourceKind {
    type V = ResourceKindView;

    open spec fn view(&self) -> ResourceKindView {
        match *self {
            ClaimResourceKind::OwnedPath { path } => ResourceKindView::OwnedPath(path@),
            ClaimResourceKind::ExternalPath { path } => ResourceKindView::ExternalPath(path@),
            ClaimResourceKind::FrameworkPlugin { framework, plugin_id } => {
                ResourceKindView::FrameworkPlugin(framework@, plugin_id@)
            },
        }
    }
}

/// What a [`ClaimResource`] holds.
pub struct ResourceView {
    /// Stable id.
    pub id: Seq<char>,
    /// Role.
    pub purpose: Seq<char>,
    /// The thing.
    pub kind: ResourceKindView,
}

impl View for ClaimResource {
    type V = ResourceView;

    open spec fn view(&self) -> ResourceView {
        ResourceView { id: self.id@, purpose: self.purpose@, kind: self.kind@ }
    }
}

/// What resources hold.
pub open spec fn resources_of(s: Seq<ClaimResource>) -> Seq<ResourceView> {
    s.map_values(|r: ClaimResource| r@)
}

/// What an [`AdapterClaim`] holds.
pub struct ClaimView {
    /// Schema version of the receipt.
    pub claim_schema: u32,
    /// Component.
    pub component: Seq<char>,
    /// Framework.
    pub framework: Seq<char>,
    /// Plugin id.
    pub plugin_id: Option<Seq<char>>,
    /// When it was written.
    pub enabled_at: Seq<char>,
    /// Directory that the adapter was enabled from.
    pub resource_root: Seq<char>,
    /// Digest of that directory.
    pub bundle_digest: Option<Seq<char>>,
    /// Schema version of the payload.
    pub driver_schema: u32,
    /// State.
    pub status: ClaimStatus,
    /// What was taken over.
    pub resources: Seq<ResourceView>,
    /// Id of the state directory.
    pub state_dir_resource: Seq<char>,
    /// Id of the plugin.
    pub plugin_resource: Seq<char>,
}

impl View for AdapterClaim {
    type V = ClaimView;

    open spec fn view(&self) -> ClaimView {
        let DriverPayload::OpenClaw(payload) = self.driver_payload;
        ClaimView {
            claim_schema: self.claim_schema,
            component: self.component@,
            framework: self.framework@,
            plugin_id: opt_text(self.plugin_id),
            enabled_at: self.enabled_at@,
            resource_root: self.resource_root@,
            bundle_digest: opt_text(self.bundle_digest),
            driver_schema: self.driver_schema,
            status: self.status,
            resources: resources_of(self.resources@),
            state_dir_resource: payload.state_dir_resource@,
            plugin_resource: payload.plugin_resource@,
        }
    }
}

impl Clone for ClaimResource {
    fn clone(&self) -> (r: Self)
        ensures
            r@ == self@,
    {
        ClaimResource {
            id: self.id.clone(),
            purpose: self.purpose.clone(),
            kind: match &self.kind {
                ClaimResourceKind::OwnedPath { path } => ClaimResourceKind::OwnedPath {
                    path: path.clone(),
                },
                ClaimResourceKind::ExternalPath { path } => ClaimResourceKind::ExternalPath {
                    path: path.clone(),
                },
                ClaimResourceKind::FrameworkPlugin { framework, plugin_id } => {
                    ClaimResourceKind::FrameworkPlugin {
                        framework: framework.clone(),
                        plugin_id: plugin_id.clone(),
                    }
                },
            },
        }
    }
}

fn copy_resources(v: &Vec<ClaimResource>) -> (r: Vec<ClaimResource>)
    ensures
        resources_of(r@) == resources_of(v@),
{
    let mut out: Vec<ClaimResource> = Vec::new();
    let mut i: usize = 0;
    while i < v.len()
        invariant
            i <= v@.len(),
            resources_of(out@) == resources_of(v@).take(i as int),
        decreases v.len() - i,
    {
        let ghost before = resources_of(out@);
        out.push(v[i].clone());
        assert(resources_of(out@) =~= before.push(v@[i as int]@));
        assert(resources_of(v@).take(i + 1) =~= resources_of(v@).take(i as int).push(
            resources_of(v@)[i as int],
        ));
        i += 1;
    }
    assert(resources_of(v@).take(v@.len() as int) =~= resources_of(v@));
    out
}

impl Clone for AdapterClaim {
    fn clone(&self) -> (r: Self)
        ensures
            r@ == self@,
    {
        let DriverPayload::OpenClaw(payload) = &self.driver_payload;
        AdapterClaim {
            claim_schema: self.claim_schema,
            component: self.component.clone(),
            framework: self.framework.clone(),
            plugin_id: copy_opt(&self.plugin_id),
            enabled_at: self.enabled_at.clone(),
            resource_root: self.resource_root.clone(),
            bundle_digest: copy_opt(&self.bundle_digest),
            driver_schema: self.driver_schema,
            status: self.status,
            resources: copy_resources(&self.resources),
            driver_payload: DriverPayload::OpenClaw(
                OpenClawClaim {
                    state_dir_resource: payload.state_dir_resource.clone(),
                    plugin_resource: payload.plugin_resource.clone(),
                },
            ),
        }
    }
}

// ---------------------------------------------------------------------------
// Validation
// ---------------------------------------------------------------------------

/// Why a path is not inside the install root.
#[derive(Debug)]
pub struct PathBoundaryError {
    /// What is wrong with it.
    pub reason: String,
}

/// Why an external path is refused.
#[derive(Debug)]
pub enum ExternalPathError {
    /// It holds a `.` or `..` segment.
    Traversal {
        /// The path.
        path: String,
    },
    /// It is under none of the allowed roots.
    OutsideAllowedRoots {
        /// The path.
        path: String,
    },
}

/// Why a receipt is refused.
#[derive(Debug)]
pub enum ClaimValidationError {
    /// A path that should be inside the install root is not.
    OwnedPath {
        /// Id of the resource.
        id: String,
        /// What is wrong with it.
        source: PathBoundaryError,
    },
    /// A path outside the install root is not allowed.
    ExternalPath {
        /// Id of the resource.
        id: String,
        /// What is wrong with it.
        source: ExternalPathError,
    },
    /// A plugin id is not safe on a command line.
    PluginId {
        /// The id.
        plugin_id: String,
        /// What is wrong with it.
        reason: String,
    },
}

impl ExternalPathError {
    /// The error as one line.
    pub open spec fn text(self) -> Seq<char> {
        match self {
            ExternalPathError::Traversal { path } => "path '"@ + path@
                + "' contains a '.' or '..' segment"@,
            ExternalPathError::OutsideAllowedRoots { path } => "path '"@ + path@
                + "' is not under any allowed external root for this driver"@,
        }
    }

    /// The error as one line.
    pub fn message(&self) -> (r: String)
        ensures
            r@ == self.text(),
    {
        match self {
            ExternalPathError::Traversal { path } => concat3(
                "path '",
                path.as_str(),
                "' contains a '.' or '..' segment",
            ),
            ExternalPathError::OutsideAllowedRoots { path } => concat3(
                "path '",
                path.as_str(),
                "' is not under any allowed external root for this driver",
            ),
        }
    }
}

impl ClaimValidationError {
    /// The error as one line.
    pub open spec fn text(self) -> Seq<char> {
        match self {
            ClaimValidationError::OwnedPath { id, source } => "owned-path resource '"@ + id@
                + "' failed boundary check: "@ + source.reason@,
            ClaimValidationError::ExternalPath { id, source } => "external-path resource '"@ + id@
                + "' failed boundary check: "@ + source.text(),
            ClaimValidationError::PluginId { plugin_id, reason } => "invalid plugin id '"@
                + plugin_id@ + "': "@ + reason@,
        }
    }

    /// The error as one line.
    pub fn message(&self) -> (r: String)
        ensures
            r@ == self.text(),
    {
        match self {
            ClaimValidationError::OwnedPath { id, source } => concat4(
                "owned-path resource '",
                id.as_str(),
                "' failed boundary check: ",
                source.reason.as_str(),
            ),
            ClaimValidationError::ExternalPath { id, source } => concat4(
                "external-path resource '",
                id.as_str(),
                "' failed boundary check: ",
                source.message().as_str(),
            ),
            ClaimValidationError::PluginId { plugin_id, reason } => concat4(
                "invalid plugin id '",
                plugin_id.as_str(),
                "': ",
                reason.as_str(),
            ),
        }
    }
}

/// The external roots that a driver allows.
#[derive(Debug)]
pub struct AllowedRoots {
    /// The roots as the driver names them.
    pub paths: Vec<String>,
    /// Those of them that the file system resolves, with links followed.
    pub canonical: Vec<String>,
}

/// Whether `path` is under one of `roots`.
pub open spec fn under_any(path: Seq<char>, roots: Seq<Seq<char>>) -> bool {
    exists|i: int| 0 <= i < roots.len() && lies_under(path, #[trigger] roots[i])
}

fn is_under_any(path: &str, roots: &Vec<String>) -> (r: bool)
    ensures
        r == under_any(path@, texts(roots@)),
{
    let mut i: usize = 0;
    while i < roots.len()
        invariant
            i <= roots@.len(),
            forall|k: int| 0 <= k < i ==> !lies_under(path@, #[trigger] texts(roots@)[k]),
        decreases roots.len() - i,
    {
        assert(texts(roots@)[i as int] == roots@[i as int]@);
        if under(path, roots[i].as_str()) {
            return true;
        }
        i += 1;
    }
    false
}

/// What can be wrong with an external path.
pub enum ExternalFault {
    /// It holds a `.` or `..` segment.
    Traversal,
    /// It is under none of the allowed roots.
    Outside,
}

/// What is wrong with an external path, if anything. It must lie under an
/// allowed root as it is written and, where the file system resolves it, also
/// with links followed.
pub open spec fn external_fault(
    path: Seq<char>,
    allowed: AllowedRoots,
    canonical: Option<Seq<char>>,
) -> Option<ExternalFault> {
    if has_dot_segment(path) {
        Some(ExternalFault::Traversal)
    } else if !under_any(path, texts(allowed.paths@)) {
        Some(ExternalFault::Outside)
    } else if canonical matches Some(c) && allowed.canonical@.len() > 0 && !under_any(
        c,
        texts(allowed.canonical@),
    ) {
        Some(ExternalFault::Outside)
    } else {
        None
    }
}

/// Whether `e` reports a fault of an external path.
pub open spec fn reports_external(
    e: ExternalPathError,
    fault: ExternalFault,
    path: Seq<char>,
) -> bool {
    match fault {
        ExternalFault::Traversal => e matches ExternalPathError::Traversal { path: p } && p@
            == path,
        ExternalFault::Outside => e matches ExternalPathError::OutsideAllowedRoots { path: p }
            && p@ == path,
    }
}

/// Validates an external path against the roots that a driver allows.
/// `canonical` is the path with links followed, as far as it exists.
pub fn validate_external_path(
    path: &str,
    allowed_roots: &AllowedRoots,
    canonical: &Option<String>,
) -> (r: Result<(), ExternalPathError>)
    ensures
        match external_fault(path@, *allowed_roots, opt_text(*canonical)) {
            Some(fault) => r matches Err(e) && reports_external(e, fault, path@),
            None => r is Ok,
        },
{
    if dot_segment(path) {
        return Err(ExternalPathError::Traversal { path: own(path) });
    }
    if !is_under_any(path, &allowed_roots.paths) {
        return Err(ExternalPathError::OutsideAllowedRoots { path: own(path) });
    }
    if let Some(c) = canonical {
        if allowed_roots.canonical.len() > 0 && !is_under_any(
            c.as_str(),
            &allowed_roots.canonical,
        ) {
            return Err(ExternalPathError::OutsideAllowedRoots { path: own(path) });
        }
    }
    Ok(())
}

/// Whether a character may stand in a plugin id.
pub open spec fn plugin_char(c: char) -> bool {
    is_alnum(c) || c == '.' || c == '_' || c == '-'
}

/// The first character of an id that may not stand in one.
pub open spec fn first_bad(id: Seq<char>) -> Option<char>
    decreases id.len(),
{
    if id.len() == 0 {
        None
    } else if !plugin_char(id[0]) {
        Some(id[0])
    } else {
        first_bad(id.skip(1))
    }
}

/// What is wrong with a plugin id, if anything.
pub open spec fn plugin_id_fault(id: Seq<char>) -> Option<Seq<char>> {
    if id.len() == 0 {
        Some("must not be empty"@)
    } else if id == "."@ || id == ".."@ {
        Some("must not be '.' or '..'"@)
    } else if id[0] == '-' {
        Some("must not start with '-' (would be parsed as a flag)"@)
    } else {
        match first_bad(id) {
            Some(bad) => Some("contains disallowed character '"@ + seq![bad] + "'"@),
            None => None,
        }
    }
}

/// Whether `e` reports a fault of a plugin id.
pub open spec fn reports_plugin_id(
    e: ClaimValidationError,
    id: Seq<char>,
    why: Seq<char>,
) -> bool {
    e matches ClaimValidationError::PluginId { plugin_id, reason } && plugin_id@ == id && reason@
        == why
}

fn refuse_plugin_id(id: &str, reason: &str) -> (r: Result<(), ClaimValidationError>)
    ensures
        r matches Err(e) && reports_plugin_id(e, id@, reason@),
{
    Err(ClaimValidationError::PluginId { plugin_id: own(id), reason: own(reason) })
}

/// Validates a plugin id: letters, digits, `.`, `_` and `-`, at least one of
/// them, not `.` or `..`, and no `-` in front.
pub fn validate_plugin_id(plugin_id: &str) -> (r: Result<(), ClaimValidationError>)
    ensures
        match plugin_id_fault(plugin_id@) {
            Some(why) => r matches Err(e) && reports_plugin_id(e, plugin_id@, why),
            None => r is Ok,
        },
{
    let cs = chars_of(plugin_id);
    if cs.len() == 0 {
        return refuse_plugin_id(plugin_id, "must not be empty");
    }
    if same(plugin_id, ".") || same(plugin_id, "..") {
        return refuse_plugin_id(plugin_id, "must not be '.' or '..'");
    }
    if cs[0] == '-' {
        return refuse_plugin_id(plugin_id, "must not start with '-' (would be parsed as a flag)");
    }
    let mut i: usize = 0;
    assert(cs@.skip(0) =~= plugin_id@);
    while i < cs.len()
        invariant
            i <= cs@.len(),
            cs@ == plugin_id@,
            cs@.len() > 0 && cs@ != "."@ && cs@ != ".."@ && cs@[0] != '-',
            first_bad(plugin_id@) == first_bad(cs@.skip(i as int)),
        decreases cs.len() - i,
    {
        let c = cs[i];
        let fine = ('a' <= c && c <= 'z') || ('A' <= c && c <= 'Z') || ('0' <= c && c <= '9') || c
            == '.' || c == '_' || c == '-';
        if !fine {
            let mut reason = own("contains disallowed character '");
            reason.push(c);
            reason.append("'");
            assert(reason@ =~= "contains disallowed character '"@ + seq![c] + "'"@);
            return Err(ClaimValidationError::PluginId { plugin_id: own(plugin_id), reason });
        }
        assert(cs@.skip(i as int).skip(1) =~= cs@.skip(i + 1));
        i += 1;
    }
    Ok(())
}

/// What the file system says about the path of a resource.
#[derive(Debug)]
pub struct PathFacts {
    /// Why the path is not inside the install root, for a path that should be.
    pub boundary: Option<PathBoundaryError>,
    /// The path with links followed, as far as it exists.
    pub canonical: Option<String>,
}

/// Whether `e` is what is wrong with a resource; `None` says that nothing is.
pub open spec fn resource_verdict(
    e: Option<ClaimValidationError>,
    resource: ClaimResource,
    allowed: AllowedRoots,
    facts: PathFacts,
) -> bool {
    match resource.kind {
        ClaimResourceKind::OwnedPath { .. } => match facts.boundary {
            Some(b) => {
                &&& e matches Some(ClaimValidationError::OwnedPath { id, source })
                &&& id@ == resource.id@
                &&& source.reason@ == b.reason@
            },
            None => e is None,
        },
        ClaimResourceKind::ExternalPath { path } => match external_fault(
            path@,
            allowed,
            opt_text(facts.canonical),
        ) {
            Some(fault) => {
                &&& e matches Some(ClaimValidationError::ExternalPath { id, source })
                &&& id@ == resource.id@
                &&& reports_external(source, fault, path@)
            },
            None => e is None,
        },
        ClaimResourceKind::FrameworkPlugin { plugin_id, .. } => match plugin_id_fault(plugin_id@) {
            Some(why) => e matches Some(err) && reports_plugin_id(err, plugin_id@, why),
            None => e is None,
        },
    }
}

/// Whether nothing is wrong with a resource.
pub open spec fn resource_sound(
    resource: ClaimResource,
    allowed: AllowedRoots,
    facts: PathFacts,
) -> bool {
    match resource.kind {
        ClaimResourceKind::OwnedPath { .. } => facts.boundary is None,
        ClaimResourceKind::ExternalPath { path } => external_fault(
            path@,
            allowed,
            opt_text(facts.canonical),
        ) is None,
        ClaimResourceKind::FrameworkPlugin { plugin_id, .. } => plugin_id_fault(plugin_id@) is None,
    }
}

impl ClaimResource {
    /// Validates a resource: an owned path by the verdict of the file system,
    /// an external path against the driver's roots, a plugin id by its
    /// characters.
    pub fn validate(&self, allowed_roots: &AllowedRoots, facts: &PathFacts) -> (r: Result<
        (),
        ClaimValidationError,
    >)
        ensures
            resource_verdict(r.err(), *self, *allowed_roots, *facts),
            r is Ok <==> resource_sound(*self, *allowed_roots, *facts),
    {
        match &self.kind {
            ClaimResourceKind::OwnedPath { .. } => match &facts.boundary {
                Some(b) => Err(
                    ClaimValidationError::OwnedPath {
                        id: self.id.clone(),
                        source: PathBoundaryError { reason: b.reason.clone() },
                    },
                ),
                None => Ok(()),
            },
            ClaimResourceKind::ExternalPath { path } => match validate_external_path(
                path.as_str(),
                allowed_roots,
                &facts.canonical,
            ) {
                Err(source) => Err(
                    ClaimValidationError::ExternalPath { id: self.id.clone(), source },
                ),
                Ok(()) => Ok(()),
            },
            ClaimResourceKind::FrameworkPlugin { plugin_id, .. } => validate_plugin_id(
                plugin_id.as_str(),
            ),
        }
    }
}

/// Whether nothing is wrong with a receipt.
pub open spec fn claim_sound(
    claim: AdapterClaim,
    allowed: AllowedRoots,
    facts: Seq<PathFacts>,
) -> bool {
    &&& claim.plugin_id matches Some(id) ==> plugin_id_fault(id@) is None
    &&& forall|i: int|
        0 <= i < claim.resources@.len() ==> resource_sound(
            #[trigger] claim.resources@[i],
            allowed,
            facts[i],
        )
}

/// Whether `e` is the first thing that is wrong with a receipt: its plugin id,
/// else its first unsound resource.
pub open spec fn first_fault(
    e: ClaimValidationError,
    claim: AdapterClaim,
    allowed: AllowedRoots,
    facts: Seq<PathFacts>,
) -> bool {
    match claim.plugin_id {
        Some(id) if plugin_id_fault(id@) is Some => reports_plugin_id(
            e,
            id@,
            plugin_id_fault(id@)->0,
        ),
        _ => exists|i: int|
            {
                &&& 0 <= i < claim.resources@.len()
                &&& resource_verdict(Some(e), #[trigger] claim.resources@[i], allowed, facts[i])
                &&& forall|k: int|
                    0 <= k < i ==> resource_sound(
                        #[trigger] claim.resources@[k],
                        allowed,
                        facts[k],
                    )
            },
    }
}

impl AdapterClaim {
    /// Position of the first resource with an id.
    pub open spec fn position(resources: Seq<ClaimResource>, id: Seq<char>) -> Option<int>
        decreases resources.len(),
    {
        if resources.len() == 0 {
            None
        } else if resources[0].id@ == id {
            Some(0)
        } else {
            match AdapterClaim::position(resources.skip(1), id) {
                Some(i) => Some(i + 1),
                None => None,
            }
        }
    }

    /// The first resource with an id.
    pub fn resource(&self, id: &str) -> (r: Option<&ClaimResource>)
        ensures
            match AdapterClaim::position(self.resources@, id@) {
                Some(i) => r matches Some(found) && *found == self.resources@[i],
                None => r is None,
            },
    {
        let rs = &self.resources;
        let mut i: usize = 0;
        assert(rs@.skip(0) =~= rs@);
        while i < rs.len()
            invariant
                i <= rs@.len(),
                rs == &self.resources,
                AdapterClaim::position(rs@, id@) == match AdapterClaim::position(
                    rs@.skip(i as int),
                    id@,
                ) {
                    Some(k) => Some(k + i),
                    None => None,
                },
            decreases rs.len() - i,
        {
            if same(rs[i].id.as_str(), id) {
                return Some(&rs[i]);
            }
            assert(rs@.skip(i as int).skip(1) =~= rs@.skip(i + 1));
            i += 1;
        }
        None
    }

    /// Validates a receipt: its plugin id and each of its resources. `facts`
    /// are what the file system says about the resources, in order.
    pub fn validate(&self, allowed_roots: &AllowedRoots, facts: &Vec<PathFacts>) -> (r: Result<
        (),
        ClaimValidationError,
    >)
        requires
            facts@.len() == self.resources@.len(),
        ensures
            r is Ok <==> claim_sound(*self, *allowed_roots, facts@),
            r matches Err(e) ==> first_fault(e, *self, *allowed_roots, facts@),
    {
        if let Some(pid) = &self.plugin_id {
            match validate_plugin_id(pid.as_str()) {
                Ok(()) => {},
                Err(e) => {
                    return Err(e);
                },
            }
        }
        let mut i: usize = 0;
        while i < self.resources.len()
            invariant
                i <= self.resources@.len() == facts@.len(),
                self.plugin_id matches Some(id) ==> plugin_id_fault(id@) is None,
                forall|k: int|
                    0 <= k < i ==> resource_sound(
                        #[trigger] self.resources@[k],
                        *allowed_roots,
                        facts@[k],
                    ),
            decreases self.resources.len() - i,
        {
            match self.resources[i].validate(allowed_roots, &facts[i]) {
                Ok(()) => {},
                Err(e) => {
                    assert(resource_verdict(
                        Some(e),
                        self.resources@[i as int],
                        *allowed_roots,
                        facts@[i as int],
                    ));
                    return Err(e);
                },
            }
            i += 1;
        }
        Ok(())
    }
}

// ---------------------------------------------------------------------------
// Laws
// ---------------------------------------------------------------------------

/// All characters of an id without a bad one are good.
proof fn lemma_no_bad(id: Seq<char>)
    requires
        first_bad(id) is None,
    ensures
        forall|k: int| 0 <= k < id.len() ==> plugin_char(#[trigger] id[k]),
    decreases id.len(),
{
    if id.len() > 0 {
        lemma_no_bad(id.skip(1));
        assert forall|k: int| 0 <= k < id.len() implies plugin_char(#[trigger] id[k]) by {
            if k > 0 {
                assert(id.skip(1)[k - 1] == id[k]);
            }
        }
    }
}

/// Every plugin id that a validated receipt brings to a command line is made of
/// letters, digits, `.`, `_` and `-` alone, has no `-` in front and is not
/// empty, so it can be neither a flag nor more than one word.
pub proof fn law_validated_ids_are_words(
    claim: AdapterClaim,
    allowed: AllowedRoots,
    facts: Seq<PathFacts>,
    i: int,
    framework: String,
    id: String,
)
    requires
        claim_sound(claim, allowed, facts),
        claim.plugin_id == Some(id) || (0 <= i < claim.resources@.len() && claim.resources@[i].kind
            == (ClaimResourceKind::FrameworkPlugin { framework, plugin_id: id })),
    ensures
        id@.len() > 0,
        id@[0] != '-',
        forall|k: int| 0 <= k < id@.len() ==> plugin_char(#[trigger] id@[k]),
{
    if claim.plugin_id != Some(id) {
        assert(resource_sound(claim.resources@[i], allowed, facts[i]));
    }
    assert(plugin_id_fault(id@) is None);
    lemma_no_bad(id@);
}

/// No external path of a validated receipt leaves the driver's roots, whatever
/// the receipt says of itself.
pub proof fn law_validated_paths_stay_inside(
    claim: AdapterClaim,
    allowed: AllowedRoots,
    facts: Seq<PathFacts>,
    i: int,
    path: String,
)
    requires
        claim_sound(claim, allowed, facts),
        0 <= i < claim.resources@.len(),
        claim.resources@[i].kind == (ClaimResourceKind::ExternalPath { path }),
    ensures
        !has_dot_segment(path@),
        under_any(path@, texts(allowed.paths@)),
        facts[i].canonical matches Some(c) ==> (allowed.canonical@.len() > 0 ==> under_any(
            c@,
            texts(allowed.canonical@),
        )),
{
    assert(resource_sound(claim.resources@[i], allowed, facts[i]));
}

} // verus!
