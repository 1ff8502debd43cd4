//! The driver for OpenClaw.
//!
//! OpenClaw keeps its plugins in a registry behind its own program: enabling an
//! adapter runs `openclaw plugins install`, disabling it runs `openclaw plugins
//! uninstall`, and `openclaw plugins list` says what is registered. The driver
//! builds these commands out of validated data and reads their results; it
//! never runs one.

use crate::adapter::claim::{
    plugin_id_fault, reports_plugin_id, validate_plugin_id, AdapterClaim, ClaimResource,
    ClaimResourceKind, ClaimStatus, ClaimView, DriverPayload, OpenClawClaim, ResourceKindView,
    ResourceView, CLAIM_SCHEMA_VERSION, DRIVER_SCHEMA_VERSION,
};
use crate::adapter::driver::{
    AdapterBundle, AdapterCondition, AdapterConditionKind, AdapterStatusReport, AdapterSummary,
    ClaimResourceRef, CliOutput, ConditionStatus, ConditionView, DisableReport, DisableReportView,
    DriverPlan, FrameworkCommand, StatusReportView,
};
use crate::adapter::{AdapterError, DetectResult};
use crate::clock::{like_utc_time, now_iso8601};
use crate::paths::{join_path, joined_path};
use crate::text::{
    chars_of, concat2, concat3, concat4, contains_word, copy_opt, decimal_int, has_word, opt_text,
    own, signed_number, strip_end, texts, trim, trimmed, without_trailing,
};
use vstd::prelude::*;

verus! {

/// Time limit of a call in milliseconds.
pub const CLI_TIMEOUT_MS: u64 = 60_000;

/// What the environment says about OpenClaw.
#[derive(Debug)]
pub struct OpenClawEnv {
    /// Value of `OPENCLAW_BIN`.
    pub bin_override: Option<String>,
    /// Value of `OPENCLAW_HOME`.
    pub home_override: Option<String>,
    /// Home directory of the user.
    pub user_home: Option<String>,
}

// ---------------------------------------------------------------------------
// Commands
// ---------------------------------------------------------------------------

/// Name of the program: the override unless it is empty, else `openclaw`.
pub open spec fn bin_name(bin_override: Option<String>) -> Seq<char> {
    match bin_override {
        Some(b) if b@.len() > 0 => b@,
        _ => "openclaw"@,
    }
}

/// Name of the program.
pub fn openclaw_bin(bin_override: &Option<String>) -> (r: String)
    ensures
        r@ == bin_name(*bin_override),
{
    if let Some(b) = bin_override {
        if chars_of(b.as_str()).len() > 0 {
            return b.clone();
        }
    }
    own("openclaw")
}

/// The home of OpenClaw, where it also keeps its state: the override without
/// trailing slashes unless that is empty, else `.openclaw` in the home of the
/// user.
pub open spec fn home_of(home_override: Option<String>, user_home: Option<String>) -> Option<
    Seq<char>,
> {
    match home_override {
        Some(h) if strip_end(h@, '/').len() > 0 => Some(strip_end(h@, '/')),
        _ => match user_home {
            Some(u) => Some(joined_path(u@, ".openclaw"@)),
            None => None,
        },
    }
}

/// The home of OpenClaw.
pub fn openclaw_home(home_override: &Option<String>, user_home: &Option<String>) -> (r: Option<
    String,
>)
    ensures
        opt_text(r) == home_of(*home_override, *user_home),
{
    if let Some(h) = home_override {
        let trimmed = without_trailing(h.as_str(), '/');
        if chars_of(trimmed.as_str()).len() > 0 {
            return Some(trimmed);
        }
    }
    match user_home {
        Some(u) => Some(join_path(u.as_str(), ".openclaw")),
        None => None,
    }
}

impl OpenClawEnv {
    /// Name of the program.
    pub open spec fn bin(self) -> Seq<char> {
        bin_name(self.bin_override)
    }

    /// The home of OpenClaw.
    pub open spec fn home(self) -> Option<Seq<char>> {
        home_of(self.home_override, self.user_home)
    }
}

/// Directories in front of the search path: `.local/bin` of the user, `bin` of
/// OpenClaw and `/usr/local/bin`.
pub open spec fn search_dirs(home: Seq<char>, user_home: Option<String>) -> Seq<Seq<char>> {
    let rest = seq![joined_path(home, "bin"@), "/usr/local/bin"@];
    match user_home {
        Some(u) => seq![joined_path(u@, ".local/bin"@)] + rest,
        None => rest,
    }
}

/// Directories in front of the search path.
pub fn path_prepend(home: &str, user_home: &Option<String>) -> (r: Vec<String>)
    ensures
        texts(r@) == search_dirs(home@, *user_home),
{
    let mut v: Vec<String> = Vec::new();
    if let Some(u) = user_home {
        v.push(join_path(u.as_str(), ".local/bin"));
    }
    v.push(join_path(home, "bin"));
    v.push(own("/usr/local/bin"));
    assert(texts(v@) =~= search_dirs(home@, *user_home));
    v
}

impl FrameworkCommand {
    /// Whether this calls OpenClaw with these arguments: with
    /// `OPENCLAW_STATE_DIR` set to its home, `OPENCLAW_HOME` unset and the
    /// standard directories in front of the search path.
    pub open spec fn calls_openclaw(
        self,
        program: Seq<char>,
        args: Seq<Seq<char>>,
        home: Seq<char>,
        user_home: Option<String>,
    ) -> bool {
        &&& self.program@ == program
        &&& texts(self.args@) == args
        &&& self.env_set@.len() == 1
        &&& self.env_set@[0].0@ == "OPENCLAW_STATE_DIR"@
        &&& self.env_set@[0].1@ == home
        &&& texts(self.env_remove@) == seq!["OPENCLAW_HOME"@]
        &&& texts(self.path_prepend@) == search_dirs(home, user_home)
        &&& self.timeout_ms == CLI_TIMEOUT_MS
    }
}

fn base_cmd(program: String, args: Vec<String>, home: &str, user_home: &Option<String>) -> (r:
    FrameworkCommand)
    ensures
        r.calls_openclaw(program@, texts(args@), home@, *user_home),
{
    let mut env_set: Vec<(String, String)> = Vec::new();
    env_set.push((own("OPENCLAW_STATE_DIR"), own(home)));
    let mut env_remove: Vec<String> = Vec::new();
    env_remove.push(own("OPENCLAW_HOME"));
    assert(texts(env_remove@) =~= seq!["OPENCLAW_HOME"@]);
    FrameworkCommand {
        program,
        args,
        env_set,
        env_remove,
        path_prepend: path_prepend(home, user_home),
        timeout_ms: CLI_TIMEOUT_MS,
    }
}

/// Arguments that install the plugin at `root`.
pub open spec fn install_args(root: Seq<char>) -> Seq<Seq<char>> {
    seq!["plugins"@, "install"@, root, "--force"@, "--dangerously-force-unsafe-install"@]
}

/// Arguments that uninstall a plugin.
pub open spec fn uninstall_args(plugin_id: Seq<char>) -> Seq<Seq<char>> {
    seq!["plugins"@, "uninstall"@, plugin_id, "--force"@]
}

/// Arguments that list the plugins.
pub open spec fn list_args() -> Seq<Seq<char>> {
    seq!["plugins"@, "list"@]
}

/// The command that installs the plugin at `resource_root`.
pub fn build_install_cmd(
    program: String,
    resource_root: &str,
    home: &str,
    user_home: &Option<String>,
) -> (r: FrameworkCommand)
    ensures
        r.calls_openclaw(program@, install_args(resource_root@), home@, *user_home),
{
    let mut args: Vec<String> = Vec::new();
    args.push(own("plugins"));
    args.push(own("install"));
    args.push(own(resource_root));
    args.push(own("--force"));
    args.push(own("--dangerously-force-unsafe-install"));
    assert(texts(args@) =~= install_args(resource_root@));
    base_cmd(program, args, home, user_home)
}

/// The command that uninstalls a plugin without asking back.
pub fn build_uninstall_cmd(
    program: String,
    plugin_id: &str,
    home: &str,
    user_home: &Option<String>,
) -> (r: FrameworkCommand)
    ensures
        r.calls_openclaw(program@, uninstall_args(plugin_id@), home@, *user_home),
{
    let mut args: Vec<String> = Vec::new();
    args.push(own("plugins"));
    args.push(own("uninstall"));
    args.push(own(plugin_id));
    args.push(own("--force"));
    assert(texts(args@) =~= uninstall_args(plugin_id@));
    base_cmd(program, args, home, user_home)
}

/// The command that lists the plugins.
pub fn build_list_cmd(program: String, home: &str, user_home: &Option<String>) -> (r:
    FrameworkCommand)
    ensures
        r.calls_openclaw(program@, list_args(), home@, *user_home),
{
    let mut args: Vec<String> = Vec::new();
    args.push(own("plugins"));
    args.push(own("list"));
    assert(texts(args@) =~= list_args());
    base_cmd(program, args, home, user_home)
}

/// The assignments that a command is shown with.
pub open spec fn shown_env(env: Seq<(String, String)>) -> Seq<char>
    decreases env.len(),
{
    if env.len() == 0 {
        Seq::empty()
    } else {
        shown_env(env.drop_last()) + env.last().0@ + "="@ + env.last().1@ + " "@
    }
}

/// The arguments that a command is shown with.
pub open spec fn shown_args(args: Seq<Seq<char>>) -> Seq<char>
    decreases args.len(),
{
    if args.len() == 0 {
        Seq::empty()
    } else {
        shown_args(args.drop_last()).push(' ') + args.last()
    }
}

/// A command as one line, for people.
pub fn display_command(cmd: &FrameworkCommand) -> (r: String)
    ensures
        r@ == shown_env(cmd.env_set@) + cmd.program@ + shown_args(texts(cmd.args@)),
{
    let mut out = String::new();
    let mut i: usize = 0;
    assert(cmd.env_set@.take(0) =~= Seq::empty());
    while i < cmd.env_set.len()
        invariant
            i <= cmd.env_set@.len(),
            out@ == shown_env(cmd.env_set@.take(i as int)),
        decreases cmd.env_set.len() - i,
    {
        assert(cmd.env_set@.take(i + 1).drop_last() =~= cmd.env_set@.take(i as int));
        out.append(cmd.env_set[i].0.as_str());
        out.append("=");
        out.append(cmd.env_set[i].1.as_str());
        out.append(" ");
        i += 1;
    }
    assert(cmd.env_set@.take(cmd.env_set@.len() as int) =~= cmd.env_set@);
    out.append(cmd.program.as_str());
    let ghost head = out@;
    let ghost all = texts(cmd.args@);
    let mut k: usize = 0;
    assert(out@ =~= head + shown_args(all.take(0)));
    while k < cmd.args.len()
        invariant
            k <= cmd.args@.len(),
            all == texts(cmd.args@),
            out@ == head + shown_args(all.take(k as int)),
        decreases cmd.args.len() - k,
    {
        assert(all.take(k + 1).drop_last() =~= all.take(k as int));
        let ghost before = shown_args(all.take(k as int));
        out.push(' ');
        out.append(cmd.args[k].as_str());
        assert(out@ =~= head + (before.push(' ') + all[k as int]));
        k += 1;
    }
    assert(all.take(all.len() as int) =~= all);
    out
}

// ---------------------------------------------------------------------------
// The driver
// ---------------------------------------------------------------------------

/// The driver for OpenClaw. It holds no state.
#[derive(Debug)]
pub struct OpenClawDriver;

/// Name of the framework.
pub const FRAMEWORK: &'static str = "openclaw";

/// What a driver is told about an operation.
#[derive(Debug)]
pub struct DriverCtx {
    /// Component.
    pub component: String,
    /// Directory of the adapter's resources.
    pub resource_root: String,
    /// Plugin id that the manifest of the component declares.
    pub declared_plugin_id: Option<String>,
    /// What the environment says.
    pub env: OpenClawEnv,
}

/// What was found on the host.
#[derive(Debug)]
pub struct OpenClawProbe {
    /// Where the program is on the search path.
    pub cli_at: Option<String>,
    /// Whether the home of OpenClaw exists.
    pub home_exists: bool,
}

/// What a look at OpenClaw comes to. Its home alone does not make it usable.
pub open spec fn openclaw_detection(env: OpenClawEnv, probe: OpenClawProbe) -> (bool, Seq<char>) {
    match probe.cli_at {
        Some(path) => (true, "openclaw CLI found at "@ + path@),
        None => (
            false,
            "openclaw CLI not found on PATH"@ + match env.home() {
                Some(h) if probe.home_exists => " (home "@ + h
                    + " exists but CLI is not on PATH)"@,
                _ => Seq::empty(),
            },
        ),
    }
}

impl OpenClawDriver {
    /// Constructs the driver.
    pub fn new() -> (r: Self)
        ensures
            r == OpenClawDriver,
    {
        OpenClawDriver
    }

    /// Name of the framework.
    pub fn name(&self) -> (r: &'static str)
        ensures
            r@ == "openclaw"@,
    {
        FRAMEWORK
    }

    /// Whether OpenClaw can be used.
    pub fn detect(&self, env: &OpenClawEnv, probe: &OpenClawProbe) -> (r: DetectResult)
        ensures
            (r.detected, r.reason@) == openclaw_detection(*env, *probe),
    {
        match &probe.cli_at {
            Some(path) => DetectResult {
                detected: true,
                reason: concat2("openclaw CLI found at ", path.as_str()),
            },
            None => {
                let mut reason = own("openclaw CLI not found on PATH");
                if let Some(h) = openclaw_home(&env.home_override, &env.user_home) {
                    if probe.home_exists {
                        let note = concat3(
                            " (home ",
                            h.as_str(),
                            " exists but CLI is not on PATH)",
                        );
                        reason.append(note.as_str());
                        return DetectResult { detected: false, reason };
                    }
                }
                assert(reason@ =~= reason@ + Seq::<char>::empty());
                DetectResult { detected: false, reason }
            },
        }
    }

    /// The directories outside the install root that the driver may touch: the
    /// home of OpenClaw, where there is one.
    pub fn allowed_external_roots(&self, env: &OpenClawEnv) -> (r: Vec<String>)
        ensures
            texts(r@) == match env.home() {
                Some(h) => seq![h],
                None => Seq::empty(),
            },
    {
        let mut roots: Vec<String> = Vec::new();
        if let Some(h) = openclaw_home(&env.home_override, &env.user_home) {
            roots.push(h);
        }
        assert(texts(roots@) =~= match env.home() {
            Some(h) => seq![h],
            None => Seq::empty(),
        });
        roots
    }
}

impl Default for OpenClawDriver {
    fn default() -> (r: Self)
        ensures
            r == OpenClawDriver,
    {
        OpenClawDriver
    }
}

// ---------------------------------------------------------------------------
// Reading resources
// ---------------------------------------------------------------------------

/// What a look into a directory found.
#[derive(Debug)]
pub enum DirLook {
    /// It is not there or not a directory.
    NotADirectory,
    /// It could not be read.
    Failed(String),
    /// It is empty.
    Empty,
    /// It holds something.
    Filled,
}

/// What became of reading the plugin manifest of OpenClaw.
#[derive(Debug)]
pub enum PluginManifestRead {
    /// There is none.
    Missing,
    /// It could not be read.
    Failed(String),
    /// It could not be parsed.
    Malformed(String),
    /// It was read.
    Parsed {
        /// The plugin id in it.
        id: Option<String>,
    },
}

/// What the file system says about a directory of resources.
#[derive(Debug)]
pub struct BundleFacts {
    /// The directory.
    pub look: DirLook,
    /// The plugin manifest in it.
    pub plugin_manifest: PluginManifestRead,
    /// Digest of the tree, where it could be read.
    pub digest: Option<String>,
}

/// Path of the plugin manifest below a directory of resources.
pub open spec fn plugin_manifest_path(root: Seq<char>) -> Seq<char> {
    joined_path(root, "openclaw.plugin.json"@)
}

/// Path of the plugin manifest below a directory of resources.
pub fn plugin_manifest_at(root: &str) -> (r: String)
    ensures
        r@ == plugin_manifest_path(root@),
{
    join_path(root, "openclaw.plugin.json")
}

impl AdapterError {
    /// Whether this says what is wrong with resources.
    pub open spec fn is_bundle(self, at: Seq<char>, why: Seq<char>) -> bool {
        self matches AdapterError::BundleInvalid { root, reason } && root@ == at && reason@ == why
    }

    /// Whether this says that a path could not be read.
    pub open spec fn is_io(self, at: Seq<char>, why: Seq<char>) -> bool {
        self matches AdapterError::Io { path, reason } && path@ == at && reason@ == why
    }

    /// Whether this says that a call failed.
    pub open spec fn is_cli(self, name: Seq<char>, why: Seq<char>) -> bool {
        self matches AdapterError::FrameworkCli { program, reason } && program@ == name && reason@
            == why
    }
}

fn bundle_invalid(root: &str, reason: &str) -> (r: AdapterError)
    ensures
        r.is_bundle(root@, reason@),
{
    AdapterError::BundleInvalid { root: own(root), reason: own(reason) }
}

/// Whether `r` is what a plugin manifest gives: no id where there is no
/// manifest, else its id, which must not be empty.
pub open spec fn manifest_id_result(
    r: Result<Option<String>, AdapterError>,
    root: Seq<char>,
    read: PluginManifestRead,
) -> bool {
    let path = plugin_manifest_path(root);
    match read {
        PluginManifestRead::Missing => r matches Ok(id) && id is None,
        PluginManifestRead::Failed(e) => r matches Err(err) && err.is_io(path, e@),
        PluginManifestRead::Malformed(e) => r matches Err(err) && err.is_bundle(
            root,
            "failed to parse "@ + path + " as OpenClaw plugin manifest: "@ + e@,
        ),
        PluginManifestRead::Parsed { id } => match id {
            Some(given) if given@.len() > 0 => r == Result::<Option<String>, AdapterError>::Ok(
                Some(given),
            ),
            _ => r matches Err(err) && err.is_bundle(
                root,
                path + " does not declare a non-empty id"@,
            ),
        },
    }
}

/// The plugin id that the plugin manifest in a directory declares.
pub fn read_plugin_manifest_id(root: &str, read: PluginManifestRead) -> (r: Result<
    Option<String>,
    AdapterError,
>)
    ensures
        manifest_id_result(r, root@, read),
{
    let path = plugin_manifest_at(root);
    match read {
        PluginManifestRead::Missing => Ok(None),
        PluginManifestRead::Failed(e) => Err(AdapterError::Io { path, reason: e }),
        PluginManifestRead::Malformed(e) => {
            let reason = concat4(
                "failed to parse ",
                path.as_str(),
                " as OpenClaw plugin manifest: ",
                e.as_str(),
            );
            Err(AdapterError::BundleInvalid { root: own(root), reason })
        },
        PluginManifestRead::Parsed { id } => {
            if let Some(given) = id {
                if chars_of(given.as_str()).len() > 0 {
                    return Ok(Some(given));
                }
            }
            let reason = concat2(path.as_str(), " does not declare a non-empty id");
            Err(AdapterError::BundleInvalid { root: own(root), reason })
        },
    }
}

/// The plugin id of a bundle: the declared one, else that of the plugin
/// manifest, else the name of the component.
pub open spec fn bundle_plugin_id(
    declared: Option<String>,
    read: PluginManifestRead,
    component: Seq<char>,
) -> Seq<char> {
    match (declared, read) {
        (Some(d), _) => d@,
        (None, PluginManifestRead::Parsed { id: Some(given) }) => given@,
        (None, _) => component,
    }
}

/// Whether `r` is what reading the resources of an adapter comes to. An
/// unusable plugin manifest is an error even where the id is declared.
pub open spec fn bundle_result(
    r: Result<AdapterBundle, AdapterError>,
    ctx: DriverCtx,
    facts: BundleFacts,
) -> bool {
    let root = ctx.resource_root@;
    match facts.look {
        DirLook::NotADirectory => r matches Err(e) && e.is_bundle(
            root,
            "resource root does not exist or is not a directory"@,
        ),
        DirLook::Failed(why) => r matches Err(e) && e.is_io(root, why@),
        DirLook::Empty => r matches Err(e) && e.is_bundle(root, "resource root is empty"@),
        DirLook::Filled => match r {
            Ok(bundle) => {
                &&& facts.plugin_manifest is Missing || (facts.plugin_manifest
                    matches PluginManifestRead::Parsed { id } && id matches Some(given)
                    && given@.len() > 0)
                &&& bundle.resource_root@ == root
                &&& bundle.digest == facts.digest
                &&& opt_text(bundle.plugin_id) == Some(
                    bundle_plugin_id(ctx.declared_plugin_id, facts.plugin_manifest, ctx.component@),
                )
            },
            Err(e) => {
                &&& facts.plugin_manifest !is Missing
                &&& manifest_id_result(
                    Result::<Option<String>, AdapterError>::Err(e),
                    root,
                    facts.plugin_manifest,
                )
            },
        },
    }
}

// ---------------------------------------------------------------------------
// Enabling
// ---------------------------------------------------------------------------

/// Whether `e` says why an adapter with this plugin id, if it has one, cannot be
/// enabled in this environment.
pub open spec fn enable_fault(
    e: AdapterError,
    plugin_id: Option<Seq<char>>,
    root: Seq<char>,
    env: OpenClawEnv,
    no_id: Seq<char>,
) -> bool {
    match plugin_id {
        None => e.is_bundle(root, no_id),
        Some(id) => match plugin_id_fault(id) {
            Some(why) => e matches AdapterError::ClaimValidation(c) && reports_plugin_id(
                c,
                id,
                why,
            ),
            None => {
                &&& env.home() is None
                &&& e.is_cli(
                    env.bin(),
                    "cannot resolve OpenClaw home (no $HOME and no OPENCLAW_HOME)"@,
                )
            },
        },
    }
}

/// Whether an adapter with this plugin id can be enabled in this environment.
pub open spec fn enableable(plugin_id: Option<Seq<char>>, env: OpenClawEnv) -> bool {
    &&& plugin_id matches Some(id)
    &&& plugin_id_fault(id) is None
    &&& env.home() is Some
}

/// Checks a plugin id and finds the home of OpenClaw.
fn require_id_and_home(plugin_id: Option<String>, root: &str, env: &OpenClawEnv, no_id: &str) -> (r:
    Result<(String, String), AdapterError>)
    ensures
        match r {
            Ok((id, home)) => {
                &&& enableable(opt_text(plugin_id), *env)
                &&& opt_text(plugin_id) == Some(id@)
                &&& env.home() == Some(home@)
            },
            Err(e) => {
                &&& !enableable(opt_text(plugin_id), *env)
                &&& enable_fault(e, opt_text(plugin_id), root@, *env, no_id@)
            },
        },
{
    let id = match plugin_id {
        Some(id) => id,
        None => {
            return Err(bundle_invalid(root, no_id));
        },
    };
    match validate_plugin_id(id.as_str()) {
        Ok(()) => {},
        Err(e) => {
            return Err(AdapterError::ClaimValidation(e));
        },
    }
    match openclaw_home(&env.home_override, &env.user_home) {
        Some(home) => Ok((id, home)),
        None => Err(
            AdapterError::FrameworkCli {
                program: openclaw_bin(&env.bin_override),
                reason: own("cannot resolve OpenClaw home (no $HOME and no OPENCLAW_HOME)"),
            },
        ),
    }
}

impl DriverPlan {
    /// Whether this is the plan for enabling a bundle.
    pub open spec fn plans(self, bundle: AdapterBundle, ctx: DriverCtx) -> bool {
        let id = opt_text(bundle.plugin_id)->0;
        let home = ctx.env.home()->0;
        &&& self.framework@ == "openclaw"@
        &&& self.component@ == ctx.component@
        &&& texts(self.actions@) == seq![
            "register openclaw plugin '"@ + id + "' from "@ + bundle.resource_root@,
        ]
        &&& opt_text(self.register_command) == Some(
            "OPENCLAW_STATE_DIR"@ + "="@ + home + " "@ + ctx.env.bin() + shown_args(
                install_args(bundle.resource_root@),
            ),
        )
    }
}

/// The resources of a receipt: the home of OpenClaw and the plugin.
pub open spec fn receipt_resources(home: Seq<char>, plugin_id: Seq<char>) -> Seq<ResourceView> {
    seq![
        ResourceView {
            id: "openclaw_state_dir"@,
            purpose: "openclaw_state_dir"@,
            kind: ResourceKindView::ExternalPath(home),
        },
        ResourceView {
            id: "openclaw_plugin"@,
            purpose: "openclaw_plugin"@,
            kind: ResourceKindView::FrameworkPlugin("openclaw"@, plugin_id),
        },
    ]
}

/// The receipt for enabling a bundle at a time.
pub open spec fn receipt(bundle: AdapterBundle, ctx: DriverCtx, now: Seq<char>) -> ClaimView {
    let id = opt_text(bundle.plugin_id)->0;
    ClaimView {
        claim_schema: CLAIM_SCHEMA_VERSION,
        component: ctx.component@,
        framework: "openclaw"@,
        plugin_id: Some(id),
        enabled_at: now,
        resource_root: bundle.resource_root@,
        bundle_digest: opt_text(bundle.digest),
        driver_schema: DRIVER_SCHEMA_VERSION,
        status: ClaimStatus::Enabled,
        resources: receipt_resources(ctx.env.home()->0, id),
        state_dir_resource: "openclaw_state_dir"@,
        plugin_resource: "openclaw_plugin"@,
    }
}

/// Why a bundle without a plugin id is refused.
pub open spec fn no_bundle_id() -> Seq<char> {
    "no plugin id declared in manifest and none discoverable"@
}

/// Why a receipt without a plugin id is refused.
pub open spec fn no_receipt_id() -> Seq<char> {
    "openclaw receipt has no plugin id"@
}

/// The plugin id that a receipt stands for: that of its first plugin resource,
/// else the one at its top.
pub open spec fn claimed_id(claim: ClaimView) -> Option<Seq<char>> {
    match first_plugin(claim.resources) {
        Some(id) => Some(id),
        None => claim.plugin_id,
    }
}

/// The plugin id of the first plugin among resources.
pub open spec fn first_plugin(resources: Seq<ResourceView>) -> Option<Seq<char>>
    decreases resources.len(),
{
    if resources.len() == 0 {
        None
    } else {
        match resources[0].kind {
            ResourceKindView::FrameworkPlugin(_, id) => Some(id),
            _ => first_plugin(resources.skip(1)),
        }
    }
}

/// The plugin id that a receipt stands for.
pub fn claim_plugin_id(claim: &AdapterClaim) -> (r: Option<String>)
    ensures
        opt_text(r) == claimed_id(claim@),
{
    let ghost all = claim@.resources;
    let mut i: usize = 0;
    assert(all.skip(0) =~= all);
    while i < claim.resources.len()
        invariant
            i <= claim.resources@.len(),
            all == claim@.resources,
            all.len() == claim.resources@.len(),
            first_plugin(all) == first_plugin(all.skip(i as int)),
        decreases claim.resources.len() - i,
    {
        assert(all[i as int] == claim.resources@[i as int]@);
        if let ClaimResourceKind::FrameworkPlugin { plugin_id, .. } = &claim.resources[i].kind {
            return Some(plugin_id.clone());
        }
        assert(all.skip(i as int).skip(1) =~= all.skip(i + 1));
        i += 1;
    }
    copy_opt(&claim.plugin_id)
}

/// Why a call failed: that it took too long, else its exit code and what it
/// wrote on standard error.
pub open spec fn failure_text(verb: Seq<char>, output: CliOutput) -> Seq<char> {
    if output.timed_out {
        "'"@ + verb + "' timed out"@
    } else {
        let code = match output.status {
            Some(c) => decimal_int(c as int),
            None => "killed"@,
        };
        let stderr = trim(output.stderr@);
        let head = "'"@ + verb + "' exited with "@ + code;
        if stderr.len() > 0 {
            head + ": "@ + stderr
        } else {
            head
        }
    }
}

/// Why a call failed.
pub fn cli_failure_reason(verb: &str, output: &CliOutput) -> (r: String)
    ensures
        r@ == failure_text(verb@, *output),
{
    if output.timed_out {
        return concat3("'", verb, "' timed out");
    }
    let code = match output.status {
        Some(c) => signed_number(c),
        None => own("killed"),
    };
    let mut reason = concat4("'", verb, "' exited with ", code.as_str());
    let stderr = trimmed(output.stderr.as_str());
    if chars_of(stderr.as_str()).len() > 0 {
        reason.append(": ");
        reason.append(stderr.as_str());
    }
    reason
}

impl OpenClawDriver {
    /// Reads the resources of an adapter.
    pub fn read_bundle(&self, ctx: &DriverCtx, facts: BundleFacts) -> (r: Result<
        AdapterBundle,
        AdapterError,
    >)
        ensures
            bundle_result(r, *ctx, facts),
    {
        let root = ctx.resource_root.as_str();
        match facts.look {
            DirLook::NotADirectory => {
                return Err(
                    bundle_invalid(root, "resource root does not exist or is not a directory"),
                );
            },
            DirLook::Failed(e) => {
                return Err(AdapterError::Io { path: own(root), reason: e });
            },
            DirLook::Empty => {
                return Err(bundle_invalid(root, "resource root is empty"));
            },
            DirLook::Filled => {},
        }
        let from_manifest = match read_plugin_manifest_id(root, facts.plugin_manifest) {
            Ok(id) => id,
            Err(e) => {
                return Err(e);
            },
        };
        let plugin_id = match &ctx.declared_plugin_id {
            Some(d) => d.clone(),
            None => match from_manifest {
                Some(id) => id,
                None => ctx.component.clone(),
            },
        };
        Ok(
            AdapterBundle {
                resource_root: own(root),
                digest: facts.digest,
                plugin_id: Some(plugin_id),
            },
        )
    }

    /// Says what enabling a bundle would do.
    pub fn plan_enable(&self, bundle: &AdapterBundle, ctx: &DriverCtx) -> (r: Result<
        DriverPlan,
        AdapterError,
    >)
        ensures
            match r {
                Ok(plan) => enableable(opt_text(bundle.plugin_id), ctx.env) && plan.plans(
                    *bundle,
                    *ctx,
                ),
                Err(e) => !enableable(opt_text(bundle.plugin_id), ctx.env) && enable_fault(
                    e,
                    opt_text(bundle.plugin_id),
                    bundle.resource_root@,
                    ctx.env,
                    no_bundle_id(),
                ),
            },
    {
        let (id, home) = match require_id_and_home(
            copy_opt(&bundle.plugin_id),
            bundle.resource_root.as_str(),
            &ctx.env,
            "no plugin id declared in manifest and none discoverable",
        ) {
            Ok(pair) => pair,
            Err(e) => {
                return Err(e);
            },
        };
        let cmd = build_install_cmd(
            openclaw_bin(&ctx.env.bin_override),
            bundle.resource_root.as_str(),
            home.as_str(),
            &ctx.env.user_home,
        );
        let mut actions: Vec<String> = Vec::new();
        actions.push(
            concat4(
                "register openclaw plugin '",
                id.as_str(),
                "' from ",
                bundle.resource_root.as_str(),
            ),
        );
        assert(texts(actions@) =~= seq![
            "register openclaw plugin '"@ + id@ + "' from "@ + bundle.resource_root@,
        ]);
        let shown = display_command(&cmd);
        proof {
            assert(cmd.env_set@.drop_last() =~= Seq::empty());
            assert(shown_env(cmd.env_set@.drop_last()) =~= Seq::empty());
            assert(shown_env(cmd.env_set@) =~= "OPENCLAW_STATE_DIR"@ + "="@ + home@ + " "@);
            assert(shown@ =~= "OPENCLAW_STATE_DIR"@ + "="@ + home@ + " "@ + ctx.env.bin()
                + shown_args(install_args(bundle.resource_root@)));
        }
        Ok(
            DriverPlan {
                framework: own(FRAMEWORK),
                component: ctx.component.clone(),
                actions,
                register_command: Some(shown),
            },
        )
    }

    /// The receipt for enabling a bundle at the time `now`.
    pub fn prepare_enable_at(&self, bundle: &AdapterBundle, ctx: &DriverCtx, now: String) -> (r:
        Result<AdapterClaim, AdapterError>)
        ensures
            match r {
                Ok(claim) => enableable(opt_text(bundle.plugin_id), ctx.env) && claim@ == receipt(
                    *bundle,
                    *ctx,
                    now@,
                ),
                Err(e) => !enableable(opt_text(bundle.plugin_id), ctx.env) && enable_fault(
                    e,
                    opt_text(bundle.plugin_id),
                    bundle.resource_root@,
                    ctx.env,
                    no_bundle_id(),
                ),
            },
    {
        let (id, home) = match require_id_and_home(
            copy_opt(&bundle.plugin_id),
            bundle.resource_root.as_str(),
            &ctx.env,
            "no plugin id declared in manifest and none discoverable",
        ) {
            Ok(pair) => pair,
            Err(e) => {
                return Err(e);
            },
        };
        let mut resources: Vec<ClaimResource> = Vec::new();
        resources.push(
            ClaimResource {
                id: own("openclaw_state_dir"),
                purpose: own("openclaw_state_dir"),
                kind: ClaimResourceKind::ExternalPath { path: home },
            },
        );
        resources.push(
            ClaimResource {
                id: own("openclaw_plugin"),
                purpose: own("openclaw_plugin"),
                kind: ClaimResourceKind::FrameworkPlugin {
                    framework: own(FRAMEWORK),
                    plugin_id: id.clone(),
                },
            },
        );
        assert(crate::adapter::claim::resources_of(resources@) =~= receipt_resources(home@, id@));
        Ok(
            AdapterClaim {
                claim_schema: CLAIM_SCHEMA_VERSION,
                component: ctx.component.clone(),
                framework: own(FRAMEWORK),
                plugin_id: Some(id),
                enabled_at: now,
                resource_root: bundle.resource_root.clone(),
                bundle_digest: copy_opt(&bundle.digest),
                driver_schema: DRIVER_SCHEMA_VERSION,
                status: ClaimStatus::Enabled,
                resources,
                driver_payload: DriverPayload::OpenClaw(
                    OpenClawClaim {
                        state_dir_resource: own("openclaw_state_dir"),
                        plugin_resource: own("openclaw_plugin"),
                    },
                ),
            },
        )
    }

    /// The receipt for enabling a bundle now.
    pub fn prepare_enable(&self, bundle: &AdapterBundle, ctx: &DriverCtx) -> (r: Result<
        AdapterClaim,
        AdapterError,
    >)
        ensures
            match r {
                Ok(claim) => {
                    &&& enableable(opt_text(bundle.plugin_id), ctx.env)
                    &&& claim@ == receipt(*bundle, *ctx, claim.enabled_at@)
                    &&& like_utc_time(claim.enabled_at@)
                },
                Err(e) => !enableable(opt_text(bundle.plugin_id), ctx.env) && enable_fault(
                    e,
                    opt_text(bundle.plugin_id),
                    bundle.resource_root@,
                    ctx.env,
                    no_bundle_id(),
                ),
            },
    {
        self.prepare_enable_at(bundle, ctx, now_iso8601())
    }

    /// The command that carries out a receipt.
    pub fn enable_command(&self, claim: &AdapterClaim, env: &OpenClawEnv) -> (r: Result<
        FrameworkCommand,
        AdapterError,
    >)
        ensures
            match r {
                Ok(cmd) => {
                    &&& enableable(claimed_id(claim@), *env)
                    &&& cmd.calls_openclaw(
                        env.bin(),
                        install_args(claim.resource_root@),
                        env.home()->0,
                        env.user_home,
                    )
                },
                Err(e) => !enableable(claimed_id(claim@), *env) && enable_fault(
                    e,
                    claimed_id(claim@),
                    claim.resource_root@,
                    *env,
                    no_receipt_id(),
                ),
            },
    {
        match require_id_and_home(
            claim_plugin_id(claim),
            claim.resource_root.as_str(),
            env,
            "openclaw receipt has no plugin id",
        ) {
            Ok((_, home)) => Ok(
                build_install_cmd(
                    openclaw_bin(&env.bin_override),
                    claim.resource_root.as_str(),
                    home.as_str(),
                    &env.user_home,
                ),
            ),
            Err(e) => Err(e),
        }
    }

    /// Says what the call of [`OpenClawDriver::enable_command`] comes to.
    pub fn enable_result(&self, program: String, output: &CliOutput) -> (r: Result<
        (),
        AdapterError,
    >)
        ensures
            if output.succeeded() {
                r is Ok
            } else {
                r matches Err(e) && e.is_cli(program@, failure_text("plugins install"@, *output))
            },
    {
        if output.success() {
            Ok(())
        } else {
            Err(
                AdapterError::FrameworkCli {
                    program,
                    reason: cli_failure_reason("plugins install", output),
                },
            )
        }
    }
}

// ---------------------------------------------------------------------------
// Status
// ---------------------------------------------------------------------------

/// Whether `plugin_id` is one of the words of a listing.
pub fn list_contains_plugin(stdout: &str, plugin_id: &str) -> (r: bool)
    ensures
        r == has_word(stdout@, plugin_id@),
{
    contains_word(stdout, plugin_id)
}

/// A truth value as the status of a condition.
pub open spec fn status_of(b: bool) -> ConditionStatus {
    if b {
        ConditionStatus::True
    } else {
        ConditionStatus::False
    }
}

/// A truth value as the status of a condition.
pub fn bool_status(b: bool) -> (r: ConditionStatus)
    ensures
        r == status_of(b),
{
    if b {
        ConditionStatus::True
    } else {
        ConditionStatus::False
    }
}

/// The overall state of an adapter. A receipt left behind by a failed cleanup
/// comes before all else.
pub open spec fn overall(
    claim_status: ClaimStatus,
    framework_detected: bool,
    plugin_registered: ConditionStatus,
) -> AdapterSummary {
    if claim_status == ClaimStatus::CleanupFailed {
        AdapterSummary::CleanupFailed
    } else if !framework_detected {
        AdapterSummary::Degraded
    } else {
        match plugin_registered {
            ConditionStatus::True => AdapterSummary::Healthy,
            ConditionStatus::False => AdapterSummary::Degraded,
            ConditionStatus::Unknown => AdapterSummary::Unknown,
        }
    }
}

/// The overall state of an adapter.
pub fn summarize(
    claim_status: ClaimStatus,
    framework_detected: bool,
    plugin_registered: ConditionStatus,
) -> (r: AdapterSummary)
    ensures
        r == overall(claim_status, framework_detected, plugin_registered),
{
    if claim_status == ClaimStatus::CleanupFailed {
        return AdapterSummary::CleanupFailed;
    }
    if !framework_detected {
        return AdapterSummary::Degraded;
    }
    match plugin_registered {
        ConditionStatus::True => AdapterSummary::Healthy,
        ConditionStatus::False => AdapterSummary::Degraded,
        ConditionStatus::Unknown => AdapterSummary::Unknown,
    }
}

fn condition(
    kind: AdapterConditionKind,
    status: ConditionStatus,
    reason: Option<String>,
    on_plugin: bool,
) -> (r: AdapterCondition)
    ensures
        r@ == (ConditionView {
            kind,
            status,
            reason: opt_text(reason),
            resource: if on_plugin {
                Some("openclaw_plugin"@)
            } else {
                None
            },
        }),
{
    AdapterCondition {
        kind,
        status,
        reason,
        resource: if on_plugin {
            Some(ClaimResourceRef { id: own("openclaw_plugin") })
        } else {
            None
        },
    }
}

/// The condition that the resources are those that the adapter was enabled
/// with; unknown where one of the two digests is missing.
pub open spec fn bundle_condition(
    recorded: Option<Seq<char>>,
    current: Option<Seq<char>>,
) -> ConditionView {
    let (status, reason) = match (recorded, current) {
        (Some(a), Some(b)) => if a == b {
            (ConditionStatus::True, None)
        } else {
            (ConditionStatus::False, Some("resource bundle changed since enable"@))
        },
        _ => (
            ConditionStatus::Unknown,
            Some("no digest recorded or resource root unavailable"@),
        ),
    };
    ConditionView {
        kind: AdapterConditionKind::ResourceBundleMatches,
        status,
        reason,
        resource: None,
    }
}

fn bundle_match_condition(recorded: &Option<String>, current: &Option<String>) -> (r:
    AdapterCondition)
    ensures
        r@ == bundle_condition(opt_text(*recorded), opt_text(*current)),
{
    let kind = AdapterConditionKind::ResourceBundleMatches;
    match (recorded, current) {
        (Some(a), Some(b)) => {
            if crate::text::same(a.as_str(), b.as_str()) {
                condition(kind, ConditionStatus::True, None, false)
            } else {
                condition(
                    kind,
                    ConditionStatus::False,
                    Some(own("resource bundle changed since enable")),
                    false,
                )
            }
        },
        _ => condition(
            kind,
            ConditionStatus::Unknown,
            Some(own("no digest recorded or resource root unavailable")),
            false,
        ),
    }
}

/// What became of listing the plugins.
#[derive(Debug)]
pub enum PluginListing {
    /// It was not asked for.
    NotRun,
    /// The program could not be run.
    Failed,
    /// The program ran.
    Ran(CliOutput),
}

/// Whether the plugins have to be listed to tell the state of an adapter.
pub open spec fn needs_listing(claim: ClaimView, env: OpenClawEnv, probe: OpenClawProbe) -> bool {
    probe.cli_at is Some && claimed_id(claim) is Some && env.home() is Some
}

/// What is known about the registration of a plugin: its condition, whether it
/// could be looked up, and the verdict.
pub open spec fn registration(
    claim: ClaimView,
    env: OpenClawEnv,
    probe: OpenClawProbe,
    listing: PluginListing,
) -> (ConditionStatus, Option<Seq<char>>, bool, ConditionStatus, Option<Seq<char>>) {
    let id = claimed_id(claim);
    if probe.cli_at is None {
        (
            ConditionStatus::Unknown,
            Some("framework not detected; cannot verify"@),
            id is Some,
            ConditionStatus::False,
            Some("openclaw CLI unavailable"@),
        )
    } else if id is None {
        (
            ConditionStatus::Unknown,
            Some("receipt has no plugin id"@),
            false,
            ConditionStatus::True,
            None,
        )
    } else if env.home() is None {
        (
            ConditionStatus::Unknown,
            Some("cannot resolve openclaw home"@),
            true,
            ConditionStatus::False,
            Some("openclaw home unresolved"@),
        )
    } else {
        match listing {
            PluginListing::Ran(output) if output.succeeded() => {
                let registered = has_word(output.stdout@, id->0);
                (
                    status_of(registered),
                    if registered {
                        None
                    } else {
                        Some("plugin not present in `plugins list`"@)
                    },
                    true,
                    ConditionStatus::True,
                    None,
                )
            },
            _ => (
                ConditionStatus::Unknown,
                Some("`plugins list` did not return a usable result"@),
                true,
                ConditionStatus::False,
                Some("`plugins list` unavailable"@),
            ),
        }
    }
}

/// The state of an adapter.
pub open spec fn adapter_status(
    claim: ClaimView,
    env: OpenClawEnv,
    probe: OpenClawProbe,
    digest: Option<Seq<char>>,
    listing: PluginListing,
) -> StatusReportView {
    let (detected, why) = openclaw_detection(env, probe);
    let (registered, registered_why, on_plugin, verified, verified_why) = registration(
        claim,
        env,
        probe,
        listing,
    );
    StatusReportView {
        summary: overall(claim.status, detected, registered),
        conditions: seq![
            ConditionView {
                kind: AdapterConditionKind::FrameworkDetected,
                status: status_of(detected),
                reason: Some(why),
                resource: None,
            },
            bundle_condition(claim.bundle_digest, digest),
            ConditionView {
                kind: AdapterConditionKind::PluginRegistered,
                status: registered,
                reason: registered_why,
                resource: if on_plugin {
                    Some("openclaw_plugin"@)
                } else {
                    None
                },
            },
            ConditionView {
                kind: AdapterConditionKind::VerificationSupported,
                status: verified,
                reason: verified_why,
                resource: None,
            },
        ],
    }
}

/// The two conditions about the registration of a plugin.
fn plugin_registered_condition(
    claim: &AdapterClaim,
    env: &OpenClawEnv,
    probe: &OpenClawProbe,
    listing: &PluginListing,
) -> (r: (AdapterCondition, AdapterCondition, ConditionStatus))
    ensures
        ({
            let (status, why, on_plugin, verified, verified_why) = registration(
                claim@,
                *env,
                *probe,
                *listing,
            );
            &&& r.0@ == (ConditionView {
                kind: AdapterConditionKind::PluginRegistered,
                status,
                reason: why,
                resource: if on_plugin {
                    Some("openclaw_plugin"@)
                } else {
                    None
                },
            })
            &&& r.1@ == (ConditionView {
                kind: AdapterConditionKind::VerificationSupported,
                status: verified,
                reason: verified_why,
                resource: None,
            })
            &&& r.2 == status
        }),
{
    let registered_kind = AdapterConditionKind::PluginRegistered;
    let verified_kind = AdapterConditionKind::VerificationSupported;
    let id = claim_plugin_id(claim);
    if probe.cli_at.is_none() {
        return (
            condition(
                registered_kind,
                ConditionStatus::Unknown,
                Some(own("framework not detected; cannot verify")),
                id.is_some(),
            ),
            condition(
                verified_kind,
                ConditionStatus::False,
                Some(own("openclaw CLI unavailable")),
                false,
            ),
            ConditionStatus::Unknown,
        );
    }
    let id = match id {
        Some(id) => id,
        None => {
            return (
                condition(
                    registered_kind,
                    ConditionStatus::Unknown,
                    Some(own("receipt has no plugin id")),
                    false,
                ),
                condition(verified_kind, ConditionStatus::True, None, false),
                ConditionStatus::Unknown,
            );
        },
    };
    if openclaw_home(&env.home_override, &env.user_home).is_none() {
        return (
            condition(
                registered_kind,
                ConditionStatus::Unknown,
                Some(own("cannot resolve openclaw home")),
                true,
            ),
            condition(
                verified_kind,
                ConditionStatus::False,
                Some(own("openclaw home unresolved")),
                false,
            ),
            ConditionStatus::Unknown,
        );
    }
    if let PluginListing::Ran(output) = listing {
        if output.success() {
            let registered = list_contains_plugin(output.stdout.as_str(), id.as_str());
            let why = if registered {
                None
            } else {
                Some(own("plugin not present in `plugins list`"))
            };
            let status = bool_status(registered);
            return (
                condition(registered_kind, status, why, true),
                condition(verified_kind, ConditionStatus::True, None, false),
                status,
            );
        }
    }
    (
        condition(
            registered_kind,
            ConditionStatus::Unknown,
            Some(own("`plugins list` did not return a usable result")),
            true,
        ),
        condition(
            verified_kind,
            ConditionStatus::False,
            Some(own("`plugins list` unavailable")),
            false,
        ),
        ConditionStatus::Unknown,
    )
}

// ---------------------------------------------------------------------------
// Disabling
// ---------------------------------------------------------------------------

/// What disabling an adapter comes to before anything is run.
#[derive(Debug)]
pub enum DisableStep {
    /// There is nothing to run.
    Done(DisableReport),
    /// Run the command; [`OpenClawDriver::disable_result`] takes its output.
    Run {
        /// The command.
        command: FrameworkCommand,
        /// Plugin that it uninstalls.
        plugin_id: String,
    },
}

/// Whether `r` is what disabling an adapter comes to before anything is run.
pub open spec fn disable_step(
    r: Result<DisableStep, AdapterError>,
    claim: ClaimView,
    env: OpenClawEnv,
    cli_at: Option<String>,
) -> bool {
    match claimed_id(claim) {
        None => {
            &&& r matches Ok(DisableStep::Done(report))
            &&& report@ == (DisableReportView {
                cleanup_complete: true,
                messages: seq!["receipt records no plugin to unregister"@],
            })
        },
        Some(id) => match plugin_id_fault(id) {
            Some(why) => r matches Err(AdapterError::ClaimValidation(c)) && reports_plugin_id(
                c,
                id,
                why,
            ),
            None => if cli_at is None {
                &&& r matches Ok(DisableStep::Done(report))
                &&& report@ == (DisableReportView {
                    cleanup_complete: false,
                    messages: seq![
                        "openclaw CLI not found on PATH; receipt kept so cleanup can be retried"@,
                    ],
                })
            } else {
                match env.home() {
                    Some(home) => {
                        &&& r matches Ok(DisableStep::Run { command, plugin_id })
                        &&& plugin_id@ == id
                        &&& command.calls_openclaw(
                            env.bin(),
                            uninstall_args(id),
                            home,
                            env.user_home,
                        )
                    },
                    None => r matches Err(e) && e.is_cli(
                        env.bin(),
                        "cannot resolve OpenClaw home (no $HOME and no OPENCLAW_HOME)"@,
                    ),
                }
            },
        },
    }
}

impl OpenClawDriver {
    /// The command that lists the plugins, where they have to be listed to tell
    /// the state of an adapter.
    pub fn status_command(&self, claim: &AdapterClaim, env: &OpenClawEnv, probe: &OpenClawProbe)
        -> (r: Option<FrameworkCommand>)
        ensures
            r is Some <==> needs_listing(claim@, *env, *probe),
            r matches Some(cmd) ==> cmd.calls_openclaw(
                env.bin(),
                list_args(),
                env.home()->0,
                env.user_home,
            ),
    {
        if probe.cli_at.is_none() || claim_plugin_id(claim).is_none() {
            return None;
        }
        match openclaw_home(&env.home_override, &env.user_home) {
            Some(home) => Some(
                build_list_cmd(openclaw_bin(&env.bin_override), home.as_str(), &env.user_home),
            ),
            None => None,
        }
    }

    /// The state of an adapter. `digest` is that of its resources now, `listing`
    /// what became of [`OpenClawDriver::status_command`].
    pub fn status(
        &self,
        claim: &AdapterClaim,
        env: &OpenClawEnv,
        probe: &OpenClawProbe,
        digest: &Option<String>,
        listing: &PluginListing,
    ) -> (r: AdapterStatusReport)
        ensures
            r@ == adapter_status(claim@, *env, *probe, opt_text(*digest), *listing),
    {
        let detect = self.detect(env, probe);
        let mut conditions: Vec<AdapterCondition> = Vec::new();
        conditions.push(
            condition(
                AdapterConditionKind::FrameworkDetected,
                bool_status(detect.detected),
                Some(detect.reason),
                false,
            ),
        );
        conditions.push(bundle_match_condition(&claim.bundle_digest, digest));
        let (plugin, verify, registered) = plugin_registered_condition(claim, env, probe, listing);
        conditions.push(plugin);
        conditions.push(verify);
        let summary = summarize(claim.status, detect.detected, registered);
        let report = AdapterStatusReport { summary, conditions };
        assert(report@.conditions =~= adapter_status(
            claim@,
            *env,
            *probe,
            opt_text(*digest),
            *listing,
        ).conditions);
        report
    }

    /// Says what disabling an adapter comes to before anything is run.
    pub fn disable(&self, claim: &AdapterClaim, env: &OpenClawEnv, cli_at: &Option<String>) -> (r:
        Result<DisableStep, AdapterError>)
        ensures
            disable_step(r, claim@, *env, *cli_at),
    {
        let id = match claim_plugin_id(claim) {
            Some(id) => id,
            None => {
                return Ok(
                    DisableStep::Done(
                        DisableReport::with_message(
                            true,
                            own("receipt records no plugin to unregister"),
                        ),
                    ),
                );
            },
        };
        match validate_plugin_id(id.as_str()) {
            Ok(()) => {},
            Err(e) => {
                return Err(AdapterError::ClaimValidation(e));
            },
        }
        if cli_at.is_none() {
            return Ok(
                DisableStep::Done(
                    DisableReport::with_message(
                        false,
                        own("openclaw CLI not found on PATH; receipt kept so cleanup can be retried"),
                    ),
                ),
            );
        }
        match openclaw_home(&env.home_override, &env.user_home) {
            Some(home) => {
                let command = build_uninstall_cmd(
                    openclaw_bin(&env.bin_override),
                    id.as_str(),
                    home.as_str(),
                    &env.user_home,
                );
                Ok(DisableStep::Run { command, plugin_id: id })
            },
            None => Err(
                AdapterError::FrameworkCli {
                    program: openclaw_bin(&env.bin_override),
                    reason: own("cannot resolve OpenClaw home (no $HOME and no OPENCLAW_HOME)"),
                },
            ),
        }
    }

    /// Says what the call that [`OpenClawDriver::disable`] asked for comes to.
    pub fn disable_result(&self, plugin_id: &str, output: &CliOutput) -> (r: DisableReport)
        ensures
            r@ == (DisableReportView {
                cleanup_complete: output.succeeded(),
                messages: seq![
                    if output.succeeded() {
                        "unregistered openclaw plugin '"@ + plugin_id@ + "'"@
                    } else {
                        "openclaw plugin uninstall failed: "@ + failure_text(
                            "plugins uninstall"@,
                            *output,
                        )
                    },
                ],
            }),
    {
        if output.success() {
            DisableReport::with_message(
                true,
                concat3("unregistered openclaw plugin '", plugin_id, "'"),
            )
        } else {
            DisableReport::with_message(
                false,
                concat2(
                    "openclaw plugin uninstall failed: ",
                    cli_failure_reason("plugins uninstall", output).as_str(),
                ),
            )
        }
    }
}

// ---------------------------------------------------------------------------
// Laws
// ---------------------------------------------------------------------------

/// An adapter is called healthy only when its receipt is in order, the program
/// is there and its listing holds the plugin.
pub proof fn law_healthy_is_verified(
    claim: ClaimView,
    env: OpenClawEnv,
    probe: OpenClawProbe,
    digest: Option<Seq<char>>,
    listing: PluginListing,
)
    requires
        adapter_status(claim, env, probe, digest, listing).summary == AdapterSummary::Healthy,
    ensures
        claim.status == ClaimStatus::Enabled,
        probe.cli_at is Some,
        listing matches PluginListing::Ran(output) && output.succeeded() && has_word(
            output.stdout@,
            claimed_id(claim)->0,
        ),
        claimed_id(claim) is Some,
{
}

/// A receipt left behind by a failed cleanup is never reported as anything else.
pub proof fn law_failed_cleanup_shows(
    claim: ClaimView,
    env: OpenClawEnv,
    probe: OpenClawProbe,
    digest: Option<Seq<char>>,
    listing: PluginListing,
)
    requires
        claim.status == ClaimStatus::CleanupFailed,
    ensures
        adapter_status(claim, env, probe, digest, listing).summary == AdapterSummary::CleanupFailed,
{
}

/// The receipt of an enabled bundle stands for the plugin id of the bundle, so
/// what is enabled is what is later disabled.
pub proof fn law_receipt_names_the_plugin(bundle: AdapterBundle, ctx: DriverCtx, now: Seq<char>)
    requires
        enableable(opt_text(bundle.plugin_id), ctx.env),
    ensures
        claimed_id(receipt(bundle, ctx, now)) == opt_text(bundle.plugin_id),
{
    let id = opt_text(bundle.plugin_id)->0;
    let all = receipt_resources(ctx.env.home()->0, id);
    reveal_with_fuel(first_plugin, 3);
    assert(all.skip(1)[0] == all[1]);
}

} // verus!
