//! Installing a component through a configured backend.
//!
//! The stages, in order: the component is looked up and may be installed in
//! this mode ([`InstallChosen`]), a backend is selected ([`InstallBackend`]) and
//! located ([`InstallLocated`]), what is installed does not stand against it
//! ([`InstallQuery`]), the index of the repository has a verifiable artifact
//! ([`InstallEntry`]) with an address ([`InstallAddressed`]), and every file has
//! a safe place ([`ResolvedInstall`]). All of that is decided before anything is
//! written; what follows is in [`run`].
//!
//! Only the `raw` backend can install. Hooks, health checks and starting services
//! are no part of an installation: services are recorded as not enabled.

use crate::adapter::{expand_layout_placeholders, expanded, pairs};
use crate::context::CliContext;
use crate::distribution::{ArtifactType, DistributionEntry, ResolveQuery};
use crate::env::EnvFacts;
use crate::layout::FsLayout;
use crate::manifest::{ComponentManifest, FileKind, InstallFileSpec};
use crate::response::CliError;
use crate::state::{object_at, InstalledObject, InstalledState, ObjectKind};
use crate::text::{
    concat2, concat3, concat4, concat5, contains, contains_text, copy_opt, join, joined,
    list_contains, opt_text, own, same, starts_with, strip_start, texts, without_leading,
};
use vstd::prelude::*;

pub mod laws;
pub mod render;
pub mod run;

verus! {

/// Arguments of the command.
#[derive(Debug)]
pub struct InstallArgs {
    /// Component name to install.
    pub component: String,
    /// A specific version instead of the latest in the channel.
    pub version: Option<String>,
    /// Backend in place of the default one.
    pub backend: Option<String>,
    /// Root of the repository in place of the configured one.
    pub repo: Option<String>,
    /// Name of the package that the backend knows the component by.
    pub package: Option<String>,
}

// ---------------------------------------------------------------------------
// Choosing the component
// ---------------------------------------------------------------------------

/// A component that may be installed in this mode.
#[derive(Debug)]
pub struct InstallChosen {
    /// Arguments.
    pub args: InstallArgs,
    /// Global flags.
    pub ctx: CliContext,
    /// Manifest of the component.
    pub manifest: ComponentManifest,
}

/// That a component is unknown.
pub open spec fn unknown_component(component: Seq<char>) -> Seq<char> {
    "component '"@ + component + "' is not in the catalog"@
}

/// That a component cannot be installed in a mode.
pub open spec fn unsupported_mode(
    component: Seq<char>,
    mode: Seq<char>,
    modes: Seq<Seq<char>>,
) -> Seq<char> {
    "component '"@ + component + "' does not support "@ + mode + "-mode install (supported: "@
        + join(modes, ", "@) + ")"@
}

/// Whether `r` is what becomes of a request for a component with this manifest
/// in the catalog, or none.
pub open spec fn choice_result(
    r: Result<InstallChosen, CliError>,
    args: InstallArgs,
    ctx: CliContext,
    manifest: Option<ComponentManifest>,
) -> bool {
    match manifest {
        None => r matches Err(e) && e.is_invalid("install"@, unknown_component(args.component@)),
        Some(m) => if texts(m.install.modes@).contains(ctx.install_mode.name()) {
            r == Result::<InstallChosen, CliError>::Ok(InstallChosen { args, ctx, manifest: m })
        } else {
            r matches Err(e) && e.is_invalid(
                "install"@,
                unsupported_mode(
                    args.component@,
                    ctx.install_mode.name(),
                    texts(m.install.modes@),
                ),
            )
        },
    }
}

/// Begins an installation. `manifest` is what the catalog has for the component.
pub fn handle(args: InstallArgs, ctx: &CliContext, manifest: Option<ComponentManifest>) -> (r:
    Result<InstallChosen, CliError>)
    ensures
        choice_result(r, args, *ctx, manifest),
{
    let manifest = match manifest {
        Some(m) => m,
        None => {
            return Err(
                CliError::invalid(
                    "install",
                    concat3("component '", args.component.as_str(), "' is not in the catalog"),
                ),
            );
        },
    };
    let mode = ctx.install_mode.as_str();
    if !list_contains(&manifest.install.modes, mode) {
        let mut reason = concat5(
            "component '",
            args.component.as_str(),
            "' does not support ",
            mode,
            "-mode install (supported: ",
        );
        reason.append(joined(&manifest.install.modes, ", ").as_str());
        reason.append(")");
        return Err(CliError::invalid("install", reason));
    }
    Ok(InstallChosen { args, ctx: ctx.clone(), manifest })
}

// ---------------------------------------------------------------------------
// Selecting and locating the backend
// ---------------------------------------------------------------------------

/// Whether `e` is the error for a fault of the repository configuration. What
/// the caller can mend is at fault with the request; the rest is a failure.
pub open spec fn config_fault(e: CliError, shown: Seq<char>, caller_fixable: bool) -> bool {
    if caller_fixable {
        e.is_invalid("install"@, shown)
    } else {
        e.is_runtime("install"@, "failed to load repo config: "@ + shown)
    }
}

/// The error for a fault of the repository configuration.
pub fn repo_config_err(shown: String, caller_fixable: bool) -> (r: CliError)
    ensures
        config_fault(r, shown@, caller_fixable),
{
    if caller_fixable {
        CliError::invalid("install", shown)
    } else {
        CliError::runtime("install", concat2("failed to load repo config: ", shown.as_str()))
    }
}

/// What came of selecting a backend by the repository configuration.
#[derive(Debug)]
pub enum BackendChoice {
    /// The configuration could not be loaded.
    Unloaded(String),
    /// The backend that was asked for is not one of the configured ones.
    Refused(String),
    /// A backend, by its name.
    Selected(String),
}

/// Where the root of the repository comes from.
#[derive(Debug)]
pub enum BaseUrl {
    /// From the request, to be brought into its normal form.
    Override(String),
    /// From the configuration of the backend.
    Configured,
}

/// A component with a backend.
#[derive(Debug)]
pub struct InstallBackend {
    /// The component.
    pub chosen: InstallChosen,
    /// Name of the backend.
    pub backend: String,
    /// Where the root of the repository comes from.
    pub base: BaseUrl,
}

impl InstallChosen {
    /// Takes the selected backend.
    pub fn selected(self, choice: BackendChoice) -> (r: Result<InstallBackend, CliError>)
        ensures
            match choice {
                BackendChoice::Unloaded(shown) => r matches Err(e) && config_fault(
                    e,
                    shown@,
                    false,
                ),
                BackendChoice::Refused(shown) => r matches Err(e) && config_fault(e, shown@, true),
                BackendChoice::Selected(name) => {
                    &&& r matches Ok(b)
                    &&& b.chosen == self
                    &&& b.backend == name
                    &&& match self.args.repo {
                        Some(url) => b.base == BaseUrl::Override(url),
                        None => b.base == BaseUrl::Configured,
                    }
                },
            },
    {
        match choice {
            BackendChoice::Unloaded(shown) => Err(repo_config_err(shown, false)),
            BackendChoice::Refused(shown) => Err(repo_config_err(shown, true)),
            BackendChoice::Selected(backend) => {
                let base = match &self.args.repo {
                    Some(url) => BaseUrl::Override(url.clone()),
                    None => BaseUrl::Configured,
                };
                Ok(InstallBackend { chosen: self, backend, base })
            },
        }
    }
}

/// A component with a backend and the root of its repository.
#[derive(Debug)]
pub struct InstallLocated {
    /// The component.
    pub chosen: InstallChosen,
    /// Name of the backend.
    pub backend: String,
    /// Root of the repository.
    pub base_url: String,
    /// Name that the backend knows the component by.
    pub package: String,
    /// Warnings so far.
    pub warnings: Vec<String>,
}

/// Warnings about the root of the repository: one that a request gives should
/// not be a plaintext one.
pub open spec fn base_url_warnings(overridden: bool, url: Seq<char>) -> Seq<Seq<char>> {
    if overridden && "http://"@.is_prefix_of(url) {
        seq![
            "--repo uses plaintext http ("@ + url
                + ") — artifacts are still sha256-verified on the raw backend, but the index itself is unauthenticated"@,
        ]
    } else {
        Seq::<Seq<char>>::empty()
    }
}

impl InstallBackend {
    /// Takes the root of the repository, normalized or substituted, and the name
    /// of the package.
    pub fn located(self, base_url: Result<String, String>, package: String) -> (r: Result<
        InstallLocated,
        CliError,
    >)
        ensures
            match base_url {
                Err(shown) => r matches Err(e) && config_fault(e, shown@, true),
                Ok(url) => {
                    &&& r matches Ok(l)
                    &&& l.chosen == self.chosen
                    &&& l.backend == self.backend
                    &&& l.base_url == url
                    &&& l.package == package
                    &&& texts(l.warnings@) == base_url_warnings(self.base is Override, url@)
                },
            },
    {
        let url = match base_url {
            Ok(url) => url,
            Err(shown) => {
                return Err(repo_config_err(shown, true));
            },
        };
        let overridden = match self.base {
            BaseUrl::Override(_) => true,
            BaseUrl::Configured => false,
        };
        let mut warnings: Vec<String> = Vec::new();
        if overridden && starts_with(url.as_str(), "http://") {
            warnings.push(
                concat3(
                    "--repo uses plaintext http (",
                    url.as_str(),
                    ") — artifacts are still sha256-verified on the raw backend, but the index itself is unauthenticated",
                ),
            );
        }
        assert(texts(warnings@) =~= base_url_warnings(self.base is Override, url@));
        Ok(
            InstallLocated {
                chosen: self.chosen,
                backend: self.backend,
                base_url: url,
                package,
                warnings,
            },
        )
    }
}

// ---------------------------------------------------------------------------
// What is installed
// ---------------------------------------------------------------------------

/// The backend that must have fetched a source.
pub open spec fn inferred_backend(source: Option<Seq<char>>) -> Option<Seq<char>> {
    match source {
        Some(s) => if "http://"@.is_prefix_of(s) || "https://"@.is_prefix_of(s)
            || "file://"@.is_prefix_of(s) {
            Some("raw"@)
        } else {
            None
        },
        None => None,
    }
}

/// The backend that an object was installed through, recorded or inferred.
pub open spec fn backend_of(obj: InstalledObject) -> Option<Seq<char>> {
    match obj.install_backend {
        Some(b) => Some(b@),
        None => inferred_backend(opt_text(obj.distribution_source)),
    }
}

/// What stands against installing a component through a backend.
pub open spec fn backend_conflict(
    objects: Seq<InstalledObject>,
    component: Seq<char>,
    requested: Seq<char>,
) -> Option<Seq<char>> {
    match object_at(objects, ObjectKind::Component, component) {
        None => None,
        Some(i) => match backend_of(objects[i]) {
            Some(installed) => if installed == requested {
                None
            } else {
                Some(
                    "component '"@ + component + "' is already installed via backend '"@ + installed
                        + "'; reinstalling it via backend '"@ + requested
                        + "' is not allowed — uninstall it first or use backend '"@ + installed
                        + "'"@,
                )
            },
            None => Some(
                "component '"@ + component
                    + "' is already installed but its install backend is unknown; uninstall it before installing via backend '"@
                    + requested + "'"@,
            ),
        },
    }
}

/// Whether `r` says that nothing stands against installing a component through a
/// backend, or what does.
pub open spec fn compatibility(
    r: Result<(), CliError>,
    objects: Seq<InstalledObject>,
    component: Seq<char>,
    requested: Seq<char>,
    command: Seq<char>,
) -> bool {
    match backend_conflict(objects, component, requested) {
        None => r is Ok,
        Some(reason) => r matches Err(e) && e.is_invalid(command, reason),
    }
}

/// The backend that must have fetched a source.
pub fn infer_backend_from_distribution_source(source: &Option<String>) -> (r: Option<&'static str>)
    ensures
        match r {
            Some(b) => inferred_backend(opt_text(*source)) == Some(b@),
            None => inferred_backend(opt_text(*source)) is None,
        },
{
    match source {
        Some(s) => {
            if starts_with(s.as_str(), "http://") || starts_with(s.as_str(), "https://")
                || starts_with(s.as_str(), "file://") {
                Some("raw")
            } else {
                None
            }
        },
        None => None,
    }
}

/// The backend that an object was installed through.
pub fn installed_backend_label(obj: &InstalledObject) -> (r: Option<String>)
    ensures
        opt_text(r) == backend_of(*obj),
{
    match &obj.install_backend {
        Some(b) => Some(b.clone()),
        None => match infer_backend_from_distribution_source(&obj.distribution_source) {
            Some(b) => Some(own(b)),
            None => None,
        },
    }
}

/// Refuses to install a component through another backend than the one that it
/// was installed through.
pub fn ensure_component_backend_compatible(
    state: &InstalledState,
    component: &str,
    requested_backend: &str,
    command: &str,
) -> (r: Result<(), CliError>)
    ensures
        compatibility(r, state.objects@, component@, requested_backend@, command@),
{
    let obj = match state.find_object(ObjectKind::Component, component) {
        Some(obj) => obj,
        None => {
            return Ok(());
        },
    };
    match installed_backend_label(obj) {
        Some(installed) => {
            if same(installed.as_str(), requested_backend) {
                return Ok(());
            }
            let mut reason = concat5(
                "component '",
                component,
                "' is already installed via backend '",
                installed.as_str(),
                "'; reinstalling it via backend '",
            );
            reason.append(requested_backend);
            reason.append("' is not allowed — uninstall it first or use backend '");
            reason.append(installed.as_str());
            reason.append("'");
            Err(CliError::invalid(command, reason))
        },
        None => {
            let reason = concat5(
                "component '",
                component,
                "' is already installed but its install backend is unknown; uninstall it before installing via backend '",
                requested_backend,
                "'",
            );
            Err(CliError::invalid(command, reason))
        },
    }
}

/// A component that the `raw` backend may install.
#[derive(Debug)]
pub struct InstallQuery {
    /// The component, its backend and its repository.
    pub located: InstallLocated,
}

/// Whether `r` is what becomes of a located component where this is installed.
pub open spec fn check_result(
    r: Result<InstallQuery, CliError>,
    l: InstallLocated,
    installed: Result<InstalledState, CliError>,
) -> bool {
    match installed {
        Err(e) => r == Result::<InstallQuery, CliError>::Err(e),
        Ok(state) => match backend_conflict(state.objects@, l.chosen.args.component@, l.backend@) {
            Some(reason) => r matches Err(e) && e.is_invalid("install"@, reason),
            None => if l.backend@ == "raw"@ {
                r == Result::<InstallQuery, CliError>::Ok(InstallQuery { located: l })
            } else {
                &&& r matches Err(CliError::NotImplemented { command, hint })
                &&& command@ == "install --backend "@ + l.backend@
                &&& opt_text(hint) == Some(
                    "the '"@ + l.backend@
                        + "' backend is configured but its executor is not implemented yet — only 'raw' can install today"@,
                )
            },
        },
    }
}

impl InstallLocated {
    /// Holds the request against what is installed.
    pub fn checked(self, installed: Result<InstalledState, CliError>) -> (r: Result<
        InstallQuery,
        CliError,
    >)
        ensures
            check_result(r, self, installed),
    {
        let state = match installed {
            Ok(s) => s,
            Err(e) => {
                return Err(e);
            },
        };
        match ensure_component_backend_compatible(
            &state,
            self.chosen.args.component.as_str(),
            self.backend.as_str(),
            "install",
        ) {
            Ok(_) => {},
            Err(e) => {
                return Err(e);
            },
        }
        if !same(self.backend.as_str(), "raw") {
            return Err(
                CliError::not_implemented_with_hint(
                    concat2("install --backend ", self.backend.as_str()),
                    concat3(
                        "the '",
                        self.backend.as_str(),
                        "' backend is configured but its executor is not implemented yet — only 'raw' can install today",
                    ),
                ),
            );
        }
        Ok(InstallQuery { located: self })
    }
}

// ---------------------------------------------------------------------------
// Finding the artifact
// ---------------------------------------------------------------------------

/// How the name of a file of a form ends.
pub fn artifact_ext(t: &ArtifactType) -> (r: &'static str)
    ensures
        r@ == t.ending(),
{
    match t {
        ArtifactType::TarGz => ".tar.gz",
        ArtifactType::Zip => ".zip",
        ArtifactType::Rpm => ".rpm",
        ArtifactType::Deb => ".deb",
        ArtifactType::Binary => "",
        ArtifactType::File => "",
        ArtifactType::Oci => "",
    }
}

/// How a form is written in an index.
pub fn artifact_type_wire(t: &ArtifactType) -> (r: &'static str)
    ensures
        r@ == t.wire(),
{
    match t {
        ArtifactType::TarGz => "tar_gz",
        ArtifactType::Binary => "binary",
        ArtifactType::Rpm => "rpm",
        ArtifactType::Deb => "deb",
        ArtifactType::Zip => "zip",
        ArtifactType::Oci => "oci",
        ArtifactType::File => "file",
    }
}

/// What came of looking into the index of the repository.
#[derive(Debug)]
pub enum IndexReply {
    /// The index could not be fetched.
    Unfetched(String),
    /// The index could not be read.
    Unreadable(String),
    /// The index has nothing that fits.
    Unresolved(String),
    /// The artifact that fits.
    Resolved(DistributionEntry),
}

/// The parts of an address that follows from the layout of the repository.
#[derive(Debug)]
pub struct UrlParts {
    /// Component, by the name of its package.
    pub component: String,
    /// Version.
    pub version: String,
    /// Operating system family.
    pub os: String,
    /// CPU architecture.
    pub arch: String,
    /// C library.
    pub libc: Option<String>,
    /// How the file name ends.
    pub ext: String,
}

/// Where an artifact is.
#[derive(Debug)]
pub enum ArtifactAddress {
    /// Where the layout of the repository puts it.
    Derived(UrlParts),
    /// Below the directory of the index.
    Relative(String),
    /// At an address of its own.
    Absolute(String),
}

/// A component with an artifact that can be verified.
#[derive(Debug)]
pub struct InstallEntry {
    /// The component, its backend and its repository.
    pub located: InstallLocated,
    /// The artifact.
    pub entry: DistributionEntry,
    /// Digest of the artifact.
    pub sha256: String,
    /// Where the artifact is.
    pub address: ArtifactAddress,
}

impl InstallLocated {
    /// Whether this is the same component, backend and repository.
    pub open spec fn same_place(self, other: InstallLocated) -> bool {
        &&& self.chosen == other.chosen
        &&& self.backend == other.backend
        &&& self.base_url == other.base_url
        &&& self.package == other.package
    }
}

/// A version, or that it is left open.
pub open spec fn version_text(version: Option<String>) -> Seq<char> {
    match version {
        Some(v) => v@,
        None => "latest"@,
    }
}

/// That the index has nothing that fits.
pub open spec fn unresolved_text(
    l: InstallLocated,
    env: EnvFacts,
    index_url: Seq<char>,
    shown: Seq<char>,
) -> Seq<char> {
    "cannot resolve package '"@ + l.package@ + "' (component '"@ + l.chosen.args.component@
        + "', version "@ + version_text(l.chosen.args.version) + ", "@ + env.os@ + "/"@ + env.arch@
        + ", "@ + l.chosen.ctx.install_mode.name() + " mode) from "@ + index_url + ": "@ + shown
}

/// Why an artifact is not installed: the backend cannot install its form, or
/// there is nothing to verify it by.
pub open spec fn refused(
    e: CliError,
    l: InstallLocated,
    entry: DistributionEntry,
    supported: Seq<Seq<char>>,
) -> bool {
    if !supported.contains(entry.artifact_type.wire()) {
        e.is_invalid(
            "install"@,
            "resolved artifact type '"@ + entry.artifact_type.wire()
                + "' is not installable by the raw backend (supported: "@ + join(supported, ", "@)
                + ")"@,
        )
    } else {
        e.is_runtime(
            "install"@,
            "distribution entry for '"@ + l.package@ + "' "@ + entry.version@
                + " has no sha256 — refusing to install an unverifiable artifact"@,
        )
    }
}

/// Whether an artifact can be installed at all.
pub open spec fn installable(entry: DistributionEntry, supported: Seq<Seq<char>>) -> bool {
    supported.contains(entry.artifact_type.wire()) && entry.sha256 is Some
}

/// Warnings about the version of an artifact: where none was asked for it should
/// be that of the catalog.
pub open spec fn version_warnings(l: InstallLocated, entry: DistributionEntry) -> Seq<Seq<char>> {
    let known = l.chosen.manifest.component.version@;
    if l.chosen.args.version is None && entry.version@ != known {
        seq![
            "artifact version "@ + entry.version@ + " differs from catalog manifest version "@
                + known,
        ]
    } else {
        Seq::<Seq<char>>::empty()
    }
}

/// Whether `a` is where an artifact is: an address that is left out follows from
/// the layout of the repository, one with a scheme stands for itself, and any
/// other is relative to the index.
pub open spec fn is_address(a: ArtifactAddress, entry: DistributionEntry) -> bool {
    if entry.url@.len() == 0 {
        &&& a matches ArtifactAddress::Derived(p)
        &&& p.component == entry.component
        &&& p.version == entry.version
        &&& p.os == entry.os
        &&& p.arch == entry.arch
        &&& p.libc == entry.libc
        &&& p.ext@ == entry.artifact_type.ending()
    } else if contains_text(entry.url@, "://"@) {
        a == ArtifactAddress::Absolute(entry.url)
    } else {
        a matches ArtifactAddress::Relative(path) && path@ == strip_start(entry.url@, '/')
    }
}

/// Whether `r` is what becomes of looking into the index at `index_url`.
pub open spec fn index_result(
    r: Result<InstallEntry, CliError>,
    l: InstallLocated,
    env: EnvFacts,
    index_url: Seq<char>,
    reply: IndexReply,
    supported: Seq<Seq<char>>,
) -> bool {
    match reply {
        IndexReply::Unfetched(shown) => r matches Err(e) && e.is_runtime(
            "install"@,
            "failed to fetch distribution index "@ + index_url + ": "@ + shown@,
        ),
        IndexReply::Unreadable(shown) => r matches Err(e) && e.is_runtime(
            "install"@,
            "failed to parse distribution index "@ + index_url + ": "@ + shown@,
        ),
        IndexReply::Unresolved(shown) => r matches Err(e) && e.is_invalid(
            "install"@,
            unresolved_text(l, env, index_url, shown@),
        ),
        IndexReply::Resolved(entry) => if installable(entry, supported) {
            &&& r matches Ok(found)
            &&& found.located.same_place(l)
            &&& texts(found.located.warnings@) == texts(l.warnings@) + version_warnings(l, entry)
            &&& found.entry == entry
            &&& Some(found.sha256) == entry.sha256
            &&& is_address(found.address, entry)
        } else {
            r matches Err(e) && refused(e, l, entry, supported)
        },
    }
}

fn artifact_address(entry: &DistributionEntry) -> (r: ArtifactAddress)
    ensures
        is_address(r, *entry),
{
    if entry.url.as_str().is_empty() {
        ArtifactAddress::Derived(
            UrlParts {
                component: entry.component.clone(),
                version: entry.version.clone(),
                os: entry.os.clone(),
                arch: entry.arch.clone(),
                libc: copy_opt(&entry.libc),
                ext: own(artifact_ext(&entry.artifact_type)),
            },
        )
    } else if contains(entry.url.as_str(), "://") {
        ArtifactAddress::Absolute(entry.url.clone())
    } else {
        ArtifactAddress::Relative(without_leading(entry.url.as_str(), '/'))
    }
}

impl InstallQuery {
    /// What is looked for in the index. The index is keyed by the name that the
    /// backend knows the component by.
    pub fn query(&self, env: &EnvFacts) -> (r: ResolveQuery)
        ensures
            r.component == self.located.package,
            r.version == self.located.chosen.args.version,
            r.channel is None,
            r.install_mode@ == self.located.chosen.ctx.install_mode.name(),
            r.os == env.os,
            r.arch == env.arch,
            r.libc == env.libc,
            r.pkg_base == env.pkg_base,
            r.preferred_types@.len() == 0,
    {
        ResolveQuery {
            component: self.located.package.clone(),
            version: copy_opt(&self.located.chosen.args.version),
            channel: None,
            install_mode: own(self.located.chosen.ctx.install_mode.as_str()),
            os: env.os.clone(),
            arch: env.arch.clone(),
            libc: copy_opt(&env.libc),
            pkg_base: copy_opt(&env.pkg_base),
            preferred_types: Vec::new(),
        }
    }

    /// Takes what the index at `index_url` has. `supported` are the forms that
    /// the backend can install.
    pub fn resolved(
        self,
        env: &EnvFacts,
        index_url: &str,
        reply: IndexReply,
        supported: &Vec<String>,
    ) -> (r: Result<InstallEntry, CliError>)
        ensures
            index_result(r, self.located, *env, index_url@, reply, texts(supported@)),
    {
        let entry = match reply {
            IndexReply::Unfetched(shown) => {
                return Err(
                    CliError::runtime(
                        "install",
                        concat4(
                            "failed to fetch distribution index ",
                            index_url,
                            ": ",
                            shown.as_str(),
                        ),
                    ),
                );
            },
            IndexReply::Unreadable(shown) => {
                return Err(
                    CliError::runtime(
                        "install",
                        concat4(
                            "failed to parse distribution index ",
                            index_url,
                            ": ",
                            shown.as_str(),
                        ),
                    ),
                );
            },
            IndexReply::Unresolved(shown) => {
                return Err(
                    CliError::invalid(
                        "install",
                        unresolved(&self.located, env, index_url, shown.as_str()),
                    ),
                );
            },
            IndexReply::Resolved(entry) => entry,
        };
        let wire = artifact_type_wire(&entry.artifact_type);
        if !list_contains(supported, wire) {
            return Err(
                CliError::invalid(
                    "install",
                    concat5(
                        "resolved artifact type '",
                        wire,
                        "' is not installable by the raw backend (supported: ",
                        joined(supported, ", ").as_str(),
                        ")",
                    ),
                ),
            );
        }
        let sha256 = match &entry.sha256 {
            Some(s) => s.clone(),
            None => {
                return Err(
                    CliError::runtime(
                        "install",
                        concat5(
                            "distribution entry for '",
                            self.located.package.as_str(),
                            "' ",
                            entry.version.as_str(),
                            " has no sha256 — refusing to install an unverifiable artifact",
                        ),
                    ),
                );
            },
        };
        let ghost l = self.located;
        let mut located = self.located;
        if located.chosen.args.version.is_none() && !same(
            entry.version.as_str(),
            located.chosen.manifest.component.version.as_str(),
        ) {
            located.warnings.push(
                concat4(
                    "artifact version ",
                    entry.version.as_str(),
                    " differs from catalog manifest version ",
                    located.chosen.manifest.component.version.as_str(),
                ),
            );
        }
        assert(texts(located.warnings@) =~= texts(l.warnings@) + version_warnings(l, entry));
        let address = artifact_address(&entry);
        Ok(InstallEntry { located, entry, sha256, address })
    }
}

fn unresolved(l: &InstallLocated, env: &EnvFacts, index_url: &str, shown: &str) -> (r: String)
    ensures
        r@ == unresolved_text(*l, *env, index_url@, shown@),
{
    let mut out = concat5(
        "cannot resolve package '",
        l.package.as_str(),
        "' (component '",
        l.chosen.args.component.as_str(),
        "', version ",
    );
    match &l.chosen.args.version {
        Some(v) => {
            out.append(v.as_str());
        },
        None => {
            out.append("latest");
        },
    }
    out.append(", ");
    out.append(env.os.as_str());
    out.append("/");
    out.append(env.arch.as_str());
    out.append(", ");
    out.append(l.chosen.ctx.install_mode.as_str());
    out.append(" mode) from ");
    out.append(index_url);
    out.append(": ");
    out.append(shown);
    out
}

/// A component with an artifact at a known address.
#[derive(Debug)]
pub struct InstallAddressed {
    /// The component, its backend and its repository.
    pub located: InstallLocated,
    /// The artifact.
    pub entry: DistributionEntry,
    /// Digest of the artifact.
    pub sha256: String,
    /// Address of the artifact.
    pub artifact_url: String,
}

/// The address of an artifact, or why it has none. `derived` is where the layout
/// of the repository puts it, `root` the directory of the index.
pub open spec fn artifact_url(
    a: ArtifactAddress,
    package: Seq<char>,
    version: Seq<char>,
    derived: Result<String, String>,
    root: Seq<char>,
) -> Result<Seq<char>, Seq<char>> {
    match a {
        ArtifactAddress::Derived(_) => match derived {
            Ok(url) => Ok(url@),
            Err(shown) => Err(
                "cannot derive artifact URL for '"@ + package + "' "@ + version
                    + " from raw repository layout: "@ + shown@,
            ),
        },
        ArtifactAddress::Relative(path) => Ok(root + "/"@ + path@),
        ArtifactAddress::Absolute(url) => Ok(url@),
    }
}

impl InstallEntry {
    /// Takes the address of the artifact. `derived` is where the layout of the
    /// repository puts it, `root` the directory of the index.
    pub fn addressed(self, derived: Result<String, String>, root: &str) -> (r: Result<
        InstallAddressed,
        CliError,
    >)
        ensures
            match artifact_url(
                self.address,
                self.located.package@,
                self.entry.version@,
                derived,
                root@,
            ) {
                Ok(url) => {
                    &&& r matches Ok(a)
                    &&& a.located == self.located
                    &&& a.entry == self.entry
                    &&& a.sha256 == self.sha256
                    &&& a.artifact_url@ == url
                },
                Err(reason) => r matches Err(e) && e.is_runtime("install"@, reason),
            },
    {
        let artifact_url = match self.address {
            ArtifactAddress::Derived(_) => match derived {
                Ok(url) => url,
                Err(shown) => {
                    let mut reason = concat5(
                        "cannot derive artifact URL for '",
                        self.located.package.as_str(),
                        "' ",
                        self.entry.version.as_str(),
                        " from raw repository layout: ",
                    );
                    reason.append(shown.as_str());
                    return Err(CliError::runtime("install", reason));
                },
            },
            ArtifactAddress::Relative(path) => concat3(root, "/", path.as_str()),
            ArtifactAddress::Absolute(url) => url,
        };
        Ok(
            InstallAddressed {
                located: self.located,
                entry: self.entry,
                sha256: self.sha256,
                artifact_url,
            },
        )
    }
}

// ---------------------------------------------------------------------------
// Placing the files
// ---------------------------------------------------------------------------

/// A file with its place.
#[derive(Debug)]
pub struct ResolvedInstallFile {
    /// Path inside the artifact, or what a symbolic link refers to.
    pub source: Option<String>,
    /// Where the file goes.
    pub dest: String,
    /// Unix file mode.
    pub mode: Option<String>,
    /// Role.
    pub kind: FileKind,
}

/// What a [`ResolvedInstallFile`] holds.
#[verifier::ext_equal]
pub struct PlacedFile {
    /// Path inside the artifact, or what a symbolic link refers to.
    pub source: Option<Seq<char>>,
    /// Where the file goes.
    pub dest: Seq<char>,
    /// Unix file mode.
    pub mode: Option<Seq<char>>,
    /// Role.
    pub kind: FileKind,
}

impl View for ResolvedInstallFile {
    type V = PlacedFile;

    open spec fn view(&self) -> PlacedFile {
        PlacedFile {
            source: opt_text(self.source),
            dest: self.dest@,
            mode: opt_text(self.mode),
            kind: self.kind,
        }
    }
}

/// What each file of a list holds.
pub open spec fn placed_files(files: Seq<ResolvedInstallFile>) -> Seq<PlacedFile> {
    files.map_values(|f: ResolvedInstallFile| f@)
}

/// The paths of a file whose safety must be checked.
#[derive(Debug)]
pub struct FilePaths {
    /// Where the file goes.
    pub dest: Option<String>,
    /// What a symbolic link refers to.
    pub referent: Option<String>,
}

/// Why the paths of a file are not safe; nothing where they are.
#[derive(Debug)]
pub struct FileSafety {
    /// About where the file goes.
    pub dest: Option<String>,
    /// About what a symbolic link refers to.
    pub referent: Option<String>,
}

/// A template with its placeholders and `{component}` replaced, or the first
/// placeholder that nobody knows.
pub open spec fn component_path(
    template: Seq<char>,
    layout: FsLayout,
    component: Seq<char>,
) -> Result<Seq<char>, Seq<char>> {
    expanded(template, layout, seq![("component"@, component)])
}

/// What a symbolic link refers to, as a template.
pub open spec fn referent_of(spec: InstallFileSpec) -> Option<String> {
    if spec.kind == FileKind::Symlink {
        spec.source
    } else {
        None
    }
}

/// That a template has an unknown placeholder.
pub open spec fn expand_fault(unknown: Seq<char>, template: Seq<char>) -> Seq<char> {
    "unknown placeholder '"@ + unknown + "' in template \""@ + template + "\""@
}

/// Where a file goes, or why it goes nowhere.
pub open spec fn destination(
    spec: InstallFileSpec,
    layout: FsLayout,
    component: Seq<char>,
    unsafe_dest: Option<String>,
) -> Result<Seq<char>, Seq<char>> {
    match spec.path() {
        None => Err(
            "component '"@ + component
                + "' has an [install.files] entry with neither source nor dest"@,
        ),
        Some(template) => match component_path(template@, layout, component) {
            Err(unknown) => Err(
                "failed to expand install path '"@ + template@ + "': "@ + expand_fault(
                    unknown,
                    template@,
                ),
            ),
            Ok(dest) => match unsafe_dest {
                Some(shown) => Err(
                    "install destination '"@ + dest + "' failed path safety check: "@ + shown@,
                ),
                None => Ok(dest),
            },
        },
    }
}

/// The source of a file: for a symbolic link what it refers to, which must be as
/// safe as a destination.
pub open spec fn source_path(
    spec: InstallFileSpec,
    layout: FsLayout,
    component: Seq<char>,
    unsafe_referent: Option<String>,
) -> Result<Option<Seq<char>>, Seq<char>> {
    match referent_of(spec) {
        None => Ok(opt_text(spec.source)),
        Some(template) => match component_path(template@, layout, component) {
            Err(unknown) => Err(
                "failed to expand symlink referent '"@ + template@ + "': "@ + expand_fault(
                    unknown,
                    template@,
                ),
            ),
            Ok(referent) => match unsafe_referent {
                Some(shown) => Err(
                    "symlink referent '"@ + referent + "' failed path safety check: "@ + shown@,
                ),
                None => Ok(Some(referent)),
            },
        },
    }
}

/// A file with its place, or why it has none.
pub open spec fn placement(
    spec: InstallFileSpec,
    layout: FsLayout,
    component: Seq<char>,
    safety: FileSafety,
) -> Result<PlacedFile, Seq<char>> {
    match destination(spec, layout, component, safety.dest) {
        Err(reason) => Err(reason),
        Ok(dest) => match source_path(spec, layout, component, safety.referent) {
            Err(reason) => Err(reason),
            Ok(source) => Ok(
                PlacedFile { source, dest, mode: opt_text(spec.mode), kind: spec.kind },
            ),
        },
    }
}

/// The first `n` files with their places, or why the first that has none has
/// none.
pub open spec fn placements(
    specs: Seq<InstallFileSpec>,
    layout: FsLayout,
    component: Seq<char>,
    safety: Seq<FileSafety>,
    n: int,
) -> Result<Seq<PlacedFile>, Seq<char>>
    decreases n,
{
    if n <= 0 {
        Ok(Seq::<PlacedFile>::empty())
    } else {
        match placements(specs, layout, component, safety, n - 1) {
            Err(reason) => Err(reason),
            Ok(files) => match placement(specs[n - 1], layout, component, safety[n - 1]) {
                Err(reason) => Err(reason),
                Ok(file) => Ok(files.push(file)),
            },
        }
    }
}

/// What stops one file stops all.
proof fn lemma_fault_stays(
    specs: Seq<InstallFileSpec>,
    layout: FsLayout,
    component: Seq<char>,
    safety: Seq<FileSafety>,
    k: int,
    n: int,
)
    requires
        0 <= k <= n,
        placements(specs, layout, component, safety, k) is Err,
    ensures
        placements(specs, layout, component, safety, n) == placements(
            specs,
            layout,
            component,
            safety,
            k,
        ),
    decreases n,
{
    if k < n {
        lemma_fault_stays(specs, layout, component, safety, k, n - 1);
    }
}

fn expand(template: &str, layout: &FsLayout, component: &str) -> (r: Result<String, String>)
    ensures
        match component_path(template@, *layout, component@) {
            Ok(path) => r matches Ok(p) && p@ == path,
            Err(unknown) => r matches Err(e) && e@ == expand_fault(unknown, template@),
        },
{
    let vars: [(&str, &str); 1] = [("component", component)];
    assert(pairs(vars@) =~= seq![("component"@, component@)]);
    match expand_layout_placeholders(template, layout, &vars) {
        Ok(path) => Ok(path),
        Err(e) => Err(e.message()),
    }
}

fn resolve_destination(
    spec: &InstallFileSpec,
    layout: &FsLayout,
    component: &str,
    unsafe_dest: &Option<String>,
) -> (r: Result<String, String>)
    ensures
        match destination(*spec, *layout, component@, *unsafe_dest) {
            Ok(dest) => r matches Ok(d) && d@ == dest,
            Err(reason) => r matches Err(e) && e@ == reason,
        },
{
    let template = match spec.install_path() {
        Some(t) => t,
        None => {
            return Err(
                concat3(
                    "component '",
                    component,
                    "' has an [install.files] entry with neither source nor dest",
                ),
            );
        },
    };
    let dest = match expand(template, layout, component) {
        Ok(d) => d,
        Err(shown) => {
            return Err(
                concat4("failed to expand install path '", template, "': ", shown.as_str()),
            );
        },
    };
    match unsafe_dest {
        Some(shown) => Err(
            concat4(
                "install destination '",
                dest.as_str(),
                "' failed path safety check: ",
                shown.as_str(),
            ),
        ),
        None => Ok(dest),
    }
}

fn resolve_source(
    spec: &InstallFileSpec,
    layout: &FsLayout,
    component: &str,
    unsafe_referent: &Option<String>,
) -> (r: Result<Option<String>, String>)
    ensures
        match source_path(*spec, *layout, component@, *unsafe_referent) {
            Ok(source) => r matches Ok(s) && opt_text(s) == source,
            Err(reason) => r matches Err(e) && e@ == reason,
        },
{
    if spec.kind != FileKind::Symlink {
        return Ok(copy_opt(&spec.source));
    }
    let template = match &spec.source {
        Some(t) => t.as_str(),
        None => {
            return Ok(None);
        },
    };
    let referent = match expand(template, layout, component) {
        Ok(p) => p,
        Err(shown) => {
            return Err(
                concat4("failed to expand symlink referent '", template, "': ", shown.as_str()),
            );
        },
    };
    match unsafe_referent {
        Some(shown) => Err(
            concat4(
                "symlink referent '",
                referent.as_str(),
                "' failed path safety check: ",
                shown.as_str(),
            ),
        ),
        None => Ok(Some(referent)),
    }
}

fn resolve_file(spec: &InstallFileSpec, layout: &FsLayout, component: &str, safety: &FileSafety)
    -> (r: Result<ResolvedInstallFile, String>)
    ensures
        match placement(*spec, *layout, component@, *safety) {
            Ok(file) => r matches Ok(f) && f@ == file,
            Err(reason) => r matches Err(e) && e@ == reason,
        },
{
    let dest = match resolve_destination(spec, layout, component, &safety.dest) {
        Ok(d) => d,
        Err(reason) => {
            return Err(reason);
        },
    };
    let source = match resolve_source(spec, layout, component, &safety.referent) {
        Ok(s) => s,
        Err(reason) => {
            return Err(reason);
        },
    };
    Ok(ResolvedInstallFile { source, dest, mode: copy_opt(&spec.mode), kind: spec.kind })
}

/// Renders the files of a manifest against the layout, and stops at the first
/// that has no safe place. `safety` says for each file what [`file_paths`] asks.
pub fn resolve_manifest_files(
    manifest: &ComponentManifest,
    layout: &FsLayout,
    component: &str,
    safety: &Vec<FileSafety>,
) -> (r: Result<Vec<ResolvedInstallFile>, CliError>)
    requires
        safety@.len() == manifest.install.files@.len(),
    ensures
        match placements(
            manifest.install.files@,
            *layout,
            component@,
            safety@,
            safety@.len() as int,
        ) {
            Ok(files) => r matches Ok(f) && placed_files(f@) == files,
            Err(reason) => r matches Err(e) && e.is_runtime("install"@, reason),
        },
{
    let ghost specs = manifest.install.files@;
    let mut files: Vec<ResolvedInstallFile> = Vec::new();
    let mut i: usize = 0;
    assert(placed_files(files@) =~= Seq::<PlacedFile>::empty());
    while i < safety.len()
        invariant
            i <= safety@.len(),
            specs == manifest.install.files@,
            safety@.len() == specs.len(),
            placements(specs, *layout, component@, safety@, i as int) == Ok::<
                Seq<PlacedFile>,
                Seq<char>,
            >(placed_files(files@)),
        decreases safety.len() - i,
    {
        match resolve_file(&manifest.install.files[i], layout, component, &safety[i]) {
            Ok(file) => {
                let ghost before = files@;
                files.push(file);
                assert(placed_files(files@) =~= placed_files(before).push(file@));
            },
            Err(reason) => {
                proof {
                    lemma_fault_stays(
                        specs,
                        *layout,
                        component@,
                        safety@,
                        i + 1,
                        safety@.len() as int,
                    );
                }
                return Err(CliError::runtime("install", reason));
            },
        }
        i += 1;
    }
    Ok(files)
}

/// The path that a template stands for, where all its placeholders are known.
pub open spec fn known_path(
    template: Option<String>,
    layout: FsLayout,
    component: Seq<char>,
) -> Option<Seq<char>> {
    match template {
        Some(t) => match component_path(t@, layout, component) {
            Ok(path) => Some(path),
            Err(_) => None,
        },
        None => None,
    }
}

/// The paths whose safety must be checked, file by file.
pub fn file_paths(manifest: &ComponentManifest, layout: &FsLayout, component: &str) -> (r: Vec<
    FilePaths,
>)
    ensures
        r@.len() == manifest.install.files@.len(),
        forall|k: int|
            0 <= k < r@.len() ==> {
                &&& opt_text((#[trigger] r@[k]).dest) == known_path(
                    manifest.install.files@[k].path(),
                    *layout,
                    component@,
                )
                &&& opt_text(r@[k].referent) == known_path(
                    referent_of(manifest.install.files@[k]),
                    *layout,
                    component@,
                )
            },
{
    let mut out: Vec<FilePaths> = Vec::new();
    let mut i: usize = 0;
    while i < manifest.install.files.len()
        invariant
            i <= manifest.install.files@.len(),
            out@.len() == i,
            forall|k: int|
                0 <= k < out@.len() ==> {
                    &&& opt_text((#[trigger] out@[k]).dest) == known_path(
                        manifest.install.files@[k].path(),
                        *layout,
                        component@,
                    )
                    &&& opt_text(out@[k].referent) == known_path(
                        referent_of(manifest.install.files@[k]),
                        *layout,
                        component@,
                    )
                },
        decreases manifest.install.files.len() - i,
    {
        let spec = &manifest.install.files[i];
        let dest = match spec.install_path() {
            Some(t) => match expand(t, layout, component) {
                Ok(path) => Some(path),
                Err(_) => None,
            },
            None => None,
        };
        let referent = if spec.kind == FileKind::Symlink {
            match &spec.source {
                Some(t) => match expand(t.as_str(), layout, component) {
                    Ok(path) => Some(path),
                    Err(_) => None,
                },
                None => None,
            }
        } else {
            None
        };
        out.push(FilePaths { dest, referent });
        i += 1;
    }
    out
}

/// Everything that is decided about an installation before anything is written.
#[derive(Debug)]
pub struct ResolvedInstall {
    /// Component.
    pub component: String,
    /// Name that the backend knows the component by.
    pub package: String,
    /// Name of the backend.
    pub backend: String,
    /// Root of the repository.
    pub base_url: String,
    /// The artifact.
    pub entry: DistributionEntry,
    /// Digest of the artifact.
    pub sha256: String,
    /// Address of the artifact.
    pub artifact_url: String,
    /// Files.
    pub files: Vec<ResolvedInstallFile>,
    /// Services.
    pub services: Vec<String>,
    /// Warnings.
    pub warnings: Vec<String>,
    /// Global flags.
    pub ctx: CliContext,
}

impl ResolvedInstall {
    /// Whether this is what was decided about an artifact with an address.
    pub open spec fn resolves(self, a: InstallAddressed, files: Seq<PlacedFile>) -> bool {
        &&& self.component == a.located.chosen.args.component
        &&& self.package == a.located.package
        &&& self.backend == a.located.backend
        &&& self.base_url == a.located.base_url
        &&& self.entry == a.entry
        &&& self.sha256 == a.sha256
        &&& self.artifact_url == a.artifact_url
        &&& placed_files(self.files@) == files
        &&& self.services == a.located.chosen.manifest.install.services
        &&& self.warnings == a.located.warnings
        &&& self.ctx == a.located.chosen.ctx
    }
}

/// Whether `r` is what becomes of an artifact with an address, given the safety
/// of all paths.
pub open spec fn placed_result(
    r: Result<ResolvedInstall, CliError>,
    a: InstallAddressed,
    layout: FsLayout,
    safety: Seq<FileSafety>,
) -> bool {
    let component = a.located.chosen.args.component@;
    match placements(
        a.located.chosen.manifest.install.files@,
        layout,
        component,
        safety,
        safety.len() as int,
    ) {
        Err(reason) => r matches Err(e) && e.is_runtime("install"@, reason),
        Ok(files) => if files.len() == 0 {
            r matches Err(e) && e.is_runtime(
                "install"@,
                "component '"@ + component
                    + "' declares no [install.files] — nothing to install"@,
            )
        } else {
            r matches Ok(resolved) && resolved.resolves(a, files)
        },
    }
}

impl InstallAddressed {
    /// The paths whose safety must be checked, file by file.
    pub fn paths(&self, layout: &FsLayout) -> (r: Vec<FilePaths>)
        ensures
            r@.len() == self.located.chosen.manifest.install.files@.len(),
            forall|k: int|
                0 <= k < r@.len() ==> {
                    &&& opt_text((#[trigger] r@[k]).dest) == known_path(
                        self.located.chosen.manifest.install.files@[k].path(),
                        *layout,
                        self.located.chosen.args.component@,
                    )
                    &&& opt_text(r@[k].referent) == known_path(
                        referent_of(self.located.chosen.manifest.install.files@[k]),
                        *layout,
                        self.located.chosen.args.component@,
                    )
                },
    {
        file_paths(
            &self.located.chosen.manifest,
            layout,
            self.located.chosen.args.component.as_str(),
        )
    }

    /// Places the files. `safety` says for each of them what
    /// [`InstallAddressed::paths`] asks.
    pub fn placed(self, layout: &FsLayout, safety: &Vec<FileSafety>) -> (r: Result<
        ResolvedInstall,
        CliError,
    >)
        requires
            safety@.len() == self.located.chosen.manifest.install.files@.len(),
        ensures
            placed_result(r, self, *layout, safety@),
    {
        let files = match resolve_manifest_files(
            &self.located.chosen.manifest,
            layout,
            self.located.chosen.args.component.as_str(),
            safety,
        ) {
            Ok(f) => f,
            Err(e) => {
                return Err(e);
            },
        };
        if files.len() == 0 {
            return Err(
                CliError::runtime(
                    "install",
                    concat3(
                        "component '",
                        self.located.chosen.args.component.as_str(),
                        "' declares no [install.files] — nothing to install",
                    ),
                ),
            );
        }
        let chosen = self.located.chosen;
        Ok(
            ResolvedInstall {
                component: chosen.args.component,
                package: self.located.package,
                backend: self.located.backend,
                base_url: self.located.base_url,
                entry: self.entry,
                sha256: self.sha256,
                artifact_url: self.artifact_url,
                files,
                services: chosen.manifest.install.services,
                warnings: self.located.warnings,
                ctx: chosen.ctx,
            },
        )
    }
}

// ---------------------------------------------------------------------------
// Laws
// ---------------------------------------------------------------------------

/// What is going to be installed has a digest to be verified by, and a form that
/// the backend can install.
pub proof fn law_artifact_can_be_verified(
    r: Result<InstallEntry, CliError>,
    l: InstallLocated,
    env: EnvFacts,
    index_url: Seq<char>,
    reply: IndexReply,
    supported: Seq<Seq<char>>,
)
    requires
        index_result(r, l, env, index_url, reply, supported),
        r is Ok,
    ensures
        reply matches IndexReply::Resolved(entry) && entry.sha256 == Some(r->Ok_0.sha256)
            && supported.contains(entry.artifact_type.wire()),
{
}

/// A component that was installed through one backend is not installed through
/// another.
pub proof fn law_backend_does_not_change(
    r: Result<InstallQuery, CliError>,
    l: InstallLocated,
    state: InstalledState,
    i: int,
)
    requires
        check_result(r, l, Ok(state)),
        object_at(state.objects@, ObjectKind::Component, l.chosen.args.component@) == Some(i),
        backend_of(state.objects@[i]) != Some(l.backend@),
    ensures
        r is Err,
{
}

/// Only the `raw` backend comes to an installation.
pub proof fn law_only_raw_installs(
    r: Result<InstallQuery, CliError>,
    l: InstallLocated,
    installed: Result<InstalledState, CliError>,
)
    requires
        check_result(r, l, installed),
        l.backend@ != "raw"@,
    ensures
        r is Err,
{
}

/// Where all files have their places, each place is safe, and so is what each
/// symbolic link refers to.
pub proof fn law_every_path_is_safe(
    specs: Seq<InstallFileSpec>,
    layout: FsLayout,
    component: Seq<char>,
    safety: Seq<FileSafety>,
    n: int,
    k: int,
)
    requires
        0 <= k < n,
        placements(specs, layout, component, safety, n) is Ok,
    ensures
        placements(specs, layout, component, safety, n)->Ok_0.len() == n,
        safety[k].dest is None,
        referent_of(specs[k]) is Some ==> safety[k].referent is None,
    decreases n,
{
    if k < n - 1 {
        law_every_path_is_safe(specs, layout, component, safety, n - 1, k);
    } else if n > 1 {
        law_every_path_is_safe(specs, layout, component, safety, n - 1, 0);
    }
}

} // verus!
