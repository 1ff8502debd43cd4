//! Component manifests.
//!
//! A manifest is read in two steps. The TOML text is first taken into the raw
//! records of this module, which mirror the tables that a manifest may hold;
//! [`ComponentManifest::from`] then normalizes them. Both layouts are accepted:
//! the namespaced `[component.*]` tables and the older top-level ones, the
//! former taking precedence.

use crate::distribution::ArtifactType;
use crate::lists::lemma_filter_step;
use crate::order::{bytes_lt, compare_bytes, lemma_path_order, Order};
use crate::sort::{is_sorted, sort, Rank, Ranked};
use crate::text::{copy_opt, eq_ignore_ascii_case, joined, own, same, same_ignoring_case, texts};
use vstd::prelude::*;

verus! {

/// Schema version of a manifest that does not state one.
pub const CURRENT_SCHEMA_VERSION: u32 = 2;

// ---------------------------------------------------------------------------
// Values
// ---------------------------------------------------------------------------

/// A free-form configuration value.
#[derive(Debug)]
pub enum ConfigValue {
    /// A string.
    Text(String),
    /// An integer.
    Integer(i64),
    /// The bits of a floating-point number.
    FloatBits(u64),
    /// A boolean.
    Boolean(bool),
    /// A date or time, as it is written.
    Datetime(String),
    /// An array.
    List(Vec<ConfigValue>),
    /// A table, by ascending key.
    Table(Vec<(String, ConfigValue)>),
}

/// The value under `key` in a table.
pub open spec fn entry_at(table: Seq<(String, ConfigValue)>, key: Seq<char>) -> Option<ConfigValue>
    decreases table.len(),
{
    if table.len() == 0 {
        None
    } else if table[0].0@ == key {
        Some(table[0].1)
    } else {
        entry_at(table.skip(1), key)
    }
}

/// The value under `key` in a table.
pub fn entry<'a>(table: &'a Vec<(String, ConfigValue)>, key: &str) -> (r: Option<&'a ConfigValue>)
    ensures
        match r {
            Some(v) => entry_at(table@, key@) == Some(*v),
            None => entry_at(table@, key@) is None,
        },
{
    let mut i: usize = 0;
    assert(table@.skip(0) =~= table@);
    while i < table.len()
        invariant
            i <= table@.len(),
            entry_at(table@, key@) == entry_at(table@.skip(i as int), key@),
        decreases table.len() - i,
    {
        if same(table[i].0.as_str(), key) {
            return Some(&table[i].1);
        }
        assert(table@.skip(i as int).skip(1) =~= table@.skip(i + 1));
        i += 1;
    }
    None
}

/// One string or a list of strings.
#[derive(Debug)]
pub enum StringOrList {
    /// A single string.
    One(String),
    /// A list.
    Many(Vec<String>),
}

impl StringOrList {
    /// The strings that a value stands for.
    pub open spec fn strings(self) -> Seq<String> {
        match self {
            StringOrList::One(s) => seq![s],
            StringOrList::Many(v) => v@,
        }
    }

    /// The value as a list.
    pub fn into_vec(self) -> (r: Vec<String>)
        ensures
            r@ == self.strings(),
    {
        match self {
            StringOrList::One(s) => {
                let mut v: Vec<String> = Vec::new();
                v.push(s);
                assert(v@ =~= seq![s]);
                v
            },
            StringOrList::Many(v) => v,
        }
    }
}

// ---------------------------------------------------------------------------
// Normalized records
// ---------------------------------------------------------------------------

/// A health check to run after an install.
#[derive(Debug)]
pub enum CheckSpec {
    /// Run a binary and look at the version that it prints.
    BinaryVersion {
        /// Path template of the binary.
        binary: String,
        /// Pattern that the output has to match.
        expect_pattern: Option<String>,
        /// Time limit.
        timeout_secs: Option<u64>,
    },
    /// A check of another kind, its table kept as it is written.
    Declared {
        /// The kind.
        kind: String,
        /// The table.
        table: String,
    },
}

impl Clone for CheckSpec {
    fn clone(&self) -> (r: Self)
        ensures
            r == *self,
    {
        match self {
            CheckSpec::BinaryVersion { binary, expect_pattern, timeout_secs } => {
                CheckSpec::BinaryVersion {
                    binary: binary.clone(),
                    expect_pattern: copy_opt(expect_pattern),
                    timeout_secs: *timeout_secs,
                }
            },
            CheckSpec::Declared { kind, table } => {
                CheckSpec::Declared { kind: kind.clone(), table: table.clone() }
            },
        }
    }
}

/// A runtime or osbase component manifest.
#[derive(Debug)]
pub struct ComponentManifest {
    /// Schema version.
    pub schema_version: u32,
    /// Identity and layer.
    pub component: ComponentMeta,
    /// Schema and version envelope.
    pub contract: ContractSpec,
    /// Artifact shape.
    pub artifact: ArtifactSpec,
    /// Source declaration.
    pub source: SourceSpec,
    /// Which artifact types to prefer on which targets.
    pub distribution_selectors: Vec<DistributionSelector>,
    /// Build backend.
    pub build: BuildSpec,
    /// Files, services and capabilities that the component installs.
    pub install: InstallSpec,
    /// Host requirements.
    pub env_requirements: EnvRequirements,
    /// Dependencies by kind.
    pub dependencies: DependenciesSpec,
    /// Feature toggles.
    pub features: Vec<FeatureSpec>,
    /// Adapter declarations, kept as they are.
    pub adapters: Vec<AdapterSpec>,
    /// Declared health check; see [`ComponentManifest::health_spec`].
    pub health_check: Option<CheckSpec>,
    /// Older health checks in source order.
    pub health_checks: Vec<HealthSpec>,
}

/// For one target, the artifact types to prefer.
#[derive(Debug)]
pub struct DistributionSelector {
    /// Install mode.
    pub install_mode: Option<String>,
    /// Accepted OS names.
    pub os: Vec<String>,
    /// Accepted CPU architectures.
    pub arch: Vec<String>,
    /// C library.
    pub libc: Option<String>,
    /// Package base, such as `rpm` or `deb`.
    pub pkg_base: Option<String>,
    /// Artifact types, most preferred first.
    pub preferred_artifact_types: Vec<ArtifactType>,
}

/// Identity and placement of a component.
#[derive(Debug)]
pub struct ComponentMeta {
    /// Stable name.
    pub name: String,
    /// Version.
    pub version: String,
    /// Architecture layer.
    pub layer: String,
    /// Domain label for grouping.
    pub domain: Option<String>,
    /// Human-facing name.
    pub display_name: Option<String>,
    /// Owning team.
    pub owner: Option<String>,
    /// SPDX license identifier.
    pub license: Option<String>,
    /// Upstream repository.
    pub repository: Option<String>,
}

/// Schema and version envelope.
#[derive(Debug)]
pub struct ContractSpec {
    /// Version of the manifest schema.
    pub schema_version: Option<String>,
    /// Least CLI version that can install the component.
    pub min_anolisa_version: Option<String>,
}

/// Shape of a single artifact.
#[derive(Debug)]
pub struct ArtifactSpec {
    /// Form: binary, archive, script-only or mixed.
    pub artifact_type: Option<String>,
    /// Archive format.
    pub archive_format: Option<String>,
    /// File name template.
    pub naming_pattern: Option<String>,
}

/// Where the sources come from.
#[derive(Debug)]
pub struct SourceSpec {
    /// Kind of source.
    pub kind: String,
    /// Local path.
    pub path: Option<String>,
    /// Remote URL.
    pub url: Option<String>,
}

/// Build backend.
#[derive(Debug)]
pub struct BuildSpec {
    /// Backend name.
    pub backend: String,
    /// Expected outputs.
    pub outputs: Vec<String>,
}

/// What a component installs.
#[derive(Debug)]
pub struct InstallSpec {
    /// Supported install modes.
    pub modes: Vec<String>,
    /// Files.
    pub files: Vec<InstallFileSpec>,
    /// Service units.
    pub services: Vec<String>,
    /// Linux capabilities of installed files.
    pub capabilities: Vec<InstallCapabilitySpec>,
}

/// Role of an installed file.
#[derive(Clone, Copy, PartialEq, Eq, Structural, Debug)]
pub enum FileKind {
    /// Data.
    Data,
    /// Executable.
    Executable,
    /// Configuration.
    Config,
    /// Shared library.
    Library,
    /// Symbolic link; its source is the path template that it refers to.
    Symlink,
}

impl Default for FileKind {
    fn default() -> (r: Self)
        ensures
            r == FileKind::Data,
    {
        FileKind::Data
    }
}

/// One installed file.
#[derive(Debug)]
pub struct InstallFileSpec {
    /// Path inside the artifact.
    pub source: Option<String>,
    /// Destination template.
    pub dest: Option<String>,
    /// Unix file mode.
    pub mode: Option<String>,
    /// Role.
    pub kind: FileKind,
}

/// Whether a file has the role that is left unwritten.
pub fn is_default_file_kind(kind: &FileKind) -> (r: bool)
    ensures
        r == (*kind == FileKind::Data),
{
    *kind == FileKind::Data
}

impl InstallFileSpec {
    /// Where the file goes: its destination, else its source.
    pub open spec fn path(self) -> Option<String> {
        match self.dest {
            Some(d) => Some(d),
            None => self.source,
        }
    }

    /// Destination if present, otherwise the source.
    pub fn install_path(&self) -> (r: Option<&str>)
        ensures
            match r {
                Some(p) => self.path() is Some && p@ == self.path()->0@,
                None => self.path() is None,
            },
    {
        match &self.dest {
            Some(d) => Some(d.as_str()),
            None => match &self.source {
                Some(s) => Some(s.as_str()),
                None => None,
            },
        }
    }

    /// What [`InstallFileSpec::display`] shows.
    pub open spec fn shown(self) -> Seq<char> {
        match (self.source, self.dest) {
            (Some(source), Some(dest)) => source@ + " -> "@ + dest@,
            (Some(source), None) => source@,
            (None, Some(dest)) => dest@,
            (None, None) => "<empty>"@,
        }
    }

    /// The mapping for plans and warnings.
    pub fn display(&self) -> (r: String)
        ensures
            r@ == self.shown(),
    {
        match (&self.source, &self.dest) {
            (Some(source), Some(dest)) => crate::text::concat3(
                source.as_str(),
                " -> ",
                dest.as_str(),
            ),
            (Some(source), None) => source.clone(),
            (None, Some(dest)) => dest.clone(),
            (None, None) => own("<empty>"),
        }
    }
}

/// Linux capabilities of an installed file.
#[derive(Debug)]
pub struct InstallCapabilitySpec {
    /// Path of the file.
    pub path: Option<String>,
    /// Capability names.
    pub caps: Vec<String>,
}

impl InstallCapabilitySpec {
    /// What [`InstallCapabilitySpec::display`] shows.
    pub open spec fn shown(self) -> Seq<char> {
        let caps = crate::text::join(texts(self.caps@), "+"@);
        match (self.path, self.caps@.len() == 0) {
            (Some(path), false) => path@ + ": "@ + caps,
            (Some(path), true) => path@,
            (None, false) => caps,
            (None, true) => "<empty>"@,
        }
    }

    /// The assignment for plans and warnings.
    pub fn display(&self) -> (r: String)
        ensures
            r@ == self.shown(),
    {
        let none = self.caps.len() == 0;
        match &self.path {
            Some(path) => if none {
                path.clone()
            } else {
                crate::text::concat3(path.as_str(), ": ", joined(&self.caps, "+").as_str())
            },
            None => if none {
                own("<empty>")
            } else {
                joined(&self.caps, "+")
            },
        }
    }
}

/// An optional feature.
#[derive(Debug)]
pub struct FeatureSpec {
    /// Stable name.
    pub name: String,
    /// Summary.
    pub description: String,
    /// Whether it is on by default.
    pub default: bool,
}

/// Dependencies by kind.
#[derive(Debug)]
pub struct DependenciesSpec {
    /// Build-time dependencies.
    pub build: Vec<String>,
    /// Runtime dependencies.
    pub runtime: Vec<String>,
    /// Components depended on.
    pub components: Vec<String>,
}

impl DependenciesSpec {
    /// True when the list of every kind is empty.
    pub fn is_empty(&self) -> (r: bool)
        ensures
            r == (self.build@.len() == 0 && self.runtime@.len() == 0 && self.components@.len()
                == 0),
    {
        self.build.len() == 0 && self.runtime.len() == 0 && self.components.len() == 0
    }
}

/// One adapter declaration.
#[derive(Debug)]
pub struct AdapterSpec {
    /// Name.
    pub name: Option<String>,
    /// Framework that the adapter targets.
    pub framework: Option<String>,
    /// Kind of adapter.
    pub kind: Option<String>,
    /// Plugin id in the framework.
    pub plugin_id: Option<String>,
    /// Path inside the component artifact.
    pub source: Option<String>,
    /// Destination template.
    pub dest: Option<String>,
    /// Detection hints, by ascending key.
    pub detect: Vec<(String, ConfigValue)>,
}

/// One older health check.
#[derive(Debug)]
pub struct HealthSpec {
    /// Name.
    pub name: Option<String>,
    /// Kind.
    pub kind: String,
    /// Command line.
    pub command: Option<String>,
    /// Probe path.
    pub probe: Option<String>,
    /// Service unit.
    pub unit: Option<String>,
    /// Whether the check may fail.
    pub optional: Option<bool>,
}

/// Host requirements.
#[derive(Debug)]
pub struct EnvRequirements {
    /// Accepted OS names.
    pub os: Vec<String>,
    /// Accepted CPU architectures.
    pub arch: Vec<String>,
    /// Accepted C libraries.
    pub libc: Vec<String>,
    /// Least kernel version.
    pub kernel_min: Option<String>,
    /// Whether BTF data is needed.
    pub btf: Option<bool>,
    /// Whether CAP_BPF is needed.
    pub cap_bpf: Option<bool>,
    /// Accepted package bases.
    pub pkg_base: Vec<String>,
}

/// Why a manifest could not be loaded.
#[derive(Debug)]
pub enum ManifestError {
    /// The file could not be read: its path, and why.
    Io(String, String),
    /// The text could not be parsed: where it is from, and why.
    Parse(String, String),
}

impl ManifestError {
    /// The error as one line.
    pub fn message(&self) -> (r: String)
        ensures
            r@ == match *self {
                ManifestError::Io(p, e) => "cannot read manifest '"@ + p@ + "': "@ + e@,
                ManifestError::Parse(p, e) => "cannot parse manifest '"@ + p@ + "': "@ + e@,
            },
    {
        match self {
            ManifestError::Io(p, e) => crate::text::concat4(
                "cannot read manifest '",
                p.as_str(),
                "': ",
                e.as_str(),
            ),
            ManifestError::Parse(p, e) => crate::text::concat4(
                "cannot parse manifest '",
                p.as_str(),
                "': ",
                e.as_str(),
            ),
        }
    }
}

// ---------------------------------------------------------------------------
// Raw records
// ---------------------------------------------------------------------------

/// The tables of a manifest as they are written.
#[derive(Debug)]
pub struct ComponentManifestRaw {
    /// `schema_version`, [`current_schema_version`] when it is left out.
    pub schema_version: u32,
    /// `[component]`.
    pub component: ComponentMetaRaw,
    /// `[source]`.
    pub source: Option<SourceRaw>,
    /// `[distribution]`.
    pub distribution: Option<DistributionRaw>,
    /// `[build]`.
    pub build: Option<BuildRaw>,
    /// `[install]`.
    pub install: Option<InstallRaw>,
    /// `[environment]`.
    pub environment: EnvRequirementsRaw,
    /// `[dependencies]`.
    pub dependencies: DependenciesRaw,
    /// `[[features]]`.
    pub features: Vec<FeatureRaw>,
    /// `[[adapters]]`.
    pub adapters: Vec<AdapterRaw>,
    /// `[[health_checks]]`.
    pub health_checks: Vec<HealthCheckRaw>,
}

/// `[component]` and the tables under it.
#[derive(Debug)]
pub struct ComponentMetaRaw {
    /// `name`.
    pub name: String,
    /// `version`.
    pub version: String,
    /// `layer`, [`default_runtime_layer`] when it is left out.
    pub layer: String,
    /// `domain`.
    pub domain: Option<String>,
    /// `display_name`.
    pub display_name: Option<String>,
    /// `owner`.
    pub owner: Option<String>,
    /// `license`.
    pub license: Option<String>,
    /// `repository`.
    pub repository: Option<String>,
    /// `[component.contract]`.
    pub contract: Option<ContractRaw>,
    /// `[component.platform]`.
    pub platform: Option<EnvRequirementsRaw>,
    /// `[component.artifact]`.
    pub artifact: Option<ArtifactRaw>,
    /// `[component.layout]`.
    pub layout: Option<LayoutRaw>,
    /// `[component.health_check]`.
    pub health_check: Option<CheckSpec>,
}

/// `[component.contract]`.
#[derive(Debug)]
pub struct ContractRaw {
    /// `schema_version`.
    pub schema_version: Option<String>,
    /// `min_anolisa_version`.
    pub min_anolisa_version: Option<String>,
}

/// `[component.artifact]`.
#[derive(Debug)]
pub struct ArtifactRaw {
    /// `type`.
    pub artifact_type: Option<String>,
    /// `archive_format`.
    pub archive_format: Option<String>,
    /// `naming_pattern`.
    pub naming_pattern: Option<String>,
}

/// `[component.layout]`.
#[derive(Debug)]
pub struct LayoutRaw {
    /// `modes`.
    pub modes: Vec<String>,
    /// `[[component.layout.files]]`.
    pub files: Vec<LayoutFileRaw>,
}

/// One of `[[component.layout.files]]`.
#[derive(Debug)]
pub struct LayoutFileRaw {
    /// `source`.
    pub source: Option<String>,
    /// `target`, or `dest`.
    pub target: Option<String>,
    /// `mode`.
    pub mode: Option<String>,
    /// `type`.
    pub kind: FileKind,
}

/// `[source]`.
#[derive(Debug)]
pub struct SourceRaw {
    /// `kind`.
    pub kind: Option<String>,
    /// `path`.
    pub path: Option<String>,
    /// `url`.
    pub url: Option<String>,
    /// `upstream`.
    pub upstream: Option<String>,
}

/// `[distribution]`.
#[derive(Debug)]
pub struct DistributionRaw {
    /// `[[distribution.selectors]]`.
    pub selectors: Vec<DistributionSelectorRaw>,
}

/// One of `[[distribution.selectors]]`.
#[derive(Debug)]
pub struct DistributionSelectorRaw {
    /// `install_mode`.
    pub install_mode: Option<String>,
    /// `os`.
    pub os: Vec<String>,
    /// `arch`.
    pub arch: Vec<String>,
    /// `libc`.
    pub libc: Option<String>,
    /// `pkg_base`.
    pub pkg_base: Option<String>,
    /// `preferred_artifact_types`.
    pub preferred_artifact_types: Vec<ArtifactType>,
}

/// `[build]`.
#[derive(Debug)]
pub struct BuildRaw {
    /// `system`, or `backend`.
    pub system: Option<String>,
    /// `targets`, or `outputs`.
    pub targets: Vec<String>,
    /// `[[build.outputs_named]]`.
    pub outputs_named: Vec<BuildOutputRaw>,
}

/// One of `[[build.outputs_named]]`.
#[derive(Debug)]
pub struct BuildOutputRaw {
    /// `name`.
    pub name: String,
}

/// `[install]`.
#[derive(Debug)]
pub struct InstallRaw {
    /// `modes`.
    pub modes: Vec<String>,
    /// `[[install.files]]`.
    pub files: Vec<InstallFileRaw>,
    /// `services`.
    pub services: Vec<String>,
    /// `[[install.capabilities]]`.
    pub capabilities: Vec<InstallCapabilityRaw>,
}

/// One of `[[install.files]]`.
#[derive(Debug)]
pub struct InstallFileRaw {
    /// `dest`.
    pub dest: Option<String>,
    /// `source`.
    pub source: Option<String>,
    /// `mode`.
    pub mode: Option<String>,
    /// `type`.
    pub kind: FileKind,
}

/// One of `[[install.capabilities]]`.
#[derive(Debug)]
pub struct InstallCapabilityRaw {
    /// `path`.
    pub path: Option<String>,
    /// `caps`.
    pub caps: Vec<String>,
}

/// `[dependencies]`.
#[derive(Debug)]
pub struct DependenciesRaw {
    /// `build`.
    pub build: Vec<String>,
    /// `runtime`.
    pub runtime: Vec<String>,
    /// `components`.
    pub components: Vec<String>,
}

/// One of `[[features]]`.
#[derive(Debug)]
pub struct FeatureRaw {
    /// `name`.
    pub name: String,
    /// `description`, or `label`.
    pub description: String,
    /// `default`.
    pub default: bool,
}

/// One of `[[adapters]]`.
#[derive(Debug)]
pub struct AdapterRaw {
    /// `name`.
    pub name: Option<String>,
    /// `framework`.
    pub framework: Option<String>,
    /// `kind`.
    pub kind: Option<String>,
    /// `plugin_id`.
    pub plugin_id: Option<String>,
    /// `source`.
    pub source: Option<String>,
    /// `dest`.
    pub dest: Option<String>,
    /// `[adapters.detect]`, by ascending key.
    pub detect: Vec<(String, ConfigValue)>,
}

/// One of `[[health_checks]]`.
#[derive(Debug)]
pub struct HealthCheckRaw {
    /// `name`.
    pub name: Option<String>,
    /// `kind`.
    pub kind: Option<String>,
    /// `command`.
    pub command: Option<String>,
    /// `probe`.
    pub probe: Option<String>,
    /// `unit`.
    pub unit: Option<String>,
    /// `optional`.
    pub optional: Option<bool>,
}

/// Host requirements as they are written: bare keys, `requires_` keys and the
/// free-form `requires_env` table.
#[derive(Debug)]
pub struct EnvRequirementsRaw {
    /// `os`.
    pub os: Option<StringOrList>,
    /// `arch`.
    pub arch: Option<StringOrList>,
    /// `libc`.
    pub libc: Option<StringOrList>,
    /// `kernel`, or `min_kernel`.
    pub kernel: Option<String>,
    /// `pkg_base`.
    pub pkg_base: Option<StringOrList>,
    /// `requires_os`.
    pub requires_os: Option<StringOrList>,
    /// `requires_arch`.
    pub requires_arch: Option<StringOrList>,
    /// `requires_libc`.
    pub requires_libc: Option<StringOrList>,
    /// `requires_kernel`.
    pub requires_kernel: Option<String>,
    /// `requires_pkg_base`.
    pub requires_pkg_base: Option<StringOrList>,
    /// `[requires_env]`, by ascending key.
    pub requires_env: Vec<(String, ConfigValue)>,
    /// `btf`.
    pub btf: Option<bool>,
    /// `cap_bpf`.
    pub cap_bpf: Option<bool>,
}

impl Default for EnvRequirementsRaw {
    fn default() -> (r: Self)
        ensures
            r.os is None && r.arch is None && r.libc is None && r.kernel is None && r.pkg_base
                is None,
            r.requires_os is None && r.requires_arch is None && r.requires_libc is None,
            r.requires_kernel is None && r.requires_pkg_base is None,
            r.requires_env@.len() == 0 && r.btf is None && r.cap_bpf is None,
    {
        EnvRequirementsRaw {
            os: None,
            arch: None,
            libc: None,
            kernel: None,
            pkg_base: None,
            requires_os: None,
            requires_arch: None,
            requires_libc: None,
            requires_kernel: None,
            requires_pkg_base: None,
            requires_env: Vec::new(),
            btf: None,
            cap_bpf: None,
        }
    }
}

/// Schema version of a manifest that does not state one.
pub fn current_schema_version() -> (r: u32)
    ensures
        r == CURRENT_SCHEMA_VERSION,
{
    CURRENT_SCHEMA_VERSION
}

/// Layer of a component that does not state one.
pub fn default_runtime_layer() -> (r: String)
    ensures
        r@ == "runtime"@,
{
    own("runtime")
}

// ---------------------------------------------------------------------------
// Host requirements
// ---------------------------------------------------------------------------

/// The truth value that an entry stands for.
pub open spec fn truth(v: Option<ConfigValue>) -> Option<bool> {
    match v {
        Some(ConfigValue::Boolean(b)) => Some(b),
        Some(ConfigValue::Text(s)) => if s@ == "true"@ || s@ == "yes"@ || s@ == "1"@ {
            Some(true)
        } else if s@ == "false"@ || s@ == "no"@ || s@ == "0"@ {
            Some(false)
        } else {
            None
        },
        _ => None,
    }
}

/// The truth value under `key`.
pub fn lookup_bool(map: &Vec<(String, ConfigValue)>, key: &str) -> (r: Option<bool>)
    ensures
        r == truth(entry_at(map@, key@)),
{
    match entry(map, key) {
        Some(ConfigValue::Boolean(b)) => Some(*b),
        Some(ConfigValue::Text(s)) => {
            let s = s.as_str();
            if same(s, "true") || same(s, "yes") || same(s, "1") {
                Some(true)
            } else if same(s, "false") || same(s, "no") || same(s, "0") {
                Some(false)
            } else {
                None
            }
        },
        _ => None,
    }
}

/// Whether a value is the name `CAP_BPF`, in any case.
pub open spec fn is_cap_bpf(v: ConfigValue) -> bool {
    v matches ConfigValue::Text(s) && same_ignoring_case(s@, "CAP_BPF"@)
}

/// Whether an entry, a name or a list of names, asks for CAP_BPF. One of
/// another type says nothing.
pub open spec fn asks_cap_bpf(v: Option<ConfigValue>) -> Option<bool> {
    match v {
        Some(ConfigValue::Text(s)) => Some(same_ignoring_case(s@, "CAP_BPF"@)),
        Some(ConfigValue::List(items)) => Some(
            exists|i: int| 0 <= i < items@.len() && is_cap_bpf(#[trigger] items@[i]),
        ),
        _ => None,
    }
}

/// Whether one of the items is the name `CAP_BPF`.
fn any_cap_bpf(items: &Vec<ConfigValue>) -> (r: bool)
    ensures
        r == exists|i: int| 0 <= i < items@.len() && is_cap_bpf(#[trigger] items@[i]),
{
    let mut i: usize = 0;
    while i < items.len()
        invariant
            i <= items@.len(),
            forall|k: int| 0 <= k < i ==> !is_cap_bpf(#[trigger] items@[k]),
        decreases items.len() - i,
    {
        if let ConfigValue::Text(s) = &items[i] {
            if eq_ignore_ascii_case(s.as_str(), "CAP_BPF") {
                assert(is_cap_bpf(items@[i as int]));
                return true;
            }
        }
        i += 1;
    }
    false
}

/// Whether an entry asks for CAP_BPF.
pub fn lookup_cap_bpf(value: Option<&ConfigValue>) -> (r: Option<bool>)
    ensures
        r == asks_cap_bpf(
            match value {
                Some(v) => Some(*v),
                None => None,
            },
        ),
{
    match value {
        Some(ConfigValue::Text(s)) => Some(eq_ignore_ascii_case(s.as_str(), "CAP_BPF")),
        Some(ConfigValue::List(items)) => Some(any_cap_bpf(items)),
        _ => None,
    }
}

/// The strings of the first of two values that is there.
pub open spec fn first_list(a: Option<StringOrList>, b: Option<StringOrList>) -> Seq<String> {
    match (a, b) {
        (Some(v), _) => v.strings(),
        (None, Some(v)) => v.strings(),
        (None, None) => Seq::empty(),
    }
}

fn merge(a: Option<StringOrList>, b: Option<StringOrList>) -> (r: Vec<String>)
    ensures
        r@ == first_list(a, b),
{
    match a {
        Some(v) => v.into_vec(),
        None => match b {
            Some(v) => v.into_vec(),
            None => Vec::new(),
        },
    }
}

/// The first of two optional values that is there.
pub open spec fn either<A>(a: Option<A>, b: Option<A>) -> Option<A> {
    if a is Some {
        a
    } else {
        b
    }
}

impl EnvRequirements {
    /// What the requirements of `raw` come to: a bare key before its
    /// `requires_` form, and an explicit flag before the free-form table.
    pub open spec fn normalizes(self, raw: EnvRequirementsRaw) -> bool {
        &&& self.os@ == first_list(raw.os, raw.requires_os)
        &&& self.arch@ == first_list(raw.arch, raw.requires_arch)
        &&& self.libc@ == first_list(raw.libc, raw.requires_libc)
        &&& self.pkg_base@ == first_list(raw.pkg_base, raw.requires_pkg_base)
        &&& self.kernel_min == either(raw.kernel, raw.requires_kernel)
        &&& self.btf == either(
            raw.btf,
            either(
                truth(entry_at(raw.requires_env@, "btf_available"@)),
                truth(entry_at(raw.requires_env@, "btf"@)),
            ),
        )
        &&& self.cap_bpf == either(
            raw.cap_bpf,
            either(
                asks_cap_bpf(entry_at(raw.requires_env@, "linux_capabilities"@)),
                asks_cap_bpf(entry_at(raw.requires_env@, "capability"@)),
            ),
        )
    }

    /// Normalizes raw requirements.
    pub fn from(r: EnvRequirementsRaw) -> (out: Self)
        ensures
            out.normalizes(r),
    {
        let btf = match r.btf {
            Some(b) => Some(b),
            None => match lookup_bool(&r.requires_env, "btf_available") {
                Some(b) => Some(b),
                None => lookup_bool(&r.requires_env, "btf"),
            },
        };
        let cap_bpf = match r.cap_bpf {
            Some(b) => Some(b),
            None => match lookup_cap_bpf(entry(&r.requires_env, "linux_capabilities")) {
                Some(b) => Some(b),
                None => lookup_cap_bpf(entry(&r.requires_env, "capability")),
            },
        };
        EnvRequirements {
            os: merge(r.os, r.requires_os),
            arch: merge(r.arch, r.requires_arch),
            libc: merge(r.libc, r.requires_libc),
            kernel_min: match r.kernel {
                Some(k) => Some(k),
                None => r.requires_kernel,
            },
            btf,
            cap_bpf,
            pkg_base: merge(r.pkg_base, r.requires_pkg_base),
        }
    }
}

// ---------------------------------------------------------------------------
// Normalization
// ---------------------------------------------------------------------------

/// The text of an optional string, empty when it is left out.
pub open spec fn text_or_empty(o: Option<String>) -> Seq<char> {
    match o {
        Some(s) => s@,
        None => Seq::empty(),
    }
}

fn or_empty(o: Option<String>) -> (r: String)
    ensures
        r@ == text_or_empty(o),
{
    match o {
        Some(s) => s,
        None => String::new(),
    }
}

impl SourceSpec {
    /// What a `[source]` table comes to: `upstream` stands in for `kind`, and
    /// a table that names neither is the workspace. A missing table is empty.
    pub open spec fn normalizes(self, raw: Option<SourceRaw>) -> bool {
        match raw {
            Some(raw) => {
                &&& self.kind@ == match either(raw.kind, raw.upstream) {
                    Some(kind) => kind@,
                    None => "workspace"@,
                }
                &&& self.path == raw.path
                &&& self.url == raw.url
            },
            None => {
                &&& self.kind@.len() == 0
                &&& self.path is None
                &&& self.url is None
            },
        }
    }
}

/// Normalizes a `[source]` table.
pub fn source_from_raw(raw: SourceRaw) -> (r: SourceSpec)
    ensures
        r.normalizes(Some(raw)),
{
    let kind = match raw.kind {
        Some(kind) => kind,
        None => match raw.upstream {
            Some(upstream) => upstream,
            None => own("workspace"),
        },
    };
    SourceSpec { kind, path: raw.path, url: raw.url }
}

impl DistributionSelector {
    /// The selector that `raw` writes down.
    pub open spec fn of(raw: DistributionSelectorRaw) -> DistributionSelector {
        DistributionSelector {
            install_mode: raw.install_mode,
            os: raw.os,
            arch: raw.arch,
            libc: raw.libc,
            pkg_base: raw.pkg_base,
            preferred_artifact_types: raw.preferred_artifact_types,
        }
    }

    /// Takes over a raw selector.
    pub fn from(raw: DistributionSelectorRaw) -> (r: Self)
        ensures
            r == DistributionSelector::of(raw),
    {
        DistributionSelector {
            install_mode: raw.install_mode,
            os: raw.os,
            arch: raw.arch,
            libc: raw.libc,
            pkg_base: raw.pkg_base,
            preferred_artifact_types: raw.preferred_artifact_types,
        }
    }
}

/// The selectors of a `[distribution]` table.
pub open spec fn selectors_of(raw: Option<DistributionRaw>) -> Seq<DistributionSelector> {
    match raw {
        Some(d) => d.selectors@.map_values(|s: DistributionSelectorRaw| DistributionSelector::of(s)),
        None => Seq::empty(),
    }
}

fn selectors(raw: Option<DistributionRaw>) -> (r: Vec<DistributionSelector>)
    ensures
        r@ == selectors_of(raw),
{
    let mut out: Vec<DistributionSelector> = Vec::new();
    if let Some(d) = raw {
        let ghost all = d.selectors@;
        for s in it: d.selectors.into_iter()
            invariant
                it.seq() == all,
                out@.len() == it.index(),
                forall|k: int|
                    0 <= k < out@.len() ==> #[trigger] out@[k] == DistributionSelector::of(all[k]),
        {
            out.push(DistributionSelector::from(s));
        }
    }
    assert(out@ =~= selectors_of(raw));
    out
}

impl BuildSpec {
    /// What a `[build]` table comes to: the plain targets, then the named
    /// outputs.
    pub open spec fn normalizes(self, raw: Option<BuildRaw>) -> bool {
        match raw {
            Some(b) => {
                &&& self.backend@ == text_or_empty(b.system)
                &&& self.outputs@ == b.targets@ + b.outputs_named@.map_values(
                    |o: BuildOutputRaw| o.name,
                )
            },
            None => self.backend@.len() == 0 && self.outputs@.len() == 0,
        }
    }
}

fn build_from_raw(raw: Option<BuildRaw>) -> (r: BuildSpec)
    ensures
        r.normalizes(raw),
{
    match raw {
        Some(b) => {
            let ghost targets = b.targets@;
            let ghost named = b.outputs_named@;
            let mut outputs = b.targets;
            for o in it: b.outputs_named.into_iter()
                invariant
                    it.seq() == named,
                    outputs@ == targets + named.take(it.index()).map_values(
                        |o: BuildOutputRaw| o.name,
                    ),
            {
                proof {
                    let f = |o: BuildOutputRaw| o.name;
                    let k = it.index();
                    assert(named.take(k + 1).map_values(f) =~= named.take(k).map_values(f).push(
                        o.name,
                    ));
                }
                outputs.push(o.name);
            }
            assert(named.take(named.len() as int) =~= named);
            BuildSpec { backend: or_empty(b.system), outputs }
        },
        None => BuildSpec { backend: String::new(), outputs: Vec::new() },
    }
}

/// The files of a list that name a place to go to, in order.
pub open spec fn placed(files: Seq<InstallFileSpec>) -> Seq<InstallFileSpec> {
    files.filter(|f: InstallFileSpec| f.path() is Some)
}

/// The capability assignments of a list that say something, in order.
pub open spec fn assigned(caps: Seq<InstallCapabilitySpec>) -> Seq<InstallCapabilitySpec> {
    caps.filter(|c: InstallCapabilitySpec| c.path is Some || c.caps@.len() > 0)
}

/// The file that an entry of `[[component.layout.files]]` writes down.
pub open spec fn layout_file(f: LayoutFileRaw) -> InstallFileSpec {
    InstallFileSpec { source: f.source, dest: f.target, mode: f.mode, kind: f.kind }
}

/// The file that an entry of `[[install.files]]` writes down.
pub open spec fn install_file(f: InstallFileRaw) -> InstallFileSpec {
    InstallFileSpec { source: f.source, dest: f.dest, mode: f.mode, kind: f.kind }
}

/// The assignment that an entry of `[[install.capabilities]]` writes down.
pub open spec fn install_capability(c: InstallCapabilityRaw) -> InstallCapabilitySpec {
    InstallCapabilitySpec { path: c.path, caps: c.caps }
}

fn layout_files(files: Vec<LayoutFileRaw>) -> (r: Vec<InstallFileSpec>)
    ensures
        r@ == placed(files@.map_values(|f: LayoutFileRaw| layout_file(f))),
{
    let ghost all = files@.map_values(|f: LayoutFileRaw| layout_file(f));
    let ghost keep = |f: InstallFileSpec| f.path() is Some;
    let ghost raw = files@;
    let mut out: Vec<InstallFileSpec> = Vec::new();
    proof {
        reveal(Seq::filter);
        assert(all.take(0).filter(keep) =~= Seq::empty());
    }
    for f in it: files.into_iter()
        invariant
            it.seq() == raw,
            all == raw.map_values(|f: LayoutFileRaw| layout_file(f)),
            keep == (|f: InstallFileSpec| f.path() is Some),
            out@ == all.take(it.index()).filter(keep),
    {
        let file = InstallFileSpec { source: f.source, dest: f.target, mode: f.mode, kind: f.kind };
        proof {
            lemma_filter_step(all, it.index(), keep);
        }
        if file.install_path().is_some() {
            out.push(file);
        }
    }
    assert(all.take(all.len() as int) =~= all);
    out
}

fn install_files(files: Vec<InstallFileRaw>) -> (r: Vec<InstallFileSpec>)
    ensures
        r@ == placed(files@.map_values(|f: InstallFileRaw| install_file(f))),
{
    let ghost all = files@.map_values(|f: InstallFileRaw| install_file(f));
    let ghost keep = |f: InstallFileSpec| f.path() is Some;
    let ghost raw = files@;
    let mut out: Vec<InstallFileSpec> = Vec::new();
    proof {
        reveal(Seq::filter);
        assert(all.take(0).filter(keep) =~= Seq::empty());
    }
    for f in it: files.into_iter()
        invariant
            it.seq() == raw,
            all == raw.map_values(|f: InstallFileRaw| install_file(f)),
            keep == (|f: InstallFileSpec| f.path() is Some),
            out@ == all.take(it.index()).filter(keep),
    {
        let file = InstallFileSpec { source: f.source, dest: f.dest, mode: f.mode, kind: f.kind };
        proof {
            lemma_filter_step(all, it.index(), keep);
        }
        if file.install_path().is_some() {
            out.push(file);
        }
    }
    assert(all.take(all.len() as int) =~= all);
    out
}

fn install_capabilities(caps: Vec<InstallCapabilityRaw>) -> (r: Vec<InstallCapabilitySpec>)
    ensures
        r@ == assigned(caps@.map_values(|c: InstallCapabilityRaw| install_capability(c))),
{
    let ghost all = caps@.map_values(|c: InstallCapabilityRaw| install_capability(c));
    let ghost keep = |c: InstallCapabilitySpec| c.path is Some || c.caps@.len() > 0;
    let ghost raw = caps@;
    let mut out: Vec<InstallCapabilitySpec> = Vec::new();
    proof {
        reveal(Seq::filter);
        assert(all.take(0).filter(keep) =~= Seq::empty());
    }
    for c in it: caps.into_iter()
        invariant
            it.seq() == raw,
            all == raw.map_values(|c: InstallCapabilityRaw| install_capability(c)),
            keep == (|c: InstallCapabilitySpec| c.path is Some || c.caps@.len() > 0),
            out@ == all.take(it.index()).filter(keep),
    {
        proof {
            lemma_filter_step(all, it.index(), keep);
        }
        if c.path.is_some() || c.caps.len() > 0 {
            out.push(InstallCapabilitySpec { path: c.path, caps: c.caps });
        }
    }
    assert(all.take(all.len() as int) =~= all);
    out
}

impl InstallSpec {
    /// What the two install tables come to. A `[component.layout]` table stands
    /// in place of `[install]`, of which nothing is then taken.
    pub open spec fn normalizes(
        self,
        layout: Option<LayoutRaw>,
        install: Option<InstallRaw>,
    ) -> bool {
        match (layout, install) {
            (Some(l), _) => {
                &&& self.modes == l.modes
                &&& self.files@ == placed(l.files@.map_values(|f: LayoutFileRaw| layout_file(f)))
                &&& self.services@.len() == 0
                &&& self.capabilities@.len() == 0
            },
            (None, Some(i)) => {
                &&& self.modes == i.modes
                &&& self.files@ == placed(i.files@.map_values(|f: InstallFileRaw| install_file(f)))
                &&& self.services == i.services
                &&& self.capabilities@ == assigned(
                    i.capabilities@.map_values(|c: InstallCapabilityRaw| install_capability(c)),
                )
            },
            (None, None) => {
                &&& self.modes@.len() == 0
                &&& self.files@.len() == 0
                &&& self.services@.len() == 0
                &&& self.capabilities@.len() == 0
            },
        }
    }
}

fn install_from_raw(layout: Option<LayoutRaw>, install: Option<InstallRaw>) -> (r: InstallSpec)
    ensures
        r.normalizes(layout, install),
{
    match layout {
        Some(l) => InstallSpec {
            modes: l.modes,
            files: layout_files(l.files),
            services: Vec::new(),
            capabilities: Vec::new(),
        },
        None => match install {
            Some(i) => InstallSpec {
                modes: i.modes,
                files: install_files(i.files),
                services: i.services,
                capabilities: install_capabilities(i.capabilities),
            },
            None => InstallSpec {
                modes: Vec::new(),
                files: Vec::new(),
                services: Vec::new(),
                capabilities: Vec::new(),
            },
        },
    }
}

/// The feature that `raw` writes down.
pub open spec fn feature_of(raw: FeatureRaw) -> FeatureSpec {
    FeatureSpec { name: raw.name, description: raw.description, default: raw.default }
}

fn features_from_raw(raw: Vec<FeatureRaw>) -> (r: Vec<FeatureSpec>)
    ensures
        r@ == raw@.map_values(|f: FeatureRaw| feature_of(f)),
{
    let ghost all = raw@;
    let mut out: Vec<FeatureSpec> = Vec::new();
    for f in it: raw.into_iter()
        invariant
            it.seq() == all,
            out@.len() == it.index(),
            forall|k: int| 0 <= k < out@.len() ==> #[trigger] out@[k] == feature_of(all[k]),
    {
        out.push(FeatureSpec { name: f.name, description: f.description, default: f.default });
    }
    assert(out@ =~= all.map_values(|f: FeatureRaw| feature_of(f)));
    out
}

/// The declaration that `raw` writes down.
pub open spec fn adapter_of(raw: AdapterRaw) -> AdapterSpec {
    AdapterSpec {
        name: raw.name,
        framework: raw.framework,
        kind: raw.kind,
        plugin_id: raw.plugin_id,
        source: raw.source,
        dest: raw.dest,
        detect: raw.detect,
    }
}

fn adapters_from_raw(raw: Vec<AdapterRaw>) -> (r: Vec<AdapterSpec>)
    ensures
        r@ == raw@.map_values(|a: AdapterRaw| adapter_of(a)),
{
    let ghost all = raw@;
    let mut out: Vec<AdapterSpec> = Vec::new();
    for a in it: raw.into_iter()
        invariant
            it.seq() == all,
            out@.len() == it.index(),
            forall|k: int| 0 <= k < out@.len() ==> #[trigger] out@[k] == adapter_of(all[k]),
    {
        out.push(
            AdapterSpec {
                name: a.name,
                framework: a.framework,
                kind: a.kind,
                plugin_id: a.plugin_id,
                source: a.source,
                dest: a.dest,
                detect: a.detect,
            },
        );
    }
    assert(out@ =~= all.map_values(|a: AdapterRaw| adapter_of(a)));
    out
}

impl HealthSpec {
    /// What an entry of `[[health_checks]]` comes to.
    pub open spec fn normalizes(self, raw: HealthCheckRaw) -> bool {
        &&& self.name == raw.name
        &&& self.kind@ == text_or_empty(raw.kind)
        &&& self.command == raw.command
        &&& self.probe == raw.probe
        &&& self.unit == raw.unit
        &&& self.optional == raw.optional
    }
}

/// What `[[health_checks]]` comes to, in order.
pub open spec fn checks_normalize(checks: Seq<HealthSpec>, raw: Seq<HealthCheckRaw>) -> bool {
    &&& checks.len() == raw.len()
    &&& forall|k: int| 0 <= k < raw.len() ==> (#[trigger] checks[k]).normalizes(raw[k])
}

fn checks_from_raw(raw: Vec<HealthCheckRaw>) -> (r: Vec<HealthSpec>)
    ensures
        checks_normalize(r@, raw@),
{
    let ghost all = raw@;
    let mut out: Vec<HealthSpec> = Vec::new();
    for h in it: raw.into_iter()
        invariant
            it.seq() == all,
            out@.len() == it.index(),
            forall|k: int| 0 <= k < out@.len() ==> (#[trigger] out@[k]).normalizes(all[k]),
    {
        out.push(
            HealthSpec {
                name: h.name,
                kind: or_empty(h.kind),
                command: h.command,
                probe: h.probe,
                unit: h.unit,
                optional: h.optional,
            },
        );
    }
    out
}

/// The requirements in force: those of `[component.platform]`, else those of
/// `[environment]`.
pub open spec fn effective_environment(
    platform: Option<EnvRequirementsRaw>,
    environment: EnvRequirementsRaw,
) -> EnvRequirementsRaw {
    match platform {
        Some(p) => p,
        None => environment,
    }
}

impl ComponentManifest {
    /// What the tables of a manifest come to.
    pub open spec fn normalizes(self, raw: ComponentManifestRaw) -> bool {
        &&& self.schema_version == raw.schema_version
        &&& self.component == ComponentMeta {
            name: raw.component.name,
            version: raw.component.version,
            layer: raw.component.layer,
            domain: raw.component.domain,
            display_name: raw.component.display_name,
            owner: raw.component.owner,
            license: raw.component.license,
            repository: raw.component.repository,
        }
        &&& self.contract == match raw.component.contract {
            Some(c) => ContractSpec {
                schema_version: c.schema_version,
                min_anolisa_version: c.min_anolisa_version,
            },
            None => ContractSpec { schema_version: None, min_anolisa_version: None },
        }
        &&& self.artifact == match raw.component.artifact {
            Some(a) => ArtifactSpec {
                artifact_type: a.artifact_type,
                archive_format: a.archive_format,
                naming_pattern: a.naming_pattern,
            },
            None => ArtifactSpec {
                artifact_type: None,
                archive_format: None,
                naming_pattern: None,
            },
        }
        &&& self.source.normalizes(raw.source)
        &&& self.distribution_selectors@ == selectors_of(raw.distribution)
        &&& self.build.normalizes(raw.build)
        &&& self.install.normalizes(raw.component.layout, raw.install)
        &&& self.env_requirements.normalizes(
            effective_environment(raw.component.platform, raw.environment),
        )
        &&& self.dependencies == DependenciesSpec {
            build: raw.dependencies.build,
            runtime: raw.dependencies.runtime,
            components: raw.dependencies.components,
        }
        &&& self.features@ == raw.features@.map_values(|f: FeatureRaw| feature_of(f))
        &&& self.adapters@ == raw.adapters@.map_values(|a: AdapterRaw| adapter_of(a))
        &&& self.health_check == raw.component.health_check
        &&& checks_normalize(self.health_checks@, raw.health_checks@)
    }

    /// Normalizes the tables of a manifest.
    pub fn from(raw: ComponentManifestRaw) -> (r: Self)
        ensures
            r.normalizes(raw),
    {
        let meta = raw.component;
        let component = ComponentMeta {
            name: meta.name,
            version: meta.version,
            layer: meta.layer,
            domain: meta.domain,
            display_name: meta.display_name,
            owner: meta.owner,
            license: meta.license,
            repository: meta.repository,
        };
        let contract = match meta.contract {
            Some(c) => ContractSpec {
                schema_version: c.schema_version,
                min_anolisa_version: c.min_anolisa_version,
            },
            None => ContractSpec { schema_version: None, min_anolisa_version: None },
        };
        let artifact = match meta.artifact {
            Some(a) => ArtifactSpec {
                artifact_type: a.artifact_type,
                archive_format: a.archive_format,
                naming_pattern: a.naming_pattern,
            },
            None => ArtifactSpec {
                artifact_type: None,
                archive_format: None,
                naming_pattern: None,
            },
        };
        let source = match raw.source {
            Some(s) => source_from_raw(s),
            None => SourceSpec { kind: String::new(), path: None, url: None },
        };
        let distribution_selectors = selectors(raw.distribution);
        let build = build_from_raw(raw.build);
        let install = install_from_raw(meta.layout, raw.install);
        let dependencies = DependenciesSpec {
            build: raw.dependencies.build,
            runtime: raw.dependencies.runtime,
            components: raw.dependencies.components,
        };
        let features = features_from_raw(raw.features);
        let adapters = adapters_from_raw(raw.adapters);
        let health_checks = checks_from_raw(raw.health_checks);
        let env_requirements = match meta.platform {
            Some(p) => EnvRequirements::from(p),
            None => EnvRequirements::from(raw.environment),
        };
        ComponentManifest {
            schema_version: raw.schema_version,
            component,
            contract,
            artifact,
            source,
            distribution_selectors,
            build,
            install,
            env_requirements,
            dependencies,
            features,
            adapters,
            health_check: meta.health_check,
            health_checks,
        }
    }

    /// The file that an undeclared health check probes: the first executable.
    pub open spec fn probed_file(files: Seq<InstallFileSpec>) -> Option<InstallFileSpec>
        decreases files.len(),
    {
        if files.len() == 0 {
            None
        } else if files[0].kind == FileKind::Executable {
            Some(files[0])
        } else {
            ComponentManifest::probed_file(files.skip(1))
        }
    }

    /// Whether `check` is the one to run: the declared one, else a version
    /// probe of the first executable's install path, else none.
    pub open spec fn health_spec_is(self, check: Option<CheckSpec>) -> bool {
        match self.health_check {
            Some(declared) => check == Some(declared),
            None => match ComponentManifest::probed_file(self.install.files@) {
                Some(file) => match file.path() {
                    Some(target) => {
                        &&& check matches Some(
                            CheckSpec::BinaryVersion { binary, expect_pattern, timeout_secs },
                        )
                        &&& binary@ == target@
                        &&& expect_pattern is None
                        &&& timeout_secs is None
                    },
                    None => check is None,
                },
                None => check is None,
            },
        }
    }

    /// The health check to run after an install.
    pub fn health_spec(&self) -> (r: Option<CheckSpec>)
        ensures
            self.health_spec_is(r),
    {
        if let Some(spec) = &self.health_check {
            return Some(spec.clone());
        }
        let files = &self.install.files;
        let mut i: usize = 0;
        assert(files@.skip(0) =~= files@);
        while i < files.len()
            invariant
                i <= files@.len(),
                files == &self.install.files,
                self.health_check is None,
                ComponentManifest::probed_file(files@) == ComponentManifest::probed_file(
                    files@.skip(i as int),
                ),
            decreases files.len() - i,
        {
            if files[i].kind == FileKind::Executable {
                return match files[i].install_path() {
                    Some(target) => Some(
                        CheckSpec::BinaryVersion {
                            binary: own(target),
                            expect_pattern: None,
                            timeout_secs: None,
                        },
                    ),
                    None => None,
                };
            }
            assert(files@.skip(i as int).skip(1) =~= files@.skip(i + 1));
            i += 1;
        }
        None
    }
}

// ---------------------------------------------------------------------------
// Manifest directories
// ---------------------------------------------------------------------------

/// An entry of a directory of manifests.
#[derive(Debug)]
pub struct DirEntry {
    /// File name, as the bytes that the file system gives.
    pub name: Vec<u8>,
    /// Whether it is a regular file, after following links.
    pub is_file: bool,
}

/// The bytes of `.toml`.
pub open spec fn toml_suffix() -> Seq<u8> {
    seq![46u8, 116u8, 111u8, 109u8, 108u8]
}

impl DirEntry {
    /// Whether the entry is a manifest: a regular file with the extension
    /// `toml`. A name that is nothing but `.toml` has no extension.
    pub open spec fn is_manifest(self) -> bool {
        &&& self.is_file
        &&& self.name@.len() > 5
        &&& self.name@.skip(self.name@.len() - 5) == toml_suffix()
    }

    fn manifest(&self) -> (r: bool)
        ensures
            r == self.is_manifest(),
    {
        let n: usize = self.name.len();
        if !self.is_file || n <= 5 {
            return false;
        }
        let r = self.name[n - 5] == 46 && self.name[n - 4] == 116 && self.name[n - 3] == 111
            && self.name[n - 2] == 109 && self.name[n - 1] == 108;
        proof {
            let tail = self.name@.skip(n - 5);
            if r {
                assert(tail =~= toml_suffix());
            } else {
                assert(tail[0] == self.name@[n - 5] && tail[1] == self.name@[n - 4] && tail[2]
                    == self.name@[n - 3] && tail[3] == self.name@[n - 2] && tail[4]
                    == self.name@[n - 1]);
            }
        }
        r
    }
}

impl Rank for DirEntry {
    open spec fn precedes(self, other: Self) -> bool {
        bytes_lt(self.name@, other.name@)
    }

    proof fn asymmetric(a: Self, b: Self) {
        lemma_path_order();
        let lt = |x: Seq<u8>, y: Seq<u8>| bytes_lt(x, y);
        assert(!lt(a.name@, a.name@));
        assert(lt(a.name@, b.name@) && lt(b.name@, a.name@) ==> lt(a.name@, a.name@));
    }

    proof fn transitive(a: Self, b: Self, c: Self) {
        lemma_path_order();
        let lt = |x: Seq<u8>, y: Seq<u8>| bytes_lt(x, y);
        assert(lt(b.name@, c.name@) || b.name@ == c.name@ || lt(c.name@, b.name@));
        assert(lt(a.name@, b.name@) || b.name@ == a.name@ || lt(b.name@, a.name@));
        assert(lt(a.name@, b.name@) && lt(b.name@, c.name@) ==> lt(a.name@, c.name@));
    }
}

impl Ranked for DirEntry {
    fn is_before(&self, other: &Self) -> (r: bool) {
        matches!(compare_bytes(&self.name, &other.name), Order::Before)
    }
}

/// The manifests among the entries of a directory, by ascending name.
pub fn manifest_paths(entries: Vec<DirEntry>) -> (r: Vec<DirEntry>)
    ensures
        is_sorted(r@, entries@.filter(|e: DirEntry| e.is_manifest())),
{
    let ghost all = entries@;
    let ghost keep = |e: DirEntry| e.is_manifest();
    let mut out: Vec<DirEntry> = Vec::new();
    proof {
        reveal(Seq::filter);
        assert(all.take(0).filter(keep) =~= Seq::empty());
    }
    for e in it: entries.into_iter()
        invariant
            it.seq() == all,
            keep == (|e: DirEntry| e.is_manifest()),
            out@ == all.take(it.index()).filter(keep),
    {
        proof {
            lemma_filter_step(all, it.index(), keep);
        }
        if e.manifest() {
            out.push(e);
        }
    }
    assert(all.take(all.len() as int) =~= all);
    sort(out)
}

// ---------------------------------------------------------------------------
// Laws
// ---------------------------------------------------------------------------

/// A `[component.layout]` table stands alone: whatever `[install]` says, the
/// same install contract comes of it.
pub proof fn law_layout_shadows_install(
    out: InstallSpec,
    layout: LayoutRaw,
    one: Option<InstallRaw>,
    other: Option<InstallRaw>,
)
    ensures
        out.normalizes(Some(layout), one) == out.normalizes(Some(layout), other),
{
}

/// A `[component.platform]` table stands alone: whatever `[environment]` says,
/// the same host requirements are in force.
pub proof fn law_platform_shadows_environment(
    platform: EnvRequirementsRaw,
    one: EnvRequirementsRaw,
    other: EnvRequirementsRaw,
)
    ensures
        effective_environment(Some(platform), one) == effective_environment(Some(platform), other),
{
}

/// Every file of a normalized manifest has somewhere to go.
pub proof fn law_files_have_a_place(m: ComponentManifest, raw: ComponentManifestRaw, k: int)
    requires
        m.normalizes(raw),
        0 <= k < m.install.files@.len(),
    ensures
        m.install.files@[k].path() is Some,
{
    let keep = |f: InstallFileSpec| f.path() is Some;
    match (raw.component.layout, raw.install) {
        (Some(l), _) => {
            let all = l.files@.map_values(|f: LayoutFileRaw| layout_file(f));
            all.lemma_filter_pred(keep, k);
        },
        (None, Some(i)) => {
            let all = i.files@.map_values(|f: InstallFileRaw| install_file(f));
            all.lemma_filter_pred(keep, k);
        },
        (None, None) => {},
    }
}

/// No file with somewhere to go is lost from a `[component.layout]` table.
pub proof fn law_layout_files_are_kept(
    m: ComponentManifest,
    raw: ComponentManifestRaw,
    layout: LayoutRaw,
    k: int,
)
    requires
        m.normalizes(raw),
        raw.component.layout == Some(layout),
        0 <= k < layout.files@.len(),
        layout_file(layout.files@[k]).path() is Some,
    ensures
        m.install.files@.contains(layout_file(layout.files@[k])),
{
    let keep = |f: InstallFileSpec| f.path() is Some;
    let all = layout.files@.map_values(|f: LayoutFileRaw| layout_file(f));
    assert(all[k] == layout_file(layout.files@[k]));
    all.lemma_filter_contains(keep, k);
}

/// A list with an executable has one to probe.
proof fn lemma_probed_file(files: Seq<InstallFileSpec>)
    ensures
        match ComponentManifest::probed_file(files) {
            Some(f) => f.kind == FileKind::Executable && files.contains(f),
            None => forall|k: int|
                0 <= k < files.len() ==> (#[trigger] files[k]).kind != FileKind::Executable,
        },
    decreases files.len(),
{
    if files.len() > 0 {
        if files[0].kind == FileKind::Executable {
            assert(files.contains(files[0]));
        } else {
            let rest = files.skip(1);
            lemma_probed_file(rest);
            match ComponentManifest::probed_file(rest) {
                Some(f) => {
                    let k = choose|k: int| 0 <= k < rest.len() && rest[k] == f;
                    assert(files[k + 1] == f);
                },
                None => {
                    assert forall|k: int| 0 <= k < files.len() implies (
                    #[trigger] files[k]).kind != FileKind::Executable by {
                        if k > 0 {
                            assert(rest[k - 1] == files[k]);
                        }
                    }
                },
            }
        }
    }
}

/// A normalized manifest has a health check to run exactly when one is
/// declared or it installs an executable.
pub proof fn law_health_spec_exists(
    m: ComponentManifest,
    raw: ComponentManifestRaw,
    check: Option<CheckSpec>,
)
    requires
        m.normalizes(raw),
        m.health_spec_is(check),
    ensures
        check is Some <==> (raw.component.health_check is Some || exists|k: int|
            0 <= k < m.install.files@.len() && (#[trigger] m.install.files@[k]).kind
                == FileKind::Executable),
{
    let files = m.install.files@;
    lemma_probed_file(files);
    if let Some(f) = ComponentManifest::probed_file(files) {
        let k = choose|k: int| 0 <= k < files.len() && files[k] == f;
        law_files_have_a_place(m, raw, k);
        assert(files[k].kind == FileKind::Executable);
    }
}

/// Which values of an entry are a truth value: the truth values themselves, and
/// three words for each.
pub proof fn law_words_for_truth_values(v: ConfigValue)
    ensures
        truth(None) is None,
        v matches ConfigValue::Boolean(b) ==> truth(Some(v)) == Some(b),
        v matches ConfigValue::Text(s) ==> (s@ == "true"@ || s@ == "yes"@ || s@ == "1"@ <==> truth(
            Some(v),
        ) == Some(true)),
        v matches ConfigValue::Text(s) ==> (s@ == "false"@ || s@ == "no"@ || s@ == "0"@ <==> truth(
            Some(v),
        ) == Some(false)),
        v !is Boolean && v !is Text ==> truth(Some(v)) is None,
{
    reveal_strlit("true");
    reveal_strlit("yes");
    reveal_strlit("1");
    reveal_strlit("false");
    reveal_strlit("no");
    reveal_strlit("0");
    assert("true"@.len() == 4 && "yes"@.len() == 3 && "1"@.len() == 1 && "false"@.len() == 5
        && "no"@.len() == 2 && "0"@.len() == 1);
    assert("1"@[0] == '1' && "0"@[0] == '0');
}

/// CAP_BPF is asked for by its name, in any case, alone or among others; a list
/// without it says that it is not needed, and a value of another type says nothing.
pub proof fn law_when_cap_bpf_is_asked_for(v: ConfigValue)
    ensures
        asks_cap_bpf(None) is None,
        v matches ConfigValue::Text(s) ==> asks_cap_bpf(Some(v)) == Some(
            same_ignoring_case(s@, "CAP_BPF"@),
        ),
        v matches ConfigValue::List(items) ==> asks_cap_bpf(Some(v)) is Some && (asks_cap_bpf(
            Some(v),
        )->0 <==> exists|i: int|
            0 <= i < items@.len() && (#[trigger] items@[i]) is Text && same_ignoring_case(
                items@[i]->Text_0@,
                "CAP_BPF"@,
            )),
        v !is Text && v !is List ==> asks_cap_bpf(Some(v)) is None,
{
    if let ConfigValue::List(items) = v {
        if exists|i: int| 0 <= i < items@.len() && is_cap_bpf(#[trigger] items@[i]) {
            let i = choose|i: int| 0 <= i < items@.len() && is_cap_bpf(#[trigger] items@[i]);
            assert(items@[i] is Text);
        }
        if exists|i: int|
            0 <= i < items@.len() && (#[trigger] items@[i]) is Text && same_ignoring_case(
                items@[i]->Text_0@,
                "CAP_BPF"@,
            ) {
            let i = choose|i: int|
                0 <= i < items@.len() && (#[trigger] items@[i]) is Text && same_ignoring_case(
                    items@[i]->Text_0@,
                    "CAP_BPF"@,
                );
            assert(is_cap_bpf(items@[i]));
        }
    }
}

/// The strings that a value of either form stands for.
pub open spec fn strings_in(v: StringOrList) -> Seq<String> {
    match v {
        StringOrList::One(s) => seq![s],
        StringOrList::Many(list) => list@,
    }
}

/// Requirements under a bare key come before those under its `requires_` form, for
/// each key by itself; where neither is there, nothing is required.
pub proof fn law_bare_keys_come_first(r: EnvRequirements, raw: EnvRequirementsRaw)
    requires
        r.normalizes(raw),
    ensures
        raw.os is Some ==> r.os@ == strings_in(raw.os->0),
        raw.os is None && raw.requires_os is Some ==> r.os@ == strings_in(raw.requires_os->0),
        raw.os is None && raw.requires_os is None ==> r.os@.len() == 0,
        raw.arch is Some ==> r.arch@ == strings_in(raw.arch->0),
        raw.arch is None && raw.requires_arch is Some ==> r.arch@ == strings_in(
            raw.requires_arch->0,
        ),
        raw.arch is None && raw.requires_arch is None ==> r.arch@.len() == 0,
        raw.libc is Some ==> r.libc@ == strings_in(raw.libc->0),
        raw.libc is None && raw.requires_libc is Some ==> r.libc@ == strings_in(
            raw.requires_libc->0,
        ),
        raw.libc is None && raw.requires_libc is None ==> r.libc@.len() == 0,
        raw.pkg_base is Some ==> r.pkg_base@ == strings_in(raw.pkg_base->0),
        raw.pkg_base is None && raw.requires_pkg_base is Some ==> r.pkg_base@ == strings_in(
            raw.requires_pkg_base->0,
        ),
        raw.pkg_base is None && raw.requires_pkg_base is None ==> r.pkg_base@.len() == 0,
        raw.kernel is Some ==> r.kernel_min == raw.kernel,
        raw.kernel is None ==> r.kernel_min == raw.requires_kernel,
{
}

/// An explicit flag comes before the free-form table; in the table,
/// `btf_available` comes before `btf`, and `linux_capabilities` before
/// `capability`, where they say something.
pub proof fn law_flags_come_first(r: EnvRequirements, raw: EnvRequirementsRaw)
    requires
        r.normalizes(raw),
    ensures
        raw.btf is Some ==> r.btf == raw.btf,
        raw.cap_bpf is Some ==> r.cap_bpf == raw.cap_bpf,
        raw.btf is None ==> {
            let first = truth(entry_at(raw.requires_env@, "btf_available"@));
            let second = truth(entry_at(raw.requires_env@, "btf"@));
            &&& first is Some ==> r.btf == first
            &&& first is None ==> r.btf == second
        },
        raw.cap_bpf is None ==> {
            let first = asks_cap_bpf(entry_at(raw.requires_env@, "linux_capabilities"@));
            let second = asks_cap_bpf(entry_at(raw.requires_env@, "capability"@));
            &&& first is Some ==> r.cap_bpf == first
            &&& first is None ==> r.cap_bpf == second
        },
{
}

/// Where the sources are: `kind` before `upstream`, and the workspace where a table
/// names neither.
pub proof fn law_where_sources_are(s: SourceSpec, raw: SourceRaw)
    requires
        s.normalizes(Some(raw)),
    ensures
        raw.kind is Some ==> s.kind@ == raw.kind->0@,
        raw.kind is None && raw.upstream is Some ==> s.kind@ == raw.upstream->0@,
        raw.kind is None && raw.upstream is None ==> s.kind@ == "workspace"@,
        s.path == raw.path,
        s.url == raw.url,
{
}

/// What a build gives: first the plain targets, then the named outputs.
pub proof fn law_outputs_of_a_build(b: BuildSpec, raw: BuildRaw, k: int)
    requires
        b.normalizes(Some(raw)),
    ensures
        raw.system is Some ==> b.backend@ == raw.system->0@,
        raw.system is None ==> b.backend@.len() == 0,
        b.outputs@.len() == raw.targets@.len() + raw.outputs_named@.len(),
        0 <= k < raw.targets@.len() ==> b.outputs@[k] == raw.targets@[k],
        0 <= k < raw.outputs_named@.len() ==> b.outputs@[raw.targets@.len() + k]
            == raw.outputs_named@[k].name,
{
}

/// A file that names a destination or a source goes there; nothing else does.
pub proof fn law_where_a_file_goes(f: InstallFileSpec)
    ensures
        f.dest is Some ==> f.path() == f.dest,
        f.dest is None ==> f.path() == f.source,
        f.source is Some && f.dest is Some ==> f.shown() == f.source->0@ + " -> "@ + f.dest->0@,
        f.source is Some && f.dest is None ==> f.shown() == f.source->0@,
        f.source is None && f.dest is Some ==> f.shown() == f.dest->0@,
        f.source is None && f.dest is None ==> f.shown() == "<empty>"@,
{
}

/// How an assignment of capabilities is shown.
pub proof fn law_shown_capabilities(c: InstallCapabilitySpec)
    ensures
        c.path is Some && c.caps@.len() > 0 ==> c.shown() == c.path->0@ + ": "@ + crate::text::join(
            texts(c.caps@),
            "+"@,
        ),
        c.path is Some && c.caps@.len() == 0 ==> c.shown() == c.path->0@,
        c.path is None && c.caps@.len() > 0 ==> c.shown() == crate::text::join(
            texts(c.caps@),
            "+"@,
        ),
        c.path is None && c.caps@.len() == 0 ==> c.shown() == "<empty>"@,
{
}

/// The files of `[component.layout]` keep source, target, mode and role, and so do
/// those of `[install]`; each with somewhere to go is kept, in order, and no other.
pub proof fn law_files_of_a_manifest(
    out: InstallSpec,
    layout: Option<LayoutRaw>,
    install: Option<InstallRaw>,
    k: int,
)
    requires
        out.normalizes(layout, install),
    ensures
        layout is Some ==> {
            &&& out.modes == layout->0.modes
            &&& out.files@ == layout->0.files@.map_values(
                |f: LayoutFileRaw|
                    InstallFileSpec { source: f.source, dest: f.target, mode: f.mode, kind: f.kind },
            ).filter(|f: InstallFileSpec| f.dest is Some || f.source is Some)
            &&& out.services@.len() == 0 && out.capabilities@.len() == 0
        },
        layout is None && install is Some ==> {
            &&& out.modes == install->0.modes
            &&& out.files@ == install->0.files@.map_values(
                |f: InstallFileRaw|
                    InstallFileSpec { source: f.source, dest: f.dest, mode: f.mode, kind: f.kind },
            ).filter(|f: InstallFileSpec| f.dest is Some || f.source is Some)
            &&& out.services == install->0.services
            &&& out.capabilities@ == install->0.capabilities@.map_values(
                |c: InstallCapabilityRaw| InstallCapabilitySpec { path: c.path, caps: c.caps },
            ).filter(|c: InstallCapabilitySpec| c.path is Some || c.caps@.len() > 0)
        },
        layout is None && install is None ==> out.modes@.len() == 0 && out.files@.len() == 0
            && out.services@.len() == 0 && out.capabilities@.len() == 0,
{
    let a = |f: InstallFileSpec| f.path() is Some;
    let b = |f: InstallFileSpec| f.dest is Some || f.source is Some;
    assert(a =~= b);
    if let Some(l) = layout {
        assert(l.files@.map_values(|f: LayoutFileRaw| layout_file(f)) =~= l.files@.map_values(
            |f: LayoutFileRaw|
                InstallFileSpec { source: f.source, dest: f.target, mode: f.mode, kind: f.kind },
        ));
    }
    if let Some(i) = install {
        assert(i.files@.map_values(|f: InstallFileRaw| install_file(f)) =~= i.files@.map_values(
            |f: InstallFileRaw|
                InstallFileSpec { source: f.source, dest: f.dest, mode: f.mode, kind: f.kind },
        ));
        assert(i.capabilities@.map_values(|c: InstallCapabilityRaw| install_capability(c))
            =~= i.capabilities@.map_values(
            |c: InstallCapabilityRaw| InstallCapabilitySpec { path: c.path, caps: c.caps },
        ));
    }
}

/// A manifest keeps what its tables say: who the component is, what it depends on,
/// what it offers and, entry by entry and in order, its features, adapters,
/// selectors and health checks.
pub proof fn law_manifest_keeps_its_tables(m: ComponentManifest, raw: ComponentManifestRaw, k: int)
    requires
        m.normalizes(raw),
    ensures
        m.schema_version == raw.schema_version,
        m.component.name == raw.component.name,
        m.component.version == raw.component.version,
        m.component.layer == raw.component.layer,
        m.component.domain == raw.component.domain,
        m.component.display_name == raw.component.display_name,
        m.component.owner == raw.component.owner,
        m.component.license == raw.component.license,
        m.component.repository == raw.component.repository,
        m.dependencies.build == raw.dependencies.build,
        m.dependencies.runtime == raw.dependencies.runtime,
        m.dependencies.components == raw.dependencies.components,
        m.health_check == raw.component.health_check,
        raw.component.contract is Some ==> m.contract.schema_version
            == raw.component.contract->0.schema_version && m.contract.min_anolisa_version
            == raw.component.contract->0.min_anolisa_version,
        raw.component.artifact is Some ==> m.artifact.artifact_type
            == raw.component.artifact->0.artifact_type && m.artifact.archive_format
            == raw.component.artifact->0.archive_format && m.artifact.naming_pattern
            == raw.component.artifact->0.naming_pattern,
        raw.component.platform is Some ==> m.env_requirements.normalizes(
            raw.component.platform->0,
        ),
        raw.component.platform is None ==> m.env_requirements.normalizes(raw.environment),
        m.install.normalizes(raw.component.layout, raw.install),
        m.source.normalizes(raw.source),
        m.build.normalizes(raw.build),
        m.features@.len() == raw.features@.len(),
        0 <= k < raw.features@.len() ==> m.features@[k].name == raw.features@[k].name
            && m.features@[k].description == raw.features@[k].description && m.features@[k].default
            == raw.features@[k].default,
        m.adapters@.len() == raw.adapters@.len(),
        0 <= k < raw.adapters@.len() ==> {
            &&& m.adapters@[k].name == raw.adapters@[k].name
            &&& m.adapters@[k].framework == raw.adapters@[k].framework
            &&& m.adapters@[k].kind == raw.adapters@[k].kind
            &&& m.adapters@[k].plugin_id == raw.adapters@[k].plugin_id
            &&& m.adapters@[k].source == raw.adapters@[k].source
            &&& m.adapters@[k].dest == raw.adapters@[k].dest
            &&& m.adapters@[k].detect == raw.adapters@[k].detect
        },
        raw.distribution is None ==> m.distribution_selectors@.len() == 0,
        raw.distribution is Some ==> m.distribution_selectors@.len()
            == raw.distribution->0.selectors@.len(),
        raw.distribution is Some && 0 <= k < raw.distribution->0.selectors@.len() ==> {
            let s = m.distribution_selectors@[k];
            let t = raw.distribution->0.selectors@[k];
            &&& s.install_mode == t.install_mode
            &&& s.os == t.os
            &&& s.arch == t.arch
            &&& s.libc == t.libc
            &&& s.pkg_base == t.pkg_base
            &&& s.preferred_artifact_types == t.preferred_artifact_types
        },
        m.health_checks@.len() == raw.health_checks@.len(),
        0 <= k < raw.health_checks@.len() ==> {
            let s = m.health_checks@[k];
            let t = raw.health_checks@[k];
            &&& s.name == t.name
            &&& t.kind is Some ==> s.kind@ == t.kind->0@
            &&& t.kind is None ==> s.kind@.len() == 0
            &&& s.command == t.command
            &&& s.probe == t.probe
            &&& s.unit == t.unit
            &&& s.optional == t.optional
        },
{
}

/// A declared health check is the one to run; without one, the first executable is
/// asked for its version where it goes to; without an executable nothing is run.
pub proof fn law_health_check_to_run(m: ComponentManifest, check: Option<CheckSpec>, k: int)
    requires
        m.health_spec_is(check),
    ensures
        m.health_check is Some ==> check == m.health_check,
        m.health_check is None && 0 <= k < m.install.files@.len() && m.install.files@[k].kind
            == FileKind::Executable && (forall|j: int|
            0 <= j < k ==> (#[trigger] m.install.files@[j]).kind != FileKind::Executable) ==> {
            let path = m.install.files@[k].path();
            &&& check is Some <==> path is Some
            &&& check is Some ==> check->0 is BinaryVersion && check->0->BinaryVersion_binary@
                == path->0@ && check->0->BinaryVersion_expect_pattern is None
        },
        m.health_check is None && (forall|j: int|
            0 <= j < m.install.files@.len() ==> (#[trigger] m.install.files@[j]).kind
                != FileKind::Executable) ==> check is None,
{
    lemma_first_executable(m.install.files@, k);
}

proof fn lemma_first_executable(files: Seq<InstallFileSpec>, k: int)
    ensures
        0 <= k < files.len() && files[k].kind == FileKind::Executable && (forall|j: int|
            0 <= j < k ==> (#[trigger] files[j]).kind != FileKind::Executable)
            ==> ComponentManifest::probed_file(files) == Some(files[k]),
        (forall|j: int| 0 <= j < files.len() ==> (#[trigger] files[j]).kind != FileKind::Executable)
            ==> ComponentManifest::probed_file(files) is None,
    decreases files.len(),
{
    if files.len() > 0 && files[0].kind != FileKind::Executable {
        let rest = files.skip(1);
        lemma_first_executable(rest, k - 1);
        assert(forall|j: int| 0 <= j < rest.len() ==> rest[j] == files[j + 1]);
    }
}

/// A manifest in a directory is a regular file whose name ends in `.toml` and has
/// something before that.
pub proof fn law_which_entries_are_manifests(e: DirEntry, stem: Seq<u8>)
    ensures
        e.is_manifest() ==> e.is_file && e.name@.len() > 5,
        e.is_file && stem.len() > 0 && e.name@ == stem + seq![
            0x2eu8,
            0x74u8,
            0x6fu8,
            0x6du8,
            0x6cu8,
        ] ==> e.is_manifest(),
        e.is_manifest() ==> e.name@.skip(e.name@.len() - 5) == seq![
            0x2eu8,
            0x74u8,
            0x6fu8,
            0x6du8,
            0x6cu8,
        ],
{
    let end = seq![0x2eu8, 0x74u8, 0x6fu8, 0x6du8, 0x6cu8];
    assert(toml_suffix() =~= end);
    assert((stem + end).skip(stem.len() as int) =~= end);
}

/// The manifests of a directory are all entries that are one, and no other, by the
/// bytes of their names.
pub proof fn law_manifests_of_a_directory(r: Seq<DirEntry>, entries: Seq<DirEntry>, i: int, j: int)
    requires
        is_sorted(r, entries.filter(|e: DirEntry| e.is_manifest())),
    ensures
        0 <= i < entries.len() && entries[i].is_manifest() ==> r.contains(entries[i]),
        0 <= i < r.len() ==> r[i].is_manifest() && entries.contains(r[i]),
        0 <= i < j < r.len() ==> !bytes_lt(r[j].name@, r[i].name@),
{
    let keep = |e: DirEntry| e.is_manifest();
    let kept = entries.filter(keep);
    if 0 <= i < entries.len() && keep(entries[i]) {
        entries.lemma_filter_contains(keep, i);
        crate::sort::law_sorting_loses_nothing(r, kept, entries[i], 0, 0);
    }
    if 0 <= i < r.len() {
        crate::sort::law_sorting_loses_nothing(r, kept, r[i], 0, 0);
        assert(r.contains(r[i]));
        let k = choose|k: int| 0 <= k < kept.len() && kept[k] == r[i];
        entries.lemma_filter_pred(keep, k);
        entries.lemma_filter_contains_rev(keep, r[i]);
    }
    if 0 <= i < j < r.len() {
        crate::sort::law_sorting_loses_nothing(r, kept, r[i], i, j);
        assert(!r[j].precedes(r[i]));
    }
}

} // verus!
