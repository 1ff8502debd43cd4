//! Adapters between components and agent frameworks.
//!
//! A component may declare adapters: resources that plug it into a framework.
//! This module finds out whether a framework is there and expands the
//! placeholders in the paths of an adapter; the modules below it enable and
//! disable adapters and keep the receipts of what was enabled.

pub mod claim;
pub mod digest;
pub mod disable;
pub mod driver;
pub mod enable;
pub mod laws;
pub mod manager;
pub mod openclaw;
pub mod process;
pub mod scan;
pub mod status;

use crate::adapter::claim::ClaimValidationError;
use crate::layout::FsLayout;
use crate::manifest::{entry, entry_at, AdapterSpec, ConfigValue};
use crate::text::{
    chars_of, concat2, concat3, concat4, concat5, find_char, find_from, join, joined,
    own, same, text_between, texts,
};
use vstd::prelude::*;

verus! {

// ---------------------------------------------------------------------------
// Errors
// ---------------------------------------------------------------------------

/// Why an adapter operation failed.
#[derive(Debug)]
pub enum AdapterError {
    /// A template holds a placeholder that nobody knows.
    UnknownPlaceholder {
        /// The placeholder, without braces.
        placeholder: String,
        /// The template.
        template: String,
    },
    /// The component is not installed.
    ComponentNotInstalled {
        /// Component.
        component: String,
    },
    /// The component does not declare an adapter for the framework.
    AdapterNotDeclared {
        /// Component.
        component: String,
        /// Framework.
        framework: String,
    },
    /// The manifest of an installed component is unusable.
    AdapterManifest {
        /// Component.
        component: String,
        /// Path of the manifest.
        path: String,
        /// What is wrong with it.
        reason: String,
    },
    /// There is no driver for the framework.
    UnknownFramework {
        /// Framework.
        framework: String,
    },
    /// No framework was named, and there is more than one.
    AmbiguousFramework {
        /// Component.
        component: String,
        /// The frameworks.
        frameworks: Vec<String>,
    },
    /// The resources of the adapter are not there.
    ResourceRootNotFound {
        /// Component.
        component: String,
        /// Framework.
        framework: String,
    },
    /// The framework is not there.
    FrameworkNotDetected {
        /// Framework.
        framework: String,
        /// What was looked for.
        reason: String,
    },
    /// The resources of the adapter are unusable.
    BundleInvalid {
        /// Where they are.
        root: String,
        /// What is wrong with them.
        reason: String,
    },
    /// The command line of the framework failed.
    FrameworkCli {
        /// Program.
        program: String,
        /// What failed.
        reason: String,
    },
    /// A receipt points where it may not.
    ClaimValidation(ClaimValidationError),
    /// The install lock could not be taken.
    Lock(String),
    /// The installed state could not be read or written.
    State(String),
    /// A file could not be read.
    Io {
        /// Path.
        path: String,
        /// What failed.
        reason: String,
    },
}

impl AdapterError {
    /// The error as one line.
    pub open spec fn text(self) -> Seq<char> {
        match self {
            AdapterError::UnknownPlaceholder { placeholder, template } => "unknown placeholder '"@
                + placeholder@ + "' in template \""@ + template@ + "\""@,
            AdapterError::ComponentNotInstalled { component } => "component '"@ + component@
                + "' is not installed"@,
            AdapterError::AdapterNotDeclared { component, framework } => "component '"@
                + component@ + "' declares no adapter for framework '"@ + framework@ + "'"@,
            AdapterError::AdapterManifest { component, path, reason } => "manifest of component '"@
                + component@ + "' at "@ + path@ + ": "@ + reason@,
            AdapterError::UnknownFramework { framework } => "no driver for framework '"@
                + framework@ + "'"@,
            AdapterError::AmbiguousFramework { component, frameworks } => "component '"@
                + component@ + "' has more than one framework: "@ + join(
                texts(frameworks@),
                ", "@,
            ),
            AdapterError::ResourceRootNotFound { component, framework } => "no resources for '"@
                + component@ + "/"@ + framework@ + "'"@,
            AdapterError::FrameworkNotDetected { framework, reason } => "framework '"@ + framework@
                + "' not detected: "@ + reason@,
            AdapterError::BundleInvalid { root, reason } => "invalid adapter resources at "@ + root@
                + ": "@ + reason@,
            AdapterError::FrameworkCli { program, reason } => "framework command '"@ + program@
                + "' failed: "@ + reason@,
            AdapterError::ClaimValidation(e) => e.text(),
            AdapterError::Lock(e) => "install lock: "@ + e@,
            AdapterError::State(e) => "installed state: "@ + e@,
            AdapterError::Io { path, reason } => "cannot access "@ + path@ + ": "@ + reason@,
        }
    }

    /// The error as one line.
    pub fn message(&self) -> (r: String)
        ensures
            r@ == self.text(),
    {
        match self {
            AdapterError::UnknownPlaceholder { placeholder, template } => concat5(
                "unknown placeholder '",
                placeholder.as_str(),
                "' in template \"",
                template.as_str(),
                "\"",
            ),
            AdapterError::ComponentNotInstalled { component } => concat3(
                "component '",
                component.as_str(),
                "' is not installed",
            ),
            AdapterError::AdapterNotDeclared { component, framework } => concat5(
                "component '",
                component.as_str(),
                "' declares no adapter for framework '",
                framework.as_str(),
                "'",
            ),
            AdapterError::AdapterManifest { component, path, reason } => {
                let mut out = own("manifest of component '");
                out.append(component.as_str());
                out.append("' at ");
                out.append(path.as_str());
                out.append(": ");
                out.append(reason.as_str());
                out
            },
            AdapterError::UnknownFramework { framework } => concat3(
                "no driver for framework '",
                framework.as_str(),
                "'",
            ),
            AdapterError::AmbiguousFramework { component, frameworks } => concat4(
                "component '",
                component.as_str(),
                "' has more than one framework: ",
                joined(frameworks, ", ").as_str(),
            ),
            AdapterError::ResourceRootNotFound { component, framework } => concat5(
                "no resources for '",
                component.as_str(),
                "/",
                framework.as_str(),
                "'",
            ),
            AdapterError::FrameworkNotDetected { framework, reason } => concat4(
                "framework '",
                framework.as_str(),
                "' not detected: ",
                reason.as_str(),
            ),
            AdapterError::BundleInvalid { root, reason } => concat4(
                "invalid adapter resources at ",
                root.as_str(),
                ": ",
                reason.as_str(),
            ),
            AdapterError::FrameworkCli { program, reason } => concat4(
                "framework command '",
                program.as_str(),
                "' failed: ",
                reason.as_str(),
            ),
            AdapterError::ClaimValidation(e) => e.message(),
            AdapterError::Lock(e) => concat2("install lock: ", e.as_str()),
            AdapterError::State(e) => concat2("installed state: ", e.as_str()),
            AdapterError::Io { path, reason } => concat4(
                "cannot access ",
                path.as_str(),
                ": ",
                reason.as_str(),
            ),
        }
    }
}

// ---------------------------------------------------------------------------
// Detection
// ---------------------------------------------------------------------------

/// Whether a framework is there, and why.
#[derive(Debug)]
pub struct DetectResult {
    /// Whether it is there.
    pub detected: bool,
    /// What was found or not found.
    pub reason: String,
}

/// What to look for on the host.
#[derive(Debug)]
pub struct DetectQuery {
    /// Executable to look for on the search path.
    pub binary: Option<String>,
    /// Paths to look at.
    pub paths: Vec<String>,
}

/// What was found on the host.
#[derive(Debug)]
pub struct DetectProbe {
    /// Where the executable of the query is.
    pub binary_at: Option<String>,
    /// Which of the paths of the query exist, in order.
    pub exists: Vec<bool>,
}

impl DetectProbe {
    /// Whether the `i`-th path exists.
    pub open spec fn exists_at(self, i: int) -> bool {
        0 <= i < self.exists@.len() && self.exists@[i]
    }
}

/// The name of the executable that a hint asks for; empty when the hint is not
/// a text.
pub open spec fn binary_name(v: ConfigValue) -> Seq<char> {
    match v {
        ConfigValue::Text(s) => s@,
        _ => Seq::empty(),
    }
}

fn hinted_binary(v: &ConfigValue) -> (r: String)
    ensures
        r@ == binary_name(*v),
{
    match v {
        ConfigValue::Text(s) => s.clone(),
        _ => String::new(),
    }
}

/// The texts among the items of a list, in order.
pub open spec fn texts_among(items: Seq<ConfigValue>) -> Seq<Seq<char>>
    decreases items.len(),
{
    if items.len() == 0 {
        Seq::empty()
    } else {
        let rest = texts_among(items.drop_last());
        match items.last() {
            ConfigValue::Text(s) => rest.push(s@),
            _ => rest,
        }
    }
}

/// The paths that a hint lists: one text, or the texts of a list.
pub open spec fn string_list(v: ConfigValue) -> Seq<Seq<char>> {
    match v {
        ConfigValue::Text(s) => seq![s@],
        ConfigValue::List(items) => texts_among(items@),
        _ => Seq::empty(),
    }
}

/// The texts of a value that is one text or a list.
pub fn extract_string_list(value: &ConfigValue) -> (r: Vec<String>)
    ensures
        texts(r@) == string_list(*value),
{
    let mut out: Vec<String> = Vec::new();
    match value {
        ConfigValue::Text(s) => {
            out.push(s.clone());
            assert(texts(out@) =~= seq![s@]);
        },
        ConfigValue::List(items) => {
            let mut i: usize = 0;
            assert(texts(out@) =~= texts_among(items@.take(0)));
            while i < items.len()
                invariant
                    i <= items@.len(),
                    texts(out@) == texts_among(items@.take(i as int)),
                decreases items.len() - i,
            {
                let ghost before = texts(out@);
                assert(items@.take(i + 1).drop_last() =~= items@.take(i as int));
                if let ConfigValue::Text(s) = &items[i] {
                    out.push(s.clone());
                    assert(texts(out@) =~= before.push(s@));
                }
                i += 1;
            }
            assert(items@.take(items@.len() as int) =~= items@);
        },
        _ => {
            assert(texts(out@) =~= Seq::empty());
        },
    }
    out
}

/// Says what to look for on the host to detect the framework of an adapter.
pub fn detect_query(spec: &AdapterSpec) -> (r: DetectQuery)
    ensures
        match (entry_at(spec.detect@, "binary"@), r.binary) {
            (Some(v), Some(b)) => b@ == binary_name(v) && b@.len() > 0,
            (Some(v), None) => binary_name(v).len() == 0,
            (None, b) => b is None,
        },
        texts(r.paths@) == match entry_at(spec.detect@, "paths"@) {
            Some(v) => string_list(v),
            None => Seq::empty(),
        },
{
    let binary = match entry(&spec.detect, "binary") {
        Some(v) => {
            let name = hinted_binary(v);
            if chars_of(name.as_str()).len() == 0 {
                None
            } else {
                Some(name)
            }
        },
        None => None,
    };
    let paths = match entry(&spec.detect, "paths") {
        Some(v) => extract_string_list(v),
        None => Vec::new(),
    };
    assert(entry_at(spec.detect@, "paths"@) is None ==> texts(paths@) =~= Seq::empty());
    DetectQuery { binary, paths }
}

/// What the `binary` hint comes to.
pub open spec fn binary_verdict(v: ConfigValue, probe: DetectProbe) -> (bool, Seq<char>) {
    let name = binary_name(v);
    if name.len() == 0 {
        (false, "binary detection key present but empty"@)
    } else {
        match probe.binary_at {
            Some(path) => (true, "binary '"@ + name + "' found at "@ + path@),
            None => (false, "binary '"@ + name + "' not found in PATH"@),
        }
    }
}

/// The first of `paths`, from the `from`-th on, that exists.
pub open spec fn first_existing(paths: Seq<Seq<char>>, probe: DetectProbe, from: int) -> Option<int>
    decreases paths.len() - from,
{
    if from < 0 || from >= paths.len() {
        None
    } else if probe.exists_at(from) {
        Some(from)
    } else {
        first_existing(paths, probe, from + 1)
    }
}

/// What the `paths` hint comes to.
pub open spec fn paths_verdict(v: ConfigValue, probe: DetectProbe) -> (bool, Seq<char>) {
    let paths = string_list(v);
    if paths.len() == 0 {
        (false, "paths detection key present but empty"@)
    } else {
        match first_existing(paths, probe, 0) {
            Some(i) => (true, "path '"@ + paths[i] + "' exists"@),
            None => (false, "none of the paths exist: "@ + join(paths, ", "@)),
        }
    }
}

/// The keys of a table, in order.
pub open spec fn keys_of(table: Seq<(String, ConfigValue)>) -> Seq<Seq<char>> {
    table.map_values(|e: (String, ConfigValue)| e.0@)
}

/// What the hints of an adapter come to on a host where `probe` was found.
///
/// Without hints there is nothing to miss. Both a `binary` and a `paths` hint
/// have to be met where both are given, and hints of neither kind are met by
/// nothing.
pub open spec fn detection(
    detect: Seq<(String, ConfigValue)>,
    probe: DetectProbe,
) -> (bool, Seq<char>) {
    if detect.len() == 0 {
        (true, "no detection configured"@)
    } else {
        match (entry_at(detect, "binary"@), entry_at(detect, "paths"@)) {
            (Some(b), Some(p)) => {
                let (b_ok, b_why) = binary_verdict(b, probe);
                let (p_ok, p_why) = paths_verdict(p, probe);
                (b_ok && p_ok, b_why + "; "@ + p_why)
            },
            (Some(b), None) => binary_verdict(b, probe),
            (None, Some(p)) => paths_verdict(p, probe),
            (None, None) => (
                false,
                "unsupported detect keys: "@ + join(keys_of(detect), ", "@),
            ),
        }
    }
}

fn judge_binary(v: &ConfigValue, probe: &DetectProbe) -> (r: (bool, String))
    ensures
        (r.0, r.1@) == binary_verdict(*v, *probe),
{
    let name = hinted_binary(v);
    if chars_of(name.as_str()).len() == 0 {
        return (false, own("binary detection key present but empty"));
    }
    match &probe.binary_at {
        Some(path) => (
            true,
            concat4("binary '", name.as_str(), "' found at ", path.as_str()),
        ),
        None => (false, concat3("binary '", name.as_str(), "' not found in PATH")),
    }
}

fn judge_paths(v: &ConfigValue, probe: &DetectProbe) -> (r: (bool, String))
    ensures
        (r.0, r.1@) == paths_verdict(*v, *probe),
{
    let paths = extract_string_list(v);
    if paths.len() == 0 {
        return (false, own("paths detection key present but empty"));
    }
    let mut i: usize = 0;
    while i < paths.len()
        invariant
            i <= paths@.len(),
            texts(paths@) == string_list(*v),
            paths@.len() > 0,
            first_existing(texts(paths@), *probe, 0) == first_existing(
                texts(paths@),
                *probe,
                i as int,
            ),
        decreases paths.len() - i,
    {
        if i < probe.exists.len() && probe.exists[i] {
            assert(texts(paths@)[i as int] == paths@[i as int]@);
            return (true, concat3("path '", paths[i].as_str(), "' exists"));
        }
        i += 1;
    }
    (false, concat2("none of the paths exist: ", joined(&paths, ", ").as_str()))
}

fn keys(table: &Vec<(String, ConfigValue)>) -> (r: Vec<String>)
    ensures
        texts(r@) == keys_of(table@),
{
    let mut out: Vec<String> = Vec::new();
    let mut i: usize = 0;
    while i < table.len()
        invariant
            i <= table@.len(),
            texts(out@) == keys_of(table@).take(i as int),
        decreases table.len() - i,
    {
        let ghost before = texts(out@);
        out.push(table[i].0.clone());
        assert(texts(out@) =~= before.push(table@[i as int].0@));
        assert(keys_of(table@).take(i + 1) =~= keys_of(table@).take(i as int).push(
            keys_of(table@)[i as int],
        ));
        i += 1;
    }
    assert(keys_of(table@).take(table@.len() as int) =~= keys_of(table@));
    out
}

/// Whether the framework of an adapter is there, by its hints and by what
/// [`detect_query`] of them found.
pub fn detect_framework(spec: &AdapterSpec, probe: &DetectProbe) -> (r: DetectResult)
    ensures
        (r.detected, r.reason@) == detection(spec.detect@, *probe),
{
    let detect = &spec.detect;
    if detect.len() == 0 {
        return DetectResult { detected: true, reason: own("no detection configured") };
    }
    match (entry(detect, "binary"), entry(detect, "paths")) {
        (Some(b), Some(p)) => {
            let (b_ok, b_why) = judge_binary(b, probe);
            let (p_ok, p_why) = judge_paths(p, probe);
            DetectResult {
                detected: b_ok && p_ok,
                reason: concat3(b_why.as_str(), "; ", p_why.as_str()),
            }
        },
        (Some(b), None) => {
            let (detected, reason) = judge_binary(b, probe);
            DetectResult { detected, reason }
        },
        (None, Some(p)) => {
            let (detected, reason) = judge_paths(p, probe);
            DetectResult { detected, reason }
        },
        (None, None) => DetectResult {
            detected: false,
            reason: concat2(
                "unsupported detect keys: ",
                joined(&keys(detect), ", ").as_str(),
            ),
        },
    }
}

// ---------------------------------------------------------------------------
// Placeholders
// ---------------------------------------------------------------------------

/// What a placeholder of the layout stands for.
pub open spec fn layout_value(layout: FsLayout, key: Seq<char>) -> Option<Seq<char>> {
    if key == "bindir"@ {
        Some(layout.bin_dir@)
    } else if key == "libdir"@ || key == "lib_dir"@ {
        Some(layout.lib_dir@)
    } else if key == "libexecdir"@ || key == "libexec_dir"@ {
        Some(layout.libexec_dir@)
    } else if key == "datadir"@ {
        Some(layout.datadir@)
    } else if key == "etcdir"@ || key == "etc_dir"@ {
        Some(layout.etc_dir@)
    } else if key == "statedir"@ || key == "state_dir"@ {
        Some(layout.state_dir@)
    } else if key == "logdir"@ || key == "log_dir"@ {
        Some(layout.log_dir@)
    } else if key == "cachedir"@ || key == "cache_dir"@ {
        Some(layout.cache_dir@)
    } else {
        None
    }
}

/// The names and values of variables.
pub open spec fn pairs(vars: Seq<(&str, &str)>) -> Seq<(Seq<char>, Seq<char>)> {
    vars.map_values(|v: (&str, &str)| (v.0@, v.1@))
}

/// The value of the first variable named `key`.
pub open spec fn variable_value(vars: Seq<(Seq<char>, Seq<char>)>, key: Seq<char>) -> Option<Seq<char>>
    decreases vars.len(),
{
    if vars.len() == 0 {
        None
    } else if vars[0].0 == key {
        Some(vars[0].1)
    } else {
        variable_value(vars.skip(1), key)
    }
}

/// What a placeholder stands for, the layout before the variables.
pub open spec fn placeholder_value(
    layout: FsLayout,
    vars: Seq<(Seq<char>, Seq<char>)>,
    key: Seq<char>,
) -> Option<Seq<char>> {
    match layout_value(layout, key) {
        Some(v) => Some(v),
        None => variable_value(vars, key),
    }
}

/// A template with its placeholders replaced, or the first placeholder that
/// nobody knows.
///
/// A placeholder runs from a `{` to the next `}`; what replaces it is not
/// looked at again. A `{` without a `}` behind it stands for itself, and so
/// does all that follows.
pub open spec fn expanded(
    s: Seq<char>,
    layout: FsLayout,
    vars: Seq<(Seq<char>, Seq<char>)>,
) -> Result<Seq<char>, Seq<char>>
    decreases s.len(),
    via expanded_decreases
{
    match find_char(s, '{') {
        None => Ok(s),
        Some(open) => match find_char(s.skip(open), '}') {
            None => Ok(s),
            Some(width) => {
                let key = s.subrange(open + 1, open + width);
                match placeholder_value(layout, vars, key) {
                    None => Err(key),
                    Some(value) => match expanded(s.skip(open + width + 1), layout, vars) {
                        Ok(rest) => Ok(s.take(open) + value + rest),
                        Err(unknown) => Err(unknown),
                    },
                }
            },
        },
    }
}

/// A character that is found is in the text.
proof fn lemma_found(s: Seq<char>, c: char)
    ensures
        find_char(s, c) matches Some(i) ==> 0 <= i < s.len() && s[i] == c,
        find_char(s, c) is None ==> !s.contains(c),
    decreases s.len(),
{
    if s.len() > 0 && s[0] != c {
        lemma_found(s.skip(1), c);
        if find_char(s.skip(1), c) is None {
            assert(!s.contains(c)) by {
                if s.contains(c) {
                    let k = choose|k: int| 0 <= k < s.len() && s[k] == c;
                    assert(s.skip(1)[k - 1] == c);
                }
            }
        }
    }
}

#[via_fn]
proof fn expanded_decreases(s: Seq<char>, layout: FsLayout, vars: Seq<(Seq<char>, Seq<char>)>) {
    lemma_found(s, '{');
    match find_char(s, '{') {
        Some(open) => {
            lemma_found(s.skip(open), '}');
        },
        None => {},
    }
}

fn lookup_placeholder(layout: &FsLayout, vars: &[(&str, &str)], key: &str) -> (r: Option<String>)
    ensures
        crate::text::opt_text(r) == placeholder_value(*layout, pairs(vars@), key@),
{
    if same(key, "bindir") {
        return Some(layout.bin_dir.clone());
    }
    if same(key, "libdir") || same(key, "lib_dir") {
        return Some(layout.lib_dir.clone());
    }
    if same(key, "libexecdir") || same(key, "libexec_dir") {
        return Some(layout.libexec_dir.clone());
    }
    if same(key, "datadir") {
        return Some(layout.datadir.clone());
    }
    if same(key, "etcdir") || same(key, "etc_dir") {
        return Some(layout.etc_dir.clone());
    }
    if same(key, "statedir") || same(key, "state_dir") {
        return Some(layout.state_dir.clone());
    }
    if same(key, "logdir") || same(key, "log_dir") {
        return Some(layout.log_dir.clone());
    }
    if same(key, "cachedir") || same(key, "cache_dir") {
        return Some(layout.cache_dir.clone());
    }
    let mut i: usize = 0;
    let ghost all = pairs(vars@);
    assert(all.skip(0) =~= all);
    while i < vars.len()
        invariant
            i <= vars@.len(),
            all == pairs(vars@),
            layout_value(*layout, key@) is None,
            variable_value(all, key@) == variable_value(all.skip(i as int), key@),
        decreases vars.len() - i,
    {
        if same(vars[i].0, key) {
            return Some(own(vars[i].1));
        }
        assert(all.skip(i as int).skip(1) =~= all.skip(i + 1));
        i += 1;
    }
    None
}

/// Replaces the placeholders of a template.
///
/// Known are `{bindir}`, `{libdir}`, `{libexecdir}`, `{datadir}`, `{etcdir}`,
/// `{statedir}`, `{logdir}` and `{cachedir}` of the layout, most of them also
/// spelled with `_dir`, and the names in `extra_vars`.
pub fn expand_layout_placeholders(
    template: &str,
    layout: &FsLayout,
    extra_vars: &[(&str, &str)],
) -> (r: Result<String, AdapterError>)
    ensures
        match expanded(template@, *layout, pairs(extra_vars@)) {
            Ok(path) => r matches Ok(p) && p@ == path,
            Err(unknown) => {
                &&& r matches Err(AdapterError::UnknownPlaceholder { placeholder, template: t })
                &&& placeholder@ == unknown
                &&& t@ == template@
            },
        },
{
    let cs = chars_of(template);
    let mut out = String::new();
    let mut at: usize = 0;
    assert(cs@.skip(0) =~= template@);
    assert(expanded(template@, *layout, pairs(extra_vars@)) matches Ok(p) ==> p =~= out@ + p);
    loop
        invariant
            at <= cs@.len(),
            cs@ == template@,
            match expanded(template@, *layout, pairs(extra_vars@)) {
                Ok(path) => expanded(cs@.skip(at as int), *layout, pairs(extra_vars@)) matches Ok(rest)
                    && path == out@ + rest,
                Err(unknown) => expanded(cs@.skip(at as int), *layout, pairs(extra_vars@)) == Err::<
                    Seq<char>,
                    Seq<char>,
                >(unknown),
            },
        decreases cs.len() - at,
    {
        let ghost rest = cs@.skip(at as int);
        let open: usize = match find_from(&cs, at, '{') {
            Some(open) => open,
            None => {
                let tail = text_between(&cs, at, cs.len());
                assert(tail@ =~= rest);
                out.append(tail.as_str());
                return Ok(out);
            },
        };
        assert(rest.skip(open - at) =~= cs@.skip(open as int));
        let close: usize = match find_from(&cs, open, '}') {
            Some(close) => close,
            None => {
                let tail = text_between(&cs, at, cs.len());
                assert(tail@ =~= rest);
                out.append(tail.as_str());
                return Ok(out);
            },
        };
        proof {
            lemma_found(cs@.skip(open as int), '}');
            lemma_found(rest, '{');
        }
        let key = text_between(&cs, open + 1, close);
        assert(key@ =~= rest.subrange(open - at + 1, close - at));
        match lookup_placeholder(layout, extra_vars, key.as_str()) {
            Some(value) => {
                let head = text_between(&cs, at, open);
                let ghost before = out@;
                out.append(head.as_str());
                out.append(value.as_str());
                proof {
                    assert(head@ =~= rest.take(open - at));
                    assert(rest.skip(close - at + 1) =~= cs@.skip(close + 1));
                    if let Ok(tail) = expanded(cs@.skip(close + 1), *layout, pairs(extra_vars@)) {
                        assert(before + (head@ + value@ + tail) =~= out@ + tail);
                    }
                }
                at = close + 1;
            },
            None => {
                return Err(
                    AdapterError::UnknownPlaceholder { placeholder: key, template: own(template) },
                );
            },
        }
    }
}

// ---------------------------------------------------------------------------
// Laws
// ---------------------------------------------------------------------------

/// A template without an opening brace stands for itself.
pub proof fn law_plain_template_unchanged(
    template: Seq<char>,
    layout: FsLayout,
    vars: Seq<(Seq<char>, Seq<char>)>,
)
    requires
        !template.contains('{'),
    ensures
        expanded(template, layout, vars) == Ok::<Seq<char>, Seq<char>>(template),
{
    lemma_found(template, '{');
}

/// The two spellings of a placeholder stand for the same directory.
pub proof fn law_placeholder_spellings_agree(layout: FsLayout, vars: Seq<(Seq<char>, Seq<char>)>)
    ensures
        placeholder_value(layout, vars, "libdir"@) == placeholder_value(layout, vars, "lib_dir"@),
        placeholder_value(layout, vars, "libexecdir"@) == placeholder_value(
            layout,
            vars,
            "libexec_dir"@,
        ),
        placeholder_value(layout, vars, "etcdir"@) == placeholder_value(layout, vars, "etc_dir"@),
        placeholder_value(layout, vars, "statedir"@) == placeholder_value(
            layout,
            vars,
            "state_dir"@,
        ),
        placeholder_value(layout, vars, "logdir"@) == placeholder_value(layout, vars, "log_dir"@),
        placeholder_value(layout, vars, "cachedir"@) == placeholder_value(
            layout,
            vars,
            "cache_dir"@,
        ),
{
    reveal_strlit("bindir");
    reveal_strlit("libdir");
    reveal_strlit("lib_dir");
    reveal_strlit("libexecdir");
    reveal_strlit("libexec_dir");
    reveal_strlit("datadir");
    reveal_strlit("etcdir");
    reveal_strlit("etc_dir");
    reveal_strlit("statedir");
    reveal_strlit("state_dir");
    reveal_strlit("logdir");
    reveal_strlit("log_dir");
    reveal_strlit("cachedir");
    reveal_strlit("cache_dir");
    assert("libexecdir"@.len() == 10 && "libexec_dir"@.len() == 11);
    assert("libdir"@.len() == 6 && "lib_dir"@.len() == 7 && "bindir"@.len() == 6);
    assert("bindir"@[0] == 'b' && "datadir"@[0] == 'd');
    assert("libdir"@[0] == 'l' && "libdir"@[1] == 'i');
    assert("lib_dir"@[0] == 'l' && "lib_dir"@[1] == 'i');
    assert("etcdir"@[0] == 'e' && "etc_dir"@[0] == 'e');
    assert("logdir"@[0] == 'l' && "logdir"@[1] == 'o');
    assert("log_dir"@[0] == 'l' && "log_dir"@[1] == 'o');
    assert("statedir"@[0] == 's' && "state_dir"@[0] == 's');
    assert("cachedir"@[0] == 'c' && "cache_dir"@[0] == 'c');
}

/// No variable takes the place of a directory of the layout.
pub proof fn law_layout_shadows_variables(
    layout: FsLayout,
    one: Seq<(Seq<char>, Seq<char>)>,
    other: Seq<(Seq<char>, Seq<char>)>,
    key: Seq<char>,
)
    requires
        layout_value(layout, key) is Some,
    ensures
        placeholder_value(layout, one, key) == placeholder_value(layout, other, key),
{
}

/// Where both kinds of hints are given, the framework is there only if both
/// are met.
pub proof fn law_both_hints_required(
    detect: Seq<(String, ConfigValue)>,
    probe: DetectProbe,
    b: ConfigValue,
    p: ConfigValue,
)
    requires
        entry_at(detect, "binary"@) == Some(b),
        entry_at(detect, "paths"@) == Some(p),
    ensures
        detection(detect, probe).0 <==> binary_verdict(b, probe).0 && paths_verdict(p, probe).0,
{
    assert(detect.len() > 0);
}

/// Hints of unknown kinds alone are met by nothing.
pub proof fn law_unknown_hints_fail_closed(
    detect: Seq<(String, ConfigValue)>,
    probe: DetectProbe,
)
    requires
        detect.len() > 0,
        entry_at(detect, "binary"@) is None,
        entry_at(detect, "paths"@) is None,
    ensures
        !detection(detect, probe).0,
{
}

} // verus!
