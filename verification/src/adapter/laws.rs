//! What adapters, their receipts and the driver for OpenClaw owe to what they are
//! given.

use crate::adapter::claim::{
    claim_sound, external_fault, first_fault, plugin_id_fault, resource_sound, resource_verdict,
    AdapterClaim, AllowedRoots, ClaimResource, ClaimResourceKind, ClaimStatus,
    ClaimValidationError, ClaimView, ExternalFault, ExternalPathError, PathFacts,
    ResourceKindView, ResourceView,
};
use crate::adapter::driver::{
    AdapterBundle, AdapterConditionKind, AdapterSummary, CliOutput, ConditionStatus, DriverPlan,
    FrameworkCommand,
};
use crate::adapter::manager::{
    declared_id, declares, framework_result, installed_manifest_path, lists_frameworks,
    record_path, resource_dir, with_root, SearchStep, SearchView,
};
use crate::adapter::openclaw::{
    adapter_status, bin_name, bundle_condition, bundle_plugin_id, bundle_result, claimed_id,
    disable_step, enable_fault, enableable, failure_text, first_plugin, home_of, install_args,
    list_args, manifest_id_result, needs_listing, no_bundle_id, no_receipt_id, openclaw_detection,
    overall, plugin_manifest_path, receipt, registration, shown_args, uninstall_args,
    BundleFacts, DisableStep, DriverCtx, OpenClawEnv, OpenClawProbe, PluginListing,
    PluginManifestRead,
};
use crate::adapter::process::{call_view, shown_argv};
use crate::adapter::{
    binary_verdict, detection, expanded, keys_of, paths_verdict, placeholder_value, string_list,
    texts_among, variable_value, AdapterError, DetectProbe,
};
use crate::central_log::{LogOrigin, LogStatus, Severity};
use crate::layout::FsLayout;
use crate::manifest::{entry_at, AdapterSpec, ConfigValue};
use crate::paths::{has_dot_segment, lies_under};
use crate::text::laws::{law_first_place_of_a_character, law_strip_takes_a_run_off};
use crate::text::{decimal_int, find_char, has_word, join, opt_text, texts, trim};
use vstd::prelude::*;

verus! {

// ---------------------------------------------------------------------------
// Detection
// ---------------------------------------------------------------------------

/// A `binary` hint is met exactly when it is a text that is not empty and the
/// program was found.
pub proof fn law_binary_hint(v: ConfigValue, probe: DetectProbe)
    ensures
        binary_verdict(v, probe).0 <==> v is Text && v->Text_0@.len() > 0 && probe.binary_at is Some,
        binary_verdict(v, probe).0 ==> binary_verdict(v, probe).1 == "binary '"@ + v->Text_0@
            + "' found at "@ + probe.binary_at->0@,
{
}

/// A `paths` hint that is a text lists that text alone; one that is a list lists
/// the texts in it, in order, and nothing else in it; any other lists nothing.
pub proof fn law_listed_paths(v: ConfigValue, a: Seq<ConfigValue>, b: Seq<ConfigValue>)
    ensures
        v matches ConfigValue::Text(s) ==> string_list(v) == seq![s@],
        v matches ConfigValue::List(items) ==> string_list(v) == texts_among(items@),
        v !is Text && v !is List ==> string_list(v).len() == 0,
        texts_among(Seq::<ConfigValue>::empty()).len() == 0,
        texts_among(seq![v]) == if v is Text {
            seq![v->Text_0@]
        } else {
            Seq::empty()
        },
        texts_among(a + b) == texts_among(a) + texts_among(b),
    decreases b.len(),
{
    let one = seq![v];
    assert(one.drop_last() =~= Seq::<ConfigValue>::empty());
    assert(texts_among(one.drop_last()) =~= Seq::<Seq<char>>::empty());
    assert(one.last() == v);
    assert(texts_among(one) =~= if v is Text {
        seq![v->Text_0@]
    } else {
        Seq::empty()
    });
    if b.len() == 0 {
        assert(a + b =~= a);
        assert(texts_among(b) =~= Seq::<Seq<char>>::empty());
        assert(texts_among(a) + texts_among(b) =~= texts_among(a));
    } else {
        law_listed_paths(v, a, b.drop_last());
        assert((a + b).drop_last() =~= a + b.drop_last());
        assert((a + b).last() == b.last());
        assert(texts_among(a + b) =~= texts_among(a) + texts_among(b));
    }
}

proof fn lemma_first_existing(paths: Seq<Seq<char>>, probe: DetectProbe, from: int)
    requires
        0 <= from,
    ensures
        match crate::adapter::first_existing(paths, probe, from) {
            Some(i) => from <= i < paths.len() && i < probe.exists@.len() && probe.exists@[i]
                && forall|k: int|
                from <= k < i ==> !(k < probe.exists@.len() && #[trigger] probe.exists@[k]),
            None => forall|k: int|
                from <= k < paths.len() ==> !(k < probe.exists@.len()
                    && #[trigger] probe.exists@[k]),
        },
    decreases paths.len() - from,
{
    if from < paths.len() && !probe.exists_at(from) {
        lemma_first_existing(paths, probe, from + 1);
    }
}

/// A `paths` hint is met exactly when one of the listed paths exists.
pub proof fn law_paths_hint(v: ConfigValue, probe: DetectProbe)
    ensures
        paths_verdict(v, probe).0 <==> exists|i: int|
            0 <= i < string_list(v).len() && i < probe.exists@.len() && #[trigger] probe.exists@[i],
        paths_verdict(v, probe).0 ==> exists|i: int|
            0 <= i < string_list(v).len() && i < probe.exists@.len() && #[trigger] probe.exists@[i]
                && paths_verdict(v, probe).1 == "path '"@ + string_list(v)[i] + "' exists"@,
{
    lemma_first_existing(string_list(v), probe, 0);
}

/// Without hints there is nothing to miss; a hint alone decides; two hints have to
/// be met both; hints of neither kind are met by nothing.
pub proof fn law_hints_that_count(detect: Seq<(String, ConfigValue)>, probe: DetectProbe)
    ensures
        ({
            let b = entry_at(detect, "binary"@);
            let p = entry_at(detect, "paths"@);
            &&& detect.len() == 0 ==> detection(detect, probe).0
            &&& detect.len() > 0 ==> (detection(detect, probe).0 <==> {
                &&& b is Some || p is Some
                &&& b is Some ==> binary_verdict(b->0, probe).0
                &&& p is Some ==> paths_verdict(p->0, probe).0
            })
            &&& detect.len() > 0 && b is None && p is None ==> detection(detect, probe).1
                == "unsupported detect keys: "@ + join(keys_of(detect), ", "@)
        }),
{
}

/// What is looked up in a table is what its first entry under the key holds.
pub proof fn law_first_entry_counts(
    table: Seq<(String, ConfigValue)>,
    key: Seq<char>,
    head: (String, ConfigValue),
)
    ensures
        entry_at(Seq::<(String, ConfigValue)>::empty(), key) is None,
        entry_at(seq![head] + table, key) == if head.0@ == key {
            Some(head.1)
        } else {
            entry_at(table, key)
        },
{
    let all = seq![head] + table;
    assert(all[0] == head);
    assert(all.skip(1) =~= table);
}

// ---------------------------------------------------------------------------
// Templates
// ---------------------------------------------------------------------------

/// Which directory each placeholder stands for, whatever the variables are.
pub proof fn law_directories_by_name(layout: FsLayout, vars: Seq<(Seq<char>, Seq<char>)>)
    ensures
        placeholder_value(layout, vars, "bindir"@) == Some(layout.bin_dir@),
        placeholder_value(layout, vars, "libdir"@) == Some(layout.lib_dir@),
        placeholder_value(layout, vars, "lib_dir"@) == Some(layout.lib_dir@),
        placeholder_value(layout, vars, "libexecdir"@) == Some(layout.libexec_dir@),
        placeholder_value(layout, vars, "libexec_dir"@) == Some(layout.libexec_dir@),
        placeholder_value(layout, vars, "datadir"@) == Some(layout.datadir@),
        placeholder_value(layout, vars, "etcdir"@) == Some(layout.etc_dir@),
        placeholder_value(layout, vars, "etc_dir"@) == Some(layout.etc_dir@),
        placeholder_value(layout, vars, "statedir"@) == Some(layout.state_dir@),
        placeholder_value(layout, vars, "state_dir"@) == Some(layout.state_dir@),
        placeholder_value(layout, vars, "logdir"@) == Some(layout.log_dir@),
        placeholder_value(layout, vars, "log_dir"@) == Some(layout.log_dir@),
        placeholder_value(layout, vars, "cachedir"@) == Some(layout.cache_dir@),
        placeholder_value(layout, vars, "cache_dir"@) == Some(layout.cache_dir@),
{
    reveal_strlit("bindir");
    reveal_strlit("libdir");
    reveal_strlit("lib_dir");
    reveal_strlit("libexecdir");
    reveal_strlit("libexec_dir");
    reveal_strlit("datadir");
    reveal_strlit("etcdir");
    reveal_strlit("etc_dir");
    reveal_strlit("statedir");
    reveal_strlit("state_dir");
    reveal_strlit("logdir");
    reveal_strlit("log_dir");
    reveal_strlit("cachedir");
    reveal_strlit("cache_dir");
    assert("libexecdir"@.len() == 10 && "libexec_dir"@.len() == 11);
    // Where two names are as long, they differ in one of these characters.
    assert("bindir"@[0] == 'b' && "libdir"@[0] == 'l' && "etcdir"@[0] == 'e' && "logdir"@[0] == 'l'
        && "libdir"@[1] == 'i' && "logdir"@[1] == 'o');
    assert("lib_dir"@[0] == 'l' && "datadir"@[0] == 'd' && "etc_dir"@[0] == 'e' && "log_dir"@[0]
        == 'l' && "lib_dir"@[1] == 'i' && "log_dir"@[1] == 'o');
    assert("statedir"@[0] == 's' && "cachedir"@[0] == 'c');
    assert("state_dir"@[0] == 's' && "cache_dir"@[0] == 'c');
}

/// The variables of a request are looked through in order, and only for a name
/// that is no directory of the layout.
pub proof fn law_variables_in_order(
    layout: FsLayout,
    name: Seq<char>,
    value: Seq<char>,
    vars: Seq<(Seq<char>, Seq<char>)>,
    key: Seq<char>,
)
    ensures
        variable_value(Seq::<(Seq<char>, Seq<char>)>::empty(), key) is None,
        variable_value(seq![(name, value)] + vars, key) == if name == key {
            Some(value)
        } else {
            variable_value(vars, key)
        },
        ![
            "bindir"@,
            "libdir"@,
            "lib_dir"@,
            "libexecdir"@,
            "libexec_dir"@,
            "datadir"@,
            "etcdir"@,
            "etc_dir"@,
            "statedir"@,
            "state_dir"@,
            "logdir"@,
            "log_dir"@,
            "cachedir"@,
            "cache_dir"@,
        ]@.contains(key) ==> placeholder_value(layout, vars, key) == variable_value(vars, key),
{
    let all = seq![(name, value)] + vars;
    assert(all[0] == (name, value));
    assert(all.skip(1) =~= vars);
    let names = [
        "bindir"@,
        "libdir"@,
        "lib_dir"@,
        "libexecdir"@,
        "libexec_dir"@,
        "datadir"@,
        "etcdir"@,
        "etc_dir"@,
        "statedir"@,
        "state_dir"@,
        "logdir"@,
        "log_dir"@,
        "cachedir"@,
        "cache_dir"@,
    ]@;
    assert(forall|i: int| 0 <= i < names.len() ==> names.contains(#[trigger] names[i]));
    assert(names[0] == "bindir"@ && names[1] == "libdir"@ && names[2] == "lib_dir"@ && names[3]
        == "libexecdir"@ && names[4] == "libexec_dir"@ && names[5] == "datadir"@ && names[6]
        == "etcdir"@);
    assert(names[7] == "etc_dir"@ && names[8] == "statedir"@ && names[9] == "state_dir"@
        && names[10] == "logdir"@ && names[11] == "log_dir"@ && names[12] == "cachedir"@
        && names[13] == "cache_dir"@);
}

/// A template is taken piece by piece: what stands before the first placeholder is
/// kept, the placeholder gives way to what it stands for, and what follows is a
/// template of its own. An unknown placeholder is what the template fails with.
pub proof fn law_template_piece_by_piece(
    before: Seq<char>,
    key: Seq<char>,
    after: Seq<char>,
    layout: FsLayout,
    vars: Seq<(Seq<char>, Seq<char>)>,
)
    requires
        forall|i: int| 0 <= i < before.len() ==> #[trigger] before[i] != '{',
        forall|i: int| 0 <= i < key.len() ==> #[trigger] key[i] != '}',
    ensures
        ({
            let whole = expanded(before + seq!['{'] + key + seq!['}'] + after, layout, vars);
            let value = placeholder_value(layout, vars, key);
            &&& value is None ==> whole == Err::<Seq<char>, Seq<char>>(key)
            &&& value is Some ==> match expanded(after, layout, vars) {
                Ok(rest) => whole == Ok::<Seq<char>, Seq<char>>(before + value->0 + rest),
                Err(unknown) => whole == Err::<Seq<char>, Seq<char>>(unknown),
            }
        }),
{
    let s = before + seq!['{'] + key + seq!['}'] + after;
    let open = before.len() as int;
    law_first_place_of_a_character(s, '{');
    assert(s[open] == '{');
    assert(forall|i: int| 0 <= i < open ==> s[i] == before[i]);
    assert(find_char(s, '{') == Some(open));
    let tail = s.skip(open);
    law_first_place_of_a_character(tail, '}');
    let width = key.len() + 1;
    assert(tail[width as int] == '}');
    assert(tail[0] == '{');
    assert(forall|i: int| 1 <= i < width ==> tail[i] == key[i - 1]);
    assert(find_char(tail, '}') == Some(width as int));
    assert(s.subrange(open + 1, open + width) =~= key);
    assert(s.skip(open + width + 1) =~= after);
    assert(s.take(open) =~= before);
}

/// A brace that is never closed stands for itself, and so does all that follows.
pub proof fn law_open_brace_stands_for_itself(
    before: Seq<char>,
    after: Seq<char>,
    layout: FsLayout,
    vars: Seq<(Seq<char>, Seq<char>)>,
)
    requires
        forall|i: int| 0 <= i < before.len() ==> #[trigger] before[i] != '{',
        forall|i: int| 0 <= i < after.len() ==> #[trigger] after[i] != '}',
    ensures
        expanded(before + seq!['{'] + after, layout, vars) == Ok::<Seq<char>, Seq<char>>(
            before + seq!['{'] + after,
        ),
{
    let s = before + seq!['{'] + after;
    let open = before.len() as int;
    law_first_place_of_a_character(s, '{');
    assert(s[open] == '{');
    assert(forall|i: int| 0 <= i < open ==> s[i] == before[i]);
    assert(find_char(s, '{') == Some(open));
    let tail = s.skip(open);
    law_first_place_of_a_character(tail, '}');
    assert(tail[0] == '{');
    assert(forall|i: int| 1 <= i < tail.len() ==> tail[i] == after[i - 1]);
    assert(find_char(tail, '}') is None);
}

// ---------------------------------------------------------------------------
// Receipts
// ---------------------------------------------------------------------------

/// Exactly these plugin ids are taken: they are made of letters, digits, `.`, `_`
/// and `-`, are not empty, do not begin with `-` and are neither `.` nor `..`.
pub proof fn law_which_plugin_ids_are_taken(id: Seq<char>)
    ensures
        plugin_id_fault(id) is None <==> {
            &&& id.len() > 0
            &&& id != seq!['.']
            &&& id != seq!['.', '.']
            &&& id[0] != '-'
            &&& forall|k: int|
                0 <= k < id.len() ==> {
                    let c = #[trigger] id[k];
                    'a' <= c <= 'z' || 'A' <= c <= 'Z' || '0' <= c <= '9' || c == '.' || c == '_'
                        || c == '-'
                }
        },
{
    reveal_strlit(".");
    reveal_strlit("..");
    assert("."@ =~= seq!['.']);
    assert(".."@ =~= seq!['.', '.']);
    lemma_first_bad(id);
}

proof fn lemma_first_bad(id: Seq<char>)
    ensures
        crate::adapter::claim::first_bad(id) is None <==> forall|k: int|
            0 <= k < id.len() ==> {
                let c = #[trigger] id[k];
                'a' <= c <= 'z' || 'A' <= c <= 'Z' || '0' <= c <= '9' || c == '.' || c == '_' || c
                    == '-'
            },
    decreases id.len(),
{
    if id.len() > 0 {
        let rest = id.skip(1);
        lemma_first_bad(rest);
        assert(forall|k: int| 0 <= k < rest.len() ==> rest[k] == id[k + 1]);
        assert(forall|k: int| 1 <= k < id.len() ==> id[k] == rest[k - 1]);
    }
}

/// Exactly these external paths are taken: they have no `.` or `..` segment, lie
/// under an allowed root as they are written and, where links can be followed and
/// roots were resolved, also where they lead.
pub proof fn law_which_external_paths_are_taken(
    path: Seq<char>,
    allowed: AllowedRoots,
    canonical: Option<Seq<char>>,
)
    ensures
        external_fault(path, allowed, canonical) is None <==> {
            &&& !has_dot_segment(path)
            &&& exists|i: int|
                0 <= i < allowed.paths@.len() && lies_under(path, #[trigger] allowed.paths@[i]@)
            &&& canonical is Some && allowed.canonical@.len() > 0 ==> exists|i: int|
                0 <= i < allowed.canonical@.len() && lies_under(
                    canonical->0,
                    #[trigger] allowed.canonical@[i]@,
                )
        },
        has_dot_segment(path) ==> external_fault(path, allowed, canonical) == Some(
            ExternalFault::Traversal,
        ),
        external_fault(path, allowed, canonical) == Some(ExternalFault::Traversal)
            ==> has_dot_segment(path),
{
    lemma_under_any(path, allowed.paths@);
    if canonical is Some {
        lemma_under_any(canonical->0, allowed.canonical@);
    }
}

proof fn lemma_under_any(path: Seq<char>, roots: Seq<String>)
    ensures
        crate::adapter::claim::under_any(path, texts(roots)) <==> exists|i: int|
            0 <= i < roots.len() && lies_under(path, #[trigger] roots[i]@),
{
    let seen = texts(roots);
    assert(seen.len() == roots.len());
    assert(forall|i: int| 0 <= i < roots.len() ==> #[trigger] seen[i] == roots[i]@);
    if crate::adapter::claim::under_any(path, seen) {
        let i = choose|i: int| 0 <= i < seen.len() && lies_under(path, #[trigger] seen[i]);
        assert(lies_under(path, roots[i]@));
    }
    if exists|i: int| 0 <= i < roots.len() && lies_under(path, #[trigger] roots[i]@) {
        let i = choose|i: int| 0 <= i < roots.len() && lies_under(path, #[trigger] roots[i]@);
        assert(lies_under(path, seen[i]));
    }
}

/// A receipt is sound exactly when its plugin id, each of its plugins, each of its
/// external paths and each of its own paths is.
pub proof fn law_what_makes_a_receipt_sound(
    claim: AdapterClaim,
    allowed: AllowedRoots,
    facts: Seq<PathFacts>,
)
    ensures
        claim_sound(claim, allowed, facts) <==> {
            &&& claim.plugin_id is Some ==> plugin_id_fault(claim.plugin_id->0@) is None
            &&& forall|i: int|
                0 <= i < claim.resources@.len() ==> match (#[trigger] claim.resources@[i]).kind {
                    ClaimResourceKind::OwnedPath { .. } => facts[i].boundary is None,
                    ClaimResourceKind::ExternalPath { path } => external_fault(
                        path@,
                        allowed,
                        opt_text(facts[i].canonical),
                    ) is None,
                    ClaimResourceKind::FrameworkPlugin { plugin_id, .. } => plugin_id_fault(
                        plugin_id@,
                    ) is None,
                }
        },
{
}

/// What a refused receipt is refused for is wrong with it, and named.
pub proof fn law_refused_receipt_names_its_fault(
    e: ClaimValidationError,
    claim: AdapterClaim,
    allowed: AllowedRoots,
    facts: Seq<PathFacts>,
)
    requires
        first_fault(e, claim, allowed, facts),
    ensures
        !claim_sound(claim, allowed, facts),
        e matches ClaimValidationError::PluginId { plugin_id, reason } ==> plugin_id_fault(
            plugin_id@,
        ) == Some(reason@),
        e matches ClaimValidationError::OwnedPath { id, source } ==> exists|i: int|
            0 <= i < claim.resources@.len() && (#[trigger] claim.resources@[i]).id@ == id@
                && claim.resources@[i].kind is OwnedPath && facts[i].boundary is Some
                && facts[i].boundary->0.reason@ == source.reason@,
        e matches ClaimValidationError::ExternalPath { id, source } ==> exists|i: int|
            0 <= i < claim.resources@.len() && (#[trigger] claim.resources@[i]).id@ == id@
                && claim.resources@[i].kind is ExternalPath && (source is Traversal
                <==> has_dot_segment(claim.resources@[i].kind->ExternalPath_path@)),
{
    match claim.plugin_id {
        Some(id) if plugin_id_fault(id@) is Some => {},
        _ => {
            let i = choose|i: int|
                {
                    &&& 0 <= i < claim.resources@.len()
                    &&& resource_verdict(Some(e), #[trigger] claim.resources@[i], allowed, facts[i])
                    &&& forall|k: int|
                        0 <= k < i ==> resource_sound(
                            #[trigger] claim.resources@[k],
                            allowed,
                            facts[k],
                        )
                };
            assert(!resource_sound(claim.resources@[i], allowed, facts[i]));
        },
    }
}

/// A resource is found by its id, the first one of that id.
pub proof fn law_resource_by_id(resources: Seq<ClaimResource>, id: Seq<char>)
    ensures
        match AdapterClaim::position(resources, id) {
            Some(i) => 0 <= i < resources.len() && resources[i].id@ == id && forall|k: int|
                0 <= k < i ==> (#[trigger] resources[k]).id@ != id,
            None => forall|k: int| 0 <= k < resources.len() ==> (#[trigger] resources[k]).id@ != id,
        },
    decreases resources.len(),
{
    if resources.len() > 0 && resources[0].id@ != id {
        let rest = resources.skip(1);
        law_resource_by_id(rest, id);
        assert(forall|k: int| 0 <= k < rest.len() ==> rest[k] == resources[k + 1]);
        match AdapterClaim::position(rest, id) {
            Some(i) => {
                assert forall|k: int| 0 <= k < i + 1 implies (#[trigger] resources[k]).id@ != id by {
                    if k > 0 {
                        assert(rest[k - 1] == resources[k]);
                    }
                }
            },
            None => {
                assert forall|k: int| 0 <= k < resources.len() implies (
                #[trigger] resources[k]).id@ != id by {
                    if k > 0 {
                        assert(rest[k - 1] == resources[k]);
                    }
                }
            },
        }
    }
}

// ---------------------------------------------------------------------------
// What is said of a fault
// ---------------------------------------------------------------------------

/// What an error says names what it is about and why.
pub proof fn law_errors_name_their_cause(e: AdapterError, about: Seq<char>, why: Seq<char>)
    ensures
        e.is_bundle(about, why) ==> e.text() == "invalid adapter resources at "@ + about + ": "@
            + why,
        e.is_io(about, why) ==> e.text() == "cannot access "@ + about + ": "@ + why,
        e.is_cli(about, why) ==> e.text() == "framework command '"@ + about + "' failed: "@ + why,
        e matches AdapterError::UnknownFramework { framework } ==> e.text()
            == "no driver for framework '"@ + framework@ + "'"@,
        e matches AdapterError::FrameworkNotDetected { framework, reason } ==> e.text()
            == "framework '"@ + framework@ + "' not detected: "@ + reason@,
        e matches AdapterError::ClaimValidation(
            ClaimValidationError::PluginId { plugin_id, reason },
        ) ==> e.text() == "invalid plugin id '"@ + plugin_id@ + "': "@ + reason@,
        e matches AdapterError::ClaimValidation(
            ClaimValidationError::ExternalPath { id, source: ExternalPathError::Traversal { path } },
        ) ==> e.text() == "external-path resource '"@ + id@ + "' failed boundary check: "@
            + ("path '"@ + path@ + "' contains a '.' or '..' segment"@),
{
}

// ---------------------------------------------------------------------------
// Frameworks
// ---------------------------------------------------------------------------

/// Whether an adapter is for a framework.
pub open spec fn is_for(a: AdapterSpec, framework: Seq<char>) -> bool {
    a.framework is Some && trim(a.framework->0@) == framework
}

proof fn lemma_declares(adapters: Seq<AdapterSpec>, framework: Seq<char>)
    ensures
        declares(adapters, framework) <==> framework.len() > 0 && exists|i: int|
            0 <= i < adapters.len() && is_for(#[trigger] adapters[i], framework),
{
    if declares(adapters, framework) {
        let i = choose|i: int|
            0 <= i < adapters.len() && crate::adapter::manager::framework_of(#[trigger] adapters[i])
                == Some(framework);
        assert(is_for(adapters[i], framework));
    }
    if exists|i: int| 0 <= i < adapters.len() && is_for(#[trigger] adapters[i], framework) {
        let i = choose|i: int| 0 <= i < adapters.len() && is_for(#[trigger] adapters[i], framework);
        assert(crate::adapter::manager::framework_of(adapters[i]) == Some(framework));
    }
}

/// A named framework is taken exactly when an adapter is for it.
pub proof fn law_named_framework_has_to_be_declared(
    r: Result<String, AdapterError>,
    component: Seq<char>,
    framework: Seq<char>,
    adapters: Seq<AdapterSpec>,
)
    requires
        framework_result(r, component, Some(framework), adapters),
    ensures
        r is Ok <==> framework.len() > 0 && exists|i: int|
            0 <= i < adapters.len() && is_for(#[trigger] adapters[i], framework),
        r matches Ok(name) ==> name@ == framework,
        r matches Err(e) ==> e.text() == "component '"@ + component
            + "' declares no adapter for framework '"@ + framework + "'"@,
{
    lemma_declares(adapters, framework);
}

/// Where no framework is named, the only declared one is taken: nothing else is
/// declared then. Where none or more than one is, the operation fails.
pub proof fn law_only_framework_is_taken(
    r: Result<String, AdapterError>,
    component: Seq<char>,
    adapters: Seq<AdapterSpec>,
    one: Seq<char>,
)
    requires
        framework_result(r, component, None, adapters),
    ensures
        r matches Ok(name) ==> declares(adapters, name@) && (declares(adapters, one) ==> one
            == name@),
        r matches Err(e) ==> e is AdapterNotDeclared || e is AmbiguousFramework,
        r matches Err(e) && e is AdapterNotDeclared ==> !declares(adapters, one),
        r is Err && r->Err_0 is AmbiguousFramework ==> exists|a: Seq<char>, b: Seq<char>|
            a != b && #[trigger] declares(adapters, a) && #[trigger] declares(adapters, b),
{
    let list = choose|list: Seq<Seq<char>>|
        {
            &&& #[trigger] lists_frameworks(list, adapters)
            &&& if list.len() == 0 {
                r matches Err(e) && crate::adapter::manager::is_not_declared(
                    e,
                    component,
                    "<any>"@,
                )
            } else if list.len() == 1 {
                r matches Ok(name) && name@ == list[0]
            } else {
                r matches Err(e) && crate::adapter::manager::is_ambiguous(e, component, list)
            }
        };
    if list.len() > 0 {
        assert(list.contains(list[0]));
    }
    if list.len() > 1 {
        assert(list.contains(list[1]));
        assert(crate::order::text_lt(list[0], list[1]));
        crate::order::lemma_text_order();
        let lt = |x: Seq<char>, y: Seq<char>| crate::order::text_lt(x, y);
        assert(!lt(list[0], list[0]));
    }
    if declares(adapters, one) {
        assert(list.contains(one));
    }
}

/// The declared plugin id is that of the first adapter for the framework, without
/// the white space around it; a blank one is none.
pub proof fn law_declared_plugin_id(adapters: Seq<AdapterSpec>, framework: Seq<char>, i: int)
    requires
        0 <= i < adapters.len(),
        is_for(adapters[i], framework),
        forall|k: int| 0 <= k < i ==> !is_for(#[trigger] adapters[k], framework),
    ensures
        declared_id(adapters, framework) == if adapters[i].plugin_id is Some && trim(
            adapters[i].plugin_id->0@,
        ).len() > 0 {
            Some(trim(adapters[i].plugin_id->0@))
        } else {
            None
        },
{
    lemma_adapter_at(adapters, framework, i);
}

proof fn lemma_adapter_at(adapters: Seq<AdapterSpec>, framework: Seq<char>, i: int)
    requires
        0 <= i < adapters.len(),
        is_for(adapters[i], framework),
        forall|k: int| 0 <= k < i ==> !is_for(#[trigger] adapters[k], framework),
    ensures
        crate::adapter::manager::adapter_at(adapters, framework) == Some(i),
    decreases i,
{
    if i > 0 {
        assert(!is_for(adapters[0], framework));
        let rest = adapters.skip(1);
        assert forall|k: int| 0 <= k < i - 1 implies !is_for(#[trigger] rest[k], framework) by {
            assert(rest[k] == adapters[k + 1]);
        }
        assert(rest[i - 1] == adapters[i]);
        lemma_adapter_at(rest, framework, i - 1);
    }
}

/// An adapter that is declared for no framework has no plugin id there.
pub proof fn law_undeclared_has_no_plugin_id(adapters: Seq<AdapterSpec>, framework: Seq<char>)
    requires
        forall|k: int| 0 <= k < adapters.len() ==> !is_for(#[trigger] adapters[k], framework),
    ensures
        declared_id(adapters, framework) is None,
    decreases adapters.len(),
{
    if adapters.len() > 0 {
        assert(!is_for(adapters[0], framework));
        let rest = adapters.skip(1);
        assert forall|k: int| 0 <= k < rest.len() implies !is_for(#[trigger] rest[k], framework) by {
            assert(rest[k] == adapters[k + 1]);
        }
        law_undeclared_has_no_plugin_id(rest, framework);
        assert(crate::adapter::manager::adapter_at(rest, framework) is None) by {
            lemma_no_adapter_at(rest, framework);
        }
    }
}

proof fn lemma_no_adapter_at(adapters: Seq<AdapterSpec>, framework: Seq<char>)
    requires
        forall|k: int| 0 <= k < adapters.len() ==> !is_for(#[trigger] adapters[k], framework),
    ensures
        crate::adapter::manager::adapter_at(adapters, framework) is None,
    decreases adapters.len(),
{
    if adapters.len() > 0 {
        assert(!is_for(adapters[0], framework));
        let rest = adapters.skip(1);
        assert forall|k: int| 0 <= k < rest.len() implies !is_for(#[trigger] rest[k], framework) by {
            assert(rest[k] == adapters[k + 1]);
        }
        lemma_no_adapter_at(rest, framework);
    }
}

/// Where records, manifests and resources are below a directory.
pub proof fn law_where_things_are(dir: Seq<char>, component: Seq<char>, framework: Seq<char>)
    requires
        dir.len() > 0 && dir.last() != '/',
        component.len() > 0 && component[0] != '/' && component.last() != '/',
        framework.len() > 0 && framework[0] != '/',
    ensures
        record_path(dir) == dir + "/installed.toml"@,
        installed_manifest_path(dir, component) == dir + "/component-manifests/"@ + component
            + "/component.toml"@,
        resource_dir(dir, component, framework) == dir + "/adapters/"@ + component + "/"@
            + framework,
        plugin_manifest_path(dir) == dir + "/openclaw.plugin.json"@,
{
    reveal_strlit("/installed.toml");
    reveal_strlit("installed.toml");
    reveal_strlit("/component-manifests/");
    reveal_strlit("component-manifests");
    reveal_strlit("/component.toml");
    reveal_strlit("component.toml");
    reveal_strlit("/adapters/");
    reveal_strlit("adapters");
    reveal_strlit("/");
    reveal_strlit("/openclaw.plugin.json");
    reveal_strlit("openclaw.plugin.json");
    assert(record_path(dir) =~= dir + "/installed.toml"@);
    assert(plugin_manifest_path(dir) =~= dir + "/openclaw.plugin.json"@);
    let one = dir.push('/') + "component-manifests"@;
    assert(one.last() == "component-manifests"@.last());
    let two = one.push('/') + component;
    assert(two.last() == component.last());
    assert(installed_manifest_path(dir, component) == two.push('/') + "component.toml"@);
    assert(two.push('/') + "component.toml"@ =~= dir + "/component-manifests/"@ + component
        + "/component.toml"@);
    let three = dir.push('/') + "adapters"@;
    assert(three.last() == "adapters"@.last());
    let four = three.push('/') + component;
    assert(four.last() == component.last());
    assert(resource_dir(dir, component, framework) == four.push('/') + framework);
    assert(four.push('/') + framework =~= dir + "/adapters/"@ + component + "/"@ + framework);
}

/// A step of a search names the directory that it is about.
pub proof fn law_step_names_its_directory(step: SearchStep, v: SearchView, roots: Seq<Seq<char>>)
    requires
        step.is_step(v, roots),
    ensures
        step matches SearchStep::Found { at, state_dir } ==> v == SearchView::Found(at as int)
            && state_dir@ == roots[at as int],
        step matches SearchStep::Load { at, path } ==> v == SearchView::Load(at as int) && path@
            == record_path(roots[at as int]),
        step is NotInstalled <==> v is NotInstalled,
{
}

/// One more directory comes behind those that are there.
pub proof fn law_more_roots_come_behind(roots: Seq<Seq<char>>, root: Seq<char>)
    ensures
        roots.is_prefix_of(with_root(roots, root)),
        with_root(roots, root).len() <= roots.len() + 1,
{
    let all = with_root(roots, root);
    assert(roots =~= all.subrange(0, roots.len() as int));
}

// ---------------------------------------------------------------------------
// OpenClaw
// ---------------------------------------------------------------------------

/// The program is the one that is asked for, else `openclaw`; its home is the one
/// that is asked for, however many slashes it ends with, else `.openclaw` in the
/// home of the user.
pub proof fn law_program_and_home(
    name: Option<String>,
    home: Option<String>,
    path: Seq<char>,
    slashes: nat,
    user: Option<String>,
)
    ensures
        name is Some && name->0@.len() > 0 ==> bin_name(name) == name->0@,
        name is None || name->0@.len() == 0 ==> bin_name(name) == "openclaw"@,
        home is Some && path.len() > 0 && path.last() != '/' && home->0@ == path + Seq::new(
            slashes,
            |i: int| '/',
        ) ==> home_of(home, user) == Some(path),
        (home is None || home->0@ == Seq::new(slashes, |i: int| '/')) && user is None ==> home_of(
            home,
            user,
        ) is None,
        (home is None || home->0@ == Seq::new(slashes, |i: int| '/')) && user is Some && user->0@.len()
            > 0 && user->0@.last() != '/' ==> home_of(home, user) == Some(
            user->0@ + "/.openclaw"@,
        ),
{
    reveal_strlit("/.openclaw");
    reveal_strlit(".openclaw");
    law_strip_takes_a_run_off(slashes, path, '/');
    law_strip_takes_a_run_off(slashes, Seq::empty(), '/');
    assert(Seq::<char>::empty() + Seq::new(slashes, |i: int| '/') =~= Seq::new(
        slashes,
        |i: int| '/',
    ));
    if user is Some && user->0@.len() > 0 && user->0@.last() != '/' {
        assert(user->0@.push('/') + ".openclaw"@ =~= user->0@ + "/.openclaw"@);
    }
}

/// A call runs the program with the arguments, in the home of OpenClaw and nowhere
/// else, with a minute to end in, and finds programs of the user first.
pub proof fn law_what_a_call_runs(
    cmd: FrameworkCommand,
    program: Seq<char>,
    args: Seq<Seq<char>>,
    home: Seq<char>,
    user: Option<String>,
)
    requires
        cmd.calls_openclaw(program, args, home, user),
    ensures
        cmd.program@ == program,
        texts(cmd.args@) == args,
        cmd.env_set@.len() == 1,
        cmd.env_set@[0].0@ == "OPENCLAW_STATE_DIR"@ && cmd.env_set@[0].1@ == home,
        cmd.env_remove@.len() == 1 && cmd.env_remove@[0]@ == "OPENCLAW_HOME"@,
        cmd.timeout_ms == 60000,
        texts(cmd.path_prepend@).last() == "/usr/local/bin"@,
        user is None ==> cmd.path_prepend@.len() == 2,
        user is Some ==> cmd.path_prepend@.len() == 3,
        user is Some && user->0@.len() > 0 && user->0@.last() != '/' ==> cmd.path_prepend@[0]@
            == user->0@ + "/.local/bin"@,
        home.len() > 0 && home.last() != '/' ==> cmd.path_prepend@[cmd.path_prepend@.len() - 2]@
            == home + "/bin"@,
{
    reveal_strlit("/.local/bin");
    reveal_strlit(".local/bin");
    reveal_strlit("/bin");
    reveal_strlit("bin");
    let gone = texts(cmd.env_remove@);
    assert(gone.len() == cmd.env_remove@.len());
    assert(gone[0] == cmd.env_remove@[0]@);
    let dirs = texts(cmd.path_prepend@);
    assert(dirs.len() == cmd.path_prepend@.len());
    assert(dirs[0] == cmd.path_prepend@[0]@);
    assert(dirs[dirs.len() - 2] == cmd.path_prepend@[dirs.len() - 2]@);
    assert(home.len() > 0 && home.last() != '/' ==> home.push('/') + "bin"@ =~= home + "/bin"@);
    if user is Some {
        let u = user->0@;
        assert(u.len() > 0 && u.last() != '/' ==> u.push('/') + ".local/bin"@ =~= u
            + "/.local/bin"@);
    }
}

/// Installing, uninstalling and listing are told apart by the second argument; what
/// is installed is a directory, what is uninstalled a plugin id.
pub proof fn law_arguments_of_calls(root: Seq<char>, id: Seq<char>)
    ensures
        install_args(root) == seq![
            "plugins"@,
            "install"@,
            root,
            "--force"@,
            "--dangerously-force-unsafe-install"@,
        ],
        uninstall_args(id) == seq!["plugins"@, "uninstall"@, id, "--force"@],
        list_args() == seq!["plugins"@, "list"@],
        install_args(root)[1] != uninstall_args(id)[1],
{
    reveal_strlit("install");
    reveal_strlit("uninstall");
    assert("install"@.len() == 7 && "uninstall"@.len() == 9);
}

/// OpenClaw is there exactly when its program is; what is said of it names where it
/// was found, or that only its home was.
pub proof fn law_when_openclaw_is_there(env: OpenClawEnv, probe: OpenClawProbe)
    ensures
        openclaw_detection(env, probe).0 <==> probe.cli_at is Some,
        probe.cli_at is Some ==> openclaw_detection(env, probe).1 == "openclaw CLI found at "@
            + probe.cli_at->0@,
        probe.cli_at is None && env.home() is Some && probe.home_exists ==> openclaw_detection(
            env,
            probe,
        ).1 == "openclaw CLI not found on PATH"@ + (" (home "@ + env.home()->0
            + " exists but CLI is not on PATH)"@),
        probe.cli_at is None && !(env.home() is Some && probe.home_exists) ==> openclaw_detection(
            env,
            probe,
        ).1 == "openclaw CLI not found on PATH"@,
{
    assert("openclaw CLI not found on PATH"@ + Seq::<char>::empty()
        =~= "openclaw CLI not found on PATH"@);
}

/// A plugin manifest gives its id; one that is missing gives none and is no fault;
/// one that cannot be read, is malformed or has no id is.
pub proof fn law_id_of_a_plugin_manifest(
    r: Result<Option<String>, AdapterError>,
    root: Seq<char>,
    read: PluginManifestRead,
)
    requires
        manifest_id_result(r, root, read),
    ensures
        r is Ok <==> read is Missing || (read is Parsed && read->Parsed_id is Some
            && read->Parsed_id->0@.len() > 0),
        read is Missing ==> r->Ok_0 is None,
        read is Parsed && r is Ok ==> r->Ok_0 == read->Parsed_id,
        r is Err && read is Failed ==> r->Err_0 is Io,
        r is Err && read !is Failed ==> r->Err_0 is BundleInvalid,
{
}

/// The declared plugin id comes before that of the plugin manifest, and that before
/// the name of the component.
pub proof fn law_plugin_id_of_a_bundle(
    declared: Option<String>,
    read: PluginManifestRead,
    component: Seq<char>,
)
    ensures
        declared is Some ==> bundle_plugin_id(declared, read, component) == declared->0@,
        declared is None && read is Parsed && read->Parsed_id is Some ==> bundle_plugin_id(
            declared,
            read,
            component,
        ) == read->Parsed_id->0@,
        declared is None && read is Missing ==> bundle_plugin_id(declared, read, component)
            == component,
{
}

/// Resources are read exactly when they are a directory with something in it whose
/// plugin manifest, if there is one, is in order; they are handed on as they are.
pub proof fn law_which_resources_are_read(
    r: Result<AdapterBundle, AdapterError>,
    ctx: DriverCtx,
    facts: BundleFacts,
)
    requires
        bundle_result(r, ctx, facts),
    ensures
        r is Ok <==> facts.look is Filled && (facts.plugin_manifest is Missing
            || (facts.plugin_manifest is Parsed && facts.plugin_manifest->Parsed_id is Some
            && facts.plugin_manifest->Parsed_id->0@.len() > 0)),
        r matches Ok(bundle) ==> {
            &&& bundle.resource_root@ == ctx.resource_root@
            &&& bundle.digest == facts.digest
            &&& bundle.plugin_id is Some
            &&& bundle.plugin_id->0@ == bundle_plugin_id(
                ctx.declared_plugin_id,
                facts.plugin_manifest,
                ctx.component@,
            )
        },
        facts.look is Failed ==> r->Err_0 is Io,
        facts.look is NotADirectory || facts.look is Empty ==> r->Err_0 is BundleInvalid,
{
}

/// An adapter is enabled exactly when it has a plugin id that is taken and OpenClaw
/// has a home; otherwise it is said which of these is missing.
pub proof fn law_what_can_be_enabled(
    e: AdapterError,
    id: Option<Seq<char>>,
    root: Seq<char>,
    env: OpenClawEnv,
    no_id: Seq<char>,
)
    ensures
        enableable(id, env) <==> id is Some && plugin_id_fault(id->0) is None && env.home() is Some,
        enable_fault(e, id, root, env, no_id) && id is None ==> e is BundleInvalid && e.text()
            == "invalid adapter resources at "@ + root + ": "@ + no_id,
        enable_fault(e, id, root, env, no_id) && id is Some && plugin_id_fault(id->0) is Some
            ==> e is ClaimValidation && e.text() == "invalid plugin id '"@ + id->0 + "': "@
            + plugin_id_fault(id->0)->0,
        enable_fault(e, id, root, env, no_id) && id is Some && plugin_id_fault(id->0) is None
            ==> e is FrameworkCli && env.home() is None,
        no_bundle_id() != no_receipt_id(),
{
    reveal_strlit("no plugin id declared in manifest and none discoverable");
    reveal_strlit("openclaw receipt has no plugin id");
    assert(no_bundle_id().len() != no_receipt_id().len());
}

/// A plan says which plugin of which directory is registered for which component,
/// and by which command.
pub proof fn law_plan_of_an_adapter(plan: DriverPlan, bundle: AdapterBundle, ctx: DriverCtx)
    requires
        plan.plans(bundle, ctx),
        bundle.plugin_id is Some,
        ctx.env.home() is Some,
    ensures
        plan.framework@ == "openclaw"@,
        plan.component@ == ctx.component@,
        plan.actions@.len() == 1,
        plan.actions@[0]@ == "register openclaw plugin '"@ + bundle.plugin_id->0@ + "' from "@
            + bundle.resource_root@,
        plan.register_command is Some,
        plan.register_command->0@ == "OPENCLAW_STATE_DIR"@ + "="@ + ctx.env.home()->0 + " "@
            + ctx.env.bin() + " plugins install "@ + bundle.resource_root@
            + " --force --dangerously-force-unsafe-install"@,
{
    let shown = texts(plan.actions@);
    assert(shown.len() == plan.actions@.len());
    assert(shown[0] == plan.actions@[0]@);
    let root = bundle.resource_root@;
    lemma_shown_install(root);
    let head = "OPENCLAW_STATE_DIR"@ + "="@ + ctx.env.home()->0 + " "@ + ctx.env.bin();
    assert(head + (" plugins install "@ + root + " --force --dangerously-force-unsafe-install"@)
        =~= head + " plugins install "@ + root + " --force --dangerously-force-unsafe-install"@);
}

proof fn lemma_shown_install(root: Seq<char>)
    ensures
        shown_args(install_args(root)) == " plugins install "@ + root
            + " --force --dangerously-force-unsafe-install"@,
{
    reveal_strlit(" plugins install ");
    reveal_strlit(" --force --dangerously-force-unsafe-install");
    reveal_strlit("plugins");
    reveal_strlit("install");
    reveal_strlit("--force");
    reveal_strlit("--dangerously-force-unsafe-install");
    let a = install_args(root);
    let b = a.drop_last();
    let c = b.drop_last();
    let d = c.drop_last();
    let e = d.drop_last();
    assert(e.drop_last().len() == 0);
    assert(shown_args(e.drop_last()) =~= Seq::<char>::empty());
    assert(a.last() == "--dangerously-force-unsafe-install"@ && b.last() == "--force"@ && c.last()
        == root && d.last() == "install"@ && e.last() == "plugins"@);
    assert(shown_args(e) == Seq::<char>::empty().push(' ') + "plugins"@);
    assert(shown_args(d) == shown_args(e).push(' ') + "install"@);
    assert(shown_args(c) == shown_args(d).push(' ') + root);
    assert(shown_args(b) == shown_args(c).push(' ') + "--force"@);
    assert(shown_args(a) == shown_args(b).push(' ') + "--dangerously-force-unsafe-install"@);
    assert(shown_args(c) =~= " plugins install "@ + root);
    assert(shown_args(a) =~= " plugins install "@ + root
        + " --force --dangerously-force-unsafe-install"@);
}

/// The receipt of an adapter says what was enabled where: component, plugin, home
/// and resources with their digest, and when.
pub proof fn law_what_a_receipt_says(bundle: AdapterBundle, ctx: DriverCtx, now: Seq<char>)
    requires
        bundle.plugin_id is Some,
        ctx.env.home() is Some,
    ensures
        ({
            let c = receipt(bundle, ctx, now);
            &&& c.component == ctx.component@
            &&& c.framework == "openclaw"@
            &&& c.plugin_id == Some(bundle.plugin_id->0@)
            &&& c.enabled_at == now
            &&& c.resource_root == bundle.resource_root@
            &&& c.bundle_digest == opt_text(bundle.digest)
            &&& c.status == ClaimStatus::Enabled
            &&& c.claim_schema == 1 && c.driver_schema == 1
            &&& c.resources.len() == 2
            &&& c.resources[0].kind == ResourceKindView::ExternalPath(ctx.env.home()->0)
            &&& c.resources[0].id == c.state_dir_resource
            &&& c.resources[1].kind == ResourceKindView::FrameworkPlugin(
                "openclaw"@,
                bundle.plugin_id->0@,
            )
            &&& c.resources[1].id == c.plugin_resource
            &&& c.resources[1].id == "openclaw_plugin"@
            &&& c.resources[0].id == "openclaw_state_dir"@
        }),
{
}

/// The plugin that a receipt stands for is the first among its resources; only a
/// receipt without such a resource stands for the id at its top.
pub proof fn law_plugin_of_a_receipt(claim: ClaimView, i: int)
    ensures
        (forall|k: int|
            0 <= k < claim.resources.len() ==> (
            #[trigger] claim.resources[k]).kind !is FrameworkPlugin) ==> claimed_id(claim)
            == claim.plugin_id,
        0 <= i < claim.resources.len() && claim.resources[i].kind is FrameworkPlugin && (forall|
            k: int,
        |
            0 <= k < i ==> (#[trigger] claim.resources[k]).kind !is FrameworkPlugin) ==> claimed_id(
            claim,
        ) == Some(claim.resources[i].kind->FrameworkPlugin_1),
{
    lemma_first_plugin(claim.resources, i);
}

proof fn lemma_first_plugin(resources: Seq<ResourceView>, i: int)
    ensures
        (forall|k: int|
            0 <= k < resources.len() ==> (#[trigger] resources[k]).kind !is FrameworkPlugin)
            ==> first_plugin(resources) is None,
        0 <= i < resources.len() && resources[i].kind is FrameworkPlugin && (forall|k: int|
            0 <= k < i ==> (#[trigger] resources[k]).kind !is FrameworkPlugin) ==> first_plugin(
            resources,
        ) == Some(resources[i].kind->FrameworkPlugin_1),
    decreases resources.len(),
{
    if resources.len() > 0 && resources[0].kind !is FrameworkPlugin {
        let rest = resources.skip(1);
        lemma_first_plugin(rest, i - 1);
        assert(forall|k: int| 0 <= k < rest.len() ==> rest[k] == resources[k + 1]);
    }
}

/// A failed call is explained by its time limit where it ran out of it, else by its
/// exit code and what it wrote, if anything.
pub proof fn law_why_a_call_failed(verb: Seq<char>, output: CliOutput)
    ensures
        output.timed_out ==> failure_text(verb, output) == "'"@ + verb + "' timed out"@,
        !output.timed_out && output.status is Some && trim(output.stderr@).len() == 0
            ==> failure_text(verb, output) == "'"@ + verb + "' exited with "@ + decimal_int(
            output.status->0 as int,
        ),
        !output.timed_out && output.status is Some && trim(output.stderr@).len() > 0
            ==> failure_text(verb, output) == "'"@ + verb + "' exited with "@ + decimal_int(
            output.status->0 as int,
        ) + ": "@ + trim(output.stderr@),
        !output.timed_out && output.status is None && trim(output.stderr@).len() == 0
            ==> failure_text(verb, output) == "'"@ + verb + "' exited with "@ + "killed"@,
        output.succeeded() <==> !output.timed_out && output.status is Some && output.status->0 == 0,
{
}

/// How the overall state of an adapter follows from its receipt, the program and
/// the registration.
pub proof fn law_overall_state(status: ClaimStatus, detected: bool, registered: ConditionStatus)
    ensures
        status == ClaimStatus::CleanupFailed ==> overall(status, detected, registered)
            == AdapterSummary::CleanupFailed,
        status == ClaimStatus::Enabled && !detected ==> overall(status, detected, registered)
            == AdapterSummary::Degraded,
        status == ClaimStatus::Enabled && detected && registered == ConditionStatus::True
            ==> overall(status, detected, registered) == AdapterSummary::Healthy,
        status == ClaimStatus::Enabled && detected && registered == ConditionStatus::False
            ==> overall(status, detected, registered) == AdapterSummary::Degraded,
        status == ClaimStatus::Enabled && detected && registered == ConditionStatus::Unknown
            ==> overall(status, detected, registered) == AdapterSummary::Unknown,
{
}

/// Resources match exactly when both digests are known and equal, do not exactly
/// when both are known and differ, and nothing is known where one is missing.
pub proof fn law_when_resources_match(recorded: Option<Seq<char>>, current: Option<Seq<char>>)
    ensures
        bundle_condition(recorded, current).kind == AdapterConditionKind::ResourceBundleMatches,
        bundle_condition(recorded, current).status == ConditionStatus::True <==> recorded is Some
            && current is Some && recorded->0 == current->0,
        bundle_condition(recorded, current).status == ConditionStatus::False <==> recorded is Some
            && current is Some && recorded->0 != current->0,
        bundle_condition(recorded, current).status == ConditionStatus::Unknown <==> recorded is None
            || current is None,
        bundle_condition(recorded, current).reason is None <==> bundle_condition(
            recorded,
            current,
        ).status == ConditionStatus::True,
{
}

/// A plugin is registered exactly when the program is there, the receipt names a
/// plugin, OpenClaw has a home and a listing that succeeded holds the plugin; it is
/// not registered exactly when all that holds and the listing lacks it. Otherwise
/// nothing is known. It could be verified where a listing succeeded, or nothing
/// was to be looked up.
pub proof fn law_when_a_plugin_is_registered(
    claim: ClaimView,
    env: OpenClawEnv,
    probe: OpenClawProbe,
    listing: PluginListing,
)
    ensures
        ({
            let id = claimed_id(claim);
            let asked = probe.cli_at is Some && id is Some && env.home() is Some;
            let listed = listing is Ran && listing->Ran_0.succeeded();
            let (registered, _, on_plugin, verified, _) = registration(claim, env, probe, listing);
            &&& needs_listing(claim, env, probe) <==> asked
            &&& registered == ConditionStatus::True <==> asked && listed && has_word(
                listing->Ran_0.stdout@,
                id->0,
            )
            &&& registered == ConditionStatus::False <==> asked && listed && !has_word(
                listing->Ran_0.stdout@,
                id->0,
            )
            &&& on_plugin <==> id is Some
            &&& verified != ConditionStatus::Unknown
            &&& verified == ConditionStatus::True <==> (asked && listed) || (probe.cli_at is Some
                && id is None)
        }),
{
}

/// The report on an adapter has its four conditions in order, each with its own
/// status.
pub proof fn law_report_on_an_adapter(
    claim: ClaimView,
    env: OpenClawEnv,
    probe: OpenClawProbe,
    digest: Option<Seq<char>>,
    listing: PluginListing,
)
    ensures
        ({
            let report = adapter_status(claim, env, probe, digest, listing);
            let (registered, why, on_plugin, verified, why_not) = registration(
                claim,
                env,
                probe,
                listing,
            );
            &&& report.conditions.len() == 4
            &&& report.conditions[0].kind == AdapterConditionKind::FrameworkDetected
            &&& report.conditions[0].status == ConditionStatus::True <==> probe.cli_at is Some
            &&& report.conditions[0].status == ConditionStatus::False <==> probe.cli_at is None
            &&& report.conditions[1] == bundle_condition(claim.bundle_digest, digest)
            &&& report.conditions[2].kind == AdapterConditionKind::PluginRegistered
            &&& report.conditions[2].status == registered
            &&& report.conditions[2].reason == why
            &&& report.conditions[2].resource is Some <==> on_plugin
            &&& on_plugin ==> report.conditions[2].resource == Some("openclaw_plugin"@)
            &&& report.conditions[3].kind == AdapterConditionKind::VerificationSupported
            &&& report.conditions[3].status == verified
            &&& report.conditions[3].reason == why_not
            &&& report.summary == overall(claim.status, probe.cli_at is Some, registered)
        }),
{
}

/// Disabling runs the uninstall of the plugin that the receipt stands for exactly
/// when that plugin id is taken, the program is there and OpenClaw has a home. A
/// receipt without a plugin is done at once; without the program nothing is cleaned
/// up and the receipt stays.
pub proof fn law_what_disabling_does(
    r: Result<DisableStep, AdapterError>,
    claim: ClaimView,
    env: OpenClawEnv,
    cli_at: Option<String>,
)
    requires
        disable_step(r, claim, env, cli_at),
    ensures
        ({
            let id = claimed_id(claim);
            let taken = id is Some && plugin_id_fault(id->0) is None;
            &&& r is Ok && r->Ok_0 is Run <==> taken && cli_at is Some && env.home() is Some
            &&& r is Ok && r->Ok_0 is Run ==> {
                &&& r->Ok_0->Run_plugin_id@ == id->0
                &&& r->Ok_0->Run_command.program@ == env.bin()
                &&& texts(r->Ok_0->Run_command.args@) == seq![
                    "plugins"@,
                    "uninstall"@,
                    id->0,
                    "--force"@,
                ]
                &&& r->Ok_0->Run_command.env_set@[0].1@ == env.home()->0
            }
            &&& id is None ==> r is Ok && r->Ok_0 is Done && r->Ok_0->Done_0@.cleanup_complete
            &&& taken && cli_at is None ==> r is Ok && r->Ok_0 is Done
                && !r->Ok_0->Done_0@.cleanup_complete
            &&& id is Some && !taken ==> r is Err && r->Err_0 is ClaimValidation
            &&& taken && cli_at is Some && env.home() is None ==> r is Err
                && r->Err_0 is FrameworkCli
        }),
{
}

/// The record of a call says how it ended and what was run.
pub proof fn law_record_of_a_call(
    origin: LogOrigin,
    cmd: FrameworkCommand,
    output: CliOutput,
    now: Seq<char>,
)
    ensures
        ({
            let v = call_view(origin, cmd, output, now);
            &&& v.status == Some(LogStatus::Done) <==> output.succeeded()
            &&& v.status == Some(LogStatus::Failed) <==> !output.succeeded()
            &&& v.severity == if output.succeeded() {
                Severity::Debug
            } else {
                Severity::Warn
            }
            &&& v.message == "framework cli: "@ + shown_argv(cmd)
            &&& v.command == origin.command@
            &&& v.component == Some(origin.component@)
            &&& v.started_at == now && v.finished_at == Some(now)
        }),
        shown_argv(cmd) == join(seq![cmd.program@] + texts(cmd.args@), " "@),
{
}

/// What is said of each fault that is not about a path or a call.
pub proof fn law_errors_name_component_and_framework(e: AdapterError)
    ensures
        e matches AdapterError::UnknownPlaceholder { placeholder, template } ==> e.text()
            == "unknown placeholder '"@ + placeholder@ + "' in template \""@ + template@ + "\""@,
        e matches AdapterError::ComponentNotInstalled { component } ==> e.text() == "component '"@
            + component@ + "' is not installed"@,
        e matches AdapterError::AdapterNotDeclared { component, framework } ==> e.text()
            == "component '"@ + component@ + "' declares no adapter for framework '"@ + framework@
            + "'"@,
        e matches AdapterError::AdapterManifest { component, path, reason } ==> e.text()
            == "manifest of component '"@ + component@ + "' at "@ + path@ + ": "@ + reason@,
        e matches AdapterError::AmbiguousFramework { component, frameworks } ==> e.text()
            == "component '"@ + component@ + "' has more than one framework: "@ + join(
            texts(frameworks@),
            ", "@,
        ),
        e matches AdapterError::ResourceRootNotFound { component, framework } ==> e.text()
            == "no resources for '"@ + component@ + "/"@ + framework@ + "'"@,
        e matches AdapterError::Lock(why) ==> e.text() == "install lock: "@ + why@,
        e matches AdapterError::State(why) ==> e.text() == "installed state: "@ + why@,
        e matches AdapterError::ClaimValidation(
            ClaimValidationError::OwnedPath { id, source },
        ) ==> e.text() == "owned-path resource '"@ + id@ + "' failed boundary check: "@
            + source.reason@,
        e matches AdapterError::ClaimValidation(
            ClaimValidationError::ExternalPath {
                id,
                source: ExternalPathError::OutsideAllowedRoots { path },
            },
        ) ==> e.text() == "external-path resource '"@ + id@ + "' failed boundary check: "@ + (
        "path '"@ + path@ + "' is not under any allowed external root for this driver"@),
{
}

/// Why a plugin id is refused is said of its first fault.
pub proof fn law_why_a_plugin_id_is_refused(id: Seq<char>, k: int)
    ensures
        id.len() == 0 ==> plugin_id_fault(id) == Some("must not be empty"@),
        id == seq!['.'] || id == seq!['.', '.'] ==> plugin_id_fault(id) == Some(
            "must not be '.' or '..'"@,
        ),
        id.len() > 0 && id[0] == '-' ==> plugin_id_fault(id) == Some(
            "must not start with '-' (would be parsed as a flag)"@,
        ),
        0 <= k < id.len() && id[0] != '-' && !crate::adapter::claim::plugin_char(id[k]) && (forall|
            j: int,
        |
            0 <= j < k ==> crate::adapter::claim::plugin_char(#[trigger] id[j]))
            ==> plugin_id_fault(id) == Some(
            "contains disallowed character '"@ + seq![id[k]] + "'"@,
        ),
{
    reveal_strlit(".");
    reveal_strlit("..");
    assert("."@ =~= seq!['.']);
    assert(".."@ =~= seq!['.', '.']);
    lemma_first_bad_at(id, k);
    if 0 <= k < id.len() && (id == "."@ || id == ".."@) {
        assert(id[k] == '.');
    }
}

proof fn lemma_first_bad_at(id: Seq<char>, k: int)
    ensures
        0 <= k < id.len() && !crate::adapter::claim::plugin_char(id[k]) && (forall|j: int|
            0 <= j < k ==> crate::adapter::claim::plugin_char(#[trigger] id[j]))
            ==> crate::adapter::claim::first_bad(id) == Some(id[k]),
    decreases id.len(),
{
    if id.len() > 0 && k > 0 {
        let rest = id.skip(1);
        lemma_first_bad_at(rest, k - 1);
        assert(forall|j: int| 0 <= j < rest.len() ==> rest[j] == id[j + 1]);
    }
}

/// Why nothing is known about a registration, or why a plugin is not registered.
pub proof fn law_why_a_plugin_is_not_registered(
    claim: ClaimView,
    env: OpenClawEnv,
    probe: OpenClawProbe,
    listing: PluginListing,
)
    ensures
        ({
            let id = claimed_id(claim);
            let (registered, why, _, verified, why_not) = registration(claim, env, probe, listing);
            &&& registered == ConditionStatus::True <==> why is None
            &&& verified == ConditionStatus::True <==> why_not is None
            &&& probe.cli_at is None ==> why == Some("framework not detected; cannot verify"@)
                && why_not == Some("openclaw CLI unavailable"@)
            &&& probe.cli_at is Some && id is None ==> why == Some("receipt has no plugin id"@)
            &&& probe.cli_at is Some && id is Some && env.home() is None ==> why == Some(
                "cannot resolve openclaw home"@,
            ) && why_not == Some("openclaw home unresolved"@)
            &&& registered == ConditionStatus::False ==> why == Some(
                "plugin not present in `plugins list`"@,
            )
            &&& probe.cli_at is Some && id is Some && env.home() is Some && registered
                == ConditionStatus::Unknown ==> why == Some(
                "`plugins list` did not return a usable result"@,
            ) && why_not == Some("`plugins list` unavailable"@)
        }),
{
}

} // verus!
