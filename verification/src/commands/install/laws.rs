//! What an installation keeps of its request, its manifest and its artifact.

use crate::adapter::expanded;
use crate::commands::install::render::{
    plan_lines, plan_shown, result_lines, InstallPlanPayload, InstallResultPayload, Shown, Style,
};
use crate::commands::install::run::{
    copied_result, end_result, is_operation, is_recorded, is_save, loaded_result, logs,
    next_result, operation_name, records, result_shown, InstallCopy, InstallEnd,
    InstallLocked, InstallNext, InstallSave, InstalledFile,
};
use crate::commands::install::{
    artifact_url, backend_conflict, backend_of, base_url_warnings, check_result, choice_result,
    compatibility, config_fault, index_result, is_address, known_path, placed_result, placement, placements, referent_of, ArtifactAddress,
    FileSafety, IndexReply, InstallAddressed, InstallArgs, InstallChosen, InstallEntry,
    InstallLocated, InstallQuery, PlacedFile, ResolvedInstall,
};
use crate::central_log::{LogKind, LogStatus, Severity};
use crate::context::{CliContext, InstallMode};
use crate::distribution::{ArtifactType, DistributionEntry};
use crate::env::EnvFacts;
use crate::layout::FsLayout;
use crate::manifest::{ComponentManifest, FileKind, InstallFileSpec};
use crate::response::CliError;
use crate::state::{
    capabilities, lemma_object_at, names_of, object_at, without_capabilities, FileOwner,
    InstalledObject, InstalledState, ObjectKind, OperationRecord,
};
use crate::text::laws::law_strip_takes_a_run_off;
use crate::text::{contains_text, decimal, join, opt_text, texts};
use vstd::prelude::*;

verus! {

// ---------------------------------------------------------------------------
// Files
// ---------------------------------------------------------------------------

/// What a template of a component stands for.
pub open spec fn stands_for(
    template: String,
    layout: FsLayout,
    component: Seq<char>,
) -> Result<Seq<char>, Seq<char>> {
    expanded(template@, layout, seq![("component"@, component)])
}

/// Whether a file can be placed: it names somewhere to go, all placeholders are
/// known, and where it goes is safe; for a symbolic link also what it refers to.
pub open spec fn can_be_placed(
    spec: InstallFileSpec,
    layout: FsLayout,
    component: Seq<char>,
    safety: FileSafety,
) -> bool {
    &&& spec.dest is Some || spec.source is Some
    &&& spec.dest is Some ==> stands_for(spec.dest->0, layout, component) is Ok
    &&& spec.dest is None ==> stands_for(spec.source->0, layout, component) is Ok
    &&& safety.dest is None
    &&& spec.kind == FileKind::Symlink && spec.source is Some ==> stands_for(
        spec.source->0,
        layout,
        component,
    ) is Ok && safety.referent is None
}

/// Whether a placed file is that of a manifest entry: it goes to the destination
/// of the entry, else to its source, with the mode and the role of the entry. A
/// symbolic link refers to what its source stands for; any other file keeps its
/// source, the path inside the artifact, as it is written.
pub open spec fn places(
    file: PlacedFile,
    spec: InstallFileSpec,
    layout: FsLayout,
    component: Seq<char>,
) -> bool {
    &&& file.kind == spec.kind
    &&& file.mode == opt_text(spec.mode)
    &&& spec.dest is Some ==> Ok::<Seq<char>, Seq<char>>(file.dest) == stands_for(
        spec.dest->0,
        layout,
        component,
    )
    &&& spec.dest is None ==> Ok::<Seq<char>, Seq<char>>(file.dest) == stands_for(
        spec.source->0,
        layout,
        component,
    )
    &&& spec.source is None ==> file.source is None
    &&& spec.source is Some && spec.kind != FileKind::Symlink ==> file.source == Some(
        spec.source->0@,
    )
    &&& spec.source is Some && spec.kind == FileKind::Symlink ==> file.source is Some && Ok::<
        Seq<char>,
        Seq<char>,
    >(file.source->0) == stands_for(spec.source->0, layout, component)
}

proof fn lemma_placement(
    spec: InstallFileSpec,
    layout: FsLayout,
    component: Seq<char>,
    safety: FileSafety,
)
    ensures
        placement(spec, layout, component, safety) is Ok <==> can_be_placed(
            spec,
            layout,
            component,
            safety,
        ),
        placement(spec, layout, component, safety) is Ok ==> places(
            placement(spec, layout, component, safety)->Ok_0,
            spec,
            layout,
            component,
        ),
{
}

/// The files of a manifest are placed exactly when each can be, and then each has
/// its place, in order, with nothing of its entry lost.
pub proof fn law_every_file_has_its_place(
    specs: Seq<InstallFileSpec>,
    layout: FsLayout,
    component: Seq<char>,
    safety: Seq<FileSafety>,
    n: int,
)
    requires
        0 <= n <= specs.len(),
    ensures
        placements(specs, layout, component, safety, n) is Ok <==> forall|k: int|
            0 <= k < n ==> can_be_placed(#[trigger] specs[k], layout, component, safety[k]),
        placements(specs, layout, component, safety, n) matches Ok(files) ==> files.len() == n
            && forall|k: int|
            0 <= k < n ==> places(#[trigger] files[k], specs[k], layout, component),
    decreases n,
{
    if n > 0 {
        law_every_file_has_its_place(specs, layout, component, safety, n - 1);
        lemma_placement(specs[n - 1], layout, component, safety[n - 1]);
        let before = placements(specs, layout, component, safety, n - 1);
        let after = placements(specs, layout, component, safety, n);
        if after is Ok {
            let files = after->Ok_0;
            assert forall|k: int| 0 <= k < n implies places(
                #[trigger] files[k],
                specs[k],
                layout,
                component,
            ) by {
                if k < n - 1 {
                    assert(files[k] == before->Ok_0[k]);
                }
            }
        }
        if forall|k: int|
            0 <= k < n ==> can_be_placed(#[trigger] specs[k], layout, component, safety[k]) {
            assert(can_be_placed(specs[n - 1], layout, component, safety[n - 1]));
        }
        if before is Ok && can_be_placed(specs[n - 1], layout, component, safety[n - 1]) {
            assert forall|k: int| 0 <= k < n implies can_be_placed(
                #[trigger] specs[k],
                layout,
                component,
                safety[k],
            ) by {}
        }
    }
}

/// What goes on from placing the files is what was resolved before: component,
/// package, backend, repository, artifact and digest, the services of the
/// manifest and the files in their places. Without a file there is nothing to
/// install.
pub proof fn law_resolution_keeps_everything(
    r: Result<ResolvedInstall, CliError>,
    a: InstallAddressed,
    layout: FsLayout,
    safety: Seq<FileSafety>,
)
    requires
        placed_result(r, a, layout, safety),
        safety.len() == a.located.chosen.manifest.install.files@.len(),
    ensures
        r is Ok <==> safety.len() > 0 && forall|k: int|
            0 <= k < safety.len() ==> can_be_placed(
                #[trigger] a.located.chosen.manifest.install.files@[k],
                layout,
                a.located.chosen.args.component@,
                safety[k],
            ),
        r matches Ok(x) ==> {
            &&& x.component@ == a.located.chosen.args.component@
            &&& x.package@ == a.located.package@
            &&& x.backend@ == a.located.backend@
            &&& x.base_url@ == a.located.base_url@
            &&& x.entry == a.entry
            &&& x.sha256@ == a.sha256@
            &&& x.artifact_url@ == a.artifact_url@
            &&& x.services@ == a.located.chosen.manifest.install.services@
            &&& x.warnings@ == a.located.warnings@
            &&& x.ctx == a.located.chosen.ctx
            &&& x.files@.len() == safety.len()
            &&& forall|k: int|
                0 <= k < x.files@.len() ==> places(
                    (#[trigger] x.files@[k])@,
                    a.located.chosen.manifest.install.files@[k],
                    layout,
                    a.located.chosen.args.component@,
                )
        },
{
    let specs = a.located.chosen.manifest.install.files@;
    let component = a.located.chosen.args.component@;
    law_every_file_has_its_place(specs, layout, component, safety, safety.len() as int);
    if r is Ok {
        let x = r->Ok_0;
        let files = placements(specs, layout, component, safety, safety.len() as int)->Ok_0;
        assert(crate::commands::install::placed_files(x.files@) == files);
        assert(files.len() == x.files@.len());
        assert forall|k: int| 0 <= k < x.files@.len() implies places(
            (#[trigger] x.files@[k])@,
            specs[k],
            layout,
            component,
        ) by {
            assert(files[k] == x.files@[k]@);
        }
    }
}

// ---------------------------------------------------------------------------
// Choosing
// ---------------------------------------------------------------------------

/// A component goes on exactly when it is in the catalog and its manifest lists
/// the mode of the request, and goes on with the request, the context and the
/// manifest as they are; anything else is the caller's mistake.
pub proof fn law_mode_has_to_be_listed(
    r: Result<InstallChosen, CliError>,
    args: InstallArgs,
    ctx: CliContext,
    manifest: Option<ComponentManifest>,
)
    requires
        choice_result(r, args, ctx, manifest),
    ensures
        r is Ok <==> manifest is Some && {
            ||| ctx.install_mode == InstallMode::User && texts(
                manifest->0.install.modes@,
            ).contains("user"@)
            ||| ctx.install_mode == InstallMode::System && texts(
                manifest->0.install.modes@,
            ).contains("system"@)
        },
        r matches Ok(c) ==> c.args == args && c.ctx == ctx && Some(c.manifest) == manifest,
        r matches Err(e) ==> e is InvalidArgument,
{
}

/// What the caller can mend about the repository is the caller's mistake; the
/// rest is a failure.
pub proof fn law_who_mends_the_repository(e: CliError, shown: Seq<char>, caller_fixable: bool)
    requires
        config_fault(e, shown, caller_fixable),
    ensures
        e is InvalidArgument <==> caller_fixable,
        e is Runtime <==> !caller_fixable,
        caller_fixable ==> e.reason_text() == shown,
        !caller_fixable ==> e.reason_text() == "failed to load repo config: "@ + shown,
{
}

/// A plaintext root that a request gives is warned about, and no other.
pub proof fn law_plaintext_root_is_warned_about(overridden: bool, url: Seq<char>)
    ensures
        base_url_warnings(overridden, url).len() <= 1,
        base_url_warnings(overridden, url).len() == 1 <==> overridden && url.len() >= 7
            && url.take(7) == "http://"@,
{
    reveal_strlit("http://");
    if url.len() >= 7 {
        assert(url.take(7) =~= url.subrange(0, 7));
    }
}

/// The backend of an object is the recorded one; where none is recorded, a source
/// behind `http`, `https` or `file` was fetched raw, and of any other nothing is
/// known.
pub proof fn law_backend_of_an_object(o: InstalledObject)
    ensures
        o.install_backend matches Some(b) ==> backend_of(o) == Some(b@),
        o.install_backend is None && o.distribution_source is None ==> backend_of(o) is None,
        o.install_backend is None && o.distribution_source is Some ==> {
            let s = o.distribution_source->0@;
            let raw = s.len() >= 7 && s.take(7) == "http://"@ || s.len() >= 8 && s.take(8)
                == "https://"@ || s.len() >= 7 && s.take(7) == "file://"@;
            &&& raw ==> backend_of(o) == Some("raw"@)
            &&& !raw ==> backend_of(o) is None
        },
{
    reveal_strlit("http://");
    reveal_strlit("https://");
    reveal_strlit("file://");
    if o.distribution_source is Some {
        let s = o.distribution_source->0@;
        if s.len() >= 7 {
            assert(s.take(7) =~= s.subrange(0, 7));
        }
        if s.len() >= 8 {
            assert(s.take(8) =~= s.subrange(0, 8));
        }
    }
}

/// A backend fits a component that is not installed, and one that was installed
/// through it; nothing else.
pub proof fn law_which_backend_fits(
    objects: Seq<InstalledObject>,
    component: Seq<char>,
    backend: Seq<char>,
    i: int,
)
    ensures
        (forall|k: int|
            0 <= k < objects.len() ==> !((#[trigger] objects[k]).kind == ObjectKind::Component
                && objects[k].name@ == component)) ==> backend_conflict(
            objects,
            component,
            backend,
        ) is None,
        0 <= i < objects.len() && objects[i].kind == ObjectKind::Component && objects[i].name@
            == component && (forall|k: int|
            0 <= k < i ==> !((#[trigger] objects[k]).kind == ObjectKind::Component
                && objects[k].name@ == component)) ==> (backend_conflict(
            objects,
            component,
            backend,
        ) is None <==> backend_of(objects[i]) == Some(backend)),
{
    crate::state::law_first_object_counts(objects, ObjectKind::Component, component);
}

/// A located component goes on as it is; it does so exactly when its record could
/// be read, the backend fits and is `raw`.
pub proof fn law_only_fitting_raw_goes_on(
    r: Result<InstallQuery, CliError>,
    l: InstallLocated,
    installed: Result<InstalledState, CliError>,
)
    requires
        check_result(r, l, installed),
    ensures
        r is Ok <==> installed is Ok && l.backend@ == "raw"@ && backend_conflict(
            installed->Ok_0.objects@,
            l.chosen.args.component@,
            l.backend@,
        ) is None,
        r matches Ok(q) ==> q.located == l,
        installed matches Err(e) ==> r == Result::<InstallQuery, CliError>::Err(e),
{
}

// ---------------------------------------------------------------------------
// The artifact
// ---------------------------------------------------------------------------

/// How each form of artifact is written in an index and how its file is called.
pub proof fn law_forms_of_artifacts(t: ArtifactType)
    ensures
        t == ArtifactType::TarGz ==> t.wire() == "tar_gz"@ && t.ending() == ".tar.gz"@,
        t == ArtifactType::Zip ==> t.wire() == "zip"@ && t.ending() == ".zip"@,
        t == ArtifactType::Rpm ==> t.wire() == "rpm"@ && t.ending() == ".rpm"@,
        t == ArtifactType::Deb ==> t.wire() == "deb"@ && t.ending() == ".deb"@,
        t == ArtifactType::Binary ==> t.wire() == "binary"@ && t.ending().len() == 0,
        t == ArtifactType::File ==> t.wire() == "file"@ && t.ending().len() == 0,
        t == ArtifactType::Oci ==> t.wire() == "oci"@ && t.ending().len() == 0,
{
    reveal_strlit("");
}

/// An artifact is taken exactly when the index could be read and has it, its form
/// is among the supported ones and it has a digest; then it is taken as the index
/// has it. A form that is not supported is the caller's mistake, a missing digest
/// is not.
pub proof fn law_which_artifact_is_taken(
    r: Result<InstallEntry, CliError>,
    l: InstallLocated,
    env: EnvFacts,
    index_url: Seq<char>,
    reply: IndexReply,
    supported: Seq<Seq<char>>,
)
    requires
        index_result(r, l, env, index_url, reply, supported),
    ensures
        r is Ok <==> reply is Resolved && supported.contains(
            reply->Resolved_0.artifact_type.wire(),
        ) && reply->Resolved_0.sha256 is Some,
        r matches Ok(x) ==> {
            &&& x.entry == reply->Resolved_0
            &&& Some(x.sha256) == reply->Resolved_0.sha256
            &&& x.located.chosen == l.chosen
            &&& x.located.backend == l.backend
            &&& x.located.base_url == l.base_url
            &&& x.located.package == l.package
            &&& is_address(x.address, x.entry)
        },
        reply is Unfetched || reply is Unreadable ==> r is Err && r->Err_0 is Runtime,
        reply is Unresolved ==> r is Err && r->Err_0 is InvalidArgument,
        reply is Resolved && !supported.contains(reply->Resolved_0.artifact_type.wire())
            ==> r is Err && r->Err_0 is InvalidArgument,
        reply is Resolved && supported.contains(reply->Resolved_0.artifact_type.wire())
            && reply->Resolved_0.sha256 is None ==> r is Err && r->Err_0 is Runtime,
{
}

/// Where no version was asked for, an artifact of another version than that of
/// the catalog is warned about; otherwise nothing is added to the warnings.
pub proof fn law_other_version_is_warned_about(
    r: Result<InstallEntry, CliError>,
    l: InstallLocated,
    env: EnvFacts,
    index_url: Seq<char>,
    reply: IndexReply,
    supported: Seq<Seq<char>>,
)
    requires
        index_result(r, l, env, index_url, reply, supported),
        r is Ok,
    ensures
        ({
            let before = texts(l.warnings@);
            let after = texts(r->Ok_0.located.warnings@);
            let entry = reply->Resolved_0;
            let known = l.chosen.manifest.component.version@;
            &&& before.is_prefix_of(after)
            &&& l.chosen.args.version is None && entry.version@ != known ==> after.len()
                == before.len() + 1 && after.last() == "artifact version "@ + entry.version@
                + " differs from catalog manifest version "@ + known
            &&& !(l.chosen.args.version is None && entry.version@ != known) ==> after == before
        }),
{
    let before = texts(l.warnings@);
    let after = texts(r->Ok_0.located.warnings@);
    assert(before =~= after.subrange(0, before.len() as int));
    assert(before + Seq::<Seq<char>>::empty() =~= before);
}

/// Where an artifact is fetched from: an address with a scheme is taken as it is,
/// one without is below the directory of the index, however many slashes it
/// begins with, and one that is left out follows from the layout of the
/// repository and the fields of the entry.
pub proof fn law_where_an_artifact_is(
    a: ArtifactAddress,
    entry: DistributionEntry,
    slashes: nat,
    path: Seq<char>,
    package: Seq<char>,
    derived: Result<String, String>,
    root: Seq<char>,
)
    requires
        is_address(a, entry),
    ensures
        entry.url@.len() > 0 && contains_text(entry.url@, "://"@) ==> artifact_url(
            a,
            package,
            entry.version@,
            derived,
            root,
        ) == Ok::<Seq<char>, Seq<char>>(entry.url@),
        entry.url@ == Seq::new(slashes, |i: int| '/') + path && (path.len() > 0 && path[0] != '/')
            && !contains_text(entry.url@, "://"@) ==> artifact_url(
            a,
            package,
            entry.version@,
            derived,
            root,
        ) == Ok::<Seq<char>, Seq<char>>(root + "/"@ + path),
        entry.url@.len() == 0 ==> {
            &&& a is Derived
            &&& a->Derived_0.component@ == entry.component@
            &&& a->Derived_0.version@ == entry.version@
            &&& a->Derived_0.os@ == entry.os@
            &&& a->Derived_0.arch@ == entry.arch@
            &&& a->Derived_0.libc == entry.libc
            &&& a->Derived_0.ext@ == entry.artifact_type.ending()
            &&& derived matches Ok(url) ==> artifact_url(
                a,
                package,
                entry.version@,
                derived,
                root,
            ) == Ok::<Seq<char>, Seq<char>>(url@)
            &&& derived is Err ==> artifact_url(a, package, entry.version@, derived, root) is Err
        },
{
    law_strip_takes_a_run_off(slashes, path, '/');
}

// ---------------------------------------------------------------------------
// Running
// ---------------------------------------------------------------------------

/// A run goes on with what was resolved, under the name of its component.
pub proof fn law_run_is_what_was_resolved(r: InstallNext, x: ResolvedInstall)
    requires
        next_result(r, x),
    ensures
        !x.ctx.dry_run ==> r is Run && r->Run_0.resolved == x && r->Run_0.command@ == "install "@
            + x.component@,
        x.ctx.dry_run ==> r is Planned,
{
}

/// Under the lock the record is looked at once more: what does not fit goes no
/// further, and what fits goes on with the record as it was loaded.
pub proof fn law_record_is_checked_under_the_lock(
    r: Result<InstallCopy, CliError>,
    locked: InstallLocked,
    state: Result<InstalledState, String>,
    stamp: Seq<char>,
    nanos: u32,
)
    requires
        loaded_result(r, locked, state, operation_name(stamp, nanos)),
    ensures
        r is Ok <==> state is Ok && backend_conflict(
            state->Ok_0.objects@,
            locked.run.resolved.component@,
            locked.run.resolved.backend@,
        ) is None,
        r matches Ok(c) ==> {
            &&& Ok::<InstalledState, String>(c.state) == state
            &&& c.run == locked.run
            &&& c.started_at == locked.started_at
            &&& c.operation_id@ == "op-install-"@ + stamp + "-"@ + decimal(nanos as nat)
        },
{
}

/// What the record says of an installed component: its version and source, the
/// backend, when and by which operation, each file with its digest, and each
/// service, none of which is enabled.
pub proof fn law_what_is_recorded(
    o: InstalledObject,
    x: ResolvedInstall,
    files: Seq<InstalledFile>,
    started_at: Seq<char>,
    operation_id: Seq<char>,
)
    requires
        is_recorded(o, x, files, started_at, operation_id),
    ensures
        o.kind == ObjectKind::Component,
        o.name@ == x.component@,
        o.version@ == x.entry.version@,
        o.status is Installed,
        opt_text(o.distribution_source) == Some(x.artifact_url@),
        opt_text(o.install_backend) == Some(x.backend@),
        o.installed_at@ == started_at,
        opt_text(o.last_operation_id) == Some(operation_id),
        o.managed && !o.adopted,
        o.manifest_digest is None,
        o.subscription_scope is Standard,
        o.files@.len() == files.len(),
        forall|k: int|
            0 <= k < files.len() ==> {
                &&& (#[trigger] o.files@[k]).path@ == files[k].path@
                &&& opt_text(o.files@[k].sha256) == Some(files[k].sha256@)
                &&& o.files@[k].owner == FileOwner::Anolisa
            },
        o.services@.len() == x.services@.len(),
        forall|k: int|
            0 <= k < x.services@.len() ==> {
                &&& (#[trigger] o.services@[k]).name@ == x.services@[k]@
                &&& !o.services@[k].enabled
                &&& o.services@[k].restartable
                &&& x.ctx.install_mode == InstallMode::System ==> o.services@[k].manager@
                    == "systemd"@
                &&& x.ctx.install_mode == InstallMode::User ==> o.services@[k].manager@
                    == "systemd-user"@
            },
        o.enabled_features@.len() == 0,
        o.component_refs@.len() == 0,
        o.external_modified_files@.len() == 0,
        o.health@.len() == 0,
{
}

/// Installing leaves every other object in the record, in order, but for the
/// capabilities of older releases, and adds one operation behind the others.
pub proof fn law_other_objects_are_kept(
    save: InstallSave,
    copy: InstallCopy,
    prefix: Seq<char>,
    files: Seq<InstalledFile>,
    finished_at: Seq<char>,
)
    requires
        is_save(save, copy, prefix, files, finished_at),
    ensures
        save.state.prefix@ == prefix,
        save.state.install_mode == copy.run.resolved.ctx.install_mode,
        save.state.adapter_claims == copy.state.adapter_claims,
        save.state.operations@.len() == copy.state.operations@.len() + 1,
        save.state.operations@.drop_last() == copy.state.operations@,
        save.state.operations@.last().id@ == copy.operation_id@,
        save.state.operations@.last().command@ == copy.run.command@,
        save.state.operations@.last().status@ == "ok"@,
        save.state.operations@.last().started_at@ == copy.started_at@,
        opt_text(save.state.operations@.last().finished_at) == Some(finished_at),
        forall|k: int|
            0 <= k < copy.state.objects@.len() && (#[trigger] copy.state.objects@[k]).kind
                != ObjectKind::Capability && !(copy.state.objects@[k].kind == ObjectKind::Component
                && copy.state.objects@[k].name@ == copy.run.resolved.component@)
                ==> save.state.objects@.contains(copy.state.objects@[k]),
        texts(save.pruned@) == copy.state.objects@.filter(
            |o: InstalledObject| o.kind == ObjectKind::Capability,
        ).map_values(|o: InstalledObject| o.name@),
{
    let (o, op) = choose|o: InstalledObject, op: OperationRecord|
        {
            &&& #[trigger] records(
                save.state,
                copy.state,
                copy.run.resolved.ctx.install_mode,
                prefix,
                o,
                op,
            )
            &&& is_recorded(o, copy.run.resolved, files, copy.started_at@, copy.operation_id@)
            &&& is_operation(
                op,
                copy.operation_id@,
                copy.run.command@,
                copy.started_at@,
                finished_at,
            )
        };
    assert(save.state.operations@.drop_last() =~= copy.state.operations@);
    let keep = |x: InstalledObject| x.kind != ObjectKind::Capability;
    let all = copy.state.objects@;
    let kept = without_capabilities(all);
    lemma_object_at(kept, o.kind, o.name@);
    assert forall|k: int|
        0 <= k < all.len() && (#[trigger] all[k]).kind != ObjectKind::Capability && !(all[k].kind
            == ObjectKind::Component && all[k].name@
            == copy.run.resolved.component@) implies save.state.objects@.contains(all[k]) by {
        all.lemma_filter_contains(keep, k);
        let j = choose|j: int| 0 <= j < kept.len() && kept[j] == all[k];
        assert(save.state.objects@[j] == kept[j]);
    }
}

/// A failed copy goes no further; one that worked goes on with the paths of the
/// files that it left behind.
pub proof fn law_failed_copy_goes_no_further(
    r: Result<InstallSave, CliError>,
    copy: InstallCopy,
    prefix: Seq<char>,
    outcome: Result<Vec<InstalledFile>, String>,
    finished_at: Seq<char>,
)
    requires
        copied_result(r, copy, prefix, outcome, finished_at),
    ensures
        r is Ok <==> outcome is Ok,
        r matches Ok(save) ==> {
            &&& save.installed@.len() == outcome->Ok_0@.len()
            &&& forall|k: int|
                0 <= k < save.installed@.len() ==> (#[trigger] save.installed@[k])@
                    == outcome->Ok_0@[k].path@
            &&& save.run.resolved.artifact_url == copy.run.resolved.artifact_url
            &&& save.run.resolved.entry == copy.run.resolved.entry
            &&& save.operation_id@ == copy.operation_id@
        },
        r matches Err(e) ==> e is Runtime && e.reason_text() == "install failed: "@
            + outcome->Err_0@,
{
    if r is Ok {
        let save = r->Ok_0;
        let files = outcome->Ok_0@;
        let paths = crate::commands::install::run::paths_of(files);
        assert(texts(save.installed@) == paths);
        assert(paths.len() == files.len());
        assert forall|k: int| 0 <= k < save.installed@.len() implies (
        #[trigger] save.installed@[k])@ == files[k].path@ by {
            assert(texts(save.installed@)[k] == paths[k]);
        }
    }
}

/// An installation whose record was saved is logged as done, with its component
/// and version, and what was dropped before it; one whose record was not saved is
/// rolled back and not logged.
pub proof fn law_how_an_installation_ends(
    r: InstallEnd,
    save: InstallSave,
    result: Result<(), String>,
    pruned_at: Seq<char>,
    finished_at: Seq<char>,
)
    requires
        end_result(r, save, result, pruned_at, finished_at),
    ensures
        r is Done <==> result is Ok,
        r matches InstallEnd::RollBack { remove, error } ==> remove == save.installed && error is Runtime,
        r matches InstallEnd::Done(done) ==> {
            let last = done.records@.last()@;
            let x = save.run.resolved;
            &&& done.records@.len() == if save.pruned@.len() > 0 {
                2int
            } else {
                1
            }
            &&& last.component == Some(x.component@)
            &&& last.operation_id == Some(save.operation_id@)
            &&& last.status == Some(LogStatus::Done)
            &&& last.severity == Severity::Info
            &&& last.message == "component "@ + x.component@ + " "@ + x.entry.version@
                + " installed via "@ + x.backend@ + " backend"@
            &&& last.started_at == save.started_at@
            &&& last.finished_at == Some(finished_at)
            &&& last.objects == seq![x.component@]
            &&& last.warnings == texts(x.warnings@)
            &&& save.pruned@.len() > 0 ==> {
                let first = done.records@[0]@;
                &&& first.severity == Severity::Warn
                &&& first.status is None
                &&& first.component is None
                &&& first.objects == texts(save.pruned@)
                &&& first.operation_id == Some(save.operation_id@)
                &&& first.finished_at == Some(pruned_at)
                &&& first.message
                    == "pruned legacy capability state object(s) written by an older release: "@
                    + join(texts(save.pruned@), ", "@)
            }
        },
{
    if r is Done {
        let done = r->Done_0;
        let seen = logs(done.records@);
        assert(seen.len() == done.records@.len());
        assert(seen.last() == done.records@.last()@);
        assert(seen[0] == done.records@[0]@);
    }
}

/// A result is shown to machines where the context asks for that, not at all
/// where it asks for quiet, and otherwise in lines; it holds what was installed.
pub proof fn law_how_a_result_is_shown(r: Shown<InstallResultPayload>, save: InstallSave)
    requires
        result_shown(r, save),
    ensures
        r is Json <==> save.run.resolved.ctx.json,
        r is Silent <==> !save.run.resolved.ctx.json && save.run.resolved.ctx.quiet,
        r matches Shown::Json(p) ==> {
            let x = save.run.resolved;
            &&& p.component@ == x.component@
            &&& p.package@ == x.package@
            &&& p.version@ == x.entry.version@
            &&& p.backend@ == x.backend@
            &&& p.base_url@ == x.base_url@
            &&& p.operation_id@ == save.operation_id@
            &&& p.artifact_url@ == x.artifact_url@
            &&& p.files_installed@ == save.installed@
            &&& p.services@ == x.services@
            &&& p.warnings@ == x.warnings@
            &&& x.ctx.install_mode == InstallMode::User ==> p.install_mode@ == "user"@
            &&& x.ctx.install_mode == InstallMode::System ==> p.install_mode@ == "system"@
        },
{
}

/// A plan is shown to machines where the context asks for that, not at all where
/// it asks for quiet, and otherwise in lines; it holds what would be installed.
pub proof fn law_how_a_plan_is_shown(r: Shown<InstallPlanPayload>, x: ResolvedInstall)
    requires
        plan_shown(r, x),
    ensures
        r is Json <==> x.ctx.json,
        r is Silent <==> !x.ctx.json && x.ctx.quiet,
        r matches Shown::Json(p) ==> {
            &&& p.component@ == x.component@
            &&& p.package@ == x.package@
            &&& p.version@ == x.entry.version@
            &&& p.backend@ == x.backend@
            &&& p.base_url@ == x.base_url@
            &&& p.artifact.url@ == x.artifact_url@
            &&& p.artifact.artifact_type@ == x.entry.artifact_type.wire()
            &&& opt_text(p.artifact.sha256) == Some(x.sha256@)
            &&& p.files@.len() == x.files@.len()
            &&& forall|k: int|
                0 <= k < x.files@.len() ==> (#[trigger] p.files@[k])@ == x.files@[k].dest@
            &&& p.services@ == x.services@
            &&& p.warnings@ == x.warnings@
            &&& p.dry_run
            &&& x.ctx.install_mode == InstallMode::User ==> p.install_mode@ == "user"@
            &&& x.ctx.install_mode == InstallMode::System ==> p.install_mode@ == "system"@
        },
{
    if r is Json {
        let p = r->Json_0;
        let shown = texts(p.files@);
        let all = crate::commands::install::render::destinations(x);
        assert(shown == all);
        assert(shown.len() == p.files@.len() && all.len() == x.files@.len());
        assert forall|k: int| 0 <= k < x.files@.len() implies (#[trigger] p.files@[k])@
            == x.files@[k].dest@ by {
            assert(shown[k] == all[k]);
        }
    }
}

/// Every file of a result is on a line of its own, behind as many lines as there
/// are fields, and so is every warning, at the end.
pub proof fn law_lines_of_a_result(p: InstallResultPayload, k: int)
    ensures
        0 <= k < p.files_installed@.len() ==> result_lines(p)[5 + k] == seq![
            (Style::Plain, "  - "@),
            (Style::Path, p.files_installed@[k]@),
        ],
        0 <= k < p.warnings@.len() ==> result_lines(p)[result_lines(p).len() - p.warnings@.len()
            + k] == seq![(Style::Plain, "  - "@), (Style::Plain, p.warnings@[k]@)],
        result_lines(p)[4][2] == (Style::Plain, decimal(p.files_installed@.len())),
        result_lines(p)[3][2] == (Style::Id, p.operation_id@),
        result_lines(p)[0][1] == (Style::Plain, " "@ + p.component@ + " v"@ + p.version@ + " "@),
        result_lines(p)[0][2].1 == "succeeded"@,
{
}

/// Every file of a plan is on a line of its own, and that nothing was installed
/// is on the first.
pub proof fn law_lines_of_a_plan(p: InstallPlanPayload, k: int)
    ensures
        0 <= k < p.files@.len() ==> plan_lines(p)[7 + k] == seq![
            (Style::Plain, "  - "@),
            (Style::Path, p.files@[k]@),
        ],
        0 <= k < p.warnings@.len() ==> plan_lines(p)[plan_lines(p).len() - p.warnings@.len() + k]
            == seq![(Style::Plain, "  - "@), (Style::Plain, p.warnings@[k]@)],
        plan_lines(p)[0][1] == (Style::Plain, " "@ + p.component@ + " v"@ + p.version@ + " "@),
        plan_lines(p)[0][2].1 == "(dry-run — nothing installed)"@,
        plan_lines(p)[5][2] == (Style::Path, p.artifact.url@),
{
}

/// What stands against a backend names the component, the backend that it was
/// installed through, where that is known, and the one that was asked for.
pub proof fn law_conflict_names_both_backends(
    objects: Seq<InstalledObject>,
    component: Seq<char>,
    backend: Seq<char>,
)
    ensures
        backend_conflict(objects, component, backend) matches Some(why) ==> {
            let i = object_at(objects, ObjectKind::Component, component)->0;
            &&& object_at(objects, ObjectKind::Component, component) is Some
            &&& backend_of(objects[i]) != Some(backend)
            &&& backend_of(objects[i]) is Some ==> why == "component '"@ + component
                + "' is already installed via backend '"@ + backend_of(objects[i])->0
                + "'; reinstalling it via backend '"@ + backend
                + "' is not allowed — uninstall it first or use backend '"@ + backend_of(
                objects[i],
            )->0 + "'"@
            &&& backend_of(objects[i]) is None ==> why == "component '"@ + component
                + "' is already installed but its install backend is unknown; uninstall it before installing via backend '"@
                + backend + "'"@
        },
{
}

/// A refused choice says whether the component is unknown or cannot be installed in
/// the mode, and which modes there are.
pub proof fn law_refused_choice_says_why(
    r: Result<InstallChosen, CliError>,
    args: InstallArgs,
    ctx: CliContext,
    manifest: Option<ComponentManifest>,
)
    requires
        choice_result(r, args, ctx, manifest),
        r is Err,
    ensures
        manifest is None ==> r->Err_0.reason_text() == "component '"@ + args.component@
            + "' is not in the catalog"@,
        manifest is Some && ctx.install_mode == InstallMode::User ==> r->Err_0.reason_text()
            == "component '"@ + args.component@ + "' does not support "@ + "user"@
            + "-mode install (supported: "@ + join(texts(manifest->0.install.modes@), ", "@)
            + ")"@,
        manifest is Some && ctx.install_mode == InstallMode::System ==> r->Err_0.reason_text()
            == "component '"@ + args.component@ + "' does not support "@ + "system"@
            + "-mode install (supported: "@ + join(texts(manifest->0.install.modes@), ", "@)
            + ")"@,
{
}

/// Dropped capabilities are named in one warning behind the others; without any the
/// warnings stay. All else about the run stays in any case.
pub proof fn law_dropped_capabilities_are_warned_about(
    save: InstallSave,
    copy: InstallCopy,
    prefix: Seq<char>,
    files: Seq<InstalledFile>,
    finished_at: Seq<char>,
)
    requires
        is_save(save, copy, prefix, files, finished_at),
    ensures
        ({
            let before = texts(copy.run.resolved.warnings@);
            let after = texts(save.run.resolved.warnings@);
            let names = copy.state.objects@.filter(
                |o: InstalledObject| o.kind == ObjectKind::Capability,
            ).map_values(|o: InstalledObject| o.name@);
            &&& names.len() == 0 ==> after == before
            &&& names.len() > 0 ==> after == before.push(
                "pruned legacy capability state object(s) written by an older release: "@ + join(
                    names,
                    ", "@,
                ),
            )
        }),
        save.run.command == copy.run.command,
        save.run.resolved.component == copy.run.resolved.component,
        save.run.resolved.package == copy.run.resolved.package,
        save.run.resolved.backend == copy.run.resolved.backend,
        save.run.resolved.base_url == copy.run.resolved.base_url,
        save.run.resolved.entry == copy.run.resolved.entry,
        save.run.resolved.sha256 == copy.run.resolved.sha256,
        save.run.resolved.artifact_url == copy.run.resolved.artifact_url,
        save.run.resolved.files == copy.run.resolved.files,
        save.run.resolved.services == copy.run.resolved.services,
        save.run.resolved.ctx == copy.run.resolved.ctx,
        save.started_at == copy.started_at,
{
    let before = texts(copy.run.resolved.warnings@);
    let names = names_of(capabilities(copy.state.objects@));
    assert(before + Seq::<Seq<char>>::empty() =~= before);
    let one = seq![
        "pruned legacy capability state object(s) written by an older release: "@ + join(
            names,
            ", "@,
        ),
    ];
    assert(before + one =~= before.push(one[0]));
}

/// Both records of an installation are of its command, by the command line, in its
/// mode; a finished installation is shown, and one that cannot be saved says why.
pub proof fn law_records_name_the_command(
    r: InstallEnd,
    save: InstallSave,
    result: Result<(), String>,
    pruned_at: Seq<char>,
    finished_at: Seq<char>,
    k: int,
)
    requires
        end_result(r, save, result, pruned_at, finished_at),
    ensures
        r matches InstallEnd::Done(done) ==> {
            &&& done.command == save.run.command
            &&& result_shown(done.shown, save)
            &&& 0 <= k < done.records@.len() ==> {
                let v = done.records@[k]@;
                &&& v.kind == LogKind::Operation
                &&& v.command == save.run.command@
                &&& v.source == "anolisa-cli"@
                &&& v.actor == "cli"@
                &&& v.started_at == save.started_at@
                &&& v.backup_ids.len() == 0
                &&& save.run.resolved.ctx.install_mode == InstallMode::User ==> v.install_mode
                    == Some("user"@)
                &&& save.run.resolved.ctx.install_mode == InstallMode::System ==> v.install_mode
                    == Some("system"@)
            }
        },
        r matches InstallEnd::RollBack { remove, error } ==> error.reason_text()
            == "failed to save state; attempted best-effort rollback of installed files (some may remain on disk): "@
            + result->Err_0@,
{
    if r is Done {
        let done = r->Done_0;
        let seen = logs(done.records@);
        assert(seen.len() == done.records@.len());
        if 0 <= k < done.records@.len() {
            assert(seen[k] == done.records@[k]@);
        }
    }
}

/// A line of a result or a plan that names a value.
pub open spec fn names_value(
    line: Seq<(Style, Seq<char>)>,
    label: Seq<char>,
    style: Style,
    value: Seq<char>,
) -> bool {
    &&& line.len() >= 3
    &&& line[0] == (Style::Label, label)
    &&& line[1] == (Style::Plain, " "@)
    &&& line[2] == (style, value)
}

/// What stands on each line of a result: the component, then backend, package,
/// operation and number of files, then the files, the services below a heading where
/// there are any, and the warnings likewise.
pub proof fn law_every_line_of_a_result(p: InstallResultPayload, k: int)
    ensures
        ({
            let lines = result_lines(p);
            let files = p.files_installed@.len();
            let services = p.services@.len();
            let warnings = p.warnings@.len();
            &&& lines[0][0] == (Style::Command, "install"@)
            &&& lines[0][2] == (Style::Good, "succeeded"@)
            &&& names_value(lines[1], "backend:"@, Style::Plain, p.backend@)
            &&& names_value(lines[2], "package:"@, Style::Plain, p.package@)
            &&& names_value(lines[3], "operation_id:"@, Style::Id, p.operation_id@)
            &&& names_value(lines[4], "files installed:"@, Style::Plain, decimal(files))
            &&& services > 0 ==> lines[5int + files] == seq![
                (Style::Header, "services (recorded, not started):"@),
            ]
            &&& 0 <= k < services ==> lines[6 + files + k] == seq![
                (Style::Plain, "  - "@),
                (Style::Plain, p.services@[k]@),
            ]
            &&& warnings > 0 ==> lines[lines.len() - warnings - 1] == seq![
                (Style::Warn, "warnings:"@),
            ]
            &&& lines.len() == 5 + files + (if services > 0 {
                services + 1
            } else {
                0
            }) + (if warnings > 0 {
                warnings + 1
            } else {
                0
            })
        }),
{
}

/// What stands on each line of a plan: the component, then backend, root, package,
/// mode and artifact, then the files, the services below a heading where there are
/// any, and the warnings likewise.
pub proof fn law_every_line_of_a_plan(p: InstallPlanPayload, k: int)
    ensures
        ({
            let lines = plan_lines(p);
            let files = p.files@.len();
            let services = p.services@.len();
            let warnings = p.warnings@.len();
            &&& lines[0][0] == (Style::Command, "install"@)
            &&& lines[0][2] == (Style::Muted, "(dry-run — nothing installed)"@)
            &&& names_value(lines[1], "backend:"@, Style::Plain, p.backend@)
            &&& names_value(lines[2], "base_url:"@, Style::Path, p.base_url@)
            &&& names_value(lines[3], "package:"@, Style::Plain, p.package@)
            &&& names_value(lines[4], "install_mode:"@, Style::Plain, p.install_mode@)
            &&& names_value(lines[5], "artifact:"@, Style::Path, p.artifact.url@)
            &&& lines[5].last() == (Style::Plain, " ("@ + p.artifact.artifact_type@ + ")"@)
            &&& lines[6] == seq![(Style::Header, "files:"@)]
            &&& services > 0 ==> lines[7int + files] == seq![
                (Style::Header, "services (recorded, not started):"@),
            ]
            &&& 0 <= k < services ==> lines[8 + files + k] == seq![
                (Style::Plain, "  - "@),
                (Style::Plain, p.services@[k]@),
            ]
            &&& warnings > 0 ==> lines[lines.len() - warnings - 1] == seq![
                (Style::Warn, "warnings:"@),
            ]
            &&& lines.len() == 7 + files + (if services > 0 {
                services + 1
            } else {
                0
            }) + (if warnings > 0 {
                warnings + 1
            } else {
                0
            })
        }),
{
}

/// The paths whose safety is asked about are those that a file is going to have: its
/// destination, else its source, and for a symbolic link alone what it refers to. A
/// path with an unknown placeholder is not asked about.
pub proof fn law_paths_that_are_checked(
    spec: InstallFileSpec,
    layout: FsLayout,
    component: Seq<char>,
)
    ensures
        spec.dest is Some ==> (match stands_for(spec.dest->0, layout, component) {
            Ok(p) => known_path(spec.path(), layout, component) == Some(p),
            Err(_) => known_path(spec.path(), layout, component) is None,
        }),
        spec.dest is None && spec.source is Some ==> (match stands_for(
            spec.source->0,
            layout,
            component,
        ) {
            Ok(p) => known_path(spec.path(), layout, component) == Some(p),
            Err(_) => known_path(spec.path(), layout, component) is None,
        }),
        spec.dest is None && spec.source is None ==> known_path(
            spec.path(),
            layout,
            component,
        ) is None,
        spec.kind != FileKind::Symlink || spec.source is None ==> known_path(
            referent_of(spec),
            layout,
            component,
        ) is None,
        spec.kind == FileKind::Symlink && spec.source is Some ==> (match stands_for(
            spec.source->0,
            layout,
            component,
        ) {
            Ok(p) => known_path(referent_of(spec), layout, component) == Some(p),
            Err(_) => known_path(referent_of(spec), layout, component) is None,
        }),
{
}

/// Why a file has no place is said of its first fault: nothing to go to, an unknown
/// placeholder or an unsafe path, of where it goes before what it refers to.
pub proof fn law_why_a_file_has_no_place(
    spec: InstallFileSpec,
    layout: FsLayout,
    component: Seq<char>,
    safety: FileSafety,
)
    requires
        !can_be_placed(spec, layout, component, safety),
    ensures
        placement(spec, layout, component, safety) is Err,
        ({
            let why = placement(spec, layout, component, safety)->Err_0;
            let template = if spec.dest is Some {
                spec.dest->0
            } else {
                spec.source->0
            };
            let goes = stands_for(template, layout, component);
            let refers = stands_for(spec.source->0, layout, component);
            &&& spec.dest is None && spec.source is None ==> why == "component '"@ + component
                + "' has an [install.files] entry with neither source nor dest"@
            &&& spec.dest is Some || spec.source is Some ==> {
                &&& goes is Err ==> why == "failed to expand install path '"@ + template@ + "': "@
                    + ("unknown placeholder '"@ + goes->Err_0 + "' in template \""@ + template@
                    + "\""@)
                &&& goes is Ok && safety.dest is Some ==> why == "install destination '"@
                    + goes->Ok_0 + "' failed path safety check: "@ + safety.dest->0@
                &&& goes is Ok && safety.dest is None && refers is Err ==> why
                    == "failed to expand symlink referent '"@ + spec.source->0@ + "': "@ + (
                "unknown placeholder '"@ + refers->Err_0 + "' in template \""@ + spec.source->0@
                    + "\""@)
                &&& goes is Ok && safety.dest is None && refers is Ok ==> why
                    == "symlink referent '"@ + refers->Ok_0 + "' failed path safety check: "@
                    + safety.referent->0@
            }
        }),
{
}

/// The first file without a place is what the others are refused for.
pub proof fn law_first_misplaced_file_counts(
    specs: Seq<InstallFileSpec>,
    layout: FsLayout,
    component: Seq<char>,
    safety: Seq<FileSafety>,
    n: int,
    k: int,
)
    requires
        0 <= k < n <= specs.len(),
        !can_be_placed(specs[k], layout, component, safety[k]),
        forall|j: int|
            0 <= j < k ==> can_be_placed(#[trigger] specs[j], layout, component, safety[j]),
    ensures
        placements(specs, layout, component, safety, n) is Err,
        placements(specs, layout, component, safety, n)->Err_0 == placement(
            specs[k],
            layout,
            component,
            safety[k],
        )->Err_0,
    decreases n,
{
    lemma_placement(specs[n - 1], layout, component, safety[n - 1]);
    if k == n - 1 {
        law_every_file_has_its_place(specs, layout, component, safety, n - 1);
        assert forall|j: int| 0 <= j < n - 1 implies can_be_placed(
            #[trigger] specs[j],
            layout,
            component,
            safety[j],
        ) by {}
    } else {
        law_first_misplaced_file_counts(specs, layout, component, safety, n - 1, k);
    }
}

/// What is wrong with an index, or with what it has, is said with its address, the
/// package and what was asked for.
pub proof fn law_index_faults_say_why(
    r: Result<InstallEntry, CliError>,
    l: InstallLocated,
    env: EnvFacts,
    index_url: Seq<char>,
    reply: IndexReply,
    supported: Seq<Seq<char>>,
)
    requires
        index_result(r, l, env, index_url, reply, supported),
        r is Err,
    ensures
        reply matches IndexReply::Unfetched(shown) ==> r->Err_0.reason_text()
            == "failed to fetch distribution index "@ + index_url + ": "@ + shown@,
        reply matches IndexReply::Unreadable(shown) ==> r->Err_0.reason_text()
            == "failed to parse distribution index "@ + index_url + ": "@ + shown@,
        reply matches IndexReply::Unresolved(shown) ==> {
            let version = if l.chosen.args.version is Some {
                l.chosen.args.version->0@
            } else {
                "latest"@
            };
            let mode = if l.chosen.ctx.install_mode == InstallMode::User {
                "user"@
            } else {
                "system"@
            };
            r->Err_0.reason_text() == "cannot resolve package '"@ + l.package@ + "' (component '"@
                + l.chosen.args.component@ + "', version "@ + version + ", "@ + env.os@ + "/"@
                + env.arch@ + ", "@ + mode + " mode) from "@ + index_url + ": "@ + shown@
        },
        reply is Resolved && !supported.contains(reply->Resolved_0.artifact_type.wire())
            ==> r->Err_0.reason_text() == "resolved artifact type '"@
            + reply->Resolved_0.artifact_type.wire()
            + "' is not installable by the raw backend (supported: "@ + join(supported, ", "@)
            + ")"@,
        reply is Resolved && supported.contains(reply->Resolved_0.artifact_type.wire())
            ==> r->Err_0.reason_text() == "distribution entry for '"@ + l.package@ + "' "@
            + reply->Resolved_0.version@
            + " has no sha256 — refusing to install an unverifiable artifact"@,
{
}

/// Nothing stands against a backend exactly when it is the one that the component
/// was installed through or the component is not installed; otherwise the request is
/// at fault, under the command that asked.
pub proof fn law_compatible_backends(
    r: Result<(), CliError>,
    objects: Seq<InstalledObject>,
    component: Seq<char>,
    backend: Seq<char>,
    command: Seq<char>,
)
    requires
        compatibility(r, objects, component, backend, command),
    ensures
        r is Ok <==> (match object_at(objects, ObjectKind::Component, component) {
            Some(i) => backend_of(objects[i]) == Some(backend),
            None => true,
        }),
        r is Err ==> r->Err_0 is InvalidArgument && r->Err_0->InvalidArgument_command@ == command
            && Some(r->Err_0.reason_text()) == backend_conflict(objects, component, backend),
{
}

} // verus!
