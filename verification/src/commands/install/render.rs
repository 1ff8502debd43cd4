//! What an installation shows.
//!
//! A line is a list of spans, each with a role; which color a role has is left
//! to the terminal.

use crate::commands::install::{artifact_type_wire, ResolvedInstall};
use crate::text::{concat4, copy_list, decimal, number, own, texts};
use vstd::prelude::*;

verus! {

/// Role of a span.
#[derive(Clone, Copy, PartialEq, Eq, Structural, Debug)]
pub enum Style {
    /// None.
    Plain,
    /// A command.
    Command,
    /// An aside.
    Muted,
    /// The name of a value.
    Label,
    /// A path or an address.
    Path,
    /// A heading.
    Header,
    /// Something to look into.
    Warn,
    /// Success.
    Good,
    /// An identifier.
    Id,
}

/// A piece of a line.
#[derive(Debug)]
pub struct Span {
    /// Role.
    pub style: Style,
    /// Text.
    pub text: String,
}

/// What a command shows.
#[derive(Debug)]
pub enum Shown<T> {
    /// A machine-readable value.
    Json(T),
    /// Nothing.
    Silent,
    /// Lines.
    Lines(Vec<Vec<Span>>),
}

/// The artifact of a plan.
#[derive(Debug)]
pub struct ArtifactInfo {
    /// Form.
    pub artifact_type: String,
    /// Address.
    pub url: String,
    /// Digest.
    pub sha256: Option<String>,
}

/// A plan, machine-readable.
#[derive(Debug)]
pub struct InstallPlanPayload {
    /// Component.
    pub component: String,
    /// Name that the backend knows the component by.
    pub package: String,
    /// Version.
    pub version: String,
    /// Name of the backend.
    pub backend: String,
    /// Root of the repository.
    pub base_url: String,
    /// Install mode.
    pub install_mode: String,
    /// The artifact.
    pub artifact: ArtifactInfo,
    /// Where the files go.
    pub files: Vec<String>,
    /// Services.
    pub services: Vec<String>,
    /// Always: nothing is installed.
    pub dry_run: bool,
    /// Warnings.
    pub warnings: Vec<String>,
}

/// The result of an installation, machine-readable.
#[derive(Debug)]
pub struct InstallResultPayload {
    /// Component.
    pub component: String,
    /// Name that the backend knows the component by.
    pub package: String,
    /// Version.
    pub version: String,
    /// Name of the backend.
    pub backend: String,
    /// Root of the repository.
    pub base_url: String,
    /// Install mode.
    pub install_mode: String,
    /// Id of the operation.
    pub operation_id: String,
    /// Address of the artifact.
    pub artifact_url: String,
    /// Installed files.
    pub files_installed: Vec<String>,
    /// Services.
    pub services: Vec<String>,
    /// Warnings.
    pub warnings: Vec<String>,
}

// ---------------------------------------------------------------------------
// Lines
// ---------------------------------------------------------------------------

/// The roles and texts of a line.
pub open spec fn spans(line: Seq<Span>) -> Seq<(Style, Seq<char>)> {
    line.map_values(|s: Span| (s.style, s.text@))
}

/// The roles and texts of lines.
pub open spec fn lines_of(lines: Seq<Vec<Span>>) -> Seq<Seq<(Style, Seq<char>)>> {
    lines.map_values(|l: Vec<Span>| spans(l@))
}

/// A line that names a value.
pub open spec fn labelled(label: Seq<char>, style: Style, value: Seq<char>) -> Seq<
    (Style, Seq<char>),
> {
    seq![(Style::Label, label), (Style::Plain, " "@), (style, value)]
}

/// A line of a list.
pub open spec fn item(style: Style, text: Seq<char>) -> Seq<(Style, Seq<char>)> {
    seq![(Style::Plain, "  - "@), (style, text)]
}

/// The lines of a list.
pub open spec fn items(style: Style, list: Seq<Seq<char>>) -> Seq<Seq<(Style, Seq<char>)>> {
    list.map_values(|t: Seq<char>| item(style, t))
}

/// A list below a heading; nothing where the list is empty.
pub open spec fn section(style: Style, heading: Seq<char>, list: Seq<Seq<char>>) -> Seq<
    Seq<(Style, Seq<char>)>,
> {
    if list.len() == 0 {
        Seq::<Seq<(Style, Seq<char>)>>::empty()
    } else {
        seq![seq![(style, heading)]] + items(Style::Plain, list)
    }
}

/// The line that says what was done to which component.
pub open spec fn title(
    component: Seq<char>,
    version: Seq<char>,
    style: Style,
    outcome: Seq<char>,
) -> Seq<(Style, Seq<char>)> {
    seq![
        (Style::Command, "install"@),
        (Style::Plain, " "@ + component + " v"@ + version + " "@),
        (style, outcome),
    ]
}

fn span(style: Style, text: &str) -> (r: Span)
    ensures
        r.style == style,
        r.text@ == text@,
{
    Span { style, text: own(text) }
}

fn push_line(lines: &mut Vec<Vec<Span>>, line: Vec<Span>)
    ensures
        lines_of(final(lines)@) == lines_of(old(lines)@).push(spans(line@)),
{
    let ghost before = lines@;
    let ghost added = spans(line@);
    lines.push(line);
    assert(lines_of(lines@) =~= lines_of(before).push(added));
}

fn push_labelled(lines: &mut Vec<Vec<Span>>, label: &str, style: Style, value: &str)
    ensures
        lines_of(final(lines)@) == lines_of(old(lines)@).push(labelled(label@, style, value@)),
{
    let mut line: Vec<Span> = Vec::new();
    line.push(span(Style::Label, label));
    line.push(span(Style::Plain, " "));
    line.push(span(style, value));
    assert(spans(line@) =~= labelled(label@, style, value@));
    push_line(lines, line);
}

fn push_items(lines: &mut Vec<Vec<Span>>, style: Style, list: &Vec<String>)
    ensures
        lines_of(final(lines)@) == lines_of(old(lines)@) + items(style, texts(list@)),
{
    let ghost before = lines_of(lines@);
    let ghost all = items(style, texts(list@));
    let mut i: usize = 0;
    assert(before + all.take(0) =~= before);
    while i < list.len()
        invariant
            i <= list@.len(),
            all == items(style, texts(list@)),
            lines_of(lines@) == before + all.take(i as int),
        decreases list.len() - i,
    {
        let mut line: Vec<Span> = Vec::new();
        line.push(span(Style::Plain, "  - "));
        line.push(span(style, list[i].as_str()));
        assert(spans(line@) =~= item(style, list@[i as int]@));
        assert(all[i as int] == item(style, list@[i as int]@));
        push_line(lines, line);
        assert(before + all.take(i + 1) =~= (before + all.take(i as int)).push(all[i as int]));
        i += 1;
    }
    assert(all.take(all.len() as int) =~= all);
}

fn push_section(lines: &mut Vec<Vec<Span>>, style: Style, heading: &str, list: &Vec<String>)
    ensures
        lines_of(final(lines)@) == lines_of(old(lines)@) + section(style, heading@, texts(list@)),
{
    let ghost before = lines_of(lines@);
    if list.len() == 0 {
        assert(before + Seq::<Seq<(Style, Seq<char>)>>::empty() =~= before);
        return ;
    }
    let mut line: Vec<Span> = Vec::new();
    line.push(span(style, heading));
    assert(spans(line@) =~= seq![(style, heading@)]);
    push_line(lines, line);
    push_items(lines, Style::Plain, list);
    assert(lines_of(lines@) =~= before + section(style, heading@, texts(list@)));
}

fn push_title(
    lines: &mut Vec<Vec<Span>>,
    component: &str,
    version: &str,
    style: Style,
    outcome: &str,
)
    ensures
        lines_of(final(lines)@) == lines_of(old(lines)@).push(
            title(component@, version@, style, outcome@),
        ),
{
    let mut middle = concat4(" ", component, " v", version);
    middle.append(" ");
    let mut line: Vec<Span> = Vec::new();
    line.push(span(Style::Command, "install"));
    line.push(Span { style: Style::Plain, text: middle });
    line.push(span(style, outcome));
    assert(spans(line@) =~= title(component@, version@, style, outcome@));
    push_line(lines, line);
}

// ---------------------------------------------------------------------------
// Plans
// ---------------------------------------------------------------------------

/// Where the files of an installation go.
pub open spec fn destinations(resolved: ResolvedInstall) -> Seq<Seq<char>> {
    resolved.files@.map_values(
        |f: crate::commands::install::ResolvedInstallFile| f.dest@,
    )
}

impl InstallPlanPayload {
    /// Whether this is the plan of an installation.
    pub open spec fn plans(self, resolved: ResolvedInstall) -> bool {
        &&& self.component == resolved.component
        &&& self.package == resolved.package
        &&& self.version == resolved.entry.version
        &&& self.backend == resolved.backend
        &&& self.base_url == resolved.base_url
        &&& self.install_mode@ == resolved.ctx.install_mode.name()
        &&& self.artifact.artifact_type@ == resolved.entry.artifact_type.wire()
        &&& self.artifact.url == resolved.artifact_url
        &&& self.artifact.sha256 == Some(resolved.sha256)
        &&& texts(self.files@) == destinations(resolved)
        &&& self.services@ == resolved.services@
        &&& self.dry_run
        &&& self.warnings@ == resolved.warnings@
    }
}

/// The lines of a plan.
pub open spec fn plan_lines(p: InstallPlanPayload) -> Seq<Seq<(Style, Seq<char>)>> {
    seq![
        title(p.component@, p.version@, Style::Muted, "(dry-run — nothing installed)"@),
        labelled("backend:"@, Style::Plain, p.backend@),
        labelled("base_url:"@, Style::Path, p.base_url@),
        labelled("package:"@, Style::Plain, p.package@),
        labelled("install_mode:"@, Style::Plain, p.install_mode@),
        labelled("artifact:"@, Style::Path, p.artifact.url@).push(
            (Style::Plain, " ("@ + p.artifact.artifact_type@ + ")"@),
        ),
        seq![(Style::Header, "files:"@)],
    ] + items(Style::Path, texts(p.files@)) + section(
        Style::Header,
        "services (recorded, not started):"@,
        texts(p.services@),
    ) + section(Style::Warn, "warnings:"@, texts(p.warnings@))
}

/// The plan of an installation.
fn plan_of(resolved: &ResolvedInstall) -> (r: InstallPlanPayload)
    ensures
        r.plans(*resolved),
{
    let mut files: Vec<String> = Vec::new();
    let ghost all = destinations(*resolved);
    let mut i: usize = 0;
    assert(texts(files@) =~= all.take(0));
    while i < resolved.files.len()
        invariant
            i <= resolved.files@.len(),
            all == destinations(*resolved),
            texts(files@) == all.take(i as int),
        decreases resolved.files.len() - i,
    {
        let ghost before = files@;
        files.push(resolved.files[i].dest.clone());
        assert(texts(files@) =~= texts(before).push(all[i as int]));
        assert(all.take(i + 1) =~= all.take(i as int).push(all[i as int]));
        i += 1;
    }
    assert(all.take(all.len() as int) =~= all);
    InstallPlanPayload {
        component: resolved.component.clone(),
        package: resolved.package.clone(),
        version: resolved.entry.version.clone(),
        backend: resolved.backend.clone(),
        base_url: resolved.base_url.clone(),
        install_mode: own(resolved.ctx.install_mode.as_str()),
        artifact: ArtifactInfo {
            artifact_type: own(artifact_type_wire(&resolved.entry.artifact_type)),
            url: resolved.artifact_url.clone(),
            sha256: Some(resolved.sha256.clone()),
        },
        files,
        services: copy_list(&resolved.services),
        dry_run: true,
        warnings: copy_list(&resolved.warnings),
    }
}

fn show_plan(p: &InstallPlanPayload) -> (r: Vec<Vec<Span>>)
    ensures
        lines_of(r@) == plan_lines(*p),
{
    let mut lines: Vec<Vec<Span>> = Vec::new();
    assert(lines_of(lines@) =~= Seq::<Seq<(Style, Seq<char>)>>::empty());
    push_title(
        &mut lines,
        p.component.as_str(),
        p.version.as_str(),
        Style::Muted,
        "(dry-run — nothing installed)",
    );
    push_labelled(&mut lines, "backend:", Style::Plain, p.backend.as_str());
    push_labelled(&mut lines, "base_url:", Style::Path, p.base_url.as_str());
    push_labelled(&mut lines, "package:", Style::Plain, p.package.as_str());
    push_labelled(&mut lines, "install_mode:", Style::Plain, p.install_mode.as_str());
    let mut line: Vec<Span> = Vec::new();
    line.push(span(Style::Label, "artifact:"));
    line.push(span(Style::Plain, " "));
    line.push(span(Style::Path, p.artifact.url.as_str()));
    line.push(
        Span {
            style: Style::Plain,
            text: crate::text::concat3(" (", p.artifact.artifact_type.as_str(), ")"),
        },
    );
    assert(spans(line@) =~= labelled("artifact:"@, Style::Path, p.artifact.url@).push(
        (Style::Plain, " ("@ + p.artifact.artifact_type@ + ")"@),
    ));
    push_line(&mut lines, line);
    let mut heading: Vec<Span> = Vec::new();
    heading.push(span(Style::Header, "files:"));
    assert(spans(heading@) =~= seq![(Style::Header, "files:"@)]);
    push_line(&mut lines, heading);
    push_items(&mut lines, Style::Path, &p.files);
    push_section(&mut lines, Style::Header, "services (recorded, not started):", &p.services);
    push_section(&mut lines, Style::Warn, "warnings:", &p.warnings);
    assert(lines_of(lines@) =~= plan_lines(*p));
    lines
}

/// Whether `r` is how a plan is shown.
pub open spec fn plan_shown(r: Shown<InstallPlanPayload>, resolved: ResolvedInstall) -> bool {
    if resolved.ctx.json {
        r matches Shown::Json(p) && p.plans(resolved)
    } else if resolved.ctx.quiet {
        r is Silent
    } else {
        r matches Shown::Lines(lines) && exists|p: InstallPlanPayload|
            #![auto]
            p.plans(resolved) && lines_of(lines@) == plan_lines(p)
    }
}

/// Shows the plan of an installation.
pub fn render_plan(resolved: &ResolvedInstall) -> (r: Shown<InstallPlanPayload>)
    ensures
        plan_shown(r, *resolved),
{
    let payload = plan_of(resolved);
    if resolved.ctx.json {
        return Shown::Json(payload);
    }
    if resolved.ctx.quiet {
        return Shown::Silent;
    }
    Shown::Lines(show_plan(&payload))
}

// ---------------------------------------------------------------------------
// Results
// ---------------------------------------------------------------------------

/// The lines of a result.
pub open spec fn result_lines(p: InstallResultPayload) -> Seq<Seq<(Style, Seq<char>)>> {
    seq![
        title(p.component@, p.version@, Style::Good, "succeeded"@),
        labelled("backend:"@, Style::Plain, p.backend@),
        labelled("package:"@, Style::Plain, p.package@),
        labelled("operation_id:"@, Style::Id, p.operation_id@),
        labelled("files installed:"@, Style::Plain, decimal(p.files_installed@.len())),
    ] + items(Style::Path, texts(p.files_installed@)) + section(
        Style::Header,
        "services (recorded, not started):"@,
        texts(p.services@),
    ) + section(Style::Warn, "warnings:"@, texts(p.warnings@))
}

/// The lines of a result.
pub fn render_result(p: &InstallResultPayload) -> (r: Vec<Vec<Span>>)
    ensures
        lines_of(r@) == result_lines(*p),
{
    let mut lines: Vec<Vec<Span>> = Vec::new();
    assert(lines_of(lines@) =~= Seq::<Seq<(Style, Seq<char>)>>::empty());
    push_title(
        &mut lines,
        p.component.as_str(),
        p.version.as_str(),
        Style::Good,
        "succeeded",
    );
    push_labelled(&mut lines, "backend:", Style::Plain, p.backend.as_str());
    push_labelled(&mut lines, "package:", Style::Plain, p.package.as_str());
    push_labelled(&mut lines, "operation_id:", Style::Id, p.operation_id.as_str());
    push_labelled(
        &mut lines,
        "files installed:",
        Style::Plain,
        number(p.files_installed.len() as u64).as_str(),
    );
    push_items(&mut lines, Style::Path, &p.files_installed);
    push_section(&mut lines, Style::Header, "services (recorded, not started):", &p.services);
    push_section(&mut lines, Style::Warn, "warnings:", &p.warnings);
    assert(lines_of(lines@) =~= result_lines(*p));
    lines
}

} // verus!
