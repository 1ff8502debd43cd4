//! Matching a host against the rows of a component's support matrix.
//!
//! Each row names an operating system, the versions and architectures that it
//! accepts and optionally a kernel range. Rows are tried in the order in which
//! they are written, and the first that accepts the host is taken.

use crate::env::EnvFacts;
use crate::text::laws::{
    is_blank, law_decimal_is_read_back, law_join_of_lists, law_trim_takes_white_space_off,
};
use crate::text::{
    chars_of, concat2, copy_list, copy_opt, decimal, is_digit, join, joined, list_contains, own, parse_number,
    parse_u32, same, split, split_on, starts_with, text_between, texts, trim, trimmed,
};
use vstd::prelude::*;

verus! {

/// One row of a support matrix.
#[derive(Debug)]
pub struct SupportEntry {
    /// Distribution id, such as `alinux`.
    pub os: String,
    /// Accepted versions.
    pub os_version: OsVersionSpec,
    /// Accepted CPU architectures.
    pub arch: Vec<String>,
    /// Kernel range such as `>=6.6`; any kernel when it is left out.
    pub kernel: Option<String>,
    /// Support tier.
    pub tier: String,
    /// Free-form note.
    pub notes: Option<String>,
}

/// One accepted version or several.
#[derive(Debug)]
pub enum OsVersionSpec {
    /// A single version.
    Single(String),
    /// A list of versions.
    Multiple(Vec<String>),
}

/// No row of a matrix accepts the host.
#[derive(Debug)]
pub struct UnsupportedError {
    /// Component that was matched.
    pub component: String,
    /// Distribution id of the host, or `unknown`.
    pub os: String,
    /// Distribution version of the host, or `unknown`.
    pub os_version: String,
    /// CPU architecture of the host.
    pub arch: String,
    /// Every row of the matrix, in order.
    pub supported_list: String,
}

// ---------------------------------------------------------------------------
// Versions
// ---------------------------------------------------------------------------

/// Whether the version `actual` is `v` or lies below it.
pub open spec fn version_within(v: Seq<char>, actual: Seq<char>) -> bool {
    actual == v || (v + seq!['.']).is_prefix_of(actual)
}

fn within(v: &str, actual: &str) -> (r: bool)
    ensures
        r == version_within(v@, actual@),
{
    proof {
        reveal_strlit(".");
        assert("."@ =~= seq!['.']);
    }
    same(actual, v) || starts_with(actual, concat2(v, ".").as_str())
}

impl OsVersionSpec {
    /// The accepted versions.
    pub open spec fn versions(self) -> Seq<Seq<char>> {
        match self {
            OsVersionSpec::Single(v) => seq![v@],
            OsVersionSpec::Multiple(vs) => texts(vs@),
        }
    }

    /// Whether one of the versions takes in `actual`.
    pub open spec fn accepts(self, actual: Seq<char>) -> bool {
        exists|i: int|
            0 <= i < self.versions().len() && version_within(
                #[trigger] self.versions()[i],
                actual,
            )
    }

    fn copied(&self) -> (r: Self)
        ensures
            r.versions() == self.versions(),
            (r is Single) == (self is Single),
    {
        match self {
            OsVersionSpec::Single(v) => OsVersionSpec::Single(v.clone()),
            OsVersionSpec::Multiple(vs) => OsVersionSpec::Multiple(copy_list(vs)),
        }
    }
}

/// Whether `actual` is accepted: equal to an accepted version, or beginning
/// with one that a `.` follows, so that `4` accepts `4.0` and not `40`.
pub fn os_version_matches(spec: &OsVersionSpec, actual: &str) -> (r: bool)
    ensures
        r == spec.accepts(actual@),
{
    match spec {
        OsVersionSpec::Single(v) => {
            assert(spec.versions()[0] == v@);
            within(v.as_str(), actual)
        },
        OsVersionSpec::Multiple(vs) => {
            let mut i: usize = 0;
            while i < vs.len()
                invariant
                    i <= vs@.len(),
                    spec.versions() == texts(vs@),
                    forall|k: int|
                        0 <= k < i ==> !version_within(#[trigger] spec.versions()[k], actual@),
                decreases vs.len() - i,
            {
                if within(vs[i].as_str(), actual) {
                    assert(spec.versions()[i as int] == vs@[i as int]@);
                    return true;
                }
                assert(spec.versions()[i as int] == vs@[i as int]@);
                i += 1;
            }
            false
        },
    }
}

// ---------------------------------------------------------------------------
// Kernel ranges
// ---------------------------------------------------------------------------

/// Comparison in a kernel range.
#[derive(Clone, Copy, PartialEq, Eq, Structural, Debug)]
pub enum Op {
    /// At least.
    Ge,
    /// More than.
    Gt,
    /// At most.
    Le,
    /// Less than.
    Lt,
    /// Exactly.
    Eq,
}

impl Op {
    /// Whether the version `have` stands in this relation to `want`.
    pub open spec fn holds(self, have: (u32, u32), want: (u32, u32)) -> bool {
        let less = have.0 < want.0 || (have.0 == want.0 && have.1 < want.1);
        match self {
            Op::Ge => !less,
            Op::Gt => !less && have != want,
            Op::Le => less || have == want,
            Op::Lt => less,
            Op::Eq => have == want,
        }
    }

    fn test(self, have: (u32, u32), want: (u32, u32)) -> (r: bool)
        ensures
            r == self.holds(have, want),
    {
        let less = have.0 < want.0 || (have.0 == want.0 && have.1 < want.1);
        let equal = have.0 == want.0 && have.1 == want.1;
        match self {
            Op::Ge => !less,
            Op::Gt => !less && !equal,
            Op::Le => less || equal,
            Op::Lt => less,
            Op::Eq => equal,
        }
    }
}

/// The part of `s` behind `prefix`.
pub open spec fn after(s: Seq<char>, prefix: Seq<char>) -> Seq<char> {
    s.skip(prefix.len() as int)
}

/// The comparison that a range writes down, and its version. One without an
/// operator asks for exactly its version.
pub open spec fn range_of(spec: Seq<char>) -> (Op, Seq<char>) {
    let s = trim(spec);
    if ">="@.is_prefix_of(s) {
        (Op::Ge, trim(after(s, ">="@)))
    } else if "<="@.is_prefix_of(s) {
        (Op::Le, trim(after(s, "<="@)))
    } else if "=="@.is_prefix_of(s) {
        (Op::Eq, trim(after(s, "=="@)))
    } else if ">"@.is_prefix_of(s) {
        (Op::Gt, trim(after(s, ">"@)))
    } else if "<"@.is_prefix_of(s) {
        (Op::Lt, trim(after(s, "<"@)))
    } else if "="@.is_prefix_of(s) {
        (Op::Eq, trim(after(s, "="@)))
    } else {
        (Op::Eq, s)
    }
}

/// What follows `prefix` in `s`, without surrounding white space.
fn trimmed_after(s: &str, prefix: &str) -> (r: Option<String>)
    ensures
        match r {
            Some(rest) => prefix@.is_prefix_of(s@) && rest@ == trim(after(s@, prefix@)),
            None => !prefix@.is_prefix_of(s@),
        },
{
    if starts_with(s, prefix) {
        let cs = chars_of(s);
        let n: usize = chars_of(prefix).len();
        let rest = text_between(&cs, n, cs.len());
        assert(rest@ =~= after(s@, prefix@));
        Some(trimmed(rest.as_str()))
    } else {
        None
    }
}

fn parse_range(spec: &str) -> (r: (Op, String))
    ensures
        (r.0, r.1@) == range_of(spec@),
{
    let s = trimmed(spec);
    let s = s.as_str();
    if let Some(rest) = trimmed_after(s, ">=") {
        (Op::Ge, rest)
    } else if let Some(rest) = trimmed_after(s, "<=") {
        (Op::Le, rest)
    } else if let Some(rest) = trimmed_after(s, "==") {
        (Op::Eq, rest)
    } else if let Some(rest) = trimmed_after(s, ">") {
        (Op::Gt, rest)
    } else if let Some(rest) = trimmed_after(s, "<") {
        (Op::Lt, rest)
    } else if let Some(rest) = trimmed_after(s, "=") {
        (Op::Eq, rest)
    } else {
        (Op::Eq, own(s))
    }
}

/// Whether a character may stand in the numeric head of a version.
pub open spec fn in_head(c: char) -> bool {
    is_digit(c) || c == '.'
}

/// The longest prefix of `s` that is made of digits and dots.
pub open spec fn numeric_head(s: Seq<char>) -> Seq<char>
    decreases s.len(),
{
    if s.len() == 0 || !in_head(s[0]) {
        Seq::empty()
    } else {
        seq![s[0]] + numeric_head(s.skip(1))
    }
}

/// The leading `major.minor` of a version. A minor number that is missing or
/// out of range counts as zero.
pub open spec fn major_minor(s: Seq<char>) -> Option<(u32, u32)> {
    let parts = split_on(numeric_head(s), '.');
    match parse_u32(parts[0]) {
        Some(major) => Some(
            (
                major,
                if parts.len() > 1 {
                    match parse_u32(parts[1]) {
                        Some(minor) => minor,
                        None => 0,
                    }
                } else {
                    0
                },
            ),
        ),
        None => None,
    }
}

/// Every text has a first piece.
proof fn lemma_split_has_first(s: Seq<char>, c: char)
    ensures
        split_on(s, c).len() > 0,
    decreases s.len(),
{
    if s.len() > 0 {
        lemma_split_has_first(s.drop_last(), c);
    }
}

fn parse_major_minor(s: &str) -> (r: Option<(u32, u32)>)
    ensures
        r == major_minor(s@),
{
    let cs = chars_of(s);
    let mut i: usize = 0;
    assert(cs@.skip(0) =~= s@);
    while i < cs.len() && (cs[i] == '.' || ('0' <= cs[i] && cs[i] <= '9'))
        invariant
            i <= cs@.len(),
            cs@ == s@,
            numeric_head(s@) == s@.take(i as int) + numeric_head(s@.skip(i as int)),
        decreases cs.len() - i,
    {
        proof {
            let rest = s@.skip(i as int);
            assert(rest.skip(1) =~= s@.skip(i + 1));
            assert(s@.take(i as int) + (seq![rest[0]] + numeric_head(rest.skip(1))) =~= s@.take(
                i + 1,
            ) + numeric_head(rest.skip(1)));
        }
        i += 1;
    }
    let head = text_between(&cs, 0, i);
    proof {
        assert(numeric_head(s@.skip(i as int)) =~= Seq::empty());
        assert(head@ =~= numeric_head(s@));
        lemma_split_has_first(head@, '.');
    }
    let parts = split(head.as_str(), '.');
    assert(texts(parts@)[0] == parts@[0]@);
    match parse_number(parts[0].as_str()) {
        Some(major) => {
            let minor: u32 = if parts.len() > 1 {
                assert(texts(parts@)[1] == parts@[1]@);
                match parse_number(parts[1].as_str()) {
                    Some(minor) => minor,
                    None => 0,
                }
            } else {
                0
            };
            Some((major, minor))
        },
        None => None,
    }
}

/// Whether the kernel release `actual` lies in the range `spec`. A range or a
/// release that cannot be read matches nothing.
pub open spec fn kernel_within(spec: Seq<char>, actual: Seq<char>) -> bool {
    let (op, version) = range_of(spec);
    match (major_minor(version), major_minor(actual)) {
        (Some(want), Some(have)) => op.holds(have, want),
        _ => false,
    }
}

/// Whether the kernel release `actual` satisfies the range `spec`.
///
/// Only the `major.minor` pair of each side counts. Operators are `>=`, `>`,
/// `<=`, `<`, `=` and `==`; none means `=`.
pub fn kernel_version_matches(spec: &str, actual: &str) -> (r: bool)
    ensures
        r == kernel_within(spec@, actual@),
{
    let (op, version) = parse_range(spec);
    match (parse_major_minor(version.as_str()), parse_major_minor(actual)) {
        (Some(want), Some(have)) => op.test(have, want),
        _ => false,
    }
}

// ---------------------------------------------------------------------------
// Matching
// ---------------------------------------------------------------------------

/// The text of an optional fact, empty when it is not known.
pub open spec fn known(o: Option<String>) -> Seq<char> {
    match o {
        Some(s) => s@,
        None => Seq::empty(),
    }
}

fn fact(o: &Option<String>) -> (r: String)
    ensures
        r@ == known(*o),
{
    match o {
        Some(s) => s.clone(),
        None => String::new(),
    }
}

impl SupportEntry {
    /// Whether the row accepts the host.
    pub open spec fn accepts(self, env: EnvFacts) -> bool {
        &&& self.os@ == known(env.os_id)
        &&& self.os_version.accepts(known(env.os_version))
        &&& texts(self.arch@).contains(env.arch@)
        &&& self.kernel matches Some(range) ==> kernel_within(range@, known(env.kernel))
    }

    fn matches(&self, os_id: &str, os_version: &str, arch: &str, kernel: &str) -> (r: bool)
        ensures
            r == ({
                &&& self.os@ == os_id@
                &&& self.os_version.accepts(os_version@)
                &&& texts(self.arch@).contains(arch@)
                &&& self.kernel matches Some(range) ==> kernel_within(range@, kernel@)
            }),
    {
        if !same(self.os.as_str(), os_id) || !os_version_matches(&self.os_version, os_version)
            || !list_contains(&self.arch, arch) {
            return false;
        }
        match &self.kernel {
            Some(spec) => kernel_version_matches(spec.as_str(), kernel),
            None => true,
        }
    }

    /// Whether two rows hold the same.
    pub open spec fn equals(self, other: SupportEntry) -> bool {
        &&& self.os@ == other.os@
        &&& (self.os_version is Single) == (other.os_version is Single)
        &&& self.os_version.versions() == other.os_version.versions()
        &&& texts(self.arch@) == texts(other.arch@)
        &&& self.kernel == other.kernel
        &&& self.tier@ == other.tier@
        &&& self.notes == other.notes
    }

    /// What the row reads in a list of supported hosts.
    pub open spec fn shown(self) -> Seq<char> {
        self.os@ + " "@ + join(self.os_version.versions(), "|"@) + " ("@ + join(
            texts(self.arch@),
            "|"@,
        ) + ")"@
    }

    fn show(&self) -> (r: String)
        ensures
            r@ == self.shown(),
    {
        let v = match &self.os_version {
            OsVersionSpec::Single(s) => {
                assert(join(seq![s@], "|"@) == s@);
                s.clone()
            },
            OsVersionSpec::Multiple(vs) => joined(vs, "|"),
        };
        let mut out = self.os.clone();
        out.append(" ");
        out.append(v.as_str());
        out.append(" (");
        out.append(joined(&self.arch, "|").as_str());
        out.append(")");
        out
    }
}

impl Clone for SupportEntry {
    fn clone(&self) -> (r: Self)
        ensures
            r.equals(*self),
    {
        SupportEntry {
            os: self.os.clone(),
            os_version: self.os_version.copied(),
            arch: copy_list(&self.arch),
            kernel: copy_opt(&self.kernel),
            tier: self.tier.clone(),
            notes: copy_opt(&self.notes),
        }
    }
}

/// What a matrix reads: its rows in order, with commas between them.
pub open spec fn supported_text(matrix: Seq<SupportEntry>) -> Seq<char> {
    join(matrix.map_values(|e: SupportEntry| e.shown()), ", "@)
}

fn render_supported_list(matrix: &[SupportEntry]) -> (r: String)
    ensures
        r@ == supported_text(matrix@),
{
    let ghost rows = matrix@.map_values(|e: SupportEntry| e.shown());
    let mut parts: Vec<String> = Vec::new();
    let mut i: usize = 0;
    while i < matrix.len()
        invariant
            i <= matrix@.len(),
            rows == matrix@.map_values(|e: SupportEntry| e.shown()),
            texts(parts@) == rows.take(i as int),
        decreases matrix.len() - i,
    {
        let ghost before = parts@;
        parts.push(matrix[i].show());
        assert(texts(parts@) =~= texts(before).push(matrix@[i as int].shown()));
        assert(rows.take(i + 1) =~= rows.take(i as int).push(rows[i as int]));
        i += 1;
    }
    assert(rows.take(rows.len() as int) =~= rows);
    joined(&parts, ", ")
}

/// Position of the first row that accepts the host.
pub open spec fn first_accepting(env: EnvFacts, matrix: Seq<SupportEntry>) -> Option<int>
    decreases matrix.len(),
{
    if matrix.len() == 0 {
        None
    } else if matrix[0].accepts(env) {
        Some(0)
    } else {
        match first_accepting(env, matrix.skip(1)) {
            Some(i) => Some(i + 1),
            None => None,
        }
    }
}

proof fn lemma_first_accepting(env: EnvFacts, matrix: Seq<SupportEntry>, at: int)
    requires
        0 <= at <= matrix.len(),
        forall|k: int| 0 <= k < at ==> !(#[trigger] matrix[k]).accepts(env),
    ensures
        at == matrix.len() ==> first_accepting(env, matrix) is None,
        at < matrix.len() && matrix[at].accepts(env) ==> first_accepting(env, matrix) == Some(at),
    decreases matrix.len(),
{
    if matrix.len() > 0 && at > 0 {
        let rest = matrix.skip(1);
        assert(!matrix[0].accepts(env));
        assert forall|k: int| 0 <= k < at - 1 implies !(#[trigger] rest[k]).accepts(env) by {
            assert(rest[k] == matrix[k + 1]);
        }
        lemma_first_accepting(env, rest, at - 1);
    }
}

/// `unknown` in place of an empty fact.
pub open spec fn or_unknown(s: Seq<char>) -> Seq<char> {
    if s.len() == 0 {
        "unknown"@
    } else {
        s
    }
}

fn named_or_unknown(s: &str) -> (r: String)
    ensures
        r@ == or_unknown(s@),
{
    if chars_of(s).len() == 0 {
        own("unknown")
    } else {
        own(s)
    }
}

impl UnsupportedError {
    /// Whether this error tells of the host and of everything that the matrix
    /// offers.
    pub open spec fn reports(
        self,
        env: EnvFacts,
        component_name: Seq<char>,
        matrix: Seq<SupportEntry>,
    ) -> bool {
        &&& self.component@ == component_name
        &&& self.os@ == or_unknown(known(env.os_id))
        &&& self.os_version@ == or_unknown(known(env.os_version))
        &&& self.arch@ == env.arch@
        &&& self.supported_list@ == supported_text(matrix)
    }

    /// The error as one line.
    pub open spec fn text(self) -> Seq<char> {
        "unsupported: "@ + self.component@ + " not supported on "@ + self.os@ + " "@
            + self.os_version@ + " ("@ + self.arch@ + "); supported: "@ + self.supported_list@
    }

    /// The error as one line.
    pub fn message(&self) -> (r: String)
        ensures
            r@ == self.text(),
    {
        let mut out = own("unsupported: ");
        out.append(self.component.as_str());
        out.append(" not supported on ");
        out.append(self.os.as_str());
        out.append(" ");
        out.append(self.os_version.as_str());
        out.append(" (");
        out.append(self.arch.as_str());
        out.append("); supported: ");
        out.append(self.supported_list.as_str());
        out
    }
}

/// The first row of `matrix` that accepts the host, or an error that lists
/// what the matrix offers.
///
/// A row accepts the host when its `os` is the distribution id, its versions
/// take in the distribution version, its architectures hold that of the host
/// and its kernel range, if any, takes in the running kernel.
pub fn match_support(env: &EnvFacts, component_name: &str, matrix: &[SupportEntry]) -> (r: Result<
    SupportEntry,
    UnsupportedError,
>)
    ensures
        match first_accepting(*env, matrix@) {
            Some(i) => r matches Ok(entry) && entry.equals(matrix@[i]),
            None => r matches Err(e) && e.reports(*env, component_name@, matrix@),
        },
{
    let os_id = fact(&env.os_id);
    let os_version = fact(&env.os_version);
    let kernel = fact(&env.kernel);
    let mut i: usize = 0;
    while i < matrix.len()
        invariant
            i <= matrix@.len(),
            os_id@ == known(env.os_id),
            os_version@ == known(env.os_version),
            kernel@ == known(env.kernel),
            forall|k: int| 0 <= k < i ==> !(#[trigger] matrix@[k]).accepts(*env),
        decreases matrix.len() - i,
    {
        if matrix[i].matches(
            os_id.as_str(),
            os_version.as_str(),
            env.arch.as_str(),
            kernel.as_str(),
        ) {
            proof {
                lemma_first_accepting(*env, matrix@, i as int);
            }
            return Ok(matrix[i].clone());
        }
        i += 1;
    }
    proof {
        lemma_first_accepting(*env, matrix@, matrix@.len() as int);
    }
    Err(
        UnsupportedError {
            component: own(component_name),
            os: named_or_unknown(os_id.as_str()),
            os_version: named_or_unknown(os_version.as_str()),
            arch: env.arch.clone(),
            supported_list: render_supported_list(matrix),
        },
    )
}

// ---------------------------------------------------------------------------
// Laws
// ---------------------------------------------------------------------------

/// The row that is taken accepts the host and none before it does; where none
/// is taken, no row accepts the host.
pub proof fn law_first_match_wins(env: EnvFacts, matrix: Seq<SupportEntry>)
    ensures
        match first_accepting(env, matrix) {
            Some(i) => {
                &&& 0 <= i < matrix.len()
                &&& matrix[i].accepts(env)
                &&& forall|k: int| 0 <= k < i ==> !(#[trigger] matrix[k]).accepts(env)
            },
            None => forall|k: int| 0 <= k < matrix.len() ==> !(#[trigger] matrix[k]).accepts(env),
        },
    decreases matrix.len(),
{
    if matrix.len() > 0 && !matrix[0].accepts(env) {
        let rest = matrix.skip(1);
        law_first_match_wins(env, rest);
        match first_accepting(env, rest) {
            Some(i) => {
                assert(rest[i] == matrix[i + 1]);
                assert forall|k: int| 0 <= k < i + 1 implies !(#[trigger] matrix[k]).accepts(
                    env,
                ) by {
                    if k > 0 {
                        assert(rest[k - 1] == matrix[k]);
                    }
                }
            },
            None => {
                assert forall|k: int| 0 <= k < matrix.len() implies !(#[trigger] matrix[k]).accepts(
                    env,
                ) by {
                    if k > 0 {
                        assert(rest[k - 1] == matrix[k]);
                    }
                }
            },
        }
    }
}

/// A version takes in itself and what a dot sets off below it, and nothing
/// that merely begins with the same characters.
pub proof fn law_version_prefix_needs_a_dot(v: Seq<char>, rest: Seq<char>)
    ensures
        version_within(v, v),
        version_within(v, v + seq!['.'] + rest),
        rest.len() > 0 && rest[0] != '.' ==> !version_within(v, v + rest),
{
    let dotted = v + seq!['.'];
    assert(dotted =~= (dotted + rest).subrange(0, dotted.len() as int));
    if rest.len() > 0 && rest[0] != '.' {
        let actual = v + rest;
        assert(actual[v.len() as int] == rest[0]);
        if dotted.is_prefix_of(actual) {
            assert(dotted[v.len() as int] == actual[v.len() as int]);
        }
        assert(actual.len() != v.len());
    }
}

/// Splitting at a separator splits both sides.
proof fn lemma_split_at(a: Seq<char>, b: Seq<char>, c: char)
    ensures
        split_on(a.push(c) + b, c) == split_on(a, c) + split_on(b, c),
    decreases b.len(),
{
    let s = a.push(c) + b;
    if b.len() == 0 {
        assert(s =~= a.push(c));
        assert(s.drop_last() =~= a);
        assert(split_on(a, c).push(Seq::empty()) =~= split_on(a, c) + seq![Seq::<char>::empty()]);
    } else {
        lemma_split_at(a, b.drop_last(), c);
        lemma_split_has_first(b.drop_last(), c);
        assert(s.drop_last() =~= a.push(c) + b.drop_last());
        let left = split_on(a, c);
        let rest = split_on(b.drop_last(), c);
        if b.last() == c {
            assert((left + rest).push(Seq::empty()) =~= left + rest.push(Seq::empty()));
        } else {
            let piece = rest.last().push(b.last());
            assert((left + rest).last() == rest.last());
            assert((left + rest).drop_last().push(piece) =~= left + rest.drop_last().push(piece));
        }
    }
}

/// A text without the separator is one piece.
proof fn lemma_split_whole(s: Seq<char>, c: char)
    requires
        !s.contains(c),
    ensures
        split_on(s, c) == seq![s],
    decreases s.len(),
{
    if s.len() > 0 {
        assert(s[s.len() - 1] == s.last());
        assert(!s.drop_last().contains(c)) by {
            if s.drop_last().contains(c) {
                let k = choose|k: int| 0 <= k < s.len() - 1 && s.drop_last()[k] == c;
                assert(s[k] == c);
            }
        }
        lemma_split_whole(s.drop_last(), c);
        assert(s.drop_last().push(s.last()) =~= s);
        assert(split_on(s, c) =~= seq![s]);
    } else {
        assert(s =~= Seq::empty());
    }
}

/// The numeric head goes on behind a text made of digits and dots.
proof fn lemma_head_extends(a: Seq<char>, b: Seq<char>)
    requires
        forall|i: int| 0 <= i < a.len() ==> in_head(#[trigger] a[i]),
    ensures
        numeric_head(a + b) == a + numeric_head(b),
    decreases a.len(),
{
    let s = a + b;
    if a.len() == 0 {
        assert(s =~= b);
        assert(a + numeric_head(b) =~= numeric_head(b));
    } else {
        assert(s[0] == a[0]);
        assert(s.skip(1) =~= a.skip(1) + b);
        assert forall|i: int| 0 <= i < a.skip(1).len() implies in_head(#[trigger] a.skip(1)[i]) by {
            assert(a.skip(1)[i] == a[i + 1]);
        }
        lemma_head_extends(a.skip(1), b);
        assert(seq![a[0]] + (a.skip(1) + numeric_head(b)) =~= a + numeric_head(b));
    }
}

/// Whatever follows `major.minor` in a release, a patch number or a suffix,
/// changes nothing.
pub proof fn law_patch_and_suffix_ignored(
    major: Seq<char>,
    minor: Seq<char>,
    rest: Seq<char>,
    spec: Seq<char>,
)
    requires
        forall|i: int| 0 <= i < major.len() ==> is_digit(#[trigger] major[i]),
        forall|i: int| 0 <= i < minor.len() ==> is_digit(#[trigger] minor[i]),
        rest.len() > 0 ==> !is_digit(rest[0]),
    ensures
        major_minor(major + seq!['.'] + minor + rest) == major_minor(major + seq!['.'] + minor),
        kernel_within(spec, major + seq!['.'] + minor + rest) == kernel_within(
            spec,
            major + seq!['.'] + minor,
        ),
{
    let base = major + seq!['.'] + minor;
    assert forall|i: int| 0 <= i < base.len() implies in_head(#[trigger] base[i]) by {
        if i < major.len() {
            assert(base[i] == major[i]);
        } else if i > major.len() {
            assert(base[i] == minor[i - major.len() - 1]);
        }
    }
    lemma_head_extends(base, rest);
    lemma_head_extends(base, Seq::empty());
    assert(base + Seq::<char>::empty() =~= base);
    assert(numeric_head(Seq::<char>::empty()) =~= Seq::empty());
    let h = numeric_head(rest);
    assert(!major.contains('.'));
    assert(!minor.contains('.'));
    lemma_split_whole(major, '.');
    lemma_split_whole(minor, '.');
    lemma_split_at(major, minor, '.');
    assert(major.push('.') + minor =~= base);
    if h.len() == 0 {
        assert(base + h =~= base);
    } else {
        assert(rest[0] == '.');
        let h2 = h.skip(1);
        assert(h =~= seq!['.'] + h2);
        let tail = minor + h;
        assert(minor.push('.') + h2 =~= tail);
        lemma_split_at(minor, h2, '.');
        lemma_split_at(major, tail, '.');
        assert(major.push('.') + tail =~= base + h);
        let parts = split_on(base + h, '.');
        assert(parts[0] == major);
        assert(parts[1] == minor);
        lemma_split_has_first(h2, '.');
        assert(parts.len() > 1);
    }
}

/// A range or a release without a readable version matches nothing.
pub proof fn law_unreadable_never_matches(spec: Seq<char>, actual: Seq<char>)
    requires
        major_minor(range_of(spec).1) is None || major_minor(actual) is None,
    ensures
        !kernel_within(spec, actual),
{
}

/// Whether a release with these numbers comes before a version.
pub open spec fn comes_before(major: nat, minor: nat, want_major: nat, want_minor: nat) -> bool {
    major < want_major || (major == want_major && minor < want_minor)
}

proof fn lemma_numbers_read(major: nat, minor: nat, rest: Seq<char>)
    requires
        major <= u32::MAX,
        minor <= u32::MAX,
        rest.len() > 0 ==> !is_digit(rest[0]),
    ensures
        major_minor(decimal(major) + seq!['.'] + decimal(minor) + rest) == Some(
            (major as u32, minor as u32),
        ),
{
    law_decimal_is_read_back(major, 0);
    law_decimal_is_read_back(minor, 0);
    let a = decimal(major);
    let b = decimal(minor);
    let base = a + seq!['.'] + b;
    law_patch_and_suffix_ignored(a, b, rest, Seq::empty());
    assert forall|i: int| 0 <= i < base.len() implies in_head(#[trigger] base[i]) by {
        if i < a.len() {
            assert(base[i] == a[i]);
        } else if i > a.len() {
            assert(base[i] == b[i - a.len() - 1]);
        }
    }
    lemma_head_extends(base, Seq::empty());
    assert(base + Seq::<char>::empty() =~= base);
    assert(!a.contains('.'));
    assert(!b.contains('.'));
    lemma_split_whole(a, '.');
    lemma_split_whole(b, '.');
    lemma_split_at(a, b, '.');
    assert(a.push('.') + b =~= base);
    assert(split_on(base, '.') =~= seq![a, b]);
}

proof fn lemma_range_read(
    before: Seq<char>,
    op: Seq<char>,
    between: Seq<char>,
    v: Seq<char>,
    behind: Seq<char>,
)
    requires
        is_blank(before),
        is_blank(between),
        is_blank(behind),
        v.len() > 0,
        is_digit(v[0]),
        is_digit(v.last()),
    ensures
        op == ">="@ ==> range_of(before + op + between + v + behind) == (Op::Ge, v),
        op == "<="@ ==> range_of(before + op + between + v + behind) == (Op::Le, v),
        op == ">"@ ==> range_of(before + op + between + v + behind) == (Op::Gt, v),
        op == "<"@ ==> range_of(before + op + between + v + behind) == (Op::Lt, v),
        op == "=="@ ==> range_of(before + op + between + v + behind) == (Op::Eq, v),
        op == "="@ ==> range_of(before + op + between + v + behind) == (Op::Eq, v),
        op.len() == 0 ==> range_of(before + op + between + v + behind) == (Op::Eq, v),
{
    reveal_strlit(">=");
    reveal_strlit("<=");
    reveal_strlit(">");
    reveal_strlit("<");
    reveal_strlit("==");
    reveal_strlit("=");
    let text = before + op + between + v + behind;
    if op.len() == 0 {
        let lead = before + between;
        assert(text =~= lead + v + behind);
        law_trim_takes_white_space_off(lead, v, behind);
        assert(v.subrange(0, 1)[0] == v[0]);
        if v.len() >= 2 {
            assert(v.subrange(0, 2)[0] == v[0]);
        }
    } else if op == ">="@ || op == "<="@ || op == ">"@ || op == "<"@ || op == "=="@ || op == "="@ {
        let core = op + between + v;
        assert(text =~= before + core + behind);
        assert(core[0] == op[0] && core.last() == v.last());
        law_trim_takes_white_space_off(before, core, behind);
        assert(core.skip(op.len() as int) =~= between + v + Seq::<char>::empty());
        law_trim_takes_white_space_off(between, v, Seq::empty());
        assert(core.subrange(0, op.len() as int) =~= op);
        assert(core.subrange(0, 2)[0] == core[0] && core.subrange(0, 2)[1] == core[1]);
        assert(core.subrange(0, 1)[0] == core[0]);
        if op.len() == 1 {
            assert(core[1] == if between.len() > 0 {
                between[0]
            } else {
                v[0]
            });
        } else {
            assert(core[1] == op[1]);
        }
    }
}

/// What a range means: with `a` for the numbers of the release and `v` for those
/// of the range, `>=` takes `a` unless it comes before `v`, `<` exactly those
/// that `>=` refuses, `>` takes `a` where `v` comes before it, `<=` exactly those
/// that `>` refuses, and `=`, `==` or no operator those that come neither before
/// nor after. Blanks and what follows the two numbers of a release do not count.
pub proof fn law_kernel_ranges(
    blanks: (Seq<char>, Seq<char>, Seq<char>),
    v: (nat, nat),
    a: (nat, nat),
    rest: Seq<char>,
)
    requires
        is_blank(blanks.0),
        is_blank(blanks.1),
        is_blank(blanks.2),
        v.0 <= u32::MAX && v.1 <= u32::MAX && a.0 <= u32::MAX && a.1 <= u32::MAX,
        rest.len() > 0 ==> !('0' <= rest[0] <= '9'),
    ensures
        ({
            let version = decimal(v.0) + seq!['.'] + decimal(v.1);
            let release = decimal(a.0) + seq!['.'] + decimal(a.1) + rest;
            let accepts = |op: Seq<char>|
                kernel_within(blanks.0 + op + blanks.1 + version + blanks.2, release);
            let less = comes_before(a.0, a.1, v.0, v.1);
            let more = comes_before(v.0, v.1, a.0, a.1);
            &&& accepts(">="@) <==> !less
            &&& accepts("<"@) <==> !accepts(">="@)
            &&& accepts(">"@) <==> more
            &&& accepts("<="@) <==> !accepts(">"@)
            &&& accepts("="@) <==> accepts(">="@) && accepts("<="@)
            &&& accepts("=="@) <==> accepts("="@)
            &&& accepts(Seq::empty()) <==> accepts("="@)
            &&& !(less && more)
        }),
{
    let version = decimal(v.0) + seq!['.'] + decimal(v.1);
    law_decimal_is_read_back(v.0, 0);
    law_decimal_is_read_back(v.1, 0);
    assert(version[0] == decimal(v.0)[0]);
    assert(version.last() == decimal(v.1).last());
    lemma_numbers_read(v.0, v.1, Seq::empty());
    assert(version + Seq::<char>::empty() =~= version);
    lemma_numbers_read(a.0, a.1, rest);
    lemma_range_read(blanks.0, ">="@, blanks.1, version, blanks.2);
    lemma_range_read(blanks.0, "<="@, blanks.1, version, blanks.2);
    lemma_range_read(blanks.0, ">"@, blanks.1, version, blanks.2);
    lemma_range_read(blanks.0, "<"@, blanks.1, version, blanks.2);
    lemma_range_read(blanks.0, "=="@, blanks.1, version, blanks.2);
    lemma_range_read(blanks.0, "="@, blanks.1, version, blanks.2);
    lemma_range_read(blanks.0, Seq::empty(), blanks.1, version, blanks.2);
}

/// A release without a minor number counts as one with the number zero.
pub proof fn law_missing_minor_is_zero(spec: Seq<char>, major: nat, rest: Seq<char>)
    requires
        major <= u32::MAX,
        rest.len() > 0 ==> !('0' <= rest[0] <= '9') && rest[0] != '.',
    ensures
        kernel_within(spec, decimal(major) + rest) == kernel_within(
            spec,
            decimal(major) + seq!['.'] + decimal(0),
        ),
{
    law_decimal_is_read_back(major, 0);
    lemma_numbers_read(major, 0, Seq::empty());
    let a = decimal(major);
    let zero = a + seq!['.'] + decimal(0);
    assert(zero + Seq::<char>::empty() =~= zero);
    assert forall|i: int| 0 <= i < a.len() implies in_head(#[trigger] a[i]) by {}
    lemma_head_extends(a, rest);
    assert(numeric_head(rest) =~= Seq::empty());
    assert(a + Seq::<char>::empty() =~= a);
    assert(!a.contains('.'));
    lemma_split_whole(a, '.');
}

/// A release that does not begin with a digit lies in no range.
pub proof fn law_release_begins_with_a_digit(spec: Seq<char>, release: Seq<char>)
    requires
        release.len() == 0 || !('0' <= release[0] <= '9'),
    ensures
        !kernel_within(spec, release),
{
    let head = numeric_head(release);
    if head.len() > 0 {
        assert(head[0] == release[0]);
        assert(release[0] == '.');
        let rest = head.skip(1);
        assert(head =~= Seq::<char>::empty().push('.') + rest);
        lemma_split_at(Seq::empty(), rest, '.');
        assert(split_on(Seq::<char>::empty(), '.') =~= seq![Seq::<char>::empty()]);
        assert(split_on(head, '.')[0] == Seq::<char>::empty());
    }
}

/// What a version takes in is itself and what has a dot right behind it.
pub proof fn law_version_takes_in(v: Seq<char>, actual: Seq<char>)
    ensures
        version_within(v, actual) <==> {
            ||| actual == v
            ||| {
                &&& actual.len() > v.len()
                &&& actual.take(v.len() as int) == v
                &&& actual[v.len() as int] == '.'
            }
        },
{
    let dotted = v + seq!['.'];
    if actual.len() > v.len() {
        let n = v.len() as int;
        assert(actual.subrange(0, n + 1) =~= actual.take(n).push(actual[n]));
        assert(dotted =~= v.push('.'));
        if dotted.is_prefix_of(actual) {
            assert(dotted =~= actual.subrange(0, n + 1));
            assert(v =~= dotted.take(n));
            assert(actual.take(n) =~= dotted.take(n));
            assert(dotted[n] == '.');
        }
    }
}

/// A row accepts a host exactly when its system, one of its versions, one of its
/// architectures and its kernel range all do. What is not known of a host is
/// empty, and a row without a range takes any kernel.
pub proof fn law_row_accepts_by_all_four(row: SupportEntry, env: EnvFacts)
    ensures
        row.accepts(env) <==> {
            &&& match env.os_id {
                Some(id) => row.os@ == id@,
                None => row.os@.len() == 0,
            }
            &&& match row.os_version {
                OsVersionSpec::Single(v) => version_within(v@, known(env.os_version)),
                OsVersionSpec::Multiple(vs) => exists|i: int|
                    0 <= i < vs@.len() && version_within(
                        (#[trigger] vs@[i])@,
                        known(env.os_version),
                    ),
            }
            &&& exists|k: int| 0 <= k < row.arch@.len() && (#[trigger] row.arch@[k])@ == env.arch@
            &&& match row.kernel {
                Some(range) => kernel_within(range@, known(env.kernel)),
                None => true,
            }
        },
        env.os_version matches Some(v) ==> known(env.os_version) == v@,
        env.kernel matches Some(v) ==> known(env.kernel) == v@,
        env.os_version is None ==> known(env.os_version).len() == 0,
        env.kernel is None ==> known(env.kernel).len() == 0,
{
    assert(row.os@.len() == 0 ==> row.os@ =~= Seq::empty());
    let arches = texts(row.arch@);
    if arches.contains(env.arch@) {
        let k = choose|k: int| 0 <= k < arches.len() && arches[k] == env.arch@;
        assert(row.arch@[k]@ == env.arch@);
    }
    if exists|k: int| 0 <= k < row.arch@.len() && (#[trigger] row.arch@[k])@ == env.arch@ {
        let k = choose|k: int| 0 <= k < row.arch@.len() && (#[trigger] row.arch@[k])@ == env.arch@;
        assert(arches[k] == env.arch@);
    }
    let versions = row.os_version.versions();
    match row.os_version {
        OsVersionSpec::Single(v) => {
            assert(versions[0] == v@);
        },
        OsVersionSpec::Multiple(vs) => {
            assert forall|i: int| 0 <= i < vs@.len() implies versions[i] == (
            #[trigger] vs@[i])@ by {}
            if row.os_version.accepts(known(env.os_version)) {
                let i = choose|i: int|
                    0 <= i < versions.len() && version_within(
                        #[trigger] versions[i],
                        known(env.os_version),
                    );
                assert(vs@[i]@ == versions[i]);
            }
        },
    }
}

/// The row that is handed back is the one that was found, field by field.
pub proof fn law_found_row_is_handed_back(a: SupportEntry, b: SupportEntry, env: EnvFacts)
    requires
        a.equals(b),
    ensures
        a.os@ == b.os@,
        texts(a.arch@) == texts(b.arch@),
        a.kernel == b.kernel,
        a.tier@ == b.tier@,
        a.notes == b.notes,
        a.accepts(env) == b.accepts(env),
        a.shown() == b.shown(),
{
}

/// A host that is refused is told what it is and, row by row, what there is.
pub proof fn law_refusal_names_host_and_rows(
    e: UnsupportedError,
    env: EnvFacts,
    component: Seq<char>,
    one: Seq<SupportEntry>,
    other: Seq<SupportEntry>,
    row: SupportEntry,
)
    requires
        e.reports(env, component, one + other),
        one.len() > 0,
        other.len() > 0,
    ensures
        e.component@ == component,
        e.arch@ == env.arch@,
        env.os_id is Some && env.os_id->0@.len() > 0 ==> e.os@ == env.os_id->0@,
        env.os_id is None ==> e.os@ == "unknown"@,
        env.os_version is Some && env.os_version->0@.len() > 0 ==> e.os_version@
            == env.os_version->0@,
        env.os_version is None ==> e.os_version@ == "unknown"@,
        e.supported_list@ == supported_text(one) + ", "@ + supported_text(other),
        supported_text(seq![row]) == row.os@ + " "@ + join(row.os_version.versions(), "|"@) + " ("@
            + join(texts(row.arch@), "|"@) + ")"@,
        e.text() == "unsupported: "@ + component + " not supported on "@ + e.os@ + " "@
            + e.os_version@ + " ("@ + env.arch@ + "); supported: "@ + e.supported_list@,
{
    let show = |x: SupportEntry| x.shown();
    assert((one + other).map_values(show) =~= one.map_values(show) + other.map_values(show));
    law_join_of_lists(one.map_values(show), other.map_values(show), ", "@);
    let single = seq![row].map_values(show);
    assert(single.len() == 1 && single[0] == row.shown());
}

} // verus!
