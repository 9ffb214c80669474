//! Probe generation: one harness per contract clause, each deciding one question about the
//! clause with a single model-checker query, and every clause that cannot be probed
//! accounted for with its reason.

use vstd::prelude::*;

use crate::arbitrary::{arbitrary_names, collect_arbitrary, strictly_sorted};
use crate::harness::{items_probes, lemma_items_probes_none, walk, Config};
use crate::model::{name_set, AttrNode, ItemNode};
use crate::syntax::{parse_source, parsed_file, source_model};
use crate::text::str_eq;

pub use crate::verdict::{interpret, render_module};

verus! {

/// One generated harness.
#[derive(Debug, Clone)]
pub struct Probe {
    /// The file that holds the probed function.
    pub file: String,
    /// The line of the probed function's name.
    pub line: usize,
    /// The probed function's name.
    pub func: String,
    /// The harness's name.
    pub name: String,
    /// The harness's source text.
    pub code: String,
}

/// A clause that could not be probed, with the reason. When a whole function cannot be
/// probed, each of its clauses gets a skip with the same reason.
#[derive(Debug, Clone)]
pub struct Skip {
    pub file: String,
    pub func: String,
    pub reason: String,
}

/// The outcome of probe generation over a set of source files.
#[derive(Debug)]
pub struct ProbeReport {
    /// The number of clauses found, whether probed or skipped.
    pub clauses_seen: usize,
    pub probes: Vec<Probe>,
    pub skips: Vec<Skip>,
    /// Types found carrying a hand-written `impl kani::Arbitrary`, which makes them
    /// probeable even though they are not primitives; sorted, each once.
    pub arbitrary_types: Vec<String>,
}

impl Default for ProbeReport {
    fn default() -> (r: Self)
        ensures
            r.clauses_seen == 0,
            r.probes@.len() == 0,
            r.skips@.len() == 0,
            r.arbitrary_types@.len() == 0,
    {
        ProbeReport { clauses_seen: 0, probes: Vec::new(), skips: Vec::new(), arbitrary_types: Vec::new() }
    }
}

/// A probe as a spec value.
pub struct ProbeView {
    pub file: Seq<char>,
    pub line: nat,
    pub func: Seq<char>,
    pub name: Seq<char>,
    pub code: Seq<char>,
}

/// A skip as a spec value.
pub struct SkipView {
    pub file: Seq<char>,
    pub func: Seq<char>,
    pub reason: Seq<char>,
}

impl View for Probe {
    type V = ProbeView;

    open spec fn view(&self) -> ProbeView {
        ProbeView {
            file: self.file@,
            line: self.line as nat,
            func: self.func@,
            name: self.name@,
            code: self.code@,
        }
    }
}

impl View for Skip {
    type V = SkipView;

    open spec fn view(&self) -> SkipView {
        SkipView { file: self.file@, func: self.func@, reason: self.reason@ }
    }
}

/// A source file to generate probes for: its path and its text.
pub struct SourceFile {
    pub path: String,
    pub text: String,
}

/// A source file that parsed: its path and the model of its items.
pub struct ParsedFile {
    pub path: String,
    pub items: Vec<ItemNode>,
}

/// The views of a list of strings.
pub open spec fn strs(v: Seq<String>) -> Seq<Seq<char>> {
    v.map_values(|s: String| s@)
}

/// The views of a list of probes.
pub open spec fn probe_views(v: Seq<Probe>) -> Seq<ProbeView> {
    v.map_values(|p: Probe| p@)
}

/// The views of a list of skips.
pub open spec fn skip_views(v: Seq<Skip>) -> Seq<SkipView> {
    v.map_values(|s: Skip| s@)
}

/// `parts` joined with `sep` between consecutive elements, as `[String]::join` does.
pub open spec fn join(parts: Seq<Seq<char>>, sep: Seq<char>) -> Seq<char>
    decreases parts.len(),
{
    if parts.len() == 0 {
        seq![]
    } else if parts.len() == 1 {
        parts[0]
    } else {
        join(parts.drop_last(), sep) + sep + parts.last()
    }
}

/// Appends `parts` joined with `sep` to `out`.
pub(crate) fn push_join(out: &mut String, parts: &Vec<String>, sep: &str)
    ensures
        final(out)@ == old(out)@ + join(strs(parts@), sep@),
{
    let ghost start = out@;
    let mut i: usize = 0;
    while i < parts.len()
        invariant
            i <= parts@.len(),
            out@ == start + join(strs(parts@).take(i as int), sep@),
        decreases parts@.len() - i,
    {
        let ghost before = strs(parts@).take(i as int);
        if i > 0 {
            out.append(sep);
        }
        out.append(parts[i].as_str());
        proof {
            let now = strs(parts@).take(i + 1);
            assert(now.drop_last() =~= before);
            if i == 0 {
                assert(now.len() == 1);
            }
        }
        i += 1;
    }
    assert(strs(parts@).take(parts@.len() as int) =~= strs(parts@));
}

/// The argument lists of the attributes among `metas` whose path ends in `keyword` and that
/// carry one, in order.
pub open spec fn named_lists(metas: Seq<AttrNode>, keyword: Seq<char>) -> Seq<Seq<char>>
    decreases metas.len(),
{
    if metas.len() == 0 {
        seq![]
    } else {
        let rest = named_lists(metas.drop_last(), keyword);
        match (metas.last().name, metas.last().list) {
            (Some(n), Some(l)) => if n@ == keyword { rest.push(l@) } else { rest },
            _ => rest,
        }
    }
}

/// The contract clauses that attribute `a` carries: its argument list when its path ends in
/// `keyword`, as in `#[ensures(...)]` and `#[kani::ensures(...)]`; for a `cfg_attr`, the
/// argument lists of the attributes it applies (every item after its predicate) whose path
/// ends in `keyword`, as in `#[cfg_attr(kani, kani::ensures(...))]`.
pub open spec fn attr_clauses(a: AttrNode, keyword: Seq<char>) -> Seq<Seq<char>> {
    match (a.name, a.list) {
        (Some(n), Some(l)) => if n@ == keyword {
            seq![l@]
        } else if n@ == "cfg_attr"@ && a.inner@.len() > 0 {
            named_lists(a.inner@.drop_first(), keyword)
        } else {
            seq![]
        },
        _ => seq![],
    }
}

/// The contract clauses of kind `keyword` that the attributes `attrs` carry, in order (see
/// [`attr_clauses`]).
pub open spec fn clause_list(attrs: Seq<AttrNode>, keyword: Seq<char>) -> Seq<Seq<char>>
    decreases attrs.len(),
{
    if attrs.len() == 0 {
        seq![]
    } else {
        clause_list(attrs.drop_last(), keyword) + attr_clauses(attrs.last(), keyword)
    }
}

/// The clauses of kind `keyword` among `attrs` (see [`clause_list`]).
pub(crate) fn clauses_of(attrs: &Vec<AttrNode>, keyword: &str) -> (r: Vec<String>)
    ensures
        strs(r@) == clause_list(attrs@, keyword@),
{
    let mut r: Vec<String> = Vec::new();
    let mut i: usize = 0;
    while i < attrs.len()
        invariant
            i <= attrs@.len(),
            strs(r@) == clause_list(attrs@.take(i as int), keyword@),
        decreases attrs@.len() - i,
    {
        assert(attrs@.take(i + 1).drop_last() =~= attrs@.take(i as int));
        let ghost before = strs(r@);
        let a = &attrs[i];
        match (&a.name, &a.list) {
            (Some(n), Some(l)) => {
                if str_eq(n.as_str(), keyword) {
                    r.push(l.clone());
                    assert(strs(r@) =~= before + seq![l@]);
                } else if str_eq(n.as_str(), "cfg_attr") && a.inner.len() > 0 {
                    let mut j: usize = 1;
                    assert(a.inner@.subrange(1, 1) =~= Seq::<AttrNode>::empty());
                    assert(before + Seq::<Seq<char>>::empty() =~= before);
                    while j < a.inner.len()
                        invariant
                            1 <= j <= a.inner@.len(),
                            strs(r@) == before + named_lists(a.inner@.subrange(1, j as int), keyword@),
                        decreases a.inner@.len() - j,
                    {
                        assert(a.inner@.subrange(1, j + 1).drop_last() =~= a.inner@.subrange(1, j as int));
                        let m = &a.inner[j];
                        let ghost mid = strs(r@);
                        match (&m.name, &m.list) {
                            (Some(mn), Some(ml)) => {
                                if str_eq(mn.as_str(), keyword) {
                                    r.push(ml.clone());
                                    assert(strs(r@) =~= mid.push(ml@));
                                }
                            },
                            _ => {},
                        }
                        j += 1;
                    }
                    assert(a.inner@.subrange(1, a.inner@.len() as int) =~= a.inner@.drop_first());
                } else {
                    assert(before + Seq::<Seq<char>>::empty() =~= before);
                }
            },
            _ => {
                assert(before + Seq::<Seq<char>>::empty() =~= before);
            },
        }
        i += 1;
    }
    assert(attrs@.take(attrs@.len() as int) =~= attrs@);
    r
}

/// The state that generation threads through the clauses it visits: the clauses counted, the
/// probes and skips so far, the number of probes named so far, and the number of clauses
/// that the probes so far cover.
pub struct GenState {
    pub clauses: nat,
    pub probes: Seq<ProbeView>,
    pub skips: Seq<SkipView>,
    pub seq: nat,
    pub covered: nat,
}

/// `st` with one more skip.
pub open spec fn skip_state(st: GenState, file: Seq<char>, func: Seq<char>, reason: Seq<char>) -> GenState {
    GenState { skips: st.skips.push(SkipView { file, func, reason }), ..st }
}

/// `n` copies of one skip.
pub open spec fn skip_copies(file: Seq<char>, func: Seq<char>, reason: Seq<char>, n: nat) -> Seq<SkipView> {
    Seq::new(n, |_i: int| SkipView { file, func, reason })
}

/// `st` with `n` more skips, one for each clause of a function skipped whole, all with the
/// same reason.
pub open spec fn skip_clauses(st: GenState, file: Seq<char>, func: Seq<char>, reason: Seq<char>, n: nat) -> GenState {
    GenState { skips: st.skips + skip_copies(file, func, reason, n), ..st }
}

/// The executable generation state.
pub struct Gen {
    pub clauses: usize,
    pub probes: Vec<Probe>,
    pub skips: Vec<Skip>,
    pub seq: usize,
    pub covered: Ghost<nat>,
}

impl View for Gen {
    type V = GenState;

    open spec fn view(&self) -> GenState {
        GenState {
            clauses: self.clauses as nat,
            probes: probe_views(self.probes@),
            skips: skip_views(self.skips@),
            seq: self.seq as nat,
            covered: self.covered@,
        }
    }
}

pub(crate) fn push_skip(g: &mut Gen, file: &String, func: &String, reason: String)
    ensures
        final(g)@ == skip_state(old(g)@, file@, func@, reason@),
{
    let ghost before = g.skips@;
    g.skips.push(Skip { file: file.clone(), func: func.clone(), reason });
    assert(skip_views(g.skips@) =~= skip_views(before).push(SkipView { file: file@, func: func@, reason: reason@ }));
}

/// Records the `n` clauses of a function skipped whole, each with the same reason.
pub(crate) fn push_skips(g: &mut Gen, file: &String, func: &String, reason: String, n: usize)
    ensures
        final(g)@ == skip_clauses(old(g)@, file@, func@, reason@, n as nat),
{
    let ghost start = g@;
    let mut i: usize = 0;
    assert(start.skips + skip_copies(file@, func@, reason@, 0) =~= start.skips);
    while i < n
        invariant
            i <= n,
            g@ == skip_clauses(start, file@, func@, reason@, i as nat),
        decreases n - i,
    {
        let ghost before = g@;
        push_skip(g, file, func, reason.clone());
        assert(skip_copies(file@, func@, reason@, (i + 1) as nat) =~= skip_copies(file@, func@, reason@, i as nat).push(SkipView { file: file@, func: func@, reason: reason@ }));
        assert(g@.skips =~= start.skips + skip_copies(file@, func@, reason@, (i + 1) as nat));
        i += 1;
    }
}

/// A parsed file as a spec value: its path and the model of its items.
pub open spec fn parsed_view(f: ParsedFile) -> (Seq<char>, Seq<ItemNode>) {
    (f.path@, f.items@)
}

/// Parsed files as spec values.
pub open spec fn files_view(files: Seq<ParsedFile>) -> Seq<(Seq<char>, Seq<ItemNode>)> {
    files.map_values(|f: ParsedFile| parsed_view(f))
}

/// `files` are what parsing `sources` gives: the files whose text is a Rust file, in order,
/// each with its path and the model of its text (see [`source_model`]).
pub open spec fn parsed_from(sources: Seq<SourceFile>, files: Seq<(Seq<char>, Seq<ItemNode>)>) -> bool
    decreases sources.len(),
{
    if sources.len() == 0 {
        files.len() == 0
    } else if parsed_file(sources.last().text@) is Some {
        &&& files.len() > 0
        &&& parsed_from(sources.drop_last(), files.drop_last())
        &&& files.last().0 == sources.last().path@
        &&& source_model(sources.last().text@, files.last().1)
    } else {
        parsed_from(sources.drop_last(), files)
    }
}

/// The names of the types with a hand-written `kani::Arbitrary` in any of `files`.
pub open spec fn files_arbitrary(files: Seq<(Seq<char>, Seq<ItemNode>)>) -> Set<Seq<char>>
    decreases files.len(),
{
    if files.len() == 0 {
        Set::empty()
    } else {
        files_arbitrary(files.drop_last()).union(arbitrary_names(files.last().1))
    }
}

/// The probes of `files` in order, from `st`, numbering on from one file to the next.
pub open spec fn files_probes(files: Seq<(Seq<char>, Seq<ItemNode>)>, known: Set<Seq<char>>, precond: bool, completeness: bool, st: Option<GenState>) -> Option<GenState>
    decreases files.len(),
{
    if files.len() == 0 {
        st
    } else {
        let f = files.last();
        items_probes(f.1, None, Config { file: f.0, known, precond, completeness }, files_probes(files.drop_last(), known, precond, completeness, st))
    }
}

/// The state generation starts from.
pub open spec fn start_state() -> GenState {
    GenState { clauses: 0, probes: seq![], skips: seq![], seq: 0, covered: 0 }
}

/// The outcome of generation over `files`: `None` where generation breaks down.
pub open spec fn report_state(files: Seq<(Seq<char>, Seq<ItemNode>)>, precond: bool, completeness: bool) -> Option<GenState> {
    files_probes(files, files_arbitrary(files), precond, completeness, Some(start_state()))
}

/// `rep` reports the state `st` and the set `known` of types with a hand-written
/// `kani::Arbitrary`, listed sorted and each once.
pub open spec fn reports(rep: ProbeReport, st: GenState, known: Set<Seq<char>>) -> bool {
    &&& rep.clauses_seen == st.clauses
    &&& probe_views(rep.probes@) == st.probes
    &&& skip_views(rep.skips@) == st.skips
    &&& strictly_sorted(strs(rep.arbitrary_types@))
    &&& name_set(rep.arbitrary_types@) == known
}

proof fn lemma_items_probes_from_none(items: Seq<ItemNode>, c: Config)
    ensures
        items_probes(items, None, c, None) is None,
{
    lemma_items_probes_none(items, None, c);
}

proof fn lemma_files_probes_prefix_none(files: Seq<(Seq<char>, Seq<ItemNode>)>, i: int, known: Set<Seq<char>>, precond: bool, completeness: bool, st: Option<GenState>)
    requires
        0 <= i < files.len(),
        files_probes(files.take(i + 1), known, precond, completeness, st) is None,
    ensures
        files_probes(files, known, precond, completeness, st) is None,
    decreases files.len() - i,
{
    let t = files.take(i + 2);
    if i + 1 < files.len() {
        assert(t.drop_last() =~= files.take(i + 1));
        lemma_items_probes_from_none(t.last().1, Config { file: t.last().0, known, precond, completeness });
        lemma_files_probes_prefix_none(files, i + 1, known, precond, completeness, st);
    } else {
        assert(files.take(i + 1) =~= files);
    }
}

/// Probe generation over files that parsed: the names of the types with a hand-written
/// `kani::Arbitrary` are gathered from every file first, then each file's items are walked in
/// order, probes numbered on across files. `precond` selects precondition probes,
/// `completeness` completeness probes (it wins over `precond`), neither postcondition
/// probes. `None` exactly where generation breaks down.
pub fn generate_parsed(files: &Vec<ParsedFile>, precond: bool, completeness: bool) -> (r: Option<ProbeReport>)
    ensures
        r is Some <==> report_state(files_view(files@), precond, completeness) is Some,
        r matches Some(rep) ==> reports(rep, report_state(files_view(files@), precond, completeness).unwrap(), files_arbitrary(files_view(files@))),
{
    let ghost fs = files_view(files@);
    let mut known: Vec<String> = Vec::new();
    let mut i: usize = 0;
    assert(fs.take(0) =~= Seq::<(Seq<char>, Seq<ItemNode>)>::empty());
    assert(name_set(known@) =~= Set::empty());
    while i < files.len()
        invariant
            i <= files@.len(),
            fs == files_view(files@),
            strictly_sorted(strs(known@)),
            name_set(known@) == files_arbitrary(fs.take(i as int)),
        decreases files@.len() - i,
    {
        assert(fs.take(i + 1).drop_last() =~= fs.take(i as int));
        assert(fs.take(i + 1).last() == parsed_view(files@[i as int]));
        collect_arbitrary(&files[i].items, &mut known);
        i += 1;
    }
    assert(fs.take(fs.len() as int) =~= fs);
    let ghost k = files_arbitrary(fs);
    let mut g = Gen { clauses: 0, probes: Vec::new(), skips: Vec::new(), seq: 0, covered: Ghost(0) };
    assert(g@ == start_state()) by {
        assert(probe_views(g.probes@) =~= Seq::<ProbeView>::empty());
        assert(skip_views(g.skips@) =~= Seq::<SkipView>::empty());
    }
    let mut j: usize = 0;
    while j < files.len()
        invariant
            j <= files@.len(),
            fs == files_view(files@),
            name_set(known@) == k,
            k == files_arbitrary(fs),
            files_probes(fs.take(j as int), k, precond, completeness, Some(start_state())) == Some(g@),
        decreases files@.len() - j,
    {
        assert(fs.take(j + 1).drop_last() =~= fs.take(j as int));
        assert(fs.take(j + 1).last() == parsed_view(files@[j as int]));
        if !walk(&files[j].items, None, &files[j].path, &known, precond, completeness, &mut g) {
            proof { lemma_files_probes_prefix_none(fs, j as int, k, precond, completeness, Some(start_state())); }
            return None;
        }
        j += 1;
    }
    assert(fs.take(fs.len() as int) =~= fs);
    Some(ProbeReport { clauses_seen: g.clauses, probes: g.probes, skips: g.skips, arbitrary_types: known })
}

/// Parses each of `sources`, keeping the files that parse, in order (see [`parsed_from`]).
pub fn parse_sources(sources: &Vec<SourceFile>) -> (r: Vec<ParsedFile>)
    ensures
        parsed_from(sources@, files_view(r@)),
{
    let mut r: Vec<ParsedFile> = Vec::new();
    let mut i: usize = 0;
    assert(sources@.take(0) =~= Seq::<SourceFile>::empty());
    assert(files_view(r@) =~= Seq::<(Seq<char>, Seq<ItemNode>)>::empty());
    while i < sources.len()
        invariant
            i <= sources@.len(),
            parsed_from(sources@.take(i as int), files_view(r@)),
        decreases sources@.len() - i,
    {
        assert(sources@.take(i + 1).drop_last() =~= sources@.take(i as int));
        assert(sources@.take(i + 1).last() == sources@[i as int]);
        let ghost before = files_view(r@);
        match parse_source(sources[i].text.as_str()) {
            Some(items) => {
                r.push(ParsedFile { path: sources[i].path.clone(), items });
                assert(files_view(r@) =~= before.push((sources@[i as int].path@, items@)));
                assert(files_view(r@).drop_last() =~= before);
            },
            None => {},
        }
        i += 1;
    }
    assert(sources@.take(sources@.len() as int) =~= sources@);
    r
}

/// `r` is the outcome of generation over `files` in the given mode: `None` exactly where
/// generation breaks down, else the report of the state it reaches.
pub open spec fn generated(r: Option<ProbeReport>, files: Seq<(Seq<char>, Seq<ItemNode>)>, precond: bool, completeness: bool) -> bool {
    &&& r is Some <==> report_state(files, precond, completeness) is Some
    &&& r matches Some(rep) ==> reports(rep, report_state(files, precond, completeness).unwrap(), files_arbitrary(files))
}

/// Whether generation over `files` succeeds in the given mode (see [`generate_parsed`]).
pub fn generation_succeeds(files: &Vec<ParsedFile>, precond: bool, completeness: bool) -> (r: bool)
    ensures
        r == report_state(files_view(files@), precond, completeness) is Some,
{
    generate_parsed(files, precond, completeness).is_some()
}

/// Probe generation over source files: the files that do not parse are left out, the rest
/// are parsed (see [`parse_sources`]) and probed, completeness probes when `completeness`
/// is set, else precondition probes when `precond` is, else postcondition probes. `None`
/// exactly where generation breaks down: on a count that would pass `usize::MAX`.
pub fn try_generate(sources: &Vec<SourceFile>, precond: bool, completeness: bool) -> (r: Option<ProbeReport>)
    ensures
        exists|files: Seq<(Seq<char>, Seq<ItemNode>)>| #[trigger] parsed_from(sources@, files) && generated(r, files, precond && !completeness, completeness),
{
    let files = parse_sources(sources);
    let ghost fs = files_view(files@);
    let p = precond && !completeness;
    if !generation_succeeds(&files, p, completeness) {
        assert(parsed_from(sources@, fs) && generated(None, fs, p, completeness));
        return None;
    }
    let rep = if completeness {
        generate_completeness(&files)
    } else if precond {
        generate_preconditions(&files)
    } else {
        generate(&files)
    };
    assert(parsed_from(sources@, fs) && generated(Some(rep), fs, p, completeness));
    Some(rep)
}

/// Probe postconditions (`#[ensures]`): does a clause hold for every value its return type
/// admits, proving nothing.
pub fn generate(files: &Vec<ParsedFile>) -> (r: ProbeReport)
    requires
        report_state(files_view(files@), false, false) is Some,
    ensures
        reports(r, report_state(files_view(files@), false, false).unwrap(), files_arbitrary(files_view(files@))),
{
    generate_parsed(files, false, false).unwrap()
}

/// Probe preconditions (`#[requires]`): are the assumptions jointly satisfiable, or is every
/// proof under them vacuous. Return-type-independent.
pub fn generate_preconditions(files: &Vec<ParsedFile>) -> (r: ProbeReport)
    requires
        report_state(files_view(files@), true, false) is Some,
    ensures
        reports(r, report_state(files_view(files@), true, false).unwrap(), files_arbitrary(files_view(files@))),
{
    generate_parsed(files, true, false).unwrap()
}

/// Probe completeness: does the postcondition accept an output the implementation never
/// produces (loose), or does it uniquely pin the result (tight)?
pub fn generate_completeness(files: &Vec<ParsedFile>) -> (r: ProbeReport)
    requires
        report_state(files_view(files@), false, true) is Some,
    ensures
        reports(r, report_state(files_view(files@), false, true).unwrap(), files_arbitrary(files_view(files@))),
{
    generate_parsed(files, false, true).unwrap()
}

} // verus!
