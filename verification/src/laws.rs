//! What holds of every run of probe generation and of reading verdicts back.

use vstd::prelude::*;

use crate::arbitrary::{lemma_lex_irreflexive, lemma_lex_total, lex_lt, strictly_sorted};
use crate::harness::{
    bind_inputs, clause_reason, completeness_parts, completeness_probes, count_clauses, fn_probes,
    fns_probes, generic_reason, item_probes, items_probes, lemma_items_probes_none,
    precondition_assumes, precondition_probes, probe_name, return_type, self_renamed,
    unit_reason, vacuity_clauses, vacuity_code, Config, ProbeSite,
};
use crate::model::{probe_check, FnNode, ItemNode, TypeNode};
use crate::probe::{
    clause_list, files_arbitrary, files_probes, report_state, skip_clauses, skip_copies, skip_state,
    start_state, GenState, ProbeView,
};
use crate::text::{
    contains_in, decimal, digit_char, find_in, first_element, occurs_at, is_word_char, lemma_word_end, lex_depth, lex_next, renamed,
    scan_closes, word_end, top_comma_from, trim, Lex,
};
use crate::verdict::{has_prefix, module_body, module_header, module_text, verdict, verdict_from, whole_at};

verus! {

/// Every clause counted is covered by a probe or skipped, and none twice: the count is the
/// clauses that the probes cover plus the skips.
pub open spec fn balanced(st: GenState) -> bool {
    st.clauses == st.covered + st.skips.len()
}

/// `s` ends with `suffix`.
pub open spec fn has_suffix(s: Seq<char>, suffix: Seq<char>) -> bool {
    suffix.len() <= s.len() && s.subrange(s.len() - suffix.len(), s.len() as int) == suffix
}

/// The probes are numbered consecutively from one: the `k`-th probe's name ends in `_k`, and
/// the next number to give is one past the count.
pub open spec fn numbered(st: GenState) -> bool {
    &&& st.seq == st.probes.len()
    &&& forall|k: int| 0 <= k < st.probes.len() ==> has_suffix(#[trigger] st.probes[k].name, "_"@ + decimal((k + 1) as nat))
}

/// The prefix of the names of the probes of the kind that `c` selects.
pub open spec fn mode_prefix(c: Config) -> Seq<char> {
    if c.completeness {
        "probe_complete_"@
    } else if c.precond {
        "probe_precond_"@
    } else {
        "probe_vacuity_"@
    }
}

/// Whether `c` selects postcondition probes, each of which covers one clause.
pub open spec fn one_each(c: Config) -> bool {
    !c.precond && !c.completeness
}

/// The kind of clause a configuration probes: `requires` for preconditions, else `ensures`.
pub open spec fn keyword(c: Config) -> Seq<char> {
    if !c.completeness && c.precond { "requires"@ } else { "ensures"@ }
}

/// `st2` continues `st`: every clause it counts is covered or skipped; each new probe covers
/// at least one clause (exactly one when `each`), is named with `prefix` and the next number,
/// and stands in a file of `paths`, as each new skip does; every earlier probe and skip is
/// kept, and so is the numbering.
pub open spec fn continues(st: GenState, st2: GenState, each: bool, prefix: Seq<char>, paths: Set<Seq<char>>) -> bool {
    &&& st.clauses <= st2.clauses
    &&& st.covered <= st2.covered
    &&& st2.covered + st2.skips.len() == st.covered + st.skips.len() + (st2.clauses - st.clauses)
    &&& st.probes.len() <= st2.probes.len()
    &&& st2.probes.len() - st.probes.len() <= st2.covered - st.covered
    &&& each ==> st2.probes.len() - st.probes.len() == st2.covered - st.covered
    &&& st2.seq - st.seq == st2.probes.len() - st.probes.len()
    &&& st2.probes.take(st.probes.len() as int) == st.probes
    &&& st.skips.len() <= st2.skips.len()
    &&& st2.skips.take(st.skips.len() as int) == st.skips
    &&& forall|k: int| st.probes.len() <= k < st2.probes.len() ==> has_prefix(#[trigger] st2.probes[k].name, prefix) && paths.contains(st2.probes[k].file)
    &&& forall|k: int| st.skips.len() <= k < st2.skips.len() ==> paths.contains(#[trigger] st2.skips[k].file)
    &&& numbered(st) ==> numbered(st2)
}

proof fn lemma_continues_refl(st: GenState, each: bool, prefix: Seq<char>, paths: Set<Seq<char>>)
    ensures
        continues(st, st, each, prefix, paths),
{
    assert(st.probes.take(st.probes.len() as int) =~= st.probes);
    assert(st.skips.take(st.skips.len() as int) =~= st.skips);
}

proof fn lemma_continues_trans(a: GenState, b: GenState, c: GenState, each: bool, prefix: Seq<char>, paths: Set<Seq<char>>)
    requires
        continues(a, b, each, prefix, paths),
        continues(b, c, each, prefix, paths),
    ensures
        continues(a, c, each, prefix, paths),
{
    assert(c.probes.take(a.probes.len() as int) =~= c.probes.take(b.probes.len() as int).take(a.probes.len() as int));
    assert(c.skips.take(a.skips.len() as int) =~= c.skips.take(b.skips.len() as int).take(a.skips.len() as int));
    assert forall|k: int| a.probes.len() <= k < c.probes.len() implies has_prefix(#[trigger] c.probes[k].name, prefix) && paths.contains(c.probes[k].file) by {
        if k < b.probes.len() {
            assert(c.probes.take(b.probes.len() as int)[k] == c.probes[k]);
        }
    }
    assert forall|k: int| a.skips.len() <= k < c.skips.len() implies paths.contains(#[trigger] c.skips[k].file) by {
        if k < b.skips.len() {
            assert(c.skips.take(b.skips.len() as int)[k] == c.skips[k]);
        }
    }
}

proof fn lemma_continues_widen(st: GenState, st2: GenState, each: bool, prefix: Seq<char>, paths: Set<Seq<char>>, wider: Set<Seq<char>>)
    requires
        continues(st, st2, each, prefix, paths),
        paths.subset_of(wider),
    ensures
        continues(st, st2, each, prefix, wider),
{
}

proof fn lemma_skip_keeps(st: GenState, file: Seq<char>, func: Seq<char>, reason: Seq<char>)
    ensures
        ({
            let st2 = skip_state(st, file, func, reason);
            &&& st2.clauses == st.clauses
            &&& st2.covered == st.covered
            &&& st2.skips.len() == st.skips.len() + 1
            &&& st2.probes == st.probes
            &&& st2.seq == st.seq
            &&& st2.skips.take(st.skips.len() as int) == st.skips
            &&& st2.skips.last().file == file && st2.skips.last().func == func
            &&& numbered(st) ==> numbered(st2)
        }),
{
    let st2 = skip_state(st, file, func, reason);
    assert(st2.skips.take(st.skips.len() as int) =~= st.skips);
}

proof fn lemma_skip_clauses(st: GenState, file: Seq<char>, func: Seq<char>, reason: Seq<char>, n: nat)
    ensures
        ({
            let st2 = skip_clauses(st, file, func, reason, n);
            &&& st2.clauses == st.clauses
            &&& st2.covered == st.covered
            &&& st2.skips.len() == st.skips.len() + n
            &&& st2.probes == st.probes
            &&& st2.seq == st.seq
            &&& st2.skips.take(st.skips.len() as int) == st.skips
            &&& forall|k: int| st.skips.len() <= k < st2.skips.len() ==> (#[trigger] st2.skips[k]).file == file && st2.skips[k].func == func
            &&& numbered(st) ==> numbered(st2)
        }),
{
    let st2 = skip_clauses(st, file, func, reason, n);
    assert(st2.skips.take(st.skips.len() as int) =~= st.skips);
}

proof fn lemma_probe_keeps(st: GenState, p: ProbeView, prefix: Seq<char>, func: Seq<char>, cover: nat)
    requires
        st.seq < usize::MAX,
        p.name == probe_name(prefix, func, st.seq + 1),
    ensures
        ({
            let st2 = GenState { probes: st.probes.push(p), seq: st.seq + 1, covered: st.covered + cover, ..st };
            &&& st2.probes.take(st.probes.len() as int) == st.probes
            &&& has_prefix(p.name, prefix)
            &&& numbered(st) ==> numbered(st2)
        }),
{
    let st2 = GenState { probes: st.probes.push(p), seq: st.seq + 1, covered: st.covered + cover, ..st };
    assert(st2.probes.take(st.probes.len() as int) =~= st.probes);
    assert(p.name =~= prefix + (func + "_"@ + decimal(st.seq + 1)));
    assert(p.name.take(prefix.len() as int) =~= prefix);
    if numbered(st) {
        let suffix = "_"@ + decimal(st.seq + 1);
        assert(p.name =~= (prefix + func) + suffix);
        assert(p.name.subrange(p.name.len() - suffix.len(), p.name.len() as int) =~= suffix);
        assert forall|k: int| 0 <= k < st2.probes.len() implies has_suffix(#[trigger] st2.probes[k].name, "_"@ + decimal((k + 1) as nat)) by {
            if k < st.probes.len() {
                assert(st2.probes[k] == st.probes[k]);
            }
        }
    }
}

/// In postcondition mode every clause of a function whose inputs and result can be havocked
/// gets exactly one entry: a probe that covers it, named `probe_vacuity_`, the function's name
/// and the next number, or a skip with its reason; both name the function and its file, and
/// nothing earlier is lost.
pub proof fn law_each_postcondition_clause_gets_one_entry(cl: Seq<Seq<char>>, i: nat, site: ProbeSite, binds: Seq<Seq<char>>, ret: Seq<char>, st: GenState)
    requires
        i <= cl.len(),
        vacuity_clauses(cl, i, site, binds, ret, st) is Some,
    ensures
        ({
            let st2 = vacuity_clauses(cl, i, site, binds, ret, st).unwrap();
            &&& st2.clauses == st.clauses
            &&& st.covered <= st2.covered
            &&& st2.covered + st2.skips.len() == st.covered + st.skips.len() + (cl.len() - i)
            &&& st2.covered - st.covered == st2.probes.len() - st.probes.len()
            &&& st2.seq - st.seq == st2.probes.len() - st.probes.len()
            &&& st.probes.len() <= st2.probes.len()
            &&& st2.probes.take(st.probes.len() as int) == st.probes
            &&& st.skips.len() <= st2.skips.len()
            &&& st2.skips.take(st.skips.len() as int) == st.skips
            &&& forall|k: int| st.probes.len() <= k < st2.probes.len() ==> (#[trigger] st2.probes[k]).name == probe_name("probe_vacuity_"@, site.func, (st.seq + (k - st.probes.len()) + 1) as nat)
                && st2.probes[k].file == site.file && st2.probes[k].func == site.func
            &&& forall|k: int| st.skips.len() <= k < st2.skips.len() ==> (#[trigger] st2.skips[k]).file == site.file && st2.skips[k].func == site.func
            &&& numbered(st) ==> numbered(st2)
        }),
    decreases cl.len() - i,
{
    if i < cl.len() {
        let next = match crate::syntax::closure_parts(cl[i as int]) {
            None => skip_state(st, site.file, site.func, clause_reason(i, " is not a closure this tool can parse"@)),
            Some((None, _)) => skip_state(st, site.file, site.func, clause_reason(i, " has no simple result binding"@)),
            Some((Some(result), body)) => {
                let seq = st.seq + 1;
                let name = probe_name("probe_vacuity_"@, site.func, seq);
                let code = vacuity_code(site.func, i, name, binds, ret, result, self_renamed(body));
                let p = ProbeView { file: site.file, line: site.line, func: site.func, name, code };
                lemma_probe_keeps(st, p, "probe_vacuity_"@, site.func, 1);
                GenState { probes: st.probes.push(p), seq, covered: st.covered + 1, ..st }
            },
        };
        match crate::syntax::closure_parts(cl[i as int]) {
            None => lemma_skip_keeps(st, site.file, site.func, clause_reason(i, " is not a closure this tool can parse"@)),
            Some((None, _)) => lemma_skip_keeps(st, site.file, site.func, clause_reason(i, " has no simple result binding"@)),
            _ => {},
        }
        assert(vacuity_clauses(cl, i, site, binds, ret, st) == vacuity_clauses(cl, i + 1, site, binds, ret, next));
        law_each_postcondition_clause_gets_one_entry(cl, i + 1, site, binds, ret, next);
        let st2 = vacuity_clauses(cl, i, site, binds, ret, st).unwrap();
        assert(st2.probes.take(st.probes.len() as int) =~= st2.probes.take(next.probes.len() as int).take(st.probes.len() as int));
        assert(st2.skips.take(st.skips.len() as int) =~= st2.skips.take(next.skips.len() as int).take(st.skips.len() as int));
        assert forall|k: int| st.probes.len() <= k < st2.probes.len() implies (#[trigger] st2.probes[k]).name == probe_name("probe_vacuity_"@, site.func, (st.seq + (k - st.probes.len()) + 1) as nat)
            && st2.probes[k].file == site.file && st2.probes[k].func == site.func by {
            if k < next.probes.len() {
                assert(st2.probes.take(next.probes.len() as int)[k] == st2.probes[k]);
                assert(next.probes[k] == next.probes.last());
            }
        }
        assert forall|k: int| st.skips.len() <= k < st2.skips.len() implies (#[trigger] st2.skips[k]).file == site.file && st2.skips[k].func == site.func by {
            if k < next.skips.len() {
                assert(st2.skips.take(next.skips.len() as int)[k] == st2.skips[k]);
                assert(next.skips[k] == next.skips.last());
            }
        }
    } else {
        assert(st.probes.take(st.probes.len() as int) =~= st.probes);
        assert(st.skips.take(st.skips.len() as int) =~= st.skips);
    }
}

proof fn lemma_completeness_parts(cl: Seq<Seq<char>>, i: nat, binds: Seq<Seq<char>>, bodies: Seq<Seq<char>>)
    requires
        i <= cl.len(),
    ensures
        completeness_parts(cl, i, binds, bodies) matches Ok((_, b)) ==> b.len() == bodies.len() + (cl.len() - i),
    decreases cl.len() - i,
{
    if i < cl.len() {
        match crate::syntax::closure_parts(cl[i as int]) {
            Some((Some(result), body)) => lemma_completeness_parts(cl, i + 1, binds.push("let "@ + result + " = &probe_wrong;"@), bodies.push("("@ + self_renamed(body) + ")"@)),
            _ => {},
        }
    }
}

/// `st2` follows from `st` by the probes of function `f` of the kind that `c` selects (see
/// [`law_function_probes`]).
pub open spec fn function_step(st: GenState, st2: GenState, f: FnNode, c: Config) -> bool {
    let n = clause_list(f.attrs@, keyword(c)).len();
    let func = f.sig.name@;
    &&& st2.clauses == st.clauses + n
    &&& continues(st, st2, one_each(c), mode_prefix(c), set![c.file])
    &&& forall|k: int| st.probes.len() <= k < st2.probes.len() ==> (#[trigger] st2.probes[k]).name == probe_name(mode_prefix(c), func, (st.seq + (k - st.probes.len()) + 1) as nat)
        && st2.probes[k].file == c.file && st2.probes[k].func == func
    &&& forall|k: int| st.skips.len() <= k < st2.skips.len() ==> (#[trigger] st2.skips[k]).file == c.file && st2.skips[k].func == func
    &&& !one_each(c) && n > 0 ==> ({
        ||| st2.probes.len() == st.probes.len() + 1 && st2.skips == st.skips && st2.covered == st.covered + n
        ||| st2.probes == st.probes && st2.covered == st.covered
            && exists|reason: Seq<char>| st2.skips == st.skips + skip_copies(c.file, func, reason, n)
    })
}

proof fn lemma_whole_skip(st: GenState, f: FnNode, c: Config, reason: Seq<char>)
    requires
        clause_list(f.attrs@, keyword(c)).len() > 0,
        count_clauses(st, clause_list(f.attrs@, keyword(c)).len()) is Some,
    ensures
        function_step(st, skip_clauses(count_clauses(st, clause_list(f.attrs@, keyword(c)).len()).unwrap(), c.file, f.sig.name@, reason, clause_list(f.attrs@, keyword(c)).len()), f, c),
{
    let n = clause_list(f.attrs@, keyword(c)).len();
    let st1 = count_clauses(st, n).unwrap();
    lemma_skip_clauses(st1, c.file, f.sig.name@, reason, n);
    assert(st.probes.take(st.probes.len() as int) =~= st.probes);
}

proof fn lemma_one_probe(st: GenState, f: FnNode, c: Config, p: ProbeView)
    requires
        !one_each(c),
        clause_list(f.attrs@, keyword(c)).len() > 0,
        count_clauses(st, clause_list(f.attrs@, keyword(c)).len()) is Some,
        st.seq < usize::MAX,
        p.name == probe_name(mode_prefix(c), f.sig.name@, st.seq + 1),
        p.file == c.file,
        p.func == f.sig.name@,
    ensures
        ({
            let n = clause_list(f.attrs@, keyword(c)).len();
            let st1 = count_clauses(st, n).unwrap();
            function_step(st, GenState { probes: st1.probes.push(p), seq: st1.seq + 1, covered: st1.covered + n, ..st1 }, f, c)
        }),
{
    let n = clause_list(f.attrs@, keyword(c)).len();
    let st1 = count_clauses(st, n).unwrap();
    lemma_probe_keeps(st1, p, mode_prefix(c), f.sig.name@, n);
    assert(st1.skips.take(st1.skips.len() as int) =~= st1.skips);
}

proof fn lemma_postcondition_fn(f: FnNode, self_ty: Option<TypeNode>, c: Config, st: GenState)
    requires
        one_each(c),
        fn_probes(f, self_ty, c, st) is Some,
    ensures
        function_step(st, fn_probes(f, self_ty, c, st).unwrap(), f, c),
{
    let cl = clause_list(f.attrs@, keyword(c));
    let st2 = fn_probes(f, self_ty, c, st).unwrap();
    let func = f.sig.name@;
    let known = c.known;
    let prefix = mode_prefix(c);
    if cl.len() == 0 {
        lemma_continues_refl(st, true, prefix, set![c.file]);
        return;
    }
    let st1 = count_clauses(st, cl.len()).unwrap();
    if f.sig.has_type_param {
        lemma_whole_skip(st, f, c, generic_reason());
        return;
    }
    match return_type(f.sig.output, self_ty) {
        None => lemma_whole_skip(st, f, c, unit_reason()),
        Some(ret) => match probe_check(ret, known) {
            Err(e) => lemma_whole_skip(st, f, c, "return type: "@ + e),
            Ok(_) => match bind_inputs(f.sig.inputs@, self_ty, known) {
                Err(e) => lemma_whole_skip(st, f, c, e),
                Ok((binds, _, _)) => {
                    let site = ProbeSite { file: c.file, func, line: f.sig.line as nat };
                    law_each_postcondition_clause_gets_one_entry(cl, 0, site, binds, ret.text@, st1);
                    assert forall|k: int| st.probes.len() <= k < st2.probes.len() implies has_prefix(#[trigger] st2.probes[k].name, prefix) by {
                        let name = st2.probes[k].name;
                        assert(name =~= prefix + (func + "_"@ + decimal((st.seq + (k - st.probes.len()) + 1) as nat)));
                        assert(name.take(prefix.len() as int) =~= prefix);
                    }
                },
            },
        },
    }
}

proof fn lemma_completeness_fn(f: FnNode, self_ty: Option<TypeNode>, c: Config, st: GenState)
    requires
        c.completeness,
        fn_probes(f, self_ty, c, st) is Some,
    ensures
        function_step(st, fn_probes(f, self_ty, c, st).unwrap(), f, c),
{
    let cl = clause_list(f.attrs@, keyword(c));
    let st2 = fn_probes(f, self_ty, c, st).unwrap();
    let known = c.known;
    if cl.len() == 0 {
        lemma_continues_refl(st, false, mode_prefix(c), set![c.file]);
        return;
    }
    if f.sig.has_type_param {
        lemma_whole_skip(st, f, c, generic_reason());
        return;
    }
    match return_type(f.sig.output, self_ty) {
        None => lemma_whole_skip(st, f, c, unit_reason()),
        Some(ret) => match probe_check(ret, known) {
            Err(e) => lemma_whole_skip(st, f, c, "return type: "@ + e),
            Ok(_) => match bind_inputs(f.sig.inputs@, self_ty, known) {
                Err(e) => lemma_whole_skip(st, f, c, e),
                Ok((binds, args, is_method)) => {
                    lemma_completeness_parts(cl, 0, seq![], seq![]);
                    match completeness_parts(cl, 0, seq![], seq![]) {
                        Ok((rb, bodies)) => lemma_one_probe(st, f, c, st2.probes.last()),
                        Err(reason) => lemma_whole_skip(st, f, c, reason),
                    }
                },
            },
        },
    }
}

proof fn lemma_precondition_fn(f: FnNode, self_ty: Option<TypeNode>, c: Config, st: GenState)
    requires
        !c.completeness,
        c.precond,
        fn_probes(f, self_ty, c, st) is Some,
    ensures
        function_step(st, fn_probes(f, self_ty, c, st).unwrap(), f, c),
{
    let cl = clause_list(f.attrs@, keyword(c));
    let st2 = fn_probes(f, self_ty, c, st).unwrap();
    let known = c.known;
    if cl.len() == 0 {
        lemma_continues_refl(st, false, mode_prefix(c), set![c.file]);
        return;
    }
    if f.sig.has_type_param {
        lemma_whole_skip(st, f, c, generic_reason());
        return;
    }
    match bind_inputs(f.sig.inputs@, self_ty, known) {
        Err(e) => lemma_whole_skip(st, f, c, e),
        Ok((binds, _, _)) => match precondition_assumes(cl, 0, seq![]) {
            Ok(assumes) => lemma_one_probe(st, f, c, st2.probes.last()),
            Err(k) => lemma_whole_skip(st, f, c, clause_reason(k, " is not a bare Rust expression this tool can assume"@)),
        },
    }
}

/// One function's probes, of the kind that `c` selects. Its clauses of that kind are
/// counted, and each is covered by a probe or skipped; every new probe is named with the
/// kind's prefix, the function's name and the next number, and every new probe and skip names
/// the function and the file. Completeness and precondition probes come one to a function:
/// either one harness covers all of its clauses, or each clause is skipped with the same
/// reason and no probe is made.
pub proof fn law_function_probes(f: FnNode, self_ty: Option<TypeNode>, c: Config, st: GenState)
    requires
        fn_probes(f, self_ty, c, st) is Some,
    ensures
        function_step(st, fn_probes(f, self_ty, c, st).unwrap(), f, c),
{
    if c.completeness {
        lemma_completeness_fn(f, self_ty, c, st);
    } else if c.precond {
        lemma_precondition_fn(f, self_ty, c, st);
    } else {
        lemma_postcondition_fn(f, self_ty, c, st);
    }
}

proof fn lemma_fns_probes(fns: Seq<FnNode>, self_ty: Option<TypeNode>, c: Config, st: GenState)
    requires
        fns_probes(fns, self_ty, c, Some(st)) is Some,
    ensures
        continues(st, fns_probes(fns, self_ty, c, Some(st)).unwrap(), one_each(c), mode_prefix(c), set![c.file]),
        fns_probes(fns, self_ty, c, Some(st)).unwrap().clauses == st.clauses + fns_clauses(fns, keyword(c)),
    decreases fns.len(),
{
    if fns.len() == 0 {
        lemma_continues_refl(st, one_each(c), mode_prefix(c), set![c.file]);
    } else {
        let mid = fns_probes(fns.drop_last(), self_ty, c, Some(st));
        lemma_fns_probes(fns.drop_last(), self_ty, c, st);
        law_function_probes(fns.last(), self_ty, c, mid.unwrap());
        lemma_continues_trans(st, mid.unwrap(), fns_probes(fns, self_ty, c, Some(st)).unwrap(), one_each(c), mode_prefix(c), set![c.file]);
    }
}

proof fn lemma_items_probes(items: Seq<ItemNode>, self_ty: Option<TypeNode>, c: Config, st: GenState)
    requires
        items_probes(items, self_ty, c, Some(st)) is Some,
    ensures
        continues(st, items_probes(items, self_ty, c, Some(st)).unwrap(), one_each(c), mode_prefix(c), set![c.file]),
        items_probes(items, self_ty, c, Some(st)).unwrap().clauses == st.clauses + items_clauses(items, keyword(c)),
    decreases items,
{
    if items.len() == 0 {
        lemma_continues_refl(st, one_each(c), mode_prefix(c), set![c.file]);
    } else {
        let mid = items_probes(items.drop_last(), self_ty, c, Some(st));
        if mid is None {
            assert(item_probes(items.last(), self_ty, c, None) is None);
        }
        lemma_items_probes(items.drop_last(), self_ty, c, st);
        lemma_item_probes(items.last(), self_ty, c, mid.unwrap());
        lemma_continues_trans(st, mid.unwrap(), items_probes(items, self_ty, c, Some(st)).unwrap(), one_each(c), mode_prefix(c), set![c.file]);
    }
}

/// The walk over items keeps every earlier probe.
pub(crate) proof fn lemma_items_probes_keep(items: Seq<ItemNode>, self_ty: Option<TypeNode>, c: Config, st: GenState)
    requires
        items_probes(items, self_ty, c, Some(st)) is Some,
    ensures
        st.probes.len() <= items_probes(items, self_ty, c, Some(st)).unwrap().probes.len(),
        items_probes(items, self_ty, c, Some(st)).unwrap().probes.take(st.probes.len() as int) == st.probes,
{
    lemma_items_probes(items, self_ty, c, st);
}

proof fn lemma_item_probes(item: ItemNode, self_ty: Option<TypeNode>, c: Config, st: GenState)
    requires
        item_probes(item, self_ty, c, Some(st)) is Some,
    ensures
        continues(st, item_probes(item, self_ty, c, Some(st)).unwrap(), one_each(c), mode_prefix(c), set![c.file]),
        item_probes(item, self_ty, c, Some(st)).unwrap().clauses == st.clauses + item_clauses(item, keyword(c)),
    decreases item,
{
    match item {
        ItemNode::Fn(f) => law_function_probes(f, None, c, st),
        ItemNode::Mod(Some(inner)) => lemma_items_probes(inner@, self_ty, c, st),
        ItemNode::Impl { self_ty: t, fns, .. } => lemma_fns_probes(fns@, Some(t), c, st),
        ItemNode::Trait(fns) => lemma_fns_probes(fns@, None, c, st),
        _ => lemma_continues_refl(st, one_each(c), mode_prefix(c), set![c.file]),
    }
}

/// The paths of `files`.
pub open spec fn file_paths(files: Seq<(Seq<char>, Seq<ItemNode>)>) -> Set<Seq<char>> {
    Set::new(|p: Seq<char>| exists|i: int| 0 <= i < files.len() && (#[trigger] files[i]).0 == p)
}

/// The clauses of kind `keyword` that the functions `fns` carry.
pub open spec fn fns_clauses(fns: Seq<FnNode>, keyword: Seq<char>) -> nat
    decreases fns.len(),
{
    if fns.len() == 0 {
        0
    } else {
        fns_clauses(fns.drop_last(), keyword) + clause_list(fns.last().attrs@, keyword).len()
    }
}

/// The clauses of kind `keyword` that the functions of `items` carry, in inline modules,
/// `impl` blocks and traits too.
pub open spec fn items_clauses(items: Seq<ItemNode>, keyword: Seq<char>) -> nat
    decreases items,
{
    if items.len() == 0 {
        0
    } else {
        items_clauses(items.drop_last(), keyword) + item_clauses(items.last(), keyword)
    }
}

/// The clauses of kind `keyword` that the functions of `item` carry.
pub open spec fn item_clauses(item: ItemNode, keyword: Seq<char>) -> nat
    decreases item,
{
    match item {
        ItemNode::Fn(f) => clause_list(f.attrs@, keyword).len(),
        ItemNode::Mod(Some(inner)) => items_clauses(inner@, keyword),
        ItemNode::Impl { fns, .. } => fns_clauses(fns@, keyword),
        ItemNode::Trait(fns) => fns_clauses(fns@, keyword),
        _ => 0,
    }
}

/// The clauses of kind `keyword` in all of `files`.
pub open spec fn files_clauses(files: Seq<(Seq<char>, Seq<ItemNode>)>, keyword: Seq<char>) -> nat
    decreases files.len(),
{
    if files.len() == 0 {
        0
    } else {
        files_clauses(files.drop_last(), keyword) + items_clauses(files.last().1, keyword)
    }
}

proof fn lemma_files_probes(files: Seq<(Seq<char>, Seq<ItemNode>)>, known: Set<Seq<char>>, precond: bool, completeness: bool, st: GenState)
    requires
        files_probes(files, known, precond, completeness, Some(st)) is Some,
    ensures
        ({
            let c = Config { file: seq![], known, precond, completeness };
            &&& continues(st, files_probes(files, known, precond, completeness, Some(st)).unwrap(), one_each(c), mode_prefix(c), file_paths(files))
            &&& files_probes(files, known, precond, completeness, Some(st)).unwrap().clauses == st.clauses + files_clauses(files, keyword(c))
        }),
    decreases files.len(),
{
    let c0 = Config { file: seq![], known, precond, completeness };
    if files.len() == 0 {
        lemma_continues_refl(st, one_each(c0), mode_prefix(c0), file_paths(files));
    } else {
        let f = files.last();
        let c = Config { file: f.0, known, precond, completeness };
        let mid = files_probes(files.drop_last(), known, precond, completeness, Some(st));
        if mid is None {
            lemma_items_probes_none(f.1, None, c);
        }
        lemma_files_probes(files.drop_last(), known, precond, completeness, st);
        lemma_items_probes(f.1, None, c, mid.unwrap());
        assert(file_paths(files.drop_last()).subset_of(file_paths(files))) by {
            assert forall|p: Seq<char>| file_paths(files.drop_last()).contains(p) implies file_paths(files).contains(p) by {
                let i = choose|i: int| 0 <= i < files.drop_last().len() && (#[trigger] files.drop_last()[i]).0 == p;
                assert(files[i] == files.drop_last()[i]);
            }
        }
        assert(set![f.0].subset_of(file_paths(files))) by {
            assert(files[files.len() - 1] == f);
        }
        let end = files_probes(files, known, precond, completeness, Some(st)).unwrap();
        lemma_continues_widen(st, mid.unwrap(), one_each(c0), mode_prefix(c0), file_paths(files.drop_last()), file_paths(files));
        lemma_continues_widen(mid.unwrap(), end, one_each(c0), mode_prefix(c0), set![f.0], file_paths(files));
        lemma_continues_trans(st, mid.unwrap(), end, one_each(c0), mode_prefix(c0), file_paths(files));
    }
}

/// No clause goes unaccounted, and none is counted twice: in every report, the clauses seen
/// are the clauses that probes cover plus the skips, each probe covering at least one. In
/// postcondition mode each probe covers exactly one clause, so the clauses seen are the probes
/// plus the skips. The probes are numbered consecutively from one, the `k`-th probe's name
/// ending in `_k`.
pub proof fn law_every_clause_is_accounted_for(files: Seq<(Seq<char>, Seq<ItemNode>)>, precond: bool, completeness: bool)
    requires
        report_state(files, precond, completeness) is Some,
    ensures
        ({
            let st = report_state(files, precond, completeness).unwrap();
            &&& balanced(st)
            &&& st.probes.len() <= st.covered
            &&& !precond && !completeness ==> st.clauses == st.probes.len() + st.skips.len()
            &&& numbered(st)
        }),
{
    lemma_files_probes(files, files_arbitrary(files), precond, completeness, start_state());
}

/// Every probe of a report is named with the prefix of the kind of probe asked for
/// (`probe_complete_` when completeness is asked for, else `probe_precond_` when
/// preconditions are, else `probe_vacuity_`), and every probe and skip names the path of one
/// of the files.
pub proof fn law_probes_name_their_kind_and_file(files: Seq<(Seq<char>, Seq<ItemNode>)>, precond: bool, completeness: bool)
    requires
        report_state(files, precond, completeness) is Some,
    ensures
        ({
            let st = report_state(files, precond, completeness).unwrap();
            let prefix = if completeness { "probe_complete_"@ } else if precond { "probe_precond_"@ } else { "probe_vacuity_"@ };
            &&& forall|k: int| 0 <= k < st.probes.len() ==> has_prefix(#[trigger] st.probes[k].name, prefix) && file_paths(files).contains(st.probes[k].file)
            &&& forall|k: int| 0 <= k < st.skips.len() ==> file_paths(files).contains(#[trigger] st.skips[k].file)
        }),
{
    lemma_files_probes(files, files_arbitrary(files), precond, completeness, start_state());
}

/// Every report counts the clauses of the kind it probes in all of the files: `requires`
/// clauses for precondition probes, `ensures` clauses otherwise.
pub proof fn law_every_clause_of_the_kind_is_counted(files: Seq<(Seq<char>, Seq<ItemNode>)>, precond: bool, completeness: bool)
    requires
        report_state(files, precond, completeness) is Some,
    ensures
        report_state(files, precond, completeness).unwrap().clauses
            == files_clauses(files, if !completeness && precond { "requires"@ } else { "ensures"@ }),
{
    lemma_files_probes(files, files_arbitrary(files), precond, completeness, start_state());
}

/// Completeness and postcondition probes are made from the same `ensures` clauses, so the two
/// modes count the same clauses.
pub proof fn law_completeness_and_postcondition_modes_count_alike(files: Seq<(Seq<char>, Seq<ItemNode>)>)
    requires
        report_state(files, false, false) is Some,
        report_state(files, false, true) is Some,
    ensures
        report_state(files, false, false).unwrap().clauses == report_state(files, false, true).unwrap().clauses,
{
    law_every_clause_of_the_kind_is_counted(files, false, false);
    law_every_clause_of_the_kind_is_counted(files, false, true);
}

/// Completeness probes win over precondition probes: asking for both gives what asking for
/// completeness alone gives.
pub proof fn law_completeness_wins_over_preconditions(f: FnNode, self_ty: Option<TypeNode>, c: Config, st: GenState)
    requires
        c.completeness,
    ensures
        fn_probes(f, self_ty, c, st) == fn_probes(f, self_ty, Config { precond: false, ..c }, st),
{
}

/// Postcondition and completeness probes read only the `ensures` clauses: two functions with
/// the same signature and the same `ensures` clauses get the same probes in those modes,
/// whatever `requires` clauses either carries.
pub proof fn law_requires_clauses_leave_postcondition_probes_alone(f: FnNode, g: FnNode, self_ty: Option<TypeNode>, c: Config, st: GenState)
    requires
        f.sig == g.sig,
        clause_list(f.attrs@, "ensures"@) == clause_list(g.attrs@, "ensures"@),
        c.completeness || !c.precond,
    ensures
        fn_probes(f, self_ty, c, st) == fn_probes(g, self_ty, c, st),
{
}

/// The attribute that the standard library asks of new items follows the module's
/// `#[cfg(kani)]` line exactly in `std_mode`.
pub proof fn law_the_unstable_attribute_comes_only_in_std_mode(probes: Seq<crate::probe::Probe>, std_mode: bool, precond: bool, completeness: bool)
    ensures
        ({
            let at = (module_header(precond, completeness) + "#[cfg(kani)]\n"@).len();
            has_prefix(module_text(probes, std_mode, precond, completeness).skip(at as int), "#[unstable(feature = \"kani\", issue = \"none\")]\n"@) <==> std_mode
        }),
{
    reveal_strlit("#[unstable(feature = \"kani\", issue = \"none\")]\n");
    reveal_strlit("pub mod vacuity_probes {\n    use super::*;\n\n");
    let h = module_header(precond, completeness) + "#[cfg(kani)]\n"@;
    let u = "#[unstable(feature = \"kani\", issue = \"none\")]\n"@;
    let tail = "pub mod vacuity_probes {\n    use super::*;\n\n"@ + module_body(probes) + "}\n"@;
    let t = module_text(probes, std_mode, precond, completeness);
    if std_mode {
        assert(t =~= h + (u + tail));
        assert(t.skip(h.len() as int) =~= u + tail);
        assert((u + tail).take(u.len() as int) =~= u);
    } else {
        assert(t =~= h + Seq::<char>::empty() + tail);
        assert(t.skip(h.len() as int) =~= tail);
        assert(tail[0] == 'p');
        assert(u[0] == '#');
        if has_prefix(tail, u) {
            assert(tail.take(u.len() as int)[0] == tail[0]);
        }
    }
}

proof fn lemma_decimal_digits(n: nat)
    ensures
        decimal(n).len() >= 1,
        n >= 10 ==> decimal(n).len() >= 2,
        forall|i: int| 0 <= i < decimal(n).len() ==> '0' <= #[trigger] decimal(n)[i] <= '9',
    decreases n,
{
    if n >= 10 {
        lemma_decimal_digits(n / 10);
        assert forall|i: int| 0 <= i < decimal(n).len() implies '0' <= #[trigger] decimal(n)[i] <= '9' by {
            if i < decimal(n / 10).len() {
                assert(decimal(n)[i] == decimal(n / 10)[i]);
            }
        }
    }
}

proof fn lemma_digit_char_injective(a: nat, b: nat)
    requires
        a < 10,
        b < 10,
        digit_char(a) == digit_char(b),
    ensures
        a == b,
{
}

proof fn lemma_decimal_injective(a: nat, b: nat)
    requires
        decimal(a) == decimal(b),
    ensures
        a == b,
    decreases a,
{
    lemma_decimal_digits(a);
    lemma_decimal_digits(b);
    if a < 10 && b < 10 {
        assert(decimal(a) == seq![digit_char(a)]);
        assert(decimal(b) == seq![digit_char(b)]);
        assert(decimal(a)[0] == digit_char(a));
        assert(decimal(b)[0] == digit_char(b));
        lemma_digit_char_injective(a, b);
    } else if a >= 10 && b >= 10 {
        let da = decimal(a);
        assert(da.drop_last() =~= decimal(a / 10));
        assert(decimal(b).drop_last() =~= decimal(b / 10));
        lemma_decimal_injective(a / 10, b / 10);
        assert(decimal(a) == decimal(a / 10).push(digit_char(a % 10)));
        assert(decimal(b) == decimal(b / 10).push(digit_char(b % 10)));
        assert(decimal(a).last() == digit_char(a % 10));
        assert(decimal(b).last() == digit_char(b % 10));
        lemma_digit_char_injective(a % 10, b % 10);
    }
}

proof fn lemma_suffix_number(s: Seq<char>, a: nat, b: nat)
    requires
        has_suffix(s, "_"@ + decimal(a)),
        has_suffix(s, "_"@ + decimal(b)),
    ensures
        a == b,
{
    reveal_strlit("_");
    lemma_decimal_digits(a);
    lemma_decimal_digits(b);
    let da = decimal(a);
    let db = decimal(b);
    let n = s.len() as int;
    assert forall|i: int| 0 <= i < da.len() implies s[n - da.len() + i] == da[i] by {
        assert(s.subrange(n - da.len() - 1, n)[i + 1] == ("_"@ + da)[i + 1]);
    }
    assert forall|i: int| 0 <= i < db.len() implies s[n - db.len() + i] == db[i] by {
        assert(s.subrange(n - db.len() - 1, n)[i + 1] == ("_"@ + db)[i + 1]);
    }
    assert(s[n - da.len() - 1] == '_') by {
        assert(s.subrange(n - da.len() - 1, n)[0] == ("_"@ + da)[0]);
    }
    assert(s[n - db.len() - 1] == '_') by {
        assert(s.subrange(n - db.len() - 1, n)[0] == ("_"@ + db)[0]);
    }
    if da.len() < db.len() {
        let i = db.len() - da.len() - 1;
        assert(s[n - db.len() + i] == db[i]);
    } else if db.len() < da.len() {
        let i = da.len() - db.len() - 1;
        assert(s[n - da.len() + i] == da[i]);
    } else {
        assert(da =~= db);
        lemma_decimal_injective(a, b);
    }
}

/// No two probes of a report share a name, so each harness's verdict can be found again by
/// its name.
pub proof fn law_probe_names_are_distinct(files: Seq<(Seq<char>, Seq<ItemNode>)>, precond: bool, completeness: bool)
    requires
        report_state(files, precond, completeness) is Some,
    ensures
        ({
            let ps = report_state(files, precond, completeness).unwrap().probes;
            forall|i: int, j: int| 0 <= i < ps.len() && 0 <= j < ps.len() && i != j ==> #[trigger] ps[i].name != #[trigger] ps[j].name
        }),
{
    law_every_clause_is_accounted_for(files, precond, completeness);
    let ps = report_state(files, precond, completeness).unwrap().probes;
    assert forall|i: int, j: int| 0 <= i < ps.len() && 0 <= j < ps.len() && i != j implies #[trigger] ps[i].name != #[trigger] ps[j].name by {
        if ps[i].name == ps[j].name {
            assert(has_suffix(ps[i].name, "_"@ + decimal((i + 1) as nat)));
            assert(has_suffix(ps[j].name, "_"@ + decimal((j + 1) as nat)));
            lemma_suffix_number(ps[i].name, (i + 1) as nat, (j + 1) as nat);
        }
    }
}

/// Without its name in the output, a probe has no verdict.
pub proof fn law_an_absent_probe_is_unknown(o: Seq<char>, name: Seq<char>)
    requires
        name.len() > 0,
        !contains_in(o, 0, o.len() as int, name),
    ensures
        verdict(o, name) is None,
{
}

proof fn lemma_no_whole_occurrence(o: Seq<char>, name: Seq<char>, idx: int)
    requires
        name.len() > 0,
        forall|k: int| occurs_at(o, name, k) ==> !whole_at(o, name, k),
    ensures
        verdict_from(o, name, idx) is None,
    decreases o.len() - idx,
{
    if !(idx < 0 || idx > o.len()) {
        crate::verdict::lemma_find_in_bounds(o, idx, o.len() as int, name);
        match find_in(o, idx, o.len() as int, name) {
            Some(at) => lemma_no_whole_occurrence(o, name, at + 1),
            None => {},
        }
    }
}

/// Each verdict goes to the harness that produced it: a probe whose name shows up only
/// inside longer names, as `probe_vacuity_f_1` inside `probe_vacuity_f_12`, has no verdict.
pub proof fn law_a_name_inside_a_longer_one_gives_no_verdict(o: Seq<char>, name: Seq<char>)
    requires
        name.len() > 0,
        forall|k: int| occurs_at(o, name, k) ==> !whole_at(o, name, k),
    ensures
        verdict(o, name) is None,
{
    lemma_no_whole_occurrence(o, name, 0);
}

/// The set of sequences a list holds.
pub open spec fn seq_set(v: Seq<Seq<char>>) -> Set<Seq<char>> {
    Set::new(|n: Seq<char>| exists|i: int| 0 <= i < v.len() && v[i] == n)
}

/// A strictly sorted list is determined by the set of names it holds: two such lists with
/// the same names are the same list. So the sorted, duplicate-free list of types with a
/// hand-written `kani::Arbitrary` that a report carries is the one such list of its names.
pub proof fn law_sorted_names_are_unique(v1: Seq<Seq<char>>, v2: Seq<Seq<char>>)
    requires
        strictly_sorted(v1),
        strictly_sorted(v2),
        seq_set(v1) == seq_set(v2),
    ensures
        v1 == v2,
    decreases v1.len(),
{
    if v1.len() == 0 {
        if v2.len() > 0 {
            assert(seq_set(v2).contains(v2[0]));
        }
        assert(v1 =~= v2);
    } else if v2.len() == 0 {
        assert(seq_set(v1).contains(v1[0]));
    } else {
        assert(seq_set(v2).contains(v1[0]));
        assert(seq_set(v1).contains(v2[0]));
        let j = choose|j: int| 0 <= j < v2.len() && v2[j] == v1[0];
        let k = choose|k: int| 0 <= k < v1.len() && v1[k] == v2[0];
        if v1[0] != v2[0] {
            assert(j > 0 && k > 0);
            assert(lex_lt(v2[0], v2[j]));
            assert(lex_lt(v1[0], v1[k]));
            lemma_lex_total(v1[0], v2[0]);
        }
        let r1 = v1.drop_first();
        let r2 = v2.drop_first();
        assert forall|n: Seq<char>| seq_set(r1).contains(n) == seq_set(r2).contains(n) by {
            if seq_set(r1).contains(n) {
                let a = choose|a: int| 0 <= a < r1.len() && r1[a] == n;
                assert(v1[a + 1] == n);
                assert(seq_set(v2).contains(n));
                let b = choose|b: int| 0 <= b < v2.len() && v2[b] == n;
                if b == 0 {
                    assert(lex_lt(v1[0], v1[a + 1]));
                    lemma_lex_irreflexive(n);
                }
                assert(r2[b - 1] == n);
            }
            if seq_set(r2).contains(n) {
                let a = choose|a: int| 0 <= a < r2.len() && r2[a] == n;
                assert(v2[a + 1] == n);
                assert(seq_set(v1).contains(n));
                let b = choose|b: int| 0 <= b < v1.len() && v1[b] == n;
                if b == 0 {
                    assert(lex_lt(v2[0], v2[a + 1]));
                    lemma_lex_irreflexive(n);
                }
                assert(r1[b - 1] == n);
            }
        }
        assert(seq_set(r1) =~= seq_set(r2));
        law_sorted_names_are_unique(r1, r2);
        assert(v1[0] == v2[0]);
        assert forall|i: int| 0 < i < v1.len() implies v1[i] == v2[i] by {
            assert(v1[i] == r1[i - 1] && v2[i] == r2[i - 1]);
        }
        assert(v1 =~= v2);
    }
}

/// Precondition probes never depend on the return type: two functions that differ only in
/// what they return get the same precondition probes.
pub proof fn law_precondition_probes_ignore_the_return_type(f: FnNode, output: Option<TypeNode>, self_ty: Option<TypeNode>, file: Seq<char>, known: Set<Seq<char>>, st: GenState)
    ensures
        precondition_probes(FnNode { sig: crate::model::SigNode { output, ..f.sig }, ..f }, self_ty, file, known, st)
            == precondition_probes(f, self_ty, file, known, st),
{
}

/// A comma nested in brackets or inside a literal does not split a clause: when the scan of
/// `a` meets no splitting comma and closes every bracket and literal it opens, the first
/// element of `a`, a comma and anything after is `a` trimmed, as `pred, "msg"` yields `pred`.
pub proof fn law_first_element_stops_at_the_top_level_comma(a: Seq<char>, rest: Seq<char>)
    requires
        scan_closes(a, 0, Lex::Code, 0),
    ensures
        first_element(a + seq![','] + rest) == trim(a),
{
    let s = a + seq![','] + rest;
    lemma_top_comma_prefix(a, s, 0, Lex::Code, 0);
    assert(s.take(a.len() as int) =~= a);
}

proof fn lemma_top_comma_prefix(a: Seq<char>, s: Seq<char>, k: int, st: Lex, d: int)
    requires
        0 <= k <= a.len(),
        a.len() < s.len(),
        forall|j: int| 0 <= j < a.len() ==> s[j] == a[j],
        s[a.len() as int] == ',',
        scan_closes(a, k, st, d),
    ensures
        top_comma_from(s, k, st, d) == a.len(),
    decreases a.len() - k,
{
    if k < a.len() {
        assert(s[k] == a[k]);
        lemma_top_comma_prefix(a, s, k + 1, lex_next(st, a[k]), d + lex_depth(st, a[k]));
    }
}

/// No whole word of `cs` is `w`.
pub open spec fn no_word_is(cs: Seq<char>, w: Seq<char>) -> bool {
    forall|k: int| 0 <= k < cs.len() && is_word_char(#[trigger] cs[k]) && (k == 0 || !is_word_char(cs[k - 1]))
        ==> cs.subrange(k, word_end(cs, k + 1)) != w
}

/// Renaming touches nothing but whole words: when no whole word of the text equals `from`,
/// or when `to` is `from` itself, the text comes back unchanged. Identifiers that merely
/// contain `from` survive.
pub proof fn law_rename_changes_only_whole_words(cs: Seq<char>, from: Seq<char>, to: Seq<char>)
    requires
        to == from || no_word_is(cs, from),
    ensures
        renamed(cs, 0, from, to) == cs,
{
    lemma_rename_identity_from(cs, from, to, 0);
    assert(cs.subrange(0, cs.len() as int) =~= cs);
}

proof fn lemma_rename_identity_from(cs: Seq<char>, from: Seq<char>, to: Seq<char>, i: int)
    requires
        0 <= i <= cs.len(),
        i == 0 || i == cs.len() || !is_word_char(cs[i - 1]) || !is_word_char(cs[i]),
        to == from || no_word_is(cs, from),
    ensures
        renamed(cs, i, from, to) == cs.subrange(i, cs.len() as int),
    decreases cs.len() - i,
{
    if i < cs.len() {
        if is_word_char(cs[i]) {
            let j = word_end(cs, i + 1);
            lemma_word_end(cs, i + 1);
            lemma_rename_identity_from(cs, from, to, j);
            assert(cs.subrange(i, cs.len() as int) =~= cs.subrange(i, j) + cs.subrange(j, cs.len() as int));
        } else {
            lemma_rename_identity_from(cs, from, to, i + 1);
            assert(cs.subrange(i, cs.len() as int) =~= seq![cs[i]] + cs.subrange(i + 1, cs.len() as int));
        }
    } else {
        assert(cs.subrange(i, cs.len() as int) =~= Seq::<char>::empty());
    }
}

proof fn lemma_word_end_shift(p: Seq<char>, q: Seq<char>, k: int)
    requires
        0 <= k,
    ensures
        word_end(p + q, p.len() + k) == p.len() + word_end(q, k),
    decreases q.len() - k,
{
    if k < q.len() {
        assert((p + q)[p.len() + k] == q[k]);
        if is_word_char(q[k]) {
            lemma_word_end_shift(p, q, k + 1);
        }
    }
}

proof fn lemma_renamed_shift(p: Seq<char>, q: Seq<char>, k: int, from: Seq<char>, to: Seq<char>)
    requires
        0 <= k,
    ensures
        renamed(p + q, p.len() + k, from, to) == renamed(q, k, from, to),
    decreases q.len() - k,
{
    if k < q.len() {
        let b = p + q;
        assert(b[p.len() + k] == q[k]);
        if is_word_char(q[k]) {
            lemma_word_end_shift(p, q, k + 1);
            lemma_word_end(q, k + 1);
            let j = word_end(q, k + 1);
            assert(b.subrange(p.len() + k, p.len() + j) =~= q.subrange(k, j));
            lemma_renamed_shift(p, q, j, from, to);
        } else {
            lemma_renamed_shift(p, q, k + 1, from, to);
        }
    }
}

proof fn lemma_word_block(b: Seq<char>, s: int, e: int)
    requires
        0 <= s <= e <= b.len(),
        forall|m: int| s <= m < e ==> is_word_char(#[trigger] b[m]),
        e == b.len() || !is_word_char(b[e]),
    ensures
        word_end(b, s) == e,
    decreases e - s,
{
    if s < e {
        lemma_word_block(b, s + 1, e);
    }
}

proof fn lemma_word_head(p: Seq<char>, q: Seq<char>, from: Seq<char>, to: Seq<char>)
    requires
        p.len() > 0,
        forall|m: int| 0 <= m < p.len() ==> is_word_char(#[trigger] p[m]),
        q.len() == 0 || !is_word_char(q[0]),
    ensures
        renamed(p + q, 0, from, to) == (if p == from { to } else { p }) + renamed(q, 0, from, to),
{
    let b = p + q;
    assert forall|m: int| 1 <= m < p.len() implies is_word_char(#[trigger] b[m]) by {
        assert(b[m] == p[m]);
    }
    if q.len() > 0 {
        assert(b[p.len() as int] == q[0]);
    }
    assert(b[0] == p[0]);
    lemma_word_block(b, 1, p.len() as int);
    assert(b.subrange(0, p.len() as int) =~= p);
    lemma_renamed_shift(p, q, 0, from, to);
}

proof fn lemma_round_trip_from(cs: Seq<char>, from: Seq<char>, to: Seq<char>, i: int)
    requires
        to.len() > 0,
        forall|k: int| 0 <= k < to.len() ==> is_word_char(#[trigger] to[k]),
        no_word_is(cs, to),
        0 <= i <= cs.len(),
        i == 0 || i == cs.len() || !is_word_char(cs[i - 1]) || !is_word_char(cs[i]),
    ensures
        ({
            let r = renamed(cs, i, from, to);
            &&& renamed(r, 0, to, from) == cs.subrange(i, cs.len() as int)
            &&& i == cs.len() ==> r.len() == 0
            &&& i < cs.len() ==> r.len() > 0 && (is_word_char(r[0]) <==> is_word_char(cs[i]))
        }),
    decreases cs.len() - i,
{
    let r = renamed(cs, i, from, to);
    if i == cs.len() {
        assert(cs.subrange(i, cs.len() as int) =~= Seq::<char>::empty());
    } else if is_word_char(cs[i]) {
        let j = word_end(cs, i + 1);
        lemma_word_end(cs, i + 1);
        let w = cs.subrange(i, j);
        let piece = if w == from { to } else { w };
        let rest = renamed(cs, j, from, to);
        assert(r == piece + rest);
        lemma_round_trip_from(cs, from, to, j);
        assert forall|m: int| 0 <= m < piece.len() implies is_word_char(#[trigger] piece[m]) by {
            if w != from {
                assert(piece[m] == cs[i + m]);
            }
        }
        lemma_word_head(piece, rest, to, from);
        if w != from {
            assert(w != to);
        }
        assert(cs.subrange(i, cs.len() as int) =~= w + cs.subrange(j, cs.len() as int));
        assert(r[0] == piece[0]);
        if w != from {
            assert(piece[0] == cs[i]);
        }
    } else {
        let rest = renamed(cs, i + 1, from, to);
        assert(r == seq![cs[i]] + rest);
        lemma_round_trip_from(cs, from, to, i + 1);
        lemma_renamed_shift(seq![cs[i]], rest, 0, to, from);
        assert((seq![cs[i]] + rest)[0] == cs[i]);
        assert(cs.subrange(i, cs.len() as int) =~= seq![cs[i]] + cs.subrange(i + 1, cs.len() as int));
    }
}

/// Renaming a word and renaming it back gives the text again: on any text in which no whole
/// word is `to`, where `to` is a word of word characters, renaming `from` to `to` and then `to`
/// to `from` restores every character, as renaming `self` to `probe_self` in a clause and back
/// does.
pub proof fn law_renaming_back_restores_the_text(cs: Seq<char>, from: Seq<char>, to: Seq<char>)
    requires
        to.len() > 0,
        forall|k: int| 0 <= k < to.len() ==> is_word_char(#[trigger] to[k]),
        no_word_is(cs, to),
    ensures
        renamed(renamed(cs, 0, from, to), 0, to, from) == cs,
{
    lemma_round_trip_from(cs, from, to, 0);
    assert(cs.subrange(0, cs.len() as int) =~= cs);
}

} // verus!
