//! What each probe must hold of the function it probes, which types `kani::any()` is taken to
//! produce, and where the names of hand-written `kani::Arbitrary` types come from.

use vstd::prelude::*;

use crate::arbitrary::{arbitrary_names, item_arbitrary};
use crate::harness::{
    bind_inputs, clause_reason, completeness_call, completeness_code, completeness_parts, count_clauses,
    fn_probes, item_probes, items_probes, lemma_items_probes_none, let_any, precondition_assumes,
    precondition_code, return_type, vacuity_clauses, Config,
};
use crate::model::{probe_all, probe_check, ArgNode, FnNode, ItemNode, TypeNode, TypeShape};
use crate::probe::{clause_list, files_arbitrary, files_probes, join, report_state, start_state, GenState};

verus! {

/// `p` stands somewhere in `s`.
pub open spec fn has_part(s: Seq<char>, p: Seq<char>) -> bool {
    exists|i: int| 0 <= i && i + p.len() <= s.len() && #[trigger] s.subrange(i, i + p.len()) == p
}

proof fn lemma_has_part_mid(a: Seq<char>, p: Seq<char>, b: Seq<char>)
    ensures
        has_part(a + p + b, p),
{
    let s = a + p + b;
    assert(s.subrange(a.len() as int, (a.len() + p.len()) as int) =~= p);
}

proof fn lemma_has_part_in(a: Seq<char>, x: Seq<char>, b: Seq<char>, p: Seq<char>)
    requires
        has_part(x, p),
    ensures
        has_part(a + x + b, p),
{
    let i = choose|i: int| 0 <= i && i + p.len() <= x.len() && #[trigger] x.subrange(i, i + p.len()) == p;
    let s = a + x + b;
    assert(s.subrange(a.len() + i, a.len() + i + p.len()) =~= x.subrange(i, i + p.len()));
}

/// Every part of a joined list stands in the joined text.
proof fn lemma_join_has_part(parts: Seq<Seq<char>>, sep: Seq<char>, k: int)
    requires
        0 <= k < parts.len(),
    ensures
        has_part(join(parts, sep), parts[k]),
    decreases parts.len(),
{
    if parts.len() == 1 {
        assert(join(parts, sep) == parts[0]);
        assert(join(parts, sep).subrange(0, (0 + parts[0].len()) as int) =~= parts[0]);
    } else if k == parts.len() - 1 {
        lemma_has_part_mid(join(parts.drop_last(), sep) + sep, parts.last(), Seq::<char>::empty());
        assert(join(parts, sep) =~= join(parts.drop_last(), sep) + sep + parts.last() + Seq::<char>::empty());
    } else {
        lemma_join_has_part(parts.drop_last(), sep, k);
        assert(parts.drop_last()[k] == parts[k]);
        lemma_has_part_in(Seq::<char>::empty(), join(parts.drop_last(), sep), sep + parts.last(), parts[k]);
        assert(join(parts, sep) =~= Seq::<char>::empty() + join(parts.drop_last(), sep) + (sep + parts.last()));
    }
}

/// The names of the parameters of a signature that are bound by a plain identifier, in order.
pub open spec fn param_names(inputs: Seq<ArgNode>) -> Seq<Seq<char>>
    decreases inputs.len(),
{
    if inputs.len() == 0 {
        seq![]
    } else {
        match inputs.last() {
            ArgNode::Typed { name: Some(n), .. } => param_names(inputs.drop_last()).push(n@),
            _ => param_names(inputs.drop_last()),
        }
    }
}

/// The statement that gives parameter `a` an arbitrary value: `let name: Type = kani::any();`,
/// or, for the receiver, `let probe_self: Self = kani::any();` with the implementing type.
pub open spec fn havoc_line(a: ArgNode, self_ty: Option<TypeNode>) -> Seq<char> {
    match a {
        ArgNode::Receiver => "let "@ + "probe_self"@ + ": "@ + (match self_ty {
            Some(st) => st.text@,
            None => Seq::<char>::empty(),
        }) + " = kani::any();"@,
        ArgNode::Typed { name, ty } => "let "@ + (match name {
            Some(n) => n@,
            None => Seq::<char>::empty(),
        }) + ": "@ + ty.text@ + " = kani::any();"@,
    }
}

proof fn lemma_bind_inputs_ok(inputs: Seq<ArgNode>, self_ty: Option<TypeNode>, known: Set<Seq<char>>)
    requires
        bind_inputs(inputs, self_ty, known) is Ok,
    ensures
        ({
            let (binds, args, _) = bind_inputs(inputs, self_ty, known)->Ok_0;
            &&& binds.len() == inputs.len()
            &&& forall|k: int| 0 <= k < inputs.len() ==> binds[k] == havoc_line(#[trigger] inputs[k], self_ty)
            &&& args == param_names(inputs)
        }),
    decreases inputs.len(),
{
    if inputs.len() > 0 {
        lemma_bind_inputs_ok(inputs.drop_last(), self_ty, known);
        let (b0, a0, _) = bind_inputs(inputs.drop_last(), self_ty, known)->Ok_0;
        let (binds, args, _) = bind_inputs(inputs, self_ty, known)->Ok_0;
        assert forall|k: int| 0 <= k < inputs.len() implies binds[k] == havoc_line(#[trigger] inputs[k], self_ty) by {
            if k < inputs.len() - 1 {
                assert(inputs.drop_last()[k] == inputs[k]);
            }
        }
    }
}

proof fn lemma_bind_inputs_prefix_err(inputs: Seq<ArgNode>, self_ty: Option<TypeNode>, known: Set<Seq<char>>)
    requires
        inputs.len() > 0,
        bind_inputs(inputs.drop_last(), self_ty, known) is Err,
    ensures
        bind_inputs(inputs, self_ty, known) is Err,
{
}

/// A precondition probe gives every parameter of its function an arbitrary value: for each
/// parameter `n: T`, its code holds `let n: T = kani::any();`, and for a receiver,
/// `let probe_self: S = kani::any();` with the implementing type `S`.
pub proof fn law_a_precondition_probe_binds_every_parameter(f: FnNode, self_ty: Option<TypeNode>, c: Config, st: GenState)
    requires
        c.precond,
        !c.completeness,
        fn_probes(f, self_ty, c, st) matches Some(st2) && st2.probes.len() > st.probes.len(),
    ensures
        forall|k: int| 0 <= k < f.sig.inputs@.len() ==> has_part(fn_probes(f, self_ty, c, st).unwrap().probes.last().code, #[trigger] havoc_line(f.sig.inputs@[k], self_ty)),
{
    let cl = clause_list(f.attrs@, "requires"@);
    let st1 = count_clauses(st, cl.len()).unwrap();
    let (binds, args, m) = bind_inputs(f.sig.inputs@, self_ty, c.known)->Ok_0;
    lemma_bind_inputs_ok(f.sig.inputs@, self_ty, c.known);
    let assumes = precondition_assumes(cl, 0, seq![])->Ok_0;
    let p = fn_probes(f, self_ty, c, st).unwrap().probes.last();
    let name = p.name;
    let sep = "\n        "@;
    let func = f.sig.name@;
    assert(p.code == precondition_code(func, name, binds, assumes));
    let a = "    /// Probes `"@ + func
        + "` preconditions. An UNREACHABLE cover means they are jointly\n    /// unsatisfiable, so every proof under them is VACUOUS.\n    #[kani::proof]\n    fn "@
        + name + "() {\n        "@;
    let b = "\n        "@ + join(assumes, sep) + "\n        kani::cover!(true, \"preconditions jointly satisfiable\");\n    }\n"@;
    assert(p.code =~= a + join(binds, sep) + b);
    assert forall|k: int| 0 <= k < f.sig.inputs@.len() implies has_part(p.code, #[trigger] havoc_line(f.sig.inputs@[k], self_ty)) by {
        lemma_join_has_part(binds, sep, k);
        lemma_has_part_in(a, join(binds, sep), b, binds[k]);
    }
}

proof fn lemma_completeness_code_parts(func: Seq<char>, name: Seq<char>, binds: Seq<Seq<char>>, ret: Seq<char>, prefix: Seq<char>, args: Seq<Seq<char>>, rb: Seq<Seq<char>>, bodies: Seq<Seq<char>>)
    ensures
        ({
            let code = completeness_code(func, name, binds, ret, prefix + func + "("@ + join(args, ", "@) + ")"@, rb, bodies);
            &&& holds_all(code, binds)
            &&& has_part(code, func + "("@ + join(args, ", "@) + ")"@)
        }),
{
    let sep = "\n        "@;
    let target = func + "("@ + join(args, ", "@) + ")"@;
    let call = prefix + func + "("@ + join(args, ", "@) + ")"@;
    let code = completeness_code(func, name, binds, ret, call, rb, bodies);
    let a = "    /// Probes `"@ + func
        + "` completeness. A SATISFIED cover means a WRONG output\n    /// satisfies the contract, so it does not pin the result (loose contract).\n    #[kani::proof]\n    fn "@
        + name + "() {\n        "@;
    let tail = ";\n        let probe_wrong: "@ + ret + " = kani::any();\n        kani::assume(probe_wrong != probe_correct);\n        "@
        + join(rb, sep) + "\n        kani::cover!("@ + join(bodies, " && "@)
        + ", \"a wrong output satisfies the contract\");\n    }\n"@;
    let b = "\n        let probe_correct: "@ + ret + " = "@ + call + tail;
    assert(code =~= a + join(binds, sep) + b);
    assert forall|k: int| 0 <= k < binds.len() implies has_part(code, #[trigger] binds[k]) by {
        lemma_join_has_part(binds, sep, k);
        lemma_has_part_in(a, join(binds, sep), b, binds[k]);
    }
    let before = a + join(binds, sep) + "\n        let probe_correct: "@ + ret + " = "@ + prefix;
    assert(code =~= before + target + tail);
    lemma_has_part_mid(before, target, tail);
}

/// A completeness probe calls the real function on every parameter: its code holds the
/// function's name followed by the names of all its plainly named parameters, in order, in
/// parentheses and separated by `, `; and, as a precondition probe does, it gives every
/// parameter an arbitrary value.
pub proof fn law_a_completeness_probe_calls_with_every_parameter(f: FnNode, self_ty: Option<TypeNode>, c: Config, st: GenState)
    requires
        c.completeness,
        fn_probes(f, self_ty, c, st) matches Some(st2) && st2.probes.len() > st.probes.len(),
    ensures
        ({
            let code = fn_probes(f, self_ty, c, st).unwrap().probes.last().code;
            &&& has_part(code, f.sig.name@ + "("@ + join(param_names(f.sig.inputs@), ", "@) + ")"@)
            &&& forall|k: int| 0 <= k < f.sig.inputs@.len() ==> has_part(code, #[trigger] havoc_line(f.sig.inputs@[k], self_ty))
        }),
{
    let cl = clause_list(f.attrs@, "ensures"@);
    let ret = return_type(f.sig.output, self_ty).unwrap();
    let (binds, args, is_method) = bind_inputs(f.sig.inputs@, self_ty, c.known)->Ok_0;
    lemma_bind_inputs_ok(f.sig.inputs@, self_ty, c.known);
    let (rb, bodies) = completeness_parts(cl, 0, seq![], seq![])->Ok_0;
    let p = fn_probes(f, self_ty, c, st).unwrap().probes.last();
    let func = f.sig.name@;
    let prefix = crate::harness::call_prefix(is_method, self_ty);
    assert(completeness_call(func, args, is_method, self_ty) =~= prefix + func + "("@ + join(args, ", "@) + ")"@);
    assert(p.code == completeness_code(func, p.name, binds, ret.text@, prefix + func + "("@ + join(args, ", "@) + ")"@, rb, bodies));
    lemma_completeness_code_parts(func, p.name, binds, ret.text@, prefix, args, rb, bodies);
    assert forall|k: int| 0 <= k < f.sig.inputs@.len() implies has_part(p.code, #[trigger] havoc_line(f.sig.inputs@[k], self_ty)) by {
        assert(binds[k] == havoc_line(f.sig.inputs@[k], self_ty));
    }
}

/// The integer types, `bool`, `char`, `NonZero`, `Option`, `Alignment` and the `NonZero*`
/// aliases, written without type arguments, are types `kani::any()` can always produce,
/// whatever types carry a hand-written `kani::Arbitrary`.
pub proof fn law_primitive_types_are_probeable(t: TypeNode, known: Set<Seq<char>>)
    requires
        t.shape matches TypeShape::Path { name: Some(n), args } && args@.len() == 0 && ({
            let n = n@;
            ||| n == "u8"@ || n == "u16"@ || n == "u32"@ || n == "u64"@ || n == "u128"@ || n == "usize"@
            ||| n == "i8"@ || n == "i16"@ || n == "i32"@ || n == "i64"@ || n == "i128"@ || n == "isize"@
            ||| n == "bool"@ || n == "char"@ || n == "NonZero"@ || n == "Option"@ || n == "Alignment"@
            ||| n == "NonZeroU8"@ || n == "NonZeroU16"@ || n == "NonZeroU32"@ || n == "NonZeroU64"@
            ||| n == "NonZeroU128"@ || n == "NonZeroUsize"@
            ||| n == "NonZeroI8"@ || n == "NonZeroI16"@ || n == "NonZeroI32"@ || n == "NonZeroI64"@
            ||| n == "NonZeroI128"@ || n == "NonZeroIsize"@
        }),
    ensures
        probe_check(t, known) == Ok::<(), Seq<char>>(()),
{
    match t.shape {
        TypeShape::Path { args, .. } => {
            assert(probe_all(args@, known) == Ok::<(), Seq<char>>(()));
        },
        _ => {},
    }
}

/// A type named by a hand-written `kani::Arbitrary`, written without type arguments, is one
/// `kani::any()` can produce.
pub proof fn law_known_types_are_probeable(t: TypeNode, known: Set<Seq<char>>)
    requires
        t.shape matches TypeShape::Path { name: Some(n), args } && args@.len() == 0 && known.contains(n@),
    ensures
        probe_check(t, known) == Ok::<(), Seq<char>>(()),
{
    match t.shape {
        TypeShape::Path { args, .. } => {
            assert(probe_all(args@, known) == Ok::<(), Seq<char>>(()));
        },
        _ => {},
    }
}

proof fn lemma_item_names_in(items: Seq<ItemNode>, k: int)
    requires
        0 <= k < items.len(),
    ensures
        item_arbitrary(items[k]).subset_of(arbitrary_names(items)),
    decreases items.len(),
{
    if k < items.len() - 1 {
        lemma_item_names_in(items.drop_last(), k);
        assert(items.drop_last()[k] == items[k]);
    }
}

/// An `impl` of a trait whose path ends in `Arbitrary`, for a type whose path ends in `T`,
/// makes `T` one of the names of types with a hand-written `kani::Arbitrary`.
pub proof fn law_an_arbitrary_impl_names_its_type(items: Seq<ItemNode>, k: int, n: Seq<char>)
    requires
        0 <= k < items.len(),
        items[k] matches ItemNode::Impl { trait_name: Some(tn), self_ty, .. } && tn@ == "Arbitrary"@
            && (self_ty.shape matches TypeShape::Path { name: Some(m), .. } && m@ == n),
    ensures
        arbitrary_names(items).contains(n),
{
    lemma_item_names_in(items, k);
}

/// Inline modules are searched: every name that the items of an inline module give is a name
/// of the items around it, and a list that holds only that module gives exactly its names.
pub proof fn law_inline_modules_are_searched(items: Seq<ItemNode>, k: int, inner: Seq<ItemNode>)
    requires
        0 <= k < items.len(),
        items[k] matches ItemNode::Mod(Some(v)) && v@ == inner,
    ensures
        arbitrary_names(inner).subset_of(arbitrary_names(items)),
        arbitrary_names(seq![items[k]]) == arbitrary_names(inner),
{
    lemma_item_names_in(items, k);
    let one = seq![items[k]];
    assert(one.drop_last() =~= Seq::<ItemNode>::empty());
    assert(one.last() == items[k]);
    assert(item_arbitrary(items[k]) == arbitrary_names(inner));
    assert(arbitrary_names(one.drop_last()) == Set::<Seq<char>>::empty());
    assert(arbitrary_names(one) =~= Set::<Seq<char>>::empty().union(arbitrary_names(inner)));
}

proof fn lemma_file_names_in(files: Seq<(Seq<char>, Seq<ItemNode>)>, i: int)
    requires
        0 <= i < files.len(),
    ensures
        arbitrary_names(files[i].1).subset_of(files_arbitrary(files)),
    decreases files.len(),
{
    if i < files.len() - 1 {
        lemma_file_names_in(files.drop_last(), i);
        assert(files.drop_last()[i] == files[i]);
    }
}

/// The report's probes keep what earlier files gave.
proof fn lemma_probe_kept(st: GenState, st2: GenState, k: int)
    requires
        st2.probes.take(st.probes.len() as int) == st.probes,
        st.probes.len() <= st2.probes.len(),
        0 <= k < st.probes.len(),
    ensures
        st2.probes[k] == st.probes[k],
{
    assert(st2.probes.take(st.probes.len() as int)[k] == st2.probes[k]);
}

/// A file whose one item is `f` gives, in postcondition mode, a probe of `f` in that file when
/// `f`'s first clause binds its result, it has no type parameter and no parameters, and it
/// returns a type in `known`.
proof fn lemma_single_fn_file_probe(f: FnNode, path: Seq<char>, known: Set<Seq<char>>, st: GenState)
    requires
        items_probes(seq![ItemNode::Fn(f)], None, Config { file: path, known, precond: false, completeness: false }, Some(st)) is Some,
        !f.sig.has_type_param,
        f.sig.inputs@.len() == 0,
        f.sig.output matches Some(t) && (t.shape matches TypeShape::Path { name: Some(n), args } && args@.len() == 0 && known.contains(n@)),
        clause_list(f.attrs@, "ensures"@).len() > 0,
        crate::syntax::closure_parts(clause_list(f.attrs@, "ensures"@)[0]) matches Some((Some(_), _)),
    ensures
        ({
            let st2 = items_probes(seq![ItemNode::Fn(f)], None, Config { file: path, known, precond: false, completeness: false }, Some(st)).unwrap();
            &&& st.probes.len() < st2.probes.len()
            &&& st2.probes[st.probes.len() as int].file == path
            &&& st2.probes[st.probes.len() as int].func == f.sig.name@
            &&& st2.probes.take(st.probes.len() as int) == st.probes
        }),
{
    let c = Config { file: path, known, precond: false, completeness: false };
    let items = seq![ItemNode::Fn(f)];
    assert(items.drop_last() =~= Seq::<ItemNode>::empty());
    assert(items.last() == ItemNode::Fn(f));
    assert(items_probes(items.drop_last(), None, c, Some(st)) == Some(st));
    assert(item_probes(ItemNode::Fn(f), None, c, Some(st)) == fn_probes(f, None, c, st));
    assert(items_probes(items, None, c, Some(st)) == fn_probes(f, None, c, st));
    let cl = clause_list(f.attrs@, "ensures"@);
    let st1 = count_clauses(st, cl.len()).unwrap();
    let t = f.sig.output.unwrap();
    law_known_types_are_probeable(t, known);
    assert(bind_inputs(f.sig.inputs@, None, known) == Ok::<_, Seq<char>>((Seq::<Seq<char>>::empty(), Seq::<Seq<char>>::empty(), false)));
    let site = crate::harness::ProbeSite { file: path, func: f.sig.name@, line: f.sig.line as nat };
    let (result, body) = match crate::syntax::closure_parts(cl[0]) {
        Some((Some(r), b)) => (r, b),
        _ => (seq![], seq![]),
    };
    let seq1 = st1.seq + 1;
    let pname = crate::harness::probe_name("probe_vacuity_"@, site.func, seq1);
    let code = crate::harness::vacuity_code(site.func, 0, pname, seq![], t.text@, result, crate::harness::self_renamed(body));
    let p = crate::probe::ProbeView { file: site.file, line: site.line, func: site.func, name: pname, code };
    let next = GenState { probes: st1.probes.push(p), seq: seq1, covered: st1.covered + 1, ..st1 };
    assert(vacuity_clauses(cl, 0, site, seq![], t.text@, st1) == vacuity_clauses(cl, 1, site, seq![], t.text@, next));
    crate::laws::law_each_postcondition_clause_gets_one_entry(cl, 1, site, seq![], t.text@, next);
    let st2 = vacuity_clauses(cl, 1, site, seq![], t.text@, next).unwrap();
    lemma_probe_kept(next, st2, st.probes.len() as int);
    assert(st2.probes.take(st.probes.len() as int) =~= st2.probes.take(next.probes.len() as int).take(st.probes.len() as int));
    assert(next.probes.take(st.probes.len() as int) =~= st.probes);
}

proof fn lemma_probe_of_file(files: Seq<(Seq<char>, Seq<ItemNode>)>, j: int, f: FnNode, known: Set<Seq<char>>, st: GenState)
    requires
        0 <= j < files.len(),
        files_probes(files, known, false, false, Some(st)) is Some,
        files[j].1 == seq![ItemNode::Fn(f)],
        !f.sig.has_type_param,
        f.sig.inputs@.len() == 0,
        f.sig.output matches Some(t) && (t.shape matches TypeShape::Path { name: Some(n), args } && args@.len() == 0 && known.contains(n@)),
        clause_list(f.attrs@, "ensures"@).len() > 0,
        crate::syntax::closure_parts(clause_list(f.attrs@, "ensures"@)[0]) matches Some((Some(_), _)),
    ensures
        ({
            let ps = files_probes(files, known, false, false, Some(st)).unwrap().probes;
            exists|k: int| 0 <= k < ps.len() && #[trigger] ps[k].file == files[j].0 && ps[k].func == f.sig.name@
        }),
    decreases files.len(),
{
    let last = files.last();
    let c = Config { file: last.0, known, precond: false, completeness: false };
    let mid = files_probes(files.drop_last(), known, false, false, Some(st));
    if mid is None {
        lemma_items_probes_none(last.1, None, c);
    }
    let end = files_probes(files, known, false, false, Some(st)).unwrap();
    if j == files.len() - 1 {
        lemma_single_fn_file_probe(f, last.0, known, mid.unwrap());
        let k = mid.unwrap().probes.len() as int;
        assert(end.probes[k].file == files[j].0);
    } else {
        assert(files.drop_last()[j] == files[j]);
        lemma_probe_of_file(files.drop_last(), j, f, known, st);
        let ps = mid.unwrap().probes;
        let k = choose|k: int| 0 <= k < ps.len() && #[trigger] ps[k].file == files[j].0 && ps[k].func == f.sig.name@;
        crate::laws::lemma_items_probes_keep(last.1, None, c, mid.unwrap());
        lemma_probe_kept(mid.unwrap(), end, k);
        assert(end.probes[k].file == files[j].0);
    }
}

/// The types with a hand-written `kani::Arbitrary` count in every file: when some file holds
/// `impl Arbitrary for T`, a function of another file (here one alone in its file, with no
/// parameters and no type parameter) that returns `T` and whose first postcondition binds its
/// result gets a postcondition probe in its own file.
pub proof fn law_arbitrary_impls_count_across_files(files: Seq<(Seq<char>, Seq<ItemNode>)>, i: int, k: int, j: int, f: FnNode, n: Seq<char>)
    requires
        report_state(files, false, false) is Some,
        0 <= i < files.len(),
        0 <= k < files[i].1.len(),
        files[i].1[k] matches ItemNode::Impl { trait_name: Some(tn), self_ty, .. } && tn@ == "Arbitrary"@
            && (self_ty.shape matches TypeShape::Path { name: Some(m), .. } && m@ == n),
        0 <= j < files.len(),
        files[j].1 == seq![ItemNode::Fn(f)],
        !f.sig.has_type_param,
        f.sig.inputs@.len() == 0,
        f.sig.output matches Some(t) && (t.shape matches TypeShape::Path { name: Some(r), args } && args@.len() == 0 && r@ == n),
        clause_list(f.attrs@, "ensures"@).len() > 0,
        crate::syntax::closure_parts(clause_list(f.attrs@, "ensures"@)[0]) matches Some((Some(_), _)),
    ensures
        ({
            let ps = report_state(files, false, false).unwrap().probes;
            exists|q: int| 0 <= q < ps.len() && #[trigger] ps[q].file == files[j].0 && ps[q].func == f.sig.name@
        }),
{
    law_an_arbitrary_impl_names_its_type(files[i].1, k, n);
    lemma_file_names_in(files, i);
    lemma_probe_of_file(files, j, f, files_arbitrary(files), start_state());
}

/// Every line of `binds` stands in `code`.
pub open spec fn holds_all(code: Seq<char>, binds: Seq<Seq<char>>) -> bool {
    forall|k: int| 0 <= k < binds.len() ==> has_part(code, #[trigger] binds[k])
}

proof fn lemma_vacuity_code_binds(func: Seq<char>, i: nat, name: Seq<char>, binds: Seq<Seq<char>>, ret: Seq<char>, result: Seq<char>, body: Seq<char>)
    ensures
        holds_all(crate::harness::vacuity_code(func, i, name, binds, ret, result, body), binds),
        has_part(crate::harness::vacuity_code(func, i, name, binds, ret, result, body), "let probe_result: "@ + ret + " = kani::any();"@),
{
    let sep = "\n        "@;
    let code = crate::harness::vacuity_code(func, i, name, binds, ret, result, body);
    let a = "    /// Probes `"@ + func + "` clause "@ + crate::text::decimal(i)
        + ". SUCCESS means the clause is VACUOUS.\n    #[kani::proof]\n    fn "@ + name + "() {\n        "@;
    let b = "\n        let probe_result: "@ + ret + " = kani::any();\n        let "@ + result + " = &probe_result;\n        assert!("@
        + body + ");\n    }\n"@;
    assert(code =~= a + join(binds, sep) + b);
    assert forall|k: int| 0 <= k < binds.len() implies has_part(code, #[trigger] binds[k]) by {
        lemma_join_has_part(binds, sep, k);
        lemma_has_part_in(a, join(binds, sep), b, binds[k]);
    }
    let line = "let probe_result: "@ + ret + " = kani::any();"@;
    let before = a + join(binds, sep) + "\n        "@;
    let after = "\n        let "@ + result + " = &probe_result;\n        assert!("@ + body + ");\n    }\n"@;
    assert("\n        let probe_result: "@ =~= "\n        "@ + "let probe_result: "@) by {
        reveal_strlit("\n        let probe_result: ");
        reveal_strlit("\n        ");
        reveal_strlit("let probe_result: ");
    }
    assert(" = kani::any();\n        let "@ =~= " = kani::any();"@ + "\n        let "@) by {
        reveal_strlit(" = kani::any();\n        let ");
        reveal_strlit(" = kani::any();");
        reveal_strlit("\n        let ");
    }
    assert(code =~= before + line + after);
    lemma_has_part_mid(before, line, after);
}

proof fn lemma_vacuity_probes_bind(cl: Seq<Seq<char>>, i: nat, site: crate::harness::ProbeSite, binds: Seq<Seq<char>>, ret: Seq<char>, st: GenState)
    requires
        i <= cl.len(),
        vacuity_clauses(cl, i, site, binds, ret, st) is Some,
    ensures
        ({
            let st2 = vacuity_clauses(cl, i, site, binds, ret, st).unwrap();
            forall|q: int| st.probes.len() <= q < st2.probes.len() ==> holds_all(#[trigger] st2.probes[q].code, binds)
                && has_part(st2.probes[q].code, "let probe_result: "@ + ret + " = kani::any();"@)
        }),
    decreases cl.len() - i,
{
    if i < cl.len() {
        let next = match crate::syntax::closure_parts(cl[i as int]) {
            None => crate::probe::skip_state(st, site.file, site.func, clause_reason(i, " is not a closure this tool can parse"@)),
            Some((None, _)) => crate::probe::skip_state(st, site.file, site.func, clause_reason(i, " has no simple result binding"@)),
            Some((Some(result), body)) => {
                let seq = st.seq + 1;
                let name = crate::harness::probe_name("probe_vacuity_"@, site.func, seq);
                let code = crate::harness::vacuity_code(site.func, i, name, binds, ret, result, crate::harness::self_renamed(body));
                lemma_vacuity_code_binds(site.func, i, name, binds, ret, result, crate::harness::self_renamed(body));
                let p = crate::probe::ProbeView { file: site.file, line: site.line, func: site.func, name, code };
                GenState { probes: st.probes.push(p), seq, covered: st.covered + 1, ..st }
            },
        };
        assert(vacuity_clauses(cl, i, site, binds, ret, st) == vacuity_clauses(cl, i + 1, site, binds, ret, next));
        lemma_vacuity_probes_bind(cl, i + 1, site, binds, ret, next);
        crate::laws::law_each_postcondition_clause_gets_one_entry(cl, i + 1, site, binds, ret, next);
        let st2 = vacuity_clauses(cl, i, site, binds, ret, st).unwrap();
        assert forall|q: int| st.probes.len() <= q < st2.probes.len() implies holds_all(#[trigger] st2.probes[q].code, binds)
            && has_part(st2.probes[q].code, "let probe_result: "@ + ret + " = kani::any();"@) by {
            if q < next.probes.len() {
                lemma_probe_kept(next, st2, q);
            }
        }
    }
}

/// A postcondition probe gives every parameter of its function an arbitrary value, and its
/// result an arbitrary value of the result type: for each parameter `n: T` its code holds
/// `let n: T = kani::any();` (`let probe_self: S = kani::any();` for a receiver), and it holds
/// `let probe_result: R = kani::any();` for the result type `R` (`Self` read as the
/// implementing type).
pub proof fn law_a_postcondition_probe_binds_every_parameter(f: FnNode, self_ty: Option<TypeNode>, c: Config, st: GenState)
    requires
        !c.precond,
        !c.completeness,
        fn_probes(f, self_ty, c, st) is Some,
    ensures
        ({
            let st2 = fn_probes(f, self_ty, c, st).unwrap();
            forall|q: int, k: int| st.probes.len() <= q < st2.probes.len() && 0 <= k < f.sig.inputs@.len()
                ==> has_part(#[trigger] st2.probes[q].code, #[trigger] havoc_line(f.sig.inputs@[k], self_ty))
        }),
        ({
            let st2 = fn_probes(f, self_ty, c, st).unwrap();
            forall|q: int| st.probes.len() <= q < st2.probes.len()
                ==> (return_type(f.sig.output, self_ty) matches Some(r)
                    && has_part(#[trigger] st2.probes[q].code, "let probe_result: "@ + r.text@ + " = kani::any();"@))
        }),
{
    let st2 = fn_probes(f, self_ty, c, st).unwrap();
    crate::laws::law_function_probes(f, self_ty, c, st);
    let cl = clause_list(f.attrs@, "ensures"@);
    if cl.len() == 0 || f.sig.has_type_param {
        return;
    }
    match return_type(f.sig.output, self_ty) {
        None => {},
        Some(ret) => match probe_check(ret, c.known) {
            Err(_) => {},
            Ok(_) => match bind_inputs(f.sig.inputs@, self_ty, c.known) {
                Err(_) => {},
                Ok((binds, _, _)) => {
                    lemma_bind_inputs_ok(f.sig.inputs@, self_ty, c.known);
                    let st1 = count_clauses(st, cl.len()).unwrap();
                    let site = crate::harness::ProbeSite { file: c.file, func: f.sig.name@, line: f.sig.line as nat };
                    lemma_vacuity_probes_bind(cl, 0, site, binds, ret.text@, st1);
                    assert forall|q: int, k: int| st.probes.len() <= q < st2.probes.len() && 0 <= k < f.sig.inputs@.len()
                        implies has_part(#[trigger] st2.probes[q].code, #[trigger] havoc_line(f.sig.inputs@[k], self_ty)) by {
                        assert(holds_all(st2.probes[q].code, binds));
                        assert(binds[k] == havoc_line(f.sig.inputs@[k], self_ty));
                    }
                },
            },
        },
    }
}

/// Only `impl` blocks of a trait whose path ends in `Arbitrary`, and inline modules holding
/// them, name types: any other single item names none.
pub proof fn law_other_items_name_no_type(item: ItemNode)
    requires
        !(item matches ItemNode::Impl { trait_name: Some(t), .. } && t@ == "Arbitrary"@),
        !(item matches ItemNode::Mod(Some(_))),
    ensures
        arbitrary_names(seq![item]) == Set::<Seq<char>>::empty(),
{
    let one = seq![item];
    assert(one.drop_last() =~= Seq::<ItemNode>::empty());
    assert(one.last() == item);
    match item {
        ItemNode::Impl { trait_name: Some(t), .. } => {
            assert(t@ != "Arbitrary"@);
        },
        ItemNode::Mod(m) => {
            assert(m is None);
        },
        _ => {},
    }
    assert(item_arbitrary(item) =~= Set::<Seq<char>>::empty());
    assert(arbitrary_names(one.drop_last()) == Set::<Seq<char>>::empty());
    assert(arbitrary_names(one) =~= Set::<Seq<char>>::empty().union(Set::<Seq<char>>::empty()));
}

/// The statement by which a precondition probe assumes clause `c`: its first comma-separated
/// element, `self` renamed, inside `kani::assume(...);`.
pub open spec fn assume_line(c: Seq<char>) -> Seq<char> {
    "kani::assume("@ + crate::harness::self_renamed(crate::text::first_element(c)) + ");"@
}

proof fn lemma_assumes(cl: Seq<Seq<char>>, i: nat, acc: Seq<Seq<char>>)
    requires
        i <= cl.len(),
        precondition_assumes(cl, i, acc) is Ok,
    ensures
        ({
            let r = precondition_assumes(cl, i, acc)->Ok_0;
            &&& r.len() == acc.len() + (cl.len() - i)
            &&& forall|j: int| 0 <= j < acc.len() ==> r[j] == acc[j]
            &&& forall|j: int| i <= j < cl.len() ==> r[acc.len() + (j - i)] == assume_line(#[trigger] cl[j])
        }),
    decreases cl.len() - i,
{
    if i < cl.len() {
        let next = acc.push(assume_line(cl[i as int]));
        lemma_assumes(cl, i + 1, next);
        let r = precondition_assumes(cl, i, acc)->Ok_0;
        assert forall|j: int| i <= j < cl.len() implies r[acc.len() + (j - i)] == assume_line(#[trigger] cl[j]) by {
            if j == i {
                assert(r[acc.len() as int] == next[acc.len() as int]);
            } else {
                assert(acc.len() + (j - i) == next.len() + (j - (i + 1)));
            }
        }
    }
}

/// A precondition probe assumes every precondition of its function: for each `requires`
/// clause, its code holds `kani::assume(p);` where `p` is the clause's first comma-separated
/// element with `self` renamed to `probe_self`.
pub proof fn law_a_precondition_probe_assumes_every_clause(f: FnNode, self_ty: Option<TypeNode>, c: Config, st: GenState)
    requires
        c.precond,
        !c.completeness,
        fn_probes(f, self_ty, c, st) matches Some(st2) && st2.probes.len() > st.probes.len(),
    ensures
        ({
            let cl = clause_list(f.attrs@, "requires"@);
            forall|i: int| 0 <= i < cl.len() ==> has_part(fn_probes(f, self_ty, c, st).unwrap().probes.last().code, #[trigger] assume_line(cl[i]))
        }),
{
    let cl = clause_list(f.attrs@, "requires"@);
    let (binds, args, m) = bind_inputs(f.sig.inputs@, self_ty, c.known)->Ok_0;
    lemma_assumes(cl, 0, seq![]);
    let assumes = precondition_assumes(cl, 0, seq![])->Ok_0;
    let p = fn_probes(f, self_ty, c, st).unwrap().probes.last();
    let sep = "\n        "@;
    let func = f.sig.name@;
    assert(p.code == precondition_code(func, p.name, binds, assumes));
    let a = "    /// Probes `"@ + func
        + "` preconditions. An UNREACHABLE cover means they are jointly\n    /// unsatisfiable, so every proof under them is VACUOUS.\n    #[kani::proof]\n    fn "@
        + p.name + "() {\n        "@ + join(binds, sep) + "\n        "@;
    let b = "\n        kani::cover!(true, \"preconditions jointly satisfiable\");\n    }\n"@;
    assert(p.code =~= a + join(assumes, sep) + b);
    assert forall|i: int| 0 <= i < cl.len() implies has_part(p.code, #[trigger] assume_line(cl[i])) by {
        assert(assumes[0 + (i - 0)] == assume_line(cl[i]));
        lemma_join_has_part(assumes, sep, i);
        lemma_has_part_in(a, join(assumes, sep), b, assumes[i]);
    }
}

proof fn lemma_bodies(cl: Seq<Seq<char>>, i: nat, rb: Seq<Seq<char>>, bodies: Seq<Seq<char>>)
    requires
        i <= cl.len(),
        completeness_parts(cl, i, rb, bodies) is Ok,
    ensures
        ({
            let r = (completeness_parts(cl, i, rb, bodies)->Ok_0).1;
            &&& r.len() == bodies.len() + (cl.len() - i)
            &&& forall|j: int| 0 <= j < bodies.len() ==> r[j] == bodies[j]
            &&& forall|j: int| i <= j < cl.len() ==> (crate::syntax::closure_parts(#[trigger] cl[j]) matches Some((Some(_), b))
                && r[bodies.len() + (j - i)] == "("@ + crate::harness::self_renamed(b) + ")"@)
        }),
    decreases cl.len() - i,
{
    if i < cl.len() {
        match crate::syntax::closure_parts(cl[i as int]) {
            Some((Some(result), body)) => {
                let nb = bodies.push("("@ + crate::harness::self_renamed(body) + ")"@);
                let nrb = rb.push("let "@ + result + " = &probe_wrong;"@);
                lemma_bodies(cl, i + 1, nrb, nb);
                let r = (completeness_parts(cl, i, rb, bodies)->Ok_0).1;
                assert forall|j: int| i <= j < cl.len() implies (crate::syntax::closure_parts(#[trigger] cl[j]) matches Some((Some(_), b))
                    && r[bodies.len() + (j - i)] == "("@ + crate::harness::self_renamed(b) + ")"@) by {
                    if j == i {
                        assert(r[bodies.len() as int] == nb[bodies.len() as int]);
                    } else {
                        assert(bodies.len() + (j - i) == nb.len() + (j - (i + 1)));
                    }
                }
                assert forall|j: int| 0 <= j < bodies.len() implies r[j] == bodies[j] by {
                    assert(nb[j] == bodies[j]);
                }
            },
            _ => {},
        }
    }
}

/// A completeness probe covers every postcondition of its function at once: each `ensures`
/// clause is a closure binding its result, and its body, `self` renamed to `probe_self`,
/// stands in the probe's code in parentheses.
pub proof fn law_a_completeness_probe_covers_every_clause(f: FnNode, self_ty: Option<TypeNode>, c: Config, st: GenState)
    requires
        c.completeness,
        fn_probes(f, self_ty, c, st) matches Some(st2) && st2.probes.len() > st.probes.len(),
    ensures
        ({
            let cl = clause_list(f.attrs@, "ensures"@);
            let code = fn_probes(f, self_ty, c, st).unwrap().probes.last().code;
            forall|i: int| 0 <= i < cl.len() ==> (crate::syntax::closure_parts(#[trigger] cl[i]) matches Some((Some(_), b))
                && has_part(code, "("@ + crate::harness::self_renamed(b) + ")"@))
        }),
{
    let cl = clause_list(f.attrs@, "ensures"@);
    let ret = return_type(f.sig.output, self_ty).unwrap();
    let (binds, args, is_method) = bind_inputs(f.sig.inputs@, self_ty, c.known)->Ok_0;
    lemma_bodies(cl, 0, seq![], seq![]);
    let (rb, bodies) = completeness_parts(cl, 0, seq![], seq![])->Ok_0;
    let p = fn_probes(f, self_ty, c, st).unwrap().probes.last();
    let func = f.sig.name@;
    let call = completeness_call(func, args, is_method, self_ty);
    assert(p.code == completeness_code(func, p.name, binds, ret.text@, call, rb, bodies));
    lemma_cover_has_bodies(func, p.name, binds, ret.text@, call, rb, bodies);
    assert forall|i: int| 0 <= i < cl.len() implies (crate::syntax::closure_parts(#[trigger] cl[i]) matches Some((Some(_), b))
        && has_part(p.code, "("@ + crate::harness::self_renamed(b) + ")"@)) by {
        assert(bodies[0 + (i - 0)] == bodies[i]);
    }
}

proof fn lemma_cover_has_bodies(func: Seq<char>, name: Seq<char>, binds: Seq<Seq<char>>, ret: Seq<char>, call: Seq<char>, rb: Seq<Seq<char>>, bodies: Seq<Seq<char>>)
    ensures
        holds_all(completeness_code(func, name, binds, ret, call, rb, bodies), bodies),
{
    let sep = "\n        "@;
    let code = completeness_code(func, name, binds, ret, call, rb, bodies);
    let a = "    /// Probes `"@ + func
        + "` completeness. A SATISFIED cover means a WRONG output\n    /// satisfies the contract, so it does not pin the result (loose contract).\n    #[kani::proof]\n    fn "@
        + name + "() {\n        "@ + join(binds, sep) + "\n        let probe_correct: "@ + ret + " = "@
        + call + ";\n        let probe_wrong: "@ + ret + " = kani::any();\n        kani::assume(probe_wrong != probe_correct);\n        "@
        + join(rb, sep) + "\n        kani::cover!("@;
    let b = ", \"a wrong output satisfies the contract\");\n    }\n"@;
    assert(code =~= a + join(bodies, " && "@) + b);
    assert forall|k: int| 0 <= k < bodies.len() implies has_part(code, #[trigger] bodies[k]) by {
        lemma_join_has_part(bodies, " && "@, k);
        lemma_has_part_in(a, join(bodies, " && "@), b, bodies[k]);
    }
}

/// The assertion by which a postcondition probe checks a clause whose body is `b`.
pub open spec fn assert_line(b: Seq<char>) -> Seq<char> {
    "assert!("@ + crate::harness::self_renamed(b) + ");"@
}

/// Among the probes of `st` from index `from` on, one asserts clause `c`, when `c` is a
/// closure that binds its result.
pub open spec fn clause_asserted(st: GenState, from: int, c: Seq<char>) -> bool {
    crate::syntax::closure_parts(c) matches Some((Some(_), b)) ==> exists|q: int| from <= q < st.probes.len() && has_part(#[trigger] st.probes[q].code, assert_line(b))
}

proof fn lemma_vacuity_code_asserts(func: Seq<char>, i: nat, name: Seq<char>, binds: Seq<Seq<char>>, ret: Seq<char>, result: Seq<char>, body: Seq<char>)
    ensures
        has_part(crate::harness::vacuity_code(func, i, name, binds, ret, result, crate::harness::self_renamed(body)), assert_line(body)),
{
    let rb = crate::harness::self_renamed(body);
    let code = crate::harness::vacuity_code(func, i, name, binds, ret, result, rb);
    let before = "    /// Probes `"@ + func + "` clause "@ + crate::text::decimal(i)
        + ". SUCCESS means the clause is VACUOUS.\n    #[kani::proof]\n    fn "@ + name
        + "() {\n        "@ + join(binds, "\n        "@) + "\n        let probe_result: "@
        + ret + " = kani::any();\n        let "@ + result + " = &probe_result;\n        "@;
    let after = "\n    }\n"@;
    assert(" = &probe_result;\n        assert!("@ =~= " = &probe_result;\n        "@ + "assert!("@) by {
        reveal_strlit(" = &probe_result;\n        assert!(");
        reveal_strlit(" = &probe_result;\n        ");
        reveal_strlit("assert!(");
    }
    assert(");\n    }\n"@ =~= ");"@ + "\n    }\n"@) by {
        reveal_strlit(");\n    }\n");
        reveal_strlit(");");
        reveal_strlit("\n    }\n");
    }
    assert(code =~= before + assert_line(body) + after);
    lemma_has_part_mid(before, assert_line(body), after);
}

proof fn lemma_vacuity_asserts(cl: Seq<Seq<char>>, i: nat, site: crate::harness::ProbeSite, binds: Seq<Seq<char>>, ret: Seq<char>, st: GenState)
    requires
        i <= cl.len(),
        vacuity_clauses(cl, i, site, binds, ret, st) is Some,
    ensures
        forall|j: int| i <= j < cl.len() ==> clause_asserted(vacuity_clauses(cl, i, site, binds, ret, st).unwrap(), st.probes.len() as int, #[trigger] cl[j]),
    decreases cl.len() - i,
{
    if i < cl.len() {
        let next = match crate::syntax::closure_parts(cl[i as int]) {
            None => crate::probe::skip_state(st, site.file, site.func, clause_reason(i, " is not a closure this tool can parse"@)),
            Some((None, _)) => crate::probe::skip_state(st, site.file, site.func, clause_reason(i, " has no simple result binding"@)),
            Some((Some(result), body)) => {
                let seq = st.seq + 1;
                let name = crate::harness::probe_name("probe_vacuity_"@, site.func, seq);
                let code = crate::harness::vacuity_code(site.func, i, name, binds, ret, result, crate::harness::self_renamed(body));
                lemma_vacuity_code_asserts(site.func, i, name, binds, ret, result, body);
                let p = crate::probe::ProbeView { file: site.file, line: site.line, func: site.func, name, code };
                GenState { probes: st.probes.push(p), seq, covered: st.covered + 1, ..st }
            },
        };
        assert(vacuity_clauses(cl, i, site, binds, ret, st) == vacuity_clauses(cl, i + 1, site, binds, ret, next));
        lemma_vacuity_asserts(cl, i + 1, site, binds, ret, next);
        crate::laws::law_each_postcondition_clause_gets_one_entry(cl, i + 1, site, binds, ret, next);
        let st2 = vacuity_clauses(cl, i, site, binds, ret, st).unwrap();
        assert forall|j: int| i <= j < cl.len() implies clause_asserted(st2, st.probes.len() as int, #[trigger] cl[j]) by {
            if j == i {
                match crate::syntax::closure_parts(cl[i as int]) {
                    Some((Some(_), b)) => {
                        let q = st.probes.len() as int;
                        lemma_probe_kept(next, st2, q);
                        assert(has_part(st2.probes[q].code, assert_line(b)));
                    },
                    _ => {},
                }
            } else {
                assert(clause_asserted(st2, next.probes.len() as int, cl[j]));
            }
        }
    }
}

/// A function that gets postcondition probes gets one for every clause that is a closure
/// binding its result: for each such clause, some new probe asserts its body, with `self`
/// renamed to `probe_self`.
pub proof fn law_every_closure_clause_is_asserted(f: FnNode, self_ty: Option<TypeNode>, c: Config, st: GenState)
    requires
        !c.precond,
        !c.completeness,
        fn_probes(f, self_ty, c, st) matches Some(st2) && st2.probes.len() > st.probes.len(),
    ensures
        ({
            let cl = clause_list(f.attrs@, "ensures"@);
            forall|i: int| 0 <= i < cl.len() ==> clause_asserted(fn_probes(f, self_ty, c, st).unwrap(), st.probes.len() as int, #[trigger] cl[i])
        }),
{
    crate::laws::law_function_probes(f, self_ty, c, st);
    let cl = clause_list(f.attrs@, "ensures"@);
    let ret = return_type(f.sig.output, self_ty).unwrap();
    let (binds, _, _) = bind_inputs(f.sig.inputs@, self_ty, c.known)->Ok_0;
    let st1 = count_clauses(st, cl.len()).unwrap();
    let site = crate::harness::ProbeSite { file: c.file, func: f.sig.name@, line: f.sig.line as nat };
    lemma_vacuity_asserts(cl, 0, site, binds, ret.text@, st1);
}

} // verus!
