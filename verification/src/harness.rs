//! The harnesses: for each contracted function, the probe of the selected kind, or the reason
//! it cannot be probed; and the walk over a file's items that visits every function.

use vstd::prelude::*;

use crate::model::{
    head_of, name_set, probe_check, probeable, ArgNode, FnNode, ItemNode, TypeNode, TypeShape,
};
use crate::probe::{
    clause_list, clauses_of, join, probe_views, push_join, push_skip, push_skips, skip_clauses,
    skip_state, strs, Gen, GenState, Probe, ProbeView,
};
use crate::syntax::{closure_parts, is_expression, parse_closure, parses_as_expr};
use crate::text::{
    decimal, first_element, first_expr, holds_char, push_decimal, rename_word, renamed, str_eq,
};

verus! {

/// `self_ty` as a spec value.
pub open spec fn opt_ty(self_ty: Option<&TypeNode>) -> Option<TypeNode> {
    match self_ty {
        Some(t) => Some(*t),
        None => None,
    }
}

/// A statement that binds `name`, of type `ty`, to an arbitrary value.
pub open spec fn let_any(name: Seq<char>, ty: Seq<char>) -> Seq<char> {
    "let "@ + name + ": "@ + ty + " = kani::any();"@
}

/// The bindings that havoc a function's parameters, in order, with the names of its typed
/// parameters and whether it takes `self`; else the reason the first parameter that cannot
/// be havocked gives.
pub open spec fn bind_inputs(inputs: Seq<ArgNode>, self_ty: Option<TypeNode>, known: Set<Seq<char>>) -> Result<(Seq<Seq<char>>, Seq<Seq<char>>, bool), Seq<char>>
    decreases inputs.len(),
{
    if inputs.len() == 0 {
        Ok((seq![], seq![], false))
    } else {
        match bind_inputs(inputs.drop_last(), self_ty, known) {
            Err(e) => Err(e),
            Ok((binds, args, is_method)) => match inputs.last() {
                ArgNode::Receiver => match self_ty {
                    None => Err("takes self but is not in an impl block"@),
                    Some(st) => match probe_check(st, known) {
                        Err(e) => Err("self type: "@ + e),
                        Ok(_) => Ok((binds.push(let_any("probe_self"@, st.text@)), args, true)),
                    },
                },
                ArgNode::Typed { name, ty } => match probe_check(ty, known) {
                    Err(e) => Err("parameter: "@ + e),
                    Ok(_) => match name {
                        None => Err("parameter is a pattern, not a plain name"@),
                        Some(n) => Ok((binds.push(let_any(n@, ty.text@)), args.push(n@), is_method)),
                    },
                },
            },
        }
    }
}

/// The view of an executable binding outcome.
pub open spec fn binding_view(r: Result<(Vec<String>, Vec<String>, bool), String>) -> Result<(Seq<Seq<char>>, Seq<Seq<char>>, bool), Seq<char>> {
    match r {
        Ok((b, a, m)) => Ok((strs(b@), strs(a@), m)),
        Err(e) => Err(e@),
    }
}

fn let_any_string(name: &str, ty: &str) -> (r: String)
    ensures
        r@ == let_any(name@, ty@),
{
    let mut r = String::from_str("let ");
    r.append(name);
    r.append(": ");
    r.append(ty);
    r.append(" = kani::any();");
    r
}

fn prefixed(prefix: &str, e: String) -> (r: String)
    ensures
        r@ == prefix@ + e@,
{
    let mut r = String::from_str(prefix);
    r.append(e.as_str());
    r
}

/// The bindings that havoc the parameters `inputs` (see [`bind_inputs`]).
fn binds_for(inputs: &Vec<ArgNode>, self_ty: Option<&TypeNode>, known: &Vec<String>) -> (r: Result<(Vec<String>, Vec<String>, bool), String>)
    ensures
        binding_view(r) == bind_inputs(inputs@, opt_ty(self_ty), name_set(known@)),
{
    let ghost ks = name_set(known@);
    let mut binds: Vec<String> = Vec::new();
    let mut args: Vec<String> = Vec::new();
    let mut is_method = false;
    let mut i: usize = 0;
    assert(inputs@.take(0) =~= Seq::<ArgNode>::empty());
    assert(strs(binds@) =~= Seq::<Seq<char>>::empty());
    assert(strs(args@) =~= Seq::<Seq<char>>::empty());
    while i < inputs.len()
        invariant
            i <= inputs@.len(),
            ks == name_set(known@),
            bind_inputs(inputs@.take(i as int), opt_ty(self_ty), ks) == Ok::<_, Seq<char>>((strs(binds@), strs(args@), is_method)),
        decreases inputs@.len() - i,
    {
        assert(inputs@.take(i + 1).drop_last() =~= inputs@.take(i as int));
        let ghost (b0, a0) = (binds@, args@);
        match &inputs[i] {
            ArgNode::Receiver => match self_ty {
                None => {
                    proof { lemma_bind_inputs_err(inputs@, i as int, opt_ty(self_ty), ks); }
                    return Err(String::from_str("takes self but is not in an impl block"));
                },
                Some(st) => match probeable(st, known) {
                    Err(e) => {
                        proof { lemma_bind_inputs_err(inputs@, i as int, opt_ty(self_ty), ks); }
                        return Err(prefixed("self type: ", e));
                    },
                    Ok(_) => {
                        binds.push(let_any_string("probe_self", st.text.as_str()));
                        is_method = true;
                        assert(strs(binds@) =~= strs(b0).push(let_any("probe_self"@, st.text@)));
                    },
                },
            },
            ArgNode::Typed { name, ty } => match probeable(ty, known) {
                Err(e) => {
                    proof { lemma_bind_inputs_err(inputs@, i as int, opt_ty(self_ty), ks); }
                    return Err(prefixed("parameter: ", e));
                },
                Ok(_) => match name {
                    None => {
                        proof { lemma_bind_inputs_err(inputs@, i as int, opt_ty(self_ty), ks); }
                        return Err(String::from_str("parameter is a pattern, not a plain name"));
                    },
                    Some(n) => {
                        binds.push(let_any_string(n.as_str(), ty.text.as_str()));
                        args.push(n.clone());
                        assert(strs(binds@) =~= strs(b0).push(let_any(n@, ty.text@)));
                        assert(strs(args@) =~= strs(a0).push(n@));
                    },
                },
            },
        }
        i += 1;
    }
    assert(inputs@.take(inputs@.len() as int) =~= inputs@);
    Ok((binds, args, is_method))
}

/// Once a parameter cannot be bound, the binding of every longer prefix fails with the same
/// reason.
proof fn lemma_bind_inputs_err(inputs: Seq<ArgNode>, i: int, self_ty: Option<TypeNode>, known: Set<Seq<char>>)
    requires
        0 <= i < inputs.len(),
        bind_inputs(inputs.take(i + 1), self_ty, known) is Err,
    ensures
        bind_inputs(inputs, self_ty, known) == bind_inputs(inputs.take(i + 1), self_ty, known),
    decreases inputs.len() - i,
{
    if i + 1 < inputs.len() {
        assert(inputs.take(i + 2).drop_last() =~= inputs.take(i + 1));
        lemma_bind_inputs_err(inputs, i + 1, self_ty, known);
    } else {
        assert(inputs.take(i + 1) =~= inputs);
    }
}


/// The type a probe havocs for a function's result: the declared return type, with `Self`
/// read as the implementing type inside an `impl` block; `None` for a unit function.
pub open spec fn return_type(output: Option<TypeNode>, self_ty: Option<TypeNode>) -> Option<TypeNode> {
    match output {
        None => None,
        Some(t) => match self_ty {
            Some(st) => if head_of(t) == Some("Self"@) { Some(st) } else { Some(t) },
            None => Some(t),
        },
    }
}

/// `self` in a clause cannot name a local, so probes rename it, word-exactly, to `probe_self`.
pub open spec fn self_renamed(s: Seq<char>) -> Seq<char> {
    renamed(s, 0, "self"@, "probe_self"@)
}

/// Renames `self` to `probe_self` in `s` (see [`self_renamed`]).
fn rename_self(s: &String) -> (r: String)
    ensures
        r@ == self_renamed(s@),
{
    rename_word(s.as_str(), "self", "probe_self")
}

/// The reason given for a function with a type parameter.
pub open spec fn generic_reason() -> Seq<char> {
    "generic function, no type arguments to instantiate"@
}

/// The reason given for a function that returns unit.
pub open spec fn unit_reason() -> Seq<char> {
    "returns unit, so there is no result to constrain"@
}

/// `clause {i}` followed by `tail`.
pub open spec fn clause_reason(i: nat, tail: Seq<char>) -> Seq<char> {
    "clause "@ + decimal(i) + tail
}

fn clause_reason_string(i: usize, tail: &str) -> (r: String)
    ensures
        r@ == clause_reason(i as nat, tail@),
{
    let mut r = String::from_str("clause ");
    push_decimal(&mut r, i);
    r.append(tail);
    r
}

/// A harness name: the prefix, the function's name, `_` and the sequence number.
pub open spec fn probe_name(prefix: Seq<char>, func: Seq<char>, seq: nat) -> Seq<char> {
    prefix + func + "_"@ + decimal(seq)
}

fn probe_name_string(prefix: &str, func: &String, seq: usize) -> (r: String)
    ensures
        r@ == probe_name(prefix@, func@, seq as nat),
{
    let mut r = String::from_str(prefix);
    r.append(func.as_str());
    r.append("_");
    push_decimal(&mut r, seq);
    r
}

/// What the probes of one function share.
pub struct ProbeSite {
    pub file: Seq<char>,
    pub func: Seq<char>,
    pub line: nat,
}

/// The harness that asserts postcondition clause `i` of a function on a havocked result.
pub open spec fn vacuity_code(func: Seq<char>, i: nat, name: Seq<char>, binds: Seq<Seq<char>>, ret: Seq<char>, result: Seq<char>, body: Seq<char>) -> Seq<char> {
    "    /// Probes `"@ + func + "` clause "@ + decimal(i)
        + ". SUCCESS means the clause is VACUOUS.\n    #[kani::proof]\n    fn "@ + name
        + "() {\n        "@ + join(binds, "\n        "@) + "\n        let probe_result: "@
        + ret + " = kani::any();\n        let "@ + result + " = &probe_result;\n        assert!("@
        + body + ");\n    }\n"@
}

/// The postcondition clauses `cl[i..]` of a function, each probed in turn from `st`: a clause
/// that is not a closure, or whose closure does not bind its first parameter to a name, is
/// skipped with its reason; every other one gets a harness. `None` where generation breaks
/// down (the probe count overflowing).
pub open spec fn vacuity_clauses(cl: Seq<Seq<char>>, i: nat, site: ProbeSite, binds: Seq<Seq<char>>, ret: Seq<char>, st: GenState) -> Option<GenState>
    decreases cl.len() - i,
{
    if i >= cl.len() {
        Some(st)
    } else {
        match closure_parts(cl[i as int]) {
            None => vacuity_clauses(cl, i + 1, site, binds, ret, skip_state(st, site.file, site.func, clause_reason(i, " is not a closure this tool can parse"@))),
            Some((None, _)) => vacuity_clauses(cl, i + 1, site, binds, ret, skip_state(st, site.file, site.func, clause_reason(i, " has no simple result binding"@))),
            Some((Some(result), body)) => if st.seq >= usize::MAX {
                None
            } else {
                let seq = st.seq + 1;
                let name = probe_name("probe_vacuity_"@, site.func, seq);
                let code = vacuity_code(site.func, i, name, binds, ret, result, self_renamed(body));
                let p = ProbeView { file: site.file, line: site.line, func: site.func, name, code };
                vacuity_clauses(cl, i + 1, site, binds, ret, GenState { probes: st.probes.push(p), seq, covered: st.covered + 1, ..st })
            },
        }
    }
}

/// Counts the clauses `n` into `st`; `None` where the count overflows.
pub open spec fn count_clauses(st: GenState, n: nat) -> Option<GenState> {
    if st.clauses + n > usize::MAX { None } else { Some(GenState { clauses: st.clauses + n, ..st }) }
}

/// Postcondition probes for function `f`: none when it has no `ensures` clause; otherwise its
/// clauses are counted and then either all skipped, each with the same reason (a type
/// parameter, a unit result, a result or parameter `kani::any()` cannot produce, a parameter
/// that is a pattern), or probed one by one (see [`vacuity_clauses`]).
pub open spec fn vacuity_probes(f: FnNode, self_ty: Option<TypeNode>, file: Seq<char>, known: Set<Seq<char>>, st: GenState) -> Option<GenState> {
    let cl = clause_list(f.attrs@, "ensures"@);
    let func = f.sig.name@;
    if cl.len() == 0 {
        Some(st)
    } else {
        match count_clauses(st, cl.len()) {
            None => None,
            Some(st1) => if f.sig.has_type_param {
                Some(skip_clauses(st1, file, func, generic_reason(), cl.len()))
            } else {
                match return_type(f.sig.output, self_ty) {
                    None => Some(skip_clauses(st1, file, func, unit_reason(), cl.len())),
                    Some(ret) => match probe_check(ret, known) {
                        Err(e) => Some(skip_clauses(st1, file, func, "return type: "@ + e, cl.len())),
                        Ok(_) => match bind_inputs(f.sig.inputs@, self_ty, known) {
                            Err(e) => Some(skip_clauses(st1, file, func, e, cl.len())),
                            Ok((binds, _, _)) => vacuity_clauses(cl, 0, ProbeSite { file, func, line: f.sig.line as nat }, binds, ret.text@, st1),
                        },
                    },
                }
            },
        }
    }
}

/// The outcome of a step that may break down: `Some` of the new state, else `None`.
pub open spec fn stepped(ok: bool, g: GenState) -> Option<GenState> {
    if ok { Some(g) } else { None }
}

/// The type a probe havocs for the result (see [`return_type`]).
fn result_type<'a>(output: &'a Option<TypeNode>, self_ty: Option<&'a TypeNode>) -> (r: Option<&'a TypeNode>)
    ensures
        opt_ty(r) == return_type(*output, opt_ty(self_ty)),
{
    match output {
        None => None,
        Some(t) => match self_ty {
            Some(st) => {
                let is_self = match &t.shape {
                    TypeShape::Path { name: Some(n), .. } => str_eq(n.as_str(), "Self"),
                    _ => false,
                };
                if is_self { Some(st) } else { Some(t) }
            },
            None => Some(t),
        },
    }
}

fn count_into(g: &mut Gen, n: usize) -> (ok: bool)
    ensures
        count_clauses(old(g)@, n as nat) == stepped(ok, final(g)@),
{
    if g.clauses > usize::MAX - n {
        return false;
    }
    g.clauses = g.clauses + n;
    true
}

/// Writes the postcondition probes of `f` (see [`vacuity_probes`]); `false` where
/// generation breaks down.
fn build_vacuity(f: &FnNode, self_ty: Option<&TypeNode>, file: &String, known: &Vec<String>, g: &mut Gen) -> (ok: bool)
    ensures
        vacuity_probes(*f, opt_ty(self_ty), file@, name_set(known@), old(g)@) == stepped(ok, final(g)@),
{
    let cl = clauses_of(&f.attrs, "ensures");
    let func = &f.sig.name;
    if cl.len() == 0 {
        return true;
    }
    if !count_into(g, cl.len()) {
        return false;
    }
    if f.sig.has_type_param {
        push_skips(g, file, func, String::from_str("generic function, no type arguments to instantiate"), cl.len());
        return true;
    }
    let ret = match result_type(&f.sig.output, self_ty) {
        None => {
            push_skips(g, file, func, String::from_str("returns unit, so there is no result to constrain"), cl.len());
            return true;
        },
        Some(t) => t,
    };
    match probeable(ret, known) {
        Err(e) => {
            push_skips(g, file, func, prefixed("return type: ", e), cl.len());
            return true;
        },
        Ok(_) => {},
    }
    let binds = match binds_for(&f.sig.inputs, self_ty, known) {
        Err(e) => {
            push_skips(g, file, func, e, cl.len());
            return true;
        },
        Ok((b, _, _)) => b,
    };
    let ghost site = ProbeSite { file: file@, func: func@, line: f.sig.line as nat };
    let ghost st1 = g@;
    let mut i: usize = 0;
    while i < cl.len()
        invariant
            i <= cl@.len(),
            vacuity_probes(*f, opt_ty(self_ty), file@, name_set(known@), old(g)@) == vacuity_clauses(strs(cl@), 0, site, strs(binds@), ret.text@, st1),
            vacuity_clauses(strs(cl@), 0, site, strs(binds@), ret.text@, st1) == vacuity_clauses(strs(cl@), i as nat, site, strs(binds@), ret.text@, g@),
            site == (ProbeSite { file: file@, func: func@, line: f.sig.line as nat }),
        decreases cl@.len() - i,
    {
        match parse_closure(cl[i].as_str()) {
            None => {
                push_skip(g, file, func, clause_reason_string(i, " is not a closure this tool can parse"));
            },
            Some(c) => match &c.binding {
                None => {
                    push_skip(g, file, func, clause_reason_string(i, " has no simple result binding"));
                },
                Some(result) => {
                    let body = rename_self(&c.body);
                    if g.seq == usize::MAX {
                        return false;
                    }
                    g.seq = g.seq + 1;
                    let name = probe_name_string("probe_vacuity_", func, g.seq);
                    let mut code = String::from_str("    /// Probes `");
                    code.append(func.as_str());
                    code.append("` clause ");
                    push_decimal(&mut code, i);
                    code.append(". SUCCESS means the clause is VACUOUS.\n    #[kani::proof]\n    fn ");
                    code.append(name.as_str());
                    code.append("() {\n        ");
                    push_join(&mut code, &binds, "\n        ");
                    code.append("\n        let probe_result: ");
                    code.append(ret.text.as_str());
                    code.append(" = kani::any();\n        let ");
                    code.append(result.as_str());
                    code.append(" = &probe_result;\n        assert!(");
                    code.append(body.as_str());
                    code.append(");\n    }\n");
                    let ghost before = g.probes@;
                    let p = Probe { file: file.clone(), line: f.sig.line, func: func.clone(), name, code };
                    g.probes.push(p);
                    g.covered = Ghost(g.covered@ + 1);
                    assert(probe_views(g.probes@) =~= probe_views(before).push(p@));
                },
            },
        }
        i += 1;
    }
    true
}


/// The `kani::assume` statements for the precondition clauses `cl[i..]`, after `acc`: each
/// clause's first comma-separated element, with `self` renamed; `Err(k)` when clause `k` is
/// the first that is not a Rust expression.
pub open spec fn precondition_assumes(cl: Seq<Seq<char>>, i: nat, acc: Seq<Seq<char>>) -> Result<Seq<Seq<char>>, nat>
    decreases cl.len() - i,
{
    if i >= cl.len() {
        Ok(acc)
    } else {
        let pred = first_element(cl[i as int]);
        if !is_expression(pred) {
            Err(i)
        } else {
            precondition_assumes(cl, i + 1, acc.push("kani::assume("@ + self_renamed(pred) + ");"@))
        }
    }
}

/// The harness that havocs a function's parameters, assumes its preconditions and covers
/// reachability.
pub open spec fn precondition_code(func: Seq<char>, name: Seq<char>, binds: Seq<Seq<char>>, assumes: Seq<Seq<char>>) -> Seq<char> {
    "    /// Probes `"@ + func
        + "` preconditions. An UNREACHABLE cover means they are jointly\n    /// unsatisfiable, so every proof under them is VACUOUS.\n    #[kani::proof]\n    fn "@
        + name + "() {\n        "@ + join(binds, "\n        "@) + "\n        "@ + join(assumes, "\n        "@)
        + "\n        kani::cover!(true, \"preconditions jointly satisfiable\");\n    }\n"@
}

/// The precondition probe of a function whose parameters `binds` havoc, from `st`.
pub open spec fn precondition_probe(cl: Seq<Seq<char>>, site: ProbeSite, binds: Seq<Seq<char>>, st: GenState) -> Option<GenState> {
    match precondition_assumes(cl, 0, seq![]) {
        Err(k) => Some(skip_clauses(st, site.file, site.func, clause_reason(k, " is not a bare Rust expression this tool can assume"@), cl.len())),
        Ok(assumes) => if st.seq >= usize::MAX {
            None
        } else {
            let seq = st.seq + 1;
            let name = probe_name("probe_precond_"@, site.func, seq);
            let p = ProbeView { file: site.file, line: site.line, func: site.func, name, code: precondition_code(site.func, name, binds, assumes) };
            Some(GenState { probes: st.probes.push(p), seq, covered: st.covered + cl.len(), ..st })
        },
    }
}

/// Precondition probes for function `f`: none when it has no `requires` clause; otherwise its
/// clauses are counted and then either all skipped, each with the same reason (a type
/// parameter, a parameter that cannot be havocked, a clause that is not an expression), or
/// probed by one harness that assumes them all and so covers them all.
pub open spec fn precondition_probes(f: FnNode, self_ty: Option<TypeNode>, file: Seq<char>, known: Set<Seq<char>>, st: GenState) -> Option<GenState> {
    let cl = clause_list(f.attrs@, "requires"@);
    let func = f.sig.name@;
    if cl.len() == 0 {
        Some(st)
    } else {
        match count_clauses(st, cl.len()) {
            None => None,
            Some(st1) => if f.sig.has_type_param {
                Some(skip_clauses(st1, file, func, generic_reason(), cl.len()))
            } else {
                match bind_inputs(f.sig.inputs@, self_ty, known) {
                    Err(e) => Some(skip_clauses(st1, file, func, e, cl.len())),
                    Ok((binds, _, _)) => precondition_probe(cl, ProbeSite { file, func, line: f.sig.line as nat }, binds, st1),
                }
            },
        }
    }
}

fn push_probe(g: &mut Gen, p: Probe, Ghost(cover): Ghost<nat>)
    ensures
        final(g)@ == (GenState { probes: old(g)@.probes.push(p@), covered: old(g)@.covered + cover, ..old(g)@ }),
{
    let ghost before = g.probes@;
    g.probes.push(p);
    g.covered = Ghost(g.covered@ + cover);
    assert(probe_views(g.probes@) =~= probe_views(before).push(p@));
}

/// Writes the precondition probe of `f` (see [`precondition_probes`]); `false` where
/// generation breaks down.
fn build_precondition(f: &FnNode, self_ty: Option<&TypeNode>, file: &String, known: &Vec<String>, g: &mut Gen) -> (ok: bool)
    ensures
        precondition_probes(*f, opt_ty(self_ty), file@, name_set(known@), old(g)@) == stepped(ok, final(g)@),
{
    let cl = clauses_of(&f.attrs, "requires");
    let func = &f.sig.name;
    if cl.len() == 0 {
        return true;
    }
    if !count_into(g, cl.len()) {
        return false;
    }
    if f.sig.has_type_param {
        push_skips(g, file, func, String::from_str("generic function, no type arguments to instantiate"), cl.len());
        return true;
    }
    let binds = match binds_for(&f.sig.inputs, self_ty, known) {
        Err(e) => {
            push_skips(g, file, func, e, cl.len());
            return true;
        },
        Ok((b, _, _)) => b,
    };
    let mut assumes: Vec<String> = Vec::new();
    let mut i: usize = 0;
    assert(strs(assumes@) =~= Seq::<Seq<char>>::empty());
    let ghost site = ProbeSite { file: file@, func: func@, line: f.sig.line as nat };
    let ghost st1 = g@;
    while i < cl.len()
        invariant
            i <= cl@.len(),
            g@ == st1,
            precondition_probes(*f, opt_ty(self_ty), file@, name_set(known@), old(g)@) == precondition_probe(strs(cl@), site, strs(binds@), st1),
            site == (ProbeSite { file: file@, func: func@, line: f.sig.line as nat }),
            precondition_assumes(strs(cl@), 0, seq![]) == precondition_assumes(strs(cl@), i as nat, strs(assumes@)),
        decreases cl@.len() - i,
    {
        let pred = first_expr(cl[i].as_str());
        if !parses_as_expr(pred.as_str()) {
            push_skips(g, file, func, clause_reason_string(i, " is not a bare Rust expression this tool can assume"), cl.len());
            return true;
        }
        let renamed = rename_self(&pred);
        let mut a = String::from_str("kani::assume(");
        a.append(renamed.as_str());
        a.append(");");
        let ghost before = assumes@;
        assumes.push(a);
        assert(strs(assumes@) =~= strs(before).push(a@));
        i += 1;
    }
    if g.seq == usize::MAX {
        return false;
    }
    g.seq = g.seq + 1;
    let name = probe_name_string("probe_precond_", func, g.seq);
    let mut code = String::from_str("    /// Probes `");
    code.append(func.as_str());
    code.append("` preconditions. An UNREACHABLE cover means they are jointly\n    /// unsatisfiable, so every proof under them is VACUOUS.\n    #[kani::proof]\n    fn ");
    code.append(name.as_str());
    code.append("() {\n        ");
    push_join(&mut code, &binds, "\n        ");
    code.append("\n        ");
    push_join(&mut code, &assumes, "\n        ");
    code.append("\n        kani::cover!(true, \"preconditions jointly satisfiable\");\n    }\n");
    push_probe(g, Probe { file: file.clone(), line: f.sig.line, func: func.clone(), name, code }, Ghost(cl@.len() as nat));
    true
}

/// The result bindings and the bodies of the postcondition clauses `cl[i..]`, after `binds`
/// and `bodies`, for a completeness probe: each clause's result bound to the havocked wrong
/// output and its body, with `self` renamed, in parentheses; `Err(reason)` for the first clause
/// that is not a closure binding its first parameter to a name.
pub open spec fn completeness_parts(cl: Seq<Seq<char>>, i: nat, binds: Seq<Seq<char>>, bodies: Seq<Seq<char>>) -> Result<(Seq<Seq<char>>, Seq<Seq<char>>), Seq<char>>
    decreases cl.len() - i,
{
    if i >= cl.len() {
        Ok((binds, bodies))
    } else {
        match closure_parts(cl[i as int]) {
            None => Err(clause_reason(i, " is not a closure this tool can parse"@)),
            Some((None, _)) => Err(clause_reason(i, " has no simple result binding"@)),
            Some((Some(result), body)) => completeness_parts(cl, i + 1, binds.push("let "@ + result + " = &probe_wrong;"@), bodies.push("("@ + self_renamed(body) + ")"@)),
        }
    }
}

/// What precedes the probed function's name in its call: the havocked receiver for a method;
/// the implementing type for an associated function of an `impl` block, in angle brackets
/// when it has generic arguments; nothing for a free function.
pub open spec fn call_prefix(is_method: bool, self_ty: Option<TypeNode>) -> Seq<char> {
    if is_method {
        "probe_self."@
    } else {
        match self_ty {
            Some(st) => if st.text@.contains('<') { "<"@ + st.text@ + ">::"@ } else { st.text@ + "::"@ },
            None => Seq::<char>::empty(),
        }
    }
}

/// The call of the probed function on the havocked inputs.
pub open spec fn completeness_call(func: Seq<char>, args: Seq<Seq<char>>, is_method: bool, self_ty: Option<TypeNode>) -> Seq<char> {
    call_prefix(is_method, self_ty) + func + "("@ + join(args, ", "@) + ")"@
}

/// The harness that calls the function for the correct output, havocs a different output
/// and covers the conjunction of the postcondition clauses on it.
pub open spec fn completeness_code(func: Seq<char>, name: Seq<char>, binds: Seq<Seq<char>>, ret: Seq<char>, call: Seq<char>, result_binds: Seq<Seq<char>>, bodies: Seq<Seq<char>>) -> Seq<char> {
    "    /// Probes `"@ + func
        + "` completeness. A SATISFIED cover means a WRONG output\n    /// satisfies the contract, so it does not pin the result (loose contract).\n    #[kani::proof]\n    fn "@
        + name + "() {\n        "@ + join(binds, "\n        "@) + "\n        let probe_correct: "@ + ret + " = "@
        + call + ";\n        let probe_wrong: "@ + ret + " = kani::any();\n        kani::assume(probe_wrong != probe_correct);\n        "@
        + join(result_binds, "\n        "@) + "\n        kani::cover!("@ + join(bodies, " && "@)
        + ", \"a wrong output satisfies the contract\");\n    }\n"@
}

/// The completeness probe of a function whose parameters `binds` havoc, whose typed
/// parameters are `args`, whose result has type `ret` and whose `impl` block, if any,
/// implements `self_ty`, from `st`: one harness that covers every clause, or, when one clause
/// cannot take part, every clause skipped with that clause's reason.
pub open spec fn completeness_probe(cl: Seq<Seq<char>>, site: ProbeSite, ret: Seq<char>, binds: Seq<Seq<char>>, args: Seq<Seq<char>>, is_method: bool, self_ty: Option<TypeNode>, st: GenState) -> Option<GenState> {
    match completeness_parts(cl, 0, seq![], seq![]) {
        Err(reason) => Some(skip_clauses(st, site.file, site.func, reason, cl.len())),
        Ok((result_binds, bodies)) => if bodies.len() == 0 {
            Some(st)
        } else if st.seq >= usize::MAX {
            None
        } else {
            let seq = st.seq + 1;
            let name = probe_name("probe_complete_"@, site.func, seq);
            let code = completeness_code(site.func, name, binds, ret, completeness_call(site.func, args, is_method, self_ty), result_binds, bodies);
            let p = ProbeView { file: site.file, line: site.line, func: site.func, name, code };
            Some(GenState { probes: st.probes.push(p), seq, covered: st.covered + cl.len(), ..st })
        },
    }
}

/// Completeness probes for function `f`: none when it has no `ensures` clause; otherwise its
/// clauses are counted and then either all skipped, each with the same reason, or probed by
/// one harness that covers all of them on a wrong output.
pub open spec fn completeness_probes(f: FnNode, self_ty: Option<TypeNode>, file: Seq<char>, known: Set<Seq<char>>, st: GenState) -> Option<GenState> {
    let cl = clause_list(f.attrs@, "ensures"@);
    let func = f.sig.name@;
    if cl.len() == 0 {
        Some(st)
    } else {
        match count_clauses(st, cl.len()) {
            None => None,
            Some(st1) => if f.sig.has_type_param {
                Some(skip_clauses(st1, file, func, generic_reason(), cl.len()))
            } else {
                match return_type(f.sig.output, self_ty) {
                    None => Some(skip_clauses(st1, file, func, unit_reason(), cl.len())),
                    Some(ret) => match probe_check(ret, known) {
                        Err(e) => Some(skip_clauses(st1, file, func, "return type: "@ + e, cl.len())),
                        Ok(_) => match bind_inputs(f.sig.inputs@, self_ty, known) {
                            Err(e) => Some(skip_clauses(st1, file, func, e, cl.len())),
                            Ok((binds, args, is_method)) => completeness_probe(cl, ProbeSite { file, func, line: f.sig.line as nat }, ret.text@, binds, args, is_method, self_ty, st1),
                        },
                    },
                }
            },
        }
    }
}

/// Writes the completeness probe of `f` (see [`completeness_probes`]); `false` where
/// generation breaks down.
fn build_completeness(f: &FnNode, self_ty: Option<&TypeNode>, file: &String, known: &Vec<String>, g: &mut Gen) -> (ok: bool)
    ensures
        completeness_probes(*f, opt_ty(self_ty), file@, name_set(known@), old(g)@) == stepped(ok, final(g)@),
{
    let cl = clauses_of(&f.attrs, "ensures");
    let func = &f.sig.name;
    if cl.len() == 0 {
        return true;
    }
    if !count_into(g, cl.len()) {
        return false;
    }
    if f.sig.has_type_param {
        push_skips(g, file, func, String::from_str("generic function, no type arguments to instantiate"), cl.len());
        return true;
    }
    let ret = match result_type(&f.sig.output, self_ty) {
        None => {
            push_skips(g, file, func, String::from_str("returns unit, so there is no result to constrain"), cl.len());
            return true;
        },
        Some(t) => t,
    };
    match probeable(ret, known) {
        Err(e) => {
            push_skips(g, file, func, prefixed("return type: ", e), cl.len());
            return true;
        },
        Ok(_) => {},
    }
    let (binds, args, is_method) = match binds_for(&f.sig.inputs, self_ty, known) {
        Err(e) => {
            push_skips(g, file, func, e, cl.len());
            return true;
        },
        Ok(t) => t,
    };
    let mut result_binds: Vec<String> = Vec::new();
    let mut bodies: Vec<String> = Vec::new();
    let mut i: usize = 0;
    assert(strs(result_binds@) =~= Seq::<Seq<char>>::empty());
    assert(strs(bodies@) =~= Seq::<Seq<char>>::empty());
    let ghost site = ProbeSite { file: file@, func: func@, line: f.sig.line as nat };
    let ghost st1 = g@;
    while i < cl.len()
        invariant
            i <= cl@.len(),
            g@ == st1,
            completeness_probes(*f, opt_ty(self_ty), file@, name_set(known@), old(g)@) == completeness_probe(strs(cl@), site, ret.text@, strs(binds@), strs(args@), is_method, opt_ty(self_ty), st1),
            site == (ProbeSite { file: file@, func: func@, line: f.sig.line as nat }),
            completeness_parts(strs(cl@), 0, seq![], seq![]) == completeness_parts(strs(cl@), i as nat, strs(result_binds@), strs(bodies@)),
        decreases cl@.len() - i,
    {
        let c = match parse_closure(cl[i].as_str()) {
            None => {
                push_skips(g, file, func, clause_reason_string(i, " is not a closure this tool can parse"), cl.len());
                return true;
            },
            Some(c) => c,
        };
        let result = match &c.binding {
            None => {
                push_skips(g, file, func, clause_reason_string(i, " has no simple result binding"), cl.len());
                return true;
            },
            Some(r) => r,
        };
        let body = rename_self(&c.body);
        let mut rb = String::from_str("let ");
        rb.append(result.as_str());
        rb.append(" = &probe_wrong;");
        let mut bd = String::from_str("(");
        bd.append(body.as_str());
        bd.append(")");
        let ghost (rb0, bd0) = (result_binds@, bodies@);
        result_binds.push(rb);
        bodies.push(bd);
        assert(strs(result_binds@) =~= strs(rb0).push(rb@));
        assert(strs(bodies@) =~= strs(bd0).push(bd@));
        i += 1;
    }
    if bodies.len() == 0 {
        return true;
    }
    let mut call = if is_method {
        String::from_str("probe_self.")
    } else {
        match self_ty {
            Some(st) => if holds_char(st.text.as_str(), '<') {
                let mut c = String::from_str("<");
                c.append(st.text.as_str());
                c.append(">::");
                c
            } else {
                let mut c = String::from_str(st.text.as_str());
                c.append("::");
                c
            },
            None => String::new(),
        }
    };
    call.append(func.as_str());
    call.append("(");
    push_join(&mut call, &args, ", ");
    call.append(")");
    if g.seq == usize::MAX {
        return false;
    }
    g.seq = g.seq + 1;
    let name = probe_name_string("probe_complete_", func, g.seq);
    let mut code = String::from_str("    /// Probes `");
    code.append(func.as_str());
    code.append("` completeness. A SATISFIED cover means a WRONG output\n    /// satisfies the contract, so it does not pin the result (loose contract).\n    #[kani::proof]\n    fn ");
    code.append(name.as_str());
    code.append("() {\n        ");
    push_join(&mut code, &binds, "\n        ");
    code.append("\n        let probe_correct: ");
    code.append(ret.text.as_str());
    code.append(" = ");
    code.append(call.as_str());
    code.append(";\n        let probe_wrong: ");
    code.append(ret.text.as_str());
    code.append(" = kani::any();\n        kani::assume(probe_wrong != probe_correct);\n        ");
    push_join(&mut code, &result_binds, "\n        ");
    code.append("\n        kani::cover!(");
    push_join(&mut code, &bodies, " && ");
    code.append(", \"a wrong output satisfies the contract\");\n    }\n");
    push_probe(g, Probe { file: file.clone(), line: f.sig.line, func: func.clone(), name, code }, Ghost(cl@.len() as nat));
    true
}


/// What one walk over a file's items works with: the file, the names of the types with a
/// hand-written `kani::Arbitrary`, and which kind of probe is generated.
pub struct Config {
    pub file: Seq<char>,
    pub known: Set<Seq<char>>,
    pub precond: bool,
    pub completeness: bool,
}

/// The probes of function `f`, of the kind that `c` selects: completeness when asked for,
/// else preconditions when asked for, else postconditions.
pub open spec fn fn_probes(f: FnNode, self_ty: Option<TypeNode>, c: Config, st: GenState) -> Option<GenState> {
    if c.completeness {
        completeness_probes(f, self_ty, c.file, c.known, st)
    } else if c.precond {
        precondition_probes(f, self_ty, c.file, c.known, st)
    } else {
        vacuity_probes(f, self_ty, c.file, c.known, st)
    }
}

/// The probes of the functions `fns` in order.
pub open spec fn fns_probes(fns: Seq<FnNode>, self_ty: Option<TypeNode>, c: Config, st: Option<GenState>) -> Option<GenState>
    decreases fns.len(),
{
    if fns.len() == 0 {
        st
    } else {
        match fns_probes(fns.drop_last(), self_ty, c, st) {
            None => None,
            Some(s) => fn_probes(fns.last(), self_ty, c, s),
        }
    }
}

/// The probes of the items `items` in order, reaching into inline modules, `impl` blocks
/// (whose functions see the implementing type) and traits.
pub open spec fn items_probes(items: Seq<ItemNode>, self_ty: Option<TypeNode>, c: Config, st: Option<GenState>) -> Option<GenState>
    decreases items,
{
    if items.len() == 0 {
        st
    } else {
        item_probes(items.last(), self_ty, c, items_probes(items.drop_last(), self_ty, c, st))
    }
}

/// The probes of one item (see [`items_probes`]).
pub open spec fn item_probes(item: ItemNode, self_ty: Option<TypeNode>, c: Config, st: Option<GenState>) -> Option<GenState>
    decreases item,
{
    match st {
        None => None,
        Some(s) => match item {
            ItemNode::Fn(f) => fn_probes(f, None, c, s),
            ItemNode::Mod(Some(inner)) => items_probes(inner@, self_ty, c, Some(s)),
            ItemNode::Impl { self_ty: t, fns, .. } => fns_probes(fns@, Some(t), c, Some(s)),
            ItemNode::Trait(fns) => fns_probes(fns@, None, c, Some(s)),
            _ => Some(s),
        },
    }
}

/// Writes the probes of `f` of the selected kind (see [`fn_probes`]).
fn build(f: &FnNode, self_ty: Option<&TypeNode>, file: &String, known: &Vec<String>, precond: bool, completeness: bool, g: &mut Gen) -> (ok: bool)
    ensures
        fn_probes(*f, opt_ty(self_ty), Config { file: file@, known: name_set(known@), precond, completeness }, old(g)@) == stepped(ok, final(g)@),
{
    if completeness {
        build_completeness(f, self_ty, file, known, g)
    } else if precond {
        build_precondition(f, self_ty, file, known, g)
    } else {
        build_vacuity(f, self_ty, file, known, g)
    }
}

/// Writes the probes of the functions `fns` (see [`fns_probes`]).
fn build_all(fns: &Vec<FnNode>, self_ty: Option<&TypeNode>, file: &String, known: &Vec<String>, precond: bool, completeness: bool, g: &mut Gen) -> (ok: bool)
    ensures
        fns_probes(fns@, opt_ty(self_ty), Config { file: file@, known: name_set(known@), precond, completeness }, Some(old(g)@)) == stepped(ok, final(g)@),
{
    let ghost c = Config { file: file@, known: name_set(known@), precond, completeness };
    let mut i: usize = 0;
    assert(fns@.take(0) =~= Seq::<FnNode>::empty());
    while i < fns.len()
        invariant
            i <= fns@.len(),
            c == (Config { file: file@, known: name_set(known@), precond, completeness }),
            fns_probes(fns@.take(i as int), opt_ty(self_ty), c, Some(old(g)@)) == Some(g@),
        decreases fns@.len() - i,
    {
        assert(fns@.take(i + 1).drop_last() =~= fns@.take(i as int));
        if !build(&fns[i], self_ty, file, known, precond, completeness, g) {
            proof { lemma_fns_probes_none(fns@, i as int, opt_ty(self_ty), c, Some(old(g)@)); }
            return false;
        }
        i += 1;
    }
    assert(fns@.take(fns@.len() as int) =~= fns@);
    true
}

proof fn lemma_fns_probes_none(fns: Seq<FnNode>, i: int, self_ty: Option<TypeNode>, c: Config, st: Option<GenState>)
    requires
        0 <= i < fns.len(),
        fns_probes(fns.take(i + 1), self_ty, c, st) is None,
    ensures
        fns_probes(fns, self_ty, c, st) is None,
    decreases fns.len() - i,
{
    if i + 1 < fns.len() {
        assert(fns.take(i + 2).drop_last() =~= fns.take(i + 1));
        lemma_fns_probes_none(fns, i + 1, self_ty, c, st);
    } else {
        assert(fns.take(i + 1) =~= fns);
    }
}

pub proof fn lemma_items_probes_none(items: Seq<ItemNode>, self_ty: Option<TypeNode>, c: Config)
    ensures
        items_probes(items, self_ty, c, None) is None,
    decreases items.len(),
{
    if items.len() > 0 {
        lemma_items_probes_none(items.drop_last(), self_ty, c);
        assert(item_probes(items.last(), self_ty, c, None) is None);
    }
}

proof fn lemma_items_probes_prefix_none(items: Seq<ItemNode>, i: int, self_ty: Option<TypeNode>, c: Config, st: Option<GenState>)
    requires
        0 <= i < items.len(),
        items_probes(items.take(i + 1), self_ty, c, st) is None,
    ensures
        items_probes(items, self_ty, c, st) is None,
    decreases items.len() - i,
{
    if i + 1 < items.len() {
        let t = items.take(i + 2);
        assert(t.drop_last() =~= items.take(i + 1));
        assert(item_probes(t.last(), self_ty, c, None) is None);
        assert(items_probes(t, self_ty, c, st) is None);
        lemma_items_probes_prefix_none(items, i + 1, self_ty, c, st);
    } else {
        assert(items.take(i + 1) =~= items);
    }
}

/// Writes the probes of the items `items` (see [`items_probes`]).
pub(crate) fn walk(items: &Vec<ItemNode>, self_ty: Option<&TypeNode>, file: &String, known: &Vec<String>, precond: bool, completeness: bool, g: &mut Gen) -> (ok: bool)
    ensures
        items_probes(items@, opt_ty(self_ty), Config { file: file@, known: name_set(known@), precond, completeness }, Some(old(g)@)) == stepped(ok, final(g)@),
    decreases items,
{
    let ghost c = Config { file: file@, known: name_set(known@), precond, completeness };
    let mut i: usize = 0;
    assert(items@.take(0) =~= Seq::<ItemNode>::empty());
    while i < items.len()
        invariant
            i <= items@.len(),
            c == (Config { file: file@, known: name_set(known@), precond, completeness }),
            items_probes(items@.take(i as int), opt_ty(self_ty), c, Some(old(g)@)) == Some(g@),
        decreases items@.len() - i,
    {
        assert(items@.take(i + 1).drop_last() =~= items@.take(i as int));
        assert(items@.take(i + 1).last() == items@[i as int]);
        let ghost g0 = g@;
        let ok = match &items[i] {
            ItemNode::Fn(f) => build(f, None, file, known, precond, completeness, g),
            ItemNode::Mod(Some(inner)) => walk(inner, self_ty, file, known, precond, completeness, g),
            ItemNode::Impl { self_ty: t, fns, .. } => build_all(fns, Some(t), file, known, precond, completeness, g),
            ItemNode::Trait(fns) => build_all(fns, None, file, known, precond, completeness, g),
            _ => true,
        };
        assert(item_probes(items@[i as int], opt_ty(self_ty), c, Some(g0)) == stepped(ok, g@));
        assert(items_probes(items@.take(i + 1), opt_ty(self_ty), c, Some(old(g)@)) == item_probes(items@[i as int], opt_ty(self_ty), c, Some(g0)));
        if !ok {
            proof { lemma_items_probes_prefix_none(items@, i as int, opt_ty(self_ty), c, Some(old(g)@)); }
            return false;
        }
        i += 1;
    }
    assert(items@.take(items@.len() as int) =~= items@);
    true
}


} // verus!
