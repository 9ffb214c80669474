//! Reading a model checker's output back onto the probes that produced it.

use vstd::prelude::*;

use crate::probe::{Probe, ProbeReport};
use crate::text::{chars_of, contains_in, find_in, find_within, ident_char, is_ident_char, occurs_at};

verus! {

/// `s` begins with `p`.
pub open spec fn has_prefix(s: Seq<char>, p: Seq<char>) -> bool {
    p.len() <= s.len() && s.take(p.len() as int) == p
}

/// Where the output about a harness ends: at the next `Checking harness` from `start` on,
/// else at the end of the output.
pub open spec fn window_end(o: Seq<char>, start: int) -> int {
    match find_in(o, start, o.len() as int, "Checking harness"@) {
        Some(k) => k,
        None => o.len() as int,
    }
}

/// What the output `o[lo..hi]` says of the probe named `name`, by the probe's kind. A
/// precondition probe (its name begins `probe_precond_`) is vacuous when its cover is
/// unsatisfiable or unreachable, healthy when satisfied. A completeness probe
/// (`probe_complete_`) is loose when its cover is satisfied, tight when not. Any other probe's
/// clause is vacuous when the harness verified, not when it failed. `None` when the window
/// says neither.
pub open spec fn window_verdict(o: Seq<char>, lo: int, hi: int, name: Seq<char>) -> Option<bool> {
    let fired = contains_in(o, lo, hi, "Status: SATISFIED"@);
    let dead = contains_in(o, lo, hi, "Status: UNSATISFIABLE"@) || contains_in(o, lo, hi, "Status: UNREACHABLE"@);
    if has_prefix(name, "probe_precond_"@) {
        if dead { Some(true) } else if fired { Some(false) } else { None }
    } else if has_prefix(name, "probe_complete_"@) {
        if fired { Some(true) } else if dead { Some(false) } else { None }
    } else if contains_in(o, lo, hi, "VERIFICATION:- SUCCESSFUL"@) {
        Some(true)
    } else if contains_in(o, lo, hi, "VERIFICATION:- FAILED"@) {
        Some(false)
    } else {
        None
    }
}

/// `name` occurs in `o` at `k` as a whole harness name: no character that can continue an
/// identifier stands right before or right after it, so `probe_vacuity_f_1` is not found
/// inside `probe_vacuity_f_12`.
pub open spec fn whole_at(o: Seq<char>, name: Seq<char>, k: int) -> bool {
    &&& occurs_at(o, name, k)
    &&& (k == 0 || !is_ident_char(o[k - 1]))
    &&& (k + name.len() == o.len() || !is_ident_char(o[k + name.len()]))
}

/// The verdict on the probe named `name` (not empty) from the occurrences of its name in `o`
/// at or after `idx`, each taken only as a whole harness name (see [`whole_at`]): the first
/// whose window, from the end of the name to the next `Checking harness`, says something
/// decides; `None` when none does.
pub open spec fn verdict_from(o: Seq<char>, name: Seq<char>, idx: int) -> Option<bool>
    decreases o.len() - idx,
{
    if name.len() == 0 || idx < 0 || idx > o.len() {
        None
    } else {
        match find_in(o, idx, o.len() as int, name) {
            None => None,
            Some(at) => {
                proof {
                    lemma_find_in_bounds(o, idx, o.len() as int, name);
                }
                if !whole_at(o, name, at) {
                    verdict_from(o, name, at + 1)
                } else {
                    let start = at + name.len();
                    match window_verdict(o, start, window_end(o, start), name) {
                        Some(v) => Some(v),
                        None => verdict_from(o, name, start),
                    }
                }
            },
        }
    }
}

/// The verdict that `o` gives the probe named `name`: `Some(true)` for the finding (vacuous,
/// or loose), `Some(false)` for the healthy outcome, `None` when the output says nothing of
/// it. An empty name occurs everywhere, so its verdict is what the first window says.
pub open spec fn verdict(o: Seq<char>, name: Seq<char>) -> Option<bool> {
    if name.len() == 0 {
        window_verdict(o, 0, window_end(o, 0), name)
    } else {
        verdict_from(o, name, 0)
    }
}

/// Reading `o` for the probe named `name` comes to an end: always, but for an empty name
/// whose first window says nothing, on which the search would find it again and again.
pub open spec fn verdict_terminates(o: Seq<char>, name: Seq<char>) -> bool {
    name.len() > 0 || window_verdict(o, 0, window_end(o, 0), name) is Some
}

pub proof fn lemma_find_in_bounds(s: Seq<char>, lo: int, hi: int, pat: Seq<char>)
    ensures
        find_in(s, lo, hi, pat) matches Some(k) ==> lo <= k && k + pat.len() <= hi && hi <= s.len() && occurs_at(s, pat, k),
    decreases hi - lo + 1,
{
    if !(lo < 0 || hi > s.len() || lo + pat.len() > hi) && !crate::text::occurs_at(s, pat, lo) {
        lemma_find_in_bounds(s, lo + 1, hi, pat);
    }
}

fn prefix_of(s: &Vec<char>, p: &str) -> (r: bool)
    ensures
        r == has_prefix(s@, p@),
{
    let pv = chars_of(p);
    if pv.len() > s.len() {
        return false;
    }
    let mut k: usize = 0;
    while k < pv.len()
        invariant
            pv@ == p@,
            pv@.len() <= s@.len(),
            k <= pv@.len(),
            forall|j: int| 0 <= j < k ==> s@[j] == pv@[j],
        decreases pv@.len() - k,
    {
        if s[k] != pv[k] {
            assert(s@.take(pv@.len() as int)[k as int] != pv@[k as int]);
            return false;
        }
        k += 1;
    }
    assert(s@.take(pv@.len() as int) =~= pv@);
    true
}

/// Whether `o[lo..hi]` contains `pat`.
fn contains_within(o: &Vec<char>, lo: usize, hi: usize, pat: &str) -> (r: bool)
    requires
        lo <= hi <= o@.len(),
    ensures
        r == contains_in(o@, lo as int, hi as int, pat@),
{
    let pv = chars_of(pat);
    find_within(o, lo, hi, &pv).is_some()
}

/// What `o[lo..hi]` says of the probe named `name` (see [`window_verdict`]).
fn read_window(o: &Vec<char>, lo: usize, hi: usize, name: &Vec<char>) -> (r: Option<bool>)
    requires
        lo <= hi <= o@.len(),
    ensures
        r == window_verdict(o@, lo as int, hi as int, name@),
{
    let fired = contains_within(o, lo, hi, "Status: SATISFIED");
    let dead = contains_within(o, lo, hi, "Status: UNSATISFIABLE") || contains_within(o, lo, hi, "Status: UNREACHABLE");
    if prefix_of(name, "probe_precond_") {
        if dead { Some(true) } else if fired { Some(false) } else { None }
    } else if prefix_of(name, "probe_complete_") {
        if fired { Some(true) } else if dead { Some(false) } else { None }
    } else if contains_within(o, lo, hi, "VERIFICATION:- SUCCESSFUL") {
        Some(true)
    } else if contains_within(o, lo, hi, "VERIFICATION:- FAILED") {
        Some(false)
    } else {
        None
    }
}

/// The end of the window that starts at `start` (see [`window_end`]).
fn end_of_window(o: &Vec<char>, start: usize, marker: &Vec<char>) -> (r: usize)
    requires
        start <= o@.len(),
        marker@ == "Checking harness"@,
    ensures
        r == window_end(o@, start as int),
        start <= r <= o@.len(),
{
    proof { lemma_find_in_bounds(o@, start as int, o@.len() as int, marker@); }
    match find_within(o, start, o.len(), marker) {
        Some(k) => k,
        None => o.len(),
    }
}

/// The verdict that `o` gives the probe named `name` (see [`verdict`]).
fn verdict_of(o: &Vec<char>, name: &Vec<char>) -> (r: Option<bool>)
    requires
        verdict_terminates(o@, name@),
    ensures
        r == verdict(o@, name@),
{
    let marker = chars_of("Checking harness");
    if name.len() == 0 {
        let end = end_of_window(o, 0, &marker);
        return read_window(o, 0, end, name);
    }
    let mut idx: usize = 0;
    while idx <= o.len()
        invariant
            name@.len() > 0,
            marker@ == "Checking harness"@,
            verdict(o@, name@) == verdict_from(o@, name@, idx as int),
        decreases o@.len() - idx + 1,
    {
        proof { lemma_find_in_bounds(o@, idx as int, o@.len() as int, name@); }
        match find_within(o, idx, o.len(), name) {
            None => return None,
            Some(at) => {
                let start = at + name.len();
                let whole = (at == 0 || !ident_char(o[at - 1])) && (start == o.len() || !ident_char(o[start]));
                assert(whole == whole_at(o@, name@, at as int));
                if !whole {
                    idx = at + 1;
                } else {
                    let end = end_of_window(o, start, &marker);
                    match read_window(o, start, end, name) {
                        Some(v) => return Some(v),
                        None => {
                            idx = start;
                        },
                    }
                }
            },
        }
    }
    None
}

/// Maps the model checker's output back onto the probes that produced it, in order.
///
/// A harness that VERIFIED means its clause is vacuous. A harness absent from the output is
/// reported as unknown, never as passing: a probe that did not run tells nothing.
pub fn interpret<'a>(rep: &'a ProbeReport, kani_output: &str) -> (r: Vec<(&'a Probe, Option<bool>)>)
    requires
        forall|i: int| 0 <= i < rep.probes@.len() ==> verdict_terminates(kani_output@, #[trigger] rep.probes@[i].name@),
    ensures
        r@.len() == rep.probes@.len(),
        forall|i: int| 0 <= i < r@.len() ==> (#[trigger] r@[i]).0 == rep.probes@[i] && r@[i].1 == verdict(kani_output@, rep.probes@[i].name@),
{
    let o = chars_of(kani_output);
    let mut out: Vec<(&'a Probe, Option<bool>)> = Vec::new();
    for i in 0..rep.probes.len()
        invariant
            o@ == kani_output@,
            out@.len() == i,
            forall|i: int| 0 <= i < rep.probes@.len() ==> verdict_terminates(kani_output@, #[trigger] rep.probes@[i].name@),
            forall|j: int| 0 <= j < i ==> (#[trigger] out@[j]).0 == rep.probes@[j] && out@[j].1 == verdict(kani_output@, rep.probes@[j].name@),
    {
        let p = &rep.probes[i];
        let name = chars_of(p.name.as_str());
        let v = verdict_of(&o, &name);
        out.push((p, v));
    }
    out
}


/// The comment that heads a module of probes of the given kind.
pub open spec fn module_header(precond: bool, completeness: bool) -> Seq<char> {
    if completeness {
        "// GENERATED COMPLETENESS PROBES. Each havocs the inputs, calls the real function\n// for the correct output, havocs a DIFFERENT output, and covers the postcondition\n// on it. A SATISFIED cover means a WRONG output satisfies the contract, so the\n// contract is LOOSE (an output-changing mutant survives it). An UNREACHABLE cover\n// means only the true output passes: the contract is tight.\n"@
    } else if precond {
        "// GENERATED PRECONDITION PROBES. Each havocs the inputs, assumes every\n// #[requires] clause, then covers reachability. AN UNREACHABLE COVER MEANS THE\n// PRECONDITIONS ARE JOINTLY UNSATISFIABLE, so no input reaches the body and every\n// proof under them is vacuous. A SATISFIED cover is the healthy outcome.\n"@
    } else {
        "// GENERATED VACUITY PROBES. Each havocs the inputs and the result and asserts one\n// postcondition. VERIFICATION SUCCESS MEANS THE CLAUSE IS VACUOUS: it holds for every\n// value the return type admits, so every implementation satisfies it and proving it\n// establishes nothing. Failure is the healthy outcome.\n"@
    }
}

/// The probes' code, each followed by a blank line.
pub open spec fn module_body(probes: Seq<Probe>) -> Seq<char>
    decreases probes.len(),
{
    if probes.len() == 0 {
        seq![]
    } else {
        module_body(probes.drop_last()) + probes.last().code@ + "\n"@
    }
}

/// A module holding the probes, to paste into the crate under test: compiled only under
/// `cfg(kani)`, with the attribute the standard library requires on new items in `std_mode`.
pub open spec fn module_text(probes: Seq<Probe>, std_mode: bool, precond: bool, completeness: bool) -> Seq<char> {
    module_header(precond, completeness) + "#[cfg(kani)]\n"@
        + (if std_mode { "#[unstable(feature = \"kani\", issue = \"none\")]\n"@ } else { Seq::<char>::empty() })
        + "pub mod vacuity_probes {\n    use super::*;\n\n"@ + module_body(probes) + "}\n"@
}

/// A module that can be pasted into the crate under test.
///
/// `std_mode` adds `#[unstable(feature = "kani", issue = "none")]`, which the standard
/// library requires on every new item but which does not compile in an ordinary crate.
pub fn render_module(rep: &ProbeReport, std_mode: bool, precond: bool, completeness: bool) -> (s: String)
    ensures
        s@ == module_text(rep.probes@, std_mode, precond, completeness),
{
    let mut s = if completeness {
        String::from_str("// GENERATED COMPLETENESS PROBES. Each havocs the inputs, calls the real function\n// for the correct output, havocs a DIFFERENT output, and covers the postcondition\n// on it. A SATISFIED cover means a WRONG output satisfies the contract, so the\n// contract is LOOSE (an output-changing mutant survives it). An UNREACHABLE cover\n// means only the true output passes: the contract is tight.\n")
    } else if precond {
        String::from_str("// GENERATED PRECONDITION PROBES. Each havocs the inputs, assumes every\n// #[requires] clause, then covers reachability. AN UNREACHABLE COVER MEANS THE\n// PRECONDITIONS ARE JOINTLY UNSATISFIABLE, so no input reaches the body and every\n// proof under them is vacuous. A SATISFIED cover is the healthy outcome.\n")
    } else {
        String::from_str("// GENERATED VACUITY PROBES. Each havocs the inputs and the result and asserts one\n// postcondition. VERIFICATION SUCCESS MEANS THE CLAUSE IS VACUOUS: it holds for every\n// value the return type admits, so every implementation satisfies it and proving it\n// establishes nothing. Failure is the healthy outcome.\n")
    };
    s.append("#[cfg(kani)]\n");
    let ghost mid = s@;
    if std_mode {
        s.append("#[unstable(feature = \"kani\", issue = \"none\")]\n");
    } else {
        assert(s@ == mid + Seq::<char>::empty());
    }
    s.append("pub mod vacuity_probes {\n    use super::*;\n\n");
    let ghost head = s@;
    let mut i: usize = 0;
    assert(rep.probes@.take(0) =~= Seq::<Probe>::empty());
    while i < rep.probes.len()
        invariant
            i <= rep.probes@.len(),
            s@ == head + module_body(rep.probes@.take(i as int)),
        decreases rep.probes@.len() - i,
    {
        assert(rep.probes@.take(i + 1).drop_last() =~= rep.probes@.take(i as int));
        s.append(rep.probes[i].code.as_str());
        s.append("\n");
        i += 1;
    }
    assert(rep.probes@.take(rep.probes@.len() as int) =~= rep.probes@);
    s.append("}\n");
    s
}

} // verus!
