use vacuity::probe::{
    generate, generate_completeness, generate_preconditions, parse_sources, Probe, ProbeReport, SourceFile,
};
use vacuity::verdict::{interpret, render_module};

#[test]
fn a_verifying_probe_means_its_clause_is_vacuous() {
    let rep = ProbeReport {
        probes: vec![
            Probe { file: "t.rs".into(), line: 1, func: "a".into(), name: "probe_vacuity_a_1".into(), code: String::new() },
            Probe { file: "t.rs".into(), line: 2, func: "b".into(), name: "probe_vacuity_b_2".into(), code: String::new() },
        ],
        ..Default::default()
    };
    let out = "Checking harness m::probe_vacuity_b_2...\nVERIFICATION:- FAILED\n\
               Checking harness m::probe_vacuity_a_1...\nVERIFICATION:- SUCCESSFUL\n";
    let r = interpret(&rep, out);
    assert_eq!(r[0].1, Some(true), "a verifying probe is a vacuous clause");
    assert_eq!(r[1].1, Some(false));
}

/// A probe with no verdict in the output did not run: it is unknown, not healthy.
#[test]
fn a_probe_missing_from_the_output_is_unknown_not_passing() {
    let rep = ProbeReport {
        probes: vec![Probe {
            file: "t.rs".into(), line: 1, func: "a".into(),
            name: "probe_vacuity_a_1".into(), code: String::new(),
        }],
        ..Default::default()
    };
    assert_eq!(interpret(&rep, "nothing here").first().unwrap().1, None);
}

const ARB_THING: &str = "impl kani::Arbitrary for Thing { fn any() -> Self { todo!() } }
";

fn gen(src: &str) -> ProbeReport {
    generate(&parse_sources(&vec![SourceFile { path: "t.rs".into(), text: format!("{ARB_THING}{src}") }]))
}

#[test]
fn a_clause_on_a_probeable_type_produces_a_harness() {
    let r = gen(r#"
        impl Thing {
            #[ensures(|result| result.get() > 0)]
            pub fn count(self) -> NonZero<u32> { todo!() }
        }
    "#);
    assert_eq!(r.clauses_seen, 1);
    assert_eq!(r.probes.len(), 1);
    assert!(r.probes[0].code.contains("kani::any()"));
    assert!(r.probes[0].code.contains("assert!"));
}

/// The result is always bound by reference, as the `ensures` macro binds it.
#[test]
fn a_dereferencing_clause_still_compiles_because_result_is_a_reference() {
    let r = gen(r#"
        impl Thing {
            #[ensures(|result| *result > 0)]
            pub fn mask(self) -> usize { todo!() }
        }
    "#);
    assert_eq!(r.probes.len(), 1);
    let c = &r.probes[0].code;
    assert!(c.contains("let probe_result: usize = kani::any();"), "{c}");
    assert!(c.contains("let result = &probe_result;"), "{c}");
}

/// `self` is renamed word-exactly: an identifier merely containing "self" survives.
#[test]
fn self_is_renamed_word_exactly() {
    let r = gen(r#"
        impl Thing {
            #[ensures(|result| *result == self.align() && myself == 1)]
            pub fn f(self) -> usize { todo!() }
        }
    "#);
    let c = &r.probes[0].code;
    assert!(c.contains("let probe_self: Thing = kani::any();"), "{c}");
    assert!(c.contains("probe_self . align ()"), "{c}");
    assert!(c.contains("myself"), "an identifier containing `self` was mangled: {c}");
}

/// `Self` in return position means the impl type.
#[test]
fn self_return_type_resolves_to_the_impl_type() {
    let r = gen(r#"
        impl Alignment {
            #[ensures(|result| result.as_usize() == align)]
            pub fn new_unchecked(align: usize) -> Self { todo!() }
        }
        impl kani::Arbitrary for Alignment { fn any() -> Self { todo!() } }
    "#);
    assert_eq!(r.probes.len(), 1, "skips: {:?}", r.skips);
    assert!(r.probes[0].code.contains("probe_result: Alignment"), "{}", r.probes[0].code);
}

/// Every skip is counted and explained.
#[test]
fn unprobeable_things_are_skipped_with_a_reason_never_silently() {
    let r = gen(r#"
        impl Thing {
            #[ensures(|result| result.is_null())]
            pub fn raw(self) -> *const u8 { todo!() }

            #[ensures(|result| true)]
            pub fn generic<T>(self) -> u8 { todo!() }

            #[ensures(|result| true)]
            pub fn unknown(self) -> SomeForeignType { todo!() }
        }
    "#);
    assert_eq!(r.clauses_seen, 3);
    assert_eq!(r.probes.len(), 0);
    assert_eq!(r.skips.len(), 3, "a skipped clause must still be accounted for");
    let reasons = r.skips.iter().map(|s| s.reason.as_str()).collect::<Vec<_>>().join(" | ");
    assert!(reasons.contains("raw pointer"), "{reasons}");
    assert!(reasons.contains("generic"), "{reasons}");
    assert!(reasons.contains("Arbitrary"), "{reasons}");
}

/// A hand-written `impl kani::Arbitrary for T` makes `T` probeable.
#[test]
fn a_hand_written_arbitrary_impl_makes_a_type_probeable() {
    let r = gen(r#"
        impl kani::Arbitrary for Widget { fn any() -> Self { todo!() } }
        impl Thing {
            #[ensures(|result| result.ok())]
            pub fn make(self) -> Widget { todo!() }
        }
    "#);
    assert!(r.arbitrary_types.contains(&"Widget".to_string()));
    assert_eq!(r.probes.len(), 1, "skips: {:?}", r.skips);
}

/// Inputs are havocked too.
#[test]
fn inputs_are_havocked_not_fixed() {
    let r = gen(r#"
        impl Thing {
            #[ensures(|result| *result == a)]
            pub fn f(self, a: u32, b: u8) -> u32 { todo!() }
        }
    "#);
    let c = &r.probes[0].code;
    assert!(c.contains("let a: u32 = kani::any();"), "{c}");
    assert!(c.contains("let b: u8 = kani::any();"), "{c}");
}

fn gen_pre(src: &str) -> ProbeReport {
    generate_preconditions(&parse_sources(&vec![SourceFile { path: "t.rs".into(), text: src.to_string() }]))
}

/// A precondition probe havocs the inputs, assumes every #[requires], and covers.
#[test]
fn preconditions_produce_a_cover_probe_ignoring_the_return_type() {
    let r = gen_pre(r#"
        #[kani::requires(x > 10)]
        #[kani::requires(x < 5)]
        fn contradictory(x: u32) -> u32 { x }
    "#);
    assert_eq!(r.probes.len(), 1);
    let c = &r.probes[0].code;
    assert!(c.contains("let x: u32 = kani::any();"), "{c}");
    assert!(c.contains("kani::assume(x > 10)"), "{c}");
    assert!(c.contains("kani::assume(x < 5)"), "{c}");
    assert!(c.contains("kani::cover!(true"), "{c}");
    assert!(!c.contains("probe_result"), "precondition probe must not construct a result: {c}");
}

/// For a precondition probe only the cover status tells the outcomes apart.
#[test]
fn precondition_vacuity_is_read_from_cover_status_not_the_verdict() {
    let rep = ProbeReport {
        probes: vec![
            Probe { file: "t.rs".into(), line: 1, func: "bad".into(), name: "probe_precond_bad_1".into(), code: String::new() },
            Probe { file: "t.rs".into(), line: 2, func: "ok".into(), name: "probe_precond_ok_2".into(), code: String::new() },
        ],
        ..Default::default()
    };
    let out = "Checking harness probe_precond_bad_1...\n\
               Status: UNREACHABLE\nVERIFICATION:- SUCCESSFUL\n\
               Checking harness probe_precond_ok_2...\n\
               Status: SATISFIED\nVERIFICATION:- SUCCESSFUL\n";
    let r = interpret(&rep, out);
    assert_eq!(r[0].1, Some(true), "UNREACHABLE cover = vacuous preconditions");
    assert_eq!(r[1].1, Some(false), "SATISFIED cover = healthy preconditions");
}

#[test]
fn completeness_probe_calls_the_function_and_covers_a_wrong_output() {
    let r = generate_completeness(&parse_sources(&vec![SourceFile {
        path: "t.rs".into(),
        text: format!("{ARB_THING}{}", r#"
        impl Thing {
            #[ensures(|r| *r >= x)]
            #[ensures(|r| *r != 0)]
            pub fn bump(self, x: u32) -> u32 { x + 1 }
        }
    "#),
    }]));
    assert_eq!(r.clauses_seen, 2);
    assert_eq!(r.probes.len(), 1);
    let expected = "    /// Probes `bump` completeness. A SATISFIED cover means a WRONG output\n    /// satisfies the contract, so it does not pin the result (loose contract).\n    #[kani::proof]\n    fn probe_complete_bump_1() {\n        let probe_self: Thing = kani::any();\n        let x: u32 = kani::any();\n        let probe_correct: u32 = probe_self.bump(x);\n        let probe_wrong: u32 = kani::any();\n        kani::assume(probe_wrong != probe_correct);\n        let r = &probe_wrong;\n        let r = &probe_wrong;\n        kani::cover!((* r >= x) && (* r != 0), \"a wrong output satisfies the contract\");\n    }\n";
    assert_eq!(r.probes[0].code, expected);
    assert_eq!(r.probes[0].name, "probe_complete_bump_1");
}

#[test]
fn render_module_wraps_probes_in_a_kani_only_module() {
    let rep = ProbeReport {
        probes: vec![Probe { file: "t.rs".into(), line: 1, func: "a".into(), name: "p".into(), code: "    fn p() {}\n".into() }],
        ..Default::default()
    };
    let m = render_module(&rep, true, false, false);
    assert!(m.starts_with("// GENERATED VACUITY PROBES."));
    assert!(m.ends_with("#[cfg(kani)]\n#[unstable(feature = \"kani\", issue = \"none\")]\npub mod vacuity_probes {\n    use super::*;\n\n    fn p() {}\n\n}\n"));
    let plain = render_module(&rep, false, true, false);
    assert!(plain.starts_with("// GENERATED PRECONDITION PROBES."));
    assert!(!plain.contains("unstable"));
}
