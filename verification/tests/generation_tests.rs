use vacuity::model::{ArgNode, AttrNode, FnNode, ItemNode, SigNode, TypeNode, TypeShape};
use vacuity::probe::{
    generate, generate_completeness, generate_parsed, generate_preconditions, parse_sources,
    try_generate, ParsedFile, ProbeReport, SourceFile,
};

fn file(path: &str, text: &str) -> SourceFile {
    SourceFile { path: path.into(), text: text.into() }
}

fn one(text: &str) -> ProbeReport {
    generate(&parse_sources(&vec![file("t.rs", text)]))
}

fn reasons(r: &ProbeReport) -> Vec<String> {
    r.skips.iter().map(|s| s.reason.clone()).collect()
}

#[test]
fn a_probe_has_the_exact_harness_text() {
    let r = one("#[ensures(|r| *r > x)] fn inc(x: u8) -> u8 { x + 1 }");
    assert_eq!(r.probes.len(), 1);
    let p = &r.probes[0];
    assert_eq!(p.name, "probe_vacuity_inc_1");
    assert_eq!(p.func, "inc");
    assert_eq!(p.file, "t.rs");
    assert_eq!(p.line, 1);
    assert_eq!(p.code, "    /// Probes `inc` clause 0. SUCCESS means the clause is VACUOUS.\n    #[kani::proof]\n    fn probe_vacuity_inc_1() {\n        let x: u8 = kani::any();\n        let probe_result: u8 = kani::any();\n        let r = &probe_result;\n        assert!(* r > x);\n    }\n");
}

#[test]
fn each_clause_gets_its_own_numbered_probe() {
    let r = one("#[ensures(|r| *r > 0)]\n#[kani::ensures(|r| *r < 9)]\nfn f() -> u8 { 1 }");
    assert_eq!(r.clauses_seen, 2);
    let names: Vec<_> = r.probes.iter().map(|p| p.name.as_str()).collect();
    assert_eq!(names, vec!["probe_vacuity_f_1", "probe_vacuity_f_2"]);
    assert!(r.probes[1].code.contains("clause 1."));
    assert_eq!(r.probes[0].line, 3);
}

#[test]
fn numbering_runs_on_across_files_and_unparsable_files_are_left_out() {
    let r = generate(&parse_sources(&vec![
        file("a.rs", "#[ensures(|r| *r > 0)] fn a() -> u8 { 1 }"),
        file("bad.rs", "fn (("),
        file("b.rs", "#[ensures(|r| *r > 0)] fn b() -> u8 { 1 }"),
    ]));
    let names: Vec<_> = r.probes.iter().map(|p| (p.file.as_str(), p.name.as_str())).collect();
    assert_eq!(names, vec![("a.rs", "probe_vacuity_a_1"), ("b.rs", "probe_vacuity_b_2")]);
}

#[test]
fn every_reason_for_skipping_is_given() {
    let r = one(r#"
        #[ensures(|r| true)] fn unit() {}
        #[ensures(|r| true)] fn refs(x: &u8) -> u8 { 0 }
        #[ensures(|r| true)] fn pattern((a, b): (u8, u8)) -> u8 { 0 }
        #[ensures(|r| true)] fn arr() -> [u8; 2] { [0, 0] }
        #[ensures(|r| true)] fn opt() -> Option<*const u8> { None }
        #[ensures(true)] fn not_closure() -> u8 { 0 }
        #[ensures(|(a, b)| true)] fn tuple_binding() -> (u8, u8) { (0, 0) }
        trait T { #[ensures(|r| true)] fn m(&self) -> u8; }
    "#);
    assert_eq!(r.clauses_seen, 8);
    assert_eq!(r.probes.len(), 0);
    assert_eq!(reasons(&r), vec![
        "returns unit, so there is no result to constrain".to_string(),
        "parameter: reference, needs a referent to point at".to_string(),
        "parameter is a pattern, not a plain name".to_string(),
        "return type: unsupported type form `[u8 ; 2]`".to_string(),
        "return type: raw pointer, kani::any() cannot produce a valid one".to_string(),
        "clause 0 is not a closure this tool can parse".to_string(),
        "clause 0 has no simple result binding".to_string(),
        "takes self but is not in an impl block".to_string(),
    ]);
    assert_eq!(r.skips[0].func, "unit");
}

#[test]
fn a_skipped_function_has_one_skip_for_each_of_its_clauses() {
    let r = one("#[ensures(|r| true)]\n#[ensures(|r| false)]\nfn g<T>(t: T) -> u8 { 0 }");
    assert_eq!(r.clauses_seen, 2);
    assert_eq!(r.skips.len(), 2);
    for s in &r.skips {
        assert_eq!(s.reason, "generic function, no type arguments to instantiate");
        assert_eq!(s.func, "g");
    }
}

#[test]
fn functions_in_inline_modules_and_traits_are_found() {
    let r = one(r#"
        mod outer { mod inner { #[ensures(|r| *r > 0)] pub fn deep() -> u8 { 1 } } }
        mod elsewhere;
        trait T { #[ensures(|r| *r > 0)] fn assoc(x: u8) -> u8; }
    "#);
    let funcs: Vec<_> = r.probes.iter().map(|p| p.func.as_str()).collect();
    assert_eq!(funcs, vec!["deep", "assoc"]);
}

#[test]
fn arbitrary_types_are_sorted_and_listed_once() {
    let r = one(r#"
        impl kani::Arbitrary for Zed { fn any() -> Self { todo!() } }
        impl Arbitrary for Alpha { fn any() -> Self { todo!() } }
        mod m { impl kani::Arbitrary for Zed { fn any() -> Self { todo!() } } }
        impl Clone for Beta { fn clone(&self) -> Self { todo!() } }
    "#);
    assert_eq!(r.arbitrary_types, vec!["Alpha".to_string(), "Zed".to_string()]);
}

#[test]
fn nested_arguments_must_be_probeable_too() {
    let r = one(r#"
        #[ensures(|r| true)] fn a() -> Option<Widget> { None }
        #[ensures(|r| r.is_some())] fn b() -> Option<(u8, NonZero<u32>)> { None }
    "#);
    assert_eq!(reasons(&r), vec!["return type: `Widget` has no kani::Arbitrary this tool can see".to_string()]);
    assert_eq!(r.probes.len(), 1);
    assert!(r.probes[0].code.contains("let probe_result: Option < (u8 , NonZero < u32 >) > = kani::any();"));
}

#[test]
fn a_precondition_that_is_not_an_expression_is_skipped() {
    let r = generate_preconditions(&parse_sources(&vec![file("t.rs", "#[requires(x -> y)] fn f(x: bool, y: bool) {}")]));
    assert_eq!(r.clauses_seen, 1);
    assert_eq!(reasons(&r), vec!["clause 0 is not a bare Rust expression this tool can assume".to_string()]);
}

#[test]
fn a_precondition_probe_keeps_only_the_predicate_and_renames_self() {
    let r = generate_preconditions(&parse_sources(&vec![file("t.rs", r#"
        impl kani::Arbitrary for S { fn any() -> Self { todo!() } }
        impl S { #[requires(self.ok(), "must be ok")] fn f(&self) {} }
    "#)]));
    assert_eq!(r.probes.len(), 1);
    assert_eq!(r.probes[0].code, "    /// Probes `f` preconditions. An UNREACHABLE cover means they are jointly\n    /// unsatisfiable, so every proof under them is VACUOUS.\n    #[kani::proof]\n    fn probe_precond_f_1() {\n        let probe_self: S = kani::any();\n        kani::assume(probe_self . ok ());\n        kani::cover!(true, \"preconditions jointly satisfiable\");\n    }\n");
}

#[test]
fn a_clause_with_characters_beyond_ascii_is_probed_like_any_other() {
    let sources = vec![file("t.rs", "#[ensures(|r| *r == 'é')] fn f() -> char { 'é' }")];
    let r = try_generate(&sources, false, false).unwrap();
    assert_eq!(r.probes.len(), 1);
    assert!(r.probes[0].code.contains("assert!(* r == 'é');"), "{}", r.probes[0].code);
}

#[test]
fn generation_reads_the_model_as_written() {
    let u8_ty = || TypeNode { shape: TypeShape::Path { name: Some("u8".into()), args: vec![] }, text: "u8".into() };
    let f = FnNode {
        attrs: vec![
            AttrNode { name: Some("ensures".into()), list: Some("| r | * r > x".into()), inner: vec![] },
            AttrNode { name: Some("doc".into()), list: None, inner: vec![] },
        ],
        sig: SigNode {
            name: "g".into(),
            line: 7,
            has_type_param: false,
            inputs: vec![ArgNode::Typed { name: Some("x".into()), ty: u8_ty() }],
            output: Some(u8_ty()),
        },
    };
    let files = vec![ParsedFile { path: "m.rs".into(), items: vec![ItemNode::Mod(Some(vec![ItemNode::Fn(f)])), ItemNode::Other] }];
    let r = generate_parsed(&files, false, false).unwrap();
    assert_eq!(r.clauses_seen, 1);
    assert_eq!(r.probes[0].line, 7);
    assert_eq!(r.probes[0].name, "probe_vacuity_g_1");
    assert!(r.probes[0].code.contains("let x: u8 = kani::any();"));
    assert!(r.probes[0].code.contains("assert!(* r > x);"));
    let c = generate_parsed(&files, false, true).unwrap();
    assert!(c.probes[0].code.contains("let probe_correct: u8 = g(x);"));
}

#[test]
fn bare_qualified_and_cfg_attr_clauses_are_read_in_order() {
    let r = one(r#"
        #[ensures(|result| *result > 0)]
        #[inline]
        #[kani::ensures(|r| true)]
        #[cfg_attr(kani, kani::ensures(|result| *result < 9))]
        #[cfg_attr(test, derive(Debug))]
        fn f() -> u8 { 1 }
    "#);
    assert_eq!(r.clauses_seen, 3);
    assert_eq!(r.probes.len(), 3);
    assert!(r.probes[0].code.contains("assert!(* result > 0);"));
    assert!(r.probes[1].code.contains("assert!(true);"));
    assert!(r.probes[2].code.contains("assert!(* result < 9);"));
}

#[test]
fn cfg_attr_preconditions_are_read_too() {
    let r = generate_preconditions(&parse_sources(&vec![file("t.rs", r#"
        #[requires(x > 0)]
        #[kani::requires(y < 5)]
        #[cfg_attr(kani, kani::requires(z != 0))]
        fn f(x: u8, y: u8, z: u8) {}
    "#)]));
    assert_eq!(r.clauses_seen, 3);
    assert_eq!(r.probes.len(), 1);
    assert!(r.probes[0].code.contains("kani::assume(x > 0);\n        kani::assume(y < 5);\n        kani::assume(z != 0);"));
}

#[test]
fn a_comma_inside_a_literal_does_not_split_a_precondition() {
    let r = generate_preconditions(&parse_sources(&vec![file("t.rs", r#"
        #[requires(s == "a,b", "message")]
        #[requires(c != ',', "another")]
        fn f(s: u8, c: char) {}
    "#)]));
    assert_eq!(r.probes.len(), 1);
    assert!(r.probes[0].code.contains("kani::assume(s == \"a,b\");"), "{}", r.probes[0].code);
    assert!(r.probes[0].code.contains("kani::assume(c != ',');"), "{}", r.probes[0].code);
}

#[test]
fn a_completeness_probe_calls_an_associated_function_through_its_type() {
    let r = generate_completeness(&parse_sources(&vec![file("t.rs", r#"
        impl kani::Arbitrary for Thing { fn any() -> Self { todo!() } }
        impl Thing {
            #[ensures(|result| *result > x)]
            fn new(x: u32) -> u32 { x + 1 }
        }
        impl Pair<u8> {
            #[ensures(|result| *result > x)]
            fn make(x: u32) -> u32 { x + 1 }
        }
    "#)]));
    assert_eq!(r.probes.len(), 2);
    assert!(r.probes[0].code.contains("let probe_correct: u32 = Thing::new(x);"), "{}", r.probes[0].code);
    assert!(r.probes[1].code.contains("let probe_correct: u32 = <Pair < u8 >>::make(x);"), "{}", r.probes[1].code);
}

#[test]
fn a_completeness_probe_is_skipped_for_every_clause_when_one_cannot_take_part() {
    let r = generate_completeness(&parse_sources(&vec![file("t.rs", r#"
        #[ensures(|r| *r > 0)]
        #[ensures(true)]
        #[ensures(|r| *r < 9)]
        fn f() -> u8 { 1 }
    "#)]));
    assert_eq!(r.clauses_seen, 3);
    assert_eq!(r.probes.len(), 0);
    assert_eq!(reasons(&r), vec!["clause 1 is not a closure this tool can parse".to_string(); 3]);
}

#[test]
fn postcondition_mode_accounts_for_every_clause_with_a_probe_or_a_skip() {
    let r = one(r#"
        #[ensures(|r| *r > 0)]
        #[ensures(true)]
        #[requires(false)]
        fn f() -> u8 { 1 }
        #[ensures(|r| true)]
        #[ensures(|r| true)]
        fn g() {}
    "#);
    assert_eq!(r.clauses_seen, 4);
    assert_eq!(r.probes.len() + r.skips.len(), r.clauses_seen);
    assert_eq!(r.probes.len(), 1);
}
