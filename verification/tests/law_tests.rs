use std::collections::HashSet;

use vacuity::probe::{try_generate, Probe, ProbeReport, SourceFile};
use vacuity::verdict::{interpret, render_module};
use vacuity::text::rename_word;

const SOURCE: &str = r#"
    impl kani::Arbitrary for S { fn any() -> Self { todo!() } }
    impl S {
        #[ensures(|r| *r > 0)]
        #[ensures(|r| *r < 9)]
        #[requires(x > 1)]
        fn a(&self, x: u8) -> u8 { x }
        #[ensures(|r| true)]
        #[ensures(|r| false)]
        fn g<T>(t: T) -> u8 { 0 }
        #[requires(y != 0)]
        #[ensures(|r: &u16| *r == y)]
        fn b(y: u16) -> u16 { y }
    }
"#;

#[test]
fn every_clause_is_accounted_for_and_names_are_distinct_in_every_mode() {
    let sources = vec![SourceFile { path: "t.rs".into(), text: SOURCE.into() }];
    for (precond, completeness) in [(false, false), (true, false), (false, true)] {
        let r = try_generate(&sources, precond, completeness).unwrap();
        let entries = r.probes.len() + r.skips.len();
        assert!(entries <= r.clauses_seen, "{precond} {completeness}");
        assert!(entries > 0);
        for p in &r.probes {
            let prefix = if completeness { "probe_complete_" } else if precond { "probe_precond_" } else { "probe_vacuity_" };
            assert!(p.name.starts_with(prefix), "{}", p.name);
            assert_eq!(p.file, "t.rs");
        }
        let names: HashSet<_> = r.probes.iter().map(|p| p.name.clone()).collect();
        assert_eq!(names.len(), r.probes.len());
        for (k, p) in r.probes.iter().enumerate() {
            assert!(p.name.ends_with(&format!("_{}", k + 1)), "{}", p.name);
        }
    }
    let post = try_generate(&sources, false, false).unwrap();
    assert_eq!(post.clauses_seen, 5);
    assert_eq!(post.probes.len(), 3);
    assert_eq!(post.skips.len(), 2);
    let complete = try_generate(&sources, false, true).unwrap();
    assert_eq!(complete.clauses_seen, post.clauses_seen);
    assert_eq!(try_generate(&sources, true, true).unwrap().probes[0].code, complete.probes[0].code);
}

#[test]
fn precondition_probes_do_not_depend_on_the_return_type() {
    let one = |ret: &str| {
        let text = format!("#[requires(x > 1)] fn f(x: u8) -> {ret} {{ todo!() }}");
        try_generate(&vec![SourceFile { path: "t.rs".into(), text }], true, false).unwrap()
    };
    let a = one("u8");
    let b = one("*const Vec<&str>");
    assert_eq!(a.probes.len(), 1);
    assert_eq!(a.probes[0].code, b.probes[0].code);
    assert_eq!(a.probes[0].name, b.probes[0].name);
}

#[test]
fn renaming_leaves_text_without_the_word_unchanged() {
    let s = "myself.selfish(self_, itself) + 1";
    assert_eq!(rename_word(s, "self", "probe_self"), s);
    assert_eq!(rename_word("self + self", "self", "self"), "self + self");
}

#[test]
fn the_unstable_attribute_comes_only_in_std_mode() {
    let sources = vec![SourceFile { path: "t.rs".into(), text: SOURCE.into() }];
    let r = try_generate(&sources, true, false).unwrap();
    let with = render_module(&r, true, true, false);
    let without = render_module(&r, false, true, false);
    assert!(with.contains("#[cfg(kani)]\n#[unstable(feature = \"kani\", issue = \"none\")]\npub mod"));
    assert!(without.contains("#[cfg(kani)]\npub mod"));
    assert!(!without.contains("#[unstable"));
}

#[test]
fn a_verdict_goes_only_to_the_harness_whose_whole_name_is_given() {
    let rep = ProbeReport {
        probes: ["probe_vacuity_f_1", "probe_vacuity_f_12"]
            .iter()
            .map(|n| Probe { file: "t.rs".into(), line: 1, func: "f".into(), name: n.to_string(), code: String::new() })
            .collect(),
        ..Default::default()
    };
    let out = "Checking harness probe_vacuity_f_12...\nVERIFICATION:- SUCCESSFUL\n\
               Checking harness probe_vacuity_f_1...\nVERIFICATION:- FAILED\n";
    let r = interpret(&rep, out);
    assert_eq!(r[0].1, Some(false));
    assert_eq!(r[1].1, Some(true));
    let only_longer = "Checking harness probe_vacuity_f_12...\nVERIFICATION:- SUCCESSFUL\n";
    assert_eq!(interpret(&rep, only_longer)[0].1, None);
}
