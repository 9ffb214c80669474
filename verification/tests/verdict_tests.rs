use vacuity::probe::{Probe, ProbeReport};
use vacuity::verdict::interpret;

fn report(names: &[&str]) -> ProbeReport {
    ProbeReport {
        probes: names
            .iter()
            .map(|n| Probe { file: "t.rs".into(), line: 1, func: "f".into(), name: n.to_string(), code: String::new() })
            .collect(),
        ..Default::default()
    }
}

#[test]
fn completeness_reads_a_satisfied_cover_as_loose() {
    let rep = report(&["probe_complete_f_1", "probe_complete_g_2", "probe_complete_h_3"]);
    let out = "Checking harness probe_complete_f_1...\nStatus: SATISFIED\n\
               Checking harness probe_complete_g_2...\nStatus: UNSATISFIABLE\n\
               Checking harness probe_complete_h_3...\n0 of 1 cover properties satisfied\n";
    let r = interpret(&rep, out);
    assert_eq!(r[0].1, Some(true));
    assert_eq!(r[1].1, Some(false));
    assert_eq!(r[2].1, None);
}

#[test]
fn a_later_mention_of_a_name_can_carry_the_verdict() {
    let rep = report(&["probe_vacuity_f_1"]);
    let out = "queued probe_vacuity_f_1\nChecking harness other...\n\
               Checking harness probe_vacuity_f_1...\nVERIFICATION:- FAILED\n";
    assert_eq!(interpret(&rep, out)[0].1, Some(false));
}

#[test]
fn a_precondition_verdict_ignores_the_verification_line() {
    let rep = report(&["probe_precond_f_1"]);
    let out = "Checking harness probe_precond_f_1...\nVERIFICATION:- SUCCESSFUL\n";
    assert_eq!(interpret(&rep, out)[0].1, None);
}

#[test]
fn verdicts_come_back_in_probe_order() {
    let rep = report(&["probe_vacuity_a_1", "probe_vacuity_b_2"]);
    let out = "Checking harness probe_vacuity_b_2...\nVERIFICATION:- SUCCESSFUL\n";
    let r = interpret(&rep, out);
    assert_eq!(r.len(), 2);
    assert_eq!(r[0].0.name, "probe_vacuity_a_1");
    assert_eq!(r[0].1, None);
    assert_eq!(r[1].1, Some(true));
}
