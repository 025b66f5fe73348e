use codeexec::artifact::{coverage_data_path, ArtifactStore};
use codeexec::coverage::{percentage_response, phase_one_proceeds, phase_two_percentage};
use codeexec::gate::AdmissionGate;
use codeexec::numbers::{parse_u64_digits, u64_to_string};
use codeexec::outcome::Outcome;
use codeexec::request::timeout_or_default;
use codeexec::runner::{
    conclude_run, coverage_report_invocation, coverage_run_invocation, eval_invocation,
    interpreter_invocation, RunEvent,
};

#[test]
fn parse_digits_reads_decimal() {
    assert_eq!(parse_u64_digits("0"), Some(0));
    assert_eq!(parse_u64_digits("25"), Some(25));
    assert_eq!(parse_u64_digits("007"), Some(7));
    assert_eq!(parse_u64_digits("18446744073709551615"), Some(u64::MAX));
}

#[test]
fn parse_digits_rejects_everything_else() {
    assert_eq!(parse_u64_digits(""), None);
    assert_eq!(parse_u64_digits("12a"), None);
    assert_eq!(parse_u64_digits("-3"), None);
    assert_eq!(parse_u64_digits(" 3"), None);
    assert_eq!(parse_u64_digits("18446744073709551616"), None);
}

#[test]
fn numerals_print_without_leading_zeros() {
    assert_eq!(u64_to_string(0), "0");
    assert_eq!(u64_to_string(7), "7");
    assert_eq!(u64_to_string(120), "120");
    assert_eq!(u64_to_string(u64::MAX), "18446744073709551615");
}

#[test]
fn printed_numerals_parse_back() {
    let values = vec![0u64, 9, 10, 25, 120, 4096, u64::MAX];
    for n in values {
        assert_eq!(parse_u64_digits(&u64_to_string(n)), Some(n));
    }
}

#[test]
fn timeout_defaults_to_twenty_five() {
    assert_eq!(timeout_or_default(None), 25);
    assert_eq!(timeout_or_default(Some("abc")), 25);
    assert_eq!(timeout_or_default(Some("")), 25);
    assert_eq!(timeout_or_default(Some("99999999999999999999")), 25);
}

#[test]
fn timeout_field_is_honoured_when_decimal() {
    assert_eq!(timeout_or_default(Some("1")), 1);
    assert_eq!(timeout_or_default(Some("30")), 30);
}

#[test]
fn gate_admits_up_to_its_limit_and_no_further() {
    let mut g = AdmissionGate::new(4);
    for _ in 0..4 {
        assert!(g.try_acquire());
    }
    // The fifth concurrent submission is not admitted while four run.
    assert!(!g.try_acquire());
    assert!(g.release());
    assert!(g.try_acquire());
}

#[test]
fn gate_release_without_permit_is_refused() {
    let mut g = AdmissionGate::new(1);
    assert!(!g.release());
    assert!(g.try_acquire());
    assert!(g.release());
    assert!(!g.release());
}

#[test]
fn gate_with_no_slots_admits_nothing() {
    let mut g = AdmissionGate::new(0);
    assert!(!g.try_acquire());
}

#[test]
fn store_numbers_artifacts_from_zero() {
    let mut store = ArtifactStore::new("work".to_string());
    assert!(store.can_allocate());
    assert_eq!(store.allocate("py"), "work/0.py");
    assert_eq!(store.allocate("py"), "work/1.py");
    assert_eq!(store.allocate("lua"), "work/2.lua");
}

#[test]
fn derived_coverage_path_appends_suffix() {
    assert_eq!(coverage_data_path("work/0.py"), "work/0.py.cov");
}

#[test]
fn conclude_run_maps_each_event() {
    let step = conclude_run(RunEvent::DeadlineExpired);
    assert!(step.kill_child);
    assert!(matches!(step.outcome, Outcome::TimedOut));

    let step = conclude_run(RunEvent::SpawnError);
    assert!(!step.kill_child);
    assert!(matches!(step.outcome, Outcome::SpawnFailed));

    let step = conclude_run(RunEvent::Finished {
        code: Some(3),
        stdout: "o".to_string(),
        stderr: "e".to_string(),
    });
    assert!(!step.kill_child);
    match step.outcome {
        Outcome::Completed { code, stdout, stderr } => {
            assert_eq!(code, Some(3));
            assert_eq!(stdout, "o");
            assert_eq!(stderr, "e");
        },
        _ => panic!("expected a completed outcome"),
    }
}

#[test]
fn interpreter_invocation_names_the_artifact() {
    let inv = interpreter_invocation("work/0.py");
    assert_eq!(inv.program, "python3");
    assert_eq!(inv.args, vec!["work/0.py".to_string()]);
}

#[test]
fn eval_invocation_builds_the_driver_script() {
    let inv = eval_invocation("/srv/app", "lua", "work/3.lua");
    assert_eq!(inv.program, "python3");
    assert_eq!(inv.args.len(), 2);
    assert_eq!(inv.args[0], "-c");
    assert_eq!(
        inv.args[1],
        "import sys; sys.path.append('/srv/app/MultiPL-E/evaluation/src'); \
         import json; import eval_lua; print(json.dumps(eval_lua.eval_script('work/3.lua')))"
    );
}

#[test]
fn coverage_invocations_share_the_data_file() {
    let run = coverage_run_invocation("work/0.py.cov", "work/0.py");
    assert_eq!(run.program, "coverage");
    assert_eq!(
        run.args,
        vec![
            "run".to_string(),
            "--data-file".to_string(),
            "work/0.py.cov".to_string(),
            "work/0.py".to_string(),
        ]
    );
    let rep = coverage_report_invocation("work/0.py.cov");
    assert_eq!(rep.program, "coverage");
    assert_eq!(
        rep.args,
        vec!["report".to_string(), "--data-file".to_string(), "work/0.py.cov".to_string()]
    );
}

#[test]
fn failed_instrument_phase_aborts_with_sentinel() {
    let failed = Outcome::Completed {
        code: Some(2),
        stdout: "".to_string(),
        stderr: "boom".to_string(),
    };
    // Phase 2 must never run after a failed phase 1 ...
    assert!(!phase_one_proceeds(&failed));
    assert!(!phase_one_proceeds(&Outcome::TimedOut));
    assert!(!phase_one_proceeds(&Outcome::SpawnFailed));
    // ... and the reported percentage is exactly the sentinel.
    assert_eq!(percentage_response(-1), "-1");
}

#[test]
fn clean_phases_report_the_parsed_percentage() {
    let ok = Outcome::Completed {
        code: Some(0),
        stdout: "h\n---\nt.py 4 1 75%\n".to_string(),
        stderr: "".to_string(),
    };
    assert!(phase_one_proceeds(&ok));
    let pct = phase_two_percentage(&ok);
    assert_eq!(pct, 75);
    assert_eq!(percentage_response(pct), "75");
}

#[test]
fn failed_report_phase_yields_sentinel() {
    let bad = Outcome::Completed {
        code: Some(1),
        stdout: "h\n---\nt.py 4 1 75%\n".to_string(),
        stderr: "".to_string(),
    };
    assert_eq!(phase_two_percentage(&bad), -1);
    assert_eq!(phase_two_percentage(&Outcome::TimedOut), -1);
}
