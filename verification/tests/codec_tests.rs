use codeexec::codec::{encode_outcome, parse_coverage_report, row_value};
use codeexec::outcome::Outcome;

#[test]
fn encode_clean_exit_keeps_stdout() {
    let o = Outcome::Completed {
        code: Some(0),
        stdout: "2\n".to_string(),
        stderr: "".to_string(),
    };
    assert_eq!(encode_outcome(&o), "0\n2\n");
}

#[test]
fn encode_nonzero_exit_carries_stderr() {
    let o = Outcome::Completed {
        code: Some(1),
        stdout: "partial".to_string(),
        stderr: "boom".to_string(),
    };
    assert_eq!(encode_outcome(&o), "1\nboom");
}

#[test]
fn encode_signal_ended_process_carries_stderr() {
    let o = Outcome::Completed {
        code: None,
        stdout: "x".to_string(),
        stderr: "killed".to_string(),
    };
    assert_eq!(encode_outcome(&o), "1\nkilled");
}

#[test]
fn encode_timeout_is_the_literal_marker() {
    assert_eq!(encode_outcome(&Outcome::TimedOut), "1\nTimeout");
}

#[test]
fn encode_spawn_failure_has_empty_payload() {
    assert_eq!(encode_outcome(&Outcome::SpawnFailed), "1\n");
}

#[test]
fn report_single_file() {
    let report = "Name     Stmts   Miss  Cover\n\
                  ----------------------------\n\
                  t.py         4      1    75%\n\
                  ----------------------------\n\
                  TOTAL        4      1    75%\n";
    assert_eq!(parse_coverage_report(report), 75);
}

#[test]
fn report_half_covered_is_strictly_between_bounds() {
    let report = "Name     Stmts   Miss  Cover\n\
                  ----------------------------\n\
                  half.py      8      4    50%\n\
                  ----------------------------\n\
                  TOTAL        8      4    50%\n";
    let pct = parse_coverage_report(report);
    assert!(pct > 0 && pct < 100);
    assert_eq!(pct, 50);
}

#[test]
fn report_without_separator_is_undetermined() {
    assert_eq!(parse_coverage_report("TOTAL 4 1 75%\n"), -1);
    assert_eq!(parse_coverage_report(""), -1);
}

#[test]
fn report_with_separator_as_last_line_is_undetermined() {
    assert_eq!(parse_coverage_report("header\n-----"), -1);
    assert_eq!(parse_coverage_report("header\n-----\n"), -1);
}

#[test]
fn report_row_with_too_few_tokens_is_undetermined() {
    assert_eq!(parse_coverage_report("h\n---\nt.py 4 1\n"), -1);
}

#[test]
fn report_row_with_unparsable_number_is_undetermined() {
    assert_eq!(parse_coverage_report("h\n---\nt.py 4 1 many%\n"), -1);
    assert_eq!(parse_coverage_report("h\n---\nt.py 4 1 %\n"), -1);
}

#[test]
fn report_value_above_hundred_is_undetermined() {
    assert_eq!(parse_coverage_report("h\n---\nt.py 4 1 150%\n"), -1);
}

#[test]
fn report_uses_first_separator() {
    let report = "h\n---\nt.py 4 1 30%\n---\nTOTAL 4 1 99%\n";
    assert_eq!(parse_coverage_report(report), 30);
}

#[test]
fn report_bounds_are_included() {
    assert_eq!(parse_coverage_report("h\n---\na.py 1 1 0%\n"), 0);
    assert_eq!(parse_coverage_report("h\n---\na.py 1 0 100%\n"), 100);
}

#[test]
fn report_tolerates_tabs_and_crlf() {
    let report = "h\r\n---\r\nt.py\t4\t1\t62%\r\n";
    assert_eq!(parse_coverage_report(report), 62);
}

#[test]
fn report_dashes_with_other_text_are_no_separator() {
    assert_eq!(parse_coverage_report("--- x\nt.py 4 1 75%\n"), -1);
}

#[test]
fn row_value_reads_fourth_token() {
    assert_eq!(row_value("t.py 4 1 75%"), 75);
    assert_eq!(row_value("  a  b  c  88  extra"), 88);
    assert_eq!(row_value("a b c"), -1);
    assert_eq!(row_value(""), -1);
    assert_eq!(row_value("a b c 90%%"), 90);
}
