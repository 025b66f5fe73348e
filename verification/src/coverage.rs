//! The two-phase coverage pipeline's decisions: whether the report phase
//! runs at all, what percentage a finished pipeline reports, and the wire
//! text of that percentage.

use vstd::prelude::*;

use crate::codec::spec_coverage;
use crate::numbers::dec_str;
use crate::outcome::{is_success, spec_stdout, Outcome};

verus! {

/// The percentage the pipeline reports, given the two phase outcomes: -1
/// whenever either phase fails in any way, else what the report announces.
pub open spec fn spec_pipeline(phase1: Outcome, phase2: Outcome) -> int {
    if !is_success(phase1) {
        -1int
    } else if !is_success(phase2) {
        -1int
    } else {
        spec_coverage(spec_stdout(phase2))
    }
}

/// Decides after phase 1 whether phase 2 runs: only a clean exit of the
/// instrumented run lets the pipeline continue; on anything else the
/// pipeline aborts with the sentinel and the report phase never starts.
pub fn phase_one_proceeds(o: &Outcome) -> (r: bool)
    ensures
        r == is_success(*o),
{
    o.success()
}

/// The percentage of a finished pipeline: the report phase's standard
/// output parsed when that phase exited cleanly, -1 otherwise.
pub fn phase_two_percentage(o: &Outcome) -> (r: i32)
    ensures
        r as int == (if is_success(*o) {
            spec_coverage(spec_stdout(*o))
        } else {
            -1int
        }),
        -1 <= r <= 100,
{
    if o.success() {
        match o {
            Outcome::Completed { stdout, .. } => crate::codec::parse_coverage_report(
                stdout.as_str(),
            ),
            _ => -1,
        }
    } else {
        -1
    }
}

/// The wire text of a pipeline percentage: the bare decimal numeral, or
/// the sentinel `"-1"` for "not determined".
pub open spec fn spec_percentage_text(v: int) -> Seq<char> {
    if v < 0 {
        "-1"@
    } else {
        dec_str(v as nat)
    }
}

/// Prints a pipeline percentage for the wire.
pub fn percentage_response(v: i32) -> (r: String)
    ensures
        r@ == spec_percentage_text(v as int),
{
    if v < 0 {
        "-1".to_owned()
    } else {
        crate::numbers::u64_to_string(v as u64)
    }
}

/// Law: when phase 1 does not exit cleanly, the reported percentage is
/// exactly -1, whatever the report phase would have yielded — and
/// [`phase_one_proceeds`] refuses, so that phase never runs.
pub proof fn lemma_phase_one_failure_aborts(phase1: Outcome, phase2: Outcome)
    requires
        !is_success(phase1),
    ensures
        spec_pipeline(phase1, phase2) == -1,
{
}

/// Law: when both phases exit cleanly, the pipeline reports exactly what
/// the report text announces.
pub proof fn lemma_pipeline_reports_parse(phase1: Outcome, phase2: Outcome)
    requires
        is_success(phase1),
        is_success(phase2),
    ensures
        spec_pipeline(phase1, phase2) == spec_coverage(spec_stdout(phase2)),
{
}

} // verus!
