//! The process runner's decision logic. The host program spawns the
//! process, waits under the deadline and reports what it observed as a
//! [`RunEvent`]; the runner decides the terminal outcome and whether the
//! child must now be forcefully terminated. The program invocations
//! themselves (interpreter, per-language driver, coverage phases) are
//! built here too, with their exact text pinned down.

use vstd::prelude::*;

use crate::outcome::Outcome;

verus! {

/// What the host observed of one spawned execution.
pub enum RunEvent {
    /// The program could not be spawned at all.
    SpawnError,
    /// The process terminated on its own within the deadline: its exit
    /// code (`None` when the status carried none) and captured output.
    Finished { code: Option<i32>, stdout: String, stderr: String },
    /// The deadline elapsed with the process still running.
    DeadlineExpired,
}

/// What one run concludes with: the terminal outcome, and whether the
/// child process must now be sent a forceful termination signal.
pub struct RunStep {
    pub outcome: Outcome,
    pub kill_child: bool,
}

/// Decides the end of a run. A spawn error or a natural termination needs
/// no kill; a deadline overrun is the one case that does, and its outcome
/// is exactly `TimedOut`, whatever the process had printed so far.
pub fn conclude_run(ev: RunEvent) -> (r: RunStep)
    ensures
        match ev {
            RunEvent::SpawnError => r.outcome == Outcome::SpawnFailed && !r.kill_child,
            RunEvent::Finished { code, stdout, stderr } => r.outcome == (Outcome::Completed {
                code,
                stdout,
                stderr,
            }) && !r.kill_child,
            RunEvent::DeadlineExpired => r.outcome == Outcome::TimedOut && r.kill_child,
        },
{
    match ev {
        RunEvent::SpawnError => RunStep { outcome: Outcome::SpawnFailed, kill_child: false },
        RunEvent::Finished { code, stdout, stderr } => RunStep {
            outcome: Outcome::Completed { code, stdout, stderr },
            kill_child: false,
        },
        RunEvent::DeadlineExpired => RunStep { outcome: Outcome::TimedOut, kill_child: true },
    }
}

/// One program invocation: the program and its arguments, ready for the
/// host to spawn with both output channels piped.
pub struct Invocation {
    pub program: String,
    pub args: Vec<String>,
}

/// The interpreter invocation for a primary-language snippet: the
/// interpreter run directly on the artifact.
pub fn interpreter_invocation(path: &str) -> (c: Invocation)
    ensures
        c.program@ == "python3"@,
        c.args@.len() == 1,
        c.args@[0]@ == path@,
{
    let mut args: Vec<String> = Vec::new();
    args.push(path.to_owned());
    Invocation { program: "python3".to_owned(), args }
}

/// The in-line driver script for a non-primary language: it loads the
/// per-language evaluation module found under `base_dir` and prints the
/// machine-readable result of evaluating the artifact.
pub open spec fn spec_eval_script(base_dir: Seq<char>, lang: Seq<char>, path: Seq<char>) -> Seq<
    char,
> {
    "import sys; sys.path.append('"@ + base_dir + "/MultiPL-E/evaluation/src'); import json; import eval_"@
        + lang + "; print(json.dumps(eval_"@ + lang + ".eval_script('"@ + path + "')))"@
}

/// The invocation for a non-primary-language snippet: the interpreter run
/// on the driver script for `lang` and the artifact at `path`.
pub fn eval_invocation(base_dir: &str, lang: &str, path: &str) -> (c: Invocation)
    ensures
        c.program@ == "python3"@,
        c.args@.len() == 2,
        c.args@[0]@ == "-c"@,
        c.args@[1]@ == spec_eval_script(base_dir@, lang@, path@),
{
    let mut script = "import sys; sys.path.append('".to_owned();
    script.append(base_dir);
    script.append("/MultiPL-E/evaluation/src'); import json; import eval_");
    script.append(lang);
    script.append("; print(json.dumps(eval_");
    script.append(lang);
    script.append(".eval_script('");
    script.append(path);
    script.append("')))");
    let mut args: Vec<String> = Vec::new();
    args.push("-c".to_owned());
    args.push(script);
    Invocation { program: "python3".to_owned(), args }
}

/// Phase 1 of the coverage pipeline: run the snippet under the coverage
/// driver, directing collected data into the derived artifact.
pub fn coverage_run_invocation(cov_path: &str, path: &str) -> (c: Invocation)
    ensures
        c.program@ == "coverage"@,
        c.args@.len() == 4,
        c.args@[0]@ == "run"@,
        c.args@[1]@ == "--data-file"@,
        c.args@[2]@ == cov_path@,
        c.args@[3]@ == path@,
{
    let mut args: Vec<String> = Vec::new();
    args.push("run".to_owned());
    args.push("--data-file".to_owned());
    args.push(cov_path.to_owned());
    args.push(path.to_owned());
    Invocation { program: "coverage".to_owned(), args }
}

/// Phase 2 of the coverage pipeline: generate the textual report from the
/// derived artifact.
pub fn coverage_report_invocation(cov_path: &str) -> (c: Invocation)
    ensures
        c.program@ == "coverage"@,
        c.args@.len() == 3,
        c.args@[0]@ == "report"@,
        c.args@[1]@ == "--data-file"@,
        c.args@[2]@ == cov_path@,
{
    let mut args: Vec<String> = Vec::new();
    args.push("report".to_owned());
    args.push("--data-file".to_owned());
    args.push(cov_path.to_owned());
    Invocation { program: "coverage".to_owned(), args }
}

} // verus!
