//! The terminal state of one subprocess execution, as the rest of the
//! library speaks of it. The runner's wait loop produces one of these per
//! request; the codec turns it into the wire text.

use vstd::prelude::*;

verus! {

/// What one execution ended as. Exactly one of these is produced per
/// request, and it never changes afterwards.
pub enum Outcome {
    /// The process terminated on its own within the deadline. `code` is its
    /// exit code, `None` when the exit status carried no code (for example
    /// when the process was ended by a signal). Both output channels were
    /// captured in full.
    Completed { code: Option<i32>, stdout: String, stderr: String },
    /// The wall-clock deadline elapsed before the process terminated.
    TimedOut,
    /// The process could not be spawned at all.
    SpawnFailed,
}

/// A completed execution whose exit code was zero.
pub open spec fn is_success(o: Outcome) -> bool {
    match o {
        Outcome::Completed { code, .. } => code == Some(0i32),
        _ => false,
    }
}

/// The captured standard output of a completed execution; empty otherwise.
pub open spec fn spec_stdout(o: Outcome) -> Seq<char> {
    match o {
        Outcome::Completed { stdout, .. } => stdout@,
        _ => Seq::empty(),
    }
}

impl Outcome {
    /// Whether this outcome is a completed execution with exit code zero.
    pub fn success(&self) -> (r: bool)
        ensures
            r == is_success(*self),
    {
        match self {
            Outcome::Completed { code: Some(c), .. } => *c == 0,
            _ => false,
        }
    }
}

} // verus!
