//! The admission gate: a bounded counting limiter on concurrent
//! subprocess executions.

use vstd::prelude::*;

verus! {

/// A counting gate with a fixed number of slots, set once at construction.
/// At most that many permits are ever outstanding at the same time.
pub struct AdmissionGate {
    limit: usize,
    outstanding: usize,
}

impl AdmissionGate {
    /// The fixed number of concurrency slots.
    pub closed spec fn limit(&self) -> nat {
        self.limit as nat
    }

    /// How many permits are currently held.
    pub closed spec fn outstanding(&self) -> nat {
        self.outstanding as nat
    }

    /// The counting invariant: never more permits out than slots.
    pub open spec fn wf(&self) -> bool {
        self.outstanding() <= self.limit()
    }

    /// A fresh gate with `limit` slots, none taken.
    pub fn new(limit: usize) -> (g: AdmissionGate)
        ensures
            g.limit() == limit,
            g.outstanding() == 0,
            g.wf(),
    {
        AdmissionGate { limit, outstanding: 0 }
    }

    /// Takes one permit when a slot is free; refuses, and changes nothing,
    /// when every slot is taken.
    pub fn try_acquire(&mut self) -> (admitted: bool)
        ensures
            final(self).limit() == old(self).limit(),
            admitted == (old(self).outstanding() < old(self).limit()),
            admitted ==> final(self).outstanding() == old(self).outstanding() + 1,
            !admitted ==> final(self).outstanding() == old(self).outstanding(),
            old(self).wf() ==> final(self).wf(),
    {
        if self.outstanding < self.limit {
            self.outstanding = self.outstanding + 1;
            true
        } else {
            false
        }
    }

    /// Returns one permit to the pool. Refuses when none is outstanding: a
    /// permit is never released twice.
    pub fn release(&mut self) -> (released: bool)
        ensures
            final(self).limit() == old(self).limit(),
            released == (old(self).outstanding() > 0),
            released ==> final(self).outstanding() == old(self).outstanding() - 1,
            !released ==> final(self).outstanding() == old(self).outstanding(),
            old(self).wf() ==> final(self).wf(),
    {
        if self.outstanding > 0 {
            self.outstanding = self.outstanding - 1;
            true
        } else {
            false
        }
    }
}

/// `n` acquisitions in a row, starting with `outstanding` of `limit`
/// permits taken, are all admitted.
pub open spec fn admits_all(limit: nat, outstanding: nat, n: nat) -> bool
    decreases n,
{
    n == 0 || (outstanding < limit && admits_all(limit, outstanding + 1, (n - 1) as nat))
}

/// Law: submitting `n` executions concurrently, with `outstanding + n`
/// within the limit, admits all `n`; and a gate at its limit admits
/// nothing further until a permit is released.
pub proof fn lemma_gate_admits_within_limit(limit: nat, outstanding: nat, n: nat)
    requires
        outstanding + n <= limit,
    ensures
        admits_all(limit, outstanding, n),
        !admits_all(limit, limit, 1),
    decreases n,
{
    if n > 0 {
        lemma_gate_admits_within_limit(limit, outstanding + 1, (n - 1) as nat);
    }
}

} // verus!
