//! The report that collects violations and groups them by kind.
use vstd::prelude::*;

use crate::validation_kind::{ValidationKind, KIND_COUNT};

verus! {

/// Violations in the order they were found.
///
/// Reports are rendered one group per kind, the groups in the alphabetical
/// order of the kinds' names; see `groups`.
#[derive(Debug)]
pub struct ValidationReport {
    violations: Vec<ValidationKind>,
}

impl View for ValidationReport {
    type V = Seq<ValidationKind>;

    closed spec fn view(&self) -> Seq<ValidationKind> {
        self.violations@
    }
}

/// Indices, below `n` and in increasing order, of the violations of `s`
/// whose kind has rank `rank`.
pub open spec fn group_of(s: Seq<ValidationKind>, rank: nat, n: nat) -> Seq<usize>
    decreases n,
{
    if n == 0 {
        Seq::empty()
    } else if s[n - 1].spec_rank() == rank {
        group_of(s, rank, (n - 1) as nat).push((n - 1) as usize)
    } else {
        group_of(s, rank, (n - 1) as nat)
    }
}

/// The non-empty groups of `s` among the ranks below `k`, by rank.
pub open spec fn groups_below(s: Seq<ValidationKind>, k: nat) -> Seq<Seq<usize>>
    decreases k,
{
    if k == 0 {
        Seq::empty()
    } else if group_of(s, (k - 1) as nat, s.len()).len() > 0 {
        groups_below(s, (k - 1) as nat).push(group_of(s, (k - 1) as nat, s.len()))
    } else {
        groups_below(s, (k - 1) as nat)
    }
}

impl ValidationReport {
    /// An empty report.
    pub fn new() -> (r: Self)
        ensures
            r@ == Seq::<ValidationKind>::empty(),
    {
        ValidationReport { violations: Vec::new() }
    }

    /// Adds a violation at the end of the report.
    pub fn add_violation(&mut self, validation: ValidationKind)
        ensures
            final(self)@ == old(self)@.push(validation),
    {
        self.violations.push(validation);
    }

    /// Adds violations at the end of the report, in their order.
    pub fn add_violations(&mut self, validations: Vec<ValidationKind>)
        ensures
            final(self)@ == old(self)@ + validations@,
    {
        let mut more = validations;
        self.violations.append(&mut more);
    }

    /// Moves all violations of `validation_report` to the end of this one.
    pub fn append_report(&mut self, validation_report: ValidationReport)
        ensures
            final(self)@ == old(self)@ + validation_report@,
    {
        let mut other = validation_report.violations;
        self.violations.append(&mut other);
    }

    /// Total number of violations.
    pub fn violation_count(&self) -> (r: usize)
        ensures
            r == self@.len(),
    {
        self.violations.len()
    }

    /// The violation at position `i`.
    pub fn violation(&self, i: usize) -> (r: &ValidationKind)
        requires
            i < self@.len(),
        ensures
            *r == self@[i as int],
    {
        &self.violations[i]
    }

    /// The violations grouped by kind: one list of indices for each kind
    /// that occurs, the lists in the alphabetical order of the kinds' names
    /// and each list in the order the violations were found.
    pub fn groups(&self) -> (r: Vec<Vec<usize>>)
        ensures
            r@.len() == groups_below(self@, KIND_COUNT as nat).len(),
            forall|g: int|
                0 <= g < r@.len() ==> (#[trigger] r@[g])@ == groups_below(self@, KIND_COUNT as nat)[g],
    {
        let mut out: Vec<Vec<usize>> = Vec::new();
        let mut rank: usize = 0;
        while rank < KIND_COUNT
            invariant
                rank <= KIND_COUNT,
                out@.len() == groups_below(self@, rank as nat).len(),
                forall|g: int|
                    0 <= g < out@.len() ==> (#[trigger] out@[g])@ == groups_below(self@, rank as nat)[g],
            decreases KIND_COUNT - rank,
        {
            let mut group: Vec<usize> = Vec::new();
            let mut i: usize = 0;
            while i < self.violations.len()
                invariant
                    i <= self@.len(),
                    group@ == group_of(self@, rank as nat, i as nat),
                decreases self@.len() - i,
            {
                if self.violations[i].rank() == rank {
                    group.push(i);
                }
                i = i + 1;
            }
            if group.len() > 0 {
                out.push(group);
            }
            rank = rank + 1;
        }
        out
    }
}

impl Default for ValidationReport {
    fn default() -> (r: Self)
        ensures
            r@ == Seq::<ValidationKind>::empty(),
    {
        ValidationReport::new()
    }
}

} // verus!
