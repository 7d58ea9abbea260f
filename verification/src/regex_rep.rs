use vstd::prelude::*;

verus! {

/// How many times a step's value must match consecutively.
#[derive(Debug, PartialEq, Eq, Clone, Copy)]
pub enum RegexRep {
    /// Exactly this many occurrences.
    Exact(usize),
    /// At least `min` (default 0) and at most `max` (default unbounded)
    /// occurrences, consumed greedily subject to the rest of the pattern.
    Range { min: Option<usize>, max: Option<usize> },
    /// Exactly one occurrence that must not satisfy the paired value;
    /// this realizes `[^...]`.
    Negated,
}

/// A repetition is well formed when an explicit range has `min <= max`.
/// Violated ranges are a compile error, never a runtime state.
pub open spec fn rep_wf(rep: RegexRep) -> bool {
    match rep {
        RegexRep::Range { min: Some(lo), max: Some(hi) } => lo <= hi,
        _ => true,
    }
}

} // verus!
