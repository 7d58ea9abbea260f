use vstd::prelude::*;

use crate::regex_rep::RegexRep;
use crate::regex_rep::rep_wf;
use crate::regex_val::RegexValue;
use crate::regex_val::ValueModel;

verus! {

/// One unit of a compiled pattern: a value paired with a repetition.
#[derive(Debug, PartialEq)]
pub struct RegexStep {
    /// What the step compares a character against.
    pub val: RegexValue,
    /// How many times the value must match.
    pub rep: RegexRep,
}

/// Mathematical model of a step.
#[verifier::ext_equal]
pub struct StepModel {
    pub val: ValueModel,
    pub rep: RegexRep,
}

impl View for RegexStep {
    type V = StepModel;

    open spec fn view(&self) -> StepModel {
        StepModel { val: self.val@, rep: self.rep }
    }
}

/// A step is well formed when its repetition is.
pub open spec fn step_wf(s: StepModel) -> bool {
    rep_wf(s.rep)
}

/// Every step of the sequence is well formed.
pub open spec fn steps_wf(steps: Seq<StepModel>) -> bool {
    forall|i: int| 0 <= i < steps.len() ==> step_wf(#[trigger] steps[i])
}

/// The model of a whole step sequence.
pub open spec fn steps_model(steps: Seq<RegexStep>) -> Seq<StepModel> {
    steps.map_values(|s: RegexStep| s@)
}

/// The step sequence with the repetition of its last step rewritten in place;
/// this is how the postfix quantifiers act on the step most recently pushed.
pub open spec fn set_last_rep(ss: Seq<StepModel>, rep: RegexRep) -> Seq<StepModel> {
    ss.update(ss.len() - 1, StepModel { val: ss.last().val, rep })
}

/// Pushing a well-formed step keeps the sequence well formed.
pub proof fn lemma_steps_wf_push(steps: Seq<StepModel>, st: StepModel)
    requires
        steps_wf(steps),
        step_wf(st),
    ensures
        steps_wf(steps.push(st)),
{
    assert forall|i: int| 0 <= i < steps.push(st).len() implies step_wf(
        #[trigger] steps.push(st)[i],
    ) by {
        if i < steps.len() {
            assert(steps.push(st)[i] == steps[i]);
        } else {
            assert(steps.push(st)[i] == st);
        }
    }
}

/// Rewriting the last repetition with a well-formed one keeps the sequence
/// well formed.
pub proof fn lemma_steps_wf_set_last(steps: Seq<StepModel>, rep: RegexRep)
    requires
        steps_wf(steps),
        steps.len() > 0,
        rep_wf(rep),
    ensures
        steps_wf(set_last_rep(steps, rep)),
{
    let out = set_last_rep(steps, rep);
    assert forall|i: int| 0 <= i < out.len() implies step_wf(#[trigger] out[i]) by {
        if i < steps.len() - 1 {
            assert(out[i] == steps[i]);
        }
    }
}

} // verus!
