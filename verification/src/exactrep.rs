use vstd::prelude::*;

use crate::errors::CompileError;
use crate::regex_rep::RegexRep;
use crate::regex_step::RegexStep;
use crate::regex_step::StepModel;
use crate::regex_val::RegexValue;
use crate::regex_val::ValueModel;

verus! {

/// The step produced for `.`: any single character, exactly once.
pub fn handle_wildcard() -> (r: Option<RegexStep>)
    ensures
        r matches Some(st) && st@ == (StepModel {
            val: ValueModel::Wildcard,
            rep: RegexRep::Exact(1usize),
        }),
{
    Some(RegexStep { rep: RegexRep::Exact(1), val: RegexValue::Wildcard })
}

/// Handles `\`: consumes exactly one following character of the pattern and
/// emits it as a literal step; a `\` at the end of the pattern is an error.
pub fn handle_escape_sequence(chars: &Vec<char>, i: &mut usize) -> (r: Result<
    Option<RegexStep>,
    CompileError,
>)
    requires
        *old(i) <= chars@.len(),
    ensures
        *old(i) == chars@.len() ==> (r matches Err(e) && e == CompileError::DanglingEscape)
            && *final(i) == *old(i),
        *old(i) < chars@.len() ==> (r matches Ok(step) && step matches Some(st) && st@ == (
        StepModel {
            val: ValueModel::Literal(chars@[*old(i) as int]),
            rep: RegexRep::Exact(1usize),
        })) && *final(i) == *old(i) + 1,
{
    if *i == chars.len() {
        return Err(CompileError::DanglingEscape);
    }
    let c = chars[*i];
    *i += 1;
    Ok(Some(RegexStep { rep: RegexRep::Exact(1), val: RegexValue::Literal(c) }))
}

} // verus!
