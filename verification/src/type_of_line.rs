use vstd::prelude::*;

use crate::errors::CompileError;
use crate::regex_step::RegexStep;

verus! {

/// A constraint that the match must begin at, or end at, the line boundary.
#[derive(Debug, PartialEq, Eq, Clone, Copy)]
pub enum RegexRestriction {
    /// The match must begin at the start of the line (`^`).
    StartOfLine,
    /// The match must end at the end of the line (`$`).
    EndOfLine,
}

/// The model of the optional anchor list carried by a compiled pattern.
pub open spec fn anchors_view(backtracking: Option<Vec<RegexRestriction>>) -> Option<
    Seq<RegexRestriction>,
> {
    match backtracking {
        Some(v) => Some(v@),
        None => None,
    }
}

/// Records a `^` anchor. The `^` metacharacter produces no step; it appends
/// `StartOfLine` to the pattern's anchor list.
pub fn handle_start_of_line(backtracking: &mut Option<Vec<RegexRestriction>>) -> (r: Result<
    Option<RegexStep>,
    CompileError,
>)
    ensures
        r matches Ok(step) && step is None,
        (*old(backtracking)) is Some ==> ((*final(backtracking)) matches Some(v) && v@
            == (*old(backtracking))->Some_0@.push(RegexRestriction::StartOfLine)),
        (*old(backtracking)) is None ==> (*final(backtracking)) is None,
{
    let taken = backtracking.take();
    match taken {
        Some(mut v) => {
            v.push(RegexRestriction::StartOfLine);
            *backtracking = Some(v);
        },
        None => {
            *backtracking = None;
        },
    }
    Ok(None)
}

/// Records a `$` anchor. The `$` metacharacter produces no step; it appends
/// `EndOfLine` to the pattern's anchor list.
pub fn handle_end_of_line(backtracking: &mut Option<Vec<RegexRestriction>>) -> (r: Result<
    Option<RegexStep>,
    CompileError,
>)
    ensures
        r matches Ok(step) && step is None,
        (*old(backtracking)) is Some ==> ((*final(backtracking)) matches Some(v) && v@
            == (*old(backtracking))->Some_0@.push(RegexRestriction::EndOfLine)),
        (*old(backtracking)) is None ==> (*final(backtracking)) is None,
{
    let taken = backtracking.take();
    match taken {
        Some(mut v) => {
            v.push(RegexRestriction::EndOfLine);
            *backtracking = Some(v);
        },
        None => {
            *backtracking = None;
        },
    }
    Ok(None)
}

} // verus!
