use vstd::prelude::*;
use vstd::utf8::is_ascii_chars;

use crate::brackets::bracket_parse;
use crate::brackets::handle_brackets;
use crate::brackets::lemma_bracket_scan_advances;
use crate::errors::CompileError;
use crate::exactrep::handle_escape_sequence;
use crate::exactrep::handle_wildcard;
use crate::range::brace_next;
use crate::range::brace_rep;
use crate::range::handle_any;
use crate::range::handle_exact_plus;
use crate::range::handle_range;
use crate::range::handle_zero_or_one;
use crate::range::lemma_scan_to_bounds;
use crate::regex_rep::RegexRep;
use crate::regex_step::RegexStep;
use crate::regex_step::StepModel;
use crate::regex_step::set_last_rep;
use crate::regex_step::steps_model;
use crate::regex_val::RegexValue;
use crate::regex_val::ValueModel;
use crate::semantics::RegexModel;
use crate::text::chars_of;
use crate::type_of_line::RegexRestriction;
use crate::type_of_line::anchors_view;
use crate::type_of_line::handle_end_of_line;
use crate::type_of_line::handle_start_of_line;

verus! {

/// A compiled pattern: an ordered sequence of steps plus the optional anchor
/// list. Once compilation returns `Ok` the pattern is never mutated.
#[derive(Debug, PartialEq)]
pub struct Regex {
    /// The ordered match steps.
    pub steps: Vec<RegexStep>,
    /// The line anchors collected from `^` and `$`, or `None` when the
    /// pattern had none.
    pub backtracking: Option<Vec<RegexRestriction>>,
}

impl View for Regex {
    type V = RegexModel;

    open spec fn view(&self) -> RegexModel {
        RegexModel {
            steps: steps_model(self.steps@),
            backtracking: anchors_view(self.backtracking),
        }
    }
}

/// A pattern character that stands for itself: a letter, a digit or a space.
pub open spec fn is_plain_char(c: char) -> bool {
    let v = c as u32;
    (97 <= v && v <= 122) || (65 <= v && v <= 90) || (48 <= v && v <= 57) || v == 32
}

/// The step compiled for a literal pattern character.
pub open spec fn literal_step(c: char) -> StepModel {
    StepModel { val: ValueModel::Literal(c), rep: RegexRep::Exact(1usize) }
}

/// The step compiled for the wildcard `.`.
pub open spec fn wildcard_step() -> StepModel {
    StepModel { val: ValueModel::Wildcard, rep: RegexRep::Exact(1usize) }
}

/// One left-to-right pass of the pattern compiler from position `i`, with the
/// steps and anchors accumulated so far. Each pattern character either pushes
/// a step, rewrites the repetition of the last step (the postfix
/// quantifiers), records an anchor, or is rejected.
pub open spec fn compile_scan(
    p: Seq<char>,
    i: int,
    steps: Seq<StepModel>,
    anchors: Seq<RegexRestriction>,
) -> Result<(Seq<StepModel>, Seq<RegexRestriction>), CompileError>
    decreases p.len() - i,
    via compile_scan_decreases
{
    if i < 0 || i >= p.len() {
        Ok((steps, anchors))
    } else {
        let c = p[i];
        if c == '.' {
            compile_scan(p, i + 1, steps.push(wildcard_step()), anchors)
        } else if is_plain_char(c) {
            compile_scan(p, i + 1, steps.push(literal_step(c)), anchors)
        } else if c == '?' {
            if steps.len() == 0 {
                Err(CompileError::UnexpectedQuantifier('?'))
            } else {
                compile_scan(
                    p,
                    i + 1,
                    set_last_rep(steps, RegexRep::Range { min: None, max: Some(1usize) }),
                    anchors,
                )
            }
        } else if c == '*' {
            if steps.len() == 0 {
                Err(CompileError::UnexpectedQuantifier('*'))
            } else {
                compile_scan(
                    p,
                    i + 1,
                    set_last_rep(steps, RegexRep::Range { min: None, max: None }),
                    anchors,
                )
            }
        } else if c == '+' {
            if steps.len() == 0 {
                Err(CompileError::UnexpectedQuantifier('+'))
            } else {
                compile_scan(
                    p,
                    i + 1,
                    set_last_rep(steps, RegexRep::Range { min: Some(1usize), max: None }),
                    anchors,
                )
            }
        } else if c == '{' {
            if steps.len() == 0 {
                Err(CompileError::UnexpectedQuantifier('{'))
            } else {
                match brace_rep(p, i + 1) {
                    Ok(rep) => compile_scan(p, brace_next(p, i + 1), set_last_rep(steps, rep),
                        anchors),
                    Err(e) => Err(e),
                }
            }
        } else if c == '[' {
            match bracket_parse(p, i + 1) {
                Ok(t) => compile_scan(p, t.1, steps.push(t.0), anchors),
                Err(e) => Err(e),
            }
        } else if c == '^' {
            compile_scan(p, i + 1, steps, anchors.push(RegexRestriction::StartOfLine))
        } else if c == '$' {
            compile_scan(p, i + 1, steps, anchors.push(RegexRestriction::EndOfLine))
        } else if c == '\\' {
            if i + 1 >= p.len() {
                Err(CompileError::DanglingEscape)
            } else {
                compile_scan(p, i + 2, steps.push(literal_step(p[i + 1])), anchors)
            }
        } else {
            Err(CompileError::InvalidCharacter)
        }
    }
}

#[via_fn]
proof fn compile_scan_decreases(
    p: Seq<char>,
    i: int,
    steps: Seq<StepModel>,
    anchors: Seq<RegexRestriction>,
) {
    if 0 <= i < p.len() {
        lemma_scan_to_bounds(p, i + 1, p.len() as int, '}');
        lemma_bracket_scan_advances(p, i + 1, Seq::empty(), false, false);
    }
}

/// What a whole pattern string compiles to: the step sequence and anchors of
/// one full scan. A non-ASCII pattern is rejected up front; a pattern that
/// yields no steps at all is rejected as empty, so a compiled pattern always
/// holds at least one step.
pub open spec fn compile_spec(p: Seq<char>) -> Result<RegexModel, CompileError> {
    if !is_ascii_chars(p) {
        Err(CompileError::NonAscii)
    } else {
        match compile_scan(p, 0, Seq::empty(), Seq::empty()) {
            Ok(t) => if t.0.len() == 0 {
                Err(CompileError::EmptyExpression)
            } else {
                Ok(
                    RegexModel {
                        steps: t.0,
                        backtracking: if t.1.len() == 0 {
                            None
                        } else {
                            Some(t.1)
                        },
                    },
                )
            },
            Err(e) => Err(e),
        }
    }
}

impl Regex {
    /// Compiles a pattern string, walking it left to right one token at a
    /// time. Compilation is a pure function of the string: the result is
    /// pinned, token by token, by `compile_spec`.
    #[verifier::loop_isolation(false)]
    pub fn new(expression: &str) -> (r: Result<Regex, CompileError>)
        ensures
            match compile_spec(expression@) {
                Ok(m) => r matches Ok(rg) && rg@ == m,
                Err(e) => r matches Err(e2) && e2 == e,
            },
    {
        if !expression.is_ascii() {
            return Err(CompileError::NonAscii);
        }
        let chars = chars_of(expression);
        let ghost p = chars@;
        let mut steps: Vec<RegexStep> = Vec::new();
        let mut backtracking: Option<Vec<RegexRestriction>> = Some(Vec::new());
        let mut i: usize = 0;
        let n = chars.len();
        proof {
            assert(steps_model(steps@) =~= Seq::<StepModel>::empty());
            assert(backtracking matches Some(bv) && bv@ =~= Seq::<RegexRestriction>::empty());
        }
        while i < n
            invariant
                i <= n,
                (backtracking matches Some(bv) && compile_scan(p, 0, Seq::empty(), Seq::empty())
                    == compile_scan(p, i as int, steps_model(steps@), bv@)),
            decreases n - i,
        {
            let c = chars[i];
            let v = c as u32;
            if c == '.' {
                let step = handle_wildcard();
                i += 1;
                match step {
                    Some(st) => {
                        let ghost steps0 = steps@;
                        steps.push(st);
                        proof {
                            assert(steps_model(steps@) =~= steps_model(steps0).push(st@));
                        }
                    },
                    None => {},
                }
            } else if (97 <= v && v <= 122) || (65 <= v && v <= 90) || (48 <= v && v <= 57) || v
                == 32 {
                let st = RegexStep { rep: RegexRep::Exact(1), val: RegexValue::Literal(c) };
                let ghost steps0 = steps@;
                steps.push(st);
                proof {
                    assert(steps_model(steps@) =~= steps_model(steps0).push(st@));
                }
                i += 1;
            } else if c == '?' {
                match handle_zero_or_one(&mut steps) {
                    Ok(_) => {},
                    Err(e) => {
                        return Err(e);
                    },
                }
                i += 1;
            } else if c == '*' {
                match handle_any(&mut steps) {
                    Ok(_) => {},
                    Err(e) => {
                        return Err(e);
                    },
                }
                i += 1;
            } else if c == '+' {
                match handle_exact_plus(&mut steps) {
                    Ok(_) => {},
                    Err(e) => {
                        return Err(e);
                    },
                }
                i += 1;
            } else if c == '{' {
                i += 1;
                let ghost ib = i as int;
                match handle_range(&chars, &mut i, &mut steps) {
                    Ok(_) => {},
                    Err(e) => {
                        return Err(e);
                    },
                }
                proof {
                    lemma_scan_to_bounds(p, ib, n as int, '}');
                }
            } else if c == '[' {
                i += 1;
                match handle_brackets(&chars, &mut i) {
                    Ok(step) => match step {
                        Some(st) => {
                            let ghost steps0 = steps@;
                            steps.push(st);
                            proof {
                                assert(steps_model(steps@) =~= steps_model(steps0).push(st@));
                            }
                        },
                        None => {},
                    },
                    Err(e) => {
                        return Err(e);
                    },
                }
            } else if c == '^' {
                match handle_start_of_line(&mut backtracking) {
                    Ok(_) => {},
                    Err(e) => {
                        return Err(e);
                    },
                }
                i += 1;
            } else if c == '$' {
                match handle_end_of_line(&mut backtracking) {
                    Ok(_) => {},
                    Err(e) => {
                        return Err(e);
                    },
                }
                i += 1;
            } else if c == '\\' {
                i += 1;
                match handle_escape_sequence(&chars, &mut i) {
                    Ok(step) => match step {
                        Some(st) => {
                            let ghost steps0 = steps@;
                            steps.push(st);
                            proof {
                                assert(steps_model(steps@) =~= steps_model(steps0).push(st@));
                            }
                        },
                        None => {},
                    },
                    Err(e) => {
                        return Err(e);
                    },
                }
            } else {
                return Err(CompileError::InvalidCharacter);
            }
        }
        if steps.len() == 0 {
            return Err(CompileError::EmptyExpression);
        }
        let backtracking_final: Option<Vec<RegexRestriction>> = match backtracking {
            Some(bv) => if bv.len() == 0 {
                None
            } else {
                Some(bv)
            },
            None => None,
        };
        Ok(Regex { steps, backtracking: backtracking_final })
    }
}

} // verus!
