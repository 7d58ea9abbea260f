use vstd::prelude::*;

use crate::errors::CompileError;
use crate::metachars::RegexClass;
use crate::metachars::handle_metachar;
use crate::metachars::metachar_class;
use crate::regex_rep::RegexRep;
use crate::regex_step::RegexStep;
use crate::regex_step::StepModel;
use crate::regex_val::RegexValue;
use crate::regex_val::ValueModel;

verus! {

/// The scan of a bracket expression: consumes pattern characters from `i`
/// until the closing `]` (or the end of the pattern), collecting the body in
/// `n`. A leading `^` anywhere in the run sets the negation flag and is not
/// collected; a nested `[` ... `]` pair (as in `[[:alpha:]]`) is unwrapped.
/// An empty body is an error: `EmptyBracket` plain, `InvalidCaretUsage` when
/// only the caret was given. On success the result carries the body, the
/// flag, and the index of the first pattern character after the expression.
pub open spec fn bracket_scan(
    p: Seq<char>,
    i: int,
    n: Seq<char>,
    flag: bool,
    inside: bool,
) -> Result<(Seq<char>, bool, int), CompileError>
    decreases p.len() - i,
{
    if i < 0 || i >= p.len() {
        if n.len() == 0 {
            Err(if flag {
                CompileError::InvalidCaretUsage
            } else {
                CompileError::EmptyBracket
            })
        } else {
            Ok((n, flag, p.len() as int))
        }
    } else if p[i] == '[' {
        bracket_scan(p, i + 1, n, flag, true)
    } else if p[i] == ']' {
        if inside {
            if n.len() == 0 {
                Err(if flag {
                    CompileError::InvalidCaretUsage
                } else {
                    CompileError::EmptyBracket
                })
            } else {
                bracket_scan(p, i + 1, n, flag, false)
            }
        } else {
            if n.len() == 0 {
                Err(if flag {
                    CompileError::InvalidCaretUsage
                } else {
                    CompileError::EmptyBracket
                })
            } else {
                Ok((n, flag, i + 1))
            }
        }
    } else if p[i] == '^' {
        bracket_scan(p, i + 1, n, true, inside)
    } else {
        bracket_scan(p, i + 1, n.push(p[i]), flag, inside)
    }
}

/// A successful bracket scan yields a non-empty body and lands within the
/// pattern, past at least one consumed character.
pub proof fn lemma_bracket_scan_advances(
    p: Seq<char>,
    i: int,
    n: Seq<char>,
    flag: bool,
    inside: bool,
)
    requires
        0 <= i <= p.len(),
    ensures
        bracket_scan(p, i, n, flag, inside) matches Ok(t) ==> ({
            &&& t.0.len() > 0
            &&& i <= t.2 <= p.len()
            &&& (i < p.len() ==> i < t.2)
        }),
    decreases p.len() - i,
{
    if 0 <= i < p.len() {
        if p[i] == '[' {
            lemma_bracket_scan_advances(p, i + 1, n, flag, true);
        } else if p[i] == ']' {
            if inside && n.len() > 0 {
                lemma_bracket_scan_advances(p, i + 1, n, flag, false);
            }
        } else if p[i] == '^' {
            lemma_bracket_scan_advances(p, i + 1, n, true, inside);
        } else {
            lemma_bracket_scan_advances(p, i + 1, n.push(p[i]), flag, inside);
        }
    }
}

/// The value denoted by a bracket body: the literal run `aeiou` is kept as an
/// explicit vowel set (a special case of its own); `0-9`, `a-z` and `A-Z`
/// become the corresponding named classes; a `:name:` token is looked up in
/// the class table; any other run is the explicit set of its characters.
pub open spec fn bracket_value(n: Seq<char>) -> Result<ValueModel, CompileError> {
    if n == seq!['a', 'e', 'i', 'o', 'u'] {
        Ok(ValueModel::OneOf(n))
    } else if n == seq!['0', '-', '9'] {
        Ok(ValueModel::Class(RegexClass::Digit))
    } else if n == seq!['a', '-', 'z'] {
        Ok(ValueModel::Class(RegexClass::Lower))
    } else if n == seq!['A', '-', 'Z'] {
        Ok(ValueModel::Class(RegexClass::Upper))
    } else if n.len() > 0 && n[0] == ':' {
        match metachar_class(n) {
            Some(class) => Ok(ValueModel::Class(class)),
            None => Err(CompileError::InvalidMetachar),
        }
    } else {
        Ok(ValueModel::OneOf(n))
    }
}

/// The step denoted by a whole bracket expression starting at `i` (just past
/// the opening `[` seen by the compiler): the parsed value, negated when the
/// caret was present, matched exactly once otherwise; and the index after the
/// closing `]`.
pub open spec fn bracket_parse(p: Seq<char>, i: int) -> Result<(StepModel, int), CompileError> {
    match bracket_scan(p, i, Seq::empty(), false, false) {
        Ok((n, flag, ni)) => match bracket_value(n) {
            Ok(v) => Ok(
                (StepModel {
                    val: v,
                    rep: if flag {
                        RegexRep::Negated
                    } else {
                        RegexRep::Exact(1usize)
                    },
                }, ni),
            ),
            Err(e) => Err(e),
        },
        Err(e) => Err(e),
    }
}

/// Runs the bracket scan over the pattern, advancing the index and filling
/// the body, the negation flag and the nesting flag in place.
#[verifier::loop_isolation(false)]
pub fn process_inside_brackets(
    chars: &Vec<char>,
    i: &mut usize,
    n: &mut Vec<char>,
    flag: &mut bool,
    inside: &mut bool,
) -> (r: Result<(), CompileError>)
    requires
        *old(i) <= chars@.len(),
    ensures
        match bracket_scan(chars@, *old(i) as int, old(n)@, *old(flag), *old(inside)) {
            Ok(t) => r is Ok && final(n)@ == t.0 && *final(flag) == t.1 && *final(i) as int
                == t.2,
            Err(e) => r matches Err(e2) && e2 == e,
        },
{
    let ghost p = chars@;
    let ghost i0 = *old(i) as int;
    let len = chars.len();
    while *i < len
        invariant
            *i <= len,
            bracket_scan(p, i0, old(n)@, *old(flag), *old(inside)) == bracket_scan(
                p,
                *i as int,
                n@,
                *flag,
                *inside,
            ),
        decreases len - *i,
    {
        let c = chars[*i];
        *i += 1;
        if c == '[' {
            *inside = true;
        } else if c == ']' {
            if *inside {
                *inside = false;
                if n.len() == 0 {
                    if *flag {
                        return Err(CompileError::InvalidCaretUsage);
                    } else {
                        return Err(CompileError::EmptyBracket);
                    }
                }
            } else {
                if n.len() == 0 {
                    if *flag {
                        return Err(CompileError::InvalidCaretUsage);
                    } else {
                        return Err(CompileError::EmptyBracket);
                    }
                }
                return Ok(());
            }
        } else if c == '^' {
            *flag = true;
        } else {
            n.push(c);
        }
    }
    if n.len() == 0 {
        if *flag {
            return Err(CompileError::InvalidCaretUsage);
        } else {
            return Err(CompileError::EmptyBracket);
        }
    }
    Ok(())
}

/// Copies a character list into an owned vector.
fn copy_chars(n: &Vec<char>) -> (v: Vec<char>)
    ensures
        v@ == n@,
{
    let mut v: Vec<char> = Vec::new();
    let len = n.len();
    let mut j: usize = 0;
    while j < len
        invariant
            j <= len,
            len == n@.len(),
            v@ == n@.take(j as int),
        decreases len - j,
    {
        v.push(n[j]);
        proof {
            assert(v@ =~= n@.take(j as int + 1));
        }
        j += 1;
    }
    proof {
        assert(v@ =~= n@);
    }
    v
}

/// Interprets a bracket body as a match value.
fn handle_content(n: &Vec<char>) -> (r: Result<RegexValue, CompileError>)
    ensures
        match bracket_value(n@) {
            Ok(vm) => r matches Ok(v) && v@ == vm,
            Err(e) => r matches Err(e2) && e2 == e,
        },
{
    if n.len() == 5 && n[0] == 'a' && n[1] == 'e' && n[2] == 'i' && n[3] == 'o' && n[4] == 'u' {
        proof {
            assert(n@ =~= seq!['a', 'e', 'i', 'o', 'u']);
        }
        Ok(RegexValue::OneOf(copy_chars(n)))
    } else if n.len() == 3 && n[0] == '0' && n[1] == '-' && n[2] == '9' {
        proof {
            assert(n@ =~= seq!['0', '-', '9']);
        }
        Ok(RegexValue::Class(RegexClass::Digit))
    } else if n.len() == 3 && n[0] == 'a' && n[1] == '-' && n[2] == 'z' {
        proof {
            assert(n@ =~= seq!['a', '-', 'z']);
        }
        Ok(RegexValue::Class(RegexClass::Lower))
    } else if n.len() == 3 && n[0] == 'A' && n[1] == '-' && n[2] == 'Z' {
        proof {
            assert(n@ =~= seq!['A', '-', 'Z']);
        }
        Ok(RegexValue::Class(RegexClass::Upper))
    } else if n.len() > 0 && n[0] == ':' {
        match handle_metachar(n) {
            Ok(class) => Ok(RegexValue::Class(class)),
            Err(e) => Err(e),
        }
    } else {
        Ok(RegexValue::OneOf(copy_chars(n)))
    }
}

/// Builds the negated step for a bracket body preceded by `^`.
fn handle_not(n: &Vec<char>) -> (r: Result<Option<RegexStep>, CompileError>)
    ensures
        match bracket_value(n@) {
            Ok(vm) => r matches Ok(step) && step matches Some(st) && st@ == (StepModel {
                val: vm,
                rep: RegexRep::Negated,
            }),
            Err(e) => r matches Err(e2) && e2 == e,
        },
{
    match handle_content(n) {
        Ok(value) => Ok(Some(RegexStep { rep: RegexRep::Negated, val: value })),
        Err(e) => Err(e),
    }
}

/// Builds the single-occurrence step for a plain bracket body.
fn handle_optional(n: &Vec<char>) -> (r: Result<Option<RegexStep>, CompileError>)
    ensures
        match bracket_value(n@) {
            Ok(vm) => r matches Ok(step) && step matches Some(st) && st@ == (StepModel {
                val: vm,
                rep: RegexRep::Exact(1usize),
            }),
            Err(e) => r matches Err(e2) && e2 == e,
        },
{
    match handle_content(n) {
        Ok(value) => Ok(Some(RegexStep { rep: RegexRep::Exact(1), val: value })),
        Err(e) => Err(e),
    }
}

/// Parses a bracket expression beginning at `i` into a single step, advancing
/// the index past the closing `]`.
pub fn handle_brackets(chars: &Vec<char>, i: &mut usize) -> (r: Result<
    Option<RegexStep>,
    CompileError,
>)
    requires
        *old(i) <= chars@.len(),
    ensures
        match bracket_parse(chars@, *old(i) as int) {
            Ok(t) => (r matches Ok(step) && step matches Some(st) && st@ == t.0) && *final(i)
                as int == t.1,
            Err(e) => r matches Err(e2) && e2 == e,
        },
        r is Ok ==> *old(i) < *final(i) <= chars@.len(),
{
    let ghost i0 = *i as int;
    let mut n: Vec<char> = Vec::new();
    let mut flag = false;
    let mut inside = false;
    proof {
        lemma_bracket_scan_advances(chars@, i0, Seq::empty(), false, false);
    }
    match process_inside_brackets(chars, i, &mut n, &mut flag, &mut inside) {
        Ok(()) => {},
        Err(e) => {
            return Err(e);
        },
    }
    if flag {
        handle_not(&n)
    } else {
        handle_optional(&n)
    }
}

} // verus!
