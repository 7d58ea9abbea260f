use vstd::prelude::*;

use crate::errors::CompileError;
use crate::regex_rep::RegexRep;
use crate::regex_step::RegexStep;
use crate::regex_step::StepModel;
use crate::regex_step::set_last_rep;
use crate::regex_step::steps_model;
use crate::regex_rep::rep_wf;

verus! {

/// The first index in `[i, end)` holding `t`, or `end` when there is none.
pub open spec fn scan_to(p: Seq<char>, i: int, end: int, t: char) -> int
    decreases end - i,
{
    if i < 0 || i >= end {
        end
    } else if p[i] == t {
        i
    } else {
        scan_to(p, i + 1, end, t)
    }
}

/// The scan stays within its bounds.
pub proof fn lemma_scan_to_bounds(p: Seq<char>, i: int, end: int, t: char)
    requires
        i <= end,
    ensures
        i <= scan_to(p, i, end, t) <= end,
    decreases end - i,
{
    if 0 <= i < end && p[i] != t {
        lemma_scan_to_bounds(p, i + 1, end, t);
    }
}

/// Every character of `s` is an ASCII digit.
pub open spec fn is_digit_seq(s: Seq<char>) -> bool {
    forall|j: int| 0 <= j < s.len() ==> 48 <= (#[trigger] s[j]) as u32 <= 57
}

/// The decimal value denoted by a digit sequence.
pub open spec fn dec_val(s: Seq<char>) -> int
    decreases s.len(),
{
    if s.len() == 0 {
        0
    } else {
        dec_val(s.drop_last()) * 10 + (s.last() as u32 - 48)
    }
}

/// A repetition bound is valid when it is a non-empty run of digits whose
/// value fits the machine's count type.
pub open spec fn valid_count(s: Seq<char>) -> bool {
    s.len() > 0 && is_digit_seq(s) && dec_val(s) <= usize::MAX
}

/// The value of a digit sequence is never negative.
pub proof fn lemma_dec_val_nonneg(s: Seq<char>)
    requires
        is_digit_seq(s),
    ensures
        dec_val(s) >= 0,
    decreases s.len(),
{
    if s.len() > 0 {
        assert(is_digit_seq(s.drop_last()));
        lemma_dec_val_nonneg(s.drop_last());
    }
}

/// Extending a digit sequence never shrinks its value.
pub proof fn lemma_dec_val_take_le(s: Seq<char>, m: int)
    requires
        is_digit_seq(s),
        0 <= m <= s.len(),
    ensures
        dec_val(s.take(m)) <= dec_val(s),
    decreases s.len() - m,
{
    if m == s.len() {
        assert(s.take(m) =~= s);
    } else {
        assert(s.take(m + 1).drop_last() =~= s.take(m));
        assert(s.take(m + 1).last() == s[m]);
        assert(is_digit_seq(s.take(m)));
        lemma_dec_val_nonneg(s.take(m));
        assert(dec_val(s.take(m + 1)) == dec_val(s.take(m)) * 10 + (s[m] as u32 - 48));
        lemma_dec_val_take_le(s, m + 1);
    }
}

/// The repetition denoted by a `{...}` body spanning `[a, b)` of the pattern:
/// `{n}`, `{n,}`, `{,m}` or `{n,m}`, where a bound must be a valid integer and
/// an explicit pair must satisfy `min <= max`; anything else is a syntax error.
pub open spec fn parse_range_body(p: Seq<char>, a: int, b: int) -> Result<RegexRep, CompileError> {
    let k = scan_to(p, a, b, ',');
    if k == b {
        if valid_count(p.subrange(a, b)) {
            Ok(RegexRep::Exact(dec_val(p.subrange(a, b)) as usize))
        } else {
            Err(CompileError::BadRangeSyntax)
        }
    } else if scan_to(p, k + 1, b, ',') != b {
        Err(CompileError::BadRangeSyntax)
    } else {
        let left = p.subrange(a, k);
        let right = p.subrange(k + 1, b);
        if left.len() > 0 && !valid_count(left) {
            Err(CompileError::BadRangeSyntax)
        } else if right.len() > 0 && !valid_count(right) {
            Err(CompileError::BadRangeSyntax)
        } else if left.len() > 0 && right.len() > 0 && dec_val(left) > dec_val(right) {
            Err(CompileError::BadRangeSyntax)
        } else {
            Ok(RegexRep::Range {
                min: if left.len() == 0 {
                    None
                } else {
                    Some(dec_val(left) as usize)
                },
                max: if right.len() == 0 {
                    None
                } else {
                    Some(dec_val(right) as usize)
                },
            })
        }
    }
}

/// A repetition that the body parser accepts is well formed: when both
/// bounds are explicit, the minimum does not exceed the maximum.
pub proof fn lemma_parse_range_body_wf(p: Seq<char>, a: int, b: int)
    ensures
        parse_range_body(p, a, b) matches Ok(rep) ==> rep_wf(rep),
{
    let k = scan_to(p, a, b, ',');
    if k != b && scan_to(p, k + 1, b, ',') == b {
        let left = p.subrange(a, k);
        let right = p.subrange(k + 1, b);
        if left.len() > 0 && valid_count(left) {
            lemma_dec_val_nonneg(left);
        }
        if right.len() > 0 && valid_count(right) {
            lemma_dec_val_nonneg(right);
        }
    }
}

/// The index of the `}` closing a `{...}` body that starts at `i`, or the end
/// of the pattern when the brace is never closed.
pub open spec fn brace_body_end(p: Seq<char>, i: int) -> int {
    scan_to(p, i, p.len() as int, '}')
}

/// The index of the first pattern character after the `{...}` construct.
pub open spec fn brace_next(p: Seq<char>, i: int) -> int {
    let e = brace_body_end(p, i);
    if e >= p.len() {
        p.len() as int
    } else {
        e + 1
    }
}

/// The repetition denoted by the `{...}` construct whose body starts at `i`.
pub open spec fn brace_rep(p: Seq<char>, i: int) -> Result<RegexRep, CompileError> {
    parse_range_body(p, i, brace_body_end(p, i))
}

/// Parses the digits in `[from, to)` as a count; `None` when the run is empty,
/// holds a non-digit, or overflows the count type.
fn parse_usize(chars: &Vec<char>, from: usize, to: usize) -> (r: Option<usize>)
    requires
        from <= to <= chars@.len(),
    ensures
        ({
            let s = chars@.subrange(from as int, to as int);
            if valid_count(s) {
                r matches Some(v) && v as int == dec_val(s)
            } else {
                r is None
            }
        }),
{
    let ghost s = chars@.subrange(from as int, to as int);
    if from == to {
        return None;
    }
    let mut acc: u128 = 0;
    let mut j = from;
    while j < to
        invariant
            from <= j <= to,
            to <= chars@.len(),
            s == chars@.subrange(from as int, to as int),
            is_digit_seq(s.take(j - from)),
            acc as int == dec_val(s.take(j - from)),
            acc <= usize::MAX as u128,
        decreases to - j,
    {
        let c = chars[j];
        let d = c as u32;
        proof {
            assert(s[j - from] == chars@[j as int]);
        }
        if d < 48 || d > 57 {
            proof {
                assert(!is_digit_seq(s));
            }
            return None;
        }
        let next = acc * 10 + (d - 48) as u128;
        proof {
            let m = j - from;
            assert(s.take(m + 1).drop_last() =~= s.take(m));
            assert(s.take(m + 1).last() == s[m]);
            assert(dec_val(s.take(m + 1)) == dec_val(s.take(m)) * 10 + (s[m] as u32 - 48));
            assert(is_digit_seq(s.take(m + 1)));
        }
        if next > usize::MAX as u128 {
            proof {
                if is_digit_seq(s) {
                    lemma_dec_val_take_le(s, j - from + 1);
                }
            }
            return None;
        }
        acc = next;
        j += 1;
    }
    proof {
        assert(s.take(to - from) =~= s);
    }
    Some(acc as usize)
}

/// Rewrites the repetition of the most recently pushed step; fails when there
/// is no step to rewrite.
fn rewrite_last_rep(steps: &mut Vec<RegexStep>, rep: RegexRep) -> (ok: bool)
    ensures
        old(steps)@.len() == 0 ==> !ok && final(steps)@ == old(steps)@,
        old(steps)@.len() > 0 ==> ok && steps_model(final(steps)@) == set_last_rep(
            steps_model(old(steps)@),
            rep,
        ),
{
    match steps.pop() {
        Some(last) => {
            steps.push(RegexStep { val: last.val, rep });
            proof {
                assert(steps_model(steps@) =~= set_last_rep(steps_model(old(steps)@), rep));
            }
            true
        },
        None => false,
    }
}

/// Handles `*`: the last step becomes unbounded-from-zero. Fails when no step
/// precedes the quantifier.
pub fn handle_any(steps: &mut Vec<RegexStep>) -> (r: Result<Option<RegexStep>, CompileError>)
    ensures
        old(steps)@.len() == 0 ==> (r matches Err(e) && e == CompileError::UnexpectedQuantifier(
            '*',
        )) && final(steps)@ == old(steps)@,
        old(steps)@.len() > 0 ==> (r matches Ok(step) && step is None) && steps_model(
            final(steps)@,
        ) == set_last_rep(steps_model(old(steps)@), RegexRep::Range { min: None, max: None }),
{
    if rewrite_last_rep(steps, RegexRep::Range { min: None, max: None }) {
        Ok(None)
    } else {
        Err(CompileError::UnexpectedQuantifier('*'))
    }
}

/// Handles `?`: the last step becomes zero-or-one. Fails when no step
/// precedes the quantifier.
pub fn handle_zero_or_one(steps: &mut Vec<RegexStep>) -> (r: Result<
    Option<RegexStep>,
    CompileError,
>)
    ensures
        old(steps)@.len() == 0 ==> (r matches Err(e) && e == CompileError::UnexpectedQuantifier(
            '?',
        )) && final(steps)@ == old(steps)@,
        old(steps)@.len() > 0 ==> (r matches Ok(step) && step is None) && steps_model(
            final(steps)@,
        ) == set_last_rep(steps_model(old(steps)@), RegexRep::Range { min: None, max: Some(1usize) }),
{
    if rewrite_last_rep(steps, RegexRep::Range { min: None, max: Some(1) }) {
        Ok(None)
    } else {
        Err(CompileError::UnexpectedQuantifier('?'))
    }
}

/// Handles `+`: the last step becomes unbounded-from-one. Fails when no step
/// precedes the quantifier.
pub fn handle_exact_plus(steps: &mut Vec<RegexStep>) -> (r: Result<
    Option<RegexStep>,
    CompileError,
>)
    ensures
        old(steps)@.len() == 0 ==> (r matches Err(e) && e == CompileError::UnexpectedQuantifier(
            '+',
        )) && final(steps)@ == old(steps)@,
        old(steps)@.len() > 0 ==> (r matches Ok(step) && step is None) && steps_model(
            final(steps)@,
        ) == set_last_rep(steps_model(old(steps)@), RegexRep::Range { min: Some(1usize), max: None }),
{
    if rewrite_last_rep(steps, RegexRep::Range { min: Some(1), max: None }) {
        Ok(None)
    } else {
        Err(CompileError::UnexpectedQuantifier('+'))
    }
}

/// Handles `{...}`: consumes the body up to the closing `}` (or the end of the
/// pattern), then rewrites the last step's repetition with the parsed bounds.
/// Requires at least one prior step.
#[verifier::loop_isolation(false)]
pub fn handle_range(chars: &Vec<char>, i: &mut usize, steps: &mut Vec<RegexStep>) -> (r: Result<
    Option<RegexStep>,
    CompileError,
>)
    requires
        *old(i) <= chars@.len(),
    ensures
        *final(i) as int == brace_next(chars@, *old(i) as int),
        old(steps)@.len() == 0 ==> (r matches Err(e) && e == CompileError::UnexpectedQuantifier(
            '{',
        )) && final(steps)@ == old(steps)@,
        old(steps)@.len() > 0 ==> (match brace_rep(chars@, *old(i) as int) {
            Ok(rep) => (r matches Ok(step) && step is None) && steps_model(final(steps)@)
                == set_last_rep(steps_model(old(steps)@), rep),
            Err(e) => (r matches Err(e2) && e2 == e) && final(steps)@ == old(steps)@,
        }),
{
    let ghost i0 = *i as int;
    let ghost p = chars@;
    let n = chars.len();
    let start = *i;
    while *i < n && chars[*i] != '}'
        invariant
            start <= *i <= n,
            scan_to(p, i0, n as int, '}') == scan_to(p, *i as int, n as int, '}'),
        decreases n - *i,
    {
        *i += 1;
    }
    let body_end = *i;
    proof {
        assert(scan_to(p, body_end as int, n as int, '}') == body_end as int);
        assert(brace_body_end(p, i0) == body_end as int);
    }
    if *i < n {
        *i += 1;
    }
    if steps.len() == 0 {
        return Err(CompileError::UnexpectedQuantifier('{'));
    }
    // find the first comma of the body, then check for a second one
    let mut c1 = start;
    while c1 < body_end && chars[c1] != ','
        invariant
            start <= c1 <= body_end,
            body_end <= n,
            scan_to(p, start as int, body_end as int, ',') == scan_to(p, c1 as int,
                body_end as int, ','),
        decreases body_end - c1,
    {
        c1 += 1;
    }
    proof {
        assert(scan_to(p, start as int, body_end as int, ',') == c1 as int);
    }
    let rep: RegexRep;
    if c1 == body_end {
        match parse_usize(chars, start, body_end) {
            Some(v) => {
                rep = RegexRep::Exact(v);
            },
            None => {
                return Err(CompileError::BadRangeSyntax);
            },
        }
    } else {
        let mut c2 = c1 + 1;
        while c2 < body_end && chars[c2] != ','
            invariant
                c1 + 1 <= c2 <= body_end,
                body_end <= n,
                scan_to(p, c1 as int + 1, body_end as int, ',') == scan_to(p, c2 as int,
                    body_end as int, ','),
            decreases body_end - c2,
        {
            c2 += 1;
        }
        proof {
            assert(scan_to(p, c1 as int + 1, body_end as int, ',') == c2 as int);
        }
        if c2 != body_end {
            return Err(CompileError::BadRangeSyntax);
        }
        let min: Option<usize>;
        if c1 == start {
            min = None;
        } else {
            match parse_usize(chars, start, c1) {
                Some(v) => {
                    min = Some(v);
                },
                None => {
                    return Err(CompileError::BadRangeSyntax);
                },
            }
        }
        let max: Option<usize>;
        if c1 + 1 == body_end {
            max = None;
        } else {
            match parse_usize(chars, c1 + 1, body_end) {
                Some(v) => {
                    max = Some(v);
                },
                None => {
                    return Err(CompileError::BadRangeSyntax);
                },
            }
        }
        match (min, max) {
            (Some(a), Some(b)) => {
                if a > b {
                    return Err(CompileError::BadRangeSyntax);
                }
                rep = RegexRep::Range { min, max };
            },
            _ => {
                rep = RegexRep::Range { min, max };
            },
        }
    }
    if rewrite_last_rep(steps, rep) {
        Ok(None)
    } else {
        Err(CompileError::BadRangeSyntax)
    }
}

} // verus!
