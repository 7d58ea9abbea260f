use vstd::prelude::*;

use crate::regex_rep::RegexRep;
use crate::regex_step::StepModel;
use crate::regex_step::steps_wf;
use crate::regex_val::ValueModel;
use crate::regex_val::value_matches;
use crate::type_of_line::RegexRestriction;

verus! {

/// Every character of `s` satisfies the value `v`.
pub open spec fn all_match(v: ValueModel, s: Seq<char>) -> bool {
    forall|j: int| 0 <= j < s.len() ==> value_matches(v, #[trigger] s[j])
}

/// The minimum count demanded by a `Range` repetition (0 when absent).
pub open spec fn range_lo(min: Option<usize>) -> int {
    match min {
        Some(m) => m as int,
        None => 0,
    }
}

/// The largest count a `Range` repetition may consume from `s`: its explicit
/// maximum, clipped to the input length, or the whole input when unbounded.
pub open spec fn range_cap(max: Option<usize>, s: Seq<char>) -> int {
    match max {
        Some(h) => if h as int <= s.len() {
            h as int
        } else {
            s.len() as int
        },
        None => s.len() as int,
    }
}

/// How many characters the step sequence consumes from the front of `s`, or
/// `None` when it cannot match there. This is the deterministic semantics of
/// the backtracking matcher for one starting window:
///
/// - `Exact(n)` consumes exactly `n` characters, each satisfying the value;
/// - `Negated` consumes exactly one character that must not satisfy the value;
/// - `Range` consumes the largest feasible count (greedy, backed off only as
///   far as the remaining steps require, never below the minimum);
/// - when the steps are exhausted, `must_end` (the `$` anchor) demands that
///   the input be exhausted too.
pub open spec fn match_len(steps: Seq<StepModel>, s: Seq<char>, must_end: bool) -> Option<int>
    decreases steps.len(), 0int,
{
    if steps.len() == 0 {
        if must_end && s.len() > 0 {
            None
        } else {
            Some(0)
        }
    } else {
        let st = steps[0];
        let rest = steps.skip(1);
        match st.rep {
            RegexRep::Exact(n) => if n <= s.len() && all_match(st.val, s.take(n as int)) {
                match match_len(rest, s.skip(n as int), must_end) {
                    Some(r) => Some(n + r),
                    None => None,
                }
            } else {
                None
            },
            RegexRep::Negated => if s.len() > 0 && !value_matches(st.val, s[0]) {
                match match_len(rest, s.skip(1), must_end) {
                    Some(r) => Some(1 + r),
                    None => None,
                }
            } else {
                None
            },
            RegexRep::Range { min, max } => {
                match greedy_count(st.val, rest, s, must_end, range_cap(max, s)) {
                    Some(k) => if k >= range_lo(min) {
                        match match_len(rest, s.skip(k), must_end) {
                            Some(r) => Some(k + r),
                            None => None,
                        }
                    } else {
                        None
                    },
                    None => None,
                }
            },
        }
    }
}

/// The largest count `j <= k` such that the first `j` characters of `s` all
/// satisfy `v` and the remaining steps can still complete on what is left.
/// This realizes "maximal repetition subject to the rest of the pattern still
/// matching".
pub open spec fn greedy_count(
    v: ValueModel,
    rest: Seq<StepModel>,
    s: Seq<char>,
    must_end: bool,
    k: int,
) -> Option<int>
    decreases rest.len(), k + 1,
{
    if k < 0 {
        None
    } else if all_match(v, s.take(k)) && match_len(rest, s.skip(k), must_end) is Some {
        Some(k)
    } else {
        greedy_count(v, rest, s, must_end, k - 1)
    }
}

/// The steps can match some prefix of `s` (all of `s` when `must_end` holds).
pub open spec fn can_match(steps: Seq<StepModel>, s: Seq<char>, must_end: bool) -> bool {
    match_len(steps, s, must_end) is Some
}

/// The least offset `>= i` at which the steps can match, or `None` if there
/// is none below the end of the line.
pub open spec fn first_offset(
    steps: Seq<StepModel>,
    line: Seq<char>,
    must_end: bool,
    i: int,
) -> Option<int>
    decreases line.len() - i,
{
    if i < 0 || i >= line.len() {
        None
    } else if can_match(steps, line.skip(i), must_end) {
        Some(i)
    } else {
        first_offset(steps, line, must_end, i + 1)
    }
}

/// Mathematical model of a compiled pattern: a step sequence plus the
/// optional anchor list.
#[verifier::ext_equal]
pub struct RegexModel {
    pub steps: Seq<StepModel>,
    pub backtracking: Option<Seq<RegexRestriction>>,
}

/// A compiled pattern's invariant: it holds at least one step, and every
/// explicit range among its repetitions has `min <= max`. The compiler
/// establishes this; the matcher never mutates a pattern.
pub open spec fn regex_wf(m: RegexModel) -> bool {
    steps_wf(m.steps) && m.steps.len() > 0
}

/// The pattern carries a `^` anchor.
pub open spec fn has_start_anchor(m: RegexModel) -> bool {
    match m.backtracking {
        Some(a) => a.contains(RegexRestriction::StartOfLine),
        None => false,
    }
}

/// The pattern carries a `$` anchor.
pub open spec fn has_end_anchor(m: RegexModel) -> bool {
    match m.backtracking {
        Some(a) => a.contains(RegexRestriction::EndOfLine),
        None => false,
    }
}

/// The substring the matcher yields for a pattern and a line: the characters
/// consumed at the leftmost offset where the steps can match. A `^` anchor
/// restricts the search to offset 0; a `$` anchor forces the match to reach
/// the end of the line. The empty sequence means "no match" (a zero-length
/// match is indistinguishable from failure in this engine).
pub open spec fn find_spec(m: RegexModel, line: Seq<char>) -> Seq<char> {
    let must_end = has_end_anchor(m);
    if has_start_anchor(m) {
        if line.len() > 0 {
            match match_len(m.steps, line, must_end) {
                Some(d) => line.take(d),
                None => Seq::empty(),
            }
        } else {
            Seq::empty()
        }
    } else {
        match first_offset(m.steps, line, must_end, 0) {
            Some(i) => match match_len(m.steps, line.skip(i), must_end) {
                Some(d) => line.subrange(i, i + d),
                None => Seq::empty(),
            },
            None => Seq::empty(),
        }
    }
}

/// A greedy count stays within its starting bound, its characters all match,
/// and the remaining steps can complete after it.
pub proof fn lemma_greedy_count_bounds(
    v: ValueModel,
    rest: Seq<StepModel>,
    s: Seq<char>,
    must_end: bool,
    k: int,
)
    ensures
        greedy_count(v, rest, s, must_end, k) matches Some(j) ==> 0 <= j <= k && all_match(
            v,
            s.take(j),
        ) && match_len(rest, s.skip(j), must_end) is Some,
    decreases k + 1,
{
    if k >= 0 {
        if !(all_match(v, s.take(k)) && match_len(rest, s.skip(k), must_end) is Some) {
            lemma_greedy_count_bounds(v, rest, s, must_end, k - 1);
        }
    }
}

/// A successful match consumes between 0 and `s.len()` characters.
pub proof fn lemma_match_len_bounds(steps: Seq<StepModel>, s: Seq<char>, must_end: bool)
    ensures
        match_len(steps, s, must_end) matches Some(d) ==> 0 <= d <= s.len(),
    decreases steps.len(),
{
    if steps.len() > 0 {
        let st = steps[0];
        let rest = steps.skip(1);
        match st.rep {
            RegexRep::Exact(n) => {
                lemma_match_len_bounds(rest, s.skip(n as int), must_end);
            },
            RegexRep::Negated => {
                lemma_match_len_bounds(rest, s.skip(1), must_end);
            },
            RegexRep::Range { min, max } => {
                let cap = range_cap(max, s);
                lemma_greedy_count_bounds(st.val, rest, s, must_end, cap);
                match greedy_count(st.val, rest, s, must_end, cap) {
                    Some(k) => lemma_match_len_bounds(rest, s.skip(k), must_end),
                    None => {},
                }
            },
        }
    }
}

/// Under a `$` anchor, a successful match consumes the input to its end.
pub proof fn lemma_match_len_must_end(steps: Seq<StepModel>, s: Seq<char>)
    ensures
        match_len(steps, s, true) matches Some(d) ==> d == s.len(),
    decreases steps.len(),
{
    if steps.len() > 0 {
        let st = steps[0];
        let rest = steps.skip(1);
        match st.rep {
            RegexRep::Exact(n) => {
                lemma_match_len_must_end(rest, s.skip(n as int));
            },
            RegexRep::Negated => {
                lemma_match_len_must_end(rest, s.skip(1));
            },
            RegexRep::Range { min, max } => {
                let cap = range_cap(max, s);
                lemma_greedy_count_bounds(st.val, rest, s, true, cap);
                match greedy_count(st.val, rest, s, true, cap) {
                    Some(k) => lemma_match_len_must_end(rest, s.skip(k)),
                    None => {},
                }
            },
        }
    }
}

/// Counts above the longest matching run contribute nothing: the greedy
/// search from `b` equals the search from `a` when no count in `(a, b]` has
/// all its characters matching.
pub proof fn lemma_greedy_count_skip_top(
    v: ValueModel,
    rest: Seq<StepModel>,
    s: Seq<char>,
    must_end: bool,
    a: int,
    b: int,
)
    requires
        a <= b,
        forall|j: int| a < j <= b ==> !all_match(v, #[trigger] s.take(j)),
    ensures
        greedy_count(v, rest, s, must_end, b) == greedy_count(v, rest, s, must_end, a),
    decreases b - a,
{
    if a < b {
        assert(!all_match(v, s.take(b)));
        lemma_greedy_count_skip_top(v, rest, s, must_end, a, b - 1);
    }
}

/// Greediness: if some count `k` is feasible (its characters match and the
/// remaining steps can complete after it), the greedy search from any bound
/// `cap >= k` succeeds and picks a count at least `k`.
pub proof fn lemma_greedy_count_at_least(
    v: ValueModel,
    rest: Seq<StepModel>,
    s: Seq<char>,
    must_end: bool,
    cap: int,
    k: int,
)
    requires
        0 <= k <= cap,
        all_match(v, s.take(k)),
        can_match(rest, s.skip(k), must_end),
    ensures
        greedy_count(v, rest, s, must_end, cap) matches Some(j) && j >= k,
    decreases cap,
{
    if all_match(v, s.take(cap)) && match_len(rest, s.skip(cap), must_end) is Some {
        assert(greedy_count(v, rest, s, must_end, cap) == Some(cap));
    } else {
        assert(k != cap);
        lemma_greedy_count_at_least(v, rest, s, must_end, cap - 1, k);
    }
}

/// The least-offset search finds an offset exactly when one exists, finds the
/// least one, and never looks past the end of the line.
pub proof fn lemma_first_offset_iff(
    steps: Seq<StepModel>,
    line: Seq<char>,
    must_end: bool,
    i: int,
)
    requires
        0 <= i <= line.len(),
    ensures
        first_offset(steps, line, must_end, i) is Some <==> exists|j: int|
            i <= j < line.len() && can_match(steps, #[trigger] line.skip(j), must_end),
        first_offset(steps, line, must_end, i) matches Some(j) ==> i <= j < line.len()
            && can_match(steps, line.skip(j), must_end) && forall|t: int|
            i <= t < j ==> !can_match(steps, #[trigger] line.skip(t), must_end),
    decreases line.len() - i,
{
    if i < line.len() {
        if can_match(steps, line.skip(i), must_end) {
            assert(first_offset(steps, line, must_end, i) == Some(i));
        } else {
            lemma_first_offset_iff(steps, line, must_end, i + 1);
        }
    }
}

} // verus!
