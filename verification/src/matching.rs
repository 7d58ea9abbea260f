use vstd::prelude::*;

use crate::metachars::RegexClass;
use crate::metachars::class_matches;
use crate::regex_rep::RegexRep;
use crate::regex_step::RegexStep;
use crate::regex_step::StepModel;
use crate::regex_step::steps_model;
use crate::regex_val::RegexValue;
use crate::regex_val::value_matches;
use crate::semantics::all_match;
use crate::semantics::greedy_count;
use crate::semantics::lemma_greedy_count_bounds;
use crate::semantics::lemma_greedy_count_skip_top;
use crate::semantics::match_len;
use crate::semantics::find_spec;
use crate::semantics::first_offset;
use crate::semantics::has_end_anchor;
use crate::semantics::has_start_anchor;
use crate::semantics::range_cap;
use crate::semantics::range_lo;
use crate::regex::Regex;
use crate::text::chars_of;
use crate::type_of_line::RegexRestriction;
use vstd::string::StrSliceExecFns;

verus! {

/// The state of one match attempt.
#[derive(Debug, PartialEq, Eq, Clone, Copy)]
pub enum MatchState {
    /// A step rejected its character.
    NotMatched,
    /// The attempt is still consuming steps.
    InProgress,
    /// The steps were exhausted.
    EndOfRegex,
    /// The input was exhausted before the steps.
    EndOfWord,
}

/// The executable result of a match attempt agrees with the model: both fail,
/// or both succeed with the same consumed count.
pub open spec fn opt_len_is(r: Option<usize>, d: Option<int>) -> bool {
    match r {
        Some(a) => d matches Some(b) && a as int == b,
        None => d is None,
    }
}

/// Checks a character against a named class.
pub fn handle_regex_class(class: &RegexClass, c: char) -> (r: bool)
    ensures
        r == class_matches(*class, c),
{
    let v = c as u32;
    match class {
        RegexClass::Alpha => (65 <= v && v <= 90) || (97 <= v && v <= 122),
        RegexClass::Alnum => (48 <= v && v <= 57) || (65 <= v && v <= 90) || (97 <= v && v
            <= 122),
        RegexClass::Digit => 48 <= v && v <= 57,
        RegexClass::Lower => 97 <= v && v <= 122,
        RegexClass::Upper => 65 <= v && v <= 90,
        RegexClass::Space => v == 32 || v == 9 || v == 10 || v == 12 || v == 13,
        RegexClass::Punct => (33 <= v && v <= 47) || (58 <= v && v <= 64) || (91 <= v && v <= 96)
            || (123 <= v && v <= 126),
    }
}

/// Whether `c` occurs in the character list.
fn contains_char(chars: &Vec<char>, c: char) -> (r: bool)
    ensures
        r == chars@.contains(c),
{
    let n = chars.len();
    let mut i: usize = 0;
    while i < n
        invariant
            i <= n,
            n == chars@.len(),
            forall|t: int| 0 <= t < i ==> chars@[t] != c,
        decreases n - i,
    {
        if chars[i] == c {
            return true;
        }
        i += 1;
    }
    false
}

/// Checks one character against a step's value.
fn matches_value(val: &RegexValue, c: char) -> (r: bool)
    ensures
        r == value_matches(val@, c),
{
    match val {
        RegexValue::Literal(l) => *l == c,
        RegexValue::Wildcard => true,
        RegexValue::Class(class) => handle_regex_class(class, c),
        RegexValue::OneOf(chars) => contains_char(chars, c),
    }
}

/// Whether the anchor list demands that the match end at the line end (`$`).
#[verifier::loop_isolation(false)]
pub fn is_end_of_line(backtracking: &Option<Vec<RegexRestriction>>) -> (r: bool)
    ensures
        r == (match *backtracking {
            Some(v) => v@.contains(RegexRestriction::EndOfLine),
            None => false,
        }),
{
    match backtracking {
        Some(restrictions) => {
            let n = restrictions.len();
            let mut i: usize = 0;
            while i < n
                invariant
                    i <= n,
                    n == restrictions@.len(),
                    forall|t: int| 0 <= t < i ==> restrictions@[t]
                        != RegexRestriction::EndOfLine,
                decreases n - i,
            {
                let cur = restrictions[i];
                match cur {
                    RegexRestriction::EndOfLine => {
                        proof {
                            assert(restrictions@[i as int] == RegexRestriction::EndOfLine);
                        }
                        return true;
                    },
                    _ => {},
                }
                i += 1;
            }
            assert(!restrictions@.contains(RegexRestriction::EndOfLine));
            false
        },
        None => false,
    }
}

/// Whether the anchor list demands that the match begin at the line start (`^`).
#[verifier::loop_isolation(false)]
pub fn is_start_of_line(backtracking: &Option<Vec<RegexRestriction>>) -> (r: bool)
    ensures
        r == (match *backtracking {
            Some(v) => v@.contains(RegexRestriction::StartOfLine),
            None => false,
        }),
{
    match backtracking {
        Some(restrictions) => {
            let n = restrictions.len();
            let mut i: usize = 0;
            while i < n
                invariant
                    i <= n,
                    n == restrictions@.len(),
                    forall|t: int| 0 <= t < i ==> restrictions@[t]
                        != RegexRestriction::StartOfLine,
                decreases n - i,
            {
                let cur = restrictions[i];
                match cur {
                    RegexRestriction::StartOfLine => {
                        proof {
                            assert(restrictions@[i as int] == RegexRestriction::StartOfLine);
                        }
                        return true;
                    },
                    _ => {},
                }
                i += 1;
            }
            assert(!restrictions@.contains(RegexRestriction::StartOfLine));
            false
        },
        None => false,
    }
}

/// The check made once the steps are exhausted: with a `$` anchor the input
/// cursor must have reached the end of the line; without one, trailing
/// characters are permitted and the attempt consumed nothing more.
pub fn handle_end_of_expression(must_end: bool, line: &Vec<char>, pos: usize) -> (r: Option<
    usize,
>)
    requires
        pos <= line@.len(),
    ensures
        r == (if must_end && pos < line@.len() {
            Option::<usize>::None
        } else {
            Option::<usize>::Some(0usize)
        }),
{
    if must_end && pos < line.len() {
        None
    } else {
        Some(0)
    }
}

/// Tries to consume exactly `count` characters at `pos`, each satisfying the
/// step's value. Reports `InProgress` on success, `NotMatched` on the first
/// rejection, and `EndOfWord` when the input runs out first.
pub fn handle_exact_case(step: &RegexStep, line: &Vec<char>, pos: usize, count: usize) -> (st:
    MatchState)
    requires
        pos <= line@.len(),
    ensures
        ({
            let s = line@.skip(pos as int);
            let v = step@.val;
            &&& (st is InProgress <==> count <= s.len() && all_match(v, s.take(count as int)))
            &&& (st is NotMatched <==> exists|j: int|
                0 <= j < count && j < s.len() && !value_matches(v, #[trigger] s[j]))
            &&& (st is InProgress || st is NotMatched || st is EndOfWord)
        }),
{
    let ghost s = line@.skip(pos as int);
    let mut j: usize = 0;
    while j < count
        invariant
            pos <= line@.len(),
            s == line@.skip(pos as int),
            j <= count,
            j <= s.len(),
            forall|t: int| 0 <= t < j ==> value_matches(step@.val, #[trigger] s[t]),
        decreases count - j,
    {
        if line.len() - pos <= j {
            assert(j == s.len());
            return MatchState::EndOfWord;
        }
        assert(s[j as int] == line@[pos + j]);
        if !matches_value(&step.val, line[pos + j]) {
            proof {
                assert(!value_matches(step@.val, s[j as int]));
                if count as int <= s.len() {
                    assert(s.take(count as int)[j as int] == s[j as int]);
                }
            }
            return MatchState::NotMatched;
        }
        j += 1;
    }
    proof {
        assert forall|t: int| 0 <= t < count implies value_matches(
            step@.val,
            #[trigger] s.take(count as int)[t],
        ) by {
            assert(s.take(count as int)[t] == s[t]);
        }
    }
    MatchState::InProgress
}

/// The negated-single check realizing `[^...]`: the character must not
/// satisfy the paired value. The match state records the outcome.
pub fn handle_none_case(step: &RegexStep, actual_char: char, match_state: &mut MatchState) -> (r:
    bool)
    ensures
        r == !value_matches(step@.val, actual_char),
        *final(match_state) == (if r {
            MatchState::InProgress
        } else {
            MatchState::NotMatched
        }),
{
    if matches_value(&step.val, actual_char) {
        *match_state = MatchState::NotMatched;
        false
    } else {
        *match_state = MatchState::InProgress;
        true
    }
}

/// Force-consumes the minimum of a range repetition: `Some(min)` when the
/// first `min` characters all satisfy the value, `Some(0)` when no minimum
/// was given, `None` when the forced part cannot be consumed.
pub fn handle_min(step: &RegexStep, line: &Vec<char>, pos: usize, min: Option<usize>) -> (r:
    Option<usize>)
    requires
        pos <= line@.len(),
    ensures
        ({
            let s = line@.skip(pos as int);
            let v = step@.val;
            match min {
                Some(m) => r == (if m <= s.len() && all_match(v, s.take(m as int)) {
                    Option::Some(m)
                } else {
                    Option::<usize>::None
                }),
                None => r == Option::Some(0usize),
            }
        }),
{
    match min {
        Some(m) => {
            let st = handle_exact_case(step, line, pos, m);
            match st {
                MatchState::InProgress => Some(m),
                _ => None,
            }
        },
        None => Some(0),
    }
}

/// The largest count a range repetition may consume: its explicit maximum
/// clipped to the characters available, or all of them when unbounded.
pub fn handle_max(max: Option<usize>, avail: usize) -> (cap: usize)
    ensures
        cap as int == (match max {
            Some(h) => if h as int <= avail as int {
                h as int
            } else {
                avail as int
            },
            None => avail as int,
        }),
{
    match max {
        Some(h) => if h <= avail {
            h
        } else {
            avail
        },
        None => avail,
    }
}

/// The backtracking trial loop of a range repetition: starting from the
/// largest candidate count, attempt the remaining steps after consuming that
/// many characters, giving one character back after each failure, down to the
/// forced minimum.
#[verifier::loop_isolation(false)]
pub fn handle_main_loop(
    steps: &Vec<RegexStep>,
    idx: usize,
    line: &Vec<char>,
    pos: usize,
    lo: usize,
    start_k: usize,
    must_end: bool,
) -> (r: Option<usize>)
    requires
        idx < steps@.len(),
        pos <= line@.len(),
        pos + start_k <= line@.len(),
        ({
            let sm = steps_model(steps@);
            let s = line@.skip(pos as int);
            let v = sm[idx as int].val;
            let rest = sm.skip(idx as int + 1);
            &&& (sm[idx as int].rep matches RegexRep::Range { min, max } && lo as int
                == range_lo(min) && greedy_count(v, rest, s, must_end, range_cap(max, s))
                == greedy_count(v, rest, s, must_end, start_k as int))
            &&& all_match(v, s.take(start_k as int))
        }),
    ensures
        opt_len_is(r, match_len(steps_model(steps@).skip(idx as int), line@.skip(pos as int),
            must_end)),
        r matches Some(d) ==> pos + d <= line@.len(),
    decreases steps@.len() - idx, 0int,
{
    let ghost sm = steps_model(steps@);
    let ghost s = line@.skip(pos as int);
    let ghost v = sm[idx as int].val;
    let ghost rest = sm.skip(idx as int + 1);
    let steps_len = steps.len();
    let line_len = line.len();
    proof {
        assert(sm.skip(idx as int)[0] == sm[idx as int]);
        assert(sm.skip(idx as int).skip(1) =~= rest);
    }
    let mut k = start_k;
    loop
        invariant
            k <= start_k,
            pos + k <= line@.len(),
            all_match(v, s.take(k as int)),
            ({
                let cap = (match sm[idx as int].rep {
                    RegexRep::Range { min: _, max } => range_cap(max, s),
                    _ => 0,
                });
                greedy_count(v, rest, s, must_end, cap) == greedy_count(v, rest, s, must_end,
                    k as int)
            }),
        decreases k,
    {
        if k < lo {
            proof {
                lemma_greedy_count_bounds(v, rest, s, must_end, k as int);
            }
            return None;
        }
        let r2 = process_regex_steps(steps, idx + 1, line, pos + k, must_end);
        proof {
            assert(line@.skip((pos + k) as int) =~= s.skip(k as int));
        }
        match r2 {
            Some(extra) => {
                proof {
                    assert(greedy_count(v, rest, s, must_end, k as int) == Some(k as int));
                }
                return Some(k + extra);
            },
            None => {
                proof {
                    assert(greedy_count(v, rest, s, must_end, k as int) == greedy_count(
                        v, rest, s, must_end, k as int - 1));
                    if k > 0 {
                        assert forall|t: int| 0 <= t < k - 1 implies value_matches(
                            v,
                            #[trigger] s.take(k as int - 1)[t],
                        ) by {
                            assert(s.take(k as int - 1)[t] == s.take(k as int)[t]);
                        }
                    }
                }
                if k == 0 {
                    return None;
                }
                k = k - 1;
            },
        }
    }
}

/// Evaluates a range repetition at `pos`: force-consume the minimum, measure
/// the longest run of satisfying characters up to the maximum, then let the
/// trial loop back off until the remaining steps complete.
#[verifier::loop_isolation(false)]
pub fn handle_range_case(
    steps: &Vec<RegexStep>,
    idx: usize,
    line: &Vec<char>,
    pos: usize,
    min: Option<usize>,
    max: Option<usize>,
    must_end: bool,
) -> (r: Option<usize>)
    requires
        idx < steps@.len(),
        pos <= line@.len(),
        steps_model(steps@)[idx as int].rep == (RegexRep::Range { min, max }),
    ensures
        opt_len_is(r, match_len(steps_model(steps@).skip(idx as int), line@.skip(pos as int),
            must_end)),
        r matches Some(d) ==> pos + d <= line@.len(),
    decreases steps@.len() - idx, 1int,
{
    let ghost sm = steps_model(steps@);
    let ghost s = line@.skip(pos as int);
    let ghost v = sm[idx as int].val;
    let ghost rest = sm.skip(idx as int + 1);
    let step = &steps[idx];
    proof {
        assert(sm[idx as int] == steps@[idx as int]@);
        assert(sm.skip(idx as int)[0] == sm[idx as int]);
        assert(sm.skip(idx as int).skip(1) =~= rest);
    }
    let lo_opt = handle_min(step, line, pos, min);
    let lo = match lo_opt {
        Some(m) => m,
        None => {
            proof {
                let cap = range_cap(max, s);
                lemma_greedy_count_bounds(v, rest, s, must_end, cap);
                match greedy_count(v, rest, s, must_end, cap) {
                    Some(j) => {
                        if j >= range_lo(min) {
                            let m = range_lo(min);
                            assert(all_match(v, s.take(j)));
                            assert forall|t: int| 0 <= t < m implies value_matches(
                                v,
                                #[trigger] s.take(m)[t],
                            ) by {
                                assert(s.take(m)[t] == s.take(j)[t]);
                            }
                        }
                    },
                    None => {},
                }
            }
            return None;
        },
    };
    let avail = line.len() - pos;
    let cap0 = handle_max(max, avail);
    let mut run: usize = 0;
    while run < cap0 && matches_value(&step.val, line[pos + run])
        invariant
            run <= cap0,
            forall|t: int| 0 <= t < run ==> value_matches(v, #[trigger] s[t]),
        decreases cap0 - run,
    {
        proof {
            assert(s[run as int] == line@[pos + run]);
        }
        run += 1;
    }
    proof {
        assert(s.len() == avail);
        assert(range_cap(max, s) == cap0 as int);
        if run < cap0 {
            assert(s[run as int] == line@[pos + run]);
        }
        assert forall|t: int| 0 <= t < run implies value_matches(
            v,
            #[trigger] s.take(run as int)[t],
        ) by {
            assert(s.take(run as int)[t] == s[t]);
        }
        if run < cap0 {
            assert forall|j: int| run < j <= cap0 implies !all_match(v, #[trigger] s.take(j))
                by {
                assert(s.take(j)[run as int] == s[run as int]);
            }
            lemma_greedy_count_skip_top(v, rest, s, must_end, run as int, cap0 as int);
        }
    }
    handle_main_loop(steps, idx, line, pos, lo, run, must_end)
}

/// Evaluates the step at `idx` according to its repetition and continues with
/// the remaining steps.
pub fn handle_step_rep(
    steps: &Vec<RegexStep>,
    idx: usize,
    line: &Vec<char>,
    pos: usize,
    must_end: bool,
) -> (r: Option<usize>)
    requires
        idx < steps@.len(),
        pos <= line@.len(),
    ensures
        opt_len_is(r, match_len(steps_model(steps@).skip(idx as int), line@.skip(pos as int),
            must_end)),
        r matches Some(d) ==> pos + d <= line@.len(),
    decreases steps@.len() - idx, 2int,
{
    let ghost sm = steps_model(steps@);
    let ghost s = line@.skip(pos as int);
    let steps_len = steps.len();
    let line_len = line.len();
    let step = &steps[idx];
    proof {
        assert(sm[idx as int] == steps@[idx as int]@);
        assert(sm.skip(idx as int)[0] == sm[idx as int]);
        assert(sm.skip(idx as int).skip(1) =~= sm.skip(idx as int + 1));
    }
    match step.rep {
        RegexRep::Exact(count) => {
            let st = handle_exact_case(step, line, pos, count);
            match st {
                MatchState::InProgress => {
                    let r2 = process_regex_steps(steps, idx + 1, line, pos + count, must_end);
                    proof {
                        assert(line@.skip((pos + count) as int) =~= s.skip(count as int));
                    }
                    match r2 {
                        Some(extra) => Some(count + extra),
                        None => None,
                    }
                },
                _ => None,
            }
        },
        RegexRep::Negated => {
            if pos < line.len() {
                let mut state = MatchState::InProgress;
                proof {
                    assert(s[0] == line@[pos as int]);
                }
                if handle_none_case(step, line[pos], &mut state) {
                    let r2 = process_regex_steps(steps, idx + 1, line, pos + 1, must_end);
                    proof {
                        assert(line@.skip(pos as int + 1) =~= s.skip(1));
                    }
                    match r2 {
                        Some(extra) => Some(1 + extra),
                        None => None,
                    }
                } else {
                    None
                }
            } else {
                None
            }
        },
        RegexRep::Range { min, max } => handle_range_case(steps, idx, line, pos, min, max,
            must_end),
    }
}

/// Processes the step sequence from `idx` against the line from `pos`,
/// returning how many characters the match consumed, or `None` when the
/// steps cannot match here.
pub fn process_regex_steps(
    steps: &Vec<RegexStep>,
    idx: usize,
    line: &Vec<char>,
    pos: usize,
    must_end: bool,
) -> (r: Option<usize>)
    requires
        idx <= steps@.len(),
        pos <= line@.len(),
    ensures
        opt_len_is(r, match_len(steps_model(steps@).skip(idx as int), line@.skip(pos as int),
            must_end)),
        r matches Some(d) ==> pos + d <= line@.len(),
    decreases steps@.len() - idx, 3int,
{
    if idx == steps.len() {
        proof {
            assert(steps_model(steps@).skip(idx as int) =~= Seq::<StepModel>::empty());
        }
        handle_end_of_expression(must_end, line, pos)
    } else {
        handle_step_rep(steps, idx, line, pos, must_end)
    }
}

/// Finds the leftmost match of one compiled pattern in a line and yields the
/// matched substring; the empty string means no match. Without a `^` anchor a
/// failed attempt is retried one position further right; with one, no retry
/// occurs. A `$` anchor forces every attempt to reach the end of the line.
#[verifier::loop_isolation(false)]
pub fn compare_regex_with_expression(regex: &Regex, word: &str) -> (result: String)
    ensures
        result@ == find_spec(regex@, word@),
{
    let line = chars_of(word);
    let ghost l = line@;
    let ghost m = regex@;
    let must_end = is_end_of_line(&regex.backtracking);
    let anchored = is_start_of_line(&regex.backtracking);
    proof {
        assert(must_end == has_end_anchor(m));
        assert(anchored == has_start_anchor(m));
    }
    let n = line.len();
    let mut i: usize = 0;
    while i < n
        invariant
            i <= n,
            anchored ==> i == 0,
            !anchored ==> first_offset(m.steps, l, must_end, 0) == first_offset(
                m.steps,
                l,
                must_end,
                i as int,
            ),
        decreases n - i,
    {
        let r = process_regex_steps(&regex.steps, 0, &line, i, must_end);
        proof {
            assert(steps_model(regex.steps@).skip(0) =~= m.steps);
        }
        match r {
            Some(d) => {
                let matched = word.substring_char(i, i + d);
                let result = matched.to_owned();
                proof {
                    if anchored {
                        assert(l.skip(0) =~= l);
                        assert(result@ =~= l.take(d as int));
                    } else {
                        assert(first_offset(m.steps, l, must_end, i as int) == Some(i as int));
                        assert(result@ =~= l.subrange(i as int, i as int + d));
                    }
                }
                return result;
            },
            None => {},
        }
        if anchored {
            proof {
                assert(l.skip(0) =~= l);
            }
            return String::new();
        }
        i += 1;
    }
    proof {
        if anchored {
            assert(l.len() == 0);
        }
    }
    String::new()
}

/// Tries each compiled pattern of a `|`-separated expression against a line,
/// in order, and reports the whole line on the first pattern with a match.
/// `Err` means that no alternative matched; matching itself never fails.
#[verifier::loop_isolation(false)]
pub fn compare_regexes_with_expression(regexes: &Vec<Regex>, s: String) -> (r: Result<
    String,
    &'static str,
>)
    ensures
        r matches Ok(w) ==> w@ == s@,
        (r is Ok) <==> exists|k: int|
            0 <= k < regexes@.len() && find_spec(#[trigger] regexes@[k]@, s@).len() > 0,
        r matches Err(e) ==> e@ == "No match found"@,
{
    let n = regexes.len();
    let mut idx: usize = 0;
    while idx < n
        invariant
            idx <= n,
            forall|k: int| 0 <= k < idx ==> find_spec(#[trigger] regexes@[k]@, s@).len() == 0,
        decreases n - idx,
    {
        let result = compare_regex_with_expression(&regexes[idx], s.as_str());
        if !result.as_str().is_empty() {
            return Ok(s);
        }
        idx += 1;
    }
    Err("No match found")
}

} // verus!
