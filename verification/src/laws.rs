use vstd::prelude::*;

use crate::regex_rep::RegexRep;
use crate::regex_step::StepModel;
use crate::regex_val::ValueModel;
use crate::regex_val::value_matches;
use crate::semantics::RegexModel;
use crate::semantics::all_match;
use crate::semantics::can_match;
use crate::semantics::find_spec;
use crate::semantics::first_offset;
use crate::semantics::greedy_count;
use crate::semantics::has_end_anchor;
use crate::semantics::has_start_anchor;
use crate::semantics::lemma_first_offset_iff;
use crate::semantics::lemma_greedy_count_at_least;
use crate::semantics::lemma_greedy_count_bounds;
use crate::semantics::lemma_match_len_bounds;
use crate::semantics::lemma_match_len_must_end;
use crate::semantics::match_len;
use crate::semantics::range_cap;
use crate::semantics::range_lo;
use crate::regex::compile_spec;
use crate::regex::compile_scan;
use crate::regex::is_plain_char;
use crate::regex::literal_step;
use crate::regex::wildcard_step;
use crate::range::brace_next;
use crate::range::brace_rep;
use crate::regex_step::set_last_rep;
use crate::regex_step::lemma_steps_wf_push;
use crate::regex_step::lemma_steps_wf_set_last;
use crate::regex_step::steps_wf;
use crate::regex_step::step_wf;
use crate::semantics::regex_wf;
use crate::range::lemma_parse_range_body_wf;
use crate::range::brace_body_end;
use crate::range::lemma_scan_to_bounds;
use crate::brackets::bracket_parse;
use crate::brackets::lemma_bracket_scan_advances;
use crate::type_of_line::RegexRestriction;
use vstd::utf8::is_ascii_chars;

verus! {

/// A pattern of literal steps only: each step demands one exact character.
pub open spec fn all_literal(steps: Seq<StepModel>) -> bool {
    forall|i: int|
        0 <= i < steps.len() ==> (#[trigger] steps[i]).val is Literal && steps[i].rep
            == RegexRep::Exact(1usize)
}

/// The word spelled by a sequence of literal steps.
pub open spec fn literal_word(steps: Seq<StepModel>) -> Seq<char> {
    Seq::new(steps.len(), |i: int| steps[i].val->Literal_0)
}

/// A sequence of literal steps matches a window exactly when the window
/// begins with the spelled word, and then consumes exactly that word.
proof fn lemma_literal_match_len(steps: Seq<StepModel>, s: Seq<char>)
    requires
        all_literal(steps),
    ensures
        match_len(steps, s, false) == (if literal_word(steps).is_prefix_of(s) {
            Some(steps.len() as int)
        } else {
            Option::<int>::None
        }),
    decreases steps.len(),
{
    let l = literal_word(steps);
    if steps.len() == 0 {
        assert(s.take(0) =~= l);
    } else {
        let c = steps[0].val->Literal_0;
        let rest = steps.skip(1);
        assert(all_literal(rest)) by {
            assert(forall|i: int| 0 <= i < rest.len() ==> rest[i] == steps[i + 1]);
        }
        lemma_literal_match_len(rest, s.skip(1));
        assert(literal_word(rest) =~= l.skip(1));
        if s.len() == 0 {
            assert(!l.is_prefix_of(s));
        } else if s[0] != c {
            assert(s.take(1)[0] == s[0]);
            assert(!all_match(steps[0].val, s.take(1)));
            if l.is_prefix_of(s) {
                assert(s.subrange(0, l.len() as int)[0] == s[0]);
            }
            assert(!l.is_prefix_of(s));
        } else {
            assert(all_match(steps[0].val, s.take(1))) by {
                assert(forall|j: int| 0 <= j < 1 ==> s.take(1)[j] == s[0]);
            }
            if literal_word(rest).is_prefix_of(s.skip(1)) {
                assert forall|j: int| 0 <= j < l.len() implies l[j] == #[trigger] s.subrange(
                    0,
                    l.len() as int,
                )[j] by {
                    if j >= 1 {
                        assert(rest[j - 1] == steps[j]);
                        assert(l[j] == literal_word(rest)[j - 1]);
                        assert(literal_word(rest)[j - 1] == s.skip(1).subrange(
                            0,
                            literal_word(rest).len() as int,
                        )[j - 1]);
                        assert(s.skip(1)[j - 1] == s[j]);
                    }
                }
                assert(l =~= s.subrange(0, l.len() as int));
                assert(l.is_prefix_of(s));
            } else {
                if l.is_prefix_of(s) {
                    assert forall|j: int| 0 <= j < literal_word(rest).len() implies #[trigger]
                        literal_word(rest)[j] == s.skip(1).subrange(
                        0,
                        literal_word(rest).len() as int,
                    )[j] by {
                        assert(rest[j] == steps[j + 1]);
                        assert(literal_word(rest)[j] == l[j + 1]);
                        assert(l[j + 1] == s.subrange(0, l.len() as int)[j + 1]);
                        assert(s.skip(1)[j] == s[j + 1]);
                    }
                    assert(literal_word(rest) =~= s.skip(1).subrange(
                        0,
                        literal_word(rest).len() as int,
                    ));
                }
                assert(!l.is_prefix_of(s));
            }
        }
    }
}

/// A pattern of literal steps finds a match exactly when the line contains
/// the spelled word as a contiguous substring, and the substring it yields is
/// that word.
pub proof fn lemma_literal_find(m: RegexModel, line: Seq<char>)
    requires
        m.backtracking is None,
        all_literal(m.steps),
        m.steps.len() > 0,
    ensures
        find_spec(m, line).len() > 0 <==> exists|o: int|
            0 <= o && o + literal_word(m.steps).len() <= line.len() && #[trigger] line.subrange(
                o,
                o + literal_word(m.steps).len(),
            ) == literal_word(m.steps),
        find_spec(m, line).len() > 0 ==> find_spec(m, line) == literal_word(m.steps),
{
    let l = literal_word(m.steps);
    let k = l.len() as int;
    assert(!has_start_anchor(m));
    assert(!has_end_anchor(m));
    assert forall|o: int| 0 <= o <= line.len() implies (can_match(m.steps, line.skip(o), false)
        <==> (o + k <= line.len() && line.subrange(o, o + k) == l)) by {
        lemma_literal_match_len(m.steps, line.skip(o));
        if o + k <= line.len() {
            assert(line.skip(o).subrange(0, k) =~= line.subrange(o, o + k));
            if l.is_prefix_of(line.skip(o)) {
                assert(line.subrange(o, o + k) =~= l);
            }
            if line.subrange(o, o + k) == l {
                assert(l =~= line.skip(o).subrange(0, k));
            }
        }
    }
    lemma_first_offset_iff(m.steps, line, false, 0);
    match first_offset(m.steps, line, false, 0) {
        Some(i0) => {
            lemma_literal_match_len(m.steps, line.skip(i0));
            assert(line.skip(i0).subrange(0, k) =~= line.subrange(i0, i0 + k));
            assert(find_spec(m, line) == line.subrange(i0, i0 + k));
            assert(line.subrange(i0, i0 + k) =~= l);
        },
        None => {
            if exists|o: int|
                0 <= o && o + k <= line.len() && #[trigger] line.subrange(o, o + k) == l {
                let o = choose|o: int|
                    0 <= o && o + k <= line.len() && #[trigger] line.subrange(o, o + k) == l;
                assert(can_match(m.steps, line.skip(o), false));
                assert(o < line.len());
                assert(false);
            }
        },
    }
}

/// The wildcard matches every character. A pattern consisting of one
/// wildcard step yields the first character of any non-empty line.
pub proof fn lemma_wildcard_single(line: Seq<char>)
    ensures
        forall|c: char| value_matches(ValueModel::Wildcard, c),
        ({
            let m = RegexModel {
                steps: seq![
                    StepModel { val: ValueModel::Wildcard, rep: RegexRep::Exact(1usize) },
                ],
                backtracking: None,
            };
            &&& (line.len() > 0 ==> find_spec(m, line) == line.take(1))
            &&& (line.len() == 0 ==> find_spec(m, line) == Seq::<char>::empty())
        }),
{
    let m = RegexModel {
        steps: seq![StepModel { val: ValueModel::Wildcard, rep: RegexRep::Exact(1usize) }],
        backtracking: None,
    };
    if line.len() > 0 {
        assert(line.skip(0) =~= line);
        assert(m.steps.skip(1) =~= Seq::<StepModel>::empty());
        assert(match_len(m.steps, line, false) == Some(1int)) by {
            assert(all_match(ValueModel::Wildcard, line.take(1)));
            assert(match_len(m.steps.skip(1), line.skip(1), false) == Some(0int));
        }
        assert(first_offset(m.steps, line, false, 0) == Some(0int));
        assert(line.subrange(0, 1) =~= line.take(1));
    }
}

/// A negated bracket set matches exactly the characters outside the set; a
/// pattern consisting of one such step finds a match exactly when the line
/// holds a character outside the set.
pub proof fn lemma_negated_single(cs: Seq<char>, line: Seq<char>)
    ensures
        forall|c: char| value_matches(ValueModel::OneOf(cs), c) <==> cs.contains(c),
        ({
            let m = RegexModel {
                steps: seq![StepModel { val: ValueModel::OneOf(cs), rep: RegexRep::Negated }],
                backtracking: None,
            };
            find_spec(m, line).len() > 0 <==> exists|j: int|
                0 <= j < line.len() && !cs.contains(#[trigger] line[j])
        }),
{
    let m = RegexModel {
        steps: seq![StepModel { val: ValueModel::OneOf(cs), rep: RegexRep::Negated }],
        backtracking: None,
    };
    assert(m.steps.skip(1) =~= Seq::<StepModel>::empty());
    assert forall|o: int| 0 <= o < line.len() implies (can_match(m.steps, line.skip(o), false)
        <==> !cs.contains(line[o])) by {
        assert(line.skip(o)[0] == line[o]);
        assert(line.skip(o).len() > 0);
        if !cs.contains(line[o]) {
            assert(match_len(m.steps.skip(1), line.skip(o).skip(1), false) == Some(0int));
            assert(match_len(m.steps, line.skip(o), false) == Some(1int));
        }
    }
    lemma_first_offset_iff(m.steps, line, false, 0);
    match first_offset(m.steps, line, false, 0) {
        Some(i0) => {
            lemma_first_offset_iff(m.steps, line, false, 0);
            assert(!cs.contains(line[i0]));
            assert(match_len(m.steps.skip(1), line.skip(i0).skip(1), false) == Some(0int));
            assert(match_len(m.steps, line.skip(i0), false) == Some(1int));
            assert(find_spec(m, line) == line.subrange(i0, i0 + 1));
        },
        None => {
            if exists|j: int| 0 <= j < line.len() && !cs.contains(#[trigger] line[j]) {
                let j = choose|j: int| 0 <= j < line.len() && !cs.contains(#[trigger] line[j]);
                assert(can_match(m.steps, line.skip(j), false));
                assert(false);
            }
        },
    }
}

/// Greediness of a range repetition: whenever a count `k` within the bounds
/// is feasible (its characters match and the rest of the pattern can complete
/// after it), the pattern matches, and the count the matcher commits to is at
/// least `k` - it backs off only as far as the rest of the pattern requires.
pub proof fn lemma_range_greedy(steps: Seq<StepModel>, s: Seq<char>, must_end: bool, k: int)
    requires
        steps.len() > 0,
        steps[0].rep matches RegexRep::Range { min, max } && range_lo(min) <= k <= range_cap(
            max,
            s,
        ),
        all_match(steps[0].val, s.take(k)),
        can_match(steps.skip(1), s.skip(k), must_end),
    ensures
        can_match(steps, s, must_end),
        steps[0].rep matches RegexRep::Range { min, max } ==> (greedy_count(
            steps[0].val,
            steps.skip(1),
            s,
            must_end,
            range_cap(max, s),
        ) matches Some(j) && j >= k),
{
    let v = steps[0].val;
    let rest = steps.skip(1);
    match steps[0].rep {
        RegexRep::Range { min, max } => {
            let cap = range_cap(max, s);
            lemma_greedy_count_at_least(v, rest, s, must_end, cap, k);
            lemma_greedy_count_bounds(v, rest, s, must_end, cap);
        },
        _ => {},
    }
}

/// A `^` anchor restricts matching to the start of the line: a successful
/// find is a prefix of the line, and when the steps cannot match at the start
/// there is no sliding - the result is empty.
pub proof fn lemma_start_anchor(m: RegexModel, line: Seq<char>)
    requires
        has_start_anchor(m),
    ensures
        find_spec(m, line).len() > 0 ==> (match_len(m.steps, line, has_end_anchor(m))
            matches Some(d) && find_spec(m, line) == line.take(d)),
        !can_match(m.steps, line, has_end_anchor(m)) ==> find_spec(m, line)
            == Seq::<char>::empty(),
{
    lemma_match_len_bounds(m.steps, line, has_end_anchor(m));
}

/// A `$` anchor forces the match to reach the end of the line: a successful
/// find is a suffix of the line.
pub proof fn lemma_end_anchor(m: RegexModel, line: Seq<char>)
    requires
        has_end_anchor(m),
    ensures
        find_spec(m, line).len() > 0 ==> exists|o: int|
            0 <= o <= line.len() && find_spec(m, line) == line.subrange(o, line.len() as int),
{
    let me = has_end_anchor(m);
    if has_start_anchor(m) {
        if line.len() > 0 {
            match match_len(m.steps, line, me) {
                Some(d) => {
                    lemma_match_len_must_end(m.steps, line);
                    assert(line.take(d) =~= line.subrange(0, line.len() as int));
                    assert(0 <= 0 <= line.len() && find_spec(m, line) == line.subrange(
                        0,
                        line.len() as int,
                    ));
                },
                None => {},
            }
        }
    } else {
        match first_offset(m.steps, line, me, 0) {
            Some(i0) => {
                lemma_first_offset_iff(m.steps, line, me, 0);
                match match_len(m.steps, line.skip(i0), me) {
                    Some(d) => {
                        lemma_match_len_must_end(m.steps, line.skip(i0));
                        assert(0 <= i0 <= line.len() && find_spec(m, line) == line.subrange(
                            i0,
                            line.len() as int,
                        ));
                    },
                    None => {},
                }
            },
            None => {},
        }
    }
}

/// The compiler scan only ever appends well-formed steps or rewrites the
/// last repetition with a well-formed one.
#[verifier::rlimit(60)]
#[verifier::spinoff_prover]
proof fn lemma_compile_scan_wf(
    p: Seq<char>,
    i: int,
    steps: Seq<StepModel>,
    anchors: Seq<RegexRestriction>,
)
    ensures
        steps_wf(steps) ==> (compile_scan(p, i, steps, anchors) matches Ok(t) ==> steps_wf(
            t.0,
        )),
    decreases p.len() - i,
{
    if steps_wf(steps) && 0 <= i < p.len() {
        let c = p[i];
        if c == '.' {
            let st = wildcard_step();
            lemma_steps_wf_push(steps, st);
            lemma_compile_scan_wf(p, i + 1, steps.push(st), anchors);
        } else if is_plain_char(c) {
            let st = literal_step(c);
            lemma_steps_wf_push(steps, st);
            lemma_compile_scan_wf(p, i + 1, steps.push(st), anchors);
        } else if c == '?' {
            if steps.len() > 0 {
                let rep = RegexRep::Range { min: None, max: Some(1usize) };
                lemma_steps_wf_set_last(steps, rep);
                lemma_compile_scan_wf(p, i + 1, set_last_rep(steps, rep),
                    anchors);
            }
        } else if c == '*' {
            if steps.len() > 0 {
                let rep = RegexRep::Range { min: None, max: None };
                lemma_steps_wf_set_last(steps, rep);
                lemma_compile_scan_wf(p, i + 1, set_last_rep(steps, rep),
                    anchors);
            }
        } else if c == '+' {
            if steps.len() > 0 {
                let rep = RegexRep::Range { min: Some(1usize), max: None };
                lemma_steps_wf_set_last(steps, rep);
                lemma_compile_scan_wf(p, i + 1, set_last_rep(steps, rep),
                    anchors);
            }
        } else if c == '{' {
            if steps.len() > 0 {
                lemma_parse_range_body_wf(p, i + 1, brace_body_end(p, i + 1));
                lemma_scan_to_bounds(p, i + 1, p.len() as int, '}');
                match brace_rep(p, i + 1) {
                    Ok(rep) => {
                        lemma_steps_wf_set_last(steps, rep);
                        lemma_compile_scan_wf(p, brace_next(p, i + 1),
                            set_last_rep(steps, rep), anchors);
                    },
                    Err(_) => {},
                }
            }
        } else if c == '[' {
            lemma_bracket_scan_advances(p, i + 1, Seq::empty(), false, false);
            match bracket_parse(p, i + 1) {
                Ok(t) => {
                    assert(step_wf(t.0));
                    lemma_steps_wf_push(steps, t.0);
                    lemma_compile_scan_wf(p, t.1, steps.push(t.0), anchors);
                },
                Err(_) => {},
            }
        } else if c == '^' {
            lemma_compile_scan_wf(p, i + 1, steps, anchors.push(
                RegexRestriction::StartOfLine,
            ));
        } else if c == '$' {
            lemma_compile_scan_wf(p, i + 1, steps, anchors.push(RegexRestriction::EndOfLine));
        } else if c == '\\' {
            if i + 1 < p.len() {
                let st = literal_step(p[i + 1]);
                lemma_steps_wf_push(steps, st);
                lemma_compile_scan_wf(p, i + 2, steps.push(st), anchors);
            }
        }
    }
}

/// A pattern the compiler accepts satisfies the compiled-pattern invariant:
/// it holds at least one step, and every explicit range among its
/// repetitions has `min <= max` - an out-of-order range is a compile error,
/// never a runtime state.
pub proof fn lemma_compile_wf(p: Seq<char>)
    ensures
        compile_spec(p) matches Ok(m) ==> regex_wf(m),
{
    if is_ascii_chars(p) {
        assert(steps_wf(Seq::<StepModel>::empty()));
        lemma_compile_scan_wf(p, 0, Seq::empty(), Seq::empty());
    }
}

/// Compilation is a pure function of the pattern string: two successful
/// compilations of the same pattern yield identical step sequences and
/// identical anchor sets.
pub proof fn lemma_compile_deterministic(p: Seq<char>, r1: RegexModel, r2: RegexModel)
    requires
        compile_spec(p) == Ok::<RegexModel, crate::errors::CompileError>(r1),
        compile_spec(p) == Ok::<RegexModel, crate::errors::CompileError>(r2),
    ensures
        r1.steps == r2.steps,
        r1.backtracking == r2.backtracking,
{
}

} // verus!
