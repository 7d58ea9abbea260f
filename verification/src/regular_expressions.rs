use vstd::prelude::*;
use vstd::string::StrSliceExecFns;

use crate::errors::CompileError;
use crate::regex::Regex;
use crate::regex::compile_spec;
use crate::semantics::RegexModel;

verus! {

/// Splits the expression from `i` on every `|`, with `cur` the part collected
/// so far; empty parts are kept (they fail to compile and are then skipped).
pub open spec fn split_acc(p: Seq<char>, i: int, cur: Seq<char>) -> Seq<Seq<char>>
    decreases p.len() - i,
{
    if i < 0 || i >= p.len() {
        seq![cur]
    } else if p[i] == '|' {
        seq![cur] + split_acc(p, i + 1, Seq::empty())
    } else {
        split_acc(p, i + 1, cur.push(p[i]))
    }
}

/// The alternative pattern strings of a `|`-separated expression.
pub open spec fn split_alternatives(p: Seq<char>) -> Seq<Seq<char>> {
    split_acc(p, 0, Seq::empty())
}

/// The models of the alternatives that compile; an alternative that fails to
/// compile is simply absent from the list, it does not abort the others.
pub open spec fn compiled_alternatives(parts: Seq<Seq<char>>) -> Seq<RegexModel>
    decreases parts.len(),
{
    if parts.len() == 0 {
        Seq::empty()
    } else {
        match compile_spec(parts[0]) {
            Ok(m) => seq![m] + compiled_alternatives(parts.skip(1)),
            Err(_) => compiled_alternatives(parts.skip(1)),
        }
    }
}

/// The models of the single part `a`: one model when it compiles, none when
/// it does not.
pub open spec fn compiled_one(a: Seq<char>) -> Seq<RegexModel> {
    match compile_spec(a) {
        Ok(m) => seq![m],
        Err(_) => Seq::empty(),
    }
}

/// What an expression string yields: the compiled models of its alternatives,
/// or an error for the empty expression.
pub open spec fn create_spec(p: Seq<char>) -> Result<Seq<RegexModel>, CompileError> {
    if p.len() == 0 {
        Err(CompileError::EmptyExpression)
    } else {
        Ok(compiled_alternatives(split_alternatives(p)))
    }
}

/// The models of a vector of compiled patterns.
pub open spec fn regexes_model(v: Seq<Regex>) -> Seq<RegexModel> {
    v.map_values(|r: Regex| r@)
}

/// Compiling a part list starting with `a` compiles `a` and then the rest.
proof fn lemma_compiled_cons(a: Seq<char>, rest: Seq<Seq<char>>)
    ensures
        compiled_alternatives(seq![a] + rest) == compiled_one(a) + compiled_alternatives(rest),
{
    let parts = seq![a] + rest;
    assert(parts[0] == a);
    assert(parts.skip(1) =~= rest);
    match compile_spec(a) {
        Ok(m) => {
            assert(compiled_alternatives(parts) =~= compiled_one(a) + compiled_alternatives(
                rest,
            ));
        },
        Err(_) => {
            assert(compiled_alternatives(parts) =~= compiled_one(a) + compiled_alternatives(
                rest,
            ));
        },
    }
}

/// Splits an expression on `|` and compiles each alternative independently;
/// an alternative that fails to compile is skipped. An empty expression is an
/// error.
#[verifier::loop_isolation(false)]
pub fn create_regular_expressions(expression: &str) -> (r: Result<Vec<Regex>, CompileError>)
    ensures
        match create_spec(expression@) {
            Ok(ms) => r matches Ok(v) && regexes_model(v@) == ms,
            Err(e) => r matches Err(e2) && e2 == e,
        },
{
    if expression.is_empty() {
        return Err(CompileError::EmptyExpression);
    }
    let ghost p = expression@;
    let n = expression.unicode_len();
    let mut regexes: Vec<Regex> = Vec::new();
    let mut start: usize = 0;
    let mut i: usize = 0;
    proof {
        assert(p.subrange(0, 0) =~= Seq::<char>::empty());
        assert(regexes_model(regexes@) =~= Seq::<RegexModel>::empty());
        assert(Seq::<RegexModel>::empty() + compiled_alternatives(split_alternatives(p))
            =~= compiled_alternatives(split_alternatives(p)));
    }
    while i < n
        invariant
            start <= i <= n,
            n == p.len(),
            compiled_alternatives(split_alternatives(p)) == regexes_model(regexes@)
                + compiled_alternatives(
                split_acc(p, i as int, p.subrange(start as int, i as int)),
            ),
        decreases n - i,
    {
        let c = expression.get_char(i);
        if c == '|' {
            let ghost cur = p.subrange(start as int, i as int);
            let ghost done = regexes_model(regexes@);
            let part = expression.substring_char(start, i);
            proof {
                lemma_compiled_cons(cur, split_acc(p, i as int + 1, Seq::empty()));
            }
            match Regex::new(part) {
                Ok(rg) => {
                    let ghost regexes0 = regexes@;
                    regexes.push(rg);
                    proof {
                        assert(regexes_model(regexes@) =~= regexes_model(regexes0).push(rg@));
                        assert(compiled_one(cur) =~= seq![rg@]);
                        assert(regexes_model(regexes@) =~= done + compiled_one(cur));
                    }
                },
                Err(_) => {
                    proof {
                        assert(compiled_one(cur) =~= Seq::<RegexModel>::empty());
                        assert(regexes_model(regexes@) =~= done + compiled_one(cur));
                    }
                },
            }
            proof {
                assert((done + compiled_one(cur)) + compiled_alternatives(
                    split_acc(p, i as int + 1, Seq::empty()),
                ) =~= done + (compiled_one(cur) + compiled_alternatives(
                    split_acc(p, i as int + 1, Seq::empty()),
                )));
                assert(p.subrange(i as int + 1, i as int + 1) =~= Seq::<char>::empty());
            }
            start = i + 1;
        } else {
            proof {
                assert(p.subrange(start as int, i as int + 1) =~= p.subrange(
                    start as int,
                    i as int,
                ).push(p[i as int]));
            }
        }
        i += 1;
    }
    let ghost cur = p.subrange(start as int, n as int);
    let ghost done = regexes_model(regexes@);
    let part = expression.substring_char(start, n);
    proof {
        assert(split_acc(p, n as int, cur) =~= seq![cur]);
        assert(seq![cur] =~= seq![cur] + Seq::<Seq<char>>::empty());
        lemma_compiled_cons(cur, Seq::empty());
        assert(compiled_alternatives(Seq::<Seq<char>>::empty()) =~= Seq::<RegexModel>::empty());
        assert(compiled_one(cur) + Seq::<RegexModel>::empty() =~= compiled_one(cur));
    }
    match Regex::new(part) {
        Ok(rg) => {
            let ghost regexes0 = regexes@;
            regexes.push(rg);
            proof {
                assert(regexes_model(regexes@) =~= regexes_model(regexes0).push(rg@));
                assert(compiled_one(cur) =~= seq![rg@]);
                assert(regexes_model(regexes@) =~= done + compiled_one(cur));
            }
        },
        Err(_) => {
            proof {
                assert(compiled_one(cur) =~= Seq::<RegexModel>::empty());
                assert(regexes_model(regexes@) =~= done + compiled_one(cur));
            }
        },
    }
    Ok(regexes)
}

} // verus!
