use tp1::metachars::RegexClass;
use tp1::regex::Regex;
use tp1::regex_rep::RegexRep;
use tp1::regex_step::RegexStep;
use tp1::regex_val::RegexValue;
use tp1::type_of_line::RegexRestriction;

#[test]
fn wildcard() {
    let regex = Regex::new("a.b").unwrap();
    let expected = Regex {
        steps: vec![
            RegexStep { val: RegexValue::Literal('a'), rep: RegexRep::Exact(1) },
            RegexStep { val: RegexValue::Wildcard, rep: RegexRep::Exact(1) },
            RegexStep { val: RegexValue::Literal('b'), rep: RegexRep::Exact(1) },
        ],
        backtracking: None,
    };
    assert_eq!(regex, expected);
}

#[test]
fn literal() {
    let regex = Regex::new("abc").unwrap();
    let expected = Regex {
        steps: vec![
            RegexStep { val: RegexValue::Literal('a'), rep: RegexRep::Exact(1) },
            RegexStep { val: RegexValue::Literal('b'), rep: RegexRep::Exact(1) },
            RegexStep { val: RegexValue::Literal('c'), rep: RegexRep::Exact(1) },
        ],
        backtracking: None,
    };
    assert_eq!(regex, expected);
}

#[test]
fn zero_or_one() {
    let regex = Regex::new("a?b").unwrap();
    let expected = Regex {
        steps: vec![
            RegexStep { val: RegexValue::Literal('a'), rep: RegexRep::Range { min: None, max: Some(1) } },
            RegexStep { val: RegexValue::Literal('b'), rep: RegexRep::Exact(1) },
        ],
        backtracking: None,
    };
    assert_eq!(regex, expected);
}

#[test]
fn any() {
    let regex = Regex::new("a*b").unwrap();
    let expected = Regex {
        steps: vec![
            RegexStep { val: RegexValue::Literal('a'), rep: RegexRep::Range { min: None, max: None } },
            RegexStep { val: RegexValue::Literal('b'), rep: RegexRep::Exact(1) },
        ],
        backtracking: None,
    };
    assert_eq!(regex, expected);
}

#[test]
fn one_or_more() {
    let regex = Regex::new("a+b").unwrap();
    let expected = Regex {
        steps: vec![
            RegexStep { val: RegexValue::Literal('a'), rep: RegexRep::Range { min: Some(1), max: None } },
            RegexStep { val: RegexValue::Literal('b'), rep: RegexRep::Exact(1) },
        ],
        backtracking: None,
    };
    assert_eq!(regex, expected);
    let regex = Regex::new("ac+b").unwrap();
    let expected = Regex {
        steps: vec![
            RegexStep { val: RegexValue::Literal('a'), rep: RegexRep::Exact(1) },
            RegexStep { val: RegexValue::Literal('c'), rep: RegexRep::Range { min: Some(1), max: None } },
            RegexStep { val: RegexValue::Literal('b'), rep: RegexRep::Exact(1) },
        ],
        backtracking: None,
    };
    assert_eq!(regex, expected);
}

#[test]
fn n_times() {
    let regex = Regex::new("a{3}b").unwrap();
    let expected = Regex {
        steps: vec![
            RegexStep { val: RegexValue::Literal('a'), rep: RegexRep::Exact(3) },
            RegexStep { val: RegexValue::Literal('b'), rep: RegexRep::Exact(1) },
        ],
        backtracking: None,
    };
    assert_eq!(regex, expected);
}

#[test]
fn from_n_times() {
    let regex = Regex::new("a{3,}b").unwrap();
    let expected = Regex {
        steps: vec![
            RegexStep { val: RegexValue::Literal('a'), rep: RegexRep::Range { min: Some(3), max: None } },
            RegexStep { val: RegexValue::Literal('b'), rep: RegexRep::Exact(1) },
        ],
        backtracking: None,
    };
    assert_eq!(regex, expected);
}

#[test]
fn from_n_to_m_times() {
    let regex = Regex::new("a{3,5}b").unwrap();
    let expected = Regex {
        steps: vec![
            RegexStep { val: RegexValue::Literal('a'), rep: RegexRep::Range { min: Some(3), max: Some(5) } },
            RegexStep { val: RegexValue::Literal('b'), rep: RegexRep::Exact(1) },
        ],
        backtracking: None,
    };
    assert_eq!(regex, expected);
}

#[test]
fn to_m_times() {
    let regex = Regex::new("a{,5}b").unwrap();
    let expected = Regex {
        steps: vec![
            RegexStep { val: RegexValue::Literal('a'), rep: RegexRep::Range { min: None, max: Some(5) } },
            RegexStep { val: RegexValue::Literal('b'), rep: RegexRep::Exact(1) },
        ],
        backtracking: None,
    };
    assert_eq!(regex, expected);
}

#[test]
fn brackets_basic() {
    let regex = Regex::new("[abc]d").unwrap();
    let expected = Regex {
        steps: vec![
            RegexStep { val: RegexValue::OneOf(vec!['a', 'b', 'c']), rep: RegexRep::Exact(1) },
            RegexStep { val: RegexValue::Literal('d'), rep: RegexRep::Exact(1) },
        ],
        backtracking: None,
    };
    assert_eq!(regex, expected);
}

#[test]
fn not_brackets() {
    let regex = Regex::new("[^abc]d").unwrap();
    let expected = Regex {
        steps: vec![
            RegexStep { val: RegexValue::OneOf(vec!['a', 'b', 'c']), rep: RegexRep::Negated },
            RegexStep { val: RegexValue::Literal('d'), rep: RegexRep::Exact(1) },
        ],
        backtracking: None,
    };
    assert_eq!(regex, expected);
    let regex = Regex::new("[^a-z]d").unwrap();
    let expected = Regex {
        steps: vec![
            RegexStep { val: RegexValue::Class(RegexClass::Lower), rep: RegexRep::Negated },
            RegexStep { val: RegexValue::Literal('d'), rep: RegexRep::Exact(1) },
        ],
        backtracking: None,
    };
    assert_eq!(regex, expected);
}

#[test]
fn character_class() {
    let regex = Regex::new("[[:alpha:]]").unwrap();
    let expected = Regex {
        steps: vec![
            RegexStep { val: RegexValue::Class(RegexClass::Alpha), rep: RegexRep::Exact(1) },
        ],
        backtracking: None,
    };
    assert_eq!(regex, expected);
    let regex = Regex::new("[[:alnum:]]").unwrap();
    let expected = Regex {
        steps: vec![
            RegexStep { val: RegexValue::Class(RegexClass::Alnum), rep: RegexRep::Exact(1) },
        ],
        backtracking: None,
    };
    assert_eq!(regex, expected);
    let regex = Regex::new("[[:digit:]]").unwrap();
    let expected = Regex {
        steps: vec![
            RegexStep { val: RegexValue::Class(RegexClass::Digit), rep: RegexRep::Exact(1) },
        ],
        backtracking: None,
    };
    assert_eq!(regex, expected);
}

#[test]
fn start_of_line() {
    let regex = Regex::new("^a").unwrap();
    let expected = Regex {
        steps: vec![
            RegexStep { val: RegexValue::Literal('a'), rep: RegexRep::Exact(1) },
        ],
        backtracking: Some(vec![RegexRestriction::StartOfLine]),
    };
    assert_eq!(regex, expected);
}

#[test]
fn end_of_line() {
    let regex = Regex::new("a$").unwrap();
    let expected = Regex {
        steps: vec![
            RegexStep { val: RegexValue::Literal('a'), rep: RegexRep::Exact(1) },
        ],
        backtracking: Some(vec![RegexRestriction::EndOfLine]),
    };
    assert_eq!(regex, expected);
}

#[test]
fn escape_sequence() {
    let regex = Regex::new("\\.").unwrap();
    let expected = Regex {
        steps: vec![
            RegexStep { val: RegexValue::Literal('.'), rep: RegexRep::Exact(1) },
        ],
        backtracking: None,
    };
    assert_eq!(regex, expected);
}

#[test]
fn regex_1() {
    let regex = Regex::new("ab.cd").unwrap();
    let expected = Regex {
        steps: vec![
            RegexStep { val: RegexValue::Literal('a'), rep: RegexRep::Exact(1) },
            RegexStep { val: RegexValue::Literal('b'), rep: RegexRep::Exact(1) },
            RegexStep { val: RegexValue::Wildcard, rep: RegexRep::Exact(1) },
            RegexStep { val: RegexValue::Literal('c'), rep: RegexRep::Exact(1) },
            RegexStep { val: RegexValue::Literal('d'), rep: RegexRep::Exact(1) },
        ],
        backtracking: None,
    };
    assert_eq!(regex, expected);
}

#[test]
fn regex_2() {
    let regex = Regex::new("ab.*cd").unwrap();
    let expected = Regex {
        steps: vec![
            RegexStep { val: RegexValue::Literal('a'), rep: RegexRep::Exact(1) },
            RegexStep { val: RegexValue::Literal('b'), rep: RegexRep::Exact(1) },
            RegexStep { val: RegexValue::Wildcard, rep: RegexRep::Range { min: None, max: None } },
            RegexStep { val: RegexValue::Literal('c'), rep: RegexRep::Exact(1) },
            RegexStep { val: RegexValue::Literal('d'), rep: RegexRep::Exact(1) },
        ],
        backtracking: None,
    };
    assert_eq!(regex, expected);
}

#[test]
fn regex_3() {
    let regex = Regex::new("a[bc]d").unwrap();
    let expected = Regex {
        steps: vec![
            RegexStep { val: RegexValue::Literal('a'), rep: RegexRep::Exact(1) },
            RegexStep { val: RegexValue::OneOf(vec!['b', 'c']), rep: RegexRep::Exact(1) },
            RegexStep { val: RegexValue::Literal('d'), rep: RegexRep::Exact(1) },
        ],
        backtracking: None,
    };
    assert_eq!(regex, expected);
}

#[test]
fn regex_4() {
    let regex = Regex::new("ab{2,4}cd").unwrap();
    let expected = Regex {
        steps: vec![
            RegexStep { val: RegexValue::Literal('a'), rep: RegexRep::Exact(1) },
            RegexStep { val: RegexValue::Literal('b'), rep: RegexRep::Range { min: Some(2), max: Some(4) } },
            RegexStep { val: RegexValue::Literal('c'), rep: RegexRep::Exact(1) },
            RegexStep { val: RegexValue::Literal('d'), rep: RegexRep::Exact(1) },
        ],
        backtracking: None,
    };
    assert_eq!(regex, expected);
}

#[test]
fn regex_6() {
    let regex = Regex::new("la [aeiou] es una vocal").unwrap();
    let expected = Regex {
        steps: vec![
            RegexStep { val: RegexValue::Literal('l'), rep: RegexRep::Exact(1) },
            RegexStep { val: RegexValue::Literal('a'), rep: RegexRep::Exact(1) },
            RegexStep { val: RegexValue::Literal(' '), rep: RegexRep::Exact(1) },
            RegexStep { val: RegexValue::OneOf(vec!['a', 'e', 'i', 'o', 'u']), rep: RegexRep::Exact(1) },
            RegexStep { val: RegexValue::Literal(' '), rep: RegexRep::Exact(1) },
            RegexStep { val: RegexValue::Literal('e'), rep: RegexRep::Exact(1) },
            RegexStep { val: RegexValue::Literal('s'), rep: RegexRep::Exact(1) },
            RegexStep { val: RegexValue::Literal(' '), rep: RegexRep::Exact(1) },
            RegexStep { val: RegexValue::Literal('u'), rep: RegexRep::Exact(1) },
            RegexStep { val: RegexValue::Literal('n'), rep: RegexRep::Exact(1) },
            RegexStep { val: RegexValue::Literal('a'), rep: RegexRep::Exact(1) },
            RegexStep { val: RegexValue::Literal(' '), rep: RegexRep::Exact(1) },
            RegexStep { val: RegexValue::Literal('v'), rep: RegexRep::Exact(1) },
            RegexStep { val: RegexValue::Literal('o'), rep: RegexRep::Exact(1) },
            RegexStep { val: RegexValue::Literal('c'), rep: RegexRep::Exact(1) },
            RegexStep { val: RegexValue::Literal('a'), rep: RegexRep::Exact(1) },
            RegexStep { val: RegexValue::Literal('l'), rep: RegexRep::Exact(1) },
        ],
        backtracking: None,
    };
    assert_eq!(regex, expected);
}

#[test]
fn regex_7() {
    let regex = Regex::new("la [^aeiou] no es una vocal").unwrap();
    let expected = Regex {
        steps: vec![
            RegexStep { val: RegexValue::Literal('l'), rep: RegexRep::Exact(1) },
            RegexStep { val: RegexValue::Literal('a'), rep: RegexRep::Exact(1) },
            RegexStep { val: RegexValue::Literal(' '), rep: RegexRep::Exact(1) },
            RegexStep { val: RegexValue::OneOf(vec!['a', 'e', 'i', 'o', 'u']), rep: RegexRep::Negated },
            RegexStep { val: RegexValue::Literal(' '), rep: RegexRep::Exact(1) },
            RegexStep { val: RegexValue::Literal('n'), rep: RegexRep::Exact(1) },
            RegexStep { val: RegexValue::Literal('o'), rep: RegexRep::Exact(1) },
            RegexStep { val: RegexValue::Literal(' '), rep: RegexRep::Exact(1) },
            RegexStep { val: RegexValue::Literal('e'), rep: RegexRep::Exact(1) },
            RegexStep { val: RegexValue::Literal('s'), rep: RegexRep::Exact(1) },
            RegexStep { val: RegexValue::Literal(' '), rep: RegexRep::Exact(1) },
            RegexStep { val: RegexValue::Literal('u'), rep: RegexRep::Exact(1) },
            RegexStep { val: RegexValue::Literal('n'), rep: RegexRep::Exact(1) },
            RegexStep { val: RegexValue::Literal('a'), rep: RegexRep::Exact(1) },
            RegexStep { val: RegexValue::Literal(' '), rep: RegexRep::Exact(1) },
            RegexStep { val: RegexValue::Literal('v'), rep: RegexRep::Exact(1) },
            RegexStep { val: RegexValue::Literal('o'), rep: RegexRep::Exact(1) },
            RegexStep { val: RegexValue::Literal('c'), rep: RegexRep::Exact(1) },
            RegexStep { val: RegexValue::Literal('a'), rep: RegexRep::Exact(1) },
            RegexStep { val: RegexValue::Literal('l'), rep: RegexRep::Exact(1) },
        ],
        backtracking: None,
    };
    assert_eq!(regex, expected);
}

#[test]
fn regex_8() {
    let regex = Regex::new("hola [[:alpha:]]+").unwrap();
    let expected = Regex {
        steps: vec![
            RegexStep { val: RegexValue::Literal('h'), rep: RegexRep::Exact(1) },
            RegexStep { val: RegexValue::Literal('o'), rep: RegexRep::Exact(1) },
            RegexStep { val: RegexValue::Literal('l'), rep: RegexRep::Exact(1) },
            RegexStep { val: RegexValue::Literal('a'), rep: RegexRep::Exact(1) },
            RegexStep { val: RegexValue::Literal(' '), rep: RegexRep::Exact(1) },
            RegexStep { val: RegexValue::Class(RegexClass::Alpha), rep: RegexRep::Range { min: Some(1), max: None } },
        ],
        backtracking: None,
    };
    assert_eq!(regex, expected);
}

#[test]
fn regex_9() {
    let regex = Regex::new("[[:digit:]] es un numero").unwrap();
    let expected = Regex {
        steps: vec![
            RegexStep { val: RegexValue::Class(RegexClass::Digit), rep: RegexRep::Exact(1) },
            RegexStep { val: RegexValue::Literal(' '), rep: RegexRep::Exact(1) },
            RegexStep { val: RegexValue::Literal('e'), rep: RegexRep::Exact(1) },
            RegexStep { val: RegexValue::Literal('s'), rep: RegexRep::Exact(1) },
            RegexStep { val: RegexValue::Literal(' '), rep: RegexRep::Exact(1) },
            RegexStep { val: RegexValue::Literal('u'), rep: RegexRep::Exact(1) },
            RegexStep { val: RegexValue::Literal('n'), rep: RegexRep::Exact(1) },
            RegexStep { val: RegexValue::Literal(' '), rep: RegexRep::Exact(1) },
            RegexStep { val: RegexValue::Literal('n'), rep: RegexRep::Exact(1) },
            RegexStep { val: RegexValue::Literal('u'), rep: RegexRep::Exact(1) },
            RegexStep { val: RegexValue::Literal('m'), rep: RegexRep::Exact(1) },
            RegexStep { val: RegexValue::Literal('e'), rep: RegexRep::Exact(1) },
            RegexStep { val: RegexValue::Literal('r'), rep: RegexRep::Exact(1) },
            RegexStep { val: RegexValue::Literal('o'), rep: RegexRep::Exact(1) },
        ],
        backtracking: None,
    };
    assert_eq!(regex, expected);
}

#[test]
fn regex_10() {
    let regex = Regex::new("[[:alnum:]] no es simbolo").unwrap();
    let expected = Regex {
        steps: vec![
            RegexStep { val: RegexValue::Class(RegexClass::Alnum), rep: RegexRep::Exact(1) },
            RegexStep { val: RegexValue::Literal(' '), rep: RegexRep::Exact(1) },
            RegexStep { val: RegexValue::Literal('n'), rep: RegexRep::Exact(1) },
            RegexStep { val: RegexValue::Literal('o'), rep: RegexRep::Exact(1) },
            RegexStep { val: RegexValue::Literal(' '), rep: RegexRep::Exact(1) },
            RegexStep { val: RegexValue::Literal('e'), rep: RegexRep::Exact(1) },
            RegexStep { val: RegexValue::Literal('s'), rep: RegexRep::Exact(1) },
            RegexStep { val: RegexValue::Literal(' '), rep: RegexRep::Exact(1) },
            RegexStep { val: RegexValue::Literal('s'), rep: RegexRep::Exact(1) },
            RegexStep { val: RegexValue::Literal('i'), rep: RegexRep::Exact(1) },
            RegexStep { val: RegexValue::Literal('m'), rep: RegexRep::Exact(1) },
            RegexStep { val: RegexValue::Literal('b'), rep: RegexRep::Exact(1) },
            RegexStep { val: RegexValue::Literal('o'), rep: RegexRep::Exact(1) },
            RegexStep { val: RegexValue::Literal('l'), rep: RegexRep::Exact(1) },
            RegexStep { val: RegexValue::Literal('o'), rep: RegexRep::Exact(1) },
        ],
        backtracking: None,
    };
    assert_eq!(regex, expected);
}

#[test]
fn regex_11() {
    let regex = Regex::new("hola[[:space:]]mundo").unwrap();
    let expected = Regex {
        steps: vec![
            RegexStep { val: RegexValue::Literal('h'), rep: RegexRep::Exact(1) },
            RegexStep { val: RegexValue::Literal('o'), rep: RegexRep::Exact(1) },
            RegexStep { val: RegexValue::Literal('l'), rep: RegexRep::Exact(1) },
            RegexStep { val: RegexValue::Literal('a'), rep: RegexRep::Exact(1) },
            RegexStep { val: RegexValue::Class(RegexClass::Space), rep: RegexRep::Exact(1) },
            RegexStep { val: RegexValue::Literal('m'), rep: RegexRep::Exact(1) },
            RegexStep { val: RegexValue::Literal('u'), rep: RegexRep::Exact(1) },
            RegexStep { val: RegexValue::Literal('n'), rep: RegexRep::Exact(1) },
            RegexStep { val: RegexValue::Literal('d'), rep: RegexRep::Exact(1) },
            RegexStep { val: RegexValue::Literal('o'), rep: RegexRep::Exact(1) },
        ],
        backtracking: None,
    };
    assert_eq!(regex, expected);
}

#[test]
fn regex_12() {
    let regex = Regex::new("[[:upper:]]ascal[[:upper:]]ase").unwrap();
    let expected = Regex {
        steps: vec![
            RegexStep { val: RegexValue::Class(RegexClass::Upper), rep: RegexRep::Exact(1) },
            RegexStep { val: RegexValue::Literal('a'), rep: RegexRep::Exact(1) },
            RegexStep { val: RegexValue::Literal('s'), rep: RegexRep::Exact(1) },
            RegexStep { val: RegexValue::Literal('c'), rep: RegexRep::Exact(1) },
            RegexStep { val: RegexValue::Literal('a'), rep: RegexRep::Exact(1) },
            RegexStep { val: RegexValue::Literal('l'), rep: RegexRep::Exact(1) },
            RegexStep { val: RegexValue::Class(RegexClass::Upper), rep: RegexRep::Exact(1) },
            RegexStep { val: RegexValue::Literal('a'), rep: RegexRep::Exact(1) },
            RegexStep { val: RegexValue::Literal('s'), rep: RegexRep::Exact(1) },
            RegexStep { val: RegexValue::Literal('e'), rep: RegexRep::Exact(1) },
        ],
        backtracking: None,
    };
    assert_eq!(regex, expected);
}

#[test]
fn regex_13() {
    let regex = Regex::new("es el fin$").unwrap();
    let expected = Regex {
        steps: vec![
            RegexStep { val: RegexValue::Literal('e'), rep: RegexRep::Exact(1) },
            RegexStep { val: RegexValue::Literal('s'), rep: RegexRep::Exact(1) },
            RegexStep { val: RegexValue::Literal(' '), rep: RegexRep::Exact(1) },
            RegexStep { val: RegexValue::Literal('e'), rep: RegexRep::Exact(1) },
            RegexStep { val: RegexValue::Literal('l'), rep: RegexRep::Exact(1) },
            RegexStep { val: RegexValue::Literal(' '), rep: RegexRep::Exact(1) },
            RegexStep { val: RegexValue::Literal('f'), rep: RegexRep::Exact(1) },
            RegexStep { val: RegexValue::Literal('i'), rep: RegexRep::Exact(1) },
            RegexStep { val: RegexValue::Literal('n'), rep: RegexRep::Exact(1) },
        ],
        backtracking: Some(vec![RegexRestriction::EndOfLine]),
    };
    assert_eq!(regex, expected);
}

#[test]
fn regex_14() {
    let regex = Regex::new("^empiezo").unwrap();
    let expected = Regex {
        steps: vec![
            RegexStep { val: RegexValue::Literal('e'), rep: RegexRep::Exact(1) },
            RegexStep { val: RegexValue::Literal('m'), rep: RegexRep::Exact(1) },
            RegexStep { val: RegexValue::Literal('p'), rep: RegexRep::Exact(1) },
            RegexStep { val: RegexValue::Literal('i'), rep: RegexRep::Exact(1) },
            RegexStep { val: RegexValue::Literal('e'), rep: RegexRep::Exact(1) },
            RegexStep { val: RegexValue::Literal('z'), rep: RegexRep::Exact(1) },
            RegexStep { val: RegexValue::Literal('o'), rep: RegexRep::Exact(1) },
        ],
        backtracking: Some(vec![RegexRestriction::StartOfLine]),
    };
    assert_eq!(regex, expected);
}

