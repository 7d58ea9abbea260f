use tp1::errors::CompileError;
use tp1::matching::compare_regex_with_expression;
use tp1::matching::compare_regexes_with_expression;
use tp1::regex::Regex;
use tp1::regular_expressions::create_regular_expressions;

fn find(pattern: &str, line: &str) -> String {
    let regex = Regex::new(pattern).unwrap();
    compare_regex_with_expression(&regex, line)
}

#[test]
fn literal_pattern_finds_contained_word() {
    assert_eq!(find("abc", "xxabcyy"), "abc".to_string());
    assert_eq!(find("abc", "abc"), "abc".to_string());
    assert_eq!(find("abc", "xxabyy"), "".to_string());
}

#[test]
fn wildcard_matches_digits_and_punctuation() {
    assert_eq!(find(".", "5"), "5".to_string());
    assert_eq!(find(".", "!"), "!".to_string());
    assert_eq!(find(".", " "), " ".to_string());
}

#[test]
fn wildcard_matches_newline_character() {
    // lines are assumed newline-free records, but a stray newline inside a
    // line is still a character: the wildcard accepts it
    assert_eq!(find(".", "\n"), "\n".to_string());
}

#[test]
fn range_is_greedy_when_nothing_follows() {
    assert_eq!(find("a{2,4}", "aaaa"), "aaaa".to_string());
    assert_eq!(find("a{2,4}", "aaaaaa"), "aaaa".to_string());
}

#[test]
fn range_backs_off_for_the_rest_of_the_pattern() {
    assert_eq!(find("a{2,4}b", "aaaab"), "aaaab".to_string());
    assert_eq!(find("a{2,4}b", "aaab"), "aaab".to_string());
}

#[test]
fn negated_set_rejects_members_accepts_others() {
    assert_eq!(find("[^abc]", "a"), "".to_string());
    assert_eq!(find("[^abc]", "b"), "".to_string());
    assert_eq!(find("[^abc]", "c"), "".to_string());
    assert_eq!(find("[^abc]", "d"), "d".to_string());
}

#[test]
fn start_anchor_forbids_sliding() {
    assert_eq!(find("^a", "a"), "a".to_string());
    assert_eq!(find("^a", "ba"), "".to_string());
}

#[test]
fn end_anchor_requires_line_end() {
    assert_eq!(find("a$", "a"), "a".to_string());
    assert_eq!(find("a$", "ab"), "".to_string());
    assert_eq!(find("a$", "ba"), "a".to_string());
}

#[test]
fn compilation_is_deterministic() {
    let first = Regex::new("a{2,4}[^xyz]$").unwrap();
    let second = Regex::new("a{2,4}[^xyz]$").unwrap();
    assert_eq!(first.steps, second.steps);
    assert_eq!(first.backtracking, second.backtracking);
}

#[test]
fn alternation_reports_any_matching_alternative() {
    let regexes = create_regular_expressions("a|b").unwrap();
    assert!(compare_regexes_with_expression(&regexes, "c".to_string()).is_err());
    assert_eq!(
        compare_regexes_with_expression(&regexes, "xbz".to_string()),
        Ok("xbz".to_string())
    );
}

#[test]
fn scenario_exact_two() {
    assert_eq!(find("a{2}", "aaa"), "aa".to_string());
}

#[test]
fn scenario_digit_plus_line_match() {
    let regexes = create_regular_expressions("[[:digit:]]+").unwrap();
    assert_eq!(
        compare_regexes_with_expression(&regexes, "id42".to_string()),
        Ok("id42".to_string())
    );
}

#[test]
fn scenario_anchored_vowel() {
    assert_eq!(find("^[aeiou]", "apple"), "a".to_string());
    assert_eq!(find("^[aeiou]", "grape"), "".to_string());
}

#[test]
fn scenario_three_way_alternation() {
    let regexes = create_regular_expressions("a|b|c").unwrap();
    assert!(compare_regexes_with_expression(&regexes, "xyz".to_string()).is_err());
    assert_eq!(
        compare_regexes_with_expression(&regexes, "xbz".to_string()),
        Ok("xbz".to_string())
    );
}

#[test]
fn scenario_negated_line_match() {
    let regexes = create_regular_expressions("[^abc]").unwrap();
    assert!(compare_regexes_with_expression(&regexes, "a".to_string()).is_err());
    assert_eq!(
        compare_regexes_with_expression(&regexes, "d".to_string()),
        Ok("d".to_string())
    );
}

#[test]
fn error_non_ascii() {
    assert_eq!(Regex::new("caf\u{e9}"), Err(CompileError::NonAscii));
}

#[test]
fn error_empty_expression() {
    assert_eq!(Regex::new(""), Err(CompileError::EmptyExpression));
    assert_eq!(Regex::new("^"), Err(CompileError::EmptyExpression));
}

#[test]
fn error_invalid_character() {
    assert_eq!(Regex::new("a#b"), Err(CompileError::InvalidCharacter));
}

#[test]
fn error_unexpected_quantifier() {
    assert_eq!(Regex::new("*ab"), Err(CompileError::UnexpectedQuantifier('*')));
    assert_eq!(Regex::new("+ab"), Err(CompileError::UnexpectedQuantifier('+')));
    assert_eq!(Regex::new("?ab"), Err(CompileError::UnexpectedQuantifier('?')));
    assert_eq!(Regex::new("{2}ab"), Err(CompileError::UnexpectedQuantifier('{')));
}

#[test]
fn error_bad_range_syntax() {
    assert_eq!(Regex::new("a{x}"), Err(CompileError::BadRangeSyntax));
    assert_eq!(Regex::new("a{}"), Err(CompileError::BadRangeSyntax));
    assert_eq!(Regex::new("a{1,2,3}"), Err(CompileError::BadRangeSyntax));
    assert_eq!(Regex::new("a{4,2}"), Err(CompileError::BadRangeSyntax));
}

#[test]
fn error_dangling_escape() {
    assert_eq!(Regex::new("ab\\"), Err(CompileError::DanglingEscape));
}

#[test]
fn error_empty_bracket() {
    assert_eq!(Regex::new("[]a"), Err(CompileError::EmptyBracket));
}

#[test]
fn error_invalid_caret_usage() {
    assert_eq!(Regex::new("[^]a"), Err(CompileError::InvalidCaretUsage));
}

#[test]
fn error_invalid_metachar() {
    assert_eq!(Regex::new("[[:foo:]]"), Err(CompileError::InvalidMetachar));
}

#[test]
fn failed_alternative_is_skipped() {
    let regexes = create_regular_expressions("*|b").unwrap();
    assert_eq!(regexes.len(), 1);
    assert_eq!(
        compare_regexes_with_expression(&regexes, "abc".to_string()),
        Ok("abc".to_string())
    );
}

#[test]
fn empty_line_never_matches() {
    assert_eq!(find("a*", ""), "".to_string());
    assert_eq!(find("a", ""), "".to_string());
}
