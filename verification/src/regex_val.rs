use vstd::prelude::*;

use crate::metachars::RegexClass;
use crate::metachars::class_matches;

verus! {

/// What a step compares a character against.
#[derive(Debug, PartialEq)]
pub enum RegexValue {
    /// An exact character.
    Literal(char),
    /// Any character.
    Wildcard,
    /// Membership in a named class.
    Class(RegexClass),
    /// Membership in an explicit character list.
    OneOf(Vec<char>),
}

/// Mathematical model of a `RegexValue`: the explicit character list becomes a
/// sequence.
#[verifier::ext_equal]
pub enum ValueModel {
    Literal(char),
    Wildcard,
    Class(RegexClass),
    OneOf(Seq<char>),
}

impl View for RegexValue {
    type V = ValueModel;

    open spec fn view(&self) -> ValueModel {
        match self {
            RegexValue::Literal(c) => ValueModel::Literal(*c),
            RegexValue::Wildcard => ValueModel::Wildcard,
            RegexValue::Class(class) => ValueModel::Class(*class),
            RegexValue::OneOf(chars) => ValueModel::OneOf(chars@),
        }
    }
}

/// Whether a single character satisfies a value: literal equality, wildcard
/// always, class membership, or set membership.
pub open spec fn value_matches(v: ValueModel, c: char) -> bool {
    match v {
        ValueModel::Literal(l) => c == l,
        ValueModel::Wildcard => true,
        ValueModel::Class(class) => class_matches(class, c),
        ValueModel::OneOf(s) => s.contains(c),
    }
}

} // verus!
