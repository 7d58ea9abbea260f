use vstd::prelude::*;

use crate::errors::CompileError;

verus! {

/// The named character classes understood by bracket expressions.
#[derive(Debug, PartialEq, Eq, Clone, Copy)]
pub enum RegexClass {
    /// ASCII letters.
    Alpha,
    /// ASCII letters and digits.
    Alnum,
    /// ASCII digits.
    Digit,
    /// ASCII lowercase letters.
    Lower,
    /// ASCII uppercase letters.
    Upper,
    /// ASCII whitespace.
    Space,
    /// ASCII punctuation.
    Punct,
}

/// What it means for a character to belong to a named class.
/// Classification is ASCII-oriented: non-ASCII characters belong to no class.
pub open spec fn class_matches(class: RegexClass, c: char) -> bool {
    let v = c as u32;
    match class {
        RegexClass::Alpha => (65 <= v && v <= 90) || (97 <= v && v <= 122),
        RegexClass::Alnum => (48 <= v && v <= 57) || (65 <= v && v <= 90) || (97 <= v && v <= 122),
        RegexClass::Digit => 48 <= v && v <= 57,
        RegexClass::Lower => 97 <= v && v <= 122,
        RegexClass::Upper => 65 <= v && v <= 90,
        RegexClass::Space => v == 32 || v == 9 || v == 10 || v == 12 || v == 13,
        RegexClass::Punct => (33 <= v && v <= 47) || (58 <= v && v <= 64) || (91 <= v && v <= 96)
            || (123 <= v && v <= 126),
    }
}

/// The class denoted by a `:name:` token, if the name is one of the seven known
/// class names.
pub open spec fn metachar_class(n: Seq<char>) -> Option<RegexClass> {
    if n == seq![':', 'a', 'l', 'p', 'h', 'a', ':'] {
        Some(RegexClass::Alpha)
    } else if n == seq![':', 'a', 'l', 'n', 'u', 'm', ':'] {
        Some(RegexClass::Alnum)
    } else if n == seq![':', 'd', 'i', 'g', 'i', 't', ':'] {
        Some(RegexClass::Digit)
    } else if n == seq![':', 'l', 'o', 'w', 'e', 'r', ':'] {
        Some(RegexClass::Lower)
    } else if n == seq![':', 'u', 'p', 'p', 'e', 'r', ':'] {
        Some(RegexClass::Upper)
    } else if n == seq![':', 'p', 'u', 'n', 'c', 't', ':'] {
        Some(RegexClass::Punct)
    } else if n == seq![':', 's', 'p', 'a', 'c', 'e', ':'] {
        Some(RegexClass::Space)
    } else {
        None
    }
}

/// Looks up a `:name:` token in the class table; an unknown name is an error,
/// never a silent default.
pub fn handle_metachar(n: &Vec<char>) -> (r: Result<RegexClass, CompileError>)
    ensures
        r == (match metachar_class(n@) {
            Some(class) => Ok::<RegexClass, CompileError>(class),
            None => Err::<RegexClass, CompileError>(CompileError::InvalidMetachar),
        }),
{
    if n.len() == 7 && n[0] == ':' && n[6] == ':' {
        let c1 = n[1];
        let c2 = n[2];
        let c3 = n[3];
        let c4 = n[4];
        let c5 = n[5];
        if c1 == 'a' && c2 == 'l' && c3 == 'p' && c4 == 'h' && c5 == 'a' {
            proof {
                assert(n@ =~= seq![':', 'a', 'l', 'p', 'h', 'a', ':']);
            }
            Ok(RegexClass::Alpha)
        } else if c1 == 'a' && c2 == 'l' && c3 == 'n' && c4 == 'u' && c5 == 'm' {
            proof {
                assert(n@ =~= seq![':', 'a', 'l', 'n', 'u', 'm', ':']);
            }
            Ok(RegexClass::Alnum)
        } else if c1 == 'd' && c2 == 'i' && c3 == 'g' && c4 == 'i' && c5 == 't' {
            proof {
                assert(n@ =~= seq![':', 'd', 'i', 'g', 'i', 't', ':']);
            }
            Ok(RegexClass::Digit)
        } else if c1 == 'l' && c2 == 'o' && c3 == 'w' && c4 == 'e' && c5 == 'r' {
            proof {
                assert(n@ =~= seq![':', 'l', 'o', 'w', 'e', 'r', ':']);
            }
            Ok(RegexClass::Lower)
        } else if c1 == 'u' && c2 == 'p' && c3 == 'p' && c4 == 'e' && c5 == 'r' {
            proof {
                assert(n@ =~= seq![':', 'u', 'p', 'p', 'e', 'r', ':']);
            }
            Ok(RegexClass::Upper)
        } else if c1 == 'p' && c2 == 'u' && c3 == 'n' && c4 == 'c' && c5 == 't' {
            proof {
                assert(n@ =~= seq![':', 'p', 'u', 'n', 'c', 't', ':']);
            }
            Ok(RegexClass::Punct)
        } else if c1 == 's' && c2 == 'p' && c3 == 'a' && c4 == 'c' && c5 == 'e' {
            proof {
                assert(n@ =~= seq![':', 's', 'p', 'a', 'c', 'e', ':']);
            }
            Ok(RegexClass::Space)
        } else {
            Err(CompileError::InvalidMetachar)
        }
    } else {
        Err(CompileError::InvalidMetachar)
    }
}

} // verus!
