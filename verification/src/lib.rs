//! A small extended-regular-expression engine: a pattern compiler that turns a
//! pattern string into a sequence of match steps plus line anchors, and a
//! backtracking matcher that evaluates the steps against an input line.

pub mod errors;
pub mod metachars;
pub mod regex_rep;
pub mod regex_val;
pub mod regex_step;
pub mod type_of_line;
pub mod text;
pub mod exactrep;
pub mod brackets;
pub mod range;
pub mod regex;
pub mod regular_expressions;
pub mod laws;
pub mod semantics;
pub mod matching;
