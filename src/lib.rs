//! Parser and evaluator for single-line boolean statements built from
//! variables, the connectives `&` and `|`, negation `!` and parentheses.

pub mod expr;
pub mod parser;
pub mod laws;
