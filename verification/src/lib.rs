//! A recursive-descent parser for a minimal regular-expression syntax:
//! single-character terminals, concatenation, alternation (`|`), the Kleene
//! star (`*`), and grouping with parentheses.
//!
//! The parser consumes characters directly (there is no lexer stage) and
//! builds an abstract syntax tree bottom-up.  Its behaviour is specified by a
//! mathematical model of the grammar in [`model`], and every production of the
//! executable parser in [`parser`] is proved to return exactly what the model
//! prescribes.

pub mod ast;
pub mod model;
pub mod parser;
