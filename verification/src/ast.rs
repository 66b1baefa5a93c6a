//! The abstract syntax tree produced by the parser, its mathematical
//! abstraction, and the error value reported on a failed parse.

use vstd::prelude::*;

verus! {

/// One node of the abstract syntax tree.
///
/// A node is a closed, tagged variant with four cases; every composite node
/// exclusively owns its children, so a value of this type is always a finite
/// tree.
#[derive(PartialEq, Eq, Debug)]
pub enum RegEx {
    /// Alternation between exactly two sub-patterns (left, right).
    Or(Box<RegEx>, Box<RegEx>),
    /// Concatenation of the sub-patterns in order; an empty list matches the
    /// empty string.
    Sequence(Vec<Box<RegEx>>),
    /// Zero or more repetitions of the sub-pattern (Kleene star).
    Repetition(Box<RegEx>),
    /// Exactly one literal character.
    Terminal(char),
}

/// The mathematical counterpart of [`RegEx`]: the same four node shapes, with
/// the concatenation list held as a `Seq`.  Contracts and the grammar model
/// speak of this type.
pub enum Ast {
    /// Alternation between exactly two sub-patterns (left, right).
    Or(Box<Ast>, Box<Ast>),
    /// Concatenation of the sub-patterns in order.
    Sequence(Seq<Ast>),
    /// Zero or more repetitions of the sub-pattern.
    Repetition(Box<Ast>),
    /// Exactly one literal character.
    Terminal(char),
}

/// The abstraction of one node: structurally identical, with every
/// concatenation list abstracted to a `Seq`.
pub open spec fn regex_ast(r: RegEx) -> Ast
    decreases r,
{
    match r {
        RegEx::Or(a, b) => Ast::Or(Box::new(regex_ast(*a)), Box::new(regex_ast(*b))),
        RegEx::Sequence(v) => Ast::Sequence(seq_ast(v@)),
        RegEx::Repetition(a) => Ast::Repetition(Box::new(regex_ast(*a))),
        RegEx::Terminal(c) => Ast::Terminal(c),
    }
}

/// The elementwise abstraction of a list of nodes.
pub open spec fn seq_ast(v: Seq<Box<RegEx>>) -> Seq<Ast>
    decreases v,
{
    if v.len() == 0 {
        Seq::empty()
    } else {
        seq_ast(v.subrange(0, v.len() - 1)).push(regex_ast(*v[v.len() - 1]))
    }
}

impl View for RegEx {
    type V = Ast;

    open spec fn view(&self) -> Ast {
        regex_ast(*self)
    }
}

/// Appending one node abstracts to appending its abstraction.
pub proof fn lemma_seq_ast_push(v: Seq<Box<RegEx>>, b: Box<RegEx>)
    ensures
        seq_ast(v.push(b)) == seq_ast(v).push(regex_ast(*b)),
{
    assert(v.push(b).subrange(0, v.push(b).len() - 1) =~= v);
}

/// The error reported when parsing fails: the character that was required,
/// the zero-based position at which it was required, and the character
/// actually found there (`None` when the input was exhausted).
///
/// The parser reports every unmet expectation — including a required
/// character that lies past the end of the input — as a value of this type;
/// no input can make it panic.
#[derive(PartialEq, Eq, Debug, Clone, Copy)]
pub struct ParseError {
    /// The character the grammar required at `position`.
    pub expected: char,
    /// The zero-based position in the input at which the mismatch occurred.
    pub position: usize,
    /// The character actually encountered, or `None` at the end of the input.
    pub found: Option<char>,
}

/// What a parse returns: the root node of the tree, or the first failure.
pub type ParseResult = Result<RegEx, ParseError>;

} // verus!
