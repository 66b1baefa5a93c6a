//! The grammar as a mathematical function from an input and a position to a
//! parse result and the position reached.
//!
//! One spec function stands for each production of the grammar, highest
//! precedence last:
//!
//! ```text
//! regex  ::= term ( '|' term )?
//! term   ::= factor*
//! factor ::= base ( '*' )?
//! base   ::= '(' regex ')' | TERMINAL
//! ```
//!
//! Each function returns the parsed node (or the first failure) together with
//! the position just past what it consumed; on a failure the position is
//! wherever parsing stopped.  The executable parser is proved to return
//! exactly these values.

use vstd::prelude::*;

use crate::ast::{Ast, ParseError};

verus! {

/// The failure produced when `expected` is required at `pos` but the input
/// holds a different character there, or ends before it.
pub open spec fn unexpected(s: Seq<char>, pos: int, expected: char) -> ParseError {
    ParseError {
        expected: expected,
        position: pos as usize,
        found: if 0 <= pos < s.len() {
            Some(s[pos])
        } else {
            None
        },
    }
}

/// Keeps the recursion of `term_at` well founded: clamps a successor
/// position into the window `pos < _ <= s.len()`.  A production always
/// consumes at least one character and never runs past the end, so on every
/// reachable argument this is the identity on `next`; the clamp only lets the
/// measure of the mutual recursion decrease syntactically.
pub open spec fn step_pos(s: Seq<char>, pos: int, next: int) -> int {
    if pos < next <= s.len() {
        next
    } else {
        pos + 1
    }
}

/// As `step_pos`, for `regex_at`, whose second term need not lie strictly
/// past `pos`: clamps into the window `pos <= _ <= s.len()`.
pub open spec fn bound_pos(s: Seq<char>, pos: int, next: int) -> int {
    if pos <= next <= s.len() {
        next
    } else {
        pos
    }
}

/// `base ::= '(' regex ')' | TERMINAL`.
///
/// Only called when a character remains and the caller has ruled out `)` and
/// `|`; any other character — `*` included — is taken as a terminal.  This is
/// the one production that can originate a failure: a group whose closing
/// `)` is missing.
pub open spec fn base_at(s: Seq<char>, pos: int) -> (Result<Ast, ParseError>, int)
    decreases s.len() - pos, 0int
        when 0 <= pos < s.len()
{
    if s[pos] == '(' {
        let (inner, p1) = regex_at(s, pos + 1);
        match inner {
            Ok(node) => if p1 < s.len() && s[p1] == ')' {
                (Ok(node), p1 + 1)
            } else {
                (Err(unexpected(s, p1, ')')), p1)
            },
            Err(e) => (Err(e), p1),
        }
    } else {
        (Ok(Ast::Terminal(s[pos])), pos + 1)
    }
}

/// `factor ::= base ( '*' )?`.  The star is checked exactly once, so a second
/// `*` is left for the enclosing term, whose next factor takes it as a
/// literal.
pub open spec fn factor_at(s: Seq<char>, pos: int) -> (Result<Ast, ParseError>, int)
    decreases s.len() - pos, 1int
        when 0 <= pos < s.len()
{
    let (b, p1) = base_at(s, pos);
    match b {
        Ok(node) => if p1 < s.len() && s[p1] == '*' {
            (Ok(Ast::Repetition(Box::new(node))), p1 + 1)
        } else {
            (Ok(node), p1)
        },
        Err(e) => (Err(e), p1),
    }
}

/// `term ::= factor*`: factors collected in order while a character remains
/// that is neither `)` nor `|`.  Zero iterations yield the empty sequence.
pub open spec fn term_at(s: Seq<char>, pos: int) -> (Result<Seq<Ast>, ParseError>, int)
    decreases s.len() - pos, 2int
        when 0 <= pos <= s.len()
{
    if pos < s.len() && s[pos] != ')' && s[pos] != '|' {
        let (f, p1) = factor_at(s, pos);
        match f {
            Ok(node) => {
                let (rest, p2) = term_at(s, step_pos(s, pos, p1));
                match rest {
                    Ok(nodes) => (Ok(seq![node] + nodes), p2),
                    Err(e) => (Err(e), p2),
                }
            },
            Err(e) => (Err(e), p1),
        }
    } else {
        (Ok(Seq::empty()), pos)
    }
}

/// `regex ::= term ( '|' term )?`.
///
/// At most one alternation is built per invocation: after `Or(first, second)`
/// the production returns, so on `a|b|c` the trailing `|c` is left
/// unconsumed.
pub open spec fn regex_at(s: Seq<char>, pos: int) -> (Result<Ast, ParseError>, int)
    decreases s.len() - pos, 3int
        when 0 <= pos <= s.len()
{
    let (t1, p1) = term_at(s, pos);
    match t1 {
        Ok(nodes) => {
            let q = bound_pos(s, pos, p1);
            if q < s.len() && s[q] == '|' {
                let (t2, p2) = term_at(s, q + 1);
                match t2 {
                    Ok(nodes2) => (
                        Ok(
                            Ast::Or(
                                Box::new(Ast::Sequence(nodes)),
                                Box::new(Ast::Sequence(nodes2)),
                            ),
                        ),
                        p2,
                    ),
                    Err(e) => (Err(e), p2),
                }
            } else {
                (Ok(Ast::Sequence(nodes)), q)
            }
        },
        Err(e) => (Err(e), p1),
    }
}

/// What parsing a whole input yields: the `regex` production applied at
/// position zero.  Trailing characters it does not consume are ignored, as
/// the entry point documents.
pub open spec fn parse_of(s: Seq<char>) -> Result<Ast, ParseError> {
    regex_at(s, 0).0
}

/// Wraps the factors of a term into the node the parser returns for it.
pub open spec fn term_node(m: Result<Seq<Ast>, ParseError>) -> Result<Ast, ParseError> {
    match m {
        Ok(nodes) => Ok(Ast::Sequence(nodes)),
        Err(e) => Err(e),
    }
}

/// Prepends already-parsed factors to the outcome of the rest of a term.
pub open spec fn term_join(
    pre: Seq<Ast>,
    t: (Result<Seq<Ast>, ParseError>, int),
) -> (Result<Seq<Ast>, ParseError>, int) {
    match t.0 {
        Ok(nodes) => (Ok(pre + nodes), t.1),
        Err(e) => (Err(e), t.1),
    }
}

/// `base` stays within the input, consumes at least one character, and can
/// fail only for a missing `)`.
proof fn lemma_base_bounds(s: Seq<char>, pos: int)
    requires
        0 <= pos < s.len(),
    ensures
        pos < base_at(s, pos).1 <= s.len(),
        base_at(s, pos).0 matches Err(e) ==> e.expected == ')',
    decreases s.len() - pos, 0int,
{
    if s[pos] == '(' {
        lemma_regex_bounds(s, pos + 1);
    }
}

/// As `lemma_base_bounds`, for `factor`.
proof fn lemma_factor_bounds(s: Seq<char>, pos: int)
    requires
        0 <= pos < s.len(),
    ensures
        pos < factor_at(s, pos).1 <= s.len(),
        factor_at(s, pos).0 matches Err(e) ==> e.expected == ')',
    decreases s.len() - pos, 1int,
{
    lemma_base_bounds(s, pos);
}

/// `term` stays within the input — it need not consume anything — and can
/// fail only for a missing `)`.
proof fn lemma_term_bounds(s: Seq<char>, pos: int)
    requires
        0 <= pos <= s.len(),
    ensures
        pos <= term_at(s, pos).1 <= s.len(),
        term_at(s, pos).0 matches Err(e) ==> e.expected == ')',
    decreases s.len() - pos, 2int,
{
    if pos < s.len() && s[pos] != ')' && s[pos] != '|' {
        lemma_factor_bounds(s, pos);
        if factor_at(s, pos).0 is Ok {
            lemma_term_bounds(s, factor_at(s, pos).1);
        }
    }
}

/// As `lemma_term_bounds`, for `regex`.
proof fn lemma_regex_bounds(s: Seq<char>, pos: int)
    requires
        0 <= pos <= s.len(),
    ensures
        pos <= regex_at(s, pos).1 <= s.len(),
        regex_at(s, pos).0 matches Err(e) ==> e.expected == ')',
    decreases s.len() - pos, 3int,
{
    lemma_term_bounds(s, pos);
    let p1 = term_at(s, pos).1;
    if term_at(s, pos).0 is Ok && p1 < s.len() && s[p1] == '|' {
        lemma_term_bounds(s, p1 + 1);
    }
}

/// A law of the error design: there is exactly one kind of failure in this
/// grammar, a group whose closing `)` is missing, so every error a parse
/// returns names `)` as the expected character.
pub proof fn lemma_every_failure_expects_close(s: Seq<char>)
    ensures
        parse_of(s) matches Err(e) ==> e.expected == ')',
{
    lemma_regex_bounds(s, 0);
}

/// No operator anywhere: every character of the input is a literal.
pub open spec fn literal_only(s: Seq<char>) -> bool {
    forall|i: int|
        0 <= i < s.len() ==> s[i] != '(' && s[i] != ')' && s[i] != '|' && s[i] != '*'
}

/// The leaf node for one literal character.
pub open spec fn terminal(c: char) -> Ast {
    Ast::Terminal(c)
}

/// One `Terminal` node per input character, in input order.
pub open spec fn terminals_of(s: Seq<char>) -> Seq<Ast>
    decreases s,
{
    if s.len() == 0 {
        Seq::empty()
    } else {
        seq![terminal(s[0])] + terminals_of(s.subrange(1, s.len() as int))
    }
}

/// `terminals_of` is pointwise what its name says.
pub proof fn lemma_terminals_of(s: Seq<char>)
    ensures
        terminals_of(s).len() == s.len(),
        forall|i: int| 0 <= i < s.len() ==> terminals_of(s)[i] == terminal(s[i]),
    decreases s,
{
    if s.len() > 0 {
        let rest = s.subrange(1, s.len() as int);
        lemma_terminals_of(rest);
        assert forall|i: int| 0 <= i < s.len() implies terminals_of(s)[i] == terminal(s[i]) by {
            if i > 0 {
                assert((seq![terminal(s[0])] + terminals_of(rest))[i] == terminals_of(
                    rest,
                )[i - 1]);
                assert(rest[i - 1] == s[i]);
            }
        }
    }
}

/// On literal-only input, a term consumes everything that remains, one
/// terminal per character.
proof fn lemma_literal_term(s: Seq<char>, pos: int)
    requires
        literal_only(s),
        0 <= pos <= s.len(),
    ensures
        term_at(s, pos) == (
            Ok::<Seq<Ast>, ParseError>(terminals_of(s.subrange(pos, s.len() as int))),
            s.len() as int,
        ),
    decreases s.len() - pos,
{
    let tail = s.subrange(pos, s.len() as int);
    if pos < s.len() {
        assert(factor_at(s, pos) == (Ok::<Ast, ParseError>(Ast::Terminal(s[pos])), pos + 1));
        lemma_literal_term(s, pos + 1);
        assert(tail.subrange(1, tail.len() as int) =~= s.subrange(pos + 1, s.len() as int));
        assert(seq![terminal(tail[0])] + terminals_of(s.subrange(pos + 1, s.len() as int))
            == terminals_of(tail));
    } else {
        assert(terminals_of(tail) =~= Seq::<Ast>::empty());
    }
}

/// A law of the grammar: an input consisting solely of literal characters —
/// no parenthesis, `|` or `*` anywhere — parses to a `Sequence` of
/// `Terminal` nodes, one per input character in input order, so the
/// sequence is exactly as long as the input.
pub proof fn lemma_literal_parse(s: Seq<char>)
    requires
        literal_only(s),
    ensures
        parse_of(s) == Ok::<Ast, ParseError>(Ast::Sequence(terminals_of(s))),
        terminals_of(s).len() == s.len(),
        forall|i: int| 0 <= i < s.len() ==> terminals_of(s)[i] == terminal(s[i]),
{
    lemma_terminals_of(s);
    lemma_literal_term(s, 0);
    assert(s.subrange(0, s.len() as int) =~= s);
    assert(bound_pos(s, 0, s.len() as int) == s.len() as int);
}

/// Prepending nothing changes nothing.
pub proof fn lemma_term_join_empty(t: (Result<Seq<Ast>, ParseError>, int))
    ensures
        term_join(Seq::empty(), t) == t,
{
    match t.0 {
        Ok(nodes) => {
            assert(Seq::empty() + nodes =~= nodes);
        },
        Err(e) => {},
    }
}

/// Factors can be prepended one at a time or all at once.
pub proof fn lemma_term_join_push(
    pre: Seq<Ast>,
    x: Ast,
    t: (Result<Seq<Ast>, ParseError>, int),
)
    ensures
        term_join(pre.push(x), t) == term_join(pre, term_join(seq![x], t)),
{
    match t.0 {
        Ok(nodes) => {
            assert(pre.push(x) + nodes =~= pre + (seq![x] + nodes));
        },
        Err(e) => {},
    }
}

} // verus!

