//! The executable parser: a character sequence, a cursor, and one method per
//! grammar production, each proved to return exactly what the corresponding
//! model function prescribes.

use vstd::prelude::*;
use vstd::string::StrSliceExecFns;

use crate::ast::{lemma_seq_ast_push, regex_ast, seq_ast, Ast, ParseError, ParseResult, RegEx};
use crate::model::{
    base_at, factor_at, lemma_term_join_empty, lemma_term_join_push, parse_of, regex_at, term_at,
    term_join, term_node, unexpected,
};

verus! {

/// Whether an executable outcome is the modelled one: the same failure, or a
/// node whose abstraction is the modelled node.
pub open spec fn result_matches(r: ParseResult, m: Result<Ast, ParseError>) -> bool {
    match (r, m) {
        (Ok(node), Ok(a)) => node@ == a,
        (Err(e), Err(me)) => e == me,
        _ => false,
    }
}

/// Parsing is a pure function of the input text: any two outcomes that
/// [`RegExParser::parse`]'s contract allows for equal inputs — a re-parse of
/// the same text with a fresh parser, in particular — are structurally
/// equal.  Two successes carry trees with the same abstraction, and two
/// failures carry the very same error.
pub proof fn lemma_parse_pure(s: Seq<char>, r1: ParseResult, r2: ParseResult)
    requires
        result_matches(r1, parse_of(s)),
        result_matches(r2, parse_of(s)),
    ensures
        r1 is Ok <==> r2 is Ok,
        r1 matches Ok(n1) ==> (r2 matches Ok(n2) && n1@ == n2@),
        r1 matches Err(e1) ==> (r2 matches Err(e2) && e1 == e2),
{
}

/// A single-pass, single-use recursive-descent parser: the pattern text,
/// fixed for the lifetime of one parse, and a cursor into it.
pub struct RegExParser {
    s: String,
    pos: usize,
}

impl RegExParser {
    /// The pattern text being parsed, as a sequence of characters.
    pub closed spec fn input(self) -> Seq<char> {
        self.s@
    }

    /// The cursor: the position of the next character to consume.
    pub closed spec fn cursor(self) -> int {
        self.pos as int
    }

    /// The cursor never leaves the input: `0 <= cursor <= input.len()`.
    pub open spec fn wf(self) -> bool {
        0 <= self.cursor() <= self.input().len()
    }

    /// Takes ownership of the input and places the cursor at its start.
    pub fn new(s: String) -> (p: RegExParser)
        ensures
            p.wf(),
            p.input() == s@,
            p.cursor() == 0,
    {
        RegExParser { s: s, pos: 0 }
    }

    /// True iff at least one character remains.
    fn more(&self) -> (r: bool)
        ensures
            r == (self.cursor() < self.input().len()),
    {
        self.pos < self.s.as_str().unicode_len()
    }

    /// The character at the cursor, without advancing.  Requires a character
    /// to remain; every caller establishes that first.
    fn peek(&self) -> (c: char)
        requires
            self.cursor() < self.input().len(),
        ensures
            c == self.input()[self.cursor()],
    {
        self.s.as_str().get_char(self.pos)
    }

    /// If the character at the cursor is `c`, advance past it; otherwise —
    /// a different character there, or no character at all — fail with the
    /// error that names `c`, the position, and what was found instead.
    fn consume(&mut self, c: char) -> (r: Result<(), ParseError>)
        requires
            old(self).wf(),
        ensures
            final(self).input() == old(self).input(),
            final(self).wf(),
            old(self).cursor() < old(self).input().len() && old(self).input()[old(self).cursor()]
                == c ==> r is Ok && final(self).cursor() == old(self).cursor() + 1,
            !(old(self).cursor() < old(self).input().len() && old(self).input()[old(
                self,
            ).cursor()] == c) ==> r == Err::<(), ParseError>(
                unexpected(old(self).input(), old(self).cursor(), c),
            ) && final(self).cursor() == old(self).cursor(),
    {
        let n = self.s.as_str().unicode_len();
        if self.pos < n {
            let p = self.peek();
            if p == c {
                self.pos = self.pos + 1;
                Ok(())
            } else {
                Err(ParseError { expected: c, position: self.pos, found: Some(p) })
            }
        } else {
            Err(ParseError { expected: c, position: self.pos, found: None })
        }
    }

    /// Read the character at the cursor and advance past it.  Requires a
    /// character to remain; every caller establishes that first.
    fn next(&mut self) -> (c: char)
        requires
            old(self).wf(),
            old(self).cursor() < old(self).input().len(),
        ensures
            final(self).input() == old(self).input(),
            final(self).wf(),
            final(self).cursor() == old(self).cursor() + 1,
            c == old(self).input()[old(self).cursor()],
    {
        let c = self.peek();
        let _ = self.consume(c);
        c
    }

    /// `base ::= '(' regex ')' | TERMINAL`.
    ///
    /// Only called when a character remains and the caller has ruled out `)`
    /// and `|`; any other character is taken as a terminal.  A group whose
    /// closing `)` is missing is the one failure this grammar can produce.
    fn base(&mut self) -> (r: ParseResult)
        requires
            old(self).wf(),
            old(self).cursor() < old(self).input().len(),
        ensures
            final(self).input() == old(self).input(),
            final(self).wf(),
            old(self).cursor() < final(self).cursor(),
            final(self).cursor() == base_at(old(self).input(), old(self).cursor()).1,
            result_matches(r, base_at(old(self).input(), old(self).cursor()).0),
        decreases old(self).input().len() - old(self).cursor(), 0int,
    {
        if self.peek() == '(' {
            let _ = self.consume('(');
            match self.regex() {
                Ok(node) => match self.consume(')') {
                    Ok(_) => Ok(node),
                    Err(e) => Err(e),
                },
                Err(e) => Err(e),
            }
        } else {
            let c = self.next();
            Ok(RegEx::Terminal(c))
        }
    }

    /// `factor ::= base ( '*' )?`.  The star is checked exactly once, so a
    /// second `*` is left for the enclosing term, whose next factor takes it
    /// as a literal.
    fn factor(&mut self) -> (r: ParseResult)
        requires
            old(self).wf(),
            old(self).cursor() < old(self).input().len(),
        ensures
            final(self).input() == old(self).input(),
            final(self).wf(),
            old(self).cursor() < final(self).cursor(),
            final(self).cursor() == factor_at(old(self).input(), old(self).cursor()).1,
            result_matches(r, factor_at(old(self).input(), old(self).cursor()).0),
        decreases old(self).input().len() - old(self).cursor(), 1int,
    {
        let b = match self.base() {
            Ok(b) => b,
            Err(e) => return Err(e),
        };
        if self.more() && self.peek() == '*' {
            let _ = self.consume('*');
            Ok(RegEx::Repetition(Box::new(b)))
        } else {
            Ok(b)
        }
    }

    /// `term ::= factor*`: factors collected in order while a character
    /// remains that is neither `)` nor `|`.  Zero iterations yield an empty
    /// `Sequence`.
    fn term(&mut self) -> (r: ParseResult)
        requires
            old(self).wf(),
        ensures
            final(self).input() == old(self).input(),
            final(self).wf(),
            old(self).cursor() <= final(self).cursor(),
            final(self).cursor() == term_at(old(self).input(), old(self).cursor()).1,
            result_matches(r, term_node(term_at(old(self).input(), old(self).cursor()).0)),
        decreases old(self).input().len() - old(self).cursor(), 2int,
    {
        let mut v: Vec<Box<RegEx>> = Vec::new();
        proof {
            lemma_term_join_empty(term_at(self.input(), self.cursor()));
            assert(seq_ast(v@) =~= Seq::<Ast>::empty());
        }
        while self.more() && self.peek() != ')' && self.peek() != '|'
            invariant
                self.wf(),
                self.input() == old(self).input(),
                old(self).cursor() <= self.cursor(),
                term_at(old(self).input(), old(self).cursor()) == term_join(
                    seq_ast(v@),
                    term_at(self.input(), self.cursor()),
                ),
            decreases self.input().len() - self.cursor(),
        {
            let ghost vg = v@;
            let ghost cur = self.cursor();
            match self.factor() {
                Ok(f) => {
                    let ghost fg = f;
                    v.push(Box::new(f));
                    proof {
                        let s = old(self).input();
                        let p1 = self.cursor();
                        assert(term_at(s, cur) == term_join(
                            seq![regex_ast(fg)],
                            term_at(s, p1),
                        ));
                        lemma_seq_ast_push(vg, Box::new(fg));
                        lemma_term_join_push(seq_ast(vg), regex_ast(fg), term_at(s, p1));
                    }
                },
                Err(e) => {
                    return Err(e);
                },
            }
        }
        Ok(RegEx::Sequence(v))
    }

    /// `regex ::= term ( '|' term )?`.
    ///
    /// At most one alternation is built per invocation: after
    /// `Or(first, second)` the production returns, so on `a|b|c` the trailing
    /// `|c` is left for the caller.
    fn regex(&mut self) -> (r: ParseResult)
        requires
            old(self).wf(),
        ensures
            final(self).input() == old(self).input(),
            final(self).wf(),
            old(self).cursor() <= final(self).cursor(),
            final(self).cursor() == regex_at(old(self).input(), old(self).cursor()).1,
            result_matches(r, regex_at(old(self).input(), old(self).cursor()).0),
        decreases old(self).input().len() - old(self).cursor(), 3int,
    {
        let t1 = match self.term() {
            Ok(t) => t,
            Err(e) => return Err(e),
        };
        if self.more() && self.peek() == '|' {
            let _ = self.consume('|');
            match self.term() {
                Ok(t2) => Ok(RegEx::Or(Box::new(t1), Box::new(t2))),
                Err(e) => Err(e),
            }
        } else {
            Ok(t1)
        }
    }

    /// Attempts to consume a full `regex` production from the current
    /// position and returns the resulting tree, or the first unmet
    /// expectation.
    ///
    /// Two choices this entry point makes, stated here because they are
    /// observable:
    /// - Trailing input that the grammar does not consume — a stray `)`, or
    ///   a second `|`-chain — is silently ignored: the parse succeeds with
    ///   the tree of what was consumed.
    /// - A required character that lies past the end of the input is
    ///   reported as an ordinary [`ParseError`] with `found == None`, never
    ///   as a panic.
    ///
    /// The parser is single-use: the cursor is not reset, so only the first
    /// call starts at position zero.
    pub fn parse(&mut self) -> (r: ParseResult)
        requires
            old(self).wf(),
        ensures
            final(self).input() == old(self).input(),
            final(self).wf(),
            final(self).cursor() == regex_at(old(self).input(), old(self).cursor()).1,
            result_matches(r, regex_at(old(self).input(), old(self).cursor()).0),
            old(self).cursor() == 0 ==> result_matches(r, parse_of(old(self).input())),
    {
        self.regex()
    }
}

} // verus!
