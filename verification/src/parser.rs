//! Recursive-descent parser for the query language.
//!
//! Grammar, precedence low to high:
//! `Expr := And ('|' And)*` — `And := Not ('&' Not)*` — `Not := '!' Not |
//! Primary` — `Primary := '(' Expr ')' | Term` — `Term := one or more
//! characters that are not `&`, `|`, `)`; whitespace inside a term is
//! skipped, not kept`.
//!
//! Positions carried by errors count characters (code points) from the start
//! of the query.

use vstd::prelude::*;

use crate::ast::{spec_ast_wf, AstNode, Pattern, SpecAst};
use vstd::string::StrSliceExecFns;

verus! {

/// A syntax error of the query language, with the character position at
/// which it was detected.
#[derive(Debug, PartialEq, Eq, Structural)]
pub enum SyntaxError {
    /// The query is empty or holds only whitespace.
    EmptyQuery,
    /// An operator or parenthesis stands where a literal was expected.
    EmptyPattern { pos: usize },
    /// A `(` is never closed by a matching `)`.
    UnmatchedParenthesis { pos: usize },
    /// Characters remain after a fully parsed expression.
    TrailingTokens { pos: usize },
}

/// Whitespace as the parser skips it.
/// Relies on char::is_whitespace below: the Unicode White_Space property of
/// the character alone.
pub uninterp spec fn white_space(c: char) -> bool;

/// Relies on char::is_whitespace: whether the character has the Unicode
/// White_Space property; it depends on the character alone.
#[verifier::external_body]
fn is_space(c: char) -> (r: bool)
    ensures
        r == white_space(c),
{
    c.is_whitespace()
}

/// Relies on String::push: appends the one character to the end of the
/// string.
#[verifier::external_body]
fn push_char(s: &mut String, c: char)
    ensures
        final(s)@ == old(s)@.push(c),
{
    s.push(c);
}

/// A character that ends a bare term.
pub open spec fn term_stop(c: char) -> bool {
    c == '&' || c == '|' || c == ')'
}

/// The first position at or after `pos` holding a non-whitespace character
/// (or the end of the input).
pub open spec fn skip_ws(s: Seq<char>, pos: int) -> int
    decreases s.len() - pos,
{
    if 0 <= pos && pos < s.len() && white_space(s[pos]) {
        skip_ws(s, pos + 1)
    } else {
        pos
    }
}

/// A position brought into the range `[lo, hi]`. The cursor only moves
/// forward and never past the end of the input, so on every reachable
/// position the bounds change nothing; they keep the forward movement
/// visible to the termination checker.
pub open spec fn bounded(p: int, lo: int, hi: int) -> int {
    if p < lo {
        lo
    } else if p > hi {
        hi
    } else {
        p
    }
}

/// Every character of the query is whitespace (the trimmed query is empty).
pub open spec fn all_whitespace(s: Seq<char>) -> bool {
    forall|i: int| 0 <= i < s.len() ==> white_space(s[i])
}

/// A bare term read from `pos`: the accumulated pattern (whitespace
/// skipped), and the position of the character that stopped it.
pub open spec fn spec_term(s: Seq<char>, pos: int) -> (Seq<char>, int)
    decreases s.len() - pos,
{
    if pos < 0 || pos >= s.len() {
        (Seq::<char>::empty(), pos)
    } else if term_stop(s[pos]) {
        (Seq::<char>::empty(), pos)
    } else if white_space(s[pos]) {
        spec_term(s, pos + 1)
    } else {
        let t = spec_term(s, pos + 1);
        (seq![s[pos]] + t.0, t.1)
    }
}

/// A term as a grammar level: a non-empty pattern becomes a literal leaf; an
/// empty one is a syntax error at the stopping position.
pub open spec fn spec_parse_term(s: Seq<char>, pos: int) -> Result<(SpecAst, int), SyntaxError> {
    let t = spec_term(s, bounded(skip_ws(s, pos), pos, s.len() as int));
    if t.0.len() == 0 {
        Err(SyntaxError::EmptyPattern { pos: t.1 as usize })
    } else {
        Ok((SpecAst::Lit(t.0), t.1))
    }
}

/// `Primary := '(' Expr ')' | Term`.
pub open spec fn spec_parse_primary(s: Seq<char>, pos: int) -> Result<
    (SpecAst, int),
    SyntaxError,
>
    decreases s.len() - pos, 1int,
{
    if pos < 0 || pos > s.len() {
        Err(SyntaxError::EmptyQuery)
    } else {
        let q = bounded(skip_ws(s, pos), pos, s.len() as int);
        if q < s.len() && s[q] == '(' {
            match spec_parse_expr(s, q + 1) {
                Ok((node, p)) => {
                    if p < s.len() && s[p] == ')' {
                        Ok((node, p + 1))
                    } else {
                        Err(SyntaxError::UnmatchedParenthesis { pos: p as usize })
                    }
                },
                Err(e) => Err(e),
            }
        } else {
            spec_parse_term(s, q)
        }
    }
}

/// `Not := '!' Not | Primary`.
pub open spec fn spec_parse_not(s: Seq<char>, pos: int) -> Result<(SpecAst, int), SyntaxError>
    decreases s.len() - pos, 2int,
{
    if pos < 0 || pos > s.len() {
        Err(SyntaxError::EmptyQuery)
    } else {
        let q = bounded(skip_ws(s, pos), pos, s.len() as int);
        if q < s.len() && s[q] == '!' {
            match spec_parse_not(s, q + 1) {
                Ok((node, p)) => Ok((SpecAst::Not(Box::new(node)), p)),
                Err(e) => Err(e),
            }
        } else {
            spec_parse_primary(s, q)
        }
    }
}

/// `And := Not ('&' Not)*`, left-associative.
pub open spec fn spec_parse_and(s: Seq<char>, pos: int) -> Result<(SpecAst, int), SyntaxError>
    decreases s.len() - pos, 3int,
{
    if pos < 0 || pos > s.len() {
        Err(SyntaxError::EmptyQuery)
    } else {
        match spec_parse_not(s, pos) {
            Ok((node, p)) => spec_and_tail(s, node, bounded(p, pos, s.len() as int)),
            Err(e) => Err(e),
        }
    }
}

/// The `('&' Not)*` part: folds further operands into a left-leaning tree.
pub open spec fn spec_and_tail(s: Seq<char>, acc: SpecAst, pos: int) -> Result<
    (SpecAst, int),
    SyntaxError,
>
    decreases s.len() - pos, 0int,
{
    if pos < 0 || pos > s.len() {
        Err(SyntaxError::EmptyQuery)
    } else {
        let q = bounded(skip_ws(s, pos), pos, s.len() as int);
        if q < s.len() && s[q] == '&' {
            let q2 = bounded(skip_ws(s, q + 1), q + 1, s.len() as int);
            match spec_parse_not(s, q2) {
                Ok((rhs, p)) => spec_and_tail(
                    s,
                    SpecAst::And(Box::new(acc), Box::new(rhs)),
                    bounded(p, q2, s.len() as int),
                ),
                Err(e) => Err(e),
            }
        } else {
            Ok((acc, q))
        }
    }
}

/// `Expr := And ('|' And)*`, left-associative.
pub open spec fn spec_parse_expr(s: Seq<char>, pos: int) -> Result<(SpecAst, int), SyntaxError>
    decreases s.len() - pos, 5int,
{
    if pos < 0 || pos > s.len() {
        Err(SyntaxError::EmptyQuery)
    } else {
        match spec_parse_and(s, pos) {
            Ok((node, p)) => spec_expr_tail(s, node, bounded(p, pos, s.len() as int)),
            Err(e) => Err(e),
        }
    }
}

/// The `('|' And)*` part: folds further operands into a left-leaning tree.
pub open spec fn spec_expr_tail(s: Seq<char>, acc: SpecAst, pos: int) -> Result<
    (SpecAst, int),
    SyntaxError,
>
    decreases s.len() - pos, 4int,
{
    if pos < 0 || pos > s.len() {
        Err(SyntaxError::EmptyQuery)
    } else {
        let q = bounded(skip_ws(s, pos), pos, s.len() as int);
        if q < s.len() && s[q] == '|' {
            let q2 = bounded(skip_ws(s, q + 1), q + 1, s.len() as int);
            match spec_parse_and(s, q2) {
                Ok((rhs, p)) => spec_expr_tail(
                    s,
                    SpecAst::Or(Box::new(acc), Box::new(rhs)),
                    bounded(p, q2, s.len() as int),
                ),
                Err(e) => Err(e),
            }
        } else {
            Ok((acc, q))
        }
    }
}

/// The whole query: an empty (all-whitespace) query is refused; after the
/// top-level expression only whitespace may remain.
pub open spec fn spec_parse_query(s: Seq<char>) -> Result<SpecAst, SyntaxError> {
    if all_whitespace(s) {
        Err(SyntaxError::EmptyQuery)
    } else {
        match spec_parse_expr(s, 0) {
            Ok((node, p)) => {
                let q = bounded(skip_ws(s, p), p, s.len() as int);
                if q < s.len() {
                    Err(SyntaxError::TrailingTokens { pos: q as usize })
                } else {
                    Ok(node)
                }
            },
            Err(e) => Err(e),
        }
    }
}

/// The parser's cursor: the query as characters, and the current position.
pub struct Parser {
    input: Vec<char>,
    pos: usize,
}

impl Parser {
    /// The cursor never stands past the end of the input.
    pub closed spec fn wf(&self) -> bool {
        self.pos <= self.input@.len()
    }

    /// The characters being parsed.
    pub closed spec fn spec_input(&self) -> Seq<char> {
        self.input@
    }

    /// The current position.
    pub closed spec fn spec_pos(&self) -> int {
        self.pos as int
    }

    /// A fresh cursor at the start of the query.
    pub fn new(input: &str) -> (p: Parser)
        ensures
            p.wf(),
            p.spec_input() == input@,
            p.spec_pos() == 0,
    {
        let n = input.unicode_len();
        let mut chars: Vec<char> = Vec::new();
        let mut i: usize = 0;
        while i < n
            invariant
                n == input@.len(),
                i <= n,
                chars@ == input@.subrange(0, i as int),
            decreases n - i,
        {
            chars.push(input.get_char(i));
            proof {
                assert(chars@ =~= input@.subrange(0, i + 1));
            }
            i += 1;
        }
        proof {
            assert(chars@ =~= input@);
        }
        Parser { input: chars, pos: 0 }
    }

    /// The character under the cursor, if any.
    pub fn peek(&self) -> (r: Option<char>)
        requires
            self.wf(),
        ensures
            r == (if self.spec_pos() < self.spec_input().len() {
                Some(self.spec_input()[self.spec_pos()])
            } else {
                None::<char>
            }),
    {
        if self.pos < self.input.len() {
            Some(self.input[self.pos])
        } else {
            None
        }
    }

    /// Whether the character under the cursor is `expected`.
    pub fn peek_is(&self, expected: char) -> (r: bool)
        requires
            self.wf(),
        ensures
            r == (self.spec_pos() < self.spec_input().len() && self.spec_input()[self.spec_pos()]
                == expected),
    {
        match self.peek() {
            Some(c) => c == expected,
            None => false,
        }
    }

    /// Moves the cursor one character forward, if it is not at the end.
    pub fn advance(&mut self)
        requires
            old(self).wf(),
        ensures
            final(self).wf(),
            final(self).spec_input() == old(self).spec_input(),
            old(self).spec_pos() < old(self).spec_input().len() ==> final(self).spec_pos() == old(
                self,
            ).spec_pos() + 1,
            old(self).spec_pos() >= old(self).spec_input().len() ==> final(self).spec_pos() == old(
                self,
            ).spec_pos(),
    {
        if self.pos < self.input.len() {
            self.pos = self.pos + 1;
        }
    }

    /// Consumes `expected` if it is under the cursor.
    pub fn consume_char(&mut self, expected: char) -> (r: bool)
        requires
            old(self).wf(),
        ensures
            final(self).wf(),
            final(self).spec_input() == old(self).spec_input(),
            r == (old(self).spec_pos() < old(self).spec_input().len() && old(self).spec_input()[old(
                self,
            ).spec_pos()] == expected),
            r ==> final(self).spec_pos() == old(self).spec_pos() + 1,
            !r ==> final(self).spec_pos() == old(self).spec_pos(),
    {
        if self.peek_is(expected) {
            self.advance();
            true
        } else {
            false
        }
    }

    /// Moves the cursor past any whitespace.
    pub fn consume_whitespace(&mut self)
        requires
            old(self).wf(),
        ensures
            final(self).wf(),
            final(self).spec_input() == old(self).spec_input(),
            old(self).spec_pos() <= final(self).spec_pos(),
            final(self).spec_pos() == skip_ws(old(self).spec_input(), old(self).spec_pos()),
            final(self).spec_pos() < final(self).spec_input().len() ==> !white_space(
                final(self).spec_input()[final(self).spec_pos()],
            ),
    {
        let ghost s0 = old(self).input@;
        let ghost p0 = old(self).pos;
        while self.pos < self.input.len() && is_space(self.input[self.pos])
            invariant
                self.wf(),
                self.input@ == s0,
                p0 <= self.pos,
                skip_ws(self.input@, self.pos as int) == skip_ws(s0, p0 as int),
            decreases self.input@.len() - self.pos,
        {
            self.pos = self.pos + 1;
        }
    }

    /// Whether the whole input is whitespace (the trimmed query is empty).
    fn input_is_blank(&self) -> (r: bool)
        requires
            self.wf(),
        ensures
            r == all_whitespace(self.spec_input()),
    {
        let mut i: usize = 0;
        while i < self.input.len()
            invariant
                i <= self.input@.len(),
                forall|k: int| 0 <= k < i ==> white_space(self.input@[k]),
            decreases self.input@.len() - i,
        {
            if !is_space(self.input[i]) {
                assert(!all_whitespace(self.input@));
                return false;
            }
            i += 1;
        }
        true
    }

    /// Whether the character ends a bare term.
    fn peek_stops_term(&self) -> (r: bool)
        requires
            self.wf(),
        ensures
            r == (self.spec_pos() < self.spec_input().len() && term_stop(
                self.spec_input()[self.spec_pos()],
            )),
    {
        self.peek_is('&') || self.peek_is('|') || self.peek_is(')')
    }

    /// Reads a bare term: one or more characters that are not `&`, `|`, `)`,
    /// with interior whitespace skipped rather than kept.
    #[verifier::loop_isolation(false)]
    pub fn parse_term(&mut self) -> (r: Result<AstNode, SyntaxError>)
        requires
            old(self).wf(),
        ensures
            final(self).wf(),
            final(self).spec_input() == old(self).spec_input(),
            old(self).spec_pos() <= final(self).spec_pos(),
            (match r {
                Ok(node) => spec_parse_term(old(self).spec_input(), old(self).spec_pos())
                    == Ok::<(SpecAst, int), SyntaxError>((node@, final(self).spec_pos())),
                Err(e) => spec_parse_term(old(self).spec_input(), old(self).spec_pos())
                    == Err::<(SpecAst, int), SyntaxError>(e),
            }),
    {
        self.consume_whitespace();
        let ghost s = self.input@;
        let ghost q = self.pos as int;
        let mut pattern = String::new();
        while !(self.pos >= self.input.len() || self.peek_stops_term())
            invariant
                self.wf(),
                self.input@ == s,
                q <= self.pos,
                spec_term(s, q).0 == pattern@ + spec_term(s, self.pos as int).0,
                spec_term(s, q).1 == spec_term(s, self.pos as int).1,
            decreases self.input@.len() - self.pos,
        {
            let c = self.input[self.pos];
            if is_space(c) {
                self.pos = self.pos + 1;
            } else {
                let ghost t = spec_term(s, self.pos as int + 1);
                let ghost before = pattern@;
                push_char(&mut pattern, c);
                self.pos = self.pos + 1;
                proof {
                    assert(pattern@ + t.0 =~= before + (seq![c] + t.0));
                }
            }
        }
        proof {
            assert(spec_term(s, q).0 =~= pattern@);
        }
        if pattern.as_str().is_empty() {
            Err(SyntaxError::EmptyPattern { pos: self.pos })
        } else {
            Ok(AstNode::Match(Pattern::Literal(pattern)))
        }
    }

    /// `Primary := '(' Expr ')' | Term`.
    pub fn parse_primary(&mut self) -> (r: Result<AstNode, SyntaxError>)
        requires
            old(self).wf(),
        ensures
            final(self).wf(),
            final(self).spec_input() == old(self).spec_input(),
            old(self).spec_pos() <= final(self).spec_pos(),
            (match r {
                Ok(node) => spec_parse_primary(old(self).spec_input(), old(self).spec_pos())
                    == Ok::<(SpecAst, int), SyntaxError>((node@, final(self).spec_pos())),
                Err(e) => spec_parse_primary(old(self).spec_input(), old(self).spec_pos())
                    == Err::<(SpecAst, int), SyntaxError>(e),
            }),
        decreases old(self).spec_input().len() - old(self).spec_pos(), 1int,
    {
        self.consume_whitespace();
        if self.consume_char('(') {
            let node = match self.parse_expr() {
                Ok(n) => n,
                Err(e) => return Err(e),
            };
            if !self.consume_char(')') {
                return Err(SyntaxError::UnmatchedParenthesis { pos: self.pos });
            }
            Ok(node)
        } else {
            self.parse_term()
        }
    }

    /// `Not := '!' Not | Primary`; `!` may stack.
    pub fn parse_not(&mut self) -> (r: Result<AstNode, SyntaxError>)
        requires
            old(self).wf(),
        ensures
            final(self).wf(),
            final(self).spec_input() == old(self).spec_input(),
            old(self).spec_pos() <= final(self).spec_pos(),
            (match r {
                Ok(node) => spec_parse_not(old(self).spec_input(), old(self).spec_pos())
                    == Ok::<(SpecAst, int), SyntaxError>((node@, final(self).spec_pos())),
                Err(e) => spec_parse_not(old(self).spec_input(), old(self).spec_pos())
                    == Err::<(SpecAst, int), SyntaxError>(e),
            }),
        decreases old(self).spec_input().len() - old(self).spec_pos(), 2int,
    {
        self.consume_whitespace();
        if self.consume_char('!') {
            match self.parse_not() {
                Ok(node) => Ok(AstNode::NotNode(Box::new(node))),
                Err(e) => Err(e),
            }
        } else {
            self.parse_primary()
        }
    }

    /// The `('&' Not)*` part of an AND chain, folded into a left-leaning
    /// tree on top of `acc`.
    fn and_tail(&mut self, acc: AstNode) -> (r: Result<AstNode, SyntaxError>)
        requires
            old(self).wf(),
        ensures
            final(self).wf(),
            final(self).spec_input() == old(self).spec_input(),
            old(self).spec_pos() <= final(self).spec_pos(),
            (match r {
                Ok(node) => spec_and_tail(old(self).spec_input(), acc@, old(self).spec_pos())
                    == Ok::<(SpecAst, int), SyntaxError>((node@, final(self).spec_pos())),
                Err(e) => spec_and_tail(old(self).spec_input(), acc@, old(self).spec_pos())
                    == Err::<(SpecAst, int), SyntaxError>(e),
            }),
        decreases old(self).spec_input().len() - old(self).spec_pos(), 0int,
    {
        self.consume_whitespace();
        if self.consume_char('&') {
            self.consume_whitespace();
            match self.parse_not() {
                Ok(rhs) => self.and_tail(AstNode::AndNode(Box::new(acc), Box::new(rhs))),
                Err(e) => Err(e),
            }
        } else {
            Ok(acc)
        }
    }

    /// `And := Not ('&' Not)*`, left-associative; binds tighter than OR.
    pub fn parse_and(&mut self) -> (r: Result<AstNode, SyntaxError>)
        requires
            old(self).wf(),
        ensures
            final(self).wf(),
            final(self).spec_input() == old(self).spec_input(),
            old(self).spec_pos() <= final(self).spec_pos(),
            (match r {
                Ok(node) => spec_parse_and(old(self).spec_input(), old(self).spec_pos())
                    == Ok::<(SpecAst, int), SyntaxError>((node@, final(self).spec_pos())),
                Err(e) => spec_parse_and(old(self).spec_input(), old(self).spec_pos())
                    == Err::<(SpecAst, int), SyntaxError>(e),
            }),
        decreases old(self).spec_input().len() - old(self).spec_pos(), 3int,
    {
        match self.parse_not() {
            Ok(node) => self.and_tail(node),
            Err(e) => Err(e),
        }
    }

    /// The `('|' And)*` part of an OR chain, folded into a left-leaning tree
    /// on top of `acc`.
    fn expr_tail(&mut self, acc: AstNode) -> (r: Result<AstNode, SyntaxError>)
        requires
            old(self).wf(),
        ensures
            final(self).wf(),
            final(self).spec_input() == old(self).spec_input(),
            old(self).spec_pos() <= final(self).spec_pos(),
            (match r {
                Ok(node) => spec_expr_tail(old(self).spec_input(), acc@, old(self).spec_pos())
                    == Ok::<(SpecAst, int), SyntaxError>((node@, final(self).spec_pos())),
                Err(e) => spec_expr_tail(old(self).spec_input(), acc@, old(self).spec_pos())
                    == Err::<(SpecAst, int), SyntaxError>(e),
            }),
        decreases old(self).spec_input().len() - old(self).spec_pos(), 4int,
    {
        self.consume_whitespace();
        if self.consume_char('|') {
            self.consume_whitespace();
            match self.parse_and() {
                Ok(rhs) => self.expr_tail(AstNode::OrNode(Box::new(acc), Box::new(rhs))),
                Err(e) => Err(e),
            }
        } else {
            Ok(acc)
        }
    }

    /// `Expr := And ('|' And)*`, left-associative: the whole grammar.
    pub fn parse_expr(&mut self) -> (r: Result<AstNode, SyntaxError>)
        requires
            old(self).wf(),
        ensures
            final(self).wf(),
            final(self).spec_input() == old(self).spec_input(),
            old(self).spec_pos() <= final(self).spec_pos(),
            (match r {
                Ok(node) => spec_parse_expr(old(self).spec_input(), old(self).spec_pos())
                    == Ok::<(SpecAst, int), SyntaxError>((node@, final(self).spec_pos())),
                Err(e) => spec_parse_expr(old(self).spec_input(), old(self).spec_pos())
                    == Err::<(SpecAst, int), SyntaxError>(e),
            }),
        decreases old(self).spec_input().len() - old(self).spec_pos(), 5int,
    {
        match self.parse_and() {
            Ok(node) => self.expr_tail(node),
            Err(e) => Err(e),
        }
    }
}

/// Parses a query string into an expression tree.
///
/// The result is exactly what [`spec_parse_query`] denotes on the query's
/// characters: `EmptyQuery` when the trimmed query is empty; otherwise the
/// top-level expression, with `TrailingTokens`, `UnmatchedParenthesis` and
/// `EmptyPattern` reported as the grammar levels detect them. Every literal
/// of a returned tree is non-empty.
pub fn parse_query(query: &str) -> (r: Result<AstNode, SyntaxError>)
    ensures
        (match r {
            Ok(node) => spec_parse_query(query@) == Ok::<SpecAst, SyntaxError>(node@)
                && spec_ast_wf(node@),
            Err(e) => spec_parse_query(query@) == Err::<SpecAst, SyntaxError>(e),
        }),
        (r matches Err(SyntaxError::EmptyQuery)) <==> all_whitespace(query@),
{
    proof {
        lemma_expr_never_empty_query(query@, 0);
    }
    let mut parser = Parser::new(query);
    if parser.input_is_blank() {
        return Err(SyntaxError::EmptyQuery);
    }
    let ast = match parser.parse_expr() {
        Ok(a) => a,
        Err(e) => return Err(e),
    };
    parser.consume_whitespace();
    if parser.peek().is_some() {
        return Err(SyntaxError::TrailingTokens { pos: parser.pos });
    }
    proof {
        lemma_parse_expr_wf(query@, 0);
    }
    Ok(ast)
}

/// Every tree a successful term parse yields is well-formed: its literal is
/// non-empty.
proof fn lemma_parse_term_wf(s: Seq<char>, pos: int)
    ensures
        (match spec_parse_term(s, pos) {
            Ok((node, p)) => spec_ast_wf(node),
            Err(e) => true,
        }),
{
}

/// Every tree a successful primary parse yields is well-formed.
proof fn lemma_parse_primary_wf(s: Seq<char>, pos: int)
    ensures
        (match spec_parse_primary(s, pos) {
            Ok((node, p)) => spec_ast_wf(node),
            Err(e) => true,
        }),
    decreases s.len() - pos, 1int,
{
    if pos < 0 || pos > s.len() {
    } else {
        let q = bounded(skip_ws(s, pos), pos, s.len() as int);
        if q < s.len() && s[q] == '(' {
            lemma_parse_expr_wf(s, q + 1);
        } else {
            lemma_parse_term_wf(s, q);
        }
    }
}

/// Every tree a successful NOT parse yields is well-formed.
proof fn lemma_parse_not_wf(s: Seq<char>, pos: int)
    ensures
        (match spec_parse_not(s, pos) {
            Ok((node, p)) => spec_ast_wf(node),
            Err(e) => true,
        }),
    decreases s.len() - pos, 2int,
{
    if pos < 0 || pos > s.len() {
    } else {
        let q = bounded(skip_ws(s, pos), pos, s.len() as int);
        if q < s.len() && s[q] == '!' {
            lemma_parse_not_wf(s, q + 1);
        } else {
            lemma_parse_primary_wf(s, q);
        }
    }
}

/// Every tree a successful AND-chain parse yields is well-formed, given a
/// well-formed accumulator.
proof fn lemma_and_tail_wf(s: Seq<char>, acc: SpecAst, pos: int)
    requires
        spec_ast_wf(acc),
    ensures
        (match spec_and_tail(s, acc, pos) {
            Ok((node, p)) => spec_ast_wf(node),
            Err(e) => true,
        }),
    decreases s.len() - pos, 0int,
{
    if pos < 0 || pos > s.len() {
    } else {
        let q = bounded(skip_ws(s, pos), pos, s.len() as int);
        if q < s.len() && s[q] == '&' {
            let q2 = bounded(skip_ws(s, q + 1), q + 1, s.len() as int);
            lemma_parse_not_wf(s, q2);
            match spec_parse_not(s, q2) {
                Ok((rhs, p)) => {
                    lemma_and_tail_wf(
                        s,
                        SpecAst::And(Box::new(acc), Box::new(rhs)),
                        bounded(p, q2, s.len() as int),
                    );
                },
                Err(e) => {},
            }
        }
    }
}

/// Every tree a successful AND parse yields is well-formed.
proof fn lemma_parse_and_wf(s: Seq<char>, pos: int)
    ensures
        (match spec_parse_and(s, pos) {
            Ok((node, p)) => spec_ast_wf(node),
            Err(e) => true,
        }),
    decreases s.len() - pos, 3int,
{
    if pos < 0 || pos > s.len() {
    } else {
        lemma_parse_not_wf(s, pos);
        match spec_parse_not(s, pos) {
            Ok((node, p)) => {
                lemma_and_tail_wf(s, node, bounded(p, pos, s.len() as int));
            },
            Err(e) => {},
        }
    }
}

/// Every tree a successful OR-chain parse yields is well-formed, given a
/// well-formed accumulator.
proof fn lemma_expr_tail_wf(s: Seq<char>, acc: SpecAst, pos: int)
    requires
        spec_ast_wf(acc),
    ensures
        (match spec_expr_tail(s, acc, pos) {
            Ok((node, p)) => spec_ast_wf(node),
            Err(e) => true,
        }),
    decreases s.len() - pos, 4int,
{
    if pos < 0 || pos > s.len() {
    } else {
        let q = bounded(skip_ws(s, pos), pos, s.len() as int);
        if q < s.len() && s[q] == '|' {
            let q2 = bounded(skip_ws(s, q + 1), q + 1, s.len() as int);
            lemma_parse_and_wf(s, q2);
            match spec_parse_and(s, q2) {
                Ok((rhs, p)) => {
                    lemma_expr_tail_wf(
                        s,
                        SpecAst::Or(Box::new(acc), Box::new(rhs)),
                        bounded(p, q2, s.len() as int),
                    );
                },
                Err(e) => {},
            }
        }
    }
}

/// From a position inside the input, no grammar level reports an empty
/// query: that error belongs to the whole-query check alone.
proof fn lemma_primary_never_empty_query(s: Seq<char>, pos: int)
    requires
        0 <= pos <= s.len(),
    ensures
        spec_parse_primary(s, pos) != Err::<(SpecAst, int), SyntaxError>(SyntaxError::EmptyQuery),
    decreases s.len() - pos, 1int,
{
    let q = bounded(skip_ws(s, pos), pos, s.len() as int);
    if q < s.len() && s[q] == '(' {
        lemma_expr_never_empty_query(s, q + 1);
    }
}

proof fn lemma_not_never_empty_query(s: Seq<char>, pos: int)
    requires
        0 <= pos <= s.len(),
    ensures
        spec_parse_not(s, pos) != Err::<(SpecAst, int), SyntaxError>(SyntaxError::EmptyQuery),
    decreases s.len() - pos, 2int,
{
    let q = bounded(skip_ws(s, pos), pos, s.len() as int);
    if q < s.len() && s[q] == '!' {
        lemma_not_never_empty_query(s, q + 1);
    } else {
        lemma_primary_never_empty_query(s, q);
    }
}

proof fn lemma_and_tail_never_empty_query(s: Seq<char>, acc: SpecAst, pos: int)
    requires
        0 <= pos <= s.len(),
    ensures
        spec_and_tail(s, acc, pos) != Err::<(SpecAst, int), SyntaxError>(SyntaxError::EmptyQuery),
    decreases s.len() - pos, 0int,
{
    let q = bounded(skip_ws(s, pos), pos, s.len() as int);
    if q < s.len() && s[q] == '&' {
        let q2 = bounded(skip_ws(s, q + 1), q + 1, s.len() as int);
        lemma_not_never_empty_query(s, q2);
        match spec_parse_not(s, q2) {
            Ok((rhs, p)) => {
                lemma_and_tail_never_empty_query(
                    s,
                    SpecAst::And(Box::new(acc), Box::new(rhs)),
                    bounded(p, q2, s.len() as int),
                );
            },
            Err(e) => {},
        }
    }
}

proof fn lemma_and_never_empty_query(s: Seq<char>, pos: int)
    requires
        0 <= pos <= s.len(),
    ensures
        spec_parse_and(s, pos) != Err::<(SpecAst, int), SyntaxError>(SyntaxError::EmptyQuery),
    decreases s.len() - pos, 3int,
{
    lemma_not_never_empty_query(s, pos);
    match spec_parse_not(s, pos) {
        Ok((node, p)) => {
            lemma_and_tail_never_empty_query(s, node, bounded(p, pos, s.len() as int));
        },
        Err(e) => {},
    }
}

proof fn lemma_expr_tail_never_empty_query(s: Seq<char>, acc: SpecAst, pos: int)
    requires
        0 <= pos <= s.len(),
    ensures
        spec_expr_tail(s, acc, pos) != Err::<(SpecAst, int), SyntaxError>(SyntaxError::EmptyQuery),
    decreases s.len() - pos, 4int,
{
    let q = bounded(skip_ws(s, pos), pos, s.len() as int);
    if q < s.len() && s[q] == '|' {
        let q2 = bounded(skip_ws(s, q + 1), q + 1, s.len() as int);
        lemma_and_never_empty_query(s, q2);
        match spec_parse_and(s, q2) {
            Ok((rhs, p)) => {
                lemma_expr_tail_never_empty_query(
                    s,
                    SpecAst::Or(Box::new(acc), Box::new(rhs)),
                    bounded(p, q2, s.len() as int),
                );
            },
            Err(e) => {},
        }
    }
}

/// The expression grammar itself never reports an empty query from a
/// position inside the input: `EmptyQuery` comes from the whole-query check
/// alone, exactly on an all-whitespace query.
pub proof fn lemma_expr_never_empty_query(s: Seq<char>, pos: int)
    requires
        0 <= pos <= s.len(),
    ensures
        spec_parse_expr(s, pos) != Err::<(SpecAst, int), SyntaxError>(SyntaxError::EmptyQuery),
    decreases s.len() - pos, 5int,
{
    lemma_and_never_empty_query(s, pos);
    match spec_parse_and(s, pos) {
        Ok((node, p)) => {
            lemma_expr_tail_never_empty_query(s, node, bounded(p, pos, s.len() as int));
        },
        Err(e) => {},
    }
}

/// The characters of a query with all whitespace removed.
pub open spec fn strip_whitespace(s: Seq<char>) -> Seq<char>
    decreases s.len(),
{
    if s.len() == 0 {
        Seq::<char>::empty()
    } else if white_space(s[0]) {
        strip_whitespace(s.skip(1))
    } else {
        seq![s[0]] + strip_whitespace(s.skip(1))
    }
}

/// `skip_ws` stops at the first non-whitespace character: everything before
/// its result is whitespace, and the character at it (if any) is not.
proof fn lemma_skip_ws_first(s: Seq<char>, pos: int)
    requires
        0 <= pos <= s.len(),
    ensures
        pos <= skip_ws(s, pos) <= s.len(),
        forall|k: int| pos <= k < skip_ws(s, pos) ==> white_space(s[k]),
        skip_ws(s, pos) < s.len() ==> !white_space(s[skip_ws(s, pos)]),
    decreases s.len() - pos,
{
    if pos < s.len() && white_space(s[pos]) {
        lemma_skip_ws_first(s, pos + 1);
    }
}

/// Stripping whitespace ignores a whitespace prefix.
proof fn lemma_strip_ws_prefix(s: Seq<char>, m: int)
    requires
        0 <= m <= s.len(),
        forall|k: int| 0 <= k < m ==> white_space(s[k]),
    ensures
        strip_whitespace(s) == strip_whitespace(s.skip(m)),
    decreases m,
{
    if m == 0 {
        assert(s.skip(0) =~= s);
    } else {
        assert(s.len() > 0 && white_space(s[0]));
        lemma_strip_ws_prefix(s.skip(1), m - 1);
        assert(s.skip(1).skip(m - 1) =~= s.skip(m));
    }
}

/// On an input without term-stopping characters, a term runs to the end of
/// the input and collects exactly the non-whitespace characters.
proof fn lemma_term_runs_out(s: Seq<char>, pos: int)
    requires
        0 <= pos <= s.len(),
        forall|k: int| pos <= k < s.len() ==> !term_stop(s[k]),
    ensures
        spec_term(s, pos) == (strip_whitespace(s.skip(pos)), s.len() as int),
    decreases s.len() - pos,
{
    if pos >= s.len() {
        assert(s.skip(pos) =~= Seq::<char>::empty());
    } else {
        lemma_term_runs_out(s, pos + 1);
        assert(s.skip(pos)[0] == s[pos]);
        assert(s.skip(pos).skip(1) =~= s.skip(pos + 1));
        if white_space(s[pos]) {
        } else {
            assert(seq![s[pos]] + strip_whitespace(s.skip(pos + 1)) == strip_whitespace(
                s.skip(pos),
            ));
        }
    }
}

/// A query that is one bare literal — no `&`, `|`, `(`, `)` anywhere, at
/// least one non-whitespace character, and no `!` as its first
/// non-whitespace character — parses to the single literal holding its
/// characters with all whitespace removed.
pub proof fn lemma_literal_query(s: Seq<char>)
    requires
        !all_whitespace(s),
        forall|i: int| 0 <= i < s.len() ==> !term_stop(s[i]) && s[i] != '(',
        skip_ws(s, 0) < s.len() ==> s[skip_ws(s, 0)] != '!',
    ensures
        spec_parse_query(s) == Ok::<SpecAst, SyntaxError>(SpecAst::Lit(strip_whitespace(s))),
{
    let len = s.len() as int;
    lemma_skip_ws_first(s, 0);
    let q0 = skip_ws(s, 0);
    assert(q0 < len) by {
        if q0 == len {
            assert(forall|k: int| 0 <= k < s.len() ==> white_space(s[k]));
        }
    }
    assert(!white_space(s[q0]));
    assert(skip_ws(s, q0) == q0);
    assert(bounded(skip_ws(s, 0), 0, len) == q0);
    assert(bounded(skip_ws(s, q0), q0, len) == q0);

    // The term level collects everything.
    lemma_term_runs_out(s, q0);
    lemma_strip_ws_prefix(s, q0);
    let pat = strip_whitespace(s);
    assert(pat == strip_whitespace(s.skip(q0)));
    assert(s.skip(q0)[0] == s[q0]);
    assert(pat.len() > 0);
    assert(spec_parse_term(s, q0) == Ok::<(SpecAst, int), SyntaxError>((SpecAst::Lit(pat), len)));

    // The higher levels pass the literal through unchanged.
    assert(spec_parse_primary(s, q0) == Ok::<(SpecAst, int), SyntaxError>(
        (SpecAst::Lit(pat), len),
    ));
    assert(spec_parse_not(s, 0) == Ok::<(SpecAst, int), SyntaxError>((SpecAst::Lit(pat), len)));
    assert(skip_ws(s, len) == len);
    assert(bounded(len, 0, len) == len);
    assert(spec_and_tail(s, SpecAst::Lit(pat), len) == Ok::<(SpecAst, int), SyntaxError>(
        (SpecAst::Lit(pat), len),
    ));
    assert(spec_parse_and(s, 0) == Ok::<(SpecAst, int), SyntaxError>((SpecAst::Lit(pat), len)));
    assert(spec_expr_tail(s, SpecAst::Lit(pat), len) == Ok::<(SpecAst, int), SyntaxError>(
        (SpecAst::Lit(pat), len),
    ));
    assert(spec_parse_expr(s, 0) == Ok::<(SpecAst, int), SyntaxError>((SpecAst::Lit(pat), len)));
}

/// Every tree a successful parse yields is well-formed: all its literals are
/// non-empty.
pub proof fn lemma_parse_expr_wf(s: Seq<char>, pos: int)
    ensures
        (match spec_parse_expr(s, pos) {
            Ok((node, p)) => spec_ast_wf(node),
            Err(e) => true,
        }),
    decreases s.len() - pos, 5int,
{
    if pos < 0 || pos > s.len() {
    } else {
        lemma_parse_and_wf(s, pos);
        match spec_parse_and(s, pos) {
            Ok((node, p)) => {
                lemma_expr_tail_wf(s, node, bounded(p, pos, s.len() as int));
            },
            Err(e) => {},
        }
    }
}

} // verus!
