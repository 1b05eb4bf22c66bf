//! Recursive-descent parsing: a single forward cursor over an Eof-terminated
//! token sequence, building an expression tree along a fixed precedence
//! hierarchy (equality, comparison, additive, multiplicative, unary, primary),
//! every binary level folding to the left. The parser's behaviour is fixed by
//! the specification functions `sp_expression` and its production per grammar
//! rule; parsing fails fast at the first unsatisfiable rule.

use vstd::prelude::*;

use crate::ast::{Expr, SpecExpr};
use crate::token::{
    same_kind, toks_view, wf_token_seq, SpecToken, SpecTokenKind, Token, TokenKind,
};

verus! {

/// What a parse may report: no grammar alternative matched where an
/// expression was required, or a parenthesized expression was not closed.
#[derive(Debug, PartialEq, Eq, Clone, Copy)]
pub enum ParseErrorKind {
    ExpectedExpression,
    ExpectedRightParen,
}

/// A parse diagnostic: what was missing, and on which 1-based source line the
/// offending token stands.
#[derive(Debug, PartialEq, Eq, Clone, Copy)]
pub struct ParseError {
    pub kind: ParseErrorKind,
    pub line: usize,
}

/// Mathematical view of a parse diagnostic.
pub struct SpecParseError {
    pub kind: ParseErrorKind,
    pub line: nat,
}

impl View for ParseError {
    type V = SpecParseError;

    open spec fn view(&self) -> SpecParseError {
        SpecParseError { kind: self.kind, line: self.line as nat }
    }
}

/// Outcome of one grammar production at one cursor position: the expression
/// it built together with the cursor position after it, or the diagnostic it
/// failed with.
pub enum SpecParse {
    Parsed(SpecExpr, int),
    Failed(ParseErrorKind, nat),
}

pub open spec fn is_eq_op(k: SpecTokenKind) -> bool {
    k is BangEqual || k is EqualEqual
}

pub open spec fn is_cmp_op(k: SpecTokenKind) -> bool {
    k is Greater || k is GreaterEqual || k is Less || k is LessEqual
}

pub open spec fn is_term_op(k: SpecTokenKind) -> bool {
    k is Minus || k is Plus
}

pub open spec fn is_factor_op(k: SpecTokenKind) -> bool {
    k is Slash || k is Star
}

pub open spec fn is_unary_op(k: SpecTokenKind) -> bool {
    k is Bang || k is Minus
}

/// The token kinds a literal leaf may hold: a number, a string, the boolean
/// and nil keywords, or an identifier use.
pub open spec fn is_literal_kind(k: SpecTokenKind) -> bool {
    ||| k is False
    ||| k is True
    ||| k is Nil
    ||| k is Number
    ||| k is StrLit
    ||| k is Identifier
}

/// The `primary` production: a literal leaf, or a parenthesized expression
/// that must be closed by `)`. Any other token fails the parse with a
/// diagnostic on that token's line.
pub open spec fn sp_primary(ts: Seq<SpecToken>, i: int) -> SpecParse
    decreases ts.len() - i, 0int,
{
    if !(0 <= i < ts.len()) {
        SpecParse::Failed(ParseErrorKind::ExpectedExpression, 0)
    } else {
        let t = ts[i];
        if is_literal_kind(t.kind) {
            SpecParse::Parsed(SpecExpr::Literal(t), i + 1)
        } else if t.kind is LeftParen {
            match sp_expression(ts, i + 1) {
                SpecParse::Parsed(e, j) => if 0 <= j < ts.len() && ts[j].kind is RightParen {
                    SpecParse::Parsed(SpecExpr::Grouping(Box::new(e)), j + 1)
                } else if 0 <= j < ts.len() {
                    SpecParse::Failed(ParseErrorKind::ExpectedRightParen, ts[j].line)
                } else {
                    SpecParse::Failed(ParseErrorKind::ExpectedRightParen, 0)
                },
                SpecParse::Failed(k, l) => SpecParse::Failed(k, l),
            }
        } else {
            SpecParse::Failed(ParseErrorKind::ExpectedExpression, t.line)
        }
    }
}

/// The `unary` production: a prefix `!` or `-` applied to a unary operand, or
/// a primary expression.
pub open spec fn sp_unary(ts: Seq<SpecToken>, i: int) -> SpecParse
    decreases ts.len() - i, 1int,
{
    if 0 <= i < ts.len() && is_unary_op(ts[i].kind) {
        match sp_unary(ts, i + 1) {
            SpecParse::Parsed(e, j) => SpecParse::Parsed(
                SpecExpr::Unary(ts[i], Box::new(e)),
                j,
            ),
            SpecParse::Failed(k, l) => SpecParse::Failed(k, l),
        }
    } else {
        sp_primary(ts, i)
    }
}

/// The `factor` production: a unary operand followed by any number of `/` or
/// `*` operators, folded to the left.
pub open spec fn sp_factor(ts: Seq<SpecToken>, i: int) -> SpecParse
    decreases ts.len() - i, 2int,
{
    match sp_unary(ts, i) {
        SpecParse::Parsed(e, j) => if i < j <= ts.len() {
            sp_factor_more(ts, j, e)
        } else {
            SpecParse::Parsed(e, j)
        },
        SpecParse::Failed(k, l) => SpecParse::Failed(k, l),
    }
}

/// The left fold of `factor`: as long as the cursor stands on a `/` or `*`,
/// take one more unary operand and grow the tree to the left.
pub open spec fn sp_factor_more(ts: Seq<SpecToken>, i: int, acc: SpecExpr) -> SpecParse
    decreases ts.len() - i, 3int,
{
    if 0 <= i < ts.len() && is_factor_op(ts[i].kind) {
        match sp_unary(ts, i + 1) {
            SpecParse::Parsed(e, j) => {
                let grown = SpecExpr::Binary(Box::new(acc), ts[i], Box::new(e));
                if i < j <= ts.len() {
                    sp_factor_more(ts, j, grown)
                } else {
                    SpecParse::Parsed(grown, j)
                }
            },
            SpecParse::Failed(k, l) => SpecParse::Failed(k, l),
        }
    } else {
        SpecParse::Parsed(acc, i)
    }
}

/// The `term` production: factors joined by `-` or `+`, folded to the left.
pub open spec fn sp_term(ts: Seq<SpecToken>, i: int) -> SpecParse
    decreases ts.len() - i, 4int,
{
    match sp_factor(ts, i) {
        SpecParse::Parsed(e, j) => if i < j <= ts.len() {
            sp_term_more(ts, j, e)
        } else {
            SpecParse::Parsed(e, j)
        },
        SpecParse::Failed(k, l) => SpecParse::Failed(k, l),
    }
}

/// The left fold of `term`.
pub open spec fn sp_term_more(ts: Seq<SpecToken>, i: int, acc: SpecExpr) -> SpecParse
    decreases ts.len() - i, 5int,
{
    if 0 <= i < ts.len() && is_term_op(ts[i].kind) {
        match sp_factor(ts, i + 1) {
            SpecParse::Parsed(e, j) => {
                let grown = SpecExpr::Binary(Box::new(acc), ts[i], Box::new(e));
                if i < j <= ts.len() {
                    sp_term_more(ts, j, grown)
                } else {
                    SpecParse::Parsed(grown, j)
                }
            },
            SpecParse::Failed(k, l) => SpecParse::Failed(k, l),
        }
    } else {
        SpecParse::Parsed(acc, i)
    }
}

/// The `comparison` production: terms joined by ordering operators, folded to
/// the left.
pub open spec fn sp_comparison(ts: Seq<SpecToken>, i: int) -> SpecParse
    decreases ts.len() - i, 6int,
{
    match sp_term(ts, i) {
        SpecParse::Parsed(e, j) => if i < j <= ts.len() {
            sp_cmp_more(ts, j, e)
        } else {
            SpecParse::Parsed(e, j)
        },
        SpecParse::Failed(k, l) => SpecParse::Failed(k, l),
    }
}

/// The left fold of `comparison`.
pub open spec fn sp_cmp_more(ts: Seq<SpecToken>, i: int, acc: SpecExpr) -> SpecParse
    decreases ts.len() - i, 7int,
{
    if 0 <= i < ts.len() && is_cmp_op(ts[i].kind) {
        match sp_term(ts, i + 1) {
            SpecParse::Parsed(e, j) => {
                let grown = SpecExpr::Binary(Box::new(acc), ts[i], Box::new(e));
                if i < j <= ts.len() {
                    sp_cmp_more(ts, j, grown)
                } else {
                    SpecParse::Parsed(grown, j)
                }
            },
            SpecParse::Failed(k, l) => SpecParse::Failed(k, l),
        }
    } else {
        SpecParse::Parsed(acc, i)
    }
}

/// The `equality` production: comparisons joined by `!=` or `==`, folded to
/// the left.
pub open spec fn sp_equality(ts: Seq<SpecToken>, i: int) -> SpecParse
    decreases ts.len() - i, 8int,
{
    match sp_comparison(ts, i) {
        SpecParse::Parsed(e, j) => if i < j <= ts.len() {
            sp_eq_more(ts, j, e)
        } else {
            SpecParse::Parsed(e, j)
        },
        SpecParse::Failed(k, l) => SpecParse::Failed(k, l),
    }
}

/// The left fold of `equality`.
pub open spec fn sp_eq_more(ts: Seq<SpecToken>, i: int, acc: SpecExpr) -> SpecParse
    decreases ts.len() - i, 9int,
{
    if 0 <= i < ts.len() && is_eq_op(ts[i].kind) {
        match sp_comparison(ts, i + 1) {
            SpecParse::Parsed(e, j) => {
                let grown = SpecExpr::Binary(Box::new(acc), ts[i], Box::new(e));
                if i < j <= ts.len() {
                    sp_eq_more(ts, j, grown)
                } else {
                    SpecParse::Parsed(grown, j)
                }
            },
            SpecParse::Failed(k, l) => SpecParse::Failed(k, l),
        }
    } else {
        SpecParse::Parsed(acc, i)
    }
}

/// The whole grammar: an expression is an equality.
pub open spec fn sp_expression(ts: Seq<SpecToken>, i: int) -> SpecParse
    decreases ts.len() - i, 10int,
{
    sp_equality(ts, i)
}

/// Parse one full expression from an Eof-terminated token sequence, as the
/// scanner hands it over. Exactly the expression and cursor advance that
/// `sp_expression` describes from the sequence's start, or its diagnostic.
pub fn parse(tokens: Vec<Token>) -> (r: Result<Expr, ParseError>)
    requires
        wf_token_seq(toks_view(tokens@)),
    ensures
        ({
            let res = sp_expression(toks_view(tokens@), 0);
            match r {
                Ok(e) => res matches SpecParse::Parsed(se, _) && se == e@,
                Err(pe) => res == SpecParse::Failed(pe.kind, pe.line as nat),
            }
        }),
{
    let mut p = Parser::new(tokens);
    p.expression()
}

/// The parser: an Eof-terminated token sequence and a forward cursor into it.
pub struct Parser {
    pub tokens: Vec<Token>,
    pub current: usize,
}

impl Parser {
    /// The token views the parser walks over.
    pub open spec fn toks(&self) -> Seq<SpecToken> {
        toks_view(self.tokens@)
    }

    /// The token at the cursor.
    pub open spec fn cur(&self) -> SpecToken {
        self.toks()[self.current as int]
    }

    /// The parser's well-formedness: the sequence is Eof-terminated and the
    /// cursor never moves past the end-of-input token.
    pub open spec fn wf(&self) -> bool {
        &&& wf_token_seq(self.toks())
        &&& self.current < self.tokens@.len()
    }

    pub fn new(tokens: Vec<Token>) -> (p: Parser)
        requires
            wf_token_seq(toks_view(tokens@)),
        ensures
            p.wf(),
            p.toks() == toks_view(tokens@),
            p.current == 0,
    {
        Parser { tokens, current: 0 }
    }

    /// The token at the cursor, without consuming it.
    pub fn peek(&self) -> (t: &Token)
        requires
            self.wf(),
        ensures
            t@ == self.cur(),
    {
        &self.tokens[self.current]
    }

    /// The most recently consumed token, as an owned copy.
    pub fn previous(&self) -> (t: Token)
        requires
            self.wf(),
            1 <= self.current,
        ensures
            t@ == self.toks()[self.current - 1],
    {
        let t = &self.tokens[self.current - 1];
        t.dup()
    }

    /// Whether the cursor has reached the end-of-input token.
    pub fn is_at_end(&self) -> (r: bool)
        requires
            self.wf(),
        ensures
            r == (self.cur().kind is Eof),
            r == (self.current == self.tokens@.len() - 1),
    {
        let n = self.tokens.len();
        self.current == n - 1
    }

    /// Consume the token at the cursor and return it; the cursor does not
    /// move past the end-of-input token.
    pub fn advance(&mut self) -> (t: Token)
        requires
            old(self).wf(),
            !(old(self).cur().kind is Eof),
        ensures
            final(self).wf(),
            final(self).tokens == old(self).tokens,
            final(self).current == old(self).current + 1,
            t@ == old(self).cur(),
    {
        if !self.is_at_end() {
            proof {
                assert(self.tokens.len() == self.tokens@.len());
            }
            self.current = self.current + 1;
        }
        self.previous()
    }

    /// Whether the token at the cursor is of the given kind (payloads aside);
    /// false at the end of input, so that a match can never consume the
    /// end-of-input token.
    pub fn check(&self, kind: &TokenKind) -> (r: bool)
        requires
            self.wf(),
        ensures
            r == (!(self.cur().kind is Eof) && same_kind(self.cur().kind, kind@)),
    {
        if self.is_at_end() {
            false
        } else {
            let t = self.peek();
            t.kind.tag() == kind.tag()
        }
    }

    /// The token-dispatch primitive: test the token at the cursor against the
    /// candidate kinds; on the first match consume it and report true, on no
    /// match leave the cursor where it stands.
    pub fn match_types(&mut self, kinds: Vec<TokenKind>) -> (r: bool)
        requires
            old(self).wf(),
        ensures
            final(self).wf(),
            final(self).tokens == old(self).tokens,
            r == (!(old(self).cur().kind is Eof) && (exists|j: int|
                0 <= j < kinds@.len() && same_kind(old(self).cur().kind, kinds@[j]@))),
            r ==> final(self).current == old(self).current + 1,
            !r ==> final(self).current == old(self).current,
    {
        let n = kinds.len();
        let mut idx: usize = 0;
        while idx < n
            invariant
                self == old(self),
                self.wf(),
                n == kinds@.len(),
                idx <= n,
                forall|j: int|
                    0 <= j < idx ==> !same_kind(self.cur().kind, (#[trigger] kinds@[j])@) || (
                    self.cur().kind is Eof),
            decreases n - idx,
        {
            if self.check(&kinds[idx]) {
                self.advance();
                return true;
            }
            idx = idx + 1;
        }
        false
    }

    /// The 1-based source line of the token at the cursor.
    pub fn peek_line(&self) -> (l: usize)
        requires
            self.wf(),
        ensures
            l as nat == self.cur().line,
    {
        self.peek().line
    }

    /// Parse one full expression starting at the cursor.
    pub fn expression(&mut self) -> (r: Result<Expr, ParseError>)
        requires
            old(self).wf(),
        ensures
            final(self).wf(),
            final(self).tokens == old(self).tokens,
            match r {
                Ok(e) => sp_expression(old(self).toks(), old(self).current as int)
                    == SpecParse::Parsed(e@, final(self).current as int) && old(self).current
                    < final(self).current,
                Err(pe) => sp_expression(old(self).toks(), old(self).current as int)
                    == SpecParse::Failed(pe.kind, pe.line as nat),
            },
        decreases self.tokens@.len() - self.current, 10int,
    {
        self.equality()
    }

    /// Parse an equality: comparisons joined by `!=` or `==`, folded left.
    #[verifier::rlimit(60)]
    pub fn equality(&mut self) -> (r: Result<Expr, ParseError>)
        requires
            old(self).wf(),
        ensures
            final(self).wf(),
            final(self).tokens == old(self).tokens,
            match r {
                Ok(e) => sp_equality(old(self).toks(), old(self).current as int)
                    == SpecParse::Parsed(e@, final(self).current as int) && old(self).current
                    < final(self).current,
                Err(pe) => sp_equality(old(self).toks(), old(self).current as int)
                    == SpecParse::Failed(pe.kind, pe.line as nat),
            },
        decreases self.tokens@.len() - self.current, 8int,
    {
        let ghost ts = self.toks();
        let ghost i0 = self.current as int;
        let mut expr = match self.comparison() {
            Ok(e) => e,
            Err(pe) => {
                return Err(pe);
            },
        };
        loop
            invariant
                self.wf(),
                self.tokens == old(self).tokens,
                ts == self.toks(),
                i0 == old(self).current as int,
                i0 < self.current as int,
                sp_equality(ts, i0) == sp_eq_more(ts, self.current as int, expr@),
            ensures
                self.wf(),
                self.tokens == old(self).tokens,
                i0 < self.current as int,
                sp_equality(ts, i0) == SpecParse::Parsed(expr@, self.current as int),
            decreases self.toks().len() - self.current,
        {
            let ghost cur0 = self.current as int;
            if !(self.check(&TokenKind::BangEqual) || self.check(&TokenKind::EqualEqual)) {
                proof {
                    assert(!(0 <= cur0 < ts.len() && is_eq_op(ts[cur0].kind)));
                }
                break;
            }
            proof {
                assert(is_eq_op(ts[cur0].kind));
            }
            let op = self.advance();
            let right = match self.comparison() {
                Ok(e) => e,
                Err(pe) => {
                    return Err(pe);
                },
            };
            expr = Expr::Binary(Box::new(expr), op, Box::new(right));
        }
        Ok(expr)
    }

    /// Parse a comparison: terms joined by ordering operators, folded left.
    #[verifier::rlimit(60)]
    pub fn comparison(&mut self) -> (r: Result<Expr, ParseError>)
        requires
            old(self).wf(),
        ensures
            final(self).wf(),
            final(self).tokens == old(self).tokens,
            match r {
                Ok(e) => sp_comparison(old(self).toks(), old(self).current as int)
                    == SpecParse::Parsed(e@, final(self).current as int) && old(self).current
                    < final(self).current,
                Err(pe) => sp_comparison(old(self).toks(), old(self).current as int)
                    == SpecParse::Failed(pe.kind, pe.line as nat),
            },
        decreases self.tokens@.len() - self.current, 6int,
    {
        let ghost ts = self.toks();
        let ghost i0 = self.current as int;
        let mut expr = match self.term() {
            Ok(e) => e,
            Err(pe) => {
                return Err(pe);
            },
        };
        loop
            invariant
                self.wf(),
                self.tokens == old(self).tokens,
                ts == self.toks(),
                i0 == old(self).current as int,
                i0 < self.current as int,
                sp_comparison(ts, i0) == sp_cmp_more(ts, self.current as int, expr@),
            ensures
                self.wf(),
                self.tokens == old(self).tokens,
                i0 < self.current as int,
                sp_comparison(ts, i0) == SpecParse::Parsed(expr@, self.current as int),
            decreases self.toks().len() - self.current,
        {
            let ghost cur0 = self.current as int;
            if !(self.check(&TokenKind::Greater) || self.check(&TokenKind::GreaterEqual)
                || self.check(&TokenKind::Less) || self.check(&TokenKind::LessEqual)) {
                proof {
                    assert(!(0 <= cur0 < ts.len() && is_cmp_op(ts[cur0].kind)));
                }
                break;
            }
            proof {
                assert(is_cmp_op(ts[cur0].kind));
            }
            let op = self.advance();
            let right = match self.term() {
                Ok(e) => e,
                Err(pe) => {
                    return Err(pe);
                },
            };
            expr = Expr::Binary(Box::new(expr), op, Box::new(right));
        }
        Ok(expr)
    }

    /// Parse a term: factors joined by `-` or `+`, folded left.
    #[verifier::rlimit(60)]
    pub fn term(&mut self) -> (r: Result<Expr, ParseError>)
        requires
            old(self).wf(),
        ensures
            final(self).wf(),
            final(self).tokens == old(self).tokens,
            match r {
                Ok(e) => sp_term(old(self).toks(), old(self).current as int) == SpecParse::Parsed(
                    e@,
                    final(self).current as int,
                ) && old(self).current < final(self).current,
                Err(pe) => sp_term(old(self).toks(), old(self).current as int)
                    == SpecParse::Failed(pe.kind, pe.line as nat),
            },
        decreases self.tokens@.len() - self.current, 4int,
    {
        let ghost ts = self.toks();
        let ghost i0 = self.current as int;
        let mut expr = match self.factor() {
            Ok(e) => e,
            Err(pe) => {
                return Err(pe);
            },
        };
        loop
            invariant
                self.wf(),
                self.tokens == old(self).tokens,
                ts == self.toks(),
                i0 == old(self).current as int,
                i0 < self.current as int,
                sp_term(ts, i0) == sp_term_more(ts, self.current as int, expr@),
            ensures
                self.wf(),
                self.tokens == old(self).tokens,
                i0 < self.current as int,
                sp_term(ts, i0) == SpecParse::Parsed(expr@, self.current as int),
            decreases self.toks().len() - self.current,
        {
            let ghost cur0 = self.current as int;
            if !(self.check(&TokenKind::Minus) || self.check(&TokenKind::Plus)) {
                proof {
                    assert(!(0 <= cur0 < ts.len() && is_term_op(ts[cur0].kind)));
                }
                break;
            }
            proof {
                assert(is_term_op(ts[cur0].kind));
            }
            let op = self.advance();
            let right = match self.factor() {
                Ok(e) => e,
                Err(pe) => {
                    return Err(pe);
                },
            };
            expr = Expr::Binary(Box::new(expr), op, Box::new(right));
        }
        Ok(expr)
    }

    /// Parse a factor: unary operands joined by `/` or `*`, folded left.
    #[verifier::rlimit(60)]
    pub fn factor(&mut self) -> (r: Result<Expr, ParseError>)
        requires
            old(self).wf(),
        ensures
            final(self).wf(),
            final(self).tokens == old(self).tokens,
            match r {
                Ok(e) => sp_factor(old(self).toks(), old(self).current as int)
                    == SpecParse::Parsed(e@, final(self).current as int) && old(self).current
                    < final(self).current,
                Err(pe) => sp_factor(old(self).toks(), old(self).current as int)
                    == SpecParse::Failed(pe.kind, pe.line as nat),
            },
        decreases self.tokens@.len() - self.current, 2int,
    {
        let ghost ts = self.toks();
        let ghost i0 = self.current as int;
        let mut expr = match self.unary() {
            Ok(e) => e,
            Err(pe) => {
                return Err(pe);
            },
        };
        loop
            invariant
                self.wf(),
                self.tokens == old(self).tokens,
                ts == self.toks(),
                i0 == old(self).current as int,
                i0 < self.current as int,
                sp_factor(ts, i0) == sp_factor_more(ts, self.current as int, expr@),
            ensures
                self.wf(),
                self.tokens == old(self).tokens,
                i0 < self.current as int,
                sp_factor(ts, i0) == SpecParse::Parsed(expr@, self.current as int),
            decreases self.toks().len() - self.current,
        {
            let ghost cur0 = self.current as int;
            if !(self.check(&TokenKind::Slash) || self.check(&TokenKind::Star)) {
                proof {
                    assert(!(0 <= cur0 < ts.len() && is_factor_op(ts[cur0].kind)));
                }
                break;
            }
            proof {
                assert(is_factor_op(ts[cur0].kind));
            }
            let op = self.advance();
            let right = match self.unary() {
                Ok(e) => e,
                Err(pe) => {
                    return Err(pe);
                },
            };
            expr = Expr::Binary(Box::new(expr), op, Box::new(right));
        }
        Ok(expr)
    }

    /// Parse a unary expression: a prefix `!` or `-` applied recursively, or
    /// a primary expression.
    #[verifier::rlimit(60)]
    pub fn unary(&mut self) -> (r: Result<Expr, ParseError>)
        requires
            old(self).wf(),
        ensures
            final(self).wf(),
            final(self).tokens == old(self).tokens,
            match r {
                Ok(e) => sp_unary(old(self).toks(), old(self).current as int) == SpecParse::Parsed(
                    e@,
                    final(self).current as int,
                ) && old(self).current < final(self).current,
                Err(pe) => sp_unary(old(self).toks(), old(self).current as int)
                    == SpecParse::Failed(pe.kind, pe.line as nat),
            },
        decreases self.tokens@.len() - self.current, 1int,
    {
        let ghost ts = self.toks();
        let ghost i0 = self.current as int;
        if self.check(&TokenKind::Bang) || self.check(&TokenKind::Minus) {
            proof {
                assert(is_unary_op(ts[i0].kind));
            }
            let op = self.advance();
            let right = match self.unary() {
                Ok(e) => e,
                Err(pe) => {
                    return Err(pe);
                },
            };
            Ok(Expr::Unary(op, Box::new(right)))
        } else {
            proof {
                assert(!(0 <= i0 < ts.len() && is_unary_op(ts[i0].kind)));
            }
            self.primary()
        }
    }

    /// Parse a primary expression: a literal leaf, or a parenthesized
    /// expression that must be closed by `)`.
    #[verifier::rlimit(60)]
    pub fn primary(&mut self) -> (r: Result<Expr, ParseError>)
        requires
            old(self).wf(),
        ensures
            final(self).wf(),
            final(self).tokens == old(self).tokens,
            match r {
                Ok(e) => sp_primary(old(self).toks(), old(self).current as int)
                    == SpecParse::Parsed(e@, final(self).current as int) && old(self).current
                    < final(self).current,
                Err(pe) => sp_primary(old(self).toks(), old(self).current as int)
                    == SpecParse::Failed(pe.kind, pe.line as nat),
            },
        decreases self.tokens@.len() - self.current, 0int,
    {
        if self.peek_is_literal() {
            let t = self.advance();
            return Ok(Expr::Literal(t));
        }
        if self.check(&TokenKind::LeftParen) {
            self.advance();
            let inner = match self.expression() {
                Ok(e) => e,
                Err(pe) => {
                    return Err(pe);
                },
            };
            if self.check(&TokenKind::RightParen) {
                self.advance();
                return Ok(Expr::Grouping(Box::new(inner)));
            }
            let l = self.peek_line();
            return Err(ParseError { kind: ParseErrorKind::ExpectedRightParen, line: l });
        }
        let l = self.peek_line();
        Err(ParseError { kind: ParseErrorKind::ExpectedExpression, line: l })
    }

    /// Whether the token at the cursor may stand as a literal leaf.
    fn peek_is_literal(&self) -> (r: bool)
        requires
            self.wf(),
        ensures
            r == is_literal_kind(self.cur().kind),
    {
        let t = self.peek();
        matches!(
            t.kind,
            TokenKind::False
                | TokenKind::True
                | TokenKind::Nil
                | TokenKind::Number(_)
                | TokenKind::StrLit(_)
                | TokenKind::Identifier(_)
        )
    }
}

} // verus!

