//! Lexical analysis: a single-pass scanner from source text to a token
//! sequence, with one-character lookahead and per-line diagnostics. The
//! scanner's behaviour is fixed by the specification functions `spec_scan`
//! (one scan step) and `spec_lex_at` (a whole pass, diagnose-everything).

use vstd::prelude::*;
use vstd::string::StrSliceExecFns;

use crate::chars::{
    alnum_char, alnum_end, alpha_char, count_nl, digit_char, digits_end, is_alnum, is_alpha,
    is_digit, lemma_alnum_end_is, lemma_count_nl_snoc, lemma_digits_end, lemma_digits_end_is,
    lemma_line_end_is, lemma_quote_end_is, line_end, quote_end,
};
use crate::token::{
    ident_or_keyword, spec_keyword, toks_view, wf_token_seq, SpecToken, SpecTokenKind, Token,
    TokenKind,
};

verus! {

/// What one scan step may report: a lexical error's kind.
#[derive(Debug, PartialEq, Eq, Clone, Copy)]
pub enum LexErrorKind {
    UnterminatedString,
    UnexpectedChar(char),
}

/// A lexical diagnostic: what went wrong, and on which 1-based source line.
#[derive(Debug, PartialEq, Eq, Clone, Copy)]
pub struct LexError {
    pub kind: LexErrorKind,
    pub line: usize,
}

/// Mathematical view of a lexical diagnostic.
pub struct SpecLexError {
    pub kind: LexErrorKind,
    pub line: nat,
}

impl View for LexError {
    type V = SpecLexError;

    open spec fn view(&self) -> SpecLexError {
        SpecLexError { kind: self.kind, line: self.line as nat }
    }
}

/// The aggregate failure of a whole scanning pass: every diagnostic found,
/// in source order. Callers receive this instead of a partial token list.
#[derive(Debug, PartialEq)]
pub struct LexFailure {
    pub errors: Vec<LexError>,
}

/// The views of a sequence of diagnostics.
pub open spec fn errs_view(es: Seq<LexError>) -> Seq<SpecLexError> {
    es.map(|i: int, e: LexError| e@)
}

/// What a single scan step, started at position `i` on line `line`, produces.
pub enum SpecScanItem {
    /// A token of this kind; its lexeme is the scanned substring.
    Tok(SpecTokenKind),
    /// Content that yields no token: whitespace, a newline, a comment.
    Skip,
    /// A diagnostic; scanning continues after it.
    Fail(LexErrorKind),
}

/// Result of a single scan step: the position after it, the line after it,
/// and what it produced. An error's line is the line after the step.
pub struct SpecScanStep {
    pub next: int,
    pub line: nat,
    pub item: SpecScanItem,
}

pub open spec fn tok_step(next: int, line: nat, k: SpecTokenKind) -> SpecScanStep {
    SpecScanStep { next, line, item: SpecScanItem::Tok(k) }
}

/// One scan step at position `i` (which must hold a character) on line
/// `line`: the token boundaries, line bookkeeping and classification of the
/// lexical grammar, with one-character lookahead.
pub open spec fn spec_scan(s: Seq<char>, i: int, line: nat) -> SpecScanStep
    recommends
        0 <= i < s.len(),
{
    let c = s[i];
    if c == '(' {
        tok_step(i + 1, line, SpecTokenKind::LeftParen)
    } else if c == ')' {
        tok_step(i + 1, line, SpecTokenKind::RightParen)
    } else if c == '{' {
        tok_step(i + 1, line, SpecTokenKind::LeftBrace)
    } else if c == '}' {
        tok_step(i + 1, line, SpecTokenKind::RightBrace)
    } else if c == ',' {
        tok_step(i + 1, line, SpecTokenKind::Comma)
    } else if c == '.' {
        tok_step(i + 1, line, SpecTokenKind::Dot)
    } else if c == '-' {
        tok_step(i + 1, line, SpecTokenKind::Minus)
    } else if c == '+' {
        tok_step(i + 1, line, SpecTokenKind::Plus)
    } else if c == ';' {
        tok_step(i + 1, line, SpecTokenKind::Semicolon)
    } else if c == '*' {
        tok_step(i + 1, line, SpecTokenKind::Star)
    } else if c == '!' {
        if i + 1 < s.len() && s[i + 1] == '=' {
            tok_step(i + 2, line, SpecTokenKind::BangEqual)
        } else {
            tok_step(i + 1, line, SpecTokenKind::Bang)
        }
    } else if c == '=' {
        if i + 1 < s.len() && s[i + 1] == '=' {
            tok_step(i + 2, line, SpecTokenKind::EqualEqual)
        } else {
            tok_step(i + 1, line, SpecTokenKind::Equal)
        }
    } else if c == '<' {
        if i + 1 < s.len() && s[i + 1] == '=' {
            tok_step(i + 2, line, SpecTokenKind::LessEqual)
        } else {
            tok_step(i + 1, line, SpecTokenKind::Less)
        }
    } else if c == '>' {
        if i + 1 < s.len() && s[i + 1] == '=' {
            tok_step(i + 2, line, SpecTokenKind::GreaterEqual)
        } else {
            tok_step(i + 1, line, SpecTokenKind::Greater)
        }
    } else if c == '/' {
        if i + 1 < s.len() && s[i + 1] == '/' {
            SpecScanStep { next: line_end(s, i + 2), line, item: SpecScanItem::Skip }
        } else {
            tok_step(i + 1, line, SpecTokenKind::Slash)
        }
    } else if c == ' ' || c == '\r' || c == '\t' {
        SpecScanStep { next: i + 1, line, item: SpecScanItem::Skip }
    } else if c == '\n' {
        SpecScanStep { next: i + 1, line: line + 1, item: SpecScanItem::Skip }
    } else if c == '"' {
        let e = quote_end(s, i + 1);
        let l2 = line + count_nl(s, i + 1, e);
        if e >= s.len() {
            SpecScanStep { next: e, line: l2, item: SpecScanItem::Fail(LexErrorKind::UnterminatedString) }
        } else {
            tok_step(e + 1, l2, SpecTokenKind::StrLit(s.subrange(i + 1, e)))
        }
    } else if is_digit(c) {
        let d1 = digits_end(s, i + 1);
        if d1 < s.len() && s[d1] == '.' && d1 + 1 < s.len() && is_digit(s[d1 + 1]) {
            let d2 = digits_end(s, d1 + 1);
            tok_step(d2, line, SpecTokenKind::Number(s.subrange(i, d2)))
        } else {
            tok_step(d1, line, SpecTokenKind::Number(s.subrange(i, d1)))
        }
    } else if is_alpha(c) {
        let e = alnum_end(s, i + 1);
        tok_step(e, line, ident_or_keyword(s.subrange(i, e)))
    } else {
        SpecScanStep { next: i + 1, line, item: SpecScanItem::Fail(LexErrorKind::UnexpectedChar(c)) }
    }
}

/// Everything a scanning pass started at position `i` on line `line` finds:
/// the tokens in order, the diagnostics in order, and the final line. A token
/// carries the substring it was scanned from and the line the step ended on.
pub struct SpecLexOut {
    pub tokens: Seq<SpecToken>,
    pub errors: Seq<SpecLexError>,
    pub line: nat,
}

/// The whole pass from position `i`: scan step after scan step until the end
/// of input, collecting tokens and diagnostics. Scanning does not stop at an
/// error; it continues after it in the same pass.
pub open spec fn spec_lex_from(s: Seq<char>, i: int, line: nat) -> SpecLexOut
    decreases s.len() - i,
{
    if !(0 <= i < s.len()) {
        SpecLexOut { tokens: Seq::empty(), errors: Seq::empty(), line }
    } else {
        let st = spec_scan(s, i, line);
        let nx = if i < st.next <= s.len() {
            st.next
        } else {
            i + 1
        };
        let rest = spec_lex_from(s, nx, st.line);
        match st.item {
            SpecScanItem::Tok(k) => SpecLexOut {
                tokens: seq![
                    SpecToken { kind: k, lexeme: s.subrange(i, nx), line: st.line },
                ] + rest.tokens,
                errors: rest.errors,
                line: rest.line,
            },
            SpecScanItem::Skip => rest,
            SpecScanItem::Fail(k) => SpecLexOut {
                tokens: rest.tokens,
                errors: seq![SpecLexError { kind: k, line: st.line }] + rest.errors,
                line: rest.line,
            },
        }
    }
}

/// The contract of a whole scanning pass from position `i` on line `line`: if
/// any step failed, the pass fails with every diagnostic of the pass and no
/// token list; otherwise it yields the scanned tokens closed by an
/// end-of-input token on the final line.
pub open spec fn spec_lex_at(s: Seq<char>, i: int, line: nat) -> Result<
    Seq<SpecToken>,
    Seq<SpecLexError>,
> {
    let out = spec_lex_from(s, i, line);
    if out.errors.len() > 0 {
        Err(out.errors)
    } else {
        Ok(
            out.tokens.push(
                SpecToken { kind: SpecTokenKind::Eof, lexeme: Seq::empty(), line: out.line },
            ),
        )
    }
}

/// What lexing a whole source text means: a pass from its start, on line 1.
pub open spec fn spec_lex(s: Seq<char>) -> Result<Seq<SpecToken>, Seq<SpecLexError>> {
    spec_lex_at(s, 0, 1)
}

/// The scanner: a forward cursor over the source's characters. `start` marks
/// the beginning of the token being scanned, `current` the next unread
/// character, and `line` the 1-based line the cursor is on.
pub struct Lexer {
    pub source: String,
    pub chars: Vec<char>,
    pub start: usize,
    pub current: usize,
    pub line: usize,
}

impl Lexer {
    /// The scanner's well-formedness: the character buffer mirrors the source
    /// string, the cursors are ordered and in bounds, and the line counter
    /// can never outrun the cursor.
    pub open spec fn wf(&self) -> bool {
        &&& self.chars@ == self.source@
        &&& self.start <= self.current <= self.chars@.len()
        &&& 1 <= self.line
        &&& self.line <= 1 + self.current
        &&& self.chars@.len() < usize::MAX
    }

    pub fn new(source: String) -> (lx: Lexer)
        requires
            source@.len() < usize::MAX,
        ensures
            lx.wf(),
            lx.source@ == source@,
            lx.start == 0,
            lx.current == 0,
            lx.line == 1,
    {
        let n = source.as_str().unicode_len();
        let mut chars: Vec<char> = Vec::new();
        let mut i: usize = 0;
        while i < n
            invariant
                i <= n,
                n == source@.len(),
                chars@.len() == i,
                forall|j: int| 0 <= j < i ==> chars@[j] == source@[j],
            decreases n - i,
        {
            let c = source.as_str().get_char(i);
            chars.push(c);
            i = i + 1;
        }
        proof {
            assert(chars@ =~= source@);
        }
        Lexer { source, chars, start: 0, current: 0, line: 1 }
    }

    fn is_at_end(&self) -> (r: bool)
        requires
            self.wf(),
        ensures
            r == (self.current == self.chars@.len()),
    {
        self.current >= self.chars.len()
    }

    /// Consume and return the character at the cursor.
    fn advance(&mut self) -> (c: char)
        requires
            old(self).wf(),
            old(self).current < old(self).chars@.len(),
        ensures
            final(self).wf(),
            c == old(self).chars@[old(self).current as int],
            final(self).current == old(self).current + 1,
            final(self).source == old(self).source,
            final(self).chars == old(self).chars,
            final(self).start == old(self).start,
            final(self).line == old(self).line,
    {
        let c = self.chars[self.current];
        self.current = self.current + 1;
        c
    }

    /// The character at the cursor, or a NUL sentinel at the end of input.
    fn peek(&self) -> (c: char)
        requires
            self.wf(),
        ensures
            c == (if self.current < self.chars@.len() {
                self.chars@[self.current as int]
            } else {
                '\0'
            }),
    {
        if self.current >= self.chars.len() {
            '\0'
        } else {
            self.chars[self.current]
        }
    }

    /// The character one past the cursor, or a NUL sentinel past the end.
    fn peek_next(&self) -> (c: char)
        requires
            self.wf(),
        ensures
            c == (if self.current + 1 < self.chars@.len() {
                self.chars@[self.current + 1]
            } else {
                '\0'
            }),
    {
        if self.current + 1 >= self.chars.len() {
            '\0'
        } else {
            self.chars[self.current + 1]
        }
    }

    /// One-character lookahead: consume the character at the cursor exactly
    /// when it is the expected one.
    fn match_char(&mut self, expected: char) -> (r: bool)
        requires
            old(self).wf(),
        ensures
            final(self).wf(),
            r == (old(self).current < old(self).chars@.len() && old(self).chars@[old(
                self,
            ).current as int] == expected),
            final(self).current == old(self).current + (if r {
                1int
            } else {
                0int
            }),
            final(self).source == old(self).source,
            final(self).chars == old(self).chars,
            final(self).start == old(self).start,
            final(self).line == old(self).line,
    {
        if self.is_at_end() {
            false
        } else if self.chars[self.current] != expected {
            false
        } else {
            self.current = self.current + 1;
            true
        }
    }

    /// The substring `[start, current)` of the source, as an owned string.
    fn lexeme_text(&self, from: usize, to: usize) -> (r: String)
        requires
            self.wf(),
            from <= to <= self.chars@.len(),
        ensures
            r@ == self.source@.subrange(from as int, to as int),
    {
        self.source.as_str().substring_char(from, to).to_owned()
    }

    /// Wrap a scanned kind into a token carrying the lexeme `[start, current)`
    /// and the line the scan ended on.
    fn create_token(&self, kind: TokenKind) -> (t: Token)
        requires
            self.wf(),
        ensures
            t@ == (SpecToken {
                kind: kind@,
                lexeme: self.source@.subrange(self.start as int, self.current as int),
                line: self.line as nat,
            }),
    {
        let text = self.lexeme_text(self.start, self.current);
        Token::new(kind, text, self.line)
    }
}

impl Lexer {
    /// Move the cursor to the end of the maximal digit run it stands in.
    fn skip_digits(&mut self)
        requires
            old(self).wf(),
        ensures
            final(self).wf(),
            final(self).source == old(self).source,
            final(self).chars == old(self).chars,
            final(self).start == old(self).start,
            old(self).current <= final(self).current,
            final(self).line == old(self).line,
            final(self).current as int == digits_end(old(self).source@, old(self).current as int),
    {
        while digit_char(self.peek())
            invariant
                self.wf(),
                self.source == old(self).source,
                self.chars == old(self).chars,
                self.start == old(self).start,
                self.line == old(self).line,
                old(self).current <= self.current,
                forall|j: int|
                    old(self).current <= j < self.current as int ==> is_digit(
                        #[trigger] self.source@[j],
                    ),
            decreases self.chars@.len() - self.current,
        {
            self.advance();
        }
        proof {
            lemma_digits_end_is(
                self.source@,
                old(self).current as int,
                self.current as int,
            );
        }
    }

    /// Move the cursor to the end of the maximal identifier-character run it
    /// stands in.
    fn skip_alnum(&mut self)
        requires
            old(self).wf(),
        ensures
            final(self).wf(),
            final(self).source == old(self).source,
            final(self).chars == old(self).chars,
            final(self).start == old(self).start,
            old(self).current <= final(self).current,
            final(self).line == old(self).line,
            final(self).current as int == alnum_end(old(self).source@, old(self).current as int),
    {
        while alnum_char(self.peek())
            invariant
                self.wf(),
                self.source == old(self).source,
                self.chars == old(self).chars,
                self.start == old(self).start,
                self.line == old(self).line,
                old(self).current <= self.current,
                forall|j: int|
                    old(self).current <= j < self.current as int ==> is_alnum(
                        #[trigger] self.source@[j],
                    ),
            decreases self.chars@.len() - self.current,
        {
            self.advance();
        }
        proof {
            lemma_alnum_end_is(
                self.source@,
                old(self).current as int,
                self.current as int,
            );
        }
    }

    /// Move the cursor to the next newline or the end of input: the rest of a
    /// line comment.
    fn skip_comment(&mut self)
        requires
            old(self).wf(),
        ensures
            final(self).wf(),
            final(self).source == old(self).source,
            final(self).chars == old(self).chars,
            final(self).start == old(self).start,
            old(self).current <= final(self).current,
            final(self).line == old(self).line,
            final(self).current as int == line_end(old(self).source@, old(self).current as int),
    {
        while !self.is_at_end() && self.peek() != '\n'
            invariant
                self.wf(),
                self.source == old(self).source,
                self.chars == old(self).chars,
                self.start == old(self).start,
                self.line == old(self).line,
                old(self).current <= self.current,
                forall|j: int|
                    old(self).current <= j < self.current as int ==> (#[trigger] self.source@[j])
                        != '\n',
            decreases self.chars@.len() - self.current,
        {
            self.advance();
        }
        proof {
            lemma_line_end_is(
                self.source@,
                old(self).current as int,
                self.current as int,
            );
        }
    }

    /// Move the cursor to the closing quote of a string literal's body, or to
    /// the end of input, counting the newlines the body spans.
    fn skip_string_body(&mut self)
        requires
            old(self).wf(),
        ensures
            final(self).wf(),
            final(self).source == old(self).source,
            final(self).chars == old(self).chars,
            final(self).start == old(self).start,
            old(self).current <= final(self).current,
            final(self).current as int == quote_end(old(self).source@, old(self).current as int),
            final(self).line as nat == old(self).line as nat + count_nl(
                old(self).source@,
                old(self).current as int,
                final(self).current as int,
            ),
    {
        while !self.is_at_end() && self.peek() != '"'
            invariant
                self.wf(),
                self.source == old(self).source,
                self.chars == old(self).chars,
                self.start == old(self).start,
                old(self).current <= self.current,
                forall|j: int|
                    old(self).current <= j < self.current as int ==> (#[trigger] self.source@[j])
                        != '"',
                self.line as nat == old(self).line as nat + count_nl(
                    self.source@,
                    old(self).current as int,
                    self.current as int,
                ),
            decreases self.chars@.len() - self.current,
        {
            proof {
                lemma_count_nl_snoc(self.source@, old(self).current as int, self.current as int);
            }
            let c = self.advance();
            if c == '\n' {
                self.line = self.line + 1;
            }
        }
        proof {
            lemma_quote_end_is(
                self.source@,
                old(self).current as int,
                self.current as int,
            );
        }
    }

    /// One scan step: consume one lexical unit starting at the cursor and
    /// report the token kind it yields, that it yields none (whitespace, a
    /// newline, a comment), or a diagnostic. Exactly the step `spec_scan`
    /// describes, cursor, line and classification alike.
    fn scan_token(&mut self) -> (r: Result<Option<TokenKind>, LexError>)
        requires
            old(self).wf(),
            old(self).start == old(self).current,
            old(self).current < old(self).chars@.len(),
        ensures
            final(self).wf(),
            final(self).source == old(self).source,
            final(self).chars == old(self).chars,
            final(self).start == old(self).start,
            old(self).current < final(self).current,
            ({
                let st = spec_scan(
                    old(self).source@,
                    old(self).current as int,
                    old(self).line as nat,
                );
                &&& final(self).current as int == st.next
                &&& final(self).line as nat == st.line
                &&& match r {
                    Ok(Some(k)) => st.item == SpecScanItem::Tok(k@),
                    Ok(None) => st.item == SpecScanItem::Skip,
                    Err(e) => st.item == SpecScanItem::Fail(e.kind) && e.line as nat == st.line,
                }
            }),
    {
        let c = self.advance();
        match c {
            '(' => Ok(Some(TokenKind::LeftParen)),
            ')' => Ok(Some(TokenKind::RightParen)),
            '{' => Ok(Some(TokenKind::LeftBrace)),
            '}' => Ok(Some(TokenKind::RightBrace)),
            ',' => Ok(Some(TokenKind::Comma)),
            '.' => Ok(Some(TokenKind::Dot)),
            '-' => Ok(Some(TokenKind::Minus)),
            '+' => Ok(Some(TokenKind::Plus)),
            ';' => Ok(Some(TokenKind::Semicolon)),
            '*' => Ok(Some(TokenKind::Star)),
            '!' => {
                if self.match_char('=') {
                    Ok(Some(TokenKind::BangEqual))
                } else {
                    Ok(Some(TokenKind::Bang))
                }
            },
            '=' => {
                if self.match_char('=') {
                    Ok(Some(TokenKind::EqualEqual))
                } else {
                    Ok(Some(TokenKind::Equal))
                }
            },
            '<' => {
                if self.match_char('=') {
                    Ok(Some(TokenKind::LessEqual))
                } else {
                    Ok(Some(TokenKind::Less))
                }
            },
            '>' => {
                if self.match_char('=') {
                    Ok(Some(TokenKind::GreaterEqual))
                } else {
                    Ok(Some(TokenKind::Greater))
                }
            },
            '/' => {
                if self.match_char('/') {
                    self.skip_comment();
                    Ok(None)
                } else {
                    Ok(Some(TokenKind::Slash))
                }
            },
            ' ' => Ok(None),
            '\r' => Ok(None),
            '\t' => Ok(None),
            '\n' => {
                self.line = self.line + 1;
                Ok(None)
            },
            '"' => {
                self.skip_string_body();
                if self.is_at_end() {
                    return Err(
                        LexError { kind: LexErrorKind::UnterminatedString, line: self.line },
                    );
                }
                self.advance();
                let text = self.lexeme_text(self.start + 1, self.current - 1);
                Ok(Some(TokenKind::StrLit(text)))
            },
            _ => {
                if digit_char(c) {
                    self.skip_digits();
                    if self.peek() == '.' && digit_char(self.peek_next()) {
                        self.advance();
                        self.skip_digits();
                    }
                    let text = self.lexeme_text(self.start, self.current);
                    Ok(Some(TokenKind::Number(text)))
                } else if alpha_char(c) {
                    self.skip_alnum();
                    let text = self.lexeme_text(self.start, self.current);
                    match keyword_kind(&text) {
                        Some(k) => Ok(Some(k)),
                        None => Ok(Some(TokenKind::Identifier(text))),
                    }
                } else {
                    Err(LexError { kind: LexErrorKind::UnexpectedChar(c), line: self.line })
                }
            },
        }
    }
}

/// Shape of a valid numeric literal standing alone: one or more decimal
/// digits, optionally followed by a decimal point and one or more digits.
pub open spec fn numeric_literal_shape(s: Seq<char>) -> bool {
    let d1 = digits_end(s, 0);
    &&& s.len() > 0
    &&& d1 > 0
    &&& (d1 == s.len() || (s[d1] == '.' && d1 + 1 < s.len() && digits_end(s, d1 + 1) == s.len()))
}

/// Law: lexing a valid numeric literal yields exactly one number token
/// carrying the literal's text, followed by the end-of-input token, both on
/// line 1.
pub proof fn lemma_lex_numeric_literal(s: Seq<char>)
    requires
        numeric_literal_shape(s),
    ensures
        spec_lex(s) == Ok::<Seq<SpecToken>, Seq<SpecLexError>>(
            seq![
                SpecToken { kind: SpecTokenKind::Number(s), lexeme: s, line: 1 },
                SpecToken { kind: SpecTokenKind::Eof, lexeme: Seq::<char>::empty(), line: 1 },
            ],
        ),
{
    let d1 = digits_end(s, 0);
    lemma_digits_end(s, 0);
    assert(is_digit(s[0]));
    let st = spec_scan(s, 0, 1);
    if d1 == s.len() {
        assert(digits_end(s, 1) == d1);
        assert(st.next == s.len());
    } else {
        lemma_digits_end(s, d1 + 1);
        assert(is_digit(s[d1 + 1]));
        assert(digits_end(s, 1) == d1);
        assert(st.next == s.len());
    }
    assert(s.subrange(0, s.len() as int) =~= s);
    assert(st.item == SpecScanItem::Tok(SpecTokenKind::Number(s)));
    let out = spec_lex_from(s, 0, 1);
    assert(spec_lex_from(s, s.len() as int, 1).tokens =~= Seq::<SpecToken>::empty());
    assert(out.tokens =~= seq![SpecToken { kind: SpecTokenKind::Number(s), lexeme: s, line: 1 }]);
    assert(out.errors =~= Seq::<SpecLexError>::empty());
    assert(spec_lex(s)->Ok_0 =~= seq![
        SpecToken { kind: SpecTokenKind::Number(s), lexeme: s, line: 1 },
        SpecToken { kind: SpecTokenKind::Eof, lexeme: Seq::<char>::empty(), line: 1 },
    ]);
}

/// Law: lexing a double-quoted literal whose body holds no quote yields
/// exactly one string token whose payload is the body, followed by the
/// end-of-input token; both stand on the line the literal ends on, the
/// body's newlines counted.
pub proof fn lemma_lex_string_literal(s: Seq<char>)
    requires
        forall|j: int| 0 <= j < s.len() ==> (#[trigger] s[j]) != '"',
    ensures
        ({
            let src = seq!['"'] + s + seq!['"'];
            let l2 = (1 + count_nl(src, 1, s.len() as int + 1)) as nat;
            spec_lex(src) == Ok::<Seq<SpecToken>, Seq<SpecLexError>>(
                seq![
                    SpecToken { kind: SpecTokenKind::StrLit(s), lexeme: src, line: l2 },
                    SpecToken { kind: SpecTokenKind::Eof, lexeme: Seq::<char>::empty(), line: l2 },
                ],
            )
        }),
{
    let src = seq!['"'] + s + seq!['"'];
    let l2 = (1 + count_nl(src, 1, s.len() as int + 1)) as nat;
    assert(src.len() == s.len() + 2);
    assert(src[0] == '"');
    assert(forall|j: int| 1 <= j < s.len() as int + 1 ==> (#[trigger] src[j]) == s[j - 1]);
    assert(src[s.len() as int + 1] == '"');
    lemma_quote_end_is(src, 1, s.len() as int + 1);
    let st = spec_scan(src, 0, 1);
    assert(st.next == src.len());
    assert(src.subrange(1, s.len() as int + 1) =~= s);
    assert(src.subrange(0, src.len() as int) =~= src);
    assert(st.item == SpecScanItem::Tok(SpecTokenKind::StrLit(s)));
    assert(st.line == l2);
    let out = spec_lex_from(src, 0, 1);
    assert(spec_lex_from(src, src.len() as int, l2).tokens =~= Seq::<SpecToken>::empty());
    assert(out.tokens =~= seq![SpecToken { kind: SpecTokenKind::StrLit(s), lexeme: src, line: l2 }]);
    assert(out.errors =~= Seq::<SpecLexError>::empty());
    assert(spec_lex(src)->Ok_0 =~= seq![
        SpecToken { kind: SpecTokenKind::StrLit(s), lexeme: src, line: l2 },
        SpecToken { kind: SpecTokenKind::Eof, lexeme: Seq::<char>::empty(), line: l2 },
    ]);
}

/// Shape of an identifier-shaped word standing alone: a letter or underscore,
/// then letters, digits or underscores.
pub open spec fn identifier_shape(s: Seq<char>) -> bool {
    &&& s.len() > 0
    &&& is_alpha(s[0])
    &&& forall|j: int| 0 <= j < s.len() ==> is_alnum(#[trigger] s[j])
}

/// Law: lexing one identifier-shaped word yields exactly one token, then the
/// end-of-input token. The word's kind is its reserved word's kind on an
/// exact table match — never an identifier — and an identifier carrying the
/// word otherwise.
pub proof fn lemma_lex_word(s: Seq<char>)
    requires
        identifier_shape(s),
    ensures
        spec_lex(s) == Ok::<Seq<SpecToken>, Seq<SpecLexError>>(
            seq![
                SpecToken { kind: ident_or_keyword(s), lexeme: s, line: 1 },
                SpecToken { kind: SpecTokenKind::Eof, lexeme: Seq::<char>::empty(), line: 1 },
            ],
        ),
        spec_keyword(s) matches Some(k) ==> ident_or_keyword(s) == k && !(k is Identifier),
{
    lemma_alnum_end_is(s, 1, s.len() as int);
    let st = spec_scan(s, 0, 1);
    assert(st.next == s.len());
    assert(s.subrange(0, s.len() as int) =~= s);
    assert(st.item == SpecScanItem::Tok(ident_or_keyword(s)));
    let out = spec_lex_from(s, 0, 1);
    assert(spec_lex_from(s, s.len() as int, 1).tokens =~= Seq::<SpecToken>::empty());
    assert(out.tokens =~= seq![SpecToken { kind: ident_or_keyword(s), lexeme: s, line: 1 }]);
    assert(out.errors =~= Seq::<SpecLexError>::empty());
    assert(spec_lex(s)->Ok_0 =~= seq![
        SpecToken { kind: ident_or_keyword(s), lexeme: s, line: 1 },
        SpecToken { kind: SpecTokenKind::Eof, lexeme: Seq::<char>::empty(), line: 1 },
    ]);
}

/// No scan step ever yields the end-of-input kind: only the closing step of a
/// successful pass appends it.
proof fn lemma_lex_from_no_eof(s: Seq<char>, i: int, line: nat)
    ensures
        forall|j: int|
            0 <= j < spec_lex_from(s, i, line).tokens.len() ==> !((#[trigger] spec_lex_from(
                s,
                i,
                line,
            ).tokens[j].kind) is Eof),
    decreases s.len() - i,
{
    if 0 <= i < s.len() {
        let st = spec_scan(s, i, line);
        let nx = if i < st.next <= s.len() {
            st.next
        } else {
            i + 1
        };
        lemma_lex_from_no_eof(s, nx, st.line);
    }
}

impl Lexer {
    /// A whole scanning pass from the cursor: collect every token and every
    /// diagnostic of the remaining input. If any step failed, the pass fails
    /// with all of the pass's diagnostics in source order — tokens scanned
    /// before or after an error never surface as a success. Otherwise the
    /// pass yields the tokens closed by an end-of-input token.
    pub fn scan_tokens(&mut self) -> (r: Result<Vec<Token>, LexFailure>)
        requires
            old(self).wf(),
        ensures
            final(self).wf(),
            final(self).source == old(self).source,
            ({
                let res = spec_lex_at(
                    old(self).source@,
                    old(self).current as int,
                    old(self).line as nat,
                );
                match r {
                    Ok(ts) => res is Ok && toks_view(ts@) == res->Ok_0 && wf_token_seq(
                        toks_view(ts@),
                    ),
                    Err(f) => res is Err && errs_view(f.errors@) == res->Err_0 && f.errors@.len()
                        > 0,
                }
            }),
    {
        proof {
            lemma_lex_from_no_eof(
                self.source@,
                self.current as int,
                self.line as nat,
            );
        }
        let ghost s = self.source@;
        let ghost i0 = self.current as int;
        let ghost l0 = self.line as nat;
        let ghost goal = spec_lex_from(s, i0, l0);
        let mut tokens: Vec<Token> = Vec::new();
        let mut errors: Vec<LexError> = Vec::new();
        while !self.is_at_end()
            invariant
                self.wf(),
                self.source == old(self).source,
                self.chars == old(self).chars,
                s == self.source@,
                goal == spec_lex_from(s, i0, l0),
                goal.tokens == toks_view(tokens@) + spec_lex_from(
                    s,
                    self.current as int,
                    self.line as nat,
                ).tokens,
                goal.errors == errs_view(errors@) + spec_lex_from(
                    s,
                    self.current as int,
                    self.line as nat,
                ).errors,
                goal.line == spec_lex_from(s, self.current as int, self.line as nat).line,
            decreases self.chars@.len() - self.current,
        {
            let ghost cur0 = self.current as int;
            let ghost ln0 = self.line as nat;
            let ghost pre = spec_lex_from(s, cur0, ln0);
            let ghost toks0 = tokens@;
            let ghost errs0 = errors@;
            self.start = self.current;
            let res = self.scan_token();
            let ghost st = spec_scan(s, cur0, ln0);
            let ghost rest = spec_lex_from(s, self.current as int, self.line as nat);
            proof {
                assert(cur0 < st.next <= s.len());
                assert(pre.tokens == match st.item {
                    SpecScanItem::Tok(k) => seq![
                        SpecToken { kind: k, lexeme: s.subrange(cur0, st.next), line: st.line },
                    ] + rest.tokens,
                    SpecScanItem::Skip => rest.tokens,
                    SpecScanItem::Fail(k) => rest.tokens,
                });
            }
            match res {
                Ok(Some(kind)) => {
                    let t = self.create_token(kind);
                    tokens.push(t);
                    proof {
                        assert(toks_view(tokens@) =~= toks_view(toks0) + seq![t@]);
                        assert(goal.tokens =~= toks_view(tokens@) + rest.tokens);
                        assert(goal.errors =~= errs_view(errors@) + rest.errors);
                    }
                },
                Ok(None) => {},
                Err(e) => {
                    errors.push(e);
                    proof {
                        assert(errs_view(errors@) =~= errs_view(errs0) + seq![e@]);
                        assert(goal.errors =~= errs_view(errors@) + rest.errors);
                        assert(goal.tokens =~= toks_view(tokens@) + rest.tokens);
                    }
                },
            }
        }
        proof {
            assert(goal.tokens =~= toks_view(tokens@));
            assert(goal.errors =~= errs_view(errors@));
        }
        if errors.len() > 0 {
            return Err(LexFailure { errors });
        }
        let ghost toks0 = tokens@;
        let eof = Token::new(TokenKind::Eof, String::new(), self.line);
        tokens.push(eof);
        proof {
            assert(toks_view(tokens@) =~= toks_view(toks0).push(eof@));
            assert(eof@.lexeme =~= Seq::<char>::empty());
            assert(eof@ == (SpecToken {
                kind: SpecTokenKind::Eof,
                lexeme: Seq::<char>::empty(),
                line: goal.line,
            }));
        }
        Ok(tokens)
    }
}

/// Case-sensitive lookup of identifier-shaped text in the reserved-word table.
fn keyword_kind(text: &String) -> (r: Option<TokenKind>)
    ensures
        match r {
            Some(k) => spec_keyword(text@) == Some(k@),
            None => spec_keyword(text@) is None,
        },
{
    proof {
        reveal_strlit("and");
        reveal_strlit("class");
        reveal_strlit("else");
        reveal_strlit("false");
        reveal_strlit("for");
        reveal_strlit("fun");
        reveal_strlit("if");
        reveal_strlit("nil");
        reveal_strlit("or");
        reveal_strlit("print");
        reveal_strlit("return");
        reveal_strlit("super");
        reveal_strlit("this");
        reveal_strlit("true");
        reveal_strlit("var");
        reveal_strlit("while");
        assert("and"@ =~= seq!['a', 'n', 'd']);
        assert("class"@ =~= seq!['c', 'l', 'a', 's', 's']);
        assert("else"@ =~= seq!['e', 'l', 's', 'e']);
        assert("false"@ =~= seq!['f', 'a', 'l', 's', 'e']);
        assert("for"@ =~= seq!['f', 'o', 'r']);
        assert("fun"@ =~= seq!['f', 'u', 'n']);
        assert("if"@ =~= seq!['i', 'f']);
        assert("nil"@ =~= seq!['n', 'i', 'l']);
        assert("or"@ =~= seq!['o', 'r']);
        assert("print"@ =~= seq!['p', 'r', 'i', 'n', 't']);
        assert("return"@ =~= seq!['r', 'e', 't', 'u', 'r', 'n']);
        assert("super"@ =~= seq!['s', 'u', 'p', 'e', 'r']);
        assert("this"@ =~= seq!['t', 'h', 'i', 's']);
        assert("true"@ =~= seq!['t', 'r', 'u', 'e']);
        assert("var"@ =~= seq!['v', 'a', 'r']);
        assert("while"@ =~= seq!['w', 'h', 'i', 'l', 'e']);
    }
    if *text == String::from_str("and") {
        Some(TokenKind::And)
    } else if *text == String::from_str("class") {
        Some(TokenKind::Class)
    } else if *text == String::from_str("else") {
        Some(TokenKind::Else)
    } else if *text == String::from_str("false") {
        Some(TokenKind::False)
    } else if *text == String::from_str("for") {
        Some(TokenKind::For)
    } else if *text == String::from_str("fun") {
        Some(TokenKind::Fun)
    } else if *text == String::from_str("if") {
        Some(TokenKind::If)
    } else if *text == String::from_str("nil") {
        Some(TokenKind::Nil)
    } else if *text == String::from_str("or") {
        Some(TokenKind::Or)
    } else if *text == String::from_str("print") {
        Some(TokenKind::Print)
    } else if *text == String::from_str("return") {
        Some(TokenKind::Return)
    } else if *text == String::from_str("super") {
        Some(TokenKind::Super)
    } else if *text == String::from_str("this") {
        Some(TokenKind::This)
    } else if *text == String::from_str("true") {
        Some(TokenKind::True)
    } else if *text == String::from_str("var") {
        Some(TokenKind::Var)
    } else if *text == String::from_str("while") {
        Some(TokenKind::While)
    } else {
        None
    }
}

} // verus!

