//! The shared token vocabulary: token kinds, the token value itself, and the
//! reserved-word table, together with their mathematical views.

use vstd::prelude::*;

verus! {

/// The closed set of token kinds: punctuation and operators, literals with a
/// payload, reserved words, and the end-of-input marker. A number's payload is
/// the exact digit text of its lexeme, so that no inexact representation enters
/// the token stream; the caller may convert it to its numeric value.
#[derive(Debug, PartialEq)]
pub enum TokenKind {
    LeftParen,
    RightParen,
    LeftBrace,
    RightBrace,
    Comma,
    Dot,
    Minus,
    Plus,
    Semicolon,
    Slash,
    Star,
    Bang,
    BangEqual,
    Equal,
    EqualEqual,
    Less,
    LessEqual,
    Greater,
    GreaterEqual,
    StrLit(String),
    Number(String),
    Identifier(String),
    And,
    Class,
    Else,
    False,
    For,
    Fun,
    If,
    Nil,
    Or,
    Print,
    Return,
    Super,
    This,
    True,
    Var,
    While,
    Eof,
}

/// Mathematical view of a token kind: payloads become character sequences.
pub enum SpecTokenKind {
    LeftParen,
    RightParen,
    LeftBrace,
    RightBrace,
    Comma,
    Dot,
    Minus,
    Plus,
    Semicolon,
    Slash,
    Star,
    Bang,
    BangEqual,
    Equal,
    EqualEqual,
    Less,
    LessEqual,
    Greater,
    GreaterEqual,
    StrLit(Seq<char>),
    Number(Seq<char>),
    Identifier(Seq<char>),
    And,
    Class,
    Else,
    False,
    For,
    Fun,
    If,
    Nil,
    Or,
    Print,
    Return,
    Super,
    This,
    True,
    Var,
    While,
    Eof,
}

impl View for TokenKind {
    type V = SpecTokenKind;

    open spec fn view(&self) -> SpecTokenKind {
        match self {
            TokenKind::LeftParen => SpecTokenKind::LeftParen,
            TokenKind::RightParen => SpecTokenKind::RightParen,
            TokenKind::LeftBrace => SpecTokenKind::LeftBrace,
            TokenKind::RightBrace => SpecTokenKind::RightBrace,
            TokenKind::Comma => SpecTokenKind::Comma,
            TokenKind::Dot => SpecTokenKind::Dot,
            TokenKind::Minus => SpecTokenKind::Minus,
            TokenKind::Plus => SpecTokenKind::Plus,
            TokenKind::Semicolon => SpecTokenKind::Semicolon,
            TokenKind::Slash => SpecTokenKind::Slash,
            TokenKind::Star => SpecTokenKind::Star,
            TokenKind::Bang => SpecTokenKind::Bang,
            TokenKind::BangEqual => SpecTokenKind::BangEqual,
            TokenKind::Equal => SpecTokenKind::Equal,
            TokenKind::EqualEqual => SpecTokenKind::EqualEqual,
            TokenKind::Less => SpecTokenKind::Less,
            TokenKind::LessEqual => SpecTokenKind::LessEqual,
            TokenKind::Greater => SpecTokenKind::Greater,
            TokenKind::GreaterEqual => SpecTokenKind::GreaterEqual,
            TokenKind::StrLit(s) => SpecTokenKind::StrLit(s@),
            TokenKind::Number(s) => SpecTokenKind::Number(s@),
            TokenKind::Identifier(s) => SpecTokenKind::Identifier(s@),
            TokenKind::And => SpecTokenKind::And,
            TokenKind::Class => SpecTokenKind::Class,
            TokenKind::Else => SpecTokenKind::Else,
            TokenKind::False => SpecTokenKind::False,
            TokenKind::For => SpecTokenKind::For,
            TokenKind::Fun => SpecTokenKind::Fun,
            TokenKind::If => SpecTokenKind::If,
            TokenKind::Nil => SpecTokenKind::Nil,
            TokenKind::Or => SpecTokenKind::Or,
            TokenKind::Print => SpecTokenKind::Print,
            TokenKind::Return => SpecTokenKind::Return,
            TokenKind::Super => SpecTokenKind::Super,
            TokenKind::This => SpecTokenKind::This,
            TokenKind::True => SpecTokenKind::True,
            TokenKind::Var => SpecTokenKind::Var,
            TokenKind::While => SpecTokenKind::While,
            TokenKind::Eof => SpecTokenKind::Eof,
        }
    }
}

impl TokenKind {
    /// An owned copy with the same view.
    pub fn dup(&self) -> (k: TokenKind)
        ensures
            k@ == self@,
    {
        match self {
            TokenKind::LeftParen => TokenKind::LeftParen,
            TokenKind::RightParen => TokenKind::RightParen,
            TokenKind::LeftBrace => TokenKind::LeftBrace,
            TokenKind::RightBrace => TokenKind::RightBrace,
            TokenKind::Comma => TokenKind::Comma,
            TokenKind::Dot => TokenKind::Dot,
            TokenKind::Minus => TokenKind::Minus,
            TokenKind::Plus => TokenKind::Plus,
            TokenKind::Semicolon => TokenKind::Semicolon,
            TokenKind::Slash => TokenKind::Slash,
            TokenKind::Star => TokenKind::Star,
            TokenKind::Bang => TokenKind::Bang,
            TokenKind::BangEqual => TokenKind::BangEqual,
            TokenKind::Equal => TokenKind::Equal,
            TokenKind::EqualEqual => TokenKind::EqualEqual,
            TokenKind::Less => TokenKind::Less,
            TokenKind::LessEqual => TokenKind::LessEqual,
            TokenKind::Greater => TokenKind::Greater,
            TokenKind::GreaterEqual => TokenKind::GreaterEqual,
            TokenKind::StrLit(s) => TokenKind::StrLit(s.clone()),
            TokenKind::Number(s) => TokenKind::Number(s.clone()),
            TokenKind::Identifier(s) => TokenKind::Identifier(s.clone()),
            TokenKind::And => TokenKind::And,
            TokenKind::Class => TokenKind::Class,
            TokenKind::Else => TokenKind::Else,
            TokenKind::False => TokenKind::False,
            TokenKind::For => TokenKind::For,
            TokenKind::Fun => TokenKind::Fun,
            TokenKind::If => TokenKind::If,
            TokenKind::Nil => TokenKind::Nil,
            TokenKind::Or => TokenKind::Or,
            TokenKind::Print => TokenKind::Print,
            TokenKind::Return => TokenKind::Return,
            TokenKind::Super => TokenKind::Super,
            TokenKind::This => TokenKind::This,
            TokenKind::True => TokenKind::True,
            TokenKind::Var => TokenKind::Var,
            TokenKind::While => TokenKind::While,
            TokenKind::Eof => TokenKind::Eof,
        }
    }
}

/// Position of a kind within the closed variant list; two kinds agree on it
/// exactly when they are the same alternative, payloads aside.
pub open spec fn kind_tag(k: SpecTokenKind) -> int {
    match k {
        SpecTokenKind::LeftParen => 0,
        SpecTokenKind::RightParen => 1,
        SpecTokenKind::LeftBrace => 2,
        SpecTokenKind::RightBrace => 3,
        SpecTokenKind::Comma => 4,
        SpecTokenKind::Dot => 5,
        SpecTokenKind::Minus => 6,
        SpecTokenKind::Plus => 7,
        SpecTokenKind::Semicolon => 8,
        SpecTokenKind::Slash => 9,
        SpecTokenKind::Star => 10,
        SpecTokenKind::Bang => 11,
        SpecTokenKind::BangEqual => 12,
        SpecTokenKind::Equal => 13,
        SpecTokenKind::EqualEqual => 14,
        SpecTokenKind::Less => 15,
        SpecTokenKind::LessEqual => 16,
        SpecTokenKind::Greater => 17,
        SpecTokenKind::GreaterEqual => 18,
        SpecTokenKind::StrLit(_) => 19,
        SpecTokenKind::Number(_) => 20,
        SpecTokenKind::Identifier(_) => 21,
        SpecTokenKind::And => 22,
        SpecTokenKind::Class => 23,
        SpecTokenKind::Else => 24,
        SpecTokenKind::False => 25,
        SpecTokenKind::For => 26,
        SpecTokenKind::Fun => 27,
        SpecTokenKind::If => 28,
        SpecTokenKind::Nil => 29,
        SpecTokenKind::Or => 30,
        SpecTokenKind::Print => 31,
        SpecTokenKind::Return => 32,
        SpecTokenKind::Super => 33,
        SpecTokenKind::This => 34,
        SpecTokenKind::True => 35,
        SpecTokenKind::Var => 36,
        SpecTokenKind::While => 37,
        SpecTokenKind::Eof => 38,
    }
}

/// Same alternative of the kind list, ignoring payloads.
pub open spec fn same_kind(a: SpecTokenKind, b: SpecTokenKind) -> bool {
    kind_tag(a) == kind_tag(b)
}

impl TokenKind {
    pub fn tag(&self) -> (t: u32)
        ensures
            t as int == kind_tag(self@),
    {
        match self {
            TokenKind::LeftParen => 0,
            TokenKind::RightParen => 1,
            TokenKind::LeftBrace => 2,
            TokenKind::RightBrace => 3,
            TokenKind::Comma => 4,
            TokenKind::Dot => 5,
            TokenKind::Minus => 6,
            TokenKind::Plus => 7,
            TokenKind::Semicolon => 8,
            TokenKind::Slash => 9,
            TokenKind::Star => 10,
            TokenKind::Bang => 11,
            TokenKind::BangEqual => 12,
            TokenKind::Equal => 13,
            TokenKind::EqualEqual => 14,
            TokenKind::Less => 15,
            TokenKind::LessEqual => 16,
            TokenKind::Greater => 17,
            TokenKind::GreaterEqual => 18,
            TokenKind::StrLit(_) => 19,
            TokenKind::Number(_) => 20,
            TokenKind::Identifier(_) => 21,
            TokenKind::And => 22,
            TokenKind::Class => 23,
            TokenKind::Else => 24,
            TokenKind::False => 25,
            TokenKind::For => 26,
            TokenKind::Fun => 27,
            TokenKind::If => 28,
            TokenKind::Nil => 29,
            TokenKind::Or => 30,
            TokenKind::Print => 31,
            TokenKind::Return => 32,
            TokenKind::Super => 33,
            TokenKind::This => 34,
            TokenKind::True => 35,
            TokenKind::Var => 36,
            TokenKind::While => 37,
            TokenKind::Eof => 38,
        }
    }
}

/// A classified unit of source text: its kind, the exact source substring it
/// was scanned from, and the 1-based source line it ends on.
#[derive(Debug, PartialEq)]
pub struct Token {
    pub kind: TokenKind,
    pub lexeme: String,
    pub line: usize,
}

/// Mathematical view of a token.
pub struct SpecToken {
    pub kind: SpecTokenKind,
    pub lexeme: Seq<char>,
    pub line: nat,
}

impl View for Token {
    type V = SpecToken;

    open spec fn view(&self) -> SpecToken {
        SpecToken { kind: self.kind@, lexeme: self.lexeme@, line: self.line as nat }
    }
}

impl Token {
    pub fn new(kind: TokenKind, lexeme: String, line: usize) -> (t: Token)
        ensures
            t@ == (SpecToken { kind: kind@, lexeme: lexeme@, line: line as nat }),
    {
        Token { kind, lexeme, line }
    }

    /// An owned copy with the same view.
    pub fn dup(&self) -> (t: Token)
        ensures
            t@ == self@,
    {
        Token { kind: self.kind.dup(), lexeme: self.lexeme.clone(), line: self.line }
    }
}

/// The views of a sequence of tokens.
pub open spec fn toks_view(ts: Seq<Token>) -> Seq<SpecToken> {
    ts.map(|i: int, t: Token| t@)
}

/// A token sequence as the parser expects it: non-empty, closed by exactly one
/// end-of-input marker, which appears nowhere else.
pub open spec fn wf_token_seq(ts: Seq<SpecToken>) -> bool {
    &&& ts.len() > 0
    &&& ts[ts.len() - 1].kind is Eof
    &&& forall|j: int| 0 <= j < ts.len() - 1 ==> !((#[trigger] ts[j].kind) is Eof)
}

/// The fixed reserved-word table: case-sensitive exact match.
pub open spec fn spec_keyword(s: Seq<char>) -> Option<SpecTokenKind> {
    if s == seq!['a', 'n', 'd'] {
        Some(SpecTokenKind::And)
    } else if s == seq!['c', 'l', 'a', 's', 's'] {
        Some(SpecTokenKind::Class)
    } else if s == seq!['e', 'l', 's', 'e'] {
        Some(SpecTokenKind::Else)
    } else if s == seq!['f', 'a', 'l', 's', 'e'] {
        Some(SpecTokenKind::False)
    } else if s == seq!['f', 'o', 'r'] {
        Some(SpecTokenKind::For)
    } else if s == seq!['f', 'u', 'n'] {
        Some(SpecTokenKind::Fun)
    } else if s == seq!['i', 'f'] {
        Some(SpecTokenKind::If)
    } else if s == seq!['n', 'i', 'l'] {
        Some(SpecTokenKind::Nil)
    } else if s == seq!['o', 'r'] {
        Some(SpecTokenKind::Or)
    } else if s == seq!['p', 'r', 'i', 'n', 't'] {
        Some(SpecTokenKind::Print)
    } else if s == seq!['r', 'e', 't', 'u', 'r', 'n'] {
        Some(SpecTokenKind::Return)
    } else if s == seq!['s', 'u', 'p', 'e', 'r'] {
        Some(SpecTokenKind::Super)
    } else if s == seq!['t', 'h', 'i', 's'] {
        Some(SpecTokenKind::This)
    } else if s == seq!['t', 'r', 'u', 'e'] {
        Some(SpecTokenKind::True)
    } else if s == seq!['v', 'a', 'r'] {
        Some(SpecTokenKind::Var)
    } else if s == seq!['w', 'h', 'i', 'l', 'e'] {
        Some(SpecTokenKind::While)
    } else {
        None
    }
}

/// The kind an identifier-shaped run of text is classified as: the reserved
/// word's kind on an exact table match, an identifier otherwise.
pub open spec fn ident_or_keyword(s: Seq<char>) -> SpecTokenKind {
    match spec_keyword(s) {
        Some(k) => k,
        None => SpecTokenKind::Identifier(s),
    }
}

} // verus!
