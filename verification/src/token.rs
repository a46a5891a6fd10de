//! The token model: the closed set of lexical categories, with positional
//! metadata, that the scanner produces and the parser consumes.

use vstd::prelude::*;

verus! {

/// The lexical category of a token, with its payload where one exists.
///
/// Float literals carry their source text: the digits before and after the
/// decimal point, exactly as written. Reading that text as a 32-bit float is
/// left to consumers of the token stream.
#[derive(Debug, Clone, PartialEq)]
pub enum TokenType {
    // Structural punctuation.
    LeftParen,   // (
    RightParen,  // )
    LeftBrace,   // {
    RightBrace,  // }
    // One or two character operators.
    Bang,          // !
    BangEqual,     // !=
    Equal,         // =
    EqualEqual,    // ==
    Greater,       // >
    GreaterEqual,  // >=
    Less,          // <
    LessEqual,     // <=
    // Literals.
    Symbol(String),
    String(String),
    Character(char),
    Keyword(String),
    Float32(String),
    Int32(i32),
    Bool(bool),
    // Reserved words.
    Var,    // def
    Func,   // fn
    Macro,  // macro
    Quote,  // quote, and the ' marker
    // Single-character reader-macro markers: quasiquote, unquote, splice.
    ReaderMacro(String),
}

/// The mathematical value of a [`TokenType`]: the same categories over
/// character sequences.
#[verifier::ext_equal]
pub enum TokenTypeV {
    LeftParen,
    RightParen,
    LeftBrace,
    RightBrace,
    Bang,
    BangEqual,
    Equal,
    EqualEqual,
    Greater,
    GreaterEqual,
    Less,
    LessEqual,
    Symbol(Seq<char>),
    String(Seq<char>),
    Character(char),
    Keyword(Seq<char>),
    Float32(Seq<char>),
    Int32(i32),
    Bool(bool),
    Var,
    Func,
    Macro,
    Quote,
    ReaderMacro(Seq<char>),
}

impl DeepView for TokenType {
    type V = TokenTypeV;

    open spec fn deep_view(&self) -> TokenTypeV {
        match self {
            TokenType::LeftParen => TokenTypeV::LeftParen,
            TokenType::RightParen => TokenTypeV::RightParen,
            TokenType::LeftBrace => TokenTypeV::LeftBrace,
            TokenType::RightBrace => TokenTypeV::RightBrace,
            TokenType::Bang => TokenTypeV::Bang,
            TokenType::BangEqual => TokenTypeV::BangEqual,
            TokenType::Equal => TokenTypeV::Equal,
            TokenType::EqualEqual => TokenTypeV::EqualEqual,
            TokenType::Greater => TokenTypeV::Greater,
            TokenType::GreaterEqual => TokenTypeV::GreaterEqual,
            TokenType::Less => TokenTypeV::Less,
            TokenType::LessEqual => TokenTypeV::LessEqual,
            TokenType::Symbol(s) => TokenTypeV::Symbol(s@),
            TokenType::String(s) => TokenTypeV::String(s@),
            TokenType::Character(c) => TokenTypeV::Character(*c),
            TokenType::Keyword(s) => TokenTypeV::Keyword(s@),
            TokenType::Float32(s) => TokenTypeV::Float32(s@),
            TokenType::Int32(v) => TokenTypeV::Int32(*v),
            TokenType::Bool(b) => TokenTypeV::Bool(*b),
            TokenType::Var => TokenTypeV::Var,
            TokenType::Func => TokenTypeV::Func,
            TokenType::Macro => TokenTypeV::Macro,
            TokenType::Quote => TokenTypeV::Quote,
            TokenType::ReaderMacro(s) => TokenTypeV::ReaderMacro(s@),
        }
    }
}

/// A token: a lexical category at a source position. The line counter starts
/// at 1; the column counter counts characters consumed on the line, so the
/// first character of a line has column 1. A token carries the position of
/// the first character of its lexeme.
#[derive(Debug, Clone, PartialEq)]
pub struct Token {
    pub token_type: TokenType,
    pub line: u32,
    pub column: u32,
}

/// The mathematical value of a [`Token`].
#[verifier::ext_equal]
pub struct TokenV {
    pub token_type: TokenTypeV,
    pub line: nat,
    pub column: nat,
}

impl DeepView for Token {
    type V = TokenV;

    open spec fn deep_view(&self) -> TokenV {
        TokenV {
            token_type: self.token_type.deep_view(),
            line: self.line as nat,
            column: self.column as nat,
        }
    }
}

} // verus!
