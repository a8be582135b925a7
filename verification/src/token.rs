//! The token model: the closed set of token kinds, the token value itself,
//! and the keyword lookup that reclassifies identifier-shaped runs.

use vstd::prelude::*;
use vstd::string::StringExecFns;

verus! {

/// The classification of a single token.
#[derive(Clone, Copy, Debug, PartialEq, Eq, Structural)]
pub enum TokenKind {
    Illegal,
    EndOfInput,
    Identifier,
    IntegerLiteral,
    Assign,
    Plus,
    Minus,
    Bang,
    Asterisk,
    Slash,
    LessThan,
    GreaterThan,
    Equal,
    NotEqual,
    Comma,
    Semicolon,
    LParen,
    RParen,
    LBrace,
    RBrace,
    Function,
    Let,
    True,
    False,
    If,
    Else,
    Return,
}

/// A token: its classification and the exact source text that produced it.
///
/// For single-character tokens the literal is that one character; for
/// identifier, keyword and integer tokens it is the full run; for the
/// synthetic end-of-input token it is empty.
#[derive(Debug, PartialEq)]
pub struct Token {
    pub kind: TokenKind,
    pub literal: String,
}

/// The keyword kind for a reserved word, or `Identifier` for any other text.
pub open spec fn spec_lookup_ident(s: Seq<char>) -> TokenKind {
    if s == "fn"@ {
        TokenKind::Function
    } else if s == "let"@ {
        TokenKind::Let
    } else if s == "true"@ {
        TokenKind::True
    } else if s == "false"@ {
        TokenKind::False
    } else if s == "if"@ {
        TokenKind::If
    } else if s == "else"@ {
        TokenKind::Else
    } else if s == "return"@ {
        TokenKind::Return
    } else {
        TokenKind::Identifier
    }
}

/// True exactly of the seven reserved words of the language.
pub open spec fn is_reserved_word(s: Seq<char>) -> bool {
    spec_lookup_ident(s) != TokenKind::Identifier
}

/// True of the kinds that the keyword lookup can produce for a reserved word.
pub open spec fn is_keyword_kind(kind: TokenKind) -> bool {
    ||| kind == TokenKind::Function
    ||| kind == TokenKind::Let
    ||| kind == TokenKind::True
    ||| kind == TokenKind::False
    ||| kind == TokenKind::If
    ||| kind == TokenKind::Else
    ||| kind == TokenKind::Return
}

/// Compares the text of `s` with the literal `w`.
fn text_is(s: &String, w: &str) -> (r: bool)
    ensures
        r == (s@ == w@),
{
    let t = String::from_str(w);
    *s == t
}

/// Resolves an identifier-shaped literal: the matching keyword kind if the
/// text is exactly one of the reserved words, `Identifier` otherwise.
pub fn lookup_ident(identifier: &String) -> (kind: TokenKind)
    ensures
        kind == spec_lookup_ident(identifier@),
{
    if text_is(identifier, "fn") {
        TokenKind::Function
    } else if text_is(identifier, "let") {
        TokenKind::Let
    } else if text_is(identifier, "true") {
        TokenKind::True
    } else if text_is(identifier, "false") {
        TokenKind::False
    } else if text_is(identifier, "if") {
        TokenKind::If
    } else if text_is(identifier, "else") {
        TokenKind::Else
    } else if text_is(identifier, "return") {
        TokenKind::Return
    } else {
        TokenKind::Identifier
    }
}

/// The display text of each kind, used only for diagnostics.
pub open spec fn spec_kind_display(kind: TokenKind) -> Seq<char> {
    match kind {
        TokenKind::Illegal => "ILLEGAL"@,
        TokenKind::EndOfInput => "EOF"@,
        TokenKind::Identifier => "IDENT"@,
        TokenKind::IntegerLiteral => "INT"@,
        TokenKind::Assign => "="@,
        TokenKind::Plus => "+"@,
        TokenKind::Minus => "-"@,
        TokenKind::Bang => "!"@,
        TokenKind::Asterisk => "*"@,
        TokenKind::Slash => "/"@,
        TokenKind::LessThan => "<"@,
        TokenKind::GreaterThan => ">"@,
        TokenKind::Equal => "=="@,
        TokenKind::NotEqual => "!="@,
        TokenKind::Comma => ","@,
        TokenKind::Semicolon => ";"@,
        TokenKind::LParen => "("@,
        TokenKind::RParen => ")"@,
        TokenKind::LBrace => "{"@,
        TokenKind::RBrace => "}"@,
        TokenKind::Function => "FUNCTION"@,
        TokenKind::Let => "Let"@,
        TokenKind::True => "true"@,
        TokenKind::False => "false"@,
        TokenKind::If => "if"@,
        TokenKind::Else => "else"@,
        TokenKind::Return => "return"@,
    }
}

impl TokenKind {
    /// Renders the kind as its canonical display string.
    pub fn display_string(&self) -> (s: String)
        ensures
            s@ == spec_kind_display(*self),
    {
        match self {
            TokenKind::Illegal => String::from_str("ILLEGAL"),
            TokenKind::EndOfInput => String::from_str("EOF"),
            TokenKind::Identifier => String::from_str("IDENT"),
            TokenKind::IntegerLiteral => String::from_str("INT"),
            TokenKind::Assign => String::from_str("="),
            TokenKind::Plus => String::from_str("+"),
            TokenKind::Minus => String::from_str("-"),
            TokenKind::Bang => String::from_str("!"),
            TokenKind::Asterisk => String::from_str("*"),
            TokenKind::Slash => String::from_str("/"),
            TokenKind::LessThan => String::from_str("<"),
            TokenKind::GreaterThan => String::from_str(">"),
            TokenKind::Equal => String::from_str("=="),
            TokenKind::NotEqual => String::from_str("!="),
            TokenKind::Comma => String::from_str(","),
            TokenKind::Semicolon => String::from_str(";"),
            TokenKind::LParen => String::from_str("("),
            TokenKind::RParen => String::from_str(")"),
            TokenKind::LBrace => String::from_str("{"),
            TokenKind::RBrace => String::from_str("}"),
            TokenKind::Function => String::from_str("FUNCTION"),
            TokenKind::Let => String::from_str("Let"),
            TokenKind::True => String::from_str("true"),
            TokenKind::False => String::from_str("false"),
            TokenKind::If => String::from_str("if"),
            TokenKind::Else => String::from_str("else"),
            TokenKind::Return => String::from_str("return"),
        }
    }
}

} // verus!
