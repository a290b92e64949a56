//! The tokens that the lexer hands to the parser.

use crate::error::Span;
use vstd::prelude::*;

verus! {

/// A token: where it was written, and what it is.
pub type Token = (Span, TokenKind);

/// The kinds of token. A kind stays small: the text of a float literal, a
/// string literal or an identifier is interned, and the kind holds its id.
#[derive(Clone, Copy, Debug, PartialEq, Eq, Structural)]
pub enum TokenKind {
    Whitespace(char),
    Void,
    Int,
    Float,
    Boolean,
    String,
    IntegerLiteral(i64),
    FloatLiteral(usize),
    BooleanLiteral(bool),
    StringLiteral(usize),
    Identifier(usize),
    LeftParenthesis,
    RightParenthesis,
    LeftCurlyBrace,
    RightCurlyBrace,
    LeftAngleBracket,
    RightAngleBracket,
    Plus,
    Minus,
    Star,
    Slash,
    PercentSign,
    EqualSign,
    ColonEqualSign,
    ExclamationEqualSign,
    LessThanEqualSign,
    GreaterThanEqualSign,
    Comma,
    Colon,
    ColonColon,
    Not,
    Or,
    And,
    Let,
    If,
    Then,
    Else,
    While,
    Define,
}

/// How many kinds of token there are, payloads aside.
pub const KIND_COUNT: usize = 39;

/// `char::to_string`: the string that holds this one character.
#[verifier::external_body]
fn char_to_string(ch: char) -> (text: String)
    ensures
        text@ == seq![ch],
{
    ch.to_string()
}

impl TokenKind {
    /// The number of the kind, whatever it carries: kinds are numbered from
    /// zero in the order of their declaration.
    pub open spec fn tag_of(self) -> usize {
        match self {
            TokenKind::Whitespace(_) => 0,
            TokenKind::Void => 1,
            TokenKind::Int => 2,
            TokenKind::Float => 3,
            TokenKind::Boolean => 4,
            TokenKind::String => 5,
            TokenKind::IntegerLiteral(_) => 6,
            TokenKind::FloatLiteral(_) => 7,
            TokenKind::BooleanLiteral(_) => 8,
            TokenKind::StringLiteral(_) => 9,
            TokenKind::Identifier(_) => 10,
            TokenKind::LeftParenthesis => 11,
            TokenKind::RightParenthesis => 12,
            TokenKind::LeftCurlyBrace => 13,
            TokenKind::RightCurlyBrace => 14,
            TokenKind::LeftAngleBracket => 15,
            TokenKind::RightAngleBracket => 16,
            TokenKind::Plus => 17,
            TokenKind::Minus => 18,
            TokenKind::Star => 19,
            TokenKind::Slash => 20,
            TokenKind::PercentSign => 21,
            TokenKind::EqualSign => 22,
            TokenKind::ColonEqualSign => 23,
            TokenKind::ExclamationEqualSign => 24,
            TokenKind::LessThanEqualSign => 25,
            TokenKind::GreaterThanEqualSign => 26,
            TokenKind::Comma => 27,
            TokenKind::Colon => 28,
            TokenKind::ColonColon => 29,
            TokenKind::Not => 30,
            TokenKind::Or => 31,
            TokenKind::And => 32,
            TokenKind::Let => 33,
            TokenKind::If => 34,
            TokenKind::Then => 35,
            TokenKind::Else => 36,
            TokenKind::While => 37,
            TokenKind::Define => 38,
        }
    }

    /// The number of the kind, whatever it carries.
    pub fn tag(&self) -> (tag: usize)
        ensures
            tag == self.tag_of(),
            tag < KIND_COUNT,
    {
        match self {
            TokenKind::Whitespace(_) => 0,
            TokenKind::Void => 1,
            TokenKind::Int => 2,
            TokenKind::Float => 3,
            TokenKind::Boolean => 4,
            TokenKind::String => 5,
            TokenKind::IntegerLiteral(_) => 6,
            TokenKind::FloatLiteral(_) => 7,
            TokenKind::BooleanLiteral(_) => 8,
            TokenKind::StringLiteral(_) => 9,
            TokenKind::Identifier(_) => 10,
            TokenKind::LeftParenthesis => 11,
            TokenKind::RightParenthesis => 12,
            TokenKind::LeftCurlyBrace => 13,
            TokenKind::RightCurlyBrace => 14,
            TokenKind::LeftAngleBracket => 15,
            TokenKind::RightAngleBracket => 16,
            TokenKind::Plus => 17,
            TokenKind::Minus => 18,
            TokenKind::Star => 19,
            TokenKind::Slash => 20,
            TokenKind::PercentSign => 21,
            TokenKind::EqualSign => 22,
            TokenKind::ColonEqualSign => 23,
            TokenKind::ExclamationEqualSign => 24,
            TokenKind::LessThanEqualSign => 25,
            TokenKind::GreaterThanEqualSign => 26,
            TokenKind::Comma => 27,
            TokenKind::Colon => 28,
            TokenKind::ColonColon => 29,
            TokenKind::Not => 30,
            TokenKind::Or => 31,
            TokenKind::And => 32,
            TokenKind::Let => 33,
            TokenKind::If => 34,
            TokenKind::Then => 35,
            TokenKind::Else => 36,
            TokenKind::While => 37,
            TokenKind::Define => 38,
        }
    }

    /// How a diagnostic names the kind: a whitespace token as its character,
    /// a keyword or an operator as it is written, a literal or an identifier
    /// by what it is.
    pub open spec fn display(self) -> Seq<char> {
        match self {
            TokenKind::Whitespace(ch) => seq![ch],
            TokenKind::Void => "Void"@,
            TokenKind::Int => "Int"@,
            TokenKind::Float => "Float"@,
            TokenKind::Boolean => "Boolean"@,
            TokenKind::String => "String"@,
            TokenKind::IntegerLiteral(_) => "integer literal"@,
            TokenKind::FloatLiteral(_) => "float literal"@,
            TokenKind::BooleanLiteral(_) => "boolean literal"@,
            TokenKind::StringLiteral(_) => "string literal"@,
            TokenKind::Identifier(_) => "identifier"@,
            TokenKind::LeftParenthesis => "("@,
            TokenKind::RightParenthesis => ")"@,
            TokenKind::LeftCurlyBrace => "{"@,
            TokenKind::RightCurlyBrace => "}"@,
            TokenKind::LeftAngleBracket => "<"@,
            TokenKind::RightAngleBracket => ">"@,
            TokenKind::Plus => "+"@,
            TokenKind::Minus => "-"@,
            TokenKind::Star => "*"@,
            TokenKind::Slash => "/"@,
            TokenKind::PercentSign => "%"@,
            TokenKind::EqualSign => "="@,
            TokenKind::ColonEqualSign => ":="@,
            TokenKind::ExclamationEqualSign => "!="@,
            TokenKind::LessThanEqualSign => "<="@,
            TokenKind::GreaterThanEqualSign => ">="@,
            TokenKind::Comma => ","@,
            TokenKind::Colon => ":"@,
            TokenKind::ColonColon => "::"@,
            TokenKind::Not => "not"@,
            TokenKind::Or => "or"@,
            TokenKind::And => "and"@,
            TokenKind::Let => "let"@,
            TokenKind::If => "if"@,
            TokenKind::Then => "then"@,
            TokenKind::Else => "else"@,
            TokenKind::While => "while"@,
            TokenKind::Define => "define"@,
        }
    }

    /// How a diagnostic names the kind.
    pub fn to_string(&self) -> (text: String)
        ensures
            text@ == self.display(),
    {
        match self {
            TokenKind::Whitespace(ch) => char_to_string(*ch),
            TokenKind::Void => "Void".to_owned(),
            TokenKind::Int => "Int".to_owned(),
            TokenKind::Float => "Float".to_owned(),
            TokenKind::Boolean => "Boolean".to_owned(),
            TokenKind::String => "String".to_owned(),
            TokenKind::IntegerLiteral(_) => "integer literal".to_owned(),
            TokenKind::FloatLiteral(_) => "float literal".to_owned(),
            TokenKind::BooleanLiteral(_) => "boolean literal".to_owned(),
            TokenKind::StringLiteral(_) => "string literal".to_owned(),
            TokenKind::Identifier(_) => "identifier".to_owned(),
            TokenKind::LeftParenthesis => "(".to_owned(),
            TokenKind::RightParenthesis => ")".to_owned(),
            TokenKind::LeftCurlyBrace => "{".to_owned(),
            TokenKind::RightCurlyBrace => "}".to_owned(),
            TokenKind::LeftAngleBracket => "<".to_owned(),
            TokenKind::RightAngleBracket => ">".to_owned(),
            TokenKind::Plus => "+".to_owned(),
            TokenKind::Minus => "-".to_owned(),
            TokenKind::Star => "*".to_owned(),
            TokenKind::Slash => "/".to_owned(),
            TokenKind::PercentSign => "%".to_owned(),
            TokenKind::EqualSign => "=".to_owned(),
            TokenKind::ColonEqualSign => ":=".to_owned(),
            TokenKind::ExclamationEqualSign => "!=".to_owned(),
            TokenKind::LessThanEqualSign => "<=".to_owned(),
            TokenKind::GreaterThanEqualSign => ">=".to_owned(),
            TokenKind::Comma => ",".to_owned(),
            TokenKind::Colon => ":".to_owned(),
            TokenKind::ColonColon => "::".to_owned(),
            TokenKind::Not => "not".to_owned(),
            TokenKind::Or => "or".to_owned(),
            TokenKind::And => "and".to_owned(),
            TokenKind::Let => "let".to_owned(),
            TokenKind::If => "if".to_owned(),
            TokenKind::Then => "then".to_owned(),
            TokenKind::Else => "else".to_owned(),
            TokenKind::While => "while".to_owned(),
            TokenKind::Define => "define".to_owned(),
        }
    }
}

} // verus!
