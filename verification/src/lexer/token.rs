use vstd::prelude::*;
use vstd::string::*;
use crate::common::utils::{decimal_text, usize_to_string};

verus! {

/// The class of a lexeme, with its payload. The type is generic in how text
/// is held: the lexer produces `TokenType<String>`, and contracts speak of its
/// view, a `TokenType<Seq<char>>`.
///
/// A decimal literal keeps the text it was written with (digits, a dot,
/// digits); a quoted string keeps its quote in the variant: `String` was
/// written between single quotes and is taken literally, `TemplateString`
/// between double quotes.
#[derive(Debug, PartialEq)]
pub enum TokenType<S = String> {
    And,
    Asterisk,
    Carat,
    CloseBraces,
    CloseParen,
    Comma,
    BackSlash,
    Dot,
    DoubleEquals,
    EOF,
    Equals,
    ForwardSlash,
    Ge,
    GreaterThan,
    Le,
    LessThan,
    OpenSqBracket,
    CloseSqBracket,
    Minus,
    Newline,
    Not,
    NotEquals,
    OpenBraces,
    OpenParen,
    Or,
    Plus,
    SemiColon,
    SingleQuote,
    Whitespace,
    Underscore,
    LineComment,
    Integer(usize),
    Decimal(S),
    String(S),
    TemplateString(S),
    Identifier(S),
    EscapedIdentifier(S),
    CatchAll(S),
}

impl View for TokenType<String> {
    type V = TokenType<Seq<char>>;

    open spec fn view(&self) -> TokenType<Seq<char>> {
        match self {
            TokenType::And => TokenType::And,
            TokenType::Asterisk => TokenType::Asterisk,
            TokenType::Carat => TokenType::Carat,
            TokenType::CloseBraces => TokenType::CloseBraces,
            TokenType::CloseParen => TokenType::CloseParen,
            TokenType::Comma => TokenType::Comma,
            TokenType::BackSlash => TokenType::BackSlash,
            TokenType::Dot => TokenType::Dot,
            TokenType::DoubleEquals => TokenType::DoubleEquals,
            TokenType::EOF => TokenType::EOF,
            TokenType::Equals => TokenType::Equals,
            TokenType::ForwardSlash => TokenType::ForwardSlash,
            TokenType::Ge => TokenType::Ge,
            TokenType::GreaterThan => TokenType::GreaterThan,
            TokenType::Le => TokenType::Le,
            TokenType::LessThan => TokenType::LessThan,
            TokenType::OpenSqBracket => TokenType::OpenSqBracket,
            TokenType::CloseSqBracket => TokenType::CloseSqBracket,
            TokenType::Minus => TokenType::Minus,
            TokenType::Newline => TokenType::Newline,
            TokenType::Not => TokenType::Not,
            TokenType::NotEquals => TokenType::NotEquals,
            TokenType::OpenBraces => TokenType::OpenBraces,
            TokenType::OpenParen => TokenType::OpenParen,
            TokenType::Or => TokenType::Or,
            TokenType::Plus => TokenType::Plus,
            TokenType::SemiColon => TokenType::SemiColon,
            TokenType::SingleQuote => TokenType::SingleQuote,
            TokenType::Whitespace => TokenType::Whitespace,
            TokenType::Underscore => TokenType::Underscore,
            TokenType::LineComment => TokenType::LineComment,
            TokenType::Integer(n) => TokenType::Integer(*n),
            TokenType::Decimal(s) => TokenType::Decimal(s@),
            TokenType::String(s) => TokenType::String(s@),
            TokenType::TemplateString(s) => TokenType::TemplateString(s@),
            TokenType::Identifier(s) => TokenType::Identifier(s@),
            TokenType::EscapedIdentifier(s) => TokenType::EscapedIdentifier(s@),
            TokenType::CatchAll(s) => TokenType::CatchAll(s@),
        }
    }
}

impl Clone for TokenType<String> {
    fn clone(&self) -> (r: Self)
        ensures
            r@ == self@,
    {
        match self {
            TokenType::And => TokenType::And,
            TokenType::Asterisk => TokenType::Asterisk,
            TokenType::Carat => TokenType::Carat,
            TokenType::CloseBraces => TokenType::CloseBraces,
            TokenType::CloseParen => TokenType::CloseParen,
            TokenType::Comma => TokenType::Comma,
            TokenType::BackSlash => TokenType::BackSlash,
            TokenType::Dot => TokenType::Dot,
            TokenType::DoubleEquals => TokenType::DoubleEquals,
            TokenType::EOF => TokenType::EOF,
            TokenType::Equals => TokenType::Equals,
            TokenType::ForwardSlash => TokenType::ForwardSlash,
            TokenType::Ge => TokenType::Ge,
            TokenType::GreaterThan => TokenType::GreaterThan,
            TokenType::Le => TokenType::Le,
            TokenType::LessThan => TokenType::LessThan,
            TokenType::OpenSqBracket => TokenType::OpenSqBracket,
            TokenType::CloseSqBracket => TokenType::CloseSqBracket,
            TokenType::Minus => TokenType::Minus,
            TokenType::Newline => TokenType::Newline,
            TokenType::Not => TokenType::Not,
            TokenType::NotEquals => TokenType::NotEquals,
            TokenType::OpenBraces => TokenType::OpenBraces,
            TokenType::OpenParen => TokenType::OpenParen,
            TokenType::Or => TokenType::Or,
            TokenType::Plus => TokenType::Plus,
            TokenType::SemiColon => TokenType::SemiColon,
            TokenType::SingleQuote => TokenType::SingleQuote,
            TokenType::Whitespace => TokenType::Whitespace,
            TokenType::Underscore => TokenType::Underscore,
            TokenType::LineComment => TokenType::LineComment,
            TokenType::Integer(n) => TokenType::Integer(*n),
            TokenType::Decimal(s) => TokenType::Decimal(s.clone()),
            TokenType::String(s) => TokenType::String(s.clone()),
            TokenType::TemplateString(s) => TokenType::TemplateString(s.clone()),
            TokenType::Identifier(s) => TokenType::Identifier(s.clone()),
            TokenType::EscapedIdentifier(s) => TokenType::EscapedIdentifier(s.clone()),
            TokenType::CatchAll(s) => TokenType::CatchAll(s.clone()),
        }
    }
}

/// Whether a token ends a line: the end of input and the newline do.
pub open spec fn ends_line(t: TokenType<Seq<char>>) -> bool {
    t is EOF || t is Newline
}

/// The display form of a token: the text that stands for it in messages and
/// in the fragments of a command.
pub open spec fn display_text(t: TokenType<Seq<char>>) -> Seq<char> {
    match t {
        TokenType::And => "&&"@,
        TokenType::Asterisk => "*"@,
        TokenType::Carat => "^"@,
        TokenType::CloseBraces => "}"@,
        TokenType::CloseParen => ")"@,
        TokenType::Comma => ","@,
        TokenType::BackSlash => "\\"@,
        TokenType::Dot => "."@,
        TokenType::DoubleEquals => "=="@,
        TokenType::EOF => "EOF"@,
        TokenType::Equals => "="@,
        TokenType::ForwardSlash => "/"@,
        TokenType::Ge => ">="@,
        TokenType::GreaterThan => ">"@,
        TokenType::Le => "<="@,
        TokenType::LessThan => "<"@,
        TokenType::OpenSqBracket => "["@,
        TokenType::CloseSqBracket => "]"@,
        TokenType::Minus => "-"@,
        TokenType::Newline => "\n"@,
        TokenType::Not => "!"@,
        TokenType::NotEquals => "!="@,
        TokenType::OpenBraces => "{"@,
        TokenType::OpenParen => "("@,
        TokenType::Or => "||"@,
        TokenType::Plus => "+"@,
        TokenType::SemiColon => ";"@,
        TokenType::SingleQuote => "'"@,
        TokenType::Whitespace => " "@,
        TokenType::Underscore => "_"@,
        TokenType::LineComment => ""@,
        TokenType::Integer(n) => decimal_text(n as nat),
        TokenType::Decimal(s) => s,
        TokenType::String(s) => "'"@ + s + "'"@,
        TokenType::TemplateString(s) => "\""@ + s + "\""@,
        TokenType::Identifier(s) => s,
        TokenType::EscapedIdentifier(s) => s,
        TokenType::CatchAll(s) => s,
    }
}

impl TokenType<String> {
    /// Whether the token ends a line.
    pub fn is_end_line(&self) -> (r: bool)
        ensures
            r == ends_line(self@),
    {
        match self {
            TokenType::EOF | TokenType::Newline => true,
            _ => false,
        }
    }

    /// Whether two tokens are of the same class and carry the same payload.
    pub fn same(&self, other: &TokenType<String>) -> (r: bool)
        ensures
            r == (self@ == other@),
    {
        match self {
            TokenType::And => matches!(other, TokenType::And),
            TokenType::Asterisk => matches!(other, TokenType::Asterisk),
            TokenType::Carat => matches!(other, TokenType::Carat),
            TokenType::CloseBraces => matches!(other, TokenType::CloseBraces),
            TokenType::CloseParen => matches!(other, TokenType::CloseParen),
            TokenType::Comma => matches!(other, TokenType::Comma),
            TokenType::BackSlash => matches!(other, TokenType::BackSlash),
            TokenType::Dot => matches!(other, TokenType::Dot),
            TokenType::DoubleEquals => matches!(other, TokenType::DoubleEquals),
            TokenType::EOF => matches!(other, TokenType::EOF),
            TokenType::Equals => matches!(other, TokenType::Equals),
            TokenType::ForwardSlash => matches!(other, TokenType::ForwardSlash),
            TokenType::Ge => matches!(other, TokenType::Ge),
            TokenType::GreaterThan => matches!(other, TokenType::GreaterThan),
            TokenType::Le => matches!(other, TokenType::Le),
            TokenType::LessThan => matches!(other, TokenType::LessThan),
            TokenType::OpenSqBracket => matches!(other, TokenType::OpenSqBracket),
            TokenType::CloseSqBracket => matches!(other, TokenType::CloseSqBracket),
            TokenType::Minus => matches!(other, TokenType::Minus),
            TokenType::Newline => matches!(other, TokenType::Newline),
            TokenType::Not => matches!(other, TokenType::Not),
            TokenType::NotEquals => matches!(other, TokenType::NotEquals),
            TokenType::OpenBraces => matches!(other, TokenType::OpenBraces),
            TokenType::OpenParen => matches!(other, TokenType::OpenParen),
            TokenType::Or => matches!(other, TokenType::Or),
            TokenType::Plus => matches!(other, TokenType::Plus),
            TokenType::SemiColon => matches!(other, TokenType::SemiColon),
            TokenType::SingleQuote => matches!(other, TokenType::SingleQuote),
            TokenType::Whitespace => matches!(other, TokenType::Whitespace),
            TokenType::Underscore => matches!(other, TokenType::Underscore),
            TokenType::LineComment => matches!(other, TokenType::LineComment),
            TokenType::Integer(a) => match other {
                TokenType::Integer(b) => *a == *b,
                _ => false,
            },
            TokenType::Decimal(a) => match other {
                TokenType::Decimal(b) => *a == *b,
                _ => false,
            },
            TokenType::String(a) => match other {
                TokenType::String(b) => *a == *b,
                _ => false,
            },
            TokenType::TemplateString(a) => match other {
                TokenType::TemplateString(b) => *a == *b,
                _ => false,
            },
            TokenType::Identifier(a) => match other {
                TokenType::Identifier(b) => *a == *b,
                _ => false,
            },
            TokenType::EscapedIdentifier(a) => match other {
                TokenType::EscapedIdentifier(b) => *a == *b,
                _ => false,
            },
            TokenType::CatchAll(a) => match other {
                TokenType::CatchAll(b) => *a == *b,
                _ => false,
            },
        }
    }

    /// The display form of the token.
    pub fn to_string(&self) -> (s: String)
        ensures
            s@ == display_text(self@),
    {
        match self {
            TokenType::And => String::from_str("&&"),
            TokenType::Asterisk => String::from_str("*"),
            TokenType::Carat => String::from_str("^"),
            TokenType::CloseBraces => String::from_str("}"),
            TokenType::CloseParen => String::from_str(")"),
            TokenType::Comma => String::from_str(","),
            TokenType::BackSlash => String::from_str("\\"),
            TokenType::Dot => String::from_str("."),
            TokenType::DoubleEquals => String::from_str("=="),
            TokenType::EOF => String::from_str("EOF"),
            TokenType::Equals => String::from_str("="),
            TokenType::ForwardSlash => String::from_str("/"),
            TokenType::Ge => String::from_str(">="),
            TokenType::GreaterThan => String::from_str(">"),
            TokenType::Le => String::from_str("<="),
            TokenType::LessThan => String::from_str("<"),
            TokenType::OpenSqBracket => String::from_str("["),
            TokenType::CloseSqBracket => String::from_str("]"),
            TokenType::Minus => String::from_str("-"),
            TokenType::Newline => String::from_str("\n"),
            TokenType::Not => String::from_str("!"),
            TokenType::NotEquals => String::from_str("!="),
            TokenType::OpenBraces => String::from_str("{"),
            TokenType::OpenParen => String::from_str("("),
            TokenType::Or => String::from_str("||"),
            TokenType::Plus => String::from_str("+"),
            TokenType::SemiColon => String::from_str(";"),
            TokenType::SingleQuote => String::from_str("'"),
            TokenType::Whitespace => String::from_str(" "),
            TokenType::Underscore => String::from_str("_"),
            TokenType::LineComment => String::from_str(""),
            TokenType::Integer(n) => usize_to_string(*n),
            TokenType::Decimal(s) => s.clone(),
            TokenType::String(s) => String::from_str("'").concat(s.as_str()).concat("'"),
            TokenType::TemplateString(s) => String::from_str("\"").concat(s.as_str()).concat("\""),
            TokenType::Identifier(s) => s.clone(),
            TokenType::EscapedIdentifier(s) => s.clone(),
            TokenType::CatchAll(s) => s.clone(),
        }
    }
}

} // verus!
