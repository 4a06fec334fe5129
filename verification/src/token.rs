//! Tokens of the language.

use vstd::prelude::*;

verus! {

/// A lexical token. Keywords and built-in function names beyond those that
/// the lexer produces are declared and unused.
#[derive(Debug, PartialEq)]
pub enum Token {
    // Numbers and identifiers
    /// A numeric literal as written: digits with at most one decimal point.
    Number(String),
    Identifier(String),
    // Operators
    Plus,
    Minus,
    Multiply,
    Divide,
    Power,
    Equals,
    LessThan,
    GreaterThan,
    LessOrEqual,
    GreaterOrEqual,
    NotEqual,
    // Brackets and separators
    LParen,
    RParen,
    Comma,
    Semicolon,
    Colon,
    // Keywords
    Let,
    Print,
    Input,
    If,
    Then,
    Else,
    For,
    To,
    Step,
    Next,
    Goto,
    Gosub,
    Return,
    Rem,
    End,
    Stop,
    Dim,
    Read,
    Data,
    Restore,
    // Built-in functions
    Abs,
    Rnd,
    Int,
    Sqr,
    Sin,
    Cos,
    Tan,
    Log,
    Exp,
    Len,
    Mid,
    Left,
    Right,
    // Special
    LineNumber(u32),
    String(String),
    EOL,
    EOF,
}
/// The mathematical value of a [`Token`]: its text as a sequence of characters.
pub enum TokenView {
    // Numbers and identifiers
    /// A numeric literal as written: digits with at most one decimal point.
    Number(Seq<char>),
    Identifier(Seq<char>),
    // Operators
    Plus,
    Minus,
    Multiply,
    Divide,
    Power,
    Equals,
    LessThan,
    GreaterThan,
    LessOrEqual,
    GreaterOrEqual,
    NotEqual,
    // Brackets and separators
    LParen,
    RParen,
    Comma,
    Semicolon,
    Colon,
    // Keywords
    Let,
    Print,
    Input,
    If,
    Then,
    Else,
    For,
    To,
    Step,
    Next,
    Goto,
    Gosub,
    Return,
    Rem,
    End,
    Stop,
    Dim,
    Read,
    Data,
    Restore,
    // Built-in functions
    Abs,
    Rnd,
    Int,
    Sqr,
    Sin,
    Cos,
    Tan,
    Log,
    Exp,
    Len,
    Mid,
    Left,
    Right,
    // Special
    LineNumber(u32),
    String(Seq<char>),
    EOL,
    EOF,
}
impl View for Token {
    type V = TokenView;

    open spec fn view(&self) -> TokenView {
        match self {
            Token::Number(s) => TokenView::Number(s@),
            Token::Identifier(s) => TokenView::Identifier(s@),
            Token::LineNumber(n) => TokenView::LineNumber(*n),
            Token::String(s) => TokenView::String(s@),
            Token::EOL => TokenView::EOL,
            Token::EOF => TokenView::EOF,
            Token::Plus => TokenView::Plus,
            Token::Minus => TokenView::Minus,
            Token::Multiply => TokenView::Multiply,
            Token::Divide => TokenView::Divide,
            Token::Power => TokenView::Power,
            Token::Equals => TokenView::Equals,
            Token::LessThan => TokenView::LessThan,
            Token::GreaterThan => TokenView::GreaterThan,
            Token::LessOrEqual => TokenView::LessOrEqual,
            Token::GreaterOrEqual => TokenView::GreaterOrEqual,
            Token::NotEqual => TokenView::NotEqual,
            Token::LParen => TokenView::LParen,
            Token::RParen => TokenView::RParen,
            Token::Comma => TokenView::Comma,
            Token::Semicolon => TokenView::Semicolon,
            Token::Colon => TokenView::Colon,
            Token::Let => TokenView::Let,
            Token::Print => TokenView::Print,
            Token::Input => TokenView::Input,
            Token::If => TokenView::If,
            Token::Then => TokenView::Then,
            Token::Else => TokenView::Else,
            Token::For => TokenView::For,
            Token::To => TokenView::To,
            Token::Step => TokenView::Step,
            Token::Next => TokenView::Next,
            Token::Goto => TokenView::Goto,
            Token::Gosub => TokenView::Gosub,
            Token::Return => TokenView::Return,
            Token::Rem => TokenView::Rem,
            Token::End => TokenView::End,
            Token::Stop => TokenView::Stop,
            Token::Dim => TokenView::Dim,
            Token::Read => TokenView::Read,
            Token::Data => TokenView::Data,
            Token::Restore => TokenView::Restore,
            Token::Abs => TokenView::Abs,
            Token::Rnd => TokenView::Rnd,
            Token::Int => TokenView::Int,
            Token::Sqr => TokenView::Sqr,
            Token::Sin => TokenView::Sin,
            Token::Cos => TokenView::Cos,
            Token::Tan => TokenView::Tan,
            Token::Log => TokenView::Log,
            Token::Exp => TokenView::Exp,
            Token::Len => TokenView::Len,
            Token::Mid => TokenView::Mid,
            Token::Left => TokenView::Left,
            Token::Right => TokenView::Right,
        }
    }
}

impl Clone for Token {
    /// A copy with the same value.
    fn clone(&self) -> (r: Token)
        ensures
            r@ == self@,
    {
        match self {
            Token::Number(s) => Token::Number(s.clone()),
            Token::Identifier(s) => Token::Identifier(s.clone()),
            Token::LineNumber(n) => Token::LineNumber(*n),
            Token::String(s) => Token::String(s.clone()),
            Token::EOL => Token::EOL,
            Token::EOF => Token::EOF,
            Token::Plus => Token::Plus,
            Token::Minus => Token::Minus,
            Token::Multiply => Token::Multiply,
            Token::Divide => Token::Divide,
            Token::Power => Token::Power,
            Token::Equals => Token::Equals,
            Token::LessThan => Token::LessThan,
            Token::GreaterThan => Token::GreaterThan,
            Token::LessOrEqual => Token::LessOrEqual,
            Token::GreaterOrEqual => Token::GreaterOrEqual,
            Token::NotEqual => Token::NotEqual,
            Token::LParen => Token::LParen,
            Token::RParen => Token::RParen,
            Token::Comma => Token::Comma,
            Token::Semicolon => Token::Semicolon,
            Token::Colon => Token::Colon,
            Token::Let => Token::Let,
            Token::Print => Token::Print,
            Token::Input => Token::Input,
            Token::If => Token::If,
            Token::Then => Token::Then,
            Token::Else => Token::Else,
            Token::For => Token::For,
            Token::To => Token::To,
            Token::Step => Token::Step,
            Token::Next => Token::Next,
            Token::Goto => Token::Goto,
            Token::Gosub => Token::Gosub,
            Token::Return => Token::Return,
            Token::Rem => Token::Rem,
            Token::End => Token::End,
            Token::Stop => Token::Stop,
            Token::Dim => Token::Dim,
            Token::Read => Token::Read,
            Token::Data => Token::Data,
            Token::Restore => Token::Restore,
            Token::Abs => Token::Abs,
            Token::Rnd => Token::Rnd,
            Token::Int => Token::Int,
            Token::Sqr => Token::Sqr,
            Token::Sin => Token::Sin,
            Token::Cos => Token::Cos,
            Token::Tan => Token::Tan,
            Token::Log => Token::Log,
            Token::Exp => Token::Exp,
            Token::Len => Token::Len,
            Token::Mid => Token::Mid,
            Token::Left => Token::Left,
            Token::Right => Token::Right,
        }
    }
}

impl TokenView {
    /// Whether the token is one of the six comparison operators.
    pub open spec fn is_comparison(self) -> bool {
        self is LessThan || self is GreaterThan || self is Equals || self is LessOrEqual
            || self is GreaterOrEqual || self is NotEqual
    }

    /// Whether the token is one of the five arithmetic operators.
    pub open spec fn is_arithmetic(self) -> bool {
        self is Plus || self is Minus || self is Multiply || self is Divide || self is Power
    }
}

impl Token {
    /// Whether the token is one of the six comparison operators.
    pub fn is_comparison(&self) -> (r: bool)
        ensures
            r == self@.is_comparison(),
    {
        match self {
            Token::LessThan | Token::GreaterThan | Token::Equals | Token::LessOrEqual
            | Token::GreaterOrEqual | Token::NotEqual => true,
            _ => false,
        }
    }

    /// Whether the token is one of the five arithmetic operators.
    pub fn is_arithmetic(&self) -> (r: bool)
        ensures
            r == self@.is_arithmetic(),
    {
        match self {
            Token::Plus | Token::Minus | Token::Multiply | Token::Divide | Token::Power => true,
            _ => false,
        }
    }

    /// Whether two tokens are the same: of one kind and with the same text.
    pub fn same(&self, other: &Token) -> (r: bool)
        ensures
            r == (self@ == other@),
    {
        match (self, other) {
            (Token::Number(a), Token::Number(b)) => a.as_str().eq(b.as_str()),
            (Token::Identifier(a), Token::Identifier(b)) => a.as_str().eq(b.as_str()),
            (Token::String(a), Token::String(b)) => a.as_str().eq(b.as_str()),
            (Token::LineNumber(a), Token::LineNumber(b)) => *a == *b,
            (Token::Plus, Token::Plus) => true,
            (Token::Minus, Token::Minus) => true,
            (Token::Multiply, Token::Multiply) => true,
            (Token::Divide, Token::Divide) => true,
            (Token::Power, Token::Power) => true,
            (Token::Equals, Token::Equals) => true,
            (Token::LessThan, Token::LessThan) => true,
            (Token::GreaterThan, Token::GreaterThan) => true,
            (Token::LessOrEqual, Token::LessOrEqual) => true,
            (Token::GreaterOrEqual, Token::GreaterOrEqual) => true,
            (Token::NotEqual, Token::NotEqual) => true,
            (Token::LParen, Token::LParen) => true,
            (Token::RParen, Token::RParen) => true,
            (Token::Comma, Token::Comma) => true,
            (Token::Semicolon, Token::Semicolon) => true,
            (Token::Colon, Token::Colon) => true,
            (Token::Let, Token::Let) => true,
            (Token::Print, Token::Print) => true,
            (Token::Input, Token::Input) => true,
            (Token::If, Token::If) => true,
            (Token::Then, Token::Then) => true,
            (Token::Else, Token::Else) => true,
            (Token::For, Token::For) => true,
            (Token::To, Token::To) => true,
            (Token::Step, Token::Step) => true,
            (Token::Next, Token::Next) => true,
            (Token::Goto, Token::Goto) => true,
            (Token::Gosub, Token::Gosub) => true,
            (Token::Return, Token::Return) => true,
            (Token::Rem, Token::Rem) => true,
            (Token::End, Token::End) => true,
            (Token::Stop, Token::Stop) => true,
            (Token::Dim, Token::Dim) => true,
            (Token::Read, Token::Read) => true,
            (Token::Data, Token::Data) => true,
            (Token::Restore, Token::Restore) => true,
            (Token::Abs, Token::Abs) => true,
            (Token::Rnd, Token::Rnd) => true,
            (Token::Int, Token::Int) => true,
            (Token::Sqr, Token::Sqr) => true,
            (Token::Sin, Token::Sin) => true,
            (Token::Cos, Token::Cos) => true,
            (Token::Tan, Token::Tan) => true,
            (Token::Log, Token::Log) => true,
            (Token::Exp, Token::Exp) => true,
            (Token::Len, Token::Len) => true,
            (Token::Mid, Token::Mid) => true,
            (Token::Left, Token::Left) => true,
            (Token::Right, Token::Right) => true,
            (Token::EOL, Token::EOL) => true,
            (Token::EOF, Token::EOF) => true,
            _ => false,
        }
    }
}

/// The values of a sequence of tokens.
pub open spec fn tokens_view(tokens: Seq<Token>) -> Seq<TokenView> {
    tokens.map_values(|t: Token| t@)
}

} // verus!
