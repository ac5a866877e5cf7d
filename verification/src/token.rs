//! Tokens.

use crate::text::{push_signed_decimal, signed_decimal};
use vstd::prelude::*;

verus! {

/// One lexeme of the source text.
#[derive(Debug, PartialEq)]
pub enum Token {
    Fn,
    Let,
    If,
    Else,
    Elif,
    For,
    While,
    Break,
    Continue,
    In,
    Unsafe,
    Import,
    As,
    /// `=`
    Equals,
    /// `:`
    Colon,
    /// `(`
    LeftParen,
    /// `)`
    RightParen,
    /// `{`
    LeftBrace,
    /// `}`
    RightBrace,
    /// `;`
    Semi,
    /// `,`
    Comma,
    /// `->`
    Arrow,
    /// `>`
    Greater,
    /// `>=`
    GreaterEqual,
    /// `<`
    Less,
    /// `<=`
    LessEqual,
    /// `==`
    Equal,
    /// `!=`
    NotEqual,
    /// `+`
    Plus,
    /// `-`
    Minus,
    /// `*`
    Star,
    /// `/`
    Slash,
    /// `%`
    Percent,
    /// `[`
    LeftBracket,
    /// `]`
    RightBracket,
    /// `.`
    Dot,
    /// `::`
    DoubleColon,
    Identifier(String),
    Number(i64),
    /// A string literal as written, with its quotes and escapes.
    String(String),
    /// White space. The lexer skips it and never yields this token.
    Whitespace,
}

/// Model of a [`Token`].
pub enum TokenView {
    Fn,
    Let,
    If,
    Else,
    Elif,
    For,
    While,
    Break,
    Continue,
    In,
    Unsafe,
    Import,
    As,
    Equals,
    Colon,
    LeftParen,
    RightParen,
    LeftBrace,
    RightBrace,
    Semi,
    Comma,
    Arrow,
    Greater,
    GreaterEqual,
    Less,
    LessEqual,
    Equal,
    NotEqual,
    Plus,
    Minus,
    Star,
    Slash,
    Percent,
    LeftBracket,
    RightBracket,
    Dot,
    DoubleColon,
    Identifier(Seq<char>),
    Number(i64),
    String(Seq<char>),
    Whitespace,
}

impl View for Token {
    type V = TokenView;

    open spec fn view(&self) -> TokenView {
        match self {
            Token::Fn => TokenView::Fn,
            Token::Let => TokenView::Let,
            Token::If => TokenView::If,
            Token::Else => TokenView::Else,
            Token::Elif => TokenView::Elif,
            Token::For => TokenView::For,
            Token::While => TokenView::While,
            Token::Break => TokenView::Break,
            Token::Continue => TokenView::Continue,
            Token::In => TokenView::In,
            Token::Unsafe => TokenView::Unsafe,
            Token::Import => TokenView::Import,
            Token::As => TokenView::As,
            Token::Equals => TokenView::Equals,
            Token::Colon => TokenView::Colon,
            Token::LeftParen => TokenView::LeftParen,
            Token::RightParen => TokenView::RightParen,
            Token::LeftBrace => TokenView::LeftBrace,
            Token::RightBrace => TokenView::RightBrace,
            Token::Semi => TokenView::Semi,
            Token::Comma => TokenView::Comma,
            Token::Arrow => TokenView::Arrow,
            Token::Greater => TokenView::Greater,
            Token::GreaterEqual => TokenView::GreaterEqual,
            Token::Less => TokenView::Less,
            Token::LessEqual => TokenView::LessEqual,
            Token::Equal => TokenView::Equal,
            Token::NotEqual => TokenView::NotEqual,
            Token::Plus => TokenView::Plus,
            Token::Minus => TokenView::Minus,
            Token::Star => TokenView::Star,
            Token::Slash => TokenView::Slash,
            Token::Percent => TokenView::Percent,
            Token::LeftBracket => TokenView::LeftBracket,
            Token::RightBracket => TokenView::RightBracket,
            Token::Dot => TokenView::Dot,
            Token::DoubleColon => TokenView::DoubleColon,
            Token::Identifier(name) => TokenView::Identifier(name@),
            Token::Number(n) => TokenView::Number(*n),
            Token::String(text) => TokenView::String(text@),
            Token::Whitespace => TokenView::Whitespace,
        }
    }
}

/// The models of a sequence of tokens, element by element.
pub open spec fn token_views(tokens: Seq<Token>) -> Seq<TokenView> {
    tokens.map_values(|t: Token| t@)
}

/// The number of a token's variant. Two tokens are of the same kind when
/// their variants are the same, whatever they carry.
pub open spec fn kind(t: TokenView) -> nat {
    match t {
        TokenView::Fn => 0,
        TokenView::Let => 1,
        TokenView::If => 2,
        TokenView::Else => 3,
        TokenView::Elif => 4,
        TokenView::For => 5,
        TokenView::While => 6,
        TokenView::Break => 7,
        TokenView::Continue => 8,
        TokenView::In => 9,
        TokenView::Unsafe => 10,
        TokenView::Import => 11,
        TokenView::As => 12,
        TokenView::Equals => 13,
        TokenView::Colon => 14,
        TokenView::LeftParen => 15,
        TokenView::RightParen => 16,
        TokenView::LeftBrace => 17,
        TokenView::RightBrace => 18,
        TokenView::Semi => 19,
        TokenView::Comma => 20,
        TokenView::Arrow => 21,
        TokenView::Greater => 22,
        TokenView::GreaterEqual => 23,
        TokenView::Less => 24,
        TokenView::LessEqual => 25,
        TokenView::Equal => 26,
        TokenView::NotEqual => 27,
        TokenView::Plus => 28,
        TokenView::Minus => 29,
        TokenView::Star => 30,
        TokenView::Slash => 31,
        TokenView::Percent => 32,
        TokenView::LeftBracket => 33,
        TokenView::RightBracket => 34,
        TokenView::Dot => 35,
        TokenView::DoubleColon => 36,
        TokenView::Identifier(_) => 37,
        TokenView::Number(_) => 38,
        TokenView::String(_) => 39,
        TokenView::Whitespace => 40,
    }
}

/// How a token is written in the source. A number is written in decimal
/// notation, and white space as one blank.
pub open spec fn spelling(t: TokenView) -> Seq<char> {
    match t {
        TokenView::Fn => "fn"@,
        TokenView::Let => "let"@,
        TokenView::If => "if"@,
        TokenView::Else => "else"@,
        TokenView::Elif => "elif"@,
        TokenView::For => "for"@,
        TokenView::While => "while"@,
        TokenView::Break => "break"@,
        TokenView::Continue => "continue"@,
        TokenView::In => "in"@,
        TokenView::Unsafe => "unsafe"@,
        TokenView::Import => "import"@,
        TokenView::As => "as"@,
        TokenView::Equals => "="@,
        TokenView::Colon => ":"@,
        TokenView::LeftParen => "("@,
        TokenView::RightParen => ")"@,
        TokenView::LeftBrace => "{"@,
        TokenView::RightBrace => "}"@,
        TokenView::Semi => ";"@,
        TokenView::Comma => ","@,
        TokenView::Arrow => "->"@,
        TokenView::Greater => ">"@,
        TokenView::GreaterEqual => ">="@,
        TokenView::Less => "<"@,
        TokenView::LessEqual => "<="@,
        TokenView::Equal => "=="@,
        TokenView::NotEqual => "!="@,
        TokenView::Plus => "+"@,
        TokenView::Minus => "-"@,
        TokenView::Star => "*"@,
        TokenView::Slash => "/"@,
        TokenView::Percent => "%"@,
        TokenView::LeftBracket => "["@,
        TokenView::RightBracket => "]"@,
        TokenView::Dot => "."@,
        TokenView::DoubleColon => "::"@,
        TokenView::Identifier(name) => name,
        TokenView::Number(n) => signed_decimal(n as int),
        TokenView::String(text) => text,
        TokenView::Whitespace => " "@,
    }
}

impl Token {
    /// How the token is written in the source.
    pub fn spelling(&self) -> (text: String)
        ensures
            text@ == spelling(self@),
    {
        match self {
            Token::Fn => String::from_str("fn"),
            Token::Let => String::from_str("let"),
            Token::If => String::from_str("if"),
            Token::Else => String::from_str("else"),
            Token::Elif => String::from_str("elif"),
            Token::For => String::from_str("for"),
            Token::While => String::from_str("while"),
            Token::Break => String::from_str("break"),
            Token::Continue => String::from_str("continue"),
            Token::In => String::from_str("in"),
            Token::Unsafe => String::from_str("unsafe"),
            Token::Import => String::from_str("import"),
            Token::As => String::from_str("as"),
            Token::Equals => String::from_str("="),
            Token::Colon => String::from_str(":"),
            Token::LeftParen => String::from_str("("),
            Token::RightParen => String::from_str(")"),
            Token::LeftBrace => String::from_str("{"),
            Token::RightBrace => String::from_str("}"),
            Token::Semi => String::from_str(";"),
            Token::Comma => String::from_str(","),
            Token::Arrow => String::from_str("->"),
            Token::Greater => String::from_str(">"),
            Token::GreaterEqual => String::from_str(">="),
            Token::Less => String::from_str("<"),
            Token::LessEqual => String::from_str("<="),
            Token::Equal => String::from_str("=="),
            Token::NotEqual => String::from_str("!="),
            Token::Plus => String::from_str("+"),
            Token::Minus => String::from_str("-"),
            Token::Star => String::from_str("*"),
            Token::Slash => String::from_str("/"),
            Token::Percent => String::from_str("%"),
            Token::LeftBracket => String::from_str("["),
            Token::RightBracket => String::from_str("]"),
            Token::Dot => String::from_str("."),
            Token::DoubleColon => String::from_str("::"),
            Token::Identifier(name) => name.clone(),
            Token::Number(n) => {
                let mut text = String::new();
                push_signed_decimal(&mut text, *n);
                text
            },
            Token::String(text) => text.clone(),
            Token::Whitespace => String::from_str(" "),
        }
    }

    /// The number of the token's variant.
    pub fn kind_index(&self) -> (index: u8)
        ensures
            index == kind(self@),
    {
        match self {
            Token::Fn => 0,
            Token::Let => 1,
            Token::If => 2,
            Token::Else => 3,
            Token::Elif => 4,
            Token::For => 5,
            Token::While => 6,
            Token::Break => 7,
            Token::Continue => 8,
            Token::In => 9,
            Token::Unsafe => 10,
            Token::Import => 11,
            Token::As => 12,
            Token::Equals => 13,
            Token::Colon => 14,
            Token::LeftParen => 15,
            Token::RightParen => 16,
            Token::LeftBrace => 17,
            Token::RightBrace => 18,
            Token::Semi => 19,
            Token::Comma => 20,
            Token::Arrow => 21,
            Token::Greater => 22,
            Token::GreaterEqual => 23,
            Token::Less => 24,
            Token::LessEqual => 25,
            Token::Equal => 26,
            Token::NotEqual => 27,
            Token::Plus => 28,
            Token::Minus => 29,
            Token::Star => 30,
            Token::Slash => 31,
            Token::Percent => 32,
            Token::LeftBracket => 33,
            Token::RightBracket => 34,
            Token::Dot => 35,
            Token::DoubleColon => 36,
            Token::Identifier(_) => 37,
            Token::Number(_) => 38,
            Token::String(_) => 39,
            Token::Whitespace => 40,
        }
    }

    /// Whether the two tokens are of the same kind.
    pub fn same_kind(&self, other: &Token) -> (same: bool)
        ensures
            same == (kind(self@) == kind(other@)),
    {
        self.kind_index() == other.kind_index()
    }
}

impl Clone for Token {
    fn clone(&self) -> (copy: Token)
        ensures
            copy == *self,
    {
        match self {
            Token::Fn => Token::Fn,
            Token::Let => Token::Let,
            Token::If => Token::If,
            Token::Else => Token::Else,
            Token::Elif => Token::Elif,
            Token::For => Token::For,
            Token::While => Token::While,
            Token::Break => Token::Break,
            Token::Continue => Token::Continue,
            Token::In => Token::In,
            Token::Unsafe => Token::Unsafe,
            Token::Import => Token::Import,
            Token::As => Token::As,
            Token::Equals => Token::Equals,
            Token::Colon => Token::Colon,
            Token::LeftParen => Token::LeftParen,
            Token::RightParen => Token::RightParen,
            Token::LeftBrace => Token::LeftBrace,
            Token::RightBrace => Token::RightBrace,
            Token::Semi => Token::Semi,
            Token::Comma => Token::Comma,
            Token::Arrow => Token::Arrow,
            Token::Greater => Token::Greater,
            Token::GreaterEqual => Token::GreaterEqual,
            Token::Less => Token::Less,
            Token::LessEqual => Token::LessEqual,
            Token::Equal => Token::Equal,
            Token::NotEqual => Token::NotEqual,
            Token::Plus => Token::Plus,
            Token::Minus => Token::Minus,
            Token::Star => Token::Star,
            Token::Slash => Token::Slash,
            Token::Percent => Token::Percent,
            Token::LeftBracket => Token::LeftBracket,
            Token::RightBracket => Token::RightBracket,
            Token::Dot => Token::Dot,
            Token::DoubleColon => Token::DoubleColon,
            Token::Identifier(name) => Token::Identifier(name.clone()),
            Token::Number(n) => Token::Number(*n),
            Token::String(text) => Token::String(text.clone()),
            Token::Whitespace => Token::Whitespace,
        }
    }
}

} // verus!
