//! Parse errors.

use crate::token::{spelling, Token, TokenView};
use vstd::prelude::*;

verus! {

/// What the parser was looking for when it failed.
#[derive(Debug, Clone, PartialEq)]
pub enum Expected {
    /// A token of the kind of this one.
    Token(Token),
    Identifier,
    /// The start of an expression.
    Expression,
    /// The start of a statement.
    Statement,
    /// The name of a type.
    TypeName,
}

/// Model of an [`Expected`].
pub enum ExpectedView {
    Token(TokenView),
    Identifier,
    Expression,
    Statement,
    TypeName,
}

impl View for Expected {
    type V = ExpectedView;

    open spec fn view(&self) -> ExpectedView {
        match self {
            Expected::Token(t) => ExpectedView::Token(t@),
            Expected::Identifier => ExpectedView::Identifier,
            Expected::Expression => ExpectedView::Expression,
            Expected::Statement => ExpectedView::Statement,
            Expected::TypeName => ExpectedView::TypeName,
        }
    }
}

/// Why the token sequence is no program.
#[derive(Debug, Clone, PartialEq)]
pub enum ParseError {
    /// Another token stands where `expected` should.
    UnexpectedToken { expected: Expected, found: Token },
    /// The tokens end where `expected` should stand.
    UnexpectedEndOfInput { expected: Expected },
    /// The identifier names no type.
    InvalidTypeAnnotation(String),
    /// What is called is not a plain name.
    InvalidCallTarget,
}

/// Model of a [`ParseError`].
pub enum ParseErrorView {
    UnexpectedToken { expected: ExpectedView, found: TokenView },
    UnexpectedEndOfInput { expected: ExpectedView },
    InvalidTypeAnnotation(Seq<char>),
    InvalidCallTarget,
}

impl View for ParseError {
    type V = ParseErrorView;

    open spec fn view(&self) -> ParseErrorView {
        match self {
            ParseError::UnexpectedToken { expected, found } => ParseErrorView::UnexpectedToken {
                expected: expected@,
                found: found@,
            },
            ParseError::UnexpectedEndOfInput { expected } => ParseErrorView::UnexpectedEndOfInput {
                expected: expected@,
            },
            ParseError::InvalidTypeAnnotation(name) => ParseErrorView::InvalidTypeAnnotation(name@),
            ParseError::InvalidCallTarget => ParseErrorView::InvalidCallTarget,
        }
    }
}

/// The words for what the parser was looking for.
pub open spec fn expected_text(expected: ExpectedView) -> Seq<char> {
    match expected {
        ExpectedView::Token(t) => "'"@ + spelling(t) + "'"@,
        ExpectedView::Identifier => "identifier"@,
        ExpectedView::Expression => "expression"@,
        ExpectedView::Statement => "statement"@,
        ExpectedView::TypeName => "type identifier"@,
    }
}

/// The message of a parse error: what was expected and what was found.
pub open spec fn parse_error_text(error: ParseErrorView) -> Seq<char> {
    match error {
        ParseErrorView::UnexpectedToken { expected, found } => "Expected "@ + expected_text(
            expected,
        ) + ", got '"@ + spelling(found) + "'"@,
        ParseErrorView::UnexpectedEndOfInput { expected } => "Expected "@ + expected_text(expected)
            + ", got EOF"@,
        ParseErrorView::InvalidTypeAnnotation(name) => "Unknown type: "@ + name,
        ParseErrorView::InvalidCallTarget => "Only variable names can be called"@,
    }
}

impl Expected {
    /// The words for what the parser was looking for.
    pub fn text(&self) -> (text: String)
        ensures
            text@ == expected_text(self@),
    {
        match self {
            Expected::Token(t) => {
                let mut text = String::from_str("'");
                text.append(t.spelling().as_str());
                text.append("'");
                text
            },
            Expected::Identifier => String::from_str("identifier"),
            Expected::Expression => String::from_str("expression"),
            Expected::Statement => String::from_str("statement"),
            Expected::TypeName => String::from_str("type identifier"),
        }
    }
}

impl ParseError {
    /// The message of the error: what was expected and what was found.
    pub fn message(&self) -> (text: String)
        ensures
            text@ == parse_error_text(self@),
    {
        match self {
            ParseError::UnexpectedToken { expected, found } => {
                let mut text = String::from_str("Expected ");
                text.append(expected.text().as_str());
                text.append(", got '");
                text.append(found.spelling().as_str());
                text.append("'");
                text
            },
            ParseError::UnexpectedEndOfInput { expected } => {
                let mut text = String::from_str("Expected ");
                text.append(expected.text().as_str());
                text.append(", got EOF");
                text
            },
            ParseError::InvalidTypeAnnotation(name) => {
                let mut text = String::from_str("Unknown type: ");
                text.append(name.as_str());
                text
            },
            ParseError::InvalidCallTarget => String::from_str("Only variable names can be called"),
        }
    }
}

} // verus!
