//! The recursive-descent parser: a single cursor over the token sequence,
//! with at most two tokens of lookahead.
//!
//! Each method parses one production of the grammar in [`grammar`] and is
//! proved to return what the production's spec function says, or its
//! error. The first error ends the parse.

pub mod error;
pub mod grammar;
pub mod progress;

pub use error::{Expected, ParseError};

use crate::ast::{
    elif_views, expr_views, field_views, optional_type_view, stmt_views, typed_name_views,
    BinaryOp, ExprView, Expression, Function, Literal, Statement, StmtView, Type, TypeView,
};
use crate::token::{token_views, Token, TokenView};
use crate::parser::error::ParseErrorView;
use crate::parser::grammar::Parsed;
use crate::text::contains_placeholder;
use vstd::prelude::*;

verus! {

/// The parser: the tokens and the position of the next token to read.
pub struct Parser {
    tokens: Vec<Token>,
    current: usize,
}

/// Whether `result` is what the grammar yields, with `after` as the
/// position behind what was parsed where the parse succeeds.
pub open spec fn yields<T: View>(
    expected: Parsed<T::V>,
    result: Result<T, ParseError>,
    after: int,
) -> bool {
    match expected {
        Ok((value, p)) => result is Ok && result->Ok_0@ == value && after == p,
        Err(e) => result is Err && result->Err_0@ == e,
    }
}

/// Whether `result` is the list of expressions that the grammar yields.
pub open spec fn yields_expressions(
    expected: Parsed<Seq<ExprView>>,
    result: Result<Vec<Expression>, ParseError>,
    after: int,
) -> bool {
    match expected {
        Ok((value, p)) => result is Ok && expr_views(result->Ok_0@) == value && after == p,
        Err(e) => result is Err && result->Err_0@ == e,
    }
}

/// Whether `result` is the list of initializers that the grammar yields.
pub open spec fn yields_fields(
    expected: Parsed<Seq<(Seq<char>, ExprView)>>,
    result: Result<Vec<(String, Expression)>, ParseError>,
    after: int,
) -> bool {
    match expected {
        Ok((value, p)) => result is Ok && field_views(result->Ok_0@) == value && after == p,
        Err(e) => result is Err && result->Err_0@ == e,
    }
}

/// Whether `result` is the list of statements that the grammar yields.
pub open spec fn yields_statements(
    expected: Parsed<Seq<StmtView>>,
    result: Result<Vec<Statement>, ParseError>,
    after: int,
) -> bool {
    match expected {
        Ok((value, p)) => result is Ok && stmt_views(result->Ok_0@) == value && after == p,
        Err(e) => result is Err && result->Err_0@ == e,
    }
}

/// Whether `result` is the statement that the grammar yields, or its
/// absence.
pub open spec fn yields_optional(
    expected: Parsed<Option<StmtView>>,
    result: Result<Option<Statement>, ParseError>,
    after: int,
) -> bool {
    match expected {
        Ok((Some(s), p)) => result is Ok && result->Ok_0 is Some && result->Ok_0->Some_0@ == s
            && after == p,
        Ok((None, p)) => result is Ok && result->Ok_0 is None && after == p,
        Err(e) => result is Err && result->Err_0@ == e,
    }
}

/// Whether `result` is the condition and the block that the grammar
/// yields.
pub open spec fn yields_guarded(
    expected: Parsed<(ExprView, Seq<StmtView>)>,
    result: Result<(Expression, Vec<Statement>), ParseError>,
    after: int,
) -> bool {
    match expected {
        Ok((value, p)) => result is Ok && result->Ok_0.0@ == value.0 && stmt_views(
            result->Ok_0.1@,
        ) == value.1 && after == p,
        Err(e) => result is Err && result->Err_0@ == e,
    }
}

/// Whether `result` is what parsing the tokens from their start yields:
/// the program that they spell, or the first violation of the grammar.
pub open spec fn is_parse_of(
    tokens: Seq<TokenView>,
    result: Result<Vec<Statement>, ParseError>,
) -> bool {
    match grammar::program(tokens) {
        Ok(program) => result is Ok && stmt_views(result->Ok_0@) == program,
        Err(e) => result is Err && result->Err_0@ == e,
    }
}

/// Lexing and parsing are deterministic: two runs on the same source text
/// yield trees of the same shape, or the same error. Here `first_tokens`
/// and `second_tokens` are what two runs of the lexer returned for
/// `source`, and `first` and `second` are what the parser returned for
/// them.
pub proof fn lemma_front_end_deterministic(
    source: Seq<char>,
    first_tokens: Seq<Token>,
    second_tokens: Seq<Token>,
    first: Result<Vec<Statement>, ParseError>,
    second: Result<Vec<Statement>, ParseError>,
)
    requires
        token_views(first_tokens) == crate::lexer::tokens_of(source),
        token_views(second_tokens) == crate::lexer::tokens_of(source),
        is_parse_of(token_views(first_tokens), first),
        is_parse_of(token_views(second_tokens), second),
    ensures
        first is Ok <==> second is Ok,
        first is Ok ==> stmt_views(first->Ok_0@) == stmt_views(second->Ok_0@),
        first is Err ==> first->Err_0@ == second->Err_0@,
{
}

impl Parser {
    /// The cursor never leaves the tokens.
    #[verifier::type_invariant]
    spec fn within(self) -> bool {
        self.current <= self.tokens.len()
    }

    /// The tokens that the parser reads.
    pub closed spec fn tokens(self) -> Seq<TokenView> {
        token_views(self.tokens@)
    }

    /// The position of the next token to read.
    pub closed spec fn position(self) -> int {
        self.current as int
    }

    /// A parser at the start of the tokens.
    pub fn new(tokens: Vec<Token>) -> (parser: Parser)
        ensures
            parser.tokens() == token_views(tokens@),
            parser.position() == 0,
    {
        Parser { tokens, current: 0 }
    }

    /// Whether all tokens have been read.
    pub fn is_at_end(&self) -> (at_end: bool)
        ensures
            at_end == (self.position() >= self.tokens().len()),
            0 <= self.position() <= self.tokens().len(),
    {
        proof {
            use_type_invariant(self);
        }
        self.current >= self.tokens.len()
    }

    /// The token at the cursor.
    pub fn current_token(&self) -> (token: &Token)
        requires
            self.position() < self.tokens().len(),
        ensures
            token@ == self.tokens()[self.position()],
    {
        &self.tokens[self.current]
    }

    /// The token before the cursor.
    pub fn previous_token(&self) -> (token: &Token)
        requires
            self.position() > 0,
        ensures
            token@ == self.tokens()[self.position() - 1],
    {
        proof {
            use_type_invariant(self);
        }
        &self.tokens[self.current - 1]
    }

    /// Whether a token of the kind of `token` stands at the cursor.
    pub fn check(&self, token: &Token) -> (found: bool)
        ensures
            found == grammar::peek_is(self.tokens(), self.position(), token@),
    {
        if self.is_at_end() {
            false
        } else {
            self.tokens[self.current].same_kind(token)
        }
    }

    /// Whether a token of the kind of `token` stands behind the token at
    /// the cursor.
    fn check_next(&self, token: &Token) -> (found: bool)
        ensures
            found == grammar::peek_is(self.tokens(), self.position() + 1, token@),
    {
        proof {
            use_type_invariant(self);
        }
        if self.current < self.tokens.len() && self.current + 1 < self.tokens.len() {
            self.tokens[self.current + 1].same_kind(token)
        } else {
            false
        }
    }

    /// Moves the cursor over one token.
    fn advance(&mut self)
        requires
            old(self).position() < old(self).tokens().len(),
        ensures
            final(self).tokens() == old(self).tokens(),
            final(self).position() == old(self).position() + 1,
    {
        proof {
            assert(self.current < self.tokens.len());
        }
        self.current = self.current + 1;
    }

    /// Reads the token at the cursor if it is of the kind of `token`.
    pub fn match_token(&mut self, token: &Token) -> (found: bool)
        ensures
            final(self).tokens() == old(self).tokens(),
            found == grammar::peek_is(old(self).tokens(), old(self).position(), token@),
            final(self).position() == if found {
                old(self).position() + 1
            } else {
                old(self).position()
            },
    {
        if self.check(token) {
            self.advance();
            true
        } else {
            false
        }
    }

    /// The error for finding something else than `expected` at the cursor.
    fn unexpected(&self, expected: Expected) -> (error: ParseError)
        ensures
            error@ == grammar::unexpected(self.tokens(), self.position(), expected@),
    {
        if self.is_at_end() {
            ParseError::UnexpectedEndOfInput { expected }
        } else {
            ParseError::UnexpectedToken { expected, found: self.current_token().clone() }
        }
    }

    /// Reads the token at the cursor, which must be of the kind of
    /// `token`.
    pub fn consume(&mut self, token: &Token) -> (result: Result<(), ParseError>)
        ensures
            final(self).tokens() == old(self).tokens(),
            match grammar::expect(old(self).tokens(), old(self).position(), token@) {
                Ok(p) => result is Ok && final(self).position() == p,
                Err(e) => result is Err && result->Err_0@ == e && final(self).position()
                    == old(self).position(),
            },
    {
        if self.check(token) {
            self.advance();
            Ok(())
        } else {
            Err(self.unexpected(Expected::Token(token.clone())))
        }
    }

    /// Reads the identifier at the cursor, if one stands there.
    pub fn advance_if_identifier(&mut self) -> (name: Option<String>)
        ensures
            final(self).tokens() == old(self).tokens(),
            match grammar::expect_identifier(old(self).tokens(), old(self).position()) {
                Ok((text, p)) => name is Some && name->Some_0@ == text && final(self).position()
                    == p,
                Err(_) => name is None && final(self).position() == old(self).position(),
            },
    {
        if self.is_at_end() {
            return None;
        }
        let name = match &self.tokens[self.current] {
            Token::Identifier(name) => name.clone(),
            _ => {
                return None;
            },
        };
        self.advance();
        Some(name)
    }

    /// Reads the identifier that must stand at the cursor.
    pub fn consume_identifier(&mut self) -> (result: Result<String, ParseError>)
        ensures
            final(self).tokens() == old(self).tokens(),
            match grammar::expect_identifier(old(self).tokens(), old(self).position()) {
                Ok((text, p)) => result is Ok && result->Ok_0@ == text && final(self).position()
                    == p,
                Err(e) => result is Err && result->Err_0@ == e && final(self).position()
                    == old(self).position(),
            },
    {
        match self.advance_if_identifier() {
            Some(name) => Ok(name),
            None => Err(self.unexpected(Expected::Identifier)),
        }
    }

    /// Notes that the cursor is within the tokens.
    fn bounded(&self)
        ensures
            0 <= self.position() <= self.tokens().len(),
    {
        proof {
            use_type_invariant(self);
        }
    }

    /// The binary operator of the precedence level at the cursor, if one
    /// stands there.
    fn operator_here(&self, level: u8) -> (op: Option<BinaryOp>)
        ensures
            op == if self.position() < self.tokens().len() {
                grammar::operator_of(level as nat, self.tokens()[self.position()])
            } else {
                None
            },
    {
        if self.is_at_end() {
            return None;
        }
        let token = self.current_token();
        if level == 0 {
            match token {
                Token::Equal => Some(BinaryOp::Equal),
                Token::NotEqual => Some(BinaryOp::NotEqual),
                _ => None,
            }
        } else if level == 1 {
            match token {
                Token::Less => Some(BinaryOp::Less),
                Token::LessEqual => Some(BinaryOp::LessEqual),
                Token::Greater => Some(BinaryOp::Greater),
                Token::GreaterEqual => Some(BinaryOp::GreaterEqual),
                _ => None,
            }
        } else if level == 2 {
            match token {
                Token::Plus => Some(BinaryOp::Add),
                Token::Minus => Some(BinaryOp::Subtract),
                _ => None,
            }
        } else if level == 3 {
            match token {
                Token::Star => Some(BinaryOp::Multiply),
                Token::Slash => Some(BinaryOp::Divide),
                Token::Percent => Some(BinaryOp::Modulo),
                _ => None,
            }
        } else {
            None
        }
    }

    /// `expression := assignment`
    fn expression(&mut self) -> (result: Result<Expression, ParseError>)
        ensures
            final(self).tokens() == old(self).tokens(),
            yields(
                grammar::expression(old(self).tokens(), old(self).position()),
                result,
                final(self).position(),
            ),
            result is Ok ==> old(self).position() < final(self).position(),
        decreases old(self).tokens().len() - old(self).position(), 60nat,
    {
        self.assignment()
    }

    /// `assignment := equality ('=' assignment)?`
    fn assignment(&mut self) -> (result: Result<Expression, ParseError>)
        ensures
            final(self).tokens() == old(self).tokens(),
            yields(
                grammar::assignment(old(self).tokens(), old(self).position()),
                result,
                final(self).position(),
            ),
            result is Ok ==> old(self).position() < final(self).position(),
        decreases old(self).tokens().len() - old(self).position(), 58nat,
    {
        let target = self.equality()?;
        self.bounded();
        if !self.check(&Token::Equals) {
            return Ok(target);
        }
        match target {
            Expression::Variable(name) => {
                self.advance();
                let value = self.assignment()?;
                Ok(
                    Expression::VariableDeclaration {
                        name,
                        value: Box::new(value),
                        explicit_type: None,
                    },
                )
            },
            Expression::ArrayAccess { array, index } => {
                self.advance();
                let value = self.assignment()?;
                Ok(Expression::ArrayAssignment { array, index, value: Box::new(value) })
            },
            Expression::StructFieldAccess { object, field } => {
                self.advance();
                let value = self.assignment()?;
                Ok(Expression::StructFieldAssignment { object, field, value: Box::new(value) })
            },
            other => Ok(other),
        }
    }

    /// `equality := comparison (('==' | '!=') comparison)*`
    fn equality(&mut self) -> (result: Result<Expression, ParseError>)
        ensures
            final(self).tokens() == old(self).tokens(),
            yields(
                grammar::binary(old(self).tokens(), 0, old(self).position()),
                result,
                final(self).position(),
            ),
            result is Ok ==> old(self).position() < final(self).position(),
        decreases old(self).tokens().len() - old(self).position(), 56nat,
    {
        self.chain(0)
    }

    /// `comparison := term (('<' | '<=' | '>' | '>=') term)*`
    fn comparison(&mut self) -> (result: Result<Expression, ParseError>)
        ensures
            final(self).tokens() == old(self).tokens(),
            yields(
                grammar::binary(old(self).tokens(), 1, old(self).position()),
                result,
                final(self).position(),
            ),
            result is Ok ==> old(self).position() < final(self).position(),
        decreases old(self).tokens().len() - old(self).position(), 50nat,
    {
        self.chain(1)
    }

    /// `term := factor (('+' | '-') factor)*`
    fn term(&mut self) -> (result: Result<Expression, ParseError>)
        ensures
            final(self).tokens() == old(self).tokens(),
            yields(
                grammar::binary(old(self).tokens(), 2, old(self).position()),
                result,
                final(self).position(),
            ),
            result is Ok ==> old(self).position() < final(self).position(),
        decreases old(self).tokens().len() - old(self).position(), 44nat,
    {
        self.chain(2)
    }

    /// `factor := unary (('*' | '/' | '%') unary)*`
    fn factor(&mut self) -> (result: Result<Expression, ParseError>)
        ensures
            final(self).tokens() == old(self).tokens(),
            yields(
                grammar::binary(old(self).tokens(), 3, old(self).position()),
                result,
                final(self).position(),
            ),
            result is Ok ==> old(self).position() < final(self).position(),
        decreases old(self).tokens().len() - old(self).position(), 38nat,
    {
        self.chain(3)
    }

    /// `unary := call`
    fn unary(&mut self) -> (result: Result<Expression, ParseError>)
        ensures
            final(self).tokens() == old(self).tokens(),
            yields(
                grammar::binary(old(self).tokens(), 4, old(self).position()),
                result,
                final(self).position(),
            ),
            result is Ok ==> old(self).position() < final(self).position(),
        decreases old(self).tokens().len() - old(self).position(), 30nat,
    {
        self.call()
    }

    /// An operand of a chain of the precedence level: an expression of the
    /// next level.
    fn operand(&mut self, level: u8) -> (result: Result<Expression, ParseError>)
        requires
            level < 4,
        ensures
            final(self).tokens() == old(self).tokens(),
            yields(
                grammar::binary(old(self).tokens(), (level + 1) as nat, old(self).position()),
                result,
                final(self).position(),
            ),
            result is Ok ==> old(self).position() < final(self).position(),
        decreases old(self).tokens().len() - old(self).position(), (54 - 6 * level) as nat,
    {
        if level == 0 {
            self.comparison()
        } else if level == 1 {
            self.term()
        } else if level == 2 {
            self.factor()
        } else {
            self.unary()
        }
    }

    /// A chain of binary operations of the precedence level.
    fn chain(&mut self, level: u8) -> (result: Result<Expression, ParseError>)
        requires
            level < 4,
        ensures
            final(self).tokens() == old(self).tokens(),
            yields(
                grammar::binary(old(self).tokens(), level as nat, old(self).position()),
                result,
                final(self).position(),
            ),
            result is Ok ==> old(self).position() < final(self).position(),
        decreases old(self).tokens().len() - old(self).position(), (55 - 6 * level) as nat,
    {
        let mut expr = self.operand(level)?;
        self.bounded();
        loop
            invariant_except_break
                grammar::binary(old(self).tokens(), level as nat, old(self).position())
                    == grammar::binary_rest(self.tokens(), level as nat, expr@, self.position()),
            invariant
                level < 4,
                self.tokens() == old(self).tokens(),
                old(self).position() < self.position() <= self.tokens().len(),
            ensures
                self.tokens() == old(self).tokens(),
                old(self).position() < self.position(),
                grammar::binary(old(self).tokens(), level as nat, old(self).position()) == Ok::<
                    (ExprView, int),
                    ParseErrorView,
                >((expr@, self.position())),
            decreases self.tokens().len() - self.position(),
        {
            match self.operator_here(level) {
                Some(operator) => {
                    self.advance();
                    let right = self.operand(level)?;
                    self.bounded();
                    expr = Expression::Binary {
                        left: Box::new(expr),
                        operator,
                        right: Box::new(right),
                    };
                },
                None => {
                    break ;
                },
            }
        }
        Ok(expr)
    }

    /// `call := primary ( '(' arguments ')' | '[' expression ']' | '.' IDENT )*`
    fn call(&mut self) -> (result: Result<Expression, ParseError>)
        ensures
            final(self).tokens() == old(self).tokens(),
            yields(
                grammar::call_expr(old(self).tokens(), old(self).position()),
                result,
                final(self).position(),
            ),
            result is Ok ==> old(self).position() < final(self).position(),
        decreases old(self).tokens().len() - old(self).position(), 28nat,
    {
        let mut expr = self.primary()?;
        self.bounded();
        loop
            invariant_except_break
                grammar::call_expr(old(self).tokens(), old(self).position()) == grammar::call_rest(
                    self.tokens(),
                    expr@,
                    self.position(),
                ),
            invariant
                self.tokens() == old(self).tokens(),
                old(self).position() < self.position() <= self.tokens().len(),
            ensures
                self.tokens() == old(self).tokens(),
                old(self).position() < self.position(),
                grammar::call_expr(old(self).tokens(), old(self).position()) == Ok::<
                    (ExprView, int),
                    ParseErrorView,
                >((expr@, self.position())),
            decreases self.tokens().len() - self.position(),
        {
            if self.match_token(&Token::LeftParen) {
                expr = self.finish_call(expr)?;
                self.bounded();
            } else if self.match_token(&Token::LeftBracket) {
                let index = self.expression()?;
                self.bounded();
                self.consume(&Token::RightBracket)?;
                expr = Expression::ArrayAccess { array: Box::new(expr), index: Box::new(index) };
            } else if self.match_token(&Token::Dot) {
                let field = self.consume_identifier()?;
                expr = Expression::StructFieldAccess { object: Box::new(expr), field };
            } else {
                break ;
            }
        }
        Ok(expr)
    }

    /// The call of `callee` whose arguments start at the cursor, behind the
    /// opening parenthesis.
    fn finish_call(&mut self, callee: Expression) -> (result: Result<Expression, ParseError>)
        ensures
            final(self).tokens() == old(self).tokens(),
            yields(
                grammar::finish_call(old(self).tokens(), callee@, old(self).position()),
                result,
                final(self).position(),
            ),
            result is Ok ==> old(self).position() < final(self).position(),
        decreases old(self).tokens().len() - old(self).position(), 72nat,
    {
        let mut arguments = self.delimited(&Token::RightParen, false)?;
        match callee {
            Expression::Variable(name) => {
                let builtin = name == String::from_str("puts") || name == String::from_str(
                    "print",
                );
                if builtin && arguments.len() > 0 {
                    let formatted = match &arguments[0] {
                        Expression::Literal(Literal::String(format)) => contains_placeholder(
                            format.as_str(),
                        ),
                        _ => false,
                    };
                    if formatted {
                        let ghost all = arguments@;
                        let first = arguments.remove(0);
                        proof {
                            assert(expr_views(arguments@) =~= expr_views(all).skip(1));
                        }
                        match first {
                            Expression::Literal(Literal::String(format_string)) => {
                                return Ok(
                                    Expression::FormatCall { name, format_string, arguments },
                                );
                            },
                            _ => {
                                assert(false);
                                return Err(ParseError::InvalidCallTarget);
                            },
                        }
                    }
                }
                Ok(Expression::Call { name, arguments })
            },
            _ => Err(ParseError::InvalidCallTarget),
        }
    }

    /// A list of expressions behind its opening token, up to and with the
    /// closing token.
    fn delimited(&mut self, close: &Token, trailing: bool) -> (result: Result<
        Vec<Expression>,
        ParseError,
    >)
        ensures
            final(self).tokens() == old(self).tokens(),
            yields_expressions(
                grammar::delimited(old(self).tokens(), old(self).position(), close@, trailing),
                result,
                final(self).position(),
            ),
            result is Ok ==> old(self).position() < final(self).position(),
        decreases old(self).tokens().len() - old(self).position(), 71nat,
    {
        let mut elements: Vec<Expression> = Vec::new();
        proof {
            assert(expr_views(elements@) =~= Seq::empty());
        }
        if self.match_token(close) {
            return Ok(elements);
        }
        self.bounded();
        loop
            invariant_except_break
                grammar::delimited(old(self).tokens(), old(self).position(), close@, trailing)
                    == grammar::expression_list(
                    self.tokens(),
                    expr_views(elements@),
                    self.position(),
                    close@,
                    trailing,
                ),
            invariant
                self.tokens() == old(self).tokens(),
                old(self).position() <= self.position() <= self.tokens().len(),
            ensures
                self.tokens() == old(self).tokens(),
                old(self).position() < self.position(),
                grammar::delimited(old(self).tokens(), old(self).position(), close@, trailing)
                    == Ok::<(Seq<ExprView>, int), ParseErrorView>(
                    (expr_views(elements@), self.position()),
                ),
            decreases self.tokens().len() - self.position(),
        {
            let ghost before = elements@;
            let element = self.expression()?;
            self.bounded();
            elements.push(element);
            proof {
                assert(expr_views(elements@) =~= expr_views(before).push(element@));
            }
            if self.match_token(&Token::Comma) {
                if trailing && self.check(close) {
                    self.advance();
                    break ;
                }
            } else {
                self.consume(close)?;
                break ;
            }
        }
        Ok(elements)
    }

    /// One initializer of a struct: `IDENT ':' expression`.
    fn initializer(&mut self) -> (result: Result<(String, Expression), ParseError>)
        ensures
            final(self).tokens() == old(self).tokens(),
            match grammar::field(old(self).tokens(), old(self).position()) {
                Ok((value, p)) => result is Ok && (result->Ok_0.0@, result->Ok_0.1@) == value
                    && final(self).position() == p,
                Err(e) => result is Err && result->Err_0@ == e,
            },
            result is Ok ==> old(self).position() < final(self).position(),
        decreases old(self).tokens().len() - old(self).position(), 69nat,
    {
        let field_name = self.consume_identifier()?;
        self.consume(&Token::Colon)?;
        let field_value = self.expression()?;
        Ok((field_name, field_value))
    }

    /// The initializers of a struct behind its opening brace, up to and
    /// with the closing brace.
    #[verifier::rlimit(30)]
    fn initializers(&mut self) -> (result: Result<Vec<(String, Expression)>, ParseError>)
        ensures
            final(self).tokens() == old(self).tokens(),
            yields_fields(
                grammar::fields(old(self).tokens(), old(self).position()),
                result,
                final(self).position(),
            ),
            result is Ok ==> old(self).position() < final(self).position(),
        decreases old(self).tokens().len() - old(self).position(), 71nat,
    {
        let mut fields: Vec<(String, Expression)> = Vec::new();
        proof {
            assert(field_views(fields@) =~= Seq::empty());
        }
        if self.match_token(&Token::RightBrace) {
            return Ok(fields);
        }
        self.bounded();
        loop
            invariant_except_break
                grammar::fields(old(self).tokens(), old(self).position()) == grammar::field_list(
                    self.tokens(),
                    field_views(fields@),
                    self.position(),
                ),
            invariant
                self.tokens() == old(self).tokens(),
                old(self).position() <= self.position() <= self.tokens().len(),
            ensures
                self.tokens() == old(self).tokens(),
                old(self).position() < self.position(),
                grammar::fields(old(self).tokens(), old(self).position()) == Ok::<
                    (Seq<(Seq<char>, ExprView)>, int),
                    ParseErrorView,
                >((field_views(fields@), self.position())),
            decreases self.tokens().len() - self.position(),
        {
            let ghost before = fields@;
            let initializer = self.initializer()?;
            self.bounded();
            let ghost pair = (initializer.0@, initializer.1@);
            fields.push(initializer);
            proof {
                assert(field_views(fields@) =~= field_views(before).push(pair));
            }
            if self.match_token(&Token::Comma) {
                if self.check(&Token::RightBrace) {
                    self.advance();
                    break ;
                }
            } else {
                self.consume(&Token::RightBrace)?;
                break ;
            }
        }
        Ok(fields)
    }

    /// The initialization of the struct `struct_name`, whose opening brace
    /// stands at the cursor.
    fn struct_initialization(&mut self, struct_name: String) -> (result: Result<
        Expression,
        ParseError,
    >)
        ensures
            final(self).tokens() == old(self).tokens(),
            yields(
                grammar::struct_initialization(
                    old(self).tokens(),
                    struct_name@,
                    old(self).position(),
                ),
                result,
                final(self).position(),
            ),
            result is Ok ==> old(self).position() < final(self).position(),
        decreases old(self).tokens().len() - old(self).position(), 73nat,
    {
        self.consume(&Token::LeftBrace)?;
        let fields = self.initializers()?;
        Ok(Expression::StructInitialization { name: struct_name, fields })
    }

    /// The creation of a variant of the enum `enum_name`, whose `::` stands
    /// at the cursor.
    fn enum_variant_creation(&mut self, enum_name: String) -> (result: Result<
        Expression,
        ParseError,
    >)
        ensures
            final(self).tokens() == old(self).tokens(),
            yields(
                grammar::enum_variant_creation(
                    old(self).tokens(),
                    enum_name@,
                    old(self).position(),
                ),
                result,
                final(self).position(),
            ),
            result is Ok ==> old(self).position() < final(self).position(),
        decreases old(self).tokens().len() - old(self).position(), 73nat,
    {
        self.consume(&Token::DoubleColon)?;
        let variant_name = self.consume_identifier()?;
        let values = if self.match_token(&Token::LeftParen) {
            self.delimited(&Token::RightParen, true)?
        } else {
            let values: Vec<Expression> = Vec::new();
            proof {
                assert(expr_views(values@) =~= Seq::empty());
            }
            values
        };
        Ok(Expression::EnumVariantCreation { enum_name, variant_name, values })
    }

    /// A primary expression: a literal, a parenthesized expression, an
    /// array literal, a struct initialization, an enum variant or a
    /// variable.
    pub fn primary(&mut self) -> (result: Result<Expression, ParseError>)
        ensures
            final(self).tokens() == old(self).tokens(),
            yields(
                grammar::primary(old(self).tokens(), old(self).position()),
                result,
                final(self).position(),
            ),
            result is Ok ==> old(self).position() < final(self).position(),
            old(self).position() >= old(self).tokens().len() ==> final(self).position()
                == old(self).position(),
        decreases old(self).tokens().len() - old(self).position(), 26nat,
    {
        if self.is_at_end() {
            return Err(ParseError::UnexpectedEndOfInput { expected: Expected::Expression });
        }
        let token = self.current_token().clone();
        match token {
            Token::LeftBracket => {
                self.advance();
                let elements = self.delimited(&Token::RightBracket, true)?;
                Ok(Expression::ArrayLiteral(elements))
            },
            Token::LeftParen => {
                self.advance();
                let expr = self.expression()?;
                self.bounded();
                self.consume(&Token::RightParen)?;
                Ok(expr)
            },
            Token::Number(n) => {
                self.advance();
                Ok(Expression::Literal(Literal::Integer(n)))
            },
            Token::String(text) => {
                self.advance();
                Ok(Expression::Literal(Literal::String(text)))
            },
            Token::Identifier(name) => {
                if name == String::from_str("true") {
                    self.advance();
                    Ok(Expression::Literal(Literal::Boolean(true)))
                } else if name == String::from_str("false") {
                    self.advance();
                    Ok(Expression::Literal(Literal::Boolean(false)))
                } else if self.check_next(&Token::LeftBrace) {
                    self.advance();
                    self.struct_initialization(name)
                } else if self.check_next(&Token::DoubleColon) {
                    self.advance();
                    self.enum_variant_creation(name)
                } else {
                    self.advance();
                    Ok(Expression::Variable(name))
                }
            },
            _ => Err(self.unexpected(Expected::Expression)),
        }
    }

    /// The type that the name denotes, if any.
    fn type_of_name(name: &String) -> (found: Option<Type>)
        ensures
            optional_type_view(found) == grammar::type_named(name@),
    {
        if *name == String::from_str("i32") || *name == String::from_str("int") {
            Some(Type::Integer)
        } else if *name == String::from_str("f64") || *name == String::from_str("float") {
            Some(Type::Float)
        } else if *name == String::from_str("bool") || *name == String::from_str("boolean") {
            Some(Type::Boolean)
        } else if *name == String::from_str("str") || *name == String::from_str("string") {
            Some(Type::String)
        } else if *name == String::from_str("void") {
            Some(Type::Void)
        } else {
            None
        }
    }

    /// `type := IDENT`. An identifier is read even if it names no type; any
    /// other token stays unread.
    pub fn parse_type(&mut self) -> (result: Result<Type, ParseError>)
        ensures
            final(self).tokens() == old(self).tokens(),
            final(self).position() == grammar::type_at(old(self).tokens(), old(self).position()).1,
            match grammar::type_at(old(self).tokens(), old(self).position()).0 {
                Ok(t) => result is Ok && result->Ok_0@ == t,
                Err(e) => result is Err && result->Err_0@ == e,
            },
    {
        match self.advance_if_identifier() {
            Some(name) => match Self::type_of_name(&name) {
                Some(t) => Ok(t),
                None => Err(ParseError::InvalidTypeAnnotation(name)),
            },
            None => Err(self.unexpected(Expected::TypeName)),
        }
    }

    /// An optional annotation `(':' type)?`.
    fn annotation(&mut self) -> (result: Result<Option<Type>, ParseError>)
        ensures
            final(self).tokens() == old(self).tokens(),
            match grammar::annotation(old(self).tokens(), old(self).position()) {
                Ok((declared, p)) => result is Ok && optional_type_view(result->Ok_0) == declared
                    && final(self).position() == p,
                Err(e) => result is Err && result->Err_0@ == e,
            },
            result is Ok ==> old(self).position() <= final(self).position(),
    {
        if self.match_token(&Token::Colon) {
            Ok(Some(self.parse_type()?))
        } else {
            Ok(None)
        }
    }

    /// The parameters of a function behind the opening parenthesis, up to
    /// and with the closing one.
    fn parameters(&mut self) -> (result: Result<Vec<(String, Type)>, ParseError>)
        ensures
            final(self).tokens() == old(self).tokens(),
            match grammar::parameters(old(self).tokens(), old(self).position()) {
                Ok((value, p)) => result is Ok && typed_name_views(result->Ok_0@) == value
                    && final(self).position() == p,
                Err(e) => result is Err && result->Err_0@ == e,
            },
            result is Ok ==> old(self).position() < final(self).position(),
    {
        let mut parameters: Vec<(String, Type)> = Vec::new();
        proof {
            assert(typed_name_views(parameters@) =~= Seq::empty());
        }
        if self.match_token(&Token::RightParen) {
            return Ok(parameters);
        }
        self.bounded();
        loop
            invariant_except_break
                grammar::parameters(old(self).tokens(), old(self).position())
                    == grammar::parameter_list(
                    self.tokens(),
                    typed_name_views(parameters@),
                    self.position(),
                ),
            invariant
                self.tokens() == old(self).tokens(),
                old(self).position() <= self.position() <= self.tokens().len(),
            ensures
                self.tokens() == old(self).tokens(),
                old(self).position() < self.position(),
                grammar::parameters(old(self).tokens(), old(self).position()) == Ok::<
                    (Seq<(Seq<char>, TypeView)>, int),
                    ParseErrorView,
                >((typed_name_views(parameters@), self.position())),
            decreases self.tokens().len() - self.position(),
        {
            let ghost before = parameters@;
            let name = self.consume_identifier()?;
            let declared = match self.annotation()? {
                Some(t) => t,
                None => Type::Unknown,
            };
            self.bounded();
            let ghost pair = (name@, declared@);
            parameters.push((name, declared));
            proof {
                assert(typed_name_views(parameters@) =~= typed_name_views(before).push(pair));
            }
            if self.match_token(&Token::Comma) {
                if self.check(&Token::RightParen) {
                    self.advance();
                    break ;
                }
            } else {
                self.consume(&Token::RightParen)?;
                break ;
            }
        }
        Ok(parameters)
    }

    /// `function_decl := 'fn' IDENT '(' parameters ')' ('->' type)? block`,
    /// behind the keyword.
    fn function_declaration(&mut self) -> (result: Result<Statement, ParseError>)
        ensures
            final(self).tokens() == old(self).tokens(),
            match grammar::function_declaration(old(self).tokens(), old(self).position()) {
                Ok((f, p)) => result is Ok && result->Ok_0@ == StmtView::Function(f)
                    && final(self).position() == p,
                Err(e) => result is Err && result->Err_0@ == e,
            },
            result is Ok ==> old(self).position() < final(self).position(),
        decreases old(self).tokens().len() - old(self).position(), 98nat,
    {
        let name = self.consume_identifier()?;
        self.consume(&Token::LeftParen)?;
        let parameters = self.parameters()?;
        self.bounded();
        let return_type = if self.match_token(&Token::Arrow) {
            self.parse_type()?
        } else {
            Type::Void
        };
        self.consume(&Token::LeftBrace)?;
        let body = self.parse_block_contents()?;
        Ok(Statement::Function(Function { name, parameters, return_type, body }))
    }

    /// `var_decl := 'let' IDENT (':' type)? '=' expression ';'`, behind
    /// the keyword.
    fn var_declaration(&mut self) -> (result: Result<Statement, ParseError>)
        ensures
            final(self).tokens() == old(self).tokens(),
            yields(
                grammar::var_declaration(old(self).tokens(), old(self).position()),
                result,
                final(self).position(),
            ),
            result is Ok ==> old(self).position() < final(self).position(),
        decreases old(self).tokens().len() - old(self).position(), 98nat,
    {
        let name = self.consume_identifier()?;
        let explicit_type = self.annotation()?;
        self.consume(&Token::Equals)?;
        let value = self.expression()?;
        self.consume(&Token::Semi)?;
        Ok(Statement::VariableDeclaration { name, value, explicit_type })
    }

    /// The statements of a block behind its opening brace, up to and with
    /// the closing brace.
    fn parse_block_contents(&mut self) -> (result: Result<Vec<Statement>, ParseError>)
        ensures
            final(self).tokens() == old(self).tokens(),
            yields_statements(
                grammar::block_contents(old(self).tokens(), old(self).position()),
                result,
                final(self).position(),
            ),
            result is Ok ==> old(self).position() < final(self).position(),
        decreases old(self).tokens().len() - old(self).position(), 95nat,
    {
        let mut statements: Vec<Statement> = Vec::new();
        proof {
            assert(stmt_views(statements@) =~= Seq::empty());
        }
        self.bounded();
        while !self.check(&Token::RightBrace) && !self.is_at_end()
            invariant
                self.tokens() == old(self).tokens(),
                old(self).position() <= self.position() <= self.tokens().len(),
                grammar::block_contents(old(self).tokens(), old(self).position())
                    == grammar::statements(self.tokens(), stmt_views(statements@), self.position()),
            decreases self.tokens().len() - self.position(),
        {
            let ghost before = statements@;
            match self.declaration()? {
                Some(stmt) => {
                    self.bounded();
                    statements.push(stmt);
                    proof {
                        assert(stmt_views(statements@) =~= stmt_views(before).push(stmt@));
                    }
                },
                None => {
                    return Err(self.unexpected(Expected::Statement));
                },
            }
        }
        self.consume(&Token::RightBrace)?;
        Ok(statements)
    }

    /// `block := '{' declaration* '}'`, behind the opening brace.
    fn block(&mut self) -> (result: Result<Statement, ParseError>)
        ensures
            final(self).tokens() == old(self).tokens(),
            match grammar::block_contents(old(self).tokens(), old(self).position()) {
                Ok((body, p)) => result is Ok && result->Ok_0@ == StmtView::Block(body)
                    && final(self).position() == p,
                Err(e) => result is Err && result->Err_0@ == e,
            },
            result is Ok ==> old(self).position() < final(self).position(),
        decreases old(self).tokens().len() - old(self).position(), 96nat,
    {
        let statements = self.parse_block_contents()?;
        Ok(Statement::Block(statements))
    }

    /// `declaration := function_decl | var_decl | statement`
    fn declaration(&mut self) -> (result: Result<Option<Statement>, ParseError>)
        ensures
            final(self).tokens() == old(self).tokens(),
            yields_optional(
                grammar::declaration(old(self).tokens(), old(self).position()),
                result,
                final(self).position(),
            ),
            result is Ok && result->Ok_0 is Some ==> old(self).position() < final(self).position(),
        decreases old(self).tokens().len() - old(self).position(), 90nat,
    {
        if self.is_at_end() || self.check(&Token::RightBrace) {
            return Ok(None);
        }
        if self.match_token(&Token::Fn) {
            return Ok(Some(self.function_declaration()?));
        }
        if self.match_token(&Token::Let) {
            return Ok(Some(self.var_declaration()?));
        }
        self.statement()
    }

    /// `statement := if_stmt | while_stmt | for_stmt | 'break' ';' |
    /// 'continue' ';' | 'unsafe' block | import_stmt | block |
    /// expression ';'`
    #[verifier::rlimit(30)]
    fn statement(&mut self) -> (result: Result<Option<Statement>, ParseError>)
        ensures
            final(self).tokens() == old(self).tokens(),
            yields_optional(
                grammar::statement(old(self).tokens(), old(self).position()),
                result,
                final(self).position(),
            ),
            result is Ok && result->Ok_0 is Some ==> old(self).position() < final(self).position(),
        decreases old(self).tokens().len() - old(self).position(), 85nat,
    {
        if self.check(&Token::RightBrace) || self.is_at_end() {
            return Ok(None);
        }
        if self.match_token(&Token::If) {
            return Ok(Some(self.if_statement()?));
        }
        if self.match_token(&Token::While) {
            return Ok(Some(self.while_statement()?));
        }
        if self.match_token(&Token::For) {
            return Ok(Some(self.for_statement()?));
        }
        if self.match_token(&Token::Break) {
            self.consume(&Token::Semi)?;
            return Ok(Some(Statement::Break));
        }
        if self.match_token(&Token::Continue) {
            self.consume(&Token::Semi)?;
            return Ok(Some(Statement::Continue));
        }
        if self.match_token(&Token::Unsafe) {
            self.consume(&Token::LeftBrace)?;
            let body = self.parse_block_contents()?;
            return Ok(Some(Statement::UnsafeBlock(body)));
        }
        if self.match_token(&Token::Import) {
            let module_name = self.consume_identifier()?;
            if self.match_token(&Token::As) {
                let alias = self.consume_identifier()?;
                return Ok(Some(Statement::ImportAs(module_name, alias)));
            } else {
                return Ok(Some(Statement::Import(module_name)));
            }
        }
        if self.match_token(&Token::LeftBrace) {
            return Ok(Some(self.block()?));
        }
        let expr = self.expression()?;
        self.consume(&Token::Semi)?;
        Ok(Some(Statement::Expression(expr)))
    }

    /// A condition and the block behind it.
    fn guarded_block(&mut self) -> (result: Result<(Expression, Vec<Statement>), ParseError>)
        ensures
            final(self).tokens() == old(self).tokens(),
            yields_guarded(
                grammar::guarded_block(old(self).tokens(), old(self).position()),
                result,
                final(self).position(),
            ),
            result is Ok ==> old(self).position() < final(self).position(),
        decreases old(self).tokens().len() - old(self).position(), 80nat,
    {
        let condition = self.expression()?;
        self.bounded();
        self.consume(&Token::LeftBrace)?;
        let body = self.parse_block_contents()?;
        Ok((condition, body))
    }

    /// `if_stmt := 'if' expression block ('elif' expression block)*
    /// ('else' block)?`, behind the keyword.
    #[verifier::loop_isolation(false)]
    fn if_statement(&mut self) -> (result: Result<Statement, ParseError>)
        ensures
            final(self).tokens() == old(self).tokens(),
            yields(
                grammar::if_statement(old(self).tokens(), old(self).position()),
                result,
                final(self).position(),
            ),
            result is Ok ==> old(self).position() < final(self).position(),
        decreases old(self).tokens().len() - old(self).position(), 82nat,
    {
        let (condition, then_branch) = self.guarded_block()?;
        self.bounded();
        let mut elif_branches: Vec<(Expression, Vec<Statement>)> = Vec::new();
        let ghost behind_then = self.position();
        proof {
            assert(elif_views(elif_branches@) =~= Seq::empty());
        }
        while self.match_token(&Token::Elif)
            invariant
                self.tokens() == old(self).tokens(),
                old(self).position() < behind_then <= self.position() <= self.tokens().len(),
                grammar::elifs(old(self).tokens(), Seq::empty(), behind_then) == grammar::elifs(
                    self.tokens(),
                    elif_views(elif_branches@),
                    self.position(),
                ),
            decreases self.tokens().len() - self.position(),
        {
            let ghost before = elif_branches@;
            let (elif_condition, elif_body) = self.guarded_block()?;
            self.bounded();
            let ghost pair = (elif_condition@, stmt_views(elif_body@));
            elif_branches.push((elif_condition, elif_body));
            proof {
                assert(elif_views(elif_branches@) =~= elif_views(before).push(pair));
            }
        }
        let else_branch = if self.match_token(&Token::Else) {
            self.consume(&Token::LeftBrace)?;
            Some(self.parse_block_contents()?)
        } else {
            None
        };
        Ok(Statement::If { condition, then_branch, elif_branches, else_branch })
    }

    /// `while_stmt := 'while' expression block`, behind the keyword.
    fn while_statement(&mut self) -> (result: Result<Statement, ParseError>)
        ensures
            final(self).tokens() == old(self).tokens(),
            yields(
                grammar::while_statement(old(self).tokens(), old(self).position()),
                result,
                final(self).position(),
            ),
            result is Ok ==> old(self).position() < final(self).position(),
        decreases old(self).tokens().len() - old(self).position(), 82nat,
    {
        let (condition, body) = self.guarded_block()?;
        Ok(Statement::While { condition, body })
    }

    /// `for_stmt := 'for' IDENT 'in' expression block`, behind the
    /// keyword.
    fn for_statement(&mut self) -> (result: Result<Statement, ParseError>)
        ensures
            final(self).tokens() == old(self).tokens(),
            yields(
                grammar::for_statement(old(self).tokens(), old(self).position()),
                result,
                final(self).position(),
            ),
            result is Ok ==> old(self).position() < final(self).position(),
        decreases old(self).tokens().len() - old(self).position(), 82nat,
    {
        let variable = self.consume_identifier()?;
        self.consume(&Token::In)?;
        let (iterable, body) = self.guarded_block()?;
        Ok(Statement::For { variable, iterable, body })
    }

    /// Parses the tokens from the cursor to their end: `program :=
    /// declaration*`. The first violation of the grammar is returned as the
    /// error of the whole parse.
    pub fn parse(&mut self) -> (result: Result<Vec<Statement>, ParseError>)
        ensures
            final(self).tokens() == old(self).tokens(),
            old(self).position() == 0 ==> is_parse_of(old(self).tokens(), result),
            match grammar::program_from(old(self).tokens(), Seq::empty(), old(self).position()) {
                Ok(program) => result is Ok && stmt_views(result->Ok_0@) == program
                    && final(self).position() == final(self).tokens().len(),
                Err(e) => result is Err && result->Err_0@ == e,
            },
    {
        let mut statements: Vec<Statement> = Vec::new();
        proof {
            assert(stmt_views(statements@) =~= Seq::empty());
        }
        self.bounded();
        while !self.is_at_end()
            invariant
                self.tokens() == old(self).tokens(),
                0 <= self.position() <= self.tokens().len(),
                grammar::program_from(old(self).tokens(), Seq::empty(), old(self).position())
                    == grammar::program_from(
                    self.tokens(),
                    stmt_views(statements@),
                    self.position(),
                ),
            decreases self.tokens().len() - self.position(),
        {
            let ghost before = statements@;
            if self.check(&Token::RightBrace) {
                return Err(self.unexpected(Expected::Statement));
            }
            match self.declaration()? {
                Some(stmt) => {
                    self.bounded();
                    statements.push(stmt);
                    proof {
                        assert(stmt_views(statements@) =~= stmt_views(before).push(stmt@));
                    }
                },
                None => {
                    return Err(self.unexpected(Expected::Statement));
                },
            }
        }
        Ok(statements)
    }
}

} // verus!
