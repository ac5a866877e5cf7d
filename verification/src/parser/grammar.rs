//! The grammar, as spec functions from a token sequence and a position to
//! the tree parsed there and the position behind it.
//!
//! Each function reads the tokens from left to right, looks at most two
//! tokens ahead and never backs up; the first violation of the grammar is
//! the error of the whole parse.

use crate::ast::{BinaryOp, ExprView, FunctionView, LiteralView, StmtView, TypeView};
use crate::token::{kind, TokenView};
use crate::parser::error::{ExpectedView, ParseErrorView};
use crate::text::has_placeholder;
use vstd::prelude::*;

verus! {

/// The result of parsing at a position: what was parsed and the position
/// behind it, or the error.
pub type Parsed<T> = Result<(T, int), ParseErrorView>;

/// Whether a token of the kind of `t` stands at position `p`.
pub open spec fn peek_is(tokens: Seq<TokenView>, p: int, t: TokenView) -> bool {
    0 <= p < tokens.len() && kind(tokens[p]) == kind(t)
}

/// The error for finding, at position `p`, something else than
/// `expected`.
pub open spec fn unexpected(
    tokens: Seq<TokenView>,
    p: int,
    expected: ExpectedView,
) -> ParseErrorView {
    if 0 <= p < tokens.len() {
        ParseErrorView::UnexpectedToken { expected, found: tokens[p] }
    } else {
        ParseErrorView::UnexpectedEndOfInput { expected }
    }
}

/// The position behind the token of the kind of `t` that must stand at
/// `p`.
pub open spec fn expect(tokens: Seq<TokenView>, p: int, t: TokenView) -> Result<
    int,
    ParseErrorView,
> {
    if peek_is(tokens, p, t) {
        Ok(p + 1)
    } else {
        Err(unexpected(tokens, p, ExpectedView::Token(t)))
    }
}

/// The identifier that must stand at `p`.
pub open spec fn expect_identifier(tokens: Seq<TokenView>, p: int) -> Parsed<Seq<char>> {
    if 0 <= p < tokens.len() && tokens[p] is Identifier {
        Ok((tokens[p]->Identifier_0, p + 1))
    } else {
        Err(unexpected(tokens, p, ExpectedView::Identifier))
    }
}

/// A result that lies behind `from` and within the tokens. Every
/// production of the grammar consumes at least one token where it
/// succeeds, so this changes no result (see
/// [`crate::parser::progress::lemma_guards_change_nothing`]); it is what
/// makes the grammar's recursion well-founded by its own definition.
pub open spec fn advanced<T>(r: Parsed<T>, from: int, tokens: Seq<TokenView>) -> Parsed<T> {
    match r {
        Ok((value, p)) => if from < p <= tokens.len() {
            Ok((value, p))
        } else {
            Err(ParseErrorView::UnexpectedEndOfInput { expected: ExpectedView::Expression })
        },
        Err(e) => Err(e),
    }
}

/// The binary operator that the token denotes at a precedence level: 0 is
/// equality, 1 comparison, 2 addition and subtraction, 3 multiplication,
/// division and remainder.
pub open spec fn operator_of(level: nat, t: TokenView) -> Option<BinaryOp> {
    if level == 0 {
        match t {
            TokenView::Equal => Some(BinaryOp::Equal),
            TokenView::NotEqual => Some(BinaryOp::NotEqual),
            _ => None,
        }
    } else if level == 1 {
        match t {
            TokenView::Less => Some(BinaryOp::Less),
            TokenView::LessEqual => Some(BinaryOp::LessEqual),
            TokenView::Greater => Some(BinaryOp::Greater),
            TokenView::GreaterEqual => Some(BinaryOp::GreaterEqual),
            _ => None,
        }
    } else if level == 2 {
        match t {
            TokenView::Plus => Some(BinaryOp::Add),
            TokenView::Minus => Some(BinaryOp::Subtract),
            _ => None,
        }
    } else if level == 3 {
        match t {
            TokenView::Star => Some(BinaryOp::Multiply),
            TokenView::Slash => Some(BinaryOp::Divide),
            TokenView::Percent => Some(BinaryOp::Modulo),
            _ => None,
        }
    } else {
        None
    }
}

/// The call of `callee` with `arguments`. Only a plain name can be called.
/// A call of `puts` or `print` whose first argument is a string literal
/// that holds `{}` is a format call: it carries the literal apart from the
/// arguments that follow it.
pub open spec fn make_call(callee: ExprView, arguments: Seq<ExprView>) -> Result<
    ExprView,
    ParseErrorView,
> {
    match callee {
        ExprView::Variable(name) => {
            if (name == "puts"@ || name == "print"@) && arguments.len() > 0 {
                match arguments[0] {
                    ExprView::Literal(LiteralView::String(format)) => {
                        if has_placeholder(format) {
                            Ok(
                                ExprView::FormatCall {
                                    name,
                                    format_string: format,
                                    arguments: arguments.skip(1),
                                },
                            )
                        } else {
                            Ok(ExprView::Call { name, arguments })
                        }
                    },
                    _ => Ok(ExprView::Call { name, arguments }),
                }
            } else {
                Ok(ExprView::Call { name, arguments })
            }
        },
        _ => Err(ParseErrorView::InvalidCallTarget),
    }
}

/// `expression := assignment`
pub open spec fn expression(tokens: Seq<TokenView>, p: int) -> Parsed<ExprView>
    decreases tokens.len() - p, 21nat,
{
    assignment(tokens, p)
}

/// Whether the expression can be assigned to: it is a name, an element of
/// an array or a field.
pub open spec fn assignable(target: ExprView) -> bool {
    target is Variable || target is ArrayAccess || target is StructFieldAccess
}

/// What assigning `value` to `target`, which can be assigned to, is.
pub open spec fn make_assignment(target: ExprView, value: ExprView) -> ExprView {
    match target {
        ExprView::Variable(name) => ExprView::VariableDeclaration {
            name,
            value: Box::new(value),
            explicit_type: None,
        },
        ExprView::ArrayAccess { array, index } => ExprView::ArrayAssignment {
            array,
            index,
            value: Box::new(value),
        },
        ExprView::StructFieldAccess { object, field } => ExprView::StructFieldAssignment {
            object,
            field,
            value: Box::new(value),
        },
        other => other,
    }
}

/// `assignment := equality ('=' assignment)?`, which associates to the
/// right. Behind an equality that cannot be assigned to, a `=` belongs to
/// no expression and stays unread.
pub open spec fn assignment(tokens: Seq<TokenView>, p: int) -> Parsed<ExprView>
    decreases tokens.len() - p, 20nat,
{
    match advanced(binary(tokens, 0, p), p, tokens) {
        Ok((target, p1)) => {
            if peek_is(tokens, p1, TokenView::Equals) && assignable(target) {
                match assignment(tokens, p1 + 1) {
                    Ok((value, p2)) => Ok((make_assignment(target, value), p2)),
                    Err(e) => Err(e),
                }
            } else {
                Ok((target, p1))
            }
        },
        Err(e) => Err(e),
    }
}

/// The measure of a precedence level: at one position the lower level
/// calls the higher one.
pub open spec fn level_measure(level: nat) -> nat {
    if level < 4 {
        (18 - 2 * level) as nat
    } else {
        10
    }
}

/// A chain of binary operations of one precedence level, which associates
/// to the left: `operand (operator operand)*`, where the operands are of
/// the next level and, behind the last level, calls.
pub open spec fn binary(tokens: Seq<TokenView>, level: nat, p: int) -> Parsed<ExprView>
    decreases tokens.len() - p, level_measure(level),
{
    if level >= 4 {
        call_expr(tokens, p)
    } else {
        match advanced(binary(tokens, level + 1, p), p, tokens) {
            Ok((left, p1)) => binary_rest(tokens, level, left, p1),
            Err(e) => Err(e),
        }
    }
}

/// The rest of a chain of binary operations behind the operand `left`.
pub open spec fn binary_rest(tokens: Seq<TokenView>, level: nat, left: ExprView, p: int) -> Parsed<
    ExprView,
>
    decreases tokens.len() - p, 0nat,
{
    if 0 <= p < tokens.len() && level < 4 && operator_of(level, tokens[p]) is Some {
        match advanced(binary(tokens, level + 1, p + 1), p + 1, tokens) {
            Ok((right, p2)) => binary_rest(
                tokens,
                level,
                ExprView::Binary {
                    left: Box::new(left),
                    operator: operator_of(level, tokens[p])->Some_0,
                    right: Box::new(right),
                },
                p2,
            ),
            Err(e) => Err(e),
        }
    } else {
        Ok((left, p))
    }
}

/// `call := primary ( '(' arguments ')' | '[' expression ']' | '.' IDENT )*`
pub open spec fn call_expr(tokens: Seq<TokenView>, p: int) -> Parsed<ExprView>
    decreases tokens.len() - p, 9nat,
{
    match advanced(primary(tokens, p), p, tokens) {
        Ok((e, p1)) => call_rest(tokens, e, p1),
        Err(e) => Err(e),
    }
}

/// The calls, indexings and field accesses behind the expression `e`.
pub open spec fn call_rest(tokens: Seq<TokenView>, e: ExprView, p: int) -> Parsed<ExprView>
    decreases tokens.len() - p, 0nat,
{
    if peek_is(tokens, p, TokenView::LeftParen) {
        match advanced(finish_call(tokens, e, p + 1), p + 1, tokens) {
            Ok((call, p2)) => call_rest(tokens, call, p2),
            Err(e) => Err(e),
        }
    } else if peek_is(tokens, p, TokenView::LeftBracket) {
        match advanced(expression(tokens, p + 1), p + 1, tokens) {
            Ok((index, p2)) => match expect(tokens, p2, TokenView::RightBracket) {
                Ok(p3) => call_rest(
                    tokens,
                    ExprView::ArrayAccess { array: Box::new(e), index: Box::new(index) },
                    p3,
                ),
                Err(e) => Err(e),
            },
            Err(e) => Err(e),
        }
    } else if peek_is(tokens, p, TokenView::Dot) {
        match expect_identifier(tokens, p + 1) {
            Ok((field, p2)) => call_rest(
                tokens,
                ExprView::StructFieldAccess { object: Box::new(e), field },
                p2,
            ),
            Err(e) => Err(e),
        }
    } else {
        Ok((e, p))
    }
}

/// The call of `callee` whose arguments start at `p`, behind the opening
/// parenthesis: `(expression (',' expression)*)? ')'`.
pub open spec fn finish_call(tokens: Seq<TokenView>, callee: ExprView, p: int) -> Parsed<ExprView>
    decreases tokens.len() - p, 32nat,
{
    match delimited(tokens, p, TokenView::RightParen, false) {
        Ok((arguments, p1)) => match make_call(callee, arguments) {
            Ok(call) => Ok((call, p1)),
            Err(e) => Err(e),
        },
        Err(e) => Err(e),
    }
}

/// A list of expressions behind its opening token, up to and with the
/// closing token `close`: `(expression (',' expression)*)? close`. Where
/// `trailing` holds, a comma may stand before the closing token.
pub open spec fn delimited(
    tokens: Seq<TokenView>,
    p: int,
    close: TokenView,
    trailing: bool,
) -> Parsed<Seq<ExprView>>
    decreases tokens.len() - p, 31nat,
{
    if peek_is(tokens, p, close) {
        Ok((Seq::empty(), p + 1))
    } else {
        expression_list(tokens, Seq::empty(), p, close, trailing)
    }
}

/// The rest of a list of expressions behind the elements `before`.
pub open spec fn expression_list(
    tokens: Seq<TokenView>,
    before: Seq<ExprView>,
    p: int,
    close: TokenView,
    trailing: bool,
) -> Parsed<Seq<ExprView>>
    decreases tokens.len() - p, 30nat,
{
    match advanced(expression(tokens, p), p, tokens) {
        Ok((e, p1)) => {
            if peek_is(tokens, p1, TokenView::Comma) {
                if trailing && peek_is(tokens, p1 + 1, close) {
                    Ok((before.push(e), p1 + 2))
                } else {
                    expression_list(tokens, before.push(e), p1 + 1, close, trailing)
                }
            } else {
                match expect(tokens, p1, close) {
                    Ok(p2) => Ok((before.push(e), p2)),
                    Err(e) => Err(e),
                }
            }
        },
        Err(e) => Err(e),
    }
}

/// The initializers of a struct behind its opening brace, up to and with
/// the closing brace: `(IDENT ':' expression (',' IDENT ':' expression)* ','?)? '}'`.
pub open spec fn fields(tokens: Seq<TokenView>, p: int) -> Parsed<Seq<(Seq<char>, ExprView)>>
    decreases tokens.len() - p, 31nat,
{
    if peek_is(tokens, p, TokenView::RightBrace) {
        Ok((Seq::empty(), p + 1))
    } else {
        field_list(tokens, Seq::empty(), p)
    }
}

/// One initializer of a struct: `IDENT ':' expression`.
pub open spec fn field(tokens: Seq<TokenView>, p: int) -> Parsed<(Seq<char>, ExprView)>
    decreases tokens.len() - p, 29nat,
{
    match expect_identifier(tokens, p) {
        Ok((name, p1)) => match expect(tokens, p1, TokenView::Colon) {
            Ok(p2) => match expression(tokens, p2) {
                Ok((value, p3)) => Ok(((name, value), p3)),
                Err(e) => Err(e),
            },
            Err(e) => Err(e),
        },
        Err(e) => Err(e),
    }
}

/// The rest of the initializers of a struct behind the initializers
/// `before`.
pub open spec fn field_list(
    tokens: Seq<TokenView>,
    before: Seq<(Seq<char>, ExprView)>,
    p: int,
) -> Parsed<Seq<(Seq<char>, ExprView)>>
    decreases tokens.len() - p, 30nat,
{
    match advanced(field(tokens, p), p, tokens) {
        Ok((initializer, p1)) => {
            if peek_is(tokens, p1, TokenView::Comma) {
                if peek_is(tokens, p1 + 1, TokenView::RightBrace) {
                    Ok((before.push(initializer), p1 + 2))
                } else {
                    field_list(tokens, before.push(initializer), p1 + 1)
                }
            } else {
                match expect(tokens, p1, TokenView::RightBrace) {
                    Ok(p2) => Ok((before.push(initializer), p2)),
                    Err(e) => Err(e),
                }
            }
        },
        Err(e) => Err(e),
    }
}

/// The initialization of the struct `name`, whose opening brace stands at
/// `p`.
pub open spec fn struct_initialization(tokens: Seq<TokenView>, name: Seq<char>, p: int) -> Parsed<
    ExprView,
>
    decreases tokens.len() - p, 33nat,
{
    match expect(tokens, p, TokenView::LeftBrace) {
        Ok(p1) => match fields(tokens, p1) {
            Ok((initializers, p2)) => Ok(
                (ExprView::StructInitialization { name, fields: initializers }, p2),
            ),
            Err(e) => Err(e),
        },
        Err(e) => Err(e),
    }
}

/// The creation of a variant of the enum `enum_name`, whose `::` stands at
/// `p`: `'::' IDENT ('(' elements ')')?`.
pub open spec fn enum_variant_creation(
    tokens: Seq<TokenView>,
    enum_name: Seq<char>,
    p: int,
) -> Parsed<ExprView>
    decreases tokens.len() - p, 33nat,
{
    match expect(tokens, p, TokenView::DoubleColon) {
        Ok(p1) => match expect_identifier(tokens, p1) {
            Ok((variant_name, p2)) => {
                if peek_is(tokens, p2, TokenView::LeftParen) {
                    match delimited(tokens, p2 + 1, TokenView::RightParen, true) {
                        Ok((values, p3)) => Ok(
                            (ExprView::EnumVariantCreation { enum_name, variant_name, values }, p3),
                        ),
                        Err(e) => Err(e),
                    }
                } else {
                    Ok(
                        (
                            ExprView::EnumVariantCreation {
                                enum_name,
                                variant_name,
                                values: Seq::empty(),
                            },
                            p2,
                        ),
                    )
                }
            },
            Err(e) => Err(e),
        },
        Err(e) => Err(e),
    }
}

/// `primary := '[' elements ']' | '(' expression ')' | NUMBER | STRING |
/// 'true' | 'false' | IDENT '{' fields '}' | IDENT '::' IDENT ('(' elements ')')? | IDENT`
///
/// An identifier with `{` behind it starts a struct initialization and one
/// with `::` behind it an enum variant; any other is a variable.
pub open spec fn primary(tokens: Seq<TokenView>, p: int) -> Parsed<ExprView>
    decreases tokens.len() - p, 8nat,
{
    if p < 0 || p >= tokens.len() {
        Err(ParseErrorView::UnexpectedEndOfInput { expected: ExpectedView::Expression })
    } else {
        match tokens[p] {
            TokenView::LeftBracket => match delimited(
                tokens,
                p + 1,
                TokenView::RightBracket,
                true,
            ) {
                Ok((elements, p1)) => Ok((ExprView::ArrayLiteral(elements), p1)),
                Err(e) => Err(e),
            },
            TokenView::LeftParen => match advanced(expression(tokens, p + 1), p + 1, tokens) {
                Ok((e, p1)) => match expect(tokens, p1, TokenView::RightParen) {
                    Ok(p2) => Ok((e, p2)),
                    Err(e) => Err(e),
                },
                Err(e) => Err(e),
            },
            TokenView::Number(n) => Ok((ExprView::Literal(LiteralView::Integer(n)), p + 1)),
            TokenView::String(text) => Ok((ExprView::Literal(LiteralView::String(text)), p + 1)),
            TokenView::Identifier(name) => {
                if name == "true"@ {
                    Ok((ExprView::Literal(LiteralView::Boolean(true)), p + 1))
                } else if name == "false"@ {
                    Ok((ExprView::Literal(LiteralView::Boolean(false)), p + 1))
                } else if peek_is(tokens, p + 1, TokenView::LeftBrace) {
                    struct_initialization(tokens, name, p + 1)
                } else if peek_is(tokens, p + 1, TokenView::DoubleColon) {
                    enum_variant_creation(tokens, name, p + 1)
                } else {
                    Ok((ExprView::Variable(name), p + 1))
                }
            },
            _ => Err(unexpected(tokens, p, ExpectedView::Expression)),
        }
    }
}

/// The type that a name denotes, if any.
pub open spec fn type_named(name: Seq<char>) -> Option<TypeView> {
    if name == "i32"@ || name == "int"@ {
        Some(TypeView::Integer)
    } else if name == "f64"@ || name == "float"@ {
        Some(TypeView::Float)
    } else if name == "bool"@ || name == "boolean"@ {
        Some(TypeView::Boolean)
    } else if name == "str"@ || name == "string"@ {
        Some(TypeView::String)
    } else if name == "void"@ {
        Some(TypeView::Void)
    } else {
        None
    }
}

/// What stands at `p` where a type is expected, and the position behind
/// it: the type that the identifier there names, or the error. An
/// identifier is read even if it names no type; any other token stays
/// unread.
pub open spec fn type_at(tokens: Seq<TokenView>, p: int) -> (
    Result<TypeView, ParseErrorView>,
    int,
) {
    if 0 <= p < tokens.len() && tokens[p] is Identifier {
        let name = tokens[p]->Identifier_0;
        (
            match type_named(name) {
                Some(t) => Ok(t),
                None => Err(ParseErrorView::InvalidTypeAnnotation(name)),
            },
            p + 1,
        )
    } else {
        (Err(unexpected(tokens, p, ExpectedView::TypeName)), p)
    }
}

/// `type := IDENT` as a production: the type that the identifier at `p`
/// names, and the position behind it.
pub open spec fn named_type(tokens: Seq<TokenView>, p: int) -> Parsed<TypeView> {
    match type_at(tokens, p).0 {
        Ok(t) => Ok((t, type_at(tokens, p).1)),
        Err(e) => Err(e),
    }
}

/// An optional annotation `(':' type)?` at `p`: the type, if one is
/// written, and the position behind the annotation.
pub open spec fn annotation(tokens: Seq<TokenView>, p: int) -> Parsed<Option<TypeView>> {
    if peek_is(tokens, p, TokenView::Colon) {
        match named_type(tokens, p + 1) {
            Ok((t, q)) => Ok((Some(t), q)),
            Err(e) => Err(e),
        }
    } else {
        Ok((None, p))
    }
}

/// The parameters of a function behind the opening parenthesis, up to and
/// with the closing one: `(param (',' param)* ','?)? ')'` with
/// `param := IDENT (':' type)?`. A parameter without an annotation has the
/// type `Unknown`.
pub open spec fn parameters(tokens: Seq<TokenView>, p: int) -> Parsed<Seq<(Seq<char>, TypeView)>> {
    if peek_is(tokens, p, TokenView::RightParen) {
        Ok((Seq::empty(), p + 1))
    } else {
        parameter_list(tokens, Seq::empty(), p)
    }
}

/// The rest of the parameters behind the parameters `before`.
pub open spec fn parameter_list(
    tokens: Seq<TokenView>,
    before: Seq<(Seq<char>, TypeView)>,
    p: int,
) -> Parsed<Seq<(Seq<char>, TypeView)>>
    decreases tokens.len() - p,
{
    match expect_identifier(tokens, p) {
        Ok((name, p1)) => match annotation(tokens, p1) {
            Ok((declared, p2)) => {
                let all = before.push(
                    (
                        name,
                        match declared {
                            Some(t) => t,
                            None => TypeView::Unknown,
                        },
                    ),
                );
                if peek_is(tokens, p2, TokenView::Comma) {
                    if peek_is(tokens, p2 + 1, TokenView::RightParen) {
                        Ok((all, p2 + 2))
                    } else {
                        parameter_list(tokens, all, p2 + 1)
                    }
                } else {
                    match expect(tokens, p2, TokenView::RightParen) {
                        Ok(p3) => Ok((all, p3)),
                        Err(e) => Err(e),
                    }
                }
            },
            Err(e) => Err(e),
        },
        Err(e) => Err(e),
    }
}

/// The return type `('->' type)?` at `p`, which is `Void` where none is
/// written, and the position behind it.
pub open spec fn return_type(tokens: Seq<TokenView>, p: int) -> Parsed<TypeView> {
    if peek_is(tokens, p, TokenView::Arrow) {
        named_type(tokens, p + 1)
    } else {
        Ok((TypeView::Void, p))
    }
}

/// `import_stmt := 'import' IDENT ('as' IDENT)?`, behind the keyword.
pub open spec fn import_statement(tokens: Seq<TokenView>, p: int) -> Parsed<StmtView> {
    match expect_identifier(tokens, p) {
        Ok((module, p1)) => {
            if peek_is(tokens, p1, TokenView::As) {
                match expect_identifier(tokens, p1 + 1) {
                    Ok((alias, p2)) => Ok((StmtView::ImportAs(module, alias), p2)),
                    Err(e) => Err(e),
                }
            } else {
                Ok((StmtView::Import(module), p1))
            }
        },
        Err(e) => Err(e),
    }
}

/// `block := '{' declaration* '}'`, behind the opening brace.
pub open spec fn block_contents(tokens: Seq<TokenView>, p: int) -> Parsed<Seq<StmtView>>
    decreases tokens.len() - p, 41nat,
{
    statements(tokens, Seq::empty(), p)
}

/// The rest of a block behind the statements `before`, up to and with the
/// closing brace.
pub open spec fn statements(tokens: Seq<TokenView>, before: Seq<StmtView>, p: int) -> Parsed<
    Seq<StmtView>,
>
    decreases tokens.len() - p, 40nat,
{
    if peek_is(tokens, p, TokenView::RightBrace) {
        Ok((before, p + 1))
    } else if p < 0 || p >= tokens.len() {
        Err(unexpected(tokens, p, ExpectedView::Token(TokenView::RightBrace)))
    } else {
        match advanced(declaration(tokens, p), p, tokens) {
            Ok((Some(s), p1)) => statements(tokens, before.push(s), p1),
            Ok((None, _)) => Err(unexpected(tokens, p, ExpectedView::Statement)),
            Err(e) => Err(e),
        }
    }
}

/// `declaration := function_decl | var_decl | statement`. At the end of
/// the tokens and before a closing brace there is none.
pub open spec fn declaration(tokens: Seq<TokenView>, p: int) -> Parsed<Option<StmtView>>
    decreases tokens.len() - p, 30nat,
{
    if p < 0 || p >= tokens.len() || peek_is(tokens, p, TokenView::RightBrace) {
        Ok((None, p))
    } else if peek_is(tokens, p, TokenView::Fn) {
        match function_declaration(tokens, p + 1) {
            Ok((f, p1)) => Ok((Some(StmtView::Function(f)), p1)),
            Err(e) => Err(e),
        }
    } else if peek_is(tokens, p, TokenView::Let) {
        match var_declaration(tokens, p + 1) {
            Ok((s, p1)) => Ok((Some(s), p1)),
            Err(e) => Err(e),
        }
    } else {
        statement(tokens, p)
    }
}

/// `function_decl := 'fn' IDENT '(' parameters ')' ('->' type)? block`,
/// behind the keyword.
pub open spec fn function_declaration(tokens: Seq<TokenView>, p: int) -> Parsed<FunctionView>
    decreases tokens.len() - p, 45nat,
{
    match expect_identifier(tokens, p) {
        Ok((name, p1)) => match expect(tokens, p1, TokenView::LeftParen) {
            Ok(p2) => match advanced(parameters(tokens, p2), p2, tokens) {
                Ok((params, p3)) => match return_type(tokens, p3) {
                    Ok((result_type, p4)) => match expect(tokens, p4, TokenView::LeftBrace) {
                        Ok(p5) => match block_contents(tokens, p5) {
                            Ok((body, p6)) => Ok(
                                (
                                    FunctionView {
                                        name,
                                        parameters: params,
                                        return_type: result_type,
                                        body,
                                    },
                                    p6,
                                ),
                            ),
                            Err(e) => Err(e),
                        },
                        Err(e) => Err(e),
                    },
                    Err(e) => Err(e),
                },
                Err(e) => Err(e),
            },
            Err(e) => Err(e),
        },
        Err(e) => Err(e),
    }
}

/// `var_decl := 'let' IDENT (':' type)? '=' expression ';'`, behind the
/// keyword.
pub open spec fn var_declaration(tokens: Seq<TokenView>, p: int) -> Parsed<StmtView>
    decreases tokens.len() - p, 45nat,
{
    match expect_identifier(tokens, p) {
        Ok((name, p1)) => match annotation(tokens, p1) {
            Ok((explicit_type, p2)) => match expect(tokens, p2, TokenView::Equals) {
                Ok(p3) => match expression(tokens, p3) {
                    Ok((value, p4)) => match expect(tokens, p4, TokenView::Semi) {
                        Ok(p5) => Ok(
                            (StmtView::VariableDeclaration { name, value, explicit_type }, p5),
                        ),
                        Err(e) => Err(e),
                    },
                    Err(e) => Err(e),
                },
                Err(e) => Err(e),
            },
            Err(e) => Err(e),
        },
        Err(e) => Err(e),
    }
}

/// `statement := if_stmt | while_stmt | for_stmt | 'break' ';' |
/// 'continue' ';' | 'unsafe' block | import_stmt | block | expression ';'`.
/// At the end of the tokens and before a closing brace there is none.
pub open spec fn statement(tokens: Seq<TokenView>, p: int) -> Parsed<Option<StmtView>>
    decreases tokens.len() - p, 29nat,
{
    if p < 0 || p >= tokens.len() || peek_is(tokens, p, TokenView::RightBrace) {
        Ok((None, p))
    } else if peek_is(tokens, p, TokenView::If) {
        match if_statement(tokens, p + 1) {
            Ok((s, p1)) => Ok((Some(s), p1)),
            Err(e) => Err(e),
        }
    } else if peek_is(tokens, p, TokenView::While) {
        match while_statement(tokens, p + 1) {
            Ok((s, p1)) => Ok((Some(s), p1)),
            Err(e) => Err(e),
        }
    } else if peek_is(tokens, p, TokenView::For) {
        match for_statement(tokens, p + 1) {
            Ok((s, p1)) => Ok((Some(s), p1)),
            Err(e) => Err(e),
        }
    } else if peek_is(tokens, p, TokenView::Break) {
        match expect(tokens, p + 1, TokenView::Semi) {
            Ok(p1) => Ok((Some(StmtView::Break), p1)),
            Err(e) => Err(e),
        }
    } else if peek_is(tokens, p, TokenView::Continue) {
        match expect(tokens, p + 1, TokenView::Semi) {
            Ok(p1) => Ok((Some(StmtView::Continue), p1)),
            Err(e) => Err(e),
        }
    } else if peek_is(tokens, p, TokenView::Unsafe) {
        match expect(tokens, p + 1, TokenView::LeftBrace) {
            Ok(p1) => match block_contents(tokens, p1) {
                Ok((body, p2)) => Ok((Some(StmtView::UnsafeBlock(body)), p2)),
                Err(e) => Err(e),
            },
            Err(e) => Err(e),
        }
    } else if peek_is(tokens, p, TokenView::Import) {
        match import_statement(tokens, p + 1) {
            Ok((s, p1)) => Ok((Some(s), p1)),
            Err(e) => Err(e),
        }
    } else if peek_is(tokens, p, TokenView::LeftBrace) {
        match block_contents(tokens, p + 1) {
            Ok((body, p1)) => Ok((Some(StmtView::Block(body)), p1)),
            Err(e) => Err(e),
        }
    } else {
        match expression(tokens, p) {
            Ok((e, p1)) => match expect(tokens, p1, TokenView::Semi) {
                Ok(p2) => Ok((Some(StmtView::Expression(e)), p2)),
                Err(e) => Err(e),
            },
            Err(e) => Err(e),
        }
    }
}

/// A condition and the block behind it: `expression block`.
pub open spec fn guarded_block(tokens: Seq<TokenView>, p: int) -> Parsed<(ExprView, Seq<StmtView>)>
    decreases tokens.len() - p, 42nat,
{
    match advanced(expression(tokens, p), p, tokens) {
        Ok((condition, p1)) => match expect(tokens, p1, TokenView::LeftBrace) {
            Ok(p2) => match block_contents(tokens, p2) {
                Ok((body, p3)) => Ok(((condition, body), p3)),
                Err(e) => Err(e),
            },
            Err(e) => Err(e),
        },
        Err(e) => Err(e),
    }
}

/// `('elif' expression block)*` behind the branches `before`.
pub open spec fn elifs(
    tokens: Seq<TokenView>,
    before: Seq<(ExprView, Seq<StmtView>)>,
    p: int,
) -> Parsed<Seq<(ExprView, Seq<StmtView>)>>
    decreases tokens.len() - p, 43nat,
{
    if peek_is(tokens, p, TokenView::Elif) {
        match advanced(guarded_block(tokens, p + 1), p + 1, tokens) {
            Ok((branch, p1)) => elifs(tokens, before.push(branch), p1),
            Err(e) => Err(e),
        }
    } else {
        Ok((before, p))
    }
}

/// `if_stmt := 'if' expression block ('elif' expression block)*
/// ('else' block)?`, behind the keyword.
pub open spec fn if_statement(tokens: Seq<TokenView>, p: int) -> Parsed<StmtView>
    decreases tokens.len() - p, 44nat,
{
    match advanced(guarded_block(tokens, p), p, tokens) {
        Ok(((condition, then_branch), p1)) => match advanced_or_same(
            elifs(tokens, Seq::empty(), p1),
            p1,
            tokens,
        ) {
            Ok((elif_branches, p2)) => {
                if peek_is(tokens, p2, TokenView::Else) {
                    match expect(tokens, p2 + 1, TokenView::LeftBrace) {
                        Ok(p3) => match block_contents(tokens, p3) {
                            Ok((body, p4)) => Ok(
                                (
                                    StmtView::If {
                                        condition,
                                        then_branch,
                                        elif_branches,
                                        else_branch: Some(body),
                                    },
                                    p4,
                                ),
                            ),
                            Err(e) => Err(e),
                        },
                        Err(e) => Err(e),
                    }
                } else {
                    Ok(
                        (
                            StmtView::If {
                                condition,
                                then_branch,
                                elif_branches,
                                else_branch: None,
                            },
                            p2,
                        ),
                    )
                }
            },
            Err(e) => Err(e),
        },
        Err(e) => Err(e),
    }
}

/// A result that lies at `from` or behind it, and within the tokens. Like
/// [`advanced`], this changes no result.
pub open spec fn advanced_or_same<T>(r: Parsed<T>, from: int, tokens: Seq<TokenView>) -> Parsed<T> {
    match r {
        Ok((value, p)) => if from <= p <= tokens.len() {
            Ok((value, p))
        } else {
            Err(ParseErrorView::UnexpectedEndOfInput { expected: ExpectedView::Expression })
        },
        Err(e) => Err(e),
    }
}

/// `while_stmt := 'while' expression block`, behind the keyword.
pub open spec fn while_statement(tokens: Seq<TokenView>, p: int) -> Parsed<StmtView>
    decreases tokens.len() - p, 44nat,
{
    match guarded_block(tokens, p) {
        Ok(((condition, body), p1)) => Ok((StmtView::While { condition, body }, p1)),
        Err(e) => Err(e),
    }
}

/// `for_stmt := 'for' IDENT 'in' expression block`, behind the keyword.
pub open spec fn for_statement(tokens: Seq<TokenView>, p: int) -> Parsed<StmtView>
    decreases tokens.len() - p, 44nat,
{
    match expect_identifier(tokens, p) {
        Ok((variable, p1)) => match expect(tokens, p1, TokenView::In) {
            Ok(p2) => match guarded_block(tokens, p2) {
                Ok(((iterable, body), p3)) => Ok((StmtView::For { variable, iterable, body }, p3)),
                Err(e) => Err(e),
            },
            Err(e) => Err(e),
        },
        Err(e) => Err(e),
    }
}

/// `program := declaration*` behind the statements `before`, up to the end
/// of the tokens. A closing brace that closes nothing is an error.
pub open spec fn program_from(tokens: Seq<TokenView>, before: Seq<StmtView>, p: int) -> Result<
    Seq<StmtView>,
    ParseErrorView,
>
    decreases tokens.len() - p, 50nat,
{
    if p < 0 || p >= tokens.len() {
        Ok(before)
    } else if peek_is(tokens, p, TokenView::RightBrace) {
        Err(unexpected(tokens, p, ExpectedView::Statement))
    } else {
        match advanced(declaration(tokens, p), p, tokens) {
            Ok((Some(s), p1)) => program_from(tokens, before.push(s), p1),
            Ok((None, _)) => Err(unexpected(tokens, p, ExpectedView::Statement)),
            Err(e) => Err(e),
        }
    }
}

/// The program that the tokens spell.
pub open spec fn program(tokens: Seq<TokenView>) -> Result<Seq<StmtView>, ParseErrorView> {
    program_from(tokens, Seq::empty(), 0)
}

/// The initializers of a struct end with the closing brace: behind the
/// initializers `before`, a list that is parsed ends just behind a `}`.
pub proof fn lemma_field_list_closes(
    tokens: Seq<TokenView>,
    before: Seq<(Seq<char>, ExprView)>,
    p: int,
)
    requires
        0 <= p,
    ensures
        field_list(tokens, before, p) matches Ok((_, behind)) ==> p < behind <= tokens.len()
            && tokens[behind - 1] is RightBrace,
    decreases tokens.len() - p,
{
    if let Ok((initializer, p1)) = advanced(field(tokens, p), p, tokens) {
        if peek_is(tokens, p1, TokenView::Comma) && !peek_is(
            tokens,
            p1 + 1,
            TokenView::RightBrace,
        ) {
            lemma_field_list_closes(tokens, before.push(initializer), p1 + 1);
        }
    }
}

/// How an identifier is told apart: an identifier other than `true` and
/// `false` with `{` behind it starts the initialization of the struct of
/// that name, one with `::` behind it the creation of a variant of the enum
/// of that name, and any other is the variable of that name. With `{`
/// behind it, it is never a variable, and what the braces hold belongs to
/// the initialization.
pub proof fn lemma_identifier_told_apart(tokens: Seq<TokenView>, p: int)
    requires
        0 <= p < tokens.len(),
        tokens[p] is Identifier,
        tokens[p]->Identifier_0 != "true"@,
        tokens[p]->Identifier_0 != "false"@,
    ensures
        peek_is(tokens, p + 1, TokenView::LeftBrace) ==> primary(tokens, p) == (match fields(
            tokens,
            p + 2,
        ) {
            Ok((initializers, behind)) => Ok(
                (
                    ExprView::StructInitialization {
                        name: tokens[p]->Identifier_0,
                        fields: initializers,
                    },
                    behind,
                ),
            ),
            Err(e) => Err(e),
        }),
        peek_is(tokens, p + 1, TokenView::LeftBrace) ==> !(primary(tokens, p) matches Ok(
            (ExprView::Variable(_), _),
        )),
        peek_is(tokens, p + 1, TokenView::LeftBrace) ==> (primary(tokens, p) matches Ok(
            (_, behind),
        ) ==> p + 2 < behind <= tokens.len() && tokens[behind - 1] is RightBrace),
        !peek_is(tokens, p + 1, TokenView::LeftBrace) && peek_is(
            tokens,
            p + 1,
            TokenView::DoubleColon,
        ) ==> primary(tokens, p) == enum_variant_creation(tokens, tokens[p]->Identifier_0, p + 1),
        !peek_is(tokens, p + 1, TokenView::LeftBrace) && !peek_is(
            tokens,
            p + 1,
            TokenView::DoubleColon,
        ) ==> primary(tokens, p) == Ok::<(ExprView, int), ParseErrorView>(
            (ExprView::Variable(tokens[p]->Identifier_0), p + 1),
        ),
{
    lemma_field_list_closes(tokens, Seq::empty(), p + 2);
}

/// The variants of an enum: `Enum::Variant` has no values, and
/// `Enum::Variant(elements)` has the values that the parentheses hold.
pub proof fn lemma_enum_variant_values(tokens: Seq<TokenView>, enum_name: Seq<char>, p: int)
    requires
        peek_is(tokens, p, TokenView::DoubleColon),
        expect_identifier(tokens, p + 1) is Ok,
    ensures
        ({
            let variant_name = tokens[p + 1]->Identifier_0;
            if peek_is(tokens, p + 2, TokenView::LeftParen) {
                enum_variant_creation(tokens, enum_name, p) == (match delimited(
                    tokens,
                    p + 3,
                    TokenView::RightParen,
                    true,
                ) {
                    Ok((values, behind)) => Ok(
                        (ExprView::EnumVariantCreation { enum_name, variant_name, values }, behind),
                    ),
                    Err(e) => Err(e),
                })
            } else {
                enum_variant_creation(tokens, enum_name, p) == Ok::<
                    (ExprView, int),
                    ParseErrorView,
                >(
                    (
                        ExprView::EnumVariantCreation {
                            enum_name,
                            variant_name,
                            values: Seq::empty(),
                        },
                        p + 2,
                    ),
                )
            }
        }),
{
}

} // verus!
