//! Every production of the grammar consumes tokens: what it parses ends
//! behind where it starts, and within the tokens. The grammar guards its
//! own recursion with [`advanced`]; by these lemmas the guards change no
//! result.

use crate::ast::{ExprView, StmtView, TypeView};
use crate::token::TokenView;
use crate::parser::grammar::{
    advanced, advanced_or_same, annotation, assignment, binary, binary_rest, call_expr,
    call_rest,
    declaration, delimited, elifs, expect, expect_identifier, expression, expression_list,
    field, field_list, finish_call, guarded_block, operator_of, parameter_list, parameters, peek_is,
    primary, return_type, statement, statements, Parsed,
};
use vstd::prelude::*;

verus! {

/// Whether a result, where it is one, lies behind `from` and within the
/// tokens.
pub open spec fn advances<T>(r: Parsed<T>, from: int, tokens: Seq<TokenView>) -> bool {
    r matches Ok((_, p)) ==> from < p <= tokens.len()
}

/// Whether a result, where it is one, lies at `from` or behind it, and
/// within the tokens.
pub open spec fn reaches<T>(r: Parsed<T>, from: int, tokens: Seq<TokenView>) -> bool {
    r matches Ok((_, p)) ==> from <= p <= tokens.len()
}

/// The rest of a chain of binary operations ends no earlier than it starts.
pub proof fn lemma_binary_rest_reaches(tokens: Seq<TokenView>, level: nat, left: ExprView, p: int)
    requires
        0 <= p <= tokens.len(),
    ensures
        reaches(binary_rest(tokens, level, left, p), p, tokens),
    decreases tokens.len() - p,
{
    if p < tokens.len() && level < 4 && operator_of(level, tokens[p])
        is Some {
        if let Ok((right, p2)) = advanced(binary(tokens, level + 1, p + 1), p + 1, tokens) {
            lemma_binary_rest_reaches(
                tokens,
                level,
                ExprView::Binary {
                    left: Box::new(left),
                    operator: operator_of(level, tokens[p])->Some_0,
                    right: Box::new(right),
                },
                p2,
            );
        }
    }
}

/// A list of expressions ends behind where it starts.
pub proof fn lemma_expression_list_advances(
    tokens: Seq<TokenView>,
    before: Seq<ExprView>,
    p: int,
    close: TokenView,
    trailing: bool,
)
    requires
        0 <= p,
    ensures
        advances(expression_list(tokens, before, p, close, trailing), p, tokens),
    decreases tokens.len() - p,
{
    if let Ok((e, p1)) = advanced(expression(tokens, p), p, tokens) {
        if peek_is(tokens, p1, TokenView::Comma) && !(trailing
            && peek_is(tokens, p1 + 1, close)) {
            lemma_expression_list_advances(tokens, before.push(e), p1 + 1, close, trailing);
        }
    }
}

/// A delimited list of expressions ends behind where it starts.
pub proof fn lemma_delimited_advances(
    tokens: Seq<TokenView>,
    p: int,
    close: TokenView,
    trailing: bool,
)
    requires
        0 <= p,
    ensures
        advances(delimited(tokens, p, close, trailing), p, tokens),
{
    lemma_expression_list_advances(tokens, Seq::empty(), p, close, trailing);
}

/// The initializers of a struct end behind where they start.
pub proof fn lemma_field_list_advances(
    tokens: Seq<TokenView>,
    before: Seq<(Seq<char>, ExprView)>,
    p: int,
)
    requires
        0 <= p,
    ensures
        advances(field_list(tokens, before, p), p, tokens),
    decreases tokens.len() - p,
{
    if let Ok((initializer, p1)) = advanced(field(tokens, p), p, tokens) {
        if peek_is(tokens, p1, TokenView::Comma) && !peek_is(
            tokens,
            p1 + 1,
            TokenView::RightBrace,
        ) {
            lemma_field_list_advances(tokens, before.push(initializer), p1 + 1);
        }
    }
}

/// An initializer ends behind where it starts.
pub proof fn lemma_field_advances(tokens: Seq<TokenView>, p: int)
    requires
        0 <= p,
    ensures
        advances(field(tokens, p), p, tokens),
{
    if let Ok((name, p1)) = expect_identifier(tokens, p) {
        if let Ok(p2) = expect(tokens, p1, TokenView::Colon) {
            lemma_expression_advances(tokens, p2);
        }
    }
}

/// A primary expression ends behind where it starts.
pub proof fn lemma_primary_advances(tokens: Seq<TokenView>, p: int)
    requires
        0 <= p,
    ensures
        advances(primary(tokens, p), p, tokens),
{
    if p < tokens.len() {
        lemma_delimited_advances(tokens, p + 1, TokenView::RightBracket, true);
        lemma_field_list_advances(tokens, Seq::empty(), p + 2);
        if let Ok((variant_name, p2)) = expect_identifier(tokens, p + 2) {
            lemma_delimited_advances(tokens, p2 + 1, TokenView::RightParen, true);
        }
    }
}

/// The calls, indexings and field accesses behind an expression end no
/// earlier than they start.
pub proof fn lemma_call_rest_reaches(tokens: Seq<TokenView>, e: ExprView, p: int)
    requires
        0 <= p <= tokens.len(),
    ensures
        reaches(call_rest(tokens, e, p), p, tokens),
    decreases tokens.len() - p,
{
    if peek_is(tokens, p, TokenView::LeftParen) {
        if let Ok((call, p2)) = advanced(finish_call(tokens, e, p + 1), p + 1, tokens) {
            lemma_call_rest_reaches(tokens, call, p2);
        }
    } else if peek_is(tokens, p, TokenView::LeftBracket) {
        if let Ok((index, p2)) = advanced(expression(tokens, p + 1), p + 1, tokens) {
            if let Ok(p3) = expect(tokens, p2, TokenView::RightBracket) {
                lemma_call_rest_reaches(
                    tokens,
                    ExprView::ArrayAccess { array: Box::new(e), index: Box::new(index) },
                    p3,
                );
            }
        }
    } else if peek_is(tokens, p, TokenView::Dot) {
        if let Ok((field, p2)) = expect_identifier(tokens, p + 1) {
            lemma_call_rest_reaches(
                tokens,
                ExprView::StructFieldAccess { object: Box::new(e), field },
                p2,
            );
        }
    }
}

/// A chain of binary operations of any level ends behind where it starts.
pub proof fn lemma_binary_advances(tokens: Seq<TokenView>, level: nat, p: int)
    requires
        0 <= p,
    ensures
        advances(binary(tokens, level, p), p, tokens),
{
    if level >= 4 {
        assert(binary(tokens, level, p) == call_expr(tokens, p));
        if let Ok((e, p1)) = advanced(primary(tokens, p), p, tokens) {
            lemma_call_rest_reaches(tokens, e, p1);
        }
    } else {
        if let Ok((left, p1)) = advanced(binary(tokens, level + 1, p), p, tokens) {
            lemma_binary_rest_reaches(tokens, level, left, p1);
        }
    }
}

/// An expression ends behind where it starts.
pub proof fn lemma_expression_advances(tokens: Seq<TokenView>, p: int)
    requires
        0 <= p,
    ensures
        advances(expression(tokens, p), p, tokens),
        advances(assignment(tokens, p), p, tokens),
    decreases tokens.len() - p,
{
    if let Ok((target, p1)) = advanced(binary(tokens, 0, p), p, tokens) {
        if peek_is(tokens, p1, TokenView::Equals) {
            lemma_expression_advances(tokens, p1 + 1);
        }
    }
}

/// The arguments of a call end behind where they start.
pub proof fn lemma_finish_call_advances(tokens: Seq<TokenView>, callee: ExprView, p: int)
    requires
        0 <= p,
    ensures
        advances(finish_call(tokens, callee, p), p, tokens),
{
    lemma_delimited_advances(tokens, p, TokenView::RightParen, false);
}

/// The parameters of a function end behind where they start.
pub proof fn lemma_parameter_list_advances(
    tokens: Seq<TokenView>,
    before: Seq<(Seq<char>, TypeView)>,
    p: int,
)
    requires
        0 <= p,
    ensures
        advances(parameter_list(tokens, before, p), p, tokens),
    decreases tokens.len() - p,
{
    if let Ok((name, p1)) = expect_identifier(tokens, p) {
        if let Ok((declared, p2)) = annotation(tokens, p1) {
            let all = before.push(
                (
                    name,
                    match declared {
                        Some(t) => t,
                        None => TypeView::Unknown,
                    },
                ),
            );
            if peek_is(tokens, p2, TokenView::Comma)
                && !peek_is(tokens, p2 + 1, TokenView::RightParen) {
                lemma_parameter_list_advances(tokens, all, p2 + 1);
            }
        }
    }
}

/// The parameters of a function, with the closing parenthesis, end behind
/// where they start.
pub proof fn lemma_parameters_advance(tokens: Seq<TokenView>, p: int)
    requires
        0 <= p,
    ensures
        advances(parameters(tokens, p), p, tokens),
{
    lemma_parameter_list_advances(tokens, Seq::empty(), p);
}

/// A block ends behind where it starts: at the least it reads its closing
/// brace.
pub proof fn lemma_statements_advance(tokens: Seq<TokenView>, before: Seq<StmtView>, p: int)
    requires
        0 <= p,
    ensures
        advances(statements(tokens, before, p), p, tokens),
    decreases tokens.len() - p,
{
    if !peek_is(tokens, p, TokenView::RightBrace) && p < tokens.len() {
        if let Ok((Some(s), p1)) = advanced(declaration(tokens, p), p, tokens) {
            lemma_statements_advance(tokens, before.push(s), p1);
        }
    }
}

/// A condition with its block ends behind where it starts.
pub proof fn lemma_guarded_block_advances(tokens: Seq<TokenView>, p: int)
    requires
        0 <= p,
    ensures
        advances(guarded_block(tokens, p), p, tokens),
{
    if let Ok((condition, p1)) = advanced(expression(tokens, p), p, tokens) {
        if let Ok(p2) = expect(tokens, p1, TokenView::LeftBrace) {
            lemma_statements_advance(tokens, Seq::empty(), p2);
        }
    }
}

/// The `elif` branches end no earlier than they start.
pub proof fn lemma_elifs_reach(
    tokens: Seq<TokenView>,
    before: Seq<(ExprView, Seq<StmtView>)>,
    p: int,
)
    requires
        0 <= p <= tokens.len(),
    ensures
        reaches(elifs(tokens, before, p), p, tokens),
    decreases tokens.len() - p,
{
    if peek_is(tokens, p, TokenView::Elif) {
        if let Ok((branch, p1)) = advanced(guarded_block(tokens, p + 1), p + 1, tokens) {
            lemma_elifs_reach(tokens, before.push(branch), p1);
        }
    }
}

/// A statement or declaration, where there is one, ends behind where it
/// starts.
pub proof fn lemma_declaration_advances(tokens: Seq<TokenView>, p: int)
    requires
        0 <= p,
    ensures
        declaration(tokens, p) matches Ok((Some(_), p1)) ==> p < p1 <= tokens.len(),
        statement(tokens, p) matches Ok((Some(_), p1)) ==> p < p1 <= tokens.len(),
{
    if p < tokens.len() {
        // function declaration
        if let Ok((name, p1)) = expect_identifier(tokens, p + 1) {
            if let Ok(p2) = expect(tokens, p1, TokenView::LeftParen) {
                if let Ok((params, p3)) = advanced(parameters(tokens, p2), p2, tokens) {
                    if let Ok((result_type, p4)) = return_type(tokens, p3) {
                        if let Ok(p5) = expect(tokens, p4, TokenView::LeftBrace) {
                            lemma_statements_advance(tokens, Seq::empty(), p5);
                        }
                    }
                }
            }
            // variable declaration
            if let Ok((explicit_type, p2)) = annotation(tokens, p1) {
                if let Ok(p3) = expect(tokens, p2, TokenView::Equals) {
                    lemma_expression_advances(tokens, p3);
                }
            }
            // for
            if let Ok(p2) = expect(tokens, p1, TokenView::In) {
                lemma_guarded_block_advances(tokens, p2);
            }
        }
        // if and while
        lemma_guarded_block_advances(tokens, p + 1);
        if let Ok(((condition, then_branch), p1)) = advanced(
            guarded_block(tokens, p + 1),
            p + 1,
            tokens,
        ) {
            if let Ok((elif_branches, p2)) = advanced_or_same(
                elifs(tokens, Seq::empty(), p1),
                p1,
                tokens,
            ) {
                if let Ok(p3) = expect(tokens, p2 + 1, TokenView::LeftBrace) {
                    lemma_statements_advance(tokens, Seq::empty(), p3);
                }
            }
        }
        // unsafe block and plain block
        lemma_statements_advance(tokens, Seq::empty(), p + 2);
        lemma_statements_advance(tokens, Seq::empty(), p + 1);
        // expression statement
        lemma_expression_advances(tokens, p);
    }
}

/// The guards of the grammar change no result: what a production yields
/// lies behind its start already.
pub proof fn lemma_guards_change_nothing(tokens: Seq<TokenView>, p: int, level: nat, e: ExprView)
    requires
        0 <= p,
    ensures
        advanced(expression(tokens, p), p, tokens) == expression(tokens, p),
        advanced(binary(tokens, level, p), p, tokens) == binary(tokens, level, p),
        advanced(primary(tokens, p), p, tokens) == primary(tokens, p),
        advanced(field(tokens, p), p, tokens) == field(tokens, p),
        advanced(finish_call(tokens, e, p), p, tokens) == finish_call(tokens, e, p),
        advanced(guarded_block(tokens, p), p, tokens) == guarded_block(tokens, p),
        advanced(parameters(tokens, p), p, tokens) == parameters(tokens, p),
        p <= tokens.len() ==> advanced_or_same(elifs(tokens, Seq::empty(), p), p, tokens) == elifs(
            tokens,
            Seq::empty(),
            p,
        ),
        !(declaration(tokens, p) matches Ok((None, _))) ==> advanced(
            declaration(tokens, p),
            p,
            tokens,
        ) == declaration(tokens, p),
{
    lemma_expression_advances(tokens, p);
    lemma_binary_advances(tokens, level, p);
    lemma_primary_advances(tokens, p);
    lemma_field_advances(tokens, p);
    lemma_finish_call_advances(tokens, e, p);
    lemma_guarded_block_advances(tokens, p);
    lemma_parameters_advance(tokens, p);
    if p <= tokens.len() {
        lemma_elifs_reach(tokens, Seq::empty(), p);
    }
    lemma_declaration_advances(tokens, p);
}

} // verus!
