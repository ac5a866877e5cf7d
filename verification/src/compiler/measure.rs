//! The measuring pass: the number of instructions that a tree lowers to,
//! computed before anything is emitted, so that forward jumps can be
//! emitted with their targets.

use crate::ast::{
    elif_views, expr_views, field_views, stmt_views, ExprView, Expression, Function, Literal,
    Statement,
};
use crate::compiler::builtin_of;
use crate::compiler::lowering::{
    bindings_size, elifs_size, expr_size, exprs_size, fields_size, stmt_size,
    stmts_size,
};
use crate::text::{chars_of, unquote_literal};
use vstd::prelude::*;

verus! {

/// Whether `size` is the number `n`, or absent because `n` does not fit in
/// a machine word.
pub open spec fn measured(size: Option<usize>, n: nat) -> bool {
    match size {
        Some(k) => k == n,
        None => n > usize::MAX,
    }
}

/// The number of instructions that the expression lowers to.
pub(crate) fn measure_expression(expr: &Expression) -> (size: Option<usize>)
    ensures
        measured(size, expr_size(expr@)),
    decreases expr,
{
    match expr {
        Expression::Literal(_) => Some(1),
        Expression::Variable(_) => Some(1),
        Expression::VariableDeclaration { .. } => Some(0),
        Expression::Binary { left, right, .. } => {
            let l = measure_expression(left)?;
            let r = measure_expression(right)?;
            l.checked_add(r)?.checked_add(1)
        },
        Expression::Call { name, arguments } => {
            let own: usize = if builtin_of(name).is_some() {
                1
            } else {
                2
            };
            measure_expressions(arguments)?.checked_add(own)
        },
        Expression::FormatCall { arguments, .. } => measure_expressions(arguments)?.checked_add(4),
        Expression::ArrayLiteral(elements) => {
            measure_expressions(elements)?.checked_add(elements.len())?.checked_add(1)
        },
        Expression::ArrayAccess { array, index } => {
            let a = measure_expression(array)?;
            let i = measure_expression(index)?;
            a.checked_add(i)?.checked_add(3)
        },
        Expression::ArrayAssignment { .. } => Some(0),
        Expression::StructDefinition { .. } => Some(1),
        Expression::StructInitialization { fields, .. } => {
            measure_fields(fields)?.checked_add(fields.len())?.checked_add(1)
        },
        Expression::StructFieldAccess { object, .. } => measure_expression(object)?.checked_add(2),
        Expression::StructFieldAssignment { .. } => Some(0),
        Expression::EnumVariantCreation { values, .. } => {
            measure_expressions(values)?.checked_add(values.len())?.checked_add(1)
        },
        Expression::EnumMatch { .. } => Some(1),
    }
}

/// The sizes of the rest of a sequence of expressions are no larger than
/// the sizes of all of them.
pub(crate) proof fn lemma_exprs_size_skip(es: Seq<ExprView>, i: int)
    requires
        0 <= i < es.len(),
    ensures
        exprs_size(es.skip(i)) == expr_size(es[i]) + exprs_size(es.skip(i + 1)),
{
    assert(es.skip(i).skip(1) == es.skip(i + 1));
}

/// The number of instructions that the expressions lower to, together.
#[verifier::loop_isolation(false)]
pub(crate) fn measure_expressions(expressions: &Vec<Expression>) -> (size: Option<usize>)
    ensures
        measured(size, exprs_size(expr_views(expressions@))),
    decreases expressions,
{
    let ghost es = expr_views(expressions@);
    let mut total: usize = 0;
    let mut i: usize = 0;
    proof {
        assert(es.skip(0) == es);
    }
    while i < expressions.len()
        invariant
            i <= expressions.len(),
            total + exprs_size(es.skip(i as int)) == exprs_size(es),
        decreases expressions.len() - i,
    {
        proof {
            lemma_exprs_size_skip(es, i as int);
        }
        let one = measure_expression(&expressions[i])?;
        total = total.checked_add(one)?;
        i += 1;
    }
    Some(total)
}

/// The number of instructions that the initializers lower to, together.
#[verifier::loop_isolation(false)]
pub(crate) fn measure_fields(fields: &Vec<(String, Expression)>) -> (size: Option<usize>)
    ensures
        measured(size, fields_size(field_views(fields@))),
    decreases fields,
{
    let ghost fs = field_views(fields@);
    let mut total: usize = 0;
    let mut i: usize = 0;
    proof {
        assert(fs.skip(0) == fs);
    }
    while i < fields.len()
        invariant
            i <= fields.len(),
            total + fields_size(fs.skip(i as int)) == fields_size(fs),
        decreases fields.len() - i,
    {
        proof {
            assert(fs.skip(i as int).skip(1) == fs.skip(i as int + 1));
        }
        let one = measure_expression(&fields[i].1)?;
        total = total.checked_add(one)?;
        i += 1;
    }
    Some(total)
}

/// The number of instructions that bind the elements of the iterable.
pub(crate) fn measure_bindings(iterable: &Expression) -> (size: Option<usize>)
    ensures
        measured(size, bindings_size(iterable@)),
{
    match iterable {
        Expression::ArrayLiteral(elements) => {
            let own = measure_expressions(elements)?;
            let extra = elements.len().checked_mul(5)?;
            own.checked_add(extra)
        },
        Expression::Literal(Literal::String(raw)) => {
            let text = unquote_literal(raw.as_str());
            let chars = chars_of(text.as_str());
            chars.len().checked_mul(6)
        },
        _ => Some(0),
    }
}

/// The number of instructions that the statement lowers to.
pub(crate) fn measure_statement(stmt: &Statement) -> (size: Option<usize>)
    ensures
        measured(size, stmt_size(stmt@)),
    decreases stmt,
{
    match stmt {
        Statement::Expression(e) => measure_expression(e)?.checked_add(1),
        Statement::VariableDeclaration { value, .. } => measure_expression(value)?.checked_add(1),
        Statement::Block(body) => measure_statements(body),
        Statement::Function(_) => Some(0),
        Statement::If { condition, then_branch, elif_branches, else_branch } => {
            let c = measure_expression(condition)?;
            let t = measure_statements(then_branch)?;
            let elifs = measure_elifs(elif_branches)?;
            let last = match else_branch {
                Some(body) => measure_statements(body)?,
                None => 0,
            };
            c.checked_add(t)?.checked_add(2)?.checked_add(elifs)?.checked_add(last)
        },
        Statement::While { condition, body } => {
            let c = measure_expression(condition)?;
            let b = measure_statements(body)?;
            c.checked_add(b)?.checked_add(2)
        },
        Statement::For { iterable, body, .. } => {
            let bindings = measure_bindings(iterable)?;
            let b = measure_statements(body)?;
            bindings.checked_add(b)?.checked_add(11)
        },
        Statement::Break => Some(1),
        Statement::Continue => Some(1),
        Statement::UnsafeBlock(body) => measure_statements(body),
        Statement::Import(_) => Some(0),
        Statement::ImportAs(_, _) => Some(0),
    }
}

/// The number of instructions that the statements lower to, together.
#[verifier::loop_isolation(false)]
pub(crate) fn measure_statements(statements: &Vec<Statement>) -> (size: Option<usize>)
    ensures
        measured(size, stmts_size(stmt_views(statements@))),
    decreases statements,
{
    let ghost ss = stmt_views(statements@);
    let mut total: usize = 0;
    let mut i: usize = 0;
    proof {
        assert(ss.skip(0) == ss);
    }
    while i < statements.len()
        invariant
            i <= statements.len(),
            total + stmts_size(ss.skip(i as int)) == stmts_size(ss),
        decreases statements.len() - i,
    {
        proof {
            assert(ss.skip(i as int).skip(1) == ss.skip(i as int + 1));
        }
        let one = measure_statement(&statements[i])?;
        total = total.checked_add(one)?;
        i += 1;
    }
    Some(total)
}

/// The number of instructions that the `elif` branches lower to, together.
#[verifier::loop_isolation(false)]
pub(crate) fn measure_elifs(branches: &Vec<(Expression, Vec<Statement>)>) -> (size: Option<usize>)
    ensures
        measured(size, elifs_size(elif_views(branches@))),
    decreases branches,
{
    let ghost bs = elif_views(branches@);
    let mut total: usize = 0;
    let mut i: usize = 0;
    proof {
        assert(bs.skip(0) == bs);
    }
    while i < branches.len()
        invariant
            i <= branches.len(),
            total + elifs_size(bs.skip(i as int)) == elifs_size(bs),
        decreases branches.len() - i,
    {
        proof {
            assert(bs.skip(i as int).skip(1) == bs.skip(i as int + 1));
        }
        let c = measure_expression(&branches[i].0)?;
        let b = measure_statements(&branches[i].1)?;
        total = total.checked_add(c)?.checked_add(b)?.checked_add(2)?;
        i += 1;
    }
    Some(total)
}

} // verus!
