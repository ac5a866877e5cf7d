//! Analysis of trees for code generators: which functions call a builtin.

use crate::ast::{
    elif_views, lemma_elif_views, stmt_views, ExprView, Expression, Function, FunctionView,
    Statement, StmtView,
};
use vstd::prelude::*;

verus! {

/// Whether the name is that of a builtin.
pub open spec fn is_builtin_name(name: Seq<char>) -> bool {
    name == "print"@ || name == "puts"@
}

/// Whether the expression calls a builtin: it is such a call, or a binary
/// operation with an operand that calls one.
pub open spec fn expr_calls_builtin(e: ExprView) -> bool
    decreases e,
{
    match e {
        ExprView::Call { name, .. } => is_builtin_name(name),
        ExprView::FormatCall { name, .. } => is_builtin_name(name),
        ExprView::Binary { left, right, .. } => expr_calls_builtin(*left) || expr_calls_builtin(
            *right,
        ),
        _ => false,
    }
}

/// Whether the statement calls a builtin, in one of its expressions or in
/// a statement inside it.
pub open spec fn stmt_calls_builtin(s: StmtView) -> bool
    decreases s,
{
    match s {
        StmtView::Expression(e) => expr_calls_builtin(e),
        StmtView::VariableDeclaration { value, .. } => expr_calls_builtin(value),
        StmtView::Block(body) => stmts_call_builtin(body),
        StmtView::Function(f) => stmts_call_builtin(f.body),
        StmtView::If { condition, then_branch, elif_branches, else_branch } => expr_calls_builtin(
            condition,
        ) || stmts_call_builtin(then_branch) || elifs_call_builtin(elif_branches) || match else_branch {
            Some(body) => stmts_call_builtin(body),
            None => false,
        },
        StmtView::While { condition, body } => expr_calls_builtin(condition) || stmts_call_builtin(
            body,
        ),
        StmtView::For { iterable, body, .. } => expr_calls_builtin(iterable) || stmts_call_builtin(
            body,
        ),
        StmtView::UnsafeBlock(body) => stmts_call_builtin(body),
        _ => false,
    }
}

/// Whether one of the statements calls a builtin.
pub open spec fn stmts_call_builtin(ss: Seq<StmtView>) -> bool
    decreases ss,
{
    exists|i: int| 0 <= i < ss.len() && stmt_calls_builtin(#[trigger] ss[i])
}

/// Whether one of the `elif` branches calls a builtin, in its condition or
/// in its body.
pub open spec fn elifs_call_builtin(branches: Seq<(ExprView, Seq<StmtView>)>) -> bool
    decreases branches,
{
    exists|i: int|
        0 <= i < branches.len() && (expr_calls_builtin((#[trigger] branches[i]).0)
            || stmts_call_builtin(branches[i].1))
}

/// Whether the function calls a builtin.
pub open spec fn function_calls_builtin(f: FunctionView) -> bool {
    stmts_call_builtin(f.body)
}

/// Whether the expression calls a builtin.
pub fn expression_has_builtin_call(expr: &Expression) -> (found: bool)
    ensures
        found == expr_calls_builtin(expr@),
    decreases expr,
{
    match expr {
        Expression::Call { name, .. } => is_builtin(name),
        Expression::FormatCall { name, .. } => is_builtin(name),
        Expression::Binary { left, right, .. } => expression_has_builtin_call(left)
            || expression_has_builtin_call(right),
        _ => false,
    }
}

/// Whether the name is that of a builtin.
fn is_builtin(name: &String) -> (found: bool)
    ensures
        found == is_builtin_name(name@),
{
    *name == String::from_str("print") || *name == String::from_str("puts")
}

/// Whether one of the statements calls a builtin.
#[verifier::loop_isolation(false)]
pub fn statements_have_builtin_call(statements: &Vec<Statement>) -> (found: bool)
    ensures
        found == stmts_call_builtin(stmt_views(statements@)),
    decreases statements, 1nat,
{
    let mut i: usize = 0;
    while i < statements.len()
        invariant
            i <= statements.len(),
            forall|j: int| 0 <= j < i ==> !stmt_calls_builtin(#[trigger] stmt_views(statements@)[j]),
        decreases statements.len() - i,
    {
        if statement_has_builtin_call(&statements[i]) {
            proof {
                assert(stmt_calls_builtin(stmt_views(statements@)[i as int]));
            }
            return true;
        }
        i += 1;
    }
    false
}

/// Whether the statement calls a builtin.
#[verifier::loop_isolation(false)]
pub fn statement_has_builtin_call(stmt: &Statement) -> (found: bool)
    ensures
        found == stmt_calls_builtin(stmt@),
    decreases stmt, 0nat,
{
    match stmt {
        Statement::Expression(expr) => expression_has_builtin_call(expr),
        Statement::Block(statements) => statements_have_builtin_call(statements),
        Statement::VariableDeclaration { value, .. } => expression_has_builtin_call(value),
        Statement::Function(nested) => statements_have_builtin_call(&nested.body),
        Statement::If { condition, then_branch, elif_branches, else_branch } => {
            if expression_has_builtin_call(condition) {
                return true;
            }
            if statements_have_builtin_call(then_branch) {
                return true;
            }
            proof {
                lemma_elif_views(elif_branches@);
            }
            let mut i: usize = 0;
            while i < elif_branches.len()
                invariant
                    i <= elif_branches.len(),
                    forall|j: int|
                        0 <= j < i ==> !(expr_calls_builtin(
                            (#[trigger] elif_views(elif_branches@)[j]).0,
                        ) || stmts_call_builtin(elif_views(elif_branches@)[j].1)),
                decreases elif_branches.len() - i,
            {
                if expression_has_builtin_call(&elif_branches[i].0) {
                    proof {
                        assert(expr_calls_builtin(elif_views(elif_branches@)[i as int].0));
                    }
                    return true;
                }
                if statements_have_builtin_call(&elif_branches[i].1) {
                    return true;
                }
                i += 1;
            }
            match else_branch {
                Some(body) => statements_have_builtin_call(body),
                None => false,
            }
        },
        Statement::While { condition, body } => {
            expression_has_builtin_call(condition) || statements_have_builtin_call(body)
        },
        Statement::For { iterable, body, .. } => {
            expression_has_builtin_call(iterable) || statements_have_builtin_call(body)
        },
        Statement::Break => false,
        Statement::Continue => false,
        Statement::UnsafeBlock(statements) => statements_have_builtin_call(statements),
        Statement::Import(_) => false,
        Statement::ImportAs(_, _) => false,
    }
}

/// Whether the function calls a builtin.
pub fn function_has_builtin_calls(func: &Function) -> (found: bool)
    ensures
        found == function_calls_builtin(func@),
{
    statements_have_builtin_call(&func.body)
}

} // verus!
