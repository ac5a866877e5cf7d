//! Stack discipline: the code of an expression leaves exactly one value on
//! the operand stack, and the code of a statement leaves the stack as deep
//! as it found it. The depth is counted along the emitted code, instruction
//! by instruction; that this is the depth along every path through the
//! code, and that it is nowhere less than at the start, is shown in
//! [`crate::compiler::paths`].

use crate::ast::{ExprView, LiteralView, StmtView};
use crate::bytecode::InstrView;
use crate::compiler::lowering::{
    builtin_id, cursor_name, emit_bindings, emit_branch, emit_char_bindings, emit_discarded,
    emit_element_bindings, emit_elifs, emit_expr, emit_exprs, emit_fields, emit_for_head,
    emit_stmt, emit_stmts, expr_size, fits, iterable_count, stmt_size, stmts_size,
    CompilerView, LoopTargets, Lowered,
};
use crate::text::unquote;
use crate::value::ValueView;
use vstd::prelude::*;

verus! {

/// Whether the code emitted from `st` to `after` changes the simulated
/// depth of the operand stack by `by`.
pub open spec fn deeper(st: CompilerView, after: CompilerView, by: int) -> bool {
    after.depth == st.depth + by
}

/// Whether a lowering, where it succeeds, changes the simulated depth of
/// the operand stack by `by`.
pub open spec fn deepens(st: CompilerView, r: Lowered, by: int) -> bool {
    r matches Ok(after) ==> deeper(st, after, by)
}

/// Stack discipline of expressions: the code that an expression lowers to
/// leaves the operand stack exactly one deeper than it found it.
pub proof fn lemma_expr_depth(st: CompilerView, e: ExprView)
    ensures
        deepens(st, emit_expr(st, e), 1),
    decreases e,
{
    match e {
        ExprView::Binary { left, operator, right } => {
            lemma_expr_depth(st, *left);
            if let Ok(st1) = emit_expr(st, *left) {
                lemma_expr_depth(st1, *right);
            }
        },
        ExprView::Call { name, arguments } => {
            if builtin_id(name) is Some {
                if arguments.len() == 1 {
                    lemma_expr_depth(st, arguments[0]);
                }
            } else {
                lemma_exprs_depth(st, arguments);
            }
        },
        ExprView::FormatCall { name, format_string, arguments } => {
            lemma_exprs_depth(st.load(ValueView::String(unquote(format_string))), arguments);
        },
        ExprView::ArrayLiteral(elements) => {
            lemma_discarded_depth(st, elements);
        },
        ExprView::ArrayAccess { array, index } => {
            lemma_expr_depth(st, *array);
            if let Ok(st1) = emit_expr(st, *array) {
                lemma_expr_depth(st1.emit(InstrView::Pop), *index);
            }
        },
        ExprView::StructInitialization { fields, .. } => {
            lemma_fields_depth(st, fields);
        },
        ExprView::StructFieldAccess { object, .. } => {
            lemma_expr_depth(st, *object);
        },
        ExprView::EnumVariantCreation { values, .. } => {
            lemma_discarded_depth(st, values);
        },
        _ => {},
    }
}

/// Expressions that are lowered in order leave one value each.
pub proof fn lemma_exprs_depth(st: CompilerView, es: Seq<ExprView>)
    ensures
        deepens(st, emit_exprs(st, es), es.len() as int),
    decreases es,
{
    if es.len() > 0 {
        lemma_expr_depth(st, es[0]);
        if let Ok(next) = emit_expr(st, es[0]) {
            lemma_exprs_depth(next, es.skip(1));
        }
    }
}

/// Expressions that are lowered and popped leave nothing.
pub proof fn lemma_discarded_depth(st: CompilerView, es: Seq<ExprView>)
    ensures
        deepens(st, emit_discarded(st, es), 0),
    decreases es,
{
    if es.len() > 0 {
        lemma_expr_depth(st, es[0]);
        if let Ok(next) = emit_expr(st, es[0]) {
            lemma_discarded_depth(next.emit(InstrView::Pop), es.skip(1));
        }
    }
}

/// Initializers that are lowered and popped leave nothing.
pub proof fn lemma_fields_depth(st: CompilerView, fields: Seq<(Seq<char>, ExprView)>)
    ensures
        deepens(st, emit_fields(st, fields), 0),
    decreases fields,
{
    if fields.len() > 0 {
        lemma_expr_depth(st, fields[0].1);
        if let Ok(next) = emit_expr(st, fields[0].1) {
            lemma_fields_depth(next.emit(InstrView::Pop), fields.skip(1));
        }
    }
}

/// The bindings of the elements of an array literal leave nothing.
pub proof fn lemma_element_bindings_depth(
    st: CompilerView,
    cursor: Seq<char>,
    variable: Seq<char>,
    es: Seq<ExprView>,
    index: int,
)
    ensures
        deepens(st, emit_element_bindings(st, cursor, variable, es, index), 0),
    decreases es,
{
    if es.len() > 0 {
        let tested = st.emit(InstrView::LoadGlobal(cursor)).load(
            ValueView::Integer(index as i64),
        ).emit(InstrView::Eq);
        let next = (tested.code.len() + expr_size(es[0]) + 2) as usize;
        let jumped = tested.emit(InstrView::JumpIfFalse(next));
        lemma_expr_depth(jumped, es[0]);
        if let Ok(bound) = emit_expr(jumped, es[0]) {
            lemma_element_bindings_depth(
                bound.emit(InstrView::StoreGlobal(variable)),
                cursor,
                variable,
                es.skip(1),
                index + 1,
            );
        }
    }
}

/// The bindings of the characters of a string literal leave nothing.
pub proof fn lemma_char_bindings_depth(
    st: CompilerView,
    cursor: Seq<char>,
    variable: Seq<char>,
    chars: Seq<char>,
    index: int,
)
    ensures
        deeper(st, emit_char_bindings(st, cursor, variable, chars, index), 0),
    decreases chars.len(),
{
    if chars.len() > 0 {
        let tested = st.emit(InstrView::LoadGlobal(cursor)).load(
            ValueView::Integer(index as i64),
        ).emit(InstrView::Eq);
        let next = (tested.code.len() + 3) as usize;
        lemma_char_bindings_depth(
            tested.emit(InstrView::JumpIfFalse(next)).load(ValueView::String(seq![chars[0]])).emit(
                InstrView::StoreGlobal(variable),
            ),
            cursor,
            variable,
            chars.skip(1),
            index + 1,
        );
    }
}

/// Stack discipline of statements: the code that a statement lowers to
/// leaves the operand stack exactly as deep as it found it.
pub proof fn lemma_stmt_depth(st: CompilerView, s: StmtView, targets: Option<LoopTargets>)
    ensures
        deepens(st, emit_stmt(st, s, targets), 0),
    decreases s, 0nat,
{
    match s {
        StmtView::Expression(e) => {
            lemma_expr_depth(st, e);
        },
        StmtView::VariableDeclaration { value, .. } => {
            lemma_expr_depth(st, value);
        },
        StmtView::Block(body) => {
            lemma_stmts_depth(st, body, targets);
        },
        StmtView::UnsafeBlock(body) => {
            lemma_stmts_depth(st, body, targets);
        },
        StmtView::If { condition, then_branch, elif_branches, else_branch } => {
            if fits(st, stmt_size(s)) {
                let end = (st.code.len() + stmt_size(s)) as usize;
                lemma_branch_depth(st, condition, then_branch, end, targets);
                if let Ok(st1) = emit_branch(st, condition, then_branch, end, targets) {
                    lemma_elifs_depth(st1, elif_branches, end, targets);
                    if let Ok(st2) = emit_elifs(st1, elif_branches, end, targets) {
                        if let Some(body) = else_branch {
                            lemma_stmts_depth(st2, body, targets);
                        }
                    }
                }
            }
        },
        StmtView::While { condition, body } => {
            if fits(st, stmt_size(s)) {
                let head = st.code.len() as usize;
                let end = (st.code.len() + stmt_size(s)) as usize;
                lemma_expr_depth(st, condition);
                if let Ok(tested) = emit_expr(st, condition) {
                    lemma_stmts_depth(
                        tested.emit(InstrView::JumpIfFalse(end)),
                        body,
                        Some(LoopTargets { continue_target: head, break_target: end }),
                    );
                }
            }
        },
        StmtView::For { variable, iterable, body } => {
            if let Some(count) = iterable_count(iterable) {
                if fits(st, stmt_size(s)) && count <= i64::MAX {
                    let cursor = cursor_name(st.code.len());
                    let end = (st.code.len() + stmt_size(s)) as usize;
                    let step = (end - 5) as usize;
                    let headed = emit_for_head(st, cursor, count, end);
                    match iterable {
                        ExprView::ArrayLiteral(elements) => {
                            lemma_element_bindings_depth(headed, cursor, variable, elements, 0);
                        },
                        ExprView::Literal(LiteralView::String(raw)) => {
                            lemma_char_bindings_depth(headed, cursor, variable, unquote(raw), 0);
                        },
                        _ => {},
                    }
                    if let Ok(bound) = emit_bindings(headed, cursor, variable, iterable) {
                        lemma_stmts_depth(
                            bound,
                            body,
                            Some(LoopTargets { continue_target: step, break_target: end }),
                        );
                    }
                }
            }
        },
        _ => {},
    }
}

/// Statements that are lowered in order leave nothing.
pub proof fn lemma_stmts_depth(st: CompilerView, ss: Seq<StmtView>, targets: Option<LoopTargets>)
    ensures
        deepens(st, emit_stmts(st, ss, targets), 0),
    decreases ss, 0nat,
{
    if ss.len() > 0 {
        lemma_stmt_depth(st, ss[0], targets);
        if let Ok(next) = emit_stmt(st, ss[0], targets) {
            lemma_stmts_depth(next, ss.skip(1), targets);
        }
    }
}

/// A branch of an `if` leaves nothing.
pub proof fn lemma_branch_depth(
    st: CompilerView,
    condition: ExprView,
    body: Seq<StmtView>,
    end: usize,
    targets: Option<LoopTargets>,
)
    ensures
        deepens(st, emit_branch(st, condition, body, end, targets), 0),
    decreases body, 1nat,
{
    lemma_expr_depth(st, condition);
    if let Ok(tested) = emit_expr(st, condition) {
        let next = (tested.code.len() + stmts_size(body) + 2) as usize;
        lemma_stmts_depth(tested.emit(InstrView::JumpIfFalse(next)), body, targets);
    }
}

/// The `elif` branches of an `if` leave nothing.
pub proof fn lemma_elifs_depth(
    st: CompilerView,
    branches: Seq<(ExprView, Seq<StmtView>)>,
    end: usize,
    targets: Option<LoopTargets>,
)
    ensures
        deepens(st, emit_elifs(st, branches, end, targets), 0),
    decreases branches, 0nat,
{
    if branches.len() > 0 {
        lemma_branch_depth(st, branches[0].0, branches[0].1, end, targets);
        if let Ok(next) = emit_branch(st, branches[0].0, branches[0].1, end, targets) {
            lemma_elifs_depth(next, branches.skip(1), end, targets);
        }
    }
}

} // verus!
