//! The layout of the emitted code: every lowering appends exactly as many
//! instructions as its size says and changes nothing that was emitted
//! before. Jump targets and function entries, which are computed from
//! sizes, therefore point where they are meant to.

use crate::ast::{ExprView, FunctionView, LiteralView, StmtView, TypeView};
use crate::bytecode::InstrView;
use crate::compiler::lowering::{
    builtin_id, cursor_name, declare_from, elifs_size, emit_bindings, emit_branch,
    emit_char_bindings, emit_discarded, emit_element_bindings, emit_elifs, emit_expr, emit_exprs,
    emit_fields, emit_for_head, emit_function, emit_functions, emit_parameters, emit_stmt,
    emit_stmts,
    expr_size, exprs_size, fields_size, fits, function_size, iterable_count, stmt_size,
    stmts_size, CompilerView, Lowered, LoopTargets,
};
use crate::compiler::EntryView;
use crate::text::unquote;
use crate::value::ValueView;
use vstd::prelude::*;

verus! {

/// Whether `after` is `st` with exactly `size` instructions and some
/// constants appended, and the same function table.
pub open spec fn extends(st: CompilerView, after: CompilerView, size: nat) -> bool {
    &&& after.code.len() == st.code.len() + size
    &&& forall|i: int| 0 <= i < st.code.len() ==> #[trigger] after.code[i] == st.code[i]
    &&& after.constants.len() >= st.constants.len()
    &&& forall|i: int|
        0 <= i < st.constants.len() ==> #[trigger] after.constants[i] == st.constants[i]
    &&& after.functions == st.functions
}

/// Whether a lowering, where it succeeds, appends exactly `size`
/// instructions and changes nothing that was there.
pub open spec fn appends(st: CompilerView, r: Lowered, size: nat) -> bool {
    r matches Ok(after) ==> extends(st, after, size)
}

/// An expression that is lowered appends as many instructions as its size
/// says, and changes nothing that was emitted before.
pub proof fn lemma_expr_appends(st: CompilerView, e: ExprView)
    ensures
        appends(st, emit_expr(st, e), expr_size(e)),
    decreases e,
{
    match e {
        ExprView::Binary { left, operator, right } => {
            lemma_expr_appends(st, *left);
            if let Ok(st1) = emit_expr(st, *left) {
                lemma_expr_appends(st1, *right);
            }
        },
        ExprView::Call { name, arguments } => {
            if builtin_id(name) is Some {
                if arguments.len() == 1 {
                    lemma_expr_appends(st, arguments[0]);
                    assert(exprs_size(arguments) == expr_size(arguments[0]) + exprs_size(
                        arguments.skip(1),
                    ));
                }
            } else {
                lemma_exprs_appends(st, arguments);
            }
        },
        ExprView::FormatCall { name, format_string, arguments } => {
            lemma_exprs_appends(st.load(ValueView::String(unquote(format_string))), arguments);
        },
        ExprView::ArrayLiteral(elements) => {
            lemma_discarded_appends(st, elements);
        },
        ExprView::ArrayAccess { array, index } => {
            lemma_expr_appends(st, *array);
            if let Ok(st1) = emit_expr(st, *array) {
                lemma_expr_appends(st1.emit(InstrView::Pop), *index);
            }
        },
        ExprView::StructInitialization { fields, .. } => {
            lemma_fields_appends(st, fields);
        },
        ExprView::StructFieldAccess { object, .. } => {
            lemma_expr_appends(st, *object);
        },
        ExprView::EnumVariantCreation { values, .. } => {
            lemma_discarded_appends(st, values);
        },
        _ => {},
    }
}

/// Expressions that are lowered in order append as many instructions as
/// their sizes say together.
pub proof fn lemma_exprs_appends(st: CompilerView, es: Seq<ExprView>)
    ensures
        appends(st, emit_exprs(st, es), exprs_size(es)),
    decreases es,
{
    if es.len() > 0 {
        lemma_expr_appends(st, es[0]);
        if let Ok(next) = emit_expr(st, es[0]) {
            lemma_exprs_appends(next, es.skip(1));
        }
    }
}

/// Expressions that are lowered and popped in order append as many
/// instructions as their sizes say together, and one more for each.
pub proof fn lemma_discarded_appends(st: CompilerView, es: Seq<ExprView>)
    ensures
        appends(st, emit_discarded(st, es), exprs_size(es) + es.len()),
    decreases es,
{
    if es.len() > 0 {
        lemma_expr_appends(st, es[0]);
        if let Ok(next) = emit_expr(st, es[0]) {
            lemma_discarded_appends(next.emit(InstrView::Pop), es.skip(1));
        }
    }
}

/// Initializers that are lowered and popped in order append as many
/// instructions as their sizes say together, and one more for each.
pub proof fn lemma_fields_appends(st: CompilerView, fields: Seq<(Seq<char>, ExprView)>)
    ensures
        appends(st, emit_fields(st, fields), fields_size(fields) + fields.len()),
    decreases fields,
{
    if fields.len() > 0 {
        lemma_expr_appends(st, fields[0].1);
        if let Ok(next) = emit_expr(st, fields[0].1) {
            lemma_fields_appends(next.emit(InstrView::Pop), fields.skip(1));
        }
    }
}

/// The bindings of the elements of an array literal append five
/// instructions for each element besides the elements' own.
pub proof fn lemma_element_bindings_appends(
    st: CompilerView,
    cursor: Seq<char>,
    variable: Seq<char>,
    es: Seq<ExprView>,
    index: int,
)
    ensures
        appends(
            st,
            emit_element_bindings(st, cursor, variable, es, index),
            exprs_size(es) + 5 * es.len(),
        ),
    decreases es,
{
    if es.len() > 0 {
        let tested = st.emit(InstrView::LoadGlobal(cursor)).load(
            ValueView::Integer(index as i64),
        ).emit(InstrView::Eq);
        let next = (tested.code.len() + expr_size(es[0]) + 2) as usize;
        let jumped = tested.emit(InstrView::JumpIfFalse(next));
        lemma_expr_appends(jumped, es[0]);
        if let Ok(bound) = emit_expr(jumped, es[0]) {
            lemma_element_bindings_appends(
                bound.emit(InstrView::StoreGlobal(variable)),
                cursor,
                variable,
                es.skip(1),
                index + 1,
            );
        }
    }
}

/// The bindings of the characters of a string literal append six
/// instructions for each character.
pub proof fn lemma_char_bindings_extends(
    st: CompilerView,
    cursor: Seq<char>,
    variable: Seq<char>,
    chars: Seq<char>,
    index: int,
)
    ensures
        extends(st, emit_char_bindings(st, cursor, variable, chars, index), 6 * chars.len()),
    decreases chars.len(),
{
    if chars.len() > 0 {
        let tested = st.emit(InstrView::LoadGlobal(cursor)).load(
            ValueView::Integer(index as i64),
        ).emit(InstrView::Eq);
        let next = (tested.code.len() + 3) as usize;
        lemma_char_bindings_extends(
            tested.emit(InstrView::JumpIfFalse(next)).load(ValueView::String(seq![chars[0]])).emit(
                InstrView::StoreGlobal(variable),
            ),
            cursor,
            variable,
            chars.skip(1),
            index + 1,
        );
    }
}

/// A statement that is lowered appends as many instructions as its size
/// says, and changes nothing that was emitted before.
pub proof fn lemma_stmt_appends(st: CompilerView, s: StmtView, targets: Option<LoopTargets>)
    ensures
        appends(st, emit_stmt(st, s, targets), stmt_size(s)),
    decreases s, 0nat,
{
    match s {
        StmtView::Expression(e) => {
            lemma_expr_appends(st, e);
        },
        StmtView::VariableDeclaration { value, .. } => {
            lemma_expr_appends(st, value);
        },
        StmtView::Block(body) => {
            lemma_stmts_appends(st, body, targets);
        },
        StmtView::UnsafeBlock(body) => {
            lemma_stmts_appends(st, body, targets);
        },
        StmtView::If { condition, then_branch, elif_branches, else_branch } => {
            if fits(st, stmt_size(s)) {
                let end = (st.code.len() + stmt_size(s)) as usize;
                lemma_branch_appends(st, condition, then_branch, end, targets);
                if let Ok(st1) = emit_branch(st, condition, then_branch, end, targets) {
                    lemma_elifs_appends(st1, elif_branches, end, targets);
                    if let Ok(st2) = emit_elifs(st1, elif_branches, end, targets) {
                        if let Some(body) = else_branch {
                            lemma_stmts_appends(st2, body, targets);
                        }
                    }
                }
            }
        },
        StmtView::While { condition, body } => {
            if fits(st, stmt_size(s)) {
                let head = st.code.len() as usize;
                let end = (st.code.len() + stmt_size(s)) as usize;
                lemma_expr_appends(st, condition);
                if let Ok(tested) = emit_expr(st, condition) {
                    lemma_stmts_appends(
                        tested.emit(InstrView::JumpIfFalse(end)),
                        body,
                        Some(LoopTargets { continue_target: head, break_target: end }),
                    );
                }
            }
        },
        StmtView::For { variable, iterable, body } => {
            if let Some(count) = iterable_count(iterable) {
                if fits(st, stmt_size(s)) && count <= i64::MAX {
                    let cursor = cursor_name(st.code.len());
                    let end = (st.code.len() + stmt_size(s)) as usize;
                    let step = (end - 5) as usize;
                    let headed = emit_for_head(st, cursor, count, end);
                    match iterable {
                        ExprView::ArrayLiteral(elements) => {
                            lemma_element_bindings_appends(headed, cursor, variable, elements, 0);
                        },
                        ExprView::Literal(LiteralView::String(raw)) => {
                            lemma_char_bindings_extends(headed, cursor, variable, unquote(raw), 0);
                        },
                        _ => {},
                    }
                    if let Ok(bound) = emit_bindings(headed, cursor, variable, iterable) {
                        lemma_stmts_appends(
                            bound,
                            body,
                            Some(LoopTargets { continue_target: step, break_target: end }),
                        );
                    }
                }
            }
        },
        _ => {},
    }
}

/// Statements that are lowered in order append as many instructions as
/// their sizes say together.
pub proof fn lemma_stmts_appends(st: CompilerView, ss: Seq<StmtView>, targets: Option<LoopTargets>)
    ensures
        appends(st, emit_stmts(st, ss, targets), stmts_size(ss)),
    decreases ss, 0nat,
{
    if ss.len() > 0 {
        lemma_stmt_appends(st, ss[0], targets);
        if let Ok(next) = emit_stmt(st, ss[0], targets) {
            lemma_stmts_appends(next, ss.skip(1), targets);
        }
    }
}

/// A branch that is lowered appends the instructions of its condition and
/// of its body, and two jumps.
pub proof fn lemma_branch_appends(
    st: CompilerView,
    condition: ExprView,
    body: Seq<StmtView>,
    end: usize,
    targets: Option<LoopTargets>,
)
    ensures
        appends(
            st,
            emit_branch(st, condition, body, end, targets),
            expr_size(condition) + stmts_size(body) + 2,
        ),
    decreases body, 1nat,
{
    lemma_expr_appends(st, condition);
    if let Ok(tested) = emit_expr(st, condition) {
        let next = (tested.code.len() + stmts_size(body) + 2) as usize;
        lemma_stmts_appends(tested.emit(InstrView::JumpIfFalse(next)), body, targets);
    }
}

/// `elif` branches that are lowered in order append as many instructions
/// as their sizes say together.
pub proof fn lemma_elifs_appends(
    st: CompilerView,
    branches: Seq<(ExprView, Seq<StmtView>)>,
    end: usize,
    targets: Option<LoopTargets>,
)
    ensures
        appends(st, emit_elifs(st, branches, end, targets), elifs_size(branches)),
    decreases branches, 0nat,
{
    if branches.len() > 0 {
        lemma_branch_appends(st, branches[0].0, branches[0].1, end, targets);
        if let Ok(next) = emit_branch(st, branches[0].0, branches[0].1, end, targets) {
            lemma_elifs_appends(next, branches.skip(1), end, targets);
        }
    }
}

/// The binding of the parameters appends one instruction for each.
pub proof fn lemma_parameters_extends(
    st: CompilerView,
    parameters: Seq<(Seq<char>, TypeView)>,
)
    ensures
        extends(st, emit_parameters(st, parameters), parameters.len()),
    decreases parameters.len(),
{
    if parameters.len() > 0 {
        lemma_parameters_extends(
            st.emit(InstrView::StoreGlobal(parameters.last().0)),
            parameters.drop_last(),
        );
    }
}

/// A function that is lowered appends as many instructions as its size
/// says: the entry of the function that is lowered next is known before.
pub proof fn lemma_function_appends(st: CompilerView, f: FunctionView)
    ensures
        appends(st, emit_function(st, f), function_size(f)),
{
    lemma_parameters_extends(st, f.parameters);
    lemma_stmts_appends(emit_parameters(st, f.parameters), f.body, None);
}

/// Declaring functions leaves the code and the constants alone, and keeps
/// the entries that the table had.
pub proof fn lemma_declare_keeps(st: CompilerView, fs: Seq<FunctionView>, entry: nat)
    ensures
        declare_from(st, fs, entry) matches Ok(after) ==> after.code == st.code && after.constants
            == st.constants && after.depth == st.depth && after.depths == st.depths
            && after.functions.len()
            >= st.functions.len()
            && after.functions.take(st.functions.len() as int) == st.functions,
    decreases fs.len(),
{
    if fs.len() > 0 && entry <= usize::MAX {
        let next = CompilerView {
            functions: st.functions.push(
                EntryView {
                    name: fs[0].name,
                    entry: entry as usize,
                    num_params: fs[0].parameters.len() as usize,
                },
            ),
            ..st
        };
        lemma_declare_keeps(next, fs.skip(1), entry + function_size(fs[0]));
    }
}

/// The number of instructions that the functions before the one at
/// `index` lower to, together.
pub open spec fn size_before(fs: Seq<FunctionView>, index: int) -> nat
    decreases index,
{
    if index <= 0 || index > fs.len() {
        0
    } else {
        size_before(fs, index - 1) + function_size(fs[index - 1])
    }
}

/// Declaring functions enters each with its name, its parameter count and,
/// as its entry, the offset at which the functions before it end.
pub proof fn lemma_declared_entries(st: CompilerView, fs: Seq<FunctionView>, entry: nat, index: int)
    requires
        0 <= index < fs.len(),
        declare_from(st, fs, entry) is Ok,
    ensures
        entry + size_before(fs, index) <= usize::MAX,
        declare_from(st, fs, entry)->Ok_0.functions.len() == st.functions.len() + fs.len(),
        declare_from(st, fs, entry)->Ok_0.functions[st.functions.len() + index] == (EntryView {
            name: fs[index].name,
            entry: (entry + size_before(fs, index)) as usize,
            num_params: fs[index].parameters.len() as usize,
        }),
    decreases fs.len(),
{
    let next = CompilerView {
        functions: st.functions.push(
            EntryView {
                name: fs[0].name,
                entry: entry as usize,
                num_params: fs[0].parameters.len() as usize,
            },
        ),
        ..st
    };
    let rest = fs.skip(1);
    let after = declare_from(next, rest, entry + function_size(fs[0]))->Ok_0;
    lemma_declare_keeps(next, rest, entry + function_size(fs[0]));
    lemma_declared_count(next, rest, entry + function_size(fs[0]));
    if index == 0 {
        assert(after.functions.take(next.functions.len() as int)[st.functions.len() as int]
            == next.functions[st.functions.len() as int]);
    } else {
        lemma_declared_entries(next, rest, entry + function_size(fs[0]), index - 1);
        lemma_size_before_skip(fs, index);
    }
}

/// Declaring functions enters one entry for each.
pub proof fn lemma_declared_count(st: CompilerView, fs: Seq<FunctionView>, entry: nat)
    requires
        declare_from(st, fs, entry) is Ok,
    ensures
        declare_from(st, fs, entry)->Ok_0.functions.len() == st.functions.len() + fs.len(),
    decreases fs.len(),
{
    if fs.len() > 0 {
        let next = CompilerView {
            functions: st.functions.push(
                EntryView {
                    name: fs[0].name,
                    entry: entry as usize,
                    num_params: fs[0].parameters.len() as usize,
                },
            ),
            ..st
        };
        lemma_declared_count(next, fs.skip(1), entry + function_size(fs[0]));
    }
}

/// The size before a function is the size of the first function and the
/// size before it among the others.
pub proof fn lemma_size_before_skip(fs: Seq<FunctionView>, index: int)
    requires
        0 < index <= fs.len(),
    ensures
        size_before(fs, index) == function_size(fs[0]) + size_before(fs.skip(1), index - 1),
    decreases index,
{
    if index > 1 {
        lemma_size_before_skip(fs, index - 1);
    } else {
        assert(size_before(fs, 0) == 0);
    }
}

/// Functions that are lowered one after the other start where the
/// functions before them end.
pub proof fn lemma_function_starts(st: CompilerView, fs: Seq<FunctionView>, index: int)
    requires
        0 <= index < fs.len(),
        emit_functions(st, fs) is Ok,
    ensures
        emit_functions(st, fs.take(index)) matches Ok(before) && before.code.len() == st.code.len()
            + size_before(fs, index) && before.functions == st.functions && emit_function(
            before,
            fs[index],
        ) is Ok,
    decreases fs.len(),
{
    if index > 0 {
        lemma_function_appends(st, fs[0]);
        let next = emit_function(st, fs[0])->Ok_0;
        lemma_function_starts(next, fs.skip(1), index - 1);
        lemma_size_before_skip(fs, index);
        assert(fs.take(index).skip(1) == fs.skip(1).take(index - 1));
    }
}

/// The function table is right: where functions are declared and then
/// lowered in the same order, each is lowered at the entry that the table
/// holds for it, so that a call that was resolved before the function was
/// lowered reaches the function's first instruction.
pub proof fn lemma_entries_are_starts(st: CompilerView, fs: Seq<FunctionView>, index: int)
    requires
        0 <= index < fs.len(),
        declare_from(st, fs, st.code.len()) matches Ok(declared) && emit_functions(declared, fs)
            is Ok,
    ensures
        ({
            let declared = declare_from(st, fs, st.code.len())->Ok_0;
            let before = emit_functions(declared, fs.take(index))->Ok_0;
            &&& emit_functions(declared, fs.take(index)) is Ok
            &&& emit_function(before, fs[index]) is Ok
            &&& declared.functions[st.functions.len() + index].name == fs[index].name
            &&& declared.functions[st.functions.len() + index].entry == before.code.len()
        }),
{
    let declared = declare_from(st, fs, st.code.len())->Ok_0;
    lemma_declared_entries(st, fs, st.code.len(), index);
    lemma_declare_keeps(st, fs, st.code.len());
    lemma_function_starts(declared, fs, index);
}

} // verus!
