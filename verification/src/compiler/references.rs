//! What the instructions refer to exists: every constant that is loaded
//! lies in the constant pool, and every jump leads into the code or to its
//! end.

use crate::ast::{ExprView, FunctionView, LiteralView, StmtView, TypeView};
use crate::bytecode::InstrView;
use crate::compiler::layout::{
    lemma_branch_appends, lemma_char_bindings_extends, lemma_element_bindings_appends,
    lemma_elifs_appends, lemma_expr_appends, lemma_function_appends, lemma_stmt_appends,
    lemma_stmts_appends,
};
use crate::compiler::lowering::{
    builtin_id, cursor_name, emit_bindings, emit_branch, emit_char_bindings, emit_discarded,
    emit_element_bindings, emit_elifs, emit_expr, emit_exprs, emit_fields, emit_for_head,
    emit_function, emit_functions, emit_parameters, emit_stmt, emit_stmts, expr_size,
    iterable_count, stmt_size, stmts_size, CompilerView, Lowered, LoopTargets,
};
use crate::text::unquote;
use crate::value::ValueView;
use vstd::prelude::*;

verus! {

/// Whether what the instruction refers to exists, in a pool of `constants`
/// constants and in code of `bound` instructions: the index of a constant
/// lies in the pool, and a jump leads to an instruction or to the end of
/// the code.
pub open spec fn refers_within(instr: InstrView, constants: nat, bound: nat) -> bool {
    match instr {
        InstrView::LoadConst(index) => index < constants,
        InstrView::Jump(target) => target <= bound,
        InstrView::JumpIfFalse(target) => target <= bound,
        InstrView::JumpIfTrue(target) => target <= bound,
        _ => true,
    }
}

/// Whether the instructions from `from` on refer to what exists.
pub open spec fn closed_from(st: CompilerView, from: int, bound: nat) -> bool {
    forall|i: int|
        0 <= i && from <= i < st.code.len() ==> refers_within(
            #[trigger] st.code[i],
            st.constants.len(),
            bound,
        )
}

/// Whether a lowering, where it succeeds, keeps the code from `from` on
/// closed.
pub open spec fn stays_closed(r: Lowered, from: int, bound: nat) -> bool {
    r matches Ok(after) ==> closed_from(after, from, bound)
}

/// Whether the jump targets of the enclosing loop lie within `bound`.
pub open spec fn targets_within(targets: Option<LoopTargets>, bound: nat) -> bool {
    targets matches Some(t) ==> t.continue_target <= bound && t.break_target <= bound
}

/// Whether the code, where the lowering succeeds, has at most `bound`
/// instructions.
pub open spec fn ends_within(r: Lowered, bound: nat) -> bool {
    r matches Ok(after) ==> after.code.len() <= bound
}

/// The code of an expression loads constants of the pool only, and does
/// not jump.
pub proof fn lemma_expr_closed(st: CompilerView, e: ExprView, from: int, bound: nat)
    requires
        closed_from(st, from, bound),
    ensures
        stays_closed(emit_expr(st, e), from, bound),
    decreases e,
{
    match e {
        ExprView::Binary { left, operator, right } => {
            lemma_expr_closed(st, *left, from, bound);
            if let Ok(st1) = emit_expr(st, *left) {
                lemma_expr_closed(st1, *right, from, bound);
            }
        },
        ExprView::Call { name, arguments } => {
            if builtin_id(name) is Some {
                if arguments.len() == 1 {
                    lemma_expr_closed(st, arguments[0], from, bound);
                }
            } else {
                lemma_exprs_closed(st, arguments, from, bound);
            }
        },
        ExprView::FormatCall { name, format_string, arguments } => {
            lemma_exprs_closed(
                st.load(ValueView::String(unquote(format_string))),
                arguments,
                from,
                bound,
            );
        },
        ExprView::ArrayLiteral(elements) => {
            lemma_discarded_closed(st, elements, from, bound);
        },
        ExprView::ArrayAccess { array, index } => {
            lemma_expr_closed(st, *array, from, bound);
            if let Ok(st1) = emit_expr(st, *array) {
                lemma_expr_closed(st1.emit(InstrView::Pop), *index, from, bound);
            }
        },
        ExprView::StructInitialization { fields, .. } => {
            lemma_fields_closed(st, fields, from, bound);
        },
        ExprView::StructFieldAccess { object, .. } => {
            lemma_expr_closed(st, *object, from, bound);
        },
        ExprView::EnumVariantCreation { values, .. } => {
            lemma_discarded_closed(st, values, from, bound);
        },
        _ => {},
    }
}

/// The code of expressions that are lowered in order stays closed.
pub proof fn lemma_exprs_closed(st: CompilerView, es: Seq<ExprView>, from: int, bound: nat)
    requires
        closed_from(st, from, bound),
    ensures
        stays_closed(emit_exprs(st, es), from, bound),
    decreases es,
{
    if es.len() > 0 {
        lemma_expr_closed(st, es[0], from, bound);
        if let Ok(next) = emit_expr(st, es[0]) {
            lemma_exprs_closed(next, es.skip(1), from, bound);
        }
    }
}

/// The code of expressions that are lowered and popped stays closed.
pub proof fn lemma_discarded_closed(st: CompilerView, es: Seq<ExprView>, from: int, bound: nat)
    requires
        closed_from(st, from, bound),
    ensures
        stays_closed(emit_discarded(st, es), from, bound),
    decreases es,
{
    if es.len() > 0 {
        lemma_expr_closed(st, es[0], from, bound);
        if let Ok(next) = emit_expr(st, es[0]) {
            lemma_discarded_closed(next.emit(InstrView::Pop), es.skip(1), from, bound);
        }
    }
}

/// The code of initializers that are lowered and popped stays closed.
pub proof fn lemma_fields_closed(
    st: CompilerView,
    fields: Seq<(Seq<char>, ExprView)>,
    from: int,
    bound: nat,
)
    requires
        closed_from(st, from, bound),
    ensures
        stays_closed(emit_fields(st, fields), from, bound),
    decreases fields,
{
    if fields.len() > 0 {
        lemma_expr_closed(st, fields[0].1, from, bound);
        if let Ok(next) = emit_expr(st, fields[0].1) {
            lemma_fields_closed(next.emit(InstrView::Pop), fields.skip(1), from, bound);
        }
    }
}

/// The bindings of the elements of an array literal jump within the code.
pub proof fn lemma_element_bindings_closed(
    st: CompilerView,
    cursor: Seq<char>,
    variable: Seq<char>,
    es: Seq<ExprView>,
    index: int,
    from: int,
    bound: nat,
)
    requires
        closed_from(st, from, bound),
        ends_within(emit_element_bindings(st, cursor, variable, es, index), bound),
    ensures
        stays_closed(emit_element_bindings(st, cursor, variable, es, index), from, bound),
    decreases es,
{
    if es.len() > 0 {
        let tested = st.emit(InstrView::LoadGlobal(cursor)).load(
            ValueView::Integer(index as i64),
        ).emit(InstrView::Eq);
        let next = (tested.code.len() + expr_size(es[0]) + 2) as usize;
        let jumped = tested.emit(InstrView::JumpIfFalse(next));
        lemma_expr_appends(jumped, es[0]);
        if let Ok(bound_element) = emit_expr(jumped, es[0]) {
            let stored = bound_element.emit(InstrView::StoreGlobal(variable));
            lemma_element_bindings_appends(stored, cursor, variable, es.skip(1), index + 1);
            if emit_element_bindings(stored, cursor, variable, es.skip(1), index + 1) is Ok {
                lemma_expr_closed(jumped, es[0], from, bound);
                lemma_element_bindings_closed(
                    stored,
                    cursor,
                    variable,
                    es.skip(1),
                    index + 1,
                    from,
                    bound,
                );
            }
        }
    }
}

/// The bindings of the characters of a string literal jump within the
/// code.
pub proof fn lemma_char_bindings_closed(
    st: CompilerView,
    cursor: Seq<char>,
    variable: Seq<char>,
    chars: Seq<char>,
    index: int,
    from: int,
    bound: nat,
)
    requires
        closed_from(st, from, bound),
        emit_char_bindings(st, cursor, variable, chars, index).code.len() <= bound,
    ensures
        closed_from(emit_char_bindings(st, cursor, variable, chars, index), from, bound),
    decreases chars.len(),
{
    if chars.len() > 0 {
        let tested = st.emit(InstrView::LoadGlobal(cursor)).load(
            ValueView::Integer(index as i64),
        ).emit(InstrView::Eq);
        let next = (tested.code.len() + 3) as usize;
        let stored = tested.emit(InstrView::JumpIfFalse(next)).load(
            ValueView::String(seq![chars[0]]),
        ).emit(InstrView::StoreGlobal(variable));
        lemma_char_bindings_extends(stored, cursor, variable, chars.skip(1), index + 1);
        lemma_char_bindings_closed(stored, cursor, variable, chars.skip(1), index + 1, from, bound);
    }
}

/// The code of a statement loads constants of the pool only and jumps
/// within the code, given that the jump targets of the enclosing loop lie
/// within it.
pub proof fn lemma_stmt_closed(
    st: CompilerView,
    s: StmtView,
    targets: Option<LoopTargets>,
    from: int,
    bound: nat,
)
    requires
        closed_from(st, from, bound),
        targets_within(targets, bound),
        ends_within(emit_stmt(st, s, targets), bound),
    ensures
        stays_closed(emit_stmt(st, s, targets), from, bound),
    decreases s, 0nat,
{
    lemma_stmt_appends(st, s, targets);
    match s {
        StmtView::Expression(e) => {
            lemma_expr_closed(st, e, from, bound);
        },
        StmtView::VariableDeclaration { value, .. } => {
            lemma_expr_closed(st, value, from, bound);
        },
        StmtView::Block(body) => {
            lemma_stmts_closed(st, body, targets, from, bound);
        },
        StmtView::UnsafeBlock(body) => {
            lemma_stmts_closed(st, body, targets, from, bound);
        },
        StmtView::If { condition, then_branch, elif_branches, else_branch } => {
            if emit_stmt(st, s, targets) is Ok {
                let end = (st.code.len() + stmt_size(s)) as usize;
                lemma_branch_appends(st, condition, then_branch, end, targets);
                let st1 = emit_branch(st, condition, then_branch, end, targets)->Ok_0;
                lemma_elifs_appends(st1, elif_branches, end, targets);
                let st2 = emit_elifs(st1, elif_branches, end, targets)->Ok_0;
                if let Some(body) = else_branch {
                    lemma_stmts_appends(st2, body, targets);
                }
                lemma_branch_closed(st, condition, then_branch, end, targets, from, bound);
                lemma_elifs_closed(st1, elif_branches, end, targets, from, bound);
                if let Some(body) = else_branch {
                    lemma_stmts_closed(st2, body, targets, from, bound);
                }
            }
        },
        StmtView::While { condition, body } => {
            if emit_stmt(st, s, targets) is Ok {
                let head = st.code.len() as usize;
                let end = (st.code.len() + stmt_size(s)) as usize;
                let inner = Some(LoopTargets { continue_target: head, break_target: end });
                lemma_expr_appends(st, condition);
                let tested = emit_expr(st, condition)->Ok_0;
                lemma_stmts_appends(tested.emit(InstrView::JumpIfFalse(end)), body, inner);
                lemma_expr_closed(st, condition, from, bound);
                lemma_stmts_closed(
                    tested.emit(InstrView::JumpIfFalse(end)),
                    body,
                    inner,
                    from,
                    bound,
                );
            }
        },
        StmtView::For { variable, iterable, body } => {
            if emit_stmt(st, s, targets) is Ok {
                let count = iterable_count(iterable)->Some_0;
                let cursor = cursor_name(st.code.len());
                let end = (st.code.len() + stmt_size(s)) as usize;
                let step = (end - 5) as usize;
                let inner = Some(LoopTargets { continue_target: step, break_target: end });
                let headed = emit_for_head(st, cursor, count, end);
                match iterable {
                    ExprView::ArrayLiteral(elements) => {
                        lemma_element_bindings_appends(headed, cursor, variable, elements, 0);
                    },
                    ExprView::Literal(LiteralView::String(raw)) => {
                        lemma_char_bindings_extends(headed, cursor, variable, unquote(raw), 0);
                    },
                    _ => {},
                }
                let bound_elements = emit_bindings(headed, cursor, variable, iterable)->Ok_0;
                lemma_stmts_appends(bound_elements, body, inner);
                match iterable {
                    ExprView::ArrayLiteral(elements) => {
                        lemma_element_bindings_closed(
                            headed,
                            cursor,
                            variable,
                            elements,
                            0,
                            from,
                            bound,
                        );
                    },
                    ExprView::Literal(LiteralView::String(raw)) => {
                        lemma_char_bindings_closed(
                            headed,
                            cursor,
                            variable,
                            unquote(raw),
                            0,
                            from,
                            bound,
                        );
                    },
                    _ => {},
                }
                lemma_stmts_closed(bound_elements, body, inner, from, bound);
            }
        },
        _ => {},
    }
}

/// The code of statements that are lowered in order stays closed.
pub proof fn lemma_stmts_closed(
    st: CompilerView,
    ss: Seq<StmtView>,
    targets: Option<LoopTargets>,
    from: int,
    bound: nat,
)
    requires
        closed_from(st, from, bound),
        targets_within(targets, bound),
        ends_within(emit_stmts(st, ss, targets), bound),
    ensures
        stays_closed(emit_stmts(st, ss, targets), from, bound),
    decreases ss, 0nat,
{
    if ss.len() > 0 {
        if let Ok(next) = emit_stmt(st, ss[0], targets) {
            lemma_stmts_appends(next, ss.skip(1), targets);
            if emit_stmts(next, ss.skip(1), targets) is Ok {
                lemma_stmt_closed(st, ss[0], targets, from, bound);
                lemma_stmts_closed(next, ss.skip(1), targets, from, bound);
            }
        }
    }
}

/// The code of a branch of an `if` stays closed.
pub proof fn lemma_branch_closed(
    st: CompilerView,
    condition: ExprView,
    body: Seq<StmtView>,
    end: usize,
    targets: Option<LoopTargets>,
    from: int,
    bound: nat,
)
    requires
        closed_from(st, from, bound),
        targets_within(targets, bound),
        end <= bound,
        ends_within(emit_branch(st, condition, body, end, targets), bound),
    ensures
        stays_closed(emit_branch(st, condition, body, end, targets), from, bound),
    decreases body, 1nat,
{
    lemma_expr_appends(st, condition);
    if let Ok(tested) = emit_expr(st, condition) {
        let next = (tested.code.len() + stmts_size(body) + 2) as usize;
        let jumped = tested.emit(InstrView::JumpIfFalse(next));
        lemma_stmts_appends(jumped, body, targets);
        if emit_stmts(jumped, body, targets) is Ok {
            lemma_expr_closed(st, condition, from, bound);
            lemma_stmts_closed(jumped, body, targets, from, bound);
        }
    }
}

/// The code of the `elif` branches of an `if` stays closed.
pub proof fn lemma_elifs_closed(
    st: CompilerView,
    branches: Seq<(ExprView, Seq<StmtView>)>,
    end: usize,
    targets: Option<LoopTargets>,
    from: int,
    bound: nat,
)
    requires
        closed_from(st, from, bound),
        targets_within(targets, bound),
        end <= bound,
        ends_within(emit_elifs(st, branches, end, targets), bound),
    ensures
        stays_closed(emit_elifs(st, branches, end, targets), from, bound),
    decreases branches, 0nat,
{
    if branches.len() > 0 {
        if let Ok(next) = emit_branch(st, branches[0].0, branches[0].1, end, targets) {
            lemma_elifs_appends(next, branches.skip(1), end, targets);
            if emit_elifs(next, branches.skip(1), end, targets) is Ok {
                lemma_branch_closed(st, branches[0].0, branches[0].1, end, targets, from, bound);
                lemma_elifs_closed(next, branches.skip(1), end, targets, from, bound);
            }
        }
    }
}

/// The binding of the parameters keeps the code closed.
pub proof fn lemma_parameters_closed(
    st: CompilerView,
    parameters: Seq<(Seq<char>, TypeView)>,
    from: int,
    bound: nat,
)
    requires
        closed_from(st, from, bound),
    ensures
        closed_from(emit_parameters(st, parameters), from, bound),
    decreases parameters.len(),
{
    if parameters.len() > 0 {
        lemma_parameters_closed(
            st.emit(InstrView::StoreGlobal(parameters.last().0)),
            parameters.drop_last(),
            from,
            bound,
        );
    }
}

/// The code of a function stays closed.
pub proof fn lemma_function_closed(st: CompilerView, f: FunctionView, from: int, bound: nat)
    requires
        closed_from(st, from, bound),
        ends_within(emit_function(st, f), bound),
    ensures
        stays_closed(emit_function(st, f), from, bound),
{
    let bound_parameters = emit_parameters(st, f.parameters);
    lemma_parameters_closed(st, f.parameters, from, bound);
    if emit_stmts(bound_parameters, f.body, None) is Ok {
        lemma_stmts_closed(bound_parameters, f.body, None, from, bound);
    }
}

/// Functions that are lowered one after the other only add code.
pub proof fn lemma_functions_grow(st: CompilerView, fs: Seq<FunctionView>)
    ensures
        emit_functions(st, fs) matches Ok(after) ==> st.code.len() <= after.code.len(),
    decreases fs.len(),
{
    if fs.len() > 0 {
        lemma_function_appends(st, fs[0]);
        if let Ok(next) = emit_function(st, fs[0]) {
            lemma_functions_grow(next, fs.skip(1));
        }
    }
}

/// The code of functions that are lowered one after the other stays
/// closed.
pub proof fn lemma_functions_closed(st: CompilerView, fs: Seq<FunctionView>, from: int, bound: nat)
    requires
        closed_from(st, from, bound),
        ends_within(emit_functions(st, fs), bound),
    ensures
        stays_closed(emit_functions(st, fs), from, bound),
    decreases fs.len(),
{
    if fs.len() > 0 {
        if let Ok(next) = emit_function(st, fs[0]) {
            lemma_functions_grow(next, fs.skip(1));
            if emit_functions(next, fs.skip(1)) is Ok {
                lemma_function_closed(st, fs[0], from, bound);
                lemma_functions_closed(next, fs.skip(1), from, bound);
            }
        }
    }
}

/// Every instruction that the compiler emits for a function refers to what
/// exists: the constants that it loads lie in the constant pool, and its
/// jumps lead into the code or to its end.
pub proof fn lemma_function_refers_within(st: CompilerView, f: FunctionView)
    ensures
        emit_function(st, f) matches Ok(after) ==> closed_from(
            after,
            st.code.len() as int,
            after.code.len(),
        ),
{
    if let Ok(after) = emit_function(st, f) {
        lemma_function_closed(st, f, st.code.len() as int, after.code.len());
    }
}

/// Every instruction that the compiler emits for functions that it lowers
/// one after the other refers to what exists: the constants that it loads
/// lie in the constant pool, and its jumps lead into the code or to its
/// end.
pub proof fn lemma_functions_refer_within(st: CompilerView, fs: Seq<FunctionView>)
    ensures
        emit_functions(st, fs) matches Ok(after) ==> closed_from(
            after,
            st.code.len() as int,
            after.code.len(),
        ),
{
    if let Ok(after) = emit_functions(st, fs) {
        lemma_functions_closed(st, fs, st.code.len() as int, after.code.len());
    }
}

} // verus!
