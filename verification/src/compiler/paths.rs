//! Stack discipline along every path. The compiler counts the depth of the
//! operand stack instruction by instruction as it emits the code. The depth
//! so counted is the depth along every path through the code:
//!
//! - behind each instruction the depth is what the instruction makes of
//!   the depth before it (a call is counted with what it leaves once the
//!   callee has returned);
//! - the code of an expression does not jump;
//! - every jump in the code of a statement lands where the depth that was
//!   counted is the depth behind the jump, which is the depth at which the
//!   statement began.
//!
//! Nowhere in its code is the stack less deep than the expression or the
//! statement found it.

use crate::ast::{ExprView, FunctionView, LiteralView, StmtView, TypeView};
use crate::bytecode::{effect, InstrView, BUILTIN_FORMAT};
use crate::compiler::discipline::{
    lemma_branch_depth, lemma_char_bindings_depth, lemma_element_bindings_depth,
    lemma_discarded_depth, lemma_elifs_depth, lemma_expr_depth, lemma_exprs_depth,
    lemma_fields_depth, lemma_stmt_depth, lemma_stmts_depth,
};
use crate::compiler::layout::{
    lemma_branch_appends, lemma_char_bindings_extends, lemma_element_bindings_appends,
    lemma_elifs_appends, lemma_expr_appends, lemma_stmt_appends, lemma_stmts_appends,
};
use crate::compiler::lowering::{
    builtin_id, cursor_name, emit_bindings, emit_branch, emit_char_bindings, emit_discarded,
    emit_element_bindings, emit_elifs, emit_expr, emit_exprs, emit_fields, emit_for_head,
    emit_function, emit_functions, emit_parameters, emit_stmt, emit_stmts, expr_size,
    iterable_count, literal_value, lookup, operator_instr, stmt_size, stmts_size, CompilerView,
    LoopTargets, Lowered,
};
use crate::text::{decimal, unquote};
use crate::value::ValueView;
use vstd::prelude::*;

verus! {

/// The depth that was counted before the instruction at `at`; at the end of
/// the code, the depth behind the last instruction.
pub open spec fn depth_at(st: CompilerView, at: int) -> int {
    if at == st.code.len() {
        st.depth
    } else {
        st.depths[at]
    }
}

/// Where the instruction jumps to, if it is a jump.
pub open spec fn jump_target(instr: InstrView) -> Option<int> {
    match instr {
        InstrView::Jump(target) => Some(target as int),
        InstrView::JumpIfFalse(target) => Some(target as int),
        InstrView::JumpIfTrue(target) => Some(target as int),
        _ => None,
    }
}

/// The jump targets of the enclosing loop.
pub open spec fn exits(targets: Option<LoopTargets>) -> Set<int> {
    match targets {
        Some(t) => set![t.continue_target as int, t.break_target as int],
        None => Set::empty(),
    }
}

/// Whether the depth that was counted behind the instruction at `at` is
/// what the instruction makes of the depth before it: the depth changes by
/// the instruction's effect, and the builtin that formats takes besides as
/// many substitution arguments as the constant says that is loaded just
/// before it. The latter is said of a constant pool whose indices fit a
/// machine word, as those of every pool that a compiler holds do.
pub open spec fn counts(st: CompilerView, at: int) -> bool {
    if st.code[at] == InstrView::CallBuiltin(BUILTIN_FORMAT) {
        &&& at > 0
        &&& st.code[at - 1] is LoadConst
        &&& st.constants.len() <= usize::MAX ==> {
            let index = st.code[at - 1]->LoadConst_0 as int;
            &&& index < st.constants.len()
            &&& st.constants[index] is Integer
            &&& st.constants[index]->Integer_0 >= 0
            &&& depth_at(st, at + 1) == depth_at(st, at) + effect(st.code[at])
                - st.constants[index]->Integer_0
        }
    } else {
        depth_at(st, at + 1) == depth_at(st, at) + effect(st.code[at])
    }
}

/// Whether `after` goes on from `st`: the instructions and the constants of
/// `st` are in place, and so are the depths that were counted up to its
/// end; and behind each instruction that was emitted since, the depth was
/// counted as the instruction makes it.
pub open spec fn continues(st: CompilerView, after: CompilerView) -> bool {
    &&& st.code.len() <= after.code.len()
    &&& forall|i: int| 0 <= i < st.code.len() ==> #[trigger] after.code[i] == st.code[i]
    &&& st.constants.len() <= after.constants.len()
    &&& forall|i: int|
        0 <= i < st.constants.len() ==> #[trigger] after.constants[i] == st.constants[i]
    &&& forall|k: int| 0 <= k <= st.code.len() ==> #[trigger] depth_at(after, k) == depth_at(st, k)
    &&& forall|i: int| st.code.len() <= i < after.code.len() ==> #[trigger] counts(after, i)
}

/// Whether none of the instructions from `from` on is a jump.
pub open spec fn jumpless(st: CompilerView, from: int) -> bool {
    forall|i: int|
        0 <= i && from <= i < st.code.len() ==> jump_target(#[trigger] st.code[i]) is None
}

/// Whether every jump among the instructions from `from` up to `to` leaves
/// the stack at depth `level`, and lands either at one of the positions
/// `outside` or at an instruction from `from` on, or at the end of the
/// code, where the depth that was counted is `level` too.
pub open spec fn level_jumps(
    st: CompilerView,
    from: int,
    to: int,
    level: int,
    outside: Set<int>,
) -> bool {
    forall|i: int|
        0 <= i && from <= i < to ==> (jump_target(#[trigger] st.code[i]) matches Some(target)
            ==> depth_at(st, i + 1) == level && (outside.contains(target) || (from <= target
            <= st.code.len() && depth_at(st, target) == level)))
}

/// Whether the depth that was counted is at least `level` before each
/// instruction that was emitted since `st`, and behind the last.
pub open spec fn above(st: CompilerView, after: CompilerView, level: int) -> bool {
    forall|k: int| st.code.len() <= k <= after.code.len() ==> #[trigger] depth_at(after, k) >= level
}

/// Whether `after` goes on from `st` without a jump, and with the stack
/// nowhere less deep than `level`.
pub open spec fn straight_to(st: CompilerView, after: CompilerView, level: int) -> bool {
    continues(st, after) && jumpless(after, st.code.len() as int) && above(st, after, level)
}

/// Whether a lowering, where it succeeds, goes on from `st` without a
/// jump, and with the stack nowhere less deep than `st` left it.
pub open spec fn straight(st: CompilerView, r: Lowered) -> bool {
    r matches Ok(after) ==> straight_to(st, after, st.depth)
}

/// Whether `after` goes on from `st` with the stack nowhere less deep than
/// `level`, and with jumps that all leave the stack at depth `level` and
/// land in what was emitted since `st`, where the depth that was counted is
/// `level`, or at one of the positions `outside`.
pub open spec fn level_to(
    st: CompilerView,
    after: CompilerView,
    level: int,
    outside: Set<int>,
) -> bool {
    &&& continues(st, after)
    &&& above(st, after, level)
    &&& level_jumps(after, st.code.len() as int, after.code.len() as int, level, outside)
}

/// Whether a lowering, where it succeeds, goes on from `st` with the stack
/// nowhere less deep than `st` left it, and with jumps that all keep to
/// that depth and land in what it emits or at one of the positions
/// `outside`.
pub open spec fn keeps_level(st: CompilerView, r: Lowered, outside: Set<int>) -> bool {
    r matches Ok(after) ==> level_to(st, after, st.depth, outside)
}

/// Whether the depth that was counted is the depth along every path
/// through the instructions from `from` on: behind each of them the depth
/// was counted as the instruction makes it, and each of them that jumps
/// lands at one of them, or at the end of the code, where the depth that
/// was counted is the depth behind the jump.
pub open spec fn paths_agree(st: CompilerView, from: int) -> bool {
    forall|i: int|
        0 <= i && from <= i < st.code.len() ==> counts(st, i) && (jump_target(
            #[trigger] st.code[i],
        ) matches Some(target) ==> from <= target <= st.code.len() && depth_at(st, target)
            == depth_at(st, i + 1))
}

/// Whether the code of a lowering, where it succeeds, has its positions
/// within a machine word.
pub open spec fn fitting(r: Lowered) -> bool {
    r matches Ok(after) ==> after.code.len() <= usize::MAX
}

/// What was counted behind an instruction stays what was counted behind it
/// in code that goes on.
pub proof fn lemma_counts_carry(mid: CompilerView, after: CompilerView, at: int)
    requires
        continues(mid, after),
        0 <= at < mid.code.len(),
        counts(mid, at),
    ensures
        counts(after, at),
{
    assert(after.code[at] == mid.code[at]);
    assert(depth_at(after, at) == depth_at(mid, at));
    assert(depth_at(after, at + 1) == depth_at(mid, at + 1));
    if at > 0 {
        assert(after.code[at - 1] == mid.code[at - 1]);
    }
}

/// Emitting an instruction goes on from what was there.
pub proof fn lemma_emit_continues(st: CompilerView, instr: InstrView)
    requires
        instr != InstrView::CallBuiltin(BUILTIN_FORMAT),
    ensures
        continues(st, st.emit(instr)),
{
    let after = st.emit(instr);
    assert(after.code[st.code.len() as int] == instr);
    assert(counts(after, st.code.len() as int));
}

/// Loading a constant goes on from what was there.
pub proof fn lemma_load_continues(st: CompilerView, value: ValueView)
    ensures
        continues(st, st.load(value)),
{
    let after = st.load(value);
    assert(after.code[st.code.len() as int] is LoadConst);
    assert(counts(after, st.code.len() as int));
}

/// Code that goes on from code that goes on from `st` goes on from `st`.
pub proof fn lemma_continues_chain(st: CompilerView, mid: CompilerView, after: CompilerView)
    requires
        continues(st, mid),
        continues(mid, after),
    ensures
        continues(st, after),
{
    assert forall|k: int| 0 <= k <= st.code.len() implies #[trigger] depth_at(after, k)
        == depth_at(st, k) by {
        assert(depth_at(after, k) == depth_at(mid, k));
    }
    assert forall|i: int| st.code.len() <= i < after.code.len() implies #[trigger] counts(
        after,
        i,
    ) by {
        if i < mid.code.len() {
            lemma_counts_carry(mid, after, i);
        }
    }
}

/// An instruction that is no jump, and leaves the stack at least as deep
/// as `level`, keeps code straight.
pub proof fn lemma_straight_emit(st: CompilerView, mid: CompilerView, instr: InstrView, level: int)
    requires
        straight_to(st, mid, level),
        jump_target(instr) is None,
        instr != InstrView::CallBuiltin(BUILTIN_FORMAT),
        mid.depth + effect(instr) >= level,
    ensures
        straight_to(st, mid.emit(instr), level),
{
    lemma_emit_continues(mid, instr);
    lemma_continues_chain(st, mid, mid.emit(instr));
}

/// The load of a constant keeps code straight.
pub proof fn lemma_straight_load(st: CompilerView, mid: CompilerView, value: ValueView, level: int)
    requires
        straight_to(st, mid, level),
    ensures
        straight_to(st, mid.load(value), level),
{
    assert(depth_at(mid, mid.code.len() as int) >= level);
    lemma_load_continues(mid, value);
    lemma_continues_chain(st, mid, mid.load(value));
}

/// The formatting of arguments that lie above `level` keeps code straight.
pub proof fn lemma_straight_format(st: CompilerView, mid: CompilerView, count: nat, level: int)
    requires
        straight_to(st, mid, level),
        count <= i64::MAX,
        mid.depth - count >= level,
    ensures
        straight_to(st, mid.format(count), level),
{
    let loaded = mid.load(ValueView::Integer(count as i64));
    let after = mid.format(count);
    let at = mid.code.len() as int;
    lemma_straight_load(st, mid, ValueView::Integer(count as i64), level);
    assert(after.code == loaded.code.push(InstrView::CallBuiltin(BUILTIN_FORMAT)));
    assert(after.depths == loaded.depths.insert(at + 1, loaded.depth));
    assert(after.constants == loaded.constants);
    assert forall|k: int| 0 <= k <= st.code.len() implies #[trigger] depth_at(after, k)
        == depth_at(st, k) by {
        assert(depth_at(loaded, k) == depth_at(st, k));
    }
    assert forall|i: int| st.code.len() <= i < after.code.len() implies #[trigger] counts(
        after,
        i,
    ) by {
        if i <= at {
            assert(counts(loaded, i));
            assert(after.code[i] == loaded.code[i]);
            if i > 0 {
                assert(after.code[i - 1] == loaded.code[i - 1]);
            }
        } else {
            assert(after.code[at] == InstrView::LoadConst(mid.constants.len() as usize));
            assert(after.constants[mid.constants.len() as int] == ValueView::Integer(
                count as i64,
            ));
        }
    }
    assert forall|k: int| st.code.len() <= k <= after.code.len() implies #[trigger] depth_at(
        after,
        k,
    ) >= level by {
        if k <= at {
            assert(depth_at(loaded, k) >= level);
        }
    }
}

/// Straight code behind straight code is straight.
pub proof fn lemma_straight_chain(
    st: CompilerView,
    mid: CompilerView,
    after: CompilerView,
    level: int,
    higher: int,
)
    requires
        straight_to(st, mid, level),
        straight_to(mid, after, higher),
        higher >= level,
    ensures
        straight_to(st, after, level),
{
    lemma_continues_chain(st, mid, after);
}

/// What holds of the jumps of `mid` holds of them in code that goes on
/// from `mid`.
pub proof fn lemma_jumps_carry(
    mid: CompilerView,
    after: CompilerView,
    from: int,
    to: int,
    level: int,
    outside: Set<int>,
)
    requires
        level_jumps(mid, from, to, level, outside),
        to <= mid.code.len(),
        continues(mid, after),
    ensures
        level_jumps(after, from, to, level, outside),
{
    assert forall|i: int| 0 <= i && from <= i < to implies (jump_target(
        #[trigger] after.code[i],
    ) matches Some(target) ==> depth_at(after, i + 1) == level && (outside.contains(target) || (from
        <= target <= after.code.len() && depth_at(after, target) == level))) by {
        assert(after.code[i] == mid.code[i]);
        assert(depth_at(after, i + 1) == depth_at(mid, i + 1));
        if let Some(target) = jump_target(mid.code[i]) {
            if !outside.contains(target) {
                assert(depth_at(after, target) == depth_at(mid, target));
            }
        }
    }
}

/// What holds of the jumps of two stretches of code that lie one behind
/// the other holds of the jumps of both together.
pub proof fn lemma_jumps_join(
    st: CompilerView,
    from: int,
    middle: int,
    to: int,
    level: int,
    outside: Set<int>,
)
    requires
        level_jumps(st, from, middle, level, outside),
        level_jumps(st, middle, to, level, outside),
        from <= middle,
    ensures
        level_jumps(st, from, to, level, outside),
{
}

/// A jump may be said to land at a position of its own code in place of
/// that position as one outside.
pub proof fn lemma_jumps_land(
    st: CompilerView,
    from: int,
    to: int,
    level: int,
    wide: Set<int>,
    narrow: Set<int>,
)
    requires
        level_jumps(st, from, to, level, wide),
        forall|target: int| #[trigger]
            wide.contains(target) ==> narrow.contains(target) || (from <= target <= st.code.len()
                && depth_at(st, target) == level),
    ensures
        level_jumps(st, from, to, level, narrow),
{
}

/// Stack discipline of expressions along every path: the code of an
/// expression does not jump, the depth that is counted behind each of its
/// instructions is what the instruction makes of the depth before it, and
/// nowhere is the stack less deep than the expression found it.
pub proof fn lemma_expr_straight(st: CompilerView, e: ExprView)
    ensures
        straight(st, emit_expr(st, e)),
    decreases e,
{
    let d = st.depth;
    match e {
        ExprView::Literal(literal) => {
            lemma_straight_load(st, st, literal_value(literal), d);
        },
        ExprView::Variable(name) => {
            lemma_straight_emit(st, st, InstrView::LoadGlobal(name), d);
        },
        ExprView::Binary { left, operator, right } => {
            lemma_expr_straight(st, *left);
            lemma_expr_depth(st, *left);
            if let Ok(st1) = emit_expr(st, *left) {
                lemma_expr_straight(st1, *right);
                lemma_expr_depth(st1, *right);
                if let Ok(st2) = emit_expr(st1, *right) {
                    lemma_straight_chain(st, st1, st2, d, d + 1);
                    lemma_straight_emit(st, st2, operator_instr(operator), d);
                }
            }
        },
        ExprView::Call { name, arguments } => {
            match builtin_id(name) {
                Some(id) => {
                    if arguments.len() == 1 {
                        lemma_expr_straight(st, arguments[0]);
                        lemma_expr_depth(st, arguments[0]);
                        if let Ok(st1) = emit_expr(st, arguments[0]) {
                            lemma_straight_emit(st, st1, InstrView::CallBuiltin(id), d);
                        }
                    }
                },
                None => {
                    lemma_exprs_straight(st, arguments);
                    lemma_exprs_depth(st, arguments);
                    if let Some(f) = lookup(st.functions, name) {
                        if arguments.len() <= usize::MAX && emit_exprs(st, arguments) is Ok {
                            let st1 = emit_exprs(st, arguments)->Ok_0;
                            let callee = ValueView::Function {
                                name,
                                ip: f.entry,
                                num_params: f.num_params,
                            };
                            lemma_straight_load(st, st1, callee, d);
                            lemma_straight_emit(
                                st,
                                st1.load(callee),
                                InstrView::Call(arguments.len() as usize),
                                d,
                            );
                        }
                    }
                },
            }
        },
        ExprView::FormatCall { name, format_string, arguments } => {
            if let Some(id) = builtin_id(name) {
                let loaded = st.load(ValueView::String(unquote(format_string)));
                lemma_straight_load(st, st, ValueView::String(unquote(format_string)), d);
                lemma_exprs_straight(loaded, arguments);
                lemma_exprs_depth(loaded, arguments);
                if arguments.len() <= i64::MAX && emit_exprs(loaded, arguments) is Ok {
                    let st1 = emit_exprs(loaded, arguments)->Ok_0;
                    lemma_straight_chain(st, loaded, st1, d, d + 1);
                    lemma_straight_format(st, st1, arguments.len(), d);
                    lemma_straight_emit(
                        st,
                        st1.format(arguments.len()),
                        InstrView::CallBuiltin(id),
                        d,
                    );
                }
            }
        },
        ExprView::ArrayLiteral(elements) => {
            lemma_discarded_straight(st, elements);
            lemma_discarded_depth(st, elements);
            if let Ok(st1) = emit_discarded(st, elements) {
                lemma_straight_load(
                    st,
                    st1,
                    ValueView::String("array_"@ + decimal(elements.len())),
                    d,
                );
            }
        },
        ExprView::ArrayAccess { array, index } => {
            lemma_expr_straight(st, *array);
            lemma_expr_depth(st, *array);
            if let Ok(st1) = emit_expr(st, *array) {
                let popped = st1.emit(InstrView::Pop);
                lemma_straight_emit(st, st1, InstrView::Pop, d);
                lemma_expr_straight(popped, *index);
                lemma_expr_depth(popped, *index);
                if let Ok(st2) = emit_expr(popped, *index) {
                    lemma_straight_chain(st, popped, st2, d, d);
                    lemma_straight_emit(st, st2, InstrView::Pop, d);
                    lemma_straight_load(st, st2.emit(InstrView::Pop), ValueView::Integer(0), d);
                }
            }
        },
        ExprView::StructDefinition { .. } => {
            lemma_straight_load(st, st, ValueView::Null, d);
        },
        ExprView::StructInitialization { fields, .. } => {
            lemma_fields_straight(st, fields);
            lemma_fields_depth(st, fields);
            if let Ok(st1) = emit_fields(st, fields) {
                lemma_straight_load(st, st1, ValueView::String("struct_instance"@), d);
            }
        },
        ExprView::StructFieldAccess { object, field } => {
            lemma_expr_straight(st, *object);
            lemma_expr_depth(st, *object);
            if let Ok(st1) = emit_expr(st, *object) {
                lemma_straight_emit(st, st1, InstrView::Pop, d);
                lemma_straight_load(st, st1.emit(InstrView::Pop), ValueView::String(field), d);
            }
        },
        ExprView::EnumVariantCreation { variant_name, values, .. } => {
            lemma_discarded_straight(st, values);
            lemma_discarded_depth(st, values);
            if let Ok(st1) = emit_discarded(st, values) {
                lemma_straight_load(st, st1, ValueView::String("enum_"@ + variant_name), d);
            }
        },
        ExprView::EnumMatch { .. } => {
            lemma_straight_load(st, st, ValueView::Null, d);
        },
        _ => {},
    }
}

/// The code of expressions that are lowered in order does not jump, and
/// leaves the stack nowhere less deep than it found it.
pub proof fn lemma_exprs_straight(st: CompilerView, es: Seq<ExprView>)
    ensures
        straight(st, emit_exprs(st, es)),
    decreases es,
{
    if es.len() > 0 {
        lemma_expr_straight(st, es[0]);
        lemma_expr_depth(st, es[0]);
        if let Ok(next) = emit_expr(st, es[0]) {
            lemma_exprs_straight(next, es.skip(1));
            if let Ok(after) = emit_exprs(next, es.skip(1)) {
                lemma_straight_chain(st, next, after, st.depth, next.depth);
            }
        }
    }
}

/// The code of expressions that are lowered and popped does not jump, and
/// leaves the stack nowhere less deep than it found it.
pub proof fn lemma_discarded_straight(st: CompilerView, es: Seq<ExprView>)
    ensures
        straight(st, emit_discarded(st, es)),
    decreases es,
{
    if es.len() > 0 {
        lemma_expr_straight(st, es[0]);
        lemma_expr_depth(st, es[0]);
        if let Ok(next) = emit_expr(st, es[0]) {
            let popped = next.emit(InstrView::Pop);
            lemma_straight_emit(st, next, InstrView::Pop, st.depth);
            lemma_discarded_straight(popped, es.skip(1));
            if let Ok(after) = emit_discarded(popped, es.skip(1)) {
                lemma_straight_chain(st, popped, after, st.depth, st.depth);
            }
        }
    }
}

/// The code of initializers that are lowered and popped does not jump, and
/// leaves the stack nowhere less deep than it found it.
pub proof fn lemma_fields_straight(st: CompilerView, fields: Seq<(Seq<char>, ExprView)>)
    ensures
        straight(st, emit_fields(st, fields)),
    decreases fields,
{
    if fields.len() > 0 {
        lemma_expr_straight(st, fields[0].1);
        lemma_expr_depth(st, fields[0].1);
        if let Ok(next) = emit_expr(st, fields[0].1) {
            let popped = next.emit(InstrView::Pop);
            lemma_straight_emit(st, next, InstrView::Pop, st.depth);
            lemma_fields_straight(popped, fields.skip(1));
            if let Ok(after) = emit_fields(popped, fields.skip(1)) {
                lemma_straight_chain(st, popped, after, st.depth, st.depth);
            }
        }
    }
}

/// Straight code keeps every jump level.
pub proof fn lemma_straight_level(
    st: CompilerView,
    after: CompilerView,
    level: int,
    outside: Set<int>,
)
    requires
        straight_to(st, after, level),
    ensures
        level_to(st, after, level, outside),
{
}

/// Level code behind level code is level.
pub proof fn lemma_level_chain(
    st: CompilerView,
    mid: CompilerView,
    after: CompilerView,
    level: int,
    outside: Set<int>,
)
    requires
        level_to(st, mid, level, outside),
        level_to(mid, after, level, outside),
    ensures
        level_to(st, after, level, outside),
{
    lemma_continues_chain(st, mid, after);
    lemma_jumps_carry(mid, after, st.code.len() as int, mid.code.len() as int, level, outside);
    lemma_jumps_join(
        after,
        st.code.len() as int,
        mid.code.len() as int,
        after.code.len() as int,
        level,
        outside,
    );
}

/// An instruction keeps code level if it is no jump, or a jump that leaves
/// the stack at that level and leads to one of the positions `outside`.
pub proof fn lemma_level_emit(
    st: CompilerView,
    mid: CompilerView,
    instr: InstrView,
    level: int,
    outside: Set<int>,
)
    requires
        level_to(st, mid, level, outside),
        jump_target(instr) matches Some(target) ==> mid.depth + effect(instr) == level
            && outside.contains(target),
        instr != InstrView::CallBuiltin(BUILTIN_FORMAT),
        mid.depth + effect(instr) >= level,
    ensures
        level_to(st, mid.emit(instr), level, outside),
{
    let after = mid.emit(instr);
    lemma_emit_continues(mid, instr);
    lemma_continues_chain(st, mid, after);
    lemma_jumps_carry(mid, after, st.code.len() as int, mid.code.len() as int, level, outside);
    assert(after.code[mid.code.len() as int] == instr);
    assert(level_jumps(after, mid.code.len() as int, after.code.len() as int, level, outside));
    lemma_jumps_join(
        after,
        st.code.len() as int,
        mid.code.len() as int,
        after.code.len() as int,
        level,
        outside,
    );
}

/// The load of a constant keeps code level.
pub proof fn lemma_level_load(
    st: CompilerView,
    mid: CompilerView,
    value: ValueView,
    level: int,
    outside: Set<int>,
)
    requires
        level_to(st, mid, level, outside),
    ensures
        level_to(st, mid.load(value), level, outside),
{
    let after = mid.load(value);
    assert(depth_at(mid, mid.code.len() as int) >= level);
    lemma_load_continues(mid, value);
    lemma_continues_chain(st, mid, after);
    lemma_jumps_carry(mid, after, st.code.len() as int, mid.code.len() as int, level, outside);
    assert(after.code[mid.code.len() as int] is LoadConst);
    assert(level_jumps(after, mid.code.len() as int, after.code.len() as int, level, outside));
    lemma_jumps_join(
        after,
        st.code.len() as int,
        mid.code.len() as int,
        after.code.len() as int,
        level,
        outside,
    );
}

/// A jump may be said to land at a position of its own code, where the
/// depth that was counted is the level, in place of that position as one
/// outside.
pub proof fn lemma_level_lands(
    st: CompilerView,
    after: CompilerView,
    level: int,
    wide: Set<int>,
    narrow: Set<int>,
)
    requires
        level_to(st, after, level, wide),
        forall|target: int| #[trigger]
            wide.contains(target) ==> narrow.contains(target) || (st.code.len() <= target
                <= after.code.len() && depth_at(after, target) == level),
    ensures
        level_to(st, after, level, narrow),
{
    lemma_jumps_land(
        after,
        st.code.len() as int,
        after.code.len() as int,
        level,
        wide,
        narrow,
    );
}

/// The test of one binding: the cursor is compared with the element's
/// index, and the binding is skipped if they differ.
proof fn lemma_binding_test(
    st: CompilerView,
    cursor: Seq<char>,
    index: int,
    next: usize,
    outside: Set<int>,
)
    requires
        outside.contains(next as int),
    ensures
        ({
            let jumped = st.emit(InstrView::LoadGlobal(cursor)).load(
                ValueView::Integer(index as i64),
            ).emit(InstrView::Eq).emit(InstrView::JumpIfFalse(next));
            level_to(st, jumped, st.depth, outside) && jumped.depth == st.depth && jumped.code.len()
                == st.code.len() + 4
        }),
{
    let read = st.emit(InstrView::LoadGlobal(cursor));
    let loaded = read.load(ValueView::Integer(index as i64));
    let tested = loaded.emit(InstrView::Eq);
    lemma_straight_level(st, st, st.depth, outside);
    lemma_level_emit(st, st, InstrView::LoadGlobal(cursor), st.depth, outside);
    lemma_level_load(st, read, ValueView::Integer(index as i64), st.depth, outside);
    lemma_level_emit(st, loaded, InstrView::Eq, st.depth, outside);
    lemma_level_emit(st, tested, InstrView::JumpIfFalse(next), st.depth, outside);
}

/// The bindings of the elements of an array literal skip from one binding
/// to the next, at the depth at which they began.
pub proof fn lemma_element_bindings_level(
    st: CompilerView,
    cursor: Seq<char>,
    variable: Seq<char>,
    es: Seq<ExprView>,
    index: int,
)
    requires
        fitting(emit_element_bindings(st, cursor, variable, es, index)),
    ensures
        keeps_level(st, emit_element_bindings(st, cursor, variable, es, index), Set::empty()),
    decreases es,
{
    let none = Set::<int>::empty();
    if es.len() > 0 {
        let tested = st.emit(InstrView::LoadGlobal(cursor)).load(
            ValueView::Integer(index as i64),
        ).emit(InstrView::Eq);
        let next = (tested.code.len() + expr_size(es[0]) + 2) as usize;
        let jumped = tested.emit(InstrView::JumpIfFalse(next));
        let skips = none.insert(next as int);
        lemma_binding_test(st, cursor, index, next, skips);
        lemma_expr_appends(jumped, es[0]);
        lemma_expr_depth(jumped, es[0]);
        lemma_expr_straight(jumped, es[0]);
        if let Ok(bound) = emit_expr(jumped, es[0]) {
            let stored = bound.emit(InstrView::StoreGlobal(variable));
            lemma_element_bindings_appends(stored, cursor, variable, es.skip(1), index + 1);
            lemma_element_bindings_depth(stored, cursor, variable, es.skip(1), index + 1);
            if let Ok(after) = emit_element_bindings(
                stored,
                cursor,
                variable,
                es.skip(1),
                index + 1,
            ) {
                lemma_element_bindings_level(stored, cursor, variable, es.skip(1), index + 1);
                lemma_straight_level(jumped, bound, st.depth, skips);
                lemma_level_chain(st, jumped, bound, st.depth, skips);
                lemma_level_emit(st, bound, InstrView::StoreGlobal(variable), st.depth, skips);
                assert(next == stored.code.len());
                lemma_level_lands(stored, after, st.depth, none, skips);
                lemma_level_chain(st, stored, after, st.depth, skips);
                assert(depth_at(after, next as int) == depth_at(stored, next as int));
                lemma_level_lands(st, after, st.depth, skips, none);
            }
        }
    } else {
        lemma_straight_level(st, st, st.depth, none);
    }
}

/// The bindings of the characters of a string literal skip from one
/// binding to the next, at the depth at which they began.
pub proof fn lemma_char_bindings_level(
    st: CompilerView,
    cursor: Seq<char>,
    variable: Seq<char>,
    chars: Seq<char>,
    index: int,
)
    requires
        emit_char_bindings(st, cursor, variable, chars, index).code.len() <= usize::MAX,
    ensures
        keeps_level(st, Ok(emit_char_bindings(st, cursor, variable, chars, index)), Set::empty()),
    decreases chars.len(),
{
    let none = Set::<int>::empty();
    if chars.len() > 0 {
        let tested = st.emit(InstrView::LoadGlobal(cursor)).load(
            ValueView::Integer(index as i64),
        ).emit(InstrView::Eq);
        let next = (tested.code.len() + 3) as usize;
        let jumped = tested.emit(InstrView::JumpIfFalse(next));
        let loaded = jumped.load(ValueView::String(seq![chars[0]]));
        let stored = loaded.emit(InstrView::StoreGlobal(variable));
        let after = emit_char_bindings(stored, cursor, variable, chars.skip(1), index + 1);
        let skips = none.insert(next as int);
        lemma_char_bindings_extends(stored, cursor, variable, chars.skip(1), index + 1);
        lemma_char_bindings_depth(stored, cursor, variable, chars.skip(1), index + 1);
        lemma_binding_test(st, cursor, index, next, skips);
        lemma_level_load(st, jumped, ValueView::String(seq![chars[0]]), st.depth, skips);
        lemma_level_emit(st, loaded, InstrView::StoreGlobal(variable), st.depth, skips);
        assert(next == stored.code.len());
        lemma_char_bindings_level(stored, cursor, variable, chars.skip(1), index + 1);
        lemma_level_lands(stored, after, st.depth, none, skips);
        lemma_level_chain(st, stored, after, st.depth, skips);
        assert(depth_at(after, next as int) == depth_at(stored, next as int));
        lemma_level_lands(st, after, st.depth, skips, none);
    } else {
        lemma_straight_level(st, st, st.depth, none);
    }
}

/// Every jump in the code of a branch of an `if` keeps to the depth at
/// which the branch began, and lands in the branch, behind it, at the end
/// of the whole statement, or at a jump target of the enclosing loop.
pub proof fn lemma_branch_level(
    st: CompilerView,
    condition: ExprView,
    body: Seq<StmtView>,
    end: usize,
    targets: Option<LoopTargets>,
)
    requires
        fitting(emit_branch(st, condition, body, end, targets)),
    ensures
        keeps_level(
            st,
            emit_branch(st, condition, body, end, targets),
            exits(targets).insert(end as int),
        ),
    decreases body, 1nat,
{
    lemma_expr_straight(st, condition);
    lemma_expr_depth(st, condition);
    if let Ok(tested) = emit_expr(st, condition) {
        let next = (tested.code.len() + stmts_size(body) + 2) as usize;
        let jumped = tested.emit(InstrView::JumpIfFalse(next));
        lemma_stmts_level(jumped, body, targets);
        lemma_stmts_depth(jumped, body, targets);
        lemma_stmts_appends(jumped, body, targets);
        if let Ok(done) = emit_stmts(jumped, body, targets) {
            let after = done.emit(InstrView::Jump(end));
            let wide = exits(targets).insert(end as int);
            let skips = wide.insert(next as int);
            lemma_straight_level(st, tested, st.depth, skips);
            lemma_level_emit(st, tested, InstrView::JumpIfFalse(next), st.depth, skips);
            lemma_level_lands(jumped, done, st.depth, exits(targets), skips);
            lemma_level_chain(st, jumped, done, st.depth, skips);
            lemma_level_emit(st, done, InstrView::Jump(end), st.depth, skips);
            assert(next == after.code.len());
            lemma_level_lands(st, after, st.depth, skips, wide);
        }
    }
}

/// Every jump in the code of the `elif` branches of an `if` keeps to the
/// depth at which they began.
pub proof fn lemma_elifs_level(
    st: CompilerView,
    branches: Seq<(ExprView, Seq<StmtView>)>,
    end: usize,
    targets: Option<LoopTargets>,
)
    requires
        fitting(emit_elifs(st, branches, end, targets)),
    ensures
        keeps_level(st, emit_elifs(st, branches, end, targets), exits(targets).insert(end as int)),
    decreases branches, 0nat,
{
    let wide = exits(targets).insert(end as int);
    if branches.len() > 0 {
        if let Ok(next) = emit_branch(st, branches[0].0, branches[0].1, end, targets) {
            lemma_elifs_appends(next, branches.skip(1), end, targets);
            if let Ok(after) = emit_elifs(next, branches.skip(1), end, targets) {
                lemma_branch_level(st, branches[0].0, branches[0].1, end, targets);
                lemma_branch_depth(st, branches[0].0, branches[0].1, end, targets);
                lemma_elifs_level(next, branches.skip(1), end, targets);
                lemma_level_chain(st, next, after, st.depth, wide);
            }
        }
    } else {
        lemma_straight_level(st, st, st.depth, wide);
    }
}

/// Every jump in the code of an `if` keeps to the depth at which the
/// statement began.
proof fn lemma_if_level(st: CompilerView, s: StmtView, targets: Option<LoopTargets>)
    requires
        s is If,
    ensures
        keeps_level(st, emit_stmt(st, s, targets), exits(targets)),
    decreases s, 0nat,
{
    if let StmtView::If { condition, then_branch, elif_branches, else_branch } = s {
        if let Ok(after) = emit_stmt(st, s, targets) {
            let out = exits(targets);
            let end = (st.code.len() + stmt_size(s)) as usize;
            let wide = out.insert(end as int);
            lemma_stmt_appends(st, s, targets);
            lemma_stmt_depth(st, s, targets);
            lemma_branch_appends(st, condition, then_branch, end, targets);
            lemma_branch_depth(st, condition, then_branch, end, targets);
            let st1 = emit_branch(st, condition, then_branch, end, targets)->Ok_0;
            lemma_elifs_appends(st1, elif_branches, end, targets);
            lemma_elifs_depth(st1, elif_branches, end, targets);
            let st2 = emit_elifs(st1, elif_branches, end, targets)->Ok_0;
            if let Some(body) = else_branch {
                lemma_stmts_appends(st2, body, targets);
            }
            lemma_branch_level(st, condition, then_branch, end, targets);
            lemma_elifs_level(st1, elif_branches, end, targets);
            lemma_level_chain(st, st1, st2, st.depth, wide);
            if let Some(body) = else_branch {
                lemma_stmts_level(st2, body, targets);
                lemma_level_lands(st2, after, st.depth, out, wide);
                lemma_level_chain(st, st2, after, st.depth, wide);
            }
            lemma_level_lands(st, after, st.depth, wide, out);
        }
    }
}

/// Every jump in the code of a `while` keeps to the depth at which the
/// statement began.
proof fn lemma_while_level(st: CompilerView, s: StmtView, targets: Option<LoopTargets>)
    requires
        s is While,
    ensures
        keeps_level(st, emit_stmt(st, s, targets), exits(targets)),
    decreases s, 0nat,
{
    if let StmtView::While { condition, body } = s {
        if let Ok(after) = emit_stmt(st, s, targets) {
            let head = st.code.len() as usize;
            let end = (st.code.len() + stmt_size(s)) as usize;
            let inner = Some(LoopTargets { continue_target: head, break_target: end });
            let loops = exits(inner);
            lemma_stmt_appends(st, s, targets);
            lemma_stmt_depth(st, s, targets);
            lemma_expr_straight(st, condition);
            lemma_expr_depth(st, condition);
            let tested = emit_expr(st, condition)->Ok_0;
            let jumped = tested.emit(InstrView::JumpIfFalse(end));
            lemma_stmts_level(jumped, body, inner);
            lemma_stmts_depth(jumped, body, inner);
            let done = emit_stmts(jumped, body, inner)->Ok_0;
            lemma_straight_level(st, tested, st.depth, loops);
            lemma_level_emit(st, tested, InstrView::JumpIfFalse(end), st.depth, loops);
            lemma_level_chain(st, jumped, done, st.depth, loops);
            lemma_level_emit(st, done, InstrView::Jump(head), st.depth, loops);
            assert(depth_at(after, head as int) == depth_at(st, head as int));
            lemma_level_lands(st, after, st.depth, loops, exits(targets));
        }
    }
}

/// Every jump in the code of a `for` keeps to the depth at which the
/// statement began.
proof fn lemma_for_level(st: CompilerView, s: StmtView, targets: Option<LoopTargets>)
    requires
        s is For,
    ensures
        keeps_level(st, emit_stmt(st, s, targets), exits(targets)),
    decreases s, 0nat,
{
    if let StmtView::For { variable, iterable, body } = s {
        if let Ok(after) = emit_stmt(st, s, targets) {
            let d = st.depth;
            let count = iterable_count(iterable)->Some_0;
            let cursor = cursor_name(st.code.len());
            let head = (st.code.len() + 2) as usize;
            let end = (st.code.len() + stmt_size(s)) as usize;
            let step = (end - 5) as usize;
            let inner = Some(LoopTargets { continue_target: step, break_target: end });
            let loops = exits(inner).insert(head as int);
            lemma_stmt_appends(st, s, targets);
            lemma_stmt_depth(st, s, targets);
            // The loop head.
            let zero = st.load(ValueView::Integer(0));
            let started = zero.emit(InstrView::StoreGlobal(cursor));
            let read = started.emit(InstrView::LoadGlobal(cursor));
            let limit = read.load(ValueView::Integer(count as i64));
            let compared = limit.emit(InstrView::Lt);
            let headed = compared.emit(InstrView::JumpIfFalse(end));
            assert(headed == emit_for_head(st, cursor, count, end));
            lemma_straight_level(st, st, d, loops);
            lemma_level_load(st, st, ValueView::Integer(0), d, loops);
            lemma_level_emit(st, zero, InstrView::StoreGlobal(cursor), d, loops);
            lemma_straight_level(started, started, d, loops);
            lemma_level_emit(started, started, InstrView::LoadGlobal(cursor), d, loops);
            lemma_level_load(started, read, ValueView::Integer(count as i64), d, loops);
            lemma_level_emit(started, limit, InstrView::Lt, d, loops);
            lemma_level_emit(started, compared, InstrView::JumpIfFalse(end), d, loops);
            // The bindings.
            match iterable {
                ExprView::ArrayLiteral(elements) => {
                    lemma_element_bindings_appends(headed, cursor, variable, elements, 0);
                    lemma_element_bindings_depth(headed, cursor, variable, elements, 0);
                },
                ExprView::Literal(LiteralView::String(raw)) => {
                    lemma_char_bindings_extends(headed, cursor, variable, unquote(raw), 0);
                    lemma_char_bindings_depth(headed, cursor, variable, unquote(raw), 0);
                },
                _ => {},
            }
            let bound = emit_bindings(headed, cursor, variable, iterable)->Ok_0;
            lemma_stmts_appends(bound, body, inner);
            lemma_stmts_depth(bound, body, inner);
            let done = emit_stmts(bound, body, inner)->Ok_0;
            match iterable {
                ExprView::ArrayLiteral(elements) => {
                    lemma_element_bindings_level(headed, cursor, variable, elements, 0);
                },
                ExprView::Literal(LiteralView::String(raw)) => {
                    lemma_char_bindings_level(headed, cursor, variable, unquote(raw), 0);
                },
                _ => {},
            }
            lemma_level_lands(headed, bound, d, Set::empty(), loops);
            lemma_level_chain(started, headed, bound, d, loops);
            // The body.
            lemma_stmts_level(bound, body, inner);
            lemma_level_lands(bound, done, d, exits(inner), loops);
            lemma_level_chain(started, bound, done, d, loops);
            // The increment and the jump back.
            let again = done.emit(InstrView::LoadGlobal(cursor));
            let one = again.load(ValueView::Integer(1));
            let added = one.emit(InstrView::Add);
            let moved = added.emit(InstrView::StoreGlobal(cursor));
            assert(after == moved.emit(InstrView::Jump(head)));
            lemma_level_emit(started, done, InstrView::LoadGlobal(cursor), d, loops);
            lemma_level_load(started, again, ValueView::Integer(1), d, loops);
            lemma_level_emit(started, one, InstrView::Add, d, loops);
            lemma_level_emit(started, added, InstrView::StoreGlobal(cursor), d, loops);
            lemma_level_emit(started, moved, InstrView::Jump(head), d, loops);
            // Where the jumps land.
            lemma_continues_chain(done, again, one);
            lemma_continues_chain(done, one, added);
            lemma_continues_chain(done, added, moved);
            lemma_continues_chain(done, moved, after);
            assert(depth_at(after, head as int) == depth_at(started, head as int));
            assert(depth_at(after, step as int) == depth_at(done, step as int));
            lemma_level_lands(started, after, d, loops, Set::empty());
            lemma_level_chain(st, started, after, d, Set::empty());
            lemma_level_lands(st, after, d, Set::empty(), exits(targets));
        }
    }
}

/// Stack discipline of statements along every path: every jump in the code
/// of a statement leaves the stack as deep as the statement found it, and
/// lands in the statement's own code or at its end, where the depth that
/// was counted is that depth too, or at a jump target of the enclosing
/// loop.
pub proof fn lemma_stmt_level(st: CompilerView, s: StmtView, targets: Option<LoopTargets>)
    ensures
        keeps_level(st, emit_stmt(st, s, targets), exits(targets)),
    decreases s, 1nat,
{
    let out = exits(targets);
    match s {
        StmtView::Expression(e) => {
            lemma_expr_straight(st, e);
            lemma_expr_depth(st, e);
            if let Ok(mid) = emit_expr(st, e) {
                lemma_straight_emit(st, mid, InstrView::Pop, st.depth);
                lemma_straight_level(st, mid.emit(InstrView::Pop), st.depth, out);
            }
        },
        StmtView::VariableDeclaration { name, value, .. } => {
            lemma_expr_straight(st, value);
            lemma_expr_depth(st, value);
            if let Ok(mid) = emit_expr(st, value) {
                lemma_straight_emit(st, mid, InstrView::StoreGlobal(name), st.depth);
                lemma_straight_level(st, mid.emit(InstrView::StoreGlobal(name)), st.depth, out);
            }
        },
        StmtView::Block(body) => {
            lemma_stmts_level(st, body, targets);
        },
        StmtView::UnsafeBlock(body) => {
            lemma_stmts_level(st, body, targets);
        },
        StmtView::If { .. } => {
            lemma_if_level(st, s, targets);
        },
        StmtView::While { .. } => {
            lemma_while_level(st, s, targets);
        },
        StmtView::For { .. } => {
            lemma_for_level(st, s, targets);
        },
        StmtView::Break => {
            if let Some(t) = targets {
                lemma_straight_level(st, st, st.depth, out);
                lemma_level_emit(st, st, InstrView::Jump(t.break_target), st.depth, out);
            }
        },
        StmtView::Continue => {
            if let Some(t) = targets {
                lemma_straight_level(st, st, st.depth, out);
                lemma_level_emit(st, st, InstrView::Jump(t.continue_target), st.depth, out);
            }
        },
        StmtView::Import(_) => {
            lemma_straight_level(st, st, st.depth, out);
        },
        StmtView::ImportAs(_, _) => {
            lemma_straight_level(st, st, st.depth, out);
        },
        StmtView::Function(_) => {},
    }
}

/// Every jump in the code of statements that are lowered in order keeps to
/// the depth at which they began.
pub proof fn lemma_stmts_level(st: CompilerView, ss: Seq<StmtView>, targets: Option<LoopTargets>)
    ensures
        keeps_level(st, emit_stmts(st, ss, targets), exits(targets)),
    decreases ss, 0nat,
{
    if ss.len() > 0 {
        lemma_stmt_level(st, ss[0], targets);
        lemma_stmt_depth(st, ss[0], targets);
        if let Ok(next) = emit_stmt(st, ss[0], targets) {
            lemma_stmts_level(next, ss.skip(1), targets);
            if let Ok(after) = emit_stmts(next, ss.skip(1), targets) {
                lemma_level_chain(st, next, after, st.depth, exits(targets));
            }
        }
    } else {
        lemma_straight_level(st, st, st.depth, exits(targets));
    }
}

/// The binding of the parameters does not jump, and takes one value from
/// the stack for each parameter.
pub proof fn lemma_parameters_straight(st: CompilerView, parameters: Seq<(Seq<char>, TypeView)>)
    ensures
        straight_to(st, emit_parameters(st, parameters), st.depth - parameters.len()),
        emit_parameters(st, parameters).depth == st.depth - parameters.len(),
    decreases parameters.len(),
{
    let level = st.depth - parameters.len();
    if parameters.len() > 0 {
        let stored = st.emit(InstrView::StoreGlobal(parameters.last().0));
        lemma_straight_emit(st, st, InstrView::StoreGlobal(parameters.last().0), level);
        lemma_parameters_straight(stored, parameters.drop_last());
        lemma_straight_chain(
            st,
            stored,
            emit_parameters(stored, parameters.drop_last()),
            level,
            level,
        );
    }
}

/// Stack discipline of a function along every path: every jump in the code
/// of a function lands in the function's own code or at its end, where the
/// depth that was counted is the depth behind the jump, namely the depth
/// that the binding of the parameters leaves.
pub proof fn lemma_function_level(st: CompilerView, f: FunctionView)
    ensures
        emit_function(st, f) matches Ok(after) ==> level_to(
            st,
            after,
            st.depth - f.parameters.len(),
            Set::empty(),
        ),
{
    if let Ok(after) = emit_function(st, f) {
        let d = st.depth - f.parameters.len();
        let none = Set::<int>::empty();
        let bound = emit_parameters(st, f.parameters);
        lemma_parameters_straight(st, f.parameters);
        lemma_stmts_level(bound, f.body, None);
        lemma_stmts_depth(bound, f.body, None);
        let done = emit_stmts(bound, f.body, None)->Ok_0;
        lemma_straight_level(st, bound, d, none);
        lemma_level_chain(st, bound, done, d, none);
        lemma_level_load(st, done, ValueView::Null, d, none);
        lemma_level_emit(st, done.load(ValueView::Null), InstrView::Return, d, none);
    }
}

/// Code whose paths agree, behind code whose paths agree, makes code whose
/// paths agree.
pub proof fn lemma_paths_chain(st: CompilerView, mid: CompilerView, after: CompilerView)
    requires
        continues(st, mid),
        paths_agree(mid, st.code.len() as int),
        continues(mid, after),
        paths_agree(after, mid.code.len() as int),
    ensures
        continues(st, after),
        paths_agree(after, st.code.len() as int),
{
    lemma_continues_chain(st, mid, after);
    assert forall|i: int| 0 <= i && st.code.len() <= i < after.code.len() implies counts(after, i)
        && (jump_target(#[trigger] after.code[i]) matches Some(target) ==> st.code.len() <= target
        <= after.code.len() && depth_at(after, target) == depth_at(after, i + 1)) by {
        if i < mid.code.len() {
            assert(after.code[i] == mid.code[i]);
            lemma_counts_carry(mid, after, i);
            assert(depth_at(after, i + 1) == depth_at(mid, i + 1));
            if let Some(target) = jump_target(mid.code[i]) {
                assert(depth_at(after, target) == depth_at(mid, target));
            }
        }
    }
}

/// Stack discipline of a function along every path: the depth that the
/// compiler counts behind each instruction of a function is what the
/// instruction makes of the depth before it, and every jump of the
/// function lands in the function's own code or at its end, where the
/// depth that was counted is the depth behind the jump.
pub proof fn lemma_function_paths(st: CompilerView, f: FunctionView)
    ensures
        emit_function(st, f) matches Ok(after) ==> continues(st, after) && paths_agree(
            after,
            st.code.len() as int,
        ),
{
    lemma_function_level(st, f);
}

/// Stack discipline along every path of functions that are lowered one
/// after the other: the depth that the compiler counts behind each
/// instruction is what the instruction makes of the depth before it, and
/// every jump lands where the depth that was counted is the depth behind
/// the jump.
pub proof fn lemma_functions_paths(st: CompilerView, fs: Seq<FunctionView>)
    ensures
        emit_functions(st, fs) matches Ok(after) ==> continues(st, after) && paths_agree(
            after,
            st.code.len() as int,
        ),
    decreases fs.len(),
{
    if fs.len() > 0 {
        lemma_function_paths(st, fs[0]);
        if let Ok(next) = emit_function(st, fs[0]) {
            lemma_functions_paths(next, fs.skip(1));
            if let Ok(after) = emit_functions(next, fs.skip(1)) {
                lemma_paths_chain(st, next, after);
            }
        }
    }
}

} // verus!
