//! What the compiler emits: the lowering of expressions, statements and
//! functions, as spec functions on the compiler's model.

use crate::ast::{BinaryOp, ExprView, Function, FunctionView, LiteralView, StmtView, TypeView};
use crate::bytecode::{effect, InstrView, BUILTIN_FORMAT, BUILTIN_PRINT, BUILTIN_PUTS};
use crate::compiler::{CompileErrorView, EntryView};
use crate::text::{decimal, unquote};
use crate::value::ValueView;
use vstd::prelude::*;

verus! {

/// Where `continue` and `break` of the innermost enclosing loop jump to.
#[derive(Debug, Clone, Copy)]
pub struct LoopTargets {
    pub continue_target: usize,
    pub break_target: usize,
}

/// Model of the compiler: what it has emitted, the function table, and
/// the simulated depth of the operand stack, now and before each
/// instruction.
pub struct CompilerView {
    pub code: Seq<InstrView>,
    pub constants: Seq<ValueView>,
    pub functions: Seq<EntryView>,
    /// The depth that the operand stack has after the code emitted so far,
    /// counted instruction by instruction as the code was emitted.
    pub depth: int,
    /// The depth that was counted before each instruction, by the
    /// instruction's position in the code.
    pub depths: Map<int, int>,
}

/// What a lowering yields: the compiler afterwards, or the first error.
pub type Lowered = Result<CompilerView, CompileErrorView>;

impl CompilerView {
    /// The compiler after emitting one instruction.
    pub open spec fn emit(self, instr: InstrView) -> CompilerView {
        CompilerView {
            code: self.code.push(instr),
            depth: self.depth + effect(instr),
            depths: self.depths.insert(self.code.len() as int, self.depth),
            ..self
        }
    }

    /// The compiler after appending `value` to the constant pool and
    /// emitting the instruction that loads it.
    pub open spec fn load(self, value: ValueView) -> CompilerView {
        CompilerView {
            code: self.code.push(InstrView::LoadConst(self.constants.len() as usize)),
            constants: self.constants.push(value),
            depth: self.depth + 1,
            depths: self.depths.insert(self.code.len() as int, self.depth),
            ..self
        }
    }

    /// The compiler after emitting the formatting of `count` substitution
    /// arguments: the count is loaded as a new constant, then the builtin
    /// that formats is called. It takes the count, the arguments and the
    /// format below them, and leaves the text.
    pub open spec fn format(self, count: nat) -> CompilerView {
        CompilerView {
            depth: self.depth - count,
            ..self.load(ValueView::Integer(count as i64)).emit(
                InstrView::CallBuiltin(BUILTIN_FORMAT),
            )
        }
    }
}

/// Emits `instr` after a lowering that succeeded.
pub open spec fn and_emit(r: Lowered, instr: InstrView) -> Lowered {
    match r {
        Ok(st) => Ok(st.emit(instr)),
        Err(e) => Err(e),
    }
}

/// Loads `value` after a lowering that succeeded.
pub open spec fn and_load(r: Lowered, value: ValueView) -> Lowered {
    match r {
        Ok(st) => Ok(st.load(value)),
        Err(e) => Err(e),
    }
}

/// Formats `count` substitution arguments after a lowering that succeeded.
pub open spec fn and_format(r: Lowered, count: nat) -> Lowered {
    match r {
        Ok(st) => Ok(st.format(count)),
        Err(e) => Err(e),
    }
}

/// The runtime value of a literal. A string literal loses its quotes and
/// has its escape sequences replaced.
pub open spec fn literal_value(literal: LiteralView) -> ValueView {
    match literal {
        LiteralView::Integer(n) => ValueView::Integer(n),
        LiteralView::String(raw) => ValueView::String(unquote(raw)),
        LiteralView::Boolean(b) => ValueView::Boolean(b),
    }
}

/// The instruction of a binary operator.
pub open spec fn operator_instr(op: BinaryOp) -> InstrView {
    match op {
        BinaryOp::Add => InstrView::Add,
        BinaryOp::Subtract => InstrView::Sub,
        BinaryOp::Multiply => InstrView::Mul,
        BinaryOp::Divide => InstrView::Div,
        BinaryOp::Modulo => InstrView::Mod,
        BinaryOp::Equal => InstrView::Eq,
        BinaryOp::NotEqual => InstrView::Ne,
        BinaryOp::Less => InstrView::Lt,
        BinaryOp::LessEqual => InstrView::Le,
        BinaryOp::Greater => InstrView::Gt,
        BinaryOp::GreaterEqual => InstrView::Ge,
    }
}

/// The builtin that a name denotes, if any.
pub open spec fn builtin_id(name: Seq<char>) -> Option<usize> {
    if name == "puts"@ {
        Some(BUILTIN_PUTS)
    } else if name == "print"@ {
        Some(BUILTIN_PRINT)
    } else {
        None
    }
}

/// The first entry of the function table with that name.
pub open spec fn lookup(functions: Seq<EntryView>, name: Seq<char>) -> Option<EntryView>
    decreases functions.len(),
{
    if functions.len() == 0 {
        None
    } else if functions[0].name == name {
        Some(functions[0])
    } else {
        lookup(functions.skip(1), name)
    }
}

/// The number of instructions that an expression lowers to.
pub open spec fn expr_size(e: ExprView) -> nat
    decreases e,
{
    match e {
        ExprView::Literal(_) => 1,
        ExprView::Variable(_) => 1,
        ExprView::VariableDeclaration { .. } => 0,
        ExprView::Binary { left, right, .. } => expr_size(*left) + expr_size(*right) + 1,
        ExprView::Call { name, arguments } => if builtin_id(name) is Some {
            exprs_size(arguments) + 1
        } else {
            exprs_size(arguments) + 2
        },
        ExprView::FormatCall { arguments, .. } => exprs_size(arguments) + 4,
        ExprView::ArrayLiteral(elements) => exprs_size(elements) + elements.len() + 1,
        ExprView::ArrayAccess { array, index } => expr_size(*array) + expr_size(*index) + 3,
        ExprView::ArrayAssignment { .. } => 0,
        ExprView::StructDefinition { .. } => 1,
        ExprView::StructInitialization { fields, .. } => fields_size(fields) + fields.len() + 1,
        ExprView::StructFieldAccess { object, .. } => expr_size(*object) + 2,
        ExprView::StructFieldAssignment { .. } => 0,
        ExprView::EnumVariantCreation { values, .. } => exprs_size(values) + values.len() + 1,
        ExprView::EnumMatch { .. } => 1,
    }
}

/// The number of instructions that the expressions lower to, together.
pub open spec fn exprs_size(es: Seq<ExprView>) -> nat
    decreases es,
{
    if es.len() == 0 {
        0
    } else {
        expr_size(es[0]) + exprs_size(es.skip(1))
    }
}

/// The number of instructions that the initializers lower to, together.
pub open spec fn fields_size(fields: Seq<(Seq<char>, ExprView)>) -> nat
    decreases fields,
{
    if fields.len() == 0 {
        0
    } else {
        expr_size(fields[0].1) + fields_size(fields.skip(1))
    }
}

/// Whether the lowering of the expression fails before anything is
/// emitted: the expression itself is at fault, not a part of it.
pub open spec fn rejected_at_once(st: CompilerView, e: ExprView) -> bool {
    match e {
        ExprView::VariableDeclaration { .. } => true,
        ExprView::ArrayAssignment { .. } => true,
        ExprView::StructFieldAssignment { .. } => true,
        ExprView::Call { name, arguments } => match builtin_id(name) {
            Some(_) => arguments.len() != 1,
            None => lookup(st.functions, name) is None || arguments.len() > usize::MAX,
        },
        ExprView::FormatCall { name, arguments, .. } => builtin_id(name) is None
            || arguments.len() > i64::MAX,
        _ => false,
    }
}

/// The lowering of an expression: code that leaves one value on the stack.
///
/// - A literal loads a new constant; a variable reads the global of its
///   name.
/// - A binary operation lowers its left operand, then its right operand,
///   then emits the operator's instruction.
/// - A call of `puts` or `print` takes exactly one argument, lowers it and
///   calls the builtin, which pops the one value.
/// - A call of another name resolves it in the function table, lowers the
///   arguments in order, loads the function's descriptor and calls it.
/// - A format call loads the format text, lowers the arguments in order,
///   loads their count as a constant and calls the builtin that formats
///   (see [`BUILTIN_FORMAT`]), which leaves the one text; then it calls
///   `puts` or `print` as a plain call does. The count of the arguments is
///   carried by that constant and read by the formatting builtin alone.
/// - An assignment, to a name, to an element or to a field, is an error.
/// - Array, struct and enum expressions lower their parts for their effects
///   and load one placeholder value.
pub open spec fn emit_expr(st: CompilerView, e: ExprView) -> Lowered
    decreases e,
{
    match e {
        ExprView::Literal(literal) => Ok(st.load(literal_value(literal))),
        ExprView::Variable(name) => Ok(st.emit(InstrView::LoadGlobal(name))),
        ExprView::VariableDeclaration { .. } => Err(CompileErrorView::ReassignmentUnsupported),
        ExprView::Binary { left, operator, right } => match emit_expr(st, *left) {
            Ok(st1) => and_emit(emit_expr(st1, *right), operator_instr(operator)),
            Err(e) => Err(e),
        },
        ExprView::Call { name, arguments } => match builtin_id(name) {
            Some(id) => {
                if arguments.len() != 1 {
                    Err(CompileErrorView::UnknownBuiltinArity)
                } else {
                    and_emit(emit_expr(st, arguments[0]), InstrView::CallBuiltin(id))
                }
            },
            None => match lookup(st.functions, name) {
                Some(f) => {
                    if arguments.len() > usize::MAX {
                        Err(CompileErrorView::ProgramTooLarge)
                    } else {
                        and_emit(
                            and_load(
                                emit_exprs(st, arguments),
                                ValueView::Function { name, ip: f.entry, num_params: f.num_params },
                            ),
                            InstrView::Call(arguments.len() as usize),
                        )
                    }
                },
                None => Err(CompileErrorView::UnresolvedCallee(name)),
            },
        },
        ExprView::FormatCall { name, format_string, arguments } => match builtin_id(name) {
            Some(id) => {
                if arguments.len() > i64::MAX {
                    Err(CompileErrorView::ProgramTooLarge)
                } else {
                    and_emit(
                        and_format(
                            emit_exprs(
                                st.load(ValueView::String(unquote(format_string))),
                                arguments,
                            ),
                            arguments.len(),
                        ),
                        InstrView::CallBuiltin(id),
                    )
                }
            },
            None => Err(CompileErrorView::UnresolvedCallee(name)),
        },
        ExprView::ArrayLiteral(elements) => and_load(
            emit_discarded(st, elements),
            ValueView::String("array_"@ + decimal(elements.len())),
        ),
        ExprView::ArrayAccess { array, index } => match emit_expr(st, *array) {
            Ok(st1) => and_load(
                and_emit(emit_expr(st1.emit(InstrView::Pop), *index), InstrView::Pop),
                ValueView::Integer(0),
            ),
            Err(e) => Err(e),
        },
        ExprView::ArrayAssignment { .. } => Err(CompileErrorView::ReassignmentUnsupported),
        ExprView::StructDefinition { .. } => Ok(st.load(ValueView::Null)),
        ExprView::StructInitialization { fields, .. } => and_load(
            emit_fields(st, fields),
            ValueView::String("struct_instance"@),
        ),
        ExprView::StructFieldAccess { object, field } => and_load(
            and_emit(emit_expr(st, *object), InstrView::Pop),
            ValueView::String(field),
        ),
        ExprView::StructFieldAssignment { .. } => Err(
            CompileErrorView::ReassignmentUnsupported,
        ),
        ExprView::EnumVariantCreation { variant_name, values, .. } => and_load(
            emit_discarded(st, values),
            ValueView::String("enum_"@ + variant_name),
        ),
        ExprView::EnumMatch { .. } => Ok(st.load(ValueView::Null)),
    }
}

/// The lowering of expressions in order, each leaving its value on the
/// stack.
pub open spec fn emit_exprs(st: CompilerView, es: Seq<ExprView>) -> Lowered
    decreases es,
{
    if es.len() == 0 {
        Ok(st)
    } else {
        match emit_expr(st, es[0]) {
            Ok(next) => emit_exprs(next, es.skip(1)),
            Err(e) => Err(e),
        }
    }
}

/// The lowering of expressions in order, each value popped again.
pub open spec fn emit_discarded(st: CompilerView, es: Seq<ExprView>) -> Lowered
    decreases es,
{
    if es.len() == 0 {
        Ok(st)
    } else {
        match emit_expr(st, es[0]) {
            Ok(next) => emit_discarded(next.emit(InstrView::Pop), es.skip(1)),
            Err(e) => Err(e),
        }
    }
}

/// The lowering of initializers in order, each value popped again.
pub open spec fn emit_fields(st: CompilerView, fields: Seq<(Seq<char>, ExprView)>) -> Lowered
    decreases fields,
{
    if fields.len() == 0 {
        Ok(st)
    } else {
        match emit_expr(st, fields[0].1) {
            Ok(next) => emit_fields(next.emit(InstrView::Pop), fields.skip(1)),
            Err(e) => Err(e),
        }
    }
}

/// The number of instructions that a statement lowers to.
pub open spec fn stmt_size(s: StmtView) -> nat
    decreases s,
{
    match s {
        StmtView::Expression(e) => expr_size(e) + 1,
        StmtView::VariableDeclaration { value, .. } => expr_size(value) + 1,
        StmtView::Block(body) => stmts_size(body),
        StmtView::Function(_) => 0,
        StmtView::If { condition, then_branch, elif_branches, else_branch } => expr_size(condition)
            + stmts_size(then_branch) + 2 + elifs_size(elif_branches) + match else_branch {
            Some(body) => stmts_size(body),
            None => 0,
        },
        StmtView::While { condition, body } => expr_size(condition) + stmts_size(body) + 2,
        StmtView::For { iterable, body, .. } => 11 + bindings_size(iterable) + stmts_size(body),
        StmtView::Break => 1,
        StmtView::Continue => 1,
        StmtView::UnsafeBlock(body) => stmts_size(body),
        StmtView::Import(_) => 0,
        StmtView::ImportAs(_, _) => 0,
    }
}

/// The number of instructions that the statements lower to, together.
pub open spec fn stmts_size(ss: Seq<StmtView>) -> nat
    decreases ss,
{
    if ss.len() == 0 {
        0
    } else {
        stmt_size(ss[0]) + stmts_size(ss.skip(1))
    }
}

/// The number of instructions that the `elif` branches lower to, together.
pub open spec fn elifs_size(branches: Seq<(ExprView, Seq<StmtView>)>) -> nat
    decreases branches,
{
    if branches.len() == 0 {
        0
    } else {
        expr_size(branches[0].0) + stmts_size(branches[0].1) + 2 + elifs_size(branches.skip(1))
    }
}

/// The number of elements that a `for` walks over, where its iterable is an
/// array literal or a string literal.
pub open spec fn iterable_count(iterable: ExprView) -> Option<nat> {
    match iterable {
        ExprView::ArrayLiteral(elements) => Some(elements.len()),
        ExprView::Literal(LiteralView::String(raw)) => Some(unquote(raw).len()),
        _ => None,
    }
}

/// The number of instructions that bind the elements of an iterable, one
/// after the other, to the loop variable.
pub open spec fn bindings_size(iterable: ExprView) -> nat {
    match iterable {
        ExprView::ArrayLiteral(elements) => exprs_size(elements) + 5 * elements.len(),
        ExprView::Literal(LiteralView::String(raw)) => 6 * unquote(raw).len(),
        _ => 0,
    }
}

/// The name of the global that holds the cursor of the `for` whose code
/// starts at `start`. No identifier of the language has this form.
pub open spec fn cursor_name(start: nat) -> Seq<char> {
    "@for"@ + decimal(start)
}

/// Whether `size` more instructions keep every offset within a machine
/// word.
pub open spec fn fits(st: CompilerView, size: nat) -> bool {
    st.code.len() + size <= usize::MAX
}

/// The bindings of the elements of an array literal: for each element, in
/// order, code that evaluates it into the loop variable if the cursor
/// equals its index, and skips it otherwise.
pub open spec fn emit_element_bindings(
    st: CompilerView,
    cursor: Seq<char>,
    variable: Seq<char>,
    es: Seq<ExprView>,
    index: int,
) -> Lowered
    decreases es,
{
    if es.len() == 0 {
        Ok(st)
    } else {
        let tested = st.emit(InstrView::LoadGlobal(cursor)).load(
            ValueView::Integer(index as i64),
        ).emit(InstrView::Eq);
        let next = (tested.code.len() + expr_size(es[0]) + 2) as usize;
        match emit_expr(tested.emit(InstrView::JumpIfFalse(next)), es[0]) {
            Ok(bound) => emit_element_bindings(
                bound.emit(InstrView::StoreGlobal(variable)),
                cursor,
                variable,
                es.skip(1),
                index + 1,
            ),
            Err(e) => Err(e),
        }
    }
}

/// The bindings of the characters of a string literal: for each character,
/// in order, code that stores it into the loop variable if the cursor
/// equals its index, and skips it otherwise.
pub open spec fn emit_char_bindings(
    st: CompilerView,
    cursor: Seq<char>,
    variable: Seq<char>,
    chars: Seq<char>,
    index: int,
) -> CompilerView
    decreases chars.len(),
{
    if chars.len() == 0 {
        st
    } else {
        let tested = st.emit(InstrView::LoadGlobal(cursor)).load(
            ValueView::Integer(index as i64),
        ).emit(InstrView::Eq);
        let next = (tested.code.len() + 3) as usize;
        emit_char_bindings(
            tested.emit(InstrView::JumpIfFalse(next)).load(ValueView::String(seq![chars[0]])).emit(
                InstrView::StoreGlobal(variable),
            ),
            cursor,
            variable,
            chars.skip(1),
            index + 1,
        )
    }
}

/// The bindings of the elements of an iterable.
pub open spec fn emit_bindings(
    st: CompilerView,
    cursor: Seq<char>,
    variable: Seq<char>,
    iterable: ExprView,
) -> Lowered {
    match iterable {
        ExprView::ArrayLiteral(elements) => emit_element_bindings(
            st,
            cursor,
            variable,
            elements,
            0,
        ),
        ExprView::Literal(LiteralView::String(raw)) => Ok(
            emit_char_bindings(st, cursor, variable, unquote(raw), 0),
        ),
        _ => Err(CompileErrorView::NonIterableForTarget),
    }
}

/// The code before the bindings of a `for`: the cursor starts at zero, and
/// the loop head leaves the loop once the cursor has reached `count`.
pub open spec fn emit_for_head(
    st: CompilerView,
    cursor: Seq<char>,
    count: nat,
    end: usize,
) -> CompilerView {
    st.load(ValueView::Integer(0)).emit(InstrView::StoreGlobal(cursor)).emit(
        InstrView::LoadGlobal(cursor),
    ).load(ValueView::Integer(count as i64)).emit(InstrView::Lt).emit(InstrView::JumpIfFalse(end))
}

/// The code after the body of a `for`: the cursor moves on by one, and
/// control returns to the loop head.
pub open spec fn emit_for_step(st: CompilerView, cursor: Seq<char>, head: usize) -> CompilerView {
    st.emit(InstrView::LoadGlobal(cursor)).load(ValueView::Integer(1)).emit(InstrView::Add).emit(
        InstrView::StoreGlobal(cursor),
    ).emit(InstrView::Jump(head))
}

/// The lowering of one branch of an `if`: the condition, a jump over the
/// body to the next branch if it is false, the body, and a jump to the end
/// of the whole statement.
pub open spec fn emit_branch(
    st: CompilerView,
    condition: ExprView,
    body: Seq<StmtView>,
    end: usize,
    targets: Option<LoopTargets>,
) -> Lowered
    decreases body, 1nat,
{
    match emit_expr(st, condition) {
        Ok(tested) => {
            let next = (tested.code.len() + stmts_size(body) + 2) as usize;
            and_emit(
                emit_stmts(tested.emit(InstrView::JumpIfFalse(next)), body, targets),
                InstrView::Jump(end),
            )
        },
        Err(e) => Err(e),
    }
}

/// The lowering of the `elif` branches, in order.
pub open spec fn emit_elifs(
    st: CompilerView,
    branches: Seq<(ExprView, Seq<StmtView>)>,
    end: usize,
    targets: Option<LoopTargets>,
) -> Lowered
    decreases branches, 0nat,
{
    if branches.len() == 0 {
        Ok(st)
    } else {
        match emit_branch(st, branches[0].0, branches[0].1, end, targets) {
            Ok(next) => emit_elifs(next, branches.skip(1), end, targets),
            Err(e) => Err(e),
        }
    }
}

/// The lowering of a statement: code that leaves the stack as deep as it
/// found it. `targets` are the jump targets of the innermost enclosing
/// loop, if there is one.
///
/// - An expression statement lowers the expression and pops its value.
/// - A declaration lowers the value and stores it in the global of that
///   name.
/// - A block lowers its statements in order; an import lowers to nothing.
/// - An `if` lowers its branches one after the other, see [`emit_branch`],
///   and then its `else` body.
/// - A `while` lowers to the condition at the loop head, a jump to the end
///   if it is false, the body, and a jump back to the head. In the body
///   `continue` jumps to the head and `break` to the end.
/// - A `for` over an array literal or a string literal lowers to a cursor
///   that starts at zero, a loop head that compares it with the number of
///   elements, the binding of the element at the cursor to the loop
///   variable, the body, the increment of the cursor and a jump back to the
///   head. In the body `continue` jumps to the increment and `break` to the
///   end. Any other iterable is an error.
/// - `break` and `continue` outside a loop, and a nested function, are
///   errors.
pub open spec fn emit_stmt(st: CompilerView, s: StmtView, targets: Option<LoopTargets>) -> Lowered
    decreases s, 0nat,
{
    match s {
        StmtView::Expression(e) => and_emit(emit_expr(st, e), InstrView::Pop),
        StmtView::VariableDeclaration { name, value, .. } => and_emit(
            emit_expr(st, value),
            InstrView::StoreGlobal(name),
        ),
        StmtView::Block(body) => emit_stmts(st, body, targets),
        StmtView::Function(_) => Err(CompileErrorView::NestedFunctionUnsupported),
        StmtView::If { condition, then_branch, elif_branches, else_branch } => {
            if !fits(st, stmt_size(s)) {
                Err(CompileErrorView::ProgramTooLarge)
            } else {
                let end = (st.code.len() + stmt_size(s)) as usize;
                match emit_branch(st, condition, then_branch, end, targets) {
                    Ok(st1) => match emit_elifs(st1, elif_branches, end, targets) {
                        Ok(st2) => match else_branch {
                            Some(body) => emit_stmts(st2, body, targets),
                            None => Ok(st2),
                        },
                        Err(e) => Err(e),
                    },
                    Err(e) => Err(e),
                }
            }
        },
        StmtView::While { condition, body } => {
            if !fits(st, stmt_size(s)) {
                Err(CompileErrorView::ProgramTooLarge)
            } else {
                let head = st.code.len() as usize;
                let end = (st.code.len() + stmt_size(s)) as usize;
                match emit_expr(st, condition) {
                    Ok(tested) => and_emit(
                        emit_stmts(
                            tested.emit(InstrView::JumpIfFalse(end)),
                            body,
                            Some(LoopTargets { continue_target: head, break_target: end }),
                        ),
                        InstrView::Jump(head),
                    ),
                    Err(e) => Err(e),
                }
            }
        },
        StmtView::For { variable, iterable, body } => match iterable_count(iterable) {
            None => Err(CompileErrorView::NonIterableForTarget),
            Some(count) => {
                if !fits(st, stmt_size(s)) || count > i64::MAX {
                    Err(CompileErrorView::ProgramTooLarge)
                } else {
                    let cursor = cursor_name(st.code.len());
                    let head = (st.code.len() + 2) as usize;
                    let end = (st.code.len() + stmt_size(s)) as usize;
                    let step = (end - 5) as usize;
                    match emit_bindings(
                        emit_for_head(st, cursor, count, end),
                        cursor,
                        variable,
                        iterable,
                    ) {
                        Ok(bound) => match emit_stmts(
                            bound,
                            body,
                            Some(LoopTargets { continue_target: step, break_target: end }),
                        ) {
                            Ok(done) => Ok(emit_for_step(done, cursor, head)),
                            Err(e) => Err(e),
                        },
                        Err(e) => Err(e),
                    }
                }
            },
        },
        StmtView::Break => match targets {
            Some(t) => Ok(st.emit(InstrView::Jump(t.break_target))),
            None => Err(CompileErrorView::BreakOrContinueOutsideLoop),
        },
        StmtView::Continue => match targets {
            Some(t) => Ok(st.emit(InstrView::Jump(t.continue_target))),
            None => Err(CompileErrorView::BreakOrContinueOutsideLoop),
        },
        StmtView::UnsafeBlock(body) => emit_stmts(st, body, targets),
        StmtView::Import(_) => Ok(st),
        StmtView::ImportAs(_, _) => Ok(st),
    }
}

/// The lowering of statements in order.
pub open spec fn emit_stmts(
    st: CompilerView,
    ss: Seq<StmtView>,
    targets: Option<LoopTargets>,
) -> Lowered
    decreases ss, 0nat,
{
    if ss.len() == 0 {
        Ok(st)
    } else {
        match emit_stmt(st, ss[0], targets) {
            Ok(next) => emit_stmts(next, ss.skip(1), targets),
            Err(e) => Err(e),
        }
    }
}

/// The code that binds the arguments of a call, which lie on the stack
/// with the last on top, to the globals named by the parameters.
pub open spec fn emit_parameters(
    st: CompilerView,
    parameters: Seq<(Seq<char>, TypeView)>,
) -> CompilerView
    decreases parameters.len(),
{
    if parameters.len() == 0 {
        st
    } else {
        emit_parameters(
            st.emit(InstrView::StoreGlobal(parameters.last().0)),
            parameters.drop_last(),
        )
    }
}

/// The number of instructions that a function lowers to.
pub open spec fn function_size(f: FunctionView) -> nat {
    f.parameters.len() + stmts_size(f.body) + 2
}

/// The lowering of a function: the binding of its parameters, its body,
/// and the return of null for a body that ends without returning.
pub open spec fn emit_function(st: CompilerView, f: FunctionView) -> Lowered {
    and_emit(
        and_load(emit_stmts(emit_parameters(st, f.parameters), f.body, None), ValueView::Null),
        InstrView::Return,
    )
}

/// The lowering of functions one after the other.
pub open spec fn emit_functions(st: CompilerView, fs: Seq<FunctionView>) -> Lowered
    decreases fs.len(),
{
    if fs.len() == 0 {
        Ok(st)
    } else {
        match emit_function(st, fs[0]) {
            Ok(next) => emit_functions(next, fs.skip(1)),
            Err(e) => Err(e),
        }
    }
}

/// The function table after declaring `fs`, the first of them with its
/// entry at `entry` and each of the others where the one before it ends.
pub open spec fn declare_from(st: CompilerView, fs: Seq<FunctionView>, entry: nat) -> Lowered
    decreases fs.len(),
{
    if fs.len() == 0 {
        Ok(st)
    } else if entry > usize::MAX {
        Err(CompileErrorView::ProgramTooLarge)
    } else {
        declare_from(
            CompilerView {
                functions: st.functions.push(
                    EntryView {
                        name: fs[0].name,
                        entry: entry as usize,
                        num_params: fs[0].parameters.len() as usize,
                    },
                ),
                ..st
            },
            fs.skip(1),
            entry + function_size(fs[0]),
        )
    }
}

/// The models of a sequence of functions, element by element.
pub open spec fn function_views(fs: Seq<Function>) -> Seq<FunctionView> {
    fs.map_values(|f: Function| f@)
}

} // verus!
