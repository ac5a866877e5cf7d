//! The instruction set of the stack machine.

use vstd::prelude::*;

verus! {

/// One instruction. Constants and jump targets are absolute indices into
/// the constant pool and the instruction sequence that own them.
#[derive(Debug)]
pub enum Bytecode {
    /// Push the constant at the index.
    LoadConst(usize),
    /// Pop a value into the local slot.
    StoreLocal(usize),
    /// Push the value of the local slot.
    LoadLocal(usize),
    /// Pop a value into the named global.
    StoreGlobal(String),
    /// Push the value of the named global.
    LoadGlobal(String),
    Add,
    Sub,
    Mul,
    Div,
    Mod,
    Eq,
    Ne,
    Lt,
    Gt,
    Le,
    Ge,
    /// Continue at the target.
    Jump(usize),
    /// Pop a boolean and continue at the target if it is false.
    JumpIfFalse(usize),
    /// Pop a boolean and continue at the target if it is true.
    JumpIfTrue(usize),
    /// Pop a function descriptor and call it with that many arguments.
    Call(usize),
    /// Call the builtin with that identifier: `puts` and `print` pop one
    /// value and write it, the formatting builtin makes a text.
    CallBuiltin(usize),
    /// Return from the current function.
    Return,
    Pop,
    Dup,
}

/// Model of a [`Bytecode`] instruction.
pub enum InstrView {
    LoadConst(usize),
    StoreLocal(usize),
    LoadLocal(usize),
    StoreGlobal(Seq<char>),
    LoadGlobal(Seq<char>),
    Add,
    Sub,
    Mul,
    Div,
    Mod,
    Eq,
    Ne,
    Lt,
    Gt,
    Le,
    Ge,
    Jump(usize),
    JumpIfFalse(usize),
    JumpIfTrue(usize),
    Call(usize),
    CallBuiltin(usize),
    Return,
    Pop,
    Dup,
}

impl View for Bytecode {
    type V = InstrView;

    open spec fn view(&self) -> InstrView {
        match self {
            Bytecode::LoadConst(i) => InstrView::LoadConst(*i),
            Bytecode::StoreLocal(i) => InstrView::StoreLocal(*i),
            Bytecode::LoadLocal(i) => InstrView::LoadLocal(*i),
            Bytecode::StoreGlobal(name) => InstrView::StoreGlobal(name@),
            Bytecode::LoadGlobal(name) => InstrView::LoadGlobal(name@),
            Bytecode::Add => InstrView::Add,
            Bytecode::Sub => InstrView::Sub,
            Bytecode::Mul => InstrView::Mul,
            Bytecode::Div => InstrView::Div,
            Bytecode::Mod => InstrView::Mod,
            Bytecode::Eq => InstrView::Eq,
            Bytecode::Ne => InstrView::Ne,
            Bytecode::Lt => InstrView::Lt,
            Bytecode::Gt => InstrView::Gt,
            Bytecode::Le => InstrView::Le,
            Bytecode::Ge => InstrView::Ge,
            Bytecode::Jump(t) => InstrView::Jump(*t),
            Bytecode::JumpIfFalse(t) => InstrView::JumpIfFalse(*t),
            Bytecode::JumpIfTrue(t) => InstrView::JumpIfTrue(*t),
            Bytecode::Call(n) => InstrView::Call(*n),
            Bytecode::CallBuiltin(id) => InstrView::CallBuiltin(*id),
            Bytecode::Return => InstrView::Return,
            Bytecode::Pop => InstrView::Pop,
            Bytecode::Dup => InstrView::Dup,
        }
    }
}

impl Clone for Bytecode {
    fn clone(&self) -> (copy: Bytecode)
        ensures
            copy == *self,
    {
        match self {
            Bytecode::LoadConst(i) => Bytecode::LoadConst(*i),
            Bytecode::StoreLocal(i) => Bytecode::StoreLocal(*i),
            Bytecode::LoadLocal(i) => Bytecode::LoadLocal(*i),
            Bytecode::StoreGlobal(name) => Bytecode::StoreGlobal(name.clone()),
            Bytecode::LoadGlobal(name) => Bytecode::LoadGlobal(name.clone()),
            Bytecode::Add => Bytecode::Add,
            Bytecode::Sub => Bytecode::Sub,
            Bytecode::Mul => Bytecode::Mul,
            Bytecode::Div => Bytecode::Div,
            Bytecode::Mod => Bytecode::Mod,
            Bytecode::Eq => Bytecode::Eq,
            Bytecode::Ne => Bytecode::Ne,
            Bytecode::Lt => Bytecode::Lt,
            Bytecode::Gt => Bytecode::Gt,
            Bytecode::Le => Bytecode::Le,
            Bytecode::Ge => Bytecode::Ge,
            Bytecode::Jump(t) => Bytecode::Jump(*t),
            Bytecode::JumpIfFalse(t) => Bytecode::JumpIfFalse(*t),
            Bytecode::JumpIfTrue(t) => Bytecode::JumpIfTrue(*t),
            Bytecode::Call(n) => Bytecode::Call(*n),
            Bytecode::CallBuiltin(id) => Bytecode::CallBuiltin(*id),
            Bytecode::Return => Bytecode::Return,
            Bytecode::Pop => Bytecode::Pop,
            Bytecode::Dup => Bytecode::Dup,
        }
    }
}

/// The models of a sequence of instructions, element by element.
pub open spec fn instr_views(code: Seq<Bytecode>) -> Seq<InstrView> {
    code.map_values(|b: Bytecode| b@)
}

/// The identifier of the builtin `puts`: it pops one value, writes its text
/// and a newline, and pushes null.
pub const BUILTIN_PUTS: usize = 0;

/// The identifier of the builtin `print`: it pops one value, writes its
/// text, and pushes null.
pub const BUILTIN_PRINT: usize = 1;

/// The identifier of the builtin that formats: it pops a count, that many
/// substitution arguments and the format below them, and pushes the format
/// with its `{}` placeholders replaced. It writes nothing.
pub const BUILTIN_FORMAT: usize = 2;

/// By how much an instruction changes the depth of the operand stack, as
/// the compiler counts it while it emits code. A call counts as a whole: it
/// takes the function descriptor and the arguments and leaves the result.
/// The builtin that formats counts without its substitution arguments, which
/// vary: it takes the count and the format and leaves the text.
pub open spec fn effect(instr: InstrView) -> int {
    match instr {
        InstrView::LoadConst(_) => 1,
        InstrView::LoadLocal(_) => 1,
        InstrView::LoadGlobal(_) => 1,
        InstrView::Dup => 1,
        InstrView::Jump(_) => 0,
        InstrView::Call(n) => -(n as int),
        InstrView::CallBuiltin(id) => if id == BUILTIN_FORMAT {
            -1
        } else {
            0
        },
        _ => -1,
    }
}

} // verus!
