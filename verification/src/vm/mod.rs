//! The virtual machine: a single-threaded stack machine over an
//! instruction sequence, a constant pool, an operand stack, a call stack and
//! a global environment.
//!
//! The meaning of one instruction is the spec function
//! [`semantics::step_spec`] on the machine's model;
//! [`VirtualMachine::step`] is proved to compute it.

pub mod arithmetic;
pub mod semantics;

use crate::bytecode::{
    instr_views, Bytecode, InstrView, BUILTIN_FORMAT, BUILTIN_PRINT, BUILTIN_PUTS,
};
use crate::text::{decimal, push_decimal, substitute_placeholders, texts};
use crate::value::{display, value_views, RuntimeValue, ValueView};
use crate::vm::arithmetic::{binary, is_binary};
use crate::vm::semantics::{
    branch_spec, builtin_spec, call_spec, displays, format_spec, formatted, return_spec, run_spec,
    step_spec, written, MachineView, Outcome,
};
use vstd::hash_map::StringHashMap;
use vstd::prelude::*;

verus! {

/// Why a run was aborted.
#[derive(Debug, Clone, PartialEq, Eq)]
pub enum RuntimeError {
    /// An instruction needed more operands than the stack holds.
    StackUnderflow,
    /// An operand is of a variant that the instruction does not accept.
    TypeMismatch,
    DivisionByZero,
    ModuloByZero,
    /// No global of that name has been stored.
    UndefinedVariable(String),
    /// The value called is not a function descriptor.
    UndefinedFunction,
    UnknownBuiltinId(usize),
    /// The local slot was never stored, or lies beyond the next free slot.
    UndefinedLocal(usize),
    /// The constant pool has no entry at that index.
    InvalidConstant(usize),
}

/// Model of a [`RuntimeError`].
pub enum ErrorView {
    StackUnderflow,
    TypeMismatch,
    DivisionByZero,
    ModuloByZero,
    UndefinedVariable(Seq<char>),
    UndefinedFunction,
    UnknownBuiltinId(usize),
    UndefinedLocal(usize),
    InvalidConstant(usize),
}

impl View for RuntimeError {
    type V = ErrorView;

    open spec fn view(&self) -> ErrorView {
        match self {
            RuntimeError::StackUnderflow => ErrorView::StackUnderflow,
            RuntimeError::TypeMismatch => ErrorView::TypeMismatch,
            RuntimeError::DivisionByZero => ErrorView::DivisionByZero,
            RuntimeError::ModuloByZero => ErrorView::ModuloByZero,
            RuntimeError::UndefinedVariable(name) => ErrorView::UndefinedVariable(name@),
            RuntimeError::UndefinedFunction => ErrorView::UndefinedFunction,
            RuntimeError::UnknownBuiltinId(id) => ErrorView::UnknownBuiltinId(*id),
            RuntimeError::UndefinedLocal(slot) => ErrorView::UndefinedLocal(*slot),
            RuntimeError::InvalidConstant(index) => ErrorView::InvalidConstant(*index),
        }
    }
}

/// The message of a runtime error.
pub open spec fn runtime_error_text(error: ErrorView) -> Seq<char> {
    match error {
        ErrorView::StackUnderflow => "Stack underflow"@,
        ErrorView::TypeMismatch => "Type error: operand of the wrong type"@,
        ErrorView::DivisionByZero => "Division by zero"@,
        ErrorView::ModuloByZero => "Modulo by zero"@,
        ErrorView::UndefinedVariable(name) => "Undefined variable: "@ + name,
        ErrorView::UndefinedFunction => "Function call expects a function"@,
        ErrorView::UnknownBuiltinId(id) => "Unknown builtin function ID: "@ + decimal(id as nat),
        ErrorView::UndefinedLocal(slot) => "Undefined local variable: "@ + decimal(slot as nat),
        ErrorView::InvalidConstant(index) => "Invalid constant index: "@ + decimal(index as nat),
    }
}

impl RuntimeError {
    /// The message of the error.
    pub fn message(&self) -> (text: String)
        ensures
            text@ == runtime_error_text(self@),
    {
        match self {
            RuntimeError::StackUnderflow => String::from_str("Stack underflow"),
            RuntimeError::TypeMismatch => String::from_str("Type error: operand of the wrong type"),
            RuntimeError::DivisionByZero => String::from_str("Division by zero"),
            RuntimeError::ModuloByZero => String::from_str("Modulo by zero"),
            RuntimeError::UndefinedVariable(name) => {
                let mut text = String::from_str("Undefined variable: ");
                text.append(name.as_str());
                text
            },
            RuntimeError::UndefinedFunction => String::from_str("Function call expects a function"),
            RuntimeError::UnknownBuiltinId(id) => {
                let mut text = String::from_str("Unknown builtin function ID: ");
                push_decimal(&mut text, *id as u64);
                text
            },
            RuntimeError::UndefinedLocal(slot) => {
                let mut text = String::from_str("Undefined local variable: ");
                push_decimal(&mut text, *slot as u64);
                text
            },
            RuntimeError::InvalidConstant(index) => {
                let mut text = String::from_str("Invalid constant index: ");
                push_decimal(&mut text, *index as u64);
                text
            },
        }
    }
}

/// The state that a call saves and a return restores: where the caller
/// continues, and the caller's local slots.
#[derive(Debug)]
pub struct Frame {
    pub return_address: usize,
    pub locals: Vec<RuntimeValue>,
}

/// Model of a [`Frame`].
pub struct FrameView {
    pub return_address: usize,
    pub locals: Seq<ValueView>,
}

impl View for Frame {
    type V = FrameView;

    open spec fn view(&self) -> FrameView {
        FrameView { return_address: self.return_address, locals: value_views(self.locals@) }
    }
}

/// The models of a sequence of frames, element by element.
pub open spec fn frame_views(frames: Seq<Frame>) -> Seq<FrameView> {
    frames.map_values(|f: Frame| f@)
}

/// The models of the values of a global environment.
pub open spec fn global_views(globals: Map<Seq<char>, RuntimeValue>) -> Map<Seq<char>, ValueView> {
    Map::new(|name: Seq<char>| globals.contains_key(name), |name: Seq<char>| globals[name]@)
}

/// What [`VirtualMachine::step`] reports when it does not fail.
#[derive(Debug)]
pub enum Step {
    Running,
    Halted(RuntimeValue),
}

/// The outcome that a result of [`VirtualMachine::step`] stands for.
pub open spec fn outcome_of(result: Result<Step, RuntimeError>) -> Outcome {
    match result {
        Ok(Step::Running) => Outcome::Running,
        Ok(Step::Halted(v)) => Outcome::Halted(v@),
        Err(e) => Outcome::Failed(e@),
    }
}

/// The stack machine.
pub struct VirtualMachine {
    bytecode: Vec<Bytecode>,
    constants: Vec<RuntimeValue>,
    stack: Vec<RuntimeValue>,
    frames: Vec<Frame>,
    locals: Vec<RuntimeValue>,
    globals: StringHashMap<RuntimeValue>,
    output: String,
    ip: usize,
}

impl View for VirtualMachine {
    type V = MachineView;

    closed spec fn view(&self) -> MachineView {
        MachineView {
            code: instr_views(self.bytecode@),
            constants: value_views(self.constants@),
            stack: value_views(self.stack@),
            frames: frame_views(self.frames@),
            locals: value_views(self.locals@),
            globals: global_views(self.globals@),
            output: self.output@,
            pc: self.ip,
        }
    }
}

impl VirtualMachine {
    /// Whether the program counter is at an instruction with this model.
    spec fn at(&self, instr: InstrView) -> bool {
        self.ip < self.bytecode.len() && self.bytecode[self.ip as int]@ == instr
    }

    /// A machine with nothing loaded.
    pub fn new() -> (vm: VirtualMachine)
        ensures
            vm@ == MachineView::fresh(),
    {
        let vm = VirtualMachine {
            bytecode: Vec::new(),
            constants: Vec::new(),
            stack: Vec::new(),
            frames: Vec::new(),
            locals: Vec::new(),
            globals: StringHashMap::new(),
            output: String::new(),
            ip: 0,
        };
        proof {
            assert(vm@.code =~= Seq::empty());
            assert(vm@.constants =~= Seq::empty());
            assert(vm@.frames =~= Seq::empty());
            assert(vm@.globals =~= Map::empty());
        }
        vm
    }

    /// Loads a program. The operand stack, the call stack and the local
    /// slots are emptied and the program counter is set to zero; the global
    /// environment and the pending output are kept.
    pub fn load_bytecode(&mut self, bytecode: Vec<Bytecode>, constants: Vec<RuntimeValue>)
        ensures
            final(self)@ == old(self)@.loaded(instr_views(bytecode@), value_views(constants@)),
    {
        self.bytecode = bytecode;
        self.constants = constants;
        self.stack.clear();
        self.frames.clear();
        self.locals.clear();
        self.ip = 0;
        proof {
            assert(self@.stack =~= Seq::empty());
            assert(self@.frames =~= Seq::empty());
        }
    }

    /// Removes the top of the operand stack.
    fn pop_value(&mut self) -> (result: Result<RuntimeValue, RuntimeError>)
        ensures
            old(self)@.stack.len() == 0 ==> result is Err && result->Err_0@
                == ErrorView::StackUnderflow && final(self)@ == old(self)@,
            old(self)@.stack.len() > 0 ==> result is Ok && result->Ok_0@ == old(self)@.stack.last()
                && final(self)@ == (MachineView {
                stack: old(self)@.stack.drop_last(),
                ..old(self)@
            }),
    {
        match self.stack.pop() {
            Some(v) => {
                proof {
                    assert(self@.stack =~= old(self)@.stack.drop_last());
                }
                Ok(v)
            },
            None => Err(RuntimeError::StackUnderflow),
        }
    }

    /// The text that the builtins write for a value.
    fn value_to_string(&self, value: &RuntimeValue) -> (text: String)
        ensures
            text@ == display(value@),
    {
        value.to_text()
    }

    /// Executes a binary instruction.
    fn step_binary(&mut self, op: &Bytecode) -> (result: Result<Step, RuntimeError>)
        requires
            old(self).at(op@),
            is_binary(op@),
        ensures
            step_spec(old(self)@) == (final(self)@, outcome_of(result)),
    {
        let len = self.stack.len();
        if len < 2 {
            return Err(RuntimeError::StackUnderflow);
        }
        match binary(op, &self.stack[len - 2], &self.stack[len - 1]) {
            Ok(v) => {
                self.stack.truncate(len - 2);
                self.stack.push(v);
                self.ip = self.ip + 1;
                proof {
                    let m = old(self)@;
                    assert(self@.stack =~= m.stack.take(m.stack.len() - 2).push(v@));
                }
                Ok(Step::Running)
            },
            Err(e) => Err(e),
        }
    }

    /// Executes a conditional jump that is taken when the popped boolean equals
    /// `when`.
    fn step_branch(&mut self, target: usize, when: bool) -> (result: Result<Step, RuntimeError>)
        requires
            old(self).ip < old(self).bytecode.len(),
        ensures
            branch_spec(old(self)@, target, when) == (final(self)@, outcome_of(result)),
    {
        let len = self.stack.len();
        if len == 0 {
            return Err(RuntimeError::StackUnderflow);
        }
        let condition = match &self.stack[len - 1] {
            RuntimeValue::Boolean(b) => *b,
            _ => {
                return Err(RuntimeError::TypeMismatch);
            },
        };
        self.stack.truncate(len - 1);
        if condition == when {
            self.ip = target;
        } else {
            self.ip = self.ip + 1;
        }
        proof {
            assert(self@.stack =~= old(self)@.stack.drop_last());
        }
        Ok(Step::Running)
    }

    /// Executes `Call(n)`.
    fn step_call(&mut self, n: usize) -> (result: Result<Step, RuntimeError>)
        requires
            old(self).ip < old(self).bytecode.len(),
        ensures
            call_spec(old(self)@, n) == (final(self)@, outcome_of(result)),
    {
        let len = self.stack.len();
        if len == 0 {
            return Err(RuntimeError::StackUnderflow);
        }
        let (entry, num_params) = match &self.stack[len - 1] {
            RuntimeValue::Function { ip, num_params, .. } => (*ip, *num_params),
            _ => {
                return Err(RuntimeError::UndefinedFunction);
            },
        };
        if num_params != n {
            return Err(RuntimeError::TypeMismatch);
        }
        if len - 1 < n {
            return Err(RuntimeError::StackUnderflow);
        }
        self.stack.truncate(len - 1);
        let mut saved: Vec<RuntimeValue> = Vec::new();
        std::mem::swap(&mut self.locals, &mut saved);
        self.frames.push(Frame { return_address: self.ip + 1, locals: saved });
        self.ip = entry;
        proof {
            let m = old(self)@;
            assert(self@.stack =~= m.stack.drop_last());
            assert(self@.locals =~= Seq::empty());
            assert(self@.frames =~= m.frames.push(
                FrameView { return_address: (m.pc + 1) as usize, locals: m.locals },
            ));
        }
        Ok(Step::Running)
    }

    /// Executes `Return`, and the end of the code.
    fn step_return(&mut self) -> (result: Result<Step, RuntimeError>)
        ensures
            return_spec(old(self)@) == (final(self)@, outcome_of(result)),
    {
        let len = self.stack.len();
        if self.frames.len() == 0 {
            let value = if len > 0 {
                self.stack[len - 1].clone()
            } else {
                RuntimeValue::Null
            };
            return Ok(Step::Halted(value));
        }
        let value = match self.stack.pop() {
            Some(v) => v,
            None => RuntimeValue::Null,
        };
        let frame = self.frames.pop().unwrap();
        self.ip = frame.return_address;
        self.locals = frame.locals;
        self.stack.push(value);
        proof {
            let m = old(self)@;
            assert(self@.frames =~= m.frames.drop_last());
            assert(self@.stack =~= (if m.stack.len() > 0 {
                m.stack.drop_last()
            } else {
                m.stack
            }).push(value@));
        }
        Ok(Step::Running)
    }

    /// Executes the builtin that formats.
    #[verifier::rlimit(30)]
    fn step_format(&mut self) -> (result: Result<Step, RuntimeError>)
        requires
            old(self).ip < old(self).bytecode.len(),
        ensures
            format_spec(old(self)@) == (final(self)@, outcome_of(result)),
    {
        let len = self.stack.len();
        if len == 0 {
            return Err(RuntimeError::StackUnderflow);
        }
        let count: i64 = match &self.stack[len - 1] {
            RuntimeValue::Integer(c) => *c,
            _ => {
                return Err(RuntimeError::TypeMismatch);
            },
        };
        if count < 0 {
            return Err(RuntimeError::TypeMismatch);
        }
        if len < 2 || ((len - 2) as u64) < (count as u64) {
            return Err(RuntimeError::StackUnderflow);
        }
        let base: usize = len - 2 - (count as usize);
        let leading = self.value_to_string(&self.stack[base]);
        let mut arguments: Vec<String> = Vec::new();
        let mut i: usize = base + 1;
        while i < len - 1
            invariant
                base + 1 <= i <= len - 1,
                len == self.stack.len(),
                texts(arguments@) == displays(
                    value_views(self.stack@).subrange(base + 1, i as int),
                ),
            decreases len - i,
        {
            let ghost before = arguments@;
            let text = self.value_to_string(&self.stack[i]);
            arguments.push(text);
            i += 1;
            proof {
                assert(texts(arguments@) =~= texts(before).push(text@));
            }
        }
        let text = substitute_placeholders(leading.as_str(), &arguments);
        self.stack.truncate(base);
        self.stack.push(RuntimeValue::String(text));
        self.ip = self.ip + 1;
        proof {
            let m = old(self)@;
            assert(self@.stack =~= m.stack.take(m.stack.len() - 2 - count).push(
                ValueView::String(formatted(m.stack, count as int)),
            ));
        }
        Ok(Step::Running)
    }

    /// Executes `CallBuiltin(id)`.
    fn step_builtin(&mut self, id: usize) -> (result: Result<Step, RuntimeError>)
        requires
            old(self).ip < old(self).bytecode.len(),
        ensures
            builtin_spec(old(self)@, id) == (final(self)@, outcome_of(result)),
    {
        if id == BUILTIN_PUTS || id == BUILTIN_PRINT {
            let value = self.pop_value()?;
            let text = self.value_to_string(&value);
            self.output.append(text.as_str());
            if id == BUILTIN_PUTS {
                self.output.push('\n');
            }
            self.stack.push(RuntimeValue::Null);
            self.ip = self.ip + 1;
            proof {
                let m = old(self)@;
                assert(self@.stack =~= m.stack.drop_last().push(ValueView::Null));
                assert(self@.output =~= m.output + written(id, m.stack.last()));
            }
            Ok(Step::Running)
        } else if id == BUILTIN_FORMAT {
            self.step_format()
        } else {
            Err(RuntimeError::UnknownBuiltinId(id))
        }
    }

    /// Executes the instruction at the program counter.
    ///
    /// A step that fails leaves the machine as it was. A step that halts
    /// leaves it as it was too, so that stepping again halts again with the
    /// same result.
    #[verifier::rlimit(30)]
    pub fn step(&mut self) -> (result: Result<Step, RuntimeError>)
        ensures
            step_spec(old(self)@) == (final(self)@, outcome_of(result)),
    {
        if self.ip >= self.bytecode.len() {
            return self.step_return();
        }
        let instr = self.bytecode[self.ip].clone();
        match instr {
            Bytecode::LoadConst(index) => {
                if index < self.constants.len() {
                    let v = self.constants[index].clone();
                    self.stack.push(v);
                    self.ip = self.ip + 1;
                    proof {
                        let m = old(self)@;
                        assert(self@.stack =~= m.stack.push(m.constants[index as int]));
                    }
                    Ok(Step::Running)
                } else {
                    Err(RuntimeError::InvalidConstant(index))
                }
            },
            Bytecode::StoreLocal(slot) => {
                let len = self.stack.len();
                if len == 0 {
                    return Err(RuntimeError::StackUnderflow);
                }
                if slot > self.locals.len() {
                    return Err(RuntimeError::UndefinedLocal(slot));
                }
                let v = self.stack.pop().unwrap();
                if slot < self.locals.len() {
                    self.locals.set(slot, v);
                } else {
                    self.locals.push(v);
                }
                self.ip = self.ip + 1;
                proof {
                    let m = old(self)@;
                    assert(self@.stack =~= m.stack.drop_last());
                    assert(self@.locals =~= if slot < m.locals.len() {
                        m.locals.update(slot as int, m.stack.last())
                    } else {
                        m.locals.push(m.stack.last())
                    });
                }
                Ok(Step::Running)
            },
            Bytecode::LoadLocal(slot) => {
                if slot < self.locals.len() {
                    let v = self.locals[slot].clone();
                    self.stack.push(v);
                    self.ip = self.ip + 1;
                    proof {
                        let m = old(self)@;
                        assert(self@.stack =~= m.stack.push(m.locals[slot as int]));
                    }
                    Ok(Step::Running)
                } else {
                    Err(RuntimeError::UndefinedLocal(slot))
                }
            },
            Bytecode::StoreGlobal(name) => {
                let v = self.pop_value()?;
                self.globals.insert(name, v);
                self.ip = self.ip + 1;
                proof {
                    let m = old(self)@;
                    assert(self@.globals =~= m.globals.insert(name@, m.stack.last()));
                }
                Ok(Step::Running)
            },
            Bytecode::LoadGlobal(name) => {
                match self.globals.get(name.as_str()) {
                    Some(found) => {
                        let v = found.clone();
                        self.stack.push(v);
                        self.ip = self.ip + 1;
                        proof {
                            let m = old(self)@;
                            assert(self@.stack =~= m.stack.push(m.globals[name@]));
                        }
                        Ok(Step::Running)
                    },
                    None => Err(RuntimeError::UndefinedVariable(name)),
                }
            },
            Bytecode::Jump(target) => {
                self.ip = target;
                Ok(Step::Running)
            },
            Bytecode::JumpIfFalse(target) => self.step_branch(target, false),
            Bytecode::JumpIfTrue(target) => self.step_branch(target, true),
            Bytecode::Call(n) => self.step_call(n),
            Bytecode::CallBuiltin(id) => self.step_builtin(id),
            Bytecode::Return => self.step_return(),
            Bytecode::Pop => {
                let _ = self.pop_value()?;
                self.ip = self.ip + 1;
                Ok(Step::Running)
            },
            Bytecode::Dup => {
                let len = self.stack.len();
                if len == 0 {
                    return Err(RuntimeError::StackUnderflow);
                }
                let v = self.stack[len - 1].clone();
                self.stack.push(v);
                self.ip = self.ip + 1;
                proof {
                    let m = old(self)@;
                    assert(self@.stack =~= m.stack.push(m.stack.last()));
                }
                Ok(Step::Running)
            },
            _ => self.step_binary(&instr),
        }
    }

    /// Runs the program for at most `max_steps` instructions, until it halts
    /// or fails. `Step::Running` says that the budget ran out first: the
    /// machine can be run again and goes on where it stopped.
    pub fn run(&mut self, max_steps: u64) -> (result: Result<Step, RuntimeError>)
        ensures
            run_spec(old(self)@, max_steps as nat) == (final(self)@, outcome_of(result)),
    {
        let mut done: u64 = 0;
        while done < max_steps
            invariant
                done <= max_steps,
                run_spec(old(self)@, max_steps as nat) == run_spec(
                    self@,
                    (max_steps - done) as nat,
                ),
            decreases max_steps - done,
        {
            match self.step() {
                Ok(Step::Running) => {
                    done = done + 1;
                },
                other => {
                    return other;
                },
            }
        }
        Ok(Step::Running)
    }

    /// What the builtins have written since the output was last taken.
    pub fn output(&self) -> (text: &str)
        ensures
            text@ == self@.output,
    {
        self.output.as_str()
    }

    /// Hands out what the builtins have written and leaves the pending
    /// output empty.
    pub fn take_output(&mut self) -> (text: String)
        ensures
            text@ == old(self)@.output,
            final(self)@ == (MachineView { output: Seq::empty(), ..old(self)@ }),
    {
        let mut text = String::new();
        std::mem::swap(&mut self.output, &mut text);
        text
    }

    /// Whether the next step halts: the program counter is past the code, or
    /// at a `Return`, and no call is open.
    pub fn is_halted(&self) -> (halted: bool)
        ensures
            halted == (step_spec(self@).1 is Halted),
    {
        if self.frames.len() != 0 {
            return false;
        }
        if self.ip >= self.bytecode.len() {
            return true;
        }
        match &self.bytecode[self.ip] {
            Bytecode::Return => true,
            _ => false,
        }
    }
}

} // verus!
