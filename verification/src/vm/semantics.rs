//! The meaning of the instructions: one step of the machine as a spec
//! function on the machine's model.

use crate::bytecode::{effect, InstrView, BUILTIN_FORMAT, BUILTIN_PRINT, BUILTIN_PUTS};
use crate::text::substitute;
use crate::value::{display, ValueView};
use crate::vm::arithmetic::binary_result;
use crate::vm::{ErrorView, FrameView};
use vstd::prelude::*;

verus! {

/// Model of the machine.
pub struct MachineView {
    pub code: Seq<InstrView>,
    pub constants: Seq<ValueView>,
    /// The operand stack, its top last.
    pub stack: Seq<ValueView>,
    /// The call stack, the innermost caller last.
    pub frames: Seq<FrameView>,
    /// The local slots of the function that is running.
    pub locals: Seq<ValueView>,
    pub globals: Map<Seq<char>, ValueView>,
    /// Everything the builtins have written and nobody has taken yet.
    pub output: Seq<char>,
    pub pc: usize,
}

/// How one step ended.
pub enum Outcome {
    /// The instruction was executed; the machine can step again.
    Running,
    /// The program is over, with this result.
    Halted(ValueView),
    /// The instruction could not be executed.
    Failed(ErrorView),
}

/// The instruction at the program counter. Past the end of the code the
/// machine behaves as at a `Return`.
pub open spec fn fetch(m: MachineView) -> InstrView {
    if m.pc < m.code.len() {
        m.code[m.pc as int]
    } else {
        InstrView::Return
    }
}

/// The texts that the builtins write for a sequence of values.
pub open spec fn displays(values: Seq<ValueView>) -> Seq<Seq<char>> {
    values.map_values(|v: ValueView| display(v))
}

/// What `puts` and `print` write for a value: its text, and behind it a
/// newline for `puts`.
pub open spec fn written(id: usize, v: ValueView) -> Seq<char> {
    if id == BUILTIN_PUTS {
        display(v).push('\n')
    } else {
        display(v)
    }
}

/// The text that the format builtin makes. Below the count the stack holds
/// the format and, above it, `count` substitution arguments.
pub open spec fn formatted(stack: Seq<ValueView>, count: int) -> Seq<char> {
    let base = stack.len() - 2 - count;
    substitute(display(stack[base]), displays(stack.subrange(base + 1, stack.len() - 1)))
}

/// A failed step: the machine stays as it was.
pub open spec fn failed(m: MachineView, e: ErrorView) -> (MachineView, Outcome) {
    (m, Outcome::Failed(e))
}

/// The machine after a step that replaces the operand stack and goes on
/// with the next instruction.
pub open spec fn advance(m: MachineView, stack: Seq<ValueView>) -> (MachineView, Outcome) {
    (MachineView { stack, pc: (m.pc + 1) as usize, ..m }, Outcome::Running)
}

/// The meaning of `Return`, and of running past the end of the code.
pub open spec fn return_spec(m: MachineView) -> (MachineView, Outcome) {
    let value = if m.stack.len() > 0 {
        m.stack.last()
    } else {
        ValueView::Null
    };
    if m.frames.len() == 0 {
        (m, Outcome::Halted(value))
    } else {
        let rest = if m.stack.len() > 0 {
            m.stack.drop_last()
        } else {
            m.stack
        };
        let frame = m.frames.last();
        (
            MachineView {
                stack: rest.push(value),
                frames: m.frames.drop_last(),
                locals: frame.locals,
                pc: frame.return_address,
                ..m
            },
            Outcome::Running,
        )
    }
}

/// The meaning of `Call(n)`.
pub open spec fn call_spec(m: MachineView, n: usize) -> (MachineView, Outcome) {
    if m.stack.len() == 0 {
        failed(m, ErrorView::StackUnderflow)
    } else {
        match m.stack.last() {
            ValueView::Function { name, ip, num_params } => {
                if num_params != n {
                    failed(m, ErrorView::TypeMismatch)
                } else if m.stack.len() - 1 < n {
                    failed(m, ErrorView::StackUnderflow)
                } else {
                    (
                        MachineView {
                            stack: m.stack.drop_last(),
                            frames: m.frames.push(
                                FrameView {
                                    return_address: (m.pc + 1) as usize,
                                    locals: m.locals,
                                },
                            ),
                            locals: Seq::empty(),
                            pc: ip,
                            ..m
                        },
                        Outcome::Running,
                    )
                }
            },
            _ => failed(m, ErrorView::UndefinedFunction),
        }
    }
}

/// The meaning of the builtin that formats: the count on top of the stack,
/// the substitution arguments and the format are replaced by the text.
pub open spec fn format_spec(m: MachineView) -> (MachineView, Outcome) {
    if m.stack.len() == 0 {
        failed(m, ErrorView::StackUnderflow)
    } else {
        match m.stack.last() {
            ValueView::Integer(count) => {
                if count < 0 {
                    failed(m, ErrorView::TypeMismatch)
                } else if m.stack.len() - 1 < count + 1 {
                    failed(m, ErrorView::StackUnderflow)
                } else {
                    advance(
                        m,
                        m.stack.take(m.stack.len() - 2 - count).push(
                            ValueView::String(formatted(m.stack, count as int)),
                        ),
                    )
                }
            },
            _ => failed(m, ErrorView::TypeMismatch),
        }
    }
}

/// The meaning of `CallBuiltin(id)`. `puts` and `print` pop one value, write
/// its text and push null.
pub open spec fn builtin_spec(m: MachineView, id: usize) -> (MachineView, Outcome) {
    if id == BUILTIN_PUTS || id == BUILTIN_PRINT {
        if m.stack.len() == 0 {
            failed(m, ErrorView::StackUnderflow)
        } else {
            (
                MachineView {
                    stack: m.stack.drop_last().push(ValueView::Null),
                    output: m.output + written(id, m.stack.last()),
                    pc: (m.pc + 1) as usize,
                    ..m
                },
                Outcome::Running,
            )
        }
    } else if id == BUILTIN_FORMAT {
        format_spec(m)
    } else {
        failed(m, ErrorView::UnknownBuiltinId(id))
    }
}

/// The meaning of a conditional jump that is taken when the popped boolean
/// equals `when`.
pub open spec fn branch_spec(m: MachineView, target: usize, when: bool) -> (MachineView, Outcome) {
    if m.stack.len() == 0 {
        failed(m, ErrorView::StackUnderflow)
    } else {
        match m.stack.last() {
            ValueView::Boolean(b) => (
                MachineView {
                    stack: m.stack.drop_last(),
                    pc: if b == when {
                        target
                    } else {
                        (m.pc + 1) as usize
                    },
                    ..m
                },
                Outcome::Running,
            ),
            _ => failed(m, ErrorView::TypeMismatch),
        }
    }
}

/// One step of the machine: the state afterwards and how the step ended.
pub open spec fn step_spec(m: MachineView) -> (MachineView, Outcome) {
    match fetch(m) {
        InstrView::LoadConst(index) => {
            if index < m.constants.len() {
                advance(m, m.stack.push(m.constants[index as int]))
            } else {
                failed(m, ErrorView::InvalidConstant(index))
            }
        },
        InstrView::StoreLocal(slot) => {
            if m.stack.len() == 0 {
                failed(m, ErrorView::StackUnderflow)
            } else if slot > m.locals.len() {
                failed(m, ErrorView::UndefinedLocal(slot))
            } else {
                (
                    MachineView {
                        stack: m.stack.drop_last(),
                        locals: if slot < m.locals.len() {
                            m.locals.update(slot as int, m.stack.last())
                        } else {
                            m.locals.push(m.stack.last())
                        },
                        pc: (m.pc + 1) as usize,
                        ..m
                    },
                    Outcome::Running,
                )
            }
        },
        InstrView::LoadLocal(slot) => {
            if slot < m.locals.len() {
                advance(m, m.stack.push(m.locals[slot as int]))
            } else {
                failed(m, ErrorView::UndefinedLocal(slot))
            }
        },
        InstrView::StoreGlobal(name) => {
            if m.stack.len() == 0 {
                failed(m, ErrorView::StackUnderflow)
            } else {
                (
                    MachineView {
                        stack: m.stack.drop_last(),
                        globals: m.globals.insert(name, m.stack.last()),
                        pc: (m.pc + 1) as usize,
                        ..m
                    },
                    Outcome::Running,
                )
            }
        },
        InstrView::LoadGlobal(name) => {
            if m.globals.contains_key(name) {
                advance(m, m.stack.push(m.globals[name]))
            } else {
                failed(m, ErrorView::UndefinedVariable(name))
            }
        },
        InstrView::Jump(target) => (MachineView { pc: target, ..m }, Outcome::Running),
        InstrView::JumpIfFalse(target) => branch_spec(m, target, false),
        InstrView::JumpIfTrue(target) => branch_spec(m, target, true),
        InstrView::Call(n) => call_spec(m, n),
        InstrView::CallBuiltin(id) => builtin_spec(m, id),
        InstrView::Return => return_spec(m),
        InstrView::Pop => {
            if m.stack.len() == 0 {
                failed(m, ErrorView::StackUnderflow)
            } else {
                advance(m, m.stack.drop_last())
            }
        },
        InstrView::Dup => {
            if m.stack.len() == 0 {
                failed(m, ErrorView::StackUnderflow)
            } else {
                advance(m, m.stack.push(m.stack.last()))
            }
        },
        op => {
            if m.stack.len() < 2 {
                failed(m, ErrorView::StackUnderflow)
            } else {
                match binary_result(op, m.stack[m.stack.len() - 2], m.stack.last()) {
                    Ok(v) => advance(m, m.stack.take(m.stack.len() - 2).push(v)),
                    Err(e) => failed(m, e),
                }
            }
        },
    }
}

/// At most `budget` steps from `m`: the machine stops early when a step
/// halts or fails. The outcome `Running` says that the budget ran out first.
pub open spec fn run_spec(m: MachineView, budget: nat) -> (MachineView, Outcome)
    decreases budget,
{
    if budget == 0 {
        (m, Outcome::Running)
    } else {
        let (next, outcome) = step_spec(m);
        match outcome {
            Outcome::Running => run_spec(next, (budget - 1) as nat),
            _ => (next, outcome),
        }
    }
}

impl MachineView {
    /// The machine before anything was loaded: nothing in it, the program
    /// counter at zero.
    pub open spec fn fresh() -> MachineView {
        MachineView {
            code: Seq::empty(),
            constants: Seq::empty(),
            stack: Seq::empty(),
            frames: Seq::empty(),
            locals: Seq::empty(),
            globals: Map::empty(),
            output: Seq::empty(),
            pc: 0,
        }
    }

    /// The machine after loading a program: the program is in place, the
    /// stacks and local slots are empty and the program counter is zero; the
    /// global environment and the pending output stay.
    pub open spec fn loaded(self, code: Seq<InstrView>, constants: Seq<ValueView>) -> MachineView {
        MachineView {
            code,
            constants,
            stack: Seq::empty(),
            frames: Seq::empty(),
            locals: Seq::empty(),
            globals: self.globals,
            output: self.output,
            pc: 0,
        }
    }
}

/// The depth that the compiler counts is the depth that the machine has:
/// a step that runs an instruction other than a call or a return changes
/// the depth of the operand stack by the instruction's effect, and the
/// builtin that formats takes its substitution arguments besides.
pub proof fn lemma_step_effect(m: MachineView)
    requires
        m.pc < m.code.len(),
        step_spec(m).1 is Running,
    ensures
        match fetch(m) {
            InstrView::Call(_) => true,
            InstrView::Return => true,
            InstrView::CallBuiltin(id) => if id == BUILTIN_FORMAT {
                m.stack.len() > 0 && m.stack.last() is Integer && step_spec(m).0.stack.len()
                    == m.stack.len() + effect(fetch(m)) - m.stack.last()->Integer_0
            } else {
                step_spec(m).0.stack.len() == m.stack.len() + effect(fetch(m))
            },
            instr => step_spec(m).0.stack.len() == m.stack.len() + effect(instr),
        },
{
}

/// The error of dividing, or of taking the remainder, by zero.
pub open spec fn zero_divisor_error(op: InstrView) -> ErrorView {
    if op is Div {
        ErrorView::DivisionByZero
    } else {
        ErrorView::ModuloByZero
    }
}

/// A zero divisor fails whatever the dividend: a machine that is about to
/// divide an integer by the integer zero, or to take the remainder, fails
/// with the error of that instruction and stays as it was, however many
/// steps it is given.
pub proof fn lemma_zero_divisor_fails(m: MachineView, budget: nat)
    requires
        fetch(m) is Div || fetch(m) is Mod,
        m.stack.len() >= 2,
        m.stack[m.stack.len() - 2] is Integer,
        m.stack.last() == ValueView::Integer(0),
        budget > 0,
    ensures
        step_spec(m) == failed(m, zero_divisor_error(fetch(m))),
        run_spec(m, budget) == failed(m, zero_divisor_error(fetch(m))),
{
}

/// The program that loads a dividend and zero and divides, or takes the
/// remainder, fails with the error of that instruction for every dividend,
/// be it positive, negative or zero, and writes nothing.
pub proof fn lemma_division_by_zero(m: MachineView, a: i64, op: InstrView, budget: nat)
    requires
        op is Div || op is Mod,
        budget >= 3,
    ensures
        ({
            let code = seq![InstrView::LoadConst(0), InstrView::LoadConst(1), op];
            let constants = seq![ValueView::Integer(a), ValueView::Integer(0)];
            let (end, outcome) = run_spec(m.loaded(code, constants), budget);
            outcome == Outcome::Failed(zero_divisor_error(op)) && end.output == m.output
        }),
{
    let code = seq![InstrView::LoadConst(0), InstrView::LoadConst(1), op];
    let constants = seq![ValueView::Integer(a), ValueView::Integer(0)];
    let start = m.loaded(code, constants);
    let first = step_spec(start).0;
    let second = step_spec(first).0;
    assert(step_spec(start).1 is Running);
    assert(first.pc == 1);
    assert(first.stack == seq![ValueView::Integer(a)]);
    assert(step_spec(first).1 is Running);
    assert(second.pc == 2);
    assert(second.stack == seq![ValueView::Integer(a), ValueView::Integer(0)]);
    assert(fetch(second) == op);
    lemma_zero_divisor_fails(second, (budget - 2) as nat);
    assert(run_spec(first, (budget - 1) as nat) == run_spec(second, (budget - 2) as nat));
    assert(run_spec(start, budget) == run_spec(first, (budget - 1) as nat));
}

} // verus!
