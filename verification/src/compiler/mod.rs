//! The bytecode compiler: lowering of a function's tree into a flat
//! instruction sequence and an append-only constant pool.
//!
//! What the compiler emits is given by the spec functions of [`lowering`]
//! on the compiler's model; the executable functions are proved to compute
//! them. What holds of the emitted code is proved of those spec functions:
//! where its jumps and entries point ([`layout`]), that what it refers to
//! exists ([`references`]), and how deep it leaves the operand stack
//! ([`discipline`]), along every path ([`paths`]).

pub mod discipline;
pub mod layout;
pub mod lowering;
pub mod measure;
pub mod paths;
pub mod references;

use crate::ast::{
    expr_views, field_views, lemma_expr_views, stmt_views, elif_views, BinaryOp, Expression,
    Function, Literal, Statement, StmtView,
};
use crate::bytecode::{
    effect, instr_views, Bytecode, BUILTIN_FORMAT, BUILTIN_PRINT, BUILTIN_PUTS,
};
use crate::compiler::discipline::{deeper, lemma_expr_depth, lemma_stmt_depth};
use crate::compiler::layout::{
    lemma_branch_appends, lemma_declare_keeps, lemma_expr_appends, lemma_function_appends,
};
use crate::compiler::lowering::{
    builtin_id, cursor_name, declare_from, elifs_size, emit_branch, emit_char_bindings,
    emit_discarded, emit_element_bindings, emit_elifs, emit_expr, emit_exprs, emit_fields,
    emit_function, emit_functions, emit_parameters, emit_stmt, emit_stmts, expr_size, exprs_size,
    fits, function_size, function_views, literal_value, lookup, operator_instr,
    rejected_at_once, stmts_size,
    CompilerView, Lowered, LoopTargets,
};
use crate::compiler::paths::{
    above, exits, lemma_expr_straight, lemma_function_level, lemma_function_paths,
    lemma_functions_paths, lemma_stmt_level, level_to, paths_agree, straight_to,
};
use crate::compiler::references::{
    closed_from, lemma_function_refers_within, lemma_functions_refer_within,
};
use crate::compiler::measure::{measure_expression, measure_statement, measure_statements, measured};
use crate::text::{chars_of, push_decimal, unquote_literal};
use crate::value::{value_views, RuntimeValue};
use vstd::prelude::*;

verus! {

/// Why a function could not be compiled.
#[derive(Debug, Clone, PartialEq, Eq)]
pub enum CompileError {
    /// A function is declared inside a function.
    NestedFunctionUnsupported,
    /// `puts` or `print` is called with another number of arguments than one.
    UnknownBuiltinArity,
    BreakOrContinueOutsideLoop,
    /// The iterable of a `for` is neither an array literal nor a string
    /// literal.
    NonIterableForTarget,
    /// No function of that name is in the function table.
    UnresolvedCallee(String),
    /// A value is assigned: to a name that is not being declared, to an
    /// element of an array or to a field.
    ReassignmentUnsupported,
    /// An offset or a count would not fit in a machine word.
    ProgramTooLarge,
}

/// Model of a [`CompileError`].
pub enum CompileErrorView {
    NestedFunctionUnsupported,
    UnknownBuiltinArity,
    BreakOrContinueOutsideLoop,
    NonIterableForTarget,
    UnresolvedCallee(Seq<char>),
    ReassignmentUnsupported,
    ProgramTooLarge,
}

impl View for CompileError {
    type V = CompileErrorView;

    open spec fn view(&self) -> CompileErrorView {
        match self {
            CompileError::NestedFunctionUnsupported => CompileErrorView::NestedFunctionUnsupported,
            CompileError::UnknownBuiltinArity => CompileErrorView::UnknownBuiltinArity,
            CompileError::BreakOrContinueOutsideLoop => {
                CompileErrorView::BreakOrContinueOutsideLoop
            },
            CompileError::NonIterableForTarget => CompileErrorView::NonIterableForTarget,
            CompileError::UnresolvedCallee(name) => CompileErrorView::UnresolvedCallee(name@),
            CompileError::ReassignmentUnsupported => CompileErrorView::ReassignmentUnsupported,
            CompileError::ProgramTooLarge => CompileErrorView::ProgramTooLarge,
        }
    }
}

/// The message of a compile error.
pub open spec fn compile_error_text(error: CompileErrorView) -> Seq<char> {
    match error {
        CompileErrorView::NestedFunctionUnsupported => "Nested functions are not supported"@,
        CompileErrorView::UnknownBuiltinArity => "print and puts expect 1 argument"@,
        CompileErrorView::BreakOrContinueOutsideLoop => "break or continue outside of a loop"@,
        CompileErrorView::NonIterableForTarget => {
            "for expects an array literal or a string literal"@
        },
        CompileErrorView::UnresolvedCallee(name) => "Unknown function: "@ + name,
        CompileErrorView::ReassignmentUnsupported => "Assignment is not supported"@,
        CompileErrorView::ProgramTooLarge => "Program too large"@,
    }
}

impl CompileError {
    /// The message of the error.
    pub fn message(&self) -> (text: String)
        ensures
            text@ == compile_error_text(self@),
    {
        match self {
            CompileError::NestedFunctionUnsupported => String::from_str(
                "Nested functions are not supported",
            ),
            CompileError::UnknownBuiltinArity => String::from_str(
                "print and puts expect 1 argument",
            ),
            CompileError::BreakOrContinueOutsideLoop => String::from_str(
                "break or continue outside of a loop",
            ),
            CompileError::NonIterableForTarget => String::from_str(
                "for expects an array literal or a string literal",
            ),
            CompileError::UnresolvedCallee(name) => {
                let mut text = String::from_str("Unknown function: ");
                text.append(name.as_str());
                text
            },
            CompileError::ReassignmentUnsupported => String::from_str(
                "Assignment is not supported",
            ),
            CompileError::ProgramTooLarge => String::from_str("Program too large"),
        }
    }
}

/// An entry of the function table.
#[derive(Debug, Clone)]
pub struct FunctionEntry {
    pub name: String,
    /// The offset of the function's first instruction.
    pub entry: usize,
    pub num_params: usize,
}

/// Model of a [`FunctionEntry`].
pub struct EntryView {
    pub name: Seq<char>,
    pub entry: usize,
    pub num_params: usize,
}

impl View for FunctionEntry {
    type V = EntryView;

    open spec fn view(&self) -> EntryView {
        EntryView { name: self.name@, entry: self.entry, num_params: self.num_params }
    }
}

/// The models of a function table, entry by entry.
pub open spec fn entry_views(entries: Seq<FunctionEntry>) -> Seq<EntryView> {
    entries.map_values(|e: FunctionEntry| e@)
}

/// The compiler of one compilation unit. Instructions and constants are
/// only ever appended.
pub struct BytecodeCompiler {
    bytecode: Vec<Bytecode>,
    constants: Vec<RuntimeValue>,
    functions: Vec<FunctionEntry>,
    depth: Ghost<int>,
    depths: Ghost<Map<int, int>>,
}

impl View for BytecodeCompiler {
    type V = CompilerView;

    closed spec fn view(&self) -> CompilerView {
        CompilerView {
            code: instr_views(self.bytecode@),
            constants: value_views(self.constants@),
            functions: entry_views(self.functions@),
            depth: self.depth@,
            depths: self.depths@,
        }
    }
}

/// Whether `after` still holds, unchanged and in place, everything that
/// `before` holds.
pub open spec fn keeps(before: CompilerView, after: CompilerView) -> bool {
    &&& after.code.len() >= before.code.len()
    &&& forall|i: int| 0 <= i < before.code.len() ==> #[trigger] after.code[i] == before.code[i]
    &&& after.constants.len() >= before.constants.len()
    &&& forall|i: int|
        0 <= i < before.constants.len() ==> #[trigger] after.constants[i] == before.constants[i]
    &&& after.functions == before.functions
}

/// Whether `result` reports what the lowering `expected` yields, with
/// `after` as the compiler afterwards where it succeeds. Where it fails,
/// what the compiler held before is still in place.
pub open spec fn reports(
    expected: Lowered,
    before: CompilerView,
    after: CompilerView,
    result: Result<(), CompileError>,
) -> bool {
    &&& keeps(before, after)
    &&& match expected {
        Ok(st) => result is Ok && after == st,
        Err(e) => result is Err && result->Err_0@ == e,
    }
}

/// The builtin that the name denotes, if any.
pub(crate) fn builtin_of(name: &String) -> (id: Option<usize>)
    ensures
        id == builtin_id(name@),
{
    let puts = String::from_str("puts");
    let print = String::from_str("print");
    if *name == puts {
        Some(BUILTIN_PUTS)
    } else if *name == print {
        Some(BUILTIN_PRINT)
    } else {
        None
    }
}

/// The instruction of a binary operator.
fn operator_bytecode(op: &BinaryOp) -> (instr: Bytecode)
    ensures
        instr@ == operator_instr(*op),
{
    match op {
        BinaryOp::Add => Bytecode::Add,
        BinaryOp::Subtract => Bytecode::Sub,
        BinaryOp::Multiply => Bytecode::Mul,
        BinaryOp::Divide => Bytecode::Div,
        BinaryOp::Modulo => Bytecode::Mod,
        BinaryOp::Equal => Bytecode::Eq,
        BinaryOp::NotEqual => Bytecode::Ne,
        BinaryOp::Less => Bytecode::Lt,
        BinaryOp::LessEqual => Bytecode::Le,
        BinaryOp::Greater => Bytecode::Gt,
        BinaryOp::GreaterEqual => Bytecode::Ge,
    }
}

impl BytecodeCompiler {
    /// A compiler that has emitted nothing and knows no function.
    pub fn new() -> (compiler: BytecodeCompiler)
        ensures
            compiler@ == (CompilerView {
                code: Seq::empty(),
                constants: Seq::empty(),
                functions: Seq::empty(),
                depth: 0,
                depths: Map::empty(),
            }),
    {
        let compiler = BytecodeCompiler {
            bytecode: Vec::new(),
            constants: Vec::new(),
            functions: Vec::new(),
            depth: Ghost(0),
            depths: Ghost(Map::empty()),
        };
        proof {
            assert(compiler@.code =~= Seq::empty());
            assert(compiler@.constants =~= Seq::empty());
            assert(compiler@.functions =~= Seq::empty());
        }
        compiler
    }

    /// Appends a value to the constant pool and returns its index.
    fn add_constant(&mut self, value: RuntimeValue) -> (index: usize)
        ensures
            index == old(self)@.constants.len(),
            final(self)@ == (CompilerView {
                constants: old(self)@.constants.push(value@),
                ..old(self)@
            }),
    {
        let index = self.constants.len();
        self.constants.push(value);
        proof {
            assert(self@.constants =~= old(self)@.constants.push(value@));
        }
        index
    }

    /// Emits one instruction.
    fn emit(&mut self, instr: Bytecode)
        ensures
            final(self)@ == old(self)@.emit(instr@),
    {
        proof {
            self.depths@ = self.depths@.insert(self.bytecode@.len() as int, self.depth@);
            self.depth@ = self.depth@ + effect(instr@);
        }
        self.bytecode.push(instr);
        proof {
            assert(self@.code =~= old(self)@.code.push(instr@));
        }
    }

    /// Appends a value to the constant pool and emits the instruction that
    /// loads it.
    fn load(&mut self, value: RuntimeValue)
        ensures
            final(self)@ == old(self)@.load(value@),
    {
        let index = self.add_constant(value);
        self.emit(Bytecode::LoadConst(index));
    }

    /// Emits the formatting of `count` substitution arguments.
    fn format(&mut self, count: i64)
        requires
            count >= 0,
        ensures
            final(self)@ == old(self)@.format(count as nat),
    {
        self.load(RuntimeValue::Integer(count));
        self.emit(Bytecode::CallBuiltin(BUILTIN_FORMAT));
        proof {
            self.depth@ = self.depth@ - count;
        }
    }

    /// The runtime value of a literal.
    fn literal_to_runtime_value(&self, literal: &Literal) -> (value: Result<
        RuntimeValue,
        CompileError,
    >)
        ensures
            value is Ok,
            value->Ok_0@ == literal_value(literal@),
    {
        match literal {
            Literal::Integer(n) => Ok(RuntimeValue::Integer(*n)),
            Literal::String(raw) => Ok(RuntimeValue::String(unquote_literal(raw.as_str()))),
            Literal::Boolean(b) => Ok(RuntimeValue::Boolean(*b)),
        }
    }

    /// The first entry of the function table with that name.
    fn resolve(&self, name: &String) -> (found: Option<(usize, usize)>)
        ensures
            match lookup(self@.functions, name@) {
                Some(f) => found == Some((f.entry, f.num_params)),
                None => found is None,
            },
    {
        let mut i: usize = 0;
        proof {
            assert(self@.functions.skip(0) == self@.functions);
        }
        while i < self.functions.len()
            invariant
                i <= self.functions.len(),
                lookup(self@.functions, name@) == lookup(self@.functions.skip(i as int), name@),
            decreases self.functions.len() - i,
        {
            proof {
                assert(self@.functions.skip(i as int).skip(1) == self@.functions.skip(
                    i as int + 1,
                ));
            }
            if self.functions[i].name == *name {
                return Some((self.functions[i].entry, self.functions[i].num_params));
            }
            i += 1;
        }
        None
    }

    /// Lowers expressions in order, each leaving its value on the stack.
    #[verifier::loop_isolation(false)]
    fn compile_arguments(&mut self, arguments: &Vec<Expression>) -> (result: Result<
        (),
        CompileError,
    >)
        ensures
            reports(
                emit_exprs(old(self)@, expr_views(arguments@)),
                old(self)@,
                final(self)@,
                result,
            ),
        decreases arguments,
    {
        let ghost es = expr_views(arguments@);
        let mut i: usize = 0;
        proof {
            assert(es.skip(0) == es);
        }
        while i < arguments.len()
            invariant
                i <= arguments.len(),
                keeps(old(self)@, self@),
                emit_exprs(old(self)@, es) == emit_exprs(self@, es.skip(i as int)),
            decreases arguments.len() - i,
        {
            proof {
                assert(es.skip(i as int).skip(1) == es.skip(i as int + 1));
            }
            self.compile_expression(&arguments[i])?;
            i += 1;
        }
        Ok(())
    }

    /// Lowers expressions in order and pops the value of each.
    #[verifier::loop_isolation(false)]
    fn compile_discarded(&mut self, expressions: &Vec<Expression>) -> (result: Result<
        (),
        CompileError,
    >)
        ensures
            reports(
                emit_discarded(old(self)@, expr_views(expressions@)),
                old(self)@,
                final(self)@,
                result,
            ),
        decreases expressions,
    {
        let ghost es = expr_views(expressions@);
        let mut i: usize = 0;
        proof {
            assert(es.skip(0) == es);
        }
        while i < expressions.len()
            invariant
                i <= expressions.len(),
                keeps(old(self)@, self@),
                emit_discarded(old(self)@, es) == emit_discarded(self@, es.skip(i as int)),
            decreases expressions.len() - i,
        {
            proof {
                assert(es.skip(i as int).skip(1) == es.skip(i as int + 1));
            }
            self.compile_expression(&expressions[i])?;
            self.emit(Bytecode::Pop);
            i += 1;
        }
        Ok(())
    }

    /// Lowers initializers in order and pops the value of each.
    #[verifier::loop_isolation(false)]
    #[verifier::rlimit(30)]
    fn compile_fields(&mut self, fields: &Vec<(String, Expression)>) -> (result: Result<
        (),
        CompileError,
    >)
        ensures
            reports(
                emit_fields(old(self)@, field_views(fields@)),
                old(self)@,
                final(self)@,
                result,
            ),
        decreases fields,
    {
        let ghost fs = field_views(fields@);
        let mut i: usize = 0;
        proof {
            assert(fs.skip(0) == fs);
        }
        while i < fields.len()
            invariant
                i <= fields.len(),
                keeps(old(self)@, self@),
                emit_fields(old(self)@, fs) == emit_fields(self@, fs.skip(i as int)),
            decreases fields.len() - i,
        {
            proof {
                assert(fs.skip(i as int).skip(1) == fs.skip(i as int + 1));
            }
            self.compile_expression(&fields[i].1)?;
            self.emit(Bytecode::Pop);
            i += 1;
        }
        Ok(())
    }

    /// Lowers an expression: the code emitted leaves one value on the stack,
    /// never takes the stack below where it found it, and does not jump.
    /// Where the expression itself is at fault, nothing is emitted; where a
    /// part of it is, what was emitted for the parts before it stays.
    #[verifier::rlimit(30)]
    pub fn compile_expression(&mut self, expr: &Expression) -> (result: Result<(), CompileError>)
        ensures
            reports(emit_expr(old(self)@, expr@), old(self)@, final(self)@, result),
            rejected_at_once(old(self)@, expr@) ==> final(self)@ == old(self)@,
            result is Ok ==> deeper(old(self)@, final(self)@, 1),
            result is Ok ==> straight_to(old(self)@, final(self)@, old(self)@.depth),
        decreases expr,
    {
        proof {
            lemma_expr_depth(self@, expr@);
            lemma_expr_straight(self@, expr@);
        }
        match expr {
            Expression::Literal(literal) => {
                let value = self.literal_to_runtime_value(literal)?;
                self.load(value);
            },
            Expression::VariableDeclaration { .. } => {
                return Err(CompileError::ReassignmentUnsupported);
            },
            Expression::Variable(name) => {
                self.emit(Bytecode::LoadGlobal(name.clone()));
            },
            Expression::Binary { left, operator, right } => {
                self.compile_expression(left)?;
                self.compile_expression(right)?;
                self.emit(operator_bytecode(operator));
            },
            Expression::Call { name, arguments } => {
                proof {
                    lemma_expr_views(arguments@);
                }
                match builtin_of(name) {
                    Some(id) => {
                        if arguments.len() != 1 {
                            return Err(CompileError::UnknownBuiltinArity);
                        }
                        self.compile_expression(&arguments[0])?;
                        self.emit(Bytecode::CallBuiltin(id));
                    },
                    None => {
                        match self.resolve(name) {
                            Some((entry, num_params)) => {
                                let count = arguments.len();
                                self.compile_arguments(arguments)?;
                                self.load(
                                    RuntimeValue::Function {
                                        name: name.clone(),
                                        ip: entry,
                                        num_params,
                                    },
                                );
                                self.emit(Bytecode::Call(count));
                            },
                            None => {
                                return Err(CompileError::UnresolvedCallee(name.clone()));
                            },
                        }
                    },
                }
            },
            Expression::FormatCall { name, format_string, arguments } => {
                match builtin_of(name) {
                    Some(id) => {
                        if (arguments.len() as u64) > (i64::MAX as u64) {
                            return Err(CompileError::ProgramTooLarge);
                        }
                        self.load(RuntimeValue::String(unquote_literal(format_string.as_str())));
                        self.compile_arguments(arguments)?;
                        self.format(arguments.len() as i64);
                        self.emit(Bytecode::CallBuiltin(id));
                    },
                    None => {
                        return Err(CompileError::UnresolvedCallee(name.clone()));
                    },
                }
            },
            Expression::ArrayLiteral(elements) => {
                self.compile_discarded(elements)?;
                let mut tag = String::from_str("array_");
                push_decimal(&mut tag, elements.len() as u64);
                self.load(RuntimeValue::String(tag));
            },
            Expression::ArrayAccess { array, index } => {
                self.compile_expression(array)?;
                self.emit(Bytecode::Pop);
                self.compile_expression(index)?;
                self.emit(Bytecode::Pop);
                self.load(RuntimeValue::Integer(0));
            },
            Expression::ArrayAssignment { .. } => {
                return Err(CompileError::ReassignmentUnsupported);
            },
            Expression::StructDefinition { .. } => {
                self.load(RuntimeValue::Null);
            },
            Expression::StructInitialization { fields, .. } => {
                self.compile_fields(fields)?;
                self.load(RuntimeValue::String(String::from_str("struct_instance")));
            },
            Expression::StructFieldAccess { object, field } => {
                self.compile_expression(object)?;
                self.emit(Bytecode::Pop);
                self.load(RuntimeValue::String(field.clone()));
            },
            Expression::StructFieldAssignment { .. } => {
                return Err(CompileError::ReassignmentUnsupported);
            },
            Expression::EnumVariantCreation { variant_name, values, .. } => {
                self.compile_discarded(values)?;
                let mut tag = String::from_str("enum_");
                tag.append(variant_name.as_str());
                self.load(RuntimeValue::String(tag));
            },
            Expression::EnumMatch { .. } => {
                self.load(RuntimeValue::Null);
            },
        }
        Ok(())
    }

    /// The name of the global that holds the cursor of the `for` whose code
    /// starts at `start`.
    fn cursor_of(start: usize) -> (name: String)
        ensures
            name@ == cursor_name(start as nat),
    {
        let mut name = String::from_str("@for");
        push_decimal(&mut name, start as u64);
        name
    }

    /// Emits the bindings of the elements of an array literal.
    #[verifier::loop_isolation(false)]
    fn compile_element_bindings(
        &mut self,
        cursor: &String,
        variable: &String,
        elements: &Vec<Expression>,
    ) -> (result: Result<(), CompileError>)
        requires
            elements.len() <= i64::MAX,
            fits(
                old(self)@,
                (exprs_size(expr_views(elements@)) + 5 * elements.len()) as nat,
            ),
        ensures
            reports(
                emit_element_bindings(
                    old(self)@,
                    cursor@,
                    variable@,
                    expr_views(elements@),
                    0,
                ),
                old(self)@,
                final(self)@,
                result,
            ),
    {
        let ghost es = expr_views(elements@);
        let mut i: usize = 0;
        proof {
            assert(es.skip(0) == es);
        }
        while i < elements.len()
            invariant
                i <= elements.len(),
                keeps(old(self)@, self@),
                fits(self@, (exprs_size(es.skip(i as int)) + 5 * (elements.len() - i)) as nat),
                emit_element_bindings(old(self)@, cursor@, variable@, es, 0)
                    == emit_element_bindings(
                    self@,
                    cursor@,
                    variable@,
                    es.skip(i as int),
                    i as int,
                ),
            decreases elements.len() - i,
        {
            proof {
                assert(es.skip(i as int).skip(1) == es.skip(i as int + 1));
            }
            self.emit(Bytecode::LoadGlobal(cursor.clone()));
            self.load(RuntimeValue::Integer(i as i64));
            self.emit(Bytecode::Eq);
            let size = measure_expression(&elements[i]).unwrap();
            let next = self.bytecode.len() + size + 2;
            self.emit(Bytecode::JumpIfFalse(next));
            let ghost jumped = self@;
            self.compile_expression(&elements[i])?;
            proof {
                lemma_expr_appends(jumped, elements[i as int]@);
            }
            self.emit(Bytecode::StoreGlobal(variable.clone()));
            i += 1;
        }
        Ok(())
    }

    /// Emits the bindings of the characters of a string literal.
    fn compile_char_bindings(&mut self, cursor: &String, variable: &String, chars: &Vec<char>)
        requires
            chars.len() <= i64::MAX,
            fits(old(self)@, (6 * chars.len()) as nat),
        ensures
            keeps(old(self)@, final(self)@),
            final(self)@ == emit_char_bindings(old(self)@, cursor@, variable@, chars@, 0),
    {
        let mut i: usize = 0;
        proof {
            assert(chars@.skip(0) == chars@);
        }
        while i < chars.len()
            invariant
                i <= chars.len() <= i64::MAX,
                keeps(old(self)@, self@),
                fits(self@, (6 * (chars.len() - i)) as nat),
                emit_char_bindings(old(self)@, cursor@, variable@, chars@, 0)
                    == emit_char_bindings(
                    self@,
                    cursor@,
                    variable@,
                    chars@.skip(i as int),
                    i as int,
                ),
            decreases chars.len() - i,
        {
            proof {
                assert(chars@.skip(i as int).skip(1) == chars@.skip(i as int + 1));
            }
            self.emit(Bytecode::LoadGlobal(cursor.clone()));
            self.load(RuntimeValue::Integer(i as i64));
            self.emit(Bytecode::Eq);
            let next = self.bytecode.len() + 3;
            self.emit(Bytecode::JumpIfFalse(next));
            let mut one = String::new();
            one.push(chars[i]);
            self.load(RuntimeValue::String(one));
            self.emit(Bytecode::StoreGlobal(variable.clone()));
            i += 1;
        }
    }

    /// Lowers a `for`, whose parts are `variable`, `iterable` and `body`.
    #[verifier::rlimit(30)]
    fn compile_for(
        &mut self,
        stmt: &Statement,
        variable: &String,
        iterable: &Expression,
        body: &Vec<Statement>,
    ) -> (result: Result<(), CompileError>)
        requires
            stmt@ == (StmtView::For {
                variable: variable@,
                iterable: iterable@,
                body: stmt_views(body@),
            }),
        ensures
            reports(emit_stmt(old(self)@, stmt@, None), old(self)@, final(self)@, result),
        decreases body, 1nat,
    {
        let chars: Vec<char> = match iterable {
            Expression::ArrayLiteral(_) => Vec::new(),
            Expression::Literal(Literal::String(raw)) => {
                let text = unquote_literal(raw.as_str());
                chars_of(text.as_str())
            },
            _ => {
                return Err(CompileError::NonIterableForTarget);
            },
        };
        let count: usize = match iterable {
            Expression::ArrayLiteral(elements) => elements.len(),
            _ => chars.len(),
        };
        let size = match measure_statement(stmt) {
            Some(n) => n,
            None => {
                return Err(CompileError::ProgramTooLarge);
            },
        };
        let start = self.bytecode.len();
        let end = match start.checked_add(size) {
            Some(e) => e,
            None => {
                return Err(CompileError::ProgramTooLarge);
            },
        };
        if (count as u64) > (i64::MAX as u64) {
            return Err(CompileError::ProgramTooLarge);
        }
        let cursor = Self::cursor_of(start);
        self.load(RuntimeValue::Integer(0));
        self.emit(Bytecode::StoreGlobal(cursor.clone()));
        let head = self.bytecode.len();
        self.emit(Bytecode::LoadGlobal(cursor.clone()));
        self.load(RuntimeValue::Integer(count as i64));
        self.emit(Bytecode::Lt);
        self.emit(Bytecode::JumpIfFalse(end));
        match iterable {
            Expression::ArrayLiteral(elements) => {
                self.compile_element_bindings(&cursor, variable, elements)?;
            },
            _ => {
                self.compile_char_bindings(&cursor, variable, &chars);
            },
        }
        let targets = LoopTargets { continue_target: end - 5, break_target: end };
        self.compile_statements(body, Some(targets))?;
        self.emit(Bytecode::LoadGlobal(cursor.clone()));
        self.load(RuntimeValue::Integer(1));
        self.emit(Bytecode::Add);
        self.emit(Bytecode::StoreGlobal(cursor.clone()));
        self.emit(Bytecode::Jump(head));
        Ok(())
    }

    /// Emits one branch of an `if`.
    fn compile_branch(
        &mut self,
        condition: &Expression,
        body: &Vec<Statement>,
        end: usize,
        targets: Option<LoopTargets>,
    ) -> (result: Result<(), CompileError>)
        requires
            fits(
                old(self)@,
                expr_size(condition@) + stmts_size(stmt_views(body@)) + 2,
            ),
        ensures
            reports(
                emit_branch(old(self)@, condition@, stmt_views(body@), end, targets),
                old(self)@,
                final(self)@,
                result,
            ),
        decreases body, 1nat,
    {
        self.compile_expression(condition)?;
        proof {
            lemma_expr_appends(old(self)@, condition@);
        }
        let size = measure_statements(body).unwrap();
        let next = self.bytecode.len() + size + 2;
        self.emit(Bytecode::JumpIfFalse(next));
        self.compile_statements(body, targets)?;
        self.emit(Bytecode::Jump(end));
        Ok(())
    }

    /// Emits the `elif` branches of an `if`.
    #[verifier::loop_isolation(false)]
    fn compile_elifs(
        &mut self,
        branches: &Vec<(Expression, Vec<Statement>)>,
        end: usize,
        targets: Option<LoopTargets>,
    ) -> (result: Result<(), CompileError>)
        requires
            fits(old(self)@, elifs_size(elif_views(branches@))),
        ensures
            reports(
                emit_elifs(old(self)@, elif_views(branches@), end, targets),
                old(self)@,
                final(self)@,
                result,
            ),
        decreases branches, 0nat,
    {
        let ghost bs = elif_views(branches@);
        let mut i: usize = 0;
        proof {
            assert(bs.skip(0) == bs);
        }
        while i < branches.len()
            invariant
                i <= branches.len(),
                keeps(old(self)@, self@),
                fits(self@, elifs_size(bs.skip(i as int))),
                emit_elifs(old(self)@, bs, end, targets) == emit_elifs(
                    self@,
                    bs.skip(i as int),
                    end,
                    targets,
                ),
            decreases branches.len() - i,
        {
            proof {
                assert(bs.skip(i as int).skip(1) == bs.skip(i as int + 1));
            }
            let ghost before = self@;
            self.compile_branch(&branches[i].0, &branches[i].1, end, targets)?;
            proof {
                lemma_branch_appends(before, bs[i as int].0, bs[i as int].1, end, targets);
            }
            i += 1;
        }
        Ok(())
    }

    /// Lowers statements in order.
    #[verifier::loop_isolation(false)]
    fn compile_statements(
        &mut self,
        statements: &Vec<Statement>,
        targets: Option<LoopTargets>,
    ) -> (result: Result<(), CompileError>)
        ensures
            reports(
                emit_stmts(old(self)@, stmt_views(statements@), targets),
                old(self)@,
                final(self)@,
                result,
            ),
        decreases statements, 0nat,
    {
        let ghost ss = stmt_views(statements@);
        let mut i: usize = 0;
        proof {
            assert(ss.skip(0) == ss);
        }
        while i < statements.len()
            invariant
                i <= statements.len(),
                keeps(old(self)@, self@),
                emit_stmts(old(self)@, ss, targets) == emit_stmts(
                    self@,
                    ss.skip(i as int),
                    targets,
                ),
            decreases statements.len() - i,
        {
            proof {
                assert(ss.skip(i as int).skip(1) == ss.skip(i as int + 1));
            }
            self.compile_statement(&statements[i], targets)?;
            i += 1;
        }
        Ok(())
    }

    /// Lowers a statement: the code emitted leaves the stack as deep as it
    /// found it and never takes it below, along every path: each of its
    /// jumps leaves the stack at that depth, and lands in the statement's
    /// own code or at its end, where the depth is the same, or at a jump
    /// target of the enclosing loop. `targets` are the jump targets of the
    /// innermost enclosing loop, if the statement stands in one. Where the
    /// statement cannot be lowered, what was emitted for the parts before
    /// the fault stays.
    #[verifier::rlimit(30)]
    pub fn compile_statement(
        &mut self,
        stmt: &Statement,
        targets: Option<LoopTargets>,
    ) -> (result: Result<(), CompileError>)
        ensures
            reports(emit_stmt(old(self)@, stmt@, targets), old(self)@, final(self)@, result),
            result is Ok ==> deeper(old(self)@, final(self)@, 0),
            result is Ok ==> level_to(
                old(self)@,
                final(self)@,
                old(self)@.depth,
                exits(targets),
            ),
        decreases stmt, 0nat,
    {
        proof {
            lemma_stmt_depth(self@, stmt@, targets);
            lemma_stmt_level(self@, stmt@, targets);
        }
        match stmt {
            Statement::Expression(expr) => {
                self.compile_expression(expr)?;
                self.emit(Bytecode::Pop);
            },
            Statement::VariableDeclaration { name, value, explicit_type: _ } => {
                self.compile_expression(value)?;
                self.emit(Bytecode::StoreGlobal(name.clone()));
            },
            Statement::Block(statements) => {
                self.compile_statements(statements, targets)?;
            },
            Statement::Function(_) => {
                return Err(CompileError::NestedFunctionUnsupported);
            },
            Statement::If { condition, then_branch, elif_branches, else_branch } => {
                let size = match measure_statement(stmt) {
                    Some(n) => n,
                    None => {
                        return Err(CompileError::ProgramTooLarge);
                    },
                };
                let end = match self.bytecode.len().checked_add(size) {
                    Some(e) => e,
                    None => {
                        return Err(CompileError::ProgramTooLarge);
                    },
                };
                self.compile_branch(condition, then_branch, end, targets)?;
                proof {
                    lemma_branch_appends(
                        old(self)@,
                        condition@,
                        stmt_views(then_branch@),
                        end,
                        targets,
                    );
                }
                self.compile_elifs(elif_branches, end, targets)?;
                match else_branch {
                    Some(body) => {
                        self.compile_statements(body, targets)?;
                    },
                    None => {},
                }
            },
            Statement::While { condition, body } => {
                let size = match measure_statement(stmt) {
                    Some(n) => n,
                    None => {
                        return Err(CompileError::ProgramTooLarge);
                    },
                };
                let head = self.bytecode.len();
                let end = match head.checked_add(size) {
                    Some(e) => e,
                    None => {
                        return Err(CompileError::ProgramTooLarge);
                    },
                };
                self.compile_expression(condition)?;
                self.emit(Bytecode::JumpIfFalse(end));
                self.compile_statements(
                    body,
                    Some(LoopTargets { continue_target: head, break_target: end }),
                )?;
                self.emit(Bytecode::Jump(head));
            },
            Statement::For { variable, iterable, body } => {
                return self.compile_for(stmt, variable, iterable, body);
            },
            Statement::Break => {
                match targets {
                    Some(t) => {
                        self.emit(Bytecode::Jump(t.break_target));
                    },
                    None => {
                        return Err(CompileError::BreakOrContinueOutsideLoop);
                    },
                }
            },
            Statement::Continue => {
                match targets {
                    Some(t) => {
                        self.emit(Bytecode::Jump(t.continue_target));
                    },
                    None => {
                        return Err(CompileError::BreakOrContinueOutsideLoop);
                    },
                }
            },
            Statement::UnsafeBlock(statements) => {
                self.compile_statements(statements, targets)?;
            },
            Statement::Import(_) => {},
            Statement::ImportAs(_, _) => {},
        }
        Ok(())
    }

    /// Drops what was emitted after the compiler held `code_len`
    /// instructions and `constants_len` constants.
    fn rewind(&mut self, code_len: usize, constants_len: usize, Ghost(before): Ghost<CompilerView>)
        requires
            keeps(before, old(self)@),
            code_len == before.code.len(),
            constants_len == before.constants.len(),
        ensures
            final(self)@ == before,
    {
        let ghost mid = self@;
        self.bytecode.truncate(code_len);
        self.constants.truncate(constants_len);
        proof {
            self.depth@ = before.depth;
            self.depths@ = before.depths;
            assert forall|i: int| 0 <= i < code_len implies self@.code[i] == before.code[i] by {
                assert(mid.code[i] == before.code[i]);
            }
            assert forall|i: int| 0 <= i < constants_len implies self@.constants[i]
                == before.constants[i] by {
                assert(mid.constants[i] == before.constants[i]);
            }
            assert(self@.code =~= before.code);
            assert(self@.constants =~= before.constants);
        }
    }

    /// The number of instructions that the function lowers to.
    fn measure_function(func: &Function) -> (size: Option<usize>)
        ensures
            measured(size, function_size(func@)),
    {
        let body = measure_statements(&func.body)?;
        func.parameters.len().checked_add(body)?.checked_add(2)
    }

    /// Enters the functions into the function table before any of them is
    /// compiled, so that calls can resolve functions that are compiled
    /// later, and the caller itself. The first function is entered where the
    /// code emitted so far ends and each of the others where the one before
    /// it ends: these are the offsets at which `compile_function` places
    /// them when they are compiled next, in this order.
    ///
    /// Where an entry would not fit in a machine word the table is left as
    /// it was.
    pub fn declare_functions(&mut self, functions: &Vec<Function>) -> (result: Result<
        (),
        CompileError,
    >)
        ensures
            match declare_from(
                old(self)@,
                function_views(functions@),
                old(self)@.code.len(),
            ) {
                Ok(st) => result is Ok && final(self)@ == st,
                Err(e) => result is Err && result->Err_0@ == e && final(self)@ == old(self)@,
            },
    {
        let ghost fs = function_views(functions@);
        let known = self.functions.len();
        let mut entry: Option<usize> = Some(self.bytecode.len());
        let ghost mut offset: nat = self.bytecode.len() as nat;
        let mut i: usize = 0;
        proof {
            assert(fs.skip(0) == fs);
        }
        while i < functions.len()
            invariant
                i <= functions.len(),
                fs == function_views(functions@),
                known == old(self).functions.len(),
                self.functions.len() >= known,
                self.functions@.take(known as int) == old(self).functions@,
                self.bytecode == old(self).bytecode,
                self.constants == old(self).constants,
                self.depth == old(self).depth,
                self.depths == old(self).depths,
                measured(entry, offset),
                declare_from(old(self)@, fs, old(self)@.code.len()) == declare_from(
                    self@,
                    fs.skip(i as int),
                    offset,
                ),
            decreases functions.len() - i,
        {
            proof {
                assert(fs.skip(i as int).skip(1) == fs.skip(i as int + 1));
            }
            let at = match entry {
                Some(at) => at,
                None => {
                    self.functions.truncate(known);
                    return Err(CompileError::ProgramTooLarge);
                },
            };
            let func = &functions[i];
            let ghost before = self@;
            self.functions.push(
                FunctionEntry {
                    name: func.name.clone(),
                    entry: at,
                    num_params: func.parameters.len(),
                },
            );
            proof {
                assert(self@.functions =~= before.functions.push(
                    EntryView {
                        name: func@.name,
                        entry: at,
                        num_params: func@.parameters.len() as usize,
                    },
                ));
                offset = offset + function_size(func@);
            }
            entry = match Self::measure_function(func) {
                Some(size) => at.checked_add(size),
                None => None,
            };
            i += 1;
        }
        Ok(())
    }

    /// Compiles one function: the binding of its parameters, its body, and
    /// the return of null for a body that ends without returning. Returns
    /// all instructions and all constants that this compiler has emitted.
    ///
    /// Every constant that the emitted code loads lies in the constant
    /// pool, and every jump of it leads into the code or to its end, to
    /// where the stack is as deep as behind the jump. Nowhere is the stack
    /// less deep than the binding of the parameters leaves it.
    ///
    /// Where the function cannot be compiled the compiler is left as it
    /// was, and other functions can still be compiled with it.
    pub fn compile_function(&mut self, func: &Function) -> (result: Result<
        (Vec<Bytecode>, Vec<RuntimeValue>),
        CompileError,
    >)
        ensures
            match emit_function(old(self)@, func@) {
                Ok(st) => result is Ok && final(self)@ == st && instr_views(result->Ok_0.0@)
                    == st.code && value_views(result->Ok_0.1@) == st.constants,
                Err(e) => result is Err && result->Err_0@ == e && final(self)@ == old(self)@,
            },
            result is Ok ==> closed_from(
                final(self)@,
                old(self)@.code.len() as int,
                final(self)@.code.len(),
            ),
            result is Ok ==> paths_agree(final(self)@, old(self)@.code.len() as int),
            result is Ok ==> above(
                old(self)@,
                final(self)@,
                old(self)@.depth - func@.parameters.len(),
            ),
    {
        proof {
            lemma_function_refers_within(self@, func@);
            lemma_function_paths(self@, func@);
            lemma_function_level(self@, func@);
        }
        let code_len = self.bytecode.len();
        let constants_len = self.constants.len();
        let ghost parameters = func@.parameters;
        let mut i: usize = func.parameters.len();
        proof {
            assert(parameters.take(i as int) == parameters);
        }
        while i > 0
            invariant
                i <= func.parameters.len(),
                parameters == func@.parameters,
                keeps(old(self)@, self@),
                emit_parameters(old(self)@, parameters) == emit_parameters(
                    self@,
                    parameters.take(i as int),
                ),
            decreases i,
        {
            i -= 1;
            proof {
                assert(parameters.take(i as int + 1).drop_last() == parameters.take(i as int));
            }
            self.emit(Bytecode::StoreGlobal(func.parameters[i].0.clone()));
        }
        match self.compile_statements(&func.body, None) {
            Ok(()) => {
                self.load(RuntimeValue::Null);
                self.emit(Bytecode::Return);
                Ok((self.code(), self.constant_pool()))
            },
            Err(e) => {
                self.rewind(code_len, constants_len, Ghost(old(self)@));
                Err(e)
            },
        }
    }

    /// Compiles the functions one after the other, after entering all of
    /// them into the function table. Execution of the result starts with
    /// the first function.
    ///
    /// Where one of them cannot be compiled the compiler is left as it was.
    pub fn compile_functions(&mut self, functions: &Vec<Function>) -> (result: Result<
        (Vec<Bytecode>, Vec<RuntimeValue>),
        CompileError,
    >)
        ensures
            match declare_from(
                old(self)@,
                function_views(functions@),
                old(self)@.code.len(),
            ) {
                Ok(declared) => match emit_functions(declared, function_views(functions@)) {
                    Ok(st) => result is Ok && final(self)@ == st && instr_views(result->Ok_0.0@)
                        == st.code && value_views(result->Ok_0.1@) == st.constants,
                    Err(e) => result is Err && result->Err_0@ == e && final(self)@ == old(self)@,
                },
                Err(e) => result is Err && result->Err_0@ == e && final(self)@ == old(self)@,
            },
            result is Ok ==> closed_from(
                final(self)@,
                old(self)@.code.len() as int,
                final(self)@.code.len(),
            ),
            result is Ok ==> paths_agree(final(self)@, old(self)@.code.len() as int),
    {
        let ghost fs = function_views(functions@);
        proof {
            if let Ok(declared) = declare_from(self@, fs, self@.code.len()) {
                lemma_declare_keeps(self@, fs, self@.code.len());
                lemma_functions_refer_within(declared, fs);
                lemma_functions_paths(declared, fs);
            }
        }
        let code_len = self.bytecode.len();
        let constants_len = self.constants.len();
        let known = self.functions.len();
        match self.declare_functions(functions) {
            Ok(()) => {},
            Err(e) => {
                return Err(e);
            },
        }
        let ghost declared = self@;
        let mut i: usize = 0;
        proof {
            assert(fs.skip(0) == fs);
            lemma_declare_keeps(old(self)@, fs, old(self)@.code.len() as nat);
        }
        while i < functions.len()
            invariant
                i <= functions.len(),
                fs == function_views(functions@),
                keeps(
                    CompilerView { functions: declared.functions, ..old(self)@ },
                    self@,
                ),
                declared.functions.len() >= known,
                declared.functions.take(known as int) == old(self)@.functions,
                code_len == old(self)@.code.len(),
                constants_len == old(self)@.constants.len(),
                known == old(self)@.functions.len(),
                declare_from(old(self)@, fs, old(self)@.code.len() as nat) == Ok::<
                    CompilerView,
                    CompileErrorView,
                >(declared),
                emit_functions(declared, fs) == emit_functions(self@, fs.skip(i as int)),
            decreases functions.len() - i,
        {
            proof {
                assert(fs.skip(i as int).skip(1) == fs.skip(i as int + 1));
                lemma_function_appends(self@, functions[i as int]@);
            }
            match self.compile_function(&functions[i]) {
                Ok(_) => {},
                Err(e) => {
                    self.rewind(
                        code_len,
                        constants_len,
                        Ghost(CompilerView { functions: declared.functions, ..old(self)@ }),
                    );
                    self.functions.truncate(known);
                    proof {
                        assert(self@.functions =~= old(self)@.functions);
                    }
                    return Err(e);
                },
            }
            i += 1;
        }
        Ok((self.code(), self.constant_pool()))
    }

    /// A copy of the instructions emitted so far.
    pub fn code(&self) -> (code: Vec<Bytecode>)
        ensures
            instr_views(code@) == self@.code,
    {
        let mut code: Vec<Bytecode> = Vec::new();
        let mut i: usize = 0;
        while i < self.bytecode.len()
            invariant
                i <= self.bytecode.len(),
                code.len() == i,
                forall|j: int| 0 <= j < i ==> code@[j] == self.bytecode@[j],
            decreases self.bytecode.len() - i,
        {
            code.push(self.bytecode[i].clone());
            i += 1;
        }
        code
    }

    /// A copy of the constant pool as it is now.
    pub fn constant_pool(&self) -> (constants: Vec<RuntimeValue>)
        ensures
            value_views(constants@) == self@.constants,
    {
        let mut constants: Vec<RuntimeValue> = Vec::new();
        let mut i: usize = 0;
        while i < self.constants.len()
            invariant
                i <= self.constants.len(),
                constants.len() == i,
                forall|j: int| 0 <= j < i ==> constants@[j] == self.constants@[j],
            decreases self.constants.len() - i,
        {
            constants.push(self.constants[i].clone());
            i += 1;
        }
        constants
    }
}

} // verus!
