use voltage::{Bytecode, RuntimeError, RuntimeValue, Step, VirtualMachine};

fn run(code: Vec<Bytecode>, constants: Vec<RuntimeValue>) -> (Result<Step, RuntimeError>, VirtualMachine) {
    let mut vm = VirtualMachine::new();
    vm.load_bytecode(code, constants);
    let result = vm.run(10_000);
    (result, vm)
}

fn halted(result: Result<Step, RuntimeError>) -> RuntimeValue {
    match result {
        Ok(Step::Halted(value)) => value,
        other => panic!("the program did not halt: {:?}", other),
    }
}

fn binary(op: Bytecode, left: RuntimeValue, right: RuntimeValue) -> Result<Step, RuntimeError> {
    run(vec![Bytecode::LoadConst(0), Bytecode::LoadConst(1), op], vec![left, right]).0
}

fn integers(op: Bytecode, a: i64, b: i64) -> RuntimeValue {
    halted(binary(op, RuntimeValue::Integer(a), RuntimeValue::Integer(b)))
}

#[test]
fn empty_program_halts_with_null() {
    let (result, _) = run(vec![], vec![]);
    assert_eq!(halted(result), RuntimeValue::Null);
}

#[test]
fn arithmetic_is_twos_complement() {
    assert_eq!(integers(Bytecode::Add, 2, 3), RuntimeValue::Integer(5));
    assert_eq!(integers(Bytecode::Sub, 2, 3), RuntimeValue::Integer(-1));
    assert_eq!(integers(Bytecode::Mul, -4, 3), RuntimeValue::Integer(-12));
    assert_eq!(integers(Bytecode::Add, i64::MAX, 1), RuntimeValue::Integer(i64::MIN));
    assert_eq!(integers(Bytecode::Sub, i64::MIN, 1), RuntimeValue::Integer(i64::MAX));
    assert_eq!(integers(Bytecode::Mul, i64::MAX, 2), RuntimeValue::Integer(-2));
    assert_eq!(integers(Bytecode::Mul, i64::MIN, -1), RuntimeValue::Integer(i64::MIN));
}

#[test]
fn division_rounds_toward_zero() {
    assert_eq!(integers(Bytecode::Div, 7, 2), RuntimeValue::Integer(3));
    assert_eq!(integers(Bytecode::Div, -7, 2), RuntimeValue::Integer(-3));
    assert_eq!(integers(Bytecode::Div, 7, -2), RuntimeValue::Integer(-3));
    assert_eq!(integers(Bytecode::Div, -7, -2), RuntimeValue::Integer(3));
    assert_eq!(integers(Bytecode::Div, i64::MIN, -1), RuntimeValue::Integer(i64::MIN));
    assert_eq!(integers(Bytecode::Mod, 7, 2), RuntimeValue::Integer(1));
    assert_eq!(integers(Bytecode::Mod, -7, 2), RuntimeValue::Integer(-1));
    assert_eq!(integers(Bytecode::Mod, 7, -2), RuntimeValue::Integer(1));
    assert_eq!(integers(Bytecode::Mod, -7, -2), RuntimeValue::Integer(-1));
    assert_eq!(integers(Bytecode::Mod, i64::MIN, -1), RuntimeValue::Integer(0));
}

#[test]
fn division_by_zero_fails_whatever_the_dividend() {
    for a in [0, 1, -1, i64::MAX, i64::MIN] {
        assert_eq!(
            binary(Bytecode::Div, RuntimeValue::Integer(a), RuntimeValue::Integer(0)).unwrap_err(),
            RuntimeError::DivisionByZero
        );
        assert_eq!(
            binary(Bytecode::Mod, RuntimeValue::Integer(a), RuntimeValue::Integer(0)).unwrap_err(),
            RuntimeError::ModuloByZero
        );
    }
}

#[test]
fn arithmetic_rejects_other_variants() {
    assert_eq!(
        binary(Bytecode::Add, RuntimeValue::String("a".to_string()), RuntimeValue::Integer(1))
            .unwrap_err(),
        RuntimeError::TypeMismatch
    );
    assert_eq!(
        binary(Bytecode::Div, RuntimeValue::Boolean(true), RuntimeValue::Integer(0)).unwrap_err(),
        RuntimeError::TypeMismatch
    );
    assert_eq!(
        binary(Bytecode::Lt, RuntimeValue::Null, RuntimeValue::Integer(0)).unwrap_err(),
        RuntimeError::TypeMismatch
    );
}

#[test]
fn comparisons() {
    assert_eq!(integers(Bytecode::Lt, 1, 2), RuntimeValue::Boolean(true));
    assert_eq!(integers(Bytecode::Le, 2, 2), RuntimeValue::Boolean(true));
    assert_eq!(integers(Bytecode::Gt, 1, 2), RuntimeValue::Boolean(false));
    assert_eq!(integers(Bytecode::Ge, 1, 2), RuntimeValue::Boolean(false));
    assert_eq!(integers(Bytecode::Eq, 2, 2), RuntimeValue::Boolean(true));
    assert_eq!(integers(Bytecode::Ne, 2, 2), RuntimeValue::Boolean(false));
}

#[test]
fn equality_across_variants_is_false() {
    let eq = |a: RuntimeValue, b: RuntimeValue| halted(binary(Bytecode::Eq, a, b));
    assert_eq!(eq(RuntimeValue::Integer(1), RuntimeValue::Boolean(true)), RuntimeValue::Boolean(false));
    assert_eq!(eq(RuntimeValue::Null, RuntimeValue::Null), RuntimeValue::Boolean(true));
    assert_eq!(
        eq(RuntimeValue::String("a".to_string()), RuntimeValue::String("a".to_string())),
        RuntimeValue::Boolean(true)
    );
    assert_eq!(
        eq(
            RuntimeValue::Function { name: "f".to_string(), ip: 1, num_params: 0 },
            RuntimeValue::Function { name: "f".to_string(), ip: 9, num_params: 2 }
        ),
        RuntimeValue::Boolean(true)
    );
    assert_eq!(eq(RuntimeValue::Integer(0), RuntimeValue::Null), RuntimeValue::Boolean(false));
}

#[test]
fn stack_underflow() {
    assert_eq!(run(vec![Bytecode::Pop], vec![]).0.unwrap_err(), RuntimeError::StackUnderflow);
    assert_eq!(run(vec![Bytecode::Dup], vec![]).0.unwrap_err(), RuntimeError::StackUnderflow);
    assert_eq!(run(vec![Bytecode::Add], vec![]).0.unwrap_err(), RuntimeError::StackUnderflow);
    assert_eq!(
        run(vec![Bytecode::LoadConst(0), Bytecode::Add], vec![RuntimeValue::Integer(1)]).0.unwrap_err(),
        RuntimeError::StackUnderflow
    );
    assert_eq!(
        run(vec![Bytecode::StoreGlobal("x".to_string())], vec![]).0.unwrap_err(),
        RuntimeError::StackUnderflow
    );
    assert_eq!(run(vec![Bytecode::JumpIfFalse(0)], vec![]).0.unwrap_err(), RuntimeError::StackUnderflow);
}

#[test]
fn a_failed_step_leaves_the_machine_as_it_was() {
    let mut vm = VirtualMachine::new();
    vm.load_bytecode(
        vec![Bytecode::LoadConst(0), Bytecode::LoadConst(1), Bytecode::Div],
        vec![RuntimeValue::Integer(1), RuntimeValue::Integer(0)],
    );
    assert!(matches!(vm.step(), Ok(Step::Running)));
    assert!(matches!(vm.step(), Ok(Step::Running)));
    assert_eq!(vm.step().unwrap_err(), RuntimeError::DivisionByZero);
    assert_eq!(vm.step().unwrap_err(), RuntimeError::DivisionByZero);
}

#[test]
fn undefined_global_is_an_error() {
    assert_eq!(
        run(vec![Bytecode::LoadGlobal("nope".to_string())], vec![]).0.unwrap_err(),
        RuntimeError::UndefinedVariable("nope".to_string())
    );
}

#[test]
fn globals_persist_across_programs() {
    let mut vm = VirtualMachine::new();
    vm.load_bytecode(
        vec![Bytecode::LoadConst(0), Bytecode::StoreGlobal("x".to_string())],
        vec![RuntimeValue::Integer(41)],
    );
    assert_eq!(halted(vm.run(100)), RuntimeValue::Null);
    vm.load_bytecode(
        vec![Bytecode::LoadGlobal("x".to_string()), Bytecode::LoadConst(0), Bytecode::Add],
        vec![RuntimeValue::Integer(1)],
    );
    assert_eq!(halted(vm.run(100)), RuntimeValue::Integer(42));
}

#[test]
fn locals_are_dense() {
    let code = vec![
        Bytecode::LoadConst(0),
        Bytecode::StoreLocal(0),
        Bytecode::LoadConst(1),
        Bytecode::StoreLocal(1),
        Bytecode::LoadConst(1),
        Bytecode::StoreLocal(0),
        Bytecode::LoadLocal(0),
        Bytecode::LoadLocal(1),
        Bytecode::Add,
    ];
    let (result, _) = run(code, vec![RuntimeValue::Integer(1), RuntimeValue::Integer(20)]);
    assert_eq!(halted(result), RuntimeValue::Integer(40));
    assert_eq!(run(vec![Bytecode::LoadLocal(0)], vec![]).0.unwrap_err(), RuntimeError::UndefinedLocal(0));
    assert_eq!(
        run(vec![Bytecode::LoadConst(0), Bytecode::StoreLocal(3)], vec![RuntimeValue::Null]).0.unwrap_err(),
        RuntimeError::UndefinedLocal(3)
    );
}

#[test]
fn invalid_constant_is_an_error() {
    assert_eq!(run(vec![Bytecode::LoadConst(0)], vec![]).0.unwrap_err(), RuntimeError::InvalidConstant(0));
}

#[test]
fn jumps() {
    let code = vec![
        Bytecode::LoadConst(0),
        Bytecode::JumpIfFalse(4),
        Bytecode::LoadConst(1),
        Bytecode::Jump(5),
        Bytecode::LoadConst(2),
    ];
    let constants = |b: bool| vec![RuntimeValue::Boolean(b), RuntimeValue::Integer(1), RuntimeValue::Integer(2)];
    assert_eq!(halted(run(code.clone(), constants(true)).0), RuntimeValue::Integer(1));
    assert_eq!(halted(run(code, constants(false)).0), RuntimeValue::Integer(2));
    let code = vec![Bytecode::LoadConst(0), Bytecode::JumpIfTrue(3), Bytecode::LoadConst(1), Bytecode::LoadConst(2)];
    assert_eq!(halted(run(code, constants(true)).0), RuntimeValue::Integer(2));
    assert_eq!(
        run(vec![Bytecode::LoadConst(0), Bytecode::JumpIfFalse(0)], vec![RuntimeValue::Integer(0)]).0.unwrap_err(),
        RuntimeError::TypeMismatch
    );
}

#[test]
fn builtins_write_text() {
    let code = vec![
        Bytecode::LoadConst(0),
        Bytecode::CallBuiltin(0),
        Bytecode::Pop,
        Bytecode::LoadConst(1),
        Bytecode::CallBuiltin(1),
    ];
    let constants = vec![RuntimeValue::String("a".to_string()), RuntimeValue::String("b".to_string())];
    let (result, mut vm) = run(code, constants);
    assert_eq!(halted(result), RuntimeValue::Null);
    assert_eq!(vm.output(), "a\nb");
    assert_eq!(vm.take_output(), "a\nb");
    assert_eq!(vm.output(), "");
}

#[test]
fn builtins_substitute_placeholders() {
    let format = |fmt: &str, args: Vec<RuntimeValue>| {
        let mut constants = vec![RuntimeValue::String(fmt.to_string())];
        let mut code = vec![Bytecode::LoadConst(0)];
        for a in args.iter() {
            code.push(Bytecode::LoadConst(constants.len()));
            constants.push(a.clone());
        }
        code.push(Bytecode::LoadConst(constants.len()));
        constants.push(RuntimeValue::Integer(args.len() as i64));
        code.push(Bytecode::CallBuiltin(2));
        // the builtin that formats leaves the text and writes nothing
        let (result, vm) = run(code.clone(), constants.clone());
        let text = match halted(result) {
            RuntimeValue::String(text) => text,
            other => panic!("no text: {:?}", other),
        };
        assert_eq!(vm.output(), "");
        code.push(Bytecode::CallBuiltin(1));
        let (result, vm) = run(code, constants);
        assert_eq!(halted(result), RuntimeValue::Null);
        assert_eq!(vm.output(), text);
        text
    };
    assert_eq!(format("{} + {} = {}", vec![
        RuntimeValue::Integer(1),
        RuntimeValue::Integer(-2),
        RuntimeValue::Integer(-1),
    ]), "1 + -2 = -1");
    assert_eq!(format("{} {}", vec![RuntimeValue::Boolean(true)]), "true {}");
    assert_eq!(format("{}", vec![RuntimeValue::Null, RuntimeValue::Integer(1)]), "null");
    assert_eq!(format("no holes", vec![RuntimeValue::Integer(1)]), "no holes");
    assert_eq!(
        format("{}", vec![RuntimeValue::Function { name: "f".to_string(), ip: 0, num_params: 0 }]),
        "<function f>"
    );
    assert_eq!(format("{}{}", vec![
        RuntimeValue::Integer(i64::MIN),
        RuntimeValue::Integer(i64::MAX),
    ]), "-92233720368547758089223372036854775807");
    assert_eq!(format("{ }{", vec![RuntimeValue::Integer(1)]), "{ }{");
}

#[test]
fn unknown_builtin() {
    assert_eq!(
        run(vec![Bytecode::LoadConst(0), Bytecode::LoadConst(0), Bytecode::CallBuiltin(3)], vec![RuntimeValue::Integer(0)])
            .0
            .unwrap_err(),
        RuntimeError::UnknownBuiltinId(3)
    );
}

#[test]
fn call_and_return() {
    // 0: push 20, push 22, push f, call 2, return; f at 5: add, return
    let code = vec![
        Bytecode::LoadConst(0),
        Bytecode::LoadConst(1),
        Bytecode::LoadConst(2),
        Bytecode::Call(2),
        Bytecode::Return,
        Bytecode::Add,
        Bytecode::Return,
    ];
    let constants = vec![
        RuntimeValue::Integer(20),
        RuntimeValue::Integer(22),
        RuntimeValue::Function { name: "add".to_string(), ip: 5, num_params: 2 },
    ];
    assert_eq!(halted(run(code, constants).0), RuntimeValue::Integer(42));
}

#[test]
fn call_of_a_value_that_is_no_function() {
    assert_eq!(
        run(vec![Bytecode::LoadConst(0), Bytecode::Call(0)], vec![RuntimeValue::Integer(1)]).0.unwrap_err(),
        RuntimeError::UndefinedFunction
    );
    assert_eq!(
        run(
            vec![Bytecode::LoadConst(0), Bytecode::Call(1)],
            vec![RuntimeValue::Function { name: "f".to_string(), ip: 0, num_params: 0 }]
        )
        .0
        .unwrap_err(),
        RuntimeError::TypeMismatch
    );
}

#[test]
fn the_budget_bounds_an_endless_loop() {
    let mut vm = VirtualMachine::new();
    vm.load_bytecode(vec![Bytecode::Jump(0)], vec![]);
    assert!(matches!(vm.run(1000), Ok(Step::Running)));
    assert!(!vm.is_halted());
    assert!(matches!(vm.run(0), Ok(Step::Running)));
}

#[test]
fn halting_is_repeatable() {
    let mut vm = VirtualMachine::new();
    vm.load_bytecode(vec![Bytecode::LoadConst(0), Bytecode::Return], vec![RuntimeValue::Integer(7)]);
    assert!(!vm.is_halted());
    assert_eq!(halted(vm.run(10)), RuntimeValue::Integer(7));
    assert!(vm.is_halted());
    assert_eq!(halted(vm.step()), RuntimeValue::Integer(7));
}

#[test]
fn a_call_has_local_slots_of_its_own() {
    // main: local 0 = 1; call f; push local 0; return. f at 7: local 0 = 2; return.
    let code = vec![
        Bytecode::LoadConst(0),
        Bytecode::StoreLocal(0),
        Bytecode::LoadConst(2),
        Bytecode::Call(0),
        Bytecode::Pop,
        Bytecode::LoadLocal(0),
        Bytecode::Return,
        Bytecode::LoadLocal(0),
        Bytecode::Return,
    ];
    let constants = vec![
        RuntimeValue::Integer(1),
        RuntimeValue::Integer(2),
        RuntimeValue::Function { name: "f".to_string(), ip: 7, num_params: 0 },
    ];
    // the callee does not see the caller's slot
    assert_eq!(run(code, constants.clone()).0.unwrap_err(), RuntimeError::UndefinedLocal(0));
    let code = vec![
        Bytecode::LoadConst(0),
        Bytecode::StoreLocal(0),
        Bytecode::LoadConst(2),
        Bytecode::Call(0),
        Bytecode::Pop,
        Bytecode::LoadLocal(0),
        Bytecode::Return,
        Bytecode::LoadConst(1),
        Bytecode::StoreLocal(0),
        Bytecode::Return,
    ];
    // and the caller's slot is as it was when the callee has returned
    assert_eq!(halted(run(code, constants).0), RuntimeValue::Integer(1));
}

#[test]
fn a_return_without_a_value_returns_null() {
    let code = vec![Bytecode::LoadConst(0), Bytecode::Call(0), Bytecode::Return, Bytecode::Return];
    let constants = vec![RuntimeValue::Function { name: "f".to_string(), ip: 3, num_params: 0 }];
    assert_eq!(halted(run(code, constants).0), RuntimeValue::Null);
}

#[test]
fn running_past_the_end_inside_a_call_returns() {
    let code = vec![Bytecode::LoadConst(0), Bytecode::Call(0), Bytecode::Return];
    let constants = vec![RuntimeValue::Function { name: "f".to_string(), ip: 3, num_params: 0 }];
    assert_eq!(halted(run(code, constants).0), RuntimeValue::Null);
}

#[test]
fn puts_and_print_pop_one_value_whatever_it_is() {
    for (value, text) in [
        (RuntimeValue::String("a".to_string()), "a"),
        (RuntimeValue::String("{} {}".to_string()), "{} {}"),
        (RuntimeValue::Integer(-7), "-7"),
        (RuntimeValue::Boolean(false), "false"),
        (RuntimeValue::Null, "null"),
    ] {
        let (result, vm) = run(vec![Bytecode::LoadConst(0), Bytecode::CallBuiltin(0)], vec![value.clone()]);
        assert_eq!(halted(result), RuntimeValue::Null);
        assert_eq!(vm.output(), format!("{}\n", text));
        let (result, vm) = run(vec![Bytecode::LoadConst(0), Bytecode::CallBuiltin(1)], vec![value]);
        assert_eq!(halted(result), RuntimeValue::Null);
        assert_eq!(vm.output(), text);
    }
    // only the top of the stack is taken
    let (result, vm) = run(
        vec![Bytecode::LoadConst(0), Bytecode::LoadConst(1), Bytecode::CallBuiltin(1), Bytecode::Pop],
        vec![RuntimeValue::Integer(1), RuntimeValue::Integer(2)],
    );
    assert_eq!(halted(result), RuntimeValue::Integer(1));
    assert_eq!(vm.output(), "2");
    assert_eq!(run(vec![Bytecode::CallBuiltin(0)], vec![]).0.unwrap_err(), RuntimeError::StackUnderflow);
    assert_eq!(run(vec![Bytecode::CallBuiltin(1)], vec![]).0.unwrap_err(), RuntimeError::StackUnderflow);
    assert_eq!(run(vec![Bytecode::CallBuiltin(7)], vec![]).0.unwrap_err(), RuntimeError::UnknownBuiltinId(7));
}

#[test]
fn formatting_needs_its_count_and_arguments() {
    let s = RuntimeValue::String("x".to_string());
    assert_eq!(
        run(vec![Bytecode::LoadConst(0), Bytecode::CallBuiltin(2)], vec![s.clone()]).0.unwrap_err(),
        RuntimeError::TypeMismatch
    );
    assert_eq!(
        run(vec![Bytecode::LoadConst(0), Bytecode::CallBuiltin(2)], vec![RuntimeValue::Integer(-1)])
            .0
            .unwrap_err(),
        RuntimeError::TypeMismatch
    );
    assert_eq!(
        run(vec![Bytecode::LoadConst(0), Bytecode::CallBuiltin(2)], vec![RuntimeValue::Integer(0)])
            .0
            .unwrap_err(),
        RuntimeError::StackUnderflow
    );
    assert_eq!(
        run(
            vec![Bytecode::LoadConst(0), Bytecode::LoadConst(1), Bytecode::CallBuiltin(2)],
            vec![s, RuntimeValue::Integer(1)]
        )
        .0
        .unwrap_err(),
        RuntimeError::StackUnderflow
    );
    assert_eq!(run(vec![Bytecode::CallBuiltin(2)], vec![]).0.unwrap_err(), RuntimeError::StackUnderflow);
}
