use voltage::program::entry_order;
use voltage::{
    Bytecode, BytecodeCompiler, CompileError, Expression, Function, Lexer, Literal, Parser,
    RuntimeError, RuntimeValue, Statement, Step, Type, VirtualMachine,
};

/// The functions of a program, in the order in which they are compiled.
fn functions(source: &str) -> Vec<Function> {
    let lexer = Lexer::new(source.to_string());
    let mut parser = Parser::new(lexer.tokenize().to_vec());
    entry_order(parser.parse().unwrap())
}

fn compile(source: &str) -> Result<(Vec<Bytecode>, Vec<RuntimeValue>), CompileError> {
    BytecodeCompiler::new().compile_functions(&functions(source))
}

fn run(source: &str) -> (Result<Step, RuntimeError>, String) {
    let (code, constants) = compile(source).unwrap();
    let mut vm = VirtualMachine::new();
    vm.load_bytecode(code, constants);
    let result = vm.run(1_000_000);
    let output = vm.take_output();
    (result, output)
}

fn output(source: &str) -> String {
    let (result, output) = run(source);
    assert!(matches!(result, Ok(Step::Halted(RuntimeValue::Null))), "{:?} after {:?}", result, output);
    output
}

#[test]
fn sum_of_two_variables_is_written_with_a_newline() {
    let source = r#"fn main() { let x = 2; let y = 3; puts("{}", x + y); }"#;
    let (result, output) = run(source);
    assert_eq!(output, "5\n");
    assert!(matches!(result, Ok(Step::Halted(RuntimeValue::Null))));
}

#[test]
fn print_writes_no_newline() {
    assert_eq!(output(r#"fn main() { print("no newline"); }"#), "no newline");
}

#[test]
fn puts_then_print() {
    assert_eq!(output(r#"fn main() { puts("a"); print("b"); }"#), "a\nb");
}

#[test]
fn for_binds_each_element_in_order() {
    assert_eq!(output("fn main() { for x in [1, 2, 3] { puts(x); } }"), "1\n2\n3\n");
}

#[test]
fn for_over_expressions_and_strings() {
    assert_eq!(
        output(r#"fn main() { let a = 10; for x in [a + 1, a * 2] { print("{} ", x); } }"#),
        "11 20 "
    );
    assert_eq!(output(r#"fn main() { for c in "a\nb" { print("[{}]", c); } }"#), "[a][\n][b]");
    assert_eq!(output(r#"fn main() { for c in "" { puts(c); } for x in [] { puts(x); } puts("done"); }"#), "done\n");
}

#[test]
fn nested_for_loops_have_cursors_of_their_own() {
    assert_eq!(
        output(r#"fn main() { for x in [1, 2] { for y in [10, 20] { print("{} ", x + y); } } }"#),
        "11 21 12 22 "
    );
}

#[test]
fn break_and_continue_in_for() {
    assert_eq!(
        output(
            r#"fn main() { for x in [1, 2, 3, 4] { if (x == 2) { continue; } if (x == 4) { break; } puts(x); } puts("end"); }"#
        ),
        "1\n3\nend\n"
    );
}

#[test]
fn while_with_break_and_continue() {
    // there is no assignment: the loop variable is declared anew
    let source = r#"
        fn main() {
            let i = 0;
            while (i < 10) {
                let i = i + 1;
                if (i == 2) { continue; }
                if (i > 4) { break; }
                puts(i);
            }
            puts("end");
        }"#;
    assert_eq!(output(source), "1\n3\n4\nend\n");
}

#[test]
fn if_elif_else_take_one_branch() {
    let program = |n: i64| {
        format!(
            r#"fn main() {{ let n = {}; if (n == 1) {{ puts("one"); }} elif (n == 2) {{ puts("two"); }} elif (n == 3) {{ puts("three"); }} else {{ puts("many"); }} puts("."); }}"#,
            n
        )
    };
    assert_eq!(output(&program(1)), "one\n.\n");
    assert_eq!(output(&program(2)), "two\n.\n");
    assert_eq!(output(&program(3)), "three\n.\n");
    assert_eq!(output(&program(4)), "many\n.\n");
    assert_eq!(output(r#"fn main() { if (1 == 2) { puts("no"); } puts("after"); }"#), "after\n");
}

#[test]
fn calls_resolve_forward_and_recursive() {
    let source = r#"
        fn main() { puts("{}", twice(4)); count(3); }
        fn twice(n) { let r = n * 2; return_value(r); }
        fn return_value(v) { v; }
        fn count(n) { if (n > 0) { puts(n); count(n - 1); } }
    "#;
    // a function's result is null: the language has no return statement
    assert_eq!(output(source), "null\n3\n2\n1\n");
}

#[test]
fn arguments_are_bound_to_the_parameters_in_order() {
    let source = r#"
        fn main() { show(1, 2, 3); }
        fn show(a, b, c) { puts("{} {} {}", a, b, c); }
    "#;
    assert_eq!(output(source), "1 2 3\n");
}

#[test]
fn wrong_number_of_arguments_fails_at_run_time() {
    let (result, _) = run("fn main() { f(1, 2); } fn f(a) { }");
    assert_eq!(result.unwrap_err(), RuntimeError::TypeMismatch);
}

#[test]
fn format_placeholders_and_arguments_need_not_match() {
    assert_eq!(output(r#"fn main() { puts("{} and {}", 1); }"#), "1 and {}\n");
    assert_eq!(output(r#"fn main() { puts("{}", 1, 2, 3); }"#), "1\n");
    assert_eq!(output(r#"fn main() { print("{}{}", true, "x"); }"#), "truex");
    assert_eq!(output(r#"fn main() { puts("{}"); }"#), "{}\n");
}

#[test]
fn string_literals_lose_quotes_and_escapes() {
    assert_eq!(output(r#"fn main() { print("a\tb\\c\"d\n"); }"#), "a\tb\\c\"d\n");
}

#[test]
fn placeholders_of_composite_expressions() {
    assert_eq!(
        output(
            r#"fn main() { puts([1, 2]); puts(P { x: 1 }); puts(E::V(1)); puts(E::W); let a = [1]; puts(a[0]); puts(a.len); }"#
        ),
        "array_2\nstruct_instance\nenum_V\nenum_W\n0\nlen\n"
    );
}

#[test]
fn undefined_variable_is_a_runtime_error() {
    let (result, _) = run("fn main() { puts(nope); }");
    assert_eq!(result.unwrap_err(), RuntimeError::UndefinedVariable("nope".to_string()));
}

#[test]
fn division_by_zero_in_a_program() {
    let (result, output) = run(r#"fn main() { puts("before"); puts(1 / 0); }"#);
    assert_eq!(result.unwrap_err(), RuntimeError::DivisionByZero);
    assert_eq!(output, "before\n");
    let (result, _) = run("fn main() { puts(1 % 0); }");
    assert_eq!(result.unwrap_err(), RuntimeError::ModuloByZero);
}

#[test]
fn compile_errors() {
    assert_eq!(compile("fn main() { fn inner() { } }").unwrap_err(), CompileError::NestedFunctionUnsupported);
    assert_eq!(compile("fn main() { puts(1, 2); }").unwrap_err(), CompileError::UnknownBuiltinArity);
    assert_eq!(compile("fn main() { print(); }").unwrap_err(), CompileError::UnknownBuiltinArity);
    assert_eq!(compile("fn main() { break; }").unwrap_err(), CompileError::BreakOrContinueOutsideLoop);
    assert_eq!(compile("fn main() { if (true) { continue; } }").unwrap_err(), CompileError::BreakOrContinueOutsideLoop);
    assert_eq!(compile("fn main() { for x in (items) { } }").unwrap_err(), CompileError::NonIterableForTarget);
    assert_eq!(compile("fn main() { for x in 5 { } }").unwrap_err(), CompileError::NonIterableForTarget);
    assert_eq!(
        compile("fn main() { missing(1); }").unwrap_err(),
        CompileError::UnresolvedCallee("missing".to_string())
    );
}

#[test]
fn reassignment_is_a_compile_error() {
    assert_eq!(
        compile("fn main() { let x = 1; x = 2; }").unwrap_err(),
        CompileError::ReassignmentUnsupported
    );
    assert_eq!(
        compile("fn main() { let y = x = 2; }").unwrap_err(),
        CompileError::ReassignmentUnsupported
    );
    let main = Function {
        name: "main".to_string(),
        parameters: Vec::new(),
        return_type: Type::Void,
        body: vec![Statement::Expression(Expression::VariableDeclaration {
            name: "x".to_string(),
            value: Box::new(Expression::Literal(Literal::Integer(1))),
            explicit_type: None,
        })],
    };
    assert_eq!(
        BytecodeCompiler::new().compile_function(&main).unwrap_err(),
        CompileError::ReassignmentUnsupported
    );
}

#[test]
fn assignments_to_elements_and_fields_are_compile_errors() {
    assert_eq!(
        compile("fn main() { let a = [1]; a[0] = 5; }").unwrap_err(),
        CompileError::ReassignmentUnsupported
    );
    assert_eq!(
        compile("fn main() { let a = [1]; puts(a.f = 6); }").unwrap_err(),
        CompileError::ReassignmentUnsupported
    );
}

#[test]
fn a_plain_call_of_a_builtin_is_its_argument_and_the_call() {
    let main = functions("fn main() { puts(1); print(x + 2); }");
    let (code, constants) = BytecodeCompiler::new().compile_function(&main[0]).unwrap();
    assert_eq!(
        format!("{:?}", code),
        "[LoadConst(0), CallBuiltin(0), Pop, LoadGlobal(\"x\"), LoadConst(1), Add, CallBuiltin(1), Pop, LoadConst(2), Return]"
    );
    assert_eq!(constants, vec![RuntimeValue::Integer(1), RuntimeValue::Integer(2), RuntimeValue::Null]);
}

#[test]
fn a_format_call_formats_and_then_calls_the_builtin() {
    let main = functions(r#"fn main() { puts("{}-{}", 1, x); }"#);
    let (code, constants) = BytecodeCompiler::new().compile_function(&main[0]).unwrap();
    assert_eq!(
        format!("{:?}", code),
        "[LoadConst(0), LoadConst(1), LoadGlobal(\"x\"), LoadConst(2), CallBuiltin(2), CallBuiltin(0), Pop, LoadConst(3), Return]"
    );
    assert_eq!(
        constants,
        vec![
            RuntimeValue::String("{}-{}".to_string()),
            RuntimeValue::Integer(1),
            RuntimeValue::Integer(2),
            RuntimeValue::Null,
        ]
    );
}

#[test]
fn a_builtin_with_the_wrong_number_of_arguments_emits_nothing() {
    for source in ["fn main() { puts(1); puts(2, 3); }", "fn main() { puts(1); print(); }"] {
        let main = functions(source);
        let mut compiler = BytecodeCompiler::new();
        assert_eq!(compiler.compile_function(&main[0]).unwrap_err(), CompileError::UnknownBuiltinArity);
        assert!(compiler.code().is_empty());
        assert!(compiler.constant_pool().is_empty());
    }
}

#[test]
fn a_failed_function_leaves_the_compiler_usable() {
    let bad = functions("fn main() { puts(1); break; }");
    let good = functions("fn main() { puts(2); }");
    let mut compiler = BytecodeCompiler::new();
    assert!(compiler.compile_function(&bad[0]).is_err());
    assert!(compiler.code().is_empty());
    assert!(compiler.constant_pool().is_empty());
    let (code, constants) = compiler.compile_function(&good[0]).unwrap();
    let mut vm = VirtualMachine::new();
    vm.load_bytecode(code, constants);
    assert!(matches!(vm.run(100), Ok(Step::Halted(RuntimeValue::Null))));
    assert_eq!(vm.output(), "2\n");
}

#[test]
fn one_function_compiles_to_the_expected_code() {
    let main = functions(r#"fn main() { let x = 2; puts(x); }"#);
    let (code, constants) = BytecodeCompiler::new().compile_function(&main[0]).unwrap();
    assert_eq!(
        format!("{:?}", code),
        "[LoadConst(0), StoreGlobal(\"x\"), LoadGlobal(\"x\"), CallBuiltin(0), Pop, LoadConst(1), Return]"
    );
    assert_eq!(constants, vec![RuntimeValue::Integer(2), RuntimeValue::Null]);
}

#[test]
fn while_compiles_to_jumps() {
    let main = functions("fn main() { while (true) { break; continue; } }");
    let (code, _) = BytecodeCompiler::new().compile_function(&main[0]).unwrap();
    assert_eq!(
        format!("{:?}", code),
        "[LoadConst(0), JumpIfFalse(5), Jump(5), Jump(0), Jump(0), LoadConst(1), Return]"
    );
}

#[test]
fn if_compiles_to_jumps() {
    let main = functions("fn main() { if (true) { 1; } elif (false) { 2; } else { 3; } }");
    let (code, _) = BytecodeCompiler::new().compile_function(&main[0]).unwrap();
    assert_eq!(
        format!("{:?}", code),
        "[LoadConst(0), JumpIfFalse(5), LoadConst(1), Pop, Jump(12), LoadConst(2), JumpIfFalse(10), LoadConst(3), Pop, Jump(12), LoadConst(4), Pop, LoadConst(5), Return]"
    );
}

#[test]
fn declared_functions_are_compiled_at_their_entries() {
    let fs = functions("fn main() { f(); g(1); } fn f() { g(2); } fn g(x) { puts(x); }");
    let mut compiler = BytecodeCompiler::new();
    compiler.declare_functions(&fs).unwrap();
    let mut entries = Vec::new();
    for f in fs.iter() {
        entries.push(compiler.code().len());
        compiler.compile_function(f).unwrap();
    }
    let constants = compiler.constant_pool();
    let called: Vec<(String, usize)> = constants
        .iter()
        .filter_map(|c| match c {
            RuntimeValue::Function { name, ip, .. } => Some((name.clone(), *ip)),
            _ => None,
        })
        .collect();
    assert_eq!(
        called,
        vec![
            ("f".to_string(), entries[1]),
            ("g".to_string(), entries[2]),
            ("g".to_string(), entries[2]),
        ]
    );
}

#[test]
fn globals_survive_from_one_snippet_to_the_next() {
    let mut vm = VirtualMachine::new();
    for (source, expected) in [
        ("fn main() { let total = 40; }", ""),
        ("fn main() { let total = total + 2; }", ""),
        ("fn main() { puts(total); }", "42\n"),
    ] {
        let (code, constants) = compile(source).unwrap();
        vm.load_bytecode(code, constants);
        assert!(matches!(vm.run(1000), Ok(Step::Halted(RuntimeValue::Null))));
        assert_eq!(vm.take_output(), expected);
    }
}

/// The change of the stack depth over `code`, counted instruction by
/// instruction as an assembler would.
fn simulated_depth(code: &[Bytecode], constants: &[RuntimeValue]) -> i64 {
    let mut depth = 0i64;
    for (i, instr) in code.iter().enumerate() {
        depth += match instr {
            Bytecode::LoadConst(_) | Bytecode::LoadLocal(_) | Bytecode::LoadGlobal(_) | Bytecode::Dup => 1,
            Bytecode::Jump(_) => 0,
            Bytecode::Call(n) => -(*n as i64),
            Bytecode::CallBuiltin(2) => match &code[i - 1] {
                Bytecode::LoadConst(c) => match constants[*c] {
                    RuntimeValue::Integer(count) => -1 - count,
                    _ => panic!("formatting without a count"),
                },
                _ => panic!("formatting without a count"),
            },
            Bytecode::CallBuiltin(_) => 0,
            _ => -1,
        };
    }
    depth
}

#[test]
fn every_statement_leaves_the_stack_as_deep_as_it_found_it() {
    for body in [
        "1 + 2 * 3;",
        "let x = 1;",
        r#"puts("a");"#,
        r#"print("{} {} {}", 1, [2, 3], P { a: 4, b: 5 });"#,
        "E::V(1, 2); a[1]; a.b; [1, [2, 3]];",
        "if (1 < 2) { 1; } elif (true) { 2; } else { 3; }",
        "while (false) { break; continue; }",
        r#"for x in [1, 2, 3] { puts(x); continue; }"#,
        r#"for c in "abc" { break; }"#,
        "{ unsafe { 1; } }",
        "import m",
        "g(1, 2, 3);",
    ] {
        let source = format!("fn main() {{ {} }} fn g(a, b, c) {{ }}", body);
        let fs = functions(&source);
        let mut compiler = BytecodeCompiler::new();
        compiler.declare_functions(&fs).unwrap();
        let (code, constants) = compiler.compile_function(&fs[0]).unwrap();
        // all but the epilogue, which loads null and returns
        assert_eq!(simulated_depth(&code[..code.len() - 2], &constants), 0, "{}", body);
    }
}

#[test]
fn every_expression_leaves_one_value() {
    for e in ["1", "x", "1 + 2", "f(1)", r#"puts("{}", 1, 2)"#, "[1, 2]", "P { a: 1 }", "E::V", "a[0]", "a.b"] {
        let source = format!("fn main() {{ {}; }} fn f(a) {{ }}", e);
        let fs = functions(&source);
        let mut compiler = BytecodeCompiler::new();
        compiler.declare_functions(&fs).unwrap();
        let (code, constants) = compiler.compile_function(&fs[0]).unwrap();
        // all but the pop of the expression statement and the epilogue
        assert_eq!(simulated_depth(&code[..code.len() - 3], &constants), 1, "{}", e);
    }
}

#[test]
fn the_first_main_is_compiled_first() {
    let names = |source: &str| -> Vec<String> { functions(source).into_iter().map(|f| f.name).collect() };
    assert_eq!(names("fn a() { } let x = 1; fn main() { } fn b() { } puts(1);"), ["main", "a", "b"]);
    assert_eq!(names("fn main() { } fn a() { }"), ["main", "a"]);
    assert_eq!(names("fn a() { } fn b() { }"), ["a", "b"]);
    assert_eq!(names("fn a() { } fn main() { 1; } fn b() { } fn main() { 2; }"), ["main", "a", "b", "main"]);
    assert_eq!(names("let x = 1;"), Vec::<String>::new());
    let twice = functions("fn a() { } fn main() { 1; } fn main() { 2; }");
    assert_eq!(twice[0].body.len(), 1);
    assert!(matches!(
        twice[0].body[0],
        Statement::Expression(Expression::Literal(Literal::Integer(1)))
    ));
}

#[test]
fn expressions_and_statements_compile_on_their_own() {
    let program = {
        let lexer = Lexer::new("1 + 2; while (true) { break; }".to_string());
        Parser::new(lexer.tokenize().to_vec()).parse().unwrap()
    };
    let mut compiler = BytecodeCompiler::new();
    match &program[0] {
        Statement::Expression(e) => compiler.compile_expression(e).unwrap(),
        other => panic!("no expression: {:?}", other),
    }
    assert_eq!(format!("{:?}", compiler.code()), "[LoadConst(0), LoadConst(1), Add]");
    assert_eq!(simulated_depth(&compiler.code(), &compiler.constant_pool()), 1);
    let mut compiler = BytecodeCompiler::new();
    compiler.compile_statement(&program[1], None).unwrap();
    assert_eq!(format!("{:?}", compiler.code()), "[LoadConst(0), JumpIfFalse(4), Jump(4), Jump(0)]");
    assert_eq!(simulated_depth(&compiler.code(), &compiler.constant_pool()), 0);
    let mut compiler = BytecodeCompiler::new();
    assert_eq!(
        compiler.compile_statement(&Statement::Break, None).unwrap_err(),
        CompileError::BreakOrContinueOutsideLoop
    );
}

#[test]
fn instructions_refer_to_what_exists() {
    let source = r#"
        fn main() { for x in [1, 2] { if (x == 1) { continue; } elif (x == 2) { break; } else { f(x); } } puts("{} {}", 1, "s"); }
        fn f(a) { while (a < 3) { for c in "ab" { print(c); } break; } }
    "#;
    let (code, constants) = compile(source).unwrap();
    for instr in code.iter() {
        match instr {
            Bytecode::LoadConst(c) => assert!(*c < constants.len()),
            Bytecode::Jump(t) | Bytecode::JumpIfFalse(t) | Bytecode::JumpIfTrue(t) => assert!(*t <= code.len()),
            _ => {}
        }
    }
}

/// What one instruction makes of the stack depth.
fn cost(code: &[Bytecode], constants: &[RuntimeValue], at: usize) -> i64 {
    simulated_depth(&code[..at + 1], constants) - simulated_depth(&code[..at], constants)
}

#[test]
fn the_depth_is_the_same_along_every_path() {
    let source = r#"
        fn main() {
            let n = 0;
            for x in [1, 2, 3] {
                if (x == 1) { continue; } elif (x == 2) { puts("{} {}", x, n); } else { break; }
                while (n < 3) { let n = n + 1; if (n == 2) { break; } for c in "ab" { print(c); continue; } }
            }
            puts(n);
        }
    "#;
    let (code, constants) = compile(source).unwrap();
    // walk every path from the entry, and note the depth at each instruction
    let mut seen: Vec<Option<i64>> = vec![None; code.len() + 1];
    let mut open = vec![(0usize, 0i64)];
    while let Some((at, depth)) = open.pop() {
        assert!(depth >= 0, "below the start at {}", at);
        match seen[at] {
            Some(before) => {
                assert_eq!(before, depth, "two depths at {}", at);
                continue;
            }
            None => seen[at] = Some(depth),
        }
        if at == code.len() {
            continue;
        }
        let behind = depth + cost(&code, &constants, at);
        match &code[at] {
            Bytecode::Jump(target) => open.push((*target, behind)),
            Bytecode::JumpIfFalse(target) | Bytecode::JumpIfTrue(target) => {
                open.push((*target, behind));
                open.push((at + 1, behind));
            }
            Bytecode::Return => assert_eq!(behind, 0),
            _ => open.push((at + 1, behind)),
        }
    }
    // wherever a path comes by, the depth is the one that counting along the code gives
    for at in 0..code.len() {
        if let Some(depth) = seen[at] {
            assert_eq!(depth, simulated_depth(&code[..at], &constants), "at {}", at);
        }
    }
    assert!(seen.iter().filter(|depth| depth.is_some()).count() > 60);
}

#[test]
fn an_expression_compiles_to_code_without_a_jump() {
    let source = r#"fn main() { puts("{} {}", f(1 + 2, [3, 4]), P { a: E::V(5), b: q[6].r }); } fn f(a, b) { }"#;
    let fs = functions(source);
    let mut compiler = BytecodeCompiler::new();
    compiler.declare_functions(&fs).unwrap();
    let (code, _) = compiler.compile_function(&fs[0]).unwrap();
    assert!(code.len() > 20);
    for instr in code.iter() {
        assert!(!matches!(instr, Bytecode::Jump(_) | Bytecode::JumpIfFalse(_) | Bytecode::JumpIfTrue(_)));
    }
}
