use voltage::analysis::{
    expression_has_builtin_call, function_has_builtin_calls, statement_has_builtin_call,
    statements_have_builtin_call,
};
use voltage::{Lexer, Parser, Statement};

fn program(source: &str) -> Vec<Statement> {
    let lexer = Lexer::new(source.to_string());
    Parser::new(lexer.tokenize().to_vec()).parse().unwrap()
}

fn calls(source: &str) -> bool {
    statements_have_builtin_call(&program(source))
}

#[test]
fn calls_of_builtins_are_found_where_they_are_looked_for() {
    assert!(calls(r#"puts("a");"#));
    assert!(calls(r#"print("{}", 1);"#));
    assert!(calls(r#"let x = 1 + puts(2);"#));
    assert!(calls(r#"{ unsafe { puts(1); } }"#));
    assert!(calls(r#"if (puts(1)) { }"#));
    assert!(calls(r#"if (a) { } elif (b) { print(1); }"#));
    assert!(calls(r#"if (a) { } elif (print(1)) { }"#));
    assert!(calls(r#"if (a) { } else { print(1); }"#));
    assert!(calls(r#"while (a) { puts(1); }"#));
    assert!(calls(r#"for x in [1] { puts(x); }"#));
    assert!(calls(r#"fn f() { fn g() { puts(1); } }"#));
}

#[test]
fn other_calls_and_hidden_calls_are_not() {
    assert!(!calls(""));
    assert!(!calls("show(1); let x = f(2) + 3; break; continue; import m import n as o"));
    // only the operands of binary operations are searched
    assert!(!calls("f(puts(1));"));
    assert!(!calls("[puts(1)];"));
    assert!(!calls("if (a) { } elif (b) { } else { f(1); }"));
}

#[test]
fn functions_statements_and_expressions() {
    let p = program(r#"fn quiet() { let x = 1; } fn loud() { if (x) { puts(x); } } puts(1) == 2;"#);
    match (&p[0], &p[1], &p[2]) {
        (Statement::Function(quiet), Statement::Function(loud), Statement::Expression(e)) => {
            assert!(!function_has_builtin_calls(quiet));
            assert!(function_has_builtin_calls(loud));
            assert!(expression_has_builtin_call(e));
        }
        _ => panic!("unexpected program"),
    }
    assert!(!statement_has_builtin_call(&p[0]));
    assert!(statement_has_builtin_call(&p[1]));
    assert!(statement_has_builtin_call(&p[2]));
}
