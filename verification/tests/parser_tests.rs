use voltage::{
    BinaryOp, Expected, Expression, Lexer, Literal, ParseError, Parser, Statement, Token, Type,
};

fn parse(source: &str) -> Result<Vec<Statement>, ParseError> {
    let lexer = Lexer::new(source.to_string());
    let mut parser = Parser::new(lexer.tokenize().to_vec());
    parser.parse()
}

fn expression(source: &str) -> Expression {
    let mut program = parse(&format!("{};", source)).unwrap();
    assert_eq!(program.len(), 1);
    match program.remove(0) {
        Statement::Expression(e) => e,
        other => panic!("no expression statement: {:?}", other),
    }
}

fn shape(e: &Expression) -> String {
    format!("{:?}", e)
}

#[test]
fn test_parse_simple_function() {
    let source = r#"fn main() { }"#.to_string();
    let lexer = Lexer::new(source);
    let tokens = lexer.tokenize().to_vec();
    let mut parser = Parser::new(tokens);
    let ast = parser.parse().unwrap();

    assert!(!ast.is_empty());
}

#[test]
fn test_complete_program_parsing() {
    let source = r#"
        fn main() {
            print("Hello, World");
            puts("This is a test");
            let x = 42;
            puts("x is {}", x);
        }
        "#
    .to_string();

    let lexer = Lexer::new(source);
    let tokens = lexer.tokenize();

    assert!(!tokens.is_empty());

    let mut parser = Parser::new(tokens.to_vec());
    let ast = parser.parse().unwrap();

    assert!(!ast.is_empty());

    match &ast[0] {
        Statement::Function(func) => {
            assert_eq!(func.name, "main");
            assert!(!func.body.is_empty());
        }
        _ => panic!("Expected a function statement"),
    }
}

#[test]
fn test_variable_declaration_parsing() {
    let source = r#"let x = 123;"#.to_string();
    let lexer = Lexer::new(source);
    let tokens = lexer.tokenize().to_vec();
    let mut parser = Parser::new(tokens);
    let ast = parser.parse().unwrap();

    assert_eq!(ast.len(), 1);
}

#[test]
fn test_function_call_parsing() {
    let source = r#"puts("test");"#.to_string();
    let lexer = Lexer::new(source);
    let tokens = lexer.tokenize().to_vec();
    let mut parser = Parser::new(tokens);
    let ast = parser.parse().unwrap();

    assert_eq!(ast.len(), 1);
}

#[test]
fn test_format_call_parsing() {
    let source = r#"puts("value is {}", x);"#.to_string();
    let lexer = Lexer::new(source);
    let tokens = lexer.tokenize().to_vec();
    let mut parser = Parser::new(tokens);
    let ast = parser.parse().unwrap();

    assert_eq!(ast.len(), 1);
}

#[test]
fn struct_initialization_is_no_variable_before_a_block() {
    match expression("Point { x: 1, y: 2 }") {
        Expression::StructInitialization { name, fields } => {
            assert_eq!(name, "Point");
            assert_eq!(fields.len(), 2);
            assert_eq!(fields[0].0, "x");
            assert!(matches!(fields[0].1, Expression::Literal(Literal::Integer(1))));
            assert_eq!(fields[1].0, "y");
            assert!(matches!(fields[1].1, Expression::Literal(Literal::Integer(2))));
        }
        other => panic!("no struct initialization: {:?}", other),
    }
    assert!(matches!(
        expression("Empty {}"),
        Expression::StructInitialization { ref name, ref fields } if name == "Empty" && fields.is_empty()
    ));
    assert!(matches!(
        expression("P { x: 1, }"),
        Expression::StructInitialization { ref fields, .. } if fields.len() == 1
    ));
}

#[test]
fn enum_variants_with_and_without_values() {
    match expression("Color::Red") {
        Expression::EnumVariantCreation { enum_name, variant_name, values } => {
            assert_eq!(enum_name, "Color");
            assert_eq!(variant_name, "Red");
            assert!(values.is_empty());
        }
        other => panic!("no enum variant: {:?}", other),
    }
    match expression("Shape::Circle(5)") {
        Expression::EnumVariantCreation { enum_name, variant_name, values } => {
            assert_eq!(enum_name, "Shape");
            assert_eq!(variant_name, "Circle");
            assert_eq!(values.len(), 1);
            assert!(matches!(values[0], Expression::Literal(Literal::Integer(5))));
        }
        other => panic!("no enum variant: {:?}", other),
    }
    assert!(matches!(
        expression("Shape::Rect(1, 2,)"),
        Expression::EnumVariantCreation { ref values, .. } if values.len() == 2
    ));
}

#[test]
fn parsing_is_deterministic() {
    let source = r#"
        fn area(w: int, h: int) -> int { let a = w * h; puts("{}", a); }
        fn main() { for x in [1, 2, 3] { if (x == 2) { continue; } elif (x > 2) { break; } else { area(x, x + 1); } } }
    "#;
    let first = format!("{:?}", parse(source).unwrap());
    let second = format!("{:?}", parse(source).unwrap());
    assert_eq!(first, second);
}

#[test]
fn precedence_and_associativity() {
    assert_eq!(
        shape(&expression("1 + 2 * 3")),
        "Binary { left: Literal(Integer(1)), operator: Add, right: Binary { left: Literal(Integer(2)), operator: Multiply, right: Literal(Integer(3)) } }"
    );
    assert_eq!(
        shape(&expression("1 - 2 - 3")),
        "Binary { left: Binary { left: Literal(Integer(1)), operator: Subtract, right: Literal(Integer(2)) }, operator: Subtract, right: Literal(Integer(3)) }"
    );
    assert_eq!(
        shape(&expression("(1 + 2) * 3")),
        "Binary { left: Binary { left: Literal(Integer(1)), operator: Add, right: Literal(Integer(2)) }, operator: Multiply, right: Literal(Integer(3)) }"
    );
    match expression("a < b == c >= d % e") {
        Expression::Binary { left, operator: BinaryOp::Equal, right } => {
            assert!(matches!(*left, Expression::Binary { operator: BinaryOp::Less, .. }));
            match *right {
                Expression::Binary { operator: BinaryOp::GreaterEqual, right, .. } => {
                    assert!(matches!(*right, Expression::Binary { operator: BinaryOp::Modulo, .. }));
                }
                other => panic!("wrong shape: {:?}", other),
            }
        }
        other => panic!("wrong shape: {:?}", other),
    }
    assert!(matches!(expression("a != b"), Expression::Binary { operator: BinaryOp::NotEqual, .. }));
    assert!(matches!(expression("a <= b"), Expression::Binary { operator: BinaryOp::LessEqual, .. }));
    assert!(matches!(expression("a > b"), Expression::Binary { operator: BinaryOp::Greater, .. }));
    assert!(matches!(expression("a / b"), Expression::Binary { operator: BinaryOp::Divide, .. }));
}

#[test]
fn literals_and_variables() {
    assert!(matches!(expression("42"), Expression::Literal(Literal::Integer(42))));
    assert!(matches!(expression("true"), Expression::Literal(Literal::Boolean(true))));
    assert!(matches!(expression("false"), Expression::Literal(Literal::Boolean(false))));
    assert!(matches!(expression("x"), Expression::Variable(ref n) if n == "x"));
    assert!(
        matches!(expression(r#""a\"b""#), Expression::Literal(Literal::String(ref s)) if s == r#""a\"b""#)
    );
}

#[test]
fn calls_and_format_calls() {
    match expression(r#"puts("value is {}", x, y)"#) {
        Expression::FormatCall { name, format_string, arguments } => {
            assert_eq!(name, "puts");
            assert_eq!(format_string, r#""value is {}""#);
            assert_eq!(arguments.len(), 2);
            assert!(matches!(arguments[0], Expression::Variable(ref n) if n == "x"));
        }
        other => panic!("no format call: {:?}", other),
    }
    assert!(matches!(
        expression(r#"print("{}")"#),
        Expression::FormatCall { ref name, ref arguments, .. } if name == "print" && arguments.is_empty()
    ));
    assert!(matches!(
        expression(r#"puts("plain", x)"#),
        Expression::Call { ref name, ref arguments } if name == "puts" && arguments.len() == 2
    ));
    assert!(matches!(
        expression(r#"show("{}", x)"#),
        Expression::Call { ref name, ref arguments } if name == "show" && arguments.len() == 2
    ));
    assert!(matches!(
        expression("puts(x)"),
        Expression::Call { ref name, ref arguments } if name == "puts" && arguments.len() == 1
    ));
    assert!(matches!(
        expression("f()"),
        Expression::Call { ref name, ref arguments } if name == "f" && arguments.is_empty()
    ));
    assert!(matches!(
        expression("f(g(1), 2)"),
        Expression::Call { ref arguments, .. } if matches!(arguments[0], Expression::Call { .. })
    ));
}

#[test]
fn postfix_forms() {
    assert!(matches!(expression("a[1]"), Expression::ArrayAccess { .. }));
    assert!(matches!(
        expression("a.b.c"),
        Expression::StructFieldAccess { ref object, ref field }
            if field == "c" && matches!(**object, Expression::StructFieldAccess { .. })
    ));
    assert!(matches!(
        expression("[1, 2, 3,]"),
        Expression::ArrayLiteral(ref elements) if elements.len() == 3
    ));
    assert!(matches!(expression("[]"), Expression::ArrayLiteral(ref elements) if elements.is_empty()));
    assert!(matches!(
        expression("f(1)[2]"),
        Expression::ArrayAccess { ref array, .. } if matches!(**array, Expression::Call { .. })
    ));
}

#[test]
fn only_names_can_be_called() {
    assert_eq!(parse("a.b(1);").unwrap_err(), ParseError::InvalidCallTarget);
    assert_eq!(format!("{:?}", parse("(f)(1);").unwrap()), format!("{:?}", parse("f(1);").unwrap()));
    assert_eq!(parse("a[0](1);").unwrap_err(), ParseError::InvalidCallTarget);
    assert_eq!(parse("1(2);").unwrap_err(), ParseError::InvalidCallTarget);
}

#[test]
fn statements() {
    let program = parse(
        r#"
        import math
        import strings as s
        let a: int = 1;
        let b: str = 2;
        let c = 3;
        unsafe { a; }
        { b; }
        while (a < 3) { break; continue; }
        for i in [1] { }
        if a { x: 1 } { } elif (c) { } elif (d) { } else { }
        "#,
    )
    .unwrap();
    assert_eq!(program.len(), 10);
    assert!(matches!(program[0], Statement::Import(ref m) if m == "math"));
    assert!(matches!(program[1], Statement::ImportAs(ref m, ref a) if m == "strings" && a == "s"));
    assert!(matches!(
        program[2],
        Statement::VariableDeclaration { ref name, explicit_type: Some(Type::Integer), .. } if name == "a"
    ));
    assert!(matches!(program[3], Statement::VariableDeclaration { explicit_type: Some(Type::String), .. }));
    assert!(matches!(program[4], Statement::VariableDeclaration { explicit_type: None, .. }));
    assert!(matches!(program[5], Statement::UnsafeBlock(ref b) if b.len() == 1));
    assert!(matches!(program[6], Statement::Block(ref b) if b.len() == 1));
    assert!(matches!(
        program[7],
        Statement::While { ref body, .. }
            if matches!(body[0], Statement::Break) && matches!(body[1], Statement::Continue)
    ));
    assert!(matches!(
        program[8],
        Statement::For { ref variable, iterable: Expression::ArrayLiteral(_), ref body }
            if variable == "i" && body.is_empty()
    ));
    assert!(matches!(
        program[9],
        Statement::If {
            condition: Expression::StructInitialization { .. },
            ref elif_branches,
            else_branch: Some(_),
            ..
        } if elif_branches.len() == 2
    ));
}

#[test]
fn function_declarations() {
    let program = parse("fn f(a, b: int, c: bool,) -> bool { } fn g() { let x = 1; }").unwrap();
    match &program[0] {
        Statement::Function(f) => {
            assert_eq!(f.name, "f");
            assert_eq!(
                f.parameters,
                vec![
                    ("a".to_string(), Type::Unknown),
                    ("b".to_string(), Type::Integer),
                    ("c".to_string(), Type::Boolean),
                ]
            );
            assert_eq!(f.return_type, Type::Boolean);
            assert!(f.body.is_empty());
        }
        other => panic!("no function: {:?}", other),
    }
    match &program[1] {
        Statement::Function(g) => {
            assert!(g.parameters.is_empty());
            assert_eq!(g.return_type, Type::Void);
            assert_eq!(g.body.len(), 1);
        }
        other => panic!("no function: {:?}", other),
    }
    for (name, expected) in [
        ("i32", Type::Integer),
        ("int", Type::Integer),
        ("f64", Type::Float),
        ("float", Type::Float),
        ("bool", Type::Boolean),
        ("boolean", Type::Boolean),
        ("str", Type::String),
        ("string", Type::String),
        ("void", Type::Void),
    ] {
        let program = parse(&format!("let x: {} = 1;", name)).unwrap();
        assert!(
            matches!(program[0], Statement::VariableDeclaration { explicit_type: Some(ref t), .. } if *t == expected)
        );
    }
}

#[test]
fn invalid_type_annotations_are_errors() {
    assert_eq!(
        parse("let b: Widget = 2;").unwrap_err(),
        ParseError::InvalidTypeAnnotation("Widget".to_string())
    );
    assert_eq!(
        parse("fn f(c: Mystery) { }").unwrap_err(),
        ParseError::InvalidTypeAnnotation("Mystery".to_string())
    );
    assert_eq!(
        parse("fn g() -> Nope { }").unwrap_err(),
        ParseError::InvalidTypeAnnotation("Nope".to_string())
    );
    assert_eq!(
        parse("fn h(x: 1) { }").unwrap_err(),
        ParseError::UnexpectedToken { expected: Expected::TypeName, found: Token::Number(1) }
    );
    assert_eq!(
        parse("let x:").unwrap_err(),
        ParseError::UnexpectedEndOfInput { expected: Expected::TypeName }
    );
}

#[test]
fn errors_are_returned() {
    assert_eq!(
        parse("let x = ;").unwrap_err(),
        ParseError::UnexpectedToken { expected: Expected::Expression, found: Token::Semi }
    );
    assert_eq!(
        parse("let x = 1").unwrap_err(),
        ParseError::UnexpectedEndOfInput { expected: Expected::Token(Token::Semi) }
    );
    assert_eq!(
        parse("fn main() {").unwrap_err(),
        ParseError::UnexpectedEndOfInput { expected: Expected::Token(Token::RightBrace) }
    );
    assert_eq!(
        parse("1 +").unwrap_err(),
        ParseError::UnexpectedEndOfInput { expected: Expected::Expression }
    );
    assert_eq!(
        parse("}").unwrap_err(),
        ParseError::UnexpectedToken { expected: Expected::Statement, found: Token::RightBrace }
    );
    assert_eq!(
        parse("let 1 = 2;").unwrap_err(),
        ParseError::UnexpectedToken { expected: Expected::Identifier, found: Token::Number(1) }
    );
    assert_eq!(
        parse("import").unwrap_err(),
        ParseError::UnexpectedEndOfInput { expected: Expected::Identifier }
    );
    assert_eq!(
        parse("for x [1] { }").unwrap_err(),
        ParseError::UnexpectedToken {
            expected: Expected::Token(Token::In),
            found: Token::LeftBracket
        }
    );
    assert_eq!(
        parse("a.1;").unwrap_err(),
        ParseError::UnexpectedToken { expected: Expected::Identifier, found: Token::Number(1) }
    );
}

#[test]
fn assignments_are_parsed() {
    assert_eq!(
        shape(&expression("x = 5")),
        "VariableDeclaration { name: \"x\", value: Literal(Integer(5)), explicit_type: None }"
    );
    assert_eq!(
        shape(&expression("a[0] = b.c = 1 + 2")),
        "ArrayAssignment { array: Variable(\"a\"), index: Literal(Integer(0)), value: StructFieldAssignment { object: Variable(\"b\"), field: \"c\", value: Binary { left: Literal(Integer(1)), operator: Add, right: Literal(Integer(2)) } } }"
    );
    let program = parse("let y = x = 5;").unwrap();
    assert!(matches!(
        program[0],
        Statement::VariableDeclaration { value: Expression::VariableDeclaration { .. }, .. }
    ));
}

#[test]
fn what_cannot_be_assigned_to_leaves_the_equals_sign_unread() {
    assert_eq!(
        parse("1 = 5;").unwrap_err(),
        ParseError::UnexpectedToken { expected: Expected::Token(Token::Semi), found: Token::Equals }
    );
    assert_eq!(
        parse("f(a + 1 = 2);").unwrap_err(),
        ParseError::UnexpectedToken {
            expected: Expected::Token(Token::RightParen),
            found: Token::Equals
        }
    );
    assert_eq!(
        parse("x = ;").unwrap_err(),
        ParseError::UnexpectedToken { expected: Expected::Expression, found: Token::Semi }
    );
}

#[test]
fn a_condition_that_ends_with_a_name_starts_a_struct() {
    // `n {` behind `<` is the start of a struct initialization
    assert!(parse("while i < n { puts(i); }").is_err());
    assert!(parse("while (i < n) { puts(i); }").is_ok());
}

#[test]
fn empty_token_sequence_is_the_empty_program() {
    assert!(parse("").unwrap().is_empty());
    let mut parser = Parser::new(Vec::new());
    assert!(parser.parse().unwrap().is_empty());
}
