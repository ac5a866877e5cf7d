use voltage::{
    EnumPattern, Expression, Lexer, Literal, Parser, Statement, Type, TypedExpression,
    TypedFunction, TypedStatement,
};

#[test]
fn a_copy_of_a_program_has_its_shape() {
    let source = r#"
        import a as b
        fn f(x: int, y) -> bool {
            let p = P { x: [1, 2], y: E::V(x.z, "s") };
            if (x < y) { while (true) { break; } } elif (y) { for c in "s" { continue; } } else { unsafe { { f(1, 2); } } }
            puts("{}", a[1] % 2 == 0);
        }
    "#;
    let lexer = Lexer::new(source.to_string());
    let program = Parser::new(lexer.tokenize().to_vec()).parse().unwrap();
    let copy = program.clone();
    assert_eq!(format!("{:?}", copy), format!("{:?}", program));
    drop(program);
    assert!(matches!(copy[1], Statement::Function(ref f) if f.clone().name == "f"));
}

#[test]
fn copies_of_types_are_equal() {
    let types = vec![
        Type::Integer,
        Type::Reference(Box::new(Type::MutableReference(Box::new(Type::Float)))),
        Type::Array(Box::new(Type::Pointer(Box::new(Type::Void))), 3),
        Type::DynamicArray(Box::new(Type::Slice(Box::new(Type::Boolean)))),
        Type::Function(vec![Type::String, Type::Unknown], Box::new(Type::Generic("T".to_string()))),
        Type::Struct("P".to_string(), vec![("x".to_string(), Type::Integer)]),
        Type::Enum(
            "E".to_string(),
            vec![("A".to_string(), None), ("B".to_string(), Some(vec![Type::Integer, Type::Float]))],
        ),
    ];
    for t in types.iter() {
        assert_eq!(&t.clone(), t);
    }
}

#[test]
fn copies_of_expressions_that_no_source_spells() {
    let e = Expression::EnumMatch {
        expression: Box::new(Expression::StructDefinition {
            name: "S".to_string(),
            fields: vec![("f".to_string(), Type::Integer)],
        }),
        arms: vec![
            (
                EnumPattern::Variant("V".to_string(), Some(vec!["a".to_string(), "b".to_string()])),
                Expression::ArrayAssignment {
                    array: Box::new(Expression::Variable("a".to_string())),
                    index: Box::new(Expression::Literal(Literal::Integer(0))),
                    value: Box::new(Expression::Literal(Literal::Boolean(true))),
                },
            ),
            (EnumPattern::Variant("W".to_string(), None), Expression::Variable("w".to_string())),
            (
                EnumPattern::Literal(Literal::String("s".to_string())),
                Expression::StructFieldAssignment {
                    object: Box::new(Expression::Variable("o".to_string())),
                    field: "f".to_string(),
                    value: Box::new(Expression::VariableDeclaration {
                        name: "v".to_string(),
                        value: Box::new(Expression::Literal(Literal::Integer(1))),
                        explicit_type: Some(Type::Integer),
                    }),
                },
            ),
            (EnumPattern::Wildcard, Expression::Literal(Literal::Integer(0))),
        ],
    };
    assert_eq!(format!("{:?}", e.clone()), format!("{:?}", e));
}

#[test]
fn copies_of_typed_trees() {
    let expression = TypedExpression {
        expression: Expression::Literal(Literal::Integer(1)),
        type_info: Type::Integer,
    };
    let function = TypedFunction {
        name: "f".to_string(),
        parameters: vec![("x".to_string(), Type::Integer)],
        return_type: Type::Void,
        body: vec![
            TypedStatement::Expression(expression.clone()),
            TypedStatement::VariableDeclaration {
                name: "y".to_string(),
                value: expression.clone(),
                declared_type: Type::Integer,
            },
            TypedStatement::Block(vec![TypedStatement::Function(TypedFunction {
                name: "g".to_string(),
                parameters: Vec::new(),
                return_type: Type::Unknown,
                body: Vec::new(),
            })]),
        ],
    };
    assert_eq!(format!("{:?}", function.clone()), format!("{:?}", function));
    let statement = TypedStatement::Function(function);
    assert_eq!(format!("{:?}", statement.clone()), format!("{:?}", statement));
}
