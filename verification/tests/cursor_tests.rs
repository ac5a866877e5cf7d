use voltage::lexer::tokenize;
use voltage::{Expected, ParseError, Parser, Token, Type};

fn parser(source: &str) -> Parser {
    Parser::new(tokenize(source))
}

#[test]
fn check_compares_kinds_only() {
    let p = parser("name 1");
    assert!(p.check(&Token::Identifier(String::new())));
    assert!(!p.check(&Token::Number(0)));
    assert!(!parser("").check(&Token::Semi));
}

#[test]
fn match_token_reads_only_what_it_finds() {
    let mut p = parser("( )");
    assert!(!p.match_token(&Token::RightParen));
    assert_eq!(p.current_token(), &Token::LeftParen);
    assert!(p.match_token(&Token::LeftParen));
    assert_eq!(p.previous_token(), &Token::LeftParen);
    assert_eq!(p.current_token(), &Token::RightParen);
    assert!(p.match_token(&Token::RightParen));
    assert!(p.is_at_end());
    assert!(!p.match_token(&Token::RightParen));
}

#[test]
fn consume_reports_what_it_found() {
    let mut p = parser("; x");
    assert_eq!(p.consume(&Token::Semi), Ok(()));
    assert_eq!(
        p.consume(&Token::Semi),
        Err(ParseError::UnexpectedToken {
            expected: Expected::Token(Token::Semi),
            found: Token::Identifier("x".to_string()),
        })
    );
    // a failed read leaves the cursor in place
    assert_eq!(p.consume_identifier(), Ok("x".to_string()));
    assert_eq!(
        p.consume(&Token::Semi),
        Err(ParseError::UnexpectedEndOfInput { expected: Expected::Token(Token::Semi) })
    );
    assert_eq!(
        p.consume_identifier(),
        Err(ParseError::UnexpectedEndOfInput { expected: Expected::Identifier })
    );
}

#[test]
fn advance_if_identifier() {
    let mut p = parser("a 1");
    assert_eq!(p.advance_if_identifier(), Some("a".to_string()));
    assert_eq!(p.advance_if_identifier(), None);
    assert_eq!(p.current_token(), &Token::Number(1));
    assert_eq!(
        p.consume_identifier(),
        Err(ParseError::UnexpectedToken { expected: Expected::Identifier, found: Token::Number(1) })
    );
    assert_eq!(parser("").advance_if_identifier(), None);
}

#[test]
fn parse_type_reads_an_identifier_whatever_it_names() {
    let mut p = parser("int Widget 1");
    assert_eq!(p.parse_type(), Ok(Type::Integer));
    assert_eq!(p.parse_type(), Err(ParseError::InvalidTypeAnnotation("Widget".to_string())));
    assert_eq!(
        p.parse_type(),
        Err(ParseError::UnexpectedToken { expected: Expected::TypeName, found: Token::Number(1) })
    );
    assert_eq!(p.current_token(), &Token::Number(1));
    assert_eq!(
        parser("").parse_type(),
        Err(ParseError::UnexpectedEndOfInput { expected: Expected::TypeName })
    );
}

#[test]
fn parse_goes_on_from_the_cursor() {
    let mut p = parser("; ; let x = 1;");
    assert!(p.match_token(&Token::Semi));
    assert!(p.match_token(&Token::Semi));
    assert_eq!(p.parse().unwrap().len(), 1);
    assert!(p.is_at_end());
    assert!(p.parse().unwrap().is_empty());
}

#[test]
fn primary_at_the_end_of_the_tokens_leaves_the_cursor() {
    let mut p = parser("puts (");
    assert!(p.match_token(&Token::Identifier(String::new())));
    assert!(p.match_token(&Token::LeftParen));
    assert!(p.is_at_end());
    assert_eq!(
        p.primary().unwrap_err(),
        ParseError::UnexpectedEndOfInput { expected: Expected::Expression }
    );
    assert!(p.is_at_end());
    assert_eq!(
        Parser::new(tokenize("puts(")).parse().unwrap_err(),
        ParseError::UnexpectedEndOfInput { expected: Expected::Expression }
    );
}

#[test]
fn primary_tells_identifiers_apart() {
    assert_eq!(format!("{:?}", parser("x + 1").primary().unwrap()), "Variable(\"x\")");
    assert_eq!(
        format!("{:?}", parser("P { x: 1 } { }").primary().unwrap()),
        "StructInitialization { name: \"P\", fields: [(\"x\", Literal(Integer(1)))] }"
    );
    assert_eq!(
        format!("{:?}", parser("E::V(1)").primary().unwrap()),
        "EnumVariantCreation { enum_name: \"E\", variant_name: \"V\", values: [Literal(Integer(1))] }"
    );
    let mut p = parser("P { x: 1 } ;");
    p.primary().unwrap();
    assert_eq!(p.current_token(), &Token::Semi);
}
