use voltage::lexer::tokenize;
use voltage::{LexError, Lexer, Token};

#[test]
fn test_basic_tokenization() {
    let source = r#"fn main() { let x = 1; }"#.to_string();
    let lexer = Lexer::new(source);
    let tokens = lexer.tokenize();

    assert_eq!(tokens[0], Token::Fn);
    assert_eq!(tokens[1], Token::Identifier("main".to_string()));
    assert_eq!(tokens[2], Token::LeftParen);
    assert_eq!(tokens[3], Token::RightParen);
    assert_eq!(tokens[4], Token::LeftBrace);
    assert_eq!(tokens[5], Token::Let);
    assert_eq!(tokens[6], Token::Identifier("x".to_string()));
    assert_eq!(tokens[7], Token::Equals);
    assert_eq!(tokens[8], Token::Number(1));
    assert_eq!(tokens[9], Token::Semi);
    assert_eq!(tokens[10], Token::RightBrace);
}

#[test]
fn keywords_and_longer_words() {
    let tokens = tokenize("fn fnx if iffy in int as elif else while for break continue unsafe import");
    assert_eq!(
        tokens,
        vec![
            Token::Fn,
            Token::Identifier("fnx".to_string()),
            Token::If,
            Token::Identifier("iffy".to_string()),
            Token::In,
            Token::Identifier("int".to_string()),
            Token::As,
            Token::Elif,
            Token::Else,
            Token::While,
            Token::For,
            Token::Break,
            Token::Continue,
            Token::Unsafe,
            Token::Import,
        ]
    );
}

#[test]
fn operators_take_the_longest_match() {
    let tokens = tokenize("= == : :: - -> > >= < <= != + * / % [ ] . , ; ( ) { }");
    assert_eq!(
        tokens,
        vec![
            Token::Equals,
            Token::Equal,
            Token::Colon,
            Token::DoubleColon,
            Token::Minus,
            Token::Arrow,
            Token::Greater,
            Token::GreaterEqual,
            Token::Less,
            Token::LessEqual,
            Token::NotEqual,
            Token::Plus,
            Token::Star,
            Token::Slash,
            Token::Percent,
            Token::LeftBracket,
            Token::RightBracket,
            Token::Dot,
            Token::Comma,
            Token::Semi,
            Token::LeftParen,
            Token::RightParen,
            Token::LeftBrace,
            Token::RightBrace,
        ]
    );
    assert_eq!(tokenize("a->b"), vec![
        Token::Identifier("a".to_string()),
        Token::Arrow,
        Token::Identifier("b".to_string()),
    ]);
    assert_eq!(tokenize("==="), vec![Token::Equal, Token::Equals]);
}

#[test]
fn numbers_that_do_not_fit_become_zero() {
    assert_eq!(tokenize("9223372036854775807"), vec![Token::Number(i64::MAX)]);
    assert_eq!(tokenize("9223372036854775808"), vec![Token::Number(0)]);
    assert_eq!(tokenize("99999999999999999999999"), vec![Token::Number(0)]);
    assert_eq!(tokenize("007"), vec![Token::Number(7)]);
    assert_eq!(tokenize("12ab"), vec![Token::Number(12), Token::Identifier("ab".to_string())]);
}

#[test]
fn strings_keep_quotes_and_escapes() {
    assert_eq!(tokenize(r#""hi""#), vec![Token::String(r#""hi""#.to_string())]);
    assert_eq!(
        tokenize(r#"puts("a \"b\" c\n")"#),
        vec![
            Token::Identifier("puts".to_string()),
            Token::LeftParen,
            Token::String(r#""a \"b\" c\n""#.to_string()),
            Token::RightParen,
        ]
    );
    assert_eq!(tokenize("\"two\nlines\""), vec![Token::String("\"two\nlines\"".to_string())]);
}

#[test]
fn unmatched_characters_are_skipped_and_reported() {
    let lexer = Lexer::new("let @x = #1 ! 2;".to_string());
    assert_eq!(
        lexer.tokenize(),
        &[
            Token::Let,
            Token::Identifier("x".to_string()),
            Token::Equals,
            Token::Number(1),
            Token::Number(2),
            Token::Semi,
        ]
    );
    assert_eq!(
        lexer.errors(),
        &[
            LexError { start: 4, end: 5 },
            LexError { start: 9, end: 10 },
            LexError { start: 12, end: 13 },
        ]
    );
    assert_eq!(lexer.source(), "let @x = #1 ! 2;");
}

#[test]
fn unterminated_string_is_one_error() {
    let lexer = Lexer::new("x \"abc".to_string());
    assert_eq!(lexer.tokenize(), &[Token::Identifier("x".to_string())]);
    assert_eq!(lexer.errors(), &[LexError { start: 2, end: 6 }]);

    let lexer = Lexer::new("\"ab\\\ncd".to_string());
    assert_eq!(lexer.tokenize(), &[Token::Identifier("cd".to_string())]);
    assert_eq!(lexer.errors(), &[LexError { start: 0, end: 4 }]);
}

#[test]
fn carriage_return_is_no_white_space() {
    let lexer = Lexer::new("a\r\nb".to_string());
    assert_eq!(
        lexer.tokenize(),
        &[Token::Identifier("a".to_string()), Token::Identifier("b".to_string())]
    );
    assert_eq!(lexer.errors(), &[LexError { start: 1, end: 2 }]);
}

#[test]
fn positions_count_characters() {
    let lexer = Lexer::new("é x".to_string());
    assert_eq!(lexer.tokenize(), &[Token::Identifier("x".to_string())]);
    assert_eq!(lexer.errors(), &[LexError { start: 0, end: 1 }]);
}

#[test]
fn empty_source_has_no_tokens() {
    assert!(tokenize("").is_empty());
    assert!(tokenize(" \t\n\x0C").is_empty());
}

#[test]
fn tokens_compare_by_kind() {
    assert!(Token::Identifier("a".to_string()).same_kind(&Token::Identifier("b".to_string())));
    assert!(Token::Number(1).same_kind(&Token::Number(2)));
    assert!(!Token::Number(1).same_kind(&Token::String("1".to_string())));
    assert!(!Token::Less.same_kind(&Token::LessEqual));
    assert_eq!(Token::String("s".to_string()).clone(), Token::String("s".to_string()));
}
