use minilang::tokenizer::{Token, TokenType, Tokenizer};

fn lex(input: &str) -> Result<Vec<Token>, String> {
    let mut tokenizer = Tokenizer::new(input.to_string());
    tokenizer.tokenize()
}

#[test]
fn test_tokenizer() {
    let input = r#"
            import hello.world;
            func add(a, b) {
                return a + b;
            }
        "#;

    let tokens = lex(input).unwrap();

    assert_eq!(tokens.len(), 19);
    assert_eq!(tokens[0].token_type, TokenType::ImportKeyword);
    assert_eq!(tokens[1].token_type, TokenType::Identifier("hello".to_string()));
    assert_eq!(tokens[2].token_type, TokenType::Dot);
    assert_eq!(tokens[3].token_type, TokenType::Identifier("world".to_string()));
    assert_eq!(tokens[4].token_type, TokenType::Semicolon);
    assert_eq!(tokens[5].token_type, TokenType::FunctionKeyword);
    assert_eq!(tokens[6].token_type, TokenType::Identifier("add".to_string()));
    assert_eq!(tokens[7].token_type, TokenType::OpenParenthesis);
    assert_eq!(tokens[8].token_type, TokenType::Identifier("a".to_string()));
    assert_eq!(tokens[9].token_type, TokenType::Comma);
    assert_eq!(tokens[10].token_type, TokenType::Identifier("b".to_string()));
    assert_eq!(tokens[11].token_type, TokenType::CloseParenthesis);
    assert_eq!(tokens[12].token_type, TokenType::OpenCurlyBracket);
    assert_eq!(tokens[13].token_type, TokenType::ReturnKeyword);
    assert_eq!(tokens[14].token_type, TokenType::Identifier("a".to_string()));
    assert_eq!(tokens[15].token_type, TokenType::AddOperator);
    assert_eq!(tokens[16].token_type, TokenType::Identifier("b".to_string()));
    assert_eq!(tokens[17].token_type, TokenType::Semicolon);
    assert_eq!(tokens[18].token_type, TokenType::CloseCurlyBracket);
}

#[test]
fn test_strings() {
    let tokens = lex(r#""hello world""#).unwrap();

    assert_eq!(tokens.len(), 1);
    assert_eq!(tokens[0].token_type, TokenType::StringLiteral("hello world".to_string()));
}

#[test]
fn test_char_literals() {
    let tokens = lex(r#"'a'"#).unwrap();

    assert_eq!(tokens.len(), 1);
    assert_eq!(tokens[0].token_type, TokenType::CharLiteral('a'));
}

#[test]
fn test_float_literals() {
    let tokens = lex(r#"3.14"#).unwrap();

    assert_eq!(tokens.len(), 1);
    assert_eq!(tokens[0].token_type, TokenType::FloatLiteral(3.14f64.to_bits()));

    let tokens = lex(r#".5"#).unwrap();

    assert_eq!(tokens.len(), 1);
    assert_eq!(tokens[0].token_type, TokenType::FloatLiteral(0.5f64.to_bits()));

    let tokens = lex(r#"5."#).unwrap();

    assert_eq!(tokens.len(), 1);
    assert_eq!(tokens[0].token_type, TokenType::FloatLiteral(5.0f64.to_bits()));
}

#[test]
fn test_integer_literals() {
    let tokens = lex(r#"42"#).unwrap();

    assert_eq!(tokens.len(), 1);
    assert_eq!(tokens[0].token_type, TokenType::IntegerLiteral(42));
}

#[test]
fn test_keywords() {
    let tokens = lex(r#"import func return if else loop const let break continue"#).unwrap();

    assert_eq!(tokens.len(), 10);
    assert_eq!(tokens[0].token_type, TokenType::ImportKeyword);
    assert_eq!(tokens[1].token_type, TokenType::FunctionKeyword);
    assert_eq!(tokens[2].token_type, TokenType::ReturnKeyword);
    assert_eq!(tokens[3].token_type, TokenType::IfKeyword);
    assert_eq!(tokens[4].token_type, TokenType::ElseKeyword);
    assert_eq!(tokens[5].token_type, TokenType::LoopKeyword);
    assert_eq!(tokens[6].token_type, TokenType::ConstKeyword);
    assert_eq!(tokens[7].token_type, TokenType::LetKeyword);
    assert_eq!(tokens[8].token_type, TokenType::BreakKeyword);
    assert_eq!(tokens[9].token_type, TokenType::ContinueKeyword);
}

#[test]
fn test_operators() {
    let tokens = lex(r#"+ - * / % = && || ! == != >= <= < >"#).unwrap();

    let expected = vec![
        TokenType::AddOperator,
        TokenType::SubtractOperator,
        TokenType::MultiplyOperator,
        TokenType::DivideOperator,
        TokenType::ModuloOperator,
        TokenType::AssignmentOperator,
        TokenType::AndOperator,
        TokenType::OrOperator,
        TokenType::NotOperator,
        TokenType::EqualOperator,
        TokenType::NotEqualOperator,
        TokenType::GreaterThanEqualOperator,
        TokenType::LessThanEqualOperator,
        TokenType::OpenAngleBracket,
        TokenType::CloseAngleBracket,
    ];

    assert_eq!(tokens.len(), expected.len());
    for (i, token) in tokens.iter().enumerate() {
        assert_eq!(token.token_type, expected[i]);
    }
}

#[test]
fn test_unknown_character() {
    let result = lex(r#"$"#);

    assert!(result.is_err());
    assert_eq!(result.unwrap_err(), "Unexpected character: '$'".to_string());
}

#[test]
fn test_empty_character_literal() {
    let result = lex(r#"''"#);

    assert!(result.is_err());
    assert_eq!(result.unwrap_err(), "Empty character literal".to_string());
}

#[test]
fn test_invalid_float() {
    let result = lex(r#"3.14.15"#);

    assert!(result.is_err());
    assert_eq!(result.unwrap_err(), "Invalid float value: 3.14.15".to_string());
}

#[test]
fn test_invalid_suffix() {
    let result = lex(r#"42abc"#);

    assert!(result.is_err());
    assert_eq!(result.unwrap_err(), "Invalid number suffix: abc".to_string());
}

#[test]
fn test_comments_and_positions() {
    let tokens = lex("// a line comment\n  x /* block */ y").unwrap();
    assert_eq!(tokens.len(), 2);
    assert_eq!(tokens[0].token_type, TokenType::Identifier("x".to_string()));
    assert_eq!(tokens[0].line, 2);
    assert_eq!(tokens[0].column, 3);
    assert_eq!(tokens[1].token_type, TokenType::Identifier("y".to_string()));
}

#[test]
fn test_string_escape_takes_next_char() {
    let tokens = lex(r#""a\"b""#).unwrap();
    assert_eq!(tokens.len(), 1);
    assert_eq!(tokens[0].token_type, TokenType::StringLiteral("a\"b".to_string()));
}

#[test]
fn test_integer_overflow_is_an_error() {
    let result = lex("99999999999999999999");
    assert!(result.is_err());
    assert_eq!(
        result.unwrap_err(),
        "Invalid integer value: 99999999999999999999".to_string()
    );
}

#[test]
fn test_reverse_format() {
    assert_eq!(TokenType::ImportKeyword.reverse_format(), "import");
    assert_eq!(TokenType::IntegerLiteral(42).reverse_format(), "42");
    assert_eq!(TokenType::IntegerLiteral(-7).reverse_format(), "-7");
    assert_eq!(TokenType::CharLiteral('x').reverse_format(), "'x'");
    assert_eq!(
        TokenType::StringLiteral("hi".to_string()).reverse_format(),
        "\"hi\""
    );
    assert_eq!(TokenType::Identifier("abc".to_string()).reverse_format(), "abc");
    assert_eq!(TokenType::Arrow.reverse_format(), "->");
    assert_eq!(TokenType::Pipeline.reverse_format(), "|>");
}
