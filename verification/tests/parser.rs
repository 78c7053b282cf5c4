use minilang::parser::ast::{BinaryOperator, Declaration, Expression, Statement};
use minilang::parser::{ParseError, Parser};
use minilang::tokenizer::{TokenType, Tokenizer};

fn parse_expr(input: &str) -> Expression {
    let mut tokenizer = Tokenizer::new(input.to_string());
    let tokens = tokenizer.tokenize().unwrap();
    let mut parser = Parser::new(tokens);
    parser.parse_expression().unwrap()
}

#[test]
fn test_associativity() {
    assert_eq!(
        parse_expr(
            r#"
            1 + 2 * 3 - 4 / 5 % 6;
        "#
        ),
        Expression::BinaryOperation {
            left: Box::new(Expression::BinaryOperation {
                left: Box::new(Expression::NumberLiteral(1.0f64.to_bits())),
                operator: BinaryOperator::Add,
                right: Box::new(Expression::BinaryOperation {
                    left: Box::new(Expression::NumberLiteral(2.0f64.to_bits())),
                    operator: BinaryOperator::Multiply,
                    right: Box::new(Expression::NumberLiteral(3.0f64.to_bits()))
                })
            }),
            operator: BinaryOperator::Subtract,
            right: Box::new(Expression::BinaryOperation {
                left: Box::new(Expression::BinaryOperation {
                    left: Box::new(Expression::NumberLiteral(4.0f64.to_bits())),
                    operator: BinaryOperator::Divide,
                    right: Box::new(Expression::NumberLiteral(5.0f64.to_bits()))
                }),
                operator: BinaryOperator::Modulus,
                right: Box::new(Expression::NumberLiteral(6.0f64.to_bits()))
            })
        }
    );
}

#[test]
fn test_program_parses_whole_pipeline() {
    let input = "import hello.world; func add(a: u8, b: u8) -> u8 { return a + b; }";
    let mut tokenizer = Tokenizer::new(input.to_string());
    let tokens = tokenizer.tokenize().unwrap();
    let mut parser = Parser::new(tokens);
    let program = parser.parse_program().expect("program should parse");
    assert_eq!(program.declarations.len(), 2);
    match &program.declarations[0] {
        Declaration::Import { path } => {
            assert_eq!(path.len(), 2);
            assert_eq!(path[0], "hello");
            assert_eq!(path[1], "world");
        }
        other => panic!("expected an import, got {:?}", other),
    }
    match &program.declarations[1] {
        Declaration::Function { name, params, .. } => {
            assert_eq!(name, "add");
            assert_eq!(params.len(), 2);
        }
        other => panic!("expected a function, got {:?}", other),
    }
}

#[test]
fn test_result_expression_must_be_last() {
    // A semicolon-free expression ends its block; the following token can
    // no longer belong to it, so this program does not parse.
    let input = "func main() -> u8 { 1 2; }";
    let mut tokenizer = Tokenizer::new(input.to_string());
    let tokens = tokenizer.tokenize().unwrap();
    let mut parser = Parser::new(tokens);
    assert!(parser.parse_program().is_none());
    assert!(parser.errors.len() > 0);
}

#[test]
fn test_result_expression_last_parses() {
    let input = "func main() -> u8 { 1; 2 }";
    let mut tokenizer = Tokenizer::new(input.to_string());
    let tokens = tokenizer.tokenize().unwrap();
    let mut parser = Parser::new(tokens);
    let program = parser.parse_program().expect("program should parse");
    match &program.declarations[0] {
        Declaration::Function { body, .. } => match &**body {
            Expression::Block(stmts) => {
                assert_eq!(stmts.len(), 2);
                assert!(matches!(
                    stmts[0],
                    Statement::Expression { result: false, .. }
                ));
                assert!(matches!(
                    stmts[1],
                    Statement::Expression { result: true, .. }
                ));
            }
            other => panic!("expected a block, got {:?}", other),
        },
        other => panic!("expected a function, got {:?}", other),
    }
}

#[test]
fn test_unexpected_end_of_input() {
    let input = "func";
    let mut tokenizer = Tokenizer::new(input.to_string());
    let tokens = tokenizer.tokenize().unwrap();
    let mut parser = Parser::new(tokens);
    assert!(parser.parse_program().is_none());
    assert!(parser
        .errors
        .iter()
        .any(|e| matches!(e, ParseError::UnexpectedEndOfInput)));
}

#[test]
fn test_unexpected_token_error() {
    let input = "func 1() -> u8 { }";
    let mut tokenizer = Tokenizer::new(input.to_string());
    let tokens = tokenizer.tokenize().unwrap();
    let mut parser = Parser::new(tokens);
    assert!(parser.parse_program().is_none());
    match &parser.errors[0] {
        ParseError::UnexpectedToken { found, .. } => {
            assert_eq!(found.token_type, TokenType::IntegerLiteral(1));
        }
        other => panic!("expected an unexpected-token error, got {:?}", other),
    }
}

#[test]
fn test_error_recovery_collects_independent_errors() {
    let input = "func f() -> u8 { let x: u8 = ; } func g( -> u8 { }";
    let mut tokenizer = Tokenizer::new(input.to_string());
    let tokens = tokenizer.tokenize().unwrap();
    let mut parser = Parser::new(tokens);
    assert!(parser.parse_program().is_none());
    assert!(parser.errors.len() >= 2);
}

#[test]
fn test_variable_ids_are_distinct() {
    let expr = parse_expr("a + a");
    match expr {
        Expression::BinaryOperation { left, right, .. } => {
            let lid = match *left {
                Expression::Variable { expression_id, .. } => expression_id,
                other => panic!("expected a variable, got {:?}", other),
            };
            let rid = match *right {
                Expression::Variable { expression_id, .. } => expression_id,
                other => panic!("expected a variable, got {:?}", other),
            };
            assert_ne!(lid, rid);
        }
        other => panic!("expected a binary operation, got {:?}", other),
    }
}

#[test]
fn test_assignment_requires_variable_target() {
    let input = "func main() -> u8 { 1 = 2; }";
    let mut tokenizer = Tokenizer::new(input.to_string());
    let tokens = tokenizer.tokenize().unwrap();
    let mut parser = Parser::new(tokens);
    assert!(parser.parse_program().is_none());
}
