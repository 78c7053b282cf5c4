use minilang::interpreter::{Interpreter, InterpreterControl};
use minilang::interpreter::resolver::Resolver;
use minilang::interpreter::value::Value;
use minilang::parser::ast::{
    BinaryOperator, Declaration, Expression, Program, Statement, Type,
};
use minilang::parser::Parser;
use minilang::tokenizer::Tokenizer;

fn parse_expr(input: &str) -> Expression {
    let mut tokenizer = Tokenizer::new(input.to_string());
    let tokens = tokenizer.tokenize().unwrap();
    let mut parser = Parser::new(tokens);
    parser.parse_expression().unwrap()
}

fn parse_program(input: &str) -> Program {
    let mut tokenizer = Tokenizer::new(input.to_string());
    let tokens = tokenizer.tokenize().unwrap();
    let mut parser = Parser::new(tokens);
    parser.parse_program().expect("program should parse")
}

fn resolved_interpreter(program: &Program) -> Interpreter {
    let mut resolver = Resolver::new();
    resolver.resolve_program(program).expect("resolution should succeed");
    let mut interpreter = Interpreter::new();
    interpreter.locals = resolver.resolved.clone();
    interpreter
}

#[test]
fn test_interpreter() {
    let program = Program {
        declarations: vec![Declaration::Function {
            name: "main".to_string(),
            params: vec![],
            generic_args: vec![],
            return_type: Type::F64,
            body: Box::new(Expression::Block(vec![Statement::Expression {
                expression: Box::new(Expression::BinaryOperation {
                    left: Box::new(Expression::NumberLiteral(5.0f64.to_bits())),
                    operator: BinaryOperator::Add,
                    right: Box::new(Expression::NumberLiteral(3.0f64.to_bits())),
                }),
                result: true,
            }])),
        }],
    };

    let mut interpreter = Interpreter::new();
    let result = interpreter.run(&program);
    assert_eq!(result, Ok(()));
}

#[test]
fn mod_test_associativity() {
    let expr = parse_expr(
        r#"
            1 + 2 * 3 - 4 / 5 % 6
        "#,
    );
    let result = Interpreter::new().interpret_expression(&expr);

    assert_eq!(
        result,
        Ok(Value::Number((1.0 + 2.0 * 3.0 - 4.0 / 5.0 % 6.0f64).to_bits()))
    );
}

#[test]
fn test_end_to_end_main_value() {
    let program = parse_program("func main() -> f64 { 1 + 2 * 3 - 4 / 5 % 6 }");
    let mut interpreter = resolved_interpreter(&program);
    let body = match &program.declarations[0] {
        Declaration::Function { body, .. } => body,
        other => panic!("expected a function, got {:?}", other),
    };
    let result = interpreter.eval_expr(&program, body, u64::MAX);
    assert_eq!(
        result,
        Ok(Value::Number((1.0 + 2.0 * 3.0 - 4.0 / 5.0 % 6.0f64).to_bits()))
    );
}

#[test]
fn test_division_by_zero() {
    let result = Interpreter::new().interpret_expression(&parse_expr("1 / 0"));
    assert_eq!(
        result,
        Err(InterpreterControl::RuntimeError("Division by zero".to_string()))
    );
}

#[test]
fn test_modulus_by_zero() {
    let result = Interpreter::new().interpret_expression(&parse_expr("7 % 0.0"));
    assert_eq!(
        result,
        Err(InterpreterControl::RuntimeError("Division by zero".to_string()))
    );
}

#[test]
fn test_loop_break_is_unit_and_runs_nothing_after() {
    let program = parse_program("func main() -> u8 { loop { break; print(1); } }");
    let mut interpreter = resolved_interpreter(&program);
    let result = interpreter.run(&program);
    assert_eq!(result, Ok(()));
    assert_eq!(interpreter.output.len(), 0);

    let value = Interpreter::new().interpret_expression(&parse_expr("loop { break; }"));
    assert_eq!(value, Ok(Value::Number(0.0f64.to_bits())));
}

#[test]
fn test_while_loop_counts() {
    let program = parse_program(
        "func main() -> u8 { let i: u8 = 0; loop (i < 3) { i = i + 1; }; return i; }",
    );
    let mut interpreter = resolved_interpreter(&program);
    let result = interpreter.run(&program);
    assert_eq!(
        result,
        Err(InterpreterControl::Return(Value::Number(3.0f64.to_bits())))
    );
}

#[test]
fn test_user_function_call() {
    let program = parse_program(
        "func add(a: f64, b: f64) -> f64 { return a + b; } func main() -> u8 { return add(1, 2); }",
    );
    let mut interpreter = resolved_interpreter(&program);
    let result = interpreter.run(&program);
    assert_eq!(
        result,
        Err(InterpreterControl::Return(Value::Number(3.0f64.to_bits())))
    );
}

#[test]
fn test_unknown_function() {
    let program = parse_program("func main() -> u8 { foo(); }");
    let mut interpreter = resolved_interpreter(&program);
    let result = interpreter.run(&program);
    assert_eq!(
        result,
        Err(InterpreterControl::RuntimeError(
            "Unknown function: foo".to_string()
        ))
    );
}

#[test]
fn test_undefined_variable() {
    let result = Interpreter::new().interpret_expression(&parse_expr("x"));
    assert_eq!(
        result,
        Err(InterpreterControl::RuntimeError(
            "Undefined variable: x".to_string()
        ))
    );
}

#[test]
fn test_break_escapes_to_top_level() {
    let program = parse_program("func main() -> u8 { break; }");
    let mut interpreter = resolved_interpreter(&program);
    assert_eq!(interpreter.run(&program), Err(InterpreterControl::Break));
}

#[test]
fn test_continue_escapes_to_top_level() {
    let program = parse_program("func main() -> u8 { continue; }");
    let mut interpreter = resolved_interpreter(&program);
    assert_eq!(interpreter.run(&program), Err(InterpreterControl::Continue));
}

#[test]
fn test_return_escapes_to_top_level() {
    let program = parse_program("func main() -> u8 { return 5; }");
    let mut interpreter = resolved_interpreter(&program);
    assert_eq!(
        interpreter.run(&program),
        Err(InterpreterControl::Return(Value::Number(5.0f64.to_bits())))
    );
}

#[test]
fn test_string_concatenation_and_comparisons() {
    let mut interpreter = Interpreter::new();
    assert_eq!(
        interpreter.interpret_expression(&parse_expr(r#""foo" + "bar""#)),
        Ok(Value::String("foobar".to_string()))
    );
    assert_eq!(
        interpreter.interpret_expression(&parse_expr("1 < 2")),
        Ok(Value::Boolean(true))
    );
    assert_eq!(
        interpreter.interpret_expression(&parse_expr("2 <= 1")),
        Ok(Value::Boolean(false))
    );
    assert_eq!(
        interpreter.interpret_expression(&parse_expr("2 > 1")),
        Ok(Value::Boolean(true))
    );
    assert_eq!(
        interpreter.interpret_expression(&parse_expr("1 >= 2")),
        Ok(Value::Boolean(false))
    );
    assert_eq!(
        interpreter.interpret_expression(&parse_expr("1.5 == 1.5")),
        Ok(Value::Boolean(true))
    );
    assert_eq!(
        interpreter.interpret_expression(&parse_expr("1.5 != 2.5")),
        Ok(Value::Boolean(true))
    );
    assert_eq!(
        interpreter.interpret_expression(&parse_expr("true && false")),
        Ok(Value::Boolean(false))
    );
    assert_eq!(
        interpreter.interpret_expression(&parse_expr("true || false")),
        Ok(Value::Boolean(true))
    );
    assert_eq!(
        interpreter.interpret_expression(&parse_expr("-2")),
        Ok(Value::Number((-2.0f64).to_bits()))
    );
    assert_eq!(
        interpreter.interpret_expression(&parse_expr("!true")),
        Ok(Value::Boolean(false))
    );
}

#[test]
fn test_unsupported_binary_operation_is_runtime_error() {
    let result = Interpreter::new().interpret_expression(&parse_expr(r#"1 + "a""#));
    match result {
        Err(InterpreterControl::RuntimeError(msg)) => {
            assert!(msg.starts_with("Unsupported binary operation: "));
        }
        other => panic!("expected a runtime error, got {:?}", other),
    }
}

#[test]
fn test_if_branches() {
    let mut interpreter = Interpreter::new();
    assert_eq!(
        interpreter.interpret_expression(&parse_expr("if (true) 1 else 2")),
        Ok(Value::Number(1.0f64.to_bits()))
    );
    assert_eq!(
        interpreter.interpret_expression(&parse_expr("if (false) 1 else 2")),
        Ok(Value::Number(2.0f64.to_bits()))
    );
    assert_eq!(
        interpreter.interpret_expression(&parse_expr("if (false) 1")),
        Ok(Value::Number(0.0f64.to_bits()))
    );
}

#[test]
fn test_shadowing_reads_nearer_binding() {
    let program = parse_program(
        "func main() -> u8 { let x: u8 = 1; { let x: u8 = 2; return x; } }",
    );
    let mut interpreter = resolved_interpreter(&program);
    assert_eq!(
        interpreter.run(&program),
        Err(InterpreterControl::Return(Value::Number(2.0f64.to_bits())))
    );
}

#[test]
fn test_print_appends_display_lines() {
    let program = parse_program(r#"func main() -> u8 { print("hello"); print(true); }"#);
    let mut interpreter = resolved_interpreter(&program);
    assert_eq!(interpreter.run(&program), Ok(()));
    assert_eq!(interpreter.output, vec!["hello".to_string(), "true".to_string()]);
}

#[test]
fn test_number_display_form() {
    // The decimal rendering comes from the software float implementation:
    // integral values print without a fraction, and a value that is not
    // exactly representable prints its stored digits.
    assert_eq!(Value::Number(3.0f64.to_bits()).display_string(), "3");
    assert_eq!(Value::Number(0.0f64.to_bits()).display_string(), "0");
    assert_eq!(Value::Number(0.5f64.to_bits()).display_string(), "0.5");
    assert_eq!(
        Value::Number(6.2f64.to_bits()).display_string(),
        "6.2000000000000002"
    );
    assert_eq!(
        Value::Vector(vec![Value::Number(1.0f64.to_bits()), Value::Boolean(true)])
            .display_string(),
        "[1, true, ]"
    );
    assert_eq!(Value::Char('x').display_string(), "x");
}

#[test]
fn test_iterating_a_non_sequence_fails() {
    let program = parse_program("func main() -> u8 { loop (let e: 5) { } }");
    let mut interpreter = resolved_interpreter(&program);
    match interpreter.run(&program) {
        Err(InterpreterControl::RuntimeError(msg)) => {
            assert!(msg.starts_with("Cannot iterate over: "));
        }
        other => panic!("expected a runtime error, got {:?}", other),
    }
}

#[test]
fn test_assignment_stores_and_yields_value() {
    let program = parse_program("func main() -> u8 { let x: u8 = 1; x = 5; return x; }");
    let mut interpreter = resolved_interpreter(&program);
    assert_eq!(
        interpreter.run(&program),
        Err(InterpreterControl::Return(Value::Number(5.0f64.to_bits())))
    );
}

#[test]
fn test_assignment_to_undefined_variable_fails() {
    let program = parse_program("func main() -> u8 { y = 5; }");
    let mut interpreter = resolved_interpreter(&program);
    assert_eq!(
        interpreter.run(&program),
        Err(InterpreterControl::RuntimeError(
            "Undefined variable: y".to_string()
        ))
    );
}
