use minilang::interpreter::resolver::Resolver;
use minilang::visitor::Visitor;
use minilang::parser::Parser;
use minilang::parser::ast::Program;
use minilang::tokenizer::Tokenizer;

fn parse_program(input: &str) -> Program {
    let mut tokenizer = Tokenizer::new(input.to_string());
    let tokens = tokenizer.tokenize().unwrap();
    let mut parser = Parser::new(tokens);
    parser.parse_program().expect("program should parse")
}

#[test]
fn test_self_read_in_initializer_fails() {
    let program = parse_program("func main() -> u8 { let x: u8 = x; }");
    let mut resolver = Resolver::new();
    let result = resolver.resolve_program(&program);
    assert_eq!(
        result,
        Err("Error: Tried to read x in its own declaration.".to_string())
    );
}

#[test]
fn test_shadowed_read_resolves_to_nearer_scope() {
    let program = parse_program(
        "func main() -> u8 { let x: u8 = 1; { let x: u8 = 2; x; } }",
    );
    let mut resolver = Resolver::new();
    resolver.resolve_program(&program).expect("resolution should succeed");
    // The single recorded use is the inner read of `x`, at distance zero
    // from its (shadowing) declaration.
    assert_eq!(resolver.resolved.len(), 1);
    assert_eq!(resolver.resolved[0].1, 0);
}

#[test]
fn test_outer_read_resolves_across_block() {
    let program = parse_program(
        "func main() -> u8 { let x: u8 = 1; { x; } }",
    );
    let mut resolver = Resolver::new();
    resolver.resolve_program(&program).expect("resolution should succeed");
    assert_eq!(resolver.resolved.len(), 1);
    assert_eq!(resolver.resolved[0].1, 1);
}

#[test]
fn test_unknown_name_records_nothing() {
    let program = parse_program("func main() -> u8 { y; }");
    let mut resolver = Resolver::new();
    resolver.resolve_program(&program).expect("resolution should succeed");
    assert_eq!(resolver.resolved.len(), 0);
}

#[test]
fn test_iterator_binding_not_visible_in_iterable() {
    // The loop variable is declared before its iterable resolves, so the
    // iterable reading it is a self-read error.
    let program = parse_program("func main() -> u8 { loop (let e: e) { } }");
    let mut resolver = Resolver::new();
    let result = resolver.resolve_program(&program);
    assert_eq!(
        result,
        Err("Error: Tried to read e in its own declaration.".to_string())
    );
}

#[test]
fn test_visitor_runs_resolution() {
    let program = parse_program("func main() -> u8 { let x: u8 = x; }");
    let mut resolver = Resolver::new();
    let result = resolver.visit_program(&program);
    assert_eq!(
        result,
        Err("Error: Tried to read x in its own declaration.".to_string())
    );
}
