use minilang::parser::ast::Type;
use minilang::parser::ast_printer::ASTPrinter;
use minilang::parser::Parser;
use minilang::tokenizer::Tokenizer;

#[test]
fn test_print_type() {
    let printer = ASTPrinter::new();
    assert_eq!(printer.print_type(&Type::U8), "U8");
    assert_eq!(printer.print_type(&Type::F64), "F64");
    assert_eq!(printer.print_type(&Type::Boolean), "Boolean");
    assert_eq!(printer.print_type(&Type::Nil), "Nil");
    assert_eq!(
        printer.print_type(&Type::Array(Box::new(Type::I32))),
        "Array<I32>"
    );
    assert_eq!(
        printer.print_type(&Type::Identifier {
            name: "Foo".to_string(),
            generics: vec![Type::U8, Type::Boolean]
        }),
        "Foo<U8, Boolean>"
    );
}

#[test]
fn test_print_program_renders_every_declaration() {
    let input = "import hello.world; func add(a: u8, b: u8) -> u8 { return a + b; }";
    let mut tokenizer = Tokenizer::new(input.to_string());
    let tokens = tokenizer.tokenize().unwrap();
    let mut parser = Parser::new(tokens);
    let program = parser.parse_program().expect("program should parse");
    let mut printer = ASTPrinter::new();
    let rendered = printer.print_program(&program);
    // the renderer bolds the label before each colon, so match around it
    assert!(rendered.contains("Import"));
    assert!(rendered.contains(" hello.world"));
    assert!(rendered.contains("Function"));
    assert!(rendered.contains(" add"));
    assert!(rendered.contains("Return Type"));
    assert!(rendered.contains(" U8"));
    assert!(rendered.contains("Binary Operation"));
    assert!(rendered.contains(" +"));
}
