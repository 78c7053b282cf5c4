//! Lexical analysis: turns source text into a sequence of [`Token`]s.
//!
//! The whole input is consumed eagerly; tokenization either returns the full
//! token list or the first fatal error.  [`spec_lex`] is the mathematical
//! definition of the token stream of a text, and `Tokenizer::tokenize` is
//! proved to return exactly that.

use vstd::prelude::*;
use vstd::string::StringExecFns;
use crate::numbers::{bits_of_decimal, decimal_of_bits, is_decimal_numeral, num_from_decimal, num_display};
use crate::textops::{
    char_is_alphabetic, char_is_alphanumeric, char_is_numeric, char_is_whitespace,
    is_alphabetic_char, is_alphanumeric_char, is_numeric_char, is_whitespace_char, push_char,
    spec_decimal_digits, string_chars, u64_decimal,
};

verus! {

/// A classified lexical unit.  `FloatLiteral` carries the bit pattern of the
/// IEEE binary64 value of the numeral (see [`crate::numbers`]).
#[derive(Debug, Clone)]
pub enum TokenType {
    ImportKeyword,
    FunctionKeyword,
    StructKeyword,
    TypeKeyword,
    NewKeyword,
    ReturnKeyword,
    IfKeyword,
    ElseKeyword,
    LoopKeyword,
    ConstKeyword,
    LetKeyword,
    BreakKeyword,
    ContinueKeyword,
    TrueValue,
    FalseValue,
    StringLiteral(String),
    IntegerLiteral(i64),
    FloatLiteral(u64),
    CharLiteral(char),
    Identifier(String),
    AddOperator,
    SubtractOperator,
    MultiplyOperator,
    DivideOperator,
    ModuloOperator,
    AssignmentOperator,
    AndOperator,
    OrOperator,
    NotOperator,
    Semicolon,
    Comma,
    Dot,
    Colon,
    Arrow,
    Pipeline,
    EqualOperator,
    NotEqualOperator,
    GreaterThanEqualOperator,
    LessThanEqualOperator,
    OpenParenthesis,
    CloseParenthesis,
    OpenCurlyBracket,
    CloseCurlyBracket,
    OpenSquareBracket,
    CloseSquareBracket,
    OpenAngleBracket,
    CloseAngleBracket,
}

/// The mathematical content of a [`TokenType`]: text payloads as character
/// sequences.
pub enum TokenTypeView {
    ImportKeyword,
    FunctionKeyword,
    StructKeyword,
    TypeKeyword,
    NewKeyword,
    ReturnKeyword,
    IfKeyword,
    ElseKeyword,
    LoopKeyword,
    ConstKeyword,
    LetKeyword,
    BreakKeyword,
    ContinueKeyword,
    TrueValue,
    FalseValue,
    StringLiteral(Seq<char>),
    IntegerLiteral(i64),
    FloatLiteral(u64),
    CharLiteral(char),
    Identifier(Seq<char>),
    AddOperator,
    SubtractOperator,
    MultiplyOperator,
    DivideOperator,
    ModuloOperator,
    AssignmentOperator,
    AndOperator,
    OrOperator,
    NotOperator,
    Semicolon,
    Comma,
    Dot,
    Colon,
    Arrow,
    Pipeline,
    EqualOperator,
    NotEqualOperator,
    GreaterThanEqualOperator,
    LessThanEqualOperator,
    OpenParenthesis,
    CloseParenthesis,
    OpenCurlyBracket,
    CloseCurlyBracket,
    OpenSquareBracket,
    CloseSquareBracket,
    OpenAngleBracket,
    CloseAngleBracket,
}

impl View for TokenType {
    type V = TokenTypeView;

    open spec fn view(&self) -> TokenTypeView {
        match self {
            TokenType::ImportKeyword => TokenTypeView::ImportKeyword,
            TokenType::FunctionKeyword => TokenTypeView::FunctionKeyword,
            TokenType::StructKeyword => TokenTypeView::StructKeyword,
            TokenType::TypeKeyword => TokenTypeView::TypeKeyword,
            TokenType::NewKeyword => TokenTypeView::NewKeyword,
            TokenType::ReturnKeyword => TokenTypeView::ReturnKeyword,
            TokenType::IfKeyword => TokenTypeView::IfKeyword,
            TokenType::ElseKeyword => TokenTypeView::ElseKeyword,
            TokenType::LoopKeyword => TokenTypeView::LoopKeyword,
            TokenType::ConstKeyword => TokenTypeView::ConstKeyword,
            TokenType::LetKeyword => TokenTypeView::LetKeyword,
            TokenType::BreakKeyword => TokenTypeView::BreakKeyword,
            TokenType::ContinueKeyword => TokenTypeView::ContinueKeyword,
            TokenType::TrueValue => TokenTypeView::TrueValue,
            TokenType::FalseValue => TokenTypeView::FalseValue,
            TokenType::StringLiteral(s) => TokenTypeView::StringLiteral(s@),
            TokenType::IntegerLiteral(i) => TokenTypeView::IntegerLiteral(*i),
            TokenType::FloatLiteral(b) => TokenTypeView::FloatLiteral(*b),
            TokenType::CharLiteral(c) => TokenTypeView::CharLiteral(*c),
            TokenType::Identifier(s) => TokenTypeView::Identifier(s@),
            TokenType::AddOperator => TokenTypeView::AddOperator,
            TokenType::SubtractOperator => TokenTypeView::SubtractOperator,
            TokenType::MultiplyOperator => TokenTypeView::MultiplyOperator,
            TokenType::DivideOperator => TokenTypeView::DivideOperator,
            TokenType::ModuloOperator => TokenTypeView::ModuloOperator,
            TokenType::AssignmentOperator => TokenTypeView::AssignmentOperator,
            TokenType::AndOperator => TokenTypeView::AndOperator,
            TokenType::OrOperator => TokenTypeView::OrOperator,
            TokenType::NotOperator => TokenTypeView::NotOperator,
            TokenType::Semicolon => TokenTypeView::Semicolon,
            TokenType::Comma => TokenTypeView::Comma,
            TokenType::Dot => TokenTypeView::Dot,
            TokenType::Colon => TokenTypeView::Colon,
            TokenType::Arrow => TokenTypeView::Arrow,
            TokenType::Pipeline => TokenTypeView::Pipeline,
            TokenType::EqualOperator => TokenTypeView::EqualOperator,
            TokenType::NotEqualOperator => TokenTypeView::NotEqualOperator,
            TokenType::GreaterThanEqualOperator => TokenTypeView::GreaterThanEqualOperator,
            TokenType::LessThanEqualOperator => TokenTypeView::LessThanEqualOperator,
            TokenType::OpenParenthesis => TokenTypeView::OpenParenthesis,
            TokenType::CloseParenthesis => TokenTypeView::CloseParenthesis,
            TokenType::OpenCurlyBracket => TokenTypeView::OpenCurlyBracket,
            TokenType::CloseCurlyBracket => TokenTypeView::CloseCurlyBracket,
            TokenType::OpenSquareBracket => TokenTypeView::OpenSquareBracket,
            TokenType::CloseSquareBracket => TokenTypeView::CloseSquareBracket,
            TokenType::OpenAngleBracket => TokenTypeView::OpenAngleBracket,
            TokenType::CloseAngleBracket => TokenTypeView::CloseAngleBracket,
        }
    }
}

impl PartialEq for TokenType {
    #[verifier::rlimit(50)]
    fn eq(&self, other: &TokenType) -> (r: bool) {
        match (self, other) {
            (TokenType::ImportKeyword, TokenType::ImportKeyword) => true,
            (TokenType::FunctionKeyword, TokenType::FunctionKeyword) => true,
            (TokenType::StructKeyword, TokenType::StructKeyword) => true,
            (TokenType::TypeKeyword, TokenType::TypeKeyword) => true,
            (TokenType::NewKeyword, TokenType::NewKeyword) => true,
            (TokenType::ReturnKeyword, TokenType::ReturnKeyword) => true,
            (TokenType::IfKeyword, TokenType::IfKeyword) => true,
            (TokenType::ElseKeyword, TokenType::ElseKeyword) => true,
            (TokenType::LoopKeyword, TokenType::LoopKeyword) => true,
            (TokenType::ConstKeyword, TokenType::ConstKeyword) => true,
            (TokenType::LetKeyword, TokenType::LetKeyword) => true,
            (TokenType::BreakKeyword, TokenType::BreakKeyword) => true,
            (TokenType::ContinueKeyword, TokenType::ContinueKeyword) => true,
            (TokenType::TrueValue, TokenType::TrueValue) => true,
            (TokenType::FalseValue, TokenType::FalseValue) => true,
            (TokenType::StringLiteral(a), TokenType::StringLiteral(b)) => a.eq(b),
            (TokenType::IntegerLiteral(a), TokenType::IntegerLiteral(b)) => *a == *b,
            (TokenType::FloatLiteral(a), TokenType::FloatLiteral(b)) => *a == *b,
            (TokenType::CharLiteral(a), TokenType::CharLiteral(b)) => *a == *b,
            (TokenType::Identifier(a), TokenType::Identifier(b)) => a.eq(b),
            (TokenType::AddOperator, TokenType::AddOperator) => true,
            (TokenType::SubtractOperator, TokenType::SubtractOperator) => true,
            (TokenType::MultiplyOperator, TokenType::MultiplyOperator) => true,
            (TokenType::DivideOperator, TokenType::DivideOperator) => true,
            (TokenType::ModuloOperator, TokenType::ModuloOperator) => true,
            (TokenType::AssignmentOperator, TokenType::AssignmentOperator) => true,
            (TokenType::AndOperator, TokenType::AndOperator) => true,
            (TokenType::OrOperator, TokenType::OrOperator) => true,
            (TokenType::NotOperator, TokenType::NotOperator) => true,
            (TokenType::Semicolon, TokenType::Semicolon) => true,
            (TokenType::Comma, TokenType::Comma) => true,
            (TokenType::Dot, TokenType::Dot) => true,
            (TokenType::Colon, TokenType::Colon) => true,
            (TokenType::Arrow, TokenType::Arrow) => true,
            (TokenType::Pipeline, TokenType::Pipeline) => true,
            (TokenType::EqualOperator, TokenType::EqualOperator) => true,
            (TokenType::NotEqualOperator, TokenType::NotEqualOperator) => true,
            (TokenType::GreaterThanEqualOperator, TokenType::GreaterThanEqualOperator) => true,
            (TokenType::LessThanEqualOperator, TokenType::LessThanEqualOperator) => true,
            (TokenType::OpenParenthesis, TokenType::OpenParenthesis) => true,
            (TokenType::CloseParenthesis, TokenType::CloseParenthesis) => true,
            (TokenType::OpenCurlyBracket, TokenType::OpenCurlyBracket) => true,
            (TokenType::CloseCurlyBracket, TokenType::CloseCurlyBracket) => true,
            (TokenType::OpenSquareBracket, TokenType::OpenSquareBracket) => true,
            (TokenType::CloseSquareBracket, TokenType::CloseSquareBracket) => true,
            (TokenType::OpenAngleBracket, TokenType::OpenAngleBracket) => true,
            (TokenType::CloseAngleBracket, TokenType::CloseAngleBracket) => true,
            _ => false,
        }
    }
}

impl vstd::std_specs::cmp::PartialEqSpecImpl for TokenType {
    open spec fn obeys_eq_spec() -> bool {
        true
    }

    open spec fn eq_spec(&self, other: &TokenType) -> bool {
        self@ == other@
    }
}

/// A token together with the 1-based source position where it started.
#[derive(Debug, Clone)]
pub struct Token {
    pub token_type: TokenType,
    pub line: usize,
    pub column: usize,
}

/// The mathematical content of a [`Token`].
pub struct TokenView {
    pub token_type: TokenTypeView,
    pub line: int,
    pub column: int,
}

impl View for Token {
    type V = TokenView;

    open spec fn view(&self) -> TokenView {
        TokenView { token_type: self.token_type@, line: self.line as int, column: self.column as int }
    }
}

impl DeepView for Token {
    type V = TokenView;

    open spec fn deep_view(&self) -> TokenView {
        self@
    }
}

/// The keyword whose spelling is `s`, if any.
pub open spec fn spec_keyword(s: Seq<char>) -> Option<TokenTypeView> {
    if s == "import"@ { Some(TokenTypeView::ImportKeyword) }
    else if s == "func"@ { Some(TokenTypeView::FunctionKeyword) }
    else if s == "struct"@ { Some(TokenTypeView::StructKeyword) }
    else if s == "type"@ { Some(TokenTypeView::TypeKeyword) }
    else if s == "new"@ { Some(TokenTypeView::NewKeyword) }
    else if s == "return"@ { Some(TokenTypeView::ReturnKeyword) }
    else if s == "if"@ { Some(TokenTypeView::IfKeyword) }
    else if s == "else"@ { Some(TokenTypeView::ElseKeyword) }
    else if s == "loop"@ { Some(TokenTypeView::LoopKeyword) }
    else if s == "break"@ { Some(TokenTypeView::BreakKeyword) }
    else if s == "continue"@ { Some(TokenTypeView::ContinueKeyword) }
    else if s == "true"@ { Some(TokenTypeView::TrueValue) }
    else if s == "false"@ { Some(TokenTypeView::FalseValue) }
    else if s == "const"@ { Some(TokenTypeView::ConstKeyword) }
    else if s == "let"@ { Some(TokenTypeView::LetKeyword) }
    else { None }
}

/// The token for the two-character symbol `ab`, if any.
pub open spec fn spec_two_char_symbol(a: char, b: char) -> Option<TokenTypeView> {
    if a == '>' && b == '=' { Some(TokenTypeView::GreaterThanEqualOperator) }
    else if a == '<' && b == '=' { Some(TokenTypeView::LessThanEqualOperator) }
    else if a == '=' && b == '=' { Some(TokenTypeView::EqualOperator) }
    else if a == '!' && b == '=' { Some(TokenTypeView::NotEqualOperator) }
    else if a == '&' && b == '&' { Some(TokenTypeView::AndOperator) }
    else if a == '|' && b == '|' { Some(TokenTypeView::OrOperator) }
    else if a == '-' && b == '>' { Some(TokenTypeView::Arrow) }
    else if a == '|' && b == '>' { Some(TokenTypeView::Pipeline) }
    else { None }
}

/// The token for the one-character symbol `c`, if any.
pub open spec fn spec_one_char_symbol(c: char) -> Option<TokenTypeView> {
    if c == '+' { Some(TokenTypeView::AddOperator) }
    else if c == '-' { Some(TokenTypeView::SubtractOperator) }
    else if c == '*' { Some(TokenTypeView::MultiplyOperator) }
    else if c == '/' { Some(TokenTypeView::DivideOperator) }
    else if c == '%' { Some(TokenTypeView::ModuloOperator) }
    else if c == '=' { Some(TokenTypeView::AssignmentOperator) }
    else if c == '!' { Some(TokenTypeView::NotOperator) }
    else if c == ';' { Some(TokenTypeView::Semicolon) }
    else if c == ',' { Some(TokenTypeView::Comma) }
    else if c == '.' { Some(TokenTypeView::Dot) }
    else if c == ':' { Some(TokenTypeView::Colon) }
    else if c == '(' { Some(TokenTypeView::OpenParenthesis) }
    else if c == ')' { Some(TokenTypeView::CloseParenthesis) }
    else if c == '{' { Some(TokenTypeView::OpenCurlyBracket) }
    else if c == '}' { Some(TokenTypeView::CloseCurlyBracket) }
    else if c == '[' { Some(TokenTypeView::OpenSquareBracket) }
    else if c == ']' { Some(TokenTypeView::CloseSquareBracket) }
    else if c == '<' { Some(TokenTypeView::OpenAngleBracket) }
    else if c == '>' { Some(TokenTypeView::CloseAngleBracket) }
    else { None }
}

/// The view of an optional token type.
pub open spec fn spec_opt_token_view(o: Option<TokenType>) -> Option<TokenTypeView> {
    match o {
        Some(t) => Some(t@),
        None => None,
    }
}

/// The keyword token for the spelling `s`, if any.
fn keyword_token(s: &String) -> (r: Option<TokenType>)
    ensures
        spec_opt_token_view(r) == spec_keyword(s@),
{
    if s.eq(&String::from_str("import")) { Some(TokenType::ImportKeyword) }
    else if s.eq(&String::from_str("func")) { Some(TokenType::FunctionKeyword) }
    else if s.eq(&String::from_str("struct")) { Some(TokenType::StructKeyword) }
    else if s.eq(&String::from_str("type")) { Some(TokenType::TypeKeyword) }
    else if s.eq(&String::from_str("new")) { Some(TokenType::NewKeyword) }
    else if s.eq(&String::from_str("return")) { Some(TokenType::ReturnKeyword) }
    else if s.eq(&String::from_str("if")) { Some(TokenType::IfKeyword) }
    else if s.eq(&String::from_str("else")) { Some(TokenType::ElseKeyword) }
    else if s.eq(&String::from_str("loop")) { Some(TokenType::LoopKeyword) }
    else if s.eq(&String::from_str("break")) { Some(TokenType::BreakKeyword) }
    else if s.eq(&String::from_str("continue")) { Some(TokenType::ContinueKeyword) }
    else if s.eq(&String::from_str("true")) { Some(TokenType::TrueValue) }
    else if s.eq(&String::from_str("false")) { Some(TokenType::FalseValue) }
    else if s.eq(&String::from_str("const")) { Some(TokenType::ConstKeyword) }
    else if s.eq(&String::from_str("let")) { Some(TokenType::LetKeyword) }
    else { None }
}

/// The token for the two-character symbol `ab`, if any.
fn two_char_symbol_token(a: char, b: char) -> (r: Option<TokenType>)
    ensures
        spec_opt_token_view(r) == spec_two_char_symbol(a, b),
{
    if a == '>' && b == '=' { Some(TokenType::GreaterThanEqualOperator) }
    else if a == '<' && b == '=' { Some(TokenType::LessThanEqualOperator) }
    else if a == '=' && b == '=' { Some(TokenType::EqualOperator) }
    else if a == '!' && b == '=' { Some(TokenType::NotEqualOperator) }
    else if a == '&' && b == '&' { Some(TokenType::AndOperator) }
    else if a == '|' && b == '|' { Some(TokenType::OrOperator) }
    else if a == '-' && b == '>' { Some(TokenType::Arrow) }
    else if a == '|' && b == '>' { Some(TokenType::Pipeline) }
    else { None }
}

/// The token for the one-character symbol `c`, if any.
fn one_char_symbol_token(c: char) -> (r: Option<TokenType>)
    ensures
        spec_opt_token_view(r) == spec_one_char_symbol(c),
{
    if c == '+' { Some(TokenType::AddOperator) }
    else if c == '-' { Some(TokenType::SubtractOperator) }
    else if c == '*' { Some(TokenType::MultiplyOperator) }
    else if c == '/' { Some(TokenType::DivideOperator) }
    else if c == '%' { Some(TokenType::ModuloOperator) }
    else if c == '=' { Some(TokenType::AssignmentOperator) }
    else if c == '!' { Some(TokenType::NotOperator) }
    else if c == ';' { Some(TokenType::Semicolon) }
    else if c == ',' { Some(TokenType::Comma) }
    else if c == '.' { Some(TokenType::Dot) }
    else if c == ':' { Some(TokenType::Colon) }
    else if c == '(' { Some(TokenType::OpenParenthesis) }
    else if c == ')' { Some(TokenType::CloseParenthesis) }
    else if c == '{' { Some(TokenType::OpenCurlyBracket) }
    else if c == '}' { Some(TokenType::CloseCurlyBracket) }
    else if c == '[' { Some(TokenType::OpenSquareBracket) }
    else if c == ']' { Some(TokenType::CloseSquareBracket) }
    else if c == '<' { Some(TokenType::OpenAngleBracket) }
    else if c == '>' { Some(TokenType::CloseAngleBracket) }
    else { None }
}

/// The source spelling that [`TokenType::reverse_format`] reconstructs for a
/// token.
pub open spec fn spec_reverse_format(t: TokenTypeView) -> Seq<char> {
    match t {
        TokenTypeView::ImportKeyword => "import"@,
        TokenTypeView::FunctionKeyword => "func"@,
        TokenTypeView::StructKeyword => "struct"@,
        TokenTypeView::TypeKeyword => "type"@,
        TokenTypeView::NewKeyword => "new"@,
        TokenTypeView::ReturnKeyword => "return"@,
        TokenTypeView::IfKeyword => "if"@,
        TokenTypeView::ElseKeyword => "else"@,
        TokenTypeView::LoopKeyword => "loop"@,
        TokenTypeView::ConstKeyword => "const"@,
        TokenTypeView::LetKeyword => "let"@,
        TokenTypeView::BreakKeyword => "break"@,
        TokenTypeView::ContinueKeyword => "continue"@,
        TokenTypeView::TrueValue => "true"@,
        TokenTypeView::FalseValue => "false"@,
        TokenTypeView::StringLiteral(s) => seq!['"'] + s + seq!['"'],
        TokenTypeView::IntegerLiteral(i) => spec_i64_decimal(i),
        TokenTypeView::FloatLiteral(b) => decimal_of_bits(b),
        TokenTypeView::CharLiteral(c) => seq!['\''] + seq![c] + seq!['\''],
        TokenTypeView::Identifier(s) => s,
        TokenTypeView::AddOperator => "+"@,
        TokenTypeView::SubtractOperator => "-"@,
        TokenTypeView::MultiplyOperator => "*"@,
        TokenTypeView::DivideOperator => "/"@,
        TokenTypeView::ModuloOperator => "%"@,
        TokenTypeView::AssignmentOperator => "="@,
        TokenTypeView::AndOperator => "&&"@,
        TokenTypeView::OrOperator => "||"@,
        TokenTypeView::NotOperator => "!"@,
        TokenTypeView::Semicolon => ";"@,
        TokenTypeView::Comma => ","@,
        TokenTypeView::Dot => "."@,
        TokenTypeView::Colon => ":"@,
        TokenTypeView::Arrow => "->"@,
        TokenTypeView::Pipeline => "|>"@,
        TokenTypeView::EqualOperator => "=="@,
        TokenTypeView::NotEqualOperator => "!="@,
        TokenTypeView::GreaterThanEqualOperator => ">="@,
        TokenTypeView::LessThanEqualOperator => "<="@,
        TokenTypeView::OpenParenthesis => "("@,
        TokenTypeView::CloseParenthesis => ")"@,
        TokenTypeView::OpenCurlyBracket => "{"@,
        TokenTypeView::CloseCurlyBracket => "}"@,
        TokenTypeView::OpenSquareBracket => "["@,
        TokenTypeView::CloseSquareBracket => "]"@,
        TokenTypeView::OpenAngleBracket => "<"@,
        TokenTypeView::CloseAngleBracket => ">"@,
    }
}

/// Decimal rendering of a signed integer.
pub open spec fn spec_i64_decimal(i: i64) -> Seq<char> {
    if i < 0 {
        seq!['-'] + spec_decimal_digits((-(i as int)) as nat)
    } else {
        spec_decimal_digits(i as nat)
    }
}

impl TokenType {
    /// Reconstructs a source spelling for this token.
    pub fn reverse_format(&self) -> (r: String)
        ensures
            r@ == spec_reverse_format(self@),
    {
        match self {
            TokenType::ImportKeyword => String::from_str("import"),
            TokenType::FunctionKeyword => String::from_str("func"),
            TokenType::StructKeyword => String::from_str("struct"),
            TokenType::TypeKeyword => String::from_str("type"),
            TokenType::NewKeyword => String::from_str("new"),
            TokenType::ReturnKeyword => String::from_str("return"),
            TokenType::IfKeyword => String::from_str("if"),
            TokenType::ElseKeyword => String::from_str("else"),
            TokenType::LoopKeyword => String::from_str("loop"),
            TokenType::ConstKeyword => String::from_str("const"),
            TokenType::LetKeyword => String::from_str("let"),
            TokenType::BreakKeyword => String::from_str("break"),
            TokenType::ContinueKeyword => String::from_str("continue"),
            TokenType::TrueValue => String::from_str("true"),
            TokenType::FalseValue => String::from_str("false"),
            TokenType::StringLiteral(s) => {
                let mut out = String::from_str("\"");
                out.append(s.as_str());
                push_char(&mut out, '"');
                proof {
                    reveal_strlit("\"");
                    assert(out@ =~= spec_reverse_format(self@));
                }
                out
            },
            TokenType::IntegerLiteral(i) => i64_decimal(*i),
            TokenType::FloatLiteral(b) => num_display(*b),
            TokenType::CharLiteral(c) => {
                let mut out = String::from_str("'");
                push_char(&mut out, *c);
                push_char(&mut out, '\'');
                proof {
                    reveal_strlit("'");
                    assert(out@ =~= spec_reverse_format(self@));
                }
                out
            },
            TokenType::Identifier(s) => s.clone(),
            TokenType::AddOperator => String::from_str("+"),
            TokenType::SubtractOperator => String::from_str("-"),
            TokenType::MultiplyOperator => String::from_str("*"),
            TokenType::DivideOperator => String::from_str("/"),
            TokenType::ModuloOperator => String::from_str("%"),
            TokenType::AssignmentOperator => String::from_str("="),
            TokenType::AndOperator => String::from_str("&&"),
            TokenType::OrOperator => String::from_str("||"),
            TokenType::NotOperator => String::from_str("!"),
            TokenType::Semicolon => String::from_str(";"),
            TokenType::Comma => String::from_str(","),
            TokenType::Dot => String::from_str("."),
            TokenType::Colon => String::from_str(":"),
            TokenType::Arrow => String::from_str("->"),
            TokenType::Pipeline => String::from_str("|>"),
            TokenType::EqualOperator => String::from_str("=="),
            TokenType::NotEqualOperator => String::from_str("!="),
            TokenType::GreaterThanEqualOperator => String::from_str(">="),
            TokenType::LessThanEqualOperator => String::from_str("<="),
            TokenType::OpenParenthesis => String::from_str("("),
            TokenType::CloseParenthesis => String::from_str(")"),
            TokenType::OpenCurlyBracket => String::from_str("{"),
            TokenType::CloseCurlyBracket => String::from_str("}"),
            TokenType::OpenSquareBracket => String::from_str("["),
            TokenType::CloseSquareBracket => String::from_str("]"),
            TokenType::OpenAngleBracket => String::from_str("<"),
            TokenType::CloseAngleBracket => String::from_str(">"),
        }
    }
}

/// Renders a signed integer in decimal.
fn i64_decimal(i: i64) -> (r: String)
    ensures
        r@ == spec_i64_decimal(i),
{
    if i < 0 {
        let m: u64 = (-(i as i128)) as u64;
        let mut out = String::from_str("-");
        let digits = u64_decimal(m);
        out.append(digits.as_str());
        proof {
            reveal_strlit("-");
            assert(m as nat == (-(i as int)) as nat);
            assert(out@ =~= spec_i64_decimal(i));
        }
        out
    } else {
        u64_decimal(i as u64)
    }
}

} // verus!

verus! {

// ------------------------------------------------------------------
// The mathematical lexer.
//
// `spec_lex` consumes the character sequence from a position and a 1-based
// line/column pair and yields either the token views of the rest of the
// input or the message of the first fatal error.  `Tokenizer::tokenize` is
// proved to agree with it exactly.
// ------------------------------------------------------------------

/// Position after consuming the single character `c` at `(line, col)`.
pub open spec fn spec_advance(line: int, col: int, c: char) -> (int, int) {
    if c == '\n' {
        (line + 1, 1)
    } else {
        (line, col + 1)
    }
}

/// Position after consuming the span `cs[i..j]` starting at `(line, col)`.
pub open spec fn spec_advance_span(line: int, col: int, cs: Seq<char>, i: int, j: int) -> (int, int)
    decreases j - i,
{
    if i < j {
        let p = spec_advance_span(line, col, cs, i, j - 1);
        spec_advance(p.0, p.1, cs[j - 1])
    } else {
        (line, col)
    }
}

/// First position at or after `j` that does not continue an identifier.
pub open spec fn spec_ident_end(cs: Seq<char>, j: int) -> int
    decreases cs.len() - j,
{
    if j < cs.len() && (char_is_alphanumeric(cs[j]) || cs[j] == '_') {
        spec_ident_end(cs, j + 1)
    } else {
        j
    }
}

/// First position at or after `j` that does not continue a number.
pub open spec fn spec_number_end(cs: Seq<char>, j: int) -> int
    decreases cs.len() - j,
{
    if j < cs.len() && (char_is_numeric(cs[j]) || cs[j] == '.') {
        spec_number_end(cs, j + 1)
    } else {
        j
    }
}

/// First position at or after `j` that does not continue an alphabetic
/// suffix.
pub open spec fn spec_suffix_end(cs: Seq<char>, j: int) -> int
    decreases cs.len() - j,
{
    if j < cs.len() && char_is_alphabetic(cs[j]) {
        spec_suffix_end(cs, j + 1)
    } else {
        j
    }
}

/// First position at or after `j` that does not continue a digit run.
pub open spec fn spec_digits_end(cs: Seq<char>, j: int) -> int
    decreases cs.len() - j,
{
    if j < cs.len() && char_is_numeric(cs[j]) {
        spec_digits_end(cs, j + 1)
    } else {
        j
    }
}

/// Position of the newline ending a line comment, or the end of input.
pub open spec fn spec_line_comment_end(cs: Seq<char>, j: int) -> int
    decreases cs.len() - j,
{
    if j < cs.len() && cs[j] != '\n' {
        spec_line_comment_end(cs, j + 1)
    } else {
        j
    }
}

/// Position just after the `*/` closing a block comment, or the end of
/// input.
pub open spec fn spec_block_comment_end(cs: Seq<char>, j: int) -> int
    decreases cs.len() - j,
{
    if j >= cs.len() {
        j
    } else if cs[j] == '*' {
        if j + 1 < cs.len() && cs[j + 1] == '/' {
            j + 2
        } else {
            spec_block_comment_end(cs, j + 1)
        }
    } else {
        spec_block_comment_end(cs, j + 1)
    }
}

/// The value of a string literal whose contents start at `j` (just after the
/// opening quote), and the position just after its closing quote (or the end
/// of input).  A backslash takes the next character verbatim.
pub open spec fn spec_scan_string(cs: Seq<char>, j: int) -> (Seq<char>, int)
    decreases cs.len() - j,
{
    if j >= cs.len() {
        (Seq::empty(), j)
    } else if cs[j] == '"' {
        (Seq::empty(), j + 1)
    } else if cs[j] == '\\' {
        if j + 1 < cs.len() {
            let r = spec_scan_string(cs, j + 2);
            (seq![cs[j + 1]] + r.0, r.1)
        } else {
            (Seq::empty(), j + 1)
        }
    } else {
        let r = spec_scan_string(cs, j + 1);
        (seq![cs[j]] + r.0, r.1)
    }
}

/// Whether `c` is an ASCII decimal digit.
pub open spec fn spec_is_ascii_digit(c: char) -> bool {
    '0' <= c <= '9'
}

/// Whether some character of `s` is a dot.
pub open spec fn spec_has_dot(s: Seq<char>) -> bool {
    exists|k: int| 0 <= k < s.len() && s[k] == '.'
}

/// Whether `s` consists of ASCII decimal digits only.
pub open spec fn spec_all_digits(s: Seq<char>) -> bool {
    forall|k: int| 0 <= k < s.len() ==> spec_is_ascii_digit(#[trigger] s[k])
}

/// The numeric value of a digit string.
pub open spec fn spec_digits_val(s: Seq<char>) -> nat
    decreases s.len(),
{
    if s.len() == 0 {
        0
    } else {
        (spec_digits_val(s.drop_last()) * 10 + (s.last() as int - '0' as int)) as nat
    }
}

/// Whether `s` is a digit string whose value fits in an `i64`.
pub open spec fn spec_is_i64_numeral(s: Seq<char>) -> bool {
    s.len() > 0 && spec_all_digits(s) && spec_digits_val(s) <= 0x7fff_ffff_ffff_ffff
}

/// One step of the lexer at a non-end position: the scanned token with the
/// position after it, a consumed stretch that yields no token, or a fatal
/// error.
pub enum ScanResult {
    Token(TokenView, int, int, int),
    Skip(int, int, int),
    Fail(Seq<char>),
}

/// Scans one construct at position `i` (with `i < cs.len()`), which starts
/// at source position `(line, col)`.
pub open spec fn spec_scan(cs: Seq<char>, i: int, line: int, col: int) -> ScanResult {
    let c = cs[i];
    if char_is_alphabetic(c) || c == '_' {
        let end = spec_ident_end(cs, i + 1);
        let text = cs.subrange(i, end);
        let p = spec_advance_span(line, col, cs, i, end);
        let kind = match spec_keyword(text) {
            Some(k) => k,
            None => TokenTypeView::Identifier(text),
        };
        ScanResult::Token(TokenView { token_type: kind, line: line, column: col }, end, p.0, p.1)
    } else if char_is_numeric(c) {
        let nend = spec_number_end(cs, i + 1);
        let send = spec_suffix_end(cs, nend);
        let number = cs.subrange(i, nend);
        if send > nend {
            ScanResult::Fail("Invalid number suffix: "@ + cs.subrange(nend, send))
        } else if spec_has_dot(number) {
            if is_decimal_numeral(number) {
                let p = spec_advance_span(line, col, cs, i, nend);
                ScanResult::Token(
                    TokenView {
                        token_type: TokenTypeView::FloatLiteral(bits_of_decimal(number)),
                        line: line,
                        column: col,
                    },
                    nend,
                    p.0,
                    p.1,
                )
            } else {
                ScanResult::Fail("Invalid float value: "@ + number)
            }
        } else {
            if spec_is_i64_numeral(number) {
                let p = spec_advance_span(line, col, cs, i, nend);
                ScanResult::Token(
                    TokenView {
                        token_type: TokenTypeView::IntegerLiteral(spec_digits_val(number) as i64),
                        line: line,
                        column: col,
                    },
                    nend,
                    p.0,
                    p.1,
                )
            } else {
                ScanResult::Fail("Invalid integer value: "@ + number)
            }
        }
    } else if c == '.' && i + 1 < cs.len() && char_is_numeric(cs[i + 1]) {
        let dend = spec_digits_end(cs, i + 1);
        let number = cs.subrange(i, dend);
        if is_decimal_numeral(number) {
            let p = spec_advance_span(line, col, cs, i, dend);
            ScanResult::Token(
                TokenView {
                    token_type: TokenTypeView::FloatLiteral(bits_of_decimal(number)),
                    line: line,
                    column: col,
                },
                dend,
                p.0,
                p.1,
            )
        } else {
            ScanResult::Fail("Invalid float value: "@ + number)
        }
    } else if c == '/' && i + 1 < cs.len() && cs[i + 1] == '/' {
        let end = spec_line_comment_end(cs, i + 2);
        let p = spec_advance_span(line, col, cs, i, end);
        ScanResult::Skip(end, p.0, p.1)
    } else if c == '/' && i + 1 < cs.len() && cs[i + 1] == '*' {
        let end = spec_block_comment_end(cs, i + 2);
        let p = spec_advance_span(line, col, cs, i, end);
        ScanResult::Skip(end, p.0, p.1)
    } else if c == '"' {
        let r = spec_scan_string(cs, i + 1);
        let p = spec_advance_span(line, col, cs, i, r.1);
        ScanResult::Token(
            TokenView { token_type: TokenTypeView::StringLiteral(r.0), line: line, column: col },
            r.1,
            p.0,
            p.1,
        )
    } else if c == '\'' {
        if i + 1 >= cs.len() {
            let p = spec_advance_span(line, col, cs, i, i + 1);
            ScanResult::Skip(i + 1, p.0, p.1)
        } else if cs[i + 1] == '\'' {
            ScanResult::Fail("Empty character literal"@)
        } else {
            let end = if i + 2 < cs.len() { i + 3 } else { i + 2 };
            let p = spec_advance_span(line, col, cs, i, end);
            ScanResult::Token(
                TokenView {
                    token_type: TokenTypeView::CharLiteral(cs[i + 1]),
                    line: line,
                    column: col,
                },
                end,
                p.0,
                p.1,
            )
        }
    } else {
        if i + 1 < cs.len() && spec_two_char_symbol(c, cs[i + 1]) is Some {
            let p = spec_advance_span(line, col, cs, i, i + 2);
            ScanResult::Token(
                TokenView {
                    token_type: spec_two_char_symbol(c, cs[i + 1]).unwrap(),
                    line: line,
                    column: col,
                },
                i + 2,
                p.0,
                p.1,
            )
        } else if spec_one_char_symbol(c) is Some {
            let p = spec_advance_span(line, col, cs, i, i + 1);
            ScanResult::Token(
                TokenView { token_type: spec_one_char_symbol(c).unwrap(), line: line, column: col },
                i + 1,
                p.0,
                p.1,
            )
        } else {
            ScanResult::Fail("Unexpected character: '"@ + seq![c] + "'"@)
        }
    }
}

/// Every end scanner stays within the input and moves forward.
pub proof fn lemma_ident_end_bounds(cs: Seq<char>, j: int)
    requires
        0 <= j <= cs.len(),
    ensures
        j <= spec_ident_end(cs, j) <= cs.len(),
    decreases cs.len() - j,
{
    if j < cs.len() && (char_is_alphanumeric(cs[j]) || cs[j] == '_') {
        lemma_ident_end_bounds(cs, j + 1);
    }
}

pub proof fn lemma_number_end_bounds(cs: Seq<char>, j: int)
    requires
        0 <= j <= cs.len(),
    ensures
        j <= spec_number_end(cs, j) <= cs.len(),
    decreases cs.len() - j,
{
    if j < cs.len() && (char_is_numeric(cs[j]) || cs[j] == '.') {
        lemma_number_end_bounds(cs, j + 1);
    }
}

pub proof fn lemma_suffix_end_bounds(cs: Seq<char>, j: int)
    requires
        0 <= j <= cs.len(),
    ensures
        j <= spec_suffix_end(cs, j) <= cs.len(),
    decreases cs.len() - j,
{
    if j < cs.len() && char_is_alphabetic(cs[j]) {
        lemma_suffix_end_bounds(cs, j + 1);
    }
}

pub proof fn lemma_digits_end_bounds(cs: Seq<char>, j: int)
    requires
        0 <= j <= cs.len(),
    ensures
        j <= spec_digits_end(cs, j) <= cs.len(),
    decreases cs.len() - j,
{
    if j < cs.len() && char_is_numeric(cs[j]) {
        lemma_digits_end_bounds(cs, j + 1);
    }
}

pub proof fn lemma_line_comment_end_bounds(cs: Seq<char>, j: int)
    requires
        0 <= j <= cs.len(),
    ensures
        j <= spec_line_comment_end(cs, j) <= cs.len(),
    decreases cs.len() - j,
{
    if j < cs.len() && cs[j] != '\n' {
        lemma_line_comment_end_bounds(cs, j + 1);
    }
}

pub proof fn lemma_block_comment_end_bounds(cs: Seq<char>, j: int)
    requires
        0 <= j <= cs.len(),
    ensures
        j <= spec_block_comment_end(cs, j) <= cs.len(),
    decreases cs.len() - j,
{
    if j < cs.len() {
        if cs[j] == '*' && j + 1 < cs.len() && cs[j + 1] == '/' {
        } else {
            lemma_block_comment_end_bounds(cs, j + 1);
        }
    }
}

pub proof fn lemma_scan_string_bounds(cs: Seq<char>, j: int)
    requires
        0 <= j <= cs.len(),
    ensures
        j <= spec_scan_string(cs, j).1 <= cs.len(),
    decreases cs.len() - j,
{
    if j < cs.len() {
        if cs[j] == '"' {
        } else if cs[j] == '\\' {
            if j + 1 < cs.len() {
                lemma_scan_string_bounds(cs, j + 2);
            }
        } else {
            lemma_scan_string_bounds(cs, j + 1);
        }
    }
}

/// A scan step consumes at least one character and stays within the input.
pub proof fn lemma_scan_bounds(cs: Seq<char>, i: int, line: int, col: int)
    requires
        0 <= i < cs.len(),
    ensures
        match spec_scan(cs, i, line, col) {
            ScanResult::Token(_, j, _, _) => i < j <= cs.len(),
            ScanResult::Skip(j, _, _) => i < j <= cs.len(),
            ScanResult::Fail(_) => true,
        },
{
    let c = cs[i];
    if char_is_alphabetic(c) || c == '_' {
        lemma_ident_end_bounds(cs, i + 1);
    } else if char_is_numeric(c) {
        lemma_number_end_bounds(cs, i + 1);
        lemma_suffix_end_bounds(cs, spec_number_end(cs, i + 1));
    } else if c == '.' && i + 1 < cs.len() && char_is_numeric(cs[i + 1]) {
        lemma_digits_end_bounds(cs, i + 1);
    } else if c == '/' && i + 1 < cs.len() && cs[i + 1] == '/' {
        lemma_line_comment_end_bounds(cs, i + 2);
    } else if c == '/' && i + 1 < cs.len() && cs[i + 1] == '*' {
        lemma_block_comment_end_bounds(cs, i + 2);
    } else if c == '"' {
        lemma_scan_string_bounds(cs, i + 1);
    }
}

/// The token views of the input from position `i` at `(line, col)` on, or
/// the first fatal error.
pub open spec fn spec_lex(cs: Seq<char>, i: int, line: int, col: int) -> Result<
    Seq<TokenView>,
    Seq<char>,
>
    decreases cs.len() - i, 0int
        via spec_lex_decreases
{
    if i < 0 || i >= cs.len() {
        Ok(Seq::empty())
    } else if char_is_whitespace(cs[i]) {
        let p = spec_advance(line, col, cs[i]);
        spec_lex(cs, i + 1, p.0, p.1)
    } else {
        match spec_scan(cs, i, line, col) {
            ScanResult::Token(t, j, l, c) => match spec_lex(cs, j, l, c) {
                Ok(ts) => Ok(seq![t] + ts),
                Err(e) => Err(e),
            },
            ScanResult::Skip(j, l, c) => spec_lex(cs, j, l, c),
            ScanResult::Fail(m) => Err(m),
        }
    }
}

#[via_fn]
proof fn spec_lex_decreases(cs: Seq<char>, i: int, line: int, col: int) {
    if 0 <= i < cs.len() && !char_is_whitespace(cs[i]) {
        lemma_scan_bounds(cs, i, line, col);
    }
}

/// Prepends already-scanned tokens to the outcome of the rest of the input.
pub open spec fn lex_combine(
    pre: Seq<TokenView>,
    rest: Result<Seq<TokenView>, Seq<char>>,
) -> Result<Seq<TokenView>, Seq<char>> {
    match rest {
        Ok(ts) => Ok(pre + ts),
        Err(e) => Err(e),
    }
}

} // verus!

verus! {

/// Extending a taken span by one character.
proof fn lemma_subrange_push(cs: Seq<char>, i: int, p: int)
    requires
        0 <= i <= p < cs.len(),
    ensures
        cs.subrange(i, p + 1) == cs.subrange(i, p).push(cs[p]),
{
    assert(cs.subrange(i, p + 1) =~= cs.subrange(i, p).push(cs[p]));
}

/// Splitting a consumed span after its first character.
proof fn lemma_advance_span_cons(l: int, c: int, cs: Seq<char>, i: int, k: int)
    requires
        i < k,
    ensures
        spec_advance_span(l, c, cs, i, k) == spec_advance_span(
            spec_advance(l, c, cs[i]).0,
            spec_advance(l, c, cs[i]).1,
            cs,
            i + 1,
            k,
        ),
    decreases k - i,
{
    let a = spec_advance(l, c, cs[i]);
    if i < k - 1 {
        lemma_advance_span_cons(l, c, cs, i, k - 1);
        assert(spec_advance_span(l, c, cs, i, k) == spec_advance(
            spec_advance_span(l, c, cs, i, k - 1).0,
            spec_advance_span(l, c, cs, i, k - 1).1,
            cs[k - 1],
        ));
        assert(spec_advance_span(a.0, a.1, cs, i + 1, k) == spec_advance(
            spec_advance_span(a.0, a.1, cs, i + 1, k - 1).0,
            spec_advance_span(a.0, a.1, cs, i + 1, k - 1).1,
            cs[k - 1],
        ));
    } else {
        assert(k == i + 1);
        assert(spec_advance_span(l, c, cs, i, i) == (l, c));
        assert(spec_advance_span(l, c, cs, i, k) == a);
        assert(spec_advance_span(a.0, a.1, cs, i + 1, k) == a);
    }
}

/// A digit string is worth at least any of its prefixes.
proof fn lemma_digits_val_take_le(s: Seq<char>, k: int)
    requires
        0 <= k <= s.len(),
        spec_all_digits(s),
    ensures
        spec_digits_val(s.take(k)) <= spec_digits_val(s),
    decreases s.len(),
{
    if k < s.len() {
        let d = s.drop_last();
        assert(spec_all_digits(d));
        assert(d.take(k) =~= s.take(k));
        lemma_digits_val_take_le(d, k);
        assert(spec_digits_val(s) == spec_digits_val(d) * 10 + (s.last() as int - '0' as int));
        assert(spec_digits_val(d) * 10 >= spec_digits_val(d));
    } else {
        assert(s.take(k) =~= s);
    }
}

/// The tokenizer: a cursor over the characters of one source text, with the
/// 1-based position of the cursor.
pub struct Tokenizer {
    pub characters: Vec<char>,
    pub pos: usize,
    pub current_line: usize,
    pub current_column: usize,
}

impl Tokenizer {
    /// The cursor sits inside the text and the position counters cannot
    /// overflow.
    pub open spec fn inv(self) -> bool {
        &&& self.pos <= self.characters@.len()
        &&& self.characters@.len() + 2 <= usize::MAX
        &&& 1 <= self.current_line
        &&& 1 <= self.current_column
        &&& self.current_line + self.current_column <= self.pos + 2
    }

    /// The text being tokenized.
    pub open spec fn text(self) -> Seq<char> {
        self.characters@
    }

    /// A tokenizer at the start of `input`.
    pub fn new(input: String) -> (t: Tokenizer)
        requires
            input@.len() + 2 <= usize::MAX,
        ensures
            t.inv(),
            t.text() == input@,
            t.pos == 0,
            t.current_line == 1,
            t.current_column == 1,
    {
        let characters = string_chars(input.as_str());
        Tokenizer { characters, pos: 0, current_line: 1, current_column: 1 }
    }

    /// Consumes one character, advancing the position counters.
    fn bump(&mut self) -> (c: char)
        requires
            old(self).inv(),
            old(self).pos < old(self).characters@.len(),
        ensures
            final(self).inv(),
            final(self).characters@ == old(self).characters@,
            final(self).pos == old(self).pos + 1,
            c == old(self).characters@[old(self).pos as int],
            ({
                let p = spec_advance(
                    old(self).current_line as int,
                    old(self).current_column as int,
                    c,
                );
                final(self).current_line == p.0 && final(self).current_column == p.1
            }),
    {
        let c = self.characters[self.pos];
        self.pos = self.pos + 1;
        self.current_column = self.current_column + 1;
        if c == '\n' {
            self.current_line = self.current_line + 1;
            self.current_column = 1;
        }
        c
    }

    /// Whether the cursor is on a character that continues an identifier.
    fn ident_continues(&self) -> (r: bool)
        requires
            self.inv(),
        ensures
            r == (self.pos < self.characters@.len() && (char_is_alphanumeric(
                self.characters@[self.pos as int],
            ) || self.characters@[self.pos as int] == '_')),
    {
        if self.pos >= self.characters.len() {
            false
        } else {
            let c = self.characters[self.pos];
            is_alphanumeric_char(c) || c == '_'
        }
    }

    /// Consumes the rest of an identifier, appending it to `out`.
    #[verifier::loop_isolation(false)]
    fn munch_ident(&mut self, out: &mut String)
        requires
            old(self).inv(),
        ensures
            final(self).inv(),
            final(self).characters@ == old(self).characters@,
            final(self).pos == spec_ident_end(old(self).characters@, old(self).pos as int),
            final(out)@ == old(out)@ + old(self).characters@.subrange(
                old(self).pos as int,
                final(self).pos as int,
            ),
            ({
                let p = spec_advance_span(
                    old(self).current_line as int,
                    old(self).current_column as int,
                    old(self).characters@,
                    old(self).pos as int,
                    final(self).pos as int,
                );
                final(self).current_line == p.0 && final(self).current_column == p.1
            }),
    {
        let ghost cs = old(self).characters@;
        let ghost i0 = old(self).pos as int;
        let ghost l0 = old(self).current_line as int;
        let ghost c0 = old(self).current_column as int;
        let ghost out0 = old(out)@;
        while self.ident_continues()
            invariant
                self.inv(),
                self.characters@ == cs,
                i0 <= self.pos as int,
                spec_ident_end(cs, i0) == spec_ident_end(cs, self.pos as int),
                out@ == out0 + cs.subrange(i0, self.pos as int),
                ({
                    let p = spec_advance_span(l0, c0, cs, i0, self.pos as int);
                    self.current_line == p.0 && self.current_column == p.1
                }),
            decreases cs.len() - self.pos,
        {
            let ghost pprev = self.pos as int;
            let c = self.bump();
            push_char(out, c);
            proof {
                lemma_subrange_push(cs, i0, pprev);
                assert(out@ =~= out0 + cs.subrange(i0, self.pos as int));
            }
        }
    }

    /// Whether the cursor is on a character that continues a number.
    fn number_continues(&self) -> (r: bool)
        requires
            self.inv(),
        ensures
            r == (self.pos < self.characters@.len() && (char_is_numeric(
                self.characters@[self.pos as int],
            ) || self.characters@[self.pos as int] == '.')),
    {
        if self.pos >= self.characters.len() {
            false
        } else {
            let c = self.characters[self.pos];
            is_numeric_char(c) || c == '.'
        }
    }

    /// Consumes the rest of a number, appending it to `out`.
    #[verifier::loop_isolation(false)]
    fn munch_number(&mut self, out: &mut String)
        requires
            old(self).inv(),
        ensures
            final(self).inv(),
            final(self).characters@ == old(self).characters@,
            final(self).pos == spec_number_end(old(self).characters@, old(self).pos as int),
            final(out)@ == old(out)@ + old(self).characters@.subrange(
                old(self).pos as int,
                final(self).pos as int,
            ),
            ({
                let p = spec_advance_span(
                    old(self).current_line as int,
                    old(self).current_column as int,
                    old(self).characters@,
                    old(self).pos as int,
                    final(self).pos as int,
                );
                final(self).current_line == p.0 && final(self).current_column == p.1
            }),
    {
        let ghost cs = old(self).characters@;
        let ghost i0 = old(self).pos as int;
        let ghost l0 = old(self).current_line as int;
        let ghost c0 = old(self).current_column as int;
        let ghost out0 = old(out)@;
        while self.number_continues()
            invariant
                self.inv(),
                self.characters@ == cs,
                i0 <= self.pos as int,
                spec_number_end(cs, i0) == spec_number_end(cs, self.pos as int),
                out@ == out0 + cs.subrange(i0, self.pos as int),
                ({
                    let p = spec_advance_span(l0, c0, cs, i0, self.pos as int);
                    self.current_line == p.0 && self.current_column == p.1
                }),
            decreases cs.len() - self.pos,
        {
            let ghost pprev = self.pos as int;
            let c = self.bump();
            push_char(out, c);
            proof {
                lemma_subrange_push(cs, i0, pprev);
                assert(out@ =~= out0 + cs.subrange(i0, self.pos as int));
            }
        }
    }

    /// Whether the cursor is on an alphabetic character.
    fn suffix_continues(&self) -> (r: bool)
        requires
            self.inv(),
        ensures
            r == (self.pos < self.characters@.len() && char_is_alphabetic(
                self.characters@[self.pos as int],
            )),
    {
        if self.pos >= self.characters.len() {
            false
        } else {
            is_alphabetic_char(self.characters[self.pos])
        }
    }

    /// Consumes an alphabetic suffix, appending it to `out`.
    #[verifier::loop_isolation(false)]
    fn munch_suffix(&mut self, out: &mut String)
        requires
            old(self).inv(),
        ensures
            final(self).inv(),
            final(self).characters@ == old(self).characters@,
            final(self).pos == spec_suffix_end(old(self).characters@, old(self).pos as int),
            final(out)@ == old(out)@ + old(self).characters@.subrange(
                old(self).pos as int,
                final(self).pos as int,
            ),
            ({
                let p = spec_advance_span(
                    old(self).current_line as int,
                    old(self).current_column as int,
                    old(self).characters@,
                    old(self).pos as int,
                    final(self).pos as int,
                );
                final(self).current_line == p.0 && final(self).current_column == p.1
            }),
    {
        let ghost cs = old(self).characters@;
        let ghost i0 = old(self).pos as int;
        let ghost l0 = old(self).current_line as int;
        let ghost c0 = old(self).current_column as int;
        let ghost out0 = old(out)@;
        while self.suffix_continues()
            invariant
                self.inv(),
                self.characters@ == cs,
                i0 <= self.pos as int,
                spec_suffix_end(cs, i0) == spec_suffix_end(cs, self.pos as int),
                out@ == out0 + cs.subrange(i0, self.pos as int),
                ({
                    let p = spec_advance_span(l0, c0, cs, i0, self.pos as int);
                    self.current_line == p.0 && self.current_column == p.1
                }),
            decreases cs.len() - self.pos,
        {
            let ghost pprev = self.pos as int;
            let c = self.bump();
            push_char(out, c);
            proof {
                lemma_subrange_push(cs, i0, pprev);
                assert(out@ =~= out0 + cs.subrange(i0, self.pos as int));
            }
        }
    }

    /// Whether the cursor is on a numeric character.
    fn digits_continue(&self) -> (r: bool)
        requires
            self.inv(),
        ensures
            r == (self.pos < self.characters@.len() && char_is_numeric(
                self.characters@[self.pos as int],
            )),
    {
        if self.pos >= self.characters.len() {
            false
        } else {
            is_numeric_char(self.characters[self.pos])
        }
    }

    /// Consumes a run of numeric characters, appending it to `out`.
    #[verifier::loop_isolation(false)]
    fn munch_digits(&mut self, out: &mut String)
        requires
            old(self).inv(),
        ensures
            final(self).inv(),
            final(self).characters@ == old(self).characters@,
            final(self).pos == spec_digits_end(old(self).characters@, old(self).pos as int),
            final(out)@ == old(out)@ + old(self).characters@.subrange(
                old(self).pos as int,
                final(self).pos as int,
            ),
            ({
                let p = spec_advance_span(
                    old(self).current_line as int,
                    old(self).current_column as int,
                    old(self).characters@,
                    old(self).pos as int,
                    final(self).pos as int,
                );
                final(self).current_line == p.0 && final(self).current_column == p.1
            }),
    {
        let ghost cs = old(self).characters@;
        let ghost i0 = old(self).pos as int;
        let ghost l0 = old(self).current_line as int;
        let ghost c0 = old(self).current_column as int;
        let ghost out0 = old(out)@;
        while self.digits_continue()
            invariant
                self.inv(),
                self.characters@ == cs,
                i0 <= self.pos as int,
                spec_digits_end(cs, i0) == spec_digits_end(cs, self.pos as int),
                out@ == out0 + cs.subrange(i0, self.pos as int),
                ({
                    let p = spec_advance_span(l0, c0, cs, i0, self.pos as int);
                    self.current_line == p.0 && self.current_column == p.1
                }),
            decreases cs.len() - self.pos,
        {
            let ghost pprev = self.pos as int;
            let c = self.bump();
            push_char(out, c);
            proof {
                lemma_subrange_push(cs, i0, pprev);
                assert(out@ =~= out0 + cs.subrange(i0, self.pos as int));
            }
        }
    }

    /// Whether the cursor is on a character inside a line comment.
    fn line_comment_continues(&self) -> (r: bool)
        requires
            self.inv(),
        ensures
            r == (self.pos < self.characters@.len() && self.characters@[self.pos as int] != '\n'),
    {
        self.pos < self.characters.len() && self.characters[self.pos] != '\n'
    }

    /// Skips to the newline ending a line comment (or the end of input).
    #[verifier::loop_isolation(false)]
    fn skip_line_comment(&mut self)
        requires
            old(self).inv(),
        ensures
            final(self).inv(),
            final(self).characters@ == old(self).characters@,
            final(self).pos == spec_line_comment_end(old(self).characters@, old(self).pos as int),
            ({
                let p = spec_advance_span(
                    old(self).current_line as int,
                    old(self).current_column as int,
                    old(self).characters@,
                    old(self).pos as int,
                    final(self).pos as int,
                );
                final(self).current_line == p.0 && final(self).current_column == p.1
            }),
    {
        let ghost cs = old(self).characters@;
        let ghost i0 = old(self).pos as int;
        let ghost l0 = old(self).current_line as int;
        let ghost c0 = old(self).current_column as int;
        while self.line_comment_continues()
            invariant
                self.inv(),
                self.characters@ == cs,
                i0 <= self.pos as int,
                spec_line_comment_end(cs, i0) == spec_line_comment_end(cs, self.pos as int),
                ({
                    let p = spec_advance_span(l0, c0, cs, i0, self.pos as int);
                    self.current_line == p.0 && self.current_column == p.1
                }),
            decreases cs.len() - self.pos,
        {
            self.bump();
        }
    }

    /// Whether the cursor is inside a block comment, before its closing
    /// `*/`.
    fn block_comment_continues(&self) -> (r: bool)
        requires
            self.inv(),
        ensures
            r == (self.pos < self.characters@.len() && !(self.characters@[self.pos as int] == '*'
                && self.pos + 1 < self.characters@.len() && self.characters@[self.pos as int + 1]
                == '/')),
    {
        if self.pos >= self.characters.len() {
            false
        } else if self.characters[self.pos] == '*' && self.pos + 1 < self.characters.len()
            && self.characters[self.pos + 1] == '/' {
            false
        } else {
            true
        }
    }

    /// Skips past the `*/` closing a block comment (or to the end of
    /// input).
    #[verifier::loop_isolation(false)]
    fn skip_block_comment(&mut self)
        requires
            old(self).inv(),
        ensures
            final(self).inv(),
            final(self).characters@ == old(self).characters@,
            final(self).pos == spec_block_comment_end(old(self).characters@, old(self).pos as int),
            ({
                let p = spec_advance_span(
                    old(self).current_line as int,
                    old(self).current_column as int,
                    old(self).characters@,
                    old(self).pos as int,
                    final(self).pos as int,
                );
                final(self).current_line == p.0 && final(self).current_column == p.1
            }),
    {
        let ghost cs = old(self).characters@;
        let ghost i0 = old(self).pos as int;
        let ghost l0 = old(self).current_line as int;
        let ghost c0 = old(self).current_column as int;
        while self.block_comment_continues()
            invariant
                self.inv(),
                self.characters@ == cs,
                i0 <= self.pos as int,
                spec_block_comment_end(cs, i0) == spec_block_comment_end(cs, self.pos as int),
                ({
                    let p = spec_advance_span(l0, c0, cs, i0, self.pos as int);
                    self.current_line == p.0 && self.current_column == p.1
                }),
            decreases cs.len() - self.pos,
        {
            self.bump();
        }
        if self.pos < self.characters.len() {
            let ghost pstar = self.pos as int;
            self.bump();
            self.bump();
            proof {
                assert(spec_block_comment_end(cs, pstar) == pstar + 2);
                assert(spec_advance_span(l0, c0, cs, i0, pstar + 1) == spec_advance(
                    spec_advance_span(l0, c0, cs, i0, pstar).0,
                    spec_advance_span(l0, c0, cs, i0, pstar).1,
                    cs[pstar],
                ));
                assert(spec_advance_span(l0, c0, cs, i0, pstar + 2) == spec_advance(
                    spec_advance_span(l0, c0, cs, i0, pstar + 1).0,
                    spec_advance_span(l0, c0, cs, i0, pstar + 1).1,
                    cs[pstar + 1],
                ));
            }
        }
    }

    /// Whether the cursor is on a string-literal character before the
    /// closing quote.
    fn string_continues(&self) -> (r: bool)
        requires
            self.inv(),
        ensures
            r == (self.pos < self.characters@.len() && self.characters@[self.pos as int] != '"'),
    {
        self.pos < self.characters.len() && self.characters[self.pos] != '"'
    }

    /// Consumes a string literal's contents and closing quote, appending
    /// the value to `out`.
    #[verifier::loop_isolation(false)]
    fn scan_string(&mut self, out: &mut String)
        requires
            old(self).inv(),
        ensures
            final(self).inv(),
            final(self).characters@ == old(self).characters@,
            final(self).pos as int == spec_scan_string(old(self).characters@, old(self).pos as int).1,
            final(out)@ == old(out)@ + spec_scan_string(old(self).characters@, old(self).pos as int).0,
            ({
                let p = spec_advance_span(
                    old(self).current_line as int,
                    old(self).current_column as int,
                    old(self).characters@,
                    old(self).pos as int,
                    final(self).pos as int,
                );
                final(self).current_line == p.0 && final(self).current_column == p.1
            }),
    {
        let ghost cs = old(self).characters@;
        let ghost i0 = old(self).pos as int;
        let ghost l0 = old(self).current_line as int;
        let ghost c0 = old(self).current_column as int;
        let ghost out0 = old(out)@;
        while self.string_continues()
            invariant
                self.inv(),
                self.characters@ == cs,
                i0 <= self.pos as int,
                spec_scan_string(cs, i0).1 == spec_scan_string(cs, self.pos as int).1,
                out0 + spec_scan_string(cs, i0).0 == out@ + spec_scan_string(
                    cs,
                    self.pos as int,
                ).0,
                ({
                    let p = spec_advance_span(l0, c0, cs, i0, self.pos as int);
                    self.current_line == p.0 && self.current_column == p.1
                }),
            decreases cs.len() - self.pos,
        {
            let ghost pprev = self.pos as int;
            let c = self.bump();
            if c == '\\' {
                if self.pos < self.characters.len() {
                    let c2 = self.bump();
                    push_char(out, c2);
                }
            } else {
                push_char(out, c);
            }
            proof {
                assert(spec_advance_span(l0, c0, cs, i0, pprev + 1) == spec_advance(
                    spec_advance_span(l0, c0, cs, i0, pprev).0,
                    spec_advance_span(l0, c0, cs, i0, pprev).1,
                    cs[pprev],
                ));
                if self.pos as int == pprev + 2 {
                    assert(spec_advance_span(l0, c0, cs, i0, pprev + 2) == spec_advance(
                        spec_advance_span(l0, c0, cs, i0, pprev + 1).0,
                        spec_advance_span(l0, c0, cs, i0, pprev + 1).1,
                        cs[pprev + 1],
                    ));
                }
                assert(out0 + spec_scan_string(cs, i0).0 =~= out@ + spec_scan_string(
                    cs,
                    self.pos as int,
                ).0);
            }
        }
        if self.pos < self.characters.len() {
            self.bump();
        }
        proof {
            assert(out@ =~= out0 + spec_scan_string(cs, i0).0);
        }
    }
}

} // verus!

verus! {

/// Whether some character of `s` is a dot.
fn has_dot_str(s: &String) -> (r: bool)
    ensures
        r == spec_has_dot(s@),
{
    let text = s.as_str();
    let n = text.unicode_len();
    let mut i: usize = 0;
    while i < n
        invariant
            n == s@.len(),
            i <= n,
            text@ == s@,
            forall|k: int| 0 <= k < i ==> s@[k] != '.',
        decreases n - i,
    {
        if text.get_char(i) == '.' {
            return true;
        }
        i = i + 1;
    }
    false
}

/// Whether `s` is a numeral the tokenizer accepts as a number: decimal
/// digits with at most one dot and at least one digit.
#[verifier::loop_isolation(false)]
fn check_numeral(s: &String) -> (r: bool)
    ensures
        r == is_decimal_numeral(s@),
{
    let text = s.as_str();
    let n = text.unicode_len();
    let mut i: usize = 0;
    let mut any_digit: bool = false;
    let mut dot_seen: bool = false;
    let ghost mut gdigit: int = 0;
    let ghost mut gdot: int = 0;
    while i < n
        invariant
            i <= n,
            forall|k: int| 0 <= k < i ==> (('0' <= #[trigger] s@[k] <= '9') || s@[k] == '.'),
            any_digit ==> 0 <= gdigit < i && '0' <= s@[gdigit] <= '9',
            !any_digit ==> forall|k: int| 0 <= k < i ==> !('0' <= #[trigger] s@[k] <= '9'),
            dot_seen ==> 0 <= gdot < i && s@[gdot] == '.',
            !dot_seen ==> forall|k: int| 0 <= k < i ==> s@[k] != '.',
            forall|k1: int, k2: int|
                0 <= k1 < k2 < i && #[trigger] s@[k1] == '.' && #[trigger] s@[k2] == '.' ==> false,
        decreases n - i,
    {
        let c = text.get_char(i);
        if c == '.' {
            if dot_seen {
                return false;
            }
            dot_seen = true;
            proof {
                gdot = i as int;
            }
        } else if '0' <= c && c <= '9' {
            if !any_digit {
                any_digit = true;
                proof {
                    gdigit = i as int;
                }
            }
        } else {
            return false;
        }
        i = i + 1;
    }
    any_digit
}

/// Parses a run of decimal digits as an `i64`; `None` when some character
/// is not an ASCII digit or the value does not fit.
#[verifier::loop_isolation(false)]
fn parse_i64_digits(s: &String) -> (r: Option<i64>)
    ensures
        match r {
            Some(v) => spec_is_i64_numeral(s@) && v as int == spec_digits_val(s@) as int,
            None => !spec_is_i64_numeral(s@),
        },
{
    let text = s.as_str();
    let n = text.unicode_len();
    if n == 0 {
        return None;
    }
    let mut acc: u64 = 0;
    let mut i: usize = 0;
    while i < n
        invariant
            i <= n,
            n == s@.len(),
            text@ == s@,
            forall|k: int| 0 <= k < i ==> '0' <= #[trigger] s@[k] <= '9',
            acc == spec_digits_val(s@.take(i as int)),
            acc <= 0x7fff_ffff_ffff_ffff,
        decreases n - i,
    {
        let c = text.get_char(i);
        if !('0' <= c && c <= '9') {
            return None;
        }
        let d: u64 = (c as u32 - '0' as u32) as u64;
        proof {
            assert(s@.take(i + 1).drop_last() =~= s@.take(i as int));
            assert(s@.take(i + 1).last() == s@[i as int]);
        }
        if acc > (0x7fff_ffff_ffff_ffffu64 - d) / 10 {
            proof {
                assert(acc * 10 + d > 0x7fff_ffff_ffff_ffff) by (nonlinear_arith)
                    requires
                        acc > (0x7fff_ffff_ffff_ffffu64 - d) / 10,
                        d <= 9,
                ;
                assert(spec_digits_val(s@.take(i + 1)) > 0x7fff_ffff_ffff_ffff);
                if spec_all_digits(s@) {
                    lemma_digits_val_take_le(s@, i + 1);
                }
            }
            return None;
        }
        acc = acc * 10 + d;
        i = i + 1;
    }
    proof {
        assert(s@.take(n as int) =~= s@);
    }
    Some(acc as i64)
}

impl Tokenizer {
    /// Scans one construct at the cursor: a token, a tokenless stretch
    /// (comment, or a quote at the end of input), or a fatal error.
    #[verifier::rlimit(100)]
    fn scan_token(&mut self) -> (r: Result<Option<Token>, String>)
        requires
            old(self).inv(),
            old(self).pos < old(self).characters@.len(),
        ensures
            final(self).inv(),
            final(self).characters@ == old(self).characters@,
            match spec_scan(
                old(self).characters@,
                old(self).pos as int,
                old(self).current_line as int,
                old(self).current_column as int,
            ) {
                ScanResult::Token(tv, j, l, c) => r matches Ok(Some(t)) && t@ == tv
                    && final(self).pos as int == j && final(self).current_line as int == l
                    && final(self).current_column as int == c,
                ScanResult::Skip(j, l, c) => r matches Ok(None) && final(self).pos as int == j
                    && final(self).current_line as int == l && final(self).current_column as int
                    == c,
                ScanResult::Fail(m) => r matches Err(e) && e@ == m,
            },
    {
        let ghost cs = old(self).characters@;
        let ghost i0 = old(self).pos as int;
        let ghost l0 = old(self).current_line as int;
        let ghost c0 = old(self).current_column as int;
        let line0 = self.current_line;
        let col0 = self.current_column;
        let c = self.characters[self.pos];
        if is_alphabetic_char(c) || c == '_' {
            self.bump();
            let mut text = String::new();
            push_char(&mut text, c);
            self.munch_ident(&mut text);
            proof {
                lemma_ident_end_bounds(cs, i0 + 1);
                lemma_advance_span_cons(l0, c0, cs, i0, self.pos as int);
                assert(text@ =~= cs.subrange(i0, self.pos as int));
            }
            let token_type = match keyword_token(&text) {
                Some(k) => k,
                None => TokenType::Identifier(text),
            };
            Ok(Some(Token { token_type, line: line0, column: col0 }))
        } else if is_numeric_char(c) {
            self.bump();
            let mut number = String::new();
            push_char(&mut number, c);
            self.munch_number(&mut number);
            let ghost nend = self.pos as int;
            proof {
                lemma_number_end_bounds(cs, i0 + 1);
                lemma_advance_span_cons(l0, c0, cs, i0, nend);
                assert(number@ =~= cs.subrange(i0, nend));
            }
            let mut suffix = String::new();
            self.munch_suffix(&mut suffix);
            proof {
                lemma_suffix_end_bounds(cs, nend);
                assert(suffix@ =~= cs.subrange(nend, self.pos as int));
            }
            if suffix.as_str().unicode_len() > 0 {
                let mut msg = String::from_str("Invalid number suffix: ");
                msg.append(suffix.as_str());
                proof {
                    assert(msg@ =~= "Invalid number suffix: "@ + cs.subrange(
                        nend,
                        spec_suffix_end(cs, nend),
                    ));
                }
                return Err(msg);
            }
            if has_dot_str(&number) {
                if check_numeral(&number) {
                    let bits = num_from_decimal(number.as_str());
                    Ok(Some(Token {
                        token_type: TokenType::FloatLiteral(bits),
                        line: line0,
                        column: col0,
                    }))
                } else {
                    let mut msg = String::from_str("Invalid float value: ");
                    msg.append(number.as_str());
                    proof {
                        assert(msg@ =~= "Invalid float value: "@ + number@);
                    }
                    Err(msg)
                }
            } else {
                match parse_i64_digits(&number) {
                    Some(v) => Ok(Some(Token {
                        token_type: TokenType::IntegerLiteral(v),
                        line: line0,
                        column: col0,
                    })),
                    None => {
                        let mut msg = String::from_str("Invalid integer value: ");
                        msg.append(number.as_str());
                        proof {
                            assert(msg@ =~= "Invalid integer value: "@ + number@);
                        }
                        Err(msg)
                    },
                }
            }
        } else if c == '.' && self.pos + 1 < self.characters.len() && is_numeric_char(
            self.characters[self.pos + 1],
        ) {
            self.bump();
            let mut number = String::new();
            push_char(&mut number, c);
            self.munch_digits(&mut number);
            let ghost dend = self.pos as int;
            proof {
                lemma_digits_end_bounds(cs, i0 + 1);
                lemma_advance_span_cons(l0, c0, cs, i0, dend);
                assert(number@ =~= cs.subrange(i0, dend));
            }
            if check_numeral(&number) {
                let bits = num_from_decimal(number.as_str());
                Ok(Some(Token {
                    token_type: TokenType::FloatLiteral(bits),
                    line: line0,
                    column: col0,
                }))
            } else {
                let mut msg = String::from_str("Invalid float value: ");
                msg.append(number.as_str());
                proof {
                    assert(msg@ =~= "Invalid float value: "@ + number@);
                }
                Err(msg)
            }
        } else if c == '/' && self.pos + 1 < self.characters.len() && self.characters[self.pos + 1]
            == '/' {
            self.bump();
            self.bump();
            self.skip_line_comment();
            proof {
                lemma_line_comment_end_bounds(cs, i0 + 2);
                lemma_advance_span_cons(l0, c0, cs, i0, self.pos as int);
                lemma_advance_span_cons(
                    spec_advance(l0, c0, cs[i0]).0,
                    spec_advance(l0, c0, cs[i0]).1,
                    cs,
                    i0 + 1,
                    self.pos as int,
                );
            }
            Ok(None)
        } else if c == '/' && self.pos + 1 < self.characters.len() && self.characters[self.pos + 1]
            == '*' {
            self.bump();
            self.bump();
            self.skip_block_comment();
            proof {
                lemma_block_comment_end_bounds(cs, i0 + 2);
                lemma_advance_span_cons(l0, c0, cs, i0, self.pos as int);
                lemma_advance_span_cons(
                    spec_advance(l0, c0, cs[i0]).0,
                    spec_advance(l0, c0, cs[i0]).1,
                    cs,
                    i0 + 1,
                    self.pos as int,
                );
            }
            Ok(None)
        } else if c == '"' {
            self.bump();
            let mut value = String::new();
            self.scan_string(&mut value);
            proof {
                assert(value@ =~= spec_scan_string(cs, i0 + 1).0);
                lemma_scan_string_bounds(cs, i0 + 1);
                lemma_advance_span_cons(l0, c0, cs, i0, self.pos as int);
            }
            Ok(Some(Token {
                token_type: TokenType::StringLiteral(value),
                line: line0,
                column: col0,
            }))
        } else if c == '\'' {
            self.bump();
            if self.pos >= self.characters.len() {
                proof {
                    reveal_with_fuel(spec_advance_span, 3);
                }
                Ok(None)
            } else {
                let nc = self.characters[self.pos];
                if nc == '\'' {
                    Err(String::from_str("Empty character literal"))
                } else {
                    self.bump();
                    if self.pos < self.characters.len() {
                        self.bump();
                    }
                    proof {
                        reveal_with_fuel(spec_advance_span, 5);
                    }
                    Ok(Some(Token {
                        token_type: TokenType::CharLiteral(nc),
                        line: line0,
                        column: col0,
                    }))
                }
            }
        } else {
            if self.pos + 1 < self.characters.len() {
                let nc = self.characters[self.pos + 1];
                match two_char_symbol_token(c, nc) {
                    Some(t) => {
                        self.bump();
                        self.bump();
                        proof {
                            reveal_with_fuel(spec_advance_span, 4);
                        }
                        return Ok(Some(Token { token_type: t, line: line0, column: col0 }));
                    },
                    None => {},
                }
            }
            match one_char_symbol_token(c) {
                Some(t) => {
                    self.bump();
                    proof {
                        reveal_with_fuel(spec_advance_span, 4);
                    }
                    Ok(Some(Token { token_type: t, line: line0, column: col0 }))
                },
                None => {
                    let mut msg = String::from_str("Unexpected character: '");
                    push_char(&mut msg, c);
                    push_char(&mut msg, '\'');
                    proof {
                        reveal_strlit("'");
                        assert(msg@ =~= "Unexpected character: '"@ + seq![c] + "'"@);
                    }
                    Err(msg)
                },
            }
        }
    }

    /// Tokenizes the remaining input eagerly: the whole token list, or the
    /// first fatal error.
    #[verifier::loop_isolation(false)]
    pub fn tokenize(&mut self) -> (r: Result<Vec<Token>, String>)
        requires
            old(self).inv(),
        ensures
            final(self).inv(),
            match r {
                Ok(ts) => Ok::<Seq<TokenView>, Seq<char>>(ts.deep_view()) == spec_lex(
                    old(self).characters@,
                    old(self).pos as int,
                    old(self).current_line as int,
                    old(self).current_column as int,
                ),
                Err(e) => Err::<Seq<TokenView>, Seq<char>>(e@) == spec_lex(
                    old(self).characters@,
                    old(self).pos as int,
                    old(self).current_line as int,
                    old(self).current_column as int,
                ),
            },
    {
        let ghost cs = old(self).characters@;
        let ghost i0 = old(self).pos as int;
        let ghost l0 = old(self).current_line as int;
        let ghost c0 = old(self).current_column as int;
        let mut tokens: Vec<Token> = Vec::new();
        loop
            invariant
                self.inv(),
                self.characters@ == cs,
                spec_lex(cs, i0, l0, c0) == lex_combine(
                    tokens.deep_view(),
                    spec_lex(
                        cs,
                        self.pos as int,
                        self.current_line as int,
                        self.current_column as int,
                    ),
                ),
            decreases cs.len() - self.pos,
        {
            if self.pos >= self.characters.len() {
                proof {
                    assert(tokens.deep_view() + Seq::<TokenView>::empty() =~= tokens.deep_view());
                }
                return Ok(tokens);
            }
            let c = self.characters[self.pos];
            if is_whitespace_char(c) {
                self.bump();
            } else {
                let ghost p_pre = self.pos as int;
                let ghost l_pre = self.current_line as int;
                let ghost c_pre = self.current_column as int;
                proof {
                    lemma_scan_bounds(cs, p_pre, l_pre, c_pre);
                }
                match self.scan_token() {
                    Ok(Some(t)) => {
                        let ghost pre = tokens.deep_view();
                        tokens.push(t);
                        proof {
                            assert(tokens.deep_view() =~= pre.push(t@));
                            match spec_scan(cs, p_pre, l_pre, c_pre) {
                                ScanResult::Token(tv, j, l, cc) => {
                                    match spec_lex(cs, j, l, cc) {
                                        Ok(ts) => {
                                            assert(pre + (seq![tv] + ts) =~= pre.push(tv) + ts);
                                        },
                                        Err(_) => {},
                                    }
                                },
                                _ => {},
                            }
                        }
                    },
                    Ok(None) => {},
                    Err(e) => {
                        return Err(e);
                    },
                }
            }
        }
    }
}

} // verus!
