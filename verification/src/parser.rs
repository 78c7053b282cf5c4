//! Recursive-descent parser: turns the token sequence into a [`Program`].
//!
//! Expressions are parsed by precedence climbing; binary operators are
//! left-associative, assignment is right-associative and only valid when
//! its left side is a bare variable reference.  Syntax errors are collected
//! rather than fatal: on an error inside a declaration or statement the
//! parser records it, synchronizes to the next safe boundary token, and
//! goes on, so one malformed construct yields one reported error.  A
//! non-empty error list makes the whole parse fail.
//!
//! The grammar itself is a mathematical function ([`grammar`]): every
//! parsing function here is proved to return exactly the tree that
//! [`grammar`]'s spec functions derive from the tokens at its cursor — and
//! to fail exactly when they do — with the cursor, the id counter and the
//! recorded-error count pinned alongside.  The spec functions are indexed
//! by fuel, one unit per parsing step, and the parser spends fuel from a
//! budget ([`grammar::parse_fuel`]) far above what any token sequence can
//! drive.  On top of that exact relation, the contracts also state the
//! structural invariants directly: every block obeys the
//! result-expression-last rule ([`expr_wf`] and friends), and the
//! expression ids minted during a parse, read off in parse order
//! ([`expr_ids`]), are strictly increasing within the id-counter interval
//! around the parse ([`ids_ok`]) — so every id is minted exactly once.

use vstd::prelude::*;
use crate::tokenizer::{Token, TokenType};
use crate::numbers::num_from_i64;
use grammar::{
    parse_fuel, spec_assignment, spec_block, spec_block_items, spec_call, spec_call_args,
    spec_call_args_items, spec_call_chain, spec_comparison, spec_comparison_fold,
    spec_declaration, spec_elem_items, spec_equality, spec_equality_fold, spec_expect,
    spec_expression, spec_factor, spec_factor_fold, spec_field_items, spec_generic_args,
    spec_generic_args_items, spec_generics, spec_generics_items, spec_ident, spec_import_path,
    spec_logical_and, spec_logical_and_fold, spec_logical_or, spec_logical_or_fold, spec_params,
    spec_params_items, spec_parse_program, spec_primary, spec_program_decls, spec_statement,
    spec_struct_element, spec_sync, spec_sync_scan, spec_term, spec_term_fold,
    spec_try_declaration, spec_type, spec_unary, spec_unary_loop, sync_boundary, tok_at, Step,
};
use ast::{
    expr_view, stmt_view, decl_view, elem_view, type_view, param_view, types_view, strings_view,
    params_view, stmts_view, exprs_view, fields_view, elems_view, decls_view, program_view,
    ExprView, StmtView, DeclView, ElemView, TypeView, ParamView, LoopView,
    BinaryOperator, Declaration, Expression, ExpressionId, FunctionParameter, LoopStatement,
    Program, Statement, StructElement, Type, UnaryOperator, VariableMutability, block_stmts_ok,
    decl_ids, decl_wf, decls_ids, elem_ids, elem_wf, elems_ids, expr_ids, expr_wf, exprs_ids,
    fields_ids, ids_ok, lemma_decls_ids_push, lemma_elems_ids_push, lemma_exprs_ids_push,
    lemma_fields_ids_push, lemma_ids_concat, lemma_ids_widen, lemma_stmts_ids_push, loop_ids,
    loop_view, loop_wf, program_ids, program_wf, stmt_ids, stmt_is_result, stmt_wf, stmts_ids,
};

pub mod ast;
pub mod ast_printer;
pub mod grammar;

verus! {

/// The shape of the token under the cursor when a primary expression is
/// expected.
enum Scanned {
    Done(Expression),
    Ident(String),
    Paren,
    No,
}

/// A syntax error: an unexpected token (with what was expected, where
/// known), or an unexpected end of input.
#[derive(Debug)]
pub enum ParseError {
    UnexpectedToken { expected: Option<TokenType>, found: Token, message: Option<String> },
    UnexpectedEndOfInput,
}

/// The parser: a monotonically advancing cursor over the token sequence,
/// the collected syntax errors, and the counter from which expression ids
/// are minted.
pub struct Parser {
    pub tokens: Vec<Token>,
    pub current: usize,
    pub errors: Vec<ParseError>,
    pub current_expr_id: u32,
}

impl Parser {
    /// The cursor is inside the token sequence and the id counter stays
    /// below it, so minting a fresh id cannot overflow.
    pub open spec fn wf(self) -> bool {
        &&& self.current <= self.tokens@.len()
        &&& self.tokens@.len() <= 0xffff_ffff
        &&& self.current_expr_id <= self.current
    }

    /// A parser at the start of `tokens`.
    pub fn new(tokens: Vec<Token>) -> (p: Parser)
        requires
            tokens@.len() <= 0xffff_ffff,
        ensures
            p.wf(),
            p.tokens@ == tokens@,
            p.current == 0,
            p.errors@.len() == 0,
            p.current_expr_id == 0,
    {
        Parser { tokens, current: 0, errors: Vec::new(), current_expr_id: 0 }
    }

    /// Mints a fresh expression id.
    pub fn get_id(&mut self) -> (id: ExpressionId)
        requires
            old(self).wf(),
            old(self).current_expr_id < old(self).current,
        ensures
            final(self).wf(),
            final(self).tokens@ == old(self).tokens@,
            final(self).current == old(self).current,
            final(self).errors@ == old(self).errors@,
            final(self).current_expr_id == old(self).current_expr_id + 1,
            id.0 == final(self).current_expr_id,
    {
        self.current_expr_id = self.current_expr_id + 1;
        ExpressionId(self.current_expr_id)
    }

    /// Whether the cursor is past the last token.
    fn is_eof(&self) -> (r: bool)
        ensures
            r == (self.current >= self.tokens@.len()),
    {
        self.current >= self.tokens.len()
    }

    /// Whether the current token has exactly the type `token_type`.
    fn is_match(&self, token_type: &TokenType) -> (r: bool)
        requires
            self.wf(),
        ensures
            r == tok_at(self.tokens@, self.current as int, token_type@),
    {
        !self.is_eof() && self.tokens[self.current].token_type.eq(token_type)
    }

    /// Moves the cursor past the current token.
    fn advance(&mut self)
        requires
            old(self).wf(),
            old(self).current < old(self).tokens@.len(),
        ensures
            final(self).wf(),
            final(self).tokens@ == old(self).tokens@,
            final(self).errors@ == old(self).errors@,
            final(self).current_expr_id == old(self).current_expr_id,
            final(self).current == old(self).current + 1,
    {
        self.current = self.current + 1;
    }

    /// Consumes the current token if it has exactly the type
    /// `token_type`.
    fn advance_if(&mut self, token_type: &TokenType) -> (r: bool)
        requires
            old(self).wf(),
        ensures
            final(self).wf(),
            final(self).tokens@ == old(self).tokens@,
            final(self).errors@ == old(self).errors@,
            final(self).current_expr_id == old(self).current_expr_id,
            r == tok_at(old(self).tokens@, old(self).current as int, token_type@),
            r ==> final(self).current == old(self).current + 1,
            !r ==> final(self).current == old(self).current,
    {
        if self.is_match(token_type) {
            self.advance();
            true
        } else {
            false
        }
    }

    /// Skips tokens until just past a semicolon, or to a token that can
    /// begin a new declaration or statement, or to the end of input;
    /// bounds an error cascade to one report per malformed construct.
    #[verifier::loop_isolation(false)]
    fn synchronize(&mut self)
        requires
            old(self).wf(),
        ensures
            final(self).wf(),
            final(self).tokens@ == old(self).tokens@,
            final(self).errors@ == old(self).errors@,
            final(self).current_expr_id == old(self).current_expr_id,
            old(self).current <= final(self).current,
            old(self).current < old(self).tokens@.len() ==> old(self).current < final(self).current,
            final(self).current as int == spec_sync(old(self).tokens@, old(self).current as int),
    {
        if !self.is_eof() {
            self.advance();
        }
        while !self.is_eof()
            invariant
                self.wf(),
                self.tokens@ == old(self).tokens@,
                self.errors@ == old(self).errors@,
                self.current_expr_id == old(self).current_expr_id,
                old(self).current <= self.current,
                old(self).current < old(self).tokens@.len() ==> old(self).current < self.current,
                spec_sync(old(self).tokens@, old(self).current as int) == spec_sync_scan(
                    self.tokens@,
                    self.current as int,
                ),
            decreases self.tokens@.len() - self.current,
        {
            if self.advance_if(&TokenType::Semicolon) {
                return ;
            }
            let t = &self.tokens[self.current];
            match &t.token_type {
                TokenType::FunctionKeyword => { return ; },
                TokenType::ImportKeyword => { return ; },
                TokenType::StructKeyword => { return ; },
                TokenType::TypeKeyword => { return ; },
                TokenType::LetKeyword => { return ; },
                TokenType::ConstKeyword => { return ; },
                TokenType::LoopKeyword => { return ; },
                TokenType::IfKeyword => { return ; },
                TokenType::ElseKeyword => { return ; },
                TokenType::ReturnKeyword => { return ; },
                TokenType::BreakKeyword => { return ; },
                TokenType::ContinueKeyword => { return ; },
                TokenType::OpenCurlyBracket => { return ; },
                _ => {},
            }
            self.advance();
        }
    }

    /// The error for finding the current token (or the end of input)
    /// instead of `expected`.
    fn unexpected(&self, expected: Option<TokenType>, message: &str) -> (e: ParseError)
        requires
            self.wf(),
    {
        if self.current < self.tokens.len() {
            ParseError::UnexpectedToken {
                expected,
                found: self.tokens[self.current].clone(),
                message: Some(String::from_str(message)),
            }
        } else {
            ParseError::UnexpectedEndOfInput
        }
    }

    /// Consumes an identifier token and returns its name.
    fn expect_identifier(&mut self) -> (r: Result<String, ParseError>)
        requires
            old(self).wf(),
        ensures
            final(self).wf(),
            final(self).tokens@ == old(self).tokens@,
            final(self).errors@ == old(self).errors@,
            final(self).current_expr_id == old(self).current_expr_id,
            old(self).current <= final(self).current <= final(self).tokens@.len(),
            ({
                let (n, j) = spec_ident(old(self).tokens@, old(self).current as int);
                &&& final(self).current as int == j
                &&& match r {
                    Ok(nm) => n == Some(nm@),
                    Err(_) => n is None,
                }
            }),
    {
        if self.current < self.tokens.len() {
            let t = &self.tokens[self.current];
            match &t.token_type {
                TokenType::Identifier(name) => {
                    let n = name.clone();
                    self.advance();
                    return Ok(n);
                },
                _ => {},
            }
        }
        Err(self.unexpected(
            Some(TokenType::Identifier(String::new())),
            "Expected an identifier",
        ))
    }

    /// Consumes a token of exactly the type `token_type`, or fails with
    /// `message`.
    fn expect(&mut self, token_type: TokenType, message: &str) -> (r: Result<(), ParseError>)
        requires
            old(self).wf(),
        ensures
            final(self).wf(),
            final(self).tokens@ == old(self).tokens@,
            final(self).errors@ == old(self).errors@,
            final(self).current_expr_id == old(self).current_expr_id,
            old(self).current <= final(self).current <= final(self).tokens@.len(),
            (r is Ok) == tok_at(old(self).tokens@, old(self).current as int, token_type@),
            r is Ok ==> final(self).current == old(self).current + 1,
            r is Err ==> final(self).current == old(self).current,
    {
        if self.advance_if(&token_type) {
            Ok(())
        } else {
            Err(self.unexpected(Some(token_type), message))
        }
    }
}

} // verus!

verus! {

impl Parser {
    /// Parses a type: a primitive scalar, a user type with optional
    /// generic arguments, or an array type in square brackets.
    #[verifier::spinoff_prover]
    #[verifier::rlimit(100)]
    fn parse_type(&mut self, fuel: u64) -> (r: Result<Type, ParseError>)
        requires
            old(self).wf(),
        ensures
            final(self).wf(),
            final(self).tokens@ == old(self).tokens@,
            final(self).errors@.len() == old(self).errors@.len(),
            final(self).current_expr_id == old(self).current_expr_id,
            old(self).current <= final(self).current <= final(self).tokens@.len(),
            r is Ok ==> old(self).current < final(self).current,
            ({
                let s = spec_type(
                    old(self).tokens@,
                    old(self).current as int,
                    old(self).current_expr_id as int,
                    fuel as int,
                );
                &&& final(self).current as int == s.j
                &&& final(self).current_expr_id as int == s.idc
                &&& (final(self).errors@.len() > old(self).errors@.len()) == s.err
                &&& match r {
                    Ok(t) => s.out == Some(type_view(t)),
                    Err(_) => s.out is None,
                }
            }),
        decreases fuel,
    {
        proof {
            reveal_with_fuel(spec_type, 1);
        }
        if fuel == 0 {
            return Err(ParseError::UnexpectedEndOfInput);
        }
        let f = fuel - 1;
        if self.current >= self.tokens.len() {
            return Err(ParseError::UnexpectedEndOfInput);
        }
        let is_square = match &self.tokens[self.current].token_type {
            TokenType::OpenSquareBracket => true,
            _ => false,
        };
        if is_square {
            self.advance();
            let element_type = self.parse_type(f)?;
            self.expect(TokenType::CloseSquareBracket, "Unmatched open square bracket")?;
            return Ok(Type::Array(Box::new(element_type)));
        }
        let name = match &self.tokens[self.current].token_type {
            TokenType::Identifier(n) => n.clone(),
            _ => {
                return Err(self.unexpected(
                    Some(TokenType::Identifier(String::new())),
                    "Expected a type identifier",
                ));
            },
        };
        self.advance();
        if name.eq(&String::from_str("u8")) { Ok(Type::U8) }
        else if name.eq(&String::from_str("u16")) { Ok(Type::U16) }
        else if name.eq(&String::from_str("u32")) { Ok(Type::U32) }
        else if name.eq(&String::from_str("u64")) { Ok(Type::U64) }
        else if name.eq(&String::from_str("i8")) { Ok(Type::I8) }
        else if name.eq(&String::from_str("i16")) { Ok(Type::I16) }
        else if name.eq(&String::from_str("i32")) { Ok(Type::I32) }
        else if name.eq(&String::from_str("i64")) { Ok(Type::I64) }
        else if name.eq(&String::from_str("f32")) { Ok(Type::F32) }
        else if name.eq(&String::from_str("f64")) { Ok(Type::F64) }
        else if name.eq(&String::from_str("bool")) { Ok(Type::Boolean) }
        else if name.eq(&String::from_str("char")) { Ok(Type::Character) }
        else {
            let generics = self.parse_generics(f)?;
            Ok(Type::Identifier { name, generics })
        }
    }


    /// Parses an optional angle-bracketed list of types.
    #[verifier::loop_isolation(false)]
    #[verifier::spinoff_prover]
    #[verifier::rlimit(100)]
    fn parse_generics(&mut self, fuel: u64) -> (r: Result<Vec<Type>, ParseError>)
        requires
            old(self).wf(),
        ensures
            final(self).wf(),
            final(self).tokens@ == old(self).tokens@,
            final(self).errors@.len() == old(self).errors@.len(),
            final(self).current_expr_id == old(self).current_expr_id,
            old(self).current <= final(self).current <= final(self).tokens@.len(),
            ({
                let s = spec_generics(
                    old(self).tokens@,
                    old(self).current as int,
                    old(self).current_expr_id as int,
                    fuel as int,
                );
                &&& final(self).current as int == s.j
                &&& final(self).current_expr_id as int == s.idc
                &&& (final(self).errors@.len() > old(self).errors@.len()) == s.err
                &&& match r {
                    Ok(ts) => s.out == Some(types_view(ts)),
                    Err(_) => s.out is None,
                }
            }),
        decreases fuel,
    {
        proof {
            reveal_with_fuel(spec_generics, 1);
            reveal_with_fuel(spec_generics_items, 1);
        }
        if fuel == 0 {
            return Err(ParseError::UnexpectedEndOfInput);
        }
        let f = fuel - 1;
        if !self.advance_if(&TokenType::OpenAngleBracket) {
            let out: Vec<Type> = Vec::new();
            proof {
                assert(types_view(out) =~= Seq::<TypeView>::empty());
            }
            return Ok(out);
        }
        let ghost toks = old(self).tokens@;
        let ghost idc0 = old(self).current_expr_id as int;
        let ghost i1 = self.current as int;
        let mut generics: Vec<Type> = Vec::new();
        let mut fl = f;
        proof {
            assert(types_view(generics) =~= Seq::<TypeView>::empty());
        }
        loop
            invariant
                self.wf(),
                self.tokens@ == toks,
                self.errors@.len() == old(self).errors@.len(),
                self.current_expr_id == old(self).current_expr_id,
                old(self).current < self.current <= self.tokens@.len(),
                fl <= f,
                spec_generics_items(toks, i1, Seq::empty(), idc0, f as int)
                    == spec_generics_items(
                    toks,
                    self.current as int,
                    types_view(generics),
                    idc0,
                    fl as int,
                ),
            decreases fl,
        {
            if fl == 0 {
                return Err(ParseError::UnexpectedEndOfInput);
            }
            if self.is_eof() || self.is_match(&TokenType::CloseAngleBracket) {
                self.expect(TokenType::CloseAngleBracket, "Unmatched open angle bracket")?;
                return Ok(generics);
            }
            fl = fl - 1;
            let ghost g0 = generics;
            let generic = self.parse_type(fl)?;
            let ghost gv = type_view(generic);
            generics.push(generic);
            proof {
                assert(types_view(generics) =~= types_view(g0).push(gv));
            }
            if self.is_match(&TokenType::Comma) {
                self.advance();
            } else {
                self.expect(TokenType::CloseAngleBracket, "Unmatched open angle bracket")?;
                return Ok(generics);
            }
        }
    }


    /// Parses an optional angle-bracketed list of generic parameter names.
    #[verifier::loop_isolation(false)]
    #[verifier::spinoff_prover]
    #[verifier::rlimit(100)]
    fn parse_generic_args(&mut self, fuel: u64) -> (r: Result<Vec<String>, ParseError>)
        requires
            old(self).wf(),
        ensures
            final(self).wf(),
            final(self).tokens@ == old(self).tokens@,
            final(self).errors@.len() == old(self).errors@.len(),
            final(self).current_expr_id == old(self).current_expr_id,
            old(self).current <= final(self).current <= final(self).tokens@.len(),
            ({
                let s = spec_generic_args(
                    old(self).tokens@,
                    old(self).current as int,
                    old(self).current_expr_id as int,
                    fuel as int,
                );
                &&& final(self).current as int == s.j
                &&& final(self).current_expr_id as int == s.idc
                &&& (final(self).errors@.len() > old(self).errors@.len()) == s.err
                &&& match r {
                    Ok(ns) => s.out == Some(strings_view(ns)),
                    Err(_) => s.out is None,
                }
            }),
        decreases fuel,
    {
        proof {
            reveal_with_fuel(spec_generic_args, 1);
            reveal_with_fuel(spec_generic_args_items, 1);
        }
        if fuel == 0 {
            return Err(ParseError::UnexpectedEndOfInput);
        }
        let f = fuel - 1;
        if !self.advance_if(&TokenType::OpenAngleBracket) {
            let out: Vec<String> = Vec::new();
            proof {
                assert(strings_view(out) =~= Seq::<Seq<char>>::empty());
            }
            return Ok(out);
        }
        let ghost toks = old(self).tokens@;
        let ghost idc0 = old(self).current_expr_id as int;
        let ghost i1 = self.current as int;
        let mut args: Vec<String> = Vec::new();
        let mut fl = f;
        proof {
            assert(strings_view(args) =~= Seq::<Seq<char>>::empty());
        }
        loop
            invariant
                self.wf(),
                self.tokens@ == toks,
                self.errors@.len() == old(self).errors@.len(),
                self.current_expr_id == old(self).current_expr_id,
                old(self).current < self.current <= self.tokens@.len(),
                fl <= f,
                spec_generic_args_items(toks, i1, Seq::empty(), idc0, f as int)
                    == spec_generic_args_items(
                    toks,
                    self.current as int,
                    strings_view(args),
                    idc0,
                    fl as int,
                ),
            decreases fl,
        {
            if fl == 0 {
                return Err(ParseError::UnexpectedEndOfInput);
            }
            if self.is_eof() || self.is_match(&TokenType::CloseAngleBracket) {
                self.expect(TokenType::CloseAngleBracket, "Unmatched open angle bracket")?;
                return Ok(args);
            }
            fl = fl - 1;
            let ghost a0 = args;
            let arg = self.expect_identifier()?;
            let ghost av = arg@;
            args.push(arg);
            proof {
                assert(strings_view(args) =~= strings_view(a0).push(av));
            }
            if self.is_match(&TokenType::Comma) {
                self.advance();
            } else {
                self.expect(TokenType::CloseAngleBracket, "Unmatched open angle bracket")?;
                return Ok(args);
            }
        }
    }


    /// Parses a parenthesized, comma-separated list of `name: type`
    /// function parameters.
    #[verifier::loop_isolation(false)]
    #[verifier::spinoff_prover]
    #[verifier::rlimit(100)]
    fn parse_function_parameters(&mut self, fuel: u64) -> (r: Result<
        Vec<FunctionParameter>,
        ParseError,
    >)
        requires
            old(self).wf(),
        ensures
            final(self).wf(),
            final(self).tokens@ == old(self).tokens@,
            final(self).errors@.len() == old(self).errors@.len(),
            final(self).current_expr_id == old(self).current_expr_id,
            old(self).current <= final(self).current <= final(self).tokens@.len(),
            r is Ok ==> old(self).current < final(self).current,
            ({
                let s = spec_params(
                    old(self).tokens@,
                    old(self).current as int,
                    old(self).current_expr_id as int,
                    fuel as int,
                );
                &&& final(self).current as int == s.j
                &&& final(self).current_expr_id as int == s.idc
                &&& (final(self).errors@.len() > old(self).errors@.len()) == s.err
                &&& match r {
                    Ok(ps) => s.out == Some(params_view(ps)),
                    Err(_) => s.out is None,
                }
            }),
        decreases fuel,
    {
        proof {
            reveal_with_fuel(spec_params, 1);
            reveal_with_fuel(spec_params_items, 1);
        }
        if fuel == 0 {
            return Err(ParseError::UnexpectedEndOfInput);
        }
        let f = fuel - 1;
        self.expect(TokenType::OpenParenthesis, "Expected open parentheses after function name")?;
        let ghost toks = old(self).tokens@;
        let ghost idc0 = old(self).current_expr_id as int;
        let ghost i1 = self.current as int;
        let mut params: Vec<FunctionParameter> = Vec::new();
        let mut fl = f;
        proof {
            assert(params_view(params) =~= Seq::<ParamView>::empty());
        }
        loop
            invariant
                self.wf(),
                self.tokens@ == toks,
                self.errors@.len() == old(self).errors@.len(),
                self.current_expr_id == old(self).current_expr_id,
                old(self).current < self.current <= self.tokens@.len(),
                fl <= f,
                spec_params_items(toks, i1, Seq::empty(), idc0, f as int) == spec_params_items(
                    toks,
                    self.current as int,
                    params_view(params),
                    idc0,
                    fl as int,
                ),
            decreases fl,
        {
            if fl == 0 {
                return Err(ParseError::UnexpectedEndOfInput);
            }
            if self.is_eof() || self.is_match(&TokenType::CloseParenthesis) {
                self.expect(TokenType::CloseParenthesis, "Unmatched open parentheses")?;
                return Ok(params);
            }
            fl = fl - 1;
            let ghost p0 = params;
            let name = self.expect_identifier()?;
            self.expect(TokenType::Colon, "Expected colon after function parameter for type")?;
            let param_type = self.parse_type(fl)?;
            let entry = FunctionParameter { name, param_type };
            let ghost ev = param_view(entry);
            params.push(entry);
            proof {
                assert(params_view(params) =~= params_view(p0).push(ev));
            }
            if self.is_match(&TokenType::Comma) {
                self.advance();
            } else {
                self.expect(TokenType::CloseParenthesis, "Unmatched open parentheses")?;
                return Ok(params);
            }
        }
    }

}

} // verus!
verus! {

impl Parser {

    /// Parses a left-associative chain of logical-or operations.
    #[verifier::loop_isolation(false)]
    #[verifier::spinoff_prover]
    #[verifier::rlimit(100)]
    fn parse_logical_or_or_lower(&mut self, fuel: u64) -> (r: Result<Expression, ParseError>)
        requires
            old(self).wf(),
        ensures
            final(self).wf(),
            final(self).tokens@ == old(self).tokens@,
            old(self).errors@.len() <= final(self).errors@.len(),
            old(self).current_expr_id <= final(self).current_expr_id,
            old(self).current <= final(self).current <= final(self).tokens@.len(),
            r is Ok ==> old(self).current < final(self).current,
            r matches Ok(e) ==> expr_wf(e) && ids_ok(
                expr_ids(e),
                old(self).current_expr_id as int,
                final(self).current_expr_id as int,
            ),
            ({
                let s = spec_logical_or(
                    old(self).tokens@,
                    old(self).current as int,
                    old(self).current_expr_id as int,
                    fuel as int,
                );
                &&& final(self).current as int == s.j
                &&& final(self).current_expr_id as int == s.idc
                &&& (final(self).errors@.len() > old(self).errors@.len()) == s.err
                &&& match r {
                    Ok(e) => s.out == Some(expr_view(e)),
                    Err(_) => s.out is None,
                }
            }),
        decreases fuel,
    {
        proof {
            reveal_with_fuel(spec_logical_or, 1);
            reveal_with_fuel(spec_logical_or_fold, 1);
        }
        if fuel == 0 {
            return Err(ParseError::UnexpectedEndOfInput);
        }
        let f = fuel - 1;
        let ghost toks = old(self).tokens@;
        let ghost id0 = self.current_expr_id as int;
        let mut expr = self.parse_logical_and_or_lower(f)?;
        let ghost e1v = expr_view(expr);
        let ghost j1 = self.current as int;
        let ghost idc1 = self.current_expr_id as int;
        let ghost err1 = self.errors@.len() > old(self).errors@.len();
        let mut fl = f;
        loop
            invariant
                self.wf(),
                self.tokens@ == toks,
                old(self).errors@.len() <= self.errors@.len(),
                id0 <= self.current_expr_id as int,
                old(self).current < self.current <= self.tokens@.len(),
                expr_wf(expr),
                ids_ok(expr_ids(expr), id0, self.current_expr_id as int),
                fl <= f,
                spec_logical_or_fold(toks, j1, e1v, idc1, err1, f as int) == spec_logical_or_fold(
                    toks,
                    self.current as int,
                    expr_view(expr),
                    self.current_expr_id as int,
                    self.errors@.len() > old(self).errors@.len(),
                    fl as int,
                ),
            decreases fl,
        {
            if fl == 0 {
                return Err(ParseError::UnexpectedEndOfInput);
            }
            let operator: Option<BinaryOperator> = if self.is_eof() {
                None
            } else {
                match &self.tokens[self.current].token_type {
                    TokenType::OrOperator => Some(BinaryOperator::Or),
                    _ => None,
                }
            };
            match operator {
                None => {
                    return Ok(expr);
                },
                Some(operator) => {
                    self.advance();
                    fl = fl - 1;
                    let ghost mid = self.current_expr_id as int;
                    let right = match self.parse_logical_and_or_lower(fl) {
                        Ok(x) => x,
                        Err(e) => {
                            return Err(e);
                        },
                    };
                    proof {
                        lemma_ids_concat(
                            expr_ids(expr),
                            expr_ids(right),
                            id0,
                            mid,
                            self.current_expr_id as int,
                        );
                    }
                    expr = Expression::BinaryOperation {
                        left: Box::new(expr),
                        operator,
                        right: Box::new(right),
                    };
                },
            }
        }
    }


    /// Parses a left-associative chain of logical-and operations.
    #[verifier::loop_isolation(false)]
    #[verifier::spinoff_prover]
    #[verifier::rlimit(100)]
    fn parse_logical_and_or_lower(&mut self, fuel: u64) -> (r: Result<Expression, ParseError>)
        requires
            old(self).wf(),
        ensures
            final(self).wf(),
            final(self).tokens@ == old(self).tokens@,
            old(self).errors@.len() <= final(self).errors@.len(),
            old(self).current_expr_id <= final(self).current_expr_id,
            old(self).current <= final(self).current <= final(self).tokens@.len(),
            r is Ok ==> old(self).current < final(self).current,
            r matches Ok(e) ==> expr_wf(e) && ids_ok(
                expr_ids(e),
                old(self).current_expr_id as int,
                final(self).current_expr_id as int,
            ),
            ({
                let s = spec_logical_and(
                    old(self).tokens@,
                    old(self).current as int,
                    old(self).current_expr_id as int,
                    fuel as int,
                );
                &&& final(self).current as int == s.j
                &&& final(self).current_expr_id as int == s.idc
                &&& (final(self).errors@.len() > old(self).errors@.len()) == s.err
                &&& match r {
                    Ok(e) => s.out == Some(expr_view(e)),
                    Err(_) => s.out is None,
                }
            }),
        decreases fuel,
    {
        proof {
            reveal_with_fuel(spec_logical_and, 1);
            reveal_with_fuel(spec_logical_and_fold, 1);
        }
        if fuel == 0 {
            return Err(ParseError::UnexpectedEndOfInput);
        }
        let f = fuel - 1;
        let ghost toks = old(self).tokens@;
        let ghost id0 = self.current_expr_id as int;
        let mut expr = self.parse_equality_or_lower(f)?;
        let ghost e1v = expr_view(expr);
        let ghost j1 = self.current as int;
        let ghost idc1 = self.current_expr_id as int;
        let ghost err1 = self.errors@.len() > old(self).errors@.len();
        let mut fl = f;
        loop
            invariant
                self.wf(),
                self.tokens@ == toks,
                old(self).errors@.len() <= self.errors@.len(),
                id0 <= self.current_expr_id as int,
                old(self).current < self.current <= self.tokens@.len(),
                expr_wf(expr),
                ids_ok(expr_ids(expr), id0, self.current_expr_id as int),
                fl <= f,
                spec_logical_and_fold(toks, j1, e1v, idc1, err1, f as int) == spec_logical_and_fold(
                    toks,
                    self.current as int,
                    expr_view(expr),
                    self.current_expr_id as int,
                    self.errors@.len() > old(self).errors@.len(),
                    fl as int,
                ),
            decreases fl,
        {
            if fl == 0 {
                return Err(ParseError::UnexpectedEndOfInput);
            }
            let operator: Option<BinaryOperator> = if self.is_eof() {
                None
            } else {
                match &self.tokens[self.current].token_type {
                    TokenType::AndOperator => Some(BinaryOperator::And),
                    _ => None,
                }
            };
            match operator {
                None => {
                    return Ok(expr);
                },
                Some(operator) => {
                    self.advance();
                    fl = fl - 1;
                    let ghost mid = self.current_expr_id as int;
                    let right = match self.parse_equality_or_lower(fl) {
                        Ok(x) => x,
                        Err(e) => {
                            return Err(e);
                        },
                    };
                    proof {
                        lemma_ids_concat(
                            expr_ids(expr),
                            expr_ids(right),
                            id0,
                            mid,
                            self.current_expr_id as int,
                        );
                    }
                    expr = Expression::BinaryOperation {
                        left: Box::new(expr),
                        operator,
                        right: Box::new(right),
                    };
                },
            }
        }
    }


    /// Parses a left-associative chain of equality comparisons.
    #[verifier::loop_isolation(false)]
    #[verifier::spinoff_prover]
    #[verifier::rlimit(100)]
    fn parse_equality_or_lower(&mut self, fuel: u64) -> (r: Result<Expression, ParseError>)
        requires
            old(self).wf(),
        ensures
            final(self).wf(),
            final(self).tokens@ == old(self).tokens@,
            old(self).errors@.len() <= final(self).errors@.len(),
            old(self).current_expr_id <= final(self).current_expr_id,
            old(self).current <= final(self).current <= final(self).tokens@.len(),
            r is Ok ==> old(self).current < final(self).current,
            r matches Ok(e) ==> expr_wf(e) && ids_ok(
                expr_ids(e),
                old(self).current_expr_id as int,
                final(self).current_expr_id as int,
            ),
            ({
                let s = spec_equality(
                    old(self).tokens@,
                    old(self).current as int,
                    old(self).current_expr_id as int,
                    fuel as int,
                );
                &&& final(self).current as int == s.j
                &&& final(self).current_expr_id as int == s.idc
                &&& (final(self).errors@.len() > old(self).errors@.len()) == s.err
                &&& match r {
                    Ok(e) => s.out == Some(expr_view(e)),
                    Err(_) => s.out is None,
                }
            }),
        decreases fuel,
    {
        proof {
            reveal_with_fuel(spec_equality, 1);
            reveal_with_fuel(spec_equality_fold, 1);
        }
        if fuel == 0 {
            return Err(ParseError::UnexpectedEndOfInput);
        }
        let f = fuel - 1;
        let ghost toks = old(self).tokens@;
        let ghost id0 = self.current_expr_id as int;
        let mut expr = self.parse_comparison_or_lower(f)?;
        let ghost e1v = expr_view(expr);
        let ghost j1 = self.current as int;
        let ghost idc1 = self.current_expr_id as int;
        let ghost err1 = self.errors@.len() > old(self).errors@.len();
        let mut fl = f;
        loop
            invariant
                self.wf(),
                self.tokens@ == toks,
                old(self).errors@.len() <= self.errors@.len(),
                id0 <= self.current_expr_id as int,
                old(self).current < self.current <= self.tokens@.len(),
                expr_wf(expr),
                ids_ok(expr_ids(expr), id0, self.current_expr_id as int),
                fl <= f,
                spec_equality_fold(toks, j1, e1v, idc1, err1, f as int) == spec_equality_fold(
                    toks,
                    self.current as int,
                    expr_view(expr),
                    self.current_expr_id as int,
                    self.errors@.len() > old(self).errors@.len(),
                    fl as int,
                ),
            decreases fl,
        {
            if fl == 0 {
                return Err(ParseError::UnexpectedEndOfInput);
            }
            let operator: Option<BinaryOperator> = if self.is_eof() {
                None
            } else {
                match &self.tokens[self.current].token_type {
                    TokenType::EqualOperator => Some(BinaryOperator::Equal),
                    TokenType::NotEqualOperator => Some(BinaryOperator::NotEqual),
                    _ => None,
                }
            };
            match operator {
                None => {
                    return Ok(expr);
                },
                Some(operator) => {
                    self.advance();
                    fl = fl - 1;
                    let ghost mid = self.current_expr_id as int;
                    let right = match self.parse_comparison_or_lower(fl) {
                        Ok(x) => x,
                        Err(e) => {
                            return Err(e);
                        },
                    };
                    proof {
                        lemma_ids_concat(
                            expr_ids(expr),
                            expr_ids(right),
                            id0,
                            mid,
                            self.current_expr_id as int,
                        );
                    }
                    expr = Expression::BinaryOperation {
                        left: Box::new(expr),
                        operator,
                        right: Box::new(right),
                    };
                },
            }
        }
    }


    /// Parses a left-associative chain of ordering comparisons.
    #[verifier::loop_isolation(false)]
    #[verifier::spinoff_prover]
    #[verifier::rlimit(100)]
    fn parse_comparison_or_lower(&mut self, fuel: u64) -> (r: Result<Expression, ParseError>)
        requires
            old(self).wf(),
        ensures
            final(self).wf(),
            final(self).tokens@ == old(self).tokens@,
            old(self).errors@.len() <= final(self).errors@.len(),
            old(self).current_expr_id <= final(self).current_expr_id,
            old(self).current <= final(self).current <= final(self).tokens@.len(),
            r is Ok ==> old(self).current < final(self).current,
            r matches Ok(e) ==> expr_wf(e) && ids_ok(
                expr_ids(e),
                old(self).current_expr_id as int,
                final(self).current_expr_id as int,
            ),
            ({
                let s = spec_comparison(
                    old(self).tokens@,
                    old(self).current as int,
                    old(self).current_expr_id as int,
                    fuel as int,
                );
                &&& final(self).current as int == s.j
                &&& final(self).current_expr_id as int == s.idc
                &&& (final(self).errors@.len() > old(self).errors@.len()) == s.err
                &&& match r {
                    Ok(e) => s.out == Some(expr_view(e)),
                    Err(_) => s.out is None,
                }
            }),
        decreases fuel,
    {
        proof {
            reveal_with_fuel(spec_comparison, 1);
            reveal_with_fuel(spec_comparison_fold, 1);
        }
        if fuel == 0 {
            return Err(ParseError::UnexpectedEndOfInput);
        }
        let f = fuel - 1;
        let ghost toks = old(self).tokens@;
        let ghost id0 = self.current_expr_id as int;
        let mut expr = self.parse_term_or_lower(f)?;
        let ghost e1v = expr_view(expr);
        let ghost j1 = self.current as int;
        let ghost idc1 = self.current_expr_id as int;
        let ghost err1 = self.errors@.len() > old(self).errors@.len();
        let mut fl = f;
        loop
            invariant
                self.wf(),
                self.tokens@ == toks,
                old(self).errors@.len() <= self.errors@.len(),
                id0 <= self.current_expr_id as int,
                old(self).current < self.current <= self.tokens@.len(),
                expr_wf(expr),
                ids_ok(expr_ids(expr), id0, self.current_expr_id as int),
                fl <= f,
                spec_comparison_fold(toks, j1, e1v, idc1, err1, f as int) == spec_comparison_fold(
                    toks,
                    self.current as int,
                    expr_view(expr),
                    self.current_expr_id as int,
                    self.errors@.len() > old(self).errors@.len(),
                    fl as int,
                ),
            decreases fl,
        {
            if fl == 0 {
                return Err(ParseError::UnexpectedEndOfInput);
            }
            let operator: Option<BinaryOperator> = if self.is_eof() {
                None
            } else {
                match &self.tokens[self.current].token_type {
                    TokenType::OpenAngleBracket => Some(BinaryOperator::LessThan),
                    TokenType::CloseAngleBracket => Some(BinaryOperator::GreaterThan),
                    TokenType::LessThanEqualOperator => Some(BinaryOperator::LessThanOrEqual),
                    TokenType::GreaterThanEqualOperator => Some(BinaryOperator::GreaterThanOrEqual),
                    _ => None,
                }
            };
            match operator {
                None => {
                    return Ok(expr);
                },
                Some(operator) => {
                    self.advance();
                    fl = fl - 1;
                    let ghost mid = self.current_expr_id as int;
                    let right = match self.parse_term_or_lower(fl) {
                        Ok(x) => x,
                        Err(e) => {
                            return Err(e);
                        },
                    };
                    proof {
                        lemma_ids_concat(
                            expr_ids(expr),
                            expr_ids(right),
                            id0,
                            mid,
                            self.current_expr_id as int,
                        );
                    }
                    expr = Expression::BinaryOperation {
                        left: Box::new(expr),
                        operator,
                        right: Box::new(right),
                    };
                },
            }
        }
    }


    /// Parses a left-associative chain of additions and subtractions.
    #[verifier::loop_isolation(false)]
    #[verifier::spinoff_prover]
    #[verifier::rlimit(100)]
    fn parse_term_or_lower(&mut self, fuel: u64) -> (r: Result<Expression, ParseError>)
        requires
            old(self).wf(),
        ensures
            final(self).wf(),
            final(self).tokens@ == old(self).tokens@,
            old(self).errors@.len() <= final(self).errors@.len(),
            old(self).current_expr_id <= final(self).current_expr_id,
            old(self).current <= final(self).current <= final(self).tokens@.len(),
            r is Ok ==> old(self).current < final(self).current,
            r matches Ok(e) ==> expr_wf(e) && ids_ok(
                expr_ids(e),
                old(self).current_expr_id as int,
                final(self).current_expr_id as int,
            ),
            ({
                let s = spec_term(
                    old(self).tokens@,
                    old(self).current as int,
                    old(self).current_expr_id as int,
                    fuel as int,
                );
                &&& final(self).current as int == s.j
                &&& final(self).current_expr_id as int == s.idc
                &&& (final(self).errors@.len() > old(self).errors@.len()) == s.err
                &&& match r {
                    Ok(e) => s.out == Some(expr_view(e)),
                    Err(_) => s.out is None,
                }
            }),
        decreases fuel,
    {
        proof {
            reveal_with_fuel(spec_term, 1);
            reveal_with_fuel(spec_term_fold, 1);
        }
        if fuel == 0 {
            return Err(ParseError::UnexpectedEndOfInput);
        }
        let f = fuel - 1;
        let ghost toks = old(self).tokens@;
        let ghost id0 = self.current_expr_id as int;
        let mut expr = self.parse_factor_or_lower(f)?;
        let ghost e1v = expr_view(expr);
        let ghost j1 = self.current as int;
        let ghost idc1 = self.current_expr_id as int;
        let ghost err1 = self.errors@.len() > old(self).errors@.len();
        let mut fl = f;
        loop
            invariant
                self.wf(),
                self.tokens@ == toks,
                old(self).errors@.len() <= self.errors@.len(),
                id0 <= self.current_expr_id as int,
                old(self).current < self.current <= self.tokens@.len(),
                expr_wf(expr),
                ids_ok(expr_ids(expr), id0, self.current_expr_id as int),
                fl <= f,
                spec_term_fold(toks, j1, e1v, idc1, err1, f as int) == spec_term_fold(
                    toks,
                    self.current as int,
                    expr_view(expr),
                    self.current_expr_id as int,
                    self.errors@.len() > old(self).errors@.len(),
                    fl as int,
                ),
            decreases fl,
        {
            if fl == 0 {
                return Err(ParseError::UnexpectedEndOfInput);
            }
            let operator: Option<BinaryOperator> = if self.is_eof() {
                None
            } else {
                match &self.tokens[self.current].token_type {
                    TokenType::AddOperator => Some(BinaryOperator::Add),
                    TokenType::SubtractOperator => Some(BinaryOperator::Subtract),
                    _ => None,
                }
            };
            match operator {
                None => {
                    return Ok(expr);
                },
                Some(operator) => {
                    self.advance();
                    fl = fl - 1;
                    let ghost mid = self.current_expr_id as int;
                    let right = match self.parse_factor_or_lower(fl) {
                        Ok(x) => x,
                        Err(e) => {
                            return Err(e);
                        },
                    };
                    proof {
                        lemma_ids_concat(
                            expr_ids(expr),
                            expr_ids(right),
                            id0,
                            mid,
                            self.current_expr_id as int,
                        );
                    }
                    expr = Expression::BinaryOperation {
                        left: Box::new(expr),
                        operator,
                        right: Box::new(right),
                    };
                },
            }
        }
    }


    /// Parses a left-associative chain of multiplicative operations.
    #[verifier::loop_isolation(false)]
    #[verifier::spinoff_prover]
    #[verifier::rlimit(100)]
    fn parse_factor_or_lower(&mut self, fuel: u64) -> (r: Result<Expression, ParseError>)
        requires
            old(self).wf(),
        ensures
            final(self).wf(),
            final(self).tokens@ == old(self).tokens@,
            old(self).errors@.len() <= final(self).errors@.len(),
            old(self).current_expr_id <= final(self).current_expr_id,
            old(self).current <= final(self).current <= final(self).tokens@.len(),
            r is Ok ==> old(self).current < final(self).current,
            r matches Ok(e) ==> expr_wf(e) && ids_ok(
                expr_ids(e),
                old(self).current_expr_id as int,
                final(self).current_expr_id as int,
            ),
            ({
                let s = spec_factor(
                    old(self).tokens@,
                    old(self).current as int,
                    old(self).current_expr_id as int,
                    fuel as int,
                );
                &&& final(self).current as int == s.j
                &&& final(self).current_expr_id as int == s.idc
                &&& (final(self).errors@.len() > old(self).errors@.len()) == s.err
                &&& match r {
                    Ok(e) => s.out == Some(expr_view(e)),
                    Err(_) => s.out is None,
                }
            }),
        decreases fuel,
    {
        proof {
            reveal_with_fuel(spec_factor, 1);
            reveal_with_fuel(spec_factor_fold, 1);
        }
        if fuel == 0 {
            return Err(ParseError::UnexpectedEndOfInput);
        }
        let f = fuel - 1;
        let ghost toks = old(self).tokens@;
        let ghost id0 = self.current_expr_id as int;
        let mut expr = self.parse_unary_or_lower(f)?;
        let ghost e1v = expr_view(expr);
        let ghost j1 = self.current as int;
        let ghost idc1 = self.current_expr_id as int;
        let ghost err1 = self.errors@.len() > old(self).errors@.len();
        let mut fl = f;
        loop
            invariant
                self.wf(),
                self.tokens@ == toks,
                old(self).errors@.len() <= self.errors@.len(),
                id0 <= self.current_expr_id as int,
                old(self).current < self.current <= self.tokens@.len(),
                expr_wf(expr),
                ids_ok(expr_ids(expr), id0, self.current_expr_id as int),
                fl <= f,
                spec_factor_fold(toks, j1, e1v, idc1, err1, f as int) == spec_factor_fold(
                    toks,
                    self.current as int,
                    expr_view(expr),
                    self.current_expr_id as int,
                    self.errors@.len() > old(self).errors@.len(),
                    fl as int,
                ),
            decreases fl,
        {
            if fl == 0 {
                return Err(ParseError::UnexpectedEndOfInput);
            }
            let operator: Option<BinaryOperator> = if self.is_eof() {
                None
            } else {
                match &self.tokens[self.current].token_type {
                    TokenType::MultiplyOperator => Some(BinaryOperator::Multiply),
                    TokenType::DivideOperator => Some(BinaryOperator::Divide),
                    TokenType::ModuloOperator => Some(BinaryOperator::Modulus),
                    _ => None,
                }
            };
            match operator {
                None => {
                    return Ok(expr);
                },
                Some(operator) => {
                    self.advance();
                    fl = fl - 1;
                    let ghost mid = self.current_expr_id as int;
                    let right = match self.parse_unary_or_lower(fl) {
                        Ok(x) => x,
                        Err(e) => {
                            return Err(e);
                        },
                    };
                    proof {
                        lemma_ids_concat(
                            expr_ids(expr),
                            expr_ids(right),
                            id0,
                            mid,
                            self.current_expr_id as int,
                        );
                    }
                    expr = Expression::BinaryOperation {
                        left: Box::new(expr),
                        operator,
                        right: Box::new(right),
                    };
                },
            }
        }
    }

}

} // verus!

verus! {

impl Parser {
    /// Parses a prefix run of unary operators; an empty run falls through
    /// to the call level unchanged.
    #[verifier::loop_isolation(false)]
    #[verifier::spinoff_prover]
    #[verifier::rlimit(100)]
    fn parse_unary_or_lower(&mut self, fuel: u64) -> (r: Result<Expression, ParseError>)
        requires
            old(self).wf(),
        ensures
            final(self).wf(),
            final(self).tokens@ == old(self).tokens@,
            old(self).errors@.len() <= final(self).errors@.len(),
            old(self).current_expr_id <= final(self).current_expr_id,
            old(self).current <= final(self).current <= final(self).tokens@.len(),
            r is Ok ==> old(self).current < final(self).current,
            r matches Ok(e) ==> expr_wf(e) && ids_ok(
                expr_ids(e),
                old(self).current_expr_id as int,
                final(self).current_expr_id as int,
            ),
            ({
                let s = spec_unary(
                    old(self).tokens@,
                    old(self).current as int,
                    old(self).current_expr_id as int,
                    fuel as int,
                );
                &&& final(self).current as int == s.j
                &&& final(self).current_expr_id as int == s.idc
                &&& (final(self).errors@.len() > old(self).errors@.len()) == s.err
                &&& match r {
                    Ok(e) => s.out == Some(expr_view(e)),
                    Err(_) => s.out is None,
                }
            }),
        decreases fuel,
    {
        proof {
            reveal_with_fuel(spec_unary, 1);
            reveal_with_fuel(spec_unary_loop, 1);
        }
        if fuel == 0 {
            return Err(ParseError::UnexpectedEndOfInput);
        }
        let f = fuel - 1;
        let ghost toks = old(self).tokens@;
        let ghost id0 = self.current_expr_id as int;
        let mut expr: Option<Expression> = None;
        let mut fl = f;
        loop
            invariant
                self.wf(),
                self.tokens@ == toks,
                old(self).errors@.len() <= self.errors@.len(),
                id0 <= self.current_expr_id as int,
                old(self).current <= self.current <= self.tokens@.len(),
                expr is Some ==> old(self).current < self.current,
                match expr {
                    Some(e) => expr_wf(e) && ids_ok(expr_ids(e), id0, self.current_expr_id as int),
                    None => self.current == old(self).current && self.current_expr_id as int
                        == id0 && self.errors@.len() == old(self).errors@.len(),
                },
                fl <= f,
                spec_unary_loop(toks, old(self).current as int, None, id0, false, f as int)
                    == spec_unary_loop(
                    toks,
                    self.current as int,
                    match expr {
                        Some(e) => Some(expr_view(e)),
                        None => None::<ExprView>,
                    },
                    self.current_expr_id as int,
                    self.errors@.len() > old(self).errors@.len(),
                    fl as int,
                ),
            decreases fl,
        {
            if fl == 0 {
                return Err(ParseError::UnexpectedEndOfInput);
            }
            fl = fl - 1;
            let operator: Option<UnaryOperator> = if self.is_eof() {
                None
            } else {
                match &self.tokens[self.current].token_type {
                    TokenType::NotOperator => Some(UnaryOperator::Not),
                    TokenType::SubtractOperator => Some(UnaryOperator::Negate),
                    _ => None,
                }
            };
            match operator {
                None => match expr {
                    Some(e) => {
                        return Ok(e);
                    },
                    None => {
                        return self.parse_call_or_lower(fl);
                    },
                },
                Some(operator) => {
                    self.advance();
                    let ghost mid = self.current_expr_id as int;
                    let operand = match self.parse_call_or_lower(fl) {
                        Ok(x) => x,
                        Err(e) => {
                            return Err(e);
                        },
                    };
                    proof {
                        lemma_ids_widen(
                            expr_ids(operand),
                            mid,
                            self.current_expr_id as int,
                            id0,
                            self.current_expr_id as int,
                        );
                    }
                    expr = Some(Expression::UnaryOperation {
                        operator,
                        operand: Box::new(operand),
                    });
                },
            }
        }
    }

    /// Parses a primary expression followed by any chain of function
    /// calls and member accesses.
    #[verifier::loop_isolation(false)]
    #[verifier::spinoff_prover]
    #[verifier::rlimit(100)]
    fn parse_call_or_lower(&mut self, fuel: u64) -> (r: Result<Expression, ParseError>)
        requires
            old(self).wf(),
        ensures
            final(self).wf(),
            final(self).tokens@ == old(self).tokens@,
            old(self).errors@.len() <= final(self).errors@.len(),
            old(self).current_expr_id <= final(self).current_expr_id,
            old(self).current <= final(self).current <= final(self).tokens@.len(),
            r is Ok ==> old(self).current < final(self).current,
            r matches Ok(e) ==> expr_wf(e) && ids_ok(
                expr_ids(e),
                old(self).current_expr_id as int,
                final(self).current_expr_id as int,
            ),
            ({
                let s = spec_call(
                    old(self).tokens@,
                    old(self).current as int,
                    old(self).current_expr_id as int,
                    fuel as int,
                );
                &&& final(self).current as int == s.j
                &&& final(self).current_expr_id as int == s.idc
                &&& (final(self).errors@.len() > old(self).errors@.len()) == s.err
                &&& match r {
                    Ok(e) => s.out == Some(expr_view(e)),
                    Err(_) => s.out is None,
                }
            }),
        decreases fuel,
    {
        proof {
            reveal_with_fuel(spec_call, 1);
            reveal_with_fuel(spec_call_chain, 1);
        }
        if fuel == 0 {
            return Err(ParseError::UnexpectedEndOfInput);
        }
        let f = fuel - 1;
        let ghost toks = old(self).tokens@;
        let ghost id0 = self.current_expr_id as int;
        let mut expr = self.parse_primary_or_lower(f)?;
        let ghost e1v = expr_view(expr);
        let ghost j1 = self.current as int;
        let ghost idc1 = self.current_expr_id as int;
        let ghost err1 = self.errors@.len() > old(self).errors@.len();
        let mut fl = f;
        loop
            invariant
                self.wf(),
                self.tokens@ == toks,
                old(self).errors@.len() <= self.errors@.len(),
                id0 <= self.current_expr_id as int,
                old(self).current < self.current <= self.tokens@.len(),
                expr_wf(expr),
                ids_ok(expr_ids(expr), id0, self.current_expr_id as int),
                fl <= f,
                spec_call_chain(toks, j1, e1v, idc1, err1, f as int) == spec_call_chain(
                    toks,
                    self.current as int,
                    expr_view(expr),
                    self.current_expr_id as int,
                    self.errors@.len() > old(self).errors@.len(),
                    fl as int,
                ),
            decreases fl,
        {
            if fl == 0 {
                return Err(ParseError::UnexpectedEndOfInput);
            }
            fl = fl - 1;
            if self.advance_if(&TokenType::OpenParenthesis) {
                let ghost mid = self.current_expr_id as int;
                let args = match self.parse_function_call_after_paren(fl) {
                    Ok(x) => x,
                    Err(e) => {
                        return Err(e);
                    },
                };
                proof {
                    lemma_ids_concat(
                        expr_ids(expr),
                        exprs_ids(args, 0),
                        id0,
                        mid,
                        self.current_expr_id as int,
                    );
                }
                expr = Expression::FunctionCall { callee: Box::new(expr), args };
            } else if self.advance_if(&TokenType::Dot) {
                let name = self.expect_identifier()?;
                expr = Expression::MemberAccess { object: Box::new(expr), member: name };
            } else {
                return Ok(expr);
            }
        }
    }

    /// Parses the arguments and closing parenthesis of a function call
    /// whose opening parenthesis is already consumed.
    #[verifier::loop_isolation(false)]
    #[verifier::spinoff_prover]
    #[verifier::rlimit(100)]
    fn parse_function_call_after_paren(&mut self, fuel: u64) -> (r: Result<
        Vec<Expression>,
        ParseError,
    >)
        requires
            old(self).wf(),
        ensures
            final(self).wf(),
            final(self).tokens@ == old(self).tokens@,
            old(self).errors@.len() <= final(self).errors@.len(),
            old(self).current_expr_id <= final(self).current_expr_id,
            old(self).current <= final(self).current <= final(self).tokens@.len(),
            r is Ok ==> old(self).current < final(self).current,
            r matches Ok(args) ==> (forall|i: int|
                0 <= i < args@.len() ==> expr_wf(#[trigger] args@[i])) && ids_ok(
                exprs_ids(args, 0),
                old(self).current_expr_id as int,
                final(self).current_expr_id as int,
            ),
            ({
                let s = spec_call_args(
                    old(self).tokens@,
                    old(self).current as int,
                    old(self).current_expr_id as int,
                    fuel as int,
                );
                &&& final(self).current as int == s.j
                &&& final(self).current_expr_id as int == s.idc
                &&& (final(self).errors@.len() > old(self).errors@.len()) == s.err
                &&& match r {
                    Ok(args) => s.out == Some(exprs_view(args)),
                    Err(_) => s.out is None,
                }
            }),
        decreases fuel,
    {
        proof {
            reveal_with_fuel(spec_call_args, 1);
            reveal_with_fuel(spec_call_args_items, 1);
        }
        if fuel == 0 {
            return Err(ParseError::UnexpectedEndOfInput);
        }
        let f = fuel - 1;
        let ghost toks = old(self).tokens@;
        let ghost id0 = self.current_expr_id as int;
        let ghost i0 = self.current as int;
        let mut args: Vec<Expression> = Vec::new();
        let mut fl = f;
        proof {
            assert(exprs_view(args) =~= Seq::<ExprView>::empty());
            assert(exprs_ids(args, 0) =~= Seq::<u32>::empty());
        }
        loop
            invariant
                self.wf(),
                self.tokens@ == toks,
                old(self).errors@.len() <= self.errors@.len(),
                id0 <= self.current_expr_id as int,
                old(self).current <= self.current <= self.tokens@.len(),
                forall|i: int| 0 <= i < args@.len() ==> expr_wf(#[trigger] args@[i]),
                ids_ok(exprs_ids(args, 0), id0, self.current_expr_id as int),
                fl <= f,
                spec_call_args_items(toks, i0, Seq::empty(), id0, false, f as int)
                    == spec_call_args_items(
                    toks,
                    self.current as int,
                    exprs_view(args),
                    self.current_expr_id as int,
                    self.errors@.len() > old(self).errors@.len(),
                    fl as int,
                ),
            decreases fl,
        {
            if fl == 0 {
                return Err(ParseError::UnexpectedEndOfInput);
            }
            if self.is_eof() || self.is_match(&TokenType::CloseParenthesis) {
                self.expect(TokenType::CloseParenthesis, "Unmatched open parentheses")?;
                return Ok(args);
            }
            fl = fl - 1;
            let ghost mid = self.current_expr_id as int;
            let ghost a0 = args;
            let arg = match self.parse_expression_fueled(fl) {
                Ok(x) => x,
                Err(e) => {
                    return Err(e);
                },
            };
            let ghost av = expr_view(arg);
            let ghost aidv = expr_ids(arg);
            args.push(arg);
            proof {
                assert(exprs_view(args) =~= exprs_view(a0).push(av));
                lemma_exprs_ids_push(a0, args, args@[args@.len() - 1], 0);
                lemma_ids_concat(
                    exprs_ids(a0, 0),
                    aidv,
                    id0,
                    mid,
                    self.current_expr_id as int,
                );
            }
            if self.is_match(&TokenType::Comma) {
                self.advance();
            } else {
                self.expect(TokenType::CloseParenthesis, "Unmatched open parentheses")?;
                return Ok(args);
            }
        }
    }

    /// Parses a literal, a variable reference (minting its expression
    /// id), or a parenthesized expression.
    #[verifier::spinoff_prover]
    #[verifier::rlimit(100)]
    fn parse_primary_or_lower(&mut self, fuel: u64) -> (r: Result<Expression, ParseError>)
        requires
            old(self).wf(),
        ensures
            final(self).wf(),
            final(self).tokens@ == old(self).tokens@,
            old(self).errors@.len() <= final(self).errors@.len(),
            old(self).current_expr_id <= final(self).current_expr_id,
            old(self).current <= final(self).current <= final(self).tokens@.len(),
            r is Ok ==> old(self).current < final(self).current,
            r matches Ok(e) ==> expr_wf(e) && ids_ok(
                expr_ids(e),
                old(self).current_expr_id as int,
                final(self).current_expr_id as int,
            ),
            ({
                let s = spec_primary(
                    old(self).tokens@,
                    old(self).current as int,
                    old(self).current_expr_id as int,
                    fuel as int,
                );
                &&& final(self).current as int == s.j
                &&& final(self).current_expr_id as int == s.idc
                &&& (final(self).errors@.len() > old(self).errors@.len()) == s.err
                &&& match r {
                    Ok(e) => s.out == Some(expr_view(e)),
                    Err(_) => s.out is None,
                }
            }),
        decreases fuel,
    {
        proof {
            reveal_with_fuel(spec_primary, 1);
        }
        if fuel == 0 {
            return Err(ParseError::UnexpectedEndOfInput);
        }
        let f = fuel - 1;
        if self.current >= self.tokens.len() {
            return Err(ParseError::UnexpectedEndOfInput);
        }
        let scanned = match &self.tokens[self.current].token_type {
            TokenType::IntegerLiteral(v) => Scanned::Done(Expression::NumberLiteral(num_from_i64(*v))),
            TokenType::FloatLiteral(b) => Scanned::Done(Expression::NumberLiteral(*b)),
            TokenType::StringLiteral(s) => Scanned::Done(Expression::StringLiteral(s.clone())),
            TokenType::CharLiteral(c) => Scanned::Done(Expression::CharLiteral(*c)),
            TokenType::TrueValue => Scanned::Done(Expression::BooleanLiteral(true)),
            TokenType::FalseValue => Scanned::Done(Expression::BooleanLiteral(false)),
            TokenType::Identifier(name) => Scanned::Ident(name.clone()),
            TokenType::OpenParenthesis => Scanned::Paren,
            _ => Scanned::No,
        };
        match scanned {
            Scanned::Done(e) => {
                self.advance();
                Ok(e)
            },
            Scanned::Ident(name) => {
                self.advance();
                let expression_id = self.get_id();
                Ok(Expression::Variable { name, expression_id })
            },
            Scanned::Paren => {
                self.advance();
                let expr = self.parse_expression_fueled(f)?;
                self.expect(TokenType::CloseParenthesis, "Unmatched open parentheses")?;
                Ok(expr)
            },
            Scanned::No => Err(self.unexpected(None, "Expected an expression")),
        }
    }
}

} // verus!

verus! {

impl Parser {
    /// Parses an assignment (right-associative, only onto a bare variable
    /// reference, whose expression id the assignment keeps) or anything of
    /// lower precedence.
    #[verifier::spinoff_prover]
    #[verifier::rlimit(100)]
    fn parse_assignment_or_lower(&mut self, fuel: u64) -> (r: Result<Expression, ParseError>)
        requires
            old(self).wf(),
        ensures
            final(self).wf(),
            final(self).tokens@ == old(self).tokens@,
            old(self).errors@.len() <= final(self).errors@.len(),
            old(self).current_expr_id <= final(self).current_expr_id,
            old(self).current <= final(self).current <= final(self).tokens@.len(),
            r is Ok ==> old(self).current < final(self).current,
            r matches Ok(e) ==> expr_wf(e) && ids_ok(
                expr_ids(e),
                old(self).current_expr_id as int,
                final(self).current_expr_id as int,
            ),
            ({
                let s = spec_assignment(
                    old(self).tokens@,
                    old(self).current as int,
                    old(self).current_expr_id as int,
                    fuel as int,
                );
                &&& final(self).current as int == s.j
                &&& final(self).current_expr_id as int == s.idc
                &&& (final(self).errors@.len() > old(self).errors@.len()) == s.err
                &&& match r {
                    Ok(e) => s.out == Some(expr_view(e)),
                    Err(_) => s.out is None,
                }
            }),
        decreases fuel,
    {
        proof {
            reveal_with_fuel(spec_assignment, 1);
        }
        if fuel == 0 {
            return Err(ParseError::UnexpectedEndOfInput);
        }
        let f = fuel - 1;
        let ghost id0 = self.current_expr_id as int;
        let expr = self.parse_logical_or_or_lower(f)?;
        if self.advance_if(&TokenType::AssignmentOperator) {
            let ghost mid = self.current_expr_id as int;
            let ghost expr0 = expr;
            let value = self.parse_logical_or_or_lower(f)?;
            match expr {
                Expression::Variable { name, expression_id } => {
                    proof {
                        lemma_ids_concat(
                            expr_ids(expr0),
                            expr_ids(value),
                            id0,
                            mid,
                            self.current_expr_id as int,
                        );
                        assert(expr_ids(expr0) =~= seq![expression_id.0]);
                        assert(seq![expression_id.0] + expr_ids(value) == expr_ids(expr0)
                            + expr_ids(value));
                    }
                    Ok(Expression::Assignment { name, value: Box::new(value), expression_id })
                },
                _ => Err(self.unexpected(
                    Some(TokenType::Identifier(String::new())),
                    "Expected an identifier for assignment",
                )),
            }
        } else {
            Ok(expr)
        }
    }

    /// Parses any expression: a block, one of the three loop forms, an
    /// `if`, an array or struct creation, or an operator expression.
    #[verifier::loop_isolation(false)]
    #[verifier::spinoff_prover]
    #[verifier::rlimit(100)]
    fn parse_expression_fueled(&mut self, fuel: u64) -> (r: Result<Expression, ParseError>)
        requires
            old(self).wf(),
        ensures
            final(self).wf(),
            final(self).tokens@ == old(self).tokens@,
            old(self).errors@.len() <= final(self).errors@.len(),
            old(self).current_expr_id <= final(self).current_expr_id,
            old(self).current <= final(self).current <= final(self).tokens@.len(),
            r is Ok ==> old(self).current < final(self).current,
            r matches Ok(e) ==> expr_wf(e) && ids_ok(
                expr_ids(e),
                old(self).current_expr_id as int,
                final(self).current_expr_id as int,
            ),
            ({
                let s = spec_expression(
                    old(self).tokens@,
                    old(self).current as int,
                    old(self).current_expr_id as int,
                    fuel as int,
                );
                &&& final(self).current as int == s.j
                &&& final(self).current_expr_id as int == s.idc
                &&& (final(self).errors@.len() > old(self).errors@.len()) == s.err
                &&& match r {
                    Ok(e) => s.out == Some(expr_view(e)),
                    Err(_) => s.out is None,
                }
            }),
        decreases fuel,
    {
        proof {
            reveal_with_fuel(spec_expression, 1);
            reveal_with_fuel(spec_field_items, 1);
        }
        if fuel == 0 {
            return Err(ParseError::UnexpectedEndOfInput);
        }
        let f = fuel - 1;
        let ghost toks = old(self).tokens@;
        let ghost id0 = self.current_expr_id as int;
        if self.is_match(&TokenType::OpenCurlyBracket) {
            return self.parse_block_fueled(f);
        }
        if self.advance_if(&TokenType::LoopKeyword) {
            if self.advance_if(&TokenType::OpenParenthesis) {
                let mutability: Option<VariableMutability> = if self.is_match(
                    &TokenType::LetKeyword,
                ) {
                    Some(VariableMutability::Mutable)
                } else if self.is_match(&TokenType::ConstKeyword) {
                    Some(VariableMutability::Immutable)
                } else {
                    None
                };
                match mutability {
                    Some(mutability) => {
                        self.advance();
                        let iterator = self.expect_identifier()?;
                        self.expect(TokenType::Colon, "Expected colon after variable name")?;
                        let ghost m1 = self.current_expr_id as int;
                        let iterable = self.parse_expression_fueled(f)?;
                        self.expect(TokenType::CloseParenthesis, "Unmatched open parentheses")?;
                        let ghost m2 = self.current_expr_id as int;
                        let body = self.parse_block_fueled(f)?;
                        proof {
                            lemma_ids_concat(
                                expr_ids(iterable),
                                expr_ids(body),
                                m1,
                                m2,
                                self.current_expr_id as int,
                            );
                            lemma_ids_widen(
                                expr_ids(iterable) + expr_ids(body),
                                m1,
                                self.current_expr_id as int,
                                id0,
                                self.current_expr_id as int,
                            );
                        }
                        let ghost itv = expr_view(iterable);
                        let ghost bov = expr_view(body);
                        let ghost nmv = iterator@;
                        let ls = LoopStatement::Iterator {
                            body: Box::new(body),
                            mutability,
                            iterator,
                            iterable: Box::new(iterable),
                        };
                        proof {
                            assert(loop_wf(ls));
                            assert(ids_ok(loop_ids(ls), id0, self.current_expr_id as int));
                            assert(loop_view(ls) =~= LoopView::Iterator {
                                mutability,
                                iterator: nmv,
                                iterable: Box::new(itv),
                                body: Box::new(bov),
                            });
                        }
                        return Ok(Expression::Loop(ls));
                    },
                    None => {},
                }
                let ghost m1 = self.current_expr_id as int;
                let condition = self.parse_expression_fueled(f)?;
                self.expect(TokenType::CloseParenthesis, "Unmatched open parentheses")?;
                let ghost m2 = self.current_expr_id as int;
                let body = self.parse_block_fueled(f)?;
                proof {
                    lemma_ids_concat(
                        expr_ids(condition),
                        expr_ids(body),
                        m1,
                        m2,
                        self.current_expr_id as int,
                    );
                    lemma_ids_widen(
                        expr_ids(condition) + expr_ids(body),
                        m1,
                        self.current_expr_id as int,
                        id0,
                        self.current_expr_id as int,
                    );
                }
                let ghost cov = expr_view(condition);
                let ghost bov = expr_view(body);
                let ls = LoopStatement::While {
                    condition: Box::new(condition),
                    body: Box::new(body),
                };
                proof {
                    assert(loop_wf(ls));
                    assert(ids_ok(loop_ids(ls), id0, self.current_expr_id as int));
                    assert(loop_view(ls) =~= LoopView::While {
                        condition: Box::new(cov),
                        body: Box::new(bov),
                    });
                }
                return Ok(Expression::Loop(ls));
            } else {
                let body = self.parse_block_fueled(f)?;
                let ghost bov = expr_view(body);
                let ls = LoopStatement::Infinite { body: Box::new(body) };
                proof {
                    assert(loop_wf(ls));
                    assert(ids_ok(loop_ids(ls), id0, self.current_expr_id as int));
                    assert(loop_view(ls) =~= LoopView::Infinite { body: Box::new(bov) });
                }
                return Ok(Expression::Loop(ls));
            }
        }
        if self.advance_if(&TokenType::IfKeyword) {
            self.expect(TokenType::OpenParenthesis, "Expected open parentheses after if")?;
            let ghost m1 = self.current_expr_id as int;
            let condition = self.parse_expression_fueled(f)?;
            self.expect(TokenType::CloseParenthesis, "Unmatched open parentheses")?;
            let ghost m2 = self.current_expr_id as int;
            let body = self.parse_expression_fueled(f)?;
            self.advance_if(&TokenType::Semicolon);
            let ghost m3 = self.current_expr_id as int;
            let else_branch: Option<Box<Expression>> = if self.advance_if(
                &TokenType::ElseKeyword,
            ) {
                let eb = self.parse_expression_fueled(f)?;
                Some(Box::new(eb))
            } else {
                None
            };
            proof {
                lemma_ids_concat(expr_ids(condition), expr_ids(body), m1, m2, m3);
                let tail = match &else_branch {
                    Some(eb) => expr_ids(**eb),
                    None => Seq::<u32>::empty(),
                };
                lemma_ids_concat(
                    expr_ids(condition) + expr_ids(body),
                    tail,
                    m1,
                    m3,
                    self.current_expr_id as int,
                );
                lemma_ids_widen(
                    expr_ids(condition) + expr_ids(body) + tail,
                    m1,
                    self.current_expr_id as int,
                    id0,
                    self.current_expr_id as int,
                );
            }
            return Ok(Expression::If {
                condition: Box::new(condition),
                then_branch: Box::new(body),
                else_branch,
            });
        }
        if self.advance_if(&TokenType::OpenSquareBracket) {
            let array_type = self.parse_type(f)?;
            self.expect(TokenType::Comma, "Expected comma after array type")?;
            let ghost m1 = self.current_expr_id as int;
            let size = self.parse_expression_fueled(f)?;
            self.expect(TokenType::CloseSquareBracket, "Unmatched open square bracket")?;
            self.expect(TokenType::OpenCurlyBracket, "Expected open brace after array size")?;
            let ghost m2 = self.current_expr_id as int;
            let initial_value = self.parse_expression_fueled(f)?;
            self.expect(TokenType::CloseCurlyBracket, "Unmatched open brace")?;
            proof {
                lemma_ids_concat(
                    expr_ids(size),
                    expr_ids(initial_value),
                    m1,
                    m2,
                    self.current_expr_id as int,
                );
                lemma_ids_widen(
                    expr_ids(size) + expr_ids(initial_value),
                    m1,
                    self.current_expr_id as int,
                    id0,
                    self.current_expr_id as int,
                );
            }
            return Ok(Expression::Array {
                array_type,
                size: Box::new(size),
                initial_value: Box::new(initial_value),
            });
        }
        if self.advance_if(&TokenType::NewKeyword) {
            let struct_type = self.parse_type(f)?;
            self.expect(TokenType::OpenCurlyBracket, "Expected open brace after struct name")?;
            let ghost i1 = self.current as int;
            let mut fields: Vec<(String, Expression)> = Vec::new();
            let mut fl = f;
            proof {
                assert(fields_view(fields) =~= Seq::<(Seq<char>, ExprView)>::empty());
                assert(fields_ids(fields, 0) =~= Seq::<u32>::empty());
            }
            loop
                invariant
                    self.wf(),
                    self.tokens@ == toks,
                    old(self).errors@.len() <= self.errors@.len(),
                    id0 <= self.current_expr_id as int,
                    old(self).current < self.current <= self.tokens@.len(),
                    forall|i: int| 0 <= i < fields@.len() ==> expr_wf((#[trigger] fields@[i]).1),
                    ids_ok(fields_ids(fields, 0), id0, self.current_expr_id as int),
                    fl <= f,
                    spec_field_items(toks, i1, Seq::empty(), id0, false, f as int)
                        == spec_field_items(
                        toks,
                        self.current as int,
                        fields_view(fields),
                        self.current_expr_id as int,
                        self.errors@.len() > old(self).errors@.len(),
                        fl as int,
                    ),
                decreases fl,
            {
                if fl == 0 {
                    return Err(ParseError::UnexpectedEndOfInput);
                }
                if self.is_eof() || self.is_match(&TokenType::CloseCurlyBracket) {
                    self.expect(TokenType::CloseCurlyBracket, "Unmatched open brace")?;
                    return Ok(Expression::StructCreation { struct_type, fields });
                }
                fl = fl - 1;
                let name = self.expect_identifier()?;
                self.expect(TokenType::Colon, "Expected colon after struct field name")?;
                let ghost m1 = self.current_expr_id as int;
                let ghost fields0 = fields;
                let value = match self.parse_expression_fueled(fl) {
                    Ok(x) => x,
                    Err(e) => {
                        return Err(e);
                    },
                };
                let ghost vv = expr_view(value);
                let ghost vids = expr_ids(value);
                let ghost nv = name@;
                fields.push((name, value));
                proof {
                    assert(fields_view(fields) =~= fields_view(fields0).push((nv, vv)));
                    lemma_fields_ids_push(fields0, fields, fields@[fields@.len() - 1], 0);
                    lemma_ids_concat(
                        fields_ids(fields0, 0),
                        vids,
                        id0,
                        m1,
                        self.current_expr_id as int,
                    );
                }
                if !self.advance_if(&TokenType::Comma) {
                    self.expect(TokenType::CloseCurlyBracket, "Unmatched open brace")?;
                    return Ok(Expression::StructCreation { struct_type, fields });
                }
            }
        }
        self.parse_assignment_or_lower(f)
    }

    /// Parses a braced block of statements.  Collection stops as soon as
    /// a result expression (no trailing semicolon) is accepted, so a
    /// result expression can only stand last.  A statement that fails to
    /// parse is recorded as one error and skipped by resynchronizing.
    #[verifier::loop_isolation(false)]
    #[verifier::spinoff_prover]
    #[verifier::rlimit(100)]
    fn parse_block_fueled(&mut self, fuel: u64) -> (r: Result<Expression, ParseError>)
        requires
            old(self).wf(),
        ensures
            final(self).wf(),
            final(self).tokens@ == old(self).tokens@,
            old(self).errors@.len() <= final(self).errors@.len(),
            old(self).current_expr_id <= final(self).current_expr_id,
            old(self).current <= final(self).current <= final(self).tokens@.len(),
            r is Ok ==> old(self).current < final(self).current,
            r matches Ok(e) ==> expr_wf(e) && ids_ok(
                expr_ids(e),
                old(self).current_expr_id as int,
                final(self).current_expr_id as int,
            ),
            ({
                let s = spec_block(
                    old(self).tokens@,
                    old(self).current as int,
                    old(self).current_expr_id as int,
                    fuel as int,
                );
                &&& final(self).current as int == s.j
                &&& final(self).current_expr_id as int == s.idc
                &&& (final(self).errors@.len() > old(self).errors@.len()) == s.err
                &&& match r {
                    Ok(e) => s.out == Some(expr_view(e)),
                    Err(_) => s.out is None,
                }
            }),
        decreases fuel,
    {
        proof {
            reveal_with_fuel(spec_block, 1);
            reveal_with_fuel(spec_block_items, 1);
        }
        if fuel == 0 {
            return Err(ParseError::UnexpectedEndOfInput);
        }
        let f = fuel - 1;
        let ghost toks = old(self).tokens@;
        let ghost id0 = self.current_expr_id as int;
        self.expect(TokenType::OpenCurlyBracket, "Expected open brace")?;
        let ghost i1 = self.current as int;
        let mut statements: Vec<Statement> = Vec::new();
        let mut fl = f;
        proof {
            assert(stmts_view(statements) =~= Seq::<StmtView>::empty());
            assert(stmts_ids(statements, 0) =~= Seq::<u32>::empty());
        }
        loop
            invariant
                self.wf(),
                self.tokens@ == toks,
                old(self).errors@.len() <= self.errors@.len(),
                id0 <= self.current_expr_id as int,
                old(self).current < self.current <= self.tokens@.len(),
                forall|i: int| 0 <= i < statements@.len() ==> stmt_wf(#[trigger] statements@[i]),
                ids_ok(stmts_ids(statements, 0), id0, self.current_expr_id as int),
                block_stmts_ok(statements@),
                forall|i: int|
                    0 <= i < statements@.len() ==> !stmt_is_result(#[trigger] statements@[i]),
                fl <= f,
                spec_block_items(toks, i1, Seq::empty(), id0, false, f as int)
                    == spec_block_items(
                    toks,
                    self.current as int,
                    stmts_view(statements),
                    self.current_expr_id as int,
                    self.errors@.len() > old(self).errors@.len(),
                    fl as int,
                ),
            decreases fl,
        {
            if fl == 0 {
                return Err(ParseError::UnexpectedEndOfInput);
            }
            if self.is_eof() || self.is_match(&TokenType::CloseCurlyBracket) {
                self.expect(TokenType::CloseCurlyBracket, "Unmatched open brace")?;
                return Ok(Expression::Block(statements));
            }
            fl = fl - 1;
            let ghost m1 = self.current_expr_id as int;
            let ghost stmts0 = statements;
            match self.parse_statement_fueled(fl) {
                Ok(stmt) => {
                    let is_result_expression = match &stmt {
                        Statement::Expression { result: true, .. } => true,
                        _ => false,
                    };
                    let ghost sv = stmt_view(stmt);
                    let ghost sids = stmt_ids(stmt);
                    statements.push(stmt);
                    proof {
                        assert(stmts_view(statements) =~= stmts_view(stmts0).push(sv));
                        lemma_stmts_ids_push(
                            stmts0,
                            statements,
                            statements@[statements@.len() - 1],
                            0,
                        );
                        lemma_ids_concat(
                            stmts_ids(stmts0, 0),
                            sids,
                            id0,
                            m1,
                            self.current_expr_id as int,
                        );
                    }
                    if is_result_expression {
                        self.expect(TokenType::CloseCurlyBracket, "Unmatched open brace")?;
                        return Ok(Expression::Block(statements));
                    }
                },
                Err(e) => {
                    self.errors.push(e);
                    self.synchronize();
                    proof {
                        lemma_ids_widen(
                            stmts_ids(statements, 0),
                            id0,
                            m1,
                            id0,
                            self.current_expr_id as int,
                        );
                    }
                },
            }
        }
    }

    /// Parses one statement: a nested declaration, `break`, `continue`, a
    /// variable declaration of the shape `name : type = expression ;`, a
    /// `return`, or an expression statement whose missing trailing
    /// semicolon marks it as the block's result.
    #[verifier::spinoff_prover]
    #[verifier::rlimit(100)]
    fn parse_statement_fueled(&mut self, fuel: u64) -> (r: Result<Statement, ParseError>)
        requires
            old(self).wf(),
        ensures
            final(self).wf(),
            final(self).tokens@ == old(self).tokens@,
            old(self).errors@.len() <= final(self).errors@.len(),
            old(self).current_expr_id <= final(self).current_expr_id,
            old(self).current <= final(self).current <= final(self).tokens@.len(),
            r is Ok ==> old(self).current < final(self).current,
            r matches Ok(s) ==> stmt_wf(s) && ids_ok(
                stmt_ids(s),
                old(self).current_expr_id as int,
                final(self).current_expr_id as int,
            ),
            ({
                let s = spec_statement(
                    old(self).tokens@,
                    old(self).current as int,
                    old(self).current_expr_id as int,
                    fuel as int,
                );
                &&& final(self).current as int == s.j
                &&& final(self).current_expr_id as int == s.idc
                &&& (final(self).errors@.len() > old(self).errors@.len()) == s.err
                &&& match r {
                    Ok(st) => s.out == Some(stmt_view(st)),
                    Err(_) => s.out is None,
                }
            }),
        decreases fuel,
    {
        proof {
            reveal_with_fuel(spec_statement, 1);
        }
        if fuel == 0 {
            return Err(ParseError::UnexpectedEndOfInput);
        }
        let f = fuel - 1;
        let ghost id0 = self.current_expr_id as int;
        match self.try_parse_declaration(f)? {
            Some(decl) => {
                return Ok(Statement::Declaration(decl));
            },
            None => {},
        }
        if self.current >= self.tokens.len() {
            return Err(ParseError::UnexpectedEndOfInput);
        }
        if self.advance_if(&TokenType::BreakKeyword) {
            self.expect(TokenType::Semicolon, "Expected semicolon after break")?;
            return Ok(Statement::Break);
        }
        if self.advance_if(&TokenType::ContinueKeyword) {
            self.expect(TokenType::Semicolon, "Expected semicolon after continue")?;
            return Ok(Statement::Continue);
        }
        let mutability: Option<VariableMutability> = if self.is_match(&TokenType::LetKeyword) {
            Some(VariableMutability::Mutable)
        } else if self.is_match(&TokenType::ConstKeyword) {
            Some(VariableMutability::Immutable)
        } else {
            None
        };
        match mutability {
            Some(mutability) => {
                self.advance();
                let name = self.expect_identifier()?;
                self.expect(TokenType::Colon, "Expected colon after variable name")?;
                let variable_type = self.parse_type(f)?;
                self.expect(
                    TokenType::AssignmentOperator,
                    "Expected assignment operator after variable type",
                )?;
                let value = self.parse_expression_fueled(f)?;
                self.expect(
                    TokenType::Semicolon,
                    "Expected semicolon after variable declaration",
                )?;
                return Ok(Statement::VariableDeclaration {
                    mutability,
                    name,
                    variable_type,
                    value: Box::new(value),
                });
            },
            None => {},
        }
        if self.advance_if(&TokenType::ReturnKeyword) {
            let value: Option<Box<Expression>> = if self.is_match(&TokenType::Semicolon) {
                None
            } else {
                let v = self.parse_expression_fueled(f)?;
                Some(Box::new(v))
            };
            self.expect(TokenType::Semicolon, "Expected semicolon after return")?;
            return Ok(Statement::Return(value));
        }
        let expr = self.parse_expression_fueled(f)?;
        let result = if self.is_match(&TokenType::Semicolon) {
            self.advance();
            false
        } else {
            true
        };
        Ok(Statement::Expression { expression: Box::new(expr), result })
    }

    /// Parses a declaration if the cursor is on one of the four
    /// declaration keywords; consumes nothing otherwise.
    #[verifier::loop_isolation(false)]
    #[verifier::spinoff_prover]
    #[verifier::rlimit(100)]
    fn try_parse_declaration(&mut self, fuel: u64) -> (r: Result<Option<Declaration>, ParseError>)
        requires
            old(self).wf(),
        ensures
            final(self).wf(),
            final(self).tokens@ == old(self).tokens@,
            old(self).errors@.len() <= final(self).errors@.len(),
            old(self).current_expr_id <= final(self).current_expr_id,
            old(self).current <= final(self).current <= final(self).tokens@.len(),
            r matches Ok(Some(d)) ==> old(self).current < final(self).current && decl_wf(d)
                && ids_ok(
                decl_ids(d),
                old(self).current_expr_id as int,
                final(self).current_expr_id as int,
            ),
            r matches Ok(None) ==> final(self).current == old(self).current
                && final(self).current_expr_id == old(self).current_expr_id
                && final(self).errors@ == old(self).errors@,
            ({
                let s = spec_try_declaration(
                    old(self).tokens@,
                    old(self).current as int,
                    old(self).current_expr_id as int,
                    fuel as int,
                );
                &&& final(self).current as int == s.j
                &&& final(self).current_expr_id as int == s.idc
                &&& (final(self).errors@.len() > old(self).errors@.len()) == s.err
                &&& match r {
                    Ok(Some(d)) => s.out == Some(Some(decl_view(d))),
                    Ok(None) => s.out == Some(None::<DeclView>),
                    Err(_) => s.out is None,
                }
            }),
        decreases fuel,
    {
        proof {
            reveal_with_fuel(spec_try_declaration, 1);
            reveal_with_fuel(spec_import_path, 1);
            reveal_with_fuel(spec_elem_items, 1);
        }
        if fuel == 0 {
            return Err(ParseError::UnexpectedEndOfInput);
        }
        let f = fuel - 1;
        let ghost toks = old(self).tokens@;
        let ghost id0 = self.current_expr_id as int;
        if self.advance_if(&TokenType::FunctionKeyword) {
            let name = self.expect_identifier()?;
            let generic_args = self.parse_generic_args(f)?;
            let params = self.parse_function_parameters(f)?;
            self.expect(TokenType::Arrow, "Expected arrow after function parameters for type")?;
            let return_type = self.parse_type(f)?;
            let ghost m1 = self.current_expr_id as int;
            let body = self.parse_block_fueled(f)?;
            proof {
                lemma_ids_widen(
                    expr_ids(body),
                    m1,
                    self.current_expr_id as int,
                    id0,
                    self.current_expr_id as int,
                );
            }
            Ok(Some(Declaration::Function {
                name,
                params,
                return_type,
                generic_args,
                body: Box::new(body),
            }))
        } else if self.advance_if(&TokenType::ImportKeyword) {
            let first = self.expect_identifier()?;
            let ghost fv = first@;
            let mut path: Vec<String> = Vec::new();
            path.push(first);
            let ghost j1 = self.current as int;
            let mut fl = f;
            proof {
                assert(strings_view(path) =~= seq![fv]);
            }
            loop
                invariant
                    self.wf(),
                    self.tokens@ == toks,
                    self.errors@.len() == old(self).errors@.len(),
                    self.current_expr_id == old(self).current_expr_id,
                    old(self).current < self.current <= self.tokens@.len(),
                    fl <= f,
                    spec_import_path(toks, j1, seq![fv], id0, f as int) == spec_import_path(
                        toks,
                        self.current as int,
                        strings_view(path),
                        id0,
                        fl as int,
                    ),
                decreases fl,
            {
                if fl == 0 {
                    return Err(ParseError::UnexpectedEndOfInput);
                }
                if self.advance_if(&TokenType::Dot) {
                    let ghost p0 = path;
                    let part = self.expect_identifier()?;
                    let ghost pv = part@;
                    path.push(part);
                    proof {
                        assert(strings_view(path) =~= strings_view(p0).push(pv));
                    }
                    fl = fl - 1;
                } else {
                    self.expect(TokenType::Semicolon, "Expected semicolon after import path")?;
                    return Ok(Some(Declaration::Import { path }));
                }
            }
        } else if self.advance_if(&TokenType::StructKeyword) {
            let name = self.expect_identifier()?;
            let generic_args = self.parse_generic_args(f)?;
            self.expect(TokenType::OpenCurlyBracket, "Expected open brace after struct name")?;
            let ghost i1 = self.current as int;
            let mut elements: Vec<StructElement> = Vec::new();
            let mut fl = f;
            proof {
                assert(elems_view(elements) =~= Seq::<ElemView>::empty());
                assert(elems_ids(elements, 0) =~= Seq::<u32>::empty());
            }
            loop
                invariant
                    self.wf(),
                    self.tokens@ == toks,
                    old(self).errors@.len() <= self.errors@.len(),
                    id0 <= self.current_expr_id as int,
                    old(self).current < self.current <= self.tokens@.len(),
                    forall|i: int| 0 <= i < elements@.len() ==> elem_wf(#[trigger] elements@[i]),
                    ids_ok(elems_ids(elements, 0), id0, self.current_expr_id as int),
                    fl <= f,
                    spec_elem_items(toks, i1, Seq::empty(), id0, false, f as int)
                        == spec_elem_items(
                        toks,
                        self.current as int,
                        elems_view(elements),
                        self.current_expr_id as int,
                        self.errors@.len() > old(self).errors@.len(),
                        fl as int,
                    ),
                decreases fl,
            {
                if fl == 0 {
                    return Err(ParseError::UnexpectedEndOfInput);
                }
                if self.is_eof() || self.is_match(&TokenType::CloseCurlyBracket) {
                    self.expect(TokenType::CloseCurlyBracket, "Unmatched open brace")?;
                    return Ok(Some(Declaration::Struct { name, elements, generic_args }));
                }
                fl = fl - 1;
                let ghost m1 = self.current_expr_id as int;
                let ghost elems0 = elements;
                let elem = match self.parse_struct_element(fl) {
                    Ok(x) => x,
                    Err(e) => {
                        return Err(e);
                    },
                };
                let ghost ev = elem_view(elem);
                let ghost eids = elem_ids(elem);
                elements.push(elem);
                proof {
                    assert(elems_view(elements) =~= elems_view(elems0).push(ev));
                    lemma_elems_ids_push(
                        elems0,
                        elements,
                        elements@[elements@.len() - 1],
                        0,
                    );
                    lemma_ids_concat(
                        elems_ids(elems0, 0),
                        eids,
                        id0,
                        m1,
                        self.current_expr_id as int,
                    );
                }
            }
        } else if self.advance_if(&TokenType::TypeKeyword) {
            let name = self.expect_identifier()?;
            let generic_args = self.parse_generic_args(f)?;
            self.expect(
                TokenType::AssignmentOperator,
                "Expected assignment operator after type name",
            )?;
            let alias = self.parse_type(f)?;
            self.expect(TokenType::Semicolon, "Expected semicolon after type declaration")?;
            Ok(Some(Declaration::TypeDeclaration { name, alias, generic_args }))
        } else {
            Ok(None)
        }
    }

    /// Parses a struct member: a nested declaration or a `name: type;`
    /// field.
    #[verifier::spinoff_prover]
    #[verifier::rlimit(100)]
    fn parse_struct_element(&mut self, fuel: u64) -> (r: Result<StructElement, ParseError>)
        requires
            old(self).wf(),
        ensures
            final(self).wf(),
            final(self).tokens@ == old(self).tokens@,
            old(self).errors@.len() <= final(self).errors@.len(),
            old(self).current_expr_id <= final(self).current_expr_id,
            old(self).current <= final(self).current <= final(self).tokens@.len(),
            r is Ok ==> old(self).current < final(self).current,
            r matches Ok(e) ==> elem_wf(e) && ids_ok(
                elem_ids(e),
                old(self).current_expr_id as int,
                final(self).current_expr_id as int,
            ),
            ({
                let s = spec_struct_element(
                    old(self).tokens@,
                    old(self).current as int,
                    old(self).current_expr_id as int,
                    fuel as int,
                );
                &&& final(self).current as int == s.j
                &&& final(self).current_expr_id as int == s.idc
                &&& (final(self).errors@.len() > old(self).errors@.len()) == s.err
                &&& match r {
                    Ok(e) => s.out == Some(elem_view(e)),
                    Err(_) => s.out is None,
                }
            }),
        decreases fuel,
    {
        proof {
            reveal_with_fuel(spec_struct_element, 1);
        }
        if fuel == 0 {
            return Err(ParseError::UnexpectedEndOfInput);
        }
        let f = fuel - 1;
        match self.try_parse_declaration(f)? {
            Some(decl) => {
                return Ok(StructElement::Declaration(decl));
            },
            None => {},
        }
        let name = self.expect_identifier()?;
        self.expect(TokenType::Colon, "Expected colon after struct field name")?;
        let field_type = self.parse_type(f)?;
        self.expect(TokenType::Semicolon, "Expected semicolon after struct field declaration")?;
        Ok(StructElement::Field { name, field_type })
    }

    /// Parses one top-level declaration; the cursor must be on one of the
    /// declaration keywords.
    #[verifier::spinoff_prover]
    #[verifier::rlimit(100)]
    fn parse_declaration_fueled(&mut self, fuel: u64) -> (r: Result<Declaration, ParseError>)
        requires
            old(self).wf(),
        ensures
            final(self).wf(),
            final(self).tokens@ == old(self).tokens@,
            old(self).errors@.len() <= final(self).errors@.len(),
            old(self).current_expr_id <= final(self).current_expr_id,
            old(self).current <= final(self).current <= final(self).tokens@.len(),
            r is Ok ==> old(self).current < final(self).current,
            r matches Ok(d) ==> decl_wf(d) && ids_ok(
                decl_ids(d),
                old(self).current_expr_id as int,
                final(self).current_expr_id as int,
            ),
            ({
                let s = spec_declaration(
                    old(self).tokens@,
                    old(self).current as int,
                    old(self).current_expr_id as int,
                    fuel as int,
                );
                &&& final(self).current as int == s.j
                &&& final(self).current_expr_id as int == s.idc
                &&& (final(self).errors@.len() > old(self).errors@.len()) == s.err
                &&& match r {
                    Ok(d) => s.out == Some(decl_view(d)),
                    Err(_) => s.out is None,
                }
            }),
        decreases fuel,
    {
        proof {
            reveal_with_fuel(spec_declaration, 1);
        }
        if fuel == 0 {
            return Err(ParseError::UnexpectedEndOfInput);
        }
        let f = fuel - 1;
        match self.try_parse_declaration(f)? {
            Some(decl) => Ok(decl),
            None => Err(self.unexpected(
                None,
                "Expected a function, struct, type, or import declaration",
            )),
        }
    }

    /// Parses the entire token sequence: exactly the program the grammar
    /// derives from the tokens (the declarations in token order), when no
    /// syntax error was recorded; every error is recorded in `errors`
    /// (one per malformed construct, with resynchronization between), and
    /// any recorded error makes the whole parse fail.
    #[verifier::loop_isolation(false)]
    #[verifier::spinoff_prover]
    #[verifier::rlimit(100)]
    pub fn parse_program(&mut self) -> (r: Option<Program>)
        requires
            old(self).wf(),
        ensures
            final(self).wf(),
            final(self).tokens@ == old(self).tokens@,
            match r {
                Some(p) => program_wf(p) && ids_ok(
                    program_ids(p),
                    old(self).current_expr_id as int,
                    final(self).current_expr_id as int,
                ) && final(self).errors@.len() == 0 && spec_parse_program(
                    old(self).tokens@,
                    old(self).current as int,
                    old(self).current_expr_id as int,
                    parse_fuel(old(self).tokens@.len() as int),
                ) == Some(program_view(p)),
                None => final(self).errors@.len() > 0 && spec_parse_program(
                    old(self).tokens@,
                    old(self).current as int,
                    old(self).current_expr_id as int,
                    parse_fuel(old(self).tokens@.len() as int),
                ) is None,
            },
    {
        proof {
            reveal_with_fuel(spec_parse_program, 1);
            reveal_with_fuel(spec_program_decls, 1);
        }
        let ghost toks = old(self).tokens@;
        let ghost id0 = self.current_expr_id as int;
        let ghost i0 = self.current as int;
        let n = self.tokens.len();
        let fuel: u64 = 32 * (n as u64) + 64;
        proof {
            assert(fuel as int == parse_fuel(toks.len() as int));
        }
        let mut declarations: Vec<Declaration> = Vec::new();
        self.errors = Vec::new();
        let mut fl = fuel;
        proof {
            assert(decls_view(declarations) =~= Seq::<DeclView>::empty());
            assert(decls_ids(declarations, 0) =~= Seq::<u32>::empty());
        }
        loop
            invariant
                self.wf(),
                self.tokens@ == toks,
                id0 <= self.current_expr_id as int,
                i0 <= self.current <= self.tokens@.len(),
                forall|i: int|
                    0 <= i < declarations@.len() ==> decl_wf(#[trigger] declarations@[i]),
                ids_ok(decls_ids(declarations, 0), id0, self.current_expr_id as int),
                fl <= fuel,
                spec_program_decls(toks, i0, Seq::empty(), id0, false, fuel as int)
                    == spec_program_decls(
                    toks,
                    self.current as int,
                    decls_view(declarations),
                    self.current_expr_id as int,
                    self.errors@.len() > 0,
                    fl as int,
                ),
            decreases fl,
        {
            if fl == 0 {
                self.errors.push(ParseError::UnexpectedEndOfInput);
                return None;
            }
            if self.is_eof() {
                if self.errors.len() > 0 {
                    return None;
                }
                return Some(Program { declarations });
            }
            fl = fl - 1;
            let ghost m1 = self.current_expr_id as int;
            let ghost decls0 = declarations;
            match self.parse_declaration_fueled(fl) {
                Ok(decl) => {
                    let ghost dv = decl_view(decl);
                    let ghost dids = decl_ids(decl);
                    declarations.push(decl);
                    proof {
                        assert(decls_view(declarations) =~= decls_view(decls0).push(dv));
                        lemma_decls_ids_push(
                            decls0,
                            declarations,
                            declarations@[declarations@.len() - 1],
                            0,
                        );
                        lemma_ids_concat(
                            decls_ids(decls0, 0),
                            dids,
                            id0,
                            m1,
                            self.current_expr_id as int,
                        );
                    }
                },
                Err(e) => {
                    self.errors.push(e);
                    self.synchronize();
                    proof {
                        lemma_ids_widen(
                            decls_ids(declarations, 0),
                            id0,
                            m1,
                            id0,
                            self.current_expr_id as int,
                        );
                    }
                },
            }
        }
    }

    /// Parses one expression from the cursor.
    #[verifier::spinoff_prover]
    #[verifier::rlimit(100)]
    pub fn parse_expression(&mut self) -> (r: Result<Expression, ParseError>)
        requires
            old(self).wf(),
        ensures
            final(self).wf(),
            final(self).tokens@ == old(self).tokens@,
            old(self).errors@.len() <= final(self).errors@.len(),
            old(self).current_expr_id <= final(self).current_expr_id,
            old(self).current <= final(self).current <= final(self).tokens@.len(),
            r is Ok ==> old(self).current < final(self).current,
            r matches Ok(e) ==> expr_wf(e) && ids_ok(
                expr_ids(e),
                old(self).current_expr_id as int,
                final(self).current_expr_id as int,
            ),
            ({
                let s = spec_expression(
                    old(self).tokens@,
                    old(self).current as int,
                    old(self).current_expr_id as int,
                    parse_fuel(old(self).tokens@.len() as int),
                );
                &&& final(self).current as int == s.j
                &&& final(self).current_expr_id as int == s.idc
                &&& (final(self).errors@.len() > old(self).errors@.len()) == s.err
                &&& match r {
                    Ok(e) => s.out == Some(expr_view(e)),
                    Err(_) => s.out is None,
                }
            }),
    {
        let n = self.tokens.len();
        let fuel: u64 = 32 * (n as u64) + 64;
        proof {
            assert(fuel as int == parse_fuel(self.tokens@.len() as int));
        }
        self.parse_expression_fueled(fuel)
    }

    /// Parses one braced block from the cursor.
    #[verifier::spinoff_prover]
    #[verifier::rlimit(100)]
    pub fn parse_block(&mut self) -> (r: Result<Expression, ParseError>)
        requires
            old(self).wf(),
        ensures
            final(self).wf(),
            final(self).tokens@ == old(self).tokens@,
            old(self).errors@.len() <= final(self).errors@.len(),
            old(self).current_expr_id <= final(self).current_expr_id,
            old(self).current <= final(self).current <= final(self).tokens@.len(),
            r is Ok ==> old(self).current < final(self).current,
            r matches Ok(e) ==> expr_wf(e) && ids_ok(
                expr_ids(e),
                old(self).current_expr_id as int,
                final(self).current_expr_id as int,
            ),
            ({
                let s = spec_block(
                    old(self).tokens@,
                    old(self).current as int,
                    old(self).current_expr_id as int,
                    parse_fuel(old(self).tokens@.len() as int),
                );
                &&& final(self).current as int == s.j
                &&& final(self).current_expr_id as int == s.idc
                &&& (final(self).errors@.len() > old(self).errors@.len()) == s.err
                &&& match r {
                    Ok(e) => s.out == Some(expr_view(e)),
                    Err(_) => s.out is None,
                }
            }),
    {
        let n = self.tokens.len();
        let fuel: u64 = 32 * (n as u64) + 64;
        proof {
            assert(fuel as int == parse_fuel(self.tokens@.len() as int));
        }
        self.parse_block_fueled(fuel)
    }

    /// Parses one statement from the cursor.
    #[verifier::spinoff_prover]
    #[verifier::rlimit(100)]
    pub fn parse_statement(&mut self) -> (r: Result<Statement, ParseError>)
        requires
            old(self).wf(),
        ensures
            final(self).wf(),
            final(self).tokens@ == old(self).tokens@,
            old(self).errors@.len() <= final(self).errors@.len(),
            old(self).current_expr_id <= final(self).current_expr_id,
            old(self).current <= final(self).current <= final(self).tokens@.len(),
            r is Ok ==> old(self).current < final(self).current,
            r matches Ok(s) ==> stmt_wf(s) && ids_ok(
                stmt_ids(s),
                old(self).current_expr_id as int,
                final(self).current_expr_id as int,
            ),
            ({
                let s = spec_statement(
                    old(self).tokens@,
                    old(self).current as int,
                    old(self).current_expr_id as int,
                    parse_fuel(old(self).tokens@.len() as int),
                );
                &&& final(self).current as int == s.j
                &&& final(self).current_expr_id as int == s.idc
                &&& (final(self).errors@.len() > old(self).errors@.len()) == s.err
                &&& match r {
                    Ok(st) => s.out == Some(stmt_view(st)),
                    Err(_) => s.out is None,
                }
            }),
    {
        let n = self.tokens.len();
        let fuel: u64 = 32 * (n as u64) + 64;
        proof {
            assert(fuel as int == parse_fuel(self.tokens@.len() as int));
        }
        self.parse_statement_fueled(fuel)
    }

    /// Parses one top-level declaration from the cursor.
    #[verifier::spinoff_prover]
    #[verifier::rlimit(100)]
    pub fn parse_declaration(&mut self) -> (r: Result<Declaration, ParseError>)
        requires
            old(self).wf(),
        ensures
            final(self).wf(),
            final(self).tokens@ == old(self).tokens@,
            old(self).errors@.len() <= final(self).errors@.len(),
            old(self).current_expr_id <= final(self).current_expr_id,
            old(self).current <= final(self).current <= final(self).tokens@.len(),
            r is Ok ==> old(self).current < final(self).current,
            r matches Ok(d) ==> decl_wf(d) && ids_ok(
                decl_ids(d),
                old(self).current_expr_id as int,
                final(self).current_expr_id as int,
            ),
            ({
                let s = spec_declaration(
                    old(self).tokens@,
                    old(self).current as int,
                    old(self).current_expr_id as int,
                    parse_fuel(old(self).tokens@.len() as int),
                );
                &&& final(self).current as int == s.j
                &&& final(self).current_expr_id as int == s.idc
                &&& (final(self).errors@.len() > old(self).errors@.len()) == s.err
                &&& match r {
                    Ok(d) => s.out == Some(decl_view(d)),
                    Err(_) => s.out is None,
                }
            }),
    {
        let n = self.tokens.len();
        let fuel: u64 = 32 * (n as u64) + 64;
        proof {
            assert(fuel as int == parse_fuel(self.tokens@.len() as int));
        }
        self.parse_declaration_fueled(fuel)
    }
}

} // verus!
