//! The grammar, as a mathematical function: what tree a token sequence
//! parses to, where the cursor stops, which expression ids are minted, and
//! whether a syntax error was recorded on the way.
//!
//! Every function here mirrors one step of the recursive-descent parser
//! and is indexed by fuel, one unit per parsing step; the parser spends
//! fuel from a budget amply above what any token sequence can use
//! ([`parse_fuel`]), and is proved to return exactly what these functions
//! say at that budget.  A [`Step`] whose `out` is `None` is a parse
//! error; `err` says whether an error was *recorded* (error recovery
//! inside blocks and at the top level records and resynchronizes).

use vstd::prelude::*;
use crate::tokenizer::{Token, TokenType, TokenTypeView};
use crate::numbers::bits_of_i64;
use crate::parser::ast::{
    BinaryOperator, DeclView, ElemView, ExprView, LoopView, ParamView, StmtView, TypeView,
    UnaryOperator, VariableMutability,
};

verus! {

/// The outcome of one parsing step: the parsed thing (`None` on a parse
/// error), the cursor after, the id counter after, and whether an error
/// was recorded along the way.
#[verifier::ext_equal]
pub struct Step<T> {
    pub out: Option<T>,
    pub j: int,
    pub idc: int,
    pub err: bool,
}

/// The fuel budget for a token sequence of length `n`: far above the
/// deepest call chain any `n` tokens can drive.
pub open spec fn parse_fuel(n: int) -> int {
    32 * n + 64
}

/// Whether the token at `i` has exactly the type `tt`.
pub open spec fn tok_at(toks: Seq<Token>, i: int, tt: TokenTypeView) -> bool {
    0 <= i < toks.len() && toks[i].token_type@ == tt
}

/// Consuming one expected token: whether it was there, and the cursor
/// after.
pub open spec fn spec_expect(toks: Seq<Token>, i: int, tt: TokenTypeView) -> (bool, int) {
    if tok_at(toks, i, tt) {
        (true, i + 1)
    } else {
        (false, i)
    }
}

/// Consuming an identifier: its name if one is there, and the cursor
/// after.
pub open spec fn spec_ident(toks: Seq<Token>, i: int) -> (Option<Seq<char>>, int) {
    if 0 <= i < toks.len() {
        match toks[i].token_type {
            TokenType::Identifier(n) => (Some(n@), i + 1),
            _ => (None, i),
        }
    } else {
        (None, i)
    }
}

/// Whether a token type can begin a new declaration or statement: where
/// error recovery stops.
pub open spec fn sync_boundary(tt: TokenTypeView) -> bool {
    ||| tt is FunctionKeyword
    ||| tt is ImportKeyword
    ||| tt is StructKeyword
    ||| tt is TypeKeyword
    ||| tt is LetKeyword
    ||| tt is ConstKeyword
    ||| tt is LoopKeyword
    ||| tt is IfKeyword
    ||| tt is ElseKeyword
    ||| tt is ReturnKeyword
    ||| tt is BreakKeyword
    ||| tt is ContinueKeyword
    ||| tt is OpenCurlyBracket
}

/// The scanning part of error recovery: the cursor stops just past a
/// semicolon, on a boundary token, or at the end of input.
pub open spec fn spec_sync_scan(toks: Seq<Token>, i: int) -> int
    decreases toks.len() - i,
{
    if i < 0 || i >= toks.len() {
        i
    } else if toks[i].token_type@ is Semicolon {
        i + 1
    } else if sync_boundary(toks[i].token_type@) {
        i
    } else {
        spec_sync_scan(toks, i + 1)
    }
}

/// Error recovery from cursor `i`: one token is consumed, then the scan
/// runs.
pub open spec fn spec_sync(toks: Seq<Token>, i: int) -> int {
    if 0 <= i < toks.len() {
        spec_sync_scan(toks, i + 1)
    } else {
        i
    }
}

/// Parses a type.
#[verifier::opaque]
pub open spec fn spec_type(toks: Seq<Token>, i: int, idc: int, fuel: int) -> Step<TypeView>
    decreases fuel,
{
    if fuel <= 0 {
        Step { out: None, j: i, idc, err: false }
    } else {
        let f = fuel - 1;
        if !(0 <= i < toks.len()) {
            Step { out: None, j: i, idc, err: false }
        } else if toks[i].token_type@ is OpenSquareBracket {
            let s1 = spec_type(toks, i + 1, idc, f);
            match s1.out {
                None => Step { out: None, j: s1.j, idc, err: false },
                Some(t1) => {
                    let (ok2, j2) = spec_expect(toks, s1.j, TokenTypeView::CloseSquareBracket);
                    if ok2 {
                        Step { out: Some(TypeView::Array(Box::new(t1))), j: j2, idc, err: false }
                    } else {
                        Step { out: None, j: s1.j, idc, err: false }
                    }
                },
            }
        } else {
            match toks[i].token_type {
                TokenType::Identifier(n) => {
                    if n@ == "u8"@ {
                        Step { out: Some(TypeView::U8), j: i + 1, idc, err: false }
                    } else if n@ == "u16"@ {
                        Step { out: Some(TypeView::U16), j: i + 1, idc, err: false }
                    } else if n@ == "u32"@ {
                        Step { out: Some(TypeView::U32), j: i + 1, idc, err: false }
                    } else if n@ == "u64"@ {
                        Step { out: Some(TypeView::U64), j: i + 1, idc, err: false }
                    } else if n@ == "i8"@ {
                        Step { out: Some(TypeView::I8), j: i + 1, idc, err: false }
                    } else if n@ == "i16"@ {
                        Step { out: Some(TypeView::I16), j: i + 1, idc, err: false }
                    } else if n@ == "i32"@ {
                        Step { out: Some(TypeView::I32), j: i + 1, idc, err: false }
                    } else if n@ == "i64"@ {
                        Step { out: Some(TypeView::I64), j: i + 1, idc, err: false }
                    } else if n@ == "f32"@ {
                        Step { out: Some(TypeView::F32), j: i + 1, idc, err: false }
                    } else if n@ == "f64"@ {
                        Step { out: Some(TypeView::F64), j: i + 1, idc, err: false }
                    } else if n@ == "bool"@ {
                        Step { out: Some(TypeView::Boolean), j: i + 1, idc, err: false }
                    } else if n@ == "char"@ {
                        Step { out: Some(TypeView::Character), j: i + 1, idc, err: false }
                    } else {
                        let g = spec_generics(toks, i + 1, idc, f);
                        match g.out {
                            Some(ts) => Step {
                                out: Some(TypeView::Identifier { name: n@, generics: ts }),
                                j: g.j,
                                idc,
                                err: false,
                            },
                            None => Step { out: None, j: g.j, idc, err: false },
                        }
                    }
                },
                _ => Step { out: None, j: i, idc, err: false },
            }
        }
    }
}

/// Parses an optional angle-bracketed list of types.
#[verifier::opaque]
pub open spec fn spec_generics(toks: Seq<Token>, i: int, idc: int, fuel: int) -> Step<
    Seq<TypeView>,
>
    decreases fuel,
{
    if fuel <= 0 {
        Step { out: None, j: i, idc, err: false }
    } else {
        let f = fuel - 1;
        if !tok_at(toks, i, TokenTypeView::OpenAngleBracket) {
            Step { out: Some(Seq::empty()), j: i, idc, err: false }
        } else {
            let l = spec_generics_items(toks, i + 1, Seq::empty(), idc, f);
            match l.out {
                None => Step { out: None, j: l.j, idc, err: false },
                Some(ts) => {
                    let (ok2, j2) = spec_expect(toks, l.j, TokenTypeView::CloseAngleBracket);
                    if ok2 {
                        Step { out: Some(ts), j: j2, idc, err: false }
                    } else {
                        Step { out: None, j: l.j, idc, err: false }
                    }
                },
            }
        }
    }
}

/// The comma-separated types of a generics list, accumulated in order.
#[verifier::opaque]
pub open spec fn spec_generics_items(
    toks: Seq<Token>,
    i: int,
    acc: Seq<TypeView>,
    idc: int,
    fuel: int,
) -> Step<Seq<TypeView>>
    decreases fuel,
{
    if fuel <= 0 {
        Step { out: None, j: i, idc, err: false }
    } else {
        let f = fuel - 1;
        if !(0 <= i < toks.len()) || toks[i].token_type@ is CloseAngleBracket {
            Step { out: Some(acc), j: i, idc, err: false }
        } else {
            let s = spec_type(toks, i, idc, f);
            match s.out {
                None => Step { out: None, j: s.j, idc, err: false },
                Some(t) => {
                    if tok_at(toks, s.j, TokenTypeView::Comma) {
                        spec_generics_items(toks, s.j + 1, acc.push(t), idc, f)
                    } else {
                        Step { out: Some(acc.push(t)), j: s.j, idc, err: false }
                    }
                },
            }
        }
    }
}

/// Parses an optional angle-bracketed list of generic parameter names.
#[verifier::opaque]
pub open spec fn spec_generic_args(toks: Seq<Token>, i: int, idc: int, fuel: int) -> Step<
    Seq<Seq<char>>,
>
    decreases fuel,
{
    if fuel <= 0 {
        Step { out: None, j: i, idc, err: false }
    } else {
        let f = fuel - 1;
        if !tok_at(toks, i, TokenTypeView::OpenAngleBracket) {
            Step { out: Some(Seq::empty()), j: i, idc, err: false }
        } else {
            let l = spec_generic_args_items(toks, i + 1, Seq::empty(), idc, f);
            match l.out {
                None => Step { out: None, j: l.j, idc, err: false },
                Some(ns) => {
                    let (ok2, j2) = spec_expect(toks, l.j, TokenTypeView::CloseAngleBracket);
                    if ok2 {
                        Step { out: Some(ns), j: j2, idc, err: false }
                    } else {
                        Step { out: None, j: l.j, idc, err: false }
                    }
                },
            }
        }
    }
}

/// The comma-separated names of a generic-parameter list.
#[verifier::opaque]
pub open spec fn spec_generic_args_items(
    toks: Seq<Token>,
    i: int,
    acc: Seq<Seq<char>>,
    idc: int,
    fuel: int,
) -> Step<Seq<Seq<char>>>
    decreases fuel,
{
    if fuel <= 0 {
        Step { out: None, j: i, idc, err: false }
    } else {
        let f = fuel - 1;
        if !(0 <= i < toks.len()) || toks[i].token_type@ is CloseAngleBracket {
            Step { out: Some(acc), j: i, idc, err: false }
        } else {
            let (n, j1) = spec_ident(toks, i);
            match n {
                None => Step { out: None, j: j1, idc, err: false },
                Some(nm) => {
                    if tok_at(toks, j1, TokenTypeView::Comma) {
                        spec_generic_args_items(toks, j1 + 1, acc.push(nm), idc, f)
                    } else {
                        Step { out: Some(acc.push(nm)), j: j1, idc, err: false }
                    }
                },
            }
        }
    }
}

/// Parses a parenthesized `name: type` parameter list.
#[verifier::opaque]
pub open spec fn spec_params(toks: Seq<Token>, i: int, idc: int, fuel: int) -> Step<
    Seq<ParamView>,
>
    decreases fuel,
{
    if fuel <= 0 {
        Step { out: None, j: i, idc, err: false }
    } else {
        let f = fuel - 1;
        let (ok1, i1) = spec_expect(toks, i, TokenTypeView::OpenParenthesis);
        if !ok1 {
            Step { out: None, j: i, idc, err: false }
        } else {
            let l = spec_params_items(toks, i1, Seq::empty(), idc, f);
            match l.out {
                None => Step { out: None, j: l.j, idc, err: false },
                Some(ps) => {
                    let (ok2, j2) = spec_expect(toks, l.j, TokenTypeView::CloseParenthesis);
                    if ok2 {
                        Step { out: Some(ps), j: j2, idc, err: false }
                    } else {
                        Step { out: None, j: l.j, idc, err: false }
                    }
                },
            }
        }
    }
}

/// The comma-separated entries of a parameter list.
#[verifier::opaque]
pub open spec fn spec_params_items(
    toks: Seq<Token>,
    i: int,
    acc: Seq<ParamView>,
    idc: int,
    fuel: int,
) -> Step<Seq<ParamView>>
    decreases fuel,
{
    if fuel <= 0 {
        Step { out: None, j: i, idc, err: false }
    } else {
        let f = fuel - 1;
        if !(0 <= i < toks.len()) || toks[i].token_type@ is CloseParenthesis {
            Step { out: Some(acc), j: i, idc, err: false }
        } else {
            let (n, j1) = spec_ident(toks, i);
            match n {
                None => Step { out: None, j: j1, idc, err: false },
                Some(nm) => {
                    let (ok2, j2) = spec_expect(toks, j1, TokenTypeView::Colon);
                    if !ok2 {
                        Step { out: None, j: j1, idc, err: false }
                    } else {
                        let t = spec_type(toks, j2, idc, f);
                        match t.out {
                            None => Step { out: None, j: t.j, idc, err: false },
                            Some(tv) => {
                                let entry = ParamView { name: nm, param_type: tv };
                                if tok_at(toks, t.j, TokenTypeView::Comma) {
                                    spec_params_items(toks, t.j + 1, acc.push(entry), idc, f)
                                } else {
                                    Step { out: Some(acc.push(entry)), j: t.j, idc, err: false }
                                }
                            },
                        }
                    }
                },
            }
        }
    }
}

} // verus!
verus! {

/// Parses a left-associative chain of logical-or operations.
#[verifier::opaque]
pub open spec fn spec_logical_or(toks: Seq<Token>, i: int, idc: int, fuel: int) -> Step<ExprView>
    decreases fuel,
{
    if fuel <= 0 {
        Step { out: None, j: i, idc, err: false }
    } else {
        let f = fuel - 1;
        let s1 = spec_logical_and(toks, i, idc, f);
        match s1.out {
            None => s1,
            Some(e1) => spec_logical_or_fold(toks, s1.j, e1, s1.idc, s1.err, f),
        }
    }
}

/// The left-associative operator fold of the level above.
#[verifier::opaque]
pub open spec fn spec_logical_or_fold(
    toks: Seq<Token>,
    i: int,
    acc: ExprView,
    idc: int,
    err: bool,
    fuel: int,
) -> Step<ExprView>
    decreases fuel,
{
    if fuel <= 0 {
        Step { out: None, j: i, idc, err }
    } else {
        let f = fuel - 1;
        let op: Option<BinaryOperator> = if 0 <= i < toks.len() {
            match toks[i].token_type@ {
                TokenTypeView::OrOperator => Some(BinaryOperator::Or),
                _ => None,
            }
        } else {
            None
        };
        match op {
            None => Step { out: Some(acc), j: i, idc, err },
            Some(op) => {
                let s2 = spec_logical_and(toks, i + 1, idc, f);
                match s2.out {
                    None => Step { out: None, j: s2.j, idc: s2.idc, err: err || s2.err },
                    Some(e2) => spec_logical_or_fold(
                        toks,
                        s2.j,
                        ExprView::BinaryOperation {
                            left: Box::new(acc),
                            operator: op,
                            right: Box::new(e2),
                        },
                        s2.idc,
                        err || s2.err,
                        f,
                    ),
                }
            },
        }
    }
}

/// Parses a left-associative chain of logical-and operations.
#[verifier::opaque]
pub open spec fn spec_logical_and(toks: Seq<Token>, i: int, idc: int, fuel: int) -> Step<ExprView>
    decreases fuel,
{
    if fuel <= 0 {
        Step { out: None, j: i, idc, err: false }
    } else {
        let f = fuel - 1;
        let s1 = spec_equality(toks, i, idc, f);
        match s1.out {
            None => s1,
            Some(e1) => spec_logical_and_fold(toks, s1.j, e1, s1.idc, s1.err, f),
        }
    }
}

/// The left-associative operator fold of the level above.
#[verifier::opaque]
pub open spec fn spec_logical_and_fold(
    toks: Seq<Token>,
    i: int,
    acc: ExprView,
    idc: int,
    err: bool,
    fuel: int,
) -> Step<ExprView>
    decreases fuel,
{
    if fuel <= 0 {
        Step { out: None, j: i, idc, err }
    } else {
        let f = fuel - 1;
        let op: Option<BinaryOperator> = if 0 <= i < toks.len() {
            match toks[i].token_type@ {
                TokenTypeView::AndOperator => Some(BinaryOperator::And),
                _ => None,
            }
        } else {
            None
        };
        match op {
            None => Step { out: Some(acc), j: i, idc, err },
            Some(op) => {
                let s2 = spec_equality(toks, i + 1, idc, f);
                match s2.out {
                    None => Step { out: None, j: s2.j, idc: s2.idc, err: err || s2.err },
                    Some(e2) => spec_logical_and_fold(
                        toks,
                        s2.j,
                        ExprView::BinaryOperation {
                            left: Box::new(acc),
                            operator: op,
                            right: Box::new(e2),
                        },
                        s2.idc,
                        err || s2.err,
                        f,
                    ),
                }
            },
        }
    }
}

/// Parses a left-associative chain of equality comparisons.
#[verifier::opaque]
pub open spec fn spec_equality(toks: Seq<Token>, i: int, idc: int, fuel: int) -> Step<ExprView>
    decreases fuel,
{
    if fuel <= 0 {
        Step { out: None, j: i, idc, err: false }
    } else {
        let f = fuel - 1;
        let s1 = spec_comparison(toks, i, idc, f);
        match s1.out {
            None => s1,
            Some(e1) => spec_equality_fold(toks, s1.j, e1, s1.idc, s1.err, f),
        }
    }
}

/// The left-associative operator fold of the level above.
#[verifier::opaque]
pub open spec fn spec_equality_fold(
    toks: Seq<Token>,
    i: int,
    acc: ExprView,
    idc: int,
    err: bool,
    fuel: int,
) -> Step<ExprView>
    decreases fuel,
{
    if fuel <= 0 {
        Step { out: None, j: i, idc, err }
    } else {
        let f = fuel - 1;
        let op: Option<BinaryOperator> = if 0 <= i < toks.len() {
            match toks[i].token_type@ {
                TokenTypeView::EqualOperator => Some(BinaryOperator::Equal),
                TokenTypeView::NotEqualOperator => Some(BinaryOperator::NotEqual),
                _ => None,
            }
        } else {
            None
        };
        match op {
            None => Step { out: Some(acc), j: i, idc, err },
            Some(op) => {
                let s2 = spec_comparison(toks, i + 1, idc, f);
                match s2.out {
                    None => Step { out: None, j: s2.j, idc: s2.idc, err: err || s2.err },
                    Some(e2) => spec_equality_fold(
                        toks,
                        s2.j,
                        ExprView::BinaryOperation {
                            left: Box::new(acc),
                            operator: op,
                            right: Box::new(e2),
                        },
                        s2.idc,
                        err || s2.err,
                        f,
                    ),
                }
            },
        }
    }
}

/// Parses a left-associative chain of ordering comparisons.
#[verifier::opaque]
pub open spec fn spec_comparison(toks: Seq<Token>, i: int, idc: int, fuel: int) -> Step<ExprView>
    decreases fuel,
{
    if fuel <= 0 {
        Step { out: None, j: i, idc, err: false }
    } else {
        let f = fuel - 1;
        let s1 = spec_term(toks, i, idc, f);
        match s1.out {
            None => s1,
            Some(e1) => spec_comparison_fold(toks, s1.j, e1, s1.idc, s1.err, f),
        }
    }
}

/// The left-associative operator fold of the level above.
#[verifier::opaque]
pub open spec fn spec_comparison_fold(
    toks: Seq<Token>,
    i: int,
    acc: ExprView,
    idc: int,
    err: bool,
    fuel: int,
) -> Step<ExprView>
    decreases fuel,
{
    if fuel <= 0 {
        Step { out: None, j: i, idc, err }
    } else {
        let f = fuel - 1;
        let op: Option<BinaryOperator> = if 0 <= i < toks.len() {
            match toks[i].token_type@ {
                TokenTypeView::OpenAngleBracket => Some(BinaryOperator::LessThan),
                TokenTypeView::CloseAngleBracket => Some(BinaryOperator::GreaterThan),
                TokenTypeView::LessThanEqualOperator => Some(BinaryOperator::LessThanOrEqual),
                TokenTypeView::GreaterThanEqualOperator => Some(BinaryOperator::GreaterThanOrEqual),
                _ => None,
            }
        } else {
            None
        };
        match op {
            None => Step { out: Some(acc), j: i, idc, err },
            Some(op) => {
                let s2 = spec_term(toks, i + 1, idc, f);
                match s2.out {
                    None => Step { out: None, j: s2.j, idc: s2.idc, err: err || s2.err },
                    Some(e2) => spec_comparison_fold(
                        toks,
                        s2.j,
                        ExprView::BinaryOperation {
                            left: Box::new(acc),
                            operator: op,
                            right: Box::new(e2),
                        },
                        s2.idc,
                        err || s2.err,
                        f,
                    ),
                }
            },
        }
    }
}

/// Parses a left-associative chain of additions and subtractions.
#[verifier::opaque]
pub open spec fn spec_term(toks: Seq<Token>, i: int, idc: int, fuel: int) -> Step<ExprView>
    decreases fuel,
{
    if fuel <= 0 {
        Step { out: None, j: i, idc, err: false }
    } else {
        let f = fuel - 1;
        let s1 = spec_factor(toks, i, idc, f);
        match s1.out {
            None => s1,
            Some(e1) => spec_term_fold(toks, s1.j, e1, s1.idc, s1.err, f),
        }
    }
}

/// The left-associative operator fold of the level above.
#[verifier::opaque]
pub open spec fn spec_term_fold(
    toks: Seq<Token>,
    i: int,
    acc: ExprView,
    idc: int,
    err: bool,
    fuel: int,
) -> Step<ExprView>
    decreases fuel,
{
    if fuel <= 0 {
        Step { out: None, j: i, idc, err }
    } else {
        let f = fuel - 1;
        let op: Option<BinaryOperator> = if 0 <= i < toks.len() {
            match toks[i].token_type@ {
                TokenTypeView::AddOperator => Some(BinaryOperator::Add),
                TokenTypeView::SubtractOperator => Some(BinaryOperator::Subtract),
                _ => None,
            }
        } else {
            None
        };
        match op {
            None => Step { out: Some(acc), j: i, idc, err },
            Some(op) => {
                let s2 = spec_factor(toks, i + 1, idc, f);
                match s2.out {
                    None => Step { out: None, j: s2.j, idc: s2.idc, err: err || s2.err },
                    Some(e2) => spec_term_fold(
                        toks,
                        s2.j,
                        ExprView::BinaryOperation {
                            left: Box::new(acc),
                            operator: op,
                            right: Box::new(e2),
                        },
                        s2.idc,
                        err || s2.err,
                        f,
                    ),
                }
            },
        }
    }
}

/// Parses a left-associative chain of multiplicative operations.
#[verifier::opaque]
pub open spec fn spec_factor(toks: Seq<Token>, i: int, idc: int, fuel: int) -> Step<ExprView>
    decreases fuel,
{
    if fuel <= 0 {
        Step { out: None, j: i, idc, err: false }
    } else {
        let f = fuel - 1;
        let s1 = spec_unary(toks, i, idc, f);
        match s1.out {
            None => s1,
            Some(e1) => spec_factor_fold(toks, s1.j, e1, s1.idc, s1.err, f),
        }
    }
}

/// The left-associative operator fold of the level above.
#[verifier::opaque]
pub open spec fn spec_factor_fold(
    toks: Seq<Token>,
    i: int,
    acc: ExprView,
    idc: int,
    err: bool,
    fuel: int,
) -> Step<ExprView>
    decreases fuel,
{
    if fuel <= 0 {
        Step { out: None, j: i, idc, err }
    } else {
        let f = fuel - 1;
        let op: Option<BinaryOperator> = if 0 <= i < toks.len() {
            match toks[i].token_type@ {
                TokenTypeView::MultiplyOperator => Some(BinaryOperator::Multiply),
                TokenTypeView::DivideOperator => Some(BinaryOperator::Divide),
                TokenTypeView::ModuloOperator => Some(BinaryOperator::Modulus),
                _ => None,
            }
        } else {
            None
        };
        match op {
            None => Step { out: Some(acc), j: i, idc, err },
            Some(op) => {
                let s2 = spec_unary(toks, i + 1, idc, f);
                match s2.out {
                    None => Step { out: None, j: s2.j, idc: s2.idc, err: err || s2.err },
                    Some(e2) => spec_factor_fold(
                        toks,
                        s2.j,
                        ExprView::BinaryOperation {
                            left: Box::new(acc),
                            operator: op,
                            right: Box::new(e2),
                        },
                        s2.idc,
                        err || s2.err,
                        f,
                    ),
                }
            },
        }
    }
}

} // verus!

verus! {

/// Parses a prefix run of unary operators; an empty run falls through to
/// the call level.
#[verifier::opaque]
pub open spec fn spec_unary(toks: Seq<Token>, i: int, idc: int, fuel: int) -> Step<ExprView>
    decreases fuel,
{
    if fuel <= 0 {
        Step { out: None, j: i, idc, err: false }
    } else {
        spec_unary_loop(toks, i, None, idc, false, fuel - 1)
    }
}

/// One round of the unary-prefix loop: `acc` holds the wrap built so far.
#[verifier::opaque]
pub open spec fn spec_unary_loop(
    toks: Seq<Token>,
    i: int,
    acc: Option<ExprView>,
    idc: int,
    err: bool,
    fuel: int,
) -> Step<ExprView>
    decreases fuel,
{
    if fuel <= 0 {
        Step { out: None, j: i, idc, err }
    } else {
        let f = fuel - 1;
        let op: Option<UnaryOperator> = if 0 <= i < toks.len() {
            match toks[i].token_type@ {
                TokenTypeView::NotOperator => Some(UnaryOperator::Not),
                TokenTypeView::SubtractOperator => Some(UnaryOperator::Negate),
                _ => None,
            }
        } else {
            None
        };
        match op {
            None => match acc {
                Some(e) => Step { out: Some(e), j: i, idc, err },
                None => spec_call(toks, i, idc, f),
            },
            Some(op) => {
                let s = spec_call(toks, i + 1, idc, f);
                match s.out {
                    None => Step { out: None, j: s.j, idc: s.idc, err: err || s.err },
                    Some(e2) => spec_unary_loop(
                        toks,
                        s.j,
                        Some(
                            ExprView::UnaryOperation { operator: op, operand: Box::new(e2) },
                        ),
                        s.idc,
                        err || s.err,
                        f,
                    ),
                }
            },
        }
    }
}

/// Parses a primary expression followed by any chain of calls and member
/// accesses.
#[verifier::opaque]
pub open spec fn spec_call(toks: Seq<Token>, i: int, idc: int, fuel: int) -> Step<ExprView>
    decreases fuel,
{
    if fuel <= 0 {
        Step { out: None, j: i, idc, err: false }
    } else {
        let f = fuel - 1;
        let s1 = spec_primary(toks, i, idc, f);
        match s1.out {
            None => s1,
            Some(e1) => spec_call_chain(toks, s1.j, e1, s1.idc, s1.err, f),
        }
    }
}

/// The call / member-access chain after a primary expression.
#[verifier::opaque]
pub open spec fn spec_call_chain(
    toks: Seq<Token>,
    i: int,
    acc: ExprView,
    idc: int,
    err: bool,
    fuel: int,
) -> Step<ExprView>
    decreases fuel,
{
    if fuel <= 0 {
        Step { out: None, j: i, idc, err }
    } else {
        let f = fuel - 1;
        if tok_at(toks, i, TokenTypeView::OpenParenthesis) {
            let a = spec_call_args(toks, i + 1, idc, f);
            match a.out {
                None => Step { out: None, j: a.j, idc: a.idc, err: err || a.err },
                Some(args) => spec_call_chain(
                    toks,
                    a.j,
                    ExprView::FunctionCall { callee: Box::new(acc), args },
                    a.idc,
                    err || a.err,
                    f,
                ),
            }
        } else if tok_at(toks, i, TokenTypeView::Dot) {
            let (n, j2) = spec_ident(toks, i + 1);
            match n {
                None => Step { out: None, j: j2, idc, err },
                Some(nm) => spec_call_chain(
                    toks,
                    j2,
                    ExprView::MemberAccess { object: Box::new(acc), member: nm },
                    idc,
                    err,
                    f,
                ),
            }
        } else {
            Step { out: Some(acc), j: i, idc, err }
        }
    }
}

/// The arguments and closing parenthesis of a call whose opening
/// parenthesis is already consumed.
#[verifier::opaque]
pub open spec fn spec_call_args(toks: Seq<Token>, i: int, idc: int, fuel: int) -> Step<
    Seq<ExprView>,
>
    decreases fuel,
{
    if fuel <= 0 {
        Step { out: None, j: i, idc, err: false }
    } else {
        let f = fuel - 1;
        let l = spec_call_args_items(toks, i, Seq::empty(), idc, false, f);
        match l.out {
            None => l,
            Some(args) => {
                let (ok2, j2) = spec_expect(toks, l.j, TokenTypeView::CloseParenthesis);
                if ok2 {
                    Step { out: Some(args), j: j2, idc: l.idc, err: l.err }
                } else {
                    Step { out: None, j: l.j, idc: l.idc, err: l.err }
                }
            },
        }
    }
}

/// The comma-separated argument expressions of a call.
#[verifier::opaque]
pub open spec fn spec_call_args_items(
    toks: Seq<Token>,
    i: int,
    acc: Seq<ExprView>,
    idc: int,
    err: bool,
    fuel: int,
) -> Step<Seq<ExprView>>
    decreases fuel,
{
    if fuel <= 0 {
        Step { out: None, j: i, idc, err }
    } else {
        let f = fuel - 1;
        if !(0 <= i < toks.len()) || toks[i].token_type@ is CloseParenthesis {
            Step { out: Some(acc), j: i, idc, err }
        } else {
            let s = spec_expression(toks, i, idc, f);
            match s.out {
                None => Step { out: None, j: s.j, idc: s.idc, err: err || s.err },
                Some(e) => {
                    if tok_at(toks, s.j, TokenTypeView::Comma) {
                        spec_call_args_items(toks, s.j + 1, acc.push(e), s.idc, err || s.err, f)
                    } else {
                        Step { out: Some(acc.push(e)), j: s.j, idc: s.idc, err: err || s.err }
                    }
                },
            }
        }
    }
}

/// Parses a literal, a variable reference (minting the next expression
/// id), or a parenthesized expression.
#[verifier::opaque]
pub open spec fn spec_primary(toks: Seq<Token>, i: int, idc: int, fuel: int) -> Step<ExprView>
    decreases fuel,
{
    if fuel <= 0 {
        Step { out: None, j: i, idc, err: false }
    } else {
        let f = fuel - 1;
        if !(0 <= i < toks.len()) {
            Step { out: None, j: i, idc, err: false }
        } else {
            match toks[i].token_type {
                TokenType::IntegerLiteral(v) => Step {
                    out: Some(ExprView::NumberLiteral(bits_of_i64(v))),
                    j: i + 1,
                    idc,
                    err: false,
                },
                TokenType::FloatLiteral(b) => Step {
                    out: Some(ExprView::NumberLiteral(b)),
                    j: i + 1,
                    idc,
                    err: false,
                },
                TokenType::StringLiteral(s) => Step {
                    out: Some(ExprView::StringLiteral(s@)),
                    j: i + 1,
                    idc,
                    err: false,
                },
                TokenType::CharLiteral(c) => Step {
                    out: Some(ExprView::CharLiteral(c)),
                    j: i + 1,
                    idc,
                    err: false,
                },
                TokenType::TrueValue => Step {
                    out: Some(ExprView::BooleanLiteral(true)),
                    j: i + 1,
                    idc,
                    err: false,
                },
                TokenType::FalseValue => Step {
                    out: Some(ExprView::BooleanLiteral(false)),
                    j: i + 1,
                    idc,
                    err: false,
                },
                TokenType::Identifier(n) => Step {
                    out: Some(
                        ExprView::Variable { name: n@, expression_id: (idc + 1) as u32 },
                    ),
                    j: i + 1,
                    idc: idc + 1,
                    err: false,
                },
                TokenType::OpenParenthesis => {
                    let s = spec_expression(toks, i + 1, idc, f);
                    match s.out {
                        None => s,
                        Some(e) => {
                            let (ok2, j2) = spec_expect(
                                toks,
                                s.j,
                                TokenTypeView::CloseParenthesis,
                            );
                            if ok2 {
                                Step { out: Some(e), j: j2, idc: s.idc, err: s.err }
                            } else {
                                Step { out: None, j: s.j, idc: s.idc, err: s.err }
                            }
                        },
                    }
                },
                _ => Step { out: None, j: i, idc, err: false },
            }
        }
    }
}

/// Parses an assignment (right-associative, only onto a bare variable
/// reference, which keeps that variable's expression id) or anything of
/// lower precedence.
#[verifier::opaque]
pub open spec fn spec_assignment(toks: Seq<Token>, i: int, idc: int, fuel: int) -> Step<ExprView>
    decreases fuel,
{
    if fuel <= 0 {
        Step { out: None, j: i, idc, err: false }
    } else {
        let f = fuel - 1;
        let s1 = spec_logical_or(toks, i, idc, f);
        match s1.out {
            None => s1,
            Some(e1) => {
                if tok_at(toks, s1.j, TokenTypeView::AssignmentOperator) {
                    let s2 = spec_logical_or(toks, s1.j + 1, s1.idc, f);
                    match s2.out {
                        None => Step { out: None, j: s2.j, idc: s2.idc, err: s1.err || s2.err },
                        Some(v) => match e1 {
                            ExprView::Variable { name, expression_id } => Step {
                                out: Some(
                                    ExprView::Assignment {
                                        name,
                                        value: Box::new(v),
                                        expression_id,
                                    },
                                ),
                                j: s2.j,
                                idc: s2.idc,
                                err: s1.err || s2.err,
                            },
                            _ => Step {
                                out: None,
                                j: s2.j,
                                idc: s2.idc,
                                err: s1.err || s2.err,
                            },
                        },
                    }
                } else {
                    Step { out: Some(e1), j: s1.j, idc: s1.idc, err: s1.err }
                }
            },
        }
    }
}

} // verus!

verus! {

/// Parses any expression: a block, one of the three loop forms, an `if`,
/// an array or struct creation, or an operator expression.
#[verifier::opaque]
pub open spec fn spec_expression(toks: Seq<Token>, i: int, idc: int, fuel: int) -> Step<ExprView>
    decreases fuel,
{
    if fuel <= 0 {
        Step { out: None, j: i, idc, err: false }
    } else {
        let f = fuel - 1;
        if tok_at(toks, i, TokenTypeView::OpenCurlyBracket) {
            spec_block(toks, i, idc, f)
        } else if tok_at(toks, i, TokenTypeView::LoopKeyword) {
            let i1 = i + 1;
            if tok_at(toks, i1, TokenTypeView::OpenParenthesis) {
                let i2 = i1 + 1;
                let mu: Option<VariableMutability> = if tok_at(
                    toks,
                    i2,
                    TokenTypeView::LetKeyword,
                ) {
                    Some(VariableMutability::Mutable)
                } else if tok_at(toks, i2, TokenTypeView::ConstKeyword) {
                    Some(VariableMutability::Immutable)
                } else {
                    None
                };
                match mu {
                    Some(mu) => {
                        let (n, i4) = spec_ident(toks, i2 + 1);
                        match n {
                            None => Step { out: None, j: i4, idc, err: false },
                            Some(nm) => {
                                let (ok5, i5) = spec_expect(toks, i4, TokenTypeView::Colon);
                                if !ok5 {
                                    Step { out: None, j: i4, idc, err: false }
                                } else {
                                    let it = spec_expression(toks, i5, idc, f);
                                    match it.out {
                                        None => it,
                                        Some(iterable) => {
                                            let (ok6, i6) = spec_expect(
                                                toks,
                                                it.j,
                                                TokenTypeView::CloseParenthesis,
                                            );
                                            if !ok6 {
                                                Step {
                                                    out: None,
                                                    j: it.j,
                                                    idc: it.idc,
                                                    err: it.err,
                                                }
                                            } else {
                                                let b = spec_block(toks, i6, it.idc, f);
                                                match b.out {
                                                    None => Step {
                                                        out: None,
                                                        j: b.j,
                                                        idc: b.idc,
                                                        err: it.err || b.err,
                                                    },
                                                    Some(body) => Step {
                                                        out: Some(
                                                            ExprView::Loop(
                                                                LoopView::Iterator {
                                                                    mutability: mu,
                                                                    iterator: nm,
                                                                    iterable: Box::new(iterable),
                                                                    body: Box::new(body),
                                                                },
                                                            ),
                                                        ),
                                                        j: b.j,
                                                        idc: b.idc,
                                                        err: it.err || b.err,
                                                    },
                                                }
                                            }
                                        },
                                    }
                                }
                            },
                        }
                    },
                    None => {
                        let c = spec_expression(toks, i2, idc, f);
                        match c.out {
                            None => c,
                            Some(condition) => {
                                let (ok3, i3) = spec_expect(
                                    toks,
                                    c.j,
                                    TokenTypeView::CloseParenthesis,
                                );
                                if !ok3 {
                                    Step { out: None, j: c.j, idc: c.idc, err: c.err }
                                } else {
                                    let b = spec_block(toks, i3, c.idc, f);
                                    match b.out {
                                        None => Step {
                                            out: None,
                                            j: b.j,
                                            idc: b.idc,
                                            err: c.err || b.err,
                                        },
                                        Some(body) => Step {
                                            out: Some(
                                                ExprView::Loop(
                                                    LoopView::While {
                                                        condition: Box::new(condition),
                                                        body: Box::new(body),
                                                    },
                                                ),
                                            ),
                                            j: b.j,
                                            idc: b.idc,
                                            err: c.err || b.err,
                                        },
                                    }
                                }
                            },
                        }
                    },
                }
            } else {
                let b = spec_block(toks, i1, idc, f);
                match b.out {
                    None => b,
                    Some(body) => Step {
                        out: Some(ExprView::Loop(LoopView::Infinite { body: Box::new(body) })),
                        j: b.j,
                        idc: b.idc,
                        err: b.err,
                    },
                }
            }
        } else if tok_at(toks, i, TokenTypeView::IfKeyword) {
            let (ok1, i1) = spec_expect(toks, i + 1, TokenTypeView::OpenParenthesis);
            if !ok1 {
                Step { out: None, j: i + 1, idc, err: false }
            } else {
                let c = spec_expression(toks, i1, idc, f);
                match c.out {
                    None => c,
                    Some(condition) => {
                        let (ok2, i2) = spec_expect(toks, c.j, TokenTypeView::CloseParenthesis);
                        if !ok2 {
                            Step { out: None, j: c.j, idc: c.idc, err: c.err }
                        } else {
                            let t = spec_expression(toks, i2, c.idc, f);
                            match t.out {
                                None => Step {
                                    out: None,
                                    j: t.j,
                                    idc: t.idc,
                                    err: c.err || t.err,
                                },
                                Some(then_branch) => {
                                    let j3 = if tok_at(toks, t.j, TokenTypeView::Semicolon) {
                                        t.j + 1
                                    } else {
                                        t.j
                                    };
                                    if tok_at(toks, j3, TokenTypeView::ElseKeyword) {
                                        let e2 = spec_expression(toks, j3 + 1, t.idc, f);
                                        match e2.out {
                                            None => Step {
                                                out: None,
                                                j: e2.j,
                                                idc: e2.idc,
                                                err: c.err || t.err || e2.err,
                                            },
                                            Some(else_branch) => Step {
                                                out: Some(
                                                    ExprView::If {
                                                        condition: Box::new(condition),
                                                        then_branch: Box::new(then_branch),
                                                        else_branch: Some(
                                                            Box::new(else_branch),
                                                        ),
                                                    },
                                                ),
                                                j: e2.j,
                                                idc: e2.idc,
                                                err: c.err || t.err || e2.err,
                                            },
                                        }
                                    } else {
                                        Step {
                                            out: Some(
                                                ExprView::If {
                                                    condition: Box::new(condition),
                                                    then_branch: Box::new(then_branch),
                                                    else_branch: None,
                                                },
                                            ),
                                            j: j3,
                                            idc: t.idc,
                                            err: c.err || t.err,
                                        }
                                    }
                                },
                            }
                        }
                    },
                }
            }
        } else if tok_at(toks, i, TokenTypeView::OpenSquareBracket) {
            let t = spec_type(toks, i + 1, idc, f);
            match t.out {
                None => Step { out: None, j: t.j, idc, err: false },
                Some(array_type) => {
                    let (ok1, i1) = spec_expect(toks, t.j, TokenTypeView::Comma);
                    if !ok1 {
                        Step { out: None, j: t.j, idc, err: false }
                    } else {
                        let sz = spec_expression(toks, i1, idc, f);
                        match sz.out {
                            None => sz,
                            Some(size) => {
                                let (ok2, i2) = spec_expect(
                                    toks,
                                    sz.j,
                                    TokenTypeView::CloseSquareBracket,
                                );
                                if !ok2 {
                                    Step { out: None, j: sz.j, idc: sz.idc, err: sz.err }
                                } else {
                                    let (ok3, i3) = spec_expect(
                                        toks,
                                        i2,
                                        TokenTypeView::OpenCurlyBracket,
                                    );
                                    if !ok3 {
                                        Step { out: None, j: i2, idc: sz.idc, err: sz.err }
                                    } else {
                                        let iv = spec_expression(toks, i3, sz.idc, f);
                                        match iv.out {
                                            None => Step {
                                                out: None,
                                                j: iv.j,
                                                idc: iv.idc,
                                                err: sz.err || iv.err,
                                            },
                                            Some(initial_value) => {
                                                let (ok4, i4) = spec_expect(
                                                    toks,
                                                    iv.j,
                                                    TokenTypeView::CloseCurlyBracket,
                                                );
                                                if !ok4 {
                                                    Step {
                                                        out: None,
                                                        j: iv.j,
                                                        idc: iv.idc,
                                                        err: sz.err || iv.err,
                                                    }
                                                } else {
                                                    Step {
                                                        out: Some(
                                                            ExprView::Array {
                                                                array_type,
                                                                size: Box::new(size),
                                                                initial_value: Box::new(
                                                                    initial_value,
                                                                ),
                                                            },
                                                        ),
                                                        j: i4,
                                                        idc: iv.idc,
                                                        err: sz.err || iv.err,
                                                    }
                                                }
                                            },
                                        }
                                    }
                                }
                            },
                        }
                    }
                },
            }
        } else if tok_at(toks, i, TokenTypeView::NewKeyword) {
            let t = spec_type(toks, i + 1, idc, f);
            match t.out {
                None => Step { out: None, j: t.j, idc, err: false },
                Some(struct_type) => {
                    let (ok1, i1) = spec_expect(toks, t.j, TokenTypeView::OpenCurlyBracket);
                    if !ok1 {
                        Step { out: None, j: t.j, idc, err: false }
                    } else {
                        let l = spec_field_items(toks, i1, Seq::empty(), idc, false, f);
                        match l.out {
                            None => Step { out: None, j: l.j, idc: l.idc, err: l.err },
                            Some(fields) => {
                                let (ok2, j2) = spec_expect(
                                    toks,
                                    l.j,
                                    TokenTypeView::CloseCurlyBracket,
                                );
                                if ok2 {
                                    Step {
                                        out: Some(
                                            ExprView::StructCreation { struct_type, fields },
                                        ),
                                        j: j2,
                                        idc: l.idc,
                                        err: l.err,
                                    }
                                } else {
                                    Step { out: None, j: l.j, idc: l.idc, err: l.err }
                                }
                            },
                        }
                    }
                },
            }
        } else {
            spec_assignment(toks, i, idc, f)
        }
    }
}

/// The `name: value` initializers of a struct creation.
#[verifier::opaque]
pub open spec fn spec_field_items(
    toks: Seq<Token>,
    i: int,
    acc: Seq<(Seq<char>, ExprView)>,
    idc: int,
    err: bool,
    fuel: int,
) -> Step<Seq<(Seq<char>, ExprView)>>
    decreases fuel,
{
    if fuel <= 0 {
        Step { out: None, j: i, idc, err }
    } else {
        let f = fuel - 1;
        if !(0 <= i < toks.len()) || toks[i].token_type@ is CloseCurlyBracket {
            Step { out: Some(acc), j: i, idc, err }
        } else {
            let (n, j1) = spec_ident(toks, i);
            match n {
                None => Step { out: None, j: j1, idc, err },
                Some(nm) => {
                    let (ok2, j2) = spec_expect(toks, j1, TokenTypeView::Colon);
                    if !ok2 {
                        Step { out: None, j: j1, idc, err }
                    } else {
                        let v = spec_expression(toks, j2, idc, f);
                        match v.out {
                            None => Step { out: None, j: v.j, idc: v.idc, err: err || v.err },
                            Some(value) => {
                                if tok_at(toks, v.j, TokenTypeView::Comma) {
                                    spec_field_items(
                                        toks,
                                        v.j + 1,
                                        acc.push((nm, value)),
                                        v.idc,
                                        err || v.err,
                                        f,
                                    )
                                } else {
                                    Step {
                                        out: Some(acc.push((nm, value))),
                                        j: v.j,
                                        idc: v.idc,
                                        err: err || v.err,
                                    }
                                }
                            },
                        }
                    }
                },
            }
        }
    }
}

/// Parses a braced block of statements; collection stops as soon as a
/// result expression is accepted.  A statement that fails to parse is
/// recorded as an error and skipped by resynchronizing.
#[verifier::opaque]
pub open spec fn spec_block(toks: Seq<Token>, i: int, idc: int, fuel: int) -> Step<ExprView>
    decreases fuel,
{
    if fuel <= 0 {
        Step { out: None, j: i, idc, err: false }
    } else {
        let f = fuel - 1;
        let (ok1, i1) = spec_expect(toks, i, TokenTypeView::OpenCurlyBracket);
        if !ok1 {
            Step { out: None, j: i, idc, err: false }
        } else {
            let l = spec_block_items(toks, i1, Seq::empty(), idc, false, f);
            match l.out {
                None => Step { out: None, j: l.j, idc: l.idc, err: l.err },
                Some(stmts) => {
                    let (ok2, j2) = spec_expect(toks, l.j, TokenTypeView::CloseCurlyBracket);
                    if ok2 {
                        Step { out: Some(ExprView::Block(stmts)), j: j2, idc: l.idc, err: l.err }
                    } else {
                        Step { out: None, j: l.j, idc: l.idc, err: l.err }
                    }
                },
            }
        }
    }
}

/// The statements of a block, accumulated in order, with error recovery.
#[verifier::opaque]
pub open spec fn spec_block_items(
    toks: Seq<Token>,
    i: int,
    acc: Seq<StmtView>,
    idc: int,
    err: bool,
    fuel: int,
) -> Step<Seq<StmtView>>
    decreases fuel,
{
    if fuel <= 0 {
        Step { out: None, j: i, idc, err }
    } else {
        let f = fuel - 1;
        if !(0 <= i < toks.len()) || toks[i].token_type@ is CloseCurlyBracket {
            Step { out: Some(acc), j: i, idc, err }
        } else {
            let s = spec_statement(toks, i, idc, f);
            match s.out {
                Some(st) => {
                    if st matches StmtView::Expression { result: true, .. } {
                        Step { out: Some(acc.push(st)), j: s.j, idc: s.idc, err: err || s.err }
                    } else {
                        spec_block_items(toks, s.j, acc.push(st), s.idc, err || s.err, f)
                    }
                },
                None => spec_block_items(toks, spec_sync(toks, s.j), acc, s.idc, true, f),
            }
        }
    }
}

/// Parses one statement: a nested declaration, `break`, `continue`, a
/// variable declaration, a `return`, or an expression statement whose
/// missing trailing semicolon marks it as the block's result.
#[verifier::opaque]
pub open spec fn spec_statement(toks: Seq<Token>, i: int, idc: int, fuel: int) -> Step<StmtView>
    decreases fuel,
{
    if fuel <= 0 {
        Step { out: None, j: i, idc, err: false }
    } else {
        let f = fuel - 1;
        let td = spec_try_declaration(toks, i, idc, f);
        match td.out {
            None => Step { out: None, j: td.j, idc: td.idc, err: td.err },
            Some(Some(d)) => Step {
                out: Some(StmtView::Declaration(d)),
                j: td.j,
                idc: td.idc,
                err: td.err,
            },
            Some(None) => {
                if !(0 <= i < toks.len()) {
                    Step { out: None, j: i, idc, err: false }
                } else if toks[i].token_type@ is BreakKeyword {
                    let (ok1, j1) = spec_expect(toks, i + 1, TokenTypeView::Semicolon);
                    if ok1 {
                        Step { out: Some(StmtView::Break), j: j1, idc, err: false }
                    } else {
                        Step { out: None, j: i + 1, idc, err: false }
                    }
                } else if toks[i].token_type@ is ContinueKeyword {
                    let (ok1, j1) = spec_expect(toks, i + 1, TokenTypeView::Semicolon);
                    if ok1 {
                        Step { out: Some(StmtView::Continue), j: j1, idc, err: false }
                    } else {
                        Step { out: None, j: i + 1, idc, err: false }
                    }
                } else if toks[i].token_type@ is LetKeyword || toks[i].token_type@
                    is ConstKeyword {
                    let mu = if toks[i].token_type@ is LetKeyword {
                        VariableMutability::Mutable
                    } else {
                        VariableMutability::Immutable
                    };
                    let (n, j1) = spec_ident(toks, i + 1);
                    match n {
                        None => Step { out: None, j: j1, idc, err: false },
                        Some(nm) => {
                            let (ok2, j2) = spec_expect(toks, j1, TokenTypeView::Colon);
                            if !ok2 {
                                Step { out: None, j: j1, idc, err: false }
                            } else {
                                let t = spec_type(toks, j2, idc, f);
                                match t.out {
                                    None => Step { out: None, j: t.j, idc, err: false },
                                    Some(tv) => {
                                        let (ok3, j3) = spec_expect(
                                            toks,
                                            t.j,
                                            TokenTypeView::AssignmentOperator,
                                        );
                                        if !ok3 {
                                            Step { out: None, j: t.j, idc, err: false }
                                        } else {
                                            let v = spec_expression(toks, j3, idc, f);
                                            match v.out {
                                                None => v_to_stmt_fail(v),
                                                Some(value) => {
                                                    let (ok4, j4) = spec_expect(
                                                        toks,
                                                        v.j,
                                                        TokenTypeView::Semicolon,
                                                    );
                                                    if !ok4 {
                                                        Step {
                                                            out: None,
                                                            j: v.j,
                                                            idc: v.idc,
                                                            err: v.err,
                                                        }
                                                    } else {
                                                        Step {
                                                            out: Some(
                                                                StmtView::VariableDeclaration {
                                                                    mutability: mu,
                                                                    name: nm,
                                                                    variable_type: tv,
                                                                    value: Box::new(value),
                                                                },
                                                            ),
                                                            j: j4,
                                                            idc: v.idc,
                                                            err: v.err,
                                                        }
                                                    }
                                                },
                                            }
                                        }
                                    },
                                }
                            }
                        },
                    }
                } else if toks[i].token_type@ is ReturnKeyword {
                    if tok_at(toks, i + 1, TokenTypeView::Semicolon) {
                        Step { out: Some(StmtView::Return(None)), j: i + 2, idc, err: false }
                    } else {
                        let v = spec_expression(toks, i + 1, idc, f);
                        match v.out {
                            None => v_to_stmt_fail(v),
                            Some(value) => {
                                let (ok2, j2) = spec_expect(toks, v.j, TokenTypeView::Semicolon);
                                if !ok2 {
                                    Step { out: None, j: v.j, idc: v.idc, err: v.err }
                                } else {
                                    Step {
                                        out: Some(StmtView::Return(Some(Box::new(value)))),
                                        j: j2,
                                        idc: v.idc,
                                        err: v.err,
                                    }
                                }
                            },
                        }
                    }
                } else {
                    let e = spec_expression(toks, i, idc, f);
                    match e.out {
                        None => v_to_stmt_fail(e),
                        Some(expr) => {
                            if tok_at(toks, e.j, TokenTypeView::Semicolon) {
                                Step {
                                    out: Some(
                                        StmtView::Expression {
                                            expression: Box::new(expr),
                                            result: false,
                                        },
                                    ),
                                    j: e.j + 1,
                                    idc: e.idc,
                                    err: e.err,
                                }
                            } else {
                                Step {
                                    out: Some(
                                        StmtView::Expression {
                                            expression: Box::new(expr),
                                            result: true,
                                        },
                                    ),
                                    j: e.j,
                                    idc: e.idc,
                                    err: e.err,
                                }
                            }
                        },
                    }
                }
            },
        }
    }
}

/// Carries an expression-level failure out as a statement-level failure.
pub open spec fn v_to_stmt_fail(v: Step<ExprView>) -> Step<StmtView> {
    Step { out: None, j: v.j, idc: v.idc, err: v.err }
}

} // verus!

verus! {

/// Parses a declaration when the cursor is on one of the four declaration
/// keywords; consumes nothing on any other token.
#[verifier::opaque]
pub open spec fn spec_try_declaration(toks: Seq<Token>, i: int, idc: int, fuel: int) -> Step<
    Option<DeclView>,
>
    decreases fuel,
{
    if fuel <= 0 {
        Step { out: None, j: i, idc, err: false }
    } else {
        let f = fuel - 1;
        if tok_at(toks, i, TokenTypeView::FunctionKeyword) {
            let (n, j1) = spec_ident(toks, i + 1);
            match n {
                None => Step { out: None, j: j1, idc, err: false },
                Some(nm) => {
                    let ga = spec_generic_args(toks, j1, idc, f);
                    match ga.out {
                        None => Step { out: None, j: ga.j, idc, err: false },
                        Some(generic_args) => {
                            let ps = spec_params(toks, ga.j, idc, f);
                            match ps.out {
                                None => Step { out: None, j: ps.j, idc, err: false },
                                Some(params) => {
                                    let (ok2, j2) = spec_expect(
                                        toks,
                                        ps.j,
                                        TokenTypeView::Arrow,
                                    );
                                    if !ok2 {
                                        Step { out: None, j: ps.j, idc, err: false }
                                    } else {
                                        let rt = spec_type(toks, j2, idc, f);
                                        match rt.out {
                                            None => Step {
                                                out: None,
                                                j: rt.j,
                                                idc,
                                                err: false,
                                            },
                                            Some(return_type) => {
                                                let b = spec_block(toks, rt.j, idc, f);
                                                match b.out {
                                                    None => Step {
                                                        out: None,
                                                        j: b.j,
                                                        idc: b.idc,
                                                        err: b.err,
                                                    },
                                                    Some(body) => Step {
                                                        out: Some(
                                                            Some(
                                                                DeclView::Function {
                                                                    name: nm,
                                                                    params,
                                                                    generic_args,
                                                                    return_type,
                                                                    body: Box::new(body),
                                                                },
                                                            ),
                                                        ),
                                                        j: b.j,
                                                        idc: b.idc,
                                                        err: b.err,
                                                    },
                                                }
                                            },
                                        }
                                    }
                                },
                            }
                        },
                    }
                },
            }
        } else if tok_at(toks, i, TokenTypeView::ImportKeyword) {
            let (n, j1) = spec_ident(toks, i + 1);
            match n {
                None => Step { out: None, j: j1, idc, err: false },
                Some(first) => {
                    let l = spec_import_path(toks, j1, seq![first], idc, f);
                    match l.out {
                        None => Step { out: None, j: l.j, idc, err: false },
                        Some(path) => {
                            let (ok2, j2) = spec_expect(toks, l.j, TokenTypeView::Semicolon);
                            if ok2 {
                                Step {
                                    out: Some(Some(DeclView::Import { path })),
                                    j: j2,
                                    idc,
                                    err: false,
                                }
                            } else {
                                Step { out: None, j: l.j, idc, err: false }
                            }
                        },
                    }
                },
            }
        } else if tok_at(toks, i, TokenTypeView::StructKeyword) {
            let (n, j1) = spec_ident(toks, i + 1);
            match n {
                None => Step { out: None, j: j1, idc, err: false },
                Some(nm) => {
                    let ga = spec_generic_args(toks, j1, idc, f);
                    match ga.out {
                        None => Step { out: None, j: ga.j, idc, err: false },
                        Some(generic_args) => {
                            let (ok2, j2) = spec_expect(
                                toks,
                                ga.j,
                                TokenTypeView::OpenCurlyBracket,
                            );
                            if !ok2 {
                                Step { out: None, j: ga.j, idc, err: false }
                            } else {
                                let l = spec_elem_items(toks, j2, Seq::empty(), idc, false, f);
                                match l.out {
                                    None => Step { out: None, j: l.j, idc: l.idc, err: l.err },
                                    Some(elements) => {
                                        let (ok3, j3) = spec_expect(
                                            toks,
                                            l.j,
                                            TokenTypeView::CloseCurlyBracket,
                                        );
                                        if ok3 {
                                            Step {
                                                out: Some(
                                                    Some(
                                                        DeclView::Struct {
                                                            name: nm,
                                                            elements,
                                                            generic_args,
                                                        },
                                                    ),
                                                ),
                                                j: j3,
                                                idc: l.idc,
                                                err: l.err,
                                            }
                                        } else {
                                            Step { out: None, j: l.j, idc: l.idc, err: l.err }
                                        }
                                    },
                                }
                            }
                        },
                    }
                },
            }
        } else if tok_at(toks, i, TokenTypeView::TypeKeyword) {
            let (n, j1) = spec_ident(toks, i + 1);
            match n {
                None => Step { out: None, j: j1, idc, err: false },
                Some(nm) => {
                    let ga = spec_generic_args(toks, j1, idc, f);
                    match ga.out {
                        None => Step { out: None, j: ga.j, idc, err: false },
                        Some(generic_args) => {
                            let (ok2, j2) = spec_expect(
                                toks,
                                ga.j,
                                TokenTypeView::AssignmentOperator,
                            );
                            if !ok2 {
                                Step { out: None, j: ga.j, idc, err: false }
                            } else {
                                let t = spec_type(toks, j2, idc, f);
                                match t.out {
                                    None => Step { out: None, j: t.j, idc, err: false },
                                    Some(alias) => {
                                        let (ok3, j3) = spec_expect(
                                            toks,
                                            t.j,
                                            TokenTypeView::Semicolon,
                                        );
                                        if ok3 {
                                            Step {
                                                out: Some(
                                                    Some(
                                                        DeclView::TypeDeclaration {
                                                            name: nm,
                                                            alias,
                                                            generic_args,
                                                        },
                                                    ),
                                                ),
                                                j: j3,
                                                idc,
                                                err: false,
                                            }
                                        } else {
                                            Step { out: None, j: t.j, idc, err: false }
                                        }
                                    },
                                }
                            }
                        },
                    }
                },
            }
        } else {
            Step { out: Some(None), j: i, idc, err: false }
        }
    }
}

/// The dot-separated identifiers after the first segment of an import
/// path.
#[verifier::opaque]
pub open spec fn spec_import_path(
    toks: Seq<Token>,
    i: int,
    acc: Seq<Seq<char>>,
    idc: int,
    fuel: int,
) -> Step<Seq<Seq<char>>>
    decreases fuel,
{
    if fuel <= 0 {
        Step { out: None, j: i, idc, err: false }
    } else {
        let f = fuel - 1;
        if tok_at(toks, i, TokenTypeView::Dot) {
            let (n, j1) = spec_ident(toks, i + 1);
            match n {
                None => Step { out: None, j: j1, idc, err: false },
                Some(nm) => spec_import_path(toks, j1, acc.push(nm), idc, f),
            }
        } else {
            Step { out: Some(acc), j: i, idc, err: false }
        }
    }
}

/// The members of a struct declaration, accumulated in order.
#[verifier::opaque]
pub open spec fn spec_elem_items(
    toks: Seq<Token>,
    i: int,
    acc: Seq<ElemView>,
    idc: int,
    err: bool,
    fuel: int,
) -> Step<Seq<ElemView>>
    decreases fuel,
{
    if fuel <= 0 {
        Step { out: None, j: i, idc, err }
    } else {
        let f = fuel - 1;
        if !(0 <= i < toks.len()) || toks[i].token_type@ is CloseCurlyBracket {
            Step { out: Some(acc), j: i, idc, err }
        } else {
            let s = spec_struct_element(toks, i, idc, f);
            match s.out {
                None => Step { out: None, j: s.j, idc: s.idc, err: err || s.err },
                Some(el) => spec_elem_items(toks, s.j, acc.push(el), s.idc, err || s.err, f),
            }
        }
    }
}

/// Parses a struct member: a nested declaration or a `name: type;` field.
#[verifier::opaque]
pub open spec fn spec_struct_element(toks: Seq<Token>, i: int, idc: int, fuel: int) -> Step<
    ElemView,
>
    decreases fuel,
{
    if fuel <= 0 {
        Step { out: None, j: i, idc, err: false }
    } else {
        let f = fuel - 1;
        let td = spec_try_declaration(toks, i, idc, f);
        match td.out {
            None => Step { out: None, j: td.j, idc: td.idc, err: td.err },
            Some(Some(d)) => Step {
                out: Some(ElemView::Declaration(d)),
                j: td.j,
                idc: td.idc,
                err: td.err,
            },
            Some(None) => {
                let (n, j1) = spec_ident(toks, i);
                match n {
                    None => Step { out: None, j: j1, idc, err: false },
                    Some(nm) => {
                        let (ok2, j2) = spec_expect(toks, j1, TokenTypeView::Colon);
                        if !ok2 {
                            Step { out: None, j: j1, idc, err: false }
                        } else {
                            let t = spec_type(toks, j2, idc, f);
                            match t.out {
                                None => Step { out: None, j: t.j, idc, err: false },
                                Some(field_type) => {
                                    let (ok3, j3) = spec_expect(
                                        toks,
                                        t.j,
                                        TokenTypeView::Semicolon,
                                    );
                                    if ok3 {
                                        Step {
                                            out: Some(
                                                ElemView::Field { name: nm, field_type },
                                            ),
                                            j: j3,
                                            idc,
                                            err: false,
                                        }
                                    } else {
                                        Step { out: None, j: t.j, idc, err: false }
                                    }
                                },
                            }
                        }
                    },
                }
            },
        }
    }
}

/// Parses one top-level declaration; the cursor must be on a declaration
/// keyword.
#[verifier::opaque]
pub open spec fn spec_declaration(toks: Seq<Token>, i: int, idc: int, fuel: int) -> Step<DeclView>
    decreases fuel,
{
    if fuel <= 0 {
        Step { out: None, j: i, idc, err: false }
    } else {
        let f = fuel - 1;
        let td = spec_try_declaration(toks, i, idc, f);
        match td.out {
            None => Step { out: None, j: td.j, idc: td.idc, err: td.err },
            Some(Some(d)) => Step { out: Some(d), j: td.j, idc: td.idc, err: td.err },
            Some(None) => Step { out: None, j: td.j, idc: td.idc, err: td.err },
        }
    }
}

/// The top-level declarations of a program, with error recovery: a
/// declaration that fails to parse is recorded and skipped by
/// resynchronizing.
#[verifier::opaque]
pub open spec fn spec_program_decls(
    toks: Seq<Token>,
    i: int,
    acc: Seq<DeclView>,
    idc: int,
    err: bool,
    fuel: int,
) -> Step<Seq<DeclView>>
    decreases fuel,
{
    if fuel <= 0 {
        Step { out: None, j: i, idc, err }
    } else {
        let f = fuel - 1;
        if !(0 <= i < toks.len()) {
            Step { out: Some(acc), j: i, idc, err }
        } else {
            let d = spec_declaration(toks, i, idc, f);
            match d.out {
                Some(dv) => spec_program_decls(toks, d.j, acc.push(dv), d.idc, err || d.err, f),
                None => spec_program_decls(toks, spec_sync(toks, d.j), acc, d.idc, true, f),
            }
        }
    }
}

/// Parses a whole token sequence from cursor `i` and id counter `idc`:
/// `Some` holds the top-level declarations, in token order, exactly when
/// no syntax error was recorded anywhere; any error makes the whole parse
/// `None`.
#[verifier::opaque]
pub open spec fn spec_parse_program(toks: Seq<Token>, i: int, idc: int, fuel: int) -> Option<
    Seq<DeclView>,
> {
    let s = spec_program_decls(toks, i, Seq::empty(), idc, false, fuel);
    match s.out {
        Some(ds) => if s.err {
            None
        } else {
            Some(ds)
        },
        None => None,
    }
}

} // verus!
