//! The abstract syntax tree: expressions, statements, declarations and
//! types, produced by the parser and consumed by the resolver and the
//! interpreter.  Each node owns its children outright; the tree is acyclic
//! and unshared.
//!
//! [`expr_wf`] and its companions state the structural invariant of blocks:
//! a result expression (an expression statement without a trailing
//! semicolon) can only stand last in its block.

use vstd::prelude::*;

verus! {

/// A unique tag on every variable-reference and assignment node, assigned
/// at parse time and used as the key of the resolver's output.
#[derive(Debug, PartialEq, Eq, Structural, Hash, Clone, Copy)]
pub struct ExpressionId(pub u32);

/// Whether a variable binding may be reassigned.
#[derive(Debug, PartialEq, Eq, Structural, Clone, Copy)]
pub enum VariableMutability {
    Mutable,
    Immutable,
}

#[derive(Debug, PartialEq, Eq, Structural, Clone, Copy)]
pub enum BinaryOperator {
    Add,
    Subtract,
    Multiply,
    Divide,
    Modulus,
    And,
    Or,
    Equal,
    NotEqual,
    LessThan,
    GreaterThan,
    LessThanOrEqual,
    GreaterThanOrEqual,
}

#[derive(Debug, PartialEq, Eq, Structural, Clone, Copy)]
pub enum UnaryOperator {
    Negate,
    Not,
}

/// A type written in the source language.  `Nil` is the "no value" return
/// type.
#[derive(Debug, PartialEq)]
pub enum Type {
    U8,
    U16,
    U32,
    U64,
    I8,
    I16,
    I32,
    I64,
    F32,
    F64,
    Boolean,
    Character,
    Identifier { name: String, generics: Vec<Type> },
    Array(Box<Type>),
    Nil,
}

/// An expression.  `NumberLiteral` carries the bit pattern of an IEEE
/// binary64 value (see [`crate::numbers`]).
#[derive(Debug, PartialEq)]
pub enum Expression {
    Block(Vec<Statement>),
    NumberLiteral(u64),
    StringLiteral(String),
    CharLiteral(char),
    BooleanLiteral(bool),
    Variable { name: String, expression_id: ExpressionId },
    FunctionCall { callee: Box<Expression>, args: Vec<Expression> },
    BinaryOperation { left: Box<Expression>, operator: BinaryOperator, right: Box<Expression> },
    UnaryOperation { operator: UnaryOperator, operand: Box<Expression> },
    Assignment { name: String, value: Box<Expression>, expression_id: ExpressionId },
    MemberAccess { object: Box<Expression>, member: String },
    If {
        condition: Box<Expression>,
        then_branch: Box<Expression>,
        else_branch: Option<Box<Expression>>,
    },
    Loop(LoopStatement),
    Array { array_type: Type, size: Box<Expression>, initial_value: Box<Expression> },
    StructCreation { struct_type: Type, fields: Vec<(String, Expression)> },
}

/// The three loop forms.
#[derive(Debug, PartialEq)]
pub enum LoopStatement {
    While { condition: Box<Expression>, body: Box<Expression> },
    Infinite { body: Box<Expression> },
    Iterator {
        mutability: VariableMutability,
        iterator: String,
        iterable: Box<Expression>,
        body: Box<Expression>,
    },
}

/// A statement of a block.  An expression statement with `result` set is
/// the block's value and must stand last.
#[derive(Debug, PartialEq)]
pub enum Statement {
    Expression { expression: Box<Expression>, result: bool },
    VariableDeclaration {
        mutability: VariableMutability,
        name: String,
        variable_type: Type,
        value: Box<Expression>,
    },
    Break,
    Continue,
    Return(Option<Box<Expression>>),
    Declaration(Declaration),
}

/// A top-level (or struct-nested) declaration.
#[derive(Debug, PartialEq)]
pub enum Declaration {
    Function {
        name: String,
        params: Vec<FunctionParameter>,
        generic_args: Vec<String>,
        return_type: Type,
        body: Box<Expression>,
    },
    Import { path: Vec<String> },
    Struct { name: String, elements: Vec<StructElement>, generic_args: Vec<String> },
    TypeDeclaration { name: String, alias: Type, generic_args: Vec<String> },
}

/// A member of a struct declaration: a field, or a nested declaration.
#[derive(Debug, PartialEq)]
pub enum StructElement {
    Field { name: String, field_type: Type },
    Declaration(Declaration),
}

/// A declared parameter of a function.
#[derive(Debug, PartialEq)]
pub struct FunctionParameter {
    pub name: String,
    pub param_type: Type,
}

/// A whole source file: its top-level declarations in order.
#[derive(Debug, PartialEq)]
pub struct Program {
    pub declarations: Vec<Declaration>,
}

/// Whether a statement is a block's result expression.
pub open spec fn stmt_is_result(s: Statement) -> bool {
    s matches Statement::Expression { result: true, .. }
}

/// The block invariant: a result expression only as the last statement.
pub open spec fn block_stmts_ok(stmts: Seq<Statement>) -> bool {
    forall|i: int|
        0 <= i < stmts.len() && stmt_is_result(#[trigger] stmts[i]) ==> i == stmts.len() - 1
}

/// Structural well-formedness of an expression: every block in it obeys
/// the block invariant.
pub open spec fn expr_wf(e: Expression) -> bool
    decreases e,
{
    match e {
        Expression::Block(stmts) => block_stmts_ok(stmts@) && (forall|i: int|
            0 <= i < stmts@.len() ==> stmt_wf(#[trigger] stmts@[i])),
        Expression::NumberLiteral(_) => true,
        Expression::StringLiteral(_) => true,
        Expression::CharLiteral(_) => true,
        Expression::BooleanLiteral(_) => true,
        Expression::Variable { .. } => true,
        Expression::FunctionCall { callee, args } => expr_wf(*callee) && (forall|i: int|
            0 <= i < args@.len() ==> expr_wf(#[trigger] args@[i])),
        Expression::BinaryOperation { left, right, .. } => expr_wf(*left) && expr_wf(*right),
        Expression::UnaryOperation { operand, .. } => expr_wf(*operand),
        Expression::Assignment { value, .. } => expr_wf(*value),
        Expression::MemberAccess { object, .. } => expr_wf(*object),
        Expression::If { condition, then_branch, else_branch } => expr_wf(*condition) && expr_wf(
            *then_branch,
        ) && (match else_branch {
            Some(e2) => expr_wf(*e2),
            None => true,
        }),
        Expression::Loop(l) => loop_wf(l),
        Expression::Array { size, initial_value, .. } => expr_wf(*size) && expr_wf(
            *initial_value,
        ),
        Expression::StructCreation { fields, .. } => forall|i: int|
            0 <= i < fields@.len() ==> expr_wf((#[trigger] fields@[i]).1),
    }
}

/// Structural well-formedness of a loop.
pub open spec fn loop_wf(l: LoopStatement) -> bool
    decreases l,
{
    match l {
        LoopStatement::While { condition, body } => expr_wf(*condition) && expr_wf(*body),
        LoopStatement::Infinite { body } => expr_wf(*body),
        LoopStatement::Iterator { iterable, body, .. } => expr_wf(*iterable) && expr_wf(*body),
    }
}

/// Structural well-formedness of a statement.
pub open spec fn stmt_wf(s: Statement) -> bool
    decreases s,
{
    match s {
        Statement::Expression { expression, .. } => expr_wf(*expression),
        Statement::VariableDeclaration { value, .. } => expr_wf(*value),
        Statement::Break => true,
        Statement::Continue => true,
        Statement::Return(v) => match v {
            Some(e) => expr_wf(*e),
            None => true,
        },
        Statement::Declaration(d) => decl_wf(d),
    }
}

/// Structural well-formedness of a declaration.
pub open spec fn decl_wf(d: Declaration) -> bool
    decreases d,
{
    match d {
        Declaration::Function { body, .. } => expr_wf(*body),
        Declaration::Import { .. } => true,
        Declaration::Struct { elements, .. } => forall|i: int|
            0 <= i < elements@.len() ==> elem_wf(#[trigger] elements@[i]),
        Declaration::TypeDeclaration { .. } => true,
    }
}

/// Structural well-formedness of a struct element.
pub open spec fn elem_wf(e: StructElement) -> bool
    decreases e,
{
    match e {
        StructElement::Field { .. } => true,
        StructElement::Declaration(d) => decl_wf(d),
    }
}

/// Structural well-formedness of a whole program.
pub open spec fn program_wf(p: Program) -> bool {
    forall|i: int| 0 <= i < p.declarations@.len() ==> decl_wf(#[trigger] p.declarations@[i])
}

/// The expression ids minted in `e`, in parse order: the parser walks the
/// grammar left to right and mints ids from a counter, so this sequence is
/// strictly increasing, which makes every id unique within one parse.
pub open spec fn expr_ids(e: Expression) -> Seq<u32>
    decreases e, 0int, 0int,
{
    match e {
        Expression::Block(stmts) => stmts_ids(stmts, 0),
        Expression::NumberLiteral(_) => Seq::empty(),
        Expression::StringLiteral(_) => Seq::empty(),
        Expression::CharLiteral(_) => Seq::empty(),
        Expression::BooleanLiteral(_) => Seq::empty(),
        Expression::Variable { expression_id, .. } => seq![expression_id.0],
        Expression::FunctionCall { callee, args } => expr_ids(*callee) + exprs_ids(args, 0),
        Expression::BinaryOperation { left, right, .. } => expr_ids(*left) + expr_ids(*right),
        Expression::UnaryOperation { operand, .. } => expr_ids(*operand),
        Expression::Assignment { value, expression_id, .. } => seq![expression_id.0] + expr_ids(
            *value,
        ),
        Expression::MemberAccess { object, .. } => expr_ids(*object),
        Expression::If { condition, then_branch, else_branch } => expr_ids(*condition) + expr_ids(
            *then_branch,
        ) + (match else_branch {
            Some(e2) => expr_ids(*e2),
            None => Seq::empty(),
        }),
        Expression::Loop(l) => loop_ids(l),
        Expression::Array { size, initial_value, .. } => expr_ids(*size) + expr_ids(
            *initial_value,
        ),
        Expression::StructCreation { fields, .. } => fields_ids(fields, 0),
    }
}

/// The expression ids minted in `l`, in parse order.
pub open spec fn loop_ids(l: LoopStatement) -> Seq<u32>
    decreases l, 0int, 0int,
{
    match l {
        LoopStatement::While { condition, body } => expr_ids(*condition) + expr_ids(*body),
        LoopStatement::Infinite { body } => expr_ids(*body),
        LoopStatement::Iterator { iterable, body, .. } => expr_ids(*iterable) + expr_ids(*body),
    }
}

/// The expression ids minted in `s`, in parse order.
pub open spec fn stmt_ids(s: Statement) -> Seq<u32>
    decreases s, 0int, 0int,
{
    match s {
        Statement::Expression { expression, .. } => expr_ids(*expression),
        Statement::VariableDeclaration { value, .. } => expr_ids(*value),
        Statement::Break => Seq::empty(),
        Statement::Continue => Seq::empty(),
        Statement::Return(v) => match v {
            Some(e) => expr_ids(*e),
            None => Seq::empty(),
        },
        Statement::Declaration(d) => decl_ids(d),
    }
}

/// The expression ids minted in `d`, in parse order.
pub open spec fn decl_ids(d: Declaration) -> Seq<u32>
    decreases d, 0int, 0int,
{
    match d {
        Declaration::Function { body, .. } => expr_ids(*body),
        Declaration::Import { .. } => Seq::empty(),
        Declaration::Struct { elements, .. } => elems_ids(elements, 0),
        Declaration::TypeDeclaration { .. } => Seq::empty(),
    }
}

/// The expression ids minted in `e`, in parse order.
pub open spec fn elem_ids(e: StructElement) -> Seq<u32>
    decreases e, 0int, 0int,
{
    match e {
        StructElement::Field { .. } => Seq::empty(),
        StructElement::Declaration(d) => decl_ids(d),
    }
}

/// The expression ids of the statements from position `i` on, in order.
pub open spec fn stmts_ids(stmts: Vec<Statement>, i: int) -> Seq<u32>
    decreases stmts, stmts@.len() - i, 1int,
{
    if i < 0 || i >= stmts@.len() {
        Seq::empty()
    } else {
        stmt_ids(stmts@[i]) + stmts_ids(stmts, i + 1)
    }
}

/// The expression ids of the expressions from position `i` on, in order.
pub open spec fn exprs_ids(es: Vec<Expression>, i: int) -> Seq<u32>
    decreases es, es@.len() - i, 1int,
{
    if i < 0 || i >= es@.len() {
        Seq::empty()
    } else {
        expr_ids(es@[i]) + exprs_ids(es, i + 1)
    }
}

/// The expression ids of the field initializers from position `i` on.
pub open spec fn fields_ids(fields: Vec<(String, Expression)>, i: int) -> Seq<u32>
    decreases fields, fields@.len() - i, 1int,
{
    if i < 0 || i >= fields@.len() {
        Seq::empty()
    } else {
        expr_ids(fields@[i].1) + fields_ids(fields, i + 1)
    }
}

/// The expression ids of the struct elements from position `i` on.
pub open spec fn elems_ids(elems: Vec<StructElement>, i: int) -> Seq<u32>
    decreases elems, elems@.len() - i, 1int,
{
    if i < 0 || i >= elems@.len() {
        Seq::empty()
    } else {
        elem_ids(elems@[i]) + elems_ids(elems, i + 1)
    }
}

/// The expression ids of the declarations from position `i` on.
pub open spec fn decls_ids(decls: Vec<Declaration>, i: int) -> Seq<u32>
    decreases decls, decls@.len() - i, 1int,
{
    if i < 0 || i >= decls@.len() {
        Seq::empty()
    } else {
        decl_ids(decls@[i]) + decls_ids(decls, i + 1)
    }
}

/// The expression ids of a whole program, in parse order.
pub open spec fn program_ids(p: Program) -> Seq<u32> {
    decls_ids(p.declarations, 0)
}

/// The id discipline of one parse step: every id lies in the half-open
/// counter interval `(lo, hi]`, and the sequence is strictly increasing —
/// so no id ever repeats.
pub open spec fn ids_ok(s: Seq<u32>, lo: int, hi: int) -> bool {
    &&& forall|k: int| 0 <= k < s.len() ==> lo < #[trigger] s[k] <= hi
    &&& forall|k1: int, k2: int| 0 <= k1 < k2 < s.len() ==> s[k1] < s[k2]
}

/// Ids from two adjacent counter intervals concatenate to ids of the
/// joined interval.
pub proof fn lemma_ids_concat(a: Seq<u32>, b: Seq<u32>, lo: int, m: int, hi: int)
    requires
        ids_ok(a, lo, m),
        ids_ok(b, m, hi),
        lo <= m <= hi,
    ensures
        ids_ok(a + b, lo, hi),
{
    let c = a + b;
    assert forall|k: int| 0 <= k < c.len() implies lo < #[trigger] c[k] <= hi by {
        if k < a.len() {
            assert(c[k] == a[k]);
        } else {
            assert(c[k] == b[k - a.len()]);
        }
    }
    assert forall|k1: int, k2: int| 0 <= k1 < k2 < c.len() implies c[k1] < c[k2] by {
        if k2 < a.len() {
            assert(c[k1] == a[k1] && c[k2] == a[k2]);
        } else if k1 >= a.len() {
            assert(c[k1] == b[k1 - a.len()] && c[k2] == b[k2 - a.len()]);
        } else {
            assert(c[k1] == a[k1] && c[k2] == b[k2 - a.len()]);
        }
    }
}

/// Widening the counter interval preserves the id discipline.
pub proof fn lemma_ids_widen(s: Seq<u32>, lo: int, hi: int, lo2: int, hi2: int)
    requires
        ids_ok(s, lo, hi),
        lo2 <= lo,
        hi <= hi2,
    ensures
        ids_ok(s, lo2, hi2),
{
}

/// Appending a statement appends its ids.
pub proof fn lemma_stmts_ids_push(v1: Vec<Statement>, v2: Vec<Statement>, s: Statement, i: int)
    requires
        v2@ == v1@.push(s),
        0 <= i <= v1@.len(),
    ensures
        stmts_ids(v2, i) == stmts_ids(v1, i) + stmt_ids(s),
    decreases v1@.len() - i,
{
    if i < v1@.len() {
        lemma_stmts_ids_push(v1, v2, s, i + 1);
        assert(v2@[i] == v1@[i]);
        assert(stmt_ids(v1@[i]) + (stmts_ids(v1, i + 1) + stmt_ids(s)) =~= (stmt_ids(v1@[i])
            + stmts_ids(v1, i + 1)) + stmt_ids(s));
    } else {
        assert(v2@[i] == s);
        assert(stmts_ids(v2, i + 1) =~= Seq::<u32>::empty());
        assert(stmt_ids(s) + Seq::<u32>::empty() =~= stmt_ids(s));
        assert(stmts_ids(v1, i) =~= Seq::<u32>::empty());
        assert(Seq::<u32>::empty() + stmt_ids(s) =~= stmt_ids(s));
    }
}

/// Appending an expression appends its ids.
pub proof fn lemma_exprs_ids_push(v1: Vec<Expression>, v2: Vec<Expression>, e: Expression, i: int)
    requires
        v2@ == v1@.push(e),
        0 <= i <= v1@.len(),
    ensures
        exprs_ids(v2, i) == exprs_ids(v1, i) + expr_ids(e),
    decreases v1@.len() - i,
{
    if i < v1@.len() {
        lemma_exprs_ids_push(v1, v2, e, i + 1);
        assert(v2@[i] == v1@[i]);
        assert(expr_ids(v1@[i]) + (exprs_ids(v1, i + 1) + expr_ids(e)) =~= (expr_ids(v1@[i])
            + exprs_ids(v1, i + 1)) + expr_ids(e));
    } else {
        assert(v2@[i] == e);
        assert(exprs_ids(v2, i + 1) =~= Seq::<u32>::empty());
        assert(expr_ids(e) + Seq::<u32>::empty() =~= expr_ids(e));
        assert(exprs_ids(v1, i) =~= Seq::<u32>::empty());
        assert(Seq::<u32>::empty() + expr_ids(e) =~= expr_ids(e));
    }
}

/// Appending a field initializer appends its ids.
pub proof fn lemma_fields_ids_push(
    v1: Vec<(String, Expression)>,
    v2: Vec<(String, Expression)>,
    f: (String, Expression),
    i: int,
)
    requires
        v2@ == v1@.push(f),
        0 <= i <= v1@.len(),
    ensures
        fields_ids(v2, i) == fields_ids(v1, i) + expr_ids(f.1),
    decreases v1@.len() - i,
{
    if i < v1@.len() {
        lemma_fields_ids_push(v1, v2, f, i + 1);
        assert(v2@[i] == v1@[i]);
        assert(expr_ids(v1@[i].1) + (fields_ids(v1, i + 1) + expr_ids(f.1)) =~= (expr_ids(
            v1@[i].1,
        ) + fields_ids(v1, i + 1)) + expr_ids(f.1));
    } else {
        assert(v2@[i] == f);
        assert(fields_ids(v2, i + 1) =~= Seq::<u32>::empty());
        assert(expr_ids(f.1) + Seq::<u32>::empty() =~= expr_ids(f.1));
        assert(fields_ids(v1, i) =~= Seq::<u32>::empty());
        assert(Seq::<u32>::empty() + expr_ids(f.1) =~= expr_ids(f.1));
    }
}

/// Appending a struct element appends its ids.
pub proof fn lemma_elems_ids_push(
    v1: Vec<StructElement>,
    v2: Vec<StructElement>,
    e: StructElement,
    i: int,
)
    requires
        v2@ == v1@.push(e),
        0 <= i <= v1@.len(),
    ensures
        elems_ids(v2, i) == elems_ids(v1, i) + elem_ids(e),
    decreases v1@.len() - i,
{
    if i < v1@.len() {
        lemma_elems_ids_push(v1, v2, e, i + 1);
        assert(v2@[i] == v1@[i]);
        assert(elem_ids(v1@[i]) + (elems_ids(v1, i + 1) + elem_ids(e)) =~= (elem_ids(v1@[i])
            + elems_ids(v1, i + 1)) + elem_ids(e));
    } else {
        assert(v2@[i] == e);
        assert(elems_ids(v2, i + 1) =~= Seq::<u32>::empty());
        assert(elem_ids(e) + Seq::<u32>::empty() =~= elem_ids(e));
        assert(elems_ids(v1, i) =~= Seq::<u32>::empty());
        assert(Seq::<u32>::empty() + elem_ids(e) =~= elem_ids(e));
    }
}

/// Appending a declaration appends its ids.
pub proof fn lemma_decls_ids_push(
    v1: Vec<Declaration>,
    v2: Vec<Declaration>,
    d: Declaration,
    i: int,
)
    requires
        v2@ == v1@.push(d),
        0 <= i <= v1@.len(),
    ensures
        decls_ids(v2, i) == decls_ids(v1, i) + decl_ids(d),
    decreases v1@.len() - i,
{
    if i < v1@.len() {
        lemma_decls_ids_push(v1, v2, d, i + 1);
        assert(v2@[i] == v1@[i]);
        assert(decl_ids(v1@[i]) + (decls_ids(v1, i + 1) + decl_ids(d)) =~= (decl_ids(v1@[i])
            + decls_ids(v1, i + 1)) + decl_ids(d));
    } else {
        assert(v2@[i] == d);
        assert(decls_ids(v2, i + 1) =~= Seq::<u32>::empty());
        assert(decl_ids(d) + Seq::<u32>::empty() =~= decl_ids(d));
        assert(decls_ids(v1, i) =~= Seq::<u32>::empty());
        assert(Seq::<u32>::empty() + decl_ids(d) =~= decl_ids(d));
    }
}

} // verus!

verus! {

broadcast use vstd::seq::axiom_seq_index_decreases, vstd::std_specs::vec::axiom_vec_index_decreases;

/// The mathematical content of a [`Type`].
#[verifier::ext_equal]
pub enum TypeView {
    U8,
    U16,
    U32,
    U64,
    I8,
    I16,
    I32,
    I64,
    F32,
    F64,
    Boolean,
    Character,
    Identifier { name: Seq<char>, generics: Seq<TypeView> },
    Array(Box<TypeView>),
    Nil,
}

/// The mathematical content of a [`FunctionParameter`].
#[verifier::ext_equal]
pub struct ParamView {
    pub name: Seq<char>,
    pub param_type: TypeView,
}

/// The mathematical content of an [`Expression`].
#[verifier::ext_equal]
pub enum ExprView {
    Block(Seq<StmtView>),
    NumberLiteral(u64),
    StringLiteral(Seq<char>),
    CharLiteral(char),
    BooleanLiteral(bool),
    Variable { name: Seq<char>, expression_id: u32 },
    FunctionCall { callee: Box<ExprView>, args: Seq<ExprView> },
    BinaryOperation { left: Box<ExprView>, operator: BinaryOperator, right: Box<ExprView> },
    UnaryOperation { operator: UnaryOperator, operand: Box<ExprView> },
    Assignment { name: Seq<char>, value: Box<ExprView>, expression_id: u32 },
    MemberAccess { object: Box<ExprView>, member: Seq<char> },
    If { condition: Box<ExprView>, then_branch: Box<ExprView>, else_branch: Option<Box<ExprView>> },
    Loop(LoopView),
    Array { array_type: TypeView, size: Box<ExprView>, initial_value: Box<ExprView> },
    StructCreation { struct_type: TypeView, fields: Seq<(Seq<char>, ExprView)> },
}

/// The mathematical content of a [`LoopStatement`].
#[verifier::ext_equal]
pub enum LoopView {
    While { condition: Box<ExprView>, body: Box<ExprView> },
    Infinite { body: Box<ExprView> },
    Iterator {
        mutability: VariableMutability,
        iterator: Seq<char>,
        iterable: Box<ExprView>,
        body: Box<ExprView>,
    },
}

/// The mathematical content of a [`Statement`].
#[verifier::ext_equal]
pub enum StmtView {
    Expression { expression: Box<ExprView>, result: bool },
    VariableDeclaration {
        mutability: VariableMutability,
        name: Seq<char>,
        variable_type: TypeView,
        value: Box<ExprView>,
    },
    Break,
    Continue,
    Return(Option<Box<ExprView>>),
    Declaration(DeclView),
}

/// The mathematical content of a [`Declaration`].
#[verifier::ext_equal]
pub enum DeclView {
    Function {
        name: Seq<char>,
        params: Seq<ParamView>,
        generic_args: Seq<Seq<char>>,
        return_type: TypeView,
        body: Box<ExprView>,
    },
    Import { path: Seq<Seq<char>> },
    Struct { name: Seq<char>, elements: Seq<ElemView>, generic_args: Seq<Seq<char>> },
    TypeDeclaration { name: Seq<char>, alias: TypeView, generic_args: Seq<Seq<char>> },
}

/// The mathematical content of a [`StructElement`].
#[verifier::ext_equal]
pub enum ElemView {
    Field { name: Seq<char>, field_type: TypeView },
    Declaration(DeclView),
}

/// The mathematical content of a [`Type`].
pub open spec fn type_view(t: Type) -> TypeView
    decreases t,
{
    match t {
        Type::U8 => TypeView::U8,
        Type::U16 => TypeView::U16,
        Type::U32 => TypeView::U32,
        Type::U64 => TypeView::U64,
        Type::I8 => TypeView::I8,
        Type::I16 => TypeView::I16,
        Type::I32 => TypeView::I32,
        Type::I64 => TypeView::I64,
        Type::F32 => TypeView::F32,
        Type::F64 => TypeView::F64,
        Type::Boolean => TypeView::Boolean,
        Type::Character => TypeView::Character,
        Type::Identifier { name, generics } => TypeView::Identifier {
            name: name@,
            generics: types_view(generics),
        },
        Type::Array(inner) => TypeView::Array(Box::new(type_view(*inner))),
        Type::Nil => TypeView::Nil,
    }
}

/// The contents of a vector of types, elementwise.
pub open spec fn types_view(v: Vec<Type>) -> Seq<TypeView>
    decreases v,
{
    Seq::new(
        v@.len(),
        |i: int|
            if 0 <= i < v@.len() {
                type_view(v@[i])
            } else {
                TypeView::Nil
            },
    )
}

/// The contents of a vector of names, elementwise.
pub open spec fn strings_view(v: Vec<String>) -> Seq<Seq<char>> {
    Seq::new(
        v@.len(),
        |i: int|
            if 0 <= i < v@.len() {
                v@[i]@
            } else {
                Seq::empty()
            },
    )
}

/// The mathematical content of a [`FunctionParameter`].
pub open spec fn param_view(p: FunctionParameter) -> ParamView {
    ParamView { name: p.name@, param_type: type_view(p.param_type) }
}

/// The contents of a vector of parameters, elementwise.
pub open spec fn params_view(v: Vec<FunctionParameter>) -> Seq<ParamView> {
    Seq::new(
        v@.len(),
        |i: int|
            if 0 <= i < v@.len() {
                param_view(v@[i])
            } else {
                ParamView { name: Seq::empty(), param_type: TypeView::Nil }
            },
    )
}

/// The mathematical content of an [`Expression`].
pub open spec fn expr_view(e: Expression) -> ExprView
    decreases e,
{
    match e {
        Expression::Block(stmts) => ExprView::Block(stmts_view(stmts)),
        Expression::NumberLiteral(b) => ExprView::NumberLiteral(b),
        Expression::StringLiteral(s) => ExprView::StringLiteral(s@),
        Expression::CharLiteral(c) => ExprView::CharLiteral(c),
        Expression::BooleanLiteral(b) => ExprView::BooleanLiteral(b),
        Expression::Variable { name, expression_id } => ExprView::Variable {
            name: name@,
            expression_id: expression_id.0,
        },
        Expression::FunctionCall { callee, args } => ExprView::FunctionCall {
            callee: Box::new(expr_view(*callee)),
            args: exprs_view(args),
        },
        Expression::BinaryOperation { left, operator, right } => ExprView::BinaryOperation {
            left: Box::new(expr_view(*left)),
            operator,
            right: Box::new(expr_view(*right)),
        },
        Expression::UnaryOperation { operator, operand } => ExprView::UnaryOperation {
            operator,
            operand: Box::new(expr_view(*operand)),
        },
        Expression::Assignment { name, value, expression_id } => ExprView::Assignment {
            name: name@,
            value: Box::new(expr_view(*value)),
            expression_id: expression_id.0,
        },
        Expression::MemberAccess { object, member } => ExprView::MemberAccess {
            object: Box::new(expr_view(*object)),
            member: member@,
        },
        Expression::If { condition, then_branch, else_branch } => ExprView::If {
            condition: Box::new(expr_view(*condition)),
            then_branch: Box::new(expr_view(*then_branch)),
            else_branch: match else_branch {
                Some(e2) => Some(Box::new(expr_view(*e2))),
                None => None,
            },
        },
        Expression::Loop(l) => ExprView::Loop(loop_view(l)),
        Expression::Array { array_type, size, initial_value } => ExprView::Array {
            array_type: type_view(array_type),
            size: Box::new(expr_view(*size)),
            initial_value: Box::new(expr_view(*initial_value)),
        },
        Expression::StructCreation { struct_type, fields } => ExprView::StructCreation {
            struct_type: type_view(struct_type),
            fields: fields_view(fields),
        },
    }
}

/// The mathematical content of a [`LoopStatement`].
pub open spec fn loop_view(l: LoopStatement) -> LoopView
    decreases l,
{
    match l {
        LoopStatement::While { condition, body } => LoopView::While {
            condition: Box::new(expr_view(*condition)),
            body: Box::new(expr_view(*body)),
        },
        LoopStatement::Infinite { body } => LoopView::Infinite {
            body: Box::new(expr_view(*body)),
        },
        LoopStatement::Iterator { mutability, iterator, iterable, body } => LoopView::Iterator {
            mutability,
            iterator: iterator@,
            iterable: Box::new(expr_view(*iterable)),
            body: Box::new(expr_view(*body)),
        },
    }
}

/// The mathematical content of a [`Statement`].
pub open spec fn stmt_view(s: Statement) -> StmtView
    decreases s,
{
    match s {
        Statement::Expression { expression, result } => StmtView::Expression {
            expression: Box::new(expr_view(*expression)),
            result,
        },
        Statement::VariableDeclaration { mutability, name, variable_type, value } => StmtView::VariableDeclaration {
            mutability,
            name: name@,
            variable_type: type_view(variable_type),
            value: Box::new(expr_view(*value)),
        },
        Statement::Break => StmtView::Break,
        Statement::Continue => StmtView::Continue,
        Statement::Return(v) => StmtView::Return(
            match v {
                Some(e) => Some(Box::new(expr_view(*e))),
                None => None,
            },
        ),
        Statement::Declaration(d) => StmtView::Declaration(decl_view(d)),
    }
}

/// The mathematical content of a [`Declaration`].
pub open spec fn decl_view(d: Declaration) -> DeclView
    decreases d,
{
    match d {
        Declaration::Function { name, params, generic_args, return_type, body } => DeclView::Function {
            name: name@,
            params: params_view(params),
            generic_args: strings_view(generic_args),
            return_type: type_view(return_type),
            body: Box::new(expr_view(*body)),
        },
        Declaration::Import { path } => DeclView::Import { path: strings_view(path) },
        Declaration::Struct { name, elements, generic_args } => DeclView::Struct {
            name: name@,
            elements: elems_view(elements),
            generic_args: strings_view(generic_args),
        },
        Declaration::TypeDeclaration { name, alias, generic_args } => DeclView::TypeDeclaration {
            name: name@,
            alias: type_view(alias),
            generic_args: strings_view(generic_args),
        },
    }
}

/// The mathematical content of a [`StructElement`].
pub open spec fn elem_view(e: StructElement) -> ElemView
    decreases e,
{
    match e {
        StructElement::Field { name, field_type } => ElemView::Field {
            name: name@,
            field_type: type_view(field_type),
        },
        StructElement::Declaration(d) => ElemView::Declaration(decl_view(d)),
    }
}

/// The contents of a vector of statements, elementwise.
pub open spec fn stmts_view(v: Vec<Statement>) -> Seq<StmtView>
    decreases v,
{
    Seq::new(
        v@.len(),
        |i: int|
            if 0 <= i < v@.len() {
                stmt_view(v@[i])
            } else {
                StmtView::Break
            },
    )
}

/// The contents of a vector of expressions, elementwise.
pub open spec fn exprs_view(v: Vec<Expression>) -> Seq<ExprView>
    decreases v,
{
    Seq::new(
        v@.len(),
        |i: int|
            if 0 <= i < v@.len() {
                expr_view(v@[i])
            } else {
                ExprView::NumberLiteral(0)
            },
    )
}

/// The contents of a vector of field initializers, elementwise.
pub open spec fn fields_view(v: Vec<(String, Expression)>) -> Seq<(Seq<char>, ExprView)>
    decreases v,
{
    Seq::new(
        v@.len(),
        |i: int|
            if 0 <= i < v@.len() {
                (v@[i].0@, expr_view(v@[i].1))
            } else {
                (Seq::empty(), ExprView::NumberLiteral(0))
            },
    )
}

/// The contents of a vector of struct elements, elementwise.
pub open spec fn elems_view(v: Vec<StructElement>) -> Seq<ElemView>
    decreases v,
{
    Seq::new(
        v@.len(),
        |i: int|
            if 0 <= i < v@.len() {
                elem_view(v@[i])
            } else {
                ElemView::Field { name: Seq::empty(), field_type: TypeView::Nil }
            },
    )
}

/// The contents of a vector of declarations, elementwise.
pub open spec fn decls_view(v: Vec<Declaration>) -> Seq<DeclView>
    decreases v,
{
    Seq::new(
        v@.len(),
        |i: int|
            if 0 <= i < v@.len() {
                decl_view(v@[i])
            } else {
                DeclView::Import { path: Seq::empty() }
            },
    )
}

/// The mathematical content of a [`Program`]: its declarations in order.
pub open spec fn program_view(p: Program) -> Seq<DeclView> {
    decls_view(p.declarations)
}

} // verus!
