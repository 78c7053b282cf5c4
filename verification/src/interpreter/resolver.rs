//! Static resolution: computes, for every variable reference and
//! assignment, the number of lexical scopes between its use and its
//! binding, enabling constant-time environment lookups at run time.
//!
//! A scope stack (innermost last) maps each name to a flag: declared (not
//! yet readable) or defined.  A variable declaration declares its name,
//! resolves its initializer — so a self-reference is caught — and then
//! defines the name.  The resolver's output is the sequence of
//! `(expression id, depth)` pairs, left out for names found in no scope,
//! which the interpreter then treats as globals.  [`spec_resolve_program`]
//! and companions define the pass; `Resolver::resolve_program` is proved
//! to implement it.

use vstd::prelude::*;
use vstd::string::StringExecFns;
use crate::parser::ast::{
    Declaration, Expression, FunctionParameter, LoopStatement, Program, Statement, StructElement,
};
use crate::textops::push_char;

verus! {

broadcast use vstd::seq::axiom_seq_index_decreases, vstd::std_specs::vec::axiom_vec_index_decreases;

/// The resolver's state: the scope stack (innermost last, each scope a
/// name-to-flag list whose later entries shadow earlier ones) and the
/// recorded `(expression id, depth)` pairs.
#[verifier::ext_equal]
pub struct ResolverState {
    pub scopes: Seq<Seq<(Seq<char>, bool)>>,
    pub resolved: Seq<(u32, usize)>,
}

/// The flag of `name` in one scope, the later entry winning.
pub open spec fn spec_scope_get(scope: Seq<(Seq<char>, bool)>, name: Seq<char>) -> Option<bool>
    decreases scope.len(),
{
    if scope.len() == 0 {
        None
    } else if scope.last().0 == name {
        Some(scope.last().1)
    } else {
        spec_scope_get(scope.drop_last(), name)
    }
}

/// The number of scopes between the innermost scope and the nearest one
/// that knows `name`, if any.
pub open spec fn spec_find_depth(scopes: Seq<Seq<(Seq<char>, bool)>>, name: Seq<char>) -> Option<
    int,
>
    decreases scopes.len(),
{
    if scopes.len() == 0 {
        None
    } else if spec_scope_get(scopes.last(), name) is Some {
        Some(0)
    } else {
        match spec_find_depth(scopes.drop_last(), name) {
            Some(d) => Some(d + 1),
            None => None,
        }
    }
}

/// The state after reserving `name` in the innermost scope, not yet
/// readable.
pub open spec fn spec_declare(st: ResolverState, name: Seq<char>) -> ResolverState {
    if st.scopes.len() > 0 {
        ResolverState {
            scopes: st.scopes.update(
                st.scopes.len() - 1,
                st.scopes.last().push((name, false)),
            ),
            resolved: st.resolved,
        }
    } else {
        st
    }
}

/// The state after marking `name` readable in the innermost scope.
pub open spec fn spec_define(st: ResolverState, name: Seq<char>) -> ResolverState {
    if st.scopes.len() > 0 {
        ResolverState {
            scopes: st.scopes.update(st.scopes.len() - 1, st.scopes.last().push((name, true))),
            resolved: st.resolved,
        }
    } else {
        st
    }
}

/// The state after recording the scope depth of one use of `name`, when
/// some scope knows it.
pub open spec fn spec_record_depth(st: ResolverState, id: u32, name: Seq<char>) -> ResolverState {
    match spec_find_depth(st.scopes, name) {
        Some(d) => ResolverState {
            scopes: st.scopes,
            resolved: st.resolved.push((id, d as usize)),
        },
        None => st,
    }
}

/// The message for reading a variable inside its own initializer.
pub open spec fn spec_self_read_message(name: Seq<char>) -> Seq<char> {
    "Error: Tried to read "@ + name + " in its own declaration."@
}

/// Resolves an expression.
pub open spec fn spec_resolve_expr(e: Expression, st: ResolverState) -> Result<
    ResolverState,
    Seq<char>,
>
    decreases e, 0int,
{
    match e {
        Expression::NumberLiteral(_) => Ok(st),
        Expression::StringLiteral(_) => Ok(st),
        Expression::CharLiteral(_) => Ok(st),
        Expression::BooleanLiteral(_) => Ok(st),
        Expression::Variable { name, expression_id } => {
            if st.scopes.len() > 0 && spec_scope_get(st.scopes.last(), name@) == Some(false) {
                Err(spec_self_read_message(name@))
            } else {
                Ok(spec_record_depth(st, expression_id.0, name@))
            }
        },
        Expression::Assignment { name, value, expression_id } => {
            match spec_resolve_expr(*value, st) {
                Ok(st2) => Ok(spec_record_depth(st2, expression_id.0, name@)),
                Err(m) => Err(m),
            }
        },
        Expression::BinaryOperation { left, right, .. } => match spec_resolve_expr(*left, st) {
            Ok(st2) => spec_resolve_expr(*right, st2),
            Err(m) => Err(m),
        },
        Expression::UnaryOperation { operand, .. } => spec_resolve_expr(*operand, st),
        Expression::Block(stmts) => {
            let st1 = ResolverState { scopes: st.scopes.push(Seq::empty()), resolved: st.resolved };
            match spec_resolve_stmts(stmts, 0, st1) {
                Ok(st2) => Ok(
                    ResolverState {
                        scopes: if st2.scopes.len() > 0 {
                            st2.scopes.drop_last()
                        } else {
                            st2.scopes
                        },
                        resolved: st2.resolved,
                    },
                ),
                Err(m) => Err(m),
            }
        },
        Expression::FunctionCall { callee, args } => match spec_resolve_expr(*callee, st) {
            Ok(st2) => spec_resolve_exprs(args, 0, st2),
            Err(m) => Err(m),
        },
        Expression::If { condition, then_branch, else_branch } => {
            match spec_resolve_expr(*condition, st) {
                Ok(st2) => match spec_resolve_expr(*then_branch, st2) {
                    Ok(st3) => match else_branch {
                        Some(e2) => spec_resolve_expr(*e2, st3),
                        None => Ok(st3),
                    },
                    Err(m) => Err(m),
                },
                Err(m) => Err(m),
            }
        },
        Expression::Loop(l) => match l {
            LoopStatement::Infinite { body } => spec_resolve_expr(*body, st),
            LoopStatement::While { condition, body } => match spec_resolve_expr(*condition, st) {
                Ok(st2) => spec_resolve_expr(*body, st2),
                Err(m) => Err(m),
            },
            LoopStatement::Iterator { iterator, iterable, body, .. } => {
                let st1 = spec_declare(st, iterator@);
                match spec_resolve_expr(*iterable, st1) {
                    Ok(st2) => {
                        let st3 = spec_define(st2, iterator@);
                        spec_resolve_expr(*body, st3)
                    },
                    Err(m) => Err(m),
                }
            },
        },
        Expression::MemberAccess { object, .. } => spec_resolve_expr(*object, st),
        Expression::Array { size, initial_value, .. } => match spec_resolve_expr(*size, st) {
            Ok(st2) => spec_resolve_expr(*initial_value, st2),
            Err(m) => Err(m),
        },
        Expression::StructCreation { fields, .. } => spec_resolve_fields(fields, 0, st),
    }
}

/// Resolves a run of expressions in order.
pub open spec fn spec_resolve_exprs(es: Vec<Expression>, i: int, st: ResolverState) -> Result<
    ResolverState,
    Seq<char>,
>
    decreases es, es@.len() - i,
{
    if i < 0 || i >= es@.len() {
        Ok(st)
    } else {
        match spec_resolve_expr(es@[i], st) {
            Ok(st2) => spec_resolve_exprs(es, i + 1, st2),
            Err(m) => Err(m),
        }
    }
}

/// Resolves the field initializers of a struct creation in order.
pub open spec fn spec_resolve_fields(
    fields: Vec<(String, Expression)>,
    i: int,
    st: ResolverState,
) -> Result<ResolverState, Seq<char>>
    decreases fields, fields@.len() - i,
{
    if i < 0 || i >= fields@.len() {
        Ok(st)
    } else {
        match spec_resolve_expr(fields@[i].1, st) {
            Ok(st2) => spec_resolve_fields(fields, i + 1, st2),
            Err(m) => Err(m),
        }
    }
}

/// Resolves a statement.
pub open spec fn spec_resolve_stmt(s: Statement, st: ResolverState) -> Result<
    ResolverState,
    Seq<char>,
>
    decreases s, 0int,
{
    match s {
        Statement::Break => Ok(st),
        Statement::Continue => Ok(st),
        Statement::Expression { expression, .. } => spec_resolve_expr(*expression, st),
        Statement::Return(ov) => match ov {
            Some(e) => spec_resolve_expr(*e, st),
            None => Ok(st),
        },
        Statement::VariableDeclaration { name, value, .. } => {
            let st1 = spec_declare(st, name@);
            match spec_resolve_expr(*value, st1) {
                Ok(st2) => Ok(spec_define(st2, name@)),
                Err(m) => Err(m),
            }
        },
        Statement::Declaration(d) => spec_resolve_decl(d, st),
    }
}

/// Resolves a block's statements in order.
pub open spec fn spec_resolve_stmts(stmts: Vec<Statement>, i: int, st: ResolverState) -> Result<
    ResolverState,
    Seq<char>,
>
    decreases stmts, stmts@.len() - i,
{
    if i < 0 || i >= stmts@.len() {
        Ok(st)
    } else {
        match spec_resolve_stmt(stmts@[i], st) {
            Ok(st2) => spec_resolve_stmts(stmts, i + 1, st2),
            Err(m) => Err(m),
        }
    }
}

/// Resolves a declaration.  A function opens a scope, defines its
/// parameters, and resolves its body in it.
pub open spec fn spec_resolve_decl(d: Declaration, st: ResolverState) -> Result<
    ResolverState,
    Seq<char>,
>
    decreases d, 0int,
{
    match d {
        Declaration::Function { params, body, .. } => {
            let st1 = ResolverState { scopes: st.scopes.push(Seq::empty()), resolved: st.resolved };
            let st2 = spec_define_params(params, 0, st1);
            match spec_resolve_expr(*body, st2) {
                Ok(st3) => Ok(
                    ResolverState {
                        scopes: if st3.scopes.len() > 0 {
                            st3.scopes.drop_last()
                        } else {
                            st3.scopes
                        },
                        resolved: st3.resolved,
                    },
                ),
                Err(m) => Err(m),
            }
        },
        Declaration::Import { .. } => Ok(st),
        Declaration::Struct { elements, .. } => spec_resolve_elems(elements, 0, st),
        Declaration::TypeDeclaration { .. } => Ok(st),
    }
}

/// Defines each declared parameter name in the innermost scope.
pub open spec fn spec_define_params(
    params: Vec<FunctionParameter>,
    i: int,
    st: ResolverState,
) -> ResolverState
    decreases params, params@.len() - i,
{
    if i < 0 || i >= params@.len() {
        st
    } else {
        spec_define_params(params, i + 1, spec_define(st, params@[i].name@))
    }
}

/// Resolves a struct's elements in order: nested declarations are
/// resolved, plain fields need nothing.
pub open spec fn spec_resolve_elems(
    elems: Vec<StructElement>,
    i: int,
    st: ResolverState,
) -> Result<ResolverState, Seq<char>>
    decreases elems, elems@.len() - i,
{
    if i < 0 || i >= elems@.len() {
        Ok(st)
    } else {
        match elems@[i] {
            StructElement::Field { .. } => spec_resolve_elems(elems, i + 1, st),
            StructElement::Declaration(d) => match spec_resolve_decl(d, st) {
                Ok(st2) => spec_resolve_elems(elems, i + 1, st2),
                Err(m) => Err(m),
            },
        }
    }
}

/// Resolves a whole program's declarations in order.
pub open spec fn spec_resolve_decls(
    decls: Vec<Declaration>,
    i: int,
    st: ResolverState,
) -> Result<ResolverState, Seq<char>>
    decreases decls, decls@.len() - i,
{
    if i < 0 || i >= decls@.len() {
        Ok(st)
    } else {
        match spec_resolve_decl(decls@[i], st) {
            Ok(st2) => spec_resolve_decls(decls, i + 1, st2),
            Err(m) => Err(m),
        }
    }
}

/// Resolves a program from an empty scope stack.
pub open spec fn spec_resolve_program(p: Program, st: ResolverState) -> Result<
    ResolverState,
    Seq<char>,
> {
    spec_resolve_decls(p.declarations, 0, st)
}

} // verus!

verus! {

/// The mathematical content of one resolver scope.
pub open spec fn spec_rscope_view(s: Vec<(String, bool)>) -> Seq<(Seq<char>, bool)> {
    Seq::new(
        s@.len(),
        |i: int|
            if 0 <= i < s@.len() {
                (s@[i].0@, s@[i].1)
            } else {
                (Seq::empty(), false)
            },
    )
}

/// The mathematical content of the resolver's scope stack.
pub open spec fn spec_rscopes_view(s: Vec<Vec<(String, bool)>>) -> Seq<Seq<(Seq<char>, bool)>> {
    Seq::new(
        s@.len(),
        |i: int|
            if 0 <= i < s@.len() {
                spec_rscope_view(s@[i])
            } else {
                Seq::empty()
            },
    )
}

/// A name entered nowhere in a scope has no flag.
proof fn lemma_rscope_get_none(scope: Seq<(Seq<char>, bool)>, name: Seq<char>)
    requires
        forall|k: int| 0 <= k < scope.len() ==> (#[trigger] scope[k]).0 != name,
    ensures
        spec_scope_get(scope, name) is None,
    decreases scope.len(),
{
    if scope.len() > 0 {
        lemma_rscope_get_none(scope.drop_last(), name);
    }
}

/// The last entry of a name decides its flag.
proof fn lemma_rscope_get_at(scope: Seq<(Seq<char>, bool)>, name: Seq<char>, j: int)
    requires
        0 <= j < scope.len(),
        scope[j].0 == name,
        forall|k: int| j < k < scope.len() ==> (#[trigger] scope[k]).0 != name,
    ensures
        spec_scope_get(scope, name) == Some(scope[j].1),
    decreases scope.len(),
{
    if j < scope.len() - 1 {
        lemma_rscope_get_at(scope.drop_last(), name, j);
    }
}

/// The static resolver: the scope stack and the recorded depth pairs.
pub struct Resolver {
    pub scopes: Vec<Vec<(String, bool)>>,
    pub resolved: Vec<(u32, usize)>,
}

impl Resolver {
    /// The resolver's state.
    pub open spec fn st(self) -> ResolverState {
        ResolverState { scopes: spec_rscopes_view(self.scopes), resolved: self.resolved@ }
    }

    /// A fresh resolver: no scopes, nothing recorded.
    pub fn new() -> (r: Resolver)
        ensures
            r.st().scopes =~= Seq::<Seq<(Seq<char>, bool)>>::empty(),
            r.st().resolved =~= Seq::<(u32, usize)>::empty(),
    {
        Resolver { scopes: Vec::new(), resolved: Vec::new() }
    }

    /// Opens a scope.
    fn begin_scope(&mut self)
        ensures
            final(self).st() == (ResolverState {
                scopes: old(self).st().scopes.push(Seq::empty()),
                resolved: old(self).st().resolved,
            }),
    {
        self.scopes.push(Vec::new());
        proof {
            assert(spec_rscope_view(self.scopes@.last()) =~= Seq::<(Seq<char>, bool)>::empty());
            assert(spec_rscopes_view(self.scopes) =~= spec_rscopes_view(old(self).scopes).push(
                Seq::empty(),
            ));
        }
    }

    /// Closes the innermost scope.
    fn end_scope(&mut self)
        ensures
            final(self).st() == (ResolverState {
                scopes: if old(self).st().scopes.len() > 0 {
                    old(self).st().scopes.drop_last()
                } else {
                    old(self).st().scopes
                },
                resolved: old(self).st().resolved,
            }),
    {
        if self.scopes.len() > 0 {
            self.scopes.pop();
            proof {
                assert(spec_rscopes_view(self.scopes) =~= spec_rscopes_view(
                    old(self).scopes,
                ).drop_last());
            }
        }
    }

    /// Reserves `name` in the innermost scope, not yet readable.
    fn declare(&mut self, name: &String)
        ensures
            final(self).st() == spec_declare(old(self).st(), name@),
    {
        if self.scopes.len() > 0 {
            let mut scope = match self.scopes.pop() {
                Some(s) => s,
                None => Vec::new(),
            };
            scope.push((name.clone(), false));
            self.scopes.push(scope);
            proof {
                let o = spec_rscopes_view(old(self).scopes);
                assert(spec_rscope_view(self.scopes@.last()) =~= o.last().push((name@, false)));
                assert(spec_rscopes_view(self.scopes) =~= o.update(
                    o.len() - 1,
                    o.last().push((name@, false)),
                ));
            }
        }
    }

    /// Marks `name` readable in the innermost scope.
    fn define(&mut self, name: &String)
        ensures
            final(self).st() == spec_define(old(self).st(), name@),
    {
        if self.scopes.len() > 0 {
            let mut scope = match self.scopes.pop() {
                Some(s) => s,
                None => Vec::new(),
            };
            scope.push((name.clone(), true));
            self.scopes.push(scope);
            proof {
                let o = spec_rscopes_view(old(self).scopes);
                assert(spec_rscope_view(self.scopes@.last()) =~= o.last().push((name@, true)));
                assert(spec_rscopes_view(self.scopes) =~= o.update(
                    o.len() - 1,
                    o.last().push((name@, true)),
                ));
            }
        }
    }

    /// The flag of `name` in the scope at `idx`, if entered there.
    #[verifier::loop_isolation(false)]
    fn scope_get_at(&self, idx: usize, name: &String) -> (r: Option<bool>)
        requires
            idx < self.scopes@.len(),
        ensures
            r == spec_scope_get(self.st().scopes[idx as int], name@),
    {
        let scope = &self.scopes[idx];
        let ghost sv = spec_rscope_view(*scope);
        let mut j: usize = scope.len();
        while j > 0
            invariant
                j <= scope@.len(),
                sv == spec_rscope_view(*scope),
                sv.len() == scope@.len(),
                forall|k: int| j <= k < sv.len() ==> (#[trigger] sv[k]).0 != name@,
            decreases j,
        {
            j = j - 1;
            if scope[j].0.eq(name) {
                proof {
                    lemma_rscope_get_at(sv, name@, j as int);
                }
                return Some(scope[j].1);
            }
        }
        proof {
            lemma_rscope_get_none(sv, name@);
        }
        None
    }

    /// Walks the scope stack from the innermost scope outward and records
    /// the depth of the first scope that knows `name`; records nothing
    /// when none does.
    #[verifier::loop_isolation(false)]
    fn record_local_depth(&mut self, id: u32, name: &String)
        ensures
            final(self).st() == spec_record_depth(old(self).st(), id, name@),
    {
        let ghost sv = spec_rscopes_view(old(self).scopes);
        let len = self.scopes.len();
        let mut d: usize = 0;
        proof {
            assert(sv.take(len as int) =~= sv);
        }
        while d < len
            invariant
                d <= len,
                len == self.scopes@.len(),
                self.scopes@ == old(self).scopes@,
                self.resolved@ == old(self).resolved@,
                sv == spec_rscopes_view(self.scopes),
                spec_find_depth(sv, name@) == match spec_find_depth(
                    sv.take(len - d),
                    name@,
                ) {
                    Some(x) => Some(x + d),
                    None => None::<int>,
                },
            decreases len - d,
        {
            let idx = len - 1 - d;
            proof {
                assert(sv.take(len - d).last() == sv[idx as int]);
                assert(sv.take(len - d).drop_last() =~= sv.take(len - d - 1));
            }
            match self.scope_get_at(idx, name) {
                Some(_) => {
                    self.resolved.push((id, d));
                    proof {
                        assert(spec_find_depth(sv, name@) == Some(d as int));
                        assert(self.resolved@ =~= old(self).resolved@.push((id, d)));
                        assert(self.st() =~= spec_record_depth(old(self).st(), id, name@));
                    }
                    return ;
                },
                None => {},
            }
            d = d + 1;
        }
        proof {
            assert(sv.take(0) =~= Seq::<Seq<(Seq<char>, bool)>>::empty());
            assert(spec_find_depth(sv, name@) is None);
            assert(self.st() =~= spec_record_depth(old(self).st(), id, name@));
        }
    }
}

} // verus!

verus! {

impl Resolver {
    /// Resolves an expression, recording the scope depth of every
    /// variable reference and assignment in it.
    #[verifier::loop_isolation(false)]
    pub fn resolve_expression(&mut self, e: &Expression) -> (r: Result<(), String>)
        ensures
            match spec_resolve_expr(*e, old(self).st()) {
                Ok(st2) => r is Ok && final(self).st() == st2,
                Err(m) => r matches Err(msg) && msg@ == m,
            },
        decreases e, 0int,
    {
        match e {
            Expression::NumberLiteral(_) => Ok(()),
            Expression::StringLiteral(_) => Ok(()),
            Expression::CharLiteral(_) => Ok(()),
            Expression::BooleanLiteral(_) => Ok(()),
            Expression::Variable { name, expression_id } => {
                if self.scopes.len() > 0 {
                    let idx = self.scopes.len() - 1;
                    match self.scope_get_at(idx, name) {
                        Some(false) => {
                            let mut msg = String::from_str("Error: Tried to read ");
                            msg.append(name.as_str());
                            msg.append(" in its own declaration.");
                            return Err(msg);
                        },
                        _ => {},
                    }
                }
                self.record_local_depth(expression_id.0, name);
                Ok(())
            },
            Expression::Assignment { name, value, expression_id } => {
                match self.resolve_expression(value) {
                    Ok(_) => {},
                    Err(m) => {
                        return Err(m);
                    },
                }
                self.record_local_depth(expression_id.0, name);
                Ok(())
            },
            Expression::BinaryOperation { left, right, .. } => {
                match self.resolve_expression(left) {
                    Ok(_) => {},
                    Err(m) => {
                        return Err(m);
                    },
                }
                self.resolve_expression(right)
            },
            Expression::UnaryOperation { operand, .. } => self.resolve_expression(operand),
            Expression::Block(stmts) => {
                self.begin_scope();
                let mut i: usize = 0;
                let ghost st1 = self.st();
                while i < stmts.len()
                    invariant
                        i <= stmts@.len(),
                        spec_resolve_stmts(*stmts, 0, st1) == spec_resolve_stmts(
                            *stmts,
                            i as int,
                            self.st(),
                        ),
                    decreases stmts@.len() - i,
                {
                    proof {
                        vstd::std_specs::vec::axiom_vec_index_decreases(*stmts, i as int);
                    }
                    match self.resolve_statement(&stmts[i]) {
                        Ok(_) => {},
                        Err(m) => {
                            return Err(m);
                        },
                    }
                    i = i + 1;
                }
                self.end_scope();
                Ok(())
            },
            Expression::FunctionCall { callee, args } => {
                match self.resolve_expression(callee) {
                    Ok(_) => {},
                    Err(m) => {
                        return Err(m);
                    },
                }
                let mut i: usize = 0;
                let ghost st1 = self.st();
                while i < args.len()
                    invariant
                        i <= args@.len(),
                        spec_resolve_exprs(*args, 0, st1) == spec_resolve_exprs(
                            *args,
                            i as int,
                            self.st(),
                        ),
                    decreases args@.len() - i,
                {
                    proof {
                        vstd::std_specs::vec::axiom_vec_index_decreases(*args, i as int);
                    }
                    match self.resolve_expression(&args[i]) {
                        Ok(_) => {},
                        Err(m) => {
                            return Err(m);
                        },
                    }
                    i = i + 1;
                }
                Ok(())
            },
            Expression::If { condition, then_branch, else_branch } => {
                match self.resolve_expression(condition) {
                    Ok(_) => {},
                    Err(m) => {
                        return Err(m);
                    },
                }
                match self.resolve_expression(then_branch) {
                    Ok(_) => {},
                    Err(m) => {
                        return Err(m);
                    },
                }
                match else_branch {
                    Some(e2) => self.resolve_expression(e2),
                    None => Ok(()),
                }
            },
            Expression::Loop(l) => match l {
                LoopStatement::Infinite { body } => self.resolve_expression(body),
                LoopStatement::While { condition, body } => {
                    match self.resolve_expression(condition) {
                        Ok(_) => {},
                        Err(m) => {
                            return Err(m);
                        },
                    }
                    self.resolve_expression(body)
                },
                LoopStatement::Iterator { iterator, iterable, body, .. } => {
                    self.declare(iterator);
                    match self.resolve_expression(iterable) {
                        Ok(_) => {},
                        Err(m) => {
                            return Err(m);
                        },
                    }
                    self.define(iterator);
                    self.resolve_expression(body)
                },
            },
            Expression::MemberAccess { object, .. } => self.resolve_expression(object),
            Expression::Array { size, initial_value, .. } => {
                match self.resolve_expression(size) {
                    Ok(_) => {},
                    Err(m) => {
                        return Err(m);
                    },
                }
                self.resolve_expression(initial_value)
            },
            Expression::StructCreation { fields, .. } => {
                let mut i: usize = 0;
                let ghost st1 = self.st();
                while i < fields.len()
                    invariant
                        i <= fields@.len(),
                        spec_resolve_fields(*fields, 0, st1) == spec_resolve_fields(
                            *fields,
                            i as int,
                            self.st(),
                        ),
                    decreases fields@.len() - i,
                {
                    proof {
                        vstd::std_specs::vec::axiom_vec_index_decreases(*fields, i as int);
                    }
                    match self.resolve_expression(&fields[i].1) {
                        Ok(_) => {},
                        Err(m) => {
                            return Err(m);
                        },
                    }
                    i = i + 1;
                }
                Ok(())
            },
        }
    }

    /// Resolves a statement.
    #[verifier::loop_isolation(false)]
    pub fn resolve_statement(&mut self, s: &Statement) -> (r: Result<(), String>)
        ensures
            match spec_resolve_stmt(*s, old(self).st()) {
                Ok(st2) => r is Ok && final(self).st() == st2,
                Err(m) => r matches Err(msg) && msg@ == m,
            },
        decreases s, 0int,
    {
        match s {
            Statement::Break => Ok(()),
            Statement::Continue => Ok(()),
            Statement::Expression { expression, .. } => self.resolve_expression(expression),
            Statement::Return(ov) => match ov {
                Some(e) => self.resolve_expression(e),
                None => Ok(()),
            },
            Statement::VariableDeclaration { name, value, .. } => {
                self.declare(name);
                match self.resolve_expression(value) {
                    Ok(_) => {},
                    Err(m) => {
                        return Err(m);
                    },
                }
                self.define(name);
                Ok(())
            },
            Statement::Declaration(d) => self.resolve_declaration(d),
        }
    }

    /// Resolves a declaration.
    #[verifier::loop_isolation(false)]
    fn resolve_declaration(&mut self, d: &Declaration) -> (r: Result<(), String>)
        ensures
            match spec_resolve_decl(*d, old(self).st()) {
                Ok(st2) => r is Ok && final(self).st() == st2,
                Err(m) => r matches Err(msg) && msg@ == m,
            },
        decreases d, 0int,
    {
        match d {
            Declaration::Function { params, body, .. } => {
                self.begin_scope();
                let mut i: usize = 0;
                let ghost st1 = self.st();
                while i < params.len()
                    invariant
                        i <= params@.len(),
                        spec_define_params(*params, 0, st1) == spec_define_params(
                            *params,
                            i as int,
                            self.st(),
                        ),
                    decreases params@.len() - i,
                {
                    self.define(&params[i].name);
                    i = i + 1;
                }
                match self.resolve_expression(body) {
                    Ok(_) => {},
                    Err(m) => {
                        return Err(m);
                    },
                }
                self.end_scope();
                Ok(())
            },
            Declaration::Import { .. } => Ok(()),
            Declaration::Struct { elements, .. } => {
                let mut i: usize = 0;
                let ghost st1 = self.st();
                while i < elements.len()
                    invariant
                        i <= elements@.len(),
                        spec_resolve_elems(*elements, 0, st1) == spec_resolve_elems(
                            *elements,
                            i as int,
                            self.st(),
                        ),
                    decreases elements@.len() - i,
                {
                    proof {
                        vstd::std_specs::vec::axiom_vec_index_decreases(*elements, i as int);
                    }
                    match &elements[i] {
                        StructElement::Field { .. } => {},
                        StructElement::Declaration(d2) => {
                            match self.resolve_declaration(d2) {
                                Ok(_) => {},
                                Err(m) => {
                                    return Err(m);
                                },
                            }
                        },
                    }
                    i = i + 1;
                }
                Ok(())
            },
            Declaration::TypeDeclaration { .. } => Ok(()),
        }
    }

    /// Resolves a whole program: the recorded `(expression id, depth)`
    /// pairs are in `resolved` on success; on failure no partial output
    /// is to be trusted.
    #[verifier::loop_isolation(false)]
    pub fn resolve_program(&mut self, program: &Program) -> (r: Result<(), String>)
        ensures
            match spec_resolve_program(*program, old(self).st()) {
                Ok(st2) => r is Ok && final(self).st() == st2,
                Err(m) => r matches Err(msg) && msg@ == m,
            },
    {
        let mut i: usize = 0;
        let ghost st0 = self.st();
        while i < program.declarations.len()
            invariant
                i <= program.declarations@.len(),
                spec_resolve_decls(program.declarations, 0, st0) == spec_resolve_decls(
                    program.declarations,
                    i as int,
                    self.st(),
                ),
            decreases program.declarations@.len() - i,
        {
            proof {
                vstd::std_specs::vec::axiom_vec_index_decreases(program.declarations, i as int);
            }
            match self.resolve_declaration(&program.declarations[i]) {
                Ok(_) => {},
                Err(m) => {
                    return Err(m);
                },
            }
            i = i + 1;
        }
        Ok(())
    }
}

} // verus!

verus! {

/// A variable declaration whose initializer reads the declared name —
/// `let x: T = x;` — fails resolution whenever a scope is open, with the
/// self-read message for that name.
pub proof fn lemma_self_read_fails(s: Statement, st: ResolverState)
    requires
        st.scopes.len() > 0,
        s matches Statement::VariableDeclaration { name, value, .. } && *value
            matches Expression::Variable { name: vname, .. } && vname@ == name@,
    ensures
        spec_resolve_stmt(s, st) == Err::<ResolverState, Seq<char>>(
            spec_self_read_message(s->VariableDeclaration_name@),
        ),
{
    let name = s->VariableDeclaration_name;
    let st1 = spec_declare(st, name@);
    assert(st1.scopes.last() == st.scopes.last().push((name@, false)));
    assert(spec_scope_get(st1.scopes.last(), name@) == Some(false));
}

/// The depth the resolver records is the distance to the nearest
/// enclosing scope that knows the name: the scope that many steps in from
/// the innermost knows it, and every nearer scope does not.  In
/// particular a use inside a block that shadows an outer declaration of
/// the same name resolves to the nearer scope.
pub proof fn lemma_nearest_scope(scopes: Seq<Seq<(Seq<char>, bool)>>, name: Seq<char>)
    ensures
        match spec_find_depth(scopes, name) {
            Some(d) => 0 <= d < scopes.len() && spec_scope_get(scopes[scopes.len() - 1 - d], name)
                is Some && (forall|d2: int|
                0 <= d2 < d ==> #[trigger] spec_scope_get(scopes[scopes.len() - 1 - d2], name)
                    is None),
            None => forall|k: int|
                0 <= k < scopes.len() ==> spec_scope_get(#[trigger] scopes[k], name) is None,
        },
    decreases scopes.len(),
{
    if scopes.len() > 0 {
        if spec_scope_get(scopes.last(), name) is Some {
        } else {
            lemma_nearest_scope(scopes.drop_last(), name);
            let inner = scopes.drop_last();
            assert(forall|k: int| 0 <= k < inner.len() ==> inner[k] == scopes[k]);
            match spec_find_depth(inner, name) {
                Some(di) => {
                    let d = di + 1;
                    assert(scopes[scopes.len() - 1 - d] == inner[inner.len() - 1 - di]);
                    assert forall|d2: int| 0 <= d2 < d implies #[trigger] spec_scope_get(
                        scopes[scopes.len() - 1 - d2],
                        name,
                    ) is None by {
                        if d2 == 0 {
                            assert(scopes[scopes.len() - 1 - d2] == scopes.last());
                        } else {
                            assert(spec_scope_get(inner[inner.len() - 1 - (d2 - 1)], name)
                                is None);
                            assert(scopes[scopes.len() - 1 - d2] == inner[inner.len() - 1 - (d2
                                - 1)]);
                        }
                    }
                },
                None => {
                    assert forall|k: int| 0 <= k < scopes.len() implies spec_scope_get(
                        #[trigger] scopes[k],
                        name,
                    ) is None by {
                        if k < scopes.len() - 1 {
                            assert(scopes[k] == inner[k]);
                        } else {
                            assert(scopes[k] == scopes.last());
                        }
                    }
                },
            }
        }
    }
}

} // verus!
