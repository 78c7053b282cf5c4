//! Tree-walking interpreter: evaluates the AST, maintaining a runtime
//! environment stack and producing values or structured control-flow
//! signals.
//!
//! Control flow that must cross evaluation frames — `break`, `continue`,
//! `return`, and runtime errors — is carried as the error side of every
//! evaluation result, never as a host-language exception.  The whole
//! evaluation is mirrored by a spec-level evaluator ([`spec_eval_expr`] and
//! companions) against which the executable one is proved; the spec
//! evaluator is indexed by fuel (one unit per evaluation step), and the
//! executable one spends the same fuel, so a program that loops without
//! end runs until its fuel — far beyond any feasible run — is gone.

use vstd::prelude::*;
use vstd::string::StringExecFns;
use crate::numbers::{
    add_bits, div_bits, eq_bits, fmod_bits, ge_bits, gt_bits, le_bits, lt_bits, mul_bits,
    neg_bits, num_add, num_div, num_eq, num_fmod, num_ge, num_gt, num_le, num_lt, num_mul,
    num_neg, num_sub, sub_bits, ZERO_BITS,
};
use crate::parser::ast::{
    BinaryOperator, Declaration, Expression, LoopStatement, Program, Statement, UnaryOperator,
};
use value::{spec_display, spec_value_eq, spec_values_view, value_eq, Value, ValueView};

pub mod resolver;
pub mod value;

verus! {

/// A control signal crossing evaluation frames: `Continue`/`Break`/`Return`
/// are control flow, `RuntimeError` is the only true error.
#[derive(Debug, PartialEq)]
pub enum InterpreterControl {
    Continue,
    Break,
    Return(Value),
    RuntimeError(String),
}

/// The mathematical content of an [`InterpreterControl`].
pub enum ControlView {
    Continue,
    Break,
    Return(ValueView),
    RuntimeError(Seq<char>),
}

impl DeepView for InterpreterControl {
    type V = ControlView;

    open spec fn deep_view(&self) -> ControlView {
        match self {
            InterpreterControl::Continue => ControlView::Continue,
            InterpreterControl::Break => ControlView::Break,
            InterpreterControl::Return(v) => ControlView::Return(v.deep_view()),
            InterpreterControl::RuntimeError(m) => ControlView::RuntimeError(m@),
        }
    }
}

/// The mathematical content of one scope: bindings in insertion order, the
/// later binding of a name shadowing the earlier.
pub open spec fn spec_scope_view(s: Vec<(String, Value)>) -> Seq<(Seq<char>, ValueView)> {
    Seq::new(
        s@.len(),
        |i: int|
            if 0 <= i < s@.len() {
                (s@[i].0@, s@[i].1.deep_view())
            } else {
                (Seq::empty(), ValueView::Number(0))
            },
    )
}

/// The mathematical content of the environment stack, innermost scope
/// last.
pub open spec fn spec_envs_view(e: Vec<Vec<(String, Value)>>) -> Seq<Seq<(Seq<char>, ValueView)>> {
    Seq::new(
        e@.len(),
        |i: int|
            if 0 <= i < e@.len() {
                spec_scope_view(e@[i])
            } else {
                Seq::empty()
            },
    )
}

/// The evaluation state the spec evaluator threads: the environment stack
/// and the lines printed so far.
#[verifier::ext_equal]
pub struct StateView {
    pub envs: Seq<Seq<(Seq<char>, ValueView)>>,
    pub output: Seq<Seq<char>>,
}

/// The value bound to `name` in a scope, the later binding winning.
pub open spec fn spec_scope_lookup(scope: Seq<(Seq<char>, ValueView)>, name: Seq<char>) -> Option<
    ValueView,
>
    decreases scope.len(),
{
    if scope.len() == 0 {
        None
    } else if scope.last().0 == name {
        Some(scope.last().1)
    } else {
        spec_scope_lookup(scope.drop_last(), name)
    }
}

/// The scope after assigning `v` to the latest binding of `name`, or
/// `None` when the name is unbound.
pub open spec fn spec_scope_assign(
    scope: Seq<(Seq<char>, ValueView)>,
    name: Seq<char>,
    v: ValueView,
) -> Option<Seq<(Seq<char>, ValueView)>>
    decreases scope.len(),
{
    if scope.len() == 0 {
        None
    } else if scope.last().0 == name {
        Some(scope.drop_last().push((name, v)))
    } else {
        match spec_scope_assign(scope.drop_last(), name, v) {
            Some(s) => Some(s.push(scope.last())),
            None => None,
        }
    }
}

/// The scope depth recorded for an expression id, if any: the first entry
/// with that id.
pub open spec fn spec_lookup_depth(locals: Seq<(u32, usize)>, id: u32) -> Option<usize>
    decreases locals.len(),
{
    if locals.len() == 0 {
        None
    } else if locals.first().0 == id {
        Some(locals.first().1)
    } else {
        spec_lookup_depth(locals.drop_first(), id)
    }
}

/// What a binary operator yields on two evaluated operands.  Arithmetic
/// and ordering are defined on numbers, `+` also concatenates strings,
/// `&&`/`||` are defined on booleans, and `==`/`!=` are defined across all
/// values; division or modulus by the number zero is a runtime error, and
/// so is every other combination.
pub open spec fn spec_apply_binary(op: BinaryOperator, a: ValueView, b: ValueView) -> Result<
    ValueView,
    ControlView,
> {
    match op {
        BinaryOperator::Add => match (a, b) {
            (ValueView::Number(x), ValueView::Number(y)) => Ok(ValueView::Number(add_bits(x, y))),
            (ValueView::Str(x), ValueView::Str(y)) => Ok(ValueView::Str(x + y)),
            _ => Err(spec_unsupported_binary(op, a, b)),
        },
        BinaryOperator::Subtract => match (a, b) {
            (ValueView::Number(x), ValueView::Number(y)) => Ok(ValueView::Number(sub_bits(x, y))),
            _ => Err(spec_unsupported_binary(op, a, b)),
        },
        BinaryOperator::Multiply => match (a, b) {
            (ValueView::Number(x), ValueView::Number(y)) => Ok(ValueView::Number(mul_bits(x, y))),
            _ => Err(spec_unsupported_binary(op, a, b)),
        },
        BinaryOperator::Divide => match (a, b) {
            (ValueView::Number(x), ValueView::Number(y)) => if eq_bits(y, ZERO_BITS) {
                Err(ControlView::RuntimeError("Division by zero"@))
            } else {
                Ok(ValueView::Number(div_bits(x, y)))
            },
            _ => Err(spec_unsupported_binary(op, a, b)),
        },
        BinaryOperator::Modulus => match (a, b) {
            (ValueView::Number(x), ValueView::Number(y)) => if eq_bits(y, ZERO_BITS) {
                Err(ControlView::RuntimeError("Division by zero"@))
            } else {
                Ok(ValueView::Number(fmod_bits(x, y)))
            },
            _ => Err(spec_unsupported_binary(op, a, b)),
        },
        BinaryOperator::Equal => Ok(ValueView::Boolean(spec_value_eq(a, b))),
        BinaryOperator::NotEqual => Ok(ValueView::Boolean(!spec_value_eq(a, b))),
        BinaryOperator::LessThan => match (a, b) {
            (ValueView::Number(x), ValueView::Number(y)) => Ok(ValueView::Boolean(lt_bits(x, y))),
            _ => Err(spec_unsupported_binary(op, a, b)),
        },
        BinaryOperator::LessThanOrEqual => match (a, b) {
            (ValueView::Number(x), ValueView::Number(y)) => Ok(ValueView::Boolean(le_bits(x, y))),
            _ => Err(spec_unsupported_binary(op, a, b)),
        },
        BinaryOperator::GreaterThan => match (a, b) {
            (ValueView::Number(x), ValueView::Number(y)) => Ok(ValueView::Boolean(gt_bits(x, y))),
            _ => Err(spec_unsupported_binary(op, a, b)),
        },
        BinaryOperator::GreaterThanOrEqual => match (a, b) {
            (ValueView::Number(x), ValueView::Number(y)) => Ok(ValueView::Boolean(ge_bits(x, y))),
            _ => Err(spec_unsupported_binary(op, a, b)),
        },
        BinaryOperator::And => match (a, b) {
            (ValueView::Boolean(x), ValueView::Boolean(y)) => Ok(ValueView::Boolean(x && y)),
            _ => Err(spec_unsupported_binary(op, a, b)),
        },
        BinaryOperator::Or => match (a, b) {
            (ValueView::Boolean(x), ValueView::Boolean(y)) => Ok(ValueView::Boolean(x || y)),
            _ => Err(spec_unsupported_binary(op, a, b)),
        },
    }
}

/// The error for a binary operator applied to operands it is not defined
/// on.
pub open spec fn spec_unsupported_binary(
    op: BinaryOperator,
    a: ValueView,
    b: ValueView,
) -> ControlView {
    ControlView::RuntimeError(
        "Unsupported binary operation: "@ + spec_display(a) + " "@ + spec_binary_symbol(op) + " "@
            + spec_display(b),
    )
}

/// The source symbol of a binary operator.
pub open spec fn spec_binary_symbol(op: BinaryOperator) -> Seq<char> {
    match op {
        BinaryOperator::Add => "+"@,
        BinaryOperator::Subtract => "-"@,
        BinaryOperator::Multiply => "*"@,
        BinaryOperator::Divide => "/"@,
        BinaryOperator::Modulus => "%"@,
        BinaryOperator::And => "&&"@,
        BinaryOperator::Or => "||"@,
        BinaryOperator::Equal => "=="@,
        BinaryOperator::NotEqual => "!="@,
        BinaryOperator::LessThan => "<"@,
        BinaryOperator::GreaterThan => ">"@,
        BinaryOperator::LessThanOrEqual => "<="@,
        BinaryOperator::GreaterThanOrEqual => ">="@,
    }
}

/// The source symbol of a unary operator.
pub open spec fn spec_unary_symbol(op: UnaryOperator) -> Seq<char> {
    match op {
        UnaryOperator::Negate => "-"@,
        UnaryOperator::Not => "!"@,
    }
}

/// The symbol of a unary operator, as it is spelled in source.
pub fn unary_symbol_public(op: &UnaryOperator) -> (r: String)
    ensures
        r@ == spec_unary_symbol(*op),
{
    match op {
        UnaryOperator::Negate => String::from_str("-"),
        UnaryOperator::Not => String::from_str("!"),
    }
}

/// What a unary operator yields on an evaluated operand: negation of a
/// number or logical not of a boolean; anything else is a runtime error.
pub open spec fn spec_apply_unary(op: UnaryOperator, a: ValueView) -> Result<
    ValueView,
    ControlView,
> {
    match op {
        UnaryOperator::Negate => match a {
            ValueView::Number(x) => Ok(ValueView::Number(neg_bits(x))),
            _ => Err(spec_unsupported_unary(op, a)),
        },
        UnaryOperator::Not => match a {
            ValueView::Boolean(x) => Ok(ValueView::Boolean(!x)),
            _ => Err(spec_unsupported_unary(op, a)),
        },
    }
}

/// The error for a unary operator applied to an operand it is not defined
/// on.
pub open spec fn spec_unsupported_unary(op: UnaryOperator, a: ValueView) -> ControlView {
    ControlView::RuntimeError(
        "Unsupported unary operation: "@ + spec_unary_symbol(op) + " "@ + spec_display(a),
    )
}

/// Division and modulus by the number zero always produce a runtime
/// error, never a value: whatever the left operand is, applying `/` or
/// `%` with a right operand equal to the number zero yields
/// `RuntimeError`, with the message `Division by zero` whenever the left
/// operand is a number.
pub proof fn lemma_division_by_zero(op: BinaryOperator, a: ValueView, z: u64)
    requires
        op is Divide || op is Modulus,
        eq_bits(z, ZERO_BITS),
    ensures
        spec_apply_binary(op, a, ValueView::Number(z)) matches Err(c) && c is RuntimeError,
        a is Number ==> spec_apply_binary(op, a, ValueView::Number(z)) == Err::<
            ValueView,
            ControlView,
        >(ControlView::RuntimeError("Division by zero"@)),
{
}

/// The symbol of a binary operator, as it is spelled in source.
pub fn binary_symbol_public(op: &BinaryOperator) -> (r: String)
    ensures
        r@ == spec_binary_symbol(*op),
{
    match op {
        BinaryOperator::Add => String::from_str("+"),
        BinaryOperator::Subtract => String::from_str("-"),
        BinaryOperator::Multiply => String::from_str("*"),
        BinaryOperator::Divide => String::from_str("/"),
        BinaryOperator::Modulus => String::from_str("%"),
        BinaryOperator::And => String::from_str("&&"),
        BinaryOperator::Or => String::from_str("||"),
        BinaryOperator::Equal => String::from_str("=="),
        BinaryOperator::NotEqual => String::from_str("!="),
        BinaryOperator::LessThan => String::from_str("<"),
        BinaryOperator::GreaterThan => String::from_str(">"),
        BinaryOperator::LessThanOrEqual => String::from_str("<="),
        BinaryOperator::GreaterThanOrEqual => String::from_str(">="),
    }
}

/// The error value for a binary operator applied to operands it is not
/// defined on.
fn unsupported_binary(op: &BinaryOperator, a: &Value, b: &Value) -> (r: InterpreterControl)
    ensures
        r.deep_view() == spec_unsupported_binary(*op, a.deep_view(), b.deep_view()),
{
    let mut msg = String::from_str("Unsupported binary operation: ");
    msg.append(a.display_string().as_str());
    msg.append(" ");
    msg.append(binary_symbol_public(op).as_str());
    msg.append(" ");
    msg.append(b.display_string().as_str());
    InterpreterControl::RuntimeError(msg)
}

/// Applies a binary operator to two evaluated operands.
pub fn apply_binary(op: &BinaryOperator, a: Value, b: Value) -> (r: Result<
    Value,
    InterpreterControl,
>)
    ensures
        match r {
            Ok(v) => spec_apply_binary(*op, a.deep_view(), b.deep_view()) == Ok::<
                ValueView,
                ControlView,
            >(v.deep_view()),
            Err(c) => spec_apply_binary(*op, a.deep_view(), b.deep_view()) == Err::<
                ValueView,
                ControlView,
            >(c.deep_view()),
        },
{
    match op {
        BinaryOperator::Equal => {
            return Ok(Value::Boolean(value_eq(&a, &b)));
        },
        BinaryOperator::NotEqual => {
            return Ok(Value::Boolean(!value_eq(&a, &b)));
        },
        _ => {},
    }
    match (&a, &b) {
        (Value::Number(x), Value::Number(y)) => match op {
            BinaryOperator::Add => Ok(Value::Number(num_add(*x, *y))),
            BinaryOperator::Subtract => Ok(Value::Number(num_sub(*x, *y))),
            BinaryOperator::Multiply => Ok(Value::Number(num_mul(*x, *y))),
            BinaryOperator::Divide => {
                if num_eq(*y, ZERO_BITS) {
                    Err(InterpreterControl::RuntimeError(String::from_str("Division by zero")))
                } else {
                    Ok(Value::Number(num_div(*x, *y)))
                }
            },
            BinaryOperator::Modulus => {
                if num_eq(*y, ZERO_BITS) {
                    Err(InterpreterControl::RuntimeError(String::from_str("Division by zero")))
                } else {
                    Ok(Value::Number(num_fmod(*x, *y)))
                }
            },
            BinaryOperator::LessThan => Ok(Value::Boolean(num_lt(*x, *y))),
            BinaryOperator::LessThanOrEqual => Ok(Value::Boolean(num_le(*x, *y))),
            BinaryOperator::GreaterThan => Ok(Value::Boolean(num_gt(*x, *y))),
            BinaryOperator::GreaterThanOrEqual => Ok(Value::Boolean(num_ge(*x, *y))),
            _ => Err(unsupported_binary(op, &a, &b)),
        },
        (Value::String(x), Value::String(y)) => match op {
            BinaryOperator::Add => {
                let mut s = x.clone();
                s.append(y.as_str());
                Ok(Value::String(s))
            },
            _ => Err(unsupported_binary(op, &a, &b)),
        },
        (Value::Boolean(x), Value::Boolean(y)) => match op {
            BinaryOperator::And => Ok(Value::Boolean(*x && *y)),
            BinaryOperator::Or => Ok(Value::Boolean(*x || *y)),
            _ => Err(unsupported_binary(op, &a, &b)),
        },
        _ => Err(unsupported_binary(op, &a, &b)),
    }
}

/// Applies a unary operator to an evaluated operand.
pub fn apply_unary(op: &UnaryOperator, a: Value) -> (r: Result<Value, InterpreterControl>)
    ensures
        match r {
            Ok(v) => spec_apply_unary(*op, a.deep_view()) == Ok::<ValueView, ControlView>(
                v.deep_view(),
            ),
            Err(c) => spec_apply_unary(*op, a.deep_view()) == Err::<ValueView, ControlView>(
                c.deep_view(),
            ),
        },
{
    match (&a, op) {
        (Value::Number(x), UnaryOperator::Negate) => Ok(Value::Number(num_neg(*x))),
        (Value::Boolean(x), UnaryOperator::Not) => Ok(Value::Boolean(!*x)),
        _ => {
            let mut msg = String::from_str("Unsupported unary operation: ");
            let sym = match op {
                UnaryOperator::Negate => String::from_str("-"),
                UnaryOperator::Not => String::from_str("!"),
            };
            msg.append(sym.as_str());
            msg.append(" ");
            msg.append(a.display_string().as_str());
            Err(InterpreterControl::RuntimeError(msg))
        },
    }
}

} // verus!

verus! {

/// The runtime-error message when evaluation runs out of fuel.
pub open spec fn spec_fuel_message() -> Seq<char> {
    "Execution limit exceeded"@
}

/// The runtime-error message for reading an unbound variable.
pub open spec fn spec_undefined_message(name: Seq<char>) -> Seq<char> {
    "Undefined variable: "@ + name
}

/// The state after opening a scope holding `bindings`.
pub open spec fn spec_push_scope(st: StateView, bindings: Seq<(Seq<char>, ValueView)>) -> StateView {
    StateView { envs: st.envs.push(bindings), output: st.output }
}

/// The state after closing the innermost scope.
pub open spec fn spec_pop_scope(st: StateView) -> StateView {
    if st.envs.len() > 0 {
        StateView { envs: st.envs.drop_last(), output: st.output }
    } else {
        st
    }
}

/// The state after binding `name` to `v` in the innermost scope.
pub open spec fn spec_define(st: StateView, name: Seq<char>, v: ValueView) -> StateView {
    if st.envs.len() > 0 {
        StateView {
            envs: st.envs.update(st.envs.len() - 1, st.envs.last().push((name, v))),
            output: st.output,
        }
    } else {
        st
    }
}

/// The parameter list and body of the first function declaration named
/// `name`, if any.
pub open spec fn spec_find_function(
    decls: Seq<Declaration>,
    i: int,
    name: Seq<char>,
) -> Option<(Seq<crate::parser::ast::FunctionParameter>, Expression)>
    decreases decls.len() - i,
{
    if i < 0 || i >= decls.len() {
        None
    } else {
        match decls[i] {
            Declaration::Function { name: n, params, body, .. } => if n@ == name {
                Some((params@, *body))
            } else {
                spec_find_function(decls, i + 1, name)
            },
            _ => spec_find_function(decls, i + 1, name),
        }
    }
}

/// The scope binding each declared parameter name to the argument value in
/// the same position.
pub open spec fn spec_bind_params(
    params: Seq<crate::parser::ast::FunctionParameter>,
    avs: Seq<ValueView>,
) -> Seq<(Seq<char>, ValueView)> {
    Seq::new(
        params.len(),
        |i: int|
            if 0 <= i < params.len() && 0 <= i < avs.len() {
                (params[i].name@, avs[i])
            } else {
                (Seq::empty(), ValueView::Number(0))
            },
    )
}

/// The unit value: what a block without a result expression, an ended
/// loop, or a bare `return` produces.
pub open spec fn spec_unit() -> ValueView {
    ValueView::Number(0)
}

/// Evaluates an expression: its value, or the control signal that ended
/// evaluation, together with the state after.
pub open spec fn spec_eval_expr(
    p: Program,
    locals: Seq<(u32, usize)>,
    e: Expression,
    st: StateView,
    fuel: nat,
) -> (Result<ValueView, ControlView>, StateView)
    decreases fuel,
{
    if fuel == 0 {
        (Err(ControlView::RuntimeError(spec_fuel_message())), st)
    } else {
        let f = (fuel - 1) as nat;
        match e {
            Expression::NumberLiteral(b) => (Ok(ValueView::Number(b)), st),
            Expression::StringLiteral(s) => (Ok(ValueView::Str(s@)), st),
            Expression::CharLiteral(c) => (Ok(ValueView::Char(c)), st),
            Expression::BooleanLiteral(b) => (Ok(ValueView::Boolean(b)), st),
            Expression::Variable { name, expression_id } => {
                let scope_idx = match spec_lookup_depth(locals, expression_id.0) {
                    Some(d) => st.envs.len() - 1 - d,
                    None => 0,
                };
                if 0 <= scope_idx < st.envs.len() {
                    match spec_scope_lookup(st.envs[scope_idx], name@) {
                        Some(v) => (Ok(v), st),
                        None => (
                            Err(ControlView::RuntimeError(spec_undefined_message(name@))),
                            st,
                        ),
                    }
                } else {
                    (Err(ControlView::RuntimeError(spec_undefined_message(name@))), st)
                }
            },
            Expression::Assignment { name, value, expression_id } => {
                let r1 = spec_eval_expr(p, locals, *value, st, f);
                match r1.0 {
                    Ok(v) => {
                        let st2 = r1.1;
                        let scope_idx = match spec_lookup_depth(locals, expression_id.0) {
                            Some(d) => st2.envs.len() - 1 - d,
                            None => 0,
                        };
                        if 0 <= scope_idx < st2.envs.len() {
                            match spec_scope_assign(st2.envs[scope_idx], name@, v) {
                                Some(sc) => (
                                    Ok(v),
                                    StateView {
                                        envs: st2.envs.update(scope_idx, sc),
                                        output: st2.output,
                                    },
                                ),
                                None => (
                                    Err(
                                        ControlView::RuntimeError(spec_undefined_message(name@)),
                                    ),
                                    st2,
                                ),
                            }
                        } else {
                            (
                                Err(ControlView::RuntimeError(spec_undefined_message(name@))),
                                st2,
                            )
                        }
                    },
                    Err(c) => (Err(c), r1.1),
                }
            },
            Expression::BinaryOperation { left, operator, right } => {
                let r1 = spec_eval_expr(p, locals, *left, st, f);
                match r1.0 {
                    Ok(a) => {
                        let r2 = spec_eval_expr(p, locals, *right, r1.1, f);
                        match r2.0 {
                            Ok(b) => (spec_apply_binary(operator, a, b), r2.1),
                            Err(c) => (Err(c), r2.1),
                        }
                    },
                    Err(c) => (Err(c), r1.1),
                }
            },
            Expression::UnaryOperation { operator, operand } => {
                let r1 = spec_eval_expr(p, locals, *operand, st, f);
                match r1.0 {
                    Ok(a) => (spec_apply_unary(operator, a), r1.1),
                    Err(c) => (Err(c), r1.1),
                }
            },
            Expression::Block(stmts) => {
                let st1 = spec_push_scope(st, Seq::empty());
                let r1 = spec_eval_block_stmts(p, locals, stmts@, 0, st1, f);
                (r1.0, spec_pop_scope(r1.1))
            },
            Expression::If { condition, then_branch, else_branch } => {
                let r1 = spec_eval_expr(p, locals, *condition, st, f);
                match r1.0 {
                    Ok(cv) => if cv == ValueView::Boolean(true) {
                        spec_eval_expr(p, locals, *then_branch, r1.1, f)
                    } else {
                        match else_branch {
                            Some(e2) => spec_eval_expr(p, locals, *e2, r1.1, f),
                            None => (Ok(spec_unit()), r1.1),
                        }
                    },
                    Err(c) => (Err(c), r1.1),
                }
            },
            Expression::Loop(l) => match l {
                LoopStatement::Infinite { body } => spec_eval_infinite(p, locals, *body, st, f),
                LoopStatement::While { condition, body } => spec_eval_while(
                    p,
                    locals,
                    *condition,
                    *body,
                    st,
                    f,
                ),
                LoopStatement::Iterator { iterator, iterable, body, .. } => {
                    let r1 = spec_eval_expr(p, locals, *iterable, st, f);
                    match r1.0 {
                        Ok(v) => match v {
                            ValueView::Vector(items) => spec_eval_iter(
                                p,
                                locals,
                                iterator@,
                                items,
                                0,
                                *body,
                                r1.1,
                                f,
                            ),
                            _ => (
                                Err(
                                    ControlView::RuntimeError(
                                        "Cannot iterate over: "@ + spec_display(v),
                                    ),
                                ),
                                r1.1,
                            ),
                        },
                        Err(c) => (Err(c), r1.1),
                    }
                },
            },
            Expression::FunctionCall { callee, args } => {
                match *callee {
                    Expression::Variable { name, .. } => if name@ == "print"@ {
                        spec_eval_print(p, locals, args@, 0, st, f)
                    } else {
                        let r1 = spec_eval_args(p, locals, args@, 0, Seq::empty(), st, f);
                        match r1.0 {
                            Ok(avs) => {
                                let st2 = r1.1;
                                match spec_find_function(p.declarations@, 0, name@) {
                                    None => (
                                        Err(
                                            ControlView::RuntimeError(
                                                "Unknown function: "@ + name@,
                                            ),
                                        ),
                                        st2,
                                    ),
                                    Some((params, body)) => if params.len() != avs.len() {
                                        (
                                            Err(
                                                ControlView::RuntimeError(
                                                    "Wrong number of arguments for function: "@
                                                        + name@,
                                                ),
                                            ),
                                            st2,
                                        )
                                    } else {
                                        let st3 = spec_push_scope(
                                            st2,
                                            spec_bind_params(params, avs),
                                        );
                                        let r2 = spec_eval_expr(p, locals, body, st3, f);
                                        let st4 = spec_pop_scope(r2.1);
                                        match r2.0 {
                                            Ok(v) => (Ok(v), st4),
                                            Err(c) => match c {
                                                ControlView::Return(v) => (Ok(v), st4),
                                                _ => (Err(c), st4),
                                            },
                                        }
                                    },
                                }
                            },
                            Err(c) => (Err(c), r1.1),
                        }
                    },
                    _ => (Err(ControlView::RuntimeError("Unsupported function call"@)), st),
                }
            },
            Expression::MemberAccess { .. } => (
                Err(ControlView::RuntimeError("Unsupported member access"@)),
                st,
            ),
            Expression::Array { .. } => (
                Err(ControlView::RuntimeError("Unsupported array construction"@)),
                st,
            ),
            Expression::StructCreation { .. } => (
                Err(ControlView::RuntimeError("Unsupported struct creation"@)),
                st,
            ),
        }
    }
}

/// Evaluates one statement for effect.
pub open spec fn spec_eval_stmt(
    p: Program,
    locals: Seq<(u32, usize)>,
    s: Statement,
    st: StateView,
    fuel: nat,
) -> (Result<(), ControlView>, StateView)
    decreases fuel,
{
    if fuel == 0 {
        (Err(ControlView::RuntimeError(spec_fuel_message())), st)
    } else {
        let f = (fuel - 1) as nat;
        match s {
            Statement::Break => (Err(ControlView::Break), st),
            Statement::Continue => (Err(ControlView::Continue), st),
            Statement::Return(ov) => match ov {
                None => (Err(ControlView::Return(spec_unit())), st),
                Some(e) => {
                    let r1 = spec_eval_expr(p, locals, *e, st, f);
                    match r1.0 {
                        Ok(v) => (Err(ControlView::Return(v)), r1.1),
                        Err(c) => (Err(c), r1.1),
                    }
                },
            },
            Statement::Expression { expression, result } => {
                let r1 = spec_eval_expr(p, locals, *expression, st, f);
                match r1.0 {
                    Ok(v) => if result {
                        (Err(ControlView::Return(v)), r1.1)
                    } else {
                        (Ok(()), r1.1)
                    },
                    Err(c) => (Err(c), r1.1),
                }
            },
            Statement::VariableDeclaration { name, value, .. } => {
                let r1 = spec_eval_expr(p, locals, *value, st, f);
                match r1.0 {
                    Ok(v) => (Ok(()), spec_define(r1.1, name@, v)),
                    Err(c) => (Err(c), r1.1),
                }
            },
            Statement::Declaration(_) => (Ok(()), st),
        }
    }
}

/// Evaluates a block's statements from position `i` on: the designated
/// result expression supplies the block's value, otherwise the unit value.
pub open spec fn spec_eval_block_stmts(
    p: Program,
    locals: Seq<(u32, usize)>,
    stmts: Seq<Statement>,
    i: int,
    st: StateView,
    fuel: nat,
) -> (Result<ValueView, ControlView>, StateView)
    decreases fuel,
{
    if fuel == 0 {
        (Err(ControlView::RuntimeError(spec_fuel_message())), st)
    } else {
        let f = (fuel - 1) as nat;
        if i < 0 || i >= stmts.len() {
            (Ok(spec_unit()), st)
        } else {
            match stmts[i] {
                Statement::Expression { expression, result: true } => spec_eval_expr(
                    p,
                    locals,
                    *expression,
                    st,
                    f,
                ),
                _ => {
                    let r1 = spec_eval_stmt(p, locals, stmts[i], st, f);
                    match r1.0 {
                        Ok(_) => spec_eval_block_stmts(p, locals, stmts, i + 1, r1.1, f),
                        Err(c) => (Err(c), r1.1),
                    }
                },
            }
        }
    }
}

/// Evaluates call arguments left to right, accumulating their values.
pub open spec fn spec_eval_args(
    p: Program,
    locals: Seq<(u32, usize)>,
    args: Seq<Expression>,
    i: int,
    acc: Seq<ValueView>,
    st: StateView,
    fuel: nat,
) -> (Result<Seq<ValueView>, ControlView>, StateView)
    decreases fuel,
{
    if fuel == 0 {
        (Err(ControlView::RuntimeError(spec_fuel_message())), st)
    } else {
        let f = (fuel - 1) as nat;
        if i < 0 || i >= args.len() {
            (Ok(acc), st)
        } else {
            let r1 = spec_eval_expr(p, locals, args[i], st, f);
            match r1.0 {
                Ok(v) => spec_eval_args(p, locals, args, i + 1, acc.push(v), r1.1, f),
                Err(c) => (Err(c), r1.1),
            }
        }
    }
}

/// Evaluates the arguments of the built-in `print`, appending each one's
/// display form to the output as it is evaluated.
pub open spec fn spec_eval_print(
    p: Program,
    locals: Seq<(u32, usize)>,
    args: Seq<Expression>,
    i: int,
    st: StateView,
    fuel: nat,
) -> (Result<ValueView, ControlView>, StateView)
    decreases fuel,
{
    if fuel == 0 {
        (Err(ControlView::RuntimeError(spec_fuel_message())), st)
    } else {
        let f = (fuel - 1) as nat;
        if i < 0 || i >= args.len() {
            (Ok(spec_unit()), st)
        } else {
            let r1 = spec_eval_expr(p, locals, args[i], st, f);
            match r1.0 {
                Ok(v) => spec_eval_print(
                    p,
                    locals,
                    args,
                    i + 1,
                    StateView { envs: r1.1.envs, output: r1.1.output.push(spec_display(v)) },
                    f,
                ),
                Err(c) => (Err(c), r1.1),
            }
        }
    }
}

/// Runs an infinite loop: `Break` ends it with the unit value, `Continue`
/// restarts the body, any other signal propagates.
pub open spec fn spec_eval_infinite(
    p: Program,
    locals: Seq<(u32, usize)>,
    body: Expression,
    st: StateView,
    fuel: nat,
) -> (Result<ValueView, ControlView>, StateView)
    decreases fuel,
{
    if fuel == 0 {
        (Err(ControlView::RuntimeError(spec_fuel_message())), st)
    } else {
        let f = (fuel - 1) as nat;
        let r1 = spec_eval_expr(p, locals, body, st, f);
        match r1.0 {
            Ok(_) => spec_eval_infinite(p, locals, body, r1.1, f),
            Err(c) => match c {
                ControlView::Break => (Ok(spec_unit()), r1.1),
                ControlView::Continue => spec_eval_infinite(p, locals, body, r1.1, f),
                _ => (Err(c), r1.1),
            },
        }
    }
}

/// Runs a while loop: a false condition ends it with the unit value; the
/// body is handled as in an infinite loop.
pub open spec fn spec_eval_while(
    p: Program,
    locals: Seq<(u32, usize)>,
    condition: Expression,
    body: Expression,
    st: StateView,
    fuel: nat,
) -> (Result<ValueView, ControlView>, StateView)
    decreases fuel,
{
    if fuel == 0 {
        (Err(ControlView::RuntimeError(spec_fuel_message())), st)
    } else {
        let f = (fuel - 1) as nat;
        let r1 = spec_eval_expr(p, locals, condition, st, f);
        match r1.0 {
            Ok(cv) => if cv == ValueView::Boolean(false) {
                (Ok(spec_unit()), r1.1)
            } else {
                let r2 = spec_eval_expr(p, locals, body, r1.1, f);
                match r2.0 {
                    Ok(_) => spec_eval_while(p, locals, condition, body, r2.1, f),
                    Err(c) => match c {
                        ControlView::Break => (Ok(spec_unit()), r2.1),
                        ControlView::Continue => spec_eval_while(
                            p,
                            locals,
                            condition,
                            body,
                            r2.1,
                            f,
                        ),
                        _ => (Err(c), r2.1),
                    },
                }
            },
            Err(c) => (Err(c), r1.1),
        }
    }
}

/// Runs an iterator loop: binds the loop variable to each element of the
/// sequence in order, running the body in a scope of its own per element.
pub open spec fn spec_eval_iter(
    p: Program,
    locals: Seq<(u32, usize)>,
    binding: Seq<char>,
    items: Seq<ValueView>,
    i: int,
    body: Expression,
    st: StateView,
    fuel: nat,
) -> (Result<ValueView, ControlView>, StateView)
    decreases fuel,
{
    if fuel == 0 {
        (Err(ControlView::RuntimeError(spec_fuel_message())), st)
    } else {
        let f = (fuel - 1) as nat;
        if i < 0 || i >= items.len() {
            (Ok(spec_unit()), st)
        } else {
            let st1 = spec_push_scope(st, seq![(binding, items[i])]);
            let r1 = spec_eval_expr(p, locals, body, st1, f);
            let st2 = spec_pop_scope(r1.1);
            match r1.0 {
                Ok(_) => spec_eval_iter(p, locals, binding, items, i + 1, body, st2, f),
                Err(c) => match c {
                    ControlView::Break => (Ok(spec_unit()), st2),
                    ControlView::Continue => spec_eval_iter(
                        p,
                        locals,
                        binding,
                        items,
                        i + 1,
                        body,
                        st2,
                        f,
                    ),
                    _ => (Err(c), st2),
                },
            }
        }
    }
}

/// Runs a program: evaluates the body of every top-level function named
/// `main`, in order; any control signal or error ends the run.
pub open spec fn spec_run_decls(
    p: Program,
    locals: Seq<(u32, usize)>,
    i: int,
    st: StateView,
    fuel: nat,
) -> (Result<(), ControlView>, StateView)
    decreases fuel,
{
    if fuel == 0 {
        (Err(ControlView::RuntimeError(spec_fuel_message())), st)
    } else {
        let f = (fuel - 1) as nat;
        if i < 0 || i >= p.declarations@.len() {
            (Ok(()), st)
        } else {
            match p.declarations@[i] {
                Declaration::Function { name, body, .. } => if name@ == "main"@ {
                    let r1 = spec_eval_expr(p, locals, *body, st, f);
                    match r1.0 {
                        Ok(_) => spec_run_decls(p, locals, i + 1, r1.1, f),
                        Err(c) => (Err(c), r1.1),
                    }
                } else {
                    spec_run_decls(p, locals, i + 1, st, f)
                },
                _ => spec_run_decls(p, locals, i + 1, st, f),
            }
        }
    }
}

} // verus!

verus! {

/// The view of an expression-evaluation result.
pub open spec fn spec_outcome_view(r: Result<Value, InterpreterControl>) -> Result<
    ValueView,
    ControlView,
> {
    match r {
        Ok(v) => Ok(v.deep_view()),
        Err(c) => Err(c.deep_view()),
    }
}

/// The view of a statement-evaluation result.
pub open spec fn spec_status_view(r: Result<(), InterpreterControl>) -> Result<(), ControlView> {
    match r {
        Ok(_) => Ok(()),
        Err(c) => Err(c.deep_view()),
    }
}

/// A name bound nowhere in a scope cannot be assigned.
proof fn lemma_scope_assign_none(scope: Seq<(Seq<char>, ValueView)>, name: Seq<char>, v: ValueView)
    requires
        forall|k: int| 0 <= k < scope.len() ==> (#[trigger] scope[k]).0 != name,
    ensures
        spec_scope_assign(scope, name, v) is None,
    decreases scope.len(),
{
    if scope.len() > 0 {
        lemma_scope_assign_none(scope.drop_last(), name, v);
    }
}

/// Assigning over the last binding of `name` updates exactly that entry.
proof fn lemma_scope_assign_at(
    scope: Seq<(Seq<char>, ValueView)>,
    name: Seq<char>,
    v: ValueView,
    j: int,
)
    requires
        0 <= j < scope.len(),
        scope[j].0 == name,
        forall|k: int| j < k < scope.len() ==> (#[trigger] scope[k]).0 != name,
    ensures
        spec_scope_assign(scope, name, v) == Some(scope.update(j, (name, v))),
    decreases scope.len(),
{
    if j == scope.len() - 1 {
        assert(scope.drop_last().push((name, v)) =~= scope.update(j, (name, v)));
    } else {
        lemma_scope_assign_at(scope.drop_last(), name, v, j);
        assert(scope.drop_last().update(j, (name, v)).push(scope.last()) =~= scope.update(
            j,
            (name, v),
        ));
    }
}

/// A name bound nowhere in a scope has no value there.
proof fn lemma_scope_lookup_none(scope: Seq<(Seq<char>, ValueView)>, name: Seq<char>)
    requires
        forall|k: int| 0 <= k < scope.len() ==> (#[trigger] scope[k]).0 != name,
    ensures
        spec_scope_lookup(scope, name) is None,
    decreases scope.len(),
{
    if scope.len() > 0 {
        lemma_scope_lookup_none(scope.drop_last(), name);
    }
}

/// The last binding of `name` is the one a lookup sees.
proof fn lemma_scope_lookup_at(scope: Seq<(Seq<char>, ValueView)>, name: Seq<char>, j: int)
    requires
        0 <= j < scope.len(),
        scope[j].0 == name,
        forall|k: int| j < k < scope.len() ==> (#[trigger] scope[k]).0 != name,
    ensures
        spec_scope_lookup(scope, name) == Some(scope[j].1),
    decreases scope.len(),
{
    if j < scope.len() - 1 {
        lemma_scope_lookup_at(scope.drop_last(), name, j);
    }
}

/// The interpreter: the resolver's depth table, the runtime environment
/// stack (innermost scope last), and the lines the built-in `print` has
/// produced.
pub struct Interpreter {
    pub locals: Vec<(u32, usize)>,
    pub envs: Vec<Vec<(String, Value)>>,
    pub output: Vec<String>,
}

impl Interpreter {
    /// The evaluation state this interpreter is in.
    pub open spec fn st(self) -> StateView {
        StateView { envs: spec_envs_view(self.envs), output: self.output.deep_view() }
    }

    /// A fresh interpreter: no resolved depths, one empty global scope,
    /// no output.
    pub fn new() -> (r: Interpreter)
        ensures
            r.locals@ == Seq::<(u32, usize)>::empty(),
            r.st().envs =~= seq![Seq::<(Seq<char>, ValueView)>::empty()],
            r.st().output =~= Seq::<Seq<char>>::empty(),
    {
        let mut envs: Vec<Vec<(String, Value)>> = Vec::new();
        envs.push(Vec::new());
        let r = Interpreter { locals: Vec::new(), envs, output: Vec::new() };
        proof {
            assert(spec_scope_view(r.envs@[0]) =~= Seq::<(Seq<char>, ValueView)>::empty());
            assert(spec_envs_view(r.envs) =~= seq![Seq::<(Seq<char>, ValueView)>::empty()]);
        }
        r
    }

    /// Records the resolver's scope depth for one expression id.
    pub fn resolve(&mut self, id: crate::parser::ast::ExpressionId, depth: usize)
        ensures
            final(self).locals@ == old(self).locals@.push((id.0, depth)),
            final(self).st() == old(self).st(),
    {
        self.locals.push((id.0, depth));
        proof {
            assert(spec_envs_view(self.envs) =~= spec_envs_view(old(self).envs));
            assert(self.st() =~= old(self).st());
        }
    }

    /// The depth recorded for an expression id, if any.
    #[verifier::loop_isolation(false)]
    fn lookup_depth(&self, id: u32) -> (r: Option<usize>)
        ensures
            r == spec_lookup_depth(self.locals@, id),
    {
        let mut i: usize = 0;
        proof {
            assert(self.locals@.skip(0) =~= self.locals@);
        }
        while i < self.locals.len()
            invariant
                i <= self.locals@.len(),
                spec_lookup_depth(self.locals@, id) == spec_lookup_depth(
                    self.locals@.skip(i as int),
                    id,
                ),
            decreases self.locals@.len() - i,
        {
            let (k, d) = self.locals[i];
            proof {
                assert(self.locals@.skip(i as int).first() == self.locals@[i as int]);
                assert(self.locals@.skip(i as int).drop_first() =~= self.locals@.skip(i + 1));
            }
            if k == id {
                return Some(d);
            }
            i = i + 1;
        }
        proof {
            assert(self.locals@.skip(self.locals@.len() as int).len() == 0);
        }
        None
    }

    /// Opens a scope holding `bindings`.
    fn push_scope_with(&mut self, bindings: Vec<(String, Value)>)
        ensures
            final(self).locals@ == old(self).locals@,
            final(self).st() == spec_push_scope(old(self).st(), spec_scope_view(bindings)),
    {
        self.envs.push(bindings);
        proof {
            assert(spec_envs_view(self.envs) =~= spec_envs_view(old(self).envs).push(
                spec_scope_view(self.envs@.last()),
            ));
            assert(self.st() =~= spec_push_scope(old(self).st(), spec_scope_view(self.envs@.last())));
        }
    }

    /// Opens an empty scope.
    fn push_scope(&mut self)
        ensures
            final(self).locals@ == old(self).locals@,
            final(self).st() == spec_push_scope(old(self).st(), Seq::empty()),
    {
        let bindings: Vec<(String, Value)> = Vec::new();
        proof {
            assert(spec_scope_view(bindings) =~= Seq::<(Seq<char>, ValueView)>::empty());
        }
        self.push_scope_with(bindings);
    }

    /// Closes the innermost scope.
    fn pop_scope(&mut self)
        ensures
            final(self).locals@ == old(self).locals@,
            final(self).st() == spec_pop_scope(old(self).st()),
    {
        if self.envs.len() > 0 {
            self.envs.pop();
            proof {
                assert(spec_envs_view(self.envs) =~= spec_envs_view(old(self).envs).drop_last());
            }
        }
        proof {
            assert(self.st() =~= spec_pop_scope(old(self).st()));
        }
    }

    /// Binds `name` to `v` in the innermost scope.
    fn define_var(&mut self, name: String, v: Value)
        ensures
            final(self).locals@ == old(self).locals@,
            final(self).st() == spec_define(old(self).st(), name@, v.deep_view()),
    {
        let ghost name_view = name@;
        let ghost v_view = v.deep_view();
        if self.envs.len() > 0 {
            let mut scope = match self.envs.pop() {
                Some(s) => s,
                None => Vec::new(),
            };
            scope.push((name, v));
            self.envs.push(scope);
            proof {
                let oenvs = spec_envs_view(old(self).envs);
                assert(spec_scope_view(self.envs@.last()) =~= oenvs.last().push(
                    (name_view, v_view),
                ));
                assert(spec_envs_view(self.envs) =~= oenvs.update(
                    oenvs.len() - 1,
                    oenvs.last().push((name_view, v_view)),
                ));
                assert(self.st() =~= spec_define(old(self).st(), name_view, v_view));
            }
        }
    }

    /// The value bound to `name` in the scope at `idx`, if any.
    #[verifier::loop_isolation(false)]
    fn scope_lookup_at(&self, idx: usize, name: &String) -> (r: Option<Value>)
        requires
            idx < self.envs@.len(),
        ensures
            match r {
                Some(v) => spec_scope_lookup(self.st().envs[idx as int], name@) == Some(
                    v.deep_view(),
                ),
                None => spec_scope_lookup(self.st().envs[idx as int], name@) is None,
            },
    {
        let scope = &self.envs[idx];
        let ghost sv = spec_scope_view(*scope);
        let mut j: usize = scope.len();
        while j > 0
            invariant
                j <= scope@.len(),
                sv == spec_scope_view(*scope),
                sv.len() == scope@.len(),
                forall|k: int| j <= k < sv.len() ==> (#[trigger] sv[k]).0 != name@,
            decreases j,
        {
            j = j - 1;
            if scope[j].0.eq(name) {
                proof {
                    lemma_scope_lookup_at(sv, name@, j as int);
                }
                return Some(scope[j].1.clone());
            }
        }
        proof {
            lemma_scope_lookup_none(sv, name@);
        }
        None
    }

    /// Assigns `v` over the latest binding of `name` in the scope at
    /// `idx`; `false` when the name is unbound there.
    #[verifier::loop_isolation(false)]
    fn assign_at(&mut self, idx: usize, name: &String, v: Value) -> (r: bool)
        requires
            idx < old(self).envs@.len(),
        ensures
            final(self).locals@ == old(self).locals@,
            match spec_scope_assign(old(self).st().envs[idx as int], name@, v.deep_view()) {
                Some(sc) => r && final(self).st() == (StateView {
                    envs: old(self).st().envs.update(idx as int, sc),
                    output: old(self).st().output,
                }),
                None => !r && final(self).st() == old(self).st(),
            },
    {
        let ghost v_view = v.deep_view();
        let ghost sv = spec_scope_view(old(self).envs@[idx as int]);
        let scope = &self.envs[idx];
        let mut j: usize = scope.len();
        let mut found: bool = false;
        let mut at: usize = 0;
        while j > 0
            invariant
                j <= self.envs@[idx as int]@.len(),
                !found,
                sv == spec_scope_view(self.envs@[idx as int]),
                sv.len() == self.envs@[idx as int]@.len(),
                forall|k: int| j <= k < sv.len() ==> (#[trigger] sv[k]).0 != name@,
            decreases j,
        {
            j = j - 1;
            if self.envs[idx][j].0.eq(name) {
                found = true;
                at = j;
                break;
            }
        }
        if !found {
            proof {
                lemma_scope_assign_none(sv, name@, v_view);
            }
            return false;
        }
        proof {
            lemma_scope_assign_at(sv, name@, v_view, at as int);
        }
        self.envs[idx][at] = (name.clone(), v);
        proof {
            assert(spec_scope_view(self.envs@[idx as int]) =~= sv.update(
                at as int,
                (name@, v_view),
            ));
            assert(spec_envs_view(self.envs) =~= spec_envs_view(old(self).envs).update(
                idx as int,
                sv.update(at as int, (name@, v_view)),
            ));
            assert(self.st().output =~= old(self).st().output);
        }
        true
    }
}

} // verus!

verus! {

/// The runtime error for reading or assigning an unbound variable.
fn undefined_variable(name: &String) -> (e: InterpreterControl)
    ensures
        e.deep_view() == ControlView::RuntimeError(spec_undefined_message(name@)),
{
    let mut msg = String::from_str("Undefined variable: ");
    msg.append(name.as_str());
    InterpreterControl::RuntimeError(msg)
}

/// The runtime error for exhausting the evaluation fuel.
fn fuel_error() -> (e: InterpreterControl)
    ensures
        e.deep_view() == ControlView::RuntimeError(spec_fuel_message()),
{
    InterpreterControl::RuntimeError(String::from_str("Execution limit exceeded"))
}

/// The first top-level function declaration named `name`, if any.
#[verifier::loop_isolation(false)]
fn find_function<'a>(program: &'a Program, name: &String) -> (r: Option<
    (&'a Vec<crate::parser::ast::FunctionParameter>, &'a Expression),
>)
    ensures
        match r {
            Some((ps, b)) => spec_find_function(program.declarations@, 0, name@) == Some(
                (ps@, *b),
            ),
            None => spec_find_function(program.declarations@, 0, name@) is None,
        },
{
    let mut i: usize = 0;
    while i < program.declarations.len()
        invariant
            i <= program.declarations@.len(),
            spec_find_function(program.declarations@, 0, name@) == spec_find_function(
                program.declarations@,
                i as int,
                name@,
            ),
        decreases program.declarations@.len() - i,
    {
        match &program.declarations[i] {
            Declaration::Function { name: n, params, body, .. } => {
                if n.eq(name) {
                    return Some((params, body));
                }
            },
            _ => {},
        }
        i = i + 1;
    }
    None
}

impl Interpreter {
    /// Evaluates an expression, spending one unit of fuel per evaluation
    /// step; the result and state change are exactly those of the spec
    /// evaluator.
    #[verifier::rlimit(100)]
    #[verifier::spinoff_prover]
    pub fn eval_expr(&mut self, program: &Program, e: &Expression, fuel: u64) -> (r: Result<
        Value,
        InterpreterControl,
    >)
        ensures
            final(self).locals@ == old(self).locals@,
            ({
                let out = spec_eval_expr(*program, old(self).locals@, *e, old(self).st(), fuel as nat);
                spec_outcome_view(r) == out.0 && final(self).st() == out.1
            }),
        decreases fuel, 1int,
    {
        if fuel == 0 {
            return Err(fuel_error());
        }
        let f = fuel - 1;
        match e {
            Expression::NumberLiteral(b) => Ok(Value::Number(*b)),
            Expression::StringLiteral(s) => Ok(Value::String(s.clone())),
            Expression::CharLiteral(c) => Ok(Value::Char(*c)),
            Expression::BooleanLiteral(b) => Ok(Value::Boolean(*b)),
            Expression::Variable { name, expression_id } => {
                let envs_len = self.envs.len();
                let idx_opt: Option<usize> = match self.lookup_depth(expression_id.0) {
                    Some(d) => if d < envs_len {
                        Some(envs_len - 1 - d)
                    } else {
                        None
                    },
                    None => if envs_len > 0 {
                        Some(0)
                    } else {
                        None
                    },
                };
                match idx_opt {
                    Some(idx) => match self.scope_lookup_at(idx, name) {
                        Some(v) => Ok(v),
                        None => Err(undefined_variable(name)),
                    },
                    None => Err(undefined_variable(name)),
                }
            },
            Expression::Assignment { name, value, expression_id } => {
                let v = match self.eval_expr(program, value, f) {
                    Ok(v) => v,
                    Err(c) => {
                        return Err(c);
                    },
                };
                let envs_len = self.envs.len();
                let idx_opt: Option<usize> = match self.lookup_depth(expression_id.0) {
                    Some(d) => if d < envs_len {
                        Some(envs_len - 1 - d)
                    } else {
                        None
                    },
                    None => if envs_len > 0 {
                        Some(0)
                    } else {
                        None
                    },
                };
                match idx_opt {
                    Some(idx) => {
                        let v2 = v.clone();
                        if self.assign_at(idx, name, v2) {
                            Ok(v)
                        } else {
                            Err(undefined_variable(name))
                        }
                    },
                    None => Err(undefined_variable(name)),
                }
            },
            Expression::BinaryOperation { left, operator, right } => {
                let a = match self.eval_expr(program, left, f) {
                    Ok(v) => v,
                    Err(c) => {
                        return Err(c);
                    },
                };
                let b = match self.eval_expr(program, right, f) {
                    Ok(v) => v,
                    Err(c) => {
                        return Err(c);
                    },
                };
                apply_binary(operator, a, b)
            },
            Expression::UnaryOperation { operator, operand } => {
                let a = match self.eval_expr(program, operand, f) {
                    Ok(v) => v,
                    Err(c) => {
                        return Err(c);
                    },
                };
                apply_unary(operator, a)
            },
            Expression::Block(stmts) => {
                self.push_scope();
                let r = self.eval_block_stmts(program, stmts, f);
                self.pop_scope();
                r
            },
            Expression::If { condition, then_branch, else_branch } => {
                let cv = match self.eval_expr(program, condition, f) {
                    Ok(v) => v,
                    Err(c) => {
                        return Err(c);
                    },
                };
                let is_true = match &cv {
                    Value::Boolean(true) => true,
                    _ => false,
                };
                proof {
                    assert(is_true == (cv.deep_view() == ValueView::Boolean(true)));
                }
                if is_true {
                    self.eval_expr(program, then_branch, f)
                } else {
                    match else_branch {
                        Some(e2) => self.eval_expr(program, e2, f),
                        None => Ok(Value::default()),
                    }
                }
            },
            Expression::Loop(l) => match l {
                LoopStatement::Infinite { body } => self.eval_infinite(program, body, f),
                LoopStatement::While { condition, body } => self.eval_while(
                    program,
                    condition,
                    body,
                    f,
                ),
                LoopStatement::Iterator { iterator, iterable, body, .. } => {
                    let v = match self.eval_expr(program, iterable, f) {
                        Ok(v) => v,
                        Err(c) => {
                            return Err(c);
                        },
                    };
                    match v {
                        Value::Vector(items) => self.eval_iter(program, iterator, &items, body, f),
                        other => {
                            let mut msg = String::from_str("Cannot iterate over: ");
                            msg.append(other.display_string().as_str());
                            Err(InterpreterControl::RuntimeError(msg))
                        },
                    }
                },
            },
            Expression::FunctionCall { callee, args } => {
                match &**callee {
                    Expression::Variable { name, .. } => {
                        if name.eq(&String::from_str("print")) {
                            self.eval_print(program, args, f)
                        } else {
                            let avs = match self.eval_args(program, args, f) {
                                Ok(v) => v,
                                Err(c) => {
                                    return Err(c);
                                },
                            };
                            match find_function(program, name) {
                                None => {
                                    let mut msg = String::from_str("Unknown function: ");
                                    msg.append(name.as_str());
                                    Err(InterpreterControl::RuntimeError(msg))
                                },
                                Some((params, body)) => {
                                    if params.len() != avs.len() {
                                        let mut msg = String::from_str(
                                            "Wrong number of arguments for function: ",
                                        );
                                        msg.append(name.as_str());
                                        return Err(InterpreterControl::RuntimeError(msg));
                                    }
                                    let ghost avs_view = avs.deep_view();
                                    let mut bindings: Vec<(String, Value)> = Vec::new();
                                    let mut i: usize = 0;
                                    while i < params.len()
                                        invariant
                                            i <= params@.len(),
                                            bindings@.len() == i as int,
                                            params@.len() == avs_view.len(),
                                            avs_view == avs.deep_view(),
                                            spec_scope_view(bindings) =~= spec_bind_params(
                                                params@,
                                                avs_view,
                                            ).take(i as int),
                                        decreases params@.len() - i,
                                    {
                                        let ghost bpre = bindings@;
                                        let pname = params[i].name.clone();
                                        let pval = avs[i].clone();
                                        proof {
                                            assert(pname@ == params@[i as int].name@);
                                            assert(pval.deep_view() == avs@[i as int].deep_view());
                                        }
                                        bindings.push((pname, pval));
                                        proof {
                                            assert(bindings@.len() == i + 1);
                                            assert(bindings@[i as int].0@ == params@[i as int].name@);
                                            assert(bindings@[i as int].1.deep_view() == avs@[
                                                i as int
                                            ].deep_view());
                                            assert(avs_view[i as int] == avs@[i as int].deep_view());
                                            assert(spec_bind_params(params@, avs_view)[i as int]
                                                == (params@[i as int].name@, avs_view[i as int]));
                                            assert(spec_scope_view(bindings) =~= spec_bind_params(
                                                params@,
                                                avs_view,
                                            ).take(i + 1));
                                        }
                                        i = i + 1;
                                    }
                                    proof {
                                        assert(spec_bind_params(params@, avs_view).take(
                                            params@.len() as int,
                                        ) =~= spec_bind_params(params@, avs_view));
                                    }
                                    self.push_scope_with(bindings);
                                    let r = self.eval_expr(program, body, f);
                                    self.pop_scope();
                                    match r {
                                        Ok(v) => Ok(v),
                                        Err(InterpreterControl::Return(v)) => Ok(v),
                                        Err(c) => Err(c),
                                    }
                                },
                            }
                        }
                    },
                    _ => Err(
                        InterpreterControl::RuntimeError(
                            String::from_str("Unsupported function call"),
                        ),
                    ),
                }
            },
            Expression::MemberAccess { .. } => Err(
                InterpreterControl::RuntimeError(String::from_str("Unsupported member access")),
            ),
            Expression::Array { .. } => Err(
                InterpreterControl::RuntimeError(
                    String::from_str("Unsupported array construction"),
                ),
            ),
            Expression::StructCreation { .. } => Err(
                InterpreterControl::RuntimeError(String::from_str("Unsupported struct creation")),
            ),
        }
    }

    /// Evaluates one statement for effect.
    pub fn eval_stmt(&mut self, program: &Program, s: &Statement, fuel: u64) -> (r: Result<
        (),
        InterpreterControl,
    >)
        ensures
            final(self).locals@ == old(self).locals@,
            ({
                let out = spec_eval_stmt(*program, old(self).locals@, *s, old(self).st(), fuel as nat);
                spec_status_view(r) == out.0 && final(self).st() == out.1
            }),
        decreases fuel, 0int,
    {
        if fuel == 0 {
            return Err(fuel_error());
        }
        let f = fuel - 1;
        match s {
            Statement::Break => Err(InterpreterControl::Break),
            Statement::Continue => Err(InterpreterControl::Continue),
            Statement::Return(ov) => match ov {
                None => Err(InterpreterControl::Return(Value::default())),
                Some(e2) => match self.eval_expr(program, e2, f) {
                    Ok(v) => Err(InterpreterControl::Return(v)),
                    Err(c) => Err(c),
                },
            },
            Statement::Expression { expression, result } => match self.eval_expr(
                program,
                expression,
                f,
            ) {
                Ok(v) => if *result {
                    Err(InterpreterControl::Return(v))
                } else {
                    Ok(())
                },
                Err(c) => Err(c),
            },
            Statement::VariableDeclaration { name, value, .. } => match self.eval_expr(
                program,
                value,
                f,
            ) {
                Ok(v) => {
                    self.define_var(name.clone(), v);
                    Ok(())
                },
                Err(c) => Err(c),
            },
            Statement::Declaration(_) => Ok(()),
        }
    }

    /// Evaluates a block's statements in order; the designated result
    /// statement, if present, supplies the block's value.
    #[verifier::loop_isolation(false)]
    fn eval_block_stmts(&mut self, program: &Program, stmts: &Vec<Statement>, fuel: u64) -> (r:
        Result<Value, InterpreterControl>)
        ensures
            final(self).locals@ == old(self).locals@,
            ({
                let out = spec_eval_block_stmts(
                    *program,
                    old(self).locals@,
                    stmts@,
                    0,
                    old(self).st(),
                    fuel as nat,
                );
                spec_outcome_view(r) == out.0 && final(self).st() == out.1
            }),
        decreases fuel, 0int,
    {
        let mut fl = fuel;
        let mut i: usize = 0;
        loop
            invariant
                i <= stmts@.len(),
                fl <= fuel,
                self.locals@ == old(self).locals@,
                spec_eval_block_stmts(
                    *program,
                    old(self).locals@,
                    stmts@,
                    0,
                    old(self).st(),
                    fuel as nat,
                ) == spec_eval_block_stmts(
                    *program,
                    old(self).locals@,
                    stmts@,
                    i as int,
                    self.st(),
                    fl as nat,
                ),
            decreases fl,
        {
            if fl == 0 {
                return Err(fuel_error());
            }
            if i >= stmts.len() {
                return Ok(Value::default());
            }
            let is_result = match &stmts[i] {
                Statement::Expression { result: true, .. } => true,
                _ => false,
            };
            if is_result {
                match &stmts[i] {
                    Statement::Expression { expression, .. } => {
                        return self.eval_expr(program, expression, fl - 1);
                    },
                    _ => {
                        return Ok(Value::default());
                    },
                }
            }
            match self.eval_stmt(program, &stmts[i], fl - 1) {
                Ok(_) => {},
                Err(c) => {
                    return Err(c);
                },
            }
            fl = fl - 1;
            i = i + 1;
        }
    }

    /// Evaluates call arguments left to right.
    #[verifier::loop_isolation(false)]
    fn eval_args(&mut self, program: &Program, args: &Vec<Expression>, fuel: u64) -> (r: Result<
        Vec<Value>,
        InterpreterControl,
    >)
        ensures
            final(self).locals@ == old(self).locals@,
            ({
                let out = spec_eval_args(
                    *program,
                    old(self).locals@,
                    args@,
                    0,
                    Seq::empty(),
                    old(self).st(),
                    fuel as nat,
                );
                (match r {
                    Ok(vs) => out.0 == Ok::<Seq<ValueView>, ControlView>(vs.deep_view()),
                    Err(c) => out.0 == Err::<Seq<ValueView>, ControlView>(c.deep_view()),
                }) && final(self).st() == out.1
            }),
        decreases fuel, 0int,
    {
        let mut fl = fuel;
        let mut i: usize = 0;
        let mut acc: Vec<Value> = Vec::new();
        proof {
            assert(acc.deep_view() =~= Seq::<ValueView>::empty());
        }
        loop
            invariant
                i <= args@.len(),
                fl <= fuel,
                self.locals@ == old(self).locals@,
                spec_eval_args(
                    *program,
                    old(self).locals@,
                    args@,
                    0,
                    Seq::empty(),
                    old(self).st(),
                    fuel as nat,
                ) == spec_eval_args(
                    *program,
                    old(self).locals@,
                    args@,
                    i as int,
                    acc.deep_view(),
                    self.st(),
                    fl as nat,
                ),
            decreases fl,
        {
            if fl == 0 {
                return Err(fuel_error());
            }
            if i >= args.len() {
                return Ok(acc);
            }
            let ghost acc0 = acc.deep_view();
            match self.eval_expr(program, &args[i], fl - 1) {
                Ok(v) => {
                    let ghost vv = v.deep_view();
                    acc.push(v);
                    proof {
                        assert(acc.deep_view() =~= acc0.push(vv));
                    }
                },
                Err(c) => {
                    return Err(c);
                },
            }
            fl = fl - 1;
            i = i + 1;
        }
    }

    /// Evaluates the arguments of the built-in `print`, appending each
    /// one's display form to the output in evaluation order.
    #[verifier::loop_isolation(false)]
    fn eval_print(&mut self, program: &Program, args: &Vec<Expression>, fuel: u64) -> (r: Result<
        Value,
        InterpreterControl,
    >)
        ensures
            final(self).locals@ == old(self).locals@,
            ({
                let out = spec_eval_print(
                    *program,
                    old(self).locals@,
                    args@,
                    0,
                    old(self).st(),
                    fuel as nat,
                );
                spec_outcome_view(r) == out.0 && final(self).st() == out.1
            }),
        decreases fuel, 0int,
    {
        let mut fl = fuel;
        let mut i: usize = 0;
        loop
            invariant
                i <= args@.len(),
                fl <= fuel,
                self.locals@ == old(self).locals@,
                spec_eval_print(
                    *program,
                    old(self).locals@,
                    args@,
                    0,
                    old(self).st(),
                    fuel as nat,
                ) == spec_eval_print(
                    *program,
                    old(self).locals@,
                    args@,
                    i as int,
                    self.st(),
                    fl as nat,
                ),
            decreases fl,
        {
            if fl == 0 {
                return Err(fuel_error());
            }
            if i >= args.len() {
                return Ok(Value::default());
            }
            match self.eval_expr(program, &args[i], fl - 1) {
                Ok(v) => {
                    let ghost out0 = self.output.deep_view();
                    let line = v.display_string();
                    self.output.push(line);
                    proof {
                        assert(self.output.deep_view() =~= out0.push(
                            spec_display(v.deep_view()),
                        ));
                        assert(spec_envs_view(self.envs) == self.st().envs);
                    }
                },
                Err(c) => {
                    return Err(c);
                },
            }
            fl = fl - 1;
            i = i + 1;
        }
    }

    /// Runs an infinite loop until its body breaks or signals.
    #[verifier::loop_isolation(false)]
    fn eval_infinite(&mut self, program: &Program, body: &Expression, fuel: u64) -> (r: Result<
        Value,
        InterpreterControl,
    >)
        ensures
            final(self).locals@ == old(self).locals@,
            ({
                let out = spec_eval_infinite(
                    *program,
                    old(self).locals@,
                    *body,
                    old(self).st(),
                    fuel as nat,
                );
                spec_outcome_view(r) == out.0 && final(self).st() == out.1
            }),
        decreases fuel, 0int,
    {
        let mut fl = fuel;
        loop
            invariant
                fl <= fuel,
                self.locals@ == old(self).locals@,
                spec_eval_infinite(
                    *program,
                    old(self).locals@,
                    *body,
                    old(self).st(),
                    fuel as nat,
                ) == spec_eval_infinite(*program, old(self).locals@, *body, self.st(), fl as nat),
            decreases fl,
        {
            if fl == 0 {
                return Err(fuel_error());
            }
            fl = fl - 1;
            match self.eval_expr(program, body, fl) {
                Ok(_) => {},
                Err(InterpreterControl::Break) => {
                    return Ok(Value::default());
                },
                Err(InterpreterControl::Continue) => {},
                Err(c) => {
                    return Err(c);
                },
            }
        }
    }

    /// Runs a while loop: a false condition ends it with the unit value.
    #[verifier::loop_isolation(false)]
    fn eval_while(
        &mut self,
        program: &Program,
        condition: &Expression,
        body: &Expression,
        fuel: u64,
    ) -> (r: Result<Value, InterpreterControl>)
        ensures
            final(self).locals@ == old(self).locals@,
            ({
                let out = spec_eval_while(
                    *program,
                    old(self).locals@,
                    *condition,
                    *body,
                    old(self).st(),
                    fuel as nat,
                );
                spec_outcome_view(r) == out.0 && final(self).st() == out.1
            }),
        decreases fuel, 0int,
    {
        let mut fl = fuel;
        loop
            invariant
                fl <= fuel,
                self.locals@ == old(self).locals@,
                spec_eval_while(
                    *program,
                    old(self).locals@,
                    *condition,
                    *body,
                    old(self).st(),
                    fuel as nat,
                ) == spec_eval_while(
                    *program,
                    old(self).locals@,
                    *condition,
                    *body,
                    self.st(),
                    fl as nat,
                ),
            decreases fl,
        {
            if fl == 0 {
                return Err(fuel_error());
            }
            fl = fl - 1;
            let cv = match self.eval_expr(program, condition, fl) {
                Ok(v) => v,
                Err(c) => {
                    return Err(c);
                },
            };
            let is_false = match &cv {
                Value::Boolean(false) => true,
                _ => false,
            };
            proof {
                assert(is_false == (cv.deep_view() == ValueView::Boolean(false)));
            }
            if is_false {
                return Ok(Value::default());
            }
            match self.eval_expr(program, body, fl) {
                Ok(_) => {},
                Err(InterpreterControl::Break) => {
                    return Ok(Value::default());
                },
                Err(InterpreterControl::Continue) => {},
                Err(c) => {
                    return Err(c);
                },
            }
        }
    }

    /// Runs an iterator loop over the elements of a vector value.
    #[verifier::loop_isolation(false)]
    fn eval_iter(
        &mut self,
        program: &Program,
        binding: &String,
        items: &Vec<Value>,
        body: &Expression,
        fuel: u64,
    ) -> (r: Result<Value, InterpreterControl>)
        ensures
            final(self).locals@ == old(self).locals@,
            ({
                let out = spec_eval_iter(
                    *program,
                    old(self).locals@,
                    binding@,
                    spec_values_view(*items),
                    0,
                    *body,
                    old(self).st(),
                    fuel as nat,
                );
                spec_outcome_view(r) == out.0 && final(self).st() == out.1
            }),
        decreases fuel, 0int,
    {
        let mut fl = fuel;
        let mut i: usize = 0;
        let ghost ivs = spec_values_view(*items);
        loop
            invariant
                i <= items@.len(),
                fl <= fuel,
                ivs == spec_values_view(*items),
                ivs.len() == items@.len(),
                self.locals@ == old(self).locals@,
                spec_eval_iter(
                    *program,
                    old(self).locals@,
                    binding@,
                    ivs,
                    0,
                    *body,
                    old(self).st(),
                    fuel as nat,
                ) == spec_eval_iter(
                    *program,
                    old(self).locals@,
                    binding@,
                    ivs,
                    i as int,
                    *body,
                    self.st(),
                    fl as nat,
                ),
            decreases fl,
        {
            if fl == 0 {
                return Err(fuel_error());
            }
            if i >= items.len() {
                return Ok(Value::default());
            }
            fl = fl - 1;
            let mut bindings: Vec<(String, Value)> = Vec::new();
            bindings.push((binding.clone(), items[i].clone()));
            proof {
                assert(spec_scope_view(bindings) =~= seq![(binding@, ivs[i as int])]);
            }
            self.push_scope_with(bindings);
            let r = self.eval_expr(program, body, fl);
            self.pop_scope();
            match r {
                Ok(_) => {},
                Err(InterpreterControl::Break) => {
                    return Ok(Value::default());
                },
                Err(InterpreterControl::Continue) => {},
                Err(c) => {
                    return Err(c);
                },
            }
            i = i + 1;
        }
    }

    /// Runs a program: the body of every top-level function named `main`
    /// is evaluated, in order.  A control signal escaping to this level —
    /// a `break`, `continue` or `return` outside its construct, or a
    /// runtime error — ends the run and is reported to the caller.
    #[verifier::loop_isolation(false)]
    pub fn run(&mut self, program: &Program) -> (r: Result<(), InterpreterControl>)
        ensures
            final(self).locals@ == old(self).locals@,
            ({
                let out = spec_run_decls(
                    *program,
                    old(self).locals@,
                    0,
                    old(self).st(),
                    0xffff_ffff_ffff_ffffu64 as nat,
                );
                spec_status_view(r) == out.0 && final(self).st() == out.1
            }),
    {
        let mut fl: u64 = 0xffff_ffff_ffff_ffff;
        let ghost fuel0 = fl as nat;
        let mut i: usize = 0;
        loop
            invariant
                i <= program.declarations@.len(),
                self.locals@ == old(self).locals@,
                spec_run_decls(*program, old(self).locals@, 0, old(self).st(), fuel0)
                    == spec_run_decls(
                    *program,
                    old(self).locals@,
                    i as int,
                    self.st(),
                    fl as nat,
                ),
            decreases fl,
        {
            if fl == 0 {
                return Err(fuel_error());
            }
            if i >= program.declarations.len() {
                return Ok(());
            }
            fl = fl - 1;
            match &program.declarations[i] {
                Declaration::Function { name, body, .. } => {
                    if name.eq(&String::from_str("main")) {
                        match self.eval_expr(program, body, fl) {
                            Ok(_) => {},
                            Err(c) => {
                                return Err(c);
                            },
                        }
                    }
                },
                _ => {},
            }
            i = i + 1;
        }
    }

    /// Evaluates one expression against an empty program: only built-ins
    /// are callable.
    pub fn interpret_expression(&mut self, expression: &Expression) -> (r: Result<
        Value,
        InterpreterControl,
    >)
        ensures
            final(self).locals@ == old(self).locals@,
            exists|p: Program|
                (#[trigger] p.declarations@).len() == 0 && {
                    let out = spec_eval_expr(
                        p,
                        old(self).locals@,
                        *expression,
                        old(self).st(),
                        0xffff_ffff_ffff_ffffu64 as nat,
                    );
                    spec_outcome_view(r) == out.0 && final(self).st() == out.1
                },
    {
        let program = Program { declarations: Vec::new() };
        let r = self.eval_expr(&program, expression, 0xffff_ffff_ffff_ffff);
        proof {
            let p0 = program;
            assert((p0.declarations@).len() == 0 && {
                let out = spec_eval_expr(
                    p0,
                    old(self).locals@,
                    *expression,
                    old(self).st(),
                    0xffff_ffff_ffff_ffffu64 as nat,
                );
                spec_outcome_view(r) == out.0 && self.st() == out.1
            });
        }
        r
    }
}

} // verus!

verus! {

/// A loop whose body's first statement is `break` ends after zero
/// complete iterations: none of the statements after the `break` run, the
/// state after the loop is exactly the state before it, and the loop
/// evaluates to the unit value.
pub proof fn lemma_loop_break(
    p: Program,
    locals: Seq<(u32, usize)>,
    e: Expression,
    st: StateView,
    fuel: nat,
)
    requires
        e matches Expression::Loop(LoopStatement::Infinite { body })
            && *body matches Expression::Block(stmts) && stmts@.len() >= 1 && stmts@[0]
            == Statement::Break,
        fuel >= 5,
    ensures
        spec_eval_expr(p, locals, e, st, fuel) == (Ok::<ValueView, ControlView>(spec_unit()), st),
{
    let body = *(e->Loop_0->Infinite_body);
    let stmts = body->Block_0;
    let f = (fuel - 1) as nat;
    let f2 = (f - 1) as nat;
    let f3 = (f2 - 1) as nat;
    let f4 = (f3 - 1) as nat;
    let st1 = spec_push_scope(st, Seq::empty());
    assert(spec_eval_stmt(p, locals, stmts@[0], st1, f4) == (
        Err::<(), ControlView>(ControlView::Break),
        st1,
    ));
    assert(spec_eval_block_stmts(p, locals, stmts@, 0, st1, f3) == (
        Err::<ValueView, ControlView>(ControlView::Break),
        st1,
    ));
    assert(spec_pop_scope(st1) =~= st);
    assert(spec_eval_expr(p, locals, body, st, f2) == (
        Err::<ValueView, ControlView>(ControlView::Break),
        st,
    ));
    assert(spec_eval_infinite(p, locals, body, st, f) == (
        Ok::<ValueView, ControlView>(spec_unit()),
        st,
    ));
}

} // verus!
