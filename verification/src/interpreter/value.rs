//! Runtime values of the interpreted language, their equality and their
//! display form.
//!
//! A number is an IEEE binary64 value carried as its bit pattern; equality
//! — both `==` and [`value_eq`] — is the language's equality: IEEE on
//! numbers, structural elsewhere, false across different kinds of value.

use vstd::prelude::*;
use crate::numbers::{decimal_of_bits, eq_bits, num_display, num_eq};
use crate::textops::push_char;
use vstd::string::StringExecFns;

verus! {

broadcast use vstd::seq::axiom_seq_index_decreases, vstd::std_specs::vec::axiom_vec_index_decreases;

/// A runtime value.  `Number` carries an IEEE binary64 bit pattern.
#[derive(Debug)]
pub enum Value {
    Number(u64),
    String(String),
    Boolean(bool),
    Char(char),
    Vector(Vec<Value>),
}

impl PartialEq for Value {
    /// The language's equality (see [`spec_value_eq`]): IEEE equality on
    /// numbers — so `NaN` equals nothing and the two zeroes are equal —
    /// and structural equality elsewhere.
    fn eq(&self, other: &Value) -> (r: bool) {
        value_eq(self, other)
    }
}

impl vstd::std_specs::cmp::PartialEqSpecImpl for Value {
    open spec fn obeys_eq_spec() -> bool {
        true
    }

    open spec fn eq_spec(&self, other: &Value) -> bool {
        spec_value_eq(self.deep_view(), other.deep_view())
    }
}

/// The mathematical content of a [`Value`].
#[verifier::ext_equal]
pub enum ValueView {
    Number(u64),
    Str(Seq<char>),
    Boolean(bool),
    Char(char),
    Vector(Seq<ValueView>),
}

/// The mathematical contents of a vector of values, elementwise.
pub open spec fn spec_values_view(vs: Vec<Value>) -> Seq<ValueView>
    decreases vs,
{
    Seq::new(
        vs@.len(),
        |i: int|
            if 0 <= i < vs@.len() {
                vs@[i].deep_view()
            } else {
                ValueView::Number(0)
            },
    )
}

impl DeepView for Value {
    type V = ValueView;

    open spec fn deep_view(&self) -> ValueView
        decreases self,
    {
        match self {
            Value::Number(b) => ValueView::Number(*b),
            Value::String(s) => ValueView::Str(s@),
            Value::Boolean(b) => ValueView::Boolean(*b),
            Value::Char(c) => ValueView::Char(*c),
            Value::Vector(v) => ValueView::Vector(spec_values_view(*v)),
        }
    }
}

impl Clone for Value {
    /// A structural copy with the same mathematical content.
    #[verifier::loop_isolation(false)]
    fn clone(&self) -> (r: Value)
        ensures
            r.deep_view() == self.deep_view(),
        decreases self,
    {
        match self {
            Value::Number(b) => Value::Number(*b),
            Value::String(s) => Value::String(s.clone()),
            Value::Boolean(b) => Value::Boolean(*b),
            Value::Char(c) => Value::Char(*c),
            Value::Vector(v) => {
                let mut out: Vec<Value> = Vec::new();
                let mut i: usize = 0;
                while i < v.len()
                    invariant
                        i <= v@.len(),
                        out@.len() == i,
                        forall|k: int|
                            0 <= k < i ==> (#[trigger] out@[k]).deep_view() == v@[k].deep_view(),
                    decreases v@.len() - i,
                {
                    proof {
                        vstd::std_specs::vec::axiom_vec_index_decreases(*v, i as int);
                    }
                    out.push(v[i].clone());
                    i = i + 1;
                }
                let r = Value::Vector(out);
                proof {
                    assert(spec_values_view(r->Vector_0) =~= spec_values_view(*v));
                }
                r
            },
        }
    }
}

/// The language's equality: IEEE equality on numbers, structural equality
/// elsewhere, `false` across different kinds of value.
pub open spec fn spec_value_eq(a: ValueView, b: ValueView) -> bool
    decreases a,
{
    match (a, b) {
        (ValueView::Number(x), ValueView::Number(y)) => eq_bits(x, y),
        (ValueView::Str(x), ValueView::Str(y)) => x == y,
        (ValueView::Boolean(x), ValueView::Boolean(y)) => x == y,
        (ValueView::Char(x), ValueView::Char(y)) => x == y,
        (ValueView::Vector(x), ValueView::Vector(y)) => x.len() == y.len() && (forall|i: int|
            0 <= i < x.len() ==> spec_value_eq(#[trigger] x[i], y[i])),
        _ => false,
    }
}

/// Decides the language's equality of two values.
#[verifier::loop_isolation(false)]
pub fn value_eq(a: &Value, b: &Value) -> (r: bool)
    ensures
        r == spec_value_eq(a.deep_view(), b.deep_view()),
    decreases a,
{
    match (a, b) {
        (Value::Number(x), Value::Number(y)) => num_eq(*x, *y),
        (Value::String(x), Value::String(y)) => x.eq(y),
        (Value::Boolean(x), Value::Boolean(y)) => *x == *y,
        (Value::Char(x), Value::Char(y)) => *x == *y,
        (Value::Vector(x), Value::Vector(y)) => {
            let ghost xs = spec_values_view(*x);
            let ghost ys = spec_values_view(*y);
            if x.len() != y.len() {
                return false;
            }
            let mut i: usize = 0;
            while i < x.len()
                invariant
                    x@.len() == y@.len(),
                    i <= x@.len(),
                    forall|k: int| 0 <= k < i ==> spec_value_eq(#[trigger] xs[k], ys[k]),
                decreases x@.len() - i,
            {
                proof {
                    vstd::std_specs::vec::axiom_vec_index_decreases(*x, i as int);
                }
                if !value_eq(&x[i], &y[i]) {
                    proof {
                        assert(xs[i as int] == x@[i as int].deep_view());
                        assert(ys[i as int] == y@[i as int].deep_view());
                        assert(!spec_value_eq(xs[i as int], ys[i as int]));
                    }
                    return false;
                }
                i = i + 1;
            }
            true
        },
        _ => false,
    }
}

/// The display pieces of a vector's elements: each element's display form
/// followed by `, `.
pub open spec fn spec_display_pieces(items: Seq<ValueView>) -> Seq<Seq<char>>
    decreases items,
{
    Seq::new(
        items.len(),
        |i: int|
            if 0 <= i < items.len() {
                spec_display(items[i]) + ", "@
            } else {
                Seq::empty()
            },
    )
}

/// The display form of a value: numbers in decimal, strings and characters
/// bare, booleans as words, vectors bracketed with `, ` after each
/// element.
pub open spec fn spec_display(v: ValueView) -> Seq<char>
    decreases v,
{
    match v {
        ValueView::Number(b) => decimal_of_bits(b),
        ValueView::Str(s) => s,
        ValueView::Boolean(b) => if b {
            "true"@
        } else {
            "false"@
        },
        ValueView::Char(c) => seq![c],
        ValueView::Vector(items) => seq!['['] + spec_display_pieces(items).flatten() + seq![']'],
    }
}

impl Value {
    /// The unit value: the number zero.
    pub fn default() -> (r: Value)
        ensures
            r.deep_view() == ValueView::Number(0u64),
    {
        Value::Number(0)
    }

    /// Renders this value in its display form.
    #[verifier::loop_isolation(false)]
    pub fn display_string(&self) -> (r: String)
        ensures
            r@ == spec_display(self.deep_view()),
        decreases self,
    {
        match self {
            Value::Number(b) => num_display(*b),
            Value::String(s) => s.clone(),
            Value::Boolean(b) => if *b {
                String::from_str("true")
            } else {
                String::from_str("false")
            },
            Value::Char(c) => {
                let mut out = String::new();
                push_char(&mut out, *c);
                proof {
                    assert(out@ =~= seq![*c]);
                }
                out
            },
            Value::Vector(items) => {
                let ghost s = spec_values_view(*items);
                let mut out = String::new();
                push_char(&mut out, '[');
                let mut i: usize = 0;
                proof {
                    assert(s.take(0) =~= Seq::<ValueView>::empty());
                    assert(spec_display_pieces(s.take(0)) =~= Seq::<Seq<char>>::empty());
                    assert(out@ =~= seq!['['] + spec_display_pieces(s.take(0)).flatten());
                }
                while i < items.len()
                    invariant
                        i <= items@.len(),
                        s == spec_values_view(*items),
                        s.len() == items@.len(),
                        out@ == seq!['['] + spec_display_pieces(s.take(i as int)).flatten(),
                    decreases items@.len() - i,
                {
                    proof {
                        vstd::std_specs::vec::axiom_vec_index_decreases(*items, i as int);
                    }
                    let piece = items[i].display_string();
                    out.append(piece.as_str());
                    out.append(", ");
                    proof {
                        let pre = spec_display_pieces(s.take(i as int));
                        assert(spec_display_pieces(s.take(i + 1)) =~= pre.push(
                            spec_display(s[i as int]) + ", "@,
                        ));
                        pre.lemma_flatten_push(spec_display(s[i as int]) + ", "@);
                        assert(out@ =~= seq!['['] + spec_display_pieces(s.take(i + 1)).flatten());
                    }
                    i = i + 1;
                }
                push_char(&mut out, ']');
                proof {
                    assert(s.take(items@.len() as int) =~= s);
                    assert(out@ =~= spec_display(self.deep_view()));
                }
                out
            },
        }
    }
}

} // verus!
