//! Runtime values and their views.

use crate::builtin::Builtin;
use crate::parser::{
    display_primitive, display_slots, join_slots, Lambda, LambdaView, Primitive, PrimitiveView,
};
use std::rc::Rc;
use vstd::prelude::*;
use vstd::string::*;

verus! {

/// A procedure template together with the frame in which its literal was
/// evaluated. The frame is named by its index in the environment.
#[derive(Debug)]
pub struct Clojure {
    pub proto: Rc<Lambda>,
    pub env: usize,
}

/// What evaluation produces.
#[allow(non_camel_case_types)]
#[derive(Debug)]
pub enum Value {
    PRIMITIVE(Rc<Primitive>),
    CLOSURE(Rc<Clojure>),
    BUILTIN(Builtin),
    /// A cell of two slots, each of which may be absent.
    PAIR { car: Option<Rc<Value>>, cdr: Option<Rc<Value>> },
}

/// The view of a [`Clojure`].
pub struct ClosureView {
    pub proto: LambdaView,
    pub env: nat,
}

/// The view of a [`Value`].
#[allow(non_camel_case_types)]
pub enum ValueView {
    PRIMITIVE(PrimitiveView),
    CLOSURE(ClosureView),
    BUILTIN(Builtin),
    PAIR { car: Option<Box<ValueView>>, cdr: Option<Box<ValueView>> },
}

impl View for Clojure {
    type V = ClosureView;

    open spec fn view(&self) -> ClosureView {
        ClosureView { proto: self.proto@, env: self.env as nat }
    }
}

/// The view of a value: its primitives by their views, its closure by the
/// view of its template and the index of its frame.
pub open spec fn value_view(v: Value) -> ValueView
    decreases v,
{
    match v {
        Value::PRIMITIVE(p) => ValueView::PRIMITIVE(p@),
        Value::CLOSURE(c) => ValueView::CLOSURE(c@),
        Value::BUILTIN(b) => ValueView::BUILTIN(b),
        Value::PAIR { car, cdr } => ValueView::PAIR {
            car: match car {
                Some(a) => Some(Box::new(value_view(*a))),
                None => None,
            },
            cdr: match cdr {
                Some(d) => Some(Box::new(value_view(*d))),
                None => None,
            },
        },
    }
}

impl View for Value {
    type V = ValueView;

    open spec fn view(&self) -> ValueView {
        value_view(*self)
    }
}

/// The views of a sequence of values.
pub open spec fn values_view(values: Seq<Rc<Value>>) -> Seq<ValueView> {
    Seq::new(values.len(), |i: int| values[i]@)
}

/// The view of what a slot of a pair holds.
pub open spec fn slot_view(slot: Option<Rc<Value>>) -> Option<Box<ValueView>> {
    match slot {
        Some(v) => Some(Box::new(v@)),
        None => None,
    }
}

/// The value nil.
pub open spec fn nil() -> ValueView {
    ValueView::PRIMITIVE(PrimitiveView::NIL)
}

/// The value of a boolean.
pub open spec fn boolean(b: bool) -> ValueView {
    ValueView::PRIMITIVE(PrimitiveView::BOOLEAN(b))
}

/// The value of a number.
pub open spec fn number(n: i64) -> ValueView {
    ValueView::PRIMITIVE(PrimitiveView::NUMBER(n))
}

/// The pair of two values.
pub open spec fn pair(car: ValueView, cdr: ValueView) -> ValueView {
    ValueView::PAIR { car: Some(Box::new(car)), cdr: Some(Box::new(cdr)) }
}

/// The values of `values` as a chain of pairs that ends in nil: the first
/// value in the first pair's first slot.
pub open spec fn list_spec(values: Seq<ValueView>) -> ValueView
    decreases values.len(),
{
    if values.len() == 0 {
        nil()
    } else {
        pair(values[0], list_spec(values.skip(1)))
    }
}

/// Whether a value is a closure over a frame whose index is `base` or more, or
/// holds one in a pair.
pub open spec fn refers_from(v: ValueView, base: nat) -> bool
    decreases v,
{
    match v {
        ValueView::PRIMITIVE(_) => false,
        ValueView::BUILTIN(_) => false,
        ValueView::CLOSURE(c) => c.env >= base,
        ValueView::PAIR { car, cdr } => {
            ||| match car {
                Some(a) => refers_from(*a, base),
                None => false,
            }
            ||| match cdr {
                Some(d) => refers_from(*d, base),
                None => false,
            }
        },
    }
}

/// Structural equality. Primitives are equal when they are the same primitive;
/// pairs are equal when their first slots are and their second slots are, an
/// absent slot being equal to an absent slot only. A procedure, closure or
/// builtin, is equal to nothing, itself included.
pub open spec fn value_eqv(a: ValueView, b: ValueView) -> bool
    decreases a,
{
    match (a, b) {
        (ValueView::PRIMITIVE(p), ValueView::PRIMITIVE(q)) => p == q,
        (ValueView::PAIR { car: c1, cdr: d1 }, ValueView::PAIR { car: c2, cdr: d2 }) => {
            &&& match (c1, c2) {
                (Some(x), Some(y)) => value_eqv(*x, *y),
                (None, None) => true,
                _ => false,
            }
            &&& match (d1, d2) {
                (Some(x), Some(y)) => value_eqv(*x, *y),
                (None, None) => true,
                _ => false,
            }
        },
        _ => false,
    }
}

/// How a value is displayed. Pairs are never flattened into lists; a procedure
/// shows as a tag only.
pub open spec fn display_value(v: ValueView) -> Seq<char>
    decreases v,
{
    match v {
        ValueView::PRIMITIVE(p) => display_primitive(p),
        ValueView::CLOSURE(_) => "#<closure>"@,
        ValueView::BUILTIN(_) => "#<builtin>"@,
        ValueView::PAIR { car, cdr } => display_slots(
            match car {
                Some(a) => Some(display_value(*a)),
                None => None,
            },
            match cdr {
                Some(d) => Some(display_value(*d)),
                None => None,
            },
        ),
    }
}

impl Value {
    /// The value that holds a primitive.
    pub fn primitive(p: Primitive) -> (v: Rc<Value>)
        ensures
            v@ == ValueView::PRIMITIVE(p@),
    {
        Rc::new(Value::PRIMITIVE(Rc::new(p)))
    }

    /// The value of a boolean.
    pub fn boolean(b: bool) -> (v: Rc<Value>)
        ensures
            v@ == boolean(b),
    {
        Value::primitive(Primitive::BOOLEAN(b))
    }

    /// The value of a number.
    pub fn number(n: i64) -> (v: Rc<Value>)
        ensures
            v@ == number(n),
    {
        Value::primitive(Primitive::NUMBER(n))
    }

    /// The pair of two values.
    pub fn pair(car: Rc<Value>, cdr: Rc<Value>) -> (v: Rc<Value>)
        ensures
            v@ == pair(car@, cdr@),
    {
        Rc::new(Value::PAIR { car: Some(car), cdr: Some(cdr) })
    }

    /// The closure of a procedure template over a frame.
    pub fn closure(proto: Rc<Lambda>, env: usize) -> (v: Rc<Value>)
        ensures
            v@ == ValueView::CLOSURE(ClosureView { proto: proto@, env: env as nat }),
    {
        Rc::new(Value::CLOSURE(Rc::new(Clojure { proto, env })))
    }

    /// The values of `values` as a chain of pairs that ends in nil.
    pub fn list(values: &Vec<Rc<Value>>) -> (v: Rc<Value>)
        ensures
            v@ == list_spec(values_view(values@)),
    {
        let ghost views = values_view(values@);
        let mut chain = Value::primitive(Primitive::NIL);
        let mut i: usize = values.len();
        assert(views.skip(i as int).len() == 0);
        while i > 0
            invariant
                i <= values.len(),
                views == values_view(values@),
                chain@ == list_spec(views.skip(i as int)),
            decreases i,
        {
            i = i - 1;
            assert(views.skip(i as int).skip(1) =~= views.skip(i + 1));
            assert(views.skip(i as int)[0] == values[i as int]@);
            chain = Value::pair(values[i].clone(), chain);
        }
        assert(views.skip(0) =~= views);
        chain
    }

    /// Whether this value is a closure over a frame whose index is `base`
    /// or more, or holds one in a pair. A list is walked along its length
    /// without nesting.
    pub fn refers_from(&self, base: usize) -> (r: bool)
        ensures
            r == refers_from(self@, base as nat),
        decreases self,
    {
        let mut cur: &Value = self;
        loop
            invariant
                refers_from(self@, base as nat) == refers_from(cur@, base as nat),
                cur == self || decreases_to!(self => cur),
            decreases cur,
        {
            match cur {
                Value::PRIMITIVE(_) => {
                    return false;
                },
                Value::BUILTIN(_) => {
                    return false;
                },
                Value::CLOSURE(c) => {
                    return c.env >= base;
                },
                Value::PAIR { car, cdr } => {
                    let first = match car {
                        Some(a) => a.refers_from(base),
                        None => false,
                    };
                    if first {
                        return true;
                    }
                    match cdr {
                        Some(d) => {
                            cur = &**d;
                        },
                        None => {
                            return false;
                        },
                    }
                },
            }
        }
    }

    /// Whether two values are structurally equal.
    pub fn same(&self, other: &Value) -> (r: bool)
        ensures
            r == value_eqv(self@, other@),
        decreases self,
    {
        match (self, other) {
            (Value::PRIMITIVE(p), Value::PRIMITIVE(q)) => p.same(q),
            (Value::PAIR { car: c1, cdr: d1 }, Value::PAIR { car: c2, cdr: d2 }) => {
                let first = match (c1, c2) {
                    (Some(x), Some(y)) => x.same(y),
                    (None, None) => true,
                    _ => false,
                };
                let second = match (d1, d2) {
                    (Some(x), Some(y)) => x.same(y),
                    (None, None) => true,
                    _ => false,
                };
                first && second
            },
            _ => false,
        }
    }

    /// The text that displays this value.
    pub fn to_string(&self) -> (out: String)
        ensures
            out@ == display_value(self@),
        decreases self,
    {
        match self {
            Value::PRIMITIVE(p) => p.to_string(),
            Value::CLOSURE(_) => String::from_str("#<closure>"),
            Value::BUILTIN(_) => String::from_str("#<builtin>"),
            Value::PAIR { car, cdr } => {
                let a = match car {
                    Some(a) => Some(a.to_string()),
                    None => None,
                };
                let d = match cdr {
                    Some(d) => Some(d.to_string()),
                    None => None,
                };
                join_slots(a, d)
            },
        }
    }
}

impl Primitive {
    /// Whether two primitives are the same.
    pub fn same(&self, other: &Primitive) -> (r: bool)
        ensures
            r == (self@ == other@),
    {
        match (self, other) {
            (Primitive::NUMBER(a), Primitive::NUMBER(b)) => *a == *b,
            (Primitive::BOOLEAN(a), Primitive::BOOLEAN(b)) => *a == *b,
            (Primitive::STRING(a), Primitive::STRING(b)) => *a == *b,
            (Primitive::SYMBOL(a), Primitive::SYMBOL(b)) => *a == *b,
            (Primitive::NIL, Primitive::NIL) => true,
            _ => false,
        }
    }
}

} // verus!
