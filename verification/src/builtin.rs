//! The procedures that every interpreter starts with.

use crate::agrees;
use crate::interpreter::error::EvalError;
use crate::interpreter::value::{boolean, number, pair, value_eqv, values_view, Value, ValueView};
use crate::parser::{Primitive, PrimitiveView};
use std::rc::Rc;
use vstd::prelude::*;

verus! {

/// The builtin procedures, one name each.
#[allow(non_camel_case_types)]
#[derive(Clone, Copy, Debug, PartialEq, Eq, Structural)]
pub enum Builtin {
    /// `eqv?`
    EQV,
    /// `number?`
    IS_NUMBER,
    /// `=`
    EQUAL,
    /// `+`
    PLUS,
    /// `-`
    MINUS,
    /// `*`
    TIMES,
    /// `/`
    DIVIDE,
    /// `<`
    LESS,
    /// `>`
    GREATER,
    /// `!`
    NOT,
    /// `boolean?`
    IS_BOOLEAN,
    /// `pair?`
    IS_PAIR,
    /// `cons`
    CONS,
    /// `car`
    CAR,
    /// `cdr`
    CDR,
    /// `symbol?`
    IS_SYMBOL,
    /// `procedure?`
    IS_PROCEDURE,
}

/// The builtin procedures in the order of the table.
pub open spec fn builtin_table() -> Seq<Builtin> {
    seq![
        Builtin::EQV,
        Builtin::IS_NUMBER,
        Builtin::EQUAL,
        Builtin::PLUS,
        Builtin::MINUS,
        Builtin::TIMES,
        Builtin::DIVIDE,
        Builtin::LESS,
        Builtin::GREATER,
        Builtin::NOT,
        Builtin::IS_BOOLEAN,
        Builtin::IS_PAIR,
        Builtin::CONS,
        Builtin::CAR,
        Builtin::CDR,
        Builtin::IS_SYMBOL,
        Builtin::IS_PROCEDURE,
    ]
}

/// The name under which a builtin procedure is bound.
pub open spec fn builtin_name(b: Builtin) -> Seq<char> {
    match b {
        Builtin::EQV => "eqv?"@,
        Builtin::IS_NUMBER => "number?"@,
        Builtin::EQUAL => "="@,
        Builtin::PLUS => "+"@,
        Builtin::MINUS => "-"@,
        Builtin::TIMES => "*"@,
        Builtin::DIVIDE => "/"@,
        Builtin::LESS => "<"@,
        Builtin::GREATER => ">"@,
        Builtin::NOT => "!"@,
        Builtin::IS_BOOLEAN => "boolean?"@,
        Builtin::IS_PAIR => "pair?"@,
        Builtin::CONS => "cons"@,
        Builtin::CAR => "car"@,
        Builtin::CDR => "cdr"@,
        Builtin::IS_SYMBOL => "symbol?"@,
        Builtin::IS_PROCEDURE => "procedure?"@,
    }
}

/// The bindings of the first `n` entries of the table.
pub open spec fn table_bindings(n: int) -> Map<Seq<char>, ValueView>
    decreases n,
{
    if n <= 0 || n > builtin_table().len() {
        Map::empty()
    } else {
        table_bindings(n - 1).insert(
            builtin_name(builtin_table()[n - 1]),
            ValueView::BUILTIN(builtin_table()[n - 1]),
        )
    }
}

/// The table of the builtin procedures: each name with its procedure.
pub fn get_builtins() -> (table: Vec<(&'static str, Builtin)>)
    ensures
        table.len() == 17,
        forall|i: int|
            0 <= i < 17 ==> (#[trigger] table[i]).1 == builtin_table()[i] && table[i].0@
                == builtin_name(table[i].1),
{
    let mut table: Vec<(&'static str, Builtin)> = Vec::new();
    table.push(("eqv?", Builtin::EQV));
    table.push(("number?", Builtin::IS_NUMBER));
    table.push(("=", Builtin::EQUAL));
    table.push(("+", Builtin::PLUS));
    table.push(("-", Builtin::MINUS));
    table.push(("*", Builtin::TIMES));
    table.push(("/", Builtin::DIVIDE));
    table.push(("<", Builtin::LESS));
    table.push((">", Builtin::GREATER));
    table.push(("!", Builtin::NOT));
    table.push(("boolean?", Builtin::IS_BOOLEAN));
    table.push(("pair?", Builtin::IS_PAIR));
    table.push(("cons", Builtin::CONS));
    table.push(("car", Builtin::CAR));
    table.push(("cdr", Builtin::CDR));
    table.push(("symbol?", Builtin::IS_SYMBOL));
    table.push(("procedure?", Builtin::IS_PROCEDURE));
    table
}

/// The machine integer that differs from `n` by a multiple of 2^64.
pub open spec fn wrap(n: int) -> i64 {
    let m = n % 0x1_0000_0000_0000_0000;
    if m > i64::MAX {
        (m - 0x1_0000_0000_0000_0000) as i64
    } else {
        m as i64
    }
}

/// The quotient of `a` by `b`, rounded towards zero.
pub open spec fn quotient(a: int, b: int) -> int
    recommends
        b != 0,
{
    if a >= 0 && b > 0 {
        a / b
    } else if a < 0 && b < 0 {
        (-a) / (-b)
    } else if a < 0 {
        -((-a) / b)
    } else {
        -(a / (-b))
    }
}

/// The two numbers that a procedure of two numbers was given.
pub open spec fn numbers_spec(args: Seq<ValueView>) -> Option<(i64, i64)> {
    if args.len() == 2 {
        match (args[0], args[1]) {
            (
                ValueView::PRIMITIVE(PrimitiveView::NUMBER(a)),
                ValueView::PRIMITIVE(PrimitiveView::NUMBER(b)),
            ) => Some((a, b)),
            _ => None,
        }
    } else {
        None
    }
}

/// The primitive that a predicate on primitives was given.
pub open spec fn primitive_spec(args: Seq<ValueView>) -> Option<PrimitiveView> {
    if args.len() == 1 {
        match args[0] {
            ValueView::PRIMITIVE(p) => Some(p),
            _ => None,
        }
    } else {
        None
    }
}

/// `eqv?`: structural equality of two values.
pub open spec fn eqv_spec(args: Seq<ValueView>) -> Option<ValueView> {
    if args.len() == 2 {
        Some(boolean(value_eqv(args[0], args[1])))
    } else {
        None
    }
}

/// `number?`: whether a primitive is a number.
pub open spec fn if_number_spec(args: Seq<ValueView>) -> Option<ValueView> {
    match primitive_spec(args) {
        Some(p) => Some(boolean(p is NUMBER)),
        None => None,
    }
}

/// `boolean?`: whether a primitive is a boolean.
pub open spec fn if_boolean_spec(args: Seq<ValueView>) -> Option<ValueView> {
    match primitive_spec(args) {
        Some(p) => Some(boolean(p is BOOLEAN)),
        None => None,
    }
}

/// `symbol?`: whether a primitive is a symbol.
pub open spec fn if_symbol_spec(args: Seq<ValueView>) -> Option<ValueView> {
    match primitive_spec(args) {
        Some(p) => Some(boolean(p is SYMBOL)),
        None => None,
    }
}

/// `=` on two numbers.
pub open spec fn equal_number_spec(args: Seq<ValueView>) -> Option<ValueView> {
    match numbers_spec(args) {
        Some((a, b)) => Some(boolean(a == b)),
        None => None,
    }
}

/// `<` on two numbers.
pub open spec fn less_number_spec(args: Seq<ValueView>) -> Option<ValueView> {
    match numbers_spec(args) {
        Some((a, b)) => Some(boolean(a < b)),
        None => None,
    }
}

/// `>` on two numbers.
pub open spec fn greater_number_spec(args: Seq<ValueView>) -> Option<ValueView> {
    match numbers_spec(args) {
        Some((a, b)) => Some(boolean(a > b)),
        None => None,
    }
}

/// `+` on two numbers: the sum, wrapped into the machine's integers.
pub open spec fn plus_number_spec(args: Seq<ValueView>) -> Option<ValueView> {
    match numbers_spec(args) {
        Some((a, b)) => Some(number(wrap(a + b))),
        None => None,
    }
}

/// `-` on two numbers: the difference, wrapped into the machine's integers.
pub open spec fn minus_number_spec(args: Seq<ValueView>) -> Option<ValueView> {
    match numbers_spec(args) {
        Some((a, b)) => Some(number(wrap(a - b))),
        None => None,
    }
}

/// `*` on two numbers: the product, wrapped into the machine's integers.
pub open spec fn times_number_spec(args: Seq<ValueView>) -> Option<ValueView> {
    match numbers_spec(args) {
        Some((a, b)) => Some(number(wrap(a * b))),
        None => None,
    }
}

/// `/` on two numbers: the quotient rounded towards zero, wrapped into the
/// machine's integers. Division by zero does not apply.
pub open spec fn divide_number_spec(args: Seq<ValueView>) -> Option<ValueView> {
    match numbers_spec(args) {
        Some((a, b)) => if b == 0 {
            None
        } else {
            Some(number(wrap(quotient(a as int, b as int))))
        },
        None => None,
    }
}

/// `!` on a boolean.
pub open spec fn not_boolean_spec(args: Seq<ValueView>) -> Option<ValueView> {
    match primitive_spec(args) {
        Some(PrimitiveView::BOOLEAN(b)) => Some(boolean(!b)),
        _ => None,
    }
}

/// `pair?`: whether a value is a pair.
pub open spec fn if_pair_spec(args: Seq<ValueView>) -> Option<ValueView> {
    if args.len() == 1 {
        Some(boolean(args[0] is PAIR))
    } else {
        None
    }
}

/// `procedure?`: whether a value is a closure or a builtin procedure.
pub open spec fn if_procedure_spec(args: Seq<ValueView>) -> Option<ValueView> {
    if args.len() == 1 {
        Some(boolean(args[0] is CLOSURE || args[0] is BUILTIN))
    } else {
        None
    }
}

/// `cons`: the pair of two values.
pub open spec fn cons_spec(args: Seq<ValueView>) -> Option<ValueView> {
    if args.len() == 2 {
        Some(pair(args[0], args[1]))
    } else {
        None
    }
}

/// The one argument is no pair, or a pair whose first slot is absent.
pub open spec fn car_fatal(args: Seq<ValueView>) -> bool {
    args.len() == 1 && !(args[0] is PAIR && args[0]->car is Some)
}

/// The one argument is no pair, or a pair whose second slot is absent.
pub open spec fn cdr_fatal(args: Seq<ValueView>) -> bool {
    args.len() == 1 && !(args[0] is PAIR && args[0]->cdr is Some)
}

/// `car`: the first slot of a pair.
pub open spec fn car_spec(args: Seq<ValueView>) -> Option<ValueView> {
    if args.len() == 1 && args[0] is PAIR && args[0]->car is Some {
        Some(*args[0]->car->0)
    } else {
        None
    }
}

/// `cdr`: the second slot of a pair.
pub open spec fn cdr_spec(args: Seq<ValueView>) -> Option<ValueView> {
    if args.len() == 1 && args[0] is PAIR && args[0]->cdr is Some {
        Some(*args[0]->cdr->0)
    } else {
        None
    }
}

/// What a builtin procedure returns on `args`; nothing where it does not apply.
pub open spec fn builtin_spec(b: Builtin, args: Seq<ValueView>) -> Option<ValueView> {
    match b {
        Builtin::EQV => eqv_spec(args),
        Builtin::IS_NUMBER => if_number_spec(args),
        Builtin::EQUAL => equal_number_spec(args),
        Builtin::PLUS => plus_number_spec(args),
        Builtin::MINUS => minus_number_spec(args),
        Builtin::TIMES => times_number_spec(args),
        Builtin::DIVIDE => divide_number_spec(args),
        Builtin::LESS => less_number_spec(args),
        Builtin::GREATER => greater_number_spec(args),
        Builtin::NOT => not_boolean_spec(args),
        Builtin::IS_BOOLEAN => if_boolean_spec(args),
        Builtin::IS_PAIR => if_pair_spec(args),
        Builtin::CONS => cons_spec(args),
        Builtin::CAR => car_spec(args),
        Builtin::CDR => cdr_spec(args),
        Builtin::IS_SYMBOL => if_symbol_spec(args),
        Builtin::IS_PROCEDURE => if_procedure_spec(args),
    }
}

/// The calls that end the session.
pub open spec fn builtin_fatal(b: Builtin, args: Seq<ValueView>) -> bool {
    (b == Builtin::CAR && car_fatal(args)) || (b == Builtin::CDR && cdr_fatal(args))
}

/// How the call of a builtin procedure ends.
pub open spec fn builtin_outcome(b: Builtin, args: Seq<ValueView>) -> Result<ValueView, EvalError> {
    if builtin_fatal(b, args) {
        Err(EvalError::Fatal)
    } else {
        match builtin_spec(b, args) {
            Some(v) => Ok(v),
            None => Err(EvalError::Misuse),
        }
    }
}

fn numbers(args: &Vec<Rc<Value>>) -> (r: Option<(i64, i64)>)
    ensures
        r == numbers_spec(values_view(args@)),
{
    if args.len() != 2 {
        return None;
    }
    match (&*args[0], &*args[1]) {
        (Value::PRIMITIVE(p), Value::PRIMITIVE(q)) => match (&**p, &**q) {
            (Primitive::NUMBER(a), Primitive::NUMBER(b)) => Some((*a, *b)),
            _ => None,
        },
        _ => None,
    }
}

fn primitive(args: &Vec<Rc<Value>>) -> (r: Option<Rc<Primitive>>)
    ensures
        agrees(r, primitive_spec(values_view(args@))),
{
    if args.len() != 1 {
        return None;
    }
    match &*args[0] {
        Value::PRIMITIVE(p) => Some(p.clone()),
        _ => None,
    }
}

/// `eqv?`: whether two values are structurally equal.
pub fn eqv(args: Vec<Rc<Value>>) -> (r: Option<Rc<Value>>)
    ensures
        agrees(r, eqv_spec(values_view(args@))),
{
    if args.len() != 2 {
        None
    } else {
        Some(Value::boolean(args[0].same(&args[1])))
    }
}

/// `number?`: whether a primitive is a number.
pub fn if_number(args: Vec<Rc<Value>>) -> (r: Option<Rc<Value>>)
    ensures
        agrees(r, if_number_spec(values_view(args@))),
{
    match primitive(&args) {
        Some(p) => match &*p {
            Primitive::NUMBER(_) => Some(Value::boolean(true)),
            _ => Some(Value::boolean(false)),
        },
        None => None,
    }
}

/// `=`: whether two numbers are the same.
pub fn equal_number(args: Vec<Rc<Value>>) -> (r: Option<Rc<Value>>)
    ensures
        agrees(r, equal_number_spec(values_view(args@))),
{
    match numbers(&args) {
        Some((a, b)) => Some(Value::boolean(a == b)),
        None => None,
    }
}

/// `<`: whether the first of two numbers is the smaller.
pub fn less_number(args: Vec<Rc<Value>>) -> (r: Option<Rc<Value>>)
    ensures
        agrees(r, less_number_spec(values_view(args@))),
{
    match numbers(&args) {
        Some((a, b)) => Some(Value::boolean(a < b)),
        None => None,
    }
}

/// `>`: whether the first of two numbers is the greater.
pub fn greater_number(args: Vec<Rc<Value>>) -> (r: Option<Rc<Value>>)
    ensures
        agrees(r, greater_number_spec(values_view(args@))),
{
    match numbers(&args) {
        Some((a, b)) => Some(Value::boolean(a > b)),
        None => None,
    }
}

/// `+`: the sum of two numbers, wrapped.
pub fn plus_number(args: Vec<Rc<Value>>) -> (r: Option<Rc<Value>>)
    ensures
        agrees(r, plus_number_spec(values_view(args@))),
{
    match numbers(&args) {
        Some((a, b)) => Some(Value::number(a.wrapping_add(b))),
        None => None,
    }
}

/// `-`: the difference of two numbers, wrapped.
pub fn minus_number(args: Vec<Rc<Value>>) -> (r: Option<Rc<Value>>)
    ensures
        agrees(r, minus_number_spec(values_view(args@))),
{
    match numbers(&args) {
        Some((a, b)) => Some(Value::number(a.wrapping_sub(b))),
        None => None,
    }
}

/// `*`: the product of two numbers, wrapped.
pub fn times_number(args: Vec<Rc<Value>>) -> (r: Option<Rc<Value>>)
    ensures
        agrees(r, times_number_spec(values_view(args@))),
{
    match numbers(&args) {
        Some((a, b)) => Some(Value::number(a.wrapping_mul(b))),
        None => None,
    }
}

/// The quotient of `a` by `b`, rounded towards zero and wrapped.
fn divide(a: i64, b: i64) -> (q: i64)
    requires
        b != 0,
    ensures
        q == wrap(quotient(a as int, b as int)),
{
    let x: i128 = if a < 0 {
        -(a as i128)
    } else {
        a as i128
    };
    let y: i128 = if b < 0 {
        -(b as i128)
    } else {
        b as i128
    };
    let m: i128 = x / y;
    assert(0 <= (x as int) / (y as int) <= x) by (nonlinear_arith)
        requires
            x >= 0,
            y >= 1,
    ;
    let q: i128 = if (a < 0) != (b < 0) {
        -m
    } else {
        m
    };
    assert(q == quotient(a as int, b as int));
    if q > 0x7fff_ffff_ffff_ffff {
        i64::MIN
    } else {
        q as i64
    }
}

/// `/`: the quotient of two numbers, rounded towards zero and wrapped. It
/// does not apply where the divisor is zero.
pub fn divide_number(args: Vec<Rc<Value>>) -> (r: Option<Rc<Value>>)
    ensures
        agrees(r, divide_number_spec(values_view(args@))),
{
    match numbers(&args) {
        Some((a, b)) => {
            if b == 0 {
                None
            } else {
                Some(Value::number(divide(a, b)))
            }
        },
        None => None,
    }
}

/// `!`: the negation of a boolean.
pub fn not_boolean(args: Vec<Rc<Value>>) -> (r: Option<Rc<Value>>)
    ensures
        agrees(r, not_boolean_spec(values_view(args@))),
{
    match primitive(&args) {
        Some(p) => match &*p {
            Primitive::BOOLEAN(b) => Some(Value::boolean(!*b)),
            _ => None,
        },
        None => None,
    }
}

/// `boolean?`: whether a primitive is a boolean.
pub fn if_boolean(args: Vec<Rc<Value>>) -> (r: Option<Rc<Value>>)
    ensures
        agrees(r, if_boolean_spec(values_view(args@))),
{
    match primitive(&args) {
        Some(p) => match &*p {
            Primitive::BOOLEAN(_) => Some(Value::boolean(true)),
            _ => Some(Value::boolean(false)),
        },
        None => None,
    }
}

/// `pair?`: whether a value is a pair.
pub fn if_pair(args: Vec<Rc<Value>>) -> (r: Option<Rc<Value>>)
    ensures
        agrees(r, if_pair_spec(values_view(args@))),
{
    if args.len() != 1 {
        None
    } else {
        match &*args[0] {
            Value::PAIR { car: _, cdr: _ } => Some(Value::boolean(true)),
            _ => Some(Value::boolean(false)),
        }
    }
}

/// `cons`: the pair of two values.
pub fn cons(args: Vec<Rc<Value>>) -> (r: Option<Rc<Value>>)
    ensures
        agrees(r, cons_spec(values_view(args@))),
{
    if args.len() != 2 {
        None
    } else {
        Some(Value::pair(args[0].clone(), args[1].clone()))
    }
}

/// Whether `car` can be called on `args` without ending the session.
pub fn car_applies(args: &Vec<Rc<Value>>) -> (b: bool)
    ensures
        b == !car_fatal(values_view(args@)),
{
    if args.len() != 1 {
        true
    } else {
        match &*args[0] {
            Value::PAIR { car: Some(_), cdr: _ } => true,
            _ => false,
        }
    }
}

/// Whether `cdr` can be called on `args` without ending the session.
pub fn cdr_applies(args: &Vec<Rc<Value>>) -> (b: bool)
    ensures
        b == !cdr_fatal(values_view(args@)),
{
    if args.len() != 1 {
        true
    } else {
        match &*args[0] {
            Value::PAIR { car: _, cdr: Some(_) } => true,
            _ => false,
        }
    }
}

/// `car`: the first slot of a pair. The caller sees to it that the one
/// argument is a pair with that slot: see [`car_applies`].
pub fn car(args: Vec<Rc<Value>>) -> (r: Option<Rc<Value>>)
    requires
        !car_fatal(values_view(args@)),
    ensures
        agrees(r, car_spec(values_view(args@))),
{
    if args.len() != 1 {
        None
    } else {
        match &*args[0] {
            Value::PAIR { car: Some(car), cdr: _ } => Some(car.clone()),
            _ => None,
        }
    }
}

/// `cdr`: the second slot of a pair. The caller sees to it that the one
/// argument is a pair with that slot: see [`cdr_applies`].
pub fn cdr(args: Vec<Rc<Value>>) -> (r: Option<Rc<Value>>)
    requires
        !cdr_fatal(values_view(args@)),
    ensures
        agrees(r, cdr_spec(values_view(args@))),
{
    if args.len() != 1 {
        None
    } else {
        match &*args[0] {
            Value::PAIR { car: _, cdr: Some(cdr) } => Some(cdr.clone()),
            _ => None,
        }
    }
}

/// `symbol?`: whether a primitive is a symbol.
pub fn if_symbol(args: Vec<Rc<Value>>) -> (r: Option<Rc<Value>>)
    ensures
        agrees(r, if_symbol_spec(values_view(args@))),
{
    match primitive(&args) {
        Some(p) => match &*p {
            Primitive::SYMBOL(_) => Some(Value::boolean(true)),
            _ => Some(Value::boolean(false)),
        },
        None => None,
    }
}

/// `procedure?`: whether a value is a closure or a builtin procedure.
pub fn if_procedure(args: Vec<Rc<Value>>) -> (r: Option<Rc<Value>>)
    ensures
        agrees(r, if_procedure_spec(values_view(args@))),
{
    if args.len() != 1 {
        None
    } else {
        match &*args[0] {
            Value::CLOSURE(_) => Some(Value::boolean(true)),
            Value::BUILTIN(_) => Some(Value::boolean(true)),
            _ => Some(Value::boolean(false)),
        }
    }
}

/// Calls a builtin procedure on `args`. `car` and `cdr` are called only where
/// they do not end the session; where they would, the failure says so.
pub fn apply_builtin(b: Builtin, args: Vec<Rc<Value>>) -> (r: Result<Rc<Value>, EvalError>)
    ensures
        match r {
            Ok(v) => builtin_outcome(b, values_view(args@)) == Ok::<ValueView, EvalError>(v@),
            Err(e) => builtin_outcome(b, values_view(args@)) == Err::<ValueView, EvalError>(e),
        },
{
    let found = match b {
        Builtin::EQV => eqv(args),
        Builtin::IS_NUMBER => if_number(args),
        Builtin::EQUAL => equal_number(args),
        Builtin::PLUS => plus_number(args),
        Builtin::MINUS => minus_number(args),
        Builtin::TIMES => times_number(args),
        Builtin::DIVIDE => divide_number(args),
        Builtin::LESS => less_number(args),
        Builtin::GREATER => greater_number(args),
        Builtin::NOT => not_boolean(args),
        Builtin::IS_BOOLEAN => if_boolean(args),
        Builtin::IS_PAIR => if_pair(args),
        Builtin::CONS => cons(args),
        Builtin::CAR => {
            if !car_applies(&args) {
                return Err(EvalError::Fatal);
            }
            car(args)
        },
        Builtin::CDR => {
            if !cdr_applies(&args) {
                return Err(EvalError::Fatal);
            }
            cdr(args)
        },
        Builtin::IS_SYMBOL => if_symbol(args),
        Builtin::IS_PROCEDURE => if_procedure(args),
    };
    match found {
        Some(v) => Ok(v),
        None => Err(EvalError::Misuse),
    }
}

} // verus!
