use katsu::builtin::{
    apply_builtin, car, car_applies, cdr, cdr_applies, cons, divide_number, equal_number, eqv,
    get_builtins, greater_number, if_boolean, if_number, if_pair, if_procedure, if_symbol,
    less_number, minus_number, not_boolean, plus_number, times_number, Builtin,
};
use katsu::interpreter::{EvalError, Value};
use katsu::parser::{Exp, Lambda, Primitive};
use katsu::Katsu;
use std::rc::Rc;

fn whole(n: i64) -> Rc<Value> {
    Value::number(n)
}

fn truth(b: bool) -> Rc<Value> {
    Value::boolean(b)
}

fn symbol(name: &str) -> Rc<Value> {
    Value::primitive(Primitive::SYMBOL(name.to_string()))
}

fn string(text: &str) -> Rc<Value> {
    Value::primitive(Primitive::STRING(text.to_string()))
}

fn nil() -> Rc<Value> {
    Value::primitive(Primitive::NIL)
}

fn closure() -> Rc<Value> {
    Value::closure(
        Rc::new(Lambda {
            ifvarlen: false,
            parameters: vec![],
            definitions: vec![],
            body: Rc::new(Exp::IDENTIFIER("x".to_string())),
        }),
        0,
    )
}

fn builtin() -> Rc<Value> {
    Rc::new(Value::BUILTIN(Builtin::CAR))
}

fn evaluated(program: &str) -> String {
    Katsu::new().eval_to_str(program).unwrap()
}

#[test]
fn the_table_has_every_builtin_once() {
    let table = get_builtins();
    let names: Vec<&str> = table.iter().map(|entry| entry.0).collect();
    assert_eq!(
        names,
        vec![
            "eqv?", "number?", "=", "+", "-", "*", "/", "<", ">", "!", "boolean?", "pair?",
            "cons", "car", "cdr", "symbol?", "procedure?"
        ]
    );
    let procedures: Vec<Builtin> = table.iter().map(|entry| entry.1).collect();
    assert_eq!(
        procedures,
        vec![
            Builtin::EQV,
            Builtin::IS_NUMBER,
            Builtin::EQUAL,
            Builtin::PLUS,
            Builtin::MINUS,
            Builtin::TIMES,
            Builtin::DIVIDE,
            Builtin::LESS,
            Builtin::GREATER,
            Builtin::NOT,
            Builtin::IS_BOOLEAN,
            Builtin::IS_PAIR,
            Builtin::CONS,
            Builtin::CAR,
            Builtin::CDR,
            Builtin::IS_SYMBOL,
            Builtin::IS_PROCEDURE,
        ]
    );
}

#[test]
fn numbers_are_compared() {
    for (a, b) in [(0, 0), (1, 2), (2, 1), (-1, 1), (i64::MIN, i64::MAX), (i64::MAX, i64::MAX)] {
        assert_eq!(equal_number(vec![whole(a), whole(b)]), Some(truth(a == b)));
        assert_eq!(less_number(vec![whole(a), whole(b)]), Some(truth(a < b)));
        assert_eq!(greater_number(vec![whole(a), whole(b)]), Some(truth(a > b)));
    }
    assert_eq!(evaluated("(= 3 3) (= 3 4) (< 3 4) (< 4 3) (> 4 3) (> 3 4)"), "#t#f#t#f#t#f");
}

#[test]
fn the_sum_less_one_part_is_the_other() {
    let numbers = [0, 1, -1, 7, -7, 1 << 40, i64::MAX, i64::MIN, i64::MAX - 1, i64::MIN + 1];
    for a in numbers {
        for b in numbers {
            let sum = plus_number(vec![whole(a), whole(b)]).unwrap();
            assert_eq!(sum, whole(a.wrapping_add(b)));
            assert_eq!(minus_number(vec![sum, whole(b)]), Some(whole(a)));
        }
    }
}

#[test]
fn arithmetic_wraps() {
    assert_eq!(plus_number(vec![whole(2), whole(3)]), Some(whole(5)));
    assert_eq!(plus_number(vec![whole(i64::MAX), whole(1)]), Some(whole(i64::MIN)));
    assert_eq!(plus_number(vec![whole(i64::MIN), whole(-1)]), Some(whole(i64::MAX)));
    assert_eq!(minus_number(vec![whole(2), whole(3)]), Some(whole(-1)));
    assert_eq!(minus_number(vec![whole(i64::MIN), whole(1)]), Some(whole(i64::MAX)));
    assert_eq!(minus_number(vec![whole(0), whole(i64::MIN)]), Some(whole(i64::MIN)));
    assert_eq!(times_number(vec![whole(6), whole(-7)]), Some(whole(-42)));
    assert_eq!(times_number(vec![whole(i64::MAX), whole(2)]), Some(whole(-2)));
    assert_eq!(times_number(vec![whole(i64::MIN), whole(-1)]), Some(whole(i64::MIN)));
    assert_eq!(times_number(vec![whole(1 << 32), whole(1 << 32)]), Some(whole(0)));
    assert_eq!(
        times_number(vec![whole(3_037_000_500), whole(3_037_000_500)]),
        Some(whole(3_037_000_500i64.wrapping_mul(3_037_000_500)))
    );
}

#[test]
fn division_rounds_towards_zero() {
    assert_eq!(divide_number(vec![whole(7), whole(2)]), Some(whole(3)));
    assert_eq!(divide_number(vec![whole(-7), whole(2)]), Some(whole(-3)));
    assert_eq!(divide_number(vec![whole(7), whole(-2)]), Some(whole(-3)));
    assert_eq!(divide_number(vec![whole(-7), whole(-2)]), Some(whole(3)));
    assert_eq!(divide_number(vec![whole(0), whole(5)]), Some(whole(0)));
    assert_eq!(divide_number(vec![whole(1), whole(5)]), Some(whole(0)));
    assert_eq!(divide_number(vec![whole(-1), whole(5)]), Some(whole(0)));
    assert_eq!(divide_number(vec![whole(i64::MIN), whole(1)]), Some(whole(i64::MIN)));
    assert_eq!(divide_number(vec![whole(i64::MIN), whole(-1)]), Some(whole(i64::MIN)));
    assert_eq!(divide_number(vec![whole(i64::MAX), whole(-1)]), Some(whole(-i64::MAX)));
    assert_eq!(divide_number(vec![whole(i64::MIN), whole(i64::MIN)]), Some(whole(1)));
    assert_eq!(divide_number(vec![whole(i64::MAX), whole(i64::MIN)]), Some(whole(0)));
    assert_eq!(divide_number(vec![whole(7), whole(0)]), None);
    assert_eq!(divide_number(vec![whole(0), whole(0)]), None);
}

#[test]
fn arithmetic_is_on_two_numbers() {
    let procedures: [fn(Vec<Rc<Value>>) -> Option<Rc<Value>>; 7] = [
        equal_number,
        less_number,
        greater_number,
        plus_number,
        minus_number,
        times_number,
        divide_number,
    ];
    for procedure in procedures {
        assert_eq!(procedure(vec![]), None);
        assert_eq!(procedure(vec![whole(1)]), None);
        assert_eq!(procedure(vec![whole(1), whole(2), whole(3)]), None);
        assert_eq!(procedure(vec![whole(1), truth(true)]), None);
        assert_eq!(procedure(vec![string("\"1\""), whole(1)]), None);
        assert_eq!(procedure(vec![nil(), nil()]), None);
        assert_eq!(procedure(vec![whole(1), cons(vec![whole(1), whole(2)]).unwrap()]), None);
        assert_eq!(procedure(vec![closure(), whole(1)]), None);
        assert!(procedure(vec![whole(1), whole(2)]).is_some());
    }
}

#[test]
fn eqv_is_structural() {
    assert_eq!(eqv(vec![whole(1), whole(1)]), Some(truth(true)));
    assert_eq!(eqv(vec![whole(1), whole(2)]), Some(truth(false)));
    assert_eq!(eqv(vec![truth(true), truth(true)]), Some(truth(true)));
    assert_eq!(eqv(vec![truth(true), truth(false)]), Some(truth(false)));
    assert_eq!(eqv(vec![symbol("a"), symbol("a")]), Some(truth(true)));
    assert_eq!(eqv(vec![symbol("a"), symbol("b")]), Some(truth(false)));
    assert_eq!(eqv(vec![string("\"a\""), string("\"a\"")]), Some(truth(true)));
    assert_eq!(eqv(vec![string("a"), symbol("a")]), Some(truth(false)));
    assert_eq!(eqv(vec![nil(), nil()]), Some(truth(true)));
    assert_eq!(eqv(vec![whole(1), truth(true)]), Some(truth(false)));
    assert_eq!(eqv(vec![whole(0), nil()]), Some(truth(false)));
    assert_eq!(eqv(vec![]), None);
    assert_eq!(eqv(vec![whole(1)]), None);
    assert_eq!(eqv(vec![whole(1), whole(1), whole(1)]), None);
}

#[test]
fn eqv_is_symmetric() {
    let values = [
        whole(1),
        whole(2),
        truth(true),
        symbol("a"),
        string("a"),
        nil(),
        Value::pair(whole(1), whole(2)),
        Value::pair(whole(1), nil()),
        closure(),
        builtin(),
    ];
    for a in &values {
        for b in &values {
            assert_eq!(eqv(vec![a.clone(), b.clone()]), eqv(vec![b.clone(), a.clone()]));
        }
    }
}

#[test]
fn pairs_are_equal_slot_by_slot() {
    assert_eq!(evaluated("(eqv? (cons 1 2) (cons 1 2))"), "#t");
    assert_eq!(evaluated("(eqv? (cons 1 2) (cons 1 3))"), "#f");
    assert_eq!(evaluated("(eqv? (cons 1 2) (cons 0 2))"), "#f");
    assert_eq!(evaluated("(eqv? '(1 (2 3) 4) '(1 (2 3) 4))"), "#t");
    assert_eq!(evaluated("(eqv? '(1 (2 3) 4) '(1 (2 5) 4))"), "#f");
    assert_eq!(evaluated("(eqv? '(1 2) '(1 2 3))"), "#f");
    assert_eq!(evaluated("(eqv? (cons 1 2) 1)"), "#f");
    let half = Rc::new(Value::PAIR { car: Some(whole(1)), cdr: None });
    let other = Rc::new(Value::PAIR { car: Some(whole(1)), cdr: None });
    let full = Value::pair(whole(1), nil());
    let bare = Rc::new(Value::PAIR { car: None, cdr: None });
    assert_eq!(eqv(vec![half.clone(), other]), Some(truth(true)));
    assert_eq!(eqv(vec![half.clone(), full]), Some(truth(false)));
    assert_eq!(eqv(vec![bare.clone(), bare.clone()]), Some(truth(true)));
    assert_eq!(eqv(vec![bare, half]), Some(truth(false)));
}

#[test]
fn a_procedure_is_equal_to_nothing() {
    let f = closure();
    assert_eq!(eqv(vec![f.clone(), f.clone()]), Some(truth(false)));
    assert_eq!(eqv(vec![f.clone(), closure()]), Some(truth(false)));
    assert_eq!(eqv(vec![builtin(), builtin()]), Some(truth(false)));
    assert_eq!(eqv(vec![f.clone(), whole(1)]), Some(truth(false)));
    assert_eq!(eqv(vec![Value::pair(f.clone(), whole(1)), Value::pair(f, whole(1))]), Some(truth(false)));
    assert_eq!(evaluated("(define f (lambda (x) x)) (eqv? f f)"), "None#f");
    assert_eq!(evaluated("(eqv? car car)"), "#f");
    assert_eq!(evaluated("(eqv? (lambda () 1) (lambda () 1))"), "#f");
    assert!(*closure() != *closure());
    assert!(*whole(1) == *whole(1));
}

#[test]
fn predicates_on_primitives_tell_the_kinds_apart() {
    let primitives = [whole(1), truth(false), symbol("a"), string("a"), nil()];
    let numbers = [true, false, false, false, false];
    let booleans = [false, true, false, false, false];
    let symbols = [false, false, true, false, false];
    for i in 0..primitives.len() {
        assert_eq!(if_number(vec![primitives[i].clone()]), Some(truth(numbers[i])));
        assert_eq!(if_boolean(vec![primitives[i].clone()]), Some(truth(booleans[i])));
        assert_eq!(if_symbol(vec![primitives[i].clone()]), Some(truth(symbols[i])));
    }
    let procedures: [fn(Vec<Rc<Value>>) -> Option<Rc<Value>>; 3] =
        [if_number, if_boolean, if_symbol];
    for procedure in procedures {
        assert_eq!(procedure(vec![]), None);
        assert_eq!(procedure(vec![whole(1), whole(2)]), None);
        assert_eq!(procedure(vec![Value::pair(whole(1), whole(2))]), None);
        assert_eq!(procedure(vec![closure()]), None);
        assert_eq!(procedure(vec![builtin()]), None);
    }
    assert_eq!(evaluated("(number? 1) (number? 'a) (boolean? #f) (symbol? 'a) (symbol? 1)"), "#t#f#t#t#f");
}

#[test]
fn not_is_on_a_boolean() {
    assert_eq!(not_boolean(vec![truth(true)]), Some(truth(false)));
    assert_eq!(not_boolean(vec![truth(false)]), Some(truth(true)));
    assert_eq!(not_boolean(vec![whole(0)]), None);
    assert_eq!(not_boolean(vec![nil()]), None);
    assert_eq!(not_boolean(vec![closure()]), None);
    assert_eq!(not_boolean(vec![]), None);
    assert_eq!(not_boolean(vec![truth(true), truth(true)]), None);
    assert_eq!(evaluated("(! #t) (! (= 1 2))"), "#f#t");
}

#[test]
fn predicates_on_values_take_every_value() {
    let values = [whole(1), nil(), Value::pair(whole(1), whole(2)), closure(), builtin()];
    let pairs = [false, false, true, false, false];
    let procedures = [false, false, false, true, true];
    for i in 0..values.len() {
        assert_eq!(if_pair(vec![values[i].clone()]), Some(truth(pairs[i])));
        assert_eq!(if_procedure(vec![values[i].clone()]), Some(truth(procedures[i])));
    }
    assert_eq!(if_pair(vec![]), None);
    assert_eq!(if_pair(vec![whole(1), whole(2)]), None);
    assert_eq!(if_procedure(vec![]), None);
    assert_eq!(if_procedure(vec![whole(1), whole(2)]), None);
    assert_eq!(
        evaluated("(pair? '(1)) (pair? '()) (procedure? car) (procedure? (lambda () 1)) (procedure? 1)"),
        "#t#f#t#t#f"
    );
}

#[test]
fn cons_makes_a_pair_of_any_two_values() {
    assert_eq!(
        cons(vec![whole(1), whole(2)]).as_deref(),
        Some(&Value::PAIR { car: Some(whole(1)), cdr: Some(whole(2)) })
    );
    assert_eq!(cons(vec![nil(), nil()]).unwrap().to_string(), "(() . ())");
    assert_eq!(cons(vec![closure(), builtin()]).unwrap().to_string(), "(#<closure> . #<builtin>)");
    assert_eq!(cons(vec![]), None);
    assert_eq!(cons(vec![whole(1)]), None);
    assert_eq!(cons(vec![whole(1), whole(2), whole(3)]), None);
}

#[test]
fn car_and_cdr_give_the_slots() {
    let cell = Value::pair(whole(1), whole(2));
    assert!(car_applies(&vec![cell.clone()]));
    assert!(cdr_applies(&vec![cell.clone()]));
    assert_eq!(car(vec![cell.clone()]), Some(whole(1)));
    assert_eq!(cdr(vec![cell.clone()]), Some(whole(2)));
    // With another number of arguments they do not apply, like every builtin.
    assert!(car_applies(&vec![]));
    assert!(cdr_applies(&vec![cell.clone(), cell.clone()]));
    assert_eq!(car(vec![]), None);
    assert_eq!(cdr(vec![cell.clone(), cell.clone()]), None);
    assert_eq!(car(vec![whole(1), whole(2)]), None);
}

#[test]
fn car_and_cdr_of_what_has_no_such_slot_are_fatal() {
    let only_car = Rc::new(Value::PAIR { car: Some(whole(1)), cdr: None });
    let only_cdr = Rc::new(Value::PAIR { car: None, cdr: Some(whole(2)) });
    assert!(car_applies(&vec![only_car.clone()]));
    assert!(!cdr_applies(&vec![only_car.clone()]));
    assert!(!car_applies(&vec![only_cdr.clone()]));
    assert!(cdr_applies(&vec![only_cdr.clone()]));
    for value in [whole(1), nil(), truth(true), closure(), builtin()] {
        assert!(!car_applies(&vec![value.clone()]));
        assert!(!cdr_applies(&vec![value.clone()]));
        assert_eq!(apply_builtin(Builtin::CAR, vec![value.clone()]), Err(EvalError::Fatal));
        assert_eq!(apply_builtin(Builtin::CDR, vec![value]), Err(EvalError::Fatal));
    }
    assert_eq!(apply_builtin(Builtin::CAR, vec![only_car.clone()]), Ok(whole(1)));
    assert_eq!(apply_builtin(Builtin::CDR, vec![only_car]), Err(EvalError::Fatal));
    assert_eq!(apply_builtin(Builtin::CAR, vec![only_cdr.clone()]), Err(EvalError::Fatal));
    assert_eq!(apply_builtin(Builtin::CDR, vec![only_cdr]), Ok(whole(2)));
    assert_eq!(apply_builtin(Builtin::CAR, vec![]), Err(EvalError::Misuse));
    assert_eq!(apply_builtin(Builtin::CDR, vec![whole(1), whole(2)]), Err(EvalError::Misuse));
}

#[test]
fn every_builtin_is_reached_by_its_name() {
    let cell = Value::pair(whole(6), whole(3));
    let cases: Vec<(Builtin, Vec<Rc<Value>>, Rc<Value>)> = vec![
        (Builtin::EQV, vec![whole(6), whole(6)], truth(true)),
        (Builtin::IS_NUMBER, vec![whole(6)], truth(true)),
        (Builtin::EQUAL, vec![whole(6), whole(3)], truth(false)),
        (Builtin::PLUS, vec![whole(6), whole(3)], whole(9)),
        (Builtin::MINUS, vec![whole(6), whole(3)], whole(3)),
        (Builtin::TIMES, vec![whole(6), whole(3)], whole(18)),
        (Builtin::DIVIDE, vec![whole(6), whole(3)], whole(2)),
        (Builtin::LESS, vec![whole(6), whole(3)], truth(false)),
        (Builtin::GREATER, vec![whole(6), whole(3)], truth(true)),
        (Builtin::NOT, vec![truth(true)], truth(false)),
        (Builtin::IS_BOOLEAN, vec![whole(6)], truth(false)),
        (Builtin::IS_PAIR, vec![cell.clone()], truth(true)),
        (Builtin::CONS, vec![whole(6), whole(3)], cell.clone()),
        (Builtin::CAR, vec![cell.clone()], whole(6)),
        (Builtin::CDR, vec![cell.clone()], whole(3)),
        (Builtin::IS_SYMBOL, vec![symbol("s")], truth(true)),
        (Builtin::IS_PROCEDURE, vec![whole(6)], truth(false)),
    ];
    assert_eq!(cases.len(), get_builtins().len());
    for (builtin, args, expected) in cases {
        assert_eq!(apply_builtin(builtin, args), Ok(expected), "{:?}", builtin);
        assert_eq!(apply_builtin(builtin, vec![whole(1), whole(2), whole(3)]), Err(EvalError::Misuse));
    }
    assert_eq!(
        evaluated("(eqv? 6 6) (number? 6) (= 6 3) (+ 6 3) (- 6 3) (* 6 3) (/ 6 3) (< 6 3) (> 6 3)"),
        "#t#t#f93182#f#t"
    );
}

#[test]
fn a_list_is_a_chain_of_pairs() {
    assert_eq!(Value::list(&vec![]), nil());
    assert_eq!(Value::list(&vec![whole(1)]), Value::pair(whole(1), nil()));
    assert_eq!(
        Value::list(&vec![whole(1), whole(2), whole(3)]),
        Value::pair(whole(1), Value::pair(whole(2), Value::pair(whole(3), nil())))
    );
}

#[test]
fn a_value_refers_to_the_frames_of_its_closures() {
    let over = |frame: usize| {
        Value::closure(
            Rc::new(Lambda {
                ifvarlen: false,
                parameters: vec![],
                definitions: vec![],
                body: Rc::new(Exp::IDENTIFIER("x".to_string())),
            }),
            frame,
        )
    };
    assert!(!whole(1).refers_from(0));
    assert!(!nil().refers_from(0));
    assert!(!builtin().refers_from(0));
    assert!(over(3).refers_from(0));
    assert!(over(3).refers_from(3));
    assert!(!over(3).refers_from(4));
    assert!(Value::pair(whole(1), over(3)).refers_from(3));
    assert!(Value::pair(over(3), whole(1)).refers_from(3));
    assert!(!Value::pair(over(3), over(2)).refers_from(4));
    assert!(Value::pair(whole(1), Value::pair(over(5), nil())).refers_from(4));
    assert!(!Value::PAIR { car: None, cdr: None }.refers_from(0));
    assert!(Value::PAIR { car: None, cdr: Some(over(1)) }.refers_from(1));
}

#[test]
fn a_long_list_is_walked_without_nesting() {
    let mut list = nil();
    for i in 0..300_000 {
        list = Value::pair(whole(i), list);
    }
    assert!(!list.refers_from(0));
    let holder = Value::pair(whole(0), list);
    assert!(!holder.refers_from(1));
    // Dropping so long a list would nest as deep as it is long.
    std::mem::forget(holder);
}
