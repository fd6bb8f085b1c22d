use katsu::builtin::Builtin;
use katsu::interpreter::{apply, eval, eval_datum, eval_expr, Clojure, Env, EvalError, Value};
use katsu::parser::{parse, Datum, Exp, Lambda, Primitive, Top};
use katsu::{run, Error, Katsu, DEFAULT_DEPTH};
use std::rc::Rc;

/// The displays of what the forms of a program yield, one per form.
fn shown(program: &str) -> Vec<String> {
    let mut katsu = Katsu::new();
    let values = katsu.eval(program).unwrap();
    values
        .iter()
        .map(|v| match v {
            Some(v) => v.to_string(),
            None => "None".to_string(),
        })
        .collect()
}

/// The display of what the last form of a program yields.
fn last(program: &str) -> String {
    shown(program).pop().unwrap()
}

/// What the only form of a program does in a new environment.
fn outcome(program: &str) -> Result<Option<Rc<Value>>, EvalError> {
    let mut env = Env::get_initialized_env();
    let mut tops = parse(program).unwrap().tops;
    assert_eq!(tops.len(), 1);
    eval(tops.pop().unwrap(), &mut env, DEFAULT_DEPTH)
}

fn number(n: i64) -> Rc<Value> {
    Rc::new(Value::PRIMITIVE(Rc::new(Primitive::NUMBER(n))))
}

#[test]
fn square_of_five() {
    assert_eq!(shown("(define square (lambda (x) (* x x))) (square 5)"), vec!["None", "25"]);
}

#[test]
fn a_closure_keeps_the_frame_it_was_made_in() {
    assert_eq!(
        last("(define make-adder (lambda (x) (lambda (y) (+ x y)))) ((make-adder 3) 4)"),
        "7"
    );
    assert_eq!(
        shown(
            "(define make-adder (lambda (x) (lambda (y) (+ x y))))
             (define add3 (make-adder 3))
             (define add10 (make-adder 10))
             (add3 1)
             (add10 1)
             (add3 (add10 0))"
        ),
        vec!["None", "None", "None", "4", "11", "13"]
    );
}

#[test]
fn fib_of_ten() {
    assert_eq!(
        last(
            "(define fib (lambda (n) (if (= n 0) 0 (if (= n 1) 1 (+ (fib (- n 1)) (fib (- n 2)))))))
             (fib 10)"
        ),
        "55"
    );
}

#[test]
fn pairs_are_displayed_with_a_dot() {
    assert_eq!(last("(cons 1 2)"), "(1 . 2)");
    assert_eq!(last("(cons 1 (cons 2 3))"), "(1 . (2 . 3))");
    assert_eq!(last("(cons (cons 1 2) 3)"), "((1 . 2) . 3)");
    assert_eq!(last("'(1 2 3)"), "(1 . (2 . (3 . ())))");
    assert_eq!(last("'()"), "()");
}

#[test]
fn car_and_cdr_take_a_pair_apart() {
    assert_eq!(last("(car (cons 1 2))"), "1");
    assert_eq!(last("(cdr (cons 1 2))"), "2");
    assert_eq!(last("(car (cdr '(1 2 3)))"), "2");
    assert_eq!(last("(cdr (cdr (cdr '(1 2 3))))"), "()");
}

#[test]
fn a_list_is_displayed_as_nested_pairs() {
    assert_eq!(
        shown("(define list (lambda l l)) (list 1 2 3)"),
        vec!["None", "(1 . (2 . (3 . ())))"]
    );
}

#[test]
fn a_procedure_that_takes_a_list_gets_all_arguments() {
    assert_eq!(last("((lambda l l))"), "()");
    assert_eq!(last("((lambda l l) 1)"), "(1 . ())");
    assert_eq!(last("((lambda l l) 1 2)"), "(1 . (2 . ()))");
    assert_eq!(last("((lambda l (car l)) 7 8 9)"), "7");
    assert_eq!(last("((lambda l (car (cdr l))) 7 (+ 4 4) 9)"), "8");
    assert_eq!(last("((lambda l (eqv? l '())))"), "#t");
    assert_eq!(last("((lambda l (eqv? l '(1 2))) 1 2)"), "#t");
}

#[test]
fn values_are_displayed_as_written() {
    assert_eq!(last("5"), "5");
    assert_eq!(last("-5"), "-5");
    assert_eq!(last("#t"), "#t");
    assert_eq!(last("#f"), "#f");
    assert_eq!(last("\"a b\""), "\"a b\"");
    assert_eq!(last("'sym"), "sym");
    assert_eq!(last("(lambda (x) x)"), "#<closure>");
    assert_eq!(last("car"), "#<builtin>");
    assert_eq!(last("(cons car (lambda () 1))"), "(#<builtin> . #<closure>)");
    assert_eq!(Value::PAIR { car: None, cdr: None }.to_string(), "()");
    assert_eq!(Value::PAIR { car: Some(number(1)), cdr: None }.to_string(), "(1)");
    assert_eq!(Value::PAIR { car: None, cdr: Some(number(2)) }.to_string(), "(2)");
}

#[test]
fn results_are_joined_without_anything_between() {
    let mut katsu = Katsu::new();
    assert_eq!(katsu.eval_to_str("").unwrap(), "");
    assert_eq!(katsu.eval_to_str("1 2 (define x 3) x").unwrap(), "12None3");
    assert_eq!(katsu.eval_to_str("(cons x x) nothing").unwrap(), "(3 . 3)None");
}

#[test]
fn run_gives_the_last_result() {
    let mut katsu = Katsu::new();
    assert_eq!(run("", &mut katsu), Ok(None));
    assert_eq!(run("1 2 3", &mut katsu), Ok(Some(number(3))));
    assert_eq!(run("1 (define x 2)", &mut katsu), Ok(None));
    assert_eq!(run("x", &mut katsu), Ok(Some(number(2))));
    assert_eq!(run("(", &mut katsu), Err(Error::Parse));
    assert_eq!(run("(car 1) 5", &mut katsu), Err(Error::Eval(EvalError::Fatal)));
}

#[test]
fn definitions_last_from_one_program_to_the_next() {
    let mut katsu = Katsu::new();
    assert_eq!(katsu.eval("(define x 1)").unwrap(), vec![None]);
    assert_eq!(katsu.eval("(define y (+ x 1))").unwrap(), vec![None]);
    assert_eq!(katsu.eval("(+ x y)").unwrap(), vec![Some(number(3))]);
    assert_eq!(katsu.eval("(define x 10) (+ x y)").unwrap(), vec![None, Some(number(12))]);
}

#[test]
fn a_text_that_is_no_program_changes_nothing() {
    let mut katsu = Katsu::new();
    assert_eq!(katsu.eval("(define x 1) (").err(), Some(Error::Parse));
    assert_eq!(katsu.eval("x").unwrap(), vec![None]);
    assert_eq!(katsu.eval_to_str("(define x 1) 12ab").err(), Some(Error::Parse));
    assert_eq!(katsu.eval_all(")").err(), Some(Error::Parse));
    assert_eq!(katsu.eval("x").unwrap(), vec![None]);
}

#[test]
fn every_failure_has_its_cause() {
    assert_eq!(outcome("nothing"), Err(EvalError::Unbound));
    assert_eq!(outcome("(nothing 1)"), Err(EvalError::Unbound));
    assert_eq!(outcome("((lambda (x) x))"), Err(EvalError::Arity));
    assert_eq!(outcome("((lambda (x) x) 1 2)"), Err(EvalError::Arity));
    assert_eq!(outcome("((lambda () 1) 1)"), Err(EvalError::Arity));
    assert_eq!(outcome("(1 2)"), Err(EvalError::NotCallable));
    assert_eq!(outcome("(\"f\" 2)"), Err(EvalError::NotCallable));
    assert_eq!(outcome("('f 2)"), Err(EvalError::NotCallable));
    assert_eq!(outcome("((cons 1 2) 2)"), Err(EvalError::NotCallable));
    assert_eq!(outcome("(+ 1 #t)"), Err(EvalError::Misuse));
    assert_eq!(outcome("(+ 1)"), Err(EvalError::Misuse));
    assert_eq!(outcome("(+ 1 2 3)"), Err(EvalError::Misuse));
    assert_eq!(outcome("(/ 1 0)"), Err(EvalError::Misuse));
    assert_eq!(outcome("(! 1)"), Err(EvalError::Misuse));
    assert_eq!(outcome("(car)"), Err(EvalError::Misuse));
    assert_eq!(outcome("(car '(1) '(2))"), Err(EvalError::Misuse));
    assert_eq!(outcome("(define x (if #f 1))"), Err(EvalError::NoValue));
    assert_eq!(outcome("(define x (+ 1 (if #f 1)))"), Err(EvalError::NoValue));
    assert_eq!(outcome("(define x ((if 1 car) '(1)))"), Err(EvalError::NoValue));
    assert_eq!(outcome("(define x (if (if #f #t) 1 2))"), Err(EvalError::NoValue));
    assert_eq!(outcome("(car 1)"), Err(EvalError::Fatal));
    assert_eq!(outcome("(cdr '())"), Err(EvalError::Fatal));
    assert_eq!(outcome("(car car)"), Err(EvalError::Fatal));
    assert_eq!(outcome("(define x nothing)"), Err(EvalError::Unbound));
    assert_eq!(outcome("(define x 1)"), Ok(None));
    assert_eq!(outcome("(+ 1 2)"), Ok(Some(number(3))));
}

#[test]
fn a_failing_expression_yields_nothing_and_the_program_goes_on() {
    assert_eq!(shown("nothing 1"), vec!["None", "1"]);
    assert_eq!(shown("(+ 1 #t) 1"), vec!["None", "1"]);
    assert_eq!(shown("((lambda (x) x)) 1"), vec!["None", "1"]);
    assert_eq!(shown("(1 1) 1"), vec!["None", "1"]);
    assert_eq!(shown("(if #f 1) 1"), vec!["None", "1"]);
}

#[test]
fn a_failing_definition_ends_the_program() {
    let mut katsu = Katsu::new();
    assert_eq!(
        katsu.eval("(define a 1) (define x nothing) (define b 2)").err(),
        Some(Error::Eval(EvalError::Unbound))
    );
    assert_eq!(katsu.eval("a").unwrap(), vec![Some(number(1))]);
    assert_eq!(katsu.eval("x").unwrap(), vec![None]);
    assert_eq!(katsu.eval("b").unwrap(), vec![None]);
}

#[test]
fn car_of_what_is_no_pair_ends_the_program() {
    let mut katsu = Katsu::new();
    assert_eq!(
        katsu.eval("(define a 1) (car a) (define b 2)").err(),
        Some(Error::Eval(EvalError::Fatal))
    );
    assert_eq!(katsu.eval("b").unwrap(), vec![None]);
    assert_eq!(katsu.eval("(cdr 5)").err(), Some(Error::Eval(EvalError::Fatal)));
    assert_eq!(
        katsu.eval_to_str("(car (cdr '(1)))").err(),
        Some(Error::Eval(EvalError::Fatal))
    );
}

#[test]
fn nesting_is_bounded() {
    let mut katsu = Katsu::new();
    assert_eq!(
        katsu.eval("(define loop (lambda (n) (loop (+ n 1)))) (loop 0)").err(),
        Some(Error::Eval(EvalError::Depth))
    );
    assert_eq!(katsu.eval("(+ 1 2)").unwrap(), vec![Some(number(3))]);
    let mut small = Katsu::with_depth(3);
    assert_eq!(small.eval("1").unwrap(), vec![Some(number(1))]);
    assert_eq!(small.eval("(+ 1 2)").unwrap(), vec![Some(number(3))]);
    assert_eq!(small.eval("(+ 1 (+ 1 1))").unwrap(), vec![Some(number(3))]);
    assert_eq!(small.eval("(+ 1 (+ 1 (+ 1 1)))").err(), Some(Error::Eval(EvalError::Depth)));
    let mut none = Katsu::with_depth(0);
    assert_eq!(none.eval("1").err(), Some(Error::Eval(EvalError::Depth)));
    assert_eq!(none.eval("").unwrap(), vec![]);
}

#[test]
fn a_deep_recursion_within_the_bound_is_evaluated() {
    assert_eq!(
        last(
            "(define count (lambda (n) (if (= n 0) 0 (+ 1 (count (- n 1))))))
             (count 400)"
        ),
        "400"
    );
    let mut katsu = Katsu::new();
    assert_eq!(
        katsu
            .eval(
                "(define count (lambda (n) (if (= n 0) 0 (+ 1 (count (- n 1))))))
                 (count 600)"
            )
            .err(),
        Some(Error::Eval(EvalError::Depth))
    );
}

#[test]
fn only_true_is_true() {
    assert_eq!(last("(if #t 1 2)"), "1");
    assert_eq!(last("(if #f 1 2)"), "2");
    assert_eq!(last("(if 0 1 2)"), "2");
    assert_eq!(last("(if 1 1 2)"), "2");
    assert_eq!(last("(if '() 1 2)"), "2");
    assert_eq!(last("(if \"#t\" 1 2)"), "2");
    assert_eq!(last("(if (cons 1 2) 1 2)"), "2");
    assert_eq!(last("(if car 1 2)"), "2");
    assert_eq!(last("(if (lambda () #t) 1 2)"), "2");
    assert_eq!(last("(if (= 1 1) 1 2)"), "1");
}

#[test]
fn only_the_chosen_branch_is_evaluated() {
    assert_eq!(last("(if #t 1 (car 1))"), "1");
    assert_eq!(last("(if #f (car 1) 2)"), "2");
    assert_eq!(last("(and #f (car 1))"), "#f");
    assert_eq!(last("(or #t (car 1))"), "#t");
    assert_eq!(last("(cond (#t 1) ((car 1) 2))"), "1");
}

#[test]
fn operands_are_evaluated_from_left_to_right() {
    assert_eq!(outcome("(+ nothing (car 1))"), Err(EvalError::Unbound));
    assert_eq!(outcome("(+ (car 1) nothing)"), Err(EvalError::Fatal));
    assert_eq!(outcome("(nothing (car 1))"), Err(EvalError::Unbound));
    assert_eq!(outcome("((car 1) nothing)"), Err(EvalError::Fatal));
    assert_eq!(outcome("(1 (car 1))"), Err(EvalError::Fatal));
}

#[test]
fn derived_forms_evaluate_like_what_they_stand_for() {
    let pairs = [
        ("(and)", "#t"),
        ("(and #t #t)", "(if #t (if #t #t #f) #f)"),
        ("(and #t #f)", "(if #t (if #f #t #f) #f)"),
        ("(and #t 5)", "(if #t (if 5 #t #f) #f)"),
        ("(and nothing #t)", "(if nothing (if #t #t #f) #f)"),
        ("(or)", "#f"),
        ("(or #f #f)", "(if #f #t (if #f #t #f))"),
        ("(or #f #t)", "(if #f #t (if #t #t #f))"),
        ("(or 5 #t)", "(if 5 #t (if #t #t #f))"),
        ("(cond)", "'()"),
        ("(cond ((= 1 2) 1) ((= 1 1) 2))", "(if (= 1 2) 1 (if (= 1 1) 2 '()))"),
        ("(cond ((= 1 2) 1) ((= 1 3) 2))", "(if (= 1 2) 1 (if (= 1 3) 2 '()))"),
        ("(cond ((= 1 2) 1) (else 3))", "(if (= 1 2) 1 3)"),
        ("(let ((a 1) (b 2)) (+ a b))", "(lambda () (define a 1) (define b 2) (+ a b))"),
        ("((let ((a 1) (b 2)) (+ a b)))", "((lambda () (define a 1) (define b 2) (+ a b)))"),
        (
            "((let ((a 1) (b (+ a 1))) (* a b)))",
            "((lambda () (define a 1) (define b (+ a 1)) (* a b)))",
        ),
        ("((let () 7))", "((lambda () 7))"),
        ("(let ((a nothing)) 7)", "(lambda () (define a nothing) 7)"),
        ("((let ((a nothing)) 7))", "((lambda () (define a nothing) 7))"),
        ("((let ((a 1)) a) 2)", "((lambda () (define a 1) a) 2)"),
    ];
    for (derived, written) in pairs {
        let a = outcome(derived);
        let b = outcome(written);
        match (&a, &b) {
            (Ok(Some(x)), Ok(Some(y))) => assert_eq!(x.to_string(), y.to_string(), "{}", derived),
            _ => assert_eq!(a, b, "{}", derived),
        }
    }
    assert_eq!(last("(and #t #t)"), "#t");
    assert_eq!(last("(or #f #f)"), "#f");
    assert_eq!(last("(cond ((= 1 2) 1) ((= 1 1) 2))"), "2");
    assert_eq!(last("(cond ((= 1 2) 1) ((= 1 3) 2))"), "()");
    assert_eq!(last("(let ((a 1) (b (+ a 1))) (* a b))"), "#<closure>");
    assert_eq!(last("((let ((a 1) (b (+ a 1))) (* a b)))"), "2");
    assert_eq!(outcome("((let ((a nothing)) 7))"), Err(EvalError::Unbound));
    assert_eq!(outcome("((let ((a 1)) a) 2)"), Err(EvalError::Arity));
}

#[test]
fn names_bound_in_a_call_are_not_seen_outside() {
    assert_eq!(
        shown(
            "(define f (lambda (a) (define inner (+ a 1)) inner))
             (f 1)
             inner
             a"
        ),
        vec!["None", "2", "None", "None"]
    );
    assert_eq!(
        shown(
            "(define f (lambda (x) (define t 10) (+ x t)))
             (define t 99)
             (define x 5)
             (f 1)
             t
             x"
        ),
        vec!["None", "None", "None", "11", "99", "5"]
    );
    assert_eq!(shown("((let ((hidden 1)) hidden)) hidden"), vec!["1", "None"]);
    assert_eq!(shown("(let ((hidden 1)) hidden) hidden"), vec!["#<closure>", "None"]);
}

#[test]
fn a_body_sees_the_frame_of_its_closure_not_of_its_caller() {
    assert_eq!(
        shown(
            "(define x 1)
             (define g (lambda () x))
             (define h (lambda (x) (g)))
             (h 5)"
        ),
        vec!["None", "None", "None", "1"]
    );
    // A name defined after the closure was made, in the frame it was made in, is seen.
    assert_eq!(
        shown(
            "(define g (lambda () later))
             (g)
             (define later 3)
             (g)"
        ),
        vec!["None", "None", "None", "3"]
    );
    assert_eq!(
        shown(
            "(define x 1)
             (define g (lambda () x))
             (define x 2)
             (g)"
        ),
        vec!["None", "None", "None", "2"]
    );
}

#[test]
fn the_nearest_binding_wins() {
    assert_eq!(last("(define x 1) ((lambda (x) x) 2)"), "2");
    assert_eq!(last("(define x 1) ((lambda (x) ((lambda (x) x) 3)) 2)"), "3");
    assert_eq!(last("(define x 1) ((lambda () (define x 4) x))"), "4");
    assert_eq!(last("(define x 1) ((lambda (x) (define x 4) x) 2)"), "4");
    assert_eq!(last("(define x 1) ((lambda (x) x) 2) x"), "1");
    assert_eq!(last("(define car cdr) (car '(1 2))"), "(2 . ())");
    assert_eq!(last("((lambda (a a) a) 1 2)"), "2");
}

#[test]
fn internal_definitions_are_evaluated_in_order() {
    assert_eq!(last("((lambda () (define a 1) (define b (+ a 1)) (+ a b)))"), "3");
    assert_eq!(outcome("((lambda () (define a b) (define b 1) a))"), Err(EvalError::Unbound));
    assert_eq!(outcome("((lambda () (define a (car 1)) (define b nothing) a))"), Err(EvalError::Fatal));
    assert_eq!(
        last("((lambda (n) (define twice (lambda (x) (* 2 x))) (twice (twice n))) 3)"),
        "12"
    );
    assert_eq!(
        last(
            "((lambda ()
                (define even (lambda (n) (if (= n 0) #t (odd (- n 1)))))
                (define odd (lambda (n) (if (= n 0) #f (even (- n 1)))))
                (even 10)))"
        ),
        "#t"
    );
}

#[test]
fn a_new_environment_has_a_root_with_the_builtins() {
    let env = Env::get_initialized_env();
    assert_eq!(env.len(), 1);
    for name in [
        "eqv?", "number?", "=", "+", "-", "*", "/", "<", ">", "!", "boolean?", "pair?", "cons",
        "car", "cdr", "symbol?", "procedure?",
    ] {
        assert!(matches!(env.resolve(0, name).as_deref(), Some(Value::BUILTIN(_))), "{}", name);
    }
    assert!(matches!(env.resolve(0, "car").as_deref(), Some(Value::BUILTIN(Builtin::CAR))));
    assert!(matches!(env.resolve(0, "+").as_deref(), Some(Value::BUILTIN(Builtin::PLUS))));
    assert!(env.resolve(0, "list").is_none());
    assert!(env.resolve(0, "").is_none());
    let empty = Env::new();
    assert_eq!(empty.len(), 1);
    assert!(empty.resolve(0, "car").is_none());
}

#[test]
fn frames_resolve_along_their_parents() {
    let mut env = Env::new();
    env.insert(0, "x".to_string(), number(1));
    env.insert(0, "y".to_string(), number(2));
    let a = env.with_parent(0);
    let b = env.with_parent(a);
    let c = env.with_parent(0);
    assert_eq!((a, b, c, env.len()), (1, 2, 3, 4));
    env.insert(a, "x".to_string(), number(10));
    env.insert(b, "z".to_string(), number(30));
    assert_eq!(env.resolve(0, "x"), Some(number(1)));
    assert_eq!(env.resolve(a, "x"), Some(number(10)));
    assert_eq!(env.resolve(b, "x"), Some(number(10)));
    assert_eq!(env.resolve(c, "x"), Some(number(1)));
    assert_eq!(env.resolve(b, "y"), Some(number(2)));
    assert_eq!(env.resolve(b, "z"), Some(number(30)));
    assert_eq!(env.resolve(a, "z"), None);
    assert_eq!(env.resolve(c, "z"), None);
    assert_eq!(env.resolve(0, "z"), None);
    env.insert(a, "x".to_string(), number(11));
    assert_eq!(env.resolve(b, "x"), Some(number(11)));
    assert_eq!(env.resolve(0, "x"), Some(number(1)));
}

#[test]
fn evaluation_keeps_the_frames_that_its_result_needs() {
    let mut env = Env::get_initialized_env();
    let tops = parse(
        "(define f (lambda (x) (define y x) (lambda () y)))
         (define g (f 1))
         (g)
         (f 2)
         (cons 1 (f 3))
         ((f 4))
         (procedure? (f 5))",
    )
    .unwrap()
    .tops;
    let mut sizes = vec![env.len()];
    for top in tops {
        eval(top, &mut env, DEFAULT_DEPTH).unwrap();
        sizes.push(env.len());
    }
    assert_eq!(sizes, vec![1, 1, 2, 2, 3, 4, 4, 4]);
    assert!(env.resolve(0, "x").is_none());
    assert!(env.resolve(0, "y").is_none());
    assert_eq!(env.resolve(1, "y"), Some(number(1)));
    assert_eq!(env.resolve(2, "y"), Some(number(2)));
    assert_eq!(env.resolve(3, "y"), Some(number(3)));
}

#[test]
fn a_failing_evaluation_leaves_the_environment_as_it_was() {
    let mut env = Env::get_initialized_env();
    let mut tops = parse(
        "(define f (lambda (x) (lambda () x)))
         (f)
         ((f 1) 2)
         (+ (f 1) 1)
         (car (f 1))
         (+ 1 (if (f 1) 1))
         ((lambda () (define a (f 1)) (define b nothing) a))
         (define failed (cons (f 1) nothing))",
    )
    .unwrap()
    .tops;
    tops.reverse();
    assert_eq!(eval(tops.pop().unwrap(), &mut env, DEFAULT_DEPTH), Ok(None));
    let ends = [
        Err(EvalError::Arity),
        Err(EvalError::Arity),
        Err(EvalError::Misuse),
        Err(EvalError::Fatal),
        Ok(None),
        Err(EvalError::Unbound),
        Err(EvalError::Unbound),
    ];
    for end in ends {
        assert_eq!(eval(tops.pop().unwrap(), &mut env, DEFAULT_DEPTH), end);
        assert_eq!(env.len(), 1);
    }
    assert!(env.resolve(0, "failed").is_none());
}

#[test]
fn a_closure_outlives_the_calls_made_after_it() {
    assert_eq!(
        shown(
            "(define make-adder (lambda (x) (lambda (y) (+ x y))))
             (define fib (lambda (n) (if (< n 2) n (+ (fib (- n 1)) (fib (- n 2))))))
             (define add3 (make-adder 3))
             (fib 12)
             (add3 4)
             (define add5 (make-adder 5))
             (fib 12)
             (add3 (add5 1))"
        ),
        vec!["None", "None", "None", "144", "7", "None", "144", "9"]
    );
    let mut env = Env::get_initialized_env();
    let tops = parse(
        "(define fib (lambda (n) (if (< n 2) n (+ (fib (- n 1)) (fib (- n 2))))))
         (fib 15)",
    )
    .unwrap()
    .tops;
    for top in tops {
        eval(top, &mut env, DEFAULT_DEPTH).unwrap();
    }
    assert_eq!(env.len(), 1);
}

#[test]
fn expressions_are_evaluated_in_the_frame_given() {
    let mut env = Env::get_initialized_env();
    env.insert(0, "x".to_string(), number(1));
    let inner = env.with_parent(0);
    env.insert(inner, "x".to_string(), number(2));
    let x = Rc::new(Exp::IDENTIFIER("x".to_string()));
    assert_eq!(eval_expr(&x, 0, &mut env, 10), Ok(number(1)));
    assert_eq!(eval_expr(&x, inner, &mut env, 10), Ok(number(2)));
    assert_eq!(eval_expr(&x, inner, &mut env, 0), Err(EvalError::Depth));
    let sum = Rc::new(Exp::CALL {
        operator: Rc::new(Exp::IDENTIFIER("+".to_string())),
        operands: vec![x.clone(), x.clone()],
    });
    assert_eq!(eval_expr(&sum, inner, &mut env, 10), Ok(number(4)));
    assert_eq!(eval_expr(&sum, inner, &mut env, 2), Ok(number(4)));
    assert_eq!(eval_expr(&sum, inner, &mut env, 1), Err(EvalError::Depth));
    let top = Top::EXP { expression: sum };
    assert_eq!(eval(top, &mut env, 10), Ok(Some(number(2))));
}

#[test]
fn a_datum_becomes_a_value_of_the_same_shape() {
    let five = Rc::new(Datum::PRIMITIVE(Rc::new(Primitive::NUMBER(5))));
    assert_eq!(eval_datum(&five, 0), number(5));
    let cell = Rc::new(Datum::PAIR((Some(five.clone()), None)));
    assert_eq!(
        *eval_datum(&cell, 0),
        Value::PAIR { car: Some(number(5)), cdr: None }
    );
    let lambda = Rc::new(Lambda {
        ifvarlen: false,
        parameters: vec![],
        definitions: vec![],
        body: Rc::new(Exp::LITERIAL(five.clone())),
    });
    let template = Rc::new(Datum::LAMBDA(lambda));
    match &*eval_datum(&template, 3) {
        Value::CLOSURE(closure) => assert_eq!(closure.env, 3),
        other => panic!("no closure: {:?}", other),
    }
    // A template inside a pair becomes a closure too.
    let holder = Rc::new(Datum::PAIR((Some(template), Some(five))));
    match &*eval_datum(&holder, 2) {
        Value::PAIR { car: Some(car), cdr: Some(cdr) } => {
            assert!(matches!(&**car, Value::CLOSURE(c) if c.env == 2));
            assert_eq!(*cdr, number(5));
        }
        other => panic!("no pair: {:?}", other),
    }
}

#[test]
fn procedures_are_applied_to_values() {
    let mut env = Env::get_initialized_env();
    let plus = Rc::new(Value::BUILTIN(Builtin::PLUS));
    assert_eq!(apply(&plus, vec![number(1), number(2)], &mut env, 0), Ok(number(3)));
    assert_eq!(apply(&plus, vec![number(1)], &mut env, 5), Err(EvalError::Misuse));
    assert_eq!(apply(&number(1), vec![], &mut env, 5), Err(EvalError::NotCallable));
    let identity = Rc::new(Lambda {
        ifvarlen: false,
        parameters: vec!["x".to_string()],
        definitions: vec![],
        body: Rc::new(Exp::IDENTIFIER("x".to_string())),
    });
    let closure = Value::closure(identity.clone(), 0);
    assert_eq!(apply(&closure, vec![number(7)], &mut env, 5), Ok(number(7)));
    assert_eq!(env.len(), 1);
    let maker = Value::closure(
        Rc::new(Lambda {
            ifvarlen: false,
            parameters: vec!["x".to_string()],
            definitions: vec![],
            body: Rc::new(Exp::LITERIAL(Rc::new(Datum::LAMBDA(identity.clone())))),
        }),
        0,
    );
    match apply(&maker, vec![number(7)], &mut env, 5).as_deref() {
        Ok(Value::CLOSURE(made)) => assert_eq!(made.env, 1),
        other => panic!("no closure: {:?}", other),
    }
    assert_eq!(env.len(), 2);
    assert_eq!(apply(&closure, vec![number(7)], &mut env, 5), Ok(number(7)));
    assert_eq!(env.len(), 2);
    assert_eq!(apply(&closure, vec![number(7)], &mut env, 1), Err(EvalError::Depth));
    assert_eq!(apply(&closure, vec![number(7)], &mut env, 0), Err(EvalError::Depth));
    assert_eq!(apply(&closure, vec![], &mut env, 5), Err(EvalError::Arity));
    // A closure over a frame that the environment does not hold cannot be called.
    let stray = Rc::new(Value::CLOSURE(Rc::new(Clojure { proto: identity, env: 99 })));
    assert_eq!(apply(&stray, vec![number(7)], &mut env, 5), Err(EvalError::NotCallable));
    // A procedure that takes a list needs a name to bind it to.
    let nameless = Rc::new(Lambda {
        ifvarlen: true,
        parameters: vec![],
        definitions: vec![],
        body: Rc::new(Exp::IDENTIFIER("x".to_string())),
    });
    let closure = Value::closure(nameless, 0);
    assert_eq!(apply(&closure, vec![], &mut env, 5), Err(EvalError::Arity));
}

#[test]
fn forms_can_be_run_one_at_a_time() {
    let mut katsu = Katsu::new();
    let mut forms = katsu.eval_all("(define x 1) (+ x 1) nothing (car x) 5").unwrap();
    assert_eq!(forms.next(&mut katsu), Some(Ok("None".to_string())));
    assert_eq!(forms.next(&mut katsu), Some(Ok("2".to_string())));
    assert_eq!(forms.next(&mut katsu), Some(Ok("None".to_string())));
    assert_eq!(forms.next(&mut katsu), Some(Err(EvalError::Fatal)));
    assert_eq!(forms.next(&mut katsu), Some(Ok("5".to_string())));
    assert_eq!(forms.next(&mut katsu), None);
    assert_eq!(forms.next(&mut katsu), None);
    let mut none = katsu.eval_all("  ").unwrap();
    assert_eq!(none.next(&mut katsu), None);
}

#[test]
fn a_bound_that_is_not_reached_changes_nothing() {
    let program = "(define fib (lambda (n) (if (< n 2) n (+ (fib (- n 1)) (fib (- n 2))))))
                   (fib 8)
                   (cons (fib 3) '(a \"b\"))
                   nothing
                   (fib 1 2)";
    let expected = "None21(2 . (a . (\"b\" . ())))NoneNone";
    for depth in [40, 41, 100, 2000, 5000] {
        assert_eq!(Katsu::with_depth(depth).eval_to_str(program).unwrap(), expected, "{}", depth);
    }
    assert_eq!(
        Katsu::with_depth(30).eval_to_str(program).err(),
        Some(Error::Eval(EvalError::Depth))
    );
}

#[test]
fn quoted_data_are_displayed_like_their_values() {
    for text in ["5", "#t", "sym", "\"s\"", "()", "(1 2)", "(1 . 2)", "((a) b . c)"] {
        let program = format!("'{}", text);
        let mut tops = parse(&program).unwrap().tops;
        let datum = match tops.pop().unwrap() {
            Top::EXP { expression } => match &*expression {
                Exp::LITERIAL(datum) => datum.clone(),
                other => panic!("no literal: {:?}", other),
            },
            other => panic!("no expression: {:?}", other),
        };
        let value = eval_datum(&datum, 0);
        assert_eq!(value.to_string(), datum.to_string());
        assert_eq!(eval_datum(&datum, 7), value);
        assert_eq!(last(&program), datum.to_string());
    }
}

#[test]
fn a_conditional_without_a_value_yields_nothing() {
    assert_eq!(outcome("(if #f 1)"), Ok(None));
    assert_eq!(outcome("(if 1 1)"), Ok(None));
    assert_eq!(outcome("(if (cons 1 2) 1)"), Ok(None));
    assert_eq!(outcome("(if #t (if #f 1))"), Ok(None));
    assert_eq!(outcome("(if #f 1 (if #f 2))"), Ok(None));
    // What needs the value that is not there has none either.
    assert_eq!(outcome("(+ 1 (if #f 1))"), Ok(None));
    assert_eq!(outcome("(if (if #f #t) 1 2)"), Ok(None));
    let absent = Rc::new(Exp::COND {
        test: Rc::new(Exp::IDENTIFIER("car".to_string())),
        consequent: Rc::new(Exp::IDENTIFIER("car".to_string())),
        alternative: None,
    });
    let mut root = Env::get_initialized_env();
    assert_eq!(eval_expr(&absent, 0, &mut root, 10), Err(EvalError::NoValue));
    assert_eq!(outcome("(if #t 1)"), Ok(Some(number(1))));
    assert_eq!(outcome("(if nothing 1)"), Err(EvalError::Unbound));
    assert_eq!(shown("(if #f 1) 2"), vec!["None", "2"]);
    let mut env = Env::get_initialized_env();
    let mut tops = parse("(if ((lambda (x) (lambda () x)) 1) 1)").unwrap().tops;
    assert_eq!(eval(tops.pop().unwrap(), &mut env, DEFAULT_DEPTH), Ok(None));
    assert_eq!(env.len(), 1);
}

#[test]
fn derived_forms_are_displayed_like_what_they_stand_for() {
    let pairs = [
        ("(and #t #f)", "(if #t (if #f #t #f) #f)"),
        ("(or #f #t)", "(if #f #t (if #t #t #f))"),
        ("(cond ((= 1 2) 1) (else 3))", "(if (= 1 2) 1 3)"),
        ("(cond ((= 1 2) 1))", "(if (= 1 2) 1 '())"),
        ("(let ((x 1)) x)", "(lambda () (define x 1) x)"),
        ("((let ((x 1)) x))", "((lambda () (define x 1) x))"),
        ("(define f (let ((x 1)) x)) (f)", "(define f (lambda () (define x 1) x)) (f)"),
        ("(and (car 1) #t)", "(if (car 1) (if #t #t #f) #f)"),
        ("(define x (or nothing))", "(define x (if nothing #t #f))"),
    ];
    for (derived, written) in pairs {
        let mut first = Katsu::new();
        let mut second = Katsu::new();
        first.eval("(define shared 1)").unwrap();
        second.eval("(define shared 1)").unwrap();
        assert_eq!(first.eval_to_str(derived), second.eval_to_str(written), "{}", derived);
    }
    assert_eq!(Katsu::new().eval_to_str("(let ((x 1)) x)").unwrap(), "#<closure>");
    assert_eq!(Katsu::new().eval_to_str("(define f (let ((x 1)) x)) (f)").unwrap(), "None1");
}
