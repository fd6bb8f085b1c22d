use katsu::{Error, Katsu};
use regex::Regex;

fn cap_to_string(captures: &regex::Captures, i: usize) -> String {
    captures.get(i).unwrap().as_str().to_string()
}

const PROGRAM: &str = "(define square (lambda (x) (* x x))) ;=>None
(square 5) ;=>25
(define make-adder (lambda (x) (lambda (y) (+ x y)))) ;=>None
((make-adder 3) 4) ;=>7
(define fib (lambda (n) (if (= n 0) 0 (if (= n 1) 1 (+ (fib (- n 1)) (fib (- n 2))))))) ;=>None
(fib 10) ;=>55
(cons 1 2) ;=>(1 . 2)
(car (cons 1 2)) ;=>1
(cdr (cons 1 2)) ;=>2
(define list (lambda l l)) ;=>None
(list 1 2 3) ;=>(1 . (2 . (3 . ())))
(list) ;=>()
(eqv? (cons 1 2) (cons 1 2)) ;=>#t
(eqv? (cons 1 2) (cons 1 3)) ;=>#f
(eqv? square square) ;=>#f
(and 1 2) ;=>#f
(and #t #t) ;=>#t
(or #f #t) ;=>#t
(cond ((= 1 2) 10) ((= 1 1) 20) (else 30)) ;=>20
(cond ((= 1 2) 10) (else 30)) ;=>30
(cond ((= 1 2) 10)) ;=>()
(procedure? (let ((a 2) (b 3)) (* a b))) ;=>#t
((let ((a 2) (b 3)) (* a b))) ;=>6
'(1 2 . 3) ;=>(1 . (2 . 3))
(quote sym) ;=>sym
\"text\" ;=>\"text\"
(if #f 1) ;=>None
(- 0 7) ;=>-7
(/ -7 2) ;=>-3
";

#[test]
fn run_all_test() {
    let mut katsu = Katsu::new();
    let tests = PROGRAM;
    // the value after ; in each line is the expected result
    let mut res = katsu.eval_all(tests).unwrap();
    let re = Regex::new(r"(.*);.*>(.*)\n").unwrap();
    let mut count = 0;
    for (i, (expr, expected)) in re
        .captures_iter(tests)
        .map(|c| (cap_to_string(&c, 1), cap_to_string(&c, 2)))
        .enumerate()
    {
        let actual = res.next(&mut katsu).unwrap().unwrap();
        println!("epxr{}:{} => expected: {}, actual: {}", i, expr, expected, actual);
        assert_eq!(expected, actual);
        println!("    \x1b[32mtest {} pass!\x1b[0m", i);
        count += 1;
    }
    assert_eq!(count, 29);
    assert!(res.next(&mut katsu).is_none());
}

#[test]
fn test() {
    let mut katsu = Katsu::new();
    let prelude = "(define list (lambda l l))";
    let test = "(list 1 2 3)";
    katsu.eval(prelude).unwrap();
    let res = katsu.eval_to_str(test).unwrap();
    println!("{}", res);
    assert_eq!(res, "(1 . (2 . (3 . ())))");
}

#[test]
fn parse_error_is_reported() {
    let mut katsu = Katsu::new();
    assert_eq!(katsu.eval("(+ 1 2").err(), Some(Error::Parse));
    assert_eq!(katsu.eval("(+ 1 2))").err(), Some(Error::Parse));
    assert_eq!(katsu.eval_to_str("(+ 1 2)").unwrap(), "3");
}
