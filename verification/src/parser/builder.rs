//! From the reader's pieces to the syntax tree: the builder that computes
//! what the grammar says.

use crate::agrees;
use crate::parser::grammar::{
    atom_datum_spec, atom_self_spec, build_ast_spec, build_binding_spec, build_call_spec,
    build_compounds_spec, build_cond_spec, build_datum_spec, build_definition_spec,
    build_derived_spec, build_exp_spec, build_exps_spec, build_formals_spec, build_lambda_spec,
    build_let_spec, build_literal_spec, build_named_spec, build_top_spec, chain_spec, fold_spec,
    fold_step_spec, is_dot, is_dotted, is_else_clause, is_name, is_word, lit, Fold,
};
use crate::parser::number::{is_digit, read_number};
use crate::parser::reader::{read, sexps_view, to_chars, Sexp, SexpView};
use crate::parser::{
    definitions_view, exps_view, names_view, parse_spec, tops_view, Ast, Datum, DatumView, Exp,
    ExpView, Lambda, Primitive, Top,
};
use std::rc::Rc;
use vstd::prelude::*;
use vstd::string::*;

verus! {

/// A chain that fails from some piece on fails from every piece before it.
pub proof fn lemma_chain_fails(items: Seq<SexpView>, i: int, j: int, n: int, tail: DatumView)
    requires
        0 <= i <= j < n <= items.len(),
        chain_spec(items, j, n, tail) is None,
    ensures
        chain_spec(items, i, n, tail) is None,
    decreases j - i,
{
    if i < j {
        lemma_chain_fails(items, i + 1, j, n, tail);
    }
}

/// A fold that fails from some piece on fails from every piece before it.
pub proof fn lemma_fold_fails(
    kind: Fold,
    items: Seq<SexpView>,
    i: int,
    j: int,
    n: int,
    seed: ExpView,
)
    requires
        0 <= i <= j < n <= items.len(),
        fold_spec(kind, items, j, n, seed) is None,
    ensures
        fold_spec(kind, items, i, n, seed) is None,
    decreases j - i,
{
    if i < j {
        lemma_fold_fails(kind, items, i + 1, j, n, seed);
    }
}

/// The view of a list of pieces, piece by piece.
pub proof fn lemma_sexps_view(items: Seq<Sexp>)
    ensures
        sexps_view(items).len() == items.len(),
        forall|i: int| 0 <= i < items.len() ==> (#[trigger] sexps_view(items)[i]) == items[i]@,
{
}

/// Whether a piece is the word `word`.
pub fn word_is(s: &Sexp, word: &str) -> (b: bool)
    ensures
        b == is_word(s@, word@),
{
    match s {
        Sexp::ATOM(a) => {
            let w = String::from_str(word);
            *a == w
        },
        _ => false,
    }
}

fn is_digit_char(c: char) -> (b: bool)
    ensures
        b == is_digit(c),
{
    c >= '0' && c <= '9'
}

fn is_name_chars(chars: &Vec<char>) -> (b: bool)
    ensures
        b == is_name(chars@),
{
    if chars.len() == 0 {
        return false;
    }
    let c = chars[0];
    if is_digit_char(c) || c == '#' {
        return false;
    }
    if chars.len() == 1 && c == '.' {
        return false;
    }
    if chars.len() >= 2 && (c == '-' || c == '+') && is_digit_char(chars[1]) {
        return false;
    }
    true
}

fn build_self(chars: &Vec<char>) -> (r: Option<Primitive>)
    ensures
        agrees(r, atom_self_spec(chars@)),
{
    match read_number(chars) {
        Some(n) => Some(Primitive::NUMBER(n)),
        None => {
            if chars.len() == 2 && chars[0] == '#' && chars[1] == 't' {
                Some(Primitive::BOOLEAN(true))
            } else if chars.len() == 2 && chars[0] == '#' && chars[1] == 'f' {
                Some(Primitive::BOOLEAN(false))
            } else {
                None
            }
        },
    }
}

fn build_atom_datum(a: &String) -> (r: Option<Primitive>)
    ensures
        agrees(r, atom_datum_spec(a@)),
{
    let chars = to_chars(a.as_str());
    match build_self(&chars) {
        Some(p) => Some(p),
        None => {
            if is_name_chars(&chars) {
                Some(Primitive::SYMBOL(a.clone()))
            } else {
                None
            }
        },
    }
}

fn is_dot_piece(s: &Sexp) -> (b: bool)
    ensures
        b == is_dot(s@),
{
    match s {
        Sexp::ATOM(a) => {
            let chars = to_chars(a.as_str());
            chars.len() == 1 && chars[0] == '.'
        },
        _ => false,
    }
}

/// Builds the datum of a quoted list.
pub fn build_compounds(items: &Vec<Sexp>) -> (r: Option<Datum>)
    ensures
        agrees(r, build_compounds_spec(sexps_view(items@))),
    decreases items, 1nat,
{
    let n = items.len();
    let ghost view = sexps_view(items@);
    let dotted = n >= 3 && is_dot_piece(&items[n - 2]);
    assert(dotted == is_dotted(view));
    let stop: usize;
    let mut cur: Datum;
    if dotted {
        match build_datum(&items[n - 1]) {
            Some(tail) => {
                stop = n - 2;
                cur = tail;
            },
            None => {
                return None;
            },
        }
    } else {
        stop = n;
        cur = Datum::PRIMITIVE(Rc::new(Primitive::NIL));
    }
    let ghost tail = cur@;
    assert(view[n - 1] == items[n - 1]@ || n == 0);
    let mut i: usize = stop;
    while i > 0
        invariant
            i <= stop <= n,
            n == items.len(),
            view == sexps_view(items@),
            build_compounds_spec(view) == chain_spec(view, 0, stop as int, tail),
            chain_spec(view, i as int, stop as int, tail) == Some(cur@),
        decreases i,
    {
        i = i - 1;
        assert(view[i as int] == items[i as int]@);
        match build_datum(&items[i]) {
            Some(first) => {
                cur = Datum::pair(first, cur);
            },
            None => {
                proof {
                    assert(chain_spec(view, i as int, stop as int, tail) is None);
                    lemma_chain_fails(view, 0, i as int, stop as int, tail);
                }
                return None;
            },
        }
    }
    Some(cur)
}

/// Builds the datum that a piece of quoted data stands for.
pub fn build_datum(s: &Sexp) -> (r: Option<Datum>)
    ensures
        agrees(r, build_datum_spec(s@)),
    decreases s, 0nat,
{
    match s {
        Sexp::ATOM(a) => match build_atom_datum(a) {
            Some(p) => Some(Datum::primitive(p)),
            None => None,
        },
        Sexp::TEXT(t) => Some(Datum::primitive(Primitive::STRING(t.clone()))),
        Sexp::QUOTE(q) => build_datum(q),
        Sexp::LIST(items) => build_compounds(items),
    }
}

/// Builds the datum of a literal.
pub fn build_literal(s: &Sexp) -> (r: Option<Datum>)
    ensures
        agrees(r, build_literal_spec(s@)),
{
    match s {
        Sexp::ATOM(a) => {
            let chars = to_chars(a.as_str());
            match build_self(&chars) {
                Some(p) => Some(Datum::PRIMITIVE(Rc::new(p))),
                None => None,
            }
        },
        Sexp::TEXT(t) => Some(Datum::PRIMITIVE(Rc::new(Primitive::STRING(t.clone())))),
        Sexp::QUOTE(q) => build_datum(q),
        Sexp::LIST(items) => {
            proof {
                lemma_sexps_view(items@);
            }
            if items.len() == 2 && word_is(&items[0], "quote") {
                build_datum(&items[1])
            } else {
                None
            }
        },
    }
}

fn build_name(s: &Sexp) -> (r: Option<String>)
    ensures
        match r {
            Some(name) => s@ is ATOM && is_name(s@->ATOM_0) && name@ == s@->ATOM_0,
            None => !(s@ is ATOM && is_name(s@->ATOM_0)),
        },
{
    match s {
        Sexp::ATOM(a) => {
            let chars = to_chars(a.as_str());
            if is_name_chars(&chars) {
                Some(a.clone())
            } else {
                None
            }
        },
        _ => None,
    }
}

/// Builds the parameters of a procedure.
pub fn build_formals(s: &Sexp) -> (r: Option<(bool, Vec<String>)>)
    ensures
        match r {
            Some((ifvarlen, parameters)) => build_formals_spec(s@) == Some(
                (ifvarlen, names_view(parameters@)),
            ),
            None => build_formals_spec(s@) is None,
        },
{
    match s {
        Sexp::ATOM(_) => match build_name(s) {
            Some(name) => {
                let mut parameters: Vec<String> = Vec::new();
                parameters.push(name);
                assert(names_view(parameters@) =~= seq![s@->ATOM_0]);
                Some((true, parameters))
            },
            None => None,
        },
        Sexp::LIST(ps) => {
            let ghost view = sexps_view(ps@);
            proof {
                lemma_sexps_view(ps@);
            }
            let mut parameters: Vec<String> = Vec::new();
            let mut i: usize = 0;
            while i < ps.len()
                invariant
                    i <= ps.len(),
                    s@ == SexpView::LIST(view),
                    view == sexps_view(ps@),
                    view.len() == ps.len(),
                    parameters.len() == i,
                    forall|j: int|
                        0 <= j < i ==> (#[trigger] view[j]) is ATOM && is_name(view[j]->ATOM_0)
                            && parameters[j]@ == view[j]->ATOM_0,
                decreases ps.len() - i,
            {
                proof {
                    lemma_sexps_view(ps@);
                }
                match build_name(&ps[i]) {
                    Some(name) => {
                        parameters.push(name);
                    },
                    None => {
                        assert(!(view[i as int] is ATOM && is_name(view[i as int]->ATOM_0)));
                        return None;
                    },
                }
                i = i + 1;
            }
            assert(names_view(parameters@) =~= Seq::new(view.len(), |i: int| view[i]->ATOM_0));
            Some((false, parameters))
        },
        _ => None,
    }
}

/// Builds `(define name expression)`.
pub fn build_definition(s: &Sexp) -> (r: Option<(String, Exp)>)
    ensures
        match r {
            Some((name, e)) => build_definition_spec(s@) == Some((name@, e@)),
            None => build_definition_spec(s@) is None,
        },
    decreases s, 1nat,
{
    match s {
        Sexp::LIST(d) => {
            proof {
                lemma_sexps_view(d@);
            }
            if d.len() != 3 || !word_is(&d[0], "define") {
                return None;
            }
            match build_name(&d[1]) {
                Some(name) => match build_exp(&d[2]) {
                    Some(e) => Some((name, e)),
                    None => None,
                },
                None => None,
            }
        },
        _ => None,
    }
}

/// Builds `(name expression)`, a binding of `let`.
pub fn build_binding(s: &Sexp) -> (r: Option<(String, Exp)>)
    ensures
        match r {
            Some((name, e)) => build_binding_spec(s@) == Some((name@, e@)),
            None => build_binding_spec(s@) is None,
        },
    decreases s, 1nat,
{
    match s {
        Sexp::LIST(b) => {
            proof {
                lemma_sexps_view(b@);
            }
            if b.len() != 2 {
                return None;
            }
            match build_name(&b[0]) {
                Some(name) => match build_exp(&b[1]) {
                    Some(e) => Some((name, e)),
                    None => None,
                },
                None => None,
            }
        },
        _ => None,
    }
}

/// Expressions that fail up to some piece fail up to every piece behind it.
pub proof fn lemma_exps_fail(items: Seq<SexpView>, from: int, k: int, n: int)
    requires
        0 <= from < k <= n <= items.len(),
        build_exps_spec(items, from, k) is None,
    ensures
        build_exps_spec(items, from, n) is None,
    decreases n - k,
{
    if k < n {
        lemma_exps_fail(items, from, k, n - 1);
    }
}

/// Named expressions that fail up to some piece fail up to every piece behind it.
pub proof fn lemma_named_fail(bindings: bool, items: Seq<SexpView>, from: int, k: int, n: int)
    requires
        0 <= from < k <= n <= items.len(),
        build_named_spec(bindings, items, from, k) is None,
    ensures
        build_named_spec(bindings, items, from, n) is None,
    decreases n - k,
{
    if k < n {
        lemma_named_fail(bindings, items, from, k, n - 1);
    }
}

/// Builds the expressions that `items[from..]` stand for.
pub fn build_exps(items: &Vec<Sexp>, from: usize) -> (r: Option<Vec<Rc<Exp>>>)
    requires
        from <= items.len(),
    ensures
        match r {
            Some(exps) => build_exps_spec(sexps_view(items@), from as int, items.len() as int)
                == Some(exps_view(exps@)),
            None => build_exps_spec(sexps_view(items@), from as int, items.len() as int) is None,
        },
    decreases items, 0nat,
{
    let ghost view = sexps_view(items@);
    let mut exps: Vec<Rc<Exp>> = Vec::new();
    let mut i: usize = from;
    assert(exps_view(exps@) =~= Seq::<ExpView>::empty());
    while i < items.len()
        invariant
            from <= i <= items.len(),
            view == sexps_view(items@),
            build_exps_spec(view, from as int, i as int) == Some(exps_view(exps@)),
        decreases items.len() - i,
    {
        proof {
            lemma_sexps_view(items@);
        }
        match build_exp(&items[i]) {
            Some(e) => {
                let ghost before = exps@;
                exps.push(Rc::new(e));
                assert(exps_view(exps@) =~= exps_view(before).push(e@));
            },
            None => {
                proof {
                    assert(build_exps_spec(view, from as int, i + 1) is None);
                    lemma_exps_fail(view, from as int, i + 1, items.len() as int);
                }
                return None;
            },
        }
        i = i + 1;
    }
    Some(exps)
}

/// Builds the named expressions that `items[from..stop]` stand for.
pub fn build_named(bindings: bool, items: &Vec<Sexp>, from: usize, stop: usize) -> (r: Option<
    Vec<(String, Rc<Exp>)>,
>)
    requires
        from <= stop <= items.len(),
    ensures
        match r {
            Some(named) => build_named_spec(bindings, sexps_view(items@), from as int, stop as int)
                == Some(definitions_view(named@)),
            None => build_named_spec(bindings, sexps_view(items@), from as int, stop as int)
                is None,
        },
    decreases items, 0nat,
{
    let ghost view = sexps_view(items@);
    let mut named: Vec<(String, Rc<Exp>)> = Vec::new();
    let mut i: usize = from;
    assert(definitions_view(named@) =~= Seq::<(Seq<char>, ExpView)>::empty());
    while i < stop
        invariant
            from <= i <= stop <= items.len(),
            view == sexps_view(items@),
            build_named_spec(bindings, view, from as int, i as int) == Some(
                definitions_view(named@),
            ),
        decreases stop - i,
    {
        proof {
            lemma_sexps_view(items@);
        }
        let built = if bindings {
            build_binding(&items[i])
        } else {
            build_definition(&items[i])
        };
        match built {
            Some((name, e)) => {
                let ghost before = named@;
                named.push((name, Rc::new(e)));
                assert(definitions_view(named@) =~= definitions_view(before).push((name@, e@)));
            },
            None => {
                proof {
                    assert(build_named_spec(bindings, view, from as int, i + 1) is None);
                    lemma_named_fail(bindings, view, from as int, i + 1, stop as int);
                }
                return None;
            },
        }
        i = i + 1;
    }
    Some(named)
}

/// Builds a call from its pieces, the operator first.
pub fn build_call(items: &Vec<Sexp>) -> (r: Option<Exp>)
    ensures
        agrees(r, build_call_spec(sexps_view(items@))),
    decreases items, 1nat,
{
    proof {
        lemma_sexps_view(items@);
    }
    if items.len() == 0 {
        return None;
    }
    let operator = match build_exp(&items[0]) {
        Some(e) => e,
        None => {
            return None;
        },
    };
    match build_exps(items, 1) {
        Some(operands) => Some(Exp::call(operator, operands)),
        None => None,
    }
}

/// Builds the primitive conditional.
pub fn build_cond(items: &Vec<Sexp>) -> (r: Option<Exp>)
    ensures
        agrees(r, build_cond_spec(sexps_view(items@))),
    decreases items, 1nat,
{
    proof {
        lemma_sexps_view(items@);
    }
    if items.len() != 3 && items.len() != 4 {
        return None;
    }
    let test = match build_exp(&items[1]) {
        Some(e) => e,
        None => {
            return None;
        },
    };
    let consequent = match build_exp(&items[2]) {
        Some(e) => e,
        None => {
            return None;
        },
    };
    let alternative = if items.len() == 4 {
        match build_exp(&items[3]) {
            Some(e) => Some(e),
            None => {
                return None;
            },
        }
    } else {
        None
    };
    Some(Exp::cond(test, consequent, alternative))
}

/// Builds a procedure literal.
pub fn build_lambda(items: &Vec<Sexp>) -> (r: Option<Exp>)
    ensures
        agrees(r, build_lambda_spec(sexps_view(items@))),
    decreases items, 1nat,
{
    proof {
        lemma_sexps_view(items@);
    }
    let n = items.len();
    if n < 3 {
        return None;
    }
    let (ifvarlen, parameters) = match build_formals(&items[1]) {
        Some(formals) => formals,
        None => {
            return None;
        },
    };
    let definitions = match build_named(false, items, 2, n - 1) {
        Some(named) => named,
        None => {
            return None;
        },
    };
    let body = match build_exp(&items[n - 1]) {
        Some(e) => e,
        None => {
            return None;
        },
    };
    Some(Exp::literal(Datum::lambda(Lambda::new(ifvarlen, parameters, definitions, body))))
}

/// The expression that stands for a primitive.
pub fn literal(p: Primitive) -> (e: Exp)
    ensures
        e@ == lit(p@),
{
    Exp::literal(Datum::primitive(p))
}

/// Builds one step of a right fold.
pub fn fold_step(kind: Fold, item: &Sexp, rest: Exp) -> (r: Option<Exp>)
    ensures
        agrees(r, fold_step_spec(kind, item@, rest@)),
    decreases item, 2nat,
{
    match kind {
        Fold::Clauses => match item {
            Sexp::LIST(clause) => {
                proof {
                    lemma_sexps_view(clause@);
                }
                if clause.len() != 2 {
                    return None;
                }
                let test = match build_exp(&clause[0]) {
                    Some(e) => e,
                    None => {
                        return None;
                    },
                };
                let consequent = match build_exp(&clause[1]) {
                    Some(e) => e,
                    None => {
                        return None;
                    },
                };
                Some(Exp::cond(test, consequent, Some(rest)))
            },
            _ => None,
        },
        Fold::All => match build_exp(item) {
            Some(test) => Some(Exp::cond(test, rest, Some(literal(Primitive::BOOLEAN(false))))),
            None => None,
        },
        Fold::Any => match build_exp(item) {
            Some(test) => Some(Exp::cond(test, literal(Primitive::BOOLEAN(true)), Some(rest))),
            None => None,
        },
    }
}

/// Folds `items[first..stop]` from the right over `seed`.
pub fn build_fold(kind: Fold, items: &Vec<Sexp>, first: usize, stop: usize, seed: Exp) -> (r: Option<
    Exp,
>)
    requires
        first <= stop <= items.len(),
    ensures
        agrees(r, fold_spec(kind, sexps_view(items@), first as int, stop as int, seed@)),
    decreases items, 1nat,
{
    let ghost view = sexps_view(items@);
    let ghost seed_view = seed@;
    let mut current = seed;
    let mut i: usize = stop;
    while i > first
        invariant
            first <= i <= stop <= items.len(),
            view == sexps_view(items@),
            seed_view == seed@,
            fold_spec(kind, view, i as int, stop as int, seed_view) == Some(current@),
        decreases i,
    {
        i = i - 1;
        proof {
            lemma_sexps_view(items@);
        }
        match fold_step(kind, &items[i], current) {
            Some(e) => {
                current = e;
            },
            None => {
                proof {
                    assert(fold_spec(kind, view, i as int, stop as int, seed_view) is None);
                    lemma_fold_fails(kind, view, first as int, i as int, stop as int, seed_view);
                }
                return None;
            },
        }
    }
    Some(current)
}

fn is_else(s: &Sexp) -> (b: bool)
    ensures
        b == is_else_clause(s@),
{
    match s {
        Sexp::LIST(clause) => {
            proof {
                lemma_sexps_view(clause@);
            }
            clause.len() == 2 && word_is(&clause[0], "else")
        },
        _ => false,
    }
}

/// Builds `(let (binding*) body)`.
pub fn build_let(items: &Vec<Sexp>) -> (r: Option<Exp>)
    ensures
        agrees(r, build_let_spec(sexps_view(items@))),
    decreases items, 1nat,
{
    proof {
        lemma_sexps_view(items@);
    }
    if items.len() != 3 {
        return None;
    }
    match &items[1] {
        Sexp::LIST(bindings) => {
            let definitions = match build_named(true, bindings, 0, bindings.len()) {
                Some(named) => named,
                None => {
                    return None;
                },
            };
            let body = match build_exp(&items[2]) {
                Some(e) => e,
                None => {
                    return None;
                },
            };
            let parameters: Vec<String> = Vec::new();
            assert(names_view(parameters@) =~= Seq::<Seq<char>>::empty());
            Some(Exp::literal(Datum::lambda(Lambda::new(false, parameters, definitions, body))))
        },
        _ => None,
    }
}

/// Builds the expression that a derived form is rewritten into.
pub fn build_derived(items: &Vec<Sexp>) -> (r: Option<Exp>)
    ensures
        agrees(r, build_derived_spec(sexps_view(items@))),
    decreases items, 2nat,
{
    proof {
        lemma_sexps_view(items@);
    }
    let n = items.len();
    if n == 0 {
        None
    } else if word_is(&items[0], "cond") {
        if n >= 2 && is_else(&items[n - 1]) {
            match &items[n - 1] {
                Sexp::LIST(clause) => {
                    proof {
                        lemma_sexps_view(clause@);
                    }
                    match build_exp(&clause[1]) {
                        Some(seed) => build_fold(Fold::Clauses, items, 1, n - 1, seed),
                        None => None,
                    }
                },
                _ => None,
            }
        } else {
            build_fold(Fold::Clauses, items, 1, n, literal(Primitive::NIL))
        }
    } else if word_is(&items[0], "and") {
        build_fold(Fold::All, items, 1, n, literal(Primitive::BOOLEAN(true)))
    } else if word_is(&items[0], "or") {
        build_fold(Fold::Any, items, 1, n, literal(Primitive::BOOLEAN(false)))
    } else if word_is(&items[0], "let") {
        build_let(items)
    } else {
        None
    }
}

/// Builds the expression that a piece stands for.
pub fn build_exp(s: &Sexp) -> (r: Option<Exp>)
    ensures
        agrees(r, build_exp_spec(s@)),
    decreases s, 0nat,
{
    match s {
        Sexp::ATOM(_) => match build_name(s) {
            Some(name) => Some(Exp::identifier(name)),
            None => match build_literal(s) {
                Some(d) => Some(Exp::literal(d)),
                None => None,
            },
        },
        Sexp::LIST(items) => {
            proof {
                lemma_sexps_view(items@);
            }
            if items.len() == 0 {
                None
            } else if word_is(&items[0], "quote") {
                match build_literal(s) {
                    Some(d) => Some(Exp::literal(d)),
                    None => None,
                }
            } else if word_is(&items[0], "lambda") {
                build_lambda(items)
            } else if word_is(&items[0], "if") {
                build_cond(items)
            } else if word_is(&items[0], "cond") || word_is(&items[0], "and") || word_is(
                &items[0],
                "or",
            ) || word_is(&items[0], "let") {
                build_derived(items)
            } else if word_is(&items[0], "define") {
                None
            } else {
                build_call(items)
            }
        },
        _ => match build_literal(s) {
            Some(d) => Some(Exp::literal(d)),
            None => None,
        },
    }
}

/// Builds the top-level form that a piece stands for.
pub fn build_top(s: &Sexp) -> (r: Option<Top>)
    ensures
        agrees(r, build_top_spec(s@)),
{
    let defines = match s {
        Sexp::LIST(items) => {
            proof {
                lemma_sexps_view(items@);
            }
            items.len() >= 1 && word_is(&items[0], "define")
        },
        _ => false,
    };
    if defines {
        match build_definition(s) {
            Some((identifier, e)) => Some(Top::DEC { identifier, expression: Rc::new(e) }),
            None => None,
        }
    } else {
        match build_exp(s) {
            Some(e) => Some(Top::EXP { expression: Rc::new(e) }),
            None => None,
        }
    }
}

/// Builds the program that a sequence of pieces stands for.
pub fn build_ast(items: &Vec<Sexp>) -> (r: Option<Vec<Top>>)
    ensures
        match r {
            Some(tops) => build_ast_spec(sexps_view(items@)) == Some(tops_view(tops@)),
            None => build_ast_spec(sexps_view(items@)) is None,
        },
{
    let ghost view = sexps_view(items@);
    proof {
        lemma_sexps_view(items@);
    }
    let mut tops: Vec<Top> = Vec::new();
    let mut i: usize = 0;
    while i < items.len()
        invariant
            i <= items.len(),
            view == sexps_view(items@),
            view.len() == items.len(),
            tops.len() == i,
            forall|j: int| 0 <= j < i ==> (#[trigger] build_top_spec(view[j])) is Some,
            forall|j: int| 0 <= j < i ==> (#[trigger] tops[j])@ == build_top_spec(view[j])->0,
        decreases items.len() - i,
    {
        proof {
            lemma_sexps_view(items@);
        }
        match build_top(&items[i]) {
            Some(top) => {
                tops.push(top);
            },
            None => {
                assert(build_top_spec(view[i as int]) is None);
                return None;
            },
        }
        i = i + 1;
    }
    assert(tops_view(tops@) =~= build_ast_spec(view)->0);
    Some(tops)
}

/// The parser: a reader of nested lists followed by the builder of this file.
pub struct PestParser;

impl PestParser {
    /// The parser. It holds nothing.
    pub fn new() -> Self {
        Self {  }
    }

    /// Parses a program.
    pub fn parse(&self, program: &str) -> (r: Option<Ast>)
        ensures
            agrees(r, parse_spec(program@)),
    {
        match read(program) {
            Some(pieces) => match build_ast(&pieces) {
                Some(tops) => Some(Ast::new(tops)),
                None => None,
            },
            None => None,
        }
    }
}

} // verus!
