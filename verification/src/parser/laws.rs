//! What the derived forms are rewritten into, stated as equations between
//! programs: a derived form builds the same expression as the conditional or
//! the procedure literal that one would write in its place, so that the two
//! cannot be told apart by evaluation.

use crate::parser::grammar::{
    build_binding_spec, build_cond_spec, build_definition_spec, build_derived_spec,
    build_exp_spec, build_formals_spec, build_lambda_spec, build_let_spec, build_named_spec,
    fold_spec, fold_step_spec, is_else_clause, is_word, lit, Fold,
};
use crate::parser::number::is_number_text;
use crate::parser::reader::SexpView;
use crate::parser::{ExpView, PrimitiveView};
use vstd::prelude::*;

verus! {

/// The piece that is the word `w`.
pub open spec fn word(w: Seq<char>) -> SexpView {
    SexpView::ATOM(w)
}

/// The piece that is the list of `items`.
pub open spec fn list(items: Seq<SexpView>) -> SexpView {
    SexpView::LIST(items)
}

/// The words by which the builder tells the forms apart differ from each other.
pub proof fn lemma_keywords()
    ensures
        "quote"@ =~= seq!['q', 'u', 'o', 't', 'e'],
        "lambda"@ =~= seq!['l', 'a', 'm', 'b', 'd', 'a'],
        "if"@ =~= seq!['i', 'f'],
        "cond"@ =~= seq!['c', 'o', 'n', 'd'],
        "and"@ =~= seq!['a', 'n', 'd'],
        "or"@ =~= seq!['o', 'r'],
        "let"@ =~= seq!['l', 'e', 't'],
        "define"@ =~= seq!['d', 'e', 'f', 'i', 'n', 'e'],
        "else"@ =~= seq!['e', 'l', 's', 'e'],
        "#t"@ =~= seq!['#', 't'],
        "#f"@ =~= seq!['#', 'f'],
{
    reveal_strlit("quote");
    reveal_strlit("lambda");
    reveal_strlit("if");
    reveal_strlit("cond");
    reveal_strlit("and");
    reveal_strlit("or");
    reveal_strlit("let");
    reveal_strlit("define");
    reveal_strlit("else");
    reveal_strlit("#t");
    reveal_strlit("#f");
}

/// The words `#t` and `#f` are the boolean literals.
pub proof fn lemma_booleans()
    ensures
        build_exp_spec(word("#t"@)) == Some(lit(PrimitiveView::BOOLEAN(true))),
        build_exp_spec(word("#f"@)) == Some(lit(PrimitiveView::BOOLEAN(false))),
{
    lemma_keywords();
    assert(!is_number_text("#t"@)) by {
        assert("#t"@[0] == '#');
    }
    assert(!is_number_text("#f"@)) by {
        assert("#f"@[0] == '#');
    }
    assert("#t"@[0] == '#' && "#t"@[1] == 't');
    assert("#f"@[0] == '#' && "#f"@[1] == 'f');
}

/// A fold sees only the pieces between its bounds: two lists that hold the
/// same pieces there, one of them shifted by `shift`, fold alike.
pub proof fn lemma_fold_shift(
    kind: Fold,
    a: Seq<SexpView>,
    b: Seq<SexpView>,
    i: int,
    n: int,
    shift: int,
    seed: ExpView,
)
    requires
        0 <= i <= n <= b.len(),
        0 <= i + shift,
        n + shift <= a.len(),
        forall|j: int| i <= j < n ==> a[j + shift] == b[j],
    ensures
        fold_spec(kind, a, i + shift, n + shift, seed) == fold_spec(kind, b, i, n, seed),
    decreases n - i,
{
    if i < n {
        lemma_fold_shift(kind, a, b, i + 1, n, shift, seed);
        assert(a[i + shift] == b[i]);
    }
}

/// `(and)` is `#t`, and `(and x rest ...)` is `(if x (and rest ...) #f)`.
pub proof fn law_and(x: SexpView, rest: Seq<SexpView>)
    ensures
        build_exp_spec(list(seq![word("and"@)])) == build_exp_spec(word("#t"@)),
        build_exp_spec(list(seq![word("and"@), x] + rest)) == build_exp_spec(
            list(seq![word("if"@), x, list(seq![word("and"@)] + rest), word("#f"@)]),
        ),
{
    lemma_keywords();
    lemma_booleans();
    let seed = lit(PrimitiveView::BOOLEAN(true));
    let none = seq![word("and"@)];
    assert(build_derived_spec(none) == Some(seed));
    let long = seq![word("and"@), x] + rest;
    let short = seq![word("and"@)] + rest;
    assert(is_word(long[0], "and"@) && is_word(short[0], "and"@));
    lemma_fold_shift(Fold::All, long, short, 1, short.len() as int, 1, seed);
    assert(long[1] == x);
    let tail = fold_spec(Fold::All, long, 2, long.len() as int, seed);
    assert(tail == build_derived_spec(short));
    assert(build_derived_spec(long) == match tail {
        Some(r) => fold_step_spec(Fold::All, x, r),
        None => None,
    });
    let written = seq![word("if"@), x, list(short), word("#f"@)];
    assert(written[1] == x);
    assert(is_word(written[0], "if"@));
    assert(build_exp_spec(list(written)) == build_cond_spec(written));
    assert(build_exp_spec(list(short)) == build_derived_spec(short));
    assert(build_exp_spec(list(long)) == build_derived_spec(long));
}

/// `(or)` is `#f`, and `(or x rest ...)` is `(if x #t (or rest ...))`.
pub proof fn law_or(x: SexpView, rest: Seq<SexpView>)
    ensures
        build_exp_spec(list(seq![word("or"@)])) == build_exp_spec(word("#f"@)),
        build_exp_spec(list(seq![word("or"@), x] + rest)) == build_exp_spec(
            list(seq![word("if"@), x, word("#t"@), list(seq![word("or"@)] + rest)]),
        ),
{
    lemma_keywords();
    lemma_booleans();
    let seed = lit(PrimitiveView::BOOLEAN(false));
    let none = seq![word("or"@)];
    assert(build_derived_spec(none) == Some(seed));
    let long = seq![word("or"@), x] + rest;
    let short = seq![word("or"@)] + rest;
    assert(is_word(long[0], "or"@) && is_word(short[0], "or"@));
    lemma_fold_shift(Fold::Any, long, short, 1, short.len() as int, 1, seed);
    assert(long[1] == x);
    let tail = fold_spec(Fold::Any, long, 2, long.len() as int, seed);
    assert(tail == build_derived_spec(short));
    assert(build_derived_spec(long) == match tail {
        Some(r) => fold_step_spec(Fold::Any, x, r),
        None => None,
    });
    let written = seq![word("if"@), x, word("#t"@), list(short)];
    assert(written[1] == x);
    assert(is_word(written[0], "if"@));
    assert(build_exp_spec(list(written)) == build_cond_spec(written));
    assert(build_exp_spec(list(short)) == build_derived_spec(short));
    assert(build_exp_spec(list(long)) == build_derived_spec(long));
}

/// `(cond (else e))` is `e`, and `(cond (test e) rest ...)` is
/// `(if test e (cond rest ...))`, where `(test e)` is not itself an `else`
/// clause that ends the form.
pub proof fn law_cond(test: SexpView, e: SexpView, rest: Seq<SexpView>)
    requires
        !(rest.len() == 0 && is_word(test, "else"@)),
    ensures
        build_exp_spec(list(seq![word("cond"@), list(seq![word("else"@), e])])) == build_exp_spec(
            e,
        ),
        build_exp_spec(list(seq![word("cond"@), list(seq![test, e])] + rest)) == build_exp_spec(
            list(seq![word("if"@), test, e, list(seq![word("cond"@)] + rest)]),
        ),
{
    lemma_keywords();
    let only = seq![word("cond"@), list(seq![word("else"@), e])];
    assert(is_word(only[0], "cond"@));
    assert(is_else_clause(only[1]));
    assert(build_exp_spec(list(only)) == build_derived_spec(only));
    assert(only[1]->LIST_0[1] == e);
    match build_exp_spec(e) {
        Some(seed) => {
            assert(fold_spec(Fold::Clauses, only, 1, 1, seed) == Some(seed));
        },
        None => {},
    }
    let clause = list(seq![test, e]);
    let long = seq![word("cond"@), clause] + rest;
    let short = seq![word("cond"@)] + rest;
    assert(is_word(long[0], "cond"@) && is_word(short[0], "cond"@));
    assert(long[1] == clause);
    assert(clause->LIST_0[0] == test && clause->LIST_0[1] == e);
    let written = seq![word("if"@), test, e, list(short)];
    assert(is_word(written[0], "if"@));
    assert(build_exp_spec(list(written)) == build_cond_spec(written));
    assert(build_exp_spec(list(short)) == build_derived_spec(short));
    assert(build_exp_spec(list(long)) == build_derived_spec(long));
    assert(written[1] == test && written[2] == e && written[3] == list(short));
    if rest.len() == 0 {
        let seed = lit(PrimitiveView::NIL);
        assert(!is_else_clause(long[long.len() - 1]));
        lemma_fold_shift(Fold::Clauses, long, short, 1, short.len() as int, 1, seed);
        let tail = fold_spec(Fold::Clauses, long, 2, long.len() as int, seed);
        assert(tail == build_derived_spec(short));
        assert(build_derived_spec(long) == match tail {
            Some(r) => fold_step_spec(Fold::Clauses, clause, r),
            None => None,
        });
    } else {
        assert(long[long.len() - 1] == short[short.len() - 1]);
        if is_else_clause(long[long.len() - 1]) {
            match build_exp_spec(long[long.len() - 1]->LIST_0[1]) {
                Some(seed) => {
                    lemma_fold_shift(Fold::Clauses, long, short, 1, short.len() - 1, 1, seed);
                    let tail = fold_spec(Fold::Clauses, long, 2, long.len() - 1, seed);
                    assert(tail == build_derived_spec(short));
                    assert(build_derived_spec(long) == match tail {
                        Some(r) => fold_step_spec(Fold::Clauses, clause, r),
                        None => None,
                    });
                },
                None => {},
            }
        } else {
            let seed = lit(PrimitiveView::NIL);
            lemma_fold_shift(Fold::Clauses, long, short, 1, short.len() as int, 1, seed);
            let tail = fold_spec(Fold::Clauses, long, 2, long.len() as int, seed);
            assert(tail == build_derived_spec(short));
            assert(build_derived_spec(long) == match tail {
                Some(r) => fold_step_spec(Fold::Clauses, clause, r),
                None => None,
            });
        }
    }
}

/// The bindings `(name expression)` of `let`, from names and expressions.
pub open spec fn bindings_of(names: Seq<Seq<char>>, exps: Seq<SexpView>) -> Seq<SexpView> {
    Seq::new(names.len(), |i: int| list(seq![word(names[i]), exps[i]]))
}

/// The definitions `(define name expression)`, from names and expressions.
pub open spec fn definitions_of(names: Seq<Seq<char>>, exps: Seq<SexpView>) -> Seq<SexpView> {
    Seq::new(names.len(), |i: int| list(seq![word("define"@), word(names[i]), exps[i]]))
}

/// Bindings and definitions of the same names and expressions build alike.
pub proof fn lemma_named_alike(
    names: Seq<Seq<char>>,
    exps: Seq<SexpView>,
    items: Seq<SexpView>,
    n: int,
)
    requires
        names.len() == exps.len(),
        0 <= n <= names.len(),
        items.len() >= names.len() + 2,
        forall|i: int| 0 <= i < names.len() ==> items[i + 2] == definitions_of(names, exps)[i],
    ensures
        build_named_spec(true, bindings_of(names, exps), 0, n) == build_named_spec(
            false,
            items,
            2,
            n + 2,
        ),
    decreases n,
{
    if n > 0 {
        lemma_named_alike(names, exps, items, n - 1);
        let binding = bindings_of(names, exps)[n - 1];
        let definition = items[n + 1];
        assert(definition == definitions_of(names, exps)[n - 1]);
        assert(binding->LIST_0[0] == word(names[n - 1]));
        assert(binding->LIST_0[1] == exps[n - 1]);
        assert(definition->LIST_0[0] == word("define"@));
        assert(definition->LIST_0[1] == word(names[n - 1]));
        assert(definition->LIST_0[2] == exps[n - 1]);
        assert(build_binding_spec(binding) == build_definition_spec(definition));
    }
}

/// `(let ((name expression) ...) body)` is
/// `(lambda () (define name expression) ... body)`.
pub proof fn law_let(names: Seq<Seq<char>>, exps: Seq<SexpView>, body: SexpView)
    requires
        names.len() == exps.len(),
    ensures
        build_exp_spec(list(seq![word("let"@), list(bindings_of(names, exps)), body]))
            == build_exp_spec(
            list(
                seq![word("lambda"@), list(Seq::empty())] + definitions_of(names, exps)
                    + seq![body],
            ),
        ),
{
    lemma_keywords();
    let derived = seq![word("let"@), list(bindings_of(names, exps)), body];
    let procedure = seq![word("lambda"@), list(Seq::empty())] + definitions_of(names, exps)
        + seq![body];
    let n = names.len() as int;
    assert(is_word(derived[0], "let"@));
    assert(build_exp_spec(list(derived)) == build_derived_spec(derived));
    assert(build_derived_spec(derived) == build_let_spec(derived));
    assert(derived[1]->LIST_0 == bindings_of(names, exps));
    assert(derived[2] == body);
    assert(is_word(procedure[0], "lambda"@));
    assert(build_exp_spec(list(procedure)) == build_lambda_spec(procedure));
    assert(procedure.len() == n + 3);
    assert(procedure[1] == list(Seq::empty()));
    assert(procedure[n + 2] == body);
    assert(build_formals_spec(procedure[1]) == Some((false, Seq::<Seq<char>>::empty()))) by {
        assert(Seq::new(0, |i: int| Seq::<SexpView>::empty()[i]->ATOM_0) =~= Seq::<
            Seq<char>,
        >::empty());
    }
    assert forall|i: int| 0 <= i < n implies procedure[i + 2] == definitions_of(names, exps)[i] by {}
    lemma_named_alike(names, exps, procedure, n);
}

} // verus!
