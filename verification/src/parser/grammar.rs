//! What the pieces of a program mean: which expression, datum or top-level
//! form each of them stands for, and which stand for nothing.
//!
//! The special forms are told apart by their first word. The derived ones
//! (`cond`, `and`, `or`, `let`) are rewritten into conditionals and procedure
//! literals, so that nothing but the four shapes of an expression is left to
//! evaluate.
//!
//! ```text
//! program     form*
//! form        (define name expression) | expression
//! expression  name | number | #t | #f | "string" | 'datum | (quote datum)
//!             | (lambda formals definition* expression)
//!             | (if expression expression expression?)
//!             | (cond clause* else?) | (and expression*) | (or expression*)
//!             | (let (binding*) expression)
//!             | (expression expression*)
//! formals     (name*) | name
//! definition  (define name expression)
//! clause      (expression expression)
//! else        (else expression)
//! binding     (name expression)
//! datum       number | #t | #f | "string" | name | 'datum
//!             | (datum*) | (datum datum* . datum)
//! ```
//!
//! A name is a word that does not begin like a number or with `#` and is not
//! the single dot. A number is a run of digits with at most one sign in front;
//! it must fit the machine's integers.

use crate::parser::number::{is_digit, is_sign, read_number_spec};
use crate::parser::reader::SexpView;
use crate::parser::{DatumView, ExpView, LambdaView, PrimitiveView, TopView};
use vstd::prelude::*;

verus! {


/// The piece is the word `word`.
pub open spec fn is_word(s: SexpView, word: Seq<char>) -> bool {
    s is ATOM && s->ATOM_0 == word
}

/// A word that begins like a number: a digit, or a sign and a digit.
pub open spec fn starts_number(a: Seq<char>) -> bool {
    a.len() >= 1 && (is_digit(a[0]) || (a.len() >= 2 && is_sign(a[0]) && is_digit(a[1])))
}

/// A word can name something when it does not begin like a number or with `#`
/// and is not the single dot.
pub open spec fn is_name(a: Seq<char>) -> bool {
    a.len() >= 1 && !starts_number(a) && a[0] != '#' && !(a.len() == 1 && a[0] == '.')
}

/// What a word is as a literal: a number that fits, `#t` or `#f`.
pub open spec fn atom_self_spec(a: Seq<char>) -> Option<PrimitiveView> {
    match read_number_spec(a) {
        Some(n) => Some(PrimitiveView::NUMBER(n)),
        None => if a.len() == 2 && a[0] == '#' && a[1] == 't' {
            Some(PrimitiveView::BOOLEAN(true))
        } else if a.len() == 2 && a[0] == '#' && a[1] == 'f' {
            Some(PrimitiveView::BOOLEAN(false))
        } else {
            None
        },
    }
}

/// What a word is as quoted data: a literal, or else a symbol.
pub open spec fn atom_datum_spec(a: Seq<char>) -> Option<PrimitiveView> {
    match atom_self_spec(a) {
        Some(p) => Some(p),
        None => if is_name(a) {
            Some(PrimitiveView::SYMBOL(a))
        } else {
            None
        },
    }
}

/// The datum that a piece of quoted data stands for. A quotation mark inside
/// quoted data changes nothing.
pub open spec fn build_datum_spec(s: SexpView) -> Option<DatumView>
    decreases s, 0nat,
{
    match s {
        SexpView::ATOM(a) => match atom_datum_spec(a) {
            Some(p) => Some(DatumView::PRIMITIVE(p)),
            None => None,
        },
        SexpView::TEXT(t) => Some(DatumView::PRIMITIVE(PrimitiveView::STRING(t))),
        SexpView::QUOTE(q) => build_datum_spec(*q),
        SexpView::LIST(items) => build_compounds_spec(items),
    }
}

/// The pieces `items[i..n]` as a chain of pairs that ends in `tail`.
pub open spec fn chain_spec(items: Seq<SexpView>, i: int, n: int, tail: DatumView) -> Option<
    DatumView,
>
    decreases items, n - i,
{
    if 0 <= i < n <= items.len() {
        match (build_datum_spec(items[i]), chain_spec(items, i + 1, n, tail)) {
            (Some(first), Some(rest)) => Some(
                DatumView::PAIR(Some(Box::new(first)), Some(Box::new(rest))),
            ),
            _ => None,
        }
    } else {
        Some(tail)
    }
}

/// The piece is the single dot.
pub open spec fn is_dot(s: SexpView) -> bool {
    s is ATOM && s->ATOM_0.len() == 1 && s->ATOM_0[0] == '.'
}

/// A list with a dot before its last piece.
pub open spec fn is_dotted(items: Seq<SexpView>) -> bool {
    items.len() >= 3 && is_dot(items[items.len() - 2])
}

/// The datum of a quoted list: a chain of pairs that ends in nil, or, where a
/// dot stands before the last piece, in that piece.
pub open spec fn build_compounds_spec(items: Seq<SexpView>) -> Option<DatumView>
    decreases items, items.len() + 1,
{
    if is_dotted(items) {
        match build_datum_spec(items[items.len() - 1]) {
            Some(tail) => chain_spec(items, 0, items.len() - 2, tail),
            None => None,
        }
    } else {
        chain_spec(items, 0, items.len() as int, DatumView::PRIMITIVE(PrimitiveView::NIL))
    }
}

/// The datum of a literal: a number, a boolean, a string, or quoted data
/// written with a quotation mark or with `quote`.
pub open spec fn build_literal_spec(s: SexpView) -> Option<DatumView> {
    match s {
        SexpView::ATOM(a) => match atom_self_spec(a) {
            Some(p) => Some(DatumView::PRIMITIVE(p)),
            None => None,
        },
        SexpView::TEXT(t) => Some(DatumView::PRIMITIVE(PrimitiveView::STRING(t))),
        SexpView::QUOTE(q) => build_datum_spec(*q),
        SexpView::LIST(items) => if items.len() == 2 && is_word(items[0], "quote"@) {
            build_datum_spec(items[1])
        } else {
            None
        },
    }
}

/// The expression that stands for a primitive.
pub open spec fn lit(p: PrimitiveView) -> ExpView {
    ExpView::LITERIAL(DatumView::PRIMITIVE(p))
}

/// The three right folds of the derived forms.
#[derive(Clone, Copy, Debug)]
pub enum Fold {
    /// The clauses of `cond`.
    Clauses,
    /// The operands of `and`.
    All,
    /// The operands of `or`.
    Any,
}

/// The parameters of a procedure: a list of names, or one name that takes all
/// arguments. The flag says which.
pub open spec fn build_formals_spec(s: SexpView) -> Option<(bool, Seq<Seq<char>>)> {
    match s {
        SexpView::ATOM(a) => if is_name(a) {
            Some((true, seq![a]))
        } else {
            None
        },
        SexpView::LIST(ps) => if forall|i: int|
            0 <= i < ps.len() ==> (#[trigger] ps[i]) is ATOM && is_name(ps[i]->ATOM_0) {
            Some((false, Seq::new(ps.len(), |i: int| ps[i]->ATOM_0)))
        } else {
            None
        },
        _ => None,
    }
}

/// The expression that a piece stands for.
pub open spec fn build_exp_spec(s: SexpView) -> Option<ExpView>
    decreases s, 0nat,
{
    match s {
        SexpView::ATOM(a) => if is_name(a) {
            Some(ExpView::IDENTIFIER(a))
        } else {
            match build_literal_spec(s) {
                Some(d) => Some(ExpView::LITERIAL(d)),
                None => None,
            }
        },
        SexpView::LIST(items) => if items.len() == 0 {
            None
        } else if is_word(items[0], "quote"@) {
            match build_literal_spec(s) {
                Some(d) => Some(ExpView::LITERIAL(d)),
                None => None,
            }
        } else if is_word(items[0], "lambda"@) {
            build_lambda_spec(items)
        } else if is_word(items[0], "if"@) {
            build_cond_spec(items)
        } else if is_derived(items[0]) {
            build_derived_spec(items)
        } else if is_word(items[0], "define"@) {
            None
        } else {
            build_call_spec(items)
        },
        _ => match build_literal_spec(s) {
            Some(d) => Some(ExpView::LITERIAL(d)),
            None => None,
        },
    }
}

/// The first word of a derived form.
pub open spec fn is_derived(s: SexpView) -> bool {
    is_word(s, "cond"@) || is_word(s, "and"@) || is_word(s, "or"@) || is_word(s, "let"@)
}

/// A call: every piece is an expression, the first of them the operator.
pub open spec fn build_call_spec(items: Seq<SexpView>) -> Option<ExpView>
    decreases items, items.len() + 1,
{
    if items.len() >= 1 {
        match (build_exp_spec(items[0]), build_exps_spec(items, 1, items.len() as int)) {
            (Some(operator), Some(operands)) => Some(
                ExpView::CALL { operator: Box::new(operator), operands },
            ),
            _ => None,
        }
    } else {
        None
    }
}

/// The expressions that the pieces `items[from..n]` stand for, in order.
pub open spec fn build_exps_spec(items: Seq<SexpView>, from: int, n: int) -> Option<Seq<ExpView>>
    decreases items, n - from,
{
    if 0 <= from < n <= items.len() {
        match (build_exps_spec(items, from, n - 1), build_exp_spec(items[n - 1])) {
            (Some(front), Some(last)) => Some(front.push(last)),
            _ => None,
        }
    } else {
        Some(Seq::empty())
    }
}

/// The named expressions that the pieces `items[from..n]` stand for, in order:
/// bindings of `let` where `bindings` is set, definitions otherwise.
pub open spec fn build_named_spec(bindings: bool, items: Seq<SexpView>, from: int, n: int) -> Option<
    Seq<(Seq<char>, ExpView)>,
>
    decreases items, n - from,
{
    if 0 <= from < n <= items.len() {
        match (
            build_named_spec(bindings, items, from, n - 1),
            if bindings {
                build_binding_spec(items[n - 1])
            } else {
                build_definition_spec(items[n - 1])
            },
        ) {
            (Some(front), Some(last)) => Some(front.push(last)),
            _ => None,
        }
    } else {
        Some(Seq::empty())
    }
}

/// `(if test consequent)` or `(if test consequent alternative)`.
pub open spec fn build_cond_spec(items: Seq<SexpView>) -> Option<ExpView>
    decreases items, 1nat,
{
    if items.len() == 3 {
        match (build_exp_spec(items[1]), build_exp_spec(items[2])) {
            (Some(test), Some(consequent)) => Some(
                ExpView::COND {
                    test: Box::new(test),
                    consequent: Box::new(consequent),
                    alternative: None,
                },
            ),
            _ => None,
        }
    } else if items.len() == 4 {
        match (build_exp_spec(items[1]), build_exp_spec(items[2]), build_exp_spec(items[3])) {
            (Some(test), Some(consequent), Some(alternative)) => Some(
                ExpView::COND {
                    test: Box::new(test),
                    consequent: Box::new(consequent),
                    alternative: Some(Box::new(alternative)),
                },
            ),
            _ => None,
        }
    } else {
        None
    }
}

/// `(define name expression)`.
pub open spec fn build_definition_spec(s: SexpView) -> Option<(Seq<char>, ExpView)>
    decreases s, 1nat,
{
    match s {
        SexpView::LIST(d) => if d.len() == 3 && is_word(d[0], "define"@) && d[1] is ATOM && is_name(
            d[1]->ATOM_0,
        ) {
            match build_exp_spec(d[2]) {
                Some(e) => Some((d[1]->ATOM_0, e)),
                None => None,
            }
        } else {
            None
        },
        _ => None,
    }
}

/// `(name expression)`, a binding of `let`.
pub open spec fn build_binding_spec(s: SexpView) -> Option<(Seq<char>, ExpView)>
    decreases s, 1nat,
{
    match s {
        SexpView::LIST(b) => if b.len() == 2 && b[0] is ATOM && is_name(b[0]->ATOM_0) {
            match build_exp_spec(b[1]) {
                Some(e) => Some((b[0]->ATOM_0, e)),
                None => None,
            }
        } else {
            None
        },
        _ => None,
    }
}

/// `(lambda formals definition* body)`: a procedure literal.
pub open spec fn build_lambda_spec(items: Seq<SexpView>) -> Option<ExpView>
    decreases items, items.len() + 1,
{
    if items.len() >= 3 {
        match (
            build_formals_spec(items[1]),
            build_named_spec(false, items, 2, items.len() - 1),
            build_exp_spec(items[items.len() - 1]),
        ) {
            (Some((ifvarlen, parameters)), Some(definitions), Some(body)) => Some(
                ExpView::LITERIAL(
                    DatumView::LAMBDA(
                        Box::new(
                            LambdaView { ifvarlen, parameters, definitions, body: Box::new(body) },
                        ),
                    ),
                ),
            ),
            _ => None,
        }
    } else {
        None
    }
}

/// One step of a right fold: the conditional made of `item` and of `rest`, the
/// expression that the pieces behind `item` have folded into.
pub open spec fn fold_step_spec(kind: Fold, item: SexpView, rest: ExpView) -> Option<ExpView>
    decreases item, 2nat,
{
    match kind {
        Fold::Clauses => match item {
            SexpView::LIST(clause) => if clause.len() == 2 {
                match (build_exp_spec(clause[0]), build_exp_spec(clause[1])) {
                    (Some(test), Some(consequent)) => Some(
                        ExpView::COND {
                            test: Box::new(test),
                            consequent: Box::new(consequent),
                            alternative: Some(Box::new(rest)),
                        },
                    ),
                    _ => None,
                }
            } else {
                None
            },
            _ => None,
        },
        Fold::All => match build_exp_spec(item) {
            Some(test) => Some(
                ExpView::COND {
                    test: Box::new(test),
                    consequent: Box::new(rest),
                    alternative: Some(Box::new(lit(PrimitiveView::BOOLEAN(false)))),
                },
            ),
            None => None,
        },
        Fold::Any => match build_exp_spec(item) {
            Some(test) => Some(
                ExpView::COND {
                    test: Box::new(test),
                    consequent: Box::new(lit(PrimitiveView::BOOLEAN(true))),
                    alternative: Some(Box::new(rest)),
                },
            ),
            None => None,
        },
    }
}

/// The right fold of `items[i..n]` over `seed`.
pub open spec fn fold_spec(kind: Fold, items: Seq<SexpView>, i: int, n: int, seed: ExpView) -> Option<
    ExpView,
>
    decreases items, n - i,
{
    if 0 <= i < n <= items.len() {
        match fold_spec(kind, items, i + 1, n, seed) {
            Some(rest) => fold_step_spec(kind, items[i], rest),
            None => None,
        }
    } else {
        Some(seed)
    }
}

/// `(else expression)`, as the last clause of `cond`.
pub open spec fn is_else_clause(s: SexpView) -> bool {
    s is LIST && s->LIST_0.len() == 2 && is_word(s->LIST_0[0], "else"@)
}

/// `(let (binding*) body)`: the literal of a procedure without parameters
/// whose internal definitions are the bindings, in the order in which they
/// are written, and whose body is the body. Evaluated, it is a closure over
/// the frame in which the `let` stands; called, it binds the names in a frame
/// of its own and evaluates the body there.
pub open spec fn build_let_spec(items: Seq<SexpView>) -> Option<ExpView>
    decreases items, 1nat,
{
    if items.len() == 3 && items[1] is LIST {
        match (
            build_named_spec(true, items[1]->LIST_0, 0, items[1]->LIST_0.len() as int),
            build_exp_spec(items[2]),
        ) {
            (Some(definitions), Some(body)) => Some(
                ExpView::LITERIAL(
                    DatumView::LAMBDA(
                        Box::new(
                            LambdaView {
                                ifvarlen: false,
                                parameters: Seq::empty(),
                                definitions,
                                body: Box::new(body),
                            },
                        ),
                    ),
                ),
            ),
            _ => None,
        }
    } else {
        None
    }
}

/// The expression that a derived form is rewritten into.
///
/// `cond` folds its clauses from the right into nested conditionals, over the
/// expression of its `else` clause or, without one, over nil. `and` folds its
/// operands over `#t`, each test giving `#f` where it fails; `or` folds them
/// over `#f`, each test giving `#t` where it holds.
pub open spec fn build_derived_spec(items: Seq<SexpView>) -> Option<ExpView>
    decreases items, items.len() + 2,
{
    if items.len() == 0 {
        None
    } else if is_word(items[0], "cond"@) {
        if items.len() >= 2 && is_else_clause(items[items.len() - 1]) {
            match build_exp_spec(items[items.len() - 1]->LIST_0[1]) {
                Some(seed) => fold_spec(Fold::Clauses, items, 1, items.len() - 1, seed),
                None => None,
            }
        } else {
            fold_spec(Fold::Clauses, items, 1, items.len() as int, lit(PrimitiveView::NIL))
        }
    } else if is_word(items[0], "and"@) {
        fold_spec(Fold::All, items, 1, items.len() as int, lit(PrimitiveView::BOOLEAN(true)))
    } else if is_word(items[0], "or"@) {
        fold_spec(Fold::Any, items, 1, items.len() as int, lit(PrimitiveView::BOOLEAN(false)))
    } else if is_word(items[0], "let"@) {
        build_let_spec(items)
    } else {
        None
    }
}

/// The top-level form that a piece stands for: a definition where it begins
/// with `define`, an expression otherwise.
pub open spec fn build_top_spec(s: SexpView) -> Option<TopView> {
    if s is LIST && s->LIST_0.len() >= 1 && is_word(s->LIST_0[0], "define"@) {
        match build_definition_spec(s) {
            Some((identifier, expression)) => Some(TopView::DEC { identifier, expression }),
            None => None,
        }
    } else {
        match build_exp_spec(s) {
            Some(expression) => Some(TopView::EXP { expression }),
            None => None,
        }
    }
}

/// The program that a sequence of pieces stands for: every piece is a
/// top-level form.
pub open spec fn build_ast_spec(items: Seq<SexpView>) -> Option<Seq<TopView>> {
    if forall|i: int| 0 <= i < items.len() ==> (#[trigger] build_top_spec(items[i])) is Some {
        Some(Seq::new(items.len(), |i: int| build_top_spec(items[i])->0))
    } else {
        None
    }
}

} // verus!
