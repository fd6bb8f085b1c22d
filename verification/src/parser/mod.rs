//! The syntax tree of the language and the way from program text to it.
//!
//! A program is a sequence of top-level forms. Each form is either a definition
//! or an expression, and expressions come in four shapes only: the derived forms
//! (`cond`, `and`, `or`, `let`) are rewritten into those four while the tree is
//! built.
//!
//! Every tree type has a mathematical view in which names are sequences of
//! characters and lists are sequences; all contracts are stated over the views.

use crate::agrees;
use crate::parser::builder::PestParser;
use crate::parser::grammar::build_ast_spec;
use crate::parser::number::{number_text, write_number};
use crate::parser::reader::read_spec;
use std::rc::Rc;
use vstd::prelude::*;
use vstd::string::*;

pub mod builder;
pub mod grammar;
pub mod laws;
pub mod number;
pub mod reader;
pub mod writing;

verus! {

/// Data that needs no further structure. Shared by the tree and by runtime values.
#[allow(non_camel_case_types)]
#[derive(Debug)]
pub enum Primitive {
    NUMBER(i64),
    BOOLEAN(bool),
    /// A string literal, kept as it was written, quotes included.
    STRING(String),
    SYMBOL(String),
    /// The empty list.
    NIL,
}

/// Self-evaluating data.
#[allow(non_camel_case_types)]
#[derive(Debug, PartialEq)]
pub enum Datum {
    PRIMITIVE(Rc<Primitive>),
    LAMBDA(Rc<Lambda>),
    /// A cell of two slots, each of which may be absent.
    PAIR((Option<Rc<Datum>>, Option<Rc<Datum>>)),
}

/// A procedure template: pure syntax, without an environment.
#[derive(Debug, PartialEq)]
pub struct Lambda {
    /// When set, the first parameter receives all arguments as one list.
    pub ifvarlen: bool,
    pub parameters: Vec<String>,
    /// Internal definitions, evaluated in order on every call before the body.
    pub definitions: Vec<(String, Rc<Exp>)>,
    pub body: Rc<Exp>,
}

/// Code to be evaluated.
#[allow(non_camel_case_types)]
#[derive(Debug, PartialEq)]
pub enum Exp {
    IDENTIFIER(String),
    LITERIAL(Rc<Datum>),
    CALL { operator: Rc<Exp>, operands: Vec<Rc<Exp>> },
    COND { test: Rc<Exp>, consequent: Rc<Exp>, alternative: Option<Rc<Exp>> },
}

/// A top-level form.
#[allow(non_camel_case_types)]
#[derive(Debug, PartialEq)]
pub enum Top {
    DEC { identifier: String, expression: Rc<Exp> },
    EXP { expression: Rc<Exp> },
}

/// A whole program.
#[derive(Debug, PartialEq)]
pub struct Ast {
    pub tops: Vec<Top>,
}

/// The view of a [`Primitive`].
#[allow(non_camel_case_types)]
pub enum PrimitiveView {
    NUMBER(i64),
    BOOLEAN(bool),
    STRING(Seq<char>),
    SYMBOL(Seq<char>),
    NIL,
}

/// The view of a [`Datum`].
#[allow(non_camel_case_types)]
pub enum DatumView {
    PRIMITIVE(PrimitiveView),
    LAMBDA(Box<LambdaView>),
    PAIR(Option<Box<DatumView>>, Option<Box<DatumView>>),
}

/// The view of a [`Lambda`].
pub struct LambdaView {
    pub ifvarlen: bool,
    pub parameters: Seq<Seq<char>>,
    pub definitions: Seq<(Seq<char>, ExpView)>,
    pub body: Box<ExpView>,
}

/// The view of an [`Exp`].
#[allow(non_camel_case_types)]
pub enum ExpView {
    IDENTIFIER(Seq<char>),
    LITERIAL(DatumView),
    CALL { operator: Box<ExpView>, operands: Seq<ExpView> },
    COND { test: Box<ExpView>, consequent: Box<ExpView>, alternative: Option<Box<ExpView>> },
}

/// The view of a [`Top`].
#[allow(non_camel_case_types)]
pub enum TopView {
    DEC { identifier: Seq<char>, expression: ExpView },
    EXP { expression: ExpView },
}

impl View for Primitive {
    type V = PrimitiveView;

    open spec fn view(&self) -> PrimitiveView {
        match self {
            Primitive::NUMBER(n) => PrimitiveView::NUMBER(*n),
            Primitive::BOOLEAN(b) => PrimitiveView::BOOLEAN(*b),
            Primitive::STRING(s) => PrimitiveView::STRING(s@),
            Primitive::SYMBOL(s) => PrimitiveView::SYMBOL(s@),
            Primitive::NIL => PrimitiveView::NIL,
        }
    }
}

/// The views of a list of names.
pub open spec fn names_view(names: Seq<String>) -> Seq<Seq<char>> {
    Seq::new(names.len(), |i: int| names[i]@)
}

/// The view of a datum.
pub open spec fn datum_view(d: Datum) -> DatumView
    decreases d,
{
    match d {
        Datum::PRIMITIVE(p) => DatumView::PRIMITIVE(p@),
        Datum::LAMBDA(l) => DatumView::LAMBDA(Box::new(lambda_view(*l))),
        Datum::PAIR((car, cdr)) => DatumView::PAIR(
            match car {
                Some(a) => Some(Box::new(datum_view(*a))),
                None => None,
            },
            match cdr {
                Some(b) => Some(Box::new(datum_view(*b))),
                None => None,
            },
        ),
    }
}

/// The view of a procedure template.
pub open spec fn lambda_view(l: Lambda) -> LambdaView
    decreases l,
{
    LambdaView {
        ifvarlen: l.ifvarlen,
        parameters: names_view(l.parameters@),
        definitions: definitions_view(l.definitions@),
        body: Box::new(exp_view(*l.body)),
    }
}

/// The views of a sequence of named expressions.
pub open spec fn definitions_view(definitions: Seq<(String, Rc<Exp>)>) -> Seq<(Seq<char>, ExpView)>
    decreases definitions,
{
    Seq::new(
        definitions.len(),
        |i: int|
            if 0 <= i < definitions.len() {
                (definitions[i].0@, exp_view(*definitions[i].1))
            } else {
                arbitrary()
            },
    )
}

/// The views of a sequence of expressions.
pub open spec fn exps_view(exps: Seq<Rc<Exp>>) -> Seq<ExpView>
    decreases exps,
{
    Seq::new(
        exps.len(),
        |i: int|
            if 0 <= i < exps.len() {
                exp_view(*exps[i])
            } else {
                arbitrary()
            },
    )
}

/// The view of an expression.
pub open spec fn exp_view(e: Exp) -> ExpView
    decreases e,
{
    match e {
        Exp::IDENTIFIER(name) => ExpView::IDENTIFIER(name@),
        Exp::LITERIAL(d) => ExpView::LITERIAL(datum_view(*d)),
        Exp::CALL { operator, operands } => ExpView::CALL {
            operator: Box::new(exp_view(*operator)),
            operands: exps_view(operands@),
        },
        Exp::COND { test, consequent, alternative } => ExpView::COND {
            test: Box::new(exp_view(*test)),
            consequent: Box::new(exp_view(*consequent)),
            alternative: match alternative {
                Some(a) => Some(Box::new(exp_view(*a))),
                None => None,
            },
        },
    }
}

/// The view of a sequence of expressions, expression by expression.
pub proof fn lemma_exps_view(exps: Seq<Rc<Exp>>)
    ensures
        exps_view(exps).len() == exps.len(),
        forall|i: int| 0 <= i < exps.len() ==> (#[trigger] exps_view(exps)[i]) == exps[i]@,
{
}

/// The view of a sequence of named expressions, one by one.
pub proof fn lemma_definitions_view(definitions: Seq<(String, Rc<Exp>)>)
    ensures
        definitions_view(definitions).len() == definitions.len(),
        forall|i: int|
            0 <= i < definitions.len() ==> (#[trigger] definitions_view(definitions)[i]) == (
                definitions[i].0@,
                definitions[i].1@,
            ),
{
}

impl Datum {
    /// The datum that holds a primitive.
    pub fn primitive(p: Primitive) -> (d: Datum)
        ensures
            d@ == DatumView::PRIMITIVE(p@),
    {
        Datum::PRIMITIVE(Rc::new(p))
    }

    /// The pair of two data.
    pub fn pair(car: Datum, cdr: Datum) -> (d: Datum)
        ensures
            d@ == DatumView::PAIR(Some(Box::new(car@)), Some(Box::new(cdr@))),
    {
        Datum::PAIR((Some(Rc::new(car)), Some(Rc::new(cdr))))
    }

    /// The datum that holds a procedure template.
    pub fn lambda(l: Lambda) -> (d: Datum)
        ensures
            d@ == DatumView::LAMBDA(Box::new(l@)),
    {
        Datum::LAMBDA(Rc::new(l))
    }
}

impl Lambda {
    /// The procedure template of these parts.
    pub fn new(
        ifvarlen: bool,
        parameters: Vec<String>,
        definitions: Vec<(String, Rc<Exp>)>,
        body: Exp,
    ) -> (l: Lambda)
        ensures
            l@ == (LambdaView {
                ifvarlen,
                parameters: names_view(parameters@),
                definitions: definitions_view(definitions@),
                body: Box::new(body@),
            }),
    {
        Lambda { ifvarlen, parameters, definitions, body: Rc::new(body) }
    }
}

impl Exp {
    /// A reference to a name.
    pub fn identifier(name: String) -> (e: Exp)
        ensures
            e@ == ExpView::IDENTIFIER(name@),
    {
        Exp::IDENTIFIER(name)
    }

    /// The expression that stands for a datum.
    pub fn literal(d: Datum) -> (e: Exp)
        ensures
            e@ == ExpView::LITERIAL(d@),
    {
        Exp::LITERIAL(Rc::new(d))
    }

    /// The call of `operator` on `operands`.
    pub fn call(operator: Exp, operands: Vec<Rc<Exp>>) -> (e: Exp)
        ensures
            e@ == (ExpView::CALL {
                operator: Box::new(operator@),
                operands: exps_view(operands@),
            }),
    {
        Exp::CALL { operator: Rc::new(operator), operands }
    }

    /// The conditional on `test`.
    pub fn cond(test: Exp, consequent: Exp, alternative: Option<Exp>) -> (e: Exp)
        ensures
            e@ == (ExpView::COND {
                test: Box::new(test@),
                consequent: Box::new(consequent@),
                alternative: match alternative {
                    Some(a) => Some(Box::new(a@)),
                    None => None,
                },
            }),
    {
        let alternative = match alternative {
            Some(a) => Some(Rc::new(a)),
            None => None,
        };
        Exp::COND { test: Rc::new(test), consequent: Rc::new(consequent), alternative }
    }
}

impl View for Datum {
    type V = DatumView;

    open spec fn view(&self) -> DatumView {
        datum_view(*self)
    }
}

impl View for Lambda {
    type V = LambdaView;

    open spec fn view(&self) -> LambdaView {
        lambda_view(*self)
    }
}

impl View for Exp {
    type V = ExpView;

    open spec fn view(&self) -> ExpView {
        exp_view(*self)
    }
}

impl View for Top {
    type V = TopView;

    open spec fn view(&self) -> TopView {
        match self {
            Top::DEC { identifier, expression } => TopView::DEC {
                identifier: identifier@,
                expression: expression@,
            },
            Top::EXP { expression } => TopView::EXP { expression: expression@ },
        }
    }
}

/// The views of a sequence of top-level forms.
pub open spec fn tops_view(tops: Seq<Top>) -> Seq<TopView> {
    Seq::new(tops.len(), |i: int| tops[i]@)
}

impl View for Ast {
    type V = Seq<TopView>;

    open spec fn view(&self) -> Seq<TopView> {
        tops_view(self.tops@)
    }
}

impl Top {
    /// Another handle on the same form.
    pub fn duplicate(&self) -> (top: Top)
        ensures
            top@ == self@,
    {
        match self {
            Top::DEC { identifier, expression } => Top::DEC {
                identifier: identifier.clone(),
                expression: expression.clone(),
            },
            Top::EXP { expression } => Top::EXP { expression: expression.clone() },
        }
    }
}

impl Ast {
    /// The program of these forms.
    pub fn new(tops: Vec<Top>) -> (ast: Self)
        ensures
            ast.tops == tops,
    {
        Self { tops }
    }
}

/// What parsing a text gives: the program it stands for, or nothing where the
/// text cannot be read or one of its pieces is no top-level form.
pub open spec fn parse_spec(text: Seq<char>) -> Option<Seq<TopView>> {
    match read_spec(text) {
        Some(pieces) => build_ast_spec(pieces),
        None => None,
    }
}

/// Parses a program.
pub fn parse(input: &str) -> (r: Option<Ast>)
    ensures
        agrees(r, parse_spec(input@)),
{
    PestParser::new().parse(input)
}

/// How a primitive is displayed: as it is written in a program.
pub open spec fn display_primitive(p: PrimitiveView) -> Seq<char> {
    match p {
        PrimitiveView::NUMBER(n) => number_text(n as int),
        PrimitiveView::BOOLEAN(b) => if b {
            "#t"@
        } else {
            "#f"@
        },
        PrimitiveView::STRING(s) => s,
        PrimitiveView::SYMBOL(s) => s,
        PrimitiveView::NIL => "()"@,
    }
}

/// How a pair is displayed, given the displays of the slots it holds: both
/// with a dot between them, one alone, or empty brackets.
pub open spec fn display_slots(car: Option<Seq<char>>, cdr: Option<Seq<char>>) -> Seq<char> {
    match (car, cdr) {
        (Some(a), Some(d)) => "("@ + a + " . "@ + d + ")"@,
        (Some(a), None) => "("@ + a + ")"@,
        (None, Some(d)) => "("@ + d + ")"@,
        (None, None) => "()"@,
    }
}

/// How a datum is displayed. A procedure template shows as a tag only.
pub open spec fn display_datum(d: DatumView) -> Seq<char>
    decreases d,
{
    match d {
        DatumView::PRIMITIVE(p) => display_primitive(p),
        DatumView::LAMBDA(_) => "#<lambda>"@,
        DatumView::PAIR(car, cdr) => display_slots(
            match car {
                Some(a) => Some(display_datum(*a)),
                None => None,
            },
            match cdr {
                Some(b) => Some(display_datum(*b)),
                None => None,
            },
        ),
    }
}

/// Joins the displays of the slots of a pair.
pub fn join_slots(car: Option<String>, cdr: Option<String>) -> (out: String)
    ensures
        out@ == display_slots(
            match car {
                Some(a) => Some(a@),
                None => None,
            },
            match cdr {
                Some(d) => Some(d@),
                None => None,
            },
        ),
{
    let mut out = String::from_str("(");
    match car {
        Some(a) => {
            out.append(a.as_str());
            match cdr {
                Some(d) => {
                    out.append(" . ");
                    out.append(d.as_str());
                },
                None => {},
            }
        },
        None => {
            match cdr {
                Some(d) => {
                    out.append(d.as_str());
                },
                None => {},
            }
        },
    }
    out.append(")");
    proof {
        if car is None && cdr is None {
            reveal_strlit("(");
            reveal_strlit(")");
            reveal_strlit("()");
            assert(out@ =~= "()"@);
        }
    }
    out
}

impl Primitive {
    /// The text that displays this primitive.
    pub fn to_string(&self) -> (out: String)
        ensures
            out@ == display_primitive(self@),
    {
        match self {
            Primitive::NUMBER(n) => write_number(*n),
            Primitive::BOOLEAN(b) => if *b {
                String::from_str("#t")
            } else {
                String::from_str("#f")
            },
            Primitive::STRING(s) => s.clone(),
            Primitive::SYMBOL(s) => s.clone(),
            Primitive::NIL => String::from_str("()"),
        }
    }
}

impl Datum {
    /// The text that displays this datum.
    pub fn to_string(&self) -> (out: String)
        ensures
            out@ == display_datum(self@),
        decreases self,
    {
        match self {
            Datum::PRIMITIVE(p) => p.to_string(),
            Datum::LAMBDA(_) => String::from_str("#<lambda>"),
            Datum::PAIR((car, cdr)) => {
                let a = match car {
                    Some(a) => Some(a.to_string()),
                    None => None,
                };
                let d = match cdr {
                    Some(d) => Some(d.to_string()),
                    None => None,
                };
                join_slots(a, d)
            },
        }
    }
}

} // verus!
