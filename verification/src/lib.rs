//! A small interpreter for a Scheme-like expression language.
//!
//! [`parser`] turns text into a syntax tree, [`interpreter`] evaluates the
//! tree in an environment, and [`builtin`] holds the procedures every
//! environment starts with. [`Katsu`] puts them together: one interpreter
//! whose definitions last from one program to the next.

use crate::builtin::table_bindings;
use crate::interpreter::env::FrameView;
use crate::interpreter::error::EvalError;
use crate::interpreter::semantics::{eval_top_spec, Outcome};
use crate::interpreter::soundness::{law_sound_start, law_sound_top, sound};
use crate::interpreter::value::{display_value, refers_from, Value, ValueView};
use crate::interpreter::{eval, top_view, Env};
use crate::parser::{parse, parse_spec, tops_view, Ast, Top, TopView};
use std::rc::Rc;
use vstd::prelude::*;
use vstd::string::*;

pub mod builtin;
pub mod interpreter;
pub mod parser;

verus! {

/// `r` is a value whose view is `expected`, or both are absent.
pub open spec fn agrees<T: View>(r: Option<T>, expected: Option<T::V>) -> bool {
    match r {
        Some(x) => expected == Some(x@),
        None => expected is None,
    }
}

/// How deep evaluation may nest where nothing else is asked for.
pub const DEFAULT_DEPTH: usize = 2000;

/// Why a program gave no results.
#[derive(Clone, Copy, Debug, PartialEq, Eq, Structural)]
pub enum Error {
    /// The text is no program.
    Parse,
    /// A form failed in a way that ends the program.
    Eval(EvalError),
}

/// How the run of a program ends.
pub struct Run {
    pub result: Result<Seq<Option<ValueView>>, Error>,
    /// The environment afterwards.
    pub env: Seq<FrameView>,
}

/// What one form of a program does. An expression that fails, but not fatally,
/// yields nothing, like a definition; every other failure stands.
pub open spec fn form_spec(top: TopView, env: Seq<FrameView>, depth: nat) -> Outcome<
    Option<ValueView>,
> {
    let one = eval_top_spec(top, env, depth);
    match one.result {
        Err(e) => if top is EXP && !e.is_fatal() {
            Outcome { result: Ok(None), env: one.env }
        } else {
            one
        },
        Ok(_) => one,
    }
}

/// What the first `n` forms of a program do, one after the other, each in the
/// environment that the one before left. The first failure that stands ends
/// the run.
pub open spec fn run_forms_spec(tops: Seq<TopView>, n: int, env: Seq<FrameView>, depth: nat) -> Run
    decreases n,
{
    if 0 < n <= tops.len() {
        let front = run_forms_spec(tops, n - 1, env, depth);
        match front.result {
            Err(e) => front,
            Ok(values) => {
                let one = form_spec(tops[n - 1], front.env, depth);
                match one.result {
                    Err(e) => Run { result: Err(Error::Eval(e)), env: one.env },
                    Ok(v) => Run { result: Ok(values.push(v)), env: one.env },
                }
            },
        }
    } else {
        Run { result: Ok(Seq::empty()), env }
    }
}

/// What a program does: where the text is no program, nothing, and the
/// environment stays as it was; otherwise what its forms do.
pub open spec fn run_spec(text: Seq<char>, env: Seq<FrameView>, depth: nat) -> Run {
    match parse_spec(text) {
        None => Run { result: Err(Error::Parse), env },
        Some(tops) => run_forms_spec(tops, tops.len() as int, env, depth),
    }
}

/// How one result is displayed: a value as itself, nothing as `None`.
pub open spec fn display_result(v: Option<ValueView>) -> Seq<char> {
    match v {
        Some(v) => display_value(v),
        None => "None"@,
    }
}

/// How the results of a program are displayed: one after the other, with
/// nothing between them.
pub open spec fn display_results(values: Seq<Option<ValueView>>) -> Seq<char>
    decreases values.len(),
{
    if values.len() == 0 {
        Seq::empty()
    } else {
        display_results(values.drop_last()) + display_result(values.last())
    }
}

/// The views of the results of a program.
pub open spec fn options_view(values: Seq<Option<Rc<Value>>>) -> Seq<Option<ValueView>> {
    Seq::new(
        values.len(),
        |i: int|
            match values[i] {
                Some(v) => Some(v@),
                None => None,
            },
    )
}

/// Once a run has failed, it stays failed, with the same outcome.
pub proof fn lemma_run_failed(tops: Seq<TopView>, k: int, n: int, env: Seq<FrameView>, depth: nat)
    requires
        0 <= k <= n <= tops.len(),
        run_forms_spec(tops, k, env, depth).result is Err,
    ensures
        run_forms_spec(tops, n, env, depth) == run_forms_spec(tops, k, env, depth),
    decreases n - k,
{
    if k < n {
        lemma_run_failed(tops, k, n - 1, env, depth);
    }
}

/// The text that displays one result.
pub fn result_to_string(v: &Option<Rc<Value>>) -> (out: String)
    ensures
        out@ == display_result(
            match *v {
                Some(v) => Some(v@),
                None => None,
            },
        ),
{
    match v {
        Some(v) => v.to_string(),
        None => String::from_str("None"),
    }
}

/// An interpreter: an environment that starts with the builtin procedures,
/// and a bound on how deep evaluation may nest.
pub struct Katsu {
    env: Env,
    depth: usize,
}

impl Katsu {
    /// The frames of the interpreter's environment.
    pub closed spec fn frames(&self) -> Seq<FrameView> {
        self.env@
    }

    /// The bound on how deep evaluation may nest.
    pub closed spec fn limit(&self) -> nat {
        self.depth as nat
    }

    /// The invariant of the interpreter: every closure that its environment
    /// holds is over a frame that is there.
    pub open spec fn wf(&self) -> bool {
        sound(self.frames())
    }

    /// An interpreter with the default bound.
    pub fn new() -> (katsu: Self)
        ensures
            katsu.wf(),
            katsu.limit() == DEFAULT_DEPTH,
            katsu.frames() == seq![
                FrameView { parent: None, bindings: table_bindings(17) },
            ],
    {
        proof {
            law_sound_start();
        }
        Self { env: Env::get_initialized_env(), depth: DEFAULT_DEPTH }
    }

    /// An interpreter with the bound `depth`.
    pub fn with_depth(depth: usize) -> (katsu: Self)
        ensures
            katsu.wf(),
            katsu.limit() == depth,
            katsu.frames() == seq![
                FrameView { parent: None, bindings: table_bindings(17) },
            ],
    {
        proof {
            law_sound_start();
        }
        Self { env: Env::get_initialized_env(), depth }
    }

    /// Evaluates one form. A value that it yields is over frames that are
    /// there, so that a closure in it can be called later.
    pub fn eval_top(&mut self, top: Top) -> (r: Result<Option<Rc<Value>>, EvalError>)
        requires
            old(self).wf(),
        ensures
            final(self).wf(),
            final(self).limit() == old(self).limit(),
            form_spec(top@, old(self).frames(), old(self).limit()) == (Outcome {
                result: top_view(r),
                env: final(self).frames(),
            }),
            r matches Ok(Some(v)) ==> !refers_from(v@, final(self).frames().len()),
    {
        let expression = match &top {
            Top::EXP { expression: _ } => true,
            _ => false,
        };
        proof {
            law_sound_top(top@, self.frames(), self.limit());
        }
        match eval(top, &mut self.env, self.depth) {
            Ok(v) => Ok(v),
            Err(e) => {
                if expression && !e.fatal() {
                    Ok(None)
                } else {
                    Err(e)
                }
            },
        }
    }

    /// Evaluates the forms of a program, one after the other, and returns
    /// what each of them yields.
    pub fn eval_forms(&mut self, tops: &Vec<Top>) -> (r: Result<Vec<Option<Rc<Value>>>, Error>)
        requires
            old(self).wf(),
        ensures
            final(self).wf(),
            final(self).limit() == old(self).limit(),
            run_forms_spec(
                tops_view(tops@),
                tops.len() as int,
                old(self).frames(),
                old(self).limit(),
            ) == (Run {
                result: match r {
                    Ok(values) => Ok(options_view(values@)),
                    Err(e) => Err(e),
                },
                env: final(self).frames(),
            }),
    {
        let ghost start = self.frames();
        let ghost views = tops_view(tops@);
        let mut values: Vec<Option<Rc<Value>>> = Vec::new();
        let mut i: usize = 0;
        assert(options_view(values@) =~= Seq::<Option<ValueView>>::empty());
        while i < tops.len()
            invariant
                i <= tops.len(),
                views == tops_view(tops@),
                start == old(self).frames(),
                self.wf(),
                self.limit() == old(self).limit(),
                run_forms_spec(views, i as int, start, self.limit()) == (Run {
                    result: Ok::<Seq<Option<ValueView>>, Error>(options_view(values@)),
                    env: self.frames(),
                }),
            decreases tops.len() - i,
        {
            match self.eval_top(tops[i].duplicate()) {
                Ok(v) => {
                    let ghost before = values@;
                    values.push(v);
                    assert(options_view(values@) =~= options_view(before).push(
                        match v {
                            Some(v) => Some(v@),
                            None => None,
                        },
                    ));
                },
                Err(e) => {
                    proof {
                        lemma_run_failed(views, i + 1, tops.len() as int, start, self.limit());
                    }
                    return Err(Error::Eval(e));
                },
            }
            i = i + 1;
        }
        Ok(values)
    }

    /// Runs a program and returns what each of its forms yields.
    pub fn eval(&mut self, program: &str) -> (r: Result<Vec<Option<Rc<Value>>>, Error>)
        requires
            old(self).wf(),
        ensures
            final(self).wf(),
            final(self).limit() == old(self).limit(),
            run_spec(program@, old(self).frames(), old(self).limit()) == (Run {
                result: match r {
                    Ok(values) => Ok(options_view(values@)),
                    Err(e) => Err(e),
                },
                env: final(self).frames(),
            }),
    {
        match parse(program) {
            Some(ast) => self.eval_forms(&ast.tops),
            None => Err(Error::Parse),
        }
    }

    /// Runs a program and returns the displays of what its forms yield, one
    /// after the other.
    pub fn eval_to_str(&mut self, program: &str) -> (r: Result<String, Error>)
        requires
            old(self).wf(),
        ensures
            final(self).wf(),
            final(self).limit() == old(self).limit(),
            final(self).frames() == run_spec(program@, old(self).frames(), old(self).limit()).env,
            match r {
                Ok(text) => run_spec(program@, old(self).frames(), old(self).limit()).result
                    matches Ok(values) && text@ == display_results(values),
                Err(e) => run_spec(program@, old(self).frames(), old(self).limit()).result == Err::<
                    Seq<Option<ValueView>>,
                    Error,
                >(e),
            },
    {
        let values = match self.eval(program) {
            Ok(values) => values,
            Err(e) => {
                return Err(e);
            },
        };
        let ghost views = options_view(values@);
        let mut out = String::new();
        let mut i: usize = 0;
        assert(views.take(0) =~= Seq::<Option<ValueView>>::empty());
        while i < values.len()
            invariant
                i <= values.len(),
                views == options_view(values@),
                out@ == display_results(views.take(i as int)),
            decreases values.len() - i,
        {
            let one = result_to_string(&values[i]);
            out.append(one.as_str());
            proof {
                assert(views.take(i + 1).drop_last() =~= views.take(i as int));
                assert(views.take(i + 1).last() == views[i as int]);
            }
            i = i + 1;
        }
        assert(views.take(values.len() as int) =~= views);
        Ok(out)
    }

    /// Parses a program and returns its forms, to be run one at a time.
    pub fn eval_all(&self, program: &str) -> (r: Result<ResIterator, Error>)
        ensures
            match r {
                Ok(forms) => parse_spec(program@) == Some(forms.forms()) && forms.position() == 0,
                Err(e) => e == Error::Parse && parse_spec(program@) is None,
            },
    {
        match parse(program) {
            Some(ast) => Ok(ResIterator::new(ast)),
            None => Err(Error::Parse),
        }
    }
}

/// The forms of a program, run one at a time.
pub struct ResIterator {
    tops: Vec<Top>,
    next: usize,
}

impl ResIterator {
    /// The forms of the program.
    pub closed spec fn forms(&self) -> Seq<TopView> {
        tops_view(self.tops@)
    }

    /// The number of forms that have been run.
    pub closed spec fn position(&self) -> nat {
        self.next as nat
    }

    /// The forms of `ast`, none of them run.
    pub fn new(ast: Ast) -> (forms: Self)
        ensures
            forms.forms() == ast@,
            forms.position() == 0,
    {
        Self { tops: ast.tops, next: 0 }
    }

    /// Runs the next form in `katsu` and returns the display of what it
    /// yields; nothing where every form has been run.
    pub fn next(&mut self, katsu: &mut Katsu) -> (r: Option<Result<String, EvalError>>)
        requires
            old(katsu).wf(),
        ensures
            final(katsu).wf(),
            final(katsu).limit() == old(katsu).limit(),
            final(self).forms() == old(self).forms(),
            match r {
                None => old(self).position() >= old(self).forms().len() && final(self).position()
                    == old(self).position() && final(katsu).frames() == old(katsu).frames(),
                Some(one) => {
                    let expected = form_spec(
                        old(self).forms()[old(self).position() as int],
                        old(katsu).frames(),
                        old(katsu).limit(),
                    );
                    &&& old(self).position() < old(self).forms().len()
                    &&& final(self).position() == old(self).position() + 1
                    &&& final(katsu).frames() == expected.env
                    &&& match one {
                        Ok(text) => expected.result matches Ok(v) && text@ == display_result(v),
                        Err(e) => expected.result == Err::<Option<ValueView>, EvalError>(e),
                    }
                },
            },
    {
        if self.next >= self.tops.len() {
            return None;
        }
        let top = self.tops[self.next].duplicate();
        self.next = self.next + 1;
        match katsu.eval_top(top) {
            Ok(v) => Some(Ok(result_to_string(&v))),
            Err(e) => Some(Err(e)),
        }
    }
}

/// What a run leaves to show: what the last form yielded, nothing for a
/// program without forms.
pub open spec fn last_result(values: Seq<Option<ValueView>>) -> Option<ValueView> {
    if values.len() == 0 {
        None
    } else {
        values.last()
    }
}

/// Runs a program in `katsu` and returns what its last form yields.
pub fn run(program: &str, katsu: &mut Katsu) -> (r: Result<Option<Rc<Value>>, Error>)
    requires
        old(katsu).wf(),
    ensures
        final(katsu).wf(),
        final(katsu).limit() == old(katsu).limit(),
        final(katsu).frames() == run_spec(program@, old(katsu).frames(), old(katsu).limit()).env,
        match r {
            Ok(v) => run_spec(program@, old(katsu).frames(), old(katsu).limit()).result
                matches Ok(values) && last_result(values) == match v {
                Some(v) => Some(v@),
                None => None,
            },
            Err(e) => run_spec(program@, old(katsu).frames(), old(katsu).limit()).result == Err::<
                Seq<Option<ValueView>>,
                Error,
            >(e),
        },
{
    match katsu.eval(program) {
        Ok(values) => {
            let mut values = values;
            let ghost views = options_view(values@);
            match values.pop() {
                Some(last) => {
                    assert(views.last() == match last {
                        Some(v) => Some(v@),
                        None => None,
                    });
                    Ok(last)
                },
                None => Ok(None),
            }
        },
        Err(e) => Err(e),
    }
}

} // verus!
