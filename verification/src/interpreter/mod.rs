//! The evaluator: values, the environment, and the rules by which an
//! expression becomes a value.

use crate::builtin::apply_builtin;
use crate::interpreter::env::{extends, well_formed};
use crate::interpreter::semantics::{
    apply_spec, bind_fixed_spec, call_frame_spec, eval_definitions_spec, eval_expr_spec,
    eval_exps_spec, eval_top_spec, lemma_definitions_failed, lemma_exps_failed,
    lemma_failure_keeps, lift_spec, settle_spec, Outcome,
};
use crate::interpreter::value::values_view;
use crate::parser::{
    definitions_view, exps_view, lemma_definitions_view, lemma_exps_view, names_view, Datum, Exp,
    Lambda, Primitive, Top,
};
use std::rc::Rc;
use vstd::prelude::*;

pub mod env;
pub mod equality;
pub mod error;
pub mod laws;
pub mod semantics;
pub mod soundness;
pub mod value;

pub use env::{Env, FrameView};
pub use error::EvalError;
pub use value::{Clojure, ClosureView, Value, ValueView};

verus! {

/// The view of what evaluation returns.
pub open spec fn result_view(r: Result<Rc<Value>, EvalError>) -> Result<ValueView, EvalError> {
    match r {
        Ok(v) => Ok(v@),
        Err(e) => Err(e),
    }
}

/// The view of what the evaluation of operands returns.
pub open spec fn results_view(r: Result<Vec<Rc<Value>>, EvalError>) -> Result<
    Seq<ValueView>,
    EvalError,
> {
    match r {
        Ok(values) => Ok(values_view(values@)),
        Err(e) => Err(e),
    }
}

/// The view of what a top-level form returns.
pub open spec fn top_view(r: Result<Option<Rc<Value>>, EvalError>) -> Result<
    Option<ValueView>,
    EvalError,
> {
    match r {
        Ok(Some(v)) => Ok(Some(v@)),
        Ok(None) => Ok(None),
        Err(e) => Err(e),
    }
}

/// `after` holds every frame of `before` but `frame` unchanged.
pub open spec fn extends_but(before: Seq<FrameView>, after: Seq<FrameView>, frame: int) -> bool {
    &&& before.len() <= after.len()
    &&& forall|i: int| 0 <= i < before.len() && i != frame ==> #[trigger] after[i] == before[i]
}

/// The value that a datum stands for when it is evaluated in `frame`.
pub fn eval_datum(datum: &Rc<Datum>, frame: usize) -> (v: Rc<Value>)
    ensures
        v@ == lift_spec(datum@, frame as nat),
    decreases datum,
{
    match &**datum {
        Datum::LAMBDA(lambda) => Value::closure(lambda.clone(), frame),
        Datum::PRIMITIVE(primitive) => Rc::new(Value::PRIMITIVE(primitive.clone())),
        Datum::PAIR((car, cdr)) => {
            let car = match car {
                Some(a) => Some(eval_datum(a, frame)),
                None => None,
            };
            let cdr = match cdr {
                Some(d) => Some(eval_datum(d, frame)),
                None => None,
            };
            Rc::new(Value::PAIR { car, cdr })
        },
    }
}

/// Evaluates the operands of a call from left to right, up to the first
/// failure.
pub fn eval_operands(operands: &Vec<Rc<Exp>>, frame: usize, env: &mut Env, depth: usize) -> (r:
    Result<Vec<Rc<Value>>, EvalError>)
    requires
        old(env).wf(),
        frame < old(env)@.len(),
    ensures
        final(env).wf(),
        extends(old(env)@, final(env)@),
        eval_exps_spec(
            exps_view(operands@),
            operands.len() as int,
            frame as nat,
            old(env)@,
            depth as nat,
        ) == (Outcome { result: results_view(r), env: final(env)@ }),
    decreases depth, 1nat,
{
    let ghost start = env@;
    let ghost exps = exps_view(operands@);
    let mut values: Vec<Rc<Value>> = Vec::new();
    let mut i: usize = 0;
    assert(values_view(values@) =~= Seq::<ValueView>::empty());
    while i < operands.len()
        invariant
            i <= operands.len(),
            exps == exps_view(operands@),
            start == old(env)@,
            env.wf(),
            frame < env@.len(),
            extends(start, env@),
            eval_exps_spec(exps, i as int, frame as nat, start, depth as nat) == (Outcome {
                result: Ok::<Seq<ValueView>, EvalError>(values_view(values@)),
                env: env@,
            }),
        decreases operands.len() - i,
    {
        proof {
            lemma_exps_view(operands@);
        }
        match eval_expr(&operands[i], frame, env, depth) {
            Ok(v) => {
                let ghost before = values@;
                values.push(v);
                assert(values_view(values@) =~= values_view(before).push(v@));
            },
            Err(e) => {
                proof {
                    lemma_exps_failed(
                        exps,
                        i + 1,
                        operands.len() as int,
                        frame as nat,
                        start,
                        depth as nat,
                    );
                }
                return Err(e);
            },
        }
        i = i + 1;
    }
    Ok(values)
}

/// Evaluates the internal definitions of a call in the call's frame, binding
/// each there as soon as it has its value, up to the first failure.
pub fn eval_definitions(
    definitions: &Vec<(String, Rc<Exp>)>,
    frame: usize,
    env: &mut Env,
    depth: usize,
) -> (r: Result<(), EvalError>)
    requires
        old(env).wf(),
        frame < old(env)@.len(),
    ensures
        final(env).wf(),
        extends_but(old(env)@, final(env)@, frame as int),
        eval_definitions_spec(
            definitions_view(definitions@),
            definitions.len() as int,
            frame as nat,
            old(env)@,
            depth as nat,
        ) == (Outcome { result: r, env: final(env)@ }),
    decreases depth, 1nat,
{
    let ghost start = env@;
    let ghost views = definitions_view(definitions@);
    let mut i: usize = 0;
    while i < definitions.len()
        invariant
            i <= definitions.len(),
            views == definitions_view(definitions@),
            start == old(env)@,
            env.wf(),
            frame < env@.len(),
            extends_but(start, env@, frame as int),
            eval_definitions_spec(views, i as int, frame as nat, start, depth as nat) == (Outcome {
                result: Ok::<(), EvalError>(()),
                env: env@,
            }),
        decreases definitions.len() - i,
    {
        proof {
            lemma_definitions_view(definitions@);
        }
        match eval_expr(&definitions[i].1, frame, env, depth) {
            Ok(v) => {
                env.insert(frame, definitions[i].0.clone(), v);
            },
            Err(e) => {
                proof {
                    lemma_definitions_failed(
                        views,
                        i + 1,
                        definitions.len() as int,
                        frame as nat,
                        start,
                        depth as nat,
                    );
                }
                return Err(e);
            },
        }
        i = i + 1;
    }
    Ok(())
}

/// Makes the frame in which the body of a closure runs, and returns its index.
pub fn call_frame(closure: &Clojure, operands: &Vec<Rc<Value>>, env: &mut Env) -> (r: Result<
    usize,
    EvalError,
>)
    requires
        old(env).wf(),
    ensures
        final(env).wf(),
        extends(old(env)@, final(env)@),
        match r {
            Ok(frame) => frame == old(env)@.len() && frame < final(env)@.len() && call_frame_spec(
                closure@,
                values_view(operands@),
                old(env)@,
            ) == Ok::<Seq<FrameView>, EvalError>(final(env)@),
            Err(e) => final(env)@ == old(env)@ && call_frame_spec(
                closure@,
                values_view(operands@),
                old(env)@,
            ) == Err::<Seq<FrameView>, EvalError>(e),
        },
{
    let lambda: &Lambda = &closure.proto;
    let ghost parameters = names_view(lambda.parameters@);
    let ghost args = values_view(operands@);
    if closure.env >= env.len() {
        return Err(EvalError::NotCallable);
    }
    if lambda.ifvarlen {
        if lambda.parameters.len() == 0 {
            return Err(EvalError::Arity);
        }
        let frame = env.with_parent(closure.env);
        let all = Value::list(operands);
        env.insert(frame, lambda.parameters[0].clone(), all);
        Ok(frame)
    } else {
        if lambda.parameters.len() != operands.len() {
            return Err(EvalError::Arity);
        }
        let frame = env.with_parent(closure.env);
        let ghost made = env@;
        let mut i: usize = 0;
        while i < operands.len()
            invariant
                i <= operands.len(),
                lambda.parameters.len() == operands.len(),
                parameters == names_view(lambda.parameters@),
                args == values_view(operands@),
                env.wf(),
                frame < env@.len(),
                frame == old(env)@.len(),
                extends(old(env)@, env@),
                env@ == bind_fixed_spec(made, frame as int, parameters, args, i as int),
            decreases operands.len() - i,
        {
            env.insert(frame, lambda.parameters[i].clone(), operands[i].clone());
            i = i + 1;
        }
        Ok(frame)
    }
}

/// Drops the frames that an evaluation made, unless its result refers to one
/// of them. `base` is the number of frames that the evaluation found.
fn settle(
    r: &Result<Rc<Value>, EvalError>,
    env: &mut Env,
    base: usize,
    Ghost(entry): Ghost<Seq<FrameView>>,
)
    requires
        old(env).wf(),
        well_formed(entry),
        entry.len() == base,
        extends(entry, old(env)@),
    ensures
        final(env).wf(),
        extends(entry, final(env)@),
        settle_spec((Outcome { result: result_view(*r), env: old(env)@ }), entry) == (Outcome {
            result: result_view(*r),
            env: final(env)@,
        }),
{
    if env.len() > base {
        let keep = match r {
            Ok(v) => v.refers_from(base),
            Err(_) => false,
        };
        if !keep {
            env.truncate(base);
            assert(env@ =~= entry);
        }
    } else {
        assert(env@ =~= entry);
    }
}

/// Applies a procedure to arguments.
pub fn apply(operator: &Rc<Value>, operands: Vec<Rc<Value>>, env: &mut Env, depth: usize) -> (r:
    Result<Rc<Value>, EvalError>)
    requires
        old(env).wf(),
    ensures
        final(env).wf(),
        extends(old(env)@, final(env)@),
        apply_spec(operator@, values_view(operands@), old(env)@, depth as nat) == (Outcome {
            result: result_view(r),
            env: final(env)@,
        }),
    decreases depth, 0nat,
{
    match &**operator {
        Value::BUILTIN(builtin) => apply_builtin(*builtin, operands),
        Value::CLOSURE(closure) => {
            if depth == 0 {
                return Err(EvalError::Depth);
            }
            let ghost entry = env@;
            let base = env.len();
            let frame = match call_frame(closure, &operands, env) {
                Ok(frame) => frame,
                Err(e) => {
                    return Err(e);
                },
            };
            match eval_definitions(&closure.proto.definitions, frame, env, depth - 1) {
                Ok(_) => {},
                Err(e) => {
                    let failed = Err(e);
                    settle(&failed, env, base, Ghost(entry));
                    return failed;
                },
            }
            let r = eval_expr(&closure.proto.body, frame, env, depth - 1);
            settle(&r, env, base, Ghost(entry));
            r
        },
        _ => Err(EvalError::NotCallable),
    }
}

/// Evaluates an expression in a frame.
pub fn eval_expr(expr: &Rc<Exp>, frame: usize, env: &mut Env, depth: usize) -> (r: Result<
    Rc<Value>,
    EvalError,
>)
    requires
        old(env).wf(),
        frame < old(env)@.len(),
    ensures
        final(env).wf(),
        extends(old(env)@, final(env)@),
        eval_expr_spec(expr@, frame as nat, old(env)@, depth as nat) == (Outcome {
            result: result_view(r),
            env: final(env)@,
        }),
    decreases depth, 0nat,
{
    if depth == 0 {
        return Err(EvalError::Depth);
    }
    let ghost entry = env@;
    let base = env.len();
    match &**expr {
        Exp::IDENTIFIER(identifier) => match env.resolve(frame, identifier.as_str()) {
            Some(v) => Ok(v),
            None => Err(EvalError::Unbound),
        },
        Exp::LITERIAL(datum) => Ok(eval_datum(datum, frame)),
        Exp::CALL { operator, operands } => {
            let procedure = match eval_expr(operator, frame, env, depth - 1) {
                Ok(v) => v,
                Err(e) => {
                    proof {
                        lemma_failure_keeps(operator@, frame as nat, entry, (depth - 1) as nat);
                    }
                    return Err(e);
                },
            };
            let args = match eval_operands(operands, frame, env, depth - 1) {
                Ok(values) => values,
                Err(e) => {
                    let failed = Err(e);
                    settle(&failed, env, base, Ghost(entry));
                    return failed;
                },
            };
            let r = apply(&procedure, args, env, depth - 1);
            settle(&r, env, base, Ghost(entry));
            r
        },
        Exp::COND { test, consequent, alternative } => {
            let tested = match eval_expr(test, frame, env, depth - 1) {
                Ok(v) => v,
                Err(e) => {
                    proof {
                        lemma_failure_keeps(test@, frame as nat, entry, (depth - 1) as nat);
                    }
                    return Err(e);
                },
            };
            if is_true(&tested) {
                let r = eval_expr(consequent, frame, env, depth - 1);
                settle(&r, env, base, Ghost(entry));
                r
            } else {
                match alternative {
                    Some(a) => {
                        let r = eval_expr(a, frame, env, depth - 1);
                        settle(&r, env, base, Ghost(entry));
                        r
                    },
                    None => {
                        let failed = Err(EvalError::NoValue);
                        settle(&failed, env, base, Ghost(entry));
                        failed
                    },
                }
            }
        },
    }
}

/// Whether a value is the boolean true.
pub fn is_true(v: &Rc<Value>) -> (b: bool)
    ensures
        b == (v@ == value::boolean(true)),
{
    match &**v {
        Value::PRIMITIVE(p) => match &**p {
            Primitive::BOOLEAN(b) => *b,
            _ => false,
        },
        _ => false,
    }
}

/// Evaluates a top-level form in the root frame. A definition yields nothing,
/// an expression its value, and an expression whose evaluation ends without a
/// value, because a conditional had none, nothing.
pub fn eval(top: Top, env: &mut Env, depth: usize) -> (r: Result<Option<Rc<Value>>, EvalError>)
    requires
        old(env).wf(),
    ensures
        final(env).wf(),
        extends_but(old(env)@, final(env)@, 0),
        eval_top_spec(top@, old(env)@, depth as nat) == (Outcome {
            result: top_view(r),
            env: final(env)@,
        }),
{
    match top {
        Top::DEC { identifier, expression } => {
            match eval_expr(&expression, 0, env, depth) {
                Ok(v) => {
                    env.insert(0, identifier, v);
                    Ok(None)
                },
                Err(e) => Err(e),
            }
        },
        Top::EXP { expression } => {
            match eval_expr(&expression, 0, env, depth) {
                Ok(v) => Ok(Some(v)),
                Err(EvalError::NoValue) => Ok(None),
                Err(e) => Err(e),
            }
        },
    }
}

} // verus!
