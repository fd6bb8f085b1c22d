//! What evaluation means, stated over the views of expressions, values and
//! the environment.
//!
//! Evaluation may not end, so every rule takes a bound on how deep it may
//! nest: each step into a part of an expression or into a call takes one from
//! it, and at zero evaluation fails. A rule gives the result together with the
//! environment as evaluation leaves it, also where it fails.

use crate::builtin::builtin_outcome;
use crate::interpreter::env::{child_spec, define_spec, resolve_spec, FrameView};
use crate::interpreter::error::EvalError;
use crate::interpreter::value::{boolean, list_spec, refers_from, ClosureView, ValueView};
use crate::parser::{DatumView, ExpView, TopView};
use vstd::prelude::*;

verus! {

/// How an evaluation ends.
pub struct Outcome<T> {
    pub result: Result<T, EvalError>,
    /// The environment afterwards.
    pub env: Seq<FrameView>,
}

/// The value that a datum stands for when it is evaluated in `frame`: a
/// procedure template becomes a closure over `frame`, everything else keeps
/// its shape.
pub open spec fn lift_spec(d: DatumView, frame: nat) -> ValueView
    decreases d,
{
    match d {
        DatumView::PRIMITIVE(p) => ValueView::PRIMITIVE(p),
        DatumView::LAMBDA(l) => ValueView::CLOSURE(ClosureView { proto: *l, env: frame }),
        DatumView::PAIR(car, cdr) => ValueView::PAIR {
            car: match car {
                Some(a) => Some(Box::new(lift_spec(*a, frame))),
                None => None,
            },
            cdr: match cdr {
                Some(b) => Some(Box::new(lift_spec(*b, frame))),
                None => None,
            },
        },
    }
}

/// The environment after the first `n` parameters are bound in `frame`, each
/// to the argument at its place, in order.
pub open spec fn bind_fixed_spec(
    env: Seq<FrameView>,
    frame: int,
    parameters: Seq<Seq<char>>,
    args: Seq<ValueView>,
    n: int,
) -> Seq<FrameView>
    decreases n,
{
    if 0 < n <= parameters.len() && n <= args.len() {
        define_spec(
            bind_fixed_spec(env, frame, parameters, args, n - 1),
            frame,
            parameters[n - 1],
            args[n - 1],
        )
    } else {
        env
    }
}

/// The environment in which the body of a closure runs: a new frame under the
/// closure's own frame, never under the caller's, with the parameters bound.
///
/// With a fixed number of parameters the arguments must be as many, and each
/// parameter is bound to its argument. Otherwise the first parameter is bound
/// to the list of all arguments, which may be empty. The call fails where the
/// numbers differ, where a procedure that takes a list has no parameter to
/// bind it to, and where the closure's frame is not in the environment.
pub open spec fn call_frame_spec(c: ClosureView, args: Seq<ValueView>, env: Seq<FrameView>) -> Result<
    Seq<FrameView>,
    EvalError,
> {
    if c.env >= env.len() {
        Err(EvalError::NotCallable)
    } else if c.proto.ifvarlen {
        if c.proto.parameters.len() == 0 {
            Err(EvalError::Arity)
        } else {
            Ok(
                define_spec(
                    child_spec(env, c.env as int),
                    env.len() as int,
                    c.proto.parameters[0],
                    list_spec(args),
                ),
            )
        }
    } else if c.proto.parameters.len() != args.len() {
        Err(EvalError::Arity)
    } else {
        Ok(
            bind_fixed_spec(
                child_spec(env, c.env as int),
                env.len() as int,
                c.proto.parameters,
                args,
                args.len() as int,
            ),
        )
    }
}

/// What is left of an evaluation that began in the environment `entry`. The
/// frames that it made are kept where its result refers to one of them: a
/// closure over one of them may yet be called. Otherwise they are dropped:
/// an evaluation that fails, or whose result refers to none of the frames it
/// made, leaves the environment exactly as it found it.
pub open spec fn settle_spec(out: Outcome<ValueView>, entry: Seq<FrameView>) -> Outcome<ValueView> {
    match out.result {
        Ok(v) => if refers_from(v, entry.len()) {
            out
        } else {
            Outcome { result: out.result, env: entry }
        },
        Err(_) => Outcome { result: out.result, env: entry },
    }
}

/// The value of `exp` in `frame`.
///
/// A name has the value of its nearest binding. A literal has the value of its
/// datum. A call evaluates the operator, then the operands from left to right
/// in the same frame, and applies the one to the others; the first failure
/// ends it. A conditional evaluates its test: where that is the boolean true,
/// it is the consequent; otherwise it is the alternative, and without one it
/// has no value. Of the frames made on the way, those are kept that the
/// result needs (see [`settle_spec`]).
pub open spec fn eval_expr_spec(exp: ExpView, frame: nat, env: Seq<FrameView>, depth: nat) -> Outcome<
    ValueView,
>
    decreases depth, 0nat, 0nat,
{
    if depth == 0 {
        Outcome { result: Err(EvalError::Depth), env }
    } else {
        match exp {
            ExpView::IDENTIFIER(name) => match resolve_spec(env, frame as int, name) {
                Some(v) => Outcome { result: Ok(v), env },
                None => Outcome { result: Err(EvalError::Unbound), env },
            },
            ExpView::LITERIAL(d) => Outcome { result: Ok(lift_spec(d, frame)), env },
            ExpView::CALL { operator, operands } => {
                let first = eval_expr_spec(*operator, frame, env, (depth - 1) as nat);
                match first.result {
                    Err(e) => Outcome { result: Err(e), env },
                    Ok(procedure) => {
                        let rest = eval_exps_spec(
                            operands,
                            operands.len() as int,
                            frame,
                            first.env,
                            (depth - 1) as nat,
                        );
                        match rest.result {
                            Err(e) => Outcome { result: Err(e), env },
                            Ok(args) => settle_spec(
                                apply_spec(procedure, args, rest.env, (depth - 1) as nat),
                                env,
                            ),
                        }
                    },
                }
            },
            ExpView::COND { test, consequent, alternative } => {
                let tested = eval_expr_spec(*test, frame, env, (depth - 1) as nat);
                match tested.result {
                    Err(e) => Outcome { result: Err(e), env },
                    Ok(v) => if v == boolean(true) {
                        settle_spec(
                            eval_expr_spec(*consequent, frame, tested.env, (depth - 1) as nat),
                            env,
                        )
                    } else {
                        match alternative {
                            Some(a) => settle_spec(
                                eval_expr_spec(*a, frame, tested.env, (depth - 1) as nat),
                                env,
                            ),
                            None => Outcome { result: Err(EvalError::NoValue), env },
                        }
                    },
                }
            },
        }
    }
}

/// The values of the first `n` of `exps` in `frame`, evaluated from left to
/// right. After a failure nothing more is evaluated.
pub open spec fn eval_exps_spec(
    exps: Seq<ExpView>,
    n: int,
    frame: nat,
    env: Seq<FrameView>,
    depth: nat,
) -> Outcome<Seq<ValueView>>
    decreases depth, 1nat, n,
{
    if 0 < n <= exps.len() {
        let front = eval_exps_spec(exps, n - 1, frame, env, depth);
        match front.result {
            Err(e) => front,
            Ok(values) => {
                let last = eval_expr_spec(exps[n - 1], frame, front.env, depth);
                match last.result {
                    Err(e) => Outcome { result: Err(e), env: last.env },
                    Ok(v) => Outcome { result: Ok(values.push(v)), env: last.env },
                }
            },
        }
    } else {
        Outcome { result: Ok(Seq::empty()), env }
    }
}

/// The first `n` of the internal definitions of a call, evaluated in order in
/// the call's frame, each bound there as soon as it has its value: a later
/// definition sees the earlier ones. After a failure nothing more is evaluated.
pub open spec fn eval_definitions_spec(
    definitions: Seq<(Seq<char>, ExpView)>,
    n: int,
    frame: nat,
    env: Seq<FrameView>,
    depth: nat,
) -> Outcome<()>
    decreases depth, 1nat, n,
{
    if 0 < n <= definitions.len() {
        let front = eval_definitions_spec(definitions, n - 1, frame, env, depth);
        match front.result {
            Err(e) => front,
            Ok(_) => {
                let last = eval_expr_spec(definitions[n - 1].1, frame, front.env, depth);
                match last.result {
                    Err(e) => Outcome { result: Err(e), env: last.env },
                    Ok(v) => Outcome {
                        result: Ok(()),
                        env: define_spec(last.env, frame as int, definitions[n - 1].0, v),
                    },
                }
            },
        }
    } else {
        Outcome { result: Ok(()), env }
    }
}

/// The value of the call of `operator` on `args`.
///
/// A builtin procedure is called on the arguments. A closure gets its frame
/// (see [`call_frame_spec`]), then its internal definitions are evaluated in
/// that frame, then its body. Nothing else can be called. Of the frames made
/// on the way, the call's own among them, those are kept that the result
/// needs (see [`settle_spec`]).
pub open spec fn apply_spec(
    operator: ValueView,
    args: Seq<ValueView>,
    env: Seq<FrameView>,
    depth: nat,
) -> Outcome<ValueView>
    decreases depth, 0nat, 0nat,
{
    match operator {
        ValueView::BUILTIN(b) => Outcome { result: builtin_outcome(b, args), env },
        ValueView::CLOSURE(c) => if depth == 0 {
            Outcome { result: Err(EvalError::Depth), env }
        } else {
            match call_frame_spec(c, args, env) {
                Err(e) => Outcome { result: Err(e), env },
                Ok(bound) => {
                    let defined = eval_definitions_spec(
                        c.proto.definitions,
                        c.proto.definitions.len() as int,
                        env.len(),
                        bound,
                        (depth - 1) as nat,
                    );
                    match defined.result {
                        Err(e) => Outcome { result: Err(e), env },
                        Ok(_) => settle_spec(
                            eval_expr_spec(
                                *c.proto.body,
                                env.len(),
                                defined.env,
                                (depth - 1) as nat,
                            ),
                            env,
                        ),
                    }
                },
            }
        },
        _ => Outcome { result: Err(EvalError::NotCallable), env },
    }
}

/// What a top-level form does. A definition evaluates its expression in the
/// root frame and binds the name there; it yields nothing. An expression
/// yields its value. Where its evaluation ends without one, because a
/// conditional had none, it yields nothing, and that is no failure.
pub open spec fn eval_top_spec(top: TopView, env: Seq<FrameView>, depth: nat) -> Outcome<
    Option<ValueView>,
> {
    match top {
        TopView::DEC { identifier, expression } => {
            let evaluated = eval_expr_spec(expression, 0, env, depth);
            match evaluated.result {
                Err(e) => Outcome { result: Err(e), env: evaluated.env },
                Ok(v) => Outcome {
                    result: Ok(None),
                    env: define_spec(evaluated.env, 0, identifier, v),
                },
            }
        },
        TopView::EXP { expression } => {
            let evaluated = eval_expr_spec(expression, 0, env, depth);
            match evaluated.result {
                Err(EvalError::NoValue) => Outcome { result: Ok(None), env: evaluated.env },
                Err(e) => Outcome { result: Err(e), env: evaluated.env },
                Ok(v) => Outcome { result: Ok(Some(v)), env: evaluated.env },
            }
        },
    }
}

/// Once the operands have failed, they stay failed, with the same outcome.
pub proof fn lemma_exps_failed(
    exps: Seq<ExpView>,
    k: int,
    n: int,
    frame: nat,
    env: Seq<FrameView>,
    depth: nat,
)
    requires
        0 <= k <= n <= exps.len(),
        eval_exps_spec(exps, k, frame, env, depth).result is Err,
    ensures
        eval_exps_spec(exps, n, frame, env, depth) == eval_exps_spec(exps, k, frame, env, depth),
    decreases n - k,
{
    if k < n {
        lemma_exps_failed(exps, k, n - 1, frame, env, depth);
    }
}

/// Once the definitions have failed, they stay failed, with the same outcome.
pub proof fn lemma_definitions_failed(
    definitions: Seq<(Seq<char>, ExpView)>,
    k: int,
    n: int,
    frame: nat,
    env: Seq<FrameView>,
    depth: nat,
)
    requires
        0 <= k <= n <= definitions.len(),
        eval_definitions_spec(definitions, k, frame, env, depth).result is Err,
    ensures
        eval_definitions_spec(definitions, n, frame, env, depth) == eval_definitions_spec(
            definitions,
            k,
            frame,
            env,
            depth,
        ),
    decreases n - k,
{
    if k < n {
        lemma_definitions_failed(definitions, k, n - 1, frame, env, depth);
    }
}

/// An evaluation that fails leaves the environment as it found it.
pub proof fn lemma_failure_keeps(exp: ExpView, frame: nat, env: Seq<FrameView>, depth: nat)
    ensures
        eval_expr_spec(exp, frame, env, depth).result is Err ==> eval_expr_spec(
            exp,
            frame,
            env,
            depth,
        ).env == env,
{
}

} // verus!
