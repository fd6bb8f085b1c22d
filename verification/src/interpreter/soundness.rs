//! No closure outlives its frame.
//!
//! Frames are dropped when the evaluation that made them is over. This is
//! safe because an evaluation keeps its frames whenever its result refers to
//! one of them, and nothing else can: an environment in which every closure
//! is over a frame that is there stays such an environment, whatever is
//! evaluated in it.

use crate::builtin::{builtin_name, builtin_outcome, builtin_table, table_bindings, Builtin};
use crate::interpreter::env::{child_spec, define_spec, resolve_spec, well_formed, FrameView};
use crate::interpreter::laws::{
    law_call_frame, law_definitions_extend, law_eval_extends, law_exps_extend, lemma_bind_fixed,
};
use crate::interpreter::semantics::{
    apply_spec, bind_fixed_spec, call_frame_spec, eval_definitions_spec, eval_expr_spec,
    eval_exps_spec, eval_top_spec, lift_spec, settle_spec, Outcome,
};
use crate::interpreter::value::{boolean, list_spec, refers_from, ClosureView, ValueView};
use crate::parser::{DatumView, ExpView, TopView};
use vstd::prelude::*;

verus! {

/// None of `values` refers to a frame from `n` on.
pub open spec fn all_within(values: Seq<ValueView>, n: nat) -> bool {
    forall|i: int| 0 <= i < values.len() ==> !refers_from(#[trigger] values[i], n)
}

/// Every closure that the environment holds is over one of its frames.
pub open spec fn sound(env: Seq<FrameView>) -> bool {
    &&& well_formed(env)
    &&& forall|f: int, name: Seq<char>|
        0 <= f < env.len() && #[trigger] env[f].bindings.contains_key(name) ==> !refers_from(
            env[f].bindings[name],
            env.len(),
        )
}

/// A value that refers to no frame from `n` on refers to none from further on.
pub proof fn lemma_within_grows(v: ValueView, n: nat, m: nat)
    requires
        !refers_from(v, n),
        n <= m,
    ensures
        !refers_from(v, m),
    decreases v,
{
    match v {
        ValueView::PAIR { car, cdr } => {
            match car {
                Some(a) => {
                    lemma_within_grows(*a, n, m);
                },
                None => {},
            }
            match cdr {
                Some(d) => {
                    lemma_within_grows(*d, n, m);
                },
                None => {},
            }
        },
        _ => {},
    }
}

/// Values that refer to no frame from `n` on refer to none from further on.
pub proof fn lemma_all_within_grows(values: Seq<ValueView>, n: nat, m: nat)
    requires
        all_within(values, n),
        n <= m,
    ensures
        all_within(values, m),
{
    assert forall|i: int| 0 <= i < values.len() implies !refers_from(#[trigger] values[i], m) by {
        lemma_within_grows(values[i], n, m);
    }
}

/// The value of a datum refers to no frame but the one it is evaluated in.
pub proof fn lemma_lift_within(d: DatumView, frame: nat, n: nat)
    requires
        frame < n,
    ensures
        !refers_from(lift_spec(d, frame), n),
    decreases d,
{
    match d {
        DatumView::PAIR(car, cdr) => {
            match car {
                Some(a) => {
                    lemma_lift_within(*a, frame, n);
                },
                None => {},
            }
            match cdr {
                Some(b) => {
                    lemma_lift_within(*b, frame, n);
                },
                None => {},
            }
        },
        _ => {},
    }
}

/// The list of values refers to what they refer to.
pub proof fn lemma_list_within(values: Seq<ValueView>, n: nat)
    requires
        all_within(values, n),
    ensures
        !refers_from(list_spec(values), n),
    decreases values.len(),
{
    if values.len() > 0 {
        assert(!refers_from(values[0], n));
        assert forall|i: int| 0 <= i < values.skip(1).len() implies !refers_from(
            #[trigger] values.skip(1)[i],
            n,
        ) by {
            assert(values.skip(1)[i] == values[i + 1]);
        }
        lemma_list_within(values.skip(1), n);
    }
}

/// What a builtin procedure returns refers to what its arguments refer to.
pub proof fn lemma_builtin_within(b: Builtin, args: Seq<ValueView>, n: nat)
    requires
        all_within(args, n),
    ensures
        builtin_outcome(b, args) matches Ok(v) ==> !refers_from(v, n),
{
    if args.len() >= 1 {
        assert(!refers_from(args[0], n));
    }
    if args.len() >= 2 {
        assert(!refers_from(args[1], n));
    }
}

/// What a name has in a sound environment is over frames that are there.
pub proof fn lemma_resolve_within(env: Seq<FrameView>, frame: int, name: Seq<char>)
    requires
        sound(env),
    ensures
        resolve_spec(env, frame, name) matches Some(v) ==> !refers_from(v, env.len()),
    decreases frame,
{
    if 0 <= frame < env.len() && !env[frame].bindings.contains_key(name) {
        match env[frame].parent {
            Some(p) => {
                if p < frame {
                    lemma_resolve_within(env, p as int, name);
                }
            },
            None => {},
        }
    }
}

/// Binding a value that is over frames that are there keeps the environment
/// sound.
pub proof fn lemma_define_sound(env: Seq<FrameView>, frame: int, name: Seq<char>, v: ValueView)
    requires
        sound(env),
        0 <= frame < env.len(),
        !refers_from(v, env.len()),
    ensures
        sound(define_spec(env, frame, name, v)),
{
    let after = define_spec(env, frame, name, v);
    assert forall|f: int, other: Seq<char>|
        0 <= f < after.len() && #[trigger] after[f].bindings.contains_key(other) implies !refers_from(
        after[f].bindings[other],
        after.len(),
    ) by {
        if f == frame && other == name {
        } else {
            assert(env[f].bindings.contains_key(other));
        }
    }
}

/// A new frame keeps the environment sound.
pub proof fn lemma_child_sound(env: Seq<FrameView>, parent: int)
    requires
        sound(env),
        0 <= parent < env.len(),
    ensures
        sound(child_spec(env, parent)),
{
    let after = child_spec(env, parent);
    assert forall|f: int, name: Seq<char>|
        0 <= f < after.len() && #[trigger] after[f].bindings.contains_key(name) implies !refers_from(
        after[f].bindings[name],
        after.len(),
    ) by {
        if f < env.len() {
            assert(env[f].bindings.contains_key(name));
            lemma_within_grows(env[f].bindings[name], env.len(), after.len());
        }
    }
}

/// Binding parameters to values that are over frames that are there keeps the
/// environment sound.
pub proof fn lemma_bind_fixed_sound(
    env: Seq<FrameView>,
    frame: int,
    parameters: Seq<Seq<char>>,
    args: Seq<ValueView>,
    n: int,
)
    requires
        sound(env),
        0 <= frame < env.len(),
        all_within(args, env.len()),
    ensures
        sound(bind_fixed_spec(env, frame, parameters, args, n)),
    decreases n,
{
    if 0 < n <= parameters.len() && n <= args.len() {
        lemma_bind_fixed_sound(env, frame, parameters, args, n - 1);
        lemma_bind_fixed(env, frame, parameters, args, n - 1);
        let before = bind_fixed_spec(env, frame, parameters, args, n - 1);
        assert(!refers_from(args[n - 1], env.len()));
        lemma_define_sound(before, frame, parameters[n - 1], args[n - 1]);
    }
}

/// The frame of a call keeps the environment sound.
pub proof fn lemma_call_frame_sound(c: ClosureView, args: Seq<ValueView>, env: Seq<FrameView>)
    requires
        sound(env),
        all_within(args, env.len()),
    ensures
        call_frame_spec(c, args, env) matches Ok(bound) ==> sound(bound),
{
    if c.env < env.len() {
        let made = child_spec(env, c.env as int);
        lemma_child_sound(env, c.env as int);
        lemma_all_within_grows(args, env.len(), made.len());
        if c.proto.ifvarlen {
            if c.proto.parameters.len() > 0 {
                lemma_list_within(args, made.len());
                lemma_define_sound(made, env.len() as int, c.proto.parameters[0], list_spec(args));
            }
        } else {
            lemma_bind_fixed_sound(
                made,
                env.len() as int,
                c.proto.parameters,
                args,
                args.len() as int,
            );
        }
    }
}

/// What is left of an evaluation in a sound environment is sound, and its
/// result is over frames that are there.
pub proof fn lemma_settle_sound(out: Outcome<ValueView>, entry: Seq<FrameView>)
    requires
        sound(entry),
        sound(out.env),
        out.result matches Ok(v) ==> !refers_from(v, out.env.len()),
    ensures
        sound(settle_spec(out, entry).env),
        settle_spec(out, entry).result matches Ok(v) ==> !refers_from(
            v,
            settle_spec(out, entry).env.len(),
        ),
{
}

/// Evaluation keeps the environment sound, and its value is over frames that
/// are there.
pub proof fn law_sound_eval(exp: ExpView, frame: nat, env: Seq<FrameView>, depth: nat)
    requires
        sound(env),
        frame < env.len(),
    ensures
        sound(eval_expr_spec(exp, frame, env, depth).env),
        eval_expr_spec(exp, frame, env, depth).result matches Ok(v) ==> !refers_from(
            v,
            eval_expr_spec(exp, frame, env, depth).env.len(),
        ),
    decreases depth, 0nat, 0nat,
{
    if depth > 0 {
        let d = (depth - 1) as nat;
        match exp {
            ExpView::IDENTIFIER(name) => {
                lemma_resolve_within(env, frame as int, name);
            },
            ExpView::LITERIAL(datum) => {
                lemma_lift_within(datum, frame, env.len());
            },
            ExpView::CALL { operator, operands } => {
                law_sound_eval(*operator, frame, env, d);
                law_eval_extends(*operator, frame, env, d);
                let first = eval_expr_spec(*operator, frame, env, d);
                if let Ok(procedure) = first.result {
                    let n = operands.len() as int;
                    law_sound_exps(operands, n, frame, first.env, d);
                    law_exps_extend(operands, n, frame, first.env, d);
                    let rest = eval_exps_spec(operands, n, frame, first.env, d);
                    if let Ok(args) = rest.result {
                        lemma_within_grows(procedure, first.env.len(), rest.env.len());
                        law_sound_apply(procedure, args, rest.env, d);
                        lemma_settle_sound(apply_spec(procedure, args, rest.env, d), env);
                    }
                }
            },
            ExpView::COND { test, consequent, alternative } => {
                law_sound_eval(*test, frame, env, d);
                law_eval_extends(*test, frame, env, d);
                let tested = eval_expr_spec(*test, frame, env, d);
                if let Ok(v) = tested.result {
                    if v == boolean(true) {
                        law_sound_eval(*consequent, frame, tested.env, d);
                        lemma_settle_sound(eval_expr_spec(*consequent, frame, tested.env, d), env);
                    } else if let Some(a) = alternative {
                        law_sound_eval(*a, frame, tested.env, d);
                        lemma_settle_sound(eval_expr_spec(*a, frame, tested.env, d), env);
                    }
                }
            },
        }
    }
}

/// The evaluation of operands keeps the environment sound, and their values
/// are over frames that are there.
pub proof fn law_sound_exps(
    exps: Seq<ExpView>,
    n: int,
    frame: nat,
    env: Seq<FrameView>,
    depth: nat,
)
    requires
        sound(env),
        frame < env.len(),
    ensures
        sound(eval_exps_spec(exps, n, frame, env, depth).env),
        eval_exps_spec(exps, n, frame, env, depth).result matches Ok(values) ==> all_within(
            values,
            eval_exps_spec(exps, n, frame, env, depth).env.len(),
        ),
    decreases depth, 1nat, n,
{
    if 0 < n <= exps.len() {
        law_sound_exps(exps, n - 1, frame, env, depth);
        law_exps_extend(exps, n - 1, frame, env, depth);
        let front = eval_exps_spec(exps, n - 1, frame, env, depth);
        if let Ok(values) = front.result {
            law_sound_eval(exps[n - 1], frame, front.env, depth);
            law_eval_extends(exps[n - 1], frame, front.env, depth);
            let last = eval_expr_spec(exps[n - 1], frame, front.env, depth);
            if let Ok(v) = last.result {
                lemma_all_within_grows(values, front.env.len(), last.env.len());
                assert forall|i: int| 0 <= i < values.push(v).len() implies !refers_from(
                    #[trigger] values.push(v)[i],
                    last.env.len(),
                ) by {
                    if i < values.len() {
                        assert(values.push(v)[i] == values[i]);
                    }
                }
            }
        }
    }
}

/// The evaluation of internal definitions keeps the environment sound.
pub proof fn law_sound_definitions(
    definitions: Seq<(Seq<char>, ExpView)>,
    n: int,
    frame: nat,
    env: Seq<FrameView>,
    depth: nat,
)
    requires
        sound(env),
        frame < env.len(),
    ensures
        sound(eval_definitions_spec(definitions, n, frame, env, depth).env),
    decreases depth, 1nat, n,
{
    if 0 < n <= definitions.len() {
        law_sound_definitions(definitions, n - 1, frame, env, depth);
        law_definitions_extend(definitions, n - 1, frame, env, depth);
        let front = eval_definitions_spec(definitions, n - 1, frame, env, depth);
        if front.result is Ok {
            law_sound_eval(definitions[n - 1].1, frame, front.env, depth);
            law_eval_extends(definitions[n - 1].1, frame, front.env, depth);
            let last = eval_expr_spec(definitions[n - 1].1, frame, front.env, depth);
            if let Ok(v) = last.result {
                lemma_define_sound(last.env, frame as int, definitions[n - 1].0, v);
            }
        }
    }
}

/// A call keeps the environment sound, and its value is over frames that are
/// there: no closure is ever over a frame that was dropped.
pub proof fn law_sound_apply(
    operator: ValueView,
    args: Seq<ValueView>,
    env: Seq<FrameView>,
    depth: nat,
)
    requires
        sound(env),
        !refers_from(operator, env.len()),
        all_within(args, env.len()),
    ensures
        sound(apply_spec(operator, args, env, depth).env),
        apply_spec(operator, args, env, depth).result matches Ok(v) ==> !refers_from(
            v,
            apply_spec(operator, args, env, depth).env.len(),
        ),
    decreases depth, 0nat, 0nat,
{
    match operator {
        ValueView::BUILTIN(b) => {
            lemma_builtin_within(b, args, env.len());
        },
        ValueView::CLOSURE(c) => {
            if depth > 0 {
                let d = (depth - 1) as nat;
                lemma_call_frame_sound(c, args, env);
                law_call_frame(c, args, env);
                if let Ok(bound) = call_frame_spec(c, args, env) {
                    let n = c.proto.definitions.len() as int;
                    law_sound_definitions(c.proto.definitions, n, env.len(), bound, d);
                    law_definitions_extend(c.proto.definitions, n, env.len(), bound, d);
                    let defined = eval_definitions_spec(c.proto.definitions, n, env.len(), bound, d);
                    if defined.result is Ok {
                        law_sound_eval(*c.proto.body, env.len(), defined.env, d);
                        lemma_settle_sound(
                            eval_expr_spec(*c.proto.body, env.len(), defined.env, d),
                            env,
                        );
                    }
                }
            }
        },
        _ => {},
    }
}

/// A top-level form keeps the environment sound, and what it yields is over
/// frames that are there.
pub proof fn law_sound_top(top: TopView, env: Seq<FrameView>, depth: nat)
    requires
        sound(env),
    ensures
        sound(eval_top_spec(top, env, depth).env),
        eval_top_spec(top, env, depth).result matches Ok(Some(v)) ==> !refers_from(
            v,
            eval_top_spec(top, env, depth).env.len(),
        ),
{
    match top {
        TopView::DEC { identifier, expression } => {
            law_sound_eval(expression, 0, env, depth);
            let evaluated = eval_expr_spec(expression, 0, env, depth);
            if let Ok(v) = evaluated.result {
                lemma_define_sound(evaluated.env, 0, identifier, v);
            }
        },
        TopView::EXP { expression } => {
            law_sound_eval(expression, 0, env, depth);
        },
    }
}

/// The first entries of the table are bound to builtin procedures only.
pub proof fn lemma_table_builtins(n: int, name: Seq<char>)
    requires
        0 <= n <= 17,
        table_bindings(n).contains_key(name),
    ensures
        table_bindings(n)[name] is BUILTIN,
    decreases n,
{
    assert(builtin_table().len() == 17);
    if n > 0 && name != builtin_name(builtin_table()[n - 1]) {
        lemma_table_builtins(n - 1, name);
    }
}

/// The environment of a new interpreter is sound.
pub proof fn law_sound_start()
    ensures
        sound(seq![FrameView { parent: None, bindings: table_bindings(17) }]),
{
    let env = seq![FrameView { parent: None, bindings: table_bindings(17) }];
    assert forall|f: int, name: Seq<char>|
        0 <= f < env.len() && #[trigger] env[f].bindings.contains_key(name) implies !refers_from(
        env[f].bindings[name],
        env.len(),
    ) by {
        lemma_table_builtins(17, name);
    }
}

} // verus!
