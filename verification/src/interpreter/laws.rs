//! What holds of every evaluation: arithmetic, equality, scoping, and the
//! binding of arguments.

use crate::builtin::{
    builtin_name, builtin_table, car_fatal, car_spec, cdr_fatal, cdr_spec, cons_spec, eqv_spec,
    equal_number_spec, minus_number_spec, plus_number_spec, table_bindings, wrap, Builtin,
};
use crate::interpreter::env::{
    child_spec, define_spec, extends, resolve_spec, well_formed, FrameView,
};
use crate::interpreter::error::EvalError;
use crate::interpreter::extends_but;
use crate::interpreter::semantics::{
    apply_spec, bind_fixed_spec, call_frame_spec, eval_definitions_spec, eval_expr_spec,
    eval_exps_spec, eval_top_spec, lemma_failure_keeps, lift_spec,
};
use crate::interpreter::value::{
    boolean, display_value, list_spec, nil, number, pair, value_eqv, ClosureView, ValueView,
};
use crate::parser::{display_datum, DatumView, ExpView, PrimitiveView, TopView};
use vstd::prelude::*;

verus! {

/// `=` on two numbers is the boolean that says whether they are the same
/// number.
pub proof fn law_equal_number(a: i64, b: i64)
    ensures
        equal_number_spec(seq![number(a), number(b)]) == Some(boolean(a == b)),
{
}

/// Subtracting `b` from the sum of `a` and `b` gives `a` back, whether or not
/// the sum wrapped.
pub proof fn law_plus_then_minus(a: i64, b: i64)
    ensures
        plus_number_spec(seq![number(a), number(b)]) == Some(number(wrap(a + b))),
        minus_number_spec(seq![number(wrap(a + b)), number(b)]) == Some(number(a)),
{
    let sum = wrap(a + b);
    assert(wrap(sum - b) == a);
}

/// A primitive is equal to itself.
pub proof fn law_eqv_primitive_reflexive(p: PrimitiveView)
    ensures
        value_eqv(ValueView::PRIMITIVE(p), ValueView::PRIMITIVE(p)),
        eqv_spec(seq![ValueView::PRIMITIVE(p), ValueView::PRIMITIVE(p)]) == Some(boolean(true)),
{
}

/// Two primitives are equal exactly when they are the same primitive.
pub proof fn law_eqv_primitives(p: PrimitiveView, q: PrimitiveView)
    ensures
        value_eqv(ValueView::PRIMITIVE(p), ValueView::PRIMITIVE(q)) == (p == q),
{
}

/// Equality does not depend on the order of its arguments.
pub proof fn law_eqv_symmetric(a: ValueView, b: ValueView)
    ensures
        value_eqv(a, b) == value_eqv(b, a),
    decreases a,
{
    match (a, b) {
        (ValueView::PAIR { car: c1, cdr: d1 }, ValueView::PAIR { car: c2, cdr: d2 }) => {
            match (c1, c2) {
                (Some(x), Some(y)) => {
                    law_eqv_symmetric(*x, *y);
                },
                _ => {},
            }
            match (d1, d2) {
                (Some(x), Some(y)) => {
                    law_eqv_symmetric(*x, *y);
                },
                _ => {},
            }
        },
        _ => {},
    }
}

/// A procedure is equal to nothing, not even to itself, and `eqv?` says so.
pub proof fn law_eqv_procedure(f: ValueView, v: ValueView)
    requires
        f is CLOSURE || f is BUILTIN,
    ensures
        !value_eqv(f, v),
        !value_eqv(v, f),
        !value_eqv(f, f),
        eqv_spec(seq![f, f]) == Some(boolean(false)),
        eqv_spec(seq![f, v]) == Some(boolean(false)),
        eqv_spec(seq![v, f]) == Some(boolean(false)),
{
}

/// Two pairs are equal exactly when their first slots are equal and their
/// second slots are equal.
pub proof fn law_eqv_pairs(a: ValueView, b: ValueView, c: ValueView, d: ValueView)
    ensures
        value_eqv(pair(a, b), pair(c, d)) == (value_eqv(a, c) && value_eqv(b, d)),
{
}

/// `car` and `cdr` give back what `cons` put together, and never end the
/// session on what `cons` made.
pub proof fn law_car_cdr_of_cons(a: ValueView, b: ValueView)
    ensures
        cons_spec(seq![a, b]) == Some(pair(a, b)),
        car_spec(seq![pair(a, b)]) == Some(a),
        cdr_spec(seq![pair(a, b)]) == Some(b),
        !car_fatal(seq![pair(a, b)]),
        !cdr_fatal(seq![pair(a, b)]),
{
}

/// A pair is displayed as its two slots with a dot between them, whatever
/// they hold: a list is not flattened.
pub proof fn law_display_pair(a: ValueView, b: ValueView)
    ensures
        display_value(pair(a, b)) == "("@ + display_value(a) + " . "@ + display_value(b) + ")"@,
{
}

/// A list is displayed as nested pairs that end in `()`.
pub proof fn law_display_list(values: Seq<ValueView>)
    ensures
        values.len() == 0 ==> display_value(list_spec(values)) == "()"@,
        values.len() > 0 ==> display_value(list_spec(values)) == "("@ + display_value(values[0])
            + " . "@ + display_value(list_spec(values.skip(1))) + ")"@,
{
    if values.len() > 0 {
        law_display_pair(values[0], list_spec(values.skip(1)));
    }
}

/// A name that has just been bound in a frame has that value there: the
/// nearest binding wins over every binding further out.
pub proof fn law_define_resolves(env: Seq<FrameView>, frame: int, name: Seq<char>, v: ValueView)
    requires
        0 <= frame < env.len(),
    ensures
        resolve_spec(define_spec(env, frame, name, v), frame, name) == Some(v),
{
}

/// Binding a name in a frame changes nothing for the frames made before it:
/// what they see under any name stays as it was.
pub proof fn law_define_hidden(
    env: Seq<FrameView>,
    frame: int,
    name: Seq<char>,
    v: ValueView,
    outer: int,
    other: Seq<char>,
)
    requires
        well_formed(env),
        0 <= outer < frame < env.len(),
    ensures
        resolve_spec(define_spec(env, frame, name, v), outer, other) == resolve_spec(
            env,
            outer,
            other,
        ),
    decreases outer,
{
    let after = define_spec(env, frame, name, v);
    assert(after[outer] == env[outer]);
    match env[outer].parent {
        Some(p) => {
            if !env[outer].bindings.contains_key(other) {
                law_define_hidden(env, frame, name, v, p as int, other);
            }
        },
        None => {},
    }
}

/// Where an environment has only grown, every frame that was there before
/// sees under every name what it saw before.
pub proof fn law_resolve_unchanged(
    before: Seq<FrameView>,
    after: Seq<FrameView>,
    frame: int,
    name: Seq<char>,
)
    requires
        well_formed(before),
        extends(before, after),
        0 <= frame < before.len(),
    ensures
        resolve_spec(after, frame, name) == resolve_spec(before, frame, name),
    decreases frame,
{
    assert(after[frame] == before[frame]);
    match before[frame].parent {
        Some(p) => {
            if !before[frame].bindings.contains_key(name) {
                law_resolve_unchanged(before, after, p as int, name);
            }
        },
        None => {},
    }
}

/// Binding parameters changes the call's frame only, and not its parent.
pub proof fn lemma_bind_fixed(
    env: Seq<FrameView>,
    frame: int,
    parameters: Seq<Seq<char>>,
    args: Seq<ValueView>,
    n: int,
)
    requires
        0 <= frame < env.len(),
    ensures
        ({
            let bound = bind_fixed_spec(env, frame, parameters, args, n);
            &&& bound.len() == env.len()
            &&& bound[frame].parent == env[frame].parent
            &&& forall|i: int| 0 <= i < env.len() && i != frame ==> #[trigger] bound[i] == env[i]
        }),
    decreases n,
{
    if 0 < n <= parameters.len() && n <= args.len() {
        lemma_bind_fixed(env, frame, parameters, args, n - 1);
    }
}

/// The frame of a call is new, lies under the closure's frame, and leaves
/// every frame that was there before as it was.
pub proof fn law_call_frame(c: ClosureView, args: Seq<ValueView>, env: Seq<FrameView>)
    requires
        well_formed(env),
    ensures
        match call_frame_spec(c, args, env) {
            Ok(bound) => {
                &&& well_formed(bound)
                &&& extends(env, bound)
                &&& bound.len() == env.len() + 1
                &&& bound[env.len() as int].parent == Some(c.env)
            },
            Err(_) => true,
        },
{
    if c.env < env.len() {
        let made = child_spec(env, c.env as int);
        lemma_bind_fixed(made, env.len() as int, c.proto.parameters, args, args.len() as int);
    }
}

/// A procedure that takes a list gets all its arguments, in the order of the
/// call, as a chain of pairs that ends in nil; without arguments it gets nil.
pub proof fn law_variadic_binding(c: ClosureView, args: Seq<ValueView>, env: Seq<FrameView>)
    requires
        c.proto.ifvarlen,
        c.proto.parameters.len() >= 1,
        c.env < env.len(),
    ensures
        call_frame_spec(c, args, env) is Ok,
        resolve_spec(call_frame_spec(c, args, env)->Ok_0, env.len() as int, c.proto.parameters[0])
            == Some(list_spec(args)),
        args.len() == 0 ==> list_spec(args) == nil(),
        args.len() > 0 ==> list_spec(args) == pair(args[0], list_spec(args.skip(1))),
{
}

/// The procedure `(lambda l l)`, called on any number of arguments, returns
/// them all as a chain of pairs that ends in nil, in the order of the call;
/// called on none, it returns nil.
pub proof fn law_variadic_apply(
    c: ClosureView,
    args: Seq<ValueView>,
    env: Seq<FrameView>,
    depth: nat,
)
    requires
        c.proto.ifvarlen,
        c.proto.parameters.len() == 1,
        c.proto.definitions.len() == 0,
        *c.proto.body == ExpView::IDENTIFIER(c.proto.parameters[0]),
        c.env < env.len(),
        depth >= 2,
    ensures
        apply_spec(ValueView::CLOSURE(c), args, env, depth).result == Ok::<ValueView, EvalError>(
            list_spec(args),
        ),
        args.len() == 0 ==> list_spec(args) == nil(),
        args.len() > 0 ==> list_spec(args) == pair(args[0], list_spec(args.skip(1))),
{
    let d = (depth - 1) as nat;
    let frame = env.len();
    law_variadic_binding(c, args, env);
    let bound = call_frame_spec(c, args, env)->Ok_0;
    let defined = eval_definitions_spec(c.proto.definitions, 0, frame, bound, d);
    assert(defined.result is Ok && defined.env == bound);
    let body = eval_expr_spec(*c.proto.body, frame, bound, d);
    assert(body.result == Ok::<ValueView, EvalError>(list_spec(args)));
}

/// After the first `n` parameters are bound, a parameter among them whose
/// name no later one of them bears has the argument at its place.
pub proof fn lemma_bind_fixed_resolves(
    env: Seq<FrameView>,
    frame: int,
    parameters: Seq<Seq<char>>,
    args: Seq<ValueView>,
    n: int,
    i: int,
)
    requires
        0 <= frame < env.len(),
        0 <= i < n <= parameters.len(),
        n <= args.len(),
        forall|j: int| i < j < n ==> parameters[j] != parameters[i],
    ensures
        bind_fixed_spec(env, frame, parameters, args, n)[frame].bindings.contains_key(
            parameters[i],
        ),
        bind_fixed_spec(env, frame, parameters, args, n)[frame].bindings[parameters[i]] == args[i],
        resolve_spec(bind_fixed_spec(env, frame, parameters, args, n), frame, parameters[i])
            == Some(args[i]),
    decreases n,
{
    lemma_bind_fixed(env, frame, parameters, args, n - 1);
    lemma_bind_fixed(env, frame, parameters, args, n);
    if i < n - 1 {
        lemma_bind_fixed_resolves(env, frame, parameters, args, n - 1, i);
        assert(parameters[n - 1] != parameters[i]);
    }
}

/// A procedure with a fixed number of parameters is called with as many
/// arguments, or the call fails; in the call's frame each parameter has the
/// argument at its place, the last one where a name occurs twice.
pub proof fn law_fixed_binding(c: ClosureView, args: Seq<ValueView>, env: Seq<FrameView>, i: int)
    requires
        !c.proto.ifvarlen,
        c.env < env.len(),
        c.proto.parameters.len() == args.len(),
        0 <= i < args.len(),
        forall|j: int| i < j < args.len() ==> c.proto.parameters[j] != c.proto.parameters[i],
    ensures
        call_frame_spec(c, args, env) is Ok,
        resolve_spec(call_frame_spec(c, args, env)->Ok_0, env.len() as int, c.proto.parameters[i])
            == Some(args[i]),
{
    let made = child_spec(env, c.env as int);
    lemma_bind_fixed_resolves(
        made,
        env.len() as int,
        c.proto.parameters,
        args,
        args.len() as int,
        i,
    );
}

/// A call with the wrong number of arguments fails and binds nothing.
pub proof fn law_arity(c: ClosureView, args: Seq<ValueView>, env: Seq<FrameView>, depth: nat)
    requires
        !c.proto.ifvarlen,
        c.env < env.len(),
        c.proto.parameters.len() != args.len(),
        depth > 0,
    ensures
        apply_spec(ValueView::CLOSURE(c), args, env, depth).result == Err::<ValueView, EvalError>(
            EvalError::Arity,
        ),
        apply_spec(ValueView::CLOSURE(c), args, env, depth).env == env,
{
}

/// Evaluation only adds frames: every frame that was there before an
/// expression was evaluated is unchanged afterwards, whatever was bound by
/// the calls made on the way.
pub proof fn law_eval_extends(exp: ExpView, frame: nat, env: Seq<FrameView>, depth: nat)
    requires
        well_formed(env),
        frame < env.len(),
    ensures
        well_formed(eval_expr_spec(exp, frame, env, depth).env),
        extends(env, eval_expr_spec(exp, frame, env, depth).env),
    decreases depth, 0nat, 0nat,
{
    if depth > 0 {
        let d = (depth - 1) as nat;
        match exp {
            ExpView::CALL { operator, operands } => {
                law_eval_extends(*operator, frame, env, d);
                let first = eval_expr_spec(*operator, frame, env, d);
                if let Ok(procedure) = first.result {
                    law_exps_extend(operands, operands.len() as int, frame, first.env, d);
                    let rest = eval_exps_spec(operands, operands.len() as int, frame, first.env, d);
                    if let Ok(args) = rest.result {
                        law_apply_extends(procedure, args, rest.env, d);
                    }
                }
            },
            ExpView::COND { test, consequent, alternative } => {
                law_eval_extends(*test, frame, env, d);
                let tested = eval_expr_spec(*test, frame, env, d);
                if let Ok(v) = tested.result {
                    if v == boolean(true) {
                        law_eval_extends(*consequent, frame, tested.env, d);
                    } else if let Some(a) = alternative {
                        law_eval_extends(*a, frame, tested.env, d);
                    }
                }
            },
            _ => {},
        }
    }
}

/// The evaluation of operands only adds frames.
pub proof fn law_exps_extend(
    exps: Seq<ExpView>,
    n: int,
    frame: nat,
    env: Seq<FrameView>,
    depth: nat,
)
    requires
        well_formed(env),
        frame < env.len(),
    ensures
        well_formed(eval_exps_spec(exps, n, frame, env, depth).env),
        extends(env, eval_exps_spec(exps, n, frame, env, depth).env),
    decreases depth, 1nat, n,
{
    if 0 < n <= exps.len() {
        law_exps_extend(exps, n - 1, frame, env, depth);
        let front = eval_exps_spec(exps, n - 1, frame, env, depth);
        if front.result is Ok {
            law_eval_extends(exps[n - 1], frame, front.env, depth);
        }
    }
}

/// The evaluation of internal definitions adds frames and binds in the call's
/// frame; every other frame that was there before is unchanged.
pub proof fn law_definitions_extend(
    definitions: Seq<(Seq<char>, ExpView)>,
    n: int,
    frame: nat,
    env: Seq<FrameView>,
    depth: nat,
)
    requires
        well_formed(env),
        frame < env.len(),
    ensures
        well_formed(eval_definitions_spec(definitions, n, frame, env, depth).env),
        extends_but(env, eval_definitions_spec(definitions, n, frame, env, depth).env, frame as int),
    decreases depth, 1nat, n,
{
    if 0 < n <= definitions.len() {
        law_definitions_extend(definitions, n - 1, frame, env, depth);
        let front = eval_definitions_spec(definitions, n - 1, frame, env, depth);
        if front.result is Ok {
            law_eval_extends(definitions[n - 1].1, frame, front.env, depth);
        }
    }
}

/// A call only adds frames: what its parameters and internal definitions bind
/// is bound in a frame of its own, out of sight of every frame made before.
pub proof fn law_apply_extends(
    operator: ValueView,
    args: Seq<ValueView>,
    env: Seq<FrameView>,
    depth: nat,
)
    requires
        well_formed(env),
    ensures
        well_formed(apply_spec(operator, args, env, depth).env),
        extends(env, apply_spec(operator, args, env, depth).env),
    decreases depth, 0nat, 0nat,
{
    if let ValueView::CLOSURE(c) = operator {
        if depth > 0 {
            let d = (depth - 1) as nat;
            law_call_frame(c, args, env);
            if let Ok(bound) = call_frame_spec(c, args, env) {
                let n = c.proto.definitions.len() as int;
                law_definitions_extend(c.proto.definitions, n, env.len(), bound, d);
                let defined = eval_definitions_spec(c.proto.definitions, n, env.len(), bound, d);
                if defined.result is Ok {
                    law_eval_extends(*c.proto.body, env.len(), defined.env, d);
                }
            }
        }
    }
}

/// Lexical scoping: whatever a call binds, no frame that was there before the
/// call sees any of it. Under every name, each of these frames sees after the
/// call what it saw before.
pub proof fn law_lexical_scope(
    operator: ValueView,
    args: Seq<ValueView>,
    env: Seq<FrameView>,
    depth: nat,
    frame: int,
    name: Seq<char>,
)
    requires
        well_formed(env),
        0 <= frame < env.len(),
    ensures
        resolve_spec(apply_spec(operator, args, env, depth).env, frame, name) == resolve_spec(
            env,
            frame,
            name,
        ),
{
    law_apply_extends(operator, args, env, depth);
    law_resolve_unchanged(env, apply_spec(operator, args, env, depth).env, frame, name);
}

/// A failure changes nothing: an expression, a call or a top-level form that
/// fails leaves the environment exactly as it found it.
pub proof fn law_failure_keeps(
    exp: ExpView,
    top: TopView,
    operator: ValueView,
    args: Seq<ValueView>,
    frame: nat,
    env: Seq<FrameView>,
    depth: nat,
)
    ensures
        eval_expr_spec(exp, frame, env, depth).result is Err ==> eval_expr_spec(
            exp,
            frame,
            env,
            depth,
        ).env == env,
        apply_spec(operator, args, env, depth).result is Err ==> apply_spec(
            operator,
            args,
            env,
            depth,
        ).env == env,
        eval_top_spec(top, env, depth).result is Err ==> eval_top_spec(top, env, depth).env == env,
{
    match top {
        TopView::DEC { identifier, expression } => {
            lemma_failure_keeps(expression, 0, env, depth);
        },
        TopView::EXP { expression } => {
            lemma_failure_keeps(expression, 0, env, depth);
        },
    }
}

/// Whether evaluation has run into the bound on nesting.
pub open spec fn hit_bound<T>(result: Result<T, EvalError>) -> bool {
    result == Err::<T, EvalError>(EvalError::Depth)
}

/// The bound on nesting decides nothing but whether it is reached: an
/// evaluation that does not run into it ends in the same way under every
/// greater bound.
pub proof fn law_bound_eval(exp: ExpView, frame: nat, env: Seq<FrameView>, low: nat, high: nat)
    requires
        low <= high,
        !hit_bound(eval_expr_spec(exp, frame, env, low).result),
    ensures
        eval_expr_spec(exp, frame, env, high) == eval_expr_spec(exp, frame, env, low),
    decreases low, 0nat, 0nat,
{
    let l = (low - 1) as nat;
    let h = (high - 1) as nat;
    match exp {
        ExpView::CALL { operator, operands } => {
            let first = eval_expr_spec(*operator, frame, env, l);
            law_bound_eval(*operator, frame, env, l, h);
            if let Ok(procedure) = first.result {
                let n = operands.len() as int;
                let rest = eval_exps_spec(operands, n, frame, first.env, l);
                law_bound_exps(operands, n, frame, first.env, l, h);
                if let Ok(args) = rest.result {
                    law_bound_apply(procedure, args, rest.env, l, h);
                }
            }
        },
        ExpView::COND { test, consequent, alternative } => {
            let tested = eval_expr_spec(*test, frame, env, l);
            law_bound_eval(*test, frame, env, l, h);
            if let Ok(v) = tested.result {
                if v == boolean(true) {
                    law_bound_eval(*consequent, frame, tested.env, l, h);
                } else if let Some(a) = alternative {
                    law_bound_eval(*a, frame, tested.env, l, h);
                }
            }
        },
        _ => {},
    }
}

/// The bound on nesting decides nothing but whether it is reached, for the
/// operands of a call.
pub proof fn law_bound_exps(
    exps: Seq<ExpView>,
    n: int,
    frame: nat,
    env: Seq<FrameView>,
    low: nat,
    high: nat,
)
    requires
        low <= high,
        !hit_bound(eval_exps_spec(exps, n, frame, env, low).result),
    ensures
        eval_exps_spec(exps, n, frame, env, high) == eval_exps_spec(exps, n, frame, env, low),
    decreases low, 1nat, n,
{
    if 0 < n <= exps.len() {
        let front = eval_exps_spec(exps, n - 1, frame, env, low);
        law_bound_exps(exps, n - 1, frame, env, low, high);
        if front.result is Ok {
            law_bound_eval(exps[n - 1], frame, front.env, low, high);
        }
    }
}

/// The bound on nesting decides nothing but whether it is reached, for the
/// internal definitions of a call.
pub proof fn law_bound_definitions(
    definitions: Seq<(Seq<char>, ExpView)>,
    n: int,
    frame: nat,
    env: Seq<FrameView>,
    low: nat,
    high: nat,
)
    requires
        low <= high,
        !hit_bound(eval_definitions_spec(definitions, n, frame, env, low).result),
    ensures
        eval_definitions_spec(definitions, n, frame, env, high) == eval_definitions_spec(
            definitions,
            n,
            frame,
            env,
            low,
        ),
    decreases low, 1nat, n,
{
    if 0 < n <= definitions.len() {
        let front = eval_definitions_spec(definitions, n - 1, frame, env, low);
        law_bound_definitions(definitions, n - 1, frame, env, low, high);
        if front.result is Ok {
            law_bound_eval(definitions[n - 1].1, frame, front.env, low, high);
        }
    }
}

/// The bound on nesting decides nothing but whether it is reached, for a
/// call.
pub proof fn law_bound_apply(
    operator: ValueView,
    args: Seq<ValueView>,
    env: Seq<FrameView>,
    low: nat,
    high: nat,
)
    requires
        low <= high,
        !hit_bound(apply_spec(operator, args, env, low).result),
    ensures
        apply_spec(operator, args, env, high) == apply_spec(operator, args, env, low),
    decreases low, 0nat, 0nat,
{
    if let ValueView::CLOSURE(c) = operator {
        let l = (low - 1) as nat;
        let h = (high - 1) as nat;
        if let Ok(bound) = call_frame_spec(c, args, env) {
            let n = c.proto.definitions.len() as int;
            let defined = eval_definitions_spec(c.proto.definitions, n, env.len(), bound, l);
            law_bound_definitions(c.proto.definitions, n, env.len(), bound, l, h);
            if defined.result is Ok {
                law_bound_eval(*c.proto.body, env.len(), defined.env, l, h);
            }
        }
    }
}

/// Whether a value is a procedure or holds one in a pair.
pub open spec fn holds_procedure(v: ValueView) -> bool
    decreases v,
{
    match v {
        ValueView::PRIMITIVE(_) => false,
        ValueView::PAIR { car, cdr } => {
            ||| match car {
                Some(a) => holds_procedure(*a),
                None => false,
            }
            ||| match cdr {
                Some(d) => holds_procedure(*d),
                None => false,
            }
        },
        _ => true,
    }
}

/// A value is equal to itself exactly when it holds no procedure.
pub proof fn law_eqv_reflexive(v: ValueView)
    ensures
        value_eqv(v, v) == !holds_procedure(v),
    decreases v,
{
    match v {
        ValueView::PAIR { car, cdr } => {
            match car {
                Some(a) => {
                    law_eqv_reflexive(*a);
                },
                None => {},
            }
            match cdr {
                Some(d) => {
                    law_eqv_reflexive(*d);
                },
                None => {},
            }
        },
        _ => {},
    }
}

/// Whether a datum is a procedure template or holds one in a pair.
pub open spec fn holds_template(d: DatumView) -> bool
    decreases d,
{
    match d {
        DatumView::PRIMITIVE(_) => false,
        DatumView::LAMBDA(_) => true,
        DatumView::PAIR(car, cdr) => {
            ||| match car {
                Some(a) => holds_template(*a),
                None => false,
            }
            ||| match cdr {
                Some(b) => holds_template(*b),
                None => false,
            }
        },
    }
}

/// The value of a datum without procedure templates is displayed like the
/// datum, is the same in every frame, and is equal to itself.
pub proof fn law_lift(d: DatumView, frame: nat, other: nat)
    requires
        !holds_template(d),
    ensures
        display_value(lift_spec(d, frame)) == display_datum(d),
        lift_spec(d, frame) == lift_spec(d, other),
        value_eqv(lift_spec(d, frame), lift_spec(d, frame)),
    decreases d,
{
    match d {
        DatumView::PAIR(car, cdr) => {
            match car {
                Some(a) => {
                    law_lift(*a, frame, other);
                },
                None => {},
            }
            match cdr {
                Some(b) => {
                    law_lift(*b, frame, other);
                },
                None => {},
            }
        },
        _ => {},
    }
}

/// The place of a builtin procedure in the table.
pub open spec fn table_index(b: Builtin) -> int {
    match b {
        Builtin::EQV => 0,
        Builtin::IS_NUMBER => 1,
        Builtin::EQUAL => 2,
        Builtin::PLUS => 3,
        Builtin::MINUS => 4,
        Builtin::TIMES => 5,
        Builtin::DIVIDE => 6,
        Builtin::LESS => 7,
        Builtin::GREATER => 8,
        Builtin::NOT => 9,
        Builtin::IS_BOOLEAN => 10,
        Builtin::IS_PAIR => 11,
        Builtin::CONS => 12,
        Builtin::CAR => 13,
        Builtin::CDR => 14,
        Builtin::IS_SYMBOL => 15,
        Builtin::IS_PROCEDURE => 16,
    }
}

/// The table holds every builtin procedure once.
pub proof fn lemma_table(b: Builtin)
    ensures
        builtin_table().len() == 17,
        0 <= table_index(b) < 17,
        builtin_table()[table_index(b)] == b,
        forall|i: int| 0 <= i < 17 ==> table_index(#[trigger] builtin_table()[i]) == i,
{
    let t = builtin_table();
    assert(t[0] == Builtin::EQV && t[1] == Builtin::IS_NUMBER && t[2] == Builtin::EQUAL && t[3]
        == Builtin::PLUS && t[4] == Builtin::MINUS && t[5] == Builtin::TIMES && t[6]
        == Builtin::DIVIDE && t[7] == Builtin::LESS && t[8] == Builtin::GREATER && t[9]
        == Builtin::NOT && t[10] == Builtin::IS_BOOLEAN && t[11] == Builtin::IS_PAIR && t[12]
        == Builtin::CONS && t[13] == Builtin::CAR && t[14] == Builtin::CDR && t[15]
        == Builtin::IS_SYMBOL && t[16] == Builtin::IS_PROCEDURE);
}

/// No two builtin procedures have the same name.
pub proof fn law_names_differ(a: Builtin, b: Builtin)
    requires
        a != b,
    ensures
        builtin_name(a) != builtin_name(b),
{
    reveal_strlit("eqv?");
    reveal_strlit("number?");
    reveal_strlit("=");
    reveal_strlit("+");
    reveal_strlit("-");
    reveal_strlit("*");
    reveal_strlit("/");
    reveal_strlit("<");
    reveal_strlit(">");
    reveal_strlit("!");
    reveal_strlit("boolean?");
    reveal_strlit("pair?");
    reveal_strlit("cons");
    reveal_strlit("car");
    reveal_strlit("cdr");
    reveal_strlit("symbol?");
    reveal_strlit("procedure?");
    let x = builtin_name(a);
    let y = builtin_name(b);
    if x == y {
        assert(x.len() == y.len());
        assert(x[0] == y[0]);
        if x.len() >= 2 {
            assert(x[1] == y[1]);
        }
    }
}

/// The bindings of the first `n` entries of the table bind the name of each
/// of these entries to it.
pub proof fn lemma_table_bindings(n: int, i: int)
    requires
        0 <= i < n <= 17,
    ensures
        table_bindings(n).contains_key(builtin_name(builtin_table()[i])),
        table_bindings(n)[builtin_name(builtin_table()[i])] == ValueView::BUILTIN(
            builtin_table()[i],
        ),
    decreases n,
{
    lemma_table(builtin_table()[i]);
    if i < n - 1 {
        lemma_table_bindings(n - 1, i);
        lemma_table(builtin_table()[n - 1]);
        law_names_differ(builtin_table()[i], builtin_table()[n - 1]);
    }
}

/// The bindings of the first `n` entries of the table bind no other name.
pub proof fn lemma_table_bindings_only(n: int, name: Seq<char>)
    requires
        0 <= n <= 17,
        table_bindings(n).contains_key(name),
    ensures
        exists|i: int| 0 <= i < n && name == builtin_name(#[trigger] builtin_table()[i]),
    decreases n,
{
    lemma_table(Builtin::EQV);
    if n > 0 {
        if name == builtin_name(builtin_table()[n - 1]) {
        } else {
            lemma_table_bindings_only(n - 1, name);
        }
    }
}

/// The root frame of a new interpreter binds every builtin procedure to its
/// name.
pub proof fn law_builtins_bound(b: Builtin)
    ensures
        table_bindings(17).contains_key(builtin_name(b)),
        table_bindings(17)[builtin_name(b)] == ValueView::BUILTIN(b),
{
    lemma_table(b);
    lemma_table_bindings(17, table_index(b));
}

/// The root frame of a new interpreter binds nothing but the builtin
/// procedures.
pub proof fn law_builtins_only(name: Seq<char>)
    requires
        table_bindings(17).contains_key(name),
    ensures
        exists|b: Builtin| name == #[trigger] builtin_name(b),
{
    lemma_table_bindings_only(17, name);
}

} // verus!
