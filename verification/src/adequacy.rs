//! The machine computes what the programs mean: for every program that asks
//! nothing of the host, a run that is long enough ends with the outcome
//! that the direct definition gives.

use crate::ast::{ElementModel, ExprModel, Operator, PrimaryModel};
use crate::denotation::{
    args_outcome, binary_outcome, block_outcome, expr_outcome, fields_outcome, primary_outcome,
};
use crate::interpreter::{bind, lookup, Bindings, ErrorModel, ValueModel};
use crate::machine::{BuiltinModel, ControlModel, FrameModel, MachineModel};
use crate::semantics::{
    deliver_model, invoke_model, next_arg_model, run_model, running, scope_model, step_model,
};
use vstd::prelude::*;

verus! {

/// The machine that is about to evaluate `e` in `env`.
pub open spec fn at_expr(
    e: ExprModel,
    env: Bindings,
    stack: Seq<FrameModel>,
    scope: Bindings,
) -> MachineModel {
    MachineModel { control: ControlModel::Expr { expr: e, env }, stack, scope }
}

/// The machine that is about to evaluate the rest of a block.
pub open spec fn at_block(
    rest: Seq<ElementModel>,
    env: Bindings,
    value: ValueModel,
    stack: Seq<FrameModel>,
    scope: Bindings,
) -> MachineModel {
    MachineModel { control: ControlModel::Block { rest, env, value }, stack, scope }
}

/// The machine that hands `v` to the frame on top of `stack`.
pub open spec fn at_return(v: ValueModel, stack: Seq<FrameModel>, scope: Bindings) -> MachineModel {
    MachineModel { control: ControlModel::Return(v), stack, scope }
}

/// From `start`, the transitions that `o` counts lead to the outcome of `o`:
/// to its value, handed to `stack` with `scope` unchanged, or to its
/// failure. `k` is the budget that is left then.
pub open spec fn reaches(
    start: MachineModel,
    o: (Result<ValueModel, ErrorModel>, nat),
    stack: Seq<FrameModel>,
    scope: Bindings,
    k: nat,
) -> bool {
    match o.0 {
        Ok(v) => run_model(start, o.1 + k) == run_model(at_return(v, stack, scope), k),
        Err(x) => run_model(start, o.1 + k).control == ControlModel::Failed(x),
    }
}

/// A running machine with budget makes a transition.
pub proof fn lemma_run_step(m: MachineModel, budget: nat)
    requires
        running(m),
        budget > 0,
    ensures
        run_model(m, budget) == run_model(step_model(m), (budget - 1) as nat),
{
}

/// A value that reaches `frame` on top of `stack` is delivered to it in one
/// transition.
pub proof fn lemma_deliver(
    frame: FrameModel,
    v: ValueModel,
    stack: Seq<FrameModel>,
    scope: Bindings,
    budget: nat,
)
    requires
        budget > 0,
    ensures
        run_model(at_return(v, stack.push(frame), scope), budget) == run_model(
            MachineModel {
                control: deliver_model(frame, v, stack).0,
                stack: deliver_model(frame, v, stack).1,
                scope: scope_model(frame, v, scope),
            },
            (budget - 1) as nat,
        ),
{
    let m = at_return(v, stack.push(frame), scope);
    assert(stack.push(frame).last() == frame);
    assert(stack.push(frame).drop_last() =~= stack);
    lemma_run_step(m, budget);
}

/// A binary operation reaches its outcome, where its operands do.
proof fn lemma_binary(
    start: MachineModel,
    left: ExprModel,
    op: Operator,
    right: ExprModel,
    env: Bindings,
    stack: Seq<FrameModel>,
    scope: Bindings,
    k: nat,
)
    requires
        running(start),
        step_model(start) == at_expr(
            left,
            env,
            stack.push(FrameModel::Right { op, right, env }),
            scope,
        ),
        binary_outcome(expr_outcome(left, env), op, expr_outcome(right, env)) is Some,
        forall|s: Seq<FrameModel>, j: nat|
            expr_outcome(left, env) is Some ==> #[trigger] reaches(
                at_expr(left, env, s, scope),
                expr_outcome(left, env)->0,
                s,
                scope,
                j,
            ),
        forall|s: Seq<FrameModel>, j: nat|
            expr_outcome(right, env) is Some ==> #[trigger] reaches(
                at_expr(right, env, s, scope),
                expr_outcome(right, env)->0,
                s,
                scope,
                j,
            ),
    ensures
        reaches(
            start,
            binary_outcome(expr_outcome(left, env), op, expr_outcome(right, env))->0,
            stack,
            scope,
            k,
        ),
{
    let o = binary_outcome(expr_outcome(left, env), op, expr_outcome(right, env))->0;
    let (rl, c1) = expr_outcome(left, env)->0;
    let waiting = FrameModel::Right { op, right, env };
    let m1 = at_expr(left, env, stack.push(waiting), scope);
    lemma_run_step(start, o.1 + k);
    match rl {
        Err(_) => {
            assert(reaches(m1, (rl, c1), stack.push(waiting), scope, k));
        },
        Ok(a) => {
            let (rr, c2) = expr_outcome(right, env)->0;
            let applying = FrameModel::Apply { op, left: a };
            let m3 = at_expr(right, env, stack.push(applying), scope);
            match rr {
                Err(_) => {
                    let j = (c2 + 1 + k) as nat;
                    assert(reaches(m1, (rl, c1), stack.push(waiting), scope, j));
                    lemma_deliver(waiting, a, stack, scope, j);
                    assert(reaches(m3, (rr, c2), stack.push(applying), scope, k));
                },
                Ok(b) => {
                    let j = (c2 + 2 + k) as nat;
                    assert(reaches(m1, (rl, c1), stack.push(waiting), scope, j));
                    lemma_deliver(waiting, a, stack, scope, j);
                    let j2 = (1 + k) as nat;
                    assert(reaches(m3, (rr, c2), stack.push(applying), scope, j2));
                    lemma_deliver(applying, b, stack, scope, j2);
                },
            }
        },
    }
}

/// An expression reaches its outcome: from the machine that is about to
/// evaluate it, the transitions that the outcome counts lead to the value,
/// handed to the frames that were there, or to the failure.
pub proof fn lemma_expr(
    e: ExprModel,
    env: Bindings,
    stack: Seq<FrameModel>,
    scope: Bindings,
    k: nat,
)
    requires
        expr_outcome(e, env) is Some,
    ensures
        reaches(at_expr(e, env, stack, scope), expr_outcome(e, env)->0, stack, scope, k),
    decreases e,
{
    let start = at_expr(e, env, stack, scope);
    match e {
        ExprModel::AddSub { left, op, right } => {
            assert forall|s: Seq<FrameModel>, j: nat|
                expr_outcome(*left, env) is Some implies #[trigger] reaches(
                at_expr(*left, env, s, scope),
                expr_outcome(*left, env)->0,
                s,
                scope,
                j,
            ) by {
                lemma_expr(*left, env, s, scope, j);
            }
            assert forall|s: Seq<FrameModel>, j: nat|
                expr_outcome(*right, env) is Some implies #[trigger] reaches(
                at_expr(*right, env, s, scope),
                expr_outcome(*right, env)->0,
                s,
                scope,
                j,
            ) by {
                lemma_expr(*right, env, s, scope, j);
            }
            lemma_binary(start, *left, Operator::AddSub(op), *right, env, stack, scope, k);
        },
        ExprModel::MulDiv { left, op, right } => {
            assert forall|s: Seq<FrameModel>, j: nat|
                expr_outcome(*left, env) is Some implies #[trigger] reaches(
                at_expr(*left, env, s, scope),
                expr_outcome(*left, env)->0,
                s,
                scope,
                j,
            ) by {
                lemma_expr(*left, env, s, scope, j);
            }
            assert forall|s: Seq<FrameModel>, j: nat|
                expr_outcome(*right, env) is Some implies #[trigger] reaches(
                at_expr(*right, env, s, scope),
                expr_outcome(*right, env)->0,
                s,
                scope,
                j,
            ) by {
                lemma_expr(*right, env, s, scope, j);
            }
            lemma_binary(start, *left, Operator::MulDiv(op), *right, env, stack, scope, k);
        },
        ExprModel::Primary(p) => {
            lemma_primary(p, env, stack, scope, k);
        },
        ExprModel::Call(c) => {
            let o = expr_outcome(e, env)->0;
            lemma_run_step(start, o.1 + k);
            if let Some(ValueModel::String(subject)) = lookup(env, c.fident[0]) {
                if c.fident.len() >= 2 && c.fident[1] == "includes"@ && c.args.len() > 0 {
                    let last = c.args.last();
                    let call = BuiltinModel::Includes { subject };
                    let waiting = FrameModel::Args { call, done: seq![], rest: seq![], env };
                    assert(seq![last].drop_first() =~= Seq::<PrimaryModel>::empty());
                    assert(seq![last][0] == last);
                    assert(step_model(start) == at_expr(
                        ExprModel::Primary(last),
                        env,
                        stack.push(waiting),
                        scope,
                    ));
                    let (r, _) = primary_outcome(last, env)->0;
                    match r {
                        Err(_) => {
                            lemma_primary(last, env, stack.push(waiting), scope, k);
                        },
                        Ok(v) => {
                            let j = (1 + k) as nat;
                            lemma_primary(last, env, stack.push(waiting), scope, j);
                            lemma_deliver(waiting, v, stack, scope, j);
                            assert(Seq::<ValueModel>::empty().push(v)[0] == v);
                        },
                    }
                }
            }
        },
        ExprModel::If { cond, true_exp, false_expr } => {
            let o = expr_outcome(e, env)->0;
            let (rc, c) = expr_outcome(*cond, env)->0;
            let waiting = FrameModel::Branch {
                true_exp: *true_exp,
                false_expr: *false_expr,
                env,
            };
            let m1 = at_expr(*cond, env, stack.push(waiting), scope);
            assert(step_model(start) == m1);
            lemma_run_step(start, o.1 + k);
            match rc {
                Err(_) => {
                    lemma_expr(*cond, env, stack.push(waiting), scope, k);
                },
                Ok(ValueModel::Bool(b)) => {
                    let branch = if b {
                        *true_exp
                    } else {
                        *false_expr
                    };
                    let (_, c2) = expr_outcome(branch, env)->0;
                    let j = (1 + c2 + k) as nat;
                    lemma_expr(*cond, env, stack.push(waiting), scope, j);
                    lemma_deliver(waiting, ValueModel::Bool(b), stack, scope, j);
                    lemma_expr(branch, env, stack, scope, k);
                },
                Ok(other) => {
                    let j = (1 + k) as nat;
                    lemma_expr(*cond, env, stack.push(waiting), scope, j);
                    lemma_deliver(waiting, other, stack, scope, j);
                },
            }
        },
    }
}

/// A primary expression reaches its outcome.
pub proof fn lemma_primary(
    p: PrimaryModel,
    env: Bindings,
    stack: Seq<FrameModel>,
    scope: Bindings,
    k: nat,
)
    requires
        primary_outcome(p, env) is Some,
    ensures
        reaches(
            at_expr(ExprModel::Primary(p), env, stack, scope),
            primary_outcome(p, env)->0,
            stack,
            scope,
            k,
        ),
    decreases p,
{
    let start = at_expr(ExprModel::Primary(p), env, stack, scope);
    let o = primary_outcome(p, env)->0;
    lemma_run_step(start, o.1 + k);
    match p {
        PrimaryModel::Block(elements) => {
            assert(elements.subrange(0, elements.len() as int) =~= elements);
            lemma_block(elements, 0, env, ValueModel::Unit, stack, scope, k);
        },
        PrimaryModel::Compound(fields) => {
            if fields.len() > 0 {
                assert(fields.subrange(1, fields.len() as int) =~= fields.drop_first());
                lemma_fields(fields, 0, seq![], env, stack, scope, k);
            }
        },
        _ => {},
    }
}

/// The fields of a compound literal reach their outcome: from the machine
/// that is about to evaluate the `i`th field, with the frame that waits for
/// its value on top of `stack`.
pub proof fn lemma_fields(
    fields: Seq<(Seq<char>, ExprModel)>,
    i: nat,
    done: Bindings,
    env: Bindings,
    stack: Seq<FrameModel>,
    scope: Bindings,
    k: nat,
)
    requires
        i < fields.len(),
        fields_outcome(fields, i, done, env) is Some,
    ensures
        reaches(
            at_expr(
                fields[i as int].1,
                env,
                stack.push(
                    FrameModel::Field {
                        key: fields[i as int].0,
                        done,
                        rest: fields.subrange(i + 1 as int, fields.len() as int),
                        env,
                    },
                ),
                scope,
            ),
            fields_outcome(fields, i, done, env)->0,
            stack,
            scope,
            k,
        ),
    decreases fields, fields.len() - i,
{
    let rest = fields.subrange(i + 1 as int, fields.len() as int);
    let waiting = FrameModel::Field { key: fields[i as int].0, done, rest, env };
    let (r, c) = expr_outcome(fields[i as int].1, env)->0;
    match r {
        Err(_) => {
            lemma_expr(fields[i as int].1, env, stack.push(waiting), scope, k);
        },
        Ok(v) => {
            let set = bind(done, fields[i as int].0, v);
            if i + 1 == fields.len() {
                let j = (1 + k) as nat;
                lemma_expr(fields[i as int].1, env, stack.push(waiting), scope, j);
                lemma_deliver(waiting, v, stack, scope, j);
            } else {
                let (_, c2) = fields_outcome(fields, i + 1, set, env)->0;
                let j = (1 + c2 + k) as nat;
                lemma_expr(fields[i as int].1, env, stack.push(waiting), scope, j);
                lemma_deliver(waiting, v, stack, scope, j);
                assert(rest[0] == fields[i + 1 as int]);
                assert(rest.drop_first() =~= fields.subrange(i + 2 as int, fields.len() as int));
                lemma_fields(fields, i + 1, set, env, stack, scope, k);
            }
        },
    }
}

/// The rest of a block reaches its outcome: from the machine that is about
/// to evaluate the elements from the `i`th on.
pub proof fn lemma_block(
    elements: Seq<ElementModel>,
    i: nat,
    env: Bindings,
    value: ValueModel,
    stack: Seq<FrameModel>,
    scope: Bindings,
    k: nat,
)
    requires
        i <= elements.len(),
        block_outcome(elements, i, env, value) is Some,
    ensures
        reaches(
            at_block(
                elements.subrange(i as int, elements.len() as int),
                env,
                value,
                stack,
                scope,
            ),
            block_outcome(elements, i, env, value)->0,
            stack,
            scope,
            k,
        ),
    decreases elements, elements.len() - i,
{
    let rest = elements.subrange(i as int, elements.len() as int);
    let start = at_block(rest, env, value, stack, scope);
    let o = block_outcome(elements, i, env, value)->0;
    lemma_run_step(start, o.1 + k);
    if i < elements.len() {
        let tail = elements.subrange(i + 1 as int, elements.len() as int);
        assert(rest[0] == elements[i as int]);
        assert(rest.drop_first() =~= tail);
        match elements[i as int] {
            ElementModel::Expr(e) => {
                let waiting = FrameModel::Sequence { rest: tail, env };
                let (r, c) = expr_outcome(e, env)->0;
                match r {
                    Err(_) => {
                        lemma_expr(e, env, stack.push(waiting), scope, k);
                    },
                    Ok(v) => {
                        let (_, c2) = block_outcome(elements, i + 1, env, v)->0;
                        let j = (1 + c2 + k) as nat;
                        lemma_expr(e, env, stack.push(waiting), scope, j);
                        lemma_deliver(waiting, v, stack, scope, j);
                        lemma_block(elements, i + 1, env, v, stack, scope, k);
                    },
                }
            },
            ElementModel::Var { name, def } => {
                let waiting = FrameModel::Bind { name, rest: tail, env };
                let (r, c) = expr_outcome(def, env)->0;
                match r {
                    Err(_) => {
                        lemma_expr(def, env, stack.push(waiting), scope, k);
                    },
                    Ok(v) => {
                        let inner = bind(env, name, v);
                        let (_, c2) = block_outcome(
                            elements,
                            i + 1,
                            inner,
                            ValueModel::Unit,
                        )->0;
                        let j = (1 + c2 + k) as nat;
                        lemma_expr(def, env, stack.push(waiting), scope, j);
                        lemma_deliver(waiting, v, stack, scope, j);
                        lemma_block(elements, i + 1, inner, ValueModel::Unit, stack, scope, k);
                    },
                }
            },
            ElementModel::Function { params, body } => {
                lemma_block(
                    elements,
                    i + 1,
                    env,
                    ValueModel::Fn { env, body, params, name: None },
                    stack,
                    scope,
                    k,
                );
            },
            ElementModel::Using { .. } => {},
        }
    }
}

/// The machine that is about to invoke a built-in operation on its values.
pub open spec fn at_invoke(
    call: BuiltinModel,
    values: Seq<ValueModel>,
    env: Bindings,
    stack: Seq<FrameModel>,
    scope: Bindings,
) -> MachineModel {
    MachineModel {
        control: invoke_model(call, values, env, stack).0,
        stack: invoke_model(call, values, env, stack).1,
        scope,
    }
}

/// The arguments of a built-in operation reach the call: from the machine
/// that is about to evaluate the `i`th argument, the transitions that the
/// outcome counts lead to the operation on the values of the arguments, or
/// to the first failure.
pub proof fn lemma_args(
    call: BuiltinModel,
    args: Seq<PrimaryModel>,
    i: nat,
    done: Seq<ValueModel>,
    env: Bindings,
    stack: Seq<FrameModel>,
    scope: Bindings,
    k: nat,
)
    requires
        i < args.len(),
        args_outcome(args, i, done, env) is Some,
    ensures
        ({
            let (r, n) = args_outcome(args, i, done, env)->0;
            let start = at_expr(
                ExprModel::Primary(args[i as int]),
                env,
                stack.push(
                    FrameModel::Args {
                        call,
                        done,
                        rest: args.subrange(i + 1 as int, args.len() as int),
                        env,
                    },
                ),
                scope,
            );
            match r {
                Ok(values) => run_model(start, n + k) == run_model(
                    at_invoke(call, values, env, stack, scope),
                    k,
                ),
                Err(x) => run_model(start, n + k).control == ControlModel::Failed(x),
            }
        }),
    decreases args, args.len() - i,
{
    let rest = args.subrange(i + 1 as int, args.len() as int);
    let waiting = FrameModel::Args { call, done, rest, env };
    let (r, _) = primary_outcome(args[i as int], env)->0;
    match r {
        Err(_) => {
            lemma_primary(args[i as int], env, stack.push(waiting), scope, k);
        },
        Ok(v) => {
            let (_, n2) = args_outcome(args, i + 1, done.push(v), env)->0;
            let j = (1 + n2 + k) as nat;
            lemma_primary(args[i as int], env, stack.push(waiting), scope, j);
            lemma_deliver(waiting, v, stack, scope, j);
            if i + 1 < args.len() {
                assert(rest[0] == args[i + 1 as int]);
                assert(rest.drop_first() =~= args.subrange(i + 2 as int, args.len() as int));
                lemma_args(call, args, i + 1, done.push(v), env, stack, scope, k);
            } else {
                assert(rest.len() == 0);
            }
        },
    }
}

/// The evaluation of a list of arguments reaches the call: from the
/// machine that `next_arg_model` gives, as `lemma_args` says, and at once
/// where the list is empty.
pub proof fn lemma_next_args(
    call: BuiltinModel,
    args: Seq<PrimaryModel>,
    env: Bindings,
    stack: Seq<FrameModel>,
    scope: Bindings,
    k: nat,
)
    requires
        args_outcome(args, 0, seq![], env) is Some,
    ensures
        ({
            let (r, n) = args_outcome(args, 0, seq![], env)->0;
            let start = MachineModel {
                control: next_arg_model(call, seq![], args, env, stack).0,
                stack: next_arg_model(call, seq![], args, env, stack).1,
                scope,
            };
            match r {
                Ok(values) => run_model(start, n + k) == run_model(
                    at_invoke(call, values, env, stack, scope),
                    k,
                ),
                Err(x) => run_model(start, n + k).control == ControlModel::Failed(x),
            }
        }),
{
    if args.len() > 0 {
        assert(args.subrange(1, args.len() as int) =~= args.drop_first());
        lemma_args(call, args, 0, seq![], env, stack, scope, k);
    }
}

} // verus!
