//! What holds of the language whatever the program: each law is proved from
//! the models that the contracts of the library speak of.

use crate::adequacy::{
    at_block, at_expr, at_invoke, at_return, lemma_block, lemma_deliver, lemma_expr,
    lemma_next_args, lemma_primary, lemma_run_step,
};
use crate::ast::{AddSubOp, CallModel, ElementModel, ExprModel, MulDivOp, Operator, PrimaryModel};
use crate::denotation::{
    after, args_outcome, block_outcome, cost_of, expr_outcome, primary_outcome, result_of,
};
use crate::grammar::{
    add_level_model, add_op, add_tail, compound_model, field_model, fields_rest, file_model,
    line_model, mul_level_model, mul_op, mul_tail, primary_expr_model, skip_space,
};
use crate::interpreter::{
    bind, distinct_keys, lemma_bind_distinct, lemma_lookup_bind, lookup, mul_div_model, Bindings,
    ErrorModel, ValueModel,
};
use crate::machine::{ActionModel, BuiltinModel, ControlModel, EventModel, FrameModel, MachineModel};
use crate::semantics::{
    apply_model, bind_params, deliver_model, last_arg_model, named_model, post_args_model,
    replay_model, resume_model, run_model, running, step_model, using_model, Named,
};
use vstd::prelude::*;

verus! {

/// A division by zero is an error, whatever is divided, and no other
/// division of two numbers is one.
pub proof fn law_division_by_zero(dividend: u64, divisor: u64)
    ensures
        divisor == 0 ==> mul_div_model(
            MulDivOp::Div,
            ValueModel::UInt64(dividend),
            ValueModel::UInt64(divisor),
        ) == Err::<ValueModel, _>(ErrorModel::DivisionByZero),
        divisor != 0 ==> mul_div_model(
            MulDivOp::Div,
            ValueModel::UInt64(dividend),
            ValueModel::UInt64(divisor),
        ) == Ok::<_, ErrorModel>(ValueModel::UInt64(dividend / divisor)),
{
}

/// A machine whose right operand of a division has come out as zero fails
/// with that error at its next transition, whatever else it holds.
pub proof fn law_division_by_zero_stops_the_machine(
    dividend: u64,
    stack: Seq<FrameModel>,
    scope: Bindings,
)
    ensures
        step_model(
            MachineModel {
                control: ControlModel::Return(ValueModel::UInt64(0)),
                stack: stack.push(
                    FrameModel::Apply {
                        op: Operator::MulDiv(MulDivOp::Div),
                        left: ValueModel::UInt64(dividend),
                    },
                ),
                scope,
            },
        ).control == ControlModel::Failed(ErrorModel::DivisionByZero),
{
    let frame = FrameModel::Apply {
        op: Operator::MulDiv(MulDivOp::Div),
        left: ValueModel::UInt64(dividend),
    };
    assert(stack.push(frame).last() == frame);
}

/// A failure is final: no transition, no run and no answer of the host
/// changes a machine that has failed. So the failure of one field ends a
/// compound literal, and that of one element its block.
pub proof fn law_failure_is_final(m: MachineModel, budget: nat, event: EventModel)
    requires
        m.control is Failed,
    ensures
        !running(m),
        step_model(m) == m,
        run_model(m, budget) == m,
        resume_model(m, event) == m,
{
}

/// A machine that has a value and no frame left stays as it is.
pub proof fn law_value_is_final(m: MachineModel, budget: nat, event: EventModel)
    requires
        m.control is Return,
        m.stack.len() == 0,
    ensures
        !running(m),
        step_model(m) == m,
        run_model(m, budget) == m,
        resume_model(m, event) == m,
{
}

/// A run may be made in parts: `a` transitions and then `b` are `a + b`.
pub proof fn law_run_in_parts(m: MachineModel, a: nat, b: nat)
    ensures
        run_model(run_model(m, a), b) == run_model(m, a + b),
    decreases a,
{
    if a == 0 {
    } else if !running(m) {
        law_run_stopped(m, b);
        law_run_stopped(m, a + b);
    } else {
        law_run_in_parts(step_model(m), (a - 1) as nat, b);
        assert(((a - 1) as nat) + b == (a + b - 1) as nat);
    }
}

/// A machine that is not running is not changed by a run.
pub proof fn law_run_stopped(m: MachineModel, budget: nat)
    requires
        !running(m),
    ensures
        run_model(m, budget) == m,
{
}

/// Binding parameters leaves every other name as it was.
pub proof fn lemma_bind_params_keeps(
    env: Bindings,
    params: Seq<Seq<char>>,
    args: Seq<ValueModel>,
    n: nat,
    x: Seq<char>,
)
    requires
        n <= params.len(),
        forall|i: int| 0 <= i < n ==> params[i] != x,
    ensures
        lookup(bind_params(env, params, args, n), x) == lookup(env, x),
    decreases n,
{
    if n > 0 {
        lemma_bind_params_keeps(env, params, args, (n - 1) as nat, x);
        lemma_lookup_bind(
            bind_params(env, params, args, (n - 1) as nat),
            params[n - 1],
            args[n - 1],
            x,
        );
    }
}

/// A closure sees the environment of its creation: when it is called, a
/// name that is none of its parameters has the value that it had where the
/// closure was made, whatever that name was bound to afterwards.
pub proof fn law_closure_keeps_its_environment(
    env: Bindings,
    body: Seq<ElementModel>,
    params: Seq<Seq<char>>,
    args: Seq<ValueModel>,
    x: Seq<char>,
    later: ValueModel,
)
    requires
        params.len() <= args.len(),
        forall|i: int| 0 <= i < params.len() ==> params[i] != x,
    ensures
        lookup(bind(env, x, later), x) == Some(later),
        apply_model(ValueModel::Fn { env, body, params, name: None }, args) matches Ok(
            (b, scope),
        ) && b == body && lookup(scope, x) == lookup(env, x),
{
    lemma_lookup_bind(env, x, later, x);
    lemma_bind_params_keeps(env, params, args, params.len(), x);
}

/// A closure with a name of its own finds itself under that name when it is
/// called, unless a parameter has the same name.
pub proof fn law_closure_finds_itself(
    env: Bindings,
    body: Seq<ElementModel>,
    params: Seq<Seq<char>>,
    args: Seq<ValueModel>,
    name: Seq<char>,
)
    requires
        params.len() <= args.len(),
        forall|i: int| 0 <= i < params.len() ==> params[i] != name,
    ensures
        apply_model(ValueModel::Fn { env, body, params, name: Some(name) }, args) matches Ok(
            (b, scope),
        ) && lookup(scope, name) == Some(
            ValueModel::Fn { env, body, params, name: Some(name) },
        ),
{
    let f = ValueModel::Fn { env, body, params, name: Some(name) };
    lemma_lookup_bind(env, name, f, name);
    lemma_bind_params_keeps(bind(env, name, f), params, args, params.len(), name);
}

/// Binding parameters reads no argument beyond them.
pub proof fn lemma_bind_params_reads_prefix(
    env: Bindings,
    params: Seq<Seq<char>>,
    args: Seq<ValueModel>,
    more: Seq<ValueModel>,
    n: nat,
)
    requires
        n <= args.len(),
    ensures
        bind_params(env, params, args + more, n) == bind_params(env, params, args, n),
    decreases n,
{
    if n > 0 {
        lemma_bind_params_reads_prefix(env, params, args, more, (n - 1) as nat);
        assert((args + more)[n - 1] == args[n - 1]);
    }
}

/// The arity of a call: with fewer arguments than parameters the call fails,
/// and says how many were expected and how many came; with as many it goes
/// ahead; arguments beyond the parameters change nothing.
pub proof fn law_arity(
    env: Bindings,
    body: Seq<ElementModel>,
    params: Seq<Seq<char>>,
    name: Option<Seq<char>>,
    args: Seq<ValueModel>,
    more: Seq<ValueModel>,
)
    ensures
        args.len() < params.len() ==> apply_model(
            ValueModel::Fn { env, body, params, name },
            args,
        ) == Err::<(Seq<ElementModel>, Bindings), _>(
            ErrorModel::ArityMismatch { expected: params.len(), actual: args.len() },
        ),
        args.len() >= params.len() ==> apply_model(
            ValueModel::Fn { env, body, params, name },
            args,
        ) is Ok && apply_model(ValueModel::Fn { env, body, params, name }, args + more)
            == apply_model(ValueModel::Fn { env, body, params, name }, args),
{
    if args.len() >= params.len() {
        let f = ValueModel::Fn { env, body, params, name };
        let seeded = match name {
            Some(n) => bind(env, n, f),
            None => env,
        };
        lemma_bind_params_reads_prefix(seeded, params, args, more, params.len());
    }
}

/// Only a closure can be called.
pub proof fn law_only_closures_are_called(f: ValueModel, args: Seq<ValueModel>)
    requires
        !(f is Fn),
    ensures
        apply_model(f, args) == Err::<(Seq<ElementModel>, Bindings), _>(
            ErrorModel::NotCallable(f),
        ),
{
}

/// A value that reaches a frame other than a definition leaves the scope of
/// the evaluation as it was, and the frames under it where they were: what
/// a block binds does not leave the block.
pub proof fn law_block_binds_for_itself(
    name: Seq<char>,
    rest: Seq<ElementModel>,
    env: Bindings,
    value: ValueModel,
    stack: Seq<FrameModel>,
    scope: Bindings,
)
    ensures
        step_model(
            MachineModel {
                control: ControlModel::Return(value),
                stack: stack.push(FrameModel::Bind { name, rest, env }),
                scope,
            },
        ) == (MachineModel {
            control: ControlModel::Block {
                rest,
                env: bind(env, name, value),
                value: ValueModel::Unit,
            },
            stack,
            scope,
        }),
{
    let frame = FrameModel::Bind { name, rest, env };
    assert(stack.push(frame).last() == frame);
    assert(stack.push(frame).drop_last() =~= stack);
    assert(deliver_model(frame, value, stack).1 == stack);
}

/// Reading is a function of the text: texts with the same characters are
/// read as the same tree, or both refused.
pub proof fn law_same_text_same_tree(a: Seq<char>, b: Seq<char>)
    requires
        a =~= b,
    ensures
        line_model(a) == line_model(b),
        file_model(a) == file_model(b),
{
}

/// The machine computes the value of an expression. Where the expression
/// asks nothing of the host, a run of at least as many transitions as its
/// outcome counts ends with the value of the expression and leaves the
/// scope as it was, or ends with its failure; a longer run ends in the
/// same way.
pub proof fn law_expression_evaluates(e: ExprModel, env: Bindings, budget: nat)
    requires
        expr_outcome(e, env) is Some,
        budget >= cost_of(expr_outcome(e, env)),
    ensures
        match result_of(expr_outcome(e, env)) {
            Ok(v) => run_model(at_expr(e, env, seq![], env), budget) == at_return(
                v,
                seq![],
                env,
            ),
            Err(x) => run_model(at_expr(e, env, seq![], env), budget).control
                == ControlModel::Failed(x),
        },
{
    let c = cost_of(expr_outcome(e, env));
    lemma_expr(e, env, seq![], env, (budget - c) as nat);
    assert(c + (budget - c) as nat == budget);
}

/// The machine computes the value of a block, as it does that of an
/// expression.
pub proof fn law_block_evaluates(elements: Seq<ElementModel>, env: Bindings, budget: nat)
    requires
        block_outcome(elements, 0, env, ValueModel::Unit) is Some,
        budget >= cost_of(block_outcome(elements, 0, env, ValueModel::Unit)),
    ensures
        match result_of(block_outcome(elements, 0, env, ValueModel::Unit)) {
            Ok(v) => run_model(at_block(elements, env, ValueModel::Unit, seq![], env), budget)
                == at_return(v, seq![], env),
            Err(x) => run_model(
                at_block(elements, env, ValueModel::Unit, seq![], env),
                budget,
            ).control == ControlModel::Failed(x),
        },
{
    let c = cost_of(block_outcome(elements, 0, env, ValueModel::Unit));
    lemma_block(elements, 0, env, ValueModel::Unit, seq![], env, (budget - c) as nat);
    assert(elements.subrange(0, elements.len() as int) =~= elements);
    assert(c + (budget - c) as nat == budget);
}

/// The left operand comes first: where it fails, that failure is the
/// outcome, whatever the right operand is.
pub proof fn law_left_operand_first(
    left: ExprModel,
    op: AddSubOp,
    right: ExprModel,
    env: Bindings,
)
    requires
        expr_outcome(left, env) matches Some((Err(_), _)),
    ensures
        expr_outcome(
            ExprModel::AddSub { left: Box::new(left), op, right: Box::new(right) },
            env,
        ) matches Some((r, _)) && r == result_of(expr_outcome(left, env)),
{
}

/// A conditional evaluates one branch: the outcome does not depend on the
/// branch that is not taken.
pub proof fn law_one_branch(
    cond: ExprModel,
    taken: ExprModel,
    other: ExprModel,
    another: ExprModel,
    env: Bindings,
)
    requires
        expr_outcome(cond, env) matches Some((Ok(ValueModel::Bool(b)), _)) && b,
    ensures
        expr_outcome(
            ExprModel::If {
                cond: Box::new(cond),
                true_exp: Box::new(taken),
                false_expr: Box::new(other),
            },
            env,
        ) == expr_outcome(
            ExprModel::If {
                cond: Box::new(cond),
                true_exp: Box::new(taken),
                false_expr: Box::new(another),
            },
            env,
        ),
{
}

/// What a block binds stays inside it: behind a block that stands as an
/// element, the elements that follow are evaluated in the environment that
/// the block was evaluated in.
pub proof fn law_bindings_stay_inside(
    inner: Seq<ElementModel>,
    elements: Seq<ElementModel>,
    i: nat,
    env: Bindings,
    value: ValueModel,
)
    requires
        i < elements.len(),
        elements[i as int] == ElementModel::Expr(
            ExprModel::Primary(PrimaryModel::Block(inner)),
        ),
        block_outcome(inner, 0, env, ValueModel::Unit) matches Some((Ok(_), _)),
    ensures
        ({
            let (r, c) = block_outcome(inner, 0, env, ValueModel::Unit)->0;
            block_outcome(elements, i, env, value) == after(
                c + 3,
                block_outcome(elements, i + 1, env, r->Ok_0),
            )
        }),
{
    let e = ExprModel::Primary(PrimaryModel::Block(inner));
    assert(expr_outcome(e, env) == primary_outcome(PrimaryModel::Block(inner), env));
}

/// A failing field ends a compound literal: the failure of the first field
/// is the outcome of the literal.
pub proof fn law_failing_field(
    fields: Seq<(Seq<char>, ExprModel)>,
    env: Bindings,
)
    requires
        fields.len() > 0,
        expr_outcome(fields[0].1, env) matches Some((Err(_), _)),
    ensures
        primary_outcome(PrimaryModel::Compound(fields), env) matches Some((r, _)) && r
            == result_of(expr_outcome(fields[0].1, env)),
{
}

/// A product as the grammar reads it: a primary expression, or a product
/// multiplied or divided by a primary expression. The operators nest to the
/// left.
pub open spec fn is_product(e: ExprModel) -> bool
    decreases e,
{
    match e {
        ExprModel::Primary(_) => true,
        ExprModel::MulDiv { left, op, right } => is_product(*left) && *right is Primary,
        _ => false,
    }
}

/// A sum as the grammar reads it: a product, or a sum to which a product is
/// added or from which one is subtracted. A sum is never an operand of a
/// product, and the operators nest to the left.
pub open spec fn is_sum(e: ExprModel) -> bool
    decreases e,
{
    match e {
        ExprModel::AddSub { left, op, right } => is_sum(*left) && is_product(*right),
        _ => is_product(e),
    }
}

/// The factors behind a product make a product.
pub proof fn lemma_mul_tail_shape(s: Seq<char>, pos: int, acc: ExprModel, any: bool)
    requires
        is_product(acc),
    ensures
        is_product(mul_tail(s, pos, acc, any).0),
    decreases s.len() - pos,
{
    if 0 <= pos < s.len() && mul_op(s[pos]) is Some {
        let pos1 = skip_space(s, pos + 1);
        if pos < pos1 <= s.len() {
            if let Some((t, pos2)) = primary_expr_model(s, pos1) {
                let pos3 = skip_space(s, pos2);
                if pos < pos3 <= s.len() {
                    let next = ExprModel::MulDiv {
                        left: Box::new(acc),
                        op: mul_op(s[pos])->0,
                        right: Box::new(ExprModel::Primary(t)),
                    };
                    assert(is_product(next));
                    lemma_mul_tail_shape(s, pos3, next, true);
                }
            }
        }
    }
}

/// What is read as a product is one.
pub proof fn lemma_mul_level_shape(s: Seq<char>, pos: int)
    ensures
        mul_level_model(s, pos) matches Some((e, _)) ==> is_product(e),
{
    if let Some((first, p)) = primary_expr_model(s, pos) {
        lemma_mul_tail_shape(s, skip_space(s, p), ExprModel::Primary(first), false);
    }
}

/// The terms behind a sum make a sum.
pub proof fn lemma_add_tail_shape(s: Seq<char>, pos: int, acc: ExprModel, any: bool)
    requires
        is_sum(acc),
    ensures
        is_sum(add_tail(s, pos, acc, any).0),
    decreases s.len() - pos,
{
    if 0 <= pos < s.len() && add_op(s[pos]) is Some {
        let pos1 = skip_space(s, pos + 1);
        if pos < pos1 <= s.len() {
            if let Some((t, pos2)) = mul_level_model(s, pos1) {
                let pos3 = skip_space(s, pos2);
                if pos < pos3 <= s.len() {
                    lemma_mul_level_shape(s, pos1);
                    let next = ExprModel::AddSub {
                        left: Box::new(acc),
                        op: add_op(s[pos])->0,
                        right: Box::new(t),
                    };
                    assert(is_sum(next));
                    lemma_add_tail_shape(s, pos3, next, true);
                }
            }
        }
    }
}

/// Precedence and associativity: whatever the text, what is read as a sum
/// has the shape of one. `*` and `/` bind tighter than `+` and `-`, and
/// operators of one level nest to the left.
pub proof fn law_sums_and_products(s: Seq<char>, pos: int)
    ensures
        mul_level_model(s, pos) matches Some((e, _)) ==> is_product(e),
        add_level_model(s, pos) matches Some((e, _)) ==> is_sum(e),
{
    lemma_mul_level_shape(s, pos);
    if let Some((first, p)) = mul_level_model(s, pos) {
        lemma_add_tail_shape(s, skip_space(s, p), first, false);
    }
}

/// What `using` hands over: the argument that it adds to the call evaluates
/// to a closure over the environment of the `using`, and a call of that
/// closure with a value evaluates the rest of the block with the name bound
/// to the value.
pub proof fn law_using_hands_over_the_rest(
    name: Seq<char>,
    def: CallModel,
    rest: Seq<ElementModel>,
    env: Bindings,
    value: ValueModel,
)
    ensures
        using_model(name, def, rest).args.len() == def.args.len() + 1,
        using_model(name, def, rest).args.subrange(0, def.args.len() as int) == def.args,
        primary_outcome(using_model(name, def, rest).args.last(), env) == Some(
            (
                Ok::<_, ErrorModel>(
                    ValueModel::Fn { env, body: rest, params: seq![name], name: None },
                ),
                3nat,
            ),
        ),
        apply_model(
            ValueModel::Fn { env, body: rest, params: seq![name], name: None },
            seq![value],
        ) == Ok::<_, ErrorModel>((rest, bind(env, name, value))),
{
    let f = ElementModel::Function { params: seq![name], body: rest };
    let closure = ValueModel::Fn { env, body: rest, params: seq![name], name: None };
    let added = PrimaryModel::Block(seq![f]);
    assert(using_model(name, def, rest).args.last() == added);
    assert(using_model(name, def, rest).args.subrange(0, def.args.len() as int) =~= def.args);
    assert(block_outcome(seq![f], 1, env, closure) == Some(
        (Ok::<_, ErrorModel>(closure), 1nat),
    ));
    assert(block_outcome(seq![f], 0, env, ValueModel::Unit) == Some(
        (Ok::<_, ErrorModel>(closure), 2nat),
    ));
    assert(bind_params(env, seq![name], seq![value], 1) == bind(env, name, value)) by {
        assert(bind_params(env, seq![name], seq![value], 0) == env);
    }
}

/// The built-in operation that a call of `named` makes once its arguments
/// are evaluated, and the arguments that it evaluates, in the order in
/// which it does so. `fs.cwd` evaluates none and `twice` calls its argument:
/// they have no entry here, and neither has `fs.watch` without an argument.
pub open spec fn evaluated_args(named: Named, args: Seq<PrimaryModel>) -> Option<
    (BuiltinModel, Seq<PrimaryModel>),
> {
    match named {
        Named::Println => Some((BuiltinModel::Println, args)),
        Named::HttpGet => Some((BuiltinModel::HttpGet, last_arg_model(args))),
        Named::HttpPostJson => Some((BuiltinModel::HttpPostJson, post_args_model(args))),
        Named::Watch => if args.len() == 0 {
            None
        } else {
            Some((BuiltinModel::Watch { callback: args.last() }, seq![args[0]]))
        },
        Named::Cwd => None,
        Named::Twice => None,
    }
}

/// A call of a built-in operation evaluates its arguments in order and
/// then does what `invoke_model` says on their values; the first argument
/// that fails ends the call.
pub proof fn law_builtin_call(
    c: CallModel,
    env: Bindings,
    stack: Seq<FrameModel>,
    scope: Bindings,
    k: nat,
)
    requires
        named_model(c.fident) is Some,
        evaluated_args(named_model(c.fident)->0, c.args) is Some,
        ({
            let (call, list) = evaluated_args(named_model(c.fident)->0, c.args)->0;
            args_outcome(list, 0, seq![], env) is Some
        }),
    ensures
        ({
            let (call, list) = evaluated_args(named_model(c.fident)->0, c.args)->0;
            let (r, n) = args_outcome(list, 0, seq![], env)->0;
            let start = at_expr(ExprModel::Call(c), env, stack, scope);
            match r {
                Ok(values) => run_model(start, 1 + n + k) == run_model(
                    at_invoke(call, values, env, stack, scope),
                    k,
                ),
                Err(x) => run_model(start, 1 + n + k).control == ControlModel::Failed(x),
            }
        }),
{
    let (call, list) = evaluated_args(named_model(c.fident)->0, c.args)->0;
    let (r, n) = args_outcome(list, 0, seq![], env)->0;
    let start = at_expr(ExprModel::Call(c), env, stack, scope);
    lemma_run_step(start, 1 + n + k);
    lemma_next_args(call, list, env, stack, scope, k);
}

/// `println` asks the host to print the values of its arguments, in their
/// order, and waits: a run that is long enough ends there.
pub proof fn law_println_asks_the_host(
    c: CallModel,
    env: Bindings,
    stack: Seq<FrameModel>,
    scope: Bindings,
    budget: nat,
)
    requires
        named_model(c.fident) == Some(Named::Println),
        args_outcome(c.args, 0, seq![], env) matches Some((Ok(_), n)) && budget > n,
    ensures
        ({
            let (r, n) = args_outcome(c.args, 0, seq![], env)->0;
            run_model(at_expr(ExprModel::Call(c), env, stack, scope), budget) == (MachineModel {
                control: ControlModel::Await(ActionModel::Print(r->Ok_0)),
                stack,
                scope,
            })
        }),
{
    let (r, n) = args_outcome(c.args, 0, seq![], env)->0;
    let k = (budget - n - 1) as nat;
    law_builtin_call(c, env, stack, scope, k);
    assert(1 + n + k == budget);
}

/// The fields behind a compound with distinct names have distinct names.
pub proof fn lemma_fields_rest_distinct(
    s: Seq<char>,
    pos: int,
    acc: Seq<(Seq<char>, ExprModel)>,
)
    requires
        distinct_keys(acc),
    ensures
        distinct_keys(fields_rest(s, pos, acc).0),
    decreases s.len() - pos,
{
    if 0 <= pos < s.len() && s[pos] == ',' {
        if let Some((f, p)) = field_model(s, pos + 1) {
            if pos < p <= s.len() {
                lemma_bind_distinct(acc, f.0, f.1);
                lemma_fields_rest_distinct(s, p, bind(acc, f.0, f.1));
            }
        }
    }
}

/// No name stands twice in a compound literal that was read: where the text
/// has a name again, the literal has it once, with the later expression.
pub proof fn law_compound_names_are_distinct(s: Seq<char>, pos: int)
    ensures
        compound_model(s, pos) matches Some((fields, _)) ==> distinct_keys(fields),
{
    if 0 <= pos < s.len() && s[pos] == '(' {
        if let Some((f, q)) = field_model(s, pos + 1) {
            if pos < q <= s.len() {
                lemma_fields_rest_distinct(s, q, seq![f]);
            }
        }
    }
}

/// The machine that waits for the next line of a followed file, for the
/// callback `f`.
pub open spec fn watching(f: ValueModel, stack: Seq<FrameModel>, scope: Bindings) -> MachineModel {
    MachineModel {
        control: ControlModel::Await(ActionModel::WatchNext),
        stack: stack.push(FrameModel::Deliver { callback: f }),
        scope,
    }
}

/// `fs.watch` starts to wait for lines once the host follows the file: the
/// callback is evaluated then, and the machine waits with it.
pub proof fn law_watch_starts(
    path: Seq<char>,
    callback: PrimaryModel,
    env: Bindings,
    stack: Seq<FrameModel>,
    scope: Bindings,
    budget: nat,
)
    requires
        primary_outcome(callback, env) matches Some((Ok(_), c)) && budget >= c + 2,
    ensures
        run_model(
            resume_model(
                MachineModel {
                    control: ControlModel::Await(ActionModel::WatchOpen(path)),
                    stack: stack.push(FrameModel::Opening { callback, env }),
                    scope,
                },
                EventModel::Done,
            ),
            budget,
        ) == watching(result_of(primary_outcome(callback, env))->Ok_0, stack, scope),
{
    let (r, c) = primary_outcome(callback, env)->0;
    let f = r->Ok_0;
    let opening = FrameModel::Opening { callback, env };
    let k = (budget - c - 2) as nat;
    lemma_deliver(opening, ValueModel::Unit, stack, scope, budget);
    lemma_primary(callback, env, stack.push(FrameModel::Subscribe), scope, (1 + k) as nat);
    assert(c + (1 + k) as nat == (budget - 1) as nat);
    lemma_deliver(FrameModel::Subscribe, f, stack, scope, (1 + k) as nat);
}

/// A line of the followed file calls the callback with the line, and the
/// machine waits again where it waited: with the same callback, the same
/// frames and the same scope. A callback that fails ends the evaluation.
pub proof fn law_watch_delivers_a_line(
    f: ValueModel,
    line: Seq<char>,
    stack: Seq<FrameModel>,
    scope: Bindings,
    budget: nat,
)
    requires
        apply_model(f, seq![ValueModel::String(line)]) is Ok,
        ({
            let (body, env) = apply_model(f, seq![ValueModel::String(line)])->Ok_0;
            block_outcome(body, 0, env, ValueModel::Unit) matches Some((_, c)) && budget >= c + 2
        }),
    ensures
        ({
            let (body, env) = apply_model(f, seq![ValueModel::String(line)])->Ok_0;
            let after_line = run_model(
                resume_model(watching(f, stack, scope), EventModel::Line(line)),
                budget,
            );
            match result_of(block_outcome(body, 0, env, ValueModel::Unit)) {
                Ok(_) => after_line == watching(f, stack, scope),
                Err(x) => after_line.control == ControlModel::Failed(x),
            }
        }),
{
    let (body, env) = apply_model(f, seq![ValueModel::String(line)])->Ok_0;
    let (r, c) = block_outcome(body, 0, env, ValueModel::Unit)->0;
    let again = FrameModel::Resubscribe { callback: f };
    let k = (budget - c - 2) as nat;
    let delivering = FrameModel::Deliver { callback: f };
    lemma_deliver(delivering, ValueModel::String(line), stack, scope, budget);
    assert(body.subrange(0, body.len() as int) =~= body);
    match r {
        Ok(v) => {
            lemma_block(body, 0, env, ValueModel::Unit, stack.push(again), scope, (1 + k) as nat);
            assert(c + (1 + k) as nat == (budget - 1) as nat);
            lemma_deliver(again, v, stack, scope, (1 + k) as nat);
        },
        Err(_) => {
            lemma_block(body, 0, env, ValueModel::Unit, stack.push(again), scope, (1 + k) as nat);
            assert(c + (1 + k) as nat == (budget - 1) as nat);
        },
    }
}

/// When the followed file gives no more lines, `fs.watch` returns the unit
/// value to the frames that were there.
pub proof fn law_watch_ends(f: ValueModel, stack: Seq<FrameModel>, scope: Bindings)
    ensures
        resume_model(watching(f, stack, scope), EventModel::Closed) == at_return(
            ValueModel::Unit,
            stack,
            scope,
        ),
{
    let frame = FrameModel::Deliver { callback: f };
    assert(stack.push(frame).last() == frame);
    assert(stack.push(frame).drop_last() =~= stack);
}

/// `twice` evaluates its last argument and calls it with the unit value,
/// does both once more, and returns the unit value.
pub proof fn law_twice(
    c: CallModel,
    env: Bindings,
    stack: Seq<FrameModel>,
    scope: Bindings,
    k: nat,
)
    requires
        named_model(c.fident) == Some(Named::Twice),
        c.args.len() > 0,
        primary_outcome(c.args.last(), env) matches Some((Ok(f), _)) && apply_model(
            f,
            seq![ValueModel::Unit],
        ) matches Ok((body, inner)) && block_outcome(body, 0, inner, ValueModel::Unit) matches Some(
            (Ok(_), _),
        ),
    ensures
        ({
            let (rf, ca) = primary_outcome(c.args.last(), env)->0;
            let (body, inner) = apply_model(rf->Ok_0, seq![ValueModel::Unit])->Ok_0;
            let cb = cost_of(block_outcome(body, 0, inner, ValueModel::Unit));
            run_model(at_expr(ExprModel::Call(c), env, stack, scope), 1 + 2 * (ca + cb + 2) + k)
                == run_model(at_return(ValueModel::Unit, stack, scope), k)
        }),
{
    let arg = c.args.last();
    let (rf, ca) = primary_outcome(arg, env)->0;
    let f = rf->Ok_0;
    let (body, inner) = apply_model(f, seq![ValueModel::Unit])->Ok_0;
    let (rb, cb) = block_outcome(body, 0, inner, ValueModel::Unit)->0;
    let v = rb->Ok_0;
    let start = at_expr(ExprModel::Call(c), env, stack, scope);
    let total = (1 + 2 * (ca + cb + 2) + k) as nat;
    assert(body.subrange(0, body.len() as int) =~= body);
    // the first round
    let first = FrameModel::Repeat { arg, env, again: true };
    let first_done = FrameModel::Repeated { arg, env, again: true };
    lemma_run_step(start, total);
    let j1 = (1 + cb + 1 + ca + cb + 2 + k) as nat;
    lemma_primary(arg, env, stack.push(first), scope, j1);
    lemma_deliver(first, f, stack, scope, j1);
    let j2 = (1 + ca + cb + 2 + k) as nat;
    lemma_block(body, 0, inner, ValueModel::Unit, stack.push(first_done), scope, j2);
    lemma_deliver(first_done, v, stack, scope, j2);
    // the second round
    let second = FrameModel::Repeat { arg, env, again: false };
    let second_done = FrameModel::Repeated { arg, env, again: false };
    let j3 = (1 + cb + 1 + k) as nat;
    lemma_primary(arg, env, stack.push(second), scope, j3);
    lemma_deliver(second, f, stack, scope, j3);
    let j4 = (1 + k) as nat;
    lemma_block(body, 0, inner, ValueModel::Unit, stack.push(second_done), scope, j4);
    lemma_deliver(second_done, v, stack, scope, j4);
}

/// The answers of a host whose followed file gives `lines` and then ends.
pub open spec fn lines_then_closed(lines: Seq<Seq<char>>) -> Seq<EventModel> {
    Seq::new(
        lines.len() + 1,
        |i: int|
            if i < lines.len() {
                EventModel::Line(lines[i])
            } else {
                EventModel::Closed
            },
    )
}

/// Whether the callback `f` has a value on the line `line`, within `budget`
/// transitions less the two that the call itself takes.
pub open spec fn callback_returns(f: ValueModel, line: Seq<char>, budget: nat) -> bool {
    apply_model(f, seq![ValueModel::String(line)]) matches Ok((body, env)) && block_outcome(
        body,
        0,
        env,
        ValueModel::Unit,
    ) matches Some((Ok(_), c)) && budget >= c + 2
}

/// `fs.watch` follows the file to its end: where the callback has a value
/// on each line, the machine asks for a line once for every line and once
/// more, and ends with the unit value when the host says that the file
/// gives no more.
pub proof fn law_watch_follows_the_lines(
    f: ValueModel,
    lines: Seq<Seq<char>>,
    scope: Bindings,
    budget: nat,
)
    requires
        forall|i: int| 0 <= i < lines.len() ==> callback_returns(f, #[trigger] lines[i], budget),
    ensures
        replay_model(watching(f, seq![], scope), lines_then_closed(lines), budget) == (
            at_return(ValueModel::Unit, seq![], scope),
            Seq::new(lines.len() + 1, |i: int| ActionModel::WatchNext),
        ),
    decreases lines.len(),
{
    let waits = watching(f, seq![], scope);
    let events = lines_then_closed(lines);
    let asks = Seq::new(lines.len() + 1, |i: int| ActionModel::WatchNext);
    let first = resume_model(waits, events[0]);
    let rest = events.drop_first();
    assert(run_model(waits, budget) == waits);
    assert(replay_model(waits, events, budget) == (
        replay_model(first, rest, budget).0,
        seq![ActionModel::WatchNext] + replay_model(first, rest, budget).1,
    ));
    if lines.len() == 0 {
        law_watch_ends(f, seq![], scope);
        assert(rest.len() == 0);
        assert(run_model(first, budget) == first);
        assert(replay_model(first, rest, budget) == (first, Seq::<ActionModel>::empty()));
        assert(seq![ActionModel::WatchNext] + Seq::<ActionModel>::empty() =~= asks);
    } else {
        let tail = lines.drop_first();
        assert(callback_returns(f, lines[0], budget));
        law_watch_delivers_a_line(f, lines[0], seq![], scope, budget);
        assert(run_model(first, budget) == waits);
        assert(rest =~= lines_then_closed(tail));
        assert forall|i: int| 0 <= i < tail.len() implies callback_returns(
            f,
            #[trigger] tail[i],
            budget,
        ) by {
            assert(tail[i] == lines[i + 1]);
        }
        law_watch_follows_the_lines(f, tail, scope, budget);
        assert(replay_model(first, rest, budget) == replay_model(waits, rest, budget));
        assert(seq![ActionModel::WatchNext] + Seq::new(
            tail.len() + 1,
            |i: int| ActionModel::WatchNext,
        ) =~= asks);
    }
}

} // verus!
