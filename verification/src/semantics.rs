//! What the machine does, over the models: one spec function for each kind
//! of transition.

use crate::ast::{CallModel, ElementModel, ExprModel, Operator, PrimaryModel};
use crate::interpreter::{
    add_sub_model, bind, lookup, mul_div_model, Bindings, ErrorModel, Kind, ValueModel,
};
use crate::machine::{ActionModel, BuiltinModel, ControlModel, EventModel, FrameModel, MachineModel};
use crate::pattern::pattern_match;
use vstd::prelude::*;

verus! {

/// The operations that the language has built in.
#[derive(Debug, Clone, Copy, PartialEq, Eq)]
pub enum Named {
    Cwd,
    Println,
    Twice,
    HttpGet,
    HttpPostJson,
    Watch,
}

/// The built-in operation that a dotted name stands for.
pub open spec fn named_model(fident: Seq<Seq<char>>) -> Option<Named> {
    if fident == seq!["fs"@, "cwd"@] {
        Some(Named::Cwd)
    } else if fident == seq!["println"@] {
        Some(Named::Println)
    } else if fident == seq!["twice"@] {
        Some(Named::Twice)
    } else if fident == seq!["http"@, "get"@] {
        Some(Named::HttpGet)
    } else if fident == seq!["http"@, "post"@, "json"@] {
        Some(Named::HttpPostJson)
    } else if fident == seq!["fs"@, "watch"@] {
        Some(Named::Watch)
    } else {
        None
    }
}

/// What an operator gives on two values.
pub open spec fn operate(op: Operator, lhs: ValueModel, rhs: ValueModel) -> Result<
    ValueModel,
    ErrorModel,
> {
    match op {
        Operator::AddSub(o) => add_sub_model(o, lhs, rhs),
        Operator::MulDiv(o) => mul_div_model(o, lhs, rhs),
    }
}

/// `env` with the first `n` parameters bound to the first `n` arguments, in
/// order.
pub open spec fn bind_params(
    env: Bindings,
    params: Seq<Seq<char>>,
    args: Seq<ValueModel>,
    n: nat,
) -> Bindings
    decreases n,
{
    if n == 0 {
        env
    } else {
        bind(bind_params(env, params, args, (n - 1) as nat), params[n - 1], args[n - 1])
    }
}

/// The body to evaluate and the environment to evaluate it in when `f` is
/// called with `args`. The environment is the one that the closure took
/// with it, with the closure under its own name where it has one, and then
/// the parameters. Arguments beyond the parameters are ignored.
pub open spec fn apply_model(f: ValueModel, args: Seq<ValueModel>) -> Result<
    (Seq<ElementModel>, Bindings),
    ErrorModel,
> {
    match f {
        ValueModel::Fn { env, body, params, name } => if args.len() < params.len() {
            Err(ErrorModel::ArityMismatch { expected: params.len(), actual: args.len() })
        } else {
            let seeded = match name {
                Some(n) => bind(env, n, f),
                None => env,
            };
            Ok((body, bind_params(seeded, params, args, params.len())))
        },
        _ => Err(ErrorModel::NotCallable(f)),
    }
}

/// Calling `f` with `args`: the body is evaluated next, and `then` takes
/// what it returns.
pub open spec fn call_model(
    f: ValueModel,
    args: Seq<ValueModel>,
    stack: Seq<FrameModel>,
    then: FrameModel,
) -> (ControlModel, Seq<FrameModel>) {
    match apply_model(f, args) {
        Ok((body, env)) => (
            ControlModel::Block { rest: body, env, value: ValueModel::Unit },
            stack.push(then),
        ),
        Err(e) => (ControlModel::Failed(e), stack),
    }
}

/// What `includes` gives once the pattern has been matched: `matched` is
/// the answer to the match, `None` where the pattern was refused.
pub open spec fn match_outcome_model(pattern: Seq<char>, matched: Option<bool>) -> ControlModel {
    match matched {
        Some(b) => ControlModel::Return(ValueModel::Bool(b)),
        None => ControlModel::Failed(ErrorModel::InvalidPattern(pattern)),
    }
}

/// A built-in operation on its evaluated arguments, which stand in the
/// order in which they were evaluated.
pub open spec fn invoke_model(
    call: BuiltinModel,
    values: Seq<ValueModel>,
    env: Bindings,
    stack: Seq<FrameModel>,
) -> (ControlModel, Seq<FrameModel>) {
    match call {
        BuiltinModel::Println => (ControlModel::Await(ActionModel::Print(values)), stack),
        _ => if values.len() == 0 {
            (ControlModel::Failed(ErrorModel::MissingArgument), stack)
        } else {
            match call {
                BuiltinModel::Println => (ControlModel::Await(ActionModel::Print(values)), stack),
                BuiltinModel::HttpGet => match values[0] {
                    ValueModel::String(url) => (
                        ControlModel::Await(ActionModel::HttpGet(url)),
                        stack,
                    ),
                    other => (
                        ControlModel::Failed(
                            ErrorModel::TypeMismatch { expected: Kind::String, actual: other },
                        ),
                        stack,
                    ),
                },
                BuiltinModel::HttpPostJson => if values.len() < 2 {
                    (ControlModel::Failed(ErrorModel::MissingArgument), stack)
                } else {
                    match values[1] {
                        ValueModel::String(url) => match values[0] {
                            ValueModel::Compound(fields) => (
                                ControlModel::Await(ActionModel::HttpPostJson(url, fields)),
                                stack,
                            ),
                            other => (
                                ControlModel::Failed(
                                    ErrorModel::TypeMismatch {
                                        expected: Kind::Compound,
                                        actual: other,
                                    },
                                ),
                                stack,
                            ),
                        },
                        other => (
                            ControlModel::Failed(
                                ErrorModel::TypeMismatch { expected: Kind::String, actual: other },
                            ),
                            stack,
                        ),
                    }
                },
                BuiltinModel::Watch { callback } => match values[0] {
                    ValueModel::String(path) => (
                        ControlModel::Await(ActionModel::WatchOpen(path)),
                        stack.push(FrameModel::Opening { callback, env }),
                    ),
                    other => (
                        ControlModel::Failed(
                            ErrorModel::TypeMismatch { expected: Kind::String, actual: other },
                        ),
                        stack,
                    ),
                },
                BuiltinModel::Includes { subject } => match values[0] {
                    ValueModel::String(pattern) => (
                        match_outcome_model(pattern, pattern_match(pattern, subject)),
                        stack,
                    ),
                    other => (
                        ControlModel::Failed(
                            ErrorModel::TypeMismatch { expected: Kind::String, actual: other },
                        ),
                        stack,
                    ),
                },
            }
        },
    }
}

/// The next argument of a built-in operation is evaluated, or the operation
/// is invoked where none is left.
pub open spec fn next_arg_model(
    call: BuiltinModel,
    done: Seq<ValueModel>,
    rest: Seq<PrimaryModel>,
    env: Bindings,
    stack: Seq<FrameModel>,
) -> (ControlModel, Seq<FrameModel>) {
    if rest.len() == 0 {
        invoke_model(call, done, env, stack)
    } else {
        (
            ControlModel::Expr { expr: ExprModel::Primary(rest[0]), env },
            stack.push(FrameModel::Args { call, done, rest: rest.drop_first(), env }),
        )
    }
}

/// The next field of a compound literal is evaluated, or the compound is
/// returned where none is left.
pub open spec fn next_field_model(
    done: Bindings,
    rest: Seq<(Seq<char>, ExprModel)>,
    env: Bindings,
    stack: Seq<FrameModel>,
) -> (ControlModel, Seq<FrameModel>) {
    if rest.len() == 0 {
        (ControlModel::Return(ValueModel::Compound(done)), stack)
    } else {
        (
            ControlModel::Expr { expr: rest[0].1, env },
            stack.push(FrameModel::Field { key: rest[0].0, done, rest: rest.drop_first(), env }),
        )
    }
}

/// The arguments that `http.post.json` evaluates, in the order in which it
/// does so: the last one, which is the body, then the one before it, which
/// is the address.
pub open spec fn post_args_model(args: Seq<PrimaryModel>) -> Seq<PrimaryModel> {
    if args.len() == 0 {
        seq![]
    } else if args.len() == 1 {
        seq![args[0]]
    } else {
        seq![args[args.len() - 1], args[args.len() - 2]]
    }
}

/// The last argument alone, where there is one.
pub open spec fn last_arg_model(args: Seq<PrimaryModel>) -> Seq<PrimaryModel> {
    if args.len() == 0 {
        seq![]
    } else {
        seq![args.last()]
    }
}

/// A function application: a built-in operation where the name is one, and
/// else the value that the outermost segment is bound to. On a string, a
/// second segment `includes` matches the string against a pattern.
pub open spec fn enter_call_model(c: CallModel, env: Bindings, stack: Seq<FrameModel>) -> (
    ControlModel,
    Seq<FrameModel>,
) {
    match named_model(c.fident) {
        Some(Named::Cwd) => (ControlModel::Await(ActionModel::CurrentDir), stack),
        Some(Named::Println) => next_arg_model(BuiltinModel::Println, seq![], c.args, env, stack),
        Some(Named::Twice) => if c.args.len() == 0 {
            (ControlModel::Failed(ErrorModel::MissingArgument), stack)
        } else {
            (
                ControlModel::Expr { expr: ExprModel::Primary(c.args.last()), env },
                stack.push(FrameModel::Repeat { arg: c.args.last(), env, again: true }),
            )
        },
        Some(Named::HttpGet) => next_arg_model(
            BuiltinModel::HttpGet,
            seq![],
            last_arg_model(c.args),
            env,
            stack,
        ),
        Some(Named::HttpPostJson) => next_arg_model(
            BuiltinModel::HttpPostJson,
            seq![],
            post_args_model(c.args),
            env,
            stack,
        ),
        Some(Named::Watch) => if c.args.len() == 0 {
            (ControlModel::Failed(ErrorModel::MissingArgument), stack)
        } else {
            next_arg_model(
                BuiltinModel::Watch { callback: c.args.last() },
                seq![],
                seq![c.args[0]],
                env,
                stack,
            )
        },
        None => if c.fident.len() == 0 {
            (ControlModel::Failed(ErrorModel::Unsupported), stack)
        } else {
            match lookup(env, c.fident[0]) {
                None => (ControlModel::Failed(ErrorModel::UnresolvedCall(c.fident[0])), stack),
                Some(ValueModel::String(subject)) => if c.fident.len() >= 2 && c.fident[1]
                    == "includes"@ {
                    next_arg_model(
                        BuiltinModel::Includes { subject },
                        seq![],
                        last_arg_model(c.args),
                        env,
                        stack,
                    )
                } else {
                    (ControlModel::Return(ValueModel::String(subject)), stack)
                },
                Some(other) => (ControlModel::Return(other), stack),
            }
        },
    }
}

/// A primary expression.
pub open spec fn enter_primary_model(p: PrimaryModel, env: Bindings, stack: Seq<FrameModel>) -> (
    ControlModel,
    Seq<FrameModel>,
) {
    match p {
        PrimaryModel::Bool(b) => (ControlModel::Return(ValueModel::Bool(b)), stack),
        PrimaryModel::DecimalInt(n) => (ControlModel::Return(ValueModel::UInt64(n)), stack),
        PrimaryModel::StringLiteral(s) => (ControlModel::Return(ValueModel::String(s)), stack),
        PrimaryModel::Regex(_) => (ControlModel::Failed(ErrorModel::Unsupported), stack),
        PrimaryModel::Identifier(name) => match lookup(env, name) {
            Some(v) => (ControlModel::Return(v), stack),
            None => (ControlModel::Failed(ErrorModel::UnboundName(name)), stack),
        },
        PrimaryModel::Block(b) => (
            ControlModel::Block { rest: b, env, value: ValueModel::Unit },
            stack,
        ),
        PrimaryModel::Compound(fields) => next_field_model(seq![], fields, env, stack),
    }
}

/// An expression: the left operand and the condition come first.
pub open spec fn enter_expr_model(e: ExprModel, env: Bindings, stack: Seq<FrameModel>) -> (
    ControlModel,
    Seq<FrameModel>,
) {
    match e {
        ExprModel::AddSub { left, op, right } => (
            ControlModel::Expr { expr: *left, env },
            stack.push(FrameModel::Right { op: Operator::AddSub(op), right: *right, env }),
        ),
        ExprModel::MulDiv { left, op, right } => (
            ControlModel::Expr { expr: *left, env },
            stack.push(FrameModel::Right { op: Operator::MulDiv(op), right: *right, env }),
        ),
        ExprModel::Primary(p) => enter_primary_model(p, env, stack),
        ExprModel::Call(c) => enter_call_model(c, env, stack),
        ExprModel::If { cond, true_exp, false_expr } => (
            ControlModel::Expr { expr: *cond, env },
            stack.push(
                FrameModel::Branch { true_exp: *true_exp, false_expr: *false_expr, env },
            ),
        ),
    }
}

/// The call that a `using` element stands for: `def` with one more
/// argument, a function of `name` whose body is the rest of the block.
pub open spec fn using_model(
    name: Seq<char>,
    def: CallModel,
    rest: Seq<ElementModel>,
) -> CallModel {
    CallModel {
        fident: def.fident,
        options: def.options,
        args: def.args.push(
            PrimaryModel::Block(
                seq![ElementModel::Function { params: seq![name], body: rest }],
            ),
        ),
    }
}

/// The rest of a block, whose value so far is `value`.
pub open spec fn enter_block_model(
    rest: Seq<ElementModel>,
    env: Bindings,
    value: ValueModel,
    stack: Seq<FrameModel>,
) -> (ControlModel, Seq<FrameModel>) {
    if rest.len() == 0 {
        (ControlModel::Return(value), stack)
    } else {
        let tail = rest.drop_first();
        match rest[0] {
            ElementModel::Expr(e) => (
                ControlModel::Expr { expr: e, env },
                stack.push(FrameModel::Sequence { rest: tail, env }),
            ),
            ElementModel::Var { name, def } => (
                ControlModel::Expr { expr: def, env },
                stack.push(FrameModel::Bind { name, rest: tail, env }),
            ),
            ElementModel::Function { params, body } => (
                ControlModel::Block {
                    rest: tail,
                    env,
                    value: ValueModel::Fn { env, body, params, name: None },
                },
                stack,
            ),
            ElementModel::Using { name, def } => (
                ControlModel::Expr { expr: ExprModel::Call(using_model(name, def, tail)), env },
                stack,
            ),
        }
    }
}

/// A value reaches the frame that waited for it. `stack` is what lies under
/// that frame.
pub open spec fn deliver_model(
    frame: FrameModel,
    value: ValueModel,
    stack: Seq<FrameModel>,
) -> (ControlModel, Seq<FrameModel>) {
    match frame {
        FrameModel::Right { op, right, env } => (
            ControlModel::Expr { expr: right, env },
            stack.push(FrameModel::Apply { op, left: value }),
        ),
        FrameModel::Apply { op, left } => (
            match operate(op, left, value) {
                Ok(v) => ControlModel::Return(v),
                Err(e) => ControlModel::Failed(e),
            },
            stack,
        ),
        FrameModel::Branch { true_exp, false_expr, env } => (
            match value {
                ValueModel::Bool(b) => ControlModel::Expr {
                    expr: if b {
                        true_exp
                    } else {
                        false_expr
                    },
                    env,
                },
                _ => ControlModel::Failed(
                    ErrorModel::TypeMismatch { expected: Kind::Bool, actual: value },
                ),
            },
            stack,
        ),
        FrameModel::Sequence { rest, env } => (ControlModel::Block { rest, env, value }, stack),
        FrameModel::Bind { name, rest, env } => (
            ControlModel::Block { rest, env: bind(env, name, value), value: ValueModel::Unit },
            stack,
        ),
        FrameModel::Field { key, done, rest, env } => next_field_model(
            bind(done, key, value),
            rest,
            env,
            stack,
        ),
        FrameModel::Args { call, done, rest, env } => next_arg_model(
            call,
            done.push(value),
            rest,
            env,
            stack,
        ),
        FrameModel::Repeat { arg, env, again } => call_model(
            value,
            seq![ValueModel::Unit],
            stack,
            FrameModel::Repeated { arg, env, again },
        ),
        FrameModel::Repeated { arg, env, again } => if again {
            (
                ControlModel::Expr { expr: ExprModel::Primary(arg), env },
                stack.push(FrameModel::Repeat { arg, env, again: false }),
            )
        } else {
            (ControlModel::Return(ValueModel::Unit), stack)
        },
        FrameModel::Opening { callback, env } => (
            ControlModel::Expr { expr: ExprModel::Primary(callback), env },
            stack.push(FrameModel::Subscribe),
        ),
        FrameModel::Subscribe => (
            ControlModel::Await(ActionModel::WatchNext),
            stack.push(FrameModel::Deliver { callback: value }),
        ),
        FrameModel::Deliver { callback } => call_model(
            callback,
            seq![value],
            stack,
            FrameModel::Resubscribe { callback },
        ),
        FrameModel::Resubscribe { callback } => (
            ControlModel::Await(ActionModel::WatchNext),
            stack.push(FrameModel::Deliver { callback }),
        ),
        FrameModel::Define { name } => (ControlModel::Return(ValueModel::Unit), stack),
    }
}

/// The scope that an evaluation leaves once `frame` has taken `value`: only
/// a definition changes it.
pub open spec fn scope_model(frame: FrameModel, value: ValueModel, scope: Bindings) -> Bindings {
    match frame {
        FrameModel::Define { name } => bind(scope, name, value),
        _ => scope,
    }
}

/// Whether the machine can make a transition on its own.
pub open spec fn running(m: MachineModel) -> bool {
    match m.control {
        ControlModel::Expr { .. } => true,
        ControlModel::Block { .. } => true,
        ControlModel::Return(_) => m.stack.len() > 0,
        ControlModel::Await(_) => false,
        ControlModel::Failed(_) => false,
    }
}

/// One transition. A machine that is not running stays as it is.
pub open spec fn step_model(m: MachineModel) -> MachineModel {
    match m.control {
        ControlModel::Expr { expr, env } => {
            let (control, stack) = enter_expr_model(expr, env, m.stack);
            MachineModel { control, stack, scope: m.scope }
        },
        ControlModel::Block { rest, env, value } => {
            let (control, stack) = enter_block_model(rest, env, value, m.stack);
            MachineModel { control, stack, scope: m.scope }
        },
        ControlModel::Return(value) => if m.stack.len() == 0 {
            m
        } else {
            let (control, stack) = deliver_model(m.stack.last(), value, m.stack.drop_last());
            MachineModel { control, stack, scope: scope_model(m.stack.last(), value, m.scope) }
        },
        ControlModel::Await(_) => m,
        ControlModel::Failed(_) => m,
    }
}

/// Up to `budget` transitions, and fewer where the machine stops before.
pub open spec fn run_model(m: MachineModel, budget: nat) -> MachineModel
    decreases budget,
{
    if budget == 0 || !running(m) {
        m
    } else {
        run_model(step_model(m), (budget - 1) as nat)
    }
}

/// The host's answer reaches a machine that waits. A failure that the host
/// reports ends the evaluation; an answer that does not fit the request does
/// so too. A machine that does not wait stays as it is.
pub open spec fn resume_model(m: MachineModel, event: EventModel) -> MachineModel {
    match m.control {
        ControlModel::Await(action) => {
            let text = |s: Seq<char>|
                MachineModel {
                    control: ControlModel::Return(ValueModel::String(s)),
                    stack: m.stack,
                    scope: m.scope,
                };
            let unit = MachineModel {
                control: ControlModel::Return(ValueModel::Unit),
                stack: m.stack,
                scope: m.scope,
            };
            let refused = MachineModel {
                control: ControlModel::Failed(ErrorModel::UnexpectedEvent),
                stack: m.stack,
                scope: m.scope,
            };
            match event {
                EventModel::Failed(msg) => MachineModel {
                    control: ControlModel::Failed(ErrorModel::Host(msg)),
                    stack: m.stack,
                    scope: m.scope,
                },
                EventModel::Text(s) => match action {
                    ActionModel::CurrentDir => text(s),
                    ActionModel::HttpGet(_) => text(s),
                    ActionModel::HttpPostJson(_, _) => text(s),
                    _ => refused,
                },
                EventModel::Done => match action {
                    ActionModel::Print(_) => unit,
                    ActionModel::WatchOpen(_) => unit,
                    _ => refused,
                },
                EventModel::Line(s) => match action {
                    ActionModel::WatchNext => text(s),
                    _ => refused,
                },
                EventModel::Closed => match action {
                    ActionModel::WatchNext => if m.stack.len() > 0 && m.stack.last() is Deliver {
                        MachineModel {
                            control: ControlModel::Return(ValueModel::Unit),
                            stack: m.stack.drop_last(),
                            scope: m.scope,
                        }
                    } else {
                        refused
                    },
                    _ => refused,
                },
            }
        },
        _ => m,
    }
}

/// An evaluation with a host that answers from a list: the machine runs,
/// with `budget` transitions at a time, and each request that it makes is
/// answered by the next event of the list. The result is the machine as it
/// stands when it asks nothing more, or when the list is used up, with the
/// requests that it made, in their order.
pub open spec fn replay_model(m: MachineModel, events: Seq<EventModel>, budget: nat) -> (
    MachineModel,
    Seq<ActionModel>,
)
    decreases events.len(),
{
    let stopped = run_model(m, budget);
    match stopped.control {
        ControlModel::Await(action) => if events.len() == 0 {
            (stopped, seq![action])
        } else {
            let (end, asked) = replay_model(
                resume_model(stopped, events[0]),
                events.drop_first(),
                budget,
            );
            (end, seq![action] + asked)
        },
        _ => (stopped, seq![]),
    }
}

} // verus!
