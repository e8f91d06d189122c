//! The machine's transitions, each proved to do what its model says.

use crate::ast::{
    clone_names, names_model, AnonymousFunction, BinOp, Block, BlockElement, ElementModel, Expr,
    FunctionApplication, Identifier, If, Operator, PrimaryExpr, PrimaryModel, TaggedString,
};
use crate::interpreter::{
    result_model, BinaryOperator, Bindings, Environment, ErrorModel, EvalError, EvalResult, Kind,
    Properties, Value, ValueModel,
};
use crate::machine::{
    actions_model, events_model, fields_model, frames_model, primaries_model, values_model, Action,
    ActionModel, Builtin, Control, ControlModel, Evaluation, Event, Frame, FrameModel, MachineModel,
};
use crate::pattern::{is_match, pattern_match};
use crate::semantics::{
    apply_model, bind_params, call_model, deliver_model, enter_block_model, enter_call_model,
    enter_expr_model, enter_primary_model, invoke_model, last_arg_model, match_outcome_model,
    named_model, next_arg_model, next_field_model, operate, post_args_model, replay_model,
    resume_model, run_model, running, step_model, using_model, Named,
};
use vstd::prelude::*;

verus! {

/// Puts a frame on top of the stack.
fn push_frame(stack: &mut Vec<Frame>, frame: Frame)
    ensures
        frames_model(final(stack)@) == frames_model(old(stack)@).push(frame@),
{
    stack.push(frame);
    assert(frames_model(stack@) =~= frames_model(old(stack)@).push(frame@));
}

/// Whether a text is the given one.
fn text_is(s: &String, lit: &str) -> (r: bool)
    ensures
        r == (s@ == lit@),
{
    let other = lit.to_owned();
    *s == other
}

/// Appends the segments of a dotted name, outermost first.
fn segments(id: &Identifier, out: &mut Vec<String>)
    ensures
        names_model(final(out)@) == names_model(old(out)@) + id@,
    decreases id,
{
    out.push(id.path.clone());
    match &id.child {
        Some(c) => {
            segments(c, out);
            assert(names_model(out@) =~= names_model(old(out)@) + id@);
        },
        None => {
            assert(names_model(out@) =~= names_model(old(out)@) + id@);
        },
    }
}

fn is_one(segs: &Vec<String>, a: &str) -> (r: bool)
    ensures
        r == (names_model(segs@) == seq![a@]),
{
    let r = segs.len() == 1 && text_is(&segs[0], a);
    proof {
        let want = seq![a@];
        assert(want.len() == 1 && want[0] == a@);
        if r {
            assert(names_model(segs@) =~= want);
        }
    }
    r
}

fn is_two(segs: &Vec<String>, a: &str, b: &str) -> (r: bool)
    ensures
        r == (names_model(segs@) == seq![a@, b@]),
{
    let r = segs.len() == 2 && text_is(&segs[0], a) && text_is(&segs[1], b);
    proof {
        let want = seq![a@, b@];
        assert(want.len() == 2 && want[0] == a@ && want[1] == b@);
        if r {
            assert(names_model(segs@) =~= want);
        }
    }
    r
}

fn is_three(segs: &Vec<String>, a: &str, b: &str, c: &str) -> (r: bool)
    ensures
        r == (names_model(segs@) == seq![a@, b@, c@]),
{
    let r = segs.len() == 3 && text_is(&segs[0], a) && text_is(&segs[1], b) && text_is(
        &segs[2],
        c,
    );
    proof {
        let want = seq![a@, b@, c@];
        assert(want.len() == 3 && want[0] == a@ && want[1] == b@ && want[2] == c@);
        if r {
            assert(names_model(segs@) =~= want);
        }
    }
    r
}

/// The built-in operation that a dotted name stands for.
pub fn named(segs: &Vec<String>) -> (r: Option<Named>)
    ensures
        r == named_model(names_model(segs@)),
{
    if is_two(segs, "fs", "cwd") {
        Some(Named::Cwd)
    } else if is_one(segs, "println") {
        Some(Named::Println)
    } else if is_one(segs, "twice") {
        Some(Named::Twice)
    } else if is_two(segs, "http", "get") {
        Some(Named::HttpGet)
    } else if is_three(segs, "http", "post", "json") {
        Some(Named::HttpPostJson)
    } else if is_two(segs, "fs", "watch") {
        Some(Named::Watch)
    } else {
        None
    }
}

impl Operator {
    /// Applies the operator.
    pub fn op(&self, lhs: Value, rhs: Value) -> (r: EvalResult)
        ensures
            result_model(r) == operate(*self, lhs@, rhs@),
    {
        match self {
            Operator::AddSub(o) => o.op(lhs, rhs),
            Operator::MulDiv(o) => o.op(lhs, rhs),
        }
    }
}

impl Value {
    /// Prepares the call of this value with `arguments`: gives the body to
    /// evaluate and the environment to evaluate it in. A closure with a name
    /// of its own finds itself under that name. Fails where this is no
    /// closure, and where the arguments are fewer than the parameters;
    /// arguments beyond the parameters are ignored.
    pub fn try_evaluate_as_fn(&self, arguments: Vec<Value>) -> (r: Result<
        (Block, Environment),
        EvalError,
    >)
        ensures
            match r {
                Ok((body, env)) => apply_model(self@, values_model(arguments@)) == Ok::<
                    _,
                    ErrorModel,
                >((body@, env@)),
                Err(e) => apply_model(self@, values_model(arguments@)) == Err::<
                    (Seq<ElementModel>, Bindings),
                    _,
                >(e@),
            },
    {
        match self {
            Value::Fn { env, body, params, name } => {
                if arguments.len() < params.len() {
                    return Err(
                        EvalError::ArityMismatch {
                            expected: params.len(),
                            actual: arguments.len(),
                        },
                    );
                }
                let mut scope = match name {
                    Some(n) => env.set(n.as_str(), self.clone()),
                    None => env.clone(),
                };
                let ghost seeded = scope@;
                let mut i: usize = 0;
                while i < params.len()
                    invariant
                        i <= params.len() <= arguments.len(),
                        scope@ == bind_params(
                            seeded,
                            names_model(params@),
                            values_model(arguments@),
                            i as nat,
                        ),
                    decreases params.len() - i,
                {
                    scope = scope.set(params[i].as_str(), arguments[i].clone());
                    i += 1;
                }
                Ok((body.clone(), scope))
            },
            _ => Err(EvalError::NotCallable(self.clone())),
        }
    }
}

/// Calls `f` with `args`; `then` takes what the body returns.
fn call(f: &Value, args: Vec<Value>, stack: &mut Vec<Frame>, then: Frame) -> (c: Control)
    ensures
        (c@, frames_model(final(stack)@)) == call_model(
            f@,
            values_model(args@),
            frames_model(old(stack)@),
            then@,
        ),
{
    match f.try_evaluate_as_fn(args) {
        Ok((body, env)) => {
            push_frame(stack, then);
            Control::Block { rest: body, env, value: Value::Unit }
        },
        Err(e) => Control::Failed(e),
    }
}

/// What `includes` gives once the pattern has been matched: the answer as
/// a truth value, or the failure where the pattern was refused.
pub fn match_outcome(pattern: String, matched: Option<bool>) -> (c: Control)
    ensures
        c@ == match_outcome_model(pattern@, matched),
{
    match matched {
        Some(b) => Control::Return(Value::Bool(b)),
        None => Control::Failed(EvalError::InvalidPattern(pattern)),
    }
}

/// Whether `subject` holds a match of `pattern`, where `pattern` is a
/// regular expression.
pub fn includes(subject: &String, pattern: String) -> (c: Control)
    ensures
        c@ == match_outcome_model(pattern@, pattern_match(pattern@, subject@)),
{
    let matched = match is_match(pattern.as_str(), subject.as_str()) {
        Ok(b) => Some(b),
        Err(_) => None,
    };
    match_outcome(pattern, matched)
}

/// A built-in operation on its evaluated arguments.
fn invoke(call: Builtin, mut values: Vec<Value>, env: Environment, stack: &mut Vec<Frame>) -> (c:
    Control)
    ensures
        (c@, frames_model(final(stack)@)) == invoke_model(
            call@,
            values_model(values@),
            env@,
            frames_model(old(stack)@),
        ),
{
    let ghost all = values_model(values@);
    match call {
        Builtin::Println => Control::Await(Action::Print(values)),
        Builtin::HttpGet => {
            if values.len() == 0 {
                return Control::Failed(EvalError::MissingArgument);
            }
            let first = values.remove(0);
            assert(first@ == all[0]);
            match first {
                Value::String(url) => Control::Await(Action::HttpGet(url)),
                other => Control::Failed(
                    EvalError::TypeMismatch { expected: Kind::String, actual: other },
                ),
            }
        },
        Builtin::HttpPostJson => {
            if values.len() < 2 {
                return Control::Failed(EvalError::MissingArgument);
            }
            let body = values.remove(0);
            let url = values.remove(0);
            assert(body@ == all[0]);
            assert(url@ == all[1]);
            match url {
                Value::String(u) => match body {
                    Value::Compound { properties } => Control::Await(
                        Action::HttpPostJson(u, properties),
                    ),
                    other => Control::Failed(
                        EvalError::TypeMismatch { expected: Kind::Compound, actual: other },
                    ),
                },
                other => Control::Failed(
                    EvalError::TypeMismatch { expected: Kind::String, actual: other },
                ),
            }
        },
        Builtin::Watch { callback } => {
            if values.len() == 0 {
                return Control::Failed(EvalError::MissingArgument);
            }
            let first = values.remove(0);
            assert(first@ == all[0]);
            match first {
                Value::String(path) => {
                    push_frame(stack, Frame::Opening { callback, env });
                    Control::Await(Action::WatchOpen(path))
                },
                other => Control::Failed(
                    EvalError::TypeMismatch { expected: Kind::String, actual: other },
                ),
            }
        },
        Builtin::Includes { subject } => {
            if values.len() == 0 {
                return Control::Failed(EvalError::MissingArgument);
            }
            let first = values.remove(0);
            assert(first@ == all[0]);
            match first {
                Value::String(pattern) => includes(&subject, pattern),
                other => Control::Failed(
                    EvalError::TypeMismatch { expected: Kind::String, actual: other },
                ),
            }
        },
    }
}

/// Evaluates the next argument of a built-in operation, or invokes the
/// operation where none is left.
fn next_arg(
    call: Builtin,
    done: Vec<Value>,
    mut rest: Vec<PrimaryExpr>,
    env: Environment,
    stack: &mut Vec<Frame>,
) -> (c: Control)
    ensures
        (c@, frames_model(final(stack)@)) == next_arg_model(
            call@,
            values_model(done@),
            primaries_model(rest@),
            env@,
            frames_model(old(stack)@),
        ),
{
    if rest.len() == 0 {
        invoke(call, done, env, stack)
    } else {
        let ghost before = primaries_model(rest@);
        let first = rest.remove(0);
        assert(primaries_model(rest@) =~= before.drop_first());
        assert(first@ == before[0]);
        let kept = env.clone();
        push_frame(stack, Frame::Args { call, done, rest, env: kept });
        Control::Expr { expr: Expr::Primary(first), env }
    }
}

/// Evaluates the next field of a compound literal, or returns the compound
/// where none is left.
fn next_field(
    done: Properties,
    mut rest: Vec<(String, Expr)>,
    env: Environment,
    stack: &mut Vec<Frame>,
) -> (c: Control)
    ensures
        (c@, frames_model(final(stack)@)) == next_field_model(
            done@,
            fields_model(rest@),
            env@,
            frames_model(old(stack)@),
        ),
{
    if rest.len() == 0 {
        Control::Return(Value::Compound { properties: done })
    } else {
        let ghost before = fields_model(rest@);
        let (key, expr) = rest.remove(0);
        assert(fields_model(rest@) =~= before.drop_first());
        assert(key@ == before[0].0 && expr@ == before[0].1);
        let kept = env.clone();
        push_frame(stack, Frame::Field { key, done, rest, env: kept });
        Control::Expr { expr, env }
    }
}

/// The last argument alone, where there is one.
fn last_arg(args: Vec<PrimaryExpr>) -> (r: Vec<PrimaryExpr>)
    ensures
        primaries_model(r@) == last_arg_model(primaries_model(args@)),
{
    let mut args = args;
    let ghost all = primaries_model(args@);
    match args.pop() {
        Some(a) => {
            let r = vec![a];
            assert(primaries_model(r@) =~= seq![all.last()]);
            r
        },
        None => {
            let r: Vec<PrimaryExpr> = Vec::new();
            assert(primaries_model(r@) =~= Seq::<PrimaryModel>::empty());
            r
        },
    }
}

/// The last argument and then the one before it, as far as they are there.
fn post_args(args: Vec<PrimaryExpr>) -> (r: Vec<PrimaryExpr>)
    ensures
        primaries_model(r@) == post_args_model(primaries_model(args@)),
{
    let mut args = args;
    let ghost all = primaries_model(args@);
    match args.pop() {
        Some(body) => match args.pop() {
            Some(url) => {
                let r = vec![body, url];
                assert(primaries_model(r@) =~= seq![all[all.len() - 1], all[all.len() - 2]]);
                r
            },
            None => {
                let r = vec![body];
                assert(primaries_model(r@) =~= seq![all[0]]);
                r
            },
        },
        None => {
            let r: Vec<PrimaryExpr> = Vec::new();
            assert(primaries_model(r@) =~= Seq::<PrimaryModel>::empty());
            r
        },
    }
}

impl PrimaryExpr {
    /// The first transition of a primary expression.
    pub fn evaluate(self, env: Environment, stack: &mut Vec<Frame>) -> (c: Control)
        ensures
            (c@, frames_model(final(stack)@)) == enter_primary_model(
                self@,
                env@,
                frames_model(old(stack)@),
            ),
    {
        match self {
            PrimaryExpr::Bool(b) => Control::Return(b.evaluate()),
            PrimaryExpr::Block(b) => Control::Block { rest: b, env, value: Value::Unit },
            PrimaryExpr::DecimalInt(n) => Control::Return(Value::UInt64(n)),
            PrimaryExpr::StringLiteral(s) => Control::Return(Value::String(s)),
            PrimaryExpr::TaggedString(TaggedString::Regex(_)) => Control::Failed(
                EvalError::Unsupported,
            ),
            PrimaryExpr::Identifier(name) => match env.get(name.as_str()) {
                Some(v) => Control::Return(v.clone()),
                None => Control::Failed(EvalError::UnboundName(name)),
            },
            PrimaryExpr::Compound(fields) => {
                assert(self@->Compound_0 =~= fields_model(fields@));
                next_field(Properties::new(), fields, env, stack)
            },
        }
    }
}

impl FunctionApplication {
    /// The first transition of a function application: a built-in
    /// operation where the name is one, and else the value that the
    /// outermost segment of the name is bound to.
    pub fn evaluate(self, env: Environment, stack: &mut Vec<Frame>) -> (c: Control)
        ensures
            (c@, frames_model(final(stack)@)) == enter_call_model(
                self@,
                env@,
                frames_model(old(stack)@),
            ),
    {
        let ghost model = self@;
        let FunctionApplication { fident, options: _, args } = self;
        let mut args = args;
        let mut segs: Vec<String> = Vec::new();
        segments(&fident, &mut segs);
        proof {
            assert(names_model(segs@) =~= fident@);
            assert(model.args =~= primaries_model(args@));
            assert(fident@.len() >= 1 && fident@[0] == fident.path@);
        }
        match named(&segs) {
            Some(Named::Cwd) => Control::Await(Action::CurrentDir),
            Some(Named::Println) => {
                let done: Vec<Value> = Vec::new();
                assert(values_model(done@) =~= Seq::<ValueModel>::empty());
                next_arg(Builtin::Println, done, args, env, stack)
            },
            Some(Named::Twice) => {
                match args.pop() {
                    Some(arg) => {
                        let again = arg.clone();
                        let kept = env.clone();
                        push_frame(stack, Frame::Repeat { arg: again, env: kept, again: true });
                        Control::Expr { expr: Expr::Primary(arg), env }
                    },
                    None => Control::Failed(EvalError::MissingArgument),
                }
            },
            Some(Named::HttpGet) => {
                let done: Vec<Value> = Vec::new();
                assert(values_model(done@) =~= Seq::<ValueModel>::empty());
                next_arg(Builtin::HttpGet, done, last_arg(args), env, stack)
            },
            Some(Named::HttpPostJson) => {
                let done: Vec<Value> = Vec::new();
                assert(values_model(done@) =~= Seq::<ValueModel>::empty());
                next_arg(Builtin::HttpPostJson, done, post_args(args), env, stack)
            },
            Some(Named::Watch) => {
                if args.len() == 0 {
                    return Control::Failed(EvalError::MissingArgument);
                }
                let callback = args[args.len() - 1].clone();
                let first = args.remove(0);
                let rest = vec![first];
                let done: Vec<Value> = Vec::new();
                assert(values_model(done@) =~= Seq::<ValueModel>::empty());
                assert(primaries_model(rest@) =~= seq![model.args[0]]);
                next_arg(Builtin::Watch { callback }, done, rest, env, stack)
            },
            None => {
                let found = match env.get(segs[0].as_str()) {
                    None => None,
                    Some(obj) => Some(obj.clone()),
                };
                match found {
                    None => Control::Failed(EvalError::UnresolvedCall(segs[0].clone())),
                    Some(Value::String(subject)) => {
                        if segs.len() >= 2 && text_is(&segs[1], "includes") {
                            let done: Vec<Value> = Vec::new();
                            assert(values_model(done@) =~= Seq::<ValueModel>::empty());
                            next_arg(
                                Builtin::Includes { subject },
                                done,
                                last_arg(args),
                                env,
                                stack,
                            )
                        } else {
                            Control::Return(Value::String(subject))
                        }
                    },
                    Some(other) => Control::Return(other),
                }
            },
        }
    }
}

impl<T: BinaryOperator> BinOp<T> {
    /// The first transition of a binary operation: the left operand is
    /// evaluated, and the right one waits.
    pub fn evaluate(self, env: Environment, stack: &mut Vec<Frame>) -> (c: Control)
        ensures
            c@ == (ControlModel::Expr { expr: self.left@, env: env@ }),
            frames_model(final(stack)@) == frames_model(old(stack)@).push(
                FrameModel::Right {
                    op: self.op.operator_model(),
                    right: self.right@,
                    env: env@,
                },
            ),
    {
        let BinOp { left, op, right } = self;
        let kept = env.clone();
        push_frame(stack, Frame::Right { op: op.operator(), right: *right, env: kept });
        Control::Expr { expr: *left, env }
    }
}

impl Expr {
    /// The first transition of an expression.
    pub fn enter(self, env: Environment, stack: &mut Vec<Frame>) -> (c: Control)
        ensures
            (c@, frames_model(final(stack)@)) == enter_expr_model(
                self@,
                env@,
                frames_model(old(stack)@),
            ),
    {
        match self {
            Expr::AddSub(b) => b.evaluate(env, stack),
            Expr::MulDiv(b) => b.evaluate(env, stack),
            Expr::Primary(p) => p.evaluate(env, stack),
            Expr::FunctionApplication(f) => f.evaluate(env, stack),
            Expr::If(i) => {
                let If { cond, true_exp, false_expr } = i;
                let kept = env.clone();
                push_frame(
                    stack,
                    Frame::Branch { true_exp: *true_exp, false_expr: *false_expr, env: kept },
                );
                Control::Expr { expr: *cond, env }
            },
        }
    }

    /// An evaluation of the expression in `env`, before its first
    /// transition.
    pub fn evaluate(&self, env: &Environment) -> (r: Evaluation)
        ensures
            r@ == (MachineModel {
                control: ControlModel::Expr { expr: self@, env: env@ },
                stack: Seq::empty(),
                scope: env@,
            }),
    {
        let stack: Vec<Frame> = Vec::new();
        assert(frames_model(stack@) =~= Seq::<FrameModel>::empty());
        Evaluation {
            control: Control::Expr { expr: self.clone(), env: env.clone() },
            stack,
            scope: env.clone(),
        }
    }
}

/// The call that a `using` element stands for.
fn desugar_using(name: String, def: FunctionApplication, rest: Block) -> (r: FunctionApplication)
    ensures
        r@ == using_model(name@, def@, rest@),
{
    let ghost before = def@;
    let FunctionApplication { fident, options, args } = def;
    let mut args = args;
    let params = vec![name];
    assert(names_model(params@) =~= seq![name@]);
    let function = BlockElement::AnonymousFunction(AnonymousFunction { params, body: rest });
    let ghost element = function@;
    let body = Block(vec![function]);
    assert(body@ =~= seq![element]);
    let arg = PrimaryExpr::Block(body);
    let ghost added = arg@;
    args.push(arg);
    let r = FunctionApplication { fident, options, args };
    assert(r@.args =~= before.args.push(added));
    assert(r@.options =~= before.options);
    r
}

/// The first transition of the rest of a block.
fn enter_block(rest: Block, env: Environment, value: Value, stack: &mut Vec<Frame>) -> (c: Control)
    ensures
        (c@, frames_model(final(stack)@)) == enter_block_model(
            rest@,
            env@,
            value@,
            frames_model(old(stack)@),
        ),
{
    let ghost before = rest@;
    let mut elements = rest.0;
    if elements.len() == 0 {
        return Control::Return(value);
    }
    let first = elements.remove(0);
    let tail = Block(elements);
    assert(tail@ =~= before.drop_first());
    assert(first@ == before[0]);
    match first {
        BlockElement::Expr(expr) => {
            let kept = env.clone();
            push_frame(stack, Frame::Sequence { rest: tail, env: kept });
            Control::Expr { expr, env }
        },
        BlockElement::Var { name, def } => {
            let kept = env.clone();
            push_frame(stack, Frame::Bind { name, rest: tail, env: kept });
            Control::Expr { expr: def, env }
        },
        BlockElement::AnonymousFunction(f) => {
            let AnonymousFunction { params, body } = f;
            let captured = env.clone();
            Control::Block {
                rest: tail,
                env,
                value: Value::Fn { env: captured, body, params, name: None },
            }
        },
        BlockElement::Using { name, def } => Control::Expr {
            expr: Expr::FunctionApplication(desugar_using(name, def, tail)),
            env,
        },
    }
}

/// A value reaches the frame that waited for it.
fn deliver(frame: Frame, value: Value, stack: &mut Vec<Frame>) -> (c: Control)
    ensures
        (c@, frames_model(final(stack)@)) == deliver_model(
            frame@,
            value@,
            frames_model(old(stack)@),
        ),
{
    match frame {
        Frame::Right { op, right, env } => {
            push_frame(stack, Frame::Apply { op, left: value });
            Control::Expr { expr: right, env }
        },
        Frame::Apply { op, left } => match op.op(left, value) {
            Ok(v) => Control::Return(v),
            Err(e) => Control::Failed(e),
        },
        Frame::Branch { true_exp, false_expr, env } => match value {
            Value::Bool(b) => Control::Expr {
                expr: if b {
                    true_exp
                } else {
                    false_expr
                },
                env,
            },
            other => Control::Failed(
                EvalError::TypeMismatch { expected: Kind::Bool, actual: other },
            ),
        },
        Frame::Sequence { rest, env } => Control::Block { rest, env, value },
        Frame::Bind { name, rest, env } => Control::Block {
            rest,
            env: env.set(name.as_str(), value),
            value: Value::Unit,
        },
        Frame::Field { key, done, rest, env } => {
            let mut done = done;
            done.set(key.as_str(), value);
            next_field(done, rest, env, stack)
        },
        Frame::Args { call, done, rest, env } => {
            let mut done = done;
            let ghost before = values_model(done@);
            done.push(value);
            assert(values_model(done@) =~= before.push(value@));
            next_arg(call, done, rest, env, stack)
        },
        Frame::Repeat { arg, env, again } => {
            let args = vec![Value::Unit];
            assert(values_model(args@) =~= seq![ValueModel::Unit]);
            call(&value, args, stack, Frame::Repeated { arg, env, again })
        },
        Frame::Repeated { arg, env, again } => {
            if again {
                let expr = Expr::Primary(arg.clone());
                let kept = env.clone();
                push_frame(stack, Frame::Repeat { arg, env: kept, again: false });
                Control::Expr { expr, env }
            } else {
                Control::Return(Value::Unit)
            }
        },
        Frame::Opening { callback, env } => {
            push_frame(stack, Frame::Subscribe);
            Control::Expr { expr: Expr::Primary(callback), env }
        },
        Frame::Subscribe => {
            push_frame(stack, Frame::Deliver { callback: value });
            Control::Await(Action::WatchNext)
        },
        Frame::Deliver { callback } => {
            let ghost line = value@;
            let args = vec![value];
            assert(values_model(args@) =~= seq![line]);
            let f = callback.clone();
            call(&f, args, stack, Frame::Resubscribe { callback })
        },
        Frame::Resubscribe { callback } => {
            push_frame(stack, Frame::Deliver { callback });
            Control::Await(Action::WatchNext)
        },
        Frame::Define { name } => Control::Return(Value::Unit),
    }
}

impl Block {
    /// An evaluation of the block in `env`, before its first transition.
    pub fn evaluate(&self, env: &Environment) -> (r: Evaluation)
        ensures
            r@ == (MachineModel {
                control: ControlModel::Block { rest: self@, env: env@, value: ValueModel::Unit },
                stack: Seq::empty(),
                scope: env@,
            }),
    {
        let stack: Vec<Frame> = Vec::new();
        assert(frames_model(stack@) =~= Seq::<FrameModel>::empty());
        Evaluation {
            control: Control::Block { rest: self.clone(), env: env.clone(), value: Value::Unit },
            stack,
            scope: env.clone(),
        }
    }
}

/// The evaluation that a line of an interactive session starts: what
/// `evaluate_for_repl` gives.
pub open spec fn repl_model(element: ElementModel, env: Bindings) -> Result<
    MachineModel,
    ErrorModel,
> {
    match element {
        ElementModel::Expr(e) => Ok(
            MachineModel {
                control: ControlModel::Expr { expr: e, env },
                stack: Seq::empty(),
                scope: env,
            },
        ),
        ElementModel::Var { name, def } => Ok(
            MachineModel {
                control: ControlModel::Expr { expr: def, env },
                stack: seq![FrameModel::Define { name }],
                scope: env,
            },
        ),
        ElementModel::Function { params, body } => Ok(
            MachineModel {
                control: ControlModel::Return(ValueModel::Fn { env, body, params, name: None }),
                stack: Seq::empty(),
                scope: env,
            },
        ),
        ElementModel::Using { .. } => Err(ErrorModel::Unsupported),
    }
}

impl BlockElement {
    /// An evaluation of one line of an interactive session. An expression
    /// leaves `env` as it is; a binding leaves `env` with the name bound
    /// and has the unit value; a function is its own value. `using` has no
    /// block to take the rest of, and is refused.
    pub fn evaluate_for_repl(&self, env: &Environment) -> (r: Result<Evaluation, EvalError>)
        ensures
            match r {
                Ok(m) => repl_model(self@, env@) == Ok::<_, ErrorModel>(m@),
                Err(e) => repl_model(self@, env@) == Err::<MachineModel, _>(e@),
            },
    {
        let mut stack: Vec<Frame> = Vec::new();
        assert(frames_model(stack@) =~= Seq::<FrameModel>::empty());
        match self {
            BlockElement::Expr(e) => Ok(
                Evaluation {
                    control: Control::Expr { expr: e.clone(), env: env.clone() },
                    stack,
                    scope: env.clone(),
                },
            ),
            BlockElement::Var { name, def } => {
                push_frame(&mut stack, Frame::Define { name: name.clone() });
                assert(frames_model(stack@) =~= seq![
                    FrameModel::Define { name: name@ },
                ]);
                Ok(
                    Evaluation {
                        control: Control::Expr { expr: def.clone(), env: env.clone() },
                        stack,
                        scope: env.clone(),
                    },
                )
            },
            BlockElement::AnonymousFunction(f) => Ok(
                Evaluation {
                    control: Control::Return(
                        Value::Fn {
                            env: env.clone(),
                            body: f.body.clone(),
                            params: clone_names(&f.params),
                            name: None,
                        },
                    ),
                    stack,
                    scope: env.clone(),
                },
            ),
            BlockElement::Using { .. } => Err(EvalError::Unsupported),
        }
    }
}

/// Where an evaluation stands.
#[derive(Debug, Clone, Copy, PartialEq, Eq)]
pub enum Status {
    /// It can make a transition.
    Running,
    /// It waits for the host to answer a request.
    Waiting,
    /// It has a value.
    Finished,
    /// It has failed.
    Failed,
}

/// Where a machine stands.
pub open spec fn status_model(m: MachineModel) -> Status {
    match m.control {
        ControlModel::Await(_) => Status::Waiting,
        ControlModel::Failed(_) => Status::Failed,
        ControlModel::Return(_) => if m.stack.len() == 0 {
            Status::Finished
        } else {
            Status::Running
        },
        _ => Status::Running,
    }
}

/// How a machine has ended: with the scope that it leaves and its value, or
/// with its failure. `None` while it has not ended.
pub open spec fn ended_model(m: MachineModel) -> Option<
    Result<(Bindings, ValueModel), ErrorModel>,
> {
    match m.control {
        ControlModel::Failed(e) => Some(Err(e)),
        ControlModel::Return(v) => if m.stack.len() == 0 {
            Some(Ok((m.scope, v)))
        } else {
            None
        },
        _ => None,
    }
}

impl Evaluation {
    /// How the evaluation has ended: with the environment that it leaves
    /// to what follows and its value, or with its failure. `None` while it
    /// has not ended.
    pub fn ended(self) -> (r: Option<Result<(Environment, Value), EvalError>>)
        ensures
            match r {
                Some(Ok((scope, v))) => ended_model(self@) == Some(
                    Ok::<_, ErrorModel>((scope@, v@)),
                ),
                Some(Err(e)) => ended_model(self@) == Some(
                    Err::<(Bindings, ValueModel), _>(e@),
                ),
                None => ended_model(self@) is None,
            },
    {
        let Evaluation { control, stack, scope } = self;
        match control {
            Control::Failed(e) => Some(Err(e)),
            Control::Return(v) => if stack.len() == 0 {
                Some(Ok((scope, v)))
            } else {
                None
            },
            _ => None,
        }
    }

    /// Where the evaluation stands.
    pub fn status(&self) -> (r: Status)
        ensures
            r == status_model(self@),
            (r == Status::Running) == running(self@),
    {
        match &self.control {
            Control::Await(_) => Status::Waiting,
            Control::Failed(_) => Status::Failed,
            Control::Return(_) => if self.stack.len() == 0 {
                Status::Finished
            } else {
                Status::Running
            },
            _ => Status::Running,
        }
    }

    /// One transition. An evaluation that is not running stays as it is.
    pub fn step(self) -> (next: Evaluation)
        ensures
            next@ == step_model(self@),
    {
        let Evaluation { control, stack, scope } = self;
        let mut stack = stack;
        match control {
            Control::Expr { expr, env } => {
                let control = expr.enter(env, &mut stack);
                Evaluation { control, stack, scope }
            },
            Control::Block { rest, env, value } => {
                let control = enter_block(rest, env, value, &mut stack);
                Evaluation { control, stack, scope }
            },
            Control::Return(value) => {
                let ghost before = frames_model(stack@);
                match stack.pop() {
                    None => Evaluation { control: Control::Return(value), stack, scope },
                    Some(frame) => {
                        assert(frames_model(stack@) =~= before.drop_last());
                        assert(frame@ == before.last());
                        let scope = match &frame {
                            Frame::Define { name } => scope.set(name.as_str(), value.clone()),
                            _ => scope,
                        };
                        let control = deliver(frame, value, &mut stack);
                        Evaluation { control, stack, scope }
                    },
                }
            },
            Control::Await(action) => Evaluation { control: Control::Await(action), stack, scope },
            Control::Failed(e) => Evaluation { control: Control::Failed(e), stack, scope },
        }
    }

    /// Up to `budget` transitions, and fewer where the evaluation stops
    /// before: with a value, with a failure, or with a request to the host.
    pub fn run(self, budget: u64) -> (r: Evaluation)
        ensures
            r@ == run_model(self@, budget as nat),
    {
        let mut current = self;
        let mut left = budget;
        while left > 0 && matches!(current.status(), Status::Running)
            invariant
                run_model(current@, left as nat) == run_model(self@, budget as nat),
            decreases left,
        {
            current = current.step();
            left = left - 1;
        }
        current
    }

    /// An evaluation with a host that answers from a list: the evaluation
    /// runs, with `budget` transitions at a time, and each request that it
    /// makes is answered by the next of `events`. Gives the evaluation as
    /// it stands when it asks nothing more, or when the list is used up,
    /// and the requests that it made, in their order.
    pub fn replay(self, events: &Vec<Event>, budget: u64) -> (r: (Evaluation, Vec<Action>))
        ensures
            (r.0@, actions_model(r.1@)) == replay_model(
                self@,
                events_model(events@),
                budget as nat,
            ),
    {
        let ghost all = events_model(events@);
        let ghost mut before = self@;
        let mut current = self.run(budget);
        let mut asked: Vec<Action> = Vec::new();
        let mut i: usize = 0;
        assert(actions_model(asked@) =~= Seq::<ActionModel>::empty());
        assert(all.subrange(0, all.len() as int) =~= all);
        assert(Seq::<ActionModel>::empty() + replay_model(before, all, budget as nat).1
            =~= replay_model(before, all, budget as nat).1);
        loop
            invariant_except_break
                i <= events.len(),
                all == events_model(events@),
                current@ == run_model(before, budget as nat),
                replay_model(self@, all, budget as nat).0 == replay_model(
                    before,
                    all.subrange(i as int, all.len() as int),
                    budget as nat,
                ).0,
                replay_model(self@, all, budget as nat).1 == actions_model(asked@) + replay_model(
                    before,
                    all.subrange(i as int, all.len() as int),
                    budget as nat,
                ).1,
            ensures
                (current@, actions_model(asked@)) == replay_model(self@, all, budget as nat),
            decreases events.len() - i,
        {
            let ghost left = all.subrange(i as int, all.len() as int);
            let ghost sofar = actions_model(asked@);
            let request = match &current.control {
                Control::Await(action) => Some(action.clone()),
                _ => None,
            };
            match request {
                None => {
                    assert(sofar + Seq::<ActionModel>::empty() =~= sofar);
                    break ;
                },
                Some(action) => {
                    let ghost made = action@;
                    asked.push(action);
                    assert(actions_model(asked@) =~= sofar.push(made));
                    if i == events.len() {
                        assert(sofar + seq![made] =~= sofar.push(made));
                        break ;
                    }
                    let event = events[i].clone();
                    assert(left[0] == event@);
                    assert(left.drop_first() =~= all.subrange(i + 1, all.len() as int));
                    proof {
                        before = resume_model(current@, event@);
                        let more = replay_model(
                            before,
                            all.subrange(i + 1, all.len() as int),
                            budget as nat,
                        ).1;
                        assert(sofar + (seq![made] + more) =~= sofar.push(made) + more);
                    }
                    current = current.resume(event).run(budget);
                    i += 1;
                },
            }
        }
        (current, asked)
    }

    /// Hands the host's answer to an evaluation that waits. An evaluation
    /// that does not wait stays as it is.
    pub fn resume(self, event: Event) -> (next: Evaluation)
        ensures
            next@ == resume_model(self@, event@),
    {
        let Evaluation { control, stack, scope } = self;
        let mut stack = stack;
        let control = match control {
            Control::Await(action) => match event {
                Event::Failed(msg) => Control::Failed(EvalError::Host(msg)),
                Event::Text(s) => match action {
                    Action::CurrentDir => Control::Return(Value::String(s)),
                    Action::HttpGet(_) => Control::Return(Value::String(s)),
                    Action::HttpPostJson(_, _) => Control::Return(Value::String(s)),
                    _ => Control::Failed(EvalError::UnexpectedEvent),
                },
                Event::Done => match action {
                    Action::Print(_) => Control::Return(Value::Unit),
                    Action::WatchOpen(_) => Control::Return(Value::Unit),
                    _ => Control::Failed(EvalError::UnexpectedEvent),
                },
                Event::Line(s) => match action {
                    Action::WatchNext => Control::Return(Value::String(s)),
                    _ => Control::Failed(EvalError::UnexpectedEvent),
                },
                Event::Closed => match action {
                    Action::WatchNext => {
                        let top_delivers = stack.len() > 0 && matches!(
                            stack[stack.len() - 1],
                            Frame::Deliver { .. }
                        );
                        if top_delivers {
                            let ghost before = frames_model(stack@);
                            stack.pop();
                            assert(frames_model(stack@) =~= before.drop_last());
                            Control::Return(Value::Unit)
                        } else {
                            Control::Failed(EvalError::UnexpectedEvent)
                        }
                    },
                    _ => Control::Failed(EvalError::UnexpectedEvent),
                },
            },
            other => other,
        };
        Evaluation { control, stack, scope }
    }
}

} // verus!
