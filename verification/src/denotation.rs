//! What a program means, said directly: the value of an expression by
//! recursion over its tree, for the programs that ask nothing of the host
//! and call no closure.
//!
//! The machine is proved to compute this value (see the laws). Each
//! function also counts the transitions that the machine takes.

use crate::ast::{ElementModel, ExprModel, Operator, PrimaryModel};
use crate::interpreter::{bind, lookup, Bindings, ErrorModel, Kind, ValueModel};
use crate::pattern::pattern_match;
use crate::semantics::{named_model, operate};
use vstd::prelude::*;

verus! {

/// The outcome of an evaluation and the number of transitions it takes.
/// `None` stands for an evaluation that meets a built-in operation or a
/// `using`, of which these functions say nothing.
pub type Outcome = Option<(Result<ValueModel, ErrorModel>, nat)>;

/// The value or the failure of an outcome.
pub open spec fn result_of(o: Outcome) -> Result<ValueModel, ErrorModel>
    recommends
        o is Some,
{
    let (r, c) = o->0;
    r
}

/// The number of transitions of an outcome.
pub open spec fn cost_of(o: Outcome) -> nat
    recommends
        o is Some,
{
    let (r, c) = o->0;
    c
}

/// The outcome with `n` more transitions before it.
pub open spec fn after(n: nat, o: Outcome) -> Outcome {
    match o {
        Some((r, c)) => Some((r, n + c)),
        None => None,
    }
}

/// A binary operation: the left operand, then the right one, then the
/// operator. The first failure is the outcome.
pub open spec fn binary_outcome(left: Outcome, op: Operator, right: Outcome) -> Outcome {
    match left {
        Some((Ok(a), c1)) => match right {
            Some((Ok(b), c2)) => Some((operate(op, a, b), c1 + c2 + 3)),
            Some((Err(x), c2)) => Some((Err(x), c1 + c2 + 2)),
            None => None,
        },
        Some((Err(x), c1)) => Some((Err(x), c1 + 1)),
        None => None,
    }
}

/// The outcome of `includes` on the string `subject`, once the outcome of
/// its argument is there: the argument is a pattern, and the value tells
/// whether the string holds a match of it.
pub open spec fn includes_outcome(subject: Seq<char>, argument: Outcome) -> Outcome {
    match argument {
        Some((Ok(ValueModel::String(pattern)), c)) => Some(
            (
                match pattern_match(pattern, subject) {
                    Some(b) => Ok(ValueModel::Bool(b)),
                    None => Err(ErrorModel::InvalidPattern(pattern)),
                },
                c + 2,
            ),
        ),
        Some((Ok(other), c)) => Some(
            (Err(ErrorModel::TypeMismatch { expected: Kind::String, actual: other }), c + 2),
        ),
        Some((Err(x), c)) => Some((Err(x), c + 1)),
        None => None,
    }
}

/// The outcome of an expression in `env`. A function application has one
/// where it reads a name or matches a string; one of a built-in operation
/// has none.
pub open spec fn expr_outcome(e: ExprModel, env: Bindings) -> Outcome
    decreases e,
{
    match e {
        ExprModel::AddSub { left, op, right } => binary_outcome(
            expr_outcome(*left, env),
            Operator::AddSub(op),
            expr_outcome(*right, env),
        ),
        ExprModel::MulDiv { left, op, right } => binary_outcome(
            expr_outcome(*left, env),
            Operator::MulDiv(op),
            expr_outcome(*right, env),
        ),
        ExprModel::Primary(p) => primary_outcome(p, env),
        ExprModel::Call(c) => if named_model(c.fident) is Some || c.fident.len() == 0 {
            None
        } else {
            match lookup(env, c.fident[0]) {
                None => Some((Err(ErrorModel::UnresolvedCall(c.fident[0])), 1)),
                Some(ValueModel::String(subject)) => if c.fident.len() >= 2 && c.fident[1]
                    == "includes"@ {
                    if c.args.len() == 0 {
                        Some((Err(ErrorModel::MissingArgument), 1))
                    } else {
                        includes_outcome(subject, primary_outcome(c.args.last(), env))
                    }
                } else {
                    Some((Ok(ValueModel::String(subject)), 1))
                },
                Some(v) => Some((Ok(v), 1)),
            }
        },
        ExprModel::If { cond, true_exp, false_expr } => match expr_outcome(*cond, env) {
            Some((Ok(ValueModel::Bool(b)), c)) => after(
                c + 2,
                if b {
                    expr_outcome(*true_exp, env)
                } else {
                    expr_outcome(*false_expr, env)
                },
            ),
            Some((Ok(other), c)) => Some(
                (Err(ErrorModel::TypeMismatch { expected: Kind::Bool, actual: other }), c + 2),
            ),
            Some((Err(x), c)) => Some((Err(x), c + 1)),
            None => None,
        },
    }
}

/// The outcome of a primary expression in `env`.
pub open spec fn primary_outcome(p: PrimaryModel, env: Bindings) -> Outcome
    decreases p,
{
    match p {
        PrimaryModel::Bool(b) => Some((Ok(ValueModel::Bool(b)), 1)),
        PrimaryModel::DecimalInt(n) => Some((Ok(ValueModel::UInt64(n)), 1)),
        PrimaryModel::StringLiteral(s) => Some((Ok(ValueModel::String(s)), 1)),
        PrimaryModel::Regex(_) => Some((Err(ErrorModel::Unsupported), 1)),
        PrimaryModel::Identifier(name) => match lookup(env, name) {
            Some(v) => Some((Ok(v), 1)),
            None => Some((Err(ErrorModel::UnboundName(name)), 1)),
        },
        PrimaryModel::Block(elements) => after(
            1,
            block_outcome(elements, 0, env, ValueModel::Unit),
        ),
        PrimaryModel::Compound(fields) => if fields.len() == 0 {
            Some((Ok(ValueModel::Compound(seq![])), 1))
        } else {
            after(1, fields_outcome(fields, 0, seq![], env))
        },
    }
}

/// The outcome of the fields of a compound literal from the `i`th on, where
/// `done` holds those before it. Every field is evaluated in `env`: none
/// sees another.
pub open spec fn fields_outcome(
    fields: Seq<(Seq<char>, ExprModel)>,
    i: nat,
    done: Bindings,
    env: Bindings,
) -> Outcome
    decreases fields, fields.len() - i,
{
    if i >= fields.len() {
        None
    } else {
        match expr_outcome(fields[i as int].1, env) {
            Some((Ok(v), c)) => {
                let set = bind(done, fields[i as int].0, v);
                if i + 1 == fields.len() {
                    Some((Ok(ValueModel::Compound(set)), c + 1))
                } else {
                    after(c + 1, fields_outcome(fields, i + 1, set, env))
                }
            },
            Some((Err(x), c)) => Some((Err(x), c)),
            None => None,
        }
    }
}

/// The outcome of the elements of a block from the `i`th on, where `value`
/// is the value of the block so far. A binding is seen by the elements
/// behind it, and by nothing outside the block.
pub open spec fn block_outcome(
    elements: Seq<ElementModel>,
    i: nat,
    env: Bindings,
    value: ValueModel,
) -> Outcome
    decreases elements, elements.len() - i,
{
    if i >= elements.len() {
        Some((Ok(value), 1))
    } else {
        match elements[i as int] {
            ElementModel::Expr(e) => match expr_outcome(e, env) {
                Some((Ok(v), c)) => after(c + 2, block_outcome(elements, i + 1, env, v)),
                Some((Err(x), c)) => Some((Err(x), c + 1)),
                None => None,
            },
            ElementModel::Var { name, def } => match expr_outcome(def, env) {
                Some((Ok(v), c)) => after(
                    c + 2,
                    block_outcome(elements, i + 1, bind(env, name, v), ValueModel::Unit),
                ),
                Some((Err(x), c)) => Some((Err(x), c + 1)),
                None => None,
            },
            ElementModel::Function { params, body } => after(
                1,
                block_outcome(
                    elements,
                    i + 1,
                    env,
                    ValueModel::Fn { env, body, params, name: None },
                ),
            ),
            ElementModel::Using { .. } => None,
        }
    }
}

/// The values of the arguments from the `i`th on, evaluated in order behind
/// those of `done`, with the number of transitions up to the call itself.
/// The first failure is the outcome.
pub open spec fn args_outcome(
    args: Seq<PrimaryModel>,
    i: nat,
    done: Seq<ValueModel>,
    env: Bindings,
) -> Option<(Result<Seq<ValueModel>, ErrorModel>, nat)>
    decreases args, args.len() - i,
{
    if i >= args.len() {
        Some((Ok(done), 0))
    } else {
        match primary_outcome(args[i as int], env) {
            Some((Ok(v), c)) => match args_outcome(args, i + 1, done.push(v), env) {
                Some((r, n)) => Some((r, c + 1 + n)),
                None => None,
            },
            Some((Err(x), c)) => Some((Err(x), c)),
            None => None,
        }
    }
}

} // verus!
