//! The evaluator as a machine that the host drives.
//!
//! An [`Evaluation`] is a control state and a stack of frames. `step` makes
//! one transition. Where the program needs the outside world the machine
//! stops with a request, an [`Action`]; the host performs it and hands the
//! answer, an [`Event`], to `resume`. The machine itself reads no file and
//! prints nothing.

use crate::ast::{
    Block, BlockElement, ElementModel, Expr, ExprModel, Operator, PrimaryExpr, PrimaryModel,
};
use crate::interpreter::{
    Bindings, Environment, ErrorModel, EvalError, Properties, Value, ValueModel,
};
use vstd::prelude::*;

verus! {

/// What the machine asks of its host.
#[derive(Debug, PartialEq)]
pub enum Action {
    /// Give the current working directory: answered by `Event::Text`.
    CurrentDir,
    /// Write the values on one line: answered by `Event::Done`.
    Print(Vec<Value>),
    /// Fetch the address: answered by `Event::Text` with the body.
    HttpGet(String),
    /// Post the fields as a JSON object to the address: answered by
    /// `Event::Text` with the body.
    HttpPostJson(String, Properties),
    /// Start to follow the file from its end: answered by `Event::Done`.
    WatchOpen(String),
    /// Wait for the next completed line of the followed file: answered by
    /// `Event::Line`, or by `Event::Closed` when there will be no more.
    WatchNext,
}

/// What the host answers.
#[derive(Debug, PartialEq)]
pub enum Event {
    Done,
    Text(String),
    Line(String),
    Closed,
    Failed(String),
}

/// A built-in operation whose arguments are being evaluated.
#[derive(Debug, PartialEq)]
pub enum Builtin {
    Println,
    HttpGet,
    HttpPostJson,
    Watch { callback: PrimaryExpr },
    Includes { subject: String },
}

/// What remains to be done with a value once it is there.
#[allow(inconsistent_fields)]
#[derive(Debug, PartialEq)]
pub enum Frame {
    /// The value is the left operand: the right one comes next.
    Right { op: Operator, right: Expr, env: Environment },
    /// The value is the right operand.
    Apply { op: Operator, left: Value },
    /// The value is the condition.
    Branch { true_exp: Expr, false_expr: Expr, env: Environment },
    /// The value is that of a block's element: the rest of the block follows.
    Sequence { rest: Block, env: Environment },
    /// The value is bound to `name` for the rest of the block.
    Bind { name: String, rest: Block, env: Environment },
    /// The value is that of the field `key` of a compound literal.
    Field { key: String, done: Properties, rest: Vec<(String, Expr)>, env: Environment },
    /// The value is the next argument of a built-in operation.
    Args { call: Builtin, done: Vec<Value>, rest: Vec<PrimaryExpr>, env: Environment },
    /// The value is the function that `twice` calls.
    Repeat { arg: PrimaryExpr, env: Environment, again: bool },
    /// The value is what a call made by `twice` returned.
    Repeated { arg: PrimaryExpr, env: Environment, again: bool },
    /// The host follows the file: the callback is evaluated next.
    Opening { callback: PrimaryExpr, env: Environment },
    /// The value is the callback of `fs.watch`.
    Subscribe,
    /// The value is a line for the callback.
    Deliver { callback: Value },
    /// The value is what the callback returned for a line.
    Resubscribe { callback: Value },
    /// The value is bound to `name` in the scope that the evaluation leaves.
    Define { name: String },
}

/// What the machine does next.
#[derive(Debug, PartialEq)]
pub enum Control {
    /// Evaluate the expression.
    Expr { expr: Expr, env: Environment },
    /// Evaluate the rest of a block, whose value so far is `value`.
    Block { rest: Block, env: Environment, value: Value },
    /// Hand the value to the frame on top of the stack.
    Return(Value),
    /// Wait for the host.
    Await(Action),
    /// The evaluation has failed.
    Failed(EvalError),
}

/// An evaluation in progress.
#[derive(Debug, PartialEq)]
pub struct Evaluation {
    pub control: Control,
    pub stack: Vec<Frame>,
    /// The environment that the evaluation leaves to what follows it.
    pub scope: Environment,
}

pub enum ActionModel {
    CurrentDir,
    Print(Seq<ValueModel>),
    HttpGet(Seq<char>),
    HttpPostJson(Seq<char>, Bindings),
    WatchOpen(Seq<char>),
    WatchNext,
}

pub enum EventModel {
    Done,
    Text(Seq<char>),
    Line(Seq<char>),
    Closed,
    Failed(Seq<char>),
}

pub enum BuiltinModel {
    Println,
    HttpGet,
    HttpPostJson,
    Watch { callback: PrimaryModel },
    Includes { subject: Seq<char> },
}

#[allow(inconsistent_fields)]
pub enum FrameModel {
    Right { op: Operator, right: ExprModel, env: Bindings },
    Apply { op: Operator, left: ValueModel },
    Branch { true_exp: ExprModel, false_expr: ExprModel, env: Bindings },
    Sequence { rest: Seq<ElementModel>, env: Bindings },
    Bind { name: Seq<char>, rest: Seq<ElementModel>, env: Bindings },
    Field { key: Seq<char>, done: Bindings, rest: Seq<(Seq<char>, ExprModel)>, env: Bindings },
    Args { call: BuiltinModel, done: Seq<ValueModel>, rest: Seq<PrimaryModel>, env: Bindings },
    Repeat { arg: PrimaryModel, env: Bindings, again: bool },
    Repeated { arg: PrimaryModel, env: Bindings, again: bool },
    Opening { callback: PrimaryModel, env: Bindings },
    Subscribe,
    Deliver { callback: ValueModel },
    Resubscribe { callback: ValueModel },
    Define { name: Seq<char> },
}

pub enum ControlModel {
    Expr { expr: ExprModel, env: Bindings },
    Block { rest: Seq<ElementModel>, env: Bindings, value: ValueModel },
    Return(ValueModel),
    Await(ActionModel),
    Failed(ErrorModel),
}

pub struct MachineModel {
    pub control: ControlModel,
    pub stack: Seq<FrameModel>,
    pub scope: Bindings,
}

/// The views of a list of values.
pub open spec fn values_model(v: Seq<Value>) -> Seq<ValueModel> {
    Seq::new(v.len(), |i: int| v[i]@)
}

/// The views of a list of primary expressions.
pub open spec fn primaries_model(v: Seq<PrimaryExpr>) -> Seq<PrimaryModel> {
    Seq::new(v.len(), |i: int| v[i]@)
}

/// The views of the fields of a compound literal.
pub open spec fn fields_model(v: Seq<(String, Expr)>) -> Seq<(Seq<char>, ExprModel)> {
    Seq::new(v.len(), |i: int| (v[i].0@, v[i].1@))
}

/// The views of a block's elements.
pub open spec fn elements_model(v: Seq<BlockElement>) -> Seq<ElementModel> {
    Seq::new(v.len(), |i: int| v[i]@)
}

/// The views of a stack of frames.
pub open spec fn frames_model(v: Seq<Frame>) -> Seq<FrameModel> {
    Seq::new(v.len(), |i: int| v[i]@)
}

impl View for Action {
    type V = ActionModel;

    open spec fn view(&self) -> ActionModel {
        match self {
            Action::CurrentDir => ActionModel::CurrentDir,
            Action::Print(v) => ActionModel::Print(values_model(v@)),
            Action::HttpGet(u) => ActionModel::HttpGet(u@),
            Action::HttpPostJson(u, b) => ActionModel::HttpPostJson(u@, b@),
            Action::WatchOpen(p) => ActionModel::WatchOpen(p@),
            Action::WatchNext => ActionModel::WatchNext,
        }
    }
}

impl View for Event {
    type V = EventModel;

    open spec fn view(&self) -> EventModel {
        match self {
            Event::Done => EventModel::Done,
            Event::Text(s) => EventModel::Text(s@),
            Event::Line(s) => EventModel::Line(s@),
            Event::Closed => EventModel::Closed,
            Event::Failed(s) => EventModel::Failed(s@),
        }
    }
}

impl View for Builtin {
    type V = BuiltinModel;

    open spec fn view(&self) -> BuiltinModel {
        match self {
            Builtin::Println => BuiltinModel::Println,
            Builtin::HttpGet => BuiltinModel::HttpGet,
            Builtin::HttpPostJson => BuiltinModel::HttpPostJson,
            Builtin::Watch { callback } => BuiltinModel::Watch { callback: callback@ },
            Builtin::Includes { subject } => BuiltinModel::Includes { subject: subject@ },
        }
    }
}

impl View for Frame {
    type V = FrameModel;

    open spec fn view(&self) -> FrameModel {
        match self {
            Frame::Right { op, right, env } => FrameModel::Right {
                op: *op,
                right: right@,
                env: env@,
            },
            Frame::Apply { op, left } => FrameModel::Apply { op: *op, left: left@ },
            Frame::Branch { true_exp, false_expr, env } => FrameModel::Branch {
                true_exp: true_exp@,
                false_expr: false_expr@,
                env: env@,
            },
            Frame::Sequence { rest, env } => FrameModel::Sequence { rest: rest@, env: env@ },
            Frame::Bind { name, rest, env } => FrameModel::Bind {
                name: name@,
                rest: rest@,
                env: env@,
            },
            Frame::Field { key, done, rest, env } => FrameModel::Field {
                key: key@,
                done: done@,
                rest: fields_model(rest@),
                env: env@,
            },
            Frame::Args { call, done, rest, env } => FrameModel::Args {
                call: call@,
                done: values_model(done@),
                rest: primaries_model(rest@),
                env: env@,
            },
            Frame::Repeat { arg, env, again } => FrameModel::Repeat {
                arg: arg@,
                env: env@,
                again: *again,
            },
            Frame::Repeated { arg, env, again } => FrameModel::Repeated {
                arg: arg@,
                env: env@,
                again: *again,
            },
            Frame::Opening { callback, env } => FrameModel::Opening {
                callback: callback@,
                env: env@,
            },
            Frame::Subscribe => FrameModel::Subscribe,
            Frame::Deliver { callback } => FrameModel::Deliver { callback: callback@ },
            Frame::Resubscribe { callback } => FrameModel::Resubscribe { callback: callback@ },
            Frame::Define { name } => FrameModel::Define { name: name@ },
        }
    }
}

impl View for Control {
    type V = ControlModel;

    open spec fn view(&self) -> ControlModel {
        match self {
            Control::Expr { expr, env } => ControlModel::Expr { expr: expr@, env: env@ },
            Control::Block { rest, env, value } => ControlModel::Block {
                rest: rest@,
                env: env@,
                value: value@,
            },
            Control::Return(v) => ControlModel::Return(v@),
            Control::Await(a) => ControlModel::Await(a@),
            Control::Failed(e) => ControlModel::Failed(e@),
        }
    }
}

impl View for Evaluation {
    type V = MachineModel;

    open spec fn view(&self) -> MachineModel {
        MachineModel {
            control: self.control@,
            stack: frames_model(self.stack@),
            scope: self.scope@,
        }
    }
}

/// The views of a list of requests.
pub open spec fn actions_model(v: Seq<Action>) -> Seq<ActionModel> {
    Seq::new(v.len(), |i: int| v[i]@)
}

/// The views of a list of answers.
pub open spec fn events_model(v: Seq<Event>) -> Seq<EventModel> {
    Seq::new(v.len(), |i: int| v[i]@)
}

impl Clone for Action {
    fn clone(&self) -> (r: Self)
        ensures
            r@ == self@,
    {
        match self {
            Action::CurrentDir => Action::CurrentDir,
            Action::Print(values) => {
                let mut out: Vec<Value> = Vec::new();
                let mut i: usize = 0;
                while i < values.len()
                    invariant
                        i <= values.len(),
                        out.len() == i,
                        forall|j: int| 0 <= j < i ==> out[j]@ == values[j]@,
                    decreases values.len() - i,
                {
                    out.push(values[i].clone());
                    i += 1;
                }
                assert(values_model(out@) =~= values_model(values@));
                Action::Print(out)
            },
            Action::HttpGet(url) => Action::HttpGet(url.clone()),
            Action::HttpPostJson(url, fields) => Action::HttpPostJson(url.clone(), fields.clone()),
            Action::WatchOpen(path) => Action::WatchOpen(path.clone()),
            Action::WatchNext => Action::WatchNext,
        }
    }
}

impl Clone for Event {
    fn clone(&self) -> (r: Self)
        ensures
            r@ == self@,
    {
        match self {
            Event::Done => Event::Done,
            Event::Text(s) => Event::Text(s.clone()),
            Event::Line(s) => Event::Line(s.clone()),
            Event::Closed => Event::Closed,
            Event::Failed(s) => Event::Failed(s.clone()),
        }
    }
}

} // verus!
