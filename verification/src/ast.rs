//! The syntax tree, and the mathematical model of each of its nodes.
//!
//! Every node has a view (`@`): strings become sequences of characters and
//! vectors become sequences of views. Contracts elsewhere in the crate speak
//! of these views only.

use vstd::prelude::*;

verus! {

/// The model of an [`Expr`].
#[allow(inconsistent_fields)]
pub enum ExprModel {
    AddSub { left: Box<ExprModel>, op: AddSubOp, right: Box<ExprModel> },
    MulDiv { left: Box<ExprModel>, op: MulDivOp, right: Box<ExprModel> },
    Primary(PrimaryModel),
    Call(CallModel),
    If { cond: Box<ExprModel>, true_exp: Box<ExprModel>, false_expr: Box<ExprModel> },
}

/// The model of a [`PrimaryExpr`].
pub enum PrimaryModel {
    Bool(bool),
    Block(Seq<ElementModel>),
    DecimalInt(u64),
    Identifier(Seq<char>),
    StringLiteral(Seq<char>),
    Regex(Seq<char>),
    Compound(Seq<(Seq<char>, ExprModel)>),
}

/// The model of a [`FunctionApplication`]: the dotted name as its segments,
/// outermost first, then the options and the positional arguments.
pub struct CallModel {
    pub fident: Seq<Seq<char>>,
    pub options: Seq<(Seq<char>, PrimaryModel)>,
    pub args: Seq<PrimaryModel>,
}

/// The model of a [`BlockElement`].
#[allow(inconsistent_fields)]
pub enum ElementModel {
    Expr(ExprModel),
    Var { name: Seq<char>, def: ExprModel },
    Using { name: Seq<char>, def: CallModel },
    Function { params: Seq<Seq<char>>, body: Seq<ElementModel> },
}

/// The views of a sequence of names.
pub open spec fn names_model(v: Seq<String>) -> Seq<Seq<char>> {
    Seq::new(v.len(), |i: int| v[i]@)
}

#[derive(Debug, PartialEq)]
pub enum PrimaryExpr {
    Bool(BoolLiteral),
    Block(Block),
    DecimalInt(u64),
    Identifier(String),
    StringLiteral(String),
    TaggedString(TaggedString),
    /// The fields of a compound literal, in the order in which they are
    /// evaluated.
    Compound(Vec<(String, Expr)>),
}

#[derive(Debug, PartialEq)]
pub enum TaggedString {
    Regex(String),
}

#[derive(Debug, Clone, Copy, PartialEq, Eq)]
pub enum BoolLiteral {
    True,
    False,
}

#[derive(Debug, PartialEq)]
pub struct BinOp<T> {
    pub left: Box<Expr>,
    pub op: T,
    pub right: Box<Expr>,
}

#[derive(Debug, PartialEq)]
pub struct AddSub {
    pub left: Box<Expr>,
    pub op: AddSubOp,
    pub right: Box<Expr>,
}

#[derive(Debug, Clone, Copy, PartialEq, Eq)]
pub enum AddSubOp {
    Add,
    Sub,
}

#[derive(Debug, Clone, Copy, PartialEq, Eq)]
pub enum MulDivOp {
    Mul,
    Div,
}

/// An arithmetic operator of either level of precedence.
#[derive(Debug, Clone, Copy, PartialEq, Eq)]
pub enum Operator {
    AddSub(AddSubOp),
    MulDiv(MulDivOp),
}

#[allow(inconsistent_fields)]
#[derive(Debug, PartialEq)]
pub enum BlockElement {
    Expr(Expr),
    Var { name: String, def: Expr },
    Using { name: String, def: FunctionApplication },
    AnonymousFunction(AnonymousFunction),
}

#[derive(Debug, PartialEq)]
pub struct Block(pub Vec<BlockElement>);

#[derive(Debug, PartialEq)]
pub struct AnonymousFunction {
    pub params: Vec<String>,
    pub body: Block,
}

/// A dotted name. `path` is the outermost segment, `child` the rest.
#[derive(Debug, PartialEq)]
pub struct Identifier {
    pub child: Option<Box<Identifier>>,
    pub path: String,
}

#[derive(Debug, PartialEq)]
pub struct FunctionApplication {
    pub fident: Identifier,
    pub options: Vec<(String, PrimaryExpr)>,
    pub args: Vec<PrimaryExpr>,
}

#[derive(Debug, PartialEq)]
pub struct If {
    pub cond: Box<Expr>,
    pub true_exp: Box<Expr>,
    pub false_expr: Box<Expr>,
}

#[derive(Debug, PartialEq)]
pub enum Expr {
    AddSub(BinOp<AddSubOp>),
    MulDiv(BinOp<MulDivOp>),
    Primary(PrimaryExpr),
    FunctionApplication(FunctionApplication),
    If(If),
}

impl Identifier {
    /// The segments of the name, outermost first.
    pub open spec fn model(&self) -> Seq<Seq<char>>
        decreases self,
    {
        match self.child {
            Some(c) => seq![self.path@] + c.model(),
            None => seq![self.path@],
        }
    }
}

impl Expr {
    pub open spec fn model(&self) -> ExprModel
        decreases self,
    {
        match self {
            Expr::AddSub(b) => ExprModel::AddSub {
                left: Box::new(b.left.model()),
                op: b.op,
                right: Box::new(b.right.model()),
            },
            Expr::MulDiv(b) => ExprModel::MulDiv {
                left: Box::new(b.left.model()),
                op: b.op,
                right: Box::new(b.right.model()),
            },
            Expr::Primary(p) => ExprModel::Primary(p.model()),
            Expr::FunctionApplication(f) => ExprModel::Call(f.model()),
            Expr::If(i) => ExprModel::If {
                cond: Box::new(i.cond.model()),
                true_exp: Box::new(i.true_exp.model()),
                false_expr: Box::new(i.false_expr.model()),
            },
        }
    }
}

impl PrimaryExpr {
    pub open spec fn model(&self) -> PrimaryModel
        decreases self,
    {
        match self {
            PrimaryExpr::Bool(b) => PrimaryModel::Bool(*b == BoolLiteral::True),
            PrimaryExpr::Block(b) => PrimaryModel::Block(b.model()),
            PrimaryExpr::DecimalInt(n) => PrimaryModel::DecimalInt(*n),
            PrimaryExpr::Identifier(s) => PrimaryModel::Identifier(s@),
            PrimaryExpr::StringLiteral(s) => PrimaryModel::StringLiteral(s@),
            PrimaryExpr::TaggedString(TaggedString::Regex(s)) => PrimaryModel::Regex(s@),
            PrimaryExpr::Compound(f) => PrimaryModel::Compound(
                Seq::new(
                    f.len() as nat,
                    |i: int|
                        if 0 <= i < f.len() {
                            (f[i].0@, f[i].1.model())
                        } else {
                            arbitrary()
                        },
                ),
            ),
        }
    }
}

impl FunctionApplication {
    pub open spec fn model(&self) -> CallModel
        decreases self,
    {
        CallModel {
            fident: self.fident.model(),
            options: Seq::new(
                self.options.len() as nat,
                |i: int|
                    if 0 <= i < self.options.len() {
                        (self.options[i].0@, self.options[i].1.model())
                    } else {
                        arbitrary()
                    },
            ),
            args: Seq::new(
                self.args.len() as nat,
                |i: int|
                    if 0 <= i < self.args.len() {
                        self.args[i].model()
                    } else {
                        arbitrary()
                    },
            ),
        }
    }
}

impl Block {
    pub open spec fn model(&self) -> Seq<ElementModel>
        decreases self,
    {
        Seq::new(
            self.0.len() as nat,
            |i: int|
                if 0 <= i < self.0.len() {
                    self.0[i].model()
                } else {
                    arbitrary()
                },
        )
    }
}

impl BlockElement {
    pub open spec fn model(&self) -> ElementModel
        decreases self,
    {
        match self {
            BlockElement::Expr(e) => ElementModel::Expr(e.model()),
            BlockElement::Var { name, def } => ElementModel::Var { name: name@, def: def.model() },
            BlockElement::Using { name, def } => ElementModel::Using {
                name: name@,
                def: def.model(),
            },
            BlockElement::AnonymousFunction(f) => ElementModel::Function {
                params: names_model(f.params@),
                body: f.body.model(),
            },
        }
    }
}

impl View for Identifier {
    type V = Seq<Seq<char>>;

    open spec fn view(&self) -> Seq<Seq<char>> {
        self.model()
    }
}

impl View for Expr {
    type V = ExprModel;

    open spec fn view(&self) -> ExprModel {
        self.model()
    }
}

impl View for PrimaryExpr {
    type V = PrimaryModel;

    open spec fn view(&self) -> PrimaryModel {
        self.model()
    }
}

impl View for FunctionApplication {
    type V = CallModel;

    open spec fn view(&self) -> CallModel {
        self.model()
    }
}

impl View for Block {
    type V = Seq<ElementModel>;

    open spec fn view(&self) -> Seq<ElementModel> {
        self.model()
    }
}

impl View for BlockElement {
    type V = ElementModel;

    open spec fn view(&self) -> ElementModel {
        self.model()
    }
}

/// A copy of a list of names.
pub fn clone_names(v: &Vec<String>) -> (r: Vec<String>)
    ensures
        r@ == v@,
{
    let mut out: Vec<String> = Vec::new();
    let mut i: usize = 0;
    while i < v.len()
        invariant
            i <= v.len(),
            out@ == v@.subrange(0, i as int),
        decreases v.len() - i,
    {
        out.push(v[i].clone());
        assert(out@ =~= v@.subrange(0, i + 1));
        i += 1;
    }
    assert(out@ =~= v@);
    out
}

impl Clone for Identifier {
    fn clone(&self) -> (r: Self)
        ensures
            r@ == self@,
        decreases self,
    {
        let child = match &self.child {
            Some(c) => Some(Box::new((**c).clone())),
            None => None,
        };
        Identifier { child, path: self.path.clone() }
    }
}

impl Clone for Expr {
    fn clone(&self) -> (r: Self)
        ensures
            r@ == self@,
        decreases self,
    {
        match self {
            Expr::AddSub(b) => Expr::AddSub(
                BinOp {
                    left: Box::new((*b.left).clone()),
                    op: b.op,
                    right: Box::new((*b.right).clone()),
                },
            ),
            Expr::MulDiv(b) => Expr::MulDiv(
                BinOp {
                    left: Box::new((*b.left).clone()),
                    op: b.op,
                    right: Box::new((*b.right).clone()),
                },
            ),
            Expr::Primary(p) => Expr::Primary(p.clone()),
            Expr::FunctionApplication(f) => Expr::FunctionApplication(f.clone()),
            Expr::If(i) => Expr::If(
                If {
                    cond: Box::new((*i.cond).clone()),
                    true_exp: Box::new((*i.true_exp).clone()),
                    false_expr: Box::new((*i.false_expr).clone()),
                },
            ),
        }
    }
}

impl Clone for PrimaryExpr {
    fn clone(&self) -> (r: Self)
        ensures
            r@ == self@,
        decreases self,
    {
        match self {
            PrimaryExpr::Bool(b) => PrimaryExpr::Bool(*b),
            PrimaryExpr::Block(b) => PrimaryExpr::Block(b.clone()),
            PrimaryExpr::DecimalInt(n) => PrimaryExpr::DecimalInt(*n),
            PrimaryExpr::Identifier(s) => PrimaryExpr::Identifier(s.clone()),
            PrimaryExpr::StringLiteral(s) => PrimaryExpr::StringLiteral(s.clone()),
            PrimaryExpr::TaggedString(TaggedString::Regex(s)) => PrimaryExpr::TaggedString(
                TaggedString::Regex(s.clone()),
            ),
            PrimaryExpr::Compound(f) => {
                let mut out: Vec<(String, Expr)> = Vec::new();
                let mut i: usize = 0;
                while i < f.len()
                    invariant
                        i <= f.len(),
                        out.len() == i,
                        forall|j: int| 0 <= j < f.len() ==> decreases_to!(self => #[trigger] f[j]),
                        forall|j: int|
                            0 <= j < i ==> out[j].0@ == f[j].0@ && out[j].1@ == f[j].1@,
                    decreases f.len() - i,
                {
                    let e = f[i].1.clone();
                    out.push((f[i].0.clone(), e));
                    i += 1;
                }
                let r = PrimaryExpr::Compound(out);
                assert(r@->Compound_0 =~= self@->Compound_0);
                r
            },
        }
    }
}

impl Clone for FunctionApplication {
    fn clone(&self) -> (r: Self)
        ensures
            r@ == self@,
        decreases self,
    {
        let fident = self.fident.clone();
        let mut options: Vec<(String, PrimaryExpr)> = Vec::new();
        let mut i: usize = 0;
        while i < self.options.len()
            invariant
                i <= self.options.len(),
                options.len() == i,
                forall|j: int|
                    0 <= j < self.options.len() ==> decreases_to!(
                        self => #[trigger] self.options[j]
                    ),
                forall|j: int|
                    0 <= j < i ==> options[j].0@ == self.options[j].0@ && options[j].1@
                        == self.options[j].1@,
            decreases self.options.len() - i,
        {
            let e = self.options[i].1.clone();
            options.push((self.options[i].0.clone(), e));
            i += 1;
        }
        let mut args: Vec<PrimaryExpr> = Vec::new();
        let mut k: usize = 0;
        while k < self.args.len()
            invariant
                k <= self.args.len(),
                args.len() == k,
                forall|j: int|
                    0 <= j < self.args.len() ==> decreases_to!(self => #[trigger] self.args[j]),
                forall|j: int| 0 <= j < k ==> args[j]@ == self.args[j]@,
            decreases self.args.len() - k,
        {
            args.push(self.args[k].clone());
            k += 1;
        }
        let r = FunctionApplication { fident, options, args };
        assert(r@.options =~= self@.options);
        assert(r@.args =~= self@.args);
        r
    }
}

impl Clone for Block {
    fn clone(&self) -> (r: Self)
        ensures
            r@ == self@,
        decreases self,
    {
        let mut out: Vec<BlockElement> = Vec::new();
        let mut i: usize = 0;
        while i < self.0.len()
            invariant
                i <= self.0.len(),
                out.len() == i,
                forall|j: int|
                    0 <= j < self.0.len() ==> decreases_to!(self => #[trigger] self.0[j]),
                forall|j: int| 0 <= j < i ==> out[j]@ == self.0[j]@,
            decreases self.0.len() - i,
        {
            out.push(self.0[i].clone());
            i += 1;
        }
        let r = Block(out);
        assert(r@ =~= self@);
        r
    }
}

impl Clone for BlockElement {
    fn clone(&self) -> (r: Self)
        ensures
            r@ == self@,
        decreases self,
    {
        match self {
            BlockElement::Expr(e) => BlockElement::Expr(e.clone()),
            BlockElement::Var { name, def } => BlockElement::Var {
                name: name.clone(),
                def: def.clone(),
            },
            BlockElement::Using { name, def } => BlockElement::Using {
                name: name.clone(),
                def: def.clone(),
            },
            BlockElement::AnonymousFunction(f) => BlockElement::AnonymousFunction(
                AnonymousFunction { params: clone_names(&f.params), body: f.body.clone() },
            ),
        }
    }
}

impl Clone for TaggedString {
    fn clone(&self) -> (r: Self)
        ensures
            r == *self,
    {
        match self {
            TaggedString::Regex(s) => TaggedString::Regex(s.clone()),
        }
    }
}

impl<T: Copy> Clone for BinOp<T> {
    fn clone(&self) -> (r: Self)
        ensures
            r.left@ == self.left@,
            r.op == self.op,
            r.right@ == self.right@,
    {
        BinOp {
            left: Box::new((*self.left).clone()),
            op: self.op,
            right: Box::new((*self.right).clone()),
        }
    }
}

impl Clone for AddSub {
    fn clone(&self) -> (r: Self)
        ensures
            r.left@ == self.left@,
            r.op == self.op,
            r.right@ == self.right@,
    {
        AddSub {
            left: Box::new((*self.left).clone()),
            op: self.op,
            right: Box::new((*self.right).clone()),
        }
    }
}

impl Clone for If {
    fn clone(&self) -> (r: Self)
        ensures
            r.cond@ == self.cond@,
            r.true_exp@ == self.true_exp@,
            r.false_expr@ == self.false_expr@,
    {
        If {
            cond: Box::new((*self.cond).clone()),
            true_exp: Box::new((*self.true_exp).clone()),
            false_expr: Box::new((*self.false_expr).clone()),
        }
    }
}

impl Clone for AnonymousFunction {
    fn clone(&self) -> (r: Self)
        ensures
            r.params@ == self.params@,
            r.body@ == self.body@,
    {
        AnonymousFunction { params: clone_names(&self.params), body: self.body.clone() }
    }
}

} // verus!
