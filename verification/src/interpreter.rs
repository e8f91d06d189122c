//! Runtime values, environments and the arithmetic operators.

use crate::ast::{
    clone_names, names_model, AddSubOp, BinOp, Block, BoolLiteral, ElementModel, Expr, ExprModel,
    MulDivOp, Operator,
};
use vstd::prelude::*;

verus! {

/// The model of a list of bindings: names with their values, each name at
/// most once where the list was built by `bind` alone.
pub type Bindings = Seq<(Seq<char>, ValueModel)>;

/// The model of a [`Value`].
pub enum ValueModel {
    Compound(Bindings),
    Fn { env: Bindings, body: Seq<ElementModel>, params: Seq<Seq<char>>, name: Option<Seq<char>> },
    Unit,
    UInt64(u64),
    Bool(bool),
    String(Seq<char>),
}

/// The kinds of value that an operation can ask for.
#[derive(Debug, Clone, Copy, PartialEq, Eq)]
pub enum Kind {
    UInt64,
    Bool,
    String,
    Compound,
}

/// The model of an [`EvalError`].
#[allow(inconsistent_fields)]
pub enum ErrorModel {
    UnboundName(Seq<char>),
    TypeMismatch { expected: Kind, actual: ValueModel },
    DivisionByZero,
    Overflow,
    ArityMismatch { expected: nat, actual: nat },
    UnresolvedCall(Seq<char>),
    NotCallable(ValueModel),
    MissingArgument,
    InvalidPattern(Seq<char>),
    Unsupported,
    Host(Seq<char>),
    UnexpectedEvent,
}

/// The place of the first binding of `key` in `b`, or `b.len()` where there
/// is none.
pub open spec fn first_index<V>(b: Seq<(Seq<char>, V)>, key: Seq<char>) -> int
    decreases b.len(),
{
    if b.len() == 0 {
        0
    } else if b[0].0 == key {
        0
    } else {
        1 + first_index(b.drop_first(), key)
    }
}

/// The value that `b` binds `key` to.
pub open spec fn lookup<V>(b: Seq<(Seq<char>, V)>, key: Seq<char>) -> Option<V> {
    let i = first_index(b, key);
    if i < b.len() {
        Some(b[i].1)
    } else {
        None
    }
}

/// `b` with `key` bound to `value`: in place where `key` was bound, at the
/// end where it was not.
pub open spec fn bind<V>(b: Seq<(Seq<char>, V)>, key: Seq<char>, value: V) -> Seq<
    (Seq<char>, V),
> {
    let i = first_index(b, key);
    if i < b.len() {
        b.update(i, (key, value))
    } else {
        b.push((key, value))
    }
}

/// No name is bound twice.
pub open spec fn distinct_keys<V>(b: Seq<(Seq<char>, V)>) -> bool {
    forall|i: int, j: int| 0 <= i < j < b.len() ==> b[i].0 != b[j].0
}

/// `first_index` is the one place at which `key` stands with no binding of
/// `key` before it.
pub proof fn lemma_first_index<V>(b: Seq<(Seq<char>, V)>, key: Seq<char>, i: int)
    requires
        0 <= i <= b.len(),
        forall|j: int| 0 <= j < i ==> b[j].0 != key,
        i < b.len() ==> b[i].0 == key,
    ensures
        first_index(b, key) == i,
    decreases b.len(),
{
    if b.len() != 0 && b[0].0 != key {
        let rest = b.drop_first();
        assert forall|j: int| 0 <= j < i - 1 implies rest[j].0 != key by {
            assert(rest[j] == b[j + 1]);
        }
        lemma_first_index(rest, key, i - 1);
    }
}

/// `first_index` stays within the list, stands on a binding of `key` where
/// it is inside, and has none before it.
pub proof fn lemma_first_index_bounds<V>(b: Seq<(Seq<char>, V)>, key: Seq<char>)
    ensures
        0 <= first_index(b, key) <= b.len(),
        first_index(b, key) < b.len() ==> b[first_index(b, key)].0 == key,
        forall|j: int| 0 <= j < first_index(b, key) ==> b[j].0 != key,
    decreases b.len(),
{
    if b.len() != 0 && b[0].0 != key {
        let rest = b.drop_first();
        lemma_first_index_bounds(rest, key);
        assert forall|j: int| 0 <= j < first_index(b, key) implies b[j].0 != key by {
            if j > 0 {
                assert(rest[j - 1] == b[j]);
            }
        }
    }
}

/// What was bound last is what is found: a lookup after `bind` gives the new
/// value for the bound name, and what it gave before for every other name.
pub proof fn lemma_lookup_bind<V>(
    b: Seq<(Seq<char>, V)>,
    key: Seq<char>,
    value: V,
    other: Seq<char>,
)
    ensures
        lookup(bind(b, key, value), other) == if other == key {
            Some(value)
        } else {
            lookup(b, other)
        },
{
    let after = bind(b, key, value);
    let i = first_index(b, key);
    let o = first_index(b, other);
    lemma_first_index_bounds(b, key);
    lemma_first_index_bounds(b, other);
    if other == key {
        lemma_first_index(after, key, i);
    } else if o < b.len() {
        lemma_first_index(after, other, o);
    } else {
        lemma_first_index(after, other, after.len() as int);
    }
}

/// Binding a name keeps the names distinct.
pub proof fn lemma_bind_distinct<V>(b: Seq<(Seq<char>, V)>, key: Seq<char>, value: V)
    requires
        distinct_keys(b),
    ensures
        distinct_keys(bind(b, key, value)),
{
    lemma_first_index_bounds(b, key);
}

/// The fields of a compound value, in the order in which they were first
/// set. The names are distinct.
#[derive(Debug, PartialEq)]
pub struct Properties(Vec<(String, Value)>);

/// The bindings in scope. An environment is never changed: `set` gives a new
/// one.
#[derive(Debug, PartialEq)]
pub struct Environment(Vec<(String, Value)>);

#[derive(Debug, PartialEq)]
pub enum Value {
    Compound { properties: Properties },
    Fn { env: Environment, body: Block, params: Vec<String>, name: Option<String> },
    Unit,
    UInt64(u64),
    Bool(bool),
    String(String),
}

/// Why an evaluation stopped without a value.
#[allow(inconsistent_fields)]
#[derive(Debug, PartialEq)]
pub enum EvalError {
    /// A name was read that the environment does not bind.
    UnboundName(String),
    /// A value of one kind stood where another kind was needed.
    TypeMismatch { expected: Kind, actual: Value },
    /// The divisor was zero.
    DivisionByZero,
    /// A sum, difference or product left the range of unsigned 64 bits.
    Overflow,
    /// A closure was given fewer arguments than it has parameters.
    ArityMismatch { expected: usize, actual: usize },
    /// A called name is neither built in nor bound.
    UnresolvedCall(String),
    /// A value that is no closure was applied.
    NotCallable(Value),
    /// A built-in operation was called without an argument that it needs.
    MissingArgument,
    /// A string could not be read as a pattern.
    InvalidPattern(String),
    /// The construct has no meaning in this place.
    Unsupported,
    /// The host reported a failure.
    Host(String),
    /// The host answered a request with an event that does not fit it.
    UnexpectedEvent,
}

pub type EvalResult = Result<Value, EvalError>;

/// The views of a list of bindings.
pub open spec fn bindings_model(v: Seq<(String, Value)>) -> Bindings {
    Seq::new(v.len(), |i: int| (v[i].0@, v[i].1@))
}

/// No name stands twice in a list of bindings.
pub open spec fn distinct_names(v: Seq<(String, Value)>) -> bool {
    forall|i: int, j: int| 0 <= i < j < v.len() ==> v[i].0@ != v[j].0@
}

/// Names that stand once are keys that stand once.
proof fn lemma_distinct(v: Seq<(String, Value)>)
    requires
        distinct_names(v),
    ensures
        distinct_keys(bindings_model(v)),
{
    assert forall|i: int, j: int| 0 <= i < j < v.len() implies bindings_model(v)[i].0
        != bindings_model(v)[j].0 by {
        assert(bindings_model(v)[i].0 == v[i].0@);
        assert(bindings_model(v)[j].0 == v[j].0@);
    }
}

impl Properties {
    /// Every name is the name of one field.
    #[verifier::type_invariant]
    closed spec fn inv(&self) -> bool {
        distinct_names(self.0@)
    }

    pub closed spec fn model(&self) -> Bindings
        decreases self,
    {
        Seq::new(
            self.0.len() as nat,
            |i: int|
                if 0 <= i < self.0.len() {
                    (self.0[i].0@, self.0[i].1.model())
                } else {
                    arbitrary()
                },
        )
    }
}

impl Environment {
    /// Every name is bound once.
    #[verifier::type_invariant]
    closed spec fn inv(&self) -> bool {
        distinct_names(self.0@)
    }

    pub closed spec fn model(&self) -> Bindings
        decreases self,
    {
        Seq::new(
            self.0.len() as nat,
            |i: int|
                if 0 <= i < self.0.len() {
                    (self.0[i].0@, self.0[i].1.model())
                } else {
                    arbitrary()
                },
        )
    }
}

impl Value {
    pub open spec fn model(&self) -> ValueModel
        decreases self,
    {
        match self {
            Value::Compound { properties } => ValueModel::Compound(properties.model()),
            Value::Fn { env, body, params, name } => ValueModel::Fn {
                env: env.model(),
                body: body@,
                params: names_model(params@),
                name: match name {
                    Some(n) => Some(n@),
                    None => None,
                },
            },
            Value::Unit => ValueModel::Unit,
            Value::UInt64(n) => ValueModel::UInt64(*n),
            Value::Bool(b) => ValueModel::Bool(*b),
            Value::String(s) => ValueModel::String(s@),
        }
    }
}

impl View for Value {
    type V = ValueModel;

    open spec fn view(&self) -> ValueModel {
        self.model()
    }
}

impl View for Properties {
    type V = Bindings;

    open spec fn view(&self) -> Bindings {
        self.model()
    }
}

impl View for Environment {
    type V = Bindings;

    open spec fn view(&self) -> Bindings {
        self.model()
    }
}

impl EvalError {
    pub open spec fn model(&self) -> ErrorModel {
        match self {
            EvalError::UnboundName(n) => ErrorModel::UnboundName(n@),
            EvalError::TypeMismatch { expected, actual } => ErrorModel::TypeMismatch {
                expected: *expected,
                actual: actual@,
            },
            EvalError::DivisionByZero => ErrorModel::DivisionByZero,
            EvalError::Overflow => ErrorModel::Overflow,
            EvalError::ArityMismatch { expected, actual } => ErrorModel::ArityMismatch {
                expected: *expected as nat,
                actual: *actual as nat,
            },
            EvalError::UnresolvedCall(n) => ErrorModel::UnresolvedCall(n@),
            EvalError::NotCallable(v) => ErrorModel::NotCallable(v@),
            EvalError::MissingArgument => ErrorModel::MissingArgument,
            EvalError::InvalidPattern(p) => ErrorModel::InvalidPattern(p@),
            EvalError::Unsupported => ErrorModel::Unsupported,
            EvalError::Host(m) => ErrorModel::Host(m@),
            EvalError::UnexpectedEvent => ErrorModel::UnexpectedEvent,
        }
    }
}

impl View for EvalError {
    type V = ErrorModel;

    open spec fn view(&self) -> ErrorModel {
        self.model()
    }
}

/// The model of the outcome of an operation.
pub open spec fn result_model(r: EvalResult) -> Result<ValueModel, ErrorModel> {
    match r {
        Ok(v) => Ok(v@),
        Err(e) => Err(e@),
    }
}

/// The place of the first binding of `key` in `v`, or `v.len()`.
fn find(v: &Vec<(String, Value)>, key: &String) -> (i: usize)
    ensures
        i == first_index(bindings_model(v@), key@),
        i <= v.len(),
{
    let ghost b = bindings_model(v@);
    let mut i: usize = 0;
    while i < v.len()
        invariant
            i <= v.len(),
            b == bindings_model(v@),
            forall|j: int| 0 <= j < i ==> b[j].0 != key@,
        decreases v.len() - i,
    {
        if v[i].0 == *key {
            proof {
                lemma_first_index(b, key@, i as int);
            }
            return i;
        }
        i += 1;
    }
    proof {
        lemma_first_index(b, key@, i as int);
    }
    i
}

/// A copy of a list of bindings.
fn clone_bindings(v: &Vec<(String, Value)>) -> (r: Vec<(String, Value)>)
    ensures
        bindings_model(r@) == bindings_model(v@),
        distinct_names(v@) ==> distinct_names(r@),
    decreases v,
{
    let mut out: Vec<(String, Value)> = Vec::new();
    let mut i: usize = 0;
    while i < v.len()
        invariant
            i <= v.len(),
            out.len() == i,
            forall|j: int| 0 <= j < v.len() ==> decreases_to!(v => #[trigger] v[j]),
            forall|j: int| 0 <= j < i ==> out[j].0@ == v[j].0@ && out[j].1@ == v[j].1@,
        decreases v.len() - i,
    {
        let value = v[i].1.clone();
        out.push((v[i].0.clone(), value));
        i += 1;
    }
    assert(bindings_model(out@) =~= bindings_model(v@));
    out
}

/// A list of bindings with one more binding set: in place where the name
/// was bound, at the end where it was not.
fn set_binding(bindings: Vec<(String, Value)>, key: String, value: Value) -> (r: Vec<
    (String, Value),
>)
    requires
        distinct_names(bindings@),
    ensures
        bindings_model(r@) == bind(bindings_model(bindings@), key@, value@),
        distinct_names(r@),
{
    let mut fields = bindings;
    let ghost before = bindings_model(fields@);
    let i = find(&fields, &key);
    proof {
        lemma_first_index_bounds(before, key@);
    }
    if i < fields.len() {
        fields.set(i, (key, value));
    } else {
        fields.push((key, value));
    }
    assert(bindings_model(fields@) =~= bind(before, key@, value@));
    assert forall|a: int, b: int| 0 <= a < b < fields.len() implies fields[a].0@
        != fields[b].0@ by {
        if a < before.len() {
            assert(before[a].0 == bindings@[a].0@);
        }
        if b < before.len() {
            assert(before[b].0 == bindings@[b].0@);
        }
    }
    fields
}

impl Clone for Properties {
    fn clone(&self) -> (r: Self)
        ensures
            r@ == self@,
        decreases self,
    {
        proof {
            use_type_invariant(self);
        }
        let r = Properties(clone_bindings(&self.0));
        proof {
            self.lemma_model();
            r.lemma_model();
        }
        r
    }
}

impl Clone for Environment {
    fn clone(&self) -> (r: Self)
        ensures
            r@ == self@,
        decreases self,
    {
        proof {
            use_type_invariant(self);
        }
        let r = Environment(clone_bindings(&self.0));
        proof {
            self.lemma_model();
            r.lemma_model();
        }
        r
    }
}

impl Clone for Value {
    fn clone(&self) -> (r: Self)
        ensures
            r@ == self@,
        decreases self,
    {
        match self {
            Value::Compound { properties } => Value::Compound { properties: properties.clone() },
            Value::Fn { env, body, params, name } => Value::Fn {
                env: env.clone(),
                body: body.clone(),
                params: clone_names(params),
                name: match name {
                    Some(n) => Some(n.clone()),
                    None => None,
                },
            },
            Value::Unit => Value::Unit,
            Value::UInt64(n) => Value::UInt64(*n),
            Value::Bool(b) => Value::Bool(*b),
            Value::String(s) => Value::String(s.clone()),
        }
    }
}

impl Properties {
    proof fn lemma_model(&self)
        ensures
            self@ == bindings_model(self.0@),
    {
        assert(self.model() =~= bindings_model(self.0@));
    }

    /// A compound with no field.
    pub fn new() -> (r: Properties)
        ensures
            r@ == Seq::<(Seq<char>, ValueModel)>::empty(),
            distinct_keys(r@),
    {
        let r = Properties(Vec::new());
        proof {
            r.lemma_model();
            assert(r@ =~= Seq::<(Seq<char>, ValueModel)>::empty());
        }
        r
    }

    /// The fields with their values, in their order. No name comes twice.
    pub fn fields(&self) -> (r: Vec<(String, Value)>)
        ensures
            bindings_model(r@) == self@,
            distinct_keys(self@),
    {
        proof {
            use_type_invariant(self);
            self.lemma_model();
            lemma_distinct(self.0@);
        }
        clone_bindings(&self.0)
    }

    /// The value of the field `name`.
    pub fn get(&self, name: &str) -> (r: Option<&Value>)
        ensures
            match r {
                Some(v) => lookup(self@, name@) == Some(v@),
                None => lookup(self@, name@) is None,
            },
            distinct_keys(self@),
    {
        let key = name.to_owned();
        let i = find(&self.0, &key);
        proof {
            use_type_invariant(self);
            self.lemma_model();
            lemma_distinct(self.0@);
        }
        if i < self.0.len() {
            Some(&self.0[i].1)
        } else {
            None
        }
    }

    /// Sets the field `name`: a field of that name gets the new value where
    /// it stands, a new field goes to the end.
    pub fn set(&mut self, name: &str, value: Value)
        ensures
            final(self)@ == bind(old(self)@, name@, value@),
            distinct_keys(final(self)@),
    {
        proof {
            use_type_invariant(&*self);
            self.lemma_model();
        }
        let mut taken = Properties(Vec::new());
        core::mem::swap(self, &mut taken);
        let Properties(fields) = taken;
        let fields = set_binding(fields, name.to_owned(), value);
        proof {
            lemma_distinct(fields@);
        }
        *self = Properties(fields);
        proof {
            self.lemma_model();
        }
    }
}

impl Environment {
    proof fn lemma_model(&self)
        ensures
            self@ == bindings_model(self.0@),
    {
        assert(self.model() =~= bindings_model(self.0@));
    }

    /// The environment that binds nothing.
    pub fn new() -> (r: Environment)
        ensures
            r@ == Seq::<(Seq<char>, ValueModel)>::empty(),
            distinct_keys(r@),
    {
        let r = Environment(Vec::new());
        proof {
            r.lemma_model();
            assert(r@ =~= Seq::<(Seq<char>, ValueModel)>::empty());
        }
        r
    }

    /// The value that `name` is bound to.
    pub fn get(&self, name: &str) -> (r: Option<&Value>)
        ensures
            match r {
                Some(v) => lookup(self@, name@) == Some(v@),
                None => lookup(self@, name@) is None,
            },
            distinct_keys(self@),
    {
        let key = name.to_owned();
        let i = find(&self.0, &key);
        proof {
            use_type_invariant(self);
            self.lemma_model();
            lemma_distinct(self.0@);
        }
        if i < self.0.len() {
            Some(&self.0[i].1)
        } else {
            None
        }
    }

    /// A new environment: this one with `name` bound to `value`. This one
    /// stays as it is.
    pub fn set(&self, name: &str, value: Value) -> (r: Environment)
        ensures
            r@ == bind(self@, name@, value@),
            distinct_keys(r@),
    {
        proof {
            use_type_invariant(self);
            self.lemma_model();
        }
        let bindings = set_binding(clone_bindings(&self.0), name.to_owned(), value);
        proof {
            lemma_distinct(bindings@);
        }
        let r = Environment(bindings);
        proof {
            r.lemma_model();
        }
        r
    }
}

impl Value {
    /// The number, where this is one.
    pub fn try_get_u64(&self) -> (r: Option<u64>)
        ensures
            r == (match self@ {
                ValueModel::UInt64(n) => Some(n),
                _ => None,
            }),
    {
        match self {
            Value::UInt64(n) => Some(*n),
            _ => None,
        }
    }

    /// The truth value, where this is one.
    pub fn try_get_bool(&self) -> (r: Option<bool>)
        ensures
            r == (match self@ {
                ValueModel::Bool(b) => Some(b),
                _ => None,
            }),
    {
        match self {
            Value::Bool(b) => Some(*b),
            _ => None,
        }
    }

    /// The text, where this is a string.
    pub fn try_get_string(&self) -> (r: Option<String>)
        ensures
            match r {
                Some(s) => self@ == ValueModel::String(s@),
                None => !(self@ is String),
            },
    {
        match self {
            Value::String(s) => Some(s.clone()),
            _ => None,
        }
    }

    /// The fields, where this is a compound.
    pub fn try_get_compound(&self) -> (r: Option<Properties>)
        ensures
            match r {
                Some(p) => self@ == ValueModel::Compound(p@),
                None => !(self@ is Compound),
            },
    {
        match self {
            Value::Compound { properties } => Some(properties.clone()),
            _ => None,
        }
    }
}

impl BoolLiteral {
    /// The truth value that the literal stands for.
    pub fn evaluate(&self) -> (r: Value)
        ensures
            r@ == ValueModel::Bool(*self == BoolLiteral::True),
    {
        match self {
            BoolLiteral::True => Value::Bool(true),
            BoolLiteral::False => Value::Bool(false),
        }
    }
}

/// What `+` and `-` give: the operands are numbers, the left one looked at
/// first, and the result fits in unsigned 64 bits.
pub open spec fn add_sub_model(op: AddSubOp, lhs: ValueModel, rhs: ValueModel) -> Result<
    ValueModel,
    ErrorModel,
> {
    match (lhs, rhs) {
        (ValueModel::UInt64(a), ValueModel::UInt64(b)) => match op {
            AddSubOp::Add => if a + b <= u64::MAX {
                Ok(ValueModel::UInt64((a + b) as u64))
            } else {
                Err(ErrorModel::Overflow)
            },
            AddSubOp::Sub => if a >= b {
                Ok(ValueModel::UInt64((a - b) as u64))
            } else {
                Err(ErrorModel::Overflow)
            },
        },
        (ValueModel::UInt64(_), _) => Err(
            ErrorModel::TypeMismatch { expected: Kind::UInt64, actual: rhs },
        ),
        _ => Err(ErrorModel::TypeMismatch { expected: Kind::UInt64, actual: lhs }),
    }
}

/// What `*` and `/` give: as for `+`, and a division by zero is an error.
pub open spec fn mul_div_model(op: MulDivOp, lhs: ValueModel, rhs: ValueModel) -> Result<
    ValueModel,
    ErrorModel,
> {
    match (lhs, rhs) {
        (ValueModel::UInt64(a), ValueModel::UInt64(b)) => match op {
            MulDivOp::Mul => if a * b <= u64::MAX {
                Ok(ValueModel::UInt64((a * b) as u64))
            } else {
                Err(ErrorModel::Overflow)
            },
            MulDivOp::Div => if b == 0 {
                Err(ErrorModel::DivisionByZero)
            } else {
                Ok(ValueModel::UInt64(a / b))
            },
        },
        (ValueModel::UInt64(_), _) => Err(
            ErrorModel::TypeMismatch { expected: Kind::UInt64, actual: rhs },
        ),
        _ => Err(ErrorModel::TypeMismatch { expected: Kind::UInt64, actual: lhs }),
    }
}

/// An operator of one level of precedence.
pub trait BinaryOperator: Sized {
    /// What the operator gives on two values.
    spec fn apply(&self, lhs: ValueModel, rhs: ValueModel) -> Result<ValueModel, ErrorModel>;

    /// The model of the node that `into_expr` builds.
    spec fn node(left: ExprModel, op: Self, right: ExprModel) -> ExprModel;

    /// The operator among those of both levels.
    spec fn operator_model(&self) -> Operator;

    /// The operator among those of both levels.
    fn operator(&self) -> (r: Operator)
        ensures
            r == self.operator_model(),
    ;

    /// Applies the operator.
    fn op(&self, lhs: Value, rhs: Value) -> (r: EvalResult)
        ensures
            result_model(r) == self.apply(lhs@, rhs@),
    ;

    /// The expression that has `node` at its root.
    fn into_expr(node: BinOp<Self>) -> (e: Expr)
        ensures
            e@ == Self::node(node.left@, node.op, node.right@),
    ;
}

impl BinaryOperator for AddSubOp {
    open spec fn apply(&self, lhs: ValueModel, rhs: ValueModel) -> Result<ValueModel, ErrorModel> {
        add_sub_model(*self, lhs, rhs)
    }

    open spec fn node(left: ExprModel, op: Self, right: ExprModel) -> ExprModel {
        ExprModel::AddSub { left: Box::new(left), op, right: Box::new(right) }
    }

    fn op(&self, lhs: Value, rhs: Value) -> (r: EvalResult) {
        let left = match lhs.try_get_u64() {
            Some(n) => n,
            None => {
                return Err(EvalError::TypeMismatch { expected: Kind::UInt64, actual: lhs });
            },
        };
        let right = match rhs.try_get_u64() {
            Some(n) => n,
            None => {
                return Err(EvalError::TypeMismatch { expected: Kind::UInt64, actual: rhs });
            },
        };
        let result = match self {
            AddSubOp::Add => left.checked_add(right),
            AddSubOp::Sub => left.checked_sub(right),
        };
        match result {
            Some(n) => Ok(Value::UInt64(n)),
            None => Err(EvalError::Overflow),
        }
    }

    fn into_expr(node: BinOp<Self>) -> (e: Expr) {
        Expr::AddSub(node)
    }

    open spec fn operator_model(&self) -> Operator {
        Operator::AddSub(*self)
    }

    fn operator(&self) -> (r: Operator) {
        Operator::AddSub(*self)
    }
}

impl BinaryOperator for MulDivOp {
    open spec fn apply(&self, lhs: ValueModel, rhs: ValueModel) -> Result<ValueModel, ErrorModel> {
        mul_div_model(*self, lhs, rhs)
    }

    open spec fn node(left: ExprModel, op: Self, right: ExprModel) -> ExprModel {
        ExprModel::MulDiv { left: Box::new(left), op, right: Box::new(right) }
    }

    fn op(&self, lhs: Value, rhs: Value) -> (r: EvalResult) {
        let left = match lhs.try_get_u64() {
            Some(n) => n,
            None => {
                return Err(EvalError::TypeMismatch { expected: Kind::UInt64, actual: lhs });
            },
        };
        let right = match rhs.try_get_u64() {
            Some(n) => n,
            None => {
                return Err(EvalError::TypeMismatch { expected: Kind::UInt64, actual: rhs });
            },
        };
        match self {
            MulDivOp::Mul => match left.checked_mul(right) {
                Some(n) => Ok(Value::UInt64(n)),
                None => Err(EvalError::Overflow),
            },
            MulDivOp::Div => match left.checked_div(right) {
                Some(n) => Ok(Value::UInt64(n)),
                None => Err(EvalError::DivisionByZero),
            },
        }
    }

    fn into_expr(node: BinOp<Self>) -> (e: Expr) {
        Expr::MulDiv(node)
    }

    open spec fn operator_model(&self) -> Operator {
        Operator::MulDiv(*self)
    }

    fn operator(&self) -> (r: Operator) {
        Operator::MulDiv(*self)
    }
}

} // verus!
