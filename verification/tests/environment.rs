use haksh::ast::{AddSubOp, BinOp, Expr, MulDivOp, Operator, PrimaryExpr};
use haksh::interpreter::{
    BinaryOperator, Environment, EvalError, Kind, Properties, Value,
};

#[test]
fn new_environment_binds_nothing() {
    let env = Environment::new();
    assert_eq!(env.get("x"), None);
    assert_eq!(env.get(""), None);
}

#[test]
fn set_gives_a_new_environment_and_keeps_the_old() {
    let a = Environment::new();
    let b = a.set("x", Value::UInt64(1));
    let c = b.set("x", Value::UInt64(2));
    let d = c.set("y", Value::Bool(true));
    assert_eq!(a.get("x"), None);
    assert_eq!(b.get("x"), Some(&Value::UInt64(1)));
    assert_eq!(c.get("x"), Some(&Value::UInt64(2)));
    assert_eq!(d.get("x"), Some(&Value::UInt64(2)));
    assert_eq!(d.get("y"), Some(&Value::Bool(true)));
    assert_eq!(c.get("y"), None);
}

#[test]
fn rebinding_keeps_the_place_of_a_name() {
    let a = Environment::new().set("x", Value::UInt64(1)).set("y", Value::UInt64(2));
    let b = a.set("x", Value::UInt64(3));
    let direct = Environment::new().set("x", Value::UInt64(3)).set("y", Value::UInt64(2));
    assert_eq!(b, direct);
}

#[test]
fn properties_set_and_get() {
    let mut p = Properties::new();
    assert_eq!(p.get("a"), None);
    p.set("a", Value::UInt64(1));
    p.set("b", Value::String("s".to_string()));
    p.set("a", Value::Unit);
    assert_eq!(p.get("a"), Some(&Value::Unit));
    assert_eq!(p.get("b"), Some(&Value::String("s".to_string())));
    assert_eq!(p.get("c"), None);
    assert_eq!(format!("{:?}", p), "Properties([(\"a\", Unit), (\"b\", String(\"s\"))])");
}

#[test]
fn values_give_what_they_hold() {
    assert_eq!(Value::UInt64(3).try_get_u64(), Some(3));
    assert_eq!(Value::Bool(true).try_get_u64(), None);
    assert_eq!(Value::Bool(true).try_get_bool(), Some(true));
    assert_eq!(Value::Unit.try_get_bool(), None);
    assert_eq!(Value::String("s".to_string()).try_get_string(), Some("s".to_string()));
    assert_eq!(Value::UInt64(1).try_get_string(), None);
    let mut p = Properties::new();
    p.set("k", Value::Unit);
    assert_eq!(Value::Compound { properties: p.clone() }.try_get_compound(), Some(p));
    assert_eq!(Value::Unit.try_get_compound(), None);
}

#[test]
fn clone_is_equal() {
    let mut p = Properties::new();
    p.set("k", Value::String("v".to_string()));
    let env = Environment::new().set("c", Value::Compound { properties: p });
    let f = Value::Fn {
        env: env.clone(),
        body: haksh::parser::parse_file("let a = (x=1);f a \"s\" {if {a} then {1} else {2}}").unwrap(),
        params: vec!["p".to_string(), "q".to_string()],
        name: Some("f".to_string()),
    };
    assert_eq!(f.clone(), f);
    assert_eq!(env.set("f", f.clone()).clone(), env.set("f", f));
}

#[test]
fn add_and_sub() {
    assert_eq!(AddSubOp::Add.op(Value::UInt64(2), Value::UInt64(3)), Ok(Value::UInt64(5)));
    assert_eq!(AddSubOp::Sub.op(Value::UInt64(3), Value::UInt64(2)), Ok(Value::UInt64(1)));
    assert_eq!(AddSubOp::Sub.op(Value::UInt64(2), Value::UInt64(3)), Err(EvalError::Overflow));
    assert_eq!(AddSubOp::Add.op(Value::UInt64(u64::MAX), Value::UInt64(1)), Err(EvalError::Overflow));
    assert_eq!(
        AddSubOp::Add.op(Value::Unit, Value::Bool(true)),
        Err(EvalError::TypeMismatch { expected: Kind::UInt64, actual: Value::Unit })
    );
    assert_eq!(
        AddSubOp::Add.op(Value::UInt64(1), Value::Bool(true)),
        Err(EvalError::TypeMismatch { expected: Kind::UInt64, actual: Value::Bool(true) })
    );
}

#[test]
fn mul_and_div() {
    assert_eq!(MulDivOp::Mul.op(Value::UInt64(6), Value::UInt64(7)), Ok(Value::UInt64(42)));
    assert_eq!(MulDivOp::Div.op(Value::UInt64(7), Value::UInt64(2)), Ok(Value::UInt64(3)));
    assert_eq!(MulDivOp::Div.op(Value::UInt64(7), Value::UInt64(0)), Err(EvalError::DivisionByZero));
    assert_eq!(MulDivOp::Mul.op(Value::UInt64(u64::MAX), Value::UInt64(2)), Err(EvalError::Overflow));
    assert_eq!(
        MulDivOp::Div.op(Value::Unit, Value::UInt64(0)),
        Err(EvalError::TypeMismatch { expected: Kind::UInt64, actual: Value::Unit })
    );
    assert_eq!(Operator::MulDiv(MulDivOp::Div).op(Value::UInt64(9), Value::UInt64(3)), Ok(Value::UInt64(3)));
    assert_eq!(Operator::AddSub(AddSubOp::Sub).op(Value::UInt64(9), Value::UInt64(3)), Ok(Value::UInt64(6)));
}

#[test]
fn operator_builds_its_node() {
    let one = || Box::new(Expr::Primary(PrimaryExpr::DecimalInt(1)));
    let node = BinOp { left: one(), op: AddSubOp::Add, right: one() };
    assert_eq!(AddSubOp::into_expr(node.clone()), Expr::AddSub(node));
    let node = BinOp { left: one(), op: MulDivOp::Div, right: one() };
    assert_eq!(MulDivOp::into_expr(node.clone()), Expr::MulDiv(node));
    assert_eq!(AddSubOp::Sub.operator(), Operator::AddSub(AddSubOp::Sub));
    assert_eq!(MulDivOp::Mul.operator(), Operator::MulDiv(MulDivOp::Mul));
    assert_eq!(
        haksh::parser::binop(*one(), MulDivOp::Mul, *one()),
        Expr::MulDiv(BinOp { left: one(), op: MulDivOp::Mul, right: one() })
    );
}
