use haksh::ast::{
    AnonymousFunction, Block, BlockElement, BoolLiteral, Expr, FunctionApplication, Identifier,
    PrimaryExpr, TaggedString,
};
use haksh::evaluator::Status;
use haksh::interpreter::{Environment, EvalError, Kind, Properties, Value};
use haksh::machine::{Action, Control, Evaluation, Event};
use haksh::parser::{parse_file, parse_line};

fn finish(ev: Evaluation) -> Result<Value, EvalError> {
    let ev = ev.run(100_000);
    match ev.control {
        Control::Return(v) => {
            assert!(ev.stack.is_empty());
            Ok(v)
        }
        Control::Failed(e) => Err(e),
        other => panic!("the evaluation stopped at {:?}", other),
    }
}

fn line(text: &str, env: &Environment) -> Result<Value, EvalError> {
    finish(parse_line(text).unwrap().evaluate_for_repl(env)?)
}

fn file(text: &str, env: &Environment) -> Result<Value, EvalError> {
    finish(parse_file(text).unwrap().evaluate(env))
}

fn ident(path: &str) -> Identifier {
    Identifier { child: None, path: path.to_string() }
}

fn apply(path: &str, args: Vec<PrimaryExpr>) -> FunctionApplication {
    FunctionApplication { fident: ident(path), options: Vec::new(), args }
}

fn closure(env: &Environment, params: Vec<&str>, body: &str, name: Option<&str>) -> Value {
    Value::Fn {
        env: env.clone(),
        body: parse_file(body).unwrap(),
        params: params.iter().map(|p| p.to_string()).collect(),
        name: name.map(|n| n.to_string()),
    }
}

#[test]
fn precedence() {
    let env = Environment::new();
    assert_eq!(line("2 + 3 * 4", &env), Ok(Value::UInt64(14)));
    assert_eq!(line("{2 + 3} * 4", &env), Ok(Value::UInt64(20)));
}

#[test]
fn left_associativity() {
    let env = Environment::new();
    assert_eq!(line("10 - 3 - 2", &env), Ok(Value::UInt64(5)));
    assert_eq!(line("100 / 10 / 5", &env), Ok(Value::UInt64(2)));
}

#[test]
fn division_by_zero() {
    let env = Environment::new();
    assert_eq!(line("4 / 0", &env), Err(EvalError::DivisionByZero));
    assert_eq!(line("0 / 4", &env), Ok(Value::UInt64(0)));
}

#[test]
fn arithmetic_leaves_no_range() {
    let env = Environment::new();
    assert_eq!(line("1 - 2", &env), Err(EvalError::Overflow));
    assert_eq!(line("18446744073709551615 + 1", &env), Err(EvalError::Overflow));
    assert_eq!(line("4294967296 * 4294967296", &env), Err(EvalError::Overflow));
    assert_eq!(
        line("18446744073709551615 - 18446744073709551615", &env),
        Ok(Value::UInt64(0))
    );
}

#[test]
fn operands_are_numbers_and_the_left_one_is_looked_at_first() {
    let env = Environment::new();
    assert_eq!(
        line("\"a\" + {}", &env),
        Err(EvalError::TypeMismatch { expected: Kind::UInt64, actual: Value::String("a".to_string()) })
    );
    assert_eq!(
        line("1 * {}", &env),
        Err(EvalError::TypeMismatch { expected: Kind::UInt64, actual: Value::Unit })
    );
}

#[test]
fn left_operand_is_evaluated_first() {
    let env = Environment::new();
    assert_eq!(
        line("{a} + {b}", &env),
        Err(EvalError::UnresolvedCall("a".to_string()))
    );
}

#[test]
fn scoping() {
    let env = Environment::new();
    assert_eq!(file("let x = 1;{let x = 2;x};x", &env), Ok(Value::UInt64(1)));
    assert_eq!(file("let x = 1;{let x = 2;x}", &env), Ok(Value::UInt64(2)));
    assert_eq!(
        file("{let y = 2;y};y", &env),
        Err(EvalError::UnresolvedCall("y".to_string()))
    );
}

#[test]
fn binding_is_seen_by_what_follows_only() {
    let env = Environment::new();
    assert_eq!(file("let x = 1;let y = x;y", &env), Ok(Value::UInt64(1)));
    assert_eq!(file("let y = x;let x = 1;y", &env), Err(EvalError::UnresolvedCall("x".to_string())));
    assert_eq!(file("let x = 1", &env), Ok(Value::Unit));
    assert_eq!(file("", &env), Ok(Value::Unit));
}

#[test]
fn closure_keeps_the_environment_of_its_creation() {
    let env = Environment::new().set("x", Value::UInt64(1));
    let block = Block(vec![
        BlockElement::AnonymousFunction(AnonymousFunction {
            params: vec!["u".to_string()],
            body: Block(vec![BlockElement::Expr(Expr::Primary(PrimaryExpr::Identifier(
                "x".to_string(),
            )))]),
        }),
    ]);
    let f = finish(block.evaluate(&env)).unwrap();
    let later = env.set("x", Value::UInt64(2));
    assert_eq!(later.get("x"), Some(&Value::UInt64(2)));
    assert_eq!(env.get("x"), Some(&Value::UInt64(1)));
    let (body, scope) = f.try_evaluate_as_fn(vec![Value::Unit]).unwrap();
    assert_eq!(scope.get("x"), Some(&Value::UInt64(1)));
    assert_eq!(finish(body.evaluate(&scope)), Ok(Value::UInt64(1)));
}

#[test]
fn closure_finds_itself_under_its_name() {
    let env = Environment::new();
    let down = closure(
        &env,
        vec!["n"],
        "using u = twice down;n",
        Some("down"),
    );
    let (_, scope) = down.try_evaluate_as_fn(vec![Value::UInt64(3)]).unwrap();
    assert_eq!(scope.get("down"), Some(&down));
    assert_eq!(scope.get("n"), Some(&Value::UInt64(3)));
}

#[test]
fn recursion_by_name_ends() {
    let env = Environment::new();
    let countdown = Value::Fn {
        env: env.clone(),
        body: Block(vec![BlockElement::Expr(Expr::If(haksh::ast::If {
            cond: Box::new(Expr::Primary(PrimaryExpr::Identifier("more".to_string()))),
            true_exp: Box::new(Expr::Primary(PrimaryExpr::Block(Block(vec![
                BlockElement::Var {
                    name: "more".to_string(),
                    def: Expr::Primary(PrimaryExpr::Bool(BoolLiteral::False)),
                },
                BlockElement::Expr(Expr::FunctionApplication(apply(
                    "twice",
                    vec![PrimaryExpr::Identifier("countdown".to_string())],
                ))),
            ])))),
            false_expr: Box::new(Expr::Primary(PrimaryExpr::Block(Block(vec![
                BlockElement::Expr(Expr::Primary(PrimaryExpr::DecimalInt(0))),
            ])))),
        }))]),
        params: vec!["more".to_string()],
        name: Some("countdown".to_string()),
    };
    let (body, scope) = countdown.try_evaluate_as_fn(vec![Value::Bool(false)]).unwrap();
    assert_eq!(finish(body.evaluate(&scope)), Ok(Value::UInt64(0)));
    let (body, scope) = countdown.try_evaluate_as_fn(vec![Value::Bool(true)]).unwrap();
    assert_eq!(
        finish(body.evaluate(&scope)),
        Err(EvalError::TypeMismatch { expected: Kind::Bool, actual: Value::Unit })
    );
}

#[test]
fn arity_check() {
    let env = Environment::new();
    let f = closure(&env, vec!["a"], "a", None);
    assert_eq!(
        f.try_evaluate_as_fn(Vec::new()),
        Err(EvalError::ArityMismatch { expected: 1, actual: 0 })
    );
    let (body, scope) = f.try_evaluate_as_fn(vec![Value::UInt64(7), Value::UInt64(8)]).unwrap();
    assert_eq!(finish(body.evaluate(&scope)), Ok(Value::UInt64(7)));
}

#[test]
fn only_a_closure_is_called() {
    assert_eq!(
        Value::UInt64(1).try_evaluate_as_fn(vec![Value::Unit]),
        Err(EvalError::NotCallable(Value::UInt64(1)))
    );
    let env = Environment::new().set("n", Value::UInt64(1));
    assert_eq!(line("twice n", &env), Err(EvalError::NotCallable(Value::UInt64(1))));
}

#[test]
fn compound_literal() {
    let env = Environment::new();
    let literal = Expr::Primary(PrimaryExpr::Compound(vec![
        ("a".to_string(), Expr::Primary(PrimaryExpr::DecimalInt(1))),
        ("b".to_string(), Expr::Primary(PrimaryExpr::Bool(BoolLiteral::True))),
    ]));
    let mut expected = Properties::new();
    expected.set("a", Value::UInt64(1));
    expected.set("b", Value::Bool(true));
    assert_eq!(finish(literal.evaluate(&env)), Ok(Value::Compound { properties: expected }));
    assert_eq!(
        line("(b=2,a=1 + 1)", &env).map(|v| format!("{:?}", v)),
        Ok("Compound { properties: Properties([(\"b\", UInt64(2)), (\"a\", UInt64(2))]) }".to_string())
    );
}

#[test]
fn compound_literal_fails_with_its_first_failing_field() {
    let env = Environment::new();
    assert_eq!(line("(a=1,b=4 / 0,c=nothing)", &env), Err(EvalError::DivisionByZero));
    assert_eq!(line("()", &env).map(|v| matches!(v, Value::Compound { .. })), Ok(true));
}

#[test]
fn compound_fields_do_not_see_each_other() {
    let env = Environment::new();
    assert_eq!(line("(a=1,b=a)", &env), Err(EvalError::UnresolvedCall("a".to_string())));
}

#[test]
fn literals_are_their_values() {
    let env = Environment::new();
    assert_eq!(line("\"text\"", &env), Ok(Value::String("text".to_string())));
    assert_eq!(line("12", &env), Ok(Value::UInt64(12)));
    let t = Expr::Primary(PrimaryExpr::Bool(BoolLiteral::True));
    assert_eq!(finish(t.evaluate(&env)), Ok(Value::Bool(true)));
    assert_eq!(BoolLiteral::False.evaluate(), Value::Bool(false));
    let r = Expr::Primary(PrimaryExpr::TaggedString(TaggedString::Regex("a".to_string())));
    assert_eq!(finish(r.evaluate(&env)), Err(EvalError::Unsupported));
}

#[test]
fn name_is_looked_up() {
    let env = Environment::new().set("x", Value::UInt64(3));
    let x = Expr::Primary(PrimaryExpr::Identifier("x".to_string()));
    let y = Expr::Primary(PrimaryExpr::Identifier("y".to_string()));
    assert_eq!(finish(x.evaluate(&env)), Ok(Value::UInt64(3)));
    assert_eq!(finish(y.evaluate(&env)), Err(EvalError::UnboundName("y".to_string())));
    assert_eq!(line("x", &env), Ok(Value::UInt64(3)));
    assert_eq!(line("x.anything 1 2", &env), Ok(Value::UInt64(3)));
    assert_eq!(line("y", &env), Err(EvalError::UnresolvedCall("y".to_string())));
}

#[test]
fn conditional_takes_one_branch() {
    let env = Environment::new()
        .set("yes", Value::Bool(true))
        .set("no", Value::Bool(false))
        .set("n", Value::UInt64(1));
    assert_eq!(line("if {yes} then {1} else {4 / 0}", &env), Ok(Value::UInt64(1)));
    assert_eq!(line("if {no} then {4 / 0} else {2}", &env), Ok(Value::UInt64(2)));
    assert_eq!(
        line("if {n} then {1} else {2}", &env),
        Err(EvalError::TypeMismatch { expected: Kind::Bool, actual: Value::UInt64(1) })
    );
}

#[test]
fn includes_matches_a_pattern() {
    let env = Environment::new().set("s", Value::String("hello world".to_string()));
    assert_eq!(line("s.includes \"o w\"", &env), Ok(Value::Bool(true)));
    assert_eq!(line("s.includes \"^world\"", &env), Ok(Value::Bool(false)));
    assert_eq!(line("s.includes \"l+o$|^h\"", &env), Ok(Value::Bool(true)));
    assert_eq!(line("s.includes \"(\"", &env), Err(EvalError::InvalidPattern("(".to_string())));
    assert_eq!(
        line("s.includes 1", &env),
        Err(EvalError::TypeMismatch { expected: Kind::String, actual: Value::UInt64(1) })
    );
    assert_eq!(line("s.includes", &env), Err(EvalError::MissingArgument));
    assert_eq!(line("s.other \"x\"", &env), Ok(Value::String("hello world".to_string())));
}

#[test]
fn match_outcome_is_the_answer_or_the_refusal() {
    assert_eq!(
        haksh::evaluator::match_outcome("a".to_string(), Some(true)),
        Control::Return(Value::Bool(true))
    );
    assert_eq!(
        haksh::evaluator::match_outcome("a".to_string(), Some(false)),
        Control::Return(Value::Bool(false))
    );
    assert_eq!(
        haksh::evaluator::match_outcome("(".to_string(), None),
        Control::Failed(EvalError::InvalidPattern("(".to_string()))
    );
}

#[test]
fn repl_line_leaves_the_environment_for_the_next() {
    let env = Environment::new();
    let ev = parse_line("let x = 2 * 3").unwrap().evaluate_for_repl(&env).unwrap().run(1000);
    assert_eq!(ev.status(), Status::Finished);
    assert_eq!(ev.control, Control::Return(Value::Unit));
    assert_eq!(ev.scope.get("x"), Some(&Value::UInt64(6)));
    assert_eq!(env.get("x"), None);
    let next = parse_line("x").unwrap().evaluate_for_repl(&ev.scope).unwrap().run(1000);
    assert_eq!(next.control, Control::Return(Value::UInt64(6)));
    assert_eq!(next.scope, ev.scope);
}

#[test]
fn ended_gives_scope_and_value_or_failure() {
    let env = Environment::new();
    let start = parse_line("let x = 1 + 1").unwrap().evaluate_for_repl(&env).unwrap();
    assert_eq!(start.ended(), None);
    let done = parse_line("let x = 1 + 1").unwrap().evaluate_for_repl(&env).unwrap().run(100);
    assert_eq!(done.ended(), Some(Ok((env.set("x", Value::UInt64(2)), Value::Unit))));
    let failed = parse_line("1 / 0").unwrap().evaluate_for_repl(&env).unwrap().run(100);
    assert_eq!(failed.ended(), Some(Err(EvalError::DivisionByZero)));
    let waiting = parse_line("fs.cwd").unwrap().evaluate_for_repl(&env).unwrap().run(100);
    assert_eq!(waiting.ended(), None);
}

#[test]
fn repl_refuses_using() {
    let env = Environment::new();
    let r = parse_line("using x = f").unwrap().evaluate_for_repl(&env);
    assert_eq!(r, Err(EvalError::Unsupported));
}

#[test]
fn repl_function_is_its_own_value() {
    let env = Environment::new().set("k", Value::UInt64(1));
    let f = BlockElement::AnonymousFunction(AnonymousFunction {
        params: vec!["a".to_string()],
        body: Block(Vec::new()),
    });
    let ev = f.evaluate_for_repl(&env).unwrap();
    assert_eq!(ev.status(), Status::Finished);
    assert_eq!(
        ev.control,
        Control::Return(Value::Fn {
            env: env.clone(),
            body: Block(Vec::new()),
            params: vec!["a".to_string()],
            name: None,
        })
    );
}

#[test]
fn function_in_a_block_is_the_value_where_it_is_last() {
    let env = Environment::new();
    let f = AnonymousFunction { params: Vec::new(), body: Block(Vec::new()) };
    let last = Block(vec![
        BlockElement::Expr(Expr::Primary(PrimaryExpr::DecimalInt(1))),
        BlockElement::AnonymousFunction(f.clone()),
    ]);
    assert!(matches!(finish(last.evaluate(&env)), Ok(Value::Fn { .. })));
    let first = Block(vec![
        BlockElement::AnonymousFunction(f),
        BlockElement::Expr(Expr::Primary(PrimaryExpr::DecimalInt(1))),
    ]);
    assert_eq!(finish(first.evaluate(&env)), Ok(Value::UInt64(1)));
}

#[test]
fn budget_bounds_the_transitions() {
    let env = Environment::new();
    let start = parse_line("1 + 2").unwrap().evaluate_for_repl(&env).unwrap();
    assert_eq!(start.status(), Status::Running);
    let same = start.run(0);
    assert_eq!(same.status(), Status::Running);
    let one = same.step();
    assert_eq!(one.stack.len(), 1);
    let done = one.run(3);
    assert_eq!(done.status(), Status::Running);
    let done = done.run(1);
    assert_eq!(done.control, Control::Return(Value::UInt64(3)));
    assert_eq!(done.status(), Status::Finished);
    let still = done.step();
    assert_eq!(still.control, Control::Return(Value::UInt64(3)));
}

#[test]
fn failure_is_final() {
    let env = Environment::new();
    let failed = parse_file("{4 / 0} + 1;2").unwrap().evaluate(&env).run(1000);
    assert_eq!(failed.status(), Status::Failed);
    assert_eq!(failed.control, Control::Failed(EvalError::DivisionByZero));
    let again = failed.step().run(10).resume(Event::Done);
    assert_eq!(again.control, Control::Failed(EvalError::DivisionByZero));
}

#[test]
fn self_calling_closure_runs_out_of_budget_not_of_stack() {
    let env = Environment::new();
    let forever = closure(&env, vec!["u"], "twice forever", Some("forever"));
    let (body, scope) = forever.try_evaluate_as_fn(vec![Value::Unit]).unwrap();
    let ev = body.evaluate(&scope).run(5_000);
    assert_eq!(ev.status(), Status::Running);
}

fn waiting_for(ev: &Evaluation) -> &Action {
    match &ev.control {
        Control::Await(a) => a,
        other => panic!("the evaluation does not wait: {:?}", other),
    }
}

#[test]
fn println_hands_its_values_to_the_host() {
    let env = Environment::new().set("x", Value::UInt64(5));
    let ev = parse_file("println x \"a\" {1 + 1};7").unwrap().evaluate(&env).run(1000);
    assert_eq!(ev.status(), Status::Waiting);
    assert_eq!(
        waiting_for(&ev),
        &Action::Print(vec![Value::UInt64(5), Value::String("a".to_string()), Value::UInt64(2)])
    );
    let ev = ev.run(10);
    assert_eq!(ev.status(), Status::Waiting);
    let ev = ev.resume(Event::Done).run(1000);
    assert_eq!(ev.control, Control::Return(Value::UInt64(7)));
}

#[test]
fn println_without_arguments_prints_an_empty_line() {
    let env = Environment::new();
    let ev = parse_line("println").unwrap().evaluate_for_repl(&env).unwrap().run(1000);
    assert_eq!(waiting_for(&ev), &Action::Print(Vec::new()));
    assert_eq!(ev.resume(Event::Done).run(10).control, Control::Return(Value::Unit));
}

#[test]
fn cwd_is_what_the_host_says() {
    let env = Environment::new();
    let ev = parse_line("fs.cwd").unwrap().evaluate_for_repl(&env).unwrap().run(1000);
    assert_eq!(waiting_for(&ev), &Action::CurrentDir);
    let ev = ev.resume(Event::Text("/home".to_string())).run(10);
    assert_eq!(ev.control, Control::Return(Value::String("/home".to_string())));
}

#[test]
fn host_failure_ends_the_evaluation() {
    let env = Environment::new();
    let ev = parse_file("fs.cwd;1").unwrap().evaluate(&env).run(1000);
    let ev = ev.resume(Event::Failed("gone".to_string())).run(10);
    assert_eq!(ev.control, Control::Failed(EvalError::Host("gone".to_string())));
}

#[test]
fn answer_that_does_not_fit_is_refused() {
    let env = Environment::new();
    let ev = parse_line("fs.cwd").unwrap().evaluate_for_repl(&env).unwrap().run(1000);
    assert_eq!(ev.resume(Event::Done).control, Control::Failed(EvalError::UnexpectedEvent));
    let ev = parse_line("println").unwrap().evaluate_for_repl(&env).unwrap().run(1000);
    assert_eq!(
        ev.resume(Event::Text("x".to_string())).control,
        Control::Failed(EvalError::UnexpectedEvent)
    );
    let ev = parse_line("println").unwrap().evaluate_for_repl(&env).unwrap().run(1000);
    assert_eq!(ev.resume(Event::Closed).control, Control::Failed(EvalError::UnexpectedEvent));
    let ev = parse_line("println").unwrap().evaluate_for_repl(&env).unwrap().run(1000);
    assert_eq!(
        ev.resume(Event::Line("x".to_string())).control,
        Control::Failed(EvalError::UnexpectedEvent)
    );
}

#[test]
fn event_for_an_evaluation_that_does_not_wait_is_ignored() {
    let env = Environment::new();
    let ev = parse_line("1").unwrap().evaluate_for_repl(&env).unwrap();
    let ev = ev.resume(Event::Text("x".to_string()));
    assert_eq!(ev.status(), Status::Running);
    assert_eq!(ev.run(10).control, Control::Return(Value::UInt64(1)));
}

#[test]
fn http_get_asks_for_the_address() {
    let env = Environment::new();
    let ev = parse_line("http.get \"http://a/\"").unwrap().evaluate_for_repl(&env).unwrap();
    let ev = ev.run(1000);
    assert_eq!(waiting_for(&ev), &Action::HttpGet("http://a/".to_string()));
    let ev = ev.resume(Event::Text("body".to_string())).run(10);
    assert_eq!(ev.control, Control::Return(Value::String("body".to_string())));
    assert_eq!(line("http.get", &env), Err(EvalError::MissingArgument));
    assert_eq!(
        line("http.get 1", &env),
        Err(EvalError::TypeMismatch { expected: Kind::String, actual: Value::UInt64(1) })
    );
}

#[test]
fn http_post_json_asks_with_address_and_fields() {
    let env = Environment::new();
    let ev = parse_line("http.post.json \"http://a/\" (k=1)")
        .unwrap()
        .evaluate_for_repl(&env)
        .unwrap()
        .run(1000);
    let mut fields = Properties::new();
    fields.set("k", Value::UInt64(1));
    assert_eq!(waiting_for(&ev), &Action::HttpPostJson("http://a/".to_string(), fields));
    let ev = ev.resume(Event::Text("ok".to_string())).run(10);
    assert_eq!(ev.control, Control::Return(Value::String("ok".to_string())));
}

#[test]
fn http_post_json_checks_its_arguments() {
    let env = Environment::new();
    assert_eq!(line("http.post.json", &env), Err(EvalError::MissingArgument));
    assert_eq!(line("http.post.json ()", &env), Err(EvalError::MissingArgument));
    assert_eq!(
        line("http.post.json \"u\" 1", &env),
        Err(EvalError::TypeMismatch { expected: Kind::Compound, actual: Value::UInt64(1) })
    );
    assert_eq!(
        line("http.post.json 2 ()", &env),
        Err(EvalError::TypeMismatch { expected: Kind::String, actual: Value::UInt64(2) })
    );
    assert_eq!(line("http.post.json {4 / 0} {nothing}", &env), Err(EvalError::UnresolvedCall("nothing".to_string())));
}

#[test]
fn twice_calls_its_argument_two_times() {
    let env = Environment::new();
    let f = closure(&env, vec!["u"], "println u", None);
    let env = env.set("f", f);
    let ev = parse_file("twice f;3").unwrap().evaluate(&env).run(1000);
    assert_eq!(waiting_for(&ev), &Action::Print(vec![Value::Unit]));
    let ev = ev.resume(Event::Done).run(1000);
    assert_eq!(waiting_for(&ev), &Action::Print(vec![Value::Unit]));
    let ev = ev.resume(Event::Done).run(1000);
    assert_eq!(ev.control, Control::Return(Value::UInt64(3)));
    assert_eq!(line("twice", &env), Err(EvalError::MissingArgument));
}

#[test]
fn using_hands_the_rest_of_the_block_to_the_call() {
    let env = Environment::new();
    let program = parse_file("using line = fs.watch \"p\";println line").unwrap();
    let ev = program.evaluate(&env).run(1000);
    assert_eq!(waiting_for(&ev), &Action::WatchOpen("p".to_string()));
    let ev = ev.resume(Event::Done).run(1000);
    assert_eq!(waiting_for(&ev), &Action::WatchNext);
    let ev = ev.resume(Event::Line("first".to_string())).run(1000);
    assert_eq!(waiting_for(&ev), &Action::Print(vec![Value::String("first".to_string())]));
    let ev = ev.resume(Event::Done).run(1000);
    assert_eq!(waiting_for(&ev), &Action::WatchNext);
    let ev = ev.resume(Event::Line("second".to_string())).run(1000);
    assert_eq!(waiting_for(&ev), &Action::Print(vec![Value::String("second".to_string())]));
    let ev = ev.resume(Event::Done).run(1000);
    assert_eq!(waiting_for(&ev), &Action::WatchNext);
    let ev = ev.resume(Event::Closed).run(1000);
    assert_eq!(ev.control, Control::Return(Value::Unit));
    assert_eq!(ev.status(), Status::Finished);
}

#[test]
fn using_turns_the_rest_into_a_function_argument() {
    let env = Environment::new();
    let program = parse_file("using v = twice;println v").unwrap();
    let ev = program.evaluate(&env).step().step();
    let expected_arg = PrimaryExpr::Block(Block(vec![BlockElement::AnonymousFunction(
        AnonymousFunction {
            params: vec!["v".to_string()],
            body: parse_file("println v").unwrap(),
        },
    )]));
    match &ev.control {
        Control::Expr { expr, .. } => assert_eq!(expr, &Expr::Primary(expected_arg)),
        other => panic!("unexpected state {:?}", other),
    }
    let ev = ev.run(1000);
    assert_eq!(waiting_for(&ev), &Action::Print(vec![Value::Unit]));
    let ev = ev.resume(Event::Done).run(1000);
    assert_eq!(waiting_for(&ev), &Action::Print(vec![Value::Unit]));
    let ev = ev.resume(Event::Done).run(1000);
    assert_eq!(ev.control, Control::Return(Value::Unit));
}

#[test]
fn watch_checks_its_arguments() {
    let env = Environment::new();
    assert_eq!(line("fs.watch", &env), Err(EvalError::MissingArgument));
    assert_eq!(
        line("fs.watch 1 2", &env),
        Err(EvalError::TypeMismatch { expected: Kind::String, actual: Value::UInt64(1) })
    );
    let ev = parse_line("fs.watch \"p\" 5").unwrap().evaluate_for_repl(&env).unwrap().run(1000);
    let ev = ev.resume(Event::Done).run(1000);
    assert_eq!(waiting_for(&ev), &Action::WatchNext);
    let ev = ev.resume(Event::Line("l".to_string())).run(1000);
    assert_eq!(ev.control, Control::Failed(EvalError::NotCallable(Value::UInt64(5))));
}

#[test]
fn watch_fails_where_the_file_cannot_be_followed() {
    let env = Environment::new();
    let ev = parse_line("fs.watch \"p\" 5").unwrap().evaluate_for_repl(&env).unwrap().run(1000);
    let ev = ev.resume(Event::Failed("no such file".to_string())).run(1000);
    assert_eq!(ev.control, Control::Failed(EvalError::Host("no such file".to_string())));
}

#[test]
fn scripted_host_follows_a_file() {
    let env = Environment::new();
    let program = parse_file("using line = fs.watch \"p\";println line;line").unwrap();
    let events = vec![
        Event::Done,
        Event::Line("one".to_string()),
        Event::Done,
        Event::Line("two".to_string()),
        Event::Done,
        Event::Closed,
    ];
    let (end, asked) = program.evaluate(&env).replay(&events, 1000);
    assert_eq!(
        asked,
        vec![
            Action::WatchOpen("p".to_string()),
            Action::WatchNext,
            Action::Print(vec![Value::String("one".to_string())]),
            Action::WatchNext,
            Action::Print(vec![Value::String("two".to_string())]),
            Action::WatchNext,
        ]
    );
    assert_eq!(end.ended(), Some(Ok((env, Value::Unit))));
}

#[test]
fn scripted_host_runs_out_of_answers() {
    let env = Environment::new();
    let program = parse_file("println 1;println 2;3").unwrap();
    let (end, asked) = program.evaluate(&env).replay(&vec![Event::Done], 1000);
    assert_eq!(
        asked,
        vec![Action::Print(vec![Value::UInt64(1)]), Action::Print(vec![Value::UInt64(2)])]
    );
    assert_eq!(end.status(), Status::Waiting);
    let (end, asked) = end.replay(&vec![Event::Done, Event::Done], 1000);
    assert_eq!(asked, vec![Action::Print(vec![Value::UInt64(2)])]);
    assert_eq!(end.ended(), Some(Ok((env, Value::UInt64(3)))));
}

#[test]
fn scripted_host_is_not_asked_by_a_program_that_needs_none() {
    let env = Environment::new();
    let program = parse_file("let a = 2;a").unwrap();
    let (end, asked) = program.evaluate(&env).replay(&vec![Event::Done], 1000);
    assert!(asked.is_empty());
    assert_eq!(end.ended(), Some(Ok((env, Value::UInt64(2)))));
    let failing = parse_file("fs.cwd;1").unwrap();
    let env = Environment::new();
    let (end, asked) =
        failing.evaluate(&env).replay(&vec![Event::Failed("x".to_string()), Event::Done], 1000);
    assert_eq!(asked, vec![Action::CurrentDir]);
    assert_eq!(end.ended(), Some(Err(EvalError::Host("x".to_string()))));
}

#[test]
fn requests_and_answers_are_copied_whole() {
    let mut fields = Properties::new();
    fields.set("k", Value::String("v".to_string()));
    let actions = vec![
        Action::CurrentDir,
        Action::Print(vec![Value::Unit, Value::Compound { properties: fields.clone() }]),
        Action::HttpGet("u".to_string()),
        Action::HttpPostJson("u".to_string(), fields),
        Action::WatchOpen("p".to_string()),
        Action::WatchNext,
    ];
    for a in &actions {
        assert_eq!(&a.clone(), a);
    }
    let events = vec![
        Event::Done,
        Event::Text("t".to_string()),
        Event::Line("l".to_string()),
        Event::Closed,
        Event::Failed("f".to_string()),
    ];
    for e in &events {
        assert_eq!(&e.clone(), e);
    }
}

#[test]
fn text_outside_ascii_is_matched() {
    let env = Environment::new();
    assert_eq!(
        file("let \u{3b1} = \"na\u{ef}ve \u{1F600}\";\u{3b1}.includes \"\u{ef}v. \u{1F600}$\"", &env),
        Ok(Value::Bool(true))
    );
}

#[test]
fn truth_value_is_a_literal_where_an_argument_stands() {
    let env = Environment::new();
    assert_eq!(line("(a=1,b=true)", &env), Err(EvalError::UnresolvedCall("true".to_string())));
    let ev = parse_line("println true false").unwrap().evaluate_for_repl(&env).unwrap().run(100);
    assert_eq!(waiting_for(&ev), &Action::Print(vec![Value::Bool(true), Value::Bool(false)]));
}
