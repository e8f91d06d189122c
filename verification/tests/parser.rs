use haksh::ast::{
    AddSubOp, BinOp, Block, BlockElement, BoolLiteral, Expr, FunctionApplication, Identifier, If,
    MulDivOp, PrimaryExpr,
};
use haksh::parser::{
    function_application, function_name, identifer, parse_file, parse_line, primary_expr,
    ParseError, Source,
};

fn name(path: &str) -> Identifier {
    Identifier { child: None, path: path.to_string() }
}

fn call(path: &str, args: Vec<PrimaryExpr>) -> Expr {
    Expr::FunctionApplication(FunctionApplication { fident: name(path), options: Vec::new(), args })
}

fn num(n: u64) -> Expr {
    Expr::Primary(PrimaryExpr::DecimalInt(n))
}

#[test]
fn test_fa() {
    let (i, _) = function_application(
        r#"fs.cwd;
fs.cwd"#,
    )
    .unwrap();
    assert_eq!(
        i,
        r#";
fs.cwd"#
    )
}

#[test]
fn test_fab() {
    let (i, _) = function_application(r#"fs.cwd;fs.cwd"#).unwrap();
    assert_eq!(i, r#";fs.cwd"#)
}

#[test]
fn test_i() {
    let (i, _) = identifer(
        r#"fs;
fs.cwd"#,
    )
    .unwrap();
    assert_eq!(
        i,
        r#";
fs.cwd"#
    );

    let (i, _) = function_name("fs.cwd;hoge").unwrap();
    assert_eq!(i, ";hoge");
}

#[test]
fn identifier_is_read_up_to_the_first_other_character() {
    let (rest, id) = identifer("caf\u{e9}_1+2").unwrap();
    assert_eq!(id, "caf\u{e9}_1");
    assert_eq!(rest, "+2");
}

#[test]
fn identifier_does_not_start_with_a_digit() {
    assert_eq!(identifer("1a"), Err(ParseError { rest: "1a".to_string() }));
    assert_eq!(identifer(""), Err(ParseError { rest: String::new() }));
    assert_eq!(identifer(" a"), Err(ParseError { rest: " a".to_string() }));
}

#[test]
fn dotted_name_is_a_chain_from_the_outside_in() {
    let (rest, fa) = function_application("http.post.json").unwrap();
    assert_eq!(rest, "");
    let expected = Identifier {
        path: "http".to_string(),
        child: Some(Box::new(Identifier {
            path: "post".to_string(),
            child: Some(Box::new(name("json"))),
        })),
    };
    assert_eq!(fa.fident, expected);
    assert!(fa.args.is_empty());
    assert!(fa.options.is_empty());
}

#[test]
fn dotted_name_stops_at_a_dot_without_a_segment() {
    let (rest, names) = function_name("fs.;x").unwrap();
    assert_eq!(names, vec!["fs".to_string()]);
    assert_eq!(rest, ".;x");
}

#[test]
fn arguments_are_primary_expressions_between_blanks() {
    let (rest, fa) = function_application("  f 1 \t\"a b\" x {2}  + 3").unwrap();
    assert_eq!(fa.fident, name("f"));
    assert_eq!(
        fa.args,
        vec![
            PrimaryExpr::DecimalInt(1),
            PrimaryExpr::StringLiteral("a b".to_string()),
            PrimaryExpr::Identifier("x".to_string()),
            PrimaryExpr::Block(Block(vec![BlockElement::Expr(num(2))])),
        ]
    );
    assert_eq!(rest, "  + 3");
}

#[test]
fn primary_expressions_are_tried_in_order() {
    assert_eq!(primary_expr("true"), Ok(("", PrimaryExpr::Bool(BoolLiteral::True))));
    assert_eq!(primary_expr("falsey"), Ok(("y", PrimaryExpr::Bool(BoolLiteral::False))));
    assert_eq!(primary_expr("42;"), Ok((";", PrimaryExpr::DecimalInt(42))));
    assert_eq!(primary_expr("x1 "), Ok((" ", PrimaryExpr::Identifier("x1".to_string()))));
    assert_eq!(
        primary_expr("\"hi\"!"),
        Ok(("!", PrimaryExpr::StringLiteral("hi".to_string())))
    );
    assert_eq!(primary_expr("{}"), Ok(("", PrimaryExpr::Block(Block(Vec::new())))));
    assert_eq!(primary_expr("()"), Ok(("", PrimaryExpr::Compound(Vec::new()))));
}

#[test]
fn primary_expression_failures_hold_the_whole_text() {
    assert_eq!(primary_expr(" 1"), Err(ParseError { rest: " 1".to_string() }));
    assert_eq!(primary_expr("\"open"), Err(ParseError { rest: "\"open".to_string() }));
    assert_eq!(primary_expr("{1"), Err(ParseError { rest: "{1".to_string() }));
    assert_eq!(primary_expr(""), Err(ParseError { rest: String::new() }));
}

#[test]
fn number_takes_every_digit_and_fits_in_64_bits() {
    assert_eq!(
        primary_expr("18446744073709551615"),
        Ok(("", PrimaryExpr::DecimalInt(u64::MAX)))
    );
    assert_eq!(
        primary_expr("18446744073709551616"),
        Err(ParseError { rest: "18446744073709551616".to_string() })
    );
    assert_eq!(primary_expr("007"), Ok(("", PrimaryExpr::DecimalInt(7))));
}

#[test]
fn compound_fields_keep_their_order_and_a_later_one_replaces() {
    let (rest, p) = primary_expr("(b=1,a=2,b=3)").unwrap();
    assert_eq!(rest, "");
    assert_eq!(
        p,
        PrimaryExpr::Compound(vec![("b".to_string(), num(3)), ("a".to_string(), num(2))])
    );
}

#[test]
fn product_binds_tighter_than_sum() {
    let e = parse_line("2 + 3 * 4").unwrap();
    let expected = BlockElement::Expr(Expr::AddSub(BinOp {
        left: Box::new(num(2)),
        op: AddSubOp::Add,
        right: Box::new(Expr::MulDiv(BinOp {
            left: Box::new(num(3)),
            op: MulDivOp::Mul,
            right: Box::new(num(4)),
        })),
    }));
    assert_eq!(e, expected);
}

#[test]
fn operators_of_one_level_fold_to_the_left() {
    let e = parse_line("10 - 3 - 2").unwrap();
    let expected = BlockElement::Expr(Expr::AddSub(BinOp {
        left: Box::new(Expr::AddSub(BinOp {
            left: Box::new(num(10)),
            op: AddSubOp::Sub,
            right: Box::new(num(3)),
        })),
        op: AddSubOp::Sub,
        right: Box::new(num(2)),
    }));
    assert_eq!(e, expected);
    let e = parse_line("8/2*3").unwrap();
    let expected = BlockElement::Expr(Expr::MulDiv(BinOp {
        left: Box::new(Expr::MulDiv(BinOp {
            left: Box::new(num(8)),
            op: MulDivOp::Div,
            right: Box::new(num(2)),
        })),
        op: MulDivOp::Mul,
        right: Box::new(num(3)),
    }));
    assert_eq!(e, expected);
}

#[test]
fn block_is_an_operand() {
    let e = parse_line("{2 + 3} * 4").unwrap();
    let inner = Expr::AddSub(BinOp {
        left: Box::new(num(2)),
        op: AddSubOp::Add,
        right: Box::new(num(3)),
    });
    let expected = BlockElement::Expr(Expr::MulDiv(BinOp {
        left: Box::new(Expr::Primary(PrimaryExpr::Block(Block(vec![BlockElement::Expr(inner)])))),
        op: MulDivOp::Mul,
        right: Box::new(num(4)),
    }));
    assert_eq!(e, expected);
}

#[test]
fn single_term_is_no_operation() {
    assert_eq!(parse_line("7"), Ok(BlockElement::Expr(num(7))));
    assert_eq!(
        parse_line("7 "),
        Err(ParseError { rest: " ".to_string() })
    );
    assert_eq!(
        parse_line("7 +"),
        Err(ParseError { rest: " +".to_string() })
    );
}

#[test]
fn name_at_the_start_is_a_function_application() {
    assert_eq!(parse_line("x"), Ok(BlockElement::Expr(call("x", Vec::new()))));
    assert_eq!(parse_line("x + 1"), Err(ParseError { rest: "+ 1".to_string() }));
    assert_eq!(
        parse_line("true"),
        Ok(BlockElement::Expr(call("true", Vec::new())))
    );
}

#[test]
fn let_comes_before_using_and_expression() {
    assert_eq!(
        parse_line("let x = 1"),
        Ok(BlockElement::Var { name: "x".to_string(), def: num(1) })
    );
    assert_eq!(
        parse_line("let  y=f 2"),
        Ok(BlockElement::Var {
            name: "y".to_string(),
            def: call("f", vec![PrimaryExpr::DecimalInt(2)]),
        })
    );
    assert_eq!(
        parse_line("let x"),
        Ok(BlockElement::Expr(call("let", vec![PrimaryExpr::Identifier("x".to_string())])))
    );
}

#[test]
fn using_takes_a_function_application() {
    assert_eq!(
        parse_line("using line = fs.watch \"p\""),
        Ok(BlockElement::Using {
            name: "line".to_string(),
            def: FunctionApplication {
                fident: Identifier {
                    path: "fs".to_string(),
                    child: Some(Box::new(name("watch"))),
                },
                options: Vec::new(),
                args: vec![PrimaryExpr::StringLiteral("p".to_string())],
            },
        })
    );
    assert_eq!(parse_line("using x = 1"), Err(ParseError { rest: " = 1".to_string() }));
}

#[test]
fn conditional_has_blocks_for_branches() {
    let e = parse_line("if {c} then {1} else {2}").unwrap();
    let block = |e: Expr| Expr::Primary(PrimaryExpr::Block(Block(vec![BlockElement::Expr(e)])));
    let expected = BlockElement::Expr(Expr::If(If {
        cond: Box::new(block(call("c", Vec::new()))),
        true_exp: Box::new(block(num(1))),
        false_expr: Box::new(block(num(2))),
    }));
    assert_eq!(e, expected);
}

#[test]
fn file_is_elements_between_separators() {
    let b = parse_file("let x = 1;{let x = 2;x}\nx\n\n").unwrap();
    assert_eq!(b.0.len(), 3);
    assert_eq!(b.0[0], BlockElement::Var { name: "x".to_string(), def: num(1) });
    assert_eq!(b.0[2], BlockElement::Expr(call("x", Vec::new())));
    assert_eq!(parse_file(""), Ok(Block(Vec::new())));
    assert_eq!(parse_file(" \n\t"), Ok(Block(Vec::new())));
}

#[test]
fn file_error_holds_what_was_not_read() {
    assert_eq!(parse_file("1;2 ) 3"), Err(ParseError { rest: ") 3".to_string() }));
    assert_eq!(parse_file("1;;2"), Err(ParseError { rest: ";;2".to_string() }));
}

#[test]
fn parsing_the_same_text_gives_the_same_tree() {
    let text = "let f = {2 + 3} * 4;using l = fs.watch \"p\";println l (a=1,b=l)";
    assert_eq!(parse_file(text), parse_file(text));
    assert!(parse_file(text).is_ok());
    assert_eq!(parse_line("1 +"), parse_line("1 +"));
}

#[test]
fn identifier_is_the_match_where_it_begins_the_text() {
    let src = Source::new("abc def");
    assert_eq!(src.identifier_from(0, Some("abc".to_string())), Some(("abc".to_string(), 3)));
    assert_eq!(src.identifier_from(4, Some("de".to_string())), Some(("de".to_string(), 6)));
    assert_eq!(src.identifier_from(0, Some("def".to_string())), None);
    assert_eq!(src.identifier_from(0, Some(String::new())), None);
    assert_eq!(src.identifier_from(5, Some("efg".to_string())), None);
    assert_eq!(src.identifier_from(7, Some("a".to_string())), None);
    assert_eq!(src.identifier_from(0, None), None);
    assert_eq!(src.identifier(3), None);
    assert_eq!(src.identifier(4), Some(("def".to_string(), 7)));
}

#[test]
fn source_reads_blanks_and_words() {
    let src = Source::new(" \t x\n\r y");
    assert_eq!(src.len(), 8);
    assert_eq!(src.skip_space(0), 3);
    assert_eq!(src.skip_space(3), 3);
    assert_eq!(src.skip_space(4), 4);
    assert_eq!(src.skip_multispace(4), 7);
    assert_eq!(src.skip_space(8), 8);
    assert!(src.at(3, 'x'));
    assert!(!src.at(3, 'y'));
    assert!(!src.at(8, 'x'));
    assert_eq!(src.tag(3, "x\n"), Some(5));
    assert_eq!(src.tag(3, "xy"), None);
    assert_eq!(src.tag(7, "yz"), None);
    assert_eq!(src.tag(8, ""), Some(8));
    assert_eq!(src.slice(3, 4), "x");
}

#[test]
fn source_counts_characters_not_bytes() {
    let src = Source::new("\u{e9}t\u{e9} \"\u{1F600}\" z");
    assert_eq!(src.len(), 9);
    assert_eq!(src.identifier(0), Some(("\u{e9}t\u{e9}".to_string(), 3)));
    assert_eq!(src.pstring(4), Some(("\u{1F600}".to_string(), 7)));
    assert_eq!(src.slice(8, 9), "z");
    assert_eq!(src.number(8), None);
}

#[test]
fn nothing_is_read_behind_the_text() {
    let src = Source::new("ab");
    assert_eq!(src.skip_space(5), 5);
    assert_eq!(src.skip_multispace(3), 3);
    assert_eq!(src.tag(3, ""), None);
    assert_eq!(src.identifier(3), None);
    assert_eq!(src.identifier_from(3, Some("a".to_string())), None);
    assert_eq!(src.number(3), None);
    assert_eq!(src.pstring(3), None);
    assert_eq!(src.pbool(3), None);
    assert_eq!(src.function_name(3), None);
    assert_eq!(src.primary_expr(3), None);
    assert_eq!(src.expr(3), None);
    assert_eq!(src.block_element(3), None);
    assert_eq!(src.function_application(3), None);
    assert_eq!(src.block_inner(3), (Block(Vec::new()), 3));
    assert_eq!(src.block_inner(2), (Block(Vec::new()), 2));
    assert_eq!(src.primary_expr(2), None);
}

#[test]
fn long_file_is_read() {
    let mut text = String::new();
    for i in 0..300 {
        text.push_str(&format!("let v{} = {{{} + {} * 2}};f v{} \"s\"\n", i, i, i, i));
    }
    let block = parse_file(&text).unwrap();
    assert_eq!(block.0.len(), 600);
}

#[test]
fn text_outside_ascii_is_read_by_characters() {
    let text = "let \u{3b1}\u{3b2} = \"\u{1F600}\u{e9}\";\u{3b1}\u{3b2}.includes \"\u{e9}$\"";
    let block = parse_file(text).unwrap();
    assert_eq!(block.0.len(), 2);
    assert_eq!(
        block.0[0],
        BlockElement::Var {
            name: "\u{3b1}\u{3b2}".to_string(),
            def: Expr::Primary(PrimaryExpr::StringLiteral("\u{1F600}\u{e9}".to_string())),
        }
    );
    assert_eq!(
        parse_file("\u{3b1} \u{1F600}"),
        Err(ParseError { rest: "\u{1F600}".to_string() })
    );
}

#[test]
fn blanks_are_read_only_where_the_grammar_has_them() {
    assert_eq!(
        parse_file("let x = 1; { let x = 2; x }; x"),
        Err(ParseError { rest: "; { let x = 2; x }; x".to_string() })
    );
    assert!(parse_file("let x = 1;{let x = 2;x}; x").is_ok());
    assert_eq!(
        parse_line("(a = 1, b = true)"),
        Err(ParseError { rest: "(a = 1, b = true)".to_string() })
    );
    assert!(parse_line("(a=1,b=true)").is_ok());
    assert_eq!(parse_line(" 1"), Err(ParseError { rest: " 1".to_string() }));
    assert_eq!(parse_line(" f"), Ok(BlockElement::Expr(call("f", Vec::new()))));
}
