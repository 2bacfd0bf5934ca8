use esper::ast::{BinOp, CompareOp, Expr, UnaryOp};
use esper::esper_parser::program;
use esper::token::Token;

fn var(name: &str) -> Expr {
    Expr::Var(name.to_string())
}

fn parse(source: &str) -> Vec<Expr> {
    match program(source) {
        Ok(Expr::Program(items)) => items.into_iter().map(|item| *item).collect(),
        other => panic!("no program: {:?}", other),
    }
}

fn single(source: &str) -> Expr {
    let mut items = parse(source);
    assert_eq!(items.len(), 1, "{:?}", items);
    items.remove(0)
}

#[test]
fn let_with_integer_literal() {
    assert_eq!(single("let x = 42"), Expr::Let("x".to_string(), Box::new(Expr::Int(42))));
}

#[test]
fn let_with_negative_integer_literal() {
    assert_eq!(single("let x = -5"), Expr::Let("x".to_string(), Box::new(Expr::Int(-5))));
}

#[test]
fn let_with_largest_integer_literal() {
    assert_eq!(
        single("let x = 9223372036854775807"),
        Expr::Let("x".to_string(), Box::new(Expr::Int(i64::MAX)))
    );
}

#[test]
fn integer_literal_beyond_i64_is_a_parse_error() {
    let err = program("let x = 9223372036854775808").unwrap_err();
    assert_eq!(err.offset, 27);
    assert!(err.expected.contains(&Token::I64), "{:?}", err.expected);
}

#[test]
fn let_with_float_literal() {
    assert_eq!(
        single("let x = 1.50"),
        Expr::Let("x".to_string(), Box::new(Expr::Float("1.5".to_string())))
    );
}

#[test]
fn float_literal_canonical_text() {
    assert_eq!(single("007.2500"), Expr::Float("7.25".to_string()));
    assert_eq!(single("1."), Expr::Float("1".to_string()));
    assert_eq!(single("-0.0"), Expr::Float("-0".to_string()));
    assert_eq!(single("0.125"), Expr::Float("0.125".to_string()));
}

#[test]
fn let_with_bool_literal() {
    assert_eq!(single("let x = true"), Expr::Let("x".to_string(), Box::new(Expr::Bool(true))));
    assert_eq!(single("let x = false"), Expr::Let("x".to_string(), Box::new(Expr::Bool(false))));
}

#[test]
fn let_with_char_literal() {
    assert_eq!(single("let x = 'c'"), Expr::Let("x".to_string(), Box::new(Expr::Char('c'))));
}

#[test]
fn let_with_string_literal() {
    assert_eq!(
        single("let x = \"hi there\""),
        Expr::Let("x".to_string(), Box::new(Expr::String("hi there".to_string())))
    );
}

#[test]
fn gte_is_one_comparison() {
    assert_eq!(
        single("a gte b"),
        Expr::Compare(Box::new(var("a")), CompareOp::Gte, Box::new(var("b")))
    );
}

#[test]
fn lte_is_one_comparison() {
    assert_eq!(
        single("a lte b"),
        Expr::Compare(Box::new(var("a")), CompareOp::Lte, Box::new(var("b")))
    );
}

#[test]
fn gt_and_lt_still_parse() {
    assert_eq!(
        single("a gt b"),
        Expr::Compare(Box::new(var("a")), CompareOp::Gt, Box::new(var("b")))
    );
    assert_eq!(
        single("a lt b"),
        Expr::Compare(Box::new(var("a")), CompareOp::Lt, Box::new(var("b")))
    );
}

#[test]
fn destructuring_loop() {
    assert_eq!(
        single("for [a, b] in xs y = a end"),
        Expr::Loop(
            Box::new(Expr::List(vec![var("a"), var("b")])),
            Box::new(var("xs")),
            vec![Expr::Assign(Box::new(var("y")), Box::new(var("a")))],
        )
    );
}

#[test]
fn nested_directives() {
    assert_eq!(
        single("@const @static 5"),
        Expr::Directive(
            Box::new(var("const")),
            Box::new(Expr::Directive(Box::new(var("static")), Box::new(Expr::Int(5)))),
        )
    );
}

#[test]
fn variant_chain_leans_right() {
    assert_eq!(
        single("let x: |A|B|C| = 1"),
        Expr::TypedLet(
            "x".to_string(),
            Box::new(Expr::TypedVariant(
                Box::new(Expr::TypedSymbol("A".to_string())),
                Box::new(Expr::TypedVariant(
                    Box::new(Expr::TypedSymbol("B".to_string())),
                    Box::new(Expr::TypedSymbol("C".to_string())),
                )),
            )),
            Box::new(Expr::Int(1)),
        )
    );
    assert_eq!(
        single("let x: |A| = 1"),
        Expr::TypedLet(
            "x".to_string(),
            Box::new(Expr::TypedSymbol("A".to_string())),
            Box::new(Expr::Int(1)),
        )
    );
}

#[test]
fn sum_of_products() {
    assert_eq!(
        single("a * b + c"),
        Expr::Bin(
            Box::new(Expr::Bin(Box::new(var("a")), BinOp::Mul, Box::new(var("b")))),
            BinOp::Add,
            Box::new(var("c")),
        )
    );
}

#[test]
fn three_operators_of_one_level_do_not_chain() {
    let err = program("a + b + c").unwrap_err();
    assert_eq!(err.line, 1);
    assert_eq!(err.offset, 6);
    assert!(err.expected.contains(&Token::EndOfInput), "{:?}", err.expected);
}

#[test]
fn assignment_comes_first() {
    assert_eq!(single("a = b"), Expr::Assign(Box::new(var("a")), Box::new(var("b"))));
    assert_eq!(
        single("a.f() = 1"),
        Expr::Assign(
            Box::new(Expr::Member(vec![var("a"), Expr::Call(Box::new(var("f")), vec![])])),
            Box::new(Expr::Int(1)),
        )
    );
}

#[test]
fn a_path_takes_paths_and_calls_as_segments() {
    assert_eq!(
        parse("a.b.c()"),
        vec![Expr::Member(vec![
            var("a"),
            Expr::Member(vec![var("b"), Expr::Call(Box::new(var("c")), vec![])]),
        ])]
    );
    assert_eq!(parse("a.b"), vec![Expr::Member(vec![var("a")]), var("b")]);
}

#[test]
fn prefix_operators_nest_outside_in() {
    assert_eq!(
        single("~&x"),
        Expr::Unary(Box::new(Expr::Unary(Box::new(var("x")), UnaryOp::Ref)), UnaryOp::BitNot)
    );
}

#[test]
fn call_with_arguments() {
    assert_eq!(
        single("f(1, x)"),
        Expr::Call(Box::new(var("f")), vec![Expr::Int(1), var("x")])
    );
}

#[test]
fn function_with_typed_parameter() {
    assert_eq!(
        single("let f = |n: int, m| n; m end"),
        Expr::Let(
            "f".to_string(),
            Box::new(Expr::Fn(
                vec![
                    ("n".to_string(), Some(Expr::TypedSymbol("int".to_string()))),
                    ("m".to_string(), None),
                ],
                vec![var("n"), var("m")],
            )),
        )
    );
}

#[test]
fn comments_and_blanks_are_skipped() {
    assert_eq!(
        parse("(* first *) let x = 1 \n (* second *)\n let y = 2\n"),
        vec![
            Expr::Let("x".to_string(), Box::new(Expr::Int(1))),
            Expr::Let("y".to_string(), Box::new(Expr::Int(2))),
        ]
    );
}

#[test]
fn empty_source_is_an_empty_program() {
    assert_eq!(program(""), Ok(Expr::Program(vec![])));
}

#[test]
fn failure_reports_line_column_and_offset() {
    let err = program("let x = 1\nlet é = $").unwrap_err();
    assert_eq!(err.line, 2);
    assert_eq!(err.column, 5);
    assert_eq!(err.offset, 14);
    assert!(err.expected.contains(&Token::Identifier), "{:?}", err.expected);
}

#[test]
fn unterminated_comment_fails_at_the_end() {
    let err = program("let x = 1 (* open").unwrap_err();
    assert_eq!(err.offset, 17);
    assert_eq!(err.expected, vec![Token::CommentClose, Token::AnyChar]);
}

#[test]
fn parsing_is_repeatable() {
    let source = "let f = |a| if a gt 1 then a else 1 end end";
    assert_eq!(program(source), program(source));
}

#[test]
fn a_copy_is_equal() {
    let tree = program(
        "struct P x: int end\nlet f = |a: ?int, b| match a with | A -> b; 1, end end\n@const let y = {k: [1, 2.5, 'c', \"s\"]}",
    )
    .unwrap();
    assert_eq!(tree.clone(), tree);
    assert_eq!(esper::copy::copy(&tree), tree);
}

#[test]
fn token_labels() {
    assert_eq!(Token::Let.text(), "let");
    assert_eq!(Token::Let.label(), "\"let\"");
    assert_eq!(Token::Quote.text(), "\"");
    assert_eq!(Token::Quote.label(), "\"\\\"\"");
    assert_eq!(Token::Digit.text(), "");
    assert_eq!(Token::Digit.label(), "['0'..='9']");
    assert_eq!(Token::EndOfInput.label(), "EOF");
    assert_eq!(Token::Identifier.label(), "identifier");
}

#[test]
fn expected_tokens_are_listed_once() {
    let err = program("let x = ").unwrap_err();
    let mut seen = Vec::new();
    for token in &err.expected {
        assert!(!seen.contains(token), "{:?} twice in {:?}", token, err.expected);
        seen.push(*token);
    }
    assert!(seen.contains(&Token::Digit));
    assert!(seen.contains(&Token::Identifier));
    assert!(seen.contains(&Token::LParen));
}

#[test]
fn operators_and_words() {
    for (source, op) in [
        ("a gt b", CompareOp::Gt),
        ("a eq b", CompareOp::Eq),
        ("a neq b", CompareOp::Neq),
        ("a and b", CompareOp::And),
        ("a or b", CompareOp::Or),
    ] {
        assert_eq!(
            single(source),
            Expr::Compare(Box::new(var("a")), op, Box::new(var("b"))),
            "{}",
            source
        );
    }
    assert_eq!(
        single("a - b"),
        Expr::Bin(Box::new(var("a")), BinOp::Sub, Box::new(var("b")))
    );
    assert_eq!(
        single("a / b"),
        Expr::Bin(Box::new(var("a")), BinOp::Div, Box::new(var("b")))
    );
    assert_eq!(
        single("a rotl b"),
        Expr::Bit(Box::new(var("a")), esper::ast::BitOp::Rotl, Box::new(var("b")))
    );
}

#[test]
fn statements_of_every_kind() {
    assert_eq!(
        single("if a then b; c else d end"),
        Expr::If(Box::new(var("a")), vec![var("b"), var("c")], Some(vec![var("d")]))
    );
    assert_eq!(
        single("match v with | A -> x, | B -> y; z, end"),
        Expr::Match(
            Box::new(var("v")),
            vec![
                ("A".to_string(), vec![var("x")]),
                ("B".to_string(), vec![var("y"), var("z")]),
            ],
        )
    );
    assert_eq!(
        single("struct P x: int, y: ?int end"),
        Expr::Struct(
            "P".to_string(),
            vec![
                ("x".to_string(), Expr::TypedSymbol("int".to_string())),
                (
                    "y".to_string(),
                    Expr::TypedOptional(Box::new(Expr::TypedSymbol("int".to_string()))),
                ),
            ],
        )
    );
    assert_eq!(
        single("type Pair<A, B> = {a: A, b: B} end"),
        Expr::TypeAlias(
            "Pair".to_string(),
            vec![Expr::TypedSymbol("A".to_string()), Expr::TypedSymbol("B".to_string())],
            Box::new(Expr::TypedRecord(Box::new(Expr::Record(vec![
                vec![var("a"), Expr::TypedSymbol("A".to_string())],
                vec![var("b"), Expr::TypedSymbol("B".to_string())],
            ])))),
        )
    );
    assert_eq!(
        single("f<int>(1)"),
        Expr::TypedCall(
            Box::new(var("f")),
            vec![Expr::TypedSymbol("int".to_string())],
            vec![Expr::Int(1)],
        )
    );
    assert_eq!(single("1..n"), Expr::Range(Box::new(Expr::Int(1)), Box::new(var("n"))));
    assert_eq!(
        single("{a: 1, 2: b}"),
        Expr::Record(vec![vec![var("a"), Expr::Int(1)], vec![Expr::Int(2), var("b")]])
    );
    assert_eq!(single("(a)"), var("a"));
    assert_eq!(single("pass"), Expr::Pass);
    assert_eq!(
        single("@extend(T, int) type Id<T> = T end"),
        Expr::Directive(
            Box::new(Expr::Call(Box::new(var("extend")), vec![var("T"), var("int")])),
            Box::new(Expr::TypeAlias(
                "Id".to_string(),
                vec![Expr::TypedSymbol("T".to_string())],
                Box::new(Expr::TypedSymbol("T".to_string())),
            )),
        )
    );
    assert_eq!(
        single("let p: &*T = x"),
        Expr::TypedLet(
            "p".to_string(),
            Box::new(Expr::TypedUnary(Box::new(Expr::Unary(
                Box::new(Expr::TypedUnary(Box::new(Expr::Unary(
                    Box::new(Expr::TypedSymbol("T".to_string())),
                    UnaryOp::Deref,
                )))),
                UnaryOp::Ref,
            )))),
            Box::new(var("x")),
        )
    );
}

#[test]
fn smallest_integer_literal() {
    assert_eq!(
        single("let x = -9223372036854775808"),
        Expr::Let("x".to_string(), Box::new(Expr::Int(i64::MIN)))
    );
    assert_eq!(single("-9223372036854775807"), Expr::Int(-i64::MAX));
    let err = program("let x = -9223372036854775809").unwrap_err();
    assert_eq!(err.offset, 28);
    assert!(err.expected.contains(&Token::I64), "{:?}", err.expected);
}

#[test]
fn expected_tokens_stand_in_the_order_of_their_labels() {
    for source in ["let x = ", "a + ", "(a", "f(1, $", "let x: ", "$"] {
        let err = program(source).unwrap_err();
        let labels: Vec<&str> = err.expected.iter().map(|t| t.label()).collect();
        let mut sorted = labels.clone();
        sorted.sort();
        assert_eq!(labels, sorted, "{}", source);
        assert!(esper::order::label_before(Token::Amp, Token::Star));
        assert!(!esper::order::label_before(Token::Star, Token::Amp));
        assert!(esper::order::label_before(Token::Gt, Token::Gte));
        assert!(!esper::order::label_before(Token::Gte, Token::Gt));
        assert!(esper::order::label_before(Token::Gt, Token::Gt));
    }
    assert_eq!(
        esper::order::sorted_by_label(&vec![Token::Identifier, Token::Let, Token::Digit, Token::Amp]),
        vec![Token::Amp, Token::Let, Token::Digit, Token::Identifier]
    );
}
