use esper::ast::{BinOp, BitOp, CompareOp, Expr, UnaryOp};
use esper::emit::{EmitContextImpl, EmitDefault};
use esper::esper_parser::program;
use esper::render::PRELUDE;

fn var(name: &str) -> Expr {
    Expr::Var(name.to_string())
}

fn sym(name: &str) -> Expr {
    Expr::TypedSymbol(name.to_string())
}

fn emitter() -> EmitDefault {
    EmitDefault { ctx: EmitContextImpl::new() }
}

fn statement(expr: &Expr) -> String {
    let mut ctx = EmitContextImpl::new();
    emitter().emit_expr(&mut ctx, expr);
    assert_eq!(ctx.level, 0);
    ctx.output
}

fn statement_at(level: usize, expr: &Expr) -> String {
    let mut ctx = EmitContextImpl::new();
    ctx.level = level;
    emitter().emit_expr(&mut ctx, expr);
    assert_eq!(ctx.level, level);
    ctx.output
}

const ENTRY: &str = "int main(int argc, const char** argv) { return m::main(argc, std::vector<std::string>(argv + 1, argv + argc)); }\n";

#[test]
fn context_starts_empty() {
    let ctx = EmitContextImpl::new();
    assert_eq!(ctx.level, 0);
    assert_eq!(ctx.output, "");
    assert_eq!(ctx.module_id, "");
    assert!(!ctx.use_prelude);
}

#[test]
fn emit_writes_one_line() {
    let mut ctx = EmitContextImpl::new();
    ctx.emit("a");
    ctx.emit("");
    ctx.emit("b");
    assert_eq!(ctx.output, "a\n\nb\n");
}

#[test]
fn indent_is_level_blanks() {
    let mut ctx = EmitContextImpl::new();
    assert_eq!(ctx.indent(), "");
    ctx.level = 3;
    assert_eq!(ctx.indent(), "   ");
    assert_eq!(ctx.level, 3);
}

#[test]
fn let_with_literal_is_an_initialized_declaration() {
    let tree = program("let x = 42").unwrap();
    let out = emitter().emit_program(&tree, "m");
    assert_eq!(
        out,
        format!("using namespace std;\n\nnamespace m {{\nauto x = 42;\n}} // namespace m\n\n{}", ENTRY)
    );
}

#[test]
fn literals_in_value_position() {
    let e = emitter();
    assert_eq!(e.emit_value(&Expr::Int(0)), "0");
    assert_eq!(e.emit_value(&Expr::Int(-17)), "-17");
    assert_eq!(e.emit_value(&Expr::Int(i64::MAX)), "9223372036854775807");
    assert_eq!(e.emit_value(&Expr::Int(i64::MIN)), "-9223372036854775808");
    assert_eq!(e.emit_value(&Expr::Float("1.5".to_string())), "1.5");
    assert_eq!(e.emit_value(&Expr::Bool(true)), "true");
    assert_eq!(e.emit_value(&Expr::Bool(false)), "false");
    assert_eq!(e.emit_value(&Expr::Char('c')), "'c'");
    assert_eq!(e.emit_value(&Expr::String("hi".to_string())), "\"hi\"");
    assert_eq!(e.emit_value(&var("name")), "name");
    assert_eq!(e.emit_value(&Expr::Pass), "");
}

#[test]
fn each_literal_parses_and_emits_its_text() {
    for (source, text) in [
        ("let x = 7", "7"),
        ("let x = -7", "-7"),
        ("let x = 2.50", "2.5"),
        ("let x = true", "true"),
        ("let x = 'q'", "'q'"),
        ("let x = \"s\"", "\"s\""),
    ] {
        let tree = program(source).unwrap();
        let out = emitter().emit_program(&tree, "m");
        assert!(out.contains(&format!("auto x = {};\n", text)), "{}", out);
    }
}

#[test]
fn operators_in_value_position() {
    let e = emitter();
    let a = || Box::new(var("a"));
    let b = || Box::new(var("b"));
    assert_eq!(e.emit_value(&Expr::Bin(a(), BinOp::Add, b())), "(a + b)");
    assert_eq!(e.emit_value(&Expr::Bin(a(), BinOp::Sub, b())), "(a - b)");
    assert_eq!(e.emit_value(&Expr::Bin(a(), BinOp::Mul, b())), "(a * b)");
    assert_eq!(e.emit_value(&Expr::Bin(a(), BinOp::Div, b())), "(a / b)");
    assert_eq!(e.emit_value(&Expr::Compare(a(), CompareOp::Gte, b())), "(a >= b)");
    assert_eq!(e.emit_value(&Expr::Compare(a(), CompareOp::Neq, b())), "(a != b)");
    assert_eq!(e.emit_value(&Expr::Compare(a(), CompareOp::And, b())), "(a && b)");
    assert_eq!(e.emit_value(&Expr::Compare(a(), CompareOp::Or, b())), "(a || b)");
    assert_eq!(e.emit_value(&Expr::Bit(a(), BitOp::Shl, b())), "(a << b)");
    assert_eq!(e.emit_value(&Expr::Bit(a(), BitOp::Xor, b())), "(a ^ b)");
    assert_eq!(e.emit_value(&Expr::Bit(a(), BitOp::Rotl, b())), "__builtin_rotateleft32(a, b)");
    assert_eq!(e.emit_value(&Expr::Bit(a(), BitOp::Rotr, b())), "__builtin_rotateright32(a, b)");
    assert_eq!(e.emit_value(&Expr::Unary(a(), UnaryOp::Ref)), "&a");
    assert_eq!(e.emit_value(&Expr::Unary(a(), UnaryOp::Deref)), "*a");
    assert_eq!(e.emit_value(&Expr::Unary(a(), UnaryOp::BitNot)), "~a");
    assert_eq!(e.emit_value(&Expr::Range(Box::new(Expr::Int(0)), b())), "views::iota(0, b)");
}

#[test]
fn lists_paths_and_calls() {
    let e = emitter();
    assert_eq!(e.emit_value(&Expr::List(vec![])), "{}");
    assert_eq!(e.emit_value(&Expr::List(vec![Expr::Int(1), var("x")])), "{1, x}");
    assert_eq!(e.emit_member(&vec![var("a"), var("b"), var("c")]), "a.b.c");
    assert_eq!(e.emit_value(&Expr::Member(vec![var("a"), var("b")])), "a.b");
    assert_eq!(e.emit_value(&Expr::Call(Box::new(var("f")), vec![])), "f()");
    assert_eq!(
        e.emit_value(&Expr::Call(Box::new(var("f")), vec![Expr::Int(1), Expr::Int(2)])),
        "f(1, 2)"
    );
    assert_eq!(
        e.emit_value(&Expr::TypedCall(Box::new(var("f")), vec![sym("T"), sym("U")], vec![var("x")])),
        "f<T, U>(x)"
    );
    assert_eq!(e.emit_value(&Expr::TypedCall(Box::new(var("f")), vec![], vec![])), "f()");
}

#[test]
fn variant_chain_renders_innermost_pair_as_variant() {
    let chain = Expr::TypedVariant(
        Box::new(sym("A")),
        Box::new(Expr::TypedVariant(Box::new(sym("B")), Box::new(sym("C")))),
    );
    assert_eq!(emitter().emit_type(&chain), "A | variant<B, C>");
    assert_eq!(
        emitter().emit_variant(&sym("A"), &Expr::TypedVariant(Box::new(sym("B")), Box::new(sym("C")))),
        "A | variant<B, C>"
    );
    assert_eq!(emitter().emit_variant(&sym("A"), &sym("B")), "variant<A, B>");
}

#[test]
fn parsed_variant_chain_renders_the_same() {
    let tree = program("let x: |A|B|C| = 1").unwrap();
    let out = emitter().emit_program(&tree, "m");
    assert!(out.contains("A | variant<B, C> x = 1;\n"), "{}", out);
}

#[test]
fn types() {
    let e = emitter();
    assert_eq!(e.emit_type(&sym("int")), "int");
    assert_eq!(e.emit_type(&Expr::TypedOptional(Box::new(sym("int")))), "optional<int>");
    assert_eq!(e.emit_type(&Expr::TypedLiteral(Box::new(Expr::Int(3)))), "decltype(3)");
    assert_eq!(
        e.emit_type(&Expr::TypedMember(Box::new(Expr::Member(vec![var("a"), var("b"), var("c")])))),
        "a::b::c"
    );
    assert_eq!(
        e.emit_type(&Expr::TypedUnary(Box::new(Expr::Unary(Box::new(sym("T")), UnaryOp::Ref)))),
        "T&"
    );
    assert_eq!(
        e.emit_type(&Expr::TypedUnary(Box::new(Expr::Unary(Box::new(sym("T")), UnaryOp::Deref)))),
        "T*"
    );
    assert_eq!(e.emit_type(&Expr::TypedUnary(Box::new(var("x")))), "");
    assert_eq!(
        e.emit_type(&Expr::TypedSymbolGeneric("vector".to_string(), vec![sym("int")])),
        "vector<int>"
    );
    assert_eq!(e.emit_type(&Expr::TypedSymbolGeneric("vector".to_string(), vec![])), "vector");
    assert_eq!(
        e.emit_type(&Expr::TypedFn(Box::new(Expr::Fn(
            vec![("a".to_string(), Some(sym("int"))), ("b".to_string(), None)],
            vec![sym("bool")],
        )))),
        "std::function<bool(int, void)>"
    );
    assert_eq!(e.emit_type(&Expr::TypedFn(Box::new(Expr::Fn(vec![], vec![])))), "");
    assert_eq!(e.emit_type(&Expr::Int(1)), "");
}

#[test]
fn function_returns_a_trailing_value() {
    let function = Expr::Let(
        "f".to_string(),
        Box::new(Expr::Fn(
            vec![],
            vec![Expr::Assign(Box::new(var("x")), Box::new(Expr::Int(1))), Expr::Int(7)],
        )),
    );
    assert_eq!(statement(&function), "\nauto f() {\n  x = 1;\n  return 7;\n}\n");
}

#[test]
fn function_with_trailing_assignment_returns_nothing() {
    let function = Expr::Let(
        "f".to_string(),
        Box::new(Expr::Fn(
            vec![("a".to_string(), Some(sym("int"))), ("b".to_string(), None)],
            vec![Expr::Int(7), Expr::Assign(Box::new(var("x")), Box::new(Expr::Int(1)))],
        )),
    );
    let out = statement(&function);
    assert_eq!(out, "\nauto f(int a, auto b) {\n  7;\n  x = 1;\n}\n");
    assert!(!out.contains("return"));
}

#[test]
fn function_with_empty_body() {
    let function = Expr::Let("f".to_string(), Box::new(Expr::Fn(vec![], vec![])));
    assert_eq!(statement(&function), "\nauto f() {\n}\n");
}

#[test]
fn typed_function_and_typed_binding() {
    let function = Expr::TypedLet(
        "f".to_string(),
        Box::new(sym("int")),
        Box::new(Expr::Fn(vec![], vec![var("x")])),
    );
    assert_eq!(statement(&function), "\nint f() {\n  return x;\n}\n");
    let binding = Expr::TypedLet("x".to_string(), Box::new(sym("int")), Box::new(Expr::Int(1)));
    assert_eq!(statement_at(2, &binding), "  int x = 1;\n");
}

#[test]
fn struct_method_follows_the_same_return_rule() {
    let class = Expr::Struct(
        "P".to_string(),
        vec![
            ("x".to_string(), sym("int")),
            ("get".to_string(), Expr::Fn(vec![], vec![var("x")])),
            ("set".to_string(), Expr::Fn(
                vec![("v".to_string(), None)],
                vec![Expr::Assign(Box::new(var("x")), Box::new(var("v")))],
            )),
            ("odd".to_string(), Expr::Int(1)),
        ],
    );
    assert_eq!(
        statement(&class),
        "\nclass P {\npublic:\n  int x;\n  auto get() {\n    return x;\n  }\n  auto set(auto v) {\n    x = v;\n  }\n};\n"
    );
}

#[test]
fn conditional_with_and_without_else() {
    let plain = Expr::If(Box::new(var("c")), vec![Expr::Assign(Box::new(var("x")), Box::new(Expr::Int(1)))], None);
    assert_eq!(statement(&plain), "if (c) {\n  x = 1;\n}\n");
    let both = Expr::If(
        Box::new(var("c")),
        vec![var("a")],
        Some(vec![var("b")]),
    );
    assert_eq!(statement_at(2, &both), "  if (c) {\n    a;\n  }\n  else {\n    b;\n  }\n");
}

#[test]
fn loop_over_a_name() {
    let l = Expr::Loop(Box::new(var("i")), Box::new(var("xs")), vec![var("i")]);
    assert_eq!(statement(&l), "\nfor (auto i : xs) {\n  i;\n}\n");
}

#[test]
fn destructuring_loop_binds_in_square_brackets() {
    let tree = program("for [a, b] in xs y = a end").unwrap();
    let out = emitter().emit_program(&tree, "m");
    assert!(out.contains("\nfor (auto [a, b] : xs) {\n  y = a;\n}\n"), "{}", out);
    assert!(!out.contains("{a, b}"), "{}", out);
}

#[test]
fn match_dispatches_on_the_held_alternative() {
    let m = Expr::Match(
        Box::new(var("v")),
        vec![
            ("A".to_string(), vec![var("x")]),
            ("B".to_string(), vec![]),
        ],
    );
    assert_eq!(
        statement(&m),
        "std::visit([](auto&& _) {\n  using T = std::decay_t<decltype(_)>;\n  if constexpr (std::is_same_v<T, A>) {\n    x;\n  }\n  if constexpr (std::is_same_v<T, B>) {\n  }\n  }, v);\n"
    );
}

#[test]
fn type_aliases() {
    let plain = Expr::TypeAlias("T".to_string(), vec![], Box::new(sym("int")));
    assert_eq!(statement(&plain), "using T = int;\n");
    let generic = Expr::TypeAlias(
        "T".to_string(),
        vec![sym("A"), sym("B")],
        Box::new(Expr::TypedOptional(Box::new(sym("A")))),
    );
    assert_eq!(statement(&generic), "template<typename A, typename B> using T = optional<A>;\n");
    let record = Expr::TypeAlias(
        "R".to_string(),
        vec![],
        Box::new(Expr::TypedRecord(Box::new(Expr::Record(vec![
            vec![var("a"), sym("int")],
            vec![var("odd")],
            vec![Expr::Int(1), sym("bool")],
        ])))),
    );
    assert_eq!(statement(&record), "struct R {\n  using a = int;\n  using 1 = bool;\n};\n");
    let no_record = Expr::TypeAlias("R".to_string(), vec![], Box::new(Expr::TypedRecord(Box::new(Expr::Pass))));
    assert_eq!(statement(&no_record), "");
}

#[test]
fn nested_qualifiers_keep_their_order() {
    let tree = program("@const @static 5").unwrap();
    let out = emitter().emit_program(&tree, "m");
    assert!(out.contains("constexpr static 5;\n"), "{}", out);
    let directive = Expr::Directive(
        Box::new(var("const")),
        Box::new(Expr::Directive(Box::new(var("static")), Box::new(Expr::Int(5)))),
    );
    assert_eq!(emitter().emit_value(&directive), "constexpr static 5");
    assert_eq!(statement(&directive), "constexpr static 5;\n");
    let bound = program("let x = @const @static 5").unwrap();
    let text = emitter().emit_program(&bound, "m");
    assert!(text.contains("auto x = constexpr static 5;\n"), "{}", text);
    let three = program("@inline @const @static f(1)").unwrap();
    let text = emitter().emit_program(&three, "m");
    assert!(text.contains("inline constexpr static f(1);\n"), "{}", text);
}

#[test]
fn qualifier_on_a_value_and_on_a_statement() {
    let on_value = Expr::Directive(Box::new(var("inline")), Box::new(Expr::Int(5)));
    assert_eq!(emitter().emit_value(&on_value), "inline 5");
    assert_eq!(statement(&on_value), "inline 5;\n");
    let on_statement = Expr::Directive(
        Box::new(var("static")),
        Box::new(Expr::Let("x".to_string(), Box::new(Expr::Int(1)))),
    );
    assert_eq!(statement(&on_statement), "static \nauto x = 1;\n");
    let nested = Expr::Directive(Box::new(var("const")), Box::new(on_statement));
    assert_eq!(statement(&nested), "constexpr static \nauto x = 1;\n");
    let around_unknown = Expr::Directive(
        Box::new(var("const")),
        Box::new(Expr::Directive(Box::new(var("frobnicate")), Box::new(Expr::Int(5)))),
    );
    assert_eq!(emitter().emit_value(&around_unknown), "constexpr ");
    assert_eq!(statement(&around_unknown), "constexpr \n");
}

#[test]
fn unknown_directive_writes_nothing() {
    let unknown = Expr::Directive(Box::new(var("frobnicate")), Box::new(Expr::Int(5)));
    assert_eq!(emitter().emit_value(&unknown), "");
    assert_eq!(statement(&unknown), "");
    let call = Expr::Directive(
        Box::new(Expr::Call(Box::new(var("frobnicate")), vec![var("a")])),
        Box::new(Expr::Int(5)),
    );
    assert_eq!(statement(&call), "");
}

fn extend(ident: &str, ty: &str, target: Expr) -> Expr {
    Expr::Directive(
        Box::new(Expr::Call(Box::new(var("extend")), vec![var(ident), var(ty)])),
        Box::new(target),
    )
}

#[test]
fn extend_constrains_the_alias() {
    let alias = Expr::TypeAlias("Id".to_string(), vec![sym("T")], Box::new(sym("T")));
    assert_eq!(
        statement(&extend("T", "int", alias)),
        "template<typename T> using Id = std::enable_if_t<std::is_same<T, int>::value, T>;\n"
    );
}

#[test]
fn extend_leaves_another_right_hand_side() {
    let alias = Expr::TypeAlias("Id".to_string(), vec![sym("T")], Box::new(sym("U")));
    assert_eq!(statement(&extend("T", "int", alias)), "template<typename T> using Id = U;\n");
}

#[test]
fn extend_reaches_through_directives_and_skips_other_targets() {
    let alias = Expr::TypeAlias("Id".to_string(), vec![], Box::new(sym("T")));
    let wrapped = Expr::Directive(Box::new(var("const")), Box::new(alias));
    assert_eq!(
        statement(&extend("T", "int", wrapped)),
        "using Id = std::enable_if_t<std::is_same<T, int>::value, T>;\n"
    );
    assert_eq!(statement(&extend("T", "int", Expr::Int(1))), "");
    let mut ctx = EmitContextImpl::new();
    emitter().emit_extend(&mut ctx, "T", "int", &Expr::Int(1));
    assert_eq!(ctx.output, "");
}

#[test]
fn other_kinds_fall_through_to_a_value_statement() {
    assert_eq!(statement(&Expr::Call(Box::new(var("f")), vec![])), "f();\n");
    assert_eq!(statement(&Expr::Pass), ";\n");
    assert_eq!(statement(&sym("T")), ";\n");
}

#[test]
fn program_with_prelude() {
    let mut e = emitter();
    e.ctx.use_prelude = true;
    let out = e.emit_program(&Expr::Program(vec![]), "m");
    assert_eq!(
        out,
        format!("{}\nusing namespace std;\n\nnamespace m {{\n}} // namespace m\n\n{}", PRELUDE, ENTRY)
    );
}

#[test]
fn emission_is_a_function_of_tree_and_configuration() {
    let tree = program("let f = |a| if a gt 1 then a else 1 end end\nlet y = f(2)").unwrap();
    let first = emitter().emit_program(&tree, "m");
    let second = emitter().emit_program(&tree, "m");
    assert_eq!(first, second);
    let mut e = emitter();
    let a = e.emit_program(&tree, "m");
    let b = e.emit_program(&tree, "m");
    assert_eq!(a, b);
    assert_eq!(a, first);
}

#[test]
fn destructuring_loop_over_a_placeholder() {
    let tree = program("for [a, b] in xs pass end").unwrap();
    assert_eq!(
        tree,
        Expr::Program(vec![Box::new(Expr::Loop(
            Box::new(Expr::List(vec![var("a"), var("b")])),
            Box::new(var("xs")),
            vec![Expr::Pass],
        ))])
    );
    let out = emitter().emit_program(&tree, "m");
    assert!(out.contains("\nfor (auto [a, b] : xs) {\n  ;\n}\n"), "{}", out);
    assert!(!out.contains("{a, b}"), "{}", out);
}
