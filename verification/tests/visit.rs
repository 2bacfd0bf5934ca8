use esper::ast::Expr;
use esper::emit::EmitContextImpl;
use esper::esper_parser::program;
use esper::visit::{walk, EsperContext, NodeCallback, Visitor};

struct Kinds {
    seen: Vec<String>,
}

fn kind(node: &Expr) -> String {
    let text = format!("{:?}", node);
    let end = text.find(|c: char| !c.is_alphanumeric()).unwrap_or(text.len());
    text[..end].to_string()
}

impl NodeCallback<EmitContextImpl> for Kinds {
    fn call(&mut self, ctx: &mut EmitContextImpl, node: &Expr) {
        ctx.level += 1;
        self.seen.push(kind(node));
    }
}

#[test]
fn walk_calls_on_every_node_in_preorder() {
    let tree = program("let x = f(1, a + 2)").unwrap();
    let mut ctx = <EmitContextImpl as EsperContext>::new();
    let mut kinds = Kinds { seen: vec![] };
    tree.visit(&mut ctx, &mut kinds);
    assert_eq!(kinds.seen, vec!["Program", "Let", "Call", "Var", "Int", "Bin", "Var", "Int"]);
    assert_eq!(ctx.level, 8);
}

#[test]
fn walk_reaches_types_parameters_and_cases() {
    let tree = Expr::Match(
        Box::new(Expr::Var("v".to_string())),
        vec![(
            "A".to_string(),
            vec![Expr::Let(
                "f".to_string(),
                Box::new(Expr::Fn(
                    vec![
                        ("a".to_string(), Some(Expr::TypedSymbol("int".to_string()))),
                        ("b".to_string(), None),
                    ],
                    vec![Expr::Pass],
                )),
            )],
        )],
    );
    let mut ctx = EmitContextImpl::new();
    let mut kinds = Kinds { seen: vec![] };
    walk(&tree, &mut ctx, &mut kinds);
    assert_eq!(kinds.seen, vec!["Match", "Var", "Let", "Fn", "TypedSymbol", "Pass"]);
}

#[test]
fn walk_on_a_leaf_calls_once() {
    let mut ctx = EmitContextImpl::new();
    let mut kinds = Kinds { seen: vec![] };
    Expr::Int(1).visit(&mut ctx, &mut kinds);
    assert_eq!(kinds.seen, vec!["Int"]);
}

#[test]
fn node_count_counts_every_node() {
    let tree = program("let x = f(1, a + 2)").unwrap();
    let mut ctx = EmitContextImpl::new();
    let mut counter = esper::visit::NodeCount { count: 0 };
    tree.visit(&mut ctx, &mut counter);
    assert_eq!(counter.count, 8);
    let mut full = esper::visit::NodeCount { count: usize::MAX };
    Expr::Int(1).visit(&mut ctx, &mut full);
    assert_eq!(full.count, usize::MAX);
}

#[test]
fn unknown_directives_are_found_in_preorder() {
    let tree = program(
        "@const let a = 1\n@frobnicate let b = 2\n@extend(T, int) type Id = T end\n@twist(x) f(@nope 3)",
    )
    .unwrap();
    assert_eq!(
        esper::lint::find_unknown_directives(&tree),
        vec!["frobnicate", "twist(x)", "nope"]
    );
    assert_eq!(esper::lint::find_unknown_directives(&Expr::Int(1)), Vec::<String>::new());
    assert!(esper::lint::knows_directive(&Expr::Var("inline".to_string())));
    assert!(!esper::lint::knows_directive(&Expr::Var("extend".to_string())));
}

#[test]
fn a_fresh_context_is_empty() {
    let ctx = <EmitContextImpl as EsperContext>::new();
    assert_eq!(ctx.level, 0);
    assert_eq!(ctx.output, "");
    assert_eq!(ctx.module_id, "");
    assert!(!ctx.use_prelude);
}
