//! A preorder walk over the syntax tree that calls back on every node.

use vstd::prelude::*;
use crate::ast::{
    boxed_nodes_of, cases_of, entries_of, node_of, nodes_of, param_of, params_of, records_of,
    Expr, Node,
};
use crate::emit::EmitContextImpl;

verus! {

/// A context that a walk hands to its callback.
pub trait EsperContext {
    /// A fresh context.
    fn new() -> Self where Self: Sized;
}

impl EsperContext for EmitContextImpl {
    /// The empty context at level 0, without prelude.
    fn new() -> (ctx: Self)
        ensures
            ctx.level == 0,
            ctx.output@ == Seq::<char>::empty(),
            ctx.module_id@ == Seq::<char>::empty(),
            !ctx.use_prelude,
    {
        EmitContextImpl::new()
    }
}

/// What a walk calls on every node. `step` says what one call may make of
/// the callback and the context; an implementation that says nothing
/// promises nothing.
pub trait NodeCallback<C>: Sized {
    /// Whether a call on `node` can lead from the callback and the context
    /// `before` to the callback and the context `after`.
    open spec fn step(before: (Self, C), node: Node, after: (Self, C)) -> bool {
        true
    }

    /// One call, on one node.
    fn call(&mut self, ctx: &mut C, node: &Expr)
        ensures
            Self::step((*old(self), *old(ctx)), node@, (*final(self), *final(ctx))),
    ;
}

/// A callback that counts the nodes it is called on, up to `usize::MAX`.
pub struct NodeCount {
    pub count: usize,
}

impl<C> NodeCallback<C> for NodeCount {
    open spec fn step(before: (Self, C), node: Node, after: (Self, C)) -> bool {
        &&& after.1 == before.1
        &&& after.0.count == if before.0.count < usize::MAX {
            (before.0.count + 1) as usize
        } else {
            before.0.count
        }
    }

    fn call(&mut self, ctx: &mut C, node: &Expr) {
        if self.count < usize::MAX {
            self.count += 1;
        }
    }
}

/// The nodes of a tree in preorder: the node itself, then its children from
/// left to right, each with all that is below it.
pub open spec fn preorder(n: Node) -> Seq<Node>
    decreases n,
{
    seq![n] + match n {
        Node::Program(items) => preorder_all(items),
        Node::Let(_, value) => preorder(*value),
        Node::Assign(target, value) => preorder(*target) + preorder(*value),
        Node::List(items) => preorder_all(items),
        Node::Record(rows) => preorder_rows(rows),
        Node::Range(start, end) => preorder(*start) + preorder(*end),
        Node::Directive(directive, target) => preorder(*directive) + preorder(*target),
        Node::Unary(operand, _) => preorder(*operand),
        Node::Bin(lhs, _, rhs) => preorder(*lhs) + preorder(*rhs),
        Node::Compare(lhs, _, rhs) => preorder(*lhs) + preorder(*rhs),
        Node::Bit(lhs, _, rhs) => preorder(*lhs) + preorder(*rhs),
        Node::If(cond, then_body, else_body) => preorder(*cond) + preorder_all(then_body)
            + match else_body {
            Some(body) => preorder_all(body),
            None => Seq::empty(),
        },
        Node::Loop(binding, iterable, body) => preorder(*binding) + preorder(*iterable)
            + preorder_all(body),
        Node::Match(scrutinee, cases) => preorder(*scrutinee) + preorder_cases(cases),
        Node::Fn(params, body) => preorder_params(params) + preorder_all(body),
        Node::Member(segments) => preorder_all(segments),
        Node::Call(callee, args) => preorder(*callee) + preorder_all(args),
        Node::Struct(_, entries) => preorder_entries(entries),
        Node::TypedFn(inner) => preorder(*inner),
        Node::TypedUnary(inner) => preorder(*inner),
        Node::TypedLiteral(inner) => preorder(*inner),
        Node::TypedMember(inner) => preorder(*inner),
        Node::TypedRecord(inner) => preorder(*inner),
        Node::TypedOptional(inner) => preorder(*inner),
        Node::TypedSymbolGeneric(_, args) => preorder_all(args),
        Node::TypedVariant(lhs, rhs) => preorder(*lhs) + preorder(*rhs),
        Node::TypedLet(_, ty, value) => preorder(*ty) + preorder(*value),
        Node::TypeAlias(_, params, rhs) => preorder_all(params) + preorder(*rhs),
        Node::TypedCall(callee, generics, args) => preorder(*callee) + preorder_all(generics)
            + preorder_all(args),
        _ => Seq::empty(),
    }
}

/// The preorders of the items, one after the other.
pub open spec fn preorder_all(items: Seq<Node>) -> Seq<Node>
    decreases items,
{
    if items.len() == 0 {
        Seq::empty()
    } else {
        preorder_all(items.drop_last()) + preorder(items.last())
    }
}

/// The preorders of the entries of a record, row by row.
pub open spec fn preorder_rows(rows: Seq<Seq<Node>>) -> Seq<Node>
    decreases rows,
{
    if rows.len() == 0 {
        Seq::empty()
    } else {
        preorder_rows(rows.drop_last()) + preorder_all(rows.last())
    }
}

/// The preorders of the bodies of the cases of a match.
pub open spec fn preorder_cases(cases: Seq<(Seq<char>, Seq<Node>)>) -> Seq<Node>
    decreases cases,
{
    if cases.len() == 0 {
        Seq::empty()
    } else {
        preorder_cases(cases.drop_last()) + preorder_all(cases.last().1)
    }
}

/// The preorders of the types that the parameters of a function carry.
pub open spec fn preorder_params(params: Seq<(Seq<char>, Option<Node>)>) -> Seq<Node>
    decreases params,
{
    if params.len() == 0 {
        Seq::empty()
    } else {
        preorder_params(params.drop_last()) + match params.last().1 {
            Some(ty) => preorder(ty),
            None => Seq::empty(),
        }
    }
}

/// The preorders of the members of a struct.
pub open spec fn preorder_entries(entries: Seq<(Seq<char>, Node)>) -> Seq<Node>
    decreases entries,
{
    if entries.len() == 0 {
        Seq::empty()
    } else {
        preorder_entries(entries.drop_last()) + preorder(entries.last().1)
    }
}

/// Whether one call on each of `nodes`, in order, can lead from the
/// callback and the context `before` to the callback and the context `after`.
pub open spec fn ran<C, F: NodeCallback<C>>(before: (F, C), nodes: Seq<Node>, after: (F, C)) -> bool
    decreases nodes.len(),
{
    if nodes.len() == 0 {
        after == before
    } else {
        exists|mid: (F, C)|
            ran(before, nodes.drop_last(), mid) && #[trigger] F::step(mid, nodes.last(), after)
    }
}

/// Calls on `a` and then calls on `b` are calls on `a + b`.
pub proof fn lemma_ran_concat<C, F: NodeCallback<C>>(
    before: (F, C),
    a: Seq<Node>,
    between: (F, C),
    b: Seq<Node>,
    after: (F, C),
)
    requires
        ran(before, a, between),
        ran(between, b, after),
    ensures
        ran(before, a + b, after),
    decreases b.len(),
{
    if b.len() == 0 {
        assert(a + b =~= a);
    } else {
        let mid = choose|mid: (F, C)|
            ran(between, b.drop_last(), mid) && #[trigger] F::step(mid, b.last(), after);
        lemma_ran_concat(before, a, between, b.drop_last(), mid);
        assert((a + b).drop_last() =~= a + b.drop_last());
        assert((a + b).last() == b.last());
        assert(F::step(mid, (a + b).last(), after));
    }
}

/// One call is calls on one node.
pub proof fn lemma_ran_one<C, F: NodeCallback<C>>(before: (F, C), node: Node, after: (F, C))
    requires
        F::step(before, node, after),
    ensures
        ran(before, seq![node], after),
{
    assert(seq![node].drop_last() =~= Seq::<Node>::empty());
    assert(seq![node].last() == node);
    assert(ran(before, seq![node].drop_last(), before));
    assert(F::step(before, seq![node].last(), after));
}

/// Calls `callback` on `expr` and on every node below it, in preorder.
#[verifier::spinoff_prover]
#[verifier::rlimit(60)]
pub fn walk<C, F: NodeCallback<C>>(expr: &Expr, ctx: &mut C, callback: &mut F)
    ensures
        ran((*old(callback), *old(ctx)), preorder(expr@), (*final(callback), *final(ctx))),
    decreases expr,
{
    let ghost start = (*callback, *ctx);
    callback.call(ctx, expr);
    let ghost mut seen = seq![expr@];
    proof {
        lemma_ran_one(start, expr@, (*callback, *ctx));
    }
    match expr {
        Expr::Program(items) => {
            let ghost before = (*callback, *ctx);
            walk_boxed(items, ctx, callback);
            proof {
                lemma_ran_concat(
                    start,
                    seen,
                    before,
                    preorder_all(boxed_nodes_of(items@)),
                    (*callback, *ctx),
                );
                seen = seen + preorder_all(boxed_nodes_of(items@));
            }
            assert(seen =~= preorder(expr@));
        },
        Expr::Let(_, value) => {
            let ghost before = (*callback, *ctx);
            walk(value, ctx, callback);
            proof {
                lemma_ran_concat(
                    start,
                    seen,
                    before,
                    preorder(node_of(**value)),
                    (*callback, *ctx),
                );
                seen = seen + preorder(node_of(**value));
            }
            assert(seen =~= preorder(expr@));
        },
        Expr::Assign(target, value) => {
            let ghost before1 = (*callback, *ctx);
            walk(target, ctx, callback);
            proof {
                lemma_ran_concat(
                    start,
                    seen,
                    before1,
                    preorder(node_of(**target)),
                    (*callback, *ctx),
                );
                seen = seen + preorder(node_of(**target));
            }
            let ghost before2 = (*callback, *ctx);
            walk(value, ctx, callback);
            proof {
                lemma_ran_concat(
                    start,
                    seen,
                    before2,
                    preorder(node_of(**value)),
                    (*callback, *ctx),
                );
                seen = seen + preorder(node_of(**value));
            }
            assert(seen =~= preorder(expr@));
        },
        Expr::List(items) => {
            let ghost before = (*callback, *ctx);
            walk_all(items, ctx, callback);
            proof {
                lemma_ran_concat(
                    start,
                    seen,
                    before,
                    preorder_all(nodes_of(items@)),
                    (*callback, *ctx),
                );
                seen = seen + preorder_all(nodes_of(items@));
            }
            assert(seen =~= preorder(expr@));
        },
        Expr::Record(rows) => {
            let ghost before = (*callback, *ctx);
            walk_rows(rows, ctx, callback);
            proof {
                lemma_ran_concat(
                    start,
                    seen,
                    before,
                    preorder_rows(records_of(rows@)),
                    (*callback, *ctx),
                );
                seen = seen + preorder_rows(records_of(rows@));
            }
            assert(seen =~= preorder(expr@));
        },
        Expr::Range(lower, upper) => {
            let ghost before1 = (*callback, *ctx);
            walk(lower, ctx, callback);
            proof {
                lemma_ran_concat(
                    start,
                    seen,
                    before1,
                    preorder(node_of(**lower)),
                    (*callback, *ctx),
                );
                seen = seen + preorder(node_of(**lower));
            }
            let ghost before2 = (*callback, *ctx);
            walk(upper, ctx, callback);
            proof {
                lemma_ran_concat(
                    start,
                    seen,
                    before2,
                    preorder(node_of(**upper)),
                    (*callback, *ctx),
                );
                seen = seen + preorder(node_of(**upper));
            }
            assert(seen =~= preorder(expr@));
        },
        Expr::Directive(directive, target) => {
            let ghost before1 = (*callback, *ctx);
            walk(directive, ctx, callback);
            proof {
                lemma_ran_concat(
                    start,
                    seen,
                    before1,
                    preorder(node_of(**directive)),
                    (*callback, *ctx),
                );
                seen = seen + preorder(node_of(**directive));
            }
            let ghost before2 = (*callback, *ctx);
            walk(target, ctx, callback);
            proof {
                lemma_ran_concat(
                    start,
                    seen,
                    before2,
                    preorder(node_of(**target)),
                    (*callback, *ctx),
                );
                seen = seen + preorder(node_of(**target));
            }
            assert(seen =~= preorder(expr@));
        },
        Expr::Unary(operand, _) => {
            let ghost before = (*callback, *ctx);
            walk(operand, ctx, callback);
            proof {
                lemma_ran_concat(
                    start,
                    seen,
                    before,
                    preorder(node_of(**operand)),
                    (*callback, *ctx),
                );
                seen = seen + preorder(node_of(**operand));
            }
            assert(seen =~= preorder(expr@));
        },
        Expr::Bin(lhs, _, rhs) => {
            let ghost before1 = (*callback, *ctx);
            walk(lhs, ctx, callback);
            proof {
                lemma_ran_concat(start, seen, before1, preorder(node_of(**lhs)), (*callback, *ctx));
                seen = seen + preorder(node_of(**lhs));
            }
            let ghost before2 = (*callback, *ctx);
            walk(rhs, ctx, callback);
            proof {
                lemma_ran_concat(start, seen, before2, preorder(node_of(**rhs)), (*callback, *ctx));
                seen = seen + preorder(node_of(**rhs));
            }
            assert(seen =~= preorder(expr@));
        },
        Expr::Compare(lhs, _, rhs) => {
            let ghost before1 = (*callback, *ctx);
            walk(lhs, ctx, callback);
            proof {
                lemma_ran_concat(start, seen, before1, preorder(node_of(**lhs)), (*callback, *ctx));
                seen = seen + preorder(node_of(**lhs));
            }
            let ghost before2 = (*callback, *ctx);
            walk(rhs, ctx, callback);
            proof {
                lemma_ran_concat(start, seen, before2, preorder(node_of(**rhs)), (*callback, *ctx));
                seen = seen + preorder(node_of(**rhs));
            }
            assert(seen =~= preorder(expr@));
        },
        Expr::Bit(lhs, _, rhs) => {
            let ghost before1 = (*callback, *ctx);
            walk(lhs, ctx, callback);
            proof {
                lemma_ran_concat(start, seen, before1, preorder(node_of(**lhs)), (*callback, *ctx));
                seen = seen + preorder(node_of(**lhs));
            }
            let ghost before2 = (*callback, *ctx);
            walk(rhs, ctx, callback);
            proof {
                lemma_ran_concat(start, seen, before2, preorder(node_of(**rhs)), (*callback, *ctx));
                seen = seen + preorder(node_of(**rhs));
            }
            assert(seen =~= preorder(expr@));
        },
        Expr::If(cond, then_body, else_body) => {
            let ghost before1 = (*callback, *ctx);
            walk(cond, ctx, callback);
            proof {
                lemma_ran_concat(
                    start,
                    seen,
                    before1,
                    preorder(node_of(**cond)),
                    (*callback, *ctx),
                );
                seen = seen + preorder(node_of(**cond));
            }
            let ghost before2 = (*callback, *ctx);
            walk_all(then_body, ctx, callback);
            proof {
                lemma_ran_concat(
                    start,
                    seen,
                    before2,
                    preorder_all(nodes_of(then_body@)),
                    (*callback, *ctx),
                );
                seen = seen + preorder_all(nodes_of(then_body@));
            }
            match else_body {
                Some(body) => {
                    let ghost before3 = (*callback, *ctx);
                    walk_all(body, ctx, callback);
                    proof {
                        lemma_ran_concat(
                            start,
                            seen,
                            before3,
                            preorder_all(nodes_of(body@)),
                            (*callback, *ctx),
                        );
                        seen = seen + preorder_all(nodes_of(body@));
                    }
                },
                None => {},
            }
            assert(seen =~= preorder(expr@));
        },
        Expr::Loop(binding, iterable, body) => {
            let ghost before1 = (*callback, *ctx);
            walk(binding, ctx, callback);
            proof {
                lemma_ran_concat(
                    start,
                    seen,
                    before1,
                    preorder(node_of(**binding)),
                    (*callback, *ctx),
                );
                seen = seen + preorder(node_of(**binding));
            }
            let ghost before2 = (*callback, *ctx);
            walk(iterable, ctx, callback);
            proof {
                lemma_ran_concat(
                    start,
                    seen,
                    before2,
                    preorder(node_of(**iterable)),
                    (*callback, *ctx),
                );
                seen = seen + preorder(node_of(**iterable));
            }
            let ghost before3 = (*callback, *ctx);
            walk_all(body, ctx, callback);
            proof {
                lemma_ran_concat(
                    start,
                    seen,
                    before3,
                    preorder_all(nodes_of(body@)),
                    (*callback, *ctx),
                );
                seen = seen + preorder_all(nodes_of(body@));
            }
            assert(seen =~= preorder(expr@));
        },
        Expr::Match(scrutinee, cases) => {
            let ghost before1 = (*callback, *ctx);
            walk(scrutinee, ctx, callback);
            proof {
                lemma_ran_concat(
                    start,
                    seen,
                    before1,
                    preorder(node_of(**scrutinee)),
                    (*callback, *ctx),
                );
                seen = seen + preorder(node_of(**scrutinee));
            }
            let ghost before2 = (*callback, *ctx);
            walk_cases(cases, ctx, callback);
            proof {
                lemma_ran_concat(
                    start,
                    seen,
                    before2,
                    preorder_cases(cases_of(cases@)),
                    (*callback, *ctx),
                );
                seen = seen + preorder_cases(cases_of(cases@));
            }
            assert(seen =~= preorder(expr@));
        },
        Expr::Fn(params, body) => {
            let ghost before1 = (*callback, *ctx);
            walk_params(params, ctx, callback);
            proof {
                lemma_ran_concat(
                    start,
                    seen,
                    before1,
                    preorder_params(params_of(params@)),
                    (*callback, *ctx),
                );
                seen = seen + preorder_params(params_of(params@));
            }
            let ghost before2 = (*callback, *ctx);
            walk_all(body, ctx, callback);
            proof {
                lemma_ran_concat(
                    start,
                    seen,
                    before2,
                    preorder_all(nodes_of(body@)),
                    (*callback, *ctx),
                );
                seen = seen + preorder_all(nodes_of(body@));
            }
            assert(seen =~= preorder(expr@));
        },
        Expr::Member(segments) => {
            let ghost before = (*callback, *ctx);
            walk_all(segments, ctx, callback);
            proof {
                lemma_ran_concat(
                    start,
                    seen,
                    before,
                    preorder_all(nodes_of(segments@)),
                    (*callback, *ctx),
                );
                seen = seen + preorder_all(nodes_of(segments@));
            }
            assert(seen =~= preorder(expr@));
        },
        Expr::Call(callee, args) => {
            let ghost before1 = (*callback, *ctx);
            walk(callee, ctx, callback);
            proof {
                lemma_ran_concat(
                    start,
                    seen,
                    before1,
                    preorder(node_of(**callee)),
                    (*callback, *ctx),
                );
                seen = seen + preorder(node_of(**callee));
            }
            let ghost before2 = (*callback, *ctx);
            walk_all(args, ctx, callback);
            proof {
                lemma_ran_concat(
                    start,
                    seen,
                    before2,
                    preorder_all(nodes_of(args@)),
                    (*callback, *ctx),
                );
                seen = seen + preorder_all(nodes_of(args@));
            }
            assert(seen =~= preorder(expr@));
        },
        Expr::Struct(_, entries) => {
            let ghost before = (*callback, *ctx);
            walk_entries(entries, ctx, callback);
            proof {
                lemma_ran_concat(
                    start,
                    seen,
                    before,
                    preorder_entries(entries_of(entries@)),
                    (*callback, *ctx),
                );
                seen = seen + preorder_entries(entries_of(entries@));
            }
            assert(seen =~= preorder(expr@));
        },
        Expr::TypedFn(inner) => {
            let ghost before = (*callback, *ctx);
            walk(inner, ctx, callback);
            proof {
                lemma_ran_concat(
                    start,
                    seen,
                    before,
                    preorder(node_of(**inner)),
                    (*callback, *ctx),
                );
                seen = seen + preorder(node_of(**inner));
            }
            assert(seen =~= preorder(expr@));
        },
        Expr::TypedUnary(inner) => {
            let ghost before = (*callback, *ctx);
            walk(inner, ctx, callback);
            proof {
                lemma_ran_concat(
                    start,
                    seen,
                    before,
                    preorder(node_of(**inner)),
                    (*callback, *ctx),
                );
                seen = seen + preorder(node_of(**inner));
            }
            assert(seen =~= preorder(expr@));
        },
        Expr::TypedLiteral(inner) => {
            let ghost before = (*callback, *ctx);
            walk(inner, ctx, callback);
            proof {
                lemma_ran_concat(
                    start,
                    seen,
                    before,
                    preorder(node_of(**inner)),
                    (*callback, *ctx),
                );
                seen = seen + preorder(node_of(**inner));
            }
            assert(seen =~= preorder(expr@));
        },
        Expr::TypedMember(inner) => {
            let ghost before = (*callback, *ctx);
            walk(inner, ctx, callback);
            proof {
                lemma_ran_concat(
                    start,
                    seen,
                    before,
                    preorder(node_of(**inner)),
                    (*callback, *ctx),
                );
                seen = seen + preorder(node_of(**inner));
            }
            assert(seen =~= preorder(expr@));
        },
        Expr::TypedRecord(inner) => {
            let ghost before = (*callback, *ctx);
            walk(inner, ctx, callback);
            proof {
                lemma_ran_concat(
                    start,
                    seen,
                    before,
                    preorder(node_of(**inner)),
                    (*callback, *ctx),
                );
                seen = seen + preorder(node_of(**inner));
            }
            assert(seen =~= preorder(expr@));
        },
        Expr::TypedOptional(inner) => {
            let ghost before = (*callback, *ctx);
            walk(inner, ctx, callback);
            proof {
                lemma_ran_concat(
                    start,
                    seen,
                    before,
                    preorder(node_of(**inner)),
                    (*callback, *ctx),
                );
                seen = seen + preorder(node_of(**inner));
            }
            assert(seen =~= preorder(expr@));
        },
        Expr::TypedSymbolGeneric(_, args) => {
            let ghost before = (*callback, *ctx);
            walk_all(args, ctx, callback);
            proof {
                lemma_ran_concat(
                    start,
                    seen,
                    before,
                    preorder_all(nodes_of(args@)),
                    (*callback, *ctx),
                );
                seen = seen + preorder_all(nodes_of(args@));
            }
            assert(seen =~= preorder(expr@));
        },
        Expr::TypedVariant(lhs, rhs) => {
            let ghost before1 = (*callback, *ctx);
            walk(lhs, ctx, callback);
            proof {
                lemma_ran_concat(start, seen, before1, preorder(node_of(**lhs)), (*callback, *ctx));
                seen = seen + preorder(node_of(**lhs));
            }
            let ghost before2 = (*callback, *ctx);
            walk(rhs, ctx, callback);
            proof {
                lemma_ran_concat(start, seen, before2, preorder(node_of(**rhs)), (*callback, *ctx));
                seen = seen + preorder(node_of(**rhs));
            }
            assert(seen =~= preorder(expr@));
        },
        Expr::TypedLet(_, ty, value) => {
            let ghost before1 = (*callback, *ctx);
            walk(ty, ctx, callback);
            proof {
                lemma_ran_concat(start, seen, before1, preorder(node_of(**ty)), (*callback, *ctx));
                seen = seen + preorder(node_of(**ty));
            }
            let ghost before2 = (*callback, *ctx);
            walk(value, ctx, callback);
            proof {
                lemma_ran_concat(
                    start,
                    seen,
                    before2,
                    preorder(node_of(**value)),
                    (*callback, *ctx),
                );
                seen = seen + preorder(node_of(**value));
            }
            assert(seen =~= preorder(expr@));
        },
        Expr::TypeAlias(_, params, rhs) => {
            let ghost before1 = (*callback, *ctx);
            walk_all(params, ctx, callback);
            proof {
                lemma_ran_concat(
                    start,
                    seen,
                    before1,
                    preorder_all(nodes_of(params@)),
                    (*callback, *ctx),
                );
                seen = seen + preorder_all(nodes_of(params@));
            }
            let ghost before2 = (*callback, *ctx);
            walk(rhs, ctx, callback);
            proof {
                lemma_ran_concat(start, seen, before2, preorder(node_of(**rhs)), (*callback, *ctx));
                seen = seen + preorder(node_of(**rhs));
            }
            assert(seen =~= preorder(expr@));
        },
        Expr::TypedCall(callee, generics, args) => {
            let ghost before1 = (*callback, *ctx);
            walk(callee, ctx, callback);
            proof {
                lemma_ran_concat(
                    start,
                    seen,
                    before1,
                    preorder(node_of(**callee)),
                    (*callback, *ctx),
                );
                seen = seen + preorder(node_of(**callee));
            }
            let ghost before2 = (*callback, *ctx);
            walk_all(generics, ctx, callback);
            proof {
                lemma_ran_concat(
                    start,
                    seen,
                    before2,
                    preorder_all(nodes_of(generics@)),
                    (*callback, *ctx),
                );
                seen = seen + preorder_all(nodes_of(generics@));
            }
            let ghost before3 = (*callback, *ctx);
            walk_all(args, ctx, callback);
            proof {
                lemma_ran_concat(
                    start,
                    seen,
                    before3,
                    preorder_all(nodes_of(args@)),
                    (*callback, *ctx),
                );
                seen = seen + preorder_all(nodes_of(args@));
            }
            assert(seen =~= preorder(expr@));
        },
        _ => {
            assert(seen =~= preorder(expr@));
        },
    }
}

/// Walks each item in order.
pub fn walk_all<C, F: NodeCallback<C>>(items: &Vec<Expr>, ctx: &mut C, callback: &mut F)
    ensures
        ran(
            (*old(callback), *old(ctx)),
            preorder_all(nodes_of(items@)),
            (*final(callback), *final(ctx)),
        ),
    decreases items,
{
    let ghost start = (*callback, *ctx);
    let ghost nodes = nodes_of(items@);
    let mut i: usize = 0;
    while i < items.len()
        invariant
            i <= items.len(),
            nodes == nodes_of(items@),
            ran(start, preorder_all(nodes.take(i as int)), (*callback, *ctx)),
        decreases items.len() - i,
    {
        proof {
            assert(nodes.take(i + 1).drop_last() =~= nodes.take(i as int));
            assert(nodes.take(i + 1).last() == nodes[i as int]);
        }
        let ghost before = (*callback, *ctx);
        walk(&items[i], ctx, callback);
        proof {
            lemma_ran_concat(
                start,
                preorder_all(nodes.take(i as int)),
                before,
                preorder(nodes[i as int]),
                (*callback, *ctx),
            );
        }
        i += 1;
    }
    assert(nodes.take(items.len() as int) =~= nodes);
}

/// Walks each statement of a program in order.
pub fn walk_boxed<C, F: NodeCallback<C>>(items: &Vec<Box<Expr>>, ctx: &mut C, callback: &mut F)
    ensures
        ran(
            (*old(callback), *old(ctx)),
            preorder_all(boxed_nodes_of(items@)),
            (*final(callback), *final(ctx)),
        ),
    decreases items,
{
    let ghost start = (*callback, *ctx);
    let ghost nodes = boxed_nodes_of(items@);
    let mut i: usize = 0;
    while i < items.len()
        invariant
            i <= items.len(),
            nodes == boxed_nodes_of(items@),
            ran(start, preorder_all(nodes.take(i as int)), (*callback, *ctx)),
        decreases items.len() - i,
    {
        proof {
            assert(nodes.take(i + 1).drop_last() =~= nodes.take(i as int));
            assert(nodes.take(i + 1).last() == nodes[i as int]);
        }
        let ghost before = (*callback, *ctx);
        walk(&items[i], ctx, callback);
        proof {
            lemma_ran_concat(
                start,
                preorder_all(nodes.take(i as int)),
                before,
                preorder(nodes[i as int]),
                (*callback, *ctx),
            );
        }
        i += 1;
    }
    assert(nodes.take(items.len() as int) =~= nodes);
}

/// Walks the entries of a record, row by row.
pub fn walk_rows<C, F: NodeCallback<C>>(items: &Vec<Vec<Expr>>, ctx: &mut C, callback: &mut F)
    ensures
        ran(
            (*old(callback), *old(ctx)),
            preorder_rows(records_of(items@)),
            (*final(callback), *final(ctx)),
        ),
    decreases items,
{
    let ghost start = (*callback, *ctx);
    let ghost nodes = records_of(items@);
    let mut i: usize = 0;
    while i < items.len()
        invariant
            i <= items.len(),
            nodes == records_of(items@),
            ran(start, preorder_rows(nodes.take(i as int)), (*callback, *ctx)),
        decreases items.len() - i,
    {
        proof {
            assert(nodes.take(i + 1).drop_last() =~= nodes.take(i as int));
            assert(nodes.take(i + 1).last() == nodes[i as int]);
        }
        let ghost before = (*callback, *ctx);
        walk_all(&items[i], ctx, callback);
        proof {
            lemma_ran_concat(
                start,
                preorder_rows(nodes.take(i as int)),
                before,
                preorder_all(nodes[i as int]),
                (*callback, *ctx),
            );
        }
        i += 1;
    }
    assert(nodes.take(items.len() as int) =~= nodes);
}

/// Walks the bodies of the cases of a match.
pub fn walk_cases<C, F: NodeCallback<C>>(
    items: &Vec<(String, Vec<Expr>)>,
    ctx: &mut C,
    callback: &mut F,
)
    ensures
        ran(
            (*old(callback), *old(ctx)),
            preorder_cases(cases_of(items@)),
            (*final(callback), *final(ctx)),
        ),
    decreases items,
{
    let ghost start = (*callback, *ctx);
    let ghost nodes = cases_of(items@);
    let mut i: usize = 0;
    while i < items.len()
        invariant
            i <= items.len(),
            nodes == cases_of(items@),
            ran(start, preorder_cases(nodes.take(i as int)), (*callback, *ctx)),
        decreases items.len() - i,
    {
        proof {
            assert(nodes.take(i + 1).drop_last() =~= nodes.take(i as int));
            assert(nodes.take(i + 1).last() == nodes[i as int]);
        }
        let ghost before = (*callback, *ctx);
        walk_all(&items[i].1, ctx, callback);
        proof {
            lemma_ran_concat(
                start,
                preorder_cases(nodes.take(i as int)),
                before,
                preorder_all(nodes[i as int].1),
                (*callback, *ctx),
            );
        }
        i += 1;
    }
    assert(nodes.take(items.len() as int) =~= nodes);
}

/// Walks the members of a struct.
pub fn walk_entries<C, F: NodeCallback<C>>(
    items: &Vec<(String, Expr)>,
    ctx: &mut C,
    callback: &mut F,
)
    ensures
        ran(
            (*old(callback), *old(ctx)),
            preorder_entries(entries_of(items@)),
            (*final(callback), *final(ctx)),
        ),
    decreases items,
{
    let ghost start = (*callback, *ctx);
    let ghost nodes = entries_of(items@);
    let mut i: usize = 0;
    while i < items.len()
        invariant
            i <= items.len(),
            nodes == entries_of(items@),
            ran(start, preorder_entries(nodes.take(i as int)), (*callback, *ctx)),
        decreases items.len() - i,
    {
        proof {
            assert(nodes.take(i + 1).drop_last() =~= nodes.take(i as int));
            assert(nodes.take(i + 1).last() == nodes[i as int]);
        }
        let ghost before = (*callback, *ctx);
        walk(&items[i].1, ctx, callback);
        proof {
            lemma_ran_concat(
                start,
                preorder_entries(nodes.take(i as int)),
                before,
                preorder(nodes[i as int].1),
                (*callback, *ctx),
            );
        }
        i += 1;
    }
    assert(nodes.take(items.len() as int) =~= nodes);
}

/// Walks the types that the parameters of a function carry.
pub fn walk_params<C, F: NodeCallback<C>>(
    items: &Vec<(String, Option<Expr>)>,
    ctx: &mut C,
    callback: &mut F,
)
    ensures
        ran(
            (*old(callback), *old(ctx)),
            preorder_params(params_of(items@)),
            (*final(callback), *final(ctx)),
        ),
    decreases items,
{
    let ghost start = (*callback, *ctx);
    let ghost nodes = params_of(items@);
    let mut i: usize = 0;
    while i < items.len()
        invariant
            i <= items.len(),
            nodes == params_of(items@),
            ran(start, preorder_params(nodes.take(i as int)), (*callback, *ctx)),
        decreases items.len() - i,
    {
        proof {
            assert(nodes.take(i + 1).drop_last() =~= nodes.take(i as int));
            assert(nodes.take(i + 1).last() == nodes[i as int]);
        }
        let ghost before = (*callback, *ctx);
        assert(nodes[i as int] == param_of(items@[i as int]));
        match &items[i].1 {
            Some(ty) => {
                walk(ty, ctx, callback);
                proof {
                    lemma_ran_concat(
                        start,
                        preorder_params(nodes.take(i as int)),
                        before,
                        preorder(node_of(*ty)),
                        (*callback, *ctx),
                    );
                }
            },
            None => {
                assert(preorder_params(nodes.take(i + 1)) =~= preorder_params(
                    nodes.take(i as int),
                ));
            },
        }
        i += 1;
    }
    assert(nodes.take(items.len() as int) =~= nodes);
}

/// A tree that can be walked.
pub trait Visitor {
    /// The nodes that a walk calls on, in order.
    spec fn visited(&self) -> Seq<Node>;

    /// Calls `callback` once on each node, in preorder, with `ctx`.
    fn visit<C: EsperContext, F: NodeCallback<C>>(&self, ctx: &mut C, callback: &mut F)
        ensures
            ran((*old(callback), *old(ctx)), self.visited(), (*final(callback), *final(ctx))),
    ;
}

impl Visitor for Expr {
    open spec fn visited(&self) -> Seq<Node> {
        preorder(self@)
    }

    fn visit<C: EsperContext, F: NodeCallback<C>>(&self, ctx: &mut C, callback: &mut F) {
        walk(self, ctx, callback)
    }
}

} // verus!
