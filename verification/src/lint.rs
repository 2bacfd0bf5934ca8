//! Warnings about what the emitter leaves out: the directives that it does
//! not know, found by a walk over the tree.

use vstd::prelude::*;
use crate::ast::{node_of, Expr, Node};
use crate::emit::{qualifier_str, string_views, EmitContextImpl, EmitDefault};
use crate::render::{extend_args, qualifier, value_text};
use crate::visit::{preorder, ran, walk, NodeCallback};

verus! {

/// Whether the emitter knows a directive: a qualifier by its name, or
/// `extend` with two names.
pub open spec fn is_known_directive(directive: Node) -> bool {
    extend_args(directive) is Some || match directive {
        Node::Var(name) => qualifier(name) is Some,
        _ => false,
    }
}

/// The text of the directive of `node` if `node` is a directive that the
/// emitter does not know, and nothing otherwise.
pub open spec fn unknown_directive(node: Node) -> Seq<Seq<char>> {
    match node {
        Node::Directive(directive, _) => if is_known_directive(*directive) {
            Seq::empty()
        } else {
            seq![value_text(*directive)]
        },
        _ => Seq::empty(),
    }
}

/// The texts of the directives among `nodes` that the emitter does not
/// know, in the order of the nodes.
pub open spec fn unknown_directives(nodes: Seq<Node>) -> Seq<Seq<char>>
    decreases nodes.len(),
{
    if nodes.len() == 0 {
        Seq::empty()
    } else {
        unknown_directives(nodes.drop_last()) + unknown_directive(nodes.last())
    }
}

/// Whether the emitter knows a directive.
pub fn knows_directive(directive: &Expr) -> (known: bool)
    ensures
        known == is_known_directive(directive@),
{
    let emitter = EmitDefault { ctx: EmitContextImpl::new() };
    match emitter.extend_names(directive) {
        Some(_) => true,
        None => match directive {
            Expr::Var(name) => qualifier_str(name.as_str()).is_some(),
            _ => false,
        },
    }
}

/// A callback that collects the texts of the directives that the emitter
/// does not know.
pub struct UnknownDirectives {
    pub found: Vec<String>,
}

impl<C> NodeCallback<C> for UnknownDirectives {
    open spec fn step(before: (Self, C), node: Node, after: (Self, C)) -> bool {
        &&& after.1 == before.1
        &&& string_views(after.0.found@) == string_views(before.0.found@) + unknown_directive(
            node,
        )
    }

    fn call(&mut self, ctx: &mut C, node: &Expr) {
        let ghost before = string_views(self.found@);
        match node {
            Expr::Directive(directive, _) => {
                if !knows_directive(directive) {
                    let emitter = EmitDefault { ctx: EmitContextImpl::new() };
                    let text = emitter.emit_value(directive);
                    self.found.push(text);
                    assert(string_views(self.found@) =~= before + seq![text@]);
                } else {
                    assert(string_views(self.found@) =~= before + Seq::<Seq<char>>::empty());
                }
            },
            _ => {
                assert(string_views(self.found@) =~= before + Seq::<Seq<char>>::empty());
            },
        }
    }
}

/// What the collector has found after calls on `nodes` is what it had
/// found before and the unknown directives among `nodes`.
pub proof fn lemma_collected<C>(
    before: (UnknownDirectives, C),
    nodes: Seq<Node>,
    after: (UnknownDirectives, C),
)
    requires
        ran(before, nodes, after),
    ensures
        after.1 == before.1,
        string_views(after.0.found@) == string_views(before.0.found@) + unknown_directives(nodes),
    decreases nodes.len(),
{
    if nodes.len() == 0 {
        assert(string_views(before.0.found@) + unknown_directives(nodes) =~= string_views(
            before.0.found@,
        ));
    } else {
        let mid = choose|mid: (UnknownDirectives, C)|
            ran(before, nodes.drop_last(), mid) && #[trigger] UnknownDirectives::step(
                mid,
                nodes.last(),
                after,
            );
        lemma_collected(before, nodes.drop_last(), mid);
        assert(string_views(after.0.found@) =~= string_views(before.0.found@)
            + unknown_directives(nodes));
    }
}

/// The texts of the directives in a tree that the emitter does not know
/// and therefore writes nothing for, in preorder.
pub fn find_unknown_directives(expr: &Expr) -> (found: Vec<String>)
    ensures
        string_views(found@) == unknown_directives(preorder(expr@)),
{
    let mut collector = UnknownDirectives { found: Vec::new() };
    let mut ctx = ();
    let ghost before = (collector, ctx);
    walk(expr, &mut ctx, &mut collector);
    proof {
        lemma_collected(before, preorder(expr@), (collector, ctx));
        assert(string_views(before.0.found@) =~= Seq::<Seq<char>>::empty());
        assert(string_views(collector.found@) =~= unknown_directives(preorder(expr@)));
    }
    collector.found
}

} // verus!
