//! What holds of the emitter for every tree, stated over the functions of
//! `render` and proved from their definitions.

use vstd::prelude::*;
use crate::ast::{Expr, Node};
use crate::parse_laws::loop_of_text;
use crate::render::{
    binding_text, block_text, body_text, extend_rewrite, extend_text, is_qualified, is_value_kind,
    line, qualified_text, qualifier, stmt_text, type_text, value_text, value_texts, Settings,
};
use crate::text::{int_text, join, spaces};

verus! {

/// The emitter is a function of the tree and the configuration: two trees
/// that stand for the same node, rendered at the same level under the same
/// configuration, give the same text, in statement, value and type position.
pub proof fn emission_is_a_function(
    a: Expr,
    b: Expr,
    level: nat,
    first: Settings,
    second: Settings,
)
    requires
        a@ == b@,
        first == second,
    ensures
        stmt_text(a@, level, first) == stmt_text(b@, level, second),
        value_text(a@) == value_text(b@),
        type_text(a@) == type_text(b@),
{
}

/// A function body whose last statement stands for a value ends with the
/// return of that value, after the other statements as plain statements. A
/// body whose last statement is of another kind, an assignment say, is its
/// statements and nothing more.
pub proof fn body_returns_a_trailing_value(body: Seq<Node>, level: nat, cfg: Settings)
    requires
        body.len() > 0,
    ensures
        is_value_kind(body.last()) ==> body_text(body, level, cfg) == block_text(
            body.drop_last(),
            level,
            cfg,
        ) + line(spaces(level) + "return "@ + value_text(body.last()) + ";"@),
        !is_value_kind(body.last()) ==> body_text(body, level, cfg) == block_text(
            body,
            level,
            cfg,
        ),
        body.last() is Assign ==> body_text(body, level, cfg) == block_text(body, level, cfg),
{
}

/// A chain of three alternatives is the first alternative, ` | `, and the
/// other two as `variant<.., ..>`.
pub proof fn variant_chain_of_three(a: Node, b: Node, c: Node)
    requires
        !(c is TypedVariant),
    ensures
        type_text(
            Node::TypedVariant(
                Box::new(a),
                Box::new(Node::TypedVariant(Box::new(b), Box::new(c))),
            ),
        ) == type_text(a) + " | "@ + ("variant<"@ + type_text(b) + ", "@ + type_text(c) + ">"@),
{
    reveal_with_fuel(type_text, 2);
}

/// A qualifier directive in value position is its keyword, a blank, and
/// its target in value position, whatever the target is: another qualifier
/// directive too.
pub proof fn qualifier_prefixes_its_target(name: Seq<char>, target: Node)
    requires
        qualifier(name) is Some,
    ensures
        value_text(Node::Directive(Box::new(Node::Var(name)), Box::new(target))) == qualifier(
            name,
        )->0 + " "@ + value_text(target),
{
}

/// Two qualifier directives around a target are written in their order
/// in front of it: the keyword of the outer one, the keyword of the inner
/// one, the target. In statement position, around a value, that is one
/// statement.
pub proof fn nested_qualifiers_keep_their_order(
    outer: Seq<char>,
    inner: Seq<char>,
    target: Node,
    level: nat,
    cfg: Settings,
)
    requires
        qualifier(outer) is Some,
        qualifier(inner) is Some,
    ensures
        value_text(
            Node::Directive(
                Box::new(Node::Var(outer)),
                Box::new(Node::Directive(Box::new(Node::Var(inner)), Box::new(target))),
            ),
        ) == qualifier(outer)->0 + " "@ + (qualifier(inner)->0 + " "@ + value_text(target)),
        is_value_kind(target) ==> stmt_text(
            Node::Directive(
                Box::new(Node::Var(outer)),
                Box::new(Node::Directive(Box::new(Node::Var(inner)), Box::new(target))),
            ),
            level,
            cfg,
        ) == line(
            spaces(level) + (qualifier(outer)->0 + " "@ + (qualifier(inner)->0 + " "@ + value_text(
                target,
            ))) + ";"@,
        ),
{
    let middle = Node::Directive(Box::new(Node::Var(inner)), Box::new(target));
    let whole = Node::Directive(Box::new(Node::Var(outer)), Box::new(middle));
    let text = value_text(whole);
    assert(value_text(middle) == qualifier(inner)->0 + " "@ + value_text(target));
    assert(text == qualifier(outer)->0 + " "@ + value_text(middle));
    if is_value_kind(target) {
        assert(qualified_text(text, target, level, cfg) == line(spaces(level) + text + ";"@));
        assert(is_qualified(middle));
        assert(qualified_text(text, middle, level, cfg) == qualified_text(
            text,
            target,
            level,
            cfg,
        ));
        assert(stmt_text(whole, level, cfg) == qualified_text(text, middle, level, cfg));
    }
}

/// A list as the binding of a loop is written in square brackets, where
/// the same list as a value is written in braces.
pub proof fn list_binding_is_bracketed(items: Seq<Node>)
    ensures
        binding_text(Node::List(items)) == "["@ + join(value_texts(items), ", "@) + "]"@,
        binding_text(Node::List(items)).first() == '[',
        binding_text(Node::List(items)).last() == ']',
        value_text(Node::List(items)).first() == '{',
        value_text(Node::List(items)).last() == '}',
{
    reveal_strlit("[");
    reveal_strlit("]");
    reveal_strlit("{");
    reveal_strlit("}");
}

/// An `extend` directive writes what its rewritten tree is as a statement.
pub proof fn extend_writes_its_rewrite(
    target: Node,
    ident: Seq<char>,
    ty: Seq<char>,
    level: nat,
    cfg: Settings,
)
    ensures
        extend_text(target, ident, ty, level) == match extend_rewrite(target, ident, ty) {
            Some(alias) => stmt_text(alias, level, cfg),
            None => Seq::empty(),
        },
{
}

/// The text of a literal in value position: the decimal numeral of an
/// integer, the canonical text of a floating-point numeral, `true` or
/// `false`, a character between two `'`, a string between two `"`.
pub open spec fn literal_text(v: Node) -> Seq<char> {
    match v {
        Node::Int(i) => int_text(i),
        Node::Float(text) => text,
        Node::Bool(b) => if b {
            "true"@
        } else {
            "false"@
        },
        Node::Char(c) => "'"@.push(c) + "'"@,
        Node::String(s) => "\""@ + s + "\""@,
        _ => Seq::empty(),
    }
}

/// Whether a node is a literal.
pub open spec fn is_literal(v: Node) -> bool {
    v is Int || v is Float || v is Bool || v is Char || v is String
}

/// The binding of a literal is one line: an initialized declaration that
/// holds the text of the literal.
pub proof fn binding_of_a_literal_is_a_declaration(
    name: Seq<char>,
    v: Node,
    level: nat,
    cfg: Settings,
)
    requires
        is_literal(v),
    ensures
        stmt_text(Node::Let(name, Box::new(v)), level, cfg) == line(
            spaces(level) + "auto"@ + " "@ + name + " = "@ + literal_text(v) + ";"@,
        ),
        value_text(v) == literal_text(v),
{
}

/// The loop of `loop_text` is written with its binding in square brackets:
/// the header `for (auto [a, b] : xs) {`, the placeholder as an empty
/// statement two blanks deeper, and the closing brace.
#[verifier::spinoff_prover]
pub proof fn destructuring_loop_is_written_in_brackets(level: nat, cfg: Settings)
    ensures
        stmt_text(loop_of_text(), level, cfg) == line(
            "\n"@ + spaces(level) + "for (auto "@ + ("["@ + ("a"@ + ", "@ + "b"@) + "]"@) + " : "@
                + "xs"@ + ") {"@,
        ) + line(spaces(level + 2) + Seq::<char>::empty() + ";"@) + line(spaces(level) + "}"@),
{
    let a = Node::Var("a"@);
    let b = Node::Var("b"@);
    let items = seq![a, b];
    let body = seq![Node::Pass];
    assert(value_texts(items) =~= seq!["a"@, "b"@]);
    assert(join(value_texts(items), ", "@) == "a"@ + ", "@ + "b"@) by {
        let parts = value_texts(items);
        assert(parts.drop_last() =~= seq!["a"@]);
        reveal_with_fuel(join, 3);
    }
    assert(binding_text(Node::List(items)) == "["@ + ("a"@ + ", "@ + "b"@) + "]"@);
    assert(block_text(body, level + 2, cfg) == line(
        spaces(level + 2) + Seq::<char>::empty() + ";"@,
    )) by {
        assert(body.drop_last() =~= Seq::<Node>::empty());
        assert(block_text(body.drop_last(), level + 2, cfg) =~= Seq::<char>::empty());
        assert(stmt_text(Node::Pass, level + 2, cfg) == line(
            spaces(level + 2) + Seq::<char>::empty() + ";"@,
        ));
        assert(block_text(body, level + 2, cfg) =~= stmt_text(Node::Pass, level + 2, cfg));
    }
}

} // verus!
