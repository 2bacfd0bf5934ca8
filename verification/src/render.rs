//! What the emitter writes, as functions from a tree to its text.
//!
//! `value_text` is a node in value position, `type_text` a node in type
//! position, `stmt_text` a node in statement position at an indentation
//! level. The executable emitter is proved against these.

use vstd::prelude::*;
use crate::ast::{BinOp, BitOp, CompareOp, Node, UnaryOp};
use crate::text::{int_text, join, scoped, spaces};

verus! {

/// The header block that a program starts with when the prelude is switched on.
pub const PRELUDE: &'static str =
    "#include <cstdint>\n\
#include <functional>\n\
#include <iostream>\n\
#include <optional>\n\
#include <ranges>\n\
#include <string>\n\
#include <type_traits>\n\
#include <variant>\n\
#include <vector>\n";

/// The configuration of one emission pass.
pub struct Settings {
    /// Whether a program starts with the prelude.
    pub use_prelude: bool,
    /// The name of the namespace that wraps a program.
    pub module_name: Seq<char>,
}

/// The C++ symbol of an arithmetic operator.
pub open spec fn bin_symbol(op: BinOp) -> Seq<char> {
    match op {
        BinOp::Add => "+"@,
        BinOp::Sub => "-"@,
        BinOp::Mul => "*"@,
        BinOp::Div => "/"@,
    }
}

/// The C++ symbol of a relational or logical operator.
pub open spec fn compare_symbol(op: CompareOp) -> Seq<char> {
    match op {
        CompareOp::Gt => ">"@,
        CompareOp::Lt => "<"@,
        CompareOp::Gte => ">="@,
        CompareOp::Lte => "<="@,
        CompareOp::Eq => "=="@,
        CompareOp::Neq => "!="@,
        CompareOp::And => "&&"@,
        CompareOp::Or => "||"@,
    }
}

/// The C++ symbol of a prefix operator.
pub open spec fn unary_symbol(op: UnaryOp) -> Seq<char> {
    match op {
        UnaryOp::Ref => "&"@,
        UnaryOp::Deref => "*"@,
        UnaryOp::BitNot => "~"@,
    }
}

/// The marker that a reference or pointer type ends with.
pub open spec fn type_marker(op: UnaryOp) -> Seq<char> {
    match op {
        UnaryOp::Ref => "&"@,
        UnaryOp::Deref => "*"@,
        UnaryOp::BitNot => ""@,
    }
}

/// The infix symbol of a bitwise operator, or the builtin that a rotation calls.
pub open spec fn bit_symbol(op: BitOp) -> Seq<char> {
    match op {
        BitOp::Shl => "<<"@,
        BitOp::Shr => ">>"@,
        BitOp::And => "&"@,
        BitOp::Or => "|"@,
        BitOp::Xor => "^"@,
        BitOp::Rotl => "__builtin_rotateleft32"@,
        BitOp::Rotr => "__builtin_rotateright32"@,
    }
}

/// Whether a bitwise operator is a rotation, which is written as a call.
pub open spec fn is_rotation(op: BitOp) -> bool {
    op == BitOp::Rotl || op == BitOp::Rotr
}

/// The keyword that a qualifier directive puts in front of its target.
pub open spec fn qualifier(name: Seq<char>) -> Option<Seq<char>> {
    if name == "const"@ {
        Some("constexpr"@)
    } else if name == "static"@ {
        Some("static"@)
    } else if name == "inline"@ {
        Some("inline"@)
    } else {
        None
    }
}

/// The kinds that stand for a value: as the last statement of a function
/// body such a node is returned.
pub open spec fn is_value_kind(n: Node) -> bool {
    match n {
        Node::Int(_) => true,
        Node::Float(_) => true,
        Node::Bool(_) => true,
        Node::Char(_) => true,
        Node::String(_) => true,
        Node::Var(_) => true,
        Node::Bin(_, _, _) => true,
        Node::Compare(_, _, _) => true,
        Node::List(_) => true,
        Node::Member(_) => true,
        Node::Range(_, _) => true,
        Node::Call(_, _) => true,
        Node::Pass => true,
        Node::TypedCall(_, _, _) => true,
        _ => false,
    }
}

/// A node in value position: an inline expression, without terminator.
/// A kind that has no value form is the empty text.
pub open spec fn value_text(n: Node) -> Seq<char>
    decreases n,
{
    match n {
        Node::Int(i) => int_text(i),
        Node::Float(text) => text,
        Node::Bool(b) => if b {
            "true"@
        } else {
            "false"@
        },
        Node::Char(c) => "'"@.push(c) + "'"@,
        Node::String(s) => "\""@ + s + "\""@,
        Node::Var(name) => name,
        Node::Member(segments) => join(value_texts(segments), "."@),
        Node::Bin(lhs, op, rhs) => "("@ + value_text(*lhs) + " "@ + bin_symbol(op) + " "@
            + value_text(*rhs) + ")"@,
        Node::Compare(lhs, op, rhs) => "("@ + value_text(*lhs) + " "@ + compare_symbol(op) + " "@
            + value_text(*rhs) + ")"@,
        Node::Unary(operand, op) => unary_symbol(op) + value_text(*operand),
        Node::Bit(lhs, op, rhs) => if is_rotation(op) {
            bit_symbol(op) + "("@ + value_text(*lhs) + ", "@ + value_text(*rhs) + ")"@
        } else {
            "("@ + value_text(*lhs) + " "@ + bit_symbol(op) + " "@ + value_text(*rhs) + ")"@
        },
        Node::Range(start, end) => "views::iota("@ + value_text(*start) + ", "@ + value_text(*end)
            + ")"@,
        Node::List(items) => "{"@ + join(value_texts(items), ", "@) + "}"@,
        Node::Call(callee, args) => value_text(*callee) + "("@ + join(value_texts(args), ", "@)
            + ")"@,
        Node::TypedCall(callee, generics, args) => value_text(*callee) + generic_text(
            type_texts(generics),
        ) + "("@ + join(value_texts(args), ", "@) + ")"@,
        Node::Directive(directive, target) => match *directive {
            Node::Var(name) => match qualifier(name) {
                Some(keyword) => keyword + " "@ + value_text(*target),
                None => Seq::empty(),
            },
            _ => Seq::empty(),
        },
        _ => Seq::empty(),
    }
}

/// The value texts of the items, in order.
pub open spec fn value_texts(items: Seq<Node>) -> Seq<Seq<char>>
    decreases items,
{
    Seq::new(
        items.len(),
        |i: int|
            if 0 <= i < items.len() {
                value_text(items[i])
            } else {
                Seq::empty()
            },
    )
}

/// A list of generic arguments in angle brackets; nothing for an empty list.
pub open spec fn generic_text(args: Seq<Seq<char>>) -> Seq<char> {
    if args.len() == 0 {
        Seq::empty()
    } else {
        "<"@ + join(args, ", "@) + ">"@
    }
}

/// A node in type position. A kind that is no type is the empty text.
///
/// A chain of alternatives leans to the right: its last two alternatives are
/// written as `variant<.., ..>`, and each link before them puts its own
/// alternative and ` | ` in front.
pub open spec fn type_text(n: Node) -> Seq<char>
    decreases n,
{
    match n {
        Node::TypedSymbol(name) => name,
        Node::TypedVariant(lhs, rhs) => match *rhs {
            Node::TypedVariant(_, _) => type_text(*lhs) + " | "@ + type_text(*rhs),
            _ => "variant<"@ + type_text(*lhs) + ", "@ + type_text(*rhs) + ">"@,
        },
        Node::TypedUnary(inner) => match *inner {
            Node::Unary(operand, op) => type_text(*operand) + type_marker(op),
            _ => Seq::empty(),
        },
        Node::TypedLiteral(value) => "decltype("@ + value_text(*value) + ")"@,
        Node::TypedOptional(inner) => "optional<"@ + type_text(*inner) + ">"@,
        Node::TypedMember(path) => scoped(value_text(*path)),
        Node::TypedSymbolGeneric(name, args) => name + generic_text(type_texts(args)),
        Node::TypedFn(function) => match *function {
            Node::Fn(params, body) => if body.len() > 0 {
                "std::function<"@ + type_text(body.last()) + "("@ + join(
                    param_type_texts(params),
                    ", "@,
                ) + ")>"@
            } else {
                Seq::empty()
            },
            _ => Seq::empty(),
        },
        _ => Seq::empty(),
    }
}

/// The type texts of the items, in order.
pub open spec fn type_texts(items: Seq<Node>) -> Seq<Seq<char>>
    decreases items,
{
    Seq::new(
        items.len(),
        |i: int|
            if 0 <= i < items.len() {
                type_text(items[i])
            } else {
                Seq::empty()
            },
    )
}

/// The type of each parameter of a function type; `void` where none is written.
pub open spec fn param_type_texts(params: Seq<(Seq<char>, Option<Node>)>) -> Seq<Seq<char>>
    decreases params,
{
    Seq::new(
        params.len(),
        |i: int|
            if 0 <= i < params.len() {
                match params[i].1 {
                    Some(ty) => type_text(ty),
                    None => "void"@,
                }
            } else {
                Seq::empty()
            },
    )
}

/// One parameter of a function declaration: its type and its name. Where
/// no type is written the type is inferred: `auto`.
pub open spec fn param_text(param: (Seq<char>, Option<Node>)) -> Seq<char> {
    match param.1 {
        Some(ty) => type_text(ty) + " "@ + param.0,
        None => "auto"@ + " "@ + param.0,
    }
}

/// The parameter list of a function declaration.
pub open spec fn params_text(params: Seq<(Seq<char>, Option<Node>)>) -> Seq<char> {
    join(Seq::new(params.len(), |i: int| param_text(params[i])), ", "@)
}

/// One output line: the text and a line feed.
pub open spec fn line(text: Seq<char>) -> Seq<char> {
    text.push('\n')
}

/// The template header of a generic alias; nothing without parameters.
pub open spec fn template_text(params: Seq<Node>) -> Seq<char> {
    if params.len() == 0 {
        Seq::empty()
    } else {
        "template<"@ + join(
            Seq::new(params.len(), |i: int| "typename "@ + type_text(params[i])),
            ", "@,
        ) + "> "@
    }
}

/// The members of a record type: one alias for each entry that is a pair.
pub open spec fn record_members_text(entries: Seq<Seq<Node>>, level: nat) -> Seq<char>
    decreases entries.len(),
{
    if entries.len() == 0 {
        Seq::empty()
    } else {
        let entry = entries.last();
        record_members_text(entries.drop_last(), level) + if entry.len() == 2 {
            line(
                spaces(level) + "using "@ + value_text(entry[0]) + " = "@ + type_text(entry[1])
                    + ";"@,
            )
        } else {
            Seq::empty()
        }
    }
}

/// A type alias in statement position. A record on the right becomes a
/// struct with one alias per entry.
pub open spec fn alias_text(name: Seq<char>, params: Seq<Node>, rhs: Node, level: nat) -> Seq<
    char,
> {
    match rhs {
        Node::TypedRecord(record) => match *record {
            Node::Record(entries) => line(
                spaces(level) + template_text(params) + "struct "@ + name + " {"@,
            ) + record_members_text(entries, level + 2) + line(spaces(level) + "};"@),
            _ => Seq::empty(),
        },
        _ => line(
            spaces(level) + template_text(params) + "using "@ + name + " = "@ + type_text(rhs)
                + ";"@,
        ),
    }
}

/// The two names of a directive of the form `extend(ident, ty)`.
pub open spec fn extend_args(directive: Node) -> Option<(Seq<char>, Seq<char>)> {
    match directive {
        Node::Call(callee, args) => if *callee == Node::Var("extend"@) && args.len() == 2 {
            match (args[0], args[1]) {
                (Node::Var(ident), Node::Var(ty)) => Some((ident, ty)),
                _ => None,
            }
        } else {
            None
        },
        _ => None,
    }
}

/// The alias that an `extend` directive acts on: the target itself, or what
/// the directives around it are attached to.
pub open spec fn extend_target(target: Node) -> Option<Node>
    decreases target,
{
    match target {
        Node::TypeAlias(_, _, _) => Some(target),
        Node::Directive(_, inner) => extend_target(*inner),
        _ => None,
    }
}

/// The type that `extend(ident, ty)` puts in place of `ident`: valid only
/// where `ident` is `ty`.
pub open spec fn constraint_text(ident: Seq<char>, ty: Seq<char>) -> Seq<char> {
    "std::enable_if_t<std::is_same<"@ + ident + ", "@ + ty + ">::value, "@ + ident + ">"@
}

/// The tree that `extend(ident, ty)` makes of its target: the alias found by
/// `extend_target`, with a right-hand side that is exactly `ident` replaced
/// by the constraint. `None` where there is no alias.
pub open spec fn extend_rewrite(target: Node, ident: Seq<char>, ty: Seq<char>) -> Option<Node> {
    match extend_target(target) {
        Some(Node::TypeAlias(name, params, rhs)) => Some(
            Node::TypeAlias(
                name,
                params,
                if *rhs == Node::TypedSymbol(ident) {
                    Box::new(Node::TypedSymbol(constraint_text(ident, ty)))
                } else {
                    rhs
                },
            ),
        ),
        _ => None,
    }
}

/// What an `extend` directive writes: its rewritten alias, or nothing.
pub open spec fn extend_text(target: Node, ident: Seq<char>, ty: Seq<char>, level: nat) -> Seq<
    char,
> {
    match extend_rewrite(target, ident, ty) {
        Some(Node::TypeAlias(name, params, rhs)) => alias_text(name, params, *rhs, level),
        _ => Seq::empty(),
    }
}

/// The binding of a loop header: a list pattern is written in square brackets.
pub open spec fn binding_text(binding: Node) -> Seq<char> {
    match binding {
        Node::List(items) => "["@ + join(value_texts(items), ", "@) + "]"@,
        _ => value_text(binding),
    }
}

/// The entry point that follows a program's namespace.
pub open spec fn entry_point_text(module_name: Seq<char>) -> Seq<char> {
    "int main(int argc, const char** argv) { return "@ + module_name
        + "::main(argc, std::vector<std::string>(argv + 1, argv + argc)); }"@
}

/// A node in statement position at indentation `level`: zero or more whole lines.
pub open spec fn stmt_text(n: Node, level: nat, cfg: Settings) -> Seq<char>
    decreases n, 0nat,
{
    let indent = spaces(level);
    match n {
        Node::Program(items) => (if cfg.use_prelude {
            line(PRELUDE@)
        } else {
            Seq::empty()
        }) + line("using namespace std;\n"@) + line("namespace "@ + cfg.module_name + " {"@)
            + block_text(items, level, cfg) + line("} // namespace "@ + cfg.module_name) + line(
            ""@,
        ) + line(entry_point_text(cfg.module_name)),
        Node::Let(name, value) => match *value {
            Node::Fn(params, body) => line(""@) + function_text(
                "auto"@,
                name,
                params,
                body,
                level,
                cfg,
            ),
            _ => line(indent + "auto"@ + " "@ + name + " = "@ + value_text(*value) + ";"@),
        },
        Node::TypedLet(name, ty, value) => match *value {
            Node::Fn(params, body) => line(""@) + function_text(
                type_text(*ty),
                name,
                params,
                body,
                level,
                cfg,
            ),
            _ => line(
                indent + type_text(*ty) + " "@ + name + " = "@ + value_text(*value) + ";"@,
            ),
        },
        Node::Assign(target, value) => line(
            indent + value_text(*target) + " = "@ + value_text(*value) + ";"@,
        ),
        Node::If(cond, then_body, else_body) => line(
            indent + "if ("@ + value_text(*cond) + ") {"@,
        ) + block_text(then_body, level + 2, cfg) + line(indent + "}"@) + match else_body {
            Some(body) => line(indent + "else {"@) + block_text(body, level + 2, cfg) + line(
                indent + "}"@,
            ),
            None => Seq::empty(),
        },
        Node::Loop(binding, iterable, body) => line(
            "\n"@ + indent + "for (auto "@ + binding_text(*binding) + " : "@ + value_text(
                *iterable,
            ) + ") {"@,
        ) + block_text(body, level + 2, cfg) + line(indent + "}"@),
        Node::Match(scrutinee, cases) => line(indent + "std::visit([](auto&& _) {"@) + line(
            spaces(level + 2) + "using T = std::decay_t<decltype(_)>;"@,
        ) + cases_text(cases, level + 2, cfg) + line(
            spaces(level + 2) + "}, "@ + value_text(*scrutinee) + ");"@,
        ),
        Node::Struct(name, entries) => line("\nclass "@ + name + " {"@) + line("public:"@)
            + entries_text(entries, level + 2, cfg) + line(indent + "};"@),
        Node::TypeAlias(name, params, rhs) => alias_text(name, params, *rhs, level),
        Node::Directive(directive, target) => match *directive {
            Node::Call(_, _) => match extend_args(*directive) {
                Some((ident, ty)) => extend_text(*target, ident, ty, level),
                None => Seq::empty(),
            },
            Node::Var(name) => match qualifier(name) {
                Some(keyword) => qualified_text(value_text(n), *target, level, cfg),
                None => Seq::empty(),
            },
            _ => Seq::empty(),
        },
        _ => line(indent + value_text(n) + ";"@),
    }
}

/// Whether a node is a qualifier directive: a directive whose name is a
/// qualifier.
pub open spec fn is_qualified(n: Node) -> bool {
    match n {
        Node::Directive(directive, _) => match *directive {
            Node::Var(name) => qualifier(name) is Some,
            _ => false,
        },
        _ => false,
    }
}

/// What a chain of qualifier directives writes in statement position.
/// `text` is the whole chain in value position and `target` what the
/// directives read so far are attached to. The chain is followed to its
/// innermost target. Where that stands for a value, the chain is one
/// statement: `text` and a terminator. Otherwise `text` is a line of its
/// own in front of the target as a statement.
pub open spec fn qualified_text(
    text: Seq<char>,
    target: Node,
    level: nat,
    cfg: Settings,
) -> Seq<char>
    decreases target, 1nat,
{
    match target {
        Node::Directive(_, inner) => if is_qualified(target) {
            qualified_text(text, *inner, level, cfg)
        } else {
            line(spaces(level) + text) + stmt_text(target, level, cfg)
        },
        _ => if is_value_kind(target) {
            line(spaces(level) + text + ";"@)
        } else {
            line(spaces(level) + text) + stmt_text(target, level, cfg)
        },
    }
}

/// The statements of a block, one after the other.
pub open spec fn block_text(items: Seq<Node>, level: nat, cfg: Settings) -> Seq<char>
    decreases items, 0nat,
{
    if items.len() == 0 {
        Seq::empty()
    } else {
        block_text(items.drop_last(), level, cfg) + stmt_text(items.last(), level, cfg)
    }
}

/// A function declaration: the header with the result type `result`, the
/// body two blanks deeper, and the closing brace.
pub open spec fn function_text(
    result: Seq<char>,
    name: Seq<char>,
    params: Seq<(Seq<char>, Option<Node>)>,
    body: Seq<Node>,
    level: nat,
    cfg: Settings,
) -> Seq<char>
    decreases body, 1nat,
{
    line(spaces(level) + result + " "@ + name + "("@ + params_text(params) + ") {"@) + body_text(
        body,
        level + 2,
        cfg,
    ) + line(spaces(level) + "}"@)
}

/// The body of a function: the last statement is returned where it stands
/// for a value, and is a plain statement otherwise.
pub open spec fn body_text(body: Seq<Node>, level: nat, cfg: Settings) -> Seq<char>
    decreases body, 0nat,
{
    if body.len() == 0 {
        Seq::empty()
    } else if is_value_kind(body.last()) {
        block_text(body.drop_last(), level, cfg) + line(
            spaces(level) + "return "@ + value_text(body.last()) + ";"@,
        )
    } else {
        block_text(body.drop_last(), level, cfg) + stmt_text(body.last(), level, cfg)
    }
}

/// The branches of a match, one per case, in order; `level` is that of the branches.
pub open spec fn cases_text(cases: Seq<(Seq<char>, Seq<Node>)>, level: nat, cfg: Settings) -> Seq<
    char,
>
    decreases cases, 0nat,
{
    if cases.len() == 0 {
        Seq::empty()
    } else {
        let case = cases.last();
        cases_text(cases.drop_last(), level, cfg) + line(
            spaces(level) + "if constexpr (std::is_same_v<T, "@ + case.0 + ">) {"@,
        ) + block_text(case.1, level + 2, cfg) + line(spaces(level) + "}"@)
    }
}

/// The members of a struct; `level` is that of the members. A field is a
/// symbol or literal type, a method is a function, anything else is left out.
pub open spec fn entries_text(entries: Seq<(Seq<char>, Node)>, level: nat, cfg: Settings) -> Seq<
    char,
>
    decreases entries, 0nat,
{
    if entries.len() == 0 {
        Seq::empty()
    } else {
        let entry = entries.last();
        entries_text(entries.drop_last(), level, cfg) + match entry.1 {
            Node::TypedSymbol(_) => line(
                spaces(level) + type_text(entry.1) + " "@ + entry.0 + ";"@,
            ),
            Node::TypedLiteral(_) => line(
                spaces(level) + type_text(entry.1) + " "@ + entry.0 + ";"@,
            ),
            Node::Fn(params, body) => function_text("auto"@, entry.0, params, body, level, cfg),
            _ => Seq::empty(),
        }
    }
}

/// Each statement of a block is nested no deeper than the block.
pub proof fn lemma_block_nesting(items: Seq<Node>, i: int)
    requires
        0 <= i < items.len(),
    ensures
        nesting(items[i]) <= block_nesting(items),
        block_nesting(items.take(i)) <= block_nesting(items),
    decreases items.len(),
{
    if i == items.len() - 1 {
        assert(items.take(i) =~= items.drop_last());
    } else {
        lemma_block_nesting(items.drop_last(), i);
        assert(items.drop_last().take(i) =~= items.take(i));
    }
}

/// Each branch of a match is nested no deeper than the branches together.
pub proof fn lemma_cases_nesting(cases: Seq<(Seq<char>, Seq<Node>)>, i: int)
    requires
        0 <= i < cases.len(),
    ensures
        2 + block_nesting(cases[i].1) <= cases_nesting(cases),
    decreases cases.len(),
{
    if i < cases.len() - 1 {
        lemma_cases_nesting(cases.drop_last(), i);
    }
}

/// Each method of a struct is nested no deeper than the members together.
pub proof fn lemma_entries_nesting(entries: Seq<(Seq<char>, Node)>, i: int)
    requires
        0 <= i < entries.len(),
    ensures
        match entries[i].1 {
            Node::Fn(_, body) => 2 + block_nesting(body) <= entries_nesting(entries),
            _ => true,
        },
    decreases entries.len(),
{
    if i < entries.len() - 1 {
        lemma_entries_nesting(entries.drop_last(), i);
    }
}

/// The larger of two numbers.
pub open spec fn larger(a: nat, b: nat) -> nat {
    if a >= b {
        a
    } else {
        b
    }
}

/// How far an alias indents its members.
pub open spec fn alias_nesting(rhs: Node) -> nat {
    match rhs {
        Node::TypedRecord(record) => match *record {
            Node::Record(_) => 2,
            _ => 0,
        },
        _ => 0,
    }
}

/// How far an `extend` directive indents what it writes.
pub open spec fn extend_nesting(target: Node) -> nat {
    match extend_target(target) {
        Some(Node::TypeAlias(_, _, rhs)) => alias_nesting(*rhs),
        _ => 0,
    }
}

/// The deepest indentation, above its own level, that a node reaches in
/// statement position.
pub open spec fn nesting(n: Node) -> nat
    decreases n, 0nat,
{
    match n {
        Node::Program(items) => block_nesting(items),
        Node::Let(_, value) => match *value {
            Node::Fn(_, body) => 2 + block_nesting(body),
            _ => 0,
        },
        Node::TypedLet(_, _, value) => match *value {
            Node::Fn(_, body) => 2 + block_nesting(body),
            _ => 0,
        },
        Node::If(_, then_body, else_body) => 2 + larger(
            block_nesting(then_body),
            match else_body {
                Some(body) => block_nesting(body),
                None => 0,
            },
        ),
        Node::Loop(_, _, body) => 2 + block_nesting(body),
        Node::Match(_, cases) => 2 + cases_nesting(cases),
        Node::Struct(_, entries) => 2 + entries_nesting(entries),
        Node::TypeAlias(_, _, rhs) => alias_nesting(*rhs),
        Node::Directive(directive, target) => match *directive {
            Node::Call(_, _) => match extend_args(*directive) {
                Some(_) => extend_nesting(*target),
                None => 0,
            },
            Node::Var(name) => if qualifier(name) is Some {
                qualified_nesting(*target)
            } else {
                0
            },
            _ => 0,
        },
        _ => 0,
    }
}

/// The deepest indentation that a chain of qualifier directives reaches:
/// that of its innermost target, where that is written as a statement.
pub open spec fn qualified_nesting(target: Node) -> nat
    decreases target, 1nat,
{
    match target {
        Node::Directive(_, inner) => if is_qualified(target) {
            qualified_nesting(*inner)
        } else {
            nesting(target)
        },
        _ => if is_value_kind(target) {
            0
        } else {
            nesting(target)
        },
    }
}

/// The deepest indentation that the statements of a block reach.
pub open spec fn block_nesting(items: Seq<Node>) -> nat
    decreases items, 0nat,
{
    if items.len() == 0 {
        0
    } else {
        larger(block_nesting(items.drop_last()), nesting(items.last()))
    }
}

/// The deepest indentation that the branches of a match reach, above their own level.
pub open spec fn cases_nesting(cases: Seq<(Seq<char>, Seq<Node>)>) -> nat
    decreases cases, 0nat,
{
    if cases.len() == 0 {
        0
    } else {
        larger(cases_nesting(cases.drop_last()), 2 + block_nesting(cases.last().1))
    }
}

/// The deepest indentation that the members of a struct reach, above their own level.
pub open spec fn entries_nesting(entries: Seq<(Seq<char>, Node)>) -> nat
    decreases entries, 0nat,
{
    if entries.len() == 0 {
        0
    } else {
        larger(
            entries_nesting(entries.drop_last()),
            match entries.last().1 {
                Node::Fn(_, body) => 2 + block_nesting(body),
                _ => 0,
            },
        )
    }
}

} // verus!
