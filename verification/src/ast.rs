//! The syntax tree shared by the parser, the visitor and the emitter.
//!
//! `Expr` is the tree that programs hold. `Node` is the same tree with
//! sequences in place of vectors and strings; contracts are stated over it,
//! and `e@` is the `Node` of an `Expr`.

use vstd::prelude::*;

verus! {

/// Arithmetic operators.
#[derive(Debug, Clone, Copy, PartialEq, Eq, Structural)]
pub enum BinOp {
    Add,
    Sub,
    Mul,
    Div,
}

/// Relational and logical operators.
#[derive(Debug, Clone, Copy, PartialEq, Eq, Structural)]
pub enum CompareOp {
    Gt,
    Lt,
    Gte,
    Lte,
    Eq,
    Neq,
    And,
    Or,
}

/// Bitwise operators.
#[derive(Debug, Clone, Copy, PartialEq, Eq, Structural)]
pub enum BitOp {
    Shl,
    Shr,
    And,
    Or,
    Xor,
    Rotl,
    Rotr,
}

/// Prefix operators.
#[derive(Debug, Clone, Copy, PartialEq, Eq, Structural)]
pub enum UnaryOp {
    Ref,
    Deref,
    BitNot,
}

/// A node of the syntax tree.
///
/// `Float` holds the numeral in its canonical decimal text: the library keeps
/// the digits and does no binary floating-point arithmetic.
#[derive(Debug, PartialEq)]
pub enum Expr {
    /// The root: the top-level statements in order.
    Program(Vec<Box<Expr>>),
    /// A binding of a name to a value.
    Let(String, Box<Expr>),
    /// An assignment to a name or a path.
    Assign(Box<Expr>, Box<Expr>),
    /// A name.
    Var(String),
    /// An integer literal.
    Int(i64),
    /// A floating-point literal, as its canonical decimal text.
    Float(String),
    /// A boolean literal.
    Bool(bool),
    /// A character literal.
    Char(char),
    /// A string literal.
    String(String),
    /// The placeholder that stands for no value.
    Pass,
    /// A list of items in order.
    List(Vec<Expr>),
    /// A record: its entries in order, each a key and a value.
    Record(Vec<Vec<Expr>>),
    /// A range from a start up to an end.
    Range(Box<Expr>, Box<Expr>),
    /// A directive and the node that it is attached to.
    Directive(Box<Expr>, Box<Expr>),
    /// A prefix operation.
    Unary(Box<Expr>, UnaryOp),
    /// An arithmetic operation.
    Bin(Box<Expr>, BinOp, Box<Expr>),
    /// A comparison or a logical operation.
    Compare(Box<Expr>, CompareOp, Box<Expr>),
    /// A bitwise operation.
    Bit(Box<Expr>, BitOp, Box<Expr>),
    /// A conditional: the condition, the body, and the else body if there is one.
    If(Box<Expr>, Vec<Expr>, Option<Vec<Expr>>),
    /// A loop: the binding, what it runs over, and the body.
    Loop(Box<Expr>, Box<Expr>, Vec<Expr>),
    /// A match on the type that a value holds: a type tag and a body for each case.
    Match(Box<Expr>, Vec<(String, Vec<Expr>)>),
    /// A function: its parameters, each with its type if one is written, and its body.
    Fn(Vec<(String, Option<Expr>)>, Vec<Expr>),
    /// A dotted path.
    Member(Vec<Expr>),
    /// A call.
    Call(Box<Expr>, Vec<Expr>),
    /// A struct: its name and its members, each a field type or a method.
    Struct(String, Vec<(String, Expr)>),
    /// A type by its name.
    TypedSymbol(String),
    /// A function type, read off a function.
    TypedFn(Box<Expr>),
    /// A reference or pointer type, as a prefix operation on a type.
    TypedUnary(Box<Expr>),
    /// The type of a literal.
    TypedLiteral(Box<Expr>),
    /// A type by a dotted path.
    TypedMember(Box<Expr>),
    /// A record type.
    TypedRecord(Box<Expr>),
    /// An optional type.
    TypedOptional(Box<Expr>),
    /// A generic type with its arguments.
    TypedSymbolGeneric(String, Vec<Expr>),
    /// One alternative and the rest of a chain of alternatives.
    TypedVariant(Box<Expr>, Box<Expr>),
    /// A binding with a type.
    TypedLet(String, Box<Expr>, Box<Expr>),
    /// A type alias: its name, its parameters and the type.
    TypeAlias(String, Vec<Expr>, Box<Expr>),
    /// A call with generic arguments.
    TypedCall(Box<Expr>, Vec<Expr>, Vec<Expr>),
}

/// The mathematical tree that an `Expr` stands for, variant by variant.
pub enum Node {
    Program(Seq<Node>),
    Let(Seq<char>, Box<Node>),
    Assign(Box<Node>, Box<Node>),
    Var(Seq<char>),
    Int(int),
    Float(Seq<char>),
    Bool(bool),
    Char(char),
    String(Seq<char>),
    Pass,
    List(Seq<Node>),
    Record(Seq<Seq<Node>>),
    Range(Box<Node>, Box<Node>),
    Directive(Box<Node>, Box<Node>),
    Unary(Box<Node>, UnaryOp),
    Bin(Box<Node>, BinOp, Box<Node>),
    Compare(Box<Node>, CompareOp, Box<Node>),
    Bit(Box<Node>, BitOp, Box<Node>),
    If(Box<Node>, Seq<Node>, Option<Seq<Node>>),
    Loop(Box<Node>, Box<Node>, Seq<Node>),
    Match(Box<Node>, Seq<(Seq<char>, Seq<Node>)>),
    Fn(Seq<(Seq<char>, Option<Node>)>, Seq<Node>),
    Member(Seq<Node>),
    Call(Box<Node>, Seq<Node>),
    Struct(Seq<char>, Seq<(Seq<char>, Node)>),
    TypedSymbol(Seq<char>),
    TypedFn(Box<Node>),
    TypedUnary(Box<Node>),
    TypedLiteral(Box<Node>),
    TypedMember(Box<Node>),
    TypedRecord(Box<Node>),
    TypedOptional(Box<Node>),
    TypedSymbolGeneric(Seq<char>, Seq<Node>),
    TypedVariant(Box<Node>, Box<Node>),
    TypedLet(Seq<char>, Box<Node>, Box<Node>),
    TypeAlias(Seq<char>, Seq<Node>, Box<Node>),
    TypedCall(Box<Node>, Seq<Node>, Seq<Node>),
}

/// The node of one tree.
pub open spec fn node_of(e: Expr) -> Node
    decreases e,
{
    match e {
        Expr::Program(items) => Node::Program(boxed_nodes_of(items@)),
        Expr::Let(name, value) => Node::Let(name@, Box::new(node_of(*value))),
        Expr::Assign(target, value) => Node::Assign(
            Box::new(node_of(*target)),
            Box::new(node_of(*value)),
        ),
        Expr::Var(name) => Node::Var(name@),
        Expr::Int(n) => Node::Int(n as int),
        Expr::Float(text) => Node::Float(text@),
        Expr::Bool(b) => Node::Bool(b),
        Expr::Char(c) => Node::Char(c),
        Expr::String(s) => Node::String(s@),
        Expr::Pass => Node::Pass,
        Expr::List(items) => Node::List(nodes_of(items@)),
        Expr::Record(entries) => Node::Record(records_of(entries@)),
        Expr::Range(start, end) => Node::Range(
            Box::new(node_of(*start)),
            Box::new(node_of(*end)),
        ),
        Expr::Directive(directive, target) => Node::Directive(
            Box::new(node_of(*directive)),
            Box::new(node_of(*target)),
        ),
        Expr::Unary(operand, op) => Node::Unary(Box::new(node_of(*operand)), op),
        Expr::Bin(lhs, op, rhs) => Node::Bin(
            Box::new(node_of(*lhs)),
            op,
            Box::new(node_of(*rhs)),
        ),
        Expr::Compare(lhs, op, rhs) => Node::Compare(
            Box::new(node_of(*lhs)),
            op,
            Box::new(node_of(*rhs)),
        ),
        Expr::Bit(lhs, op, rhs) => Node::Bit(
            Box::new(node_of(*lhs)),
            op,
            Box::new(node_of(*rhs)),
        ),
        Expr::If(cond, then_body, else_body) => Node::If(
            Box::new(node_of(*cond)),
            nodes_of(then_body@),
            match else_body {
                Some(body) => Some(nodes_of(body@)),
                None => None,
            },
        ),
        Expr::Loop(binding, iterable, body) => Node::Loop(
            Box::new(node_of(*binding)),
            Box::new(node_of(*iterable)),
            nodes_of(body@),
        ),
        Expr::Match(scrutinee, cases) => Node::Match(
            Box::new(node_of(*scrutinee)),
            cases_of(cases@),
        ),
        Expr::Fn(params, body) => Node::Fn(params_of(params@), nodes_of(body@)),
        Expr::Member(segments) => Node::Member(nodes_of(segments@)),
        Expr::Call(callee, args) => Node::Call(Box::new(node_of(*callee)), nodes_of(args@)),
        Expr::Struct(name, entries) => Node::Struct(name@, entries_of(entries@)),
        Expr::TypedSymbol(name) => Node::TypedSymbol(name@),
        Expr::TypedFn(inner) => Node::TypedFn(Box::new(node_of(*inner))),
        Expr::TypedUnary(inner) => Node::TypedUnary(Box::new(node_of(*inner))),
        Expr::TypedLiteral(inner) => Node::TypedLiteral(Box::new(node_of(*inner))),
        Expr::TypedMember(inner) => Node::TypedMember(Box::new(node_of(*inner))),
        Expr::TypedRecord(inner) => Node::TypedRecord(Box::new(node_of(*inner))),
        Expr::TypedOptional(inner) => Node::TypedOptional(Box::new(node_of(*inner))),
        Expr::TypedSymbolGeneric(name, args) => Node::TypedSymbolGeneric(name@, nodes_of(args@)),
        Expr::TypedVariant(lhs, rhs) => Node::TypedVariant(
            Box::new(node_of(*lhs)),
            Box::new(node_of(*rhs)),
        ),
        Expr::TypedLet(name, ty, value) => Node::TypedLet(
            name@,
            Box::new(node_of(*ty)),
            Box::new(node_of(*value)),
        ),
        Expr::TypeAlias(name, params, rhs) => Node::TypeAlias(
            name@,
            nodes_of(params@),
            Box::new(node_of(*rhs)),
        ),
        Expr::TypedCall(callee, generics, args) => Node::TypedCall(
            Box::new(node_of(*callee)),
            nodes_of(generics@),
            nodes_of(args@),
        ),
    }
}

/// The nodes of a sequence of trees, in order.
pub open spec fn nodes_of(items: Seq<Expr>) -> Seq<Node>
    decreases items,
{
    Seq::new(
        items.len(),
        |i: int|
            if 0 <= i < items.len() {
                node_of(items[i])
            } else {
                Node::Pass
            },
    )
}

/// The nodes of the statements of a program.
pub open spec fn boxed_nodes_of(items: Seq<Box<Expr>>) -> Seq<Node>
    decreases items,
{
    Seq::new(
        items.len(),
        |i: int|
            if 0 <= i < items.len() {
                node_of(*items[i])
            } else {
                Node::Pass
            },
    )
}

/// The entries of a record.
pub open spec fn records_of(entries: Seq<Vec<Expr>>) -> Seq<Seq<Node>>
    decreases entries,
{
    Seq::new(
        entries.len(),
        |i: int|
            if 0 <= i < entries.len() {
                nodes_of(entries[i]@)
            } else {
                Seq::empty()
            },
    )
}

/// The cases of a match: a type tag and a body each.
pub open spec fn cases_of(cases: Seq<(String, Vec<Expr>)>) -> Seq<(Seq<char>, Seq<Node>)>
    decreases cases,
{
    Seq::new(
        cases.len(),
        |i: int|
            if 0 <= i < cases.len() {
                (cases[i].0@, nodes_of(cases[i].1@))
            } else {
                (Seq::empty(), Seq::empty())
            },
    )
}

/// One parameter of a function: its name and, where one is written, its type.
pub open spec fn param_of(param: (String, Option<Expr>)) -> (Seq<char>, Option<Node>)
    decreases param,
{
    (
        param.0@,
        match param.1 {
            Some(ty) => Some(node_of(ty)),
            None => None,
        },
    )
}

/// The parameters of a function.
pub open spec fn params_of(params: Seq<(String, Option<Expr>)>) -> Seq<(Seq<char>, Option<Node>)>
    decreases params,
{
    Seq::new(
        params.len(),
        |i: int|
            if 0 <= i < params.len() {
                param_of(params[i])
            } else {
                (Seq::empty(), None)
            },
    )
}

/// The members of a struct: a name and a field type or method each.
pub open spec fn entries_of(entries: Seq<(String, Expr)>) -> Seq<(Seq<char>, Node)>
    decreases entries,
{
    Seq::new(
        entries.len(),
        |i: int|
            if 0 <= i < entries.len() {
                (entries[i].0@, node_of(entries[i].1))
            } else {
                (Seq::empty(), Node::Pass)
            },
    )
}

impl View for Expr {
    type V = Node;

    open spec fn view(&self) -> Node {
        node_of(*self)
    }
}

} // verus!
