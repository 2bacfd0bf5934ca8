//! Copies of trees.

use vstd::prelude::*;
use crate::ast::{
    boxed_nodes_of, cases_of, entries_of, node_of, nodes_of, param_of, params_of, records_of,
    Expr,
};

verus! {

/// A copy of each tree.
pub fn copy_all(items: &Vec<Expr>) -> (out: Vec<Expr>)
    ensures
        nodes_of(out@) == nodes_of(items@),
    decreases items,
{
    let mut out: Vec<Expr> = Vec::new();
    let mut i: usize = 0;
    while i < items.len()
        invariant
            i <= items.len(),
            out@.len() == i,
            forall|j: int| 0 <= j < i ==> node_of(#[trigger] out@[j]) == node_of(items@[j]),
        decreases items.len() - i,
    {
        let item = copy(&items[i]);
        out.push(item);
        i += 1;
    }
    assert(nodes_of(out@) =~= nodes_of(items@));
    out
}

/// A copy of each statement of a program.
pub fn copy_boxed(items: &Vec<Box<Expr>>) -> (out: Vec<Box<Expr>>)
    ensures
        boxed_nodes_of(out@) == boxed_nodes_of(items@),
    decreases items,
{
    let mut out: Vec<Box<Expr>> = Vec::new();
    let mut i: usize = 0;
    while i < items.len()
        invariant
            i <= items.len(),
            out@.len() == i,
            forall|j: int| 0 <= j < i ==> node_of(*#[trigger] out@[j]) == node_of(*items@[j]),
        decreases items.len() - i,
    {
        let item = Box::new(copy(&items[i]));
        out.push(item);
        i += 1;
    }
    assert(boxed_nodes_of(out@) =~= boxed_nodes_of(items@));
    out
}

/// A copy of each entry of a record.
pub fn copy_rows(items: &Vec<Vec<Expr>>) -> (out: Vec<Vec<Expr>>)
    ensures
        records_of(out@) == records_of(items@),
    decreases items,
{
    let mut out: Vec<Vec<Expr>> = Vec::new();
    let mut i: usize = 0;
    while i < items.len()
        invariant
            i <= items.len(),
            out@.len() == i,
            forall|j: int| 0 <= j < i ==> nodes_of((#[trigger] out@[j])@) == nodes_of(items@[j]@),
        decreases items.len() - i,
    {
        let item = copy_all(&items[i]);
        out.push(item);
        i += 1;
    }
    assert(records_of(out@) =~= records_of(items@));
    out
}

/// A copy of each case of a match.
pub fn copy_cases(items: &Vec<(String, Vec<Expr>)>) -> (out: Vec<(String, Vec<Expr>)>)
    ensures
        cases_of(out@) == cases_of(items@),
    decreases items,
{
    let mut out: Vec<(String, Vec<Expr>)> = Vec::new();
    let mut i: usize = 0;
    while i < items.len()
        invariant
            i <= items.len(),
            out@.len() == i,
            forall|j: int|
                0 <= j < i ==> ((#[trigger] out@[j]).0@, nodes_of(out@[j].1@))
                    == (items@[j].0@, nodes_of(items@[j].1@)),
        decreases items.len() - i,
    {
        let item = (items[i].0.clone(), copy_all(&items[i].1));
        out.push(item);
        i += 1;
    }
    assert(cases_of(out@) =~= cases_of(items@));
    out
}

/// A copy of each member of a struct.
pub fn copy_entries(items: &Vec<(String, Expr)>) -> (out: Vec<(String, Expr)>)
    ensures
        entries_of(out@) == entries_of(items@),
    decreases items,
{
    let mut out: Vec<(String, Expr)> = Vec::new();
    let mut i: usize = 0;
    while i < items.len()
        invariant
            i <= items.len(),
            out@.len() == i,
            forall|j: int|
                0 <= j < i ==> ((#[trigger] out@[j]).0@, node_of(out@[j].1))
                    == (items@[j].0@, node_of(items@[j].1)),
        decreases items.len() - i,
    {
        let item = (items[i].0.clone(), copy(&items[i].1));
        out.push(item);
        i += 1;
    }
    assert(entries_of(out@) =~= entries_of(items@));
    out
}

/// A copy of each parameter of a function.
pub fn copy_params(items: &Vec<(String, Option<Expr>)>) -> (out: Vec<(String, Option<Expr>)>)
    ensures
        params_of(out@) == params_of(items@),
    decreases items,
{
    let mut out: Vec<(String, Option<Expr>)> = Vec::new();
    let mut i: usize = 0;
    while i < items.len()
        invariant
            i <= items.len(),
            out@.len() == i,
            forall|j: int| 0 <= j < i ==> param_of(#[trigger] out@[j]) == param_of(items@[j]),
        decreases items.len() - i,
    {
        let item = (
            items[i].0.clone(),
            match &items[i].1 {
                Some(ty) => Some(copy(ty)),
                None => None,
            },
        );
        out.push(item);
        i += 1;
    }
    assert(params_of(out@) =~= params_of(items@));
    out
}

/// A copy of a tree: another tree that stands for the same node.
pub fn copy(e: &Expr) -> (out: Expr)
    ensures
        out@ == e@,
    decreases e,
{
    match e {
        Expr::Program(a) => Expr::Program(copy_boxed(a)),
        Expr::Let(a, b) => Expr::Let(a.clone(), Box::new(copy(b))),
        Expr::Assign(a, b) => Expr::Assign(Box::new(copy(a)), Box::new(copy(b))),
        Expr::Var(a) => Expr::Var(a.clone()),
        Expr::Int(a) => Expr::Int(*a),
        Expr::Float(a) => Expr::Float(a.clone()),
        Expr::Bool(a) => Expr::Bool(*a),
        Expr::Char(a) => Expr::Char(*a),
        Expr::String(a) => Expr::String(a.clone()),
        Expr::Pass => Expr::Pass,
        Expr::List(a) => Expr::List(copy_all(a)),
        Expr::Record(a) => Expr::Record(copy_rows(a)),
        Expr::Range(a, b) => Expr::Range(Box::new(copy(a)), Box::new(copy(b))),
        Expr::Directive(a, b) => Expr::Directive(Box::new(copy(a)), Box::new(copy(b))),
        Expr::Unary(a, b) => Expr::Unary(Box::new(copy(a)), *b),
        Expr::Bin(a, b, c) => Expr::Bin(Box::new(copy(a)), *b, Box::new(copy(c))),
        Expr::Compare(a, b, c) => Expr::Compare(Box::new(copy(a)), *b, Box::new(copy(c))),
        Expr::Bit(a, b, c) => Expr::Bit(Box::new(copy(a)), *b, Box::new(copy(c))),
        Expr::If(a, b, c) => Expr::If(Box::new(copy(a)), copy_all(b), match c {
                Some(body) => Some(copy_all(body)),
                None => None,
            }),
        Expr::Loop(a, b, c) => Expr::Loop(Box::new(copy(a)), Box::new(copy(b)), copy_all(c)),
        Expr::Match(a, b) => Expr::Match(Box::new(copy(a)), copy_cases(b)),
        Expr::Fn(a, b) => Expr::Fn(copy_params(a), copy_all(b)),
        Expr::Member(a) => Expr::Member(copy_all(a)),
        Expr::Call(a, b) => Expr::Call(Box::new(copy(a)), copy_all(b)),
        Expr::Struct(a, b) => Expr::Struct(a.clone(), copy_entries(b)),
        Expr::TypedSymbol(a) => Expr::TypedSymbol(a.clone()),
        Expr::TypedFn(a) => Expr::TypedFn(Box::new(copy(a))),
        Expr::TypedUnary(a) => Expr::TypedUnary(Box::new(copy(a))),
        Expr::TypedLiteral(a) => Expr::TypedLiteral(Box::new(copy(a))),
        Expr::TypedMember(a) => Expr::TypedMember(Box::new(copy(a))),
        Expr::TypedRecord(a) => Expr::TypedRecord(Box::new(copy(a))),
        Expr::TypedOptional(a) => Expr::TypedOptional(Box::new(copy(a))),
        Expr::TypedSymbolGeneric(a, b) => Expr::TypedSymbolGeneric(a.clone(), copy_all(b)),
        Expr::TypedVariant(a, b) => Expr::TypedVariant(Box::new(copy(a)), Box::new(copy(b))),
        Expr::TypedLet(a, b, c) => Expr::TypedLet(a.clone(), Box::new(copy(b)), Box::new(copy(c))),
        Expr::TypeAlias(a, b, c) => Expr::TypeAlias(a.clone(), copy_all(b), Box::new(copy(c))),
        Expr::TypedCall(a, b, c) => Expr::TypedCall(Box::new(copy(a)), copy_all(b), copy_all(c)),
    }
}

impl Clone for Expr {
    fn clone(&self) -> (out: Self)
        ensures
            out@ == self@,
    {
        copy(self)
    }
}

} // verus!
