//! The parser: the rules of the grammar that build trees. Each function is
//! proved to compute the rule of the same name in `grammar`; `program` is
//! the entry point.

use vstd::prelude::*;
use crate::ast::{
    boxed_nodes_of, cases_of, entries_of, nodes_of, param_of, params_of, records_of, BinOp, BitOp,
    CompareOp, Expr, Node, UnaryOp,
};
use crate::grammar;
use crate::lexer::{
    bool_literal, char_at, char_literal, float_literal, identifier, identifier_expr,
    integer_literal, lit, lit_ws, pass, range_expr, record_key, skip, string_literal,
    typed_literal, typed_symbol, ws_lit, ws_lit_ws,
};
use crate::order::{sort_by_label, sorted_by_label};
use crate::token::{Furthest, Token};

verus! {

/// No trees.
pub fn none() -> (items: Vec<Expr>)
    ensures
        nodes_of(items@) == Seq::<Node>::empty(),
{
    let items: Vec<Expr> = Vec::new();
    assert(nodes_of(items@) =~= Seq::<Node>::empty());
    items
}

/// One tree.
pub fn one(x: Expr) -> (items: Vec<Expr>)
    ensures
        nodes_of(items@) == seq![x@],
{
    let mut items: Vec<Expr> = Vec::new();
    items.push(x);
    assert(nodes_of(items@) =~= seq![x@]);
    items
}

/// Two trees.
pub fn pair(x: Expr, y: Expr) -> (items: Vec<Expr>)
    ensures
        nodes_of(items@) == seq![x@, y@],
{
    let mut items: Vec<Expr> = Vec::new();
    items.push(x);
    items.push(y);
    assert(nodes_of(items@) =~= seq![x@, y@]);
    items
}

/// `first` in front of `rest`.
pub fn with_first(first: Expr, rest: Vec<Expr>) -> (items: Vec<Expr>)
    ensures
        nodes_of(items@) == seq![first@] + nodes_of(rest@),
{
    let mut items = rest;
    items.insert(0, first);
    assert(nodes_of(items@) =~= seq![first@] + nodes_of(rest@));
    items
}

/// The operand behind the prefix operators; the first operator is the outermost.
pub fn apply_prefix(ops: Vec<UnaryOp>, operand: Expr) -> (out: Expr)
    ensures
        out@ == grammar::prefixed(ops@, operand@),
{
    let mut acc = operand;
    let mut i: usize = ops.len();
    assert(ops@.take(i as int) =~= ops@);
    while i > 0
        invariant
            i <= ops.len(),
            grammar::prefixed(ops@, operand@) == grammar::prefixed(ops@.take(i as int), acc@),
        decreases i,
    {
        i -= 1;
        proof {
            assert(ops@.take(i + 1) =~= ops@.take(i as int).push(ops@[i as int]));
            grammar::lemma_prefixed_last(ops@.take(i as int), ops@[i as int], acc@);
        }
        acc = Expr::Unary(Box::new(acc), ops[i]);
    }
    acc
}

/// The type behind the prefix operators; the first operator is the outermost.
pub fn apply_typed_prefix(ops: Vec<UnaryOp>, inner: Expr) -> (out: Expr)
    ensures
        out@ == grammar::typed_prefixed(ops@, inner@),
{
    let mut acc = inner;
    let mut i: usize = ops.len();
    assert(ops@.take(i as int) =~= ops@);
    while i > 0
        invariant
            i <= ops.len(),
            grammar::typed_prefixed(ops@, inner@) == grammar::typed_prefixed(
                ops@.take(i as int),
                acc@,
            ),
        decreases i,
    {
        i -= 1;
        proof {
            assert(ops@.take(i + 1) =~= ops@.take(i as int).push(ops@[i as int]));
            grammar::lemma_prefixed_last(ops@.take(i as int), ops@[i as int], acc@);
        }
        let operation = Expr::Unary(Box::new(acc), ops[i]);
        assert(operation@ is Unary);
        acc = Expr::TypedUnary(Box::new(operation));
    }
    acc
}

/// The chain of a first alternative and the others, leaning to the right.
pub fn chain_variants(first: Expr, rest: Vec<Expr>) -> (out: Expr)
    ensures
        out@ == grammar::variant_chain(first@, nodes_of(rest@)),
{
    let mut rest = rest;
    let ghost all = seq![first@] + nodes_of(rest@);
    let mut acc = match rest.pop() {
        Some(last) => last,
        None => {
            assert(all =~= seq![first@]);
            return first;
        },
    };
    assert(all =~= (seq![first@] + nodes_of(rest@)).push(acc@));
    while rest.len() > 0
        invariant
            grammar::chain(all) == grammar::chain((seq![first@] + nodes_of(rest@)).push(acc@)),
        decreases rest.len(),
    {
        let ghost before = seq![first@] + nodes_of(rest@);
        match rest.pop() {
            Some(x) => {
                proof {
                    let shorter = seq![first@] + nodes_of(rest@);
                    assert(before =~= shorter.push(x@));
                    grammar::lemma_chain_last(shorter, x@, acc@);
                }
                acc = Expr::TypedVariant(Box::new(x), Box::new(acc));
            },
            None => {},
        }
    }
    proof {
        assert((seq![first@] + nodes_of(rest@)).push(acc@) =~= seq![first@, acc@]);
        assert(seq![first@, acc@].drop_first() =~= seq![acc@]);
        reveal_with_fuel(grammar::chain, 3);
    }
    Expr::TypedVariant(Box::new(first), Box::new(acc))
}

/// The rule `unary_op`.
#[verifier::spinoff_prover]
pub fn unary_op(input: &Vec<char>, p: usize, far: &mut Furthest) -> (r: Option<(UnaryOp, usize)>)
    requires
        p <= input.len(),
    ensures
        ({
            let step = grammar::unary_op(input@, p as int, old(far)@);
            &&& final(far)@ == step.far
            &&& match r {
                Some((value, end)) => step.value == Some(value) && step.end == end
                    && p < end <= input.len(),
                None => step.value is None,
            }
        }),
{
    proof {
        reveal(grammar::unary_op);
    }
    match lit(input, p, Token::Tilde, far) {
        Some(end) => {
            return Some((UnaryOp::BitNot, end));
        },
        None => {},
    }
    match lit(input, p, Token::Amp, far) {
        Some(end) => {
            return Some((UnaryOp::Ref, end));
        },
        None => {},
    }
    match lit(input, p, Token::Star, far) {
        Some(end) => Some((UnaryOp::Deref, end)),
        None => None,
    }
}

/// The rule `typed_unary_op`.
#[verifier::spinoff_prover]
pub fn typed_unary_op(input: &Vec<char>, p: usize, far: &mut Furthest) -> (r: Option<
    (UnaryOp, usize),
>)
    requires
        p <= input.len(),
    ensures
        ({
            let step = grammar::typed_unary_op(input@, p as int, old(far)@);
            &&& final(far)@ == step.far
            &&& match r {
                Some((value, end)) => step.value == Some(value) && step.end == end
                    && p < end <= input.len(),
                None => step.value is None,
            }
        }),
{
    proof {
        reveal(grammar::typed_unary_op);
    }
    match lit(input, p, Token::Amp, far) {
        Some(end) => {
            return Some((UnaryOp::Ref, end));
        },
        None => {},
    }
    match lit(input, p, Token::Star, far) {
        Some(end) => Some((UnaryOp::Deref, end)),
        None => None,
    }
}

/// The rule `add_op`.
#[verifier::spinoff_prover]
pub fn add_op(input: &Vec<char>, p: usize, far: &mut Furthest) -> (r: Option<(BinOp, usize)>)
    requires
        p <= input.len(),
    ensures
        ({
            let step = grammar::add_op(input@, p as int, old(far)@);
            &&& final(far)@ == step.far
            &&& match r {
                Some((value, end)) => step.value == Some(value) && step.end == end
                    && p < end <= input.len(),
                None => step.value is None,
            }
        }),
{
    proof {
        reveal(grammar::add_op);
    }
    match lit(input, p, Token::Plus, far) {
        Some(end) => {
            return Some((BinOp::Add, end));
        },
        None => {},
    }
    match lit(input, p, Token::Minus, far) {
        Some(end) => Some((BinOp::Sub, end)),
        None => None,
    }
}

/// The rule `mul_op`.
#[verifier::spinoff_prover]
pub fn mul_op(input: &Vec<char>, p: usize, far: &mut Furthest) -> (r: Option<(BinOp, usize)>)
    requires
        p <= input.len(),
    ensures
        ({
            let step = grammar::mul_op(input@, p as int, old(far)@);
            &&& final(far)@ == step.far
            &&& match r {
                Some((value, end)) => step.value == Some(value) && step.end == end
                    && p < end <= input.len(),
                None => step.value is None,
            }
        }),
{
    proof {
        reveal(grammar::mul_op);
    }
    match lit(input, p, Token::Star, far) {
        Some(end) => {
            return Some((BinOp::Mul, end));
        },
        None => {},
    }
    match lit(input, p, Token::Slash, far) {
        Some(end) => Some((BinOp::Div, end)),
        None => None,
    }
}

/// The rule `compare_op`.
#[verifier::spinoff_prover]
pub fn compare_op(input: &Vec<char>, p: usize, far: &mut Furthest) -> (r: Option<
    (CompareOp, usize),
>)
    requires
        p <= input.len(),
    ensures
        ({
            let step = grammar::compare_op(input@, p as int, old(far)@);
            &&& final(far)@ == step.far
            &&& match r {
                Some((value, end)) => step.value == Some(value) && step.end == end
                    && p < end <= input.len(),
                None => step.value is None,
            }
        }),
{
    proof {
        reveal(grammar::compare_op);
    }
    match lit(input, p, Token::Gte, far) {
        Some(end) => {
            return Some((CompareOp::Gte, end));
        },
        None => {},
    }
    match lit(input, p, Token::Lte, far) {
        Some(end) => {
            return Some((CompareOp::Lte, end));
        },
        None => {},
    }
    match lit(input, p, Token::Gt, far) {
        Some(end) => {
            return Some((CompareOp::Gt, end));
        },
        None => {},
    }
    match lit(input, p, Token::Lt, far) {
        Some(end) => {
            return Some((CompareOp::Lt, end));
        },
        None => {},
    }
    match lit(input, p, Token::Eq, far) {
        Some(end) => {
            return Some((CompareOp::Eq, end));
        },
        None => {},
    }
    match lit(input, p, Token::Neq, far) {
        Some(end) => {
            return Some((CompareOp::Neq, end));
        },
        None => {},
    }
    match lit(input, p, Token::And, far) {
        Some(end) => {
            return Some((CompareOp::And, end));
        },
        None => {},
    }
    match lit(input, p, Token::Or, far) {
        Some(end) => Some((CompareOp::Or, end)),
        None => None,
    }
}

/// The rule `bit_op`.
#[verifier::spinoff_prover]
pub fn bit_op(input: &Vec<char>, p: usize, far: &mut Furthest) -> (r: Option<(BitOp, usize)>)
    requires
        p <= input.len(),
    ensures
        ({
            let step = grammar::bit_op(input@, p as int, old(far)@);
            &&& final(far)@ == step.far
            &&& match r {
                Some((value, end)) => step.value == Some(value) && step.end == end
                    && p < end <= input.len(),
                None => step.value is None,
            }
        }),
{
    proof {
        reveal(grammar::bit_op);
    }
    match lit(input, p, Token::Shl, far) {
        Some(end) => {
            return Some((BitOp::Shl, end));
        },
        None => {},
    }
    match lit(input, p, Token::Shr, far) {
        Some(end) => {
            return Some((BitOp::Shr, end));
        },
        None => {},
    }
    match lit(input, p, Token::Band, far) {
        Some(end) => {
            return Some((BitOp::And, end));
        },
        None => {},
    }
    match lit(input, p, Token::Bor, far) {
        Some(end) => {
            return Some((BitOp::Or, end));
        },
        None => {},
    }
    match lit(input, p, Token::Xor, far) {
        Some(end) => {
            return Some((BitOp::Xor, end));
        },
        None => {},
    }
    match lit(input, p, Token::Rotl, far) {
        Some(end) => {
            return Some((BitOp::Rotl, end));
        },
        None => {},
    }
    match lit(input, p, Token::Rotr, far) {
        Some(end) => Some((BitOp::Rotr, end)),
        None => None,
    }
}

/// The rule `unary_ops`.
#[verifier::spinoff_prover]
pub fn unary_ops(input: &Vec<char>, p: usize, far: &mut Furthest) -> (r: (Vec<UnaryOp>, usize))
    requires
        p <= input.len(),
    ensures
        ({
            let step = grammar::unary_ops(input@, p as int, old(far)@);
            &&& final(far)@ == step.far
            &&& step.value == Some(r.0@)
            &&& step.end == r.1
            &&& p <= r.1 <= input.len()
        }),
    decreases input.len() - p, 1nat,
{
    proof {
        reveal(grammar::unary_ops);
        reveal(grammar::unary_ops_more);
    }
    let mut items: Vec<UnaryOp> = Vec::new();
    let mut pos: usize = p;
    match unary_op(input, p, far) {
        Some((first, end)) => {
            let ghost head = first;
            items.push(first);
            assert(items@ =~= seq![head]);
            pos = end;
        },
        None => {
            assert(items@ =~= Seq::empty());
            return (items, p);
        },
    }
    loop
        invariant
            p < pos <= input.len(),
            ({
                let whole = grammar::unary_ops(input@, p as int, old(far)@);
                let rest = grammar::unary_ops_more(input@, pos as int, far@);
                &&& whole.far == rest.far
                &&& whole.end == rest.end
                &&& whole.value is Some
                &&& rest.value is Some
                &&& whole.value->0 =~= items@ + rest.value->0
            }),
        decreases input.len() - pos,
    {
        proof {
            reveal(grammar::unary_ops);
            reveal(grammar::unary_ops_more);
        }
        let after = skip(input, pos, far);
        match unary_op(input, after, far) {
            Some((next, end)) => {
                let ghost before = items@;
                let ghost added = next;
                items.push(next);
                assert(items@ =~= before.push(added));
                pos = end;
            },
            None => {
                return (items, pos);
            },
        }
    }
}

/// The rule `typed_unary_ops`.
#[verifier::spinoff_prover]
pub fn typed_unary_ops(
    input: &Vec<char>,
    p: usize,
    far: &mut Furthest,
) -> (r: (Vec<UnaryOp>, usize))
    requires
        p <= input.len(),
    ensures
        ({
            let step = grammar::typed_unary_ops(input@, p as int, old(far)@);
            &&& final(far)@ == step.far
            &&& step.value == Some(r.0@)
            &&& step.end == r.1
            &&& p <= r.1 <= input.len()
        }),
    decreases input.len() - p, 1nat,
{
    proof {
        reveal(grammar::typed_unary_ops);
        reveal(grammar::typed_unary_ops_more);
    }
    let mut items: Vec<UnaryOp> = Vec::new();
    let mut pos: usize = p;
    match typed_unary_op(input, p, far) {
        Some((first, end)) => {
            let ghost head = first;
            items.push(first);
            assert(items@ =~= seq![head]);
            pos = end;
        },
        None => {
            assert(items@ =~= Seq::empty());
            return (items, p);
        },
    }
    loop
        invariant
            p < pos <= input.len(),
            ({
                let whole = grammar::typed_unary_ops(input@, p as int, old(far)@);
                let rest = grammar::typed_unary_ops_more(input@, pos as int, far@);
                &&& whole.far == rest.far
                &&& whole.end == rest.end
                &&& whole.value is Some
                &&& rest.value is Some
                &&& whole.value->0 =~= items@ + rest.value->0
            }),
        decreases input.len() - pos,
    {
        proof {
            reveal(grammar::typed_unary_ops);
            reveal(grammar::typed_unary_ops_more);
        }
        let after = skip(input, pos, far);
        match typed_unary_op(input, after, far) {
            Some((next, end)) => {
                let ghost before = items@;
                let ghost added = next;
                items.push(next);
                assert(items@ =~= before.push(added));
                pos = end;
            },
            None => {
                return (items, pos);
            },
        }
    }
}

/// The rule `typed_optional`.
#[verifier::spinoff_prover]
pub fn typed_optional(input: &Vec<char>, p: usize, far: &mut Furthest) -> (r: Option<(Expr, usize)>)
    requires
        p <= input.len(),
    ensures
        ({
            let step = grammar::typed_optional(input@, p as int, old(far)@);
            &&& final(far)@ == step.far
            &&& match r {
                Some((value, end)) => step.value == Some(value@) && step.end == end
                    && p < end <= input.len(),
                None => step.value is None,
            }
        }),
    decreases input.len() - p, 1nat,
{
    proof {
        reveal(grammar::typed_optional);
        reveal(grammar::typed_expr);
    }
    let pos = match lit_ws(input, p, Token::Question, far) {
        Some(end) => end,
        None => {
            return None;
        },
    };
    let (ty, pos) = match typed_expr(input, pos, far) {
        Some(found) => found,
        None => {
            return None;
        },
    };
    Some((Expr::TypedOptional(Box::new(ty)), pos))
}

/// The rule `typed_fn_expr`.
#[verifier::spinoff_prover]
pub fn typed_fn_expr(input: &Vec<char>, p: usize, far: &mut Furthest) -> (r: Option<(Expr, usize)>)
    requires
        p <= input.len(),
    ensures
        ({
            let step = grammar::typed_fn_expr(input@, p as int, old(far)@);
            &&& final(far)@ == step.far
            &&& match r {
                Some((value, end)) => step.value == Some(value@) && step.end == end
                    && p < end <= input.len(),
                None => step.value is None,
            }
        }),
    decreases input.len() - p, 1nat,
{
    proof {
        reveal(grammar::typed_fn_expr);
        reveal(grammar::fn_args);
        reveal(grammar::typed_expr);
    }
    let pos = match lit_ws(input, p, Token::Pipe, far) {
        Some(end) => end,
        None => {
            return None;
        },
    };
    let (params, pos) = fn_args(input, pos, far);
    let pos = match ws_lit_ws(input, pos, Token::Pipe, far) {
        Some(end) => end,
        None => {
            return None;
        },
    };
    let (ty, pos) = match typed_expr(input, pos, far) {
        Some(found) => found,
        None => {
            return None;
        },
    };
    let pos = match ws_lit(input, pos, Token::End, far) {
        Some(end) => end,
        None => {
            return None;
        },
    };
    let function = Expr::Fn(params, one(ty));
    assert(function@ is Fn);
    Some((Expr::TypedFn(Box::new(function)), pos))
}

/// The rule `typed_record_entry`.
#[verifier::spinoff_prover]
pub fn typed_record_entry(input: &Vec<char>, p: usize, far: &mut Furthest) -> (r: Option<
    (Vec<Expr>, usize),
>)
    requires
        p <= input.len(),
    ensures
        ({
            let step = grammar::typed_record_entry(input@, p as int, old(far)@);
            &&& final(far)@ == step.far
            &&& match r {
                Some((value, end)) => step.value == Some(nodes_of(value@)) && step.end == end
                    && p < end <= input.len(),
                None => step.value is None,
            }
        }),
    decreases input.len() - p, 1nat,
{
    proof {
        reveal(grammar::typed_record_entry);
        reveal(grammar::typed_expr);
    }
    let (key, pos) = match record_key(input, p, far) {
        Some(found) => found,
        None => {
            return None;
        },
    };
    let pos = match ws_lit_ws(input, pos, Token::Colon, far) {
        Some(end) => end,
        None => {
            return None;
        },
    };
    let (ty, pos) = match typed_expr(input, pos, far) {
        Some(found) => found,
        None => {
            return None;
        },
    };
    Some((pair(key, ty), pos))
}

/// The rule `typed_record_entries`.
#[verifier::spinoff_prover]
pub fn typed_record_entries(
    input: &Vec<char>,
    p: usize,
    far: &mut Furthest,
) -> (r: (Vec<Vec<Expr>>, usize))
    requires
        p <= input.len(),
    ensures
        ({
            let step = grammar::typed_record_entries(input@, p as int, old(far)@);
            &&& final(far)@ == step.far
            &&& step.value == Some(records_of(r.0@))
            &&& step.end == r.1
            &&& p <= r.1 <= input.len()
        }),
    decreases input.len() - p, 2nat,
{
    proof {
        reveal(grammar::typed_record_entries);
        reveal(grammar::typed_record_entries_more);
        reveal(grammar::typed_record_entry);
    }
    let mut items: Vec<Vec<Expr>> = Vec::new();
    let mut pos: usize = p;
    match typed_record_entry(input, p, far) {
        Some((first, end)) => {
            let ghost head = nodes_of(first@);
            items.push(first);
            assert(records_of(items@) =~= seq![head]);
            pos = end;
        },
        None => {
            assert(records_of(items@) =~= Seq::empty());
            return (items, p);
        },
    }
    loop
        invariant
            p < pos <= input.len(),
            ({
                let whole = grammar::typed_record_entries(input@, p as int, old(far)@);
                let rest = grammar::typed_record_entries_more(input@, pos as int, far@);
                &&& whole.far == rest.far
                &&& whole.end == rest.end
                &&& whole.value is Some
                &&& rest.value is Some
                &&& whole.value->0 =~= records_of(items@) + rest.value->0
            }),
        decreases input.len() - pos,
    {
        proof {
            reveal(grammar::typed_record_entries);
            reveal(grammar::typed_record_entries_more);
            reveal(grammar::typed_record_entry);
        }
        let after = match ws_lit_ws(input, pos, Token::Comma, far) {
            Some(end) => end,
            None => {
                return (items, pos);
            },
        };
        match typed_record_entry(input, after, far) {
            Some((next, end)) => {
                let ghost before = records_of(items@);
                let ghost added = nodes_of(next@);
                items.push(next);
                assert(records_of(items@) =~= before.push(added));
                pos = end;
            },
            None => {
                return (items, pos);
            },
        }
    }
}

/// The rule `typed_record`.
#[verifier::spinoff_prover]
pub fn typed_record(input: &Vec<char>, p: usize, far: &mut Furthest) -> (r: Option<(Expr, usize)>)
    requires
        p <= input.len(),
    ensures
        ({
            let step = grammar::typed_record(input@, p as int, old(far)@);
            &&& final(far)@ == step.far
            &&& match r {
                Some((value, end)) => step.value == Some(value@) && step.end == end
                    && p < end <= input.len(),
                None => step.value is None,
            }
        }),
    decreases input.len() - p, 1nat,
{
    proof {
        reveal(grammar::typed_record);
        reveal(grammar::typed_record_entries);
    }
    let pos = match lit_ws(input, p, Token::LBrace, far) {
        Some(end) => end,
        None => {
            return None;
        },
    };
    let (entries, pos) = typed_record_entries(input, pos, far);
    let pos = match ws_lit(input, pos, Token::RBrace, far) {
        Some(end) => end,
        None => {
            return None;
        },
    };
    let record = Expr::Record(entries);
    assert(record@ is Record);
    Some((Expr::TypedRecord(Box::new(record)), pos))
}

/// The rule `typed_member`.
#[verifier::spinoff_prover]
pub fn typed_member(input: &Vec<char>, p: usize, far: &mut Furthest) -> (r: Option<(Expr, usize)>)
    requires
        p <= input.len(),
    ensures
        ({
            let step = grammar::typed_member(input@, p as int, old(far)@);
            &&& final(far)@ == step.far
            &&& match r {
                Some((value, end)) => step.value == Some(value@) && step.end == end
                    && p < end <= input.len(),
                None => step.value is None,
            }
        }),
    decreases input.len() - p, 2nat,
{
    proof {
        reveal(grammar::typed_member);
        reveal(grammar::member_expr);
    }
    let (path, pos) = match member_expr(input, p, far) {
        Some(found) => found,
        None => {
            return None;
        },
    };
    Some((Expr::TypedMember(Box::new(path)), pos))
}

/// The rule `typed_symbol_generic`.
#[verifier::spinoff_prover]
pub fn typed_symbol_generic(input: &Vec<char>, p: usize, far: &mut Furthest) -> (r: Option<
    (Expr, usize),
>)
    requires
        p <= input.len(),
    ensures
        ({
            let step = grammar::typed_symbol_generic(input@, p as int, old(far)@);
            &&& final(far)@ == step.far
            &&& match r {
                Some((value, end)) => step.value == Some(value@) && step.end == end
                    && p < end <= input.len(),
                None => step.value is None,
            }
        }),
    decreases input.len() - p, 1nat,
{
    proof {
        reveal(grammar::typed_symbol_generic);
        reveal(grammar::type_generic);
    }
    let (name, pos) = match identifier(input, p, far) {
        Some(found) => found,
        None => {
            return None;
        },
    };
    let pos = skip(input, pos, far);
    let (args, pos) = match type_generic(input, pos, far) {
        Some(found) => found,
        None => {
            return None;
        },
    };
    Some((Expr::TypedSymbolGeneric(name, args), pos))
}

/// The rule `type_alias_plain`.
#[verifier::spinoff_prover]
pub fn type_alias_plain(input: &Vec<char>, p: usize, far: &mut Furthest) -> (r: Option<
    (Expr, usize),
>)
    requires
        p <= input.len(),
    ensures
        ({
            let step = grammar::type_alias_plain(input@, p as int, old(far)@);
            &&& final(far)@ == step.far
            &&& match r {
                Some((value, end)) => step.value == Some(value@) && step.end == end
                    && p < end <= input.len(),
                None => step.value is None,
            }
        }),
    decreases input.len() - p, 1nat,
{
    proof {
        reveal(grammar::type_alias_plain);
        reveal(grammar::typed_expr);
    }
    let pos = match lit_ws(input, p, Token::Type, far) {
        Some(end) => end,
        None => {
            return None;
        },
    };
    let (name, pos) = match identifier(input, pos, far) {
        Some(found) => found,
        None => {
            return None;
        },
    };
    let pos = match ws_lit_ws(input, pos, Token::Assign, far) {
        Some(end) => end,
        None => {
            return None;
        },
    };
    let (ty, pos) = match typed_expr(input, pos, far) {
        Some(found) => found,
        None => {
            return None;
        },
    };
    let pos = match ws_lit(input, pos, Token::End, far) {
        Some(end) => end,
        None => {
            return None;
        },
    };
    Some((Expr::TypeAlias(name, none(), Box::new(ty)), pos))
}

/// The rule `type_alias_generic`.
#[verifier::spinoff_prover]
pub fn type_alias_generic(input: &Vec<char>, p: usize, far: &mut Furthest) -> (r: Option<
    (Expr, usize),
>)
    requires
        p <= input.len(),
    ensures
        ({
            let step = grammar::type_alias_generic(input@, p as int, old(far)@);
            &&& final(far)@ == step.far
            &&& match r {
                Some((value, end)) => step.value == Some(value@) && step.end == end
                    && p < end <= input.len(),
                None => step.value is None,
            }
        }),
    decreases input.len() - p, 1nat,
{
    proof {
        reveal(grammar::type_alias_generic);
        reveal(grammar::type_generic);
        reveal(grammar::typed_expr);
    }
    let pos = match lit_ws(input, p, Token::Type, far) {
        Some(end) => end,
        None => {
            return None;
        },
    };
    let (name, pos) = match identifier(input, pos, far) {
        Some(found) => found,
        None => {
            return None;
        },
    };
    let pos = skip(input, pos, far);
    let (params, pos) = match type_generic(input, pos, far) {
        Some(found) => found,
        None => {
            return None;
        },
    };
    let pos = match ws_lit_ws(input, pos, Token::Assign, far) {
        Some(end) => end,
        None => {
            return None;
        },
    };
    let (ty, pos) = match typed_expr(input, pos, far) {
        Some(found) => found,
        None => {
            return None;
        },
    };
    let pos = match ws_lit(input, pos, Token::End, far) {
        Some(end) => end,
        None => {
            return None;
        },
    };
    Some((Expr::TypeAlias(name, params, Box::new(ty)), pos))
}

/// The rule `type_alias`.
#[verifier::spinoff_prover]
pub fn type_alias(input: &Vec<char>, p: usize, far: &mut Furthest) -> (r: Option<(Expr, usize)>)
    requires
        p <= input.len(),
    ensures
        ({
            let step = grammar::type_alias(input@, p as int, old(far)@);
            &&& final(far)@ == step.far
            &&& match r {
                Some((value, end)) => step.value == Some(value@) && step.end == end
                    && p < end <= input.len(),
                None => step.value is None,
            }
        }),
    decreases input.len() - p, 2nat,
{
    proof {
        reveal(grammar::type_alias);
        reveal(grammar::type_alias_plain);
        reveal(grammar::type_alias_generic);
    }
    match type_alias_plain(input, p, far) {
        Some(found) => {
            return Some(found);
        },
        None => {},
    }
    type_alias_generic(input, p, far)
}

/// The rule `typed_args`.
#[verifier::spinoff_prover]
pub fn typed_args(input: &Vec<char>, p: usize, far: &mut Furthest) -> (r: (Vec<Expr>, usize))
    requires
        p <= input.len(),
    ensures
        ({
            let step = grammar::typed_args(input@, p as int, old(far)@);
            &&& final(far)@ == step.far
            &&& step.value == Some(nodes_of(r.0@))
            &&& step.end == r.1
            &&& p <= r.1 <= input.len()
        }),
    decreases input.len() - p, 6nat,
{
    proof {
        reveal(grammar::typed_args);
        reveal(grammar::typed_args_more);
        reveal(grammar::typed_expr);
    }
    let mut items: Vec<Expr> = Vec::new();
    let mut pos: usize = p;
    match typed_expr(input, p, far) {
        Some((first, end)) => {
            let ghost head = first@;
            items.push(first);
            assert(nodes_of(items@) =~= seq![head]);
            pos = end;
        },
        None => {
            assert(nodes_of(items@) =~= Seq::empty());
            return (items, p);
        },
    }
    loop
        invariant
            p < pos <= input.len(),
            ({
                let whole = grammar::typed_args(input@, p as int, old(far)@);
                let rest = grammar::typed_args_more(input@, pos as int, far@);
                &&& whole.far == rest.far
                &&& whole.end == rest.end
                &&& whole.value is Some
                &&& rest.value is Some
                &&& whole.value->0 =~= nodes_of(items@) + rest.value->0
            }),
        decreases input.len() - pos,
    {
        proof {
            reveal(grammar::typed_args);
            reveal(grammar::typed_args_more);
            reveal(grammar::typed_expr);
        }
        let after = match ws_lit_ws(input, pos, Token::Comma, far) {
            Some(end) => end,
            None => {
                return (items, pos);
            },
        };
        match typed_expr(input, after, far) {
            Some((next, end)) => {
                let ghost before = nodes_of(items@);
                let ghost added = next@;
                items.push(next);
                assert(nodes_of(items@) =~= before.push(added));
                pos = end;
            },
            None => {
                return (items, pos);
            },
        }
    }
}

/// The rule `type_generic`.
#[verifier::spinoff_prover]
pub fn type_generic(input: &Vec<char>, p: usize, far: &mut Furthest) -> (r: Option<
    (Vec<Expr>, usize),
>)
    requires
        p <= input.len(),
    ensures
        ({
            let step = grammar::type_generic(input@, p as int, old(far)@);
            &&& final(far)@ == step.far
            &&& match r {
                Some((value, end)) => step.value == Some(nodes_of(value@)) && step.end == end
                    && p < end <= input.len(),
                None => step.value is None,
            }
        }),
    decreases input.len() - p, 1nat,
{
    proof {
        reveal(grammar::type_generic);
        reveal(grammar::typed_args);
    }
    let pos = match lit_ws(input, p, Token::Less, far) {
        Some(end) => end,
        None => {
            return None;
        },
    };
    let (args, pos) = typed_args(input, pos, far);
    let pos = match ws_lit(input, pos, Token::Greater, far) {
        Some(end) => end,
        None => {
            return None;
        },
    };
    Some((args, pos))
}

/// The rule `typed_rest`.
#[verifier::spinoff_prover]
pub fn typed_rest(input: &Vec<char>, p: usize, far: &mut Furthest) -> (r: (Vec<Expr>, usize))
    requires
        p <= input.len(),
    ensures
        ({
            let step = grammar::typed_rest(input@, p as int, old(far)@);
            &&& final(far)@ == step.far
            &&& step.value == Some(nodes_of(r.0@))
            &&& step.end == r.1
            &&& p <= r.1 <= input.len()
        }),
    decreases input.len() - p, 6nat,
{
    proof {
        reveal(grammar::typed_rest);
        reveal(grammar::typed_expr);
    }
    let mut items: Vec<Expr> = Vec::new();
    let mut pos: usize = p;
    assert(nodes_of(items@) =~= Seq::empty());
    loop
        invariant
            p <= pos <= input.len(),
            ({
                let whole = grammar::typed_rest(input@, p as int, old(far)@);
                let rest = grammar::typed_rest(input@, pos as int, far@);
                &&& whole.far == rest.far
                &&& whole.end == rest.end
                &&& whole.value is Some
                &&& rest.value is Some
                &&& whole.value->0 =~= nodes_of(items@) + rest.value->0
            }),
        decreases input.len() - pos,
    {
        proof {
            reveal(grammar::typed_rest);
            reveal(grammar::typed_expr);
        }
        match typed_expr(input, pos, far) {
            Some((next, end)) => {
                let ghost before = nodes_of(items@);
                let ghost added = next@;
                items.push(next);
                assert(nodes_of(items@) =~= before.push(added));
                pos = end;
            },
            None => {
                return (items, pos);
            },
        }
    }
}

/// The rule `typed_variant`.
#[verifier::spinoff_prover]
pub fn typed_variant(input: &Vec<char>, p: usize, far: &mut Furthest) -> (r: Option<(Expr, usize)>)
    requires
        p <= input.len(),
    ensures
        ({
            let step = grammar::typed_variant(input@, p as int, old(far)@);
            &&& final(far)@ == step.far
            &&& match r {
                Some((value, end)) => step.value == Some(value@) && step.end == end
                    && p < end <= input.len(),
                None => step.value is None,
            }
        }),
    decreases input.len() - p, 1nat,
{
    proof {
        reveal(grammar::typed_variant);
        reveal(grammar::typed_expr);
        reveal(grammar::typed_rest);
    }
    let pos = match lit_ws(input, p, Token::Pipe, far) {
        Some(end) => end,
        None => {
            return None;
        },
    };
    let (first, pos) = match typed_expr(input, pos, far) {
        Some(found) => found,
        None => {
            return None;
        },
    };
    let pos = match ws_lit_ws(input, pos, Token::Pipe, far) {
        Some(end) => end,
        None => {
            return None;
        },
    };
    let (rest, pos) = typed_rest(input, pos, far);
    Some((chain_variants(first, rest), pos))
}

/// The rule `typed_unary`.
#[verifier::spinoff_prover]
pub fn typed_unary(input: &Vec<char>, p: usize, far: &mut Furthest) -> (r: Option<(Expr, usize)>)
    requires
        p <= input.len(),
    ensures
        ({
            let step = grammar::typed_unary(input@, p as int, old(far)@);
            &&& final(far)@ == step.far
            &&& match r {
                Some((value, end)) => step.value == Some(value@) && step.end == end
                    && p < end <= input.len(),
                None => step.value is None,
            }
        }),
    decreases input.len() - p, 4nat,
{
    proof {
        reveal(grammar::typed_unary);
        reveal(grammar::typed_unary_ops);
        reveal(grammar::typed_primary);
    }
    let (ops, pos) = typed_unary_ops(input, p, far);
    let (inner, pos) = match typed_primary(input, pos, far) {
        Some(found) => found,
        None => {
            return None;
        },
    };
    Some((apply_typed_prefix(ops, inner), pos))
}

/// The rule `typed_primary`.
#[verifier::spinoff_prover]
pub fn typed_primary(input: &Vec<char>, p: usize, far: &mut Furthest) -> (r: Option<(Expr, usize)>)
    requires
        p <= input.len(),
    ensures
        ({
            let step = grammar::typed_primary(input@, p as int, old(far)@);
            &&& final(far)@ == step.far
            &&& match r {
                Some((value, end)) => step.value == Some(value@) && step.end == end
                    && p < end <= input.len(),
                None => step.value is None,
            }
        }),
    decreases input.len() - p, 3nat,
{
    proof {
        reveal(grammar::typed_primary);
        reveal(grammar::typed_member);
        reveal(grammar::typed_symbol_generic);
        reveal(grammar::typed_optional);
        reveal(grammar::typed_record);
        reveal(grammar::typed_variant);
        reveal(grammar::typed_fn_expr);
    }
    match typed_literal(input, p, far) {
        Some(found) => {
            return Some(found);
        },
        None => {},
    }
    match typed_member(input, p, far) {
        Some(found) => {
            return Some(found);
        },
        None => {},
    }
    match typed_symbol_generic(input, p, far) {
        Some(found) => {
            return Some(found);
        },
        None => {},
    }
    match typed_symbol(input, p, far) {
        Some(found) => {
            return Some(found);
        },
        None => {},
    }
    match typed_optional(input, p, far) {
        Some(found) => {
            return Some(found);
        },
        None => {},
    }
    match typed_record(input, p, far) {
        Some(found) => {
            return Some(found);
        },
        None => {},
    }
    match typed_variant(input, p, far) {
        Some(found) => {
            return Some(found);
        },
        None => {},
    }
    typed_fn_expr(input, p, far)
}

/// The rule `typed_expr`.
#[verifier::spinoff_prover]
pub fn typed_expr(input: &Vec<char>, p: usize, far: &mut Furthest) -> (r: Option<(Expr, usize)>)
    requires
        p <= input.len(),
    ensures
        ({
            let step = grammar::typed_expr(input@, p as int, old(far)@);
            &&& final(far)@ == step.far
            &&& match r {
                Some((value, end)) => step.value == Some(value@) && step.end == end
                    && p < end <= input.len(),
                None => step.value is None,
            }
        }),
    decreases input.len() - p, 5nat,
{
    proof {
        reveal(grammar::typed_expr);
        reveal(grammar::typed_unary);
        reveal(grammar::typed_primary);
    }
    match typed_unary(input, p, far) {
        Some(found) => {
            return Some(found);
        },
        None => {},
    }
    typed_primary(input, p, far)
}

/// The rule `segments`.
#[verifier::spinoff_prover]
pub fn segments(input: &Vec<char>, p: usize, far: &mut Furthest) -> (r: (Vec<Expr>, usize))
    requires
        p <= input.len(),
    ensures
        ({
            let step = grammar::segments(input@, p as int, old(far)@);
            &&& final(far)@ == step.far
            &&& step.value == Some(nodes_of(r.0@))
            &&& step.end == r.1
            &&& p <= r.1 <= input.len()
        }),
    decreases input.len() - p, 6nat,
{
    proof {
        reveal(grammar::segments);
        reveal(grammar::segment);
    }
    let mut items: Vec<Expr> = Vec::new();
    let mut pos: usize = p;
    assert(nodes_of(items@) =~= Seq::empty());
    loop
        invariant
            p <= pos <= input.len(),
            ({
                let whole = grammar::segments(input@, p as int, old(far)@);
                let rest = grammar::segments(input@, pos as int, far@);
                &&& whole.far == rest.far
                &&& whole.end == rest.end
                &&& whole.value is Some
                &&& rest.value is Some
                &&& whole.value->0 =~= nodes_of(items@) + rest.value->0
            }),
        decreases input.len() - pos,
    {
        proof {
            reveal(grammar::segments);
            reveal(grammar::segment);
        }
        match segment(input, pos, far) {
            Some((next, end)) => {
                let ghost before = nodes_of(items@);
                let ghost added = next@;
                items.push(next);
                assert(nodes_of(items@) =~= before.push(added));
                pos = end;
            },
            None => {
                return (items, pos);
            },
        }
    }
}

/// The rule `member_expr`.
#[verifier::spinoff_prover]
pub fn member_expr(input: &Vec<char>, p: usize, far: &mut Furthest) -> (r: Option<(Expr, usize)>)
    requires
        p <= input.len(),
    ensures
        ({
            let step = grammar::member_expr(input@, p as int, old(far)@);
            &&& final(far)@ == step.far
            &&& match r {
                Some((value, end)) => step.value == Some(value@) && step.end == end
                    && p < end <= input.len(),
                None => step.value is None,
            }
        }),
    decreases input.len() - p, 1nat,
{
    proof {
        reveal(grammar::member_expr);
        reveal(grammar::segments);
    }
    let (base, pos) = match identifier_expr(input, p, far) {
        Some(found) => found,
        None => {
            return None;
        },
    };
    let pos = match ws_lit_ws(input, pos, Token::Dot, far) {
        Some(end) => end,
        None => {
            return None;
        },
    };
    let (rest, pos) = segments(input, pos, far);
    Some((Expr::Member(with_first(base, rest)), pos))
}

/// The rule `segment`.
#[verifier::spinoff_prover]
pub fn segment(input: &Vec<char>, p: usize, far: &mut Furthest) -> (r: Option<(Expr, usize)>)
    requires
        p <= input.len(),
    ensures
        ({
            let step = grammar::segment(input@, p as int, old(far)@);
            &&& final(far)@ == step.far
            &&& match r {
                Some((value, end)) => step.value == Some(value@) && step.end == end
                    && p < end <= input.len(),
                None => step.value is None,
            }
        }),
    decreases input.len() - p, 5nat,
{
    proof {
        reveal(grammar::segment);
        reveal(grammar::member_expr);
        reveal(grammar::call_expr);
    }
    match member_expr(input, p, far) {
        Some(found) => {
            return Some(found);
        },
        None => {},
    }
    call_expr(input, p, far)
}

/// The rule `callee`.
#[verifier::spinoff_prover]
pub fn callee(input: &Vec<char>, p: usize, far: &mut Furthest) -> (r: Option<(Expr, usize)>)
    requires
        p <= input.len(),
    ensures
        ({
            let step = grammar::callee(input@, p as int, old(far)@);
            &&& final(far)@ == step.far
            &&& match r {
                Some((value, end)) => step.value == Some(value@) && step.end == end
                    && p < end <= input.len(),
                None => step.value is None,
            }
        }),
    decreases input.len() - p, 2nat,
{
    proof {
        reveal(grammar::callee);
        reveal(grammar::fn_expr);
        reveal(grammar::member_expr);
    }
    match fn_expr(input, p, far) {
        Some(found) => {
            return Some(found);
        },
        None => {},
    }
    match identifier_expr(input, p, far) {
        Some(found) => {
            return Some(found);
        },
        None => {},
    }
    member_expr(input, p, far)
}

/// The rule `typed_callee`.
#[verifier::spinoff_prover]
pub fn typed_callee(input: &Vec<char>, p: usize, far: &mut Furthest) -> (r: Option<(Expr, usize)>)
    requires
        p <= input.len(),
    ensures
        ({
            let step = grammar::typed_callee(input@, p as int, old(far)@);
            &&& final(far)@ == step.far
            &&& match r {
                Some((value, end)) => step.value == Some(value@) && step.end == end
                    && p < end <= input.len(),
                None => step.value is None,
            }
        }),
    decreases input.len() - p, 2nat,
{
    proof {
        reveal(grammar::typed_callee);
        reveal(grammar::member_expr);
    }
    match identifier_expr(input, p, far) {
        Some(found) => {
            return Some(found);
        },
        None => {},
    }
    member_expr(input, p, far)
}

/// The rule `args`.
#[verifier::spinoff_prover]
pub fn args(input: &Vec<char>, p: usize, far: &mut Furthest) -> (r: (Vec<Expr>, usize))
    requires
        p <= input.len(),
    ensures
        ({
            let step = grammar::args(input@, p as int, old(far)@);
            &&& final(far)@ == step.far
            &&& step.value == Some(nodes_of(r.0@))
            &&& step.end == r.1
            &&& p <= r.1 <= input.len()
        }),
    decreases input.len() - p, 13nat,
{
    proof {
        reveal(grammar::args);
        reveal(grammar::args_more);
        reveal(grammar::expr);
    }
    let mut items: Vec<Expr> = Vec::new();
    let mut pos: usize = p;
    match expr(input, p, far) {
        Some((first, end)) => {
            let ghost head = first@;
            items.push(first);
            assert(nodes_of(items@) =~= seq![head]);
            pos = end;
        },
        None => {
            assert(nodes_of(items@) =~= Seq::empty());
            return (items, p);
        },
    }
    loop
        invariant
            p < pos <= input.len(),
            ({
                let whole = grammar::args(input@, p as int, old(far)@);
                let rest = grammar::args_more(input@, pos as int, far@);
                &&& whole.far == rest.far
                &&& whole.end == rest.end
                &&& whole.value is Some
                &&& rest.value is Some
                &&& whole.value->0 =~= nodes_of(items@) + rest.value->0
            }),
        decreases input.len() - pos,
    {
        proof {
            reveal(grammar::args);
            reveal(grammar::args_more);
            reveal(grammar::expr);
        }
        let after = match ws_lit_ws(input, pos, Token::Comma, far) {
            Some(end) => end,
            None => {
                return (items, pos);
            },
        };
        match expr(input, after, far) {
            Some((next, end)) => {
                let ghost before = nodes_of(items@);
                let ghost added = next@;
                items.push(next);
                assert(nodes_of(items@) =~= before.push(added));
                pos = end;
            },
            None => {
                return (items, pos);
            },
        }
    }
}

/// The rule `call_plain`.
#[verifier::spinoff_prover]
pub fn call_plain(input: &Vec<char>, p: usize, far: &mut Furthest) -> (r: Option<(Expr, usize)>)
    requires
        p <= input.len(),
    ensures
        ({
            let step = grammar::call_plain(input@, p as int, old(far)@);
            &&& final(far)@ == step.far
            &&& match r {
                Some((value, end)) => step.value == Some(value@) && step.end == end
                    && p < end <= input.len(),
                None => step.value is None,
            }
        }),
    decreases input.len() - p, 3nat,
{
    proof {
        reveal(grammar::call_plain);
        reveal(grammar::callee);
        reveal(grammar::args);
    }
    let (target, pos) = match callee(input, p, far) {
        Some(found) => found,
        None => {
            return None;
        },
    };
    let pos = match lit_ws(input, pos, Token::LParen, far) {
        Some(end) => end,
        None => {
            return None;
        },
    };
    let (args, pos) = args(input, pos, far);
    let pos = match ws_lit(input, pos, Token::RParen, far) {
        Some(end) => end,
        None => {
            return None;
        },
    };
    Some((Expr::Call(Box::new(target), args), pos))
}

/// The rule `call_typed`.
#[verifier::spinoff_prover]
pub fn call_typed(input: &Vec<char>, p: usize, far: &mut Furthest) -> (r: Option<(Expr, usize)>)
    requires
        p <= input.len(),
    ensures
        ({
            let step = grammar::call_typed(input@, p as int, old(far)@);
            &&& final(far)@ == step.far
            &&& match r {
                Some((value, end)) => step.value == Some(value@) && step.end == end
                    && p < end <= input.len(),
                None => step.value is None,
            }
        }),
    decreases input.len() - p, 3nat,
{
    proof {
        reveal(grammar::call_typed);
        reveal(grammar::typed_callee);
        reveal(grammar::type_generic);
        reveal(grammar::args);
    }
    let (target, pos) = match typed_callee(input, p, far) {
        Some(found) => found,
        None => {
            return None;
        },
    };
    let pos = skip(input, pos, far);
    let (generics, pos) = match type_generic(input, pos, far) {
        Some(found) => found,
        None => {
            return None;
        },
    };
    let pos = match ws_lit_ws(input, pos, Token::LParen, far) {
        Some(end) => end,
        None => {
            return None;
        },
    };
    let (args, pos) = args(input, pos, far);
    let pos = match ws_lit(input, pos, Token::RParen, far) {
        Some(end) => end,
        None => {
            return None;
        },
    };
    Some((Expr::TypedCall(Box::new(target), generics, args), pos))
}

/// The rule `call_expr`.
#[verifier::spinoff_prover]
pub fn call_expr(input: &Vec<char>, p: usize, far: &mut Furthest) -> (r: Option<(Expr, usize)>)
    requires
        p <= input.len(),
    ensures
        ({
            let step = grammar::call_expr(input@, p as int, old(far)@);
            &&& final(far)@ == step.far
            &&& match r {
                Some((value, end)) => step.value == Some(value@) && step.end == end
                    && p < end <= input.len(),
                None => step.value is None,
            }
        }),
    decreases input.len() - p, 4nat,
{
    proof {
        reveal(grammar::call_expr);
        reveal(grammar::call_plain);
        reveal(grammar::call_typed);
    }
    match call_plain(input, p, far) {
        Some(found) => {
            return Some(found);
        },
        None => {},
    }
    call_typed(input, p, far)
}

/// The rule `directive_name`.
#[verifier::spinoff_prover]
pub fn directive_name(input: &Vec<char>, p: usize, far: &mut Furthest) -> (r: Option<(Expr, usize)>)
    requires
        p <= input.len(),
    ensures
        ({
            let step = grammar::directive_name(input@, p as int, old(far)@);
            &&& final(far)@ == step.far
            &&& match r {
                Some((value, end)) => step.value == Some(value@) && step.end == end
                    && p < end <= input.len(),
                None => step.value is None,
            }
        }),
    decreases input.len() - p, 5nat,
{
    proof {
        reveal(grammar::directive_name);
        reveal(grammar::call_expr);
    }
    match call_expr(input, p, far) {
        Some(found) => {
            return Some(found);
        },
        None => {},
    }
    identifier_expr(input, p, far)
}

/// The rule `directive_expr`.
#[verifier::spinoff_prover]
pub fn directive_expr(input: &Vec<char>, p: usize, far: &mut Furthest) -> (r: Option<(Expr, usize)>)
    requires
        p <= input.len(),
    ensures
        ({
            let step = grammar::directive_expr(input@, p as int, old(far)@);
            &&& final(far)@ == step.far
            &&& match r {
                Some((value, end)) => step.value == Some(value@) && step.end == end
                    && p < end <= input.len(),
                None => step.value is None,
            }
        }),
    decreases input.len() - p, 1nat,
{
    proof {
        reveal(grammar::directive_expr);
        reveal(grammar::directive_name);
        reveal(grammar::primary);
    }
    let pos = match lit_ws(input, p, Token::At, far) {
        Some(end) => end,
        None => {
            return None;
        },
    };
    let (directive, pos) = match directive_name(input, pos, far) {
        Some(found) => found,
        None => {
            return None;
        },
    };
    let pos = skip(input, pos, far);
    let (target, pos) = match primary(input, pos, far) {
        Some(found) => found,
        None => {
            return None;
        },
    };
    Some((Expr::Directive(Box::new(directive), Box::new(target)), pos))
}

/// The rule `let_plain`.
#[verifier::spinoff_prover]
pub fn let_plain(input: &Vec<char>, p: usize, far: &mut Furthest) -> (r: Option<(Expr, usize)>)
    requires
        p <= input.len(),
    ensures
        ({
            let step = grammar::let_plain(input@, p as int, old(far)@);
            &&& final(far)@ == step.far
            &&& match r {
                Some((value, end)) => step.value == Some(value@) && step.end == end
                    && p < end <= input.len(),
                None => step.value is None,
            }
        }),
    decreases input.len() - p, 1nat,
{
    proof {
        reveal(grammar::let_plain);
        reveal(grammar::expr);
    }
    let pos = match lit_ws(input, p, Token::Let, far) {
        Some(end) => end,
        None => {
            return None;
        },
    };
    let (name, pos) = match identifier(input, pos, far) {
        Some(found) => found,
        None => {
            return None;
        },
    };
    let pos = match ws_lit_ws(input, pos, Token::Assign, far) {
        Some(end) => end,
        None => {
            return None;
        },
    };
    let (value, pos) = match expr(input, pos, far) {
        Some(found) => found,
        None => {
            return None;
        },
    };
    Some((Expr::Let(name, Box::new(value)), pos))
}

/// The rule `let_typed`.
#[verifier::spinoff_prover]
pub fn let_typed(input: &Vec<char>, p: usize, far: &mut Furthest) -> (r: Option<(Expr, usize)>)
    requires
        p <= input.len(),
    ensures
        ({
            let step = grammar::let_typed(input@, p as int, old(far)@);
            &&& final(far)@ == step.far
            &&& match r {
                Some((value, end)) => step.value == Some(value@) && step.end == end
                    && p < end <= input.len(),
                None => step.value is None,
            }
        }),
    decreases input.len() - p, 1nat,
{
    proof {
        reveal(grammar::let_typed);
        reveal(grammar::typed_expr);
        reveal(grammar::expr);
    }
    let pos = match lit_ws(input, p, Token::Let, far) {
        Some(end) => end,
        None => {
            return None;
        },
    };
    let (name, pos) = match identifier(input, pos, far) {
        Some(found) => found,
        None => {
            return None;
        },
    };
    let pos = match ws_lit_ws(input, pos, Token::Colon, far) {
        Some(end) => end,
        None => {
            return None;
        },
    };
    let (ty, pos) = match typed_expr(input, pos, far) {
        Some(found) => found,
        None => {
            return None;
        },
    };
    let pos = match ws_lit_ws(input, pos, Token::Assign, far) {
        Some(end) => end,
        None => {
            return None;
        },
    };
    let (value, pos) = match expr(input, pos, far) {
        Some(found) => found,
        None => {
            return None;
        },
    };
    Some((Expr::TypedLet(name, Box::new(ty), Box::new(value)), pos))
}

/// The rule `let_binding`.
#[verifier::spinoff_prover]
pub fn let_binding(input: &Vec<char>, p: usize, far: &mut Furthest) -> (r: Option<(Expr, usize)>)
    requires
        p <= input.len(),
    ensures
        ({
            let step = grammar::let_binding(input@, p as int, old(far)@);
            &&& final(far)@ == step.far
            &&& match r {
                Some((value, end)) => step.value == Some(value@) && step.end == end
                    && p < end <= input.len(),
                None => step.value is None,
            }
        }),
    decreases input.len() - p, 2nat,
{
    proof {
        reveal(grammar::let_binding);
        reveal(grammar::let_plain);
        reveal(grammar::let_typed);
    }
    match let_plain(input, p, far) {
        Some(found) => {
            return Some(found);
        },
        None => {},
    }
    let_typed(input, p, far)
}

/// The rule `assignable`.
#[verifier::spinoff_prover]
pub fn assignable(input: &Vec<char>, p: usize, far: &mut Furthest) -> (r: Option<(Expr, usize)>)
    requires
        p <= input.len(),
    ensures
        ({
            let step = grammar::assignable(input@, p as int, old(far)@);
            &&& final(far)@ == step.far
            &&& match r {
                Some((value, end)) => step.value == Some(value@) && step.end == end
                    && p < end <= input.len(),
                None => step.value is None,
            }
        }),
    decreases input.len() - p, 2nat,
{
    proof {
        reveal(grammar::assignable);
        reveal(grammar::member_expr);
    }
    match member_expr(input, p, far) {
        Some(found) => {
            return Some(found);
        },
        None => {},
    }
    identifier_expr(input, p, far)
}

/// The rule `assign`.
#[verifier::spinoff_prover]
pub fn assign(input: &Vec<char>, p: usize, far: &mut Furthest) -> (r: Option<(Expr, usize)>)
    requires
        p <= input.len(),
    ensures
        ({
            let step = grammar::assign(input@, p as int, old(far)@);
            &&& final(far)@ == step.far
            &&& match r {
                Some((value, end)) => step.value == Some(value@) && step.end == end
                    && p < end <= input.len(),
                None => step.value is None,
            }
        }),
    decreases input.len() - p, 3nat,
{
    proof {
        reveal(grammar::assign);
        reveal(grammar::assignable);
        reveal(grammar::expr);
    }
    let (target, pos) = match assignable(input, p, far) {
        Some(found) => found,
        None => {
            return None;
        },
    };
    let pos = match ws_lit_ws(input, pos, Token::Assign, far) {
        Some(end) => end,
        None => {
            return None;
        },
    };
    let (value, pos) = match expr(input, pos, far) {
        Some(found) => found,
        None => {
            return None;
        },
    };
    Some((Expr::Assign(Box::new(target), Box::new(value)), pos))
}

/// The rule `paren_expr`.
#[verifier::spinoff_prover]
pub fn paren_expr(input: &Vec<char>, p: usize, far: &mut Furthest) -> (r: Option<(Expr, usize)>)
    requires
        p <= input.len(),
    ensures
        ({
            let step = grammar::paren_expr(input@, p as int, old(far)@);
            &&& final(far)@ == step.far
            &&& match r {
                Some((value, end)) => step.value == Some(value@) && step.end == end
                    && p < end <= input.len(),
                None => step.value is None,
            }
        }),
    decreases input.len() - p, 1nat,
{
    proof {
        reveal(grammar::paren_expr);
        reveal(grammar::expr);
    }
    let pos = match lit_ws(input, p, Token::LParen, far) {
        Some(end) => end,
        None => {
            return None;
        },
    };
    let (inner, pos) = match expr(input, pos, far) {
        Some(found) => found,
        None => {
            return None;
        },
    };
    let pos = match ws_lit(input, pos, Token::RParen, far) {
        Some(end) => end,
        None => {
            return None;
        },
    };
    Some((inner, pos))
}

/// The rule `list`.
#[verifier::spinoff_prover]
pub fn list(input: &Vec<char>, p: usize, far: &mut Furthest) -> (r: Option<(Expr, usize)>)
    requires
        p <= input.len(),
    ensures
        ({
            let step = grammar::list(input@, p as int, old(far)@);
            &&& final(far)@ == step.far
            &&& match r {
                Some((value, end)) => step.value == Some(value@) && step.end == end
                    && p < end <= input.len(),
                None => step.value is None,
            }
        }),
    decreases input.len() - p, 1nat,
{
    proof {
        reveal(grammar::list);
        reveal(grammar::args);
    }
    let pos = match lit(input, p, Token::LBracket, far) {
        Some(end) => end,
        None => {
            return None;
        },
    };
    let (items, pos) = args(input, pos, far);
    let pos = match lit(input, pos, Token::RBracket, far) {
        Some(end) => end,
        None => {
            return None;
        },
    };
    Some((Expr::List(items), pos))
}

/// The rule `record_entry`.
#[verifier::spinoff_prover]
pub fn record_entry(input: &Vec<char>, p: usize, far: &mut Furthest) -> (r: Option<
    (Vec<Expr>, usize),
>)
    requires
        p <= input.len(),
    ensures
        ({
            let step = grammar::record_entry(input@, p as int, old(far)@);
            &&& final(far)@ == step.far
            &&& match r {
                Some((value, end)) => step.value == Some(nodes_of(value@)) && step.end == end
                    && p < end <= input.len(),
                None => step.value is None,
            }
        }),
    decreases input.len() - p, 1nat,
{
    proof {
        reveal(grammar::record_entry);
        reveal(grammar::expr);
    }
    let (key, pos) = match record_key(input, p, far) {
        Some(found) => found,
        None => {
            return None;
        },
    };
    let pos = match ws_lit_ws(input, pos, Token::Colon, far) {
        Some(end) => end,
        None => {
            return None;
        },
    };
    let (value, pos) = match expr(input, pos, far) {
        Some(found) => found,
        None => {
            return None;
        },
    };
    Some((pair(key, value), pos))
}

/// The rule `record_entries`.
#[verifier::spinoff_prover]
pub fn record_entries(
    input: &Vec<char>,
    p: usize,
    far: &mut Furthest,
) -> (r: (Vec<Vec<Expr>>, usize))
    requires
        p <= input.len(),
    ensures
        ({
            let step = grammar::record_entries(input@, p as int, old(far)@);
            &&& final(far)@ == step.far
            &&& step.value == Some(records_of(r.0@))
            &&& step.end == r.1
            &&& p <= r.1 <= input.len()
        }),
    decreases input.len() - p, 2nat,
{
    proof {
        reveal(grammar::record_entries);
        reveal(grammar::record_entries_more);
        reveal(grammar::record_entry);
    }
    let mut items: Vec<Vec<Expr>> = Vec::new();
    let mut pos: usize = p;
    match record_entry(input, p, far) {
        Some((first, end)) => {
            let ghost head = nodes_of(first@);
            items.push(first);
            assert(records_of(items@) =~= seq![head]);
            pos = end;
        },
        None => {
            assert(records_of(items@) =~= Seq::empty());
            return (items, p);
        },
    }
    loop
        invariant
            p < pos <= input.len(),
            ({
                let whole = grammar::record_entries(input@, p as int, old(far)@);
                let rest = grammar::record_entries_more(input@, pos as int, far@);
                &&& whole.far == rest.far
                &&& whole.end == rest.end
                &&& whole.value is Some
                &&& rest.value is Some
                &&& whole.value->0 =~= records_of(items@) + rest.value->0
            }),
        decreases input.len() - pos,
    {
        proof {
            reveal(grammar::record_entries);
            reveal(grammar::record_entries_more);
            reveal(grammar::record_entry);
        }
        let after = match ws_lit_ws(input, pos, Token::Comma, far) {
            Some(end) => end,
            None => {
                return (items, pos);
            },
        };
        match record_entry(input, after, far) {
            Some((next, end)) => {
                let ghost before = records_of(items@);
                let ghost added = nodes_of(next@);
                items.push(next);
                assert(records_of(items@) =~= before.push(added));
                pos = end;
            },
            None => {
                return (items, pos);
            },
        }
    }
}

/// The rule `record`.
#[verifier::spinoff_prover]
pub fn record(input: &Vec<char>, p: usize, far: &mut Furthest) -> (r: Option<(Expr, usize)>)
    requires
        p <= input.len(),
    ensures
        ({
            let step = grammar::record(input@, p as int, old(far)@);
            &&& final(far)@ == step.far
            &&& match r {
                Some((value, end)) => step.value == Some(value@) && step.end == end
                    && p < end <= input.len(),
                None => step.value is None,
            }
        }),
    decreases input.len() - p, 1nat,
{
    proof {
        reveal(grammar::record);
        reveal(grammar::record_entries);
    }
    let pos = match lit_ws(input, p, Token::LBrace, far) {
        Some(end) => end,
        None => {
            return None;
        },
    };
    let (entries, pos) = record_entries(input, pos, far);
    let pos = match ws_lit(input, pos, Token::RBrace, far) {
        Some(end) => end,
        None => {
            return None;
        },
    };
    Some((Expr::Record(entries), pos))
}

/// The rule `field_entry`.
#[verifier::spinoff_prover]
pub fn field_entry(input: &Vec<char>, p: usize, far: &mut Furthest) -> (r: Option<
    ((String, Expr), usize),
>)
    requires
        p <= input.len(),
    ensures
        ({
            let step = grammar::field_entry(input@, p as int, old(far)@);
            &&& final(far)@ == step.far
            &&& match r {
                Some((value, end)) => step.value == Some((value.0@, value.1@)) && step.end == end
                    && p < end <= input.len(),
                None => step.value is None,
            }
        }),
    decreases input.len() - p, 1nat,
{
    proof {
        reveal(grammar::field_entry);
        reveal(grammar::typed_expr);
    }
    let (name, pos) = match identifier(input, p, far) {
        Some(found) => found,
        None => {
            return None;
        },
    };
    let pos = match ws_lit_ws(input, pos, Token::Colon, far) {
        Some(end) => end,
        None => {
            return None;
        },
    };
    let (ty, pos) = match typed_expr(input, pos, far) {
        Some(found) => found,
        None => {
            return None;
        },
    };
    Some(((name, ty), pos))
}

/// The rule `method_entry`.
#[verifier::spinoff_prover]
pub fn method_entry(input: &Vec<char>, p: usize, far: &mut Furthest) -> (r: Option<
    ((String, Expr), usize),
>)
    requires
        p <= input.len(),
    ensures
        ({
            let step = grammar::method_entry(input@, p as int, old(far)@);
            &&& final(far)@ == step.far
            &&& match r {
                Some((value, end)) => step.value == Some((value.0@, value.1@)) && step.end == end
                    && p < end <= input.len(),
                None => step.value is None,
            }
        }),
    decreases input.len() - p, 1nat,
{
    proof {
        reveal(grammar::method_entry);
        reveal(grammar::fn_expr);
    }
    let (name, pos) = match identifier(input, p, far) {
        Some(found) => found,
        None => {
            return None;
        },
    };
    let pos = match ws_lit_ws(input, pos, Token::Colon, far) {
        Some(end) => end,
        None => {
            return None;
        },
    };
    let (method, pos) = match fn_expr(input, pos, far) {
        Some(found) => found,
        None => {
            return None;
        },
    };
    Some(((name, method), pos))
}

/// The rule `struct_entry`.
#[verifier::spinoff_prover]
pub fn struct_entry(input: &Vec<char>, p: usize, far: &mut Furthest) -> (r: Option<
    ((String, Expr), usize),
>)
    requires
        p <= input.len(),
    ensures
        ({
            let step = grammar::struct_entry(input@, p as int, old(far)@);
            &&& final(far)@ == step.far
            &&& match r {
                Some((value, end)) => step.value == Some((value.0@, value.1@)) && step.end == end
                    && p < end <= input.len(),
                None => step.value is None,
            }
        }),
    decreases input.len() - p, 2nat,
{
    proof {
        reveal(grammar::struct_entry);
        reveal(grammar::field_entry);
        reveal(grammar::method_entry);
    }
    match field_entry(input, p, far) {
        Some(found) => {
            return Some(found);
        },
        None => {},
    }
    method_entry(input, p, far)
}

/// The rule `struct_entries`.
#[verifier::spinoff_prover]
pub fn struct_entries(
    input: &Vec<char>,
    p: usize,
    far: &mut Furthest,
) -> (r: (Vec<(String, Expr)>, usize))
    requires
        p <= input.len(),
    ensures
        ({
            let step = grammar::struct_entries(input@, p as int, old(far)@);
            &&& final(far)@ == step.far
            &&& step.value == Some(entries_of(r.0@))
            &&& step.end == r.1
            &&& p <= r.1 <= input.len()
        }),
    decreases input.len() - p, 3nat,
{
    proof {
        reveal(grammar::struct_entries);
        reveal(grammar::struct_entries_more);
        reveal(grammar::struct_entry);
    }
    let mut items: Vec<(String, Expr)> = Vec::new();
    let mut pos: usize = p;
    match struct_entry(input, p, far) {
        Some((first, end)) => {
            let ghost head = (first.0@, first.1@);
            items.push(first);
            assert(entries_of(items@) =~= seq![head]);
            pos = end;
        },
        None => {
            assert(entries_of(items@) =~= Seq::empty());
            return (items, p);
        },
    }
    loop
        invariant
            p < pos <= input.len(),
            ({
                let whole = grammar::struct_entries(input@, p as int, old(far)@);
                let rest = grammar::struct_entries_more(input@, pos as int, far@);
                &&& whole.far == rest.far
                &&& whole.end == rest.end
                &&& whole.value is Some
                &&& rest.value is Some
                &&& whole.value->0 =~= entries_of(items@) + rest.value->0
            }),
        decreases input.len() - pos,
    {
        proof {
            reveal(grammar::struct_entries);
            reveal(grammar::struct_entries_more);
            reveal(grammar::struct_entry);
        }
        let after = match ws_lit_ws(input, pos, Token::Comma, far) {
            Some(end) => end,
            None => {
                return (items, pos);
            },
        };
        match struct_entry(input, after, far) {
            Some((next, end)) => {
                let ghost before = entries_of(items@);
                let ghost added = (next.0@, next.1@);
                items.push(next);
                assert(entries_of(items@) =~= before.push(added));
                pos = end;
            },
            None => {
                return (items, pos);
            },
        }
    }
}

/// The rule `struct_expr`.
#[verifier::spinoff_prover]
pub fn struct_expr(input: &Vec<char>, p: usize, far: &mut Furthest) -> (r: Option<(Expr, usize)>)
    requires
        p <= input.len(),
    ensures
        ({
            let step = grammar::struct_expr(input@, p as int, old(far)@);
            &&& final(far)@ == step.far
            &&& match r {
                Some((value, end)) => step.value == Some(value@) && step.end == end
                    && p < end <= input.len(),
                None => step.value is None,
            }
        }),
    decreases input.len() - p, 1nat,
{
    proof {
        reveal(grammar::struct_expr);
        reveal(grammar::struct_entries);
    }
    let pos = match lit_ws(input, p, Token::Struct, far) {
        Some(end) => end,
        None => {
            return None;
        },
    };
    let (name, pos) = match identifier(input, pos, far) {
        Some(found) => found,
        None => {
            return None;
        },
    };
    let pos = skip(input, pos, far);
    let (entries, pos) = struct_entries(input, pos, far);
    let pos = match ws_lit(input, pos, Token::End, far) {
        Some(end) => end,
        None => {
            return None;
        },
    };
    Some((Expr::Struct(name, entries), pos))
}

/// The rule `body_expr`.
#[verifier::spinoff_prover]
pub fn body_expr(input: &Vec<char>, p: usize, far: &mut Furthest) -> (r: (Vec<Expr>, usize))
    requires
        p <= input.len(),
    ensures
        ({
            let step = grammar::body_expr(input@, p as int, old(far)@);
            &&& final(far)@ == step.far
            &&& step.value == Some(nodes_of(r.0@))
            &&& step.end == r.1
            &&& p <= r.1 <= input.len()
        }),
    decreases input.len() - p, 13nat,
{
    proof {
        reveal(grammar::body_expr);
        reveal(grammar::body_expr_more);
        reveal(grammar::expr);
    }
    let mut items: Vec<Expr> = Vec::new();
    let mut pos: usize = p;
    match expr(input, p, far) {
        Some((first, end)) => {
            let ghost head = first@;
            items.push(first);
            assert(nodes_of(items@) =~= seq![head]);
            pos = end;
        },
        None => {
            assert(nodes_of(items@) =~= Seq::empty());
            return (items, p);
        },
    }
    loop
        invariant
            p < pos <= input.len(),
            ({
                let whole = grammar::body_expr(input@, p as int, old(far)@);
                let rest = grammar::body_expr_more(input@, pos as int, far@);
                &&& whole.far == rest.far
                &&& whole.end == rest.end
                &&& whole.value is Some
                &&& rest.value is Some
                &&& whole.value->0 =~= nodes_of(items@) + rest.value->0
            }),
        decreases input.len() - pos,
    {
        proof {
            reveal(grammar::body_expr);
            reveal(grammar::body_expr_more);
            reveal(grammar::expr);
        }
        let after = match ws_lit_ws(input, pos, Token::Semicolon, far) {
            Some(end) => end,
            None => {
                return (items, pos);
            },
        };
        match expr(input, after, far) {
            Some((next, end)) => {
                let ghost before = nodes_of(items@);
                let ghost added = next@;
                items.push(next);
                assert(nodes_of(items@) =~= before.push(added));
                pos = end;
            },
            None => {
                return (items, pos);
            },
        }
    }
}

/// The rule `if_plain`.
#[verifier::spinoff_prover]
pub fn if_plain(input: &Vec<char>, p: usize, far: &mut Furthest) -> (r: Option<(Expr, usize)>)
    requires
        p <= input.len(),
    ensures
        ({
            let step = grammar::if_plain(input@, p as int, old(far)@);
            &&& final(far)@ == step.far
            &&& match r {
                Some((value, end)) => step.value == Some(value@) && step.end == end
                    && p < end <= input.len(),
                None => step.value is None,
            }
        }),
    decreases input.len() - p, 1nat,
{
    proof {
        reveal(grammar::if_plain);
        reveal(grammar::expr);
        reveal(grammar::body_expr);
    }
    let pos = match lit_ws(input, p, Token::If, far) {
        Some(end) => end,
        None => {
            return None;
        },
    };
    let (cond, pos) = match expr(input, pos, far) {
        Some(found) => found,
        None => {
            return None;
        },
    };
    let pos = match ws_lit_ws(input, pos, Token::Then, far) {
        Some(end) => end,
        None => {
            return None;
        },
    };
    let (then_body, pos) = body_expr(input, pos, far);
    let pos = match ws_lit(input, pos, Token::End, far) {
        Some(end) => end,
        None => {
            return None;
        },
    };
    Some((Expr::If(Box::new(cond), then_body, None), pos))
}

/// The rule `if_else`.
#[verifier::spinoff_prover]
pub fn if_else(input: &Vec<char>, p: usize, far: &mut Furthest) -> (r: Option<(Expr, usize)>)
    requires
        p <= input.len(),
    ensures
        ({
            let step = grammar::if_else(input@, p as int, old(far)@);
            &&& final(far)@ == step.far
            &&& match r {
                Some((value, end)) => step.value == Some(value@) && step.end == end
                    && p < end <= input.len(),
                None => step.value is None,
            }
        }),
    decreases input.len() - p, 1nat,
{
    proof {
        reveal(grammar::if_else);
        reveal(grammar::expr);
        reveal(grammar::body_expr);
    }
    let pos = match lit_ws(input, p, Token::If, far) {
        Some(end) => end,
        None => {
            return None;
        },
    };
    let (cond, pos) = match expr(input, pos, far) {
        Some(found) => found,
        None => {
            return None;
        },
    };
    let pos = match ws_lit_ws(input, pos, Token::Then, far) {
        Some(end) => end,
        None => {
            return None;
        },
    };
    let (then_body, pos) = body_expr(input, pos, far);
    let pos = match ws_lit_ws(input, pos, Token::Else, far) {
        Some(end) => end,
        None => {
            return None;
        },
    };
    let (else_body, pos) = body_expr(input, pos, far);
    let pos = match ws_lit(input, pos, Token::End, far) {
        Some(end) => end,
        None => {
            return None;
        },
    };
    Some((Expr::If(Box::new(cond), then_body, Some(else_body)), pos))
}

/// The rule `if_expr`.
#[verifier::spinoff_prover]
pub fn if_expr(input: &Vec<char>, p: usize, far: &mut Furthest) -> (r: Option<(Expr, usize)>)
    requires
        p <= input.len(),
    ensures
        ({
            let step = grammar::if_expr(input@, p as int, old(far)@);
            &&& final(far)@ == step.far
            &&& match r {
                Some((value, end)) => step.value == Some(value@) && step.end == end
                    && p < end <= input.len(),
                None => step.value is None,
            }
        }),
    decreases input.len() - p, 2nat,
{
    proof {
        reveal(grammar::if_expr);
        reveal(grammar::if_plain);
        reveal(grammar::if_else);
    }
    match if_plain(input, p, far) {
        Some(found) => {
            return Some(found);
        },
        None => {},
    }
    if_else(input, p, far)
}

/// The rule `loop_expr`.
#[verifier::spinoff_prover]
pub fn loop_expr(input: &Vec<char>, p: usize, far: &mut Furthest) -> (r: Option<(Expr, usize)>)
    requires
        p <= input.len(),
    ensures
        ({
            let step = grammar::loop_expr(input@, p as int, old(far)@);
            &&& final(far)@ == step.far
            &&& match r {
                Some((value, end)) => step.value == Some(value@) && step.end == end
                    && p < end <= input.len(),
                None => step.value is None,
            }
        }),
    decreases input.len() - p, 1nat,
{
    proof {
        reveal(grammar::loop_expr);
        reveal(grammar::expr);
        reveal(grammar::primary);
        reveal(grammar::body_expr);
    }
    let pos = match lit_ws(input, p, Token::For, far) {
        Some(end) => end,
        None => {
            return None;
        },
    };
    let (binding, pos) = match expr(input, pos, far) {
        Some(found) => found,
        None => {
            return None;
        },
    };
    let pos = match ws_lit_ws(input, pos, Token::In, far) {
        Some(end) => end,
        None => {
            return None;
        },
    };
    let (iterable, pos) = match primary(input, pos, far) {
        Some(found) => found,
        None => {
            return None;
        },
    };
    let pos = skip(input, pos, far);
    let (body, pos) = body_expr(input, pos, far);
    let pos = match ws_lit(input, pos, Token::End, far) {
        Some(end) => end,
        None => {
            return None;
        },
    };
    Some((Expr::Loop(Box::new(binding), Box::new(iterable), body), pos))
}

/// The rule `typed_arg`.
#[verifier::spinoff_prover]
pub fn typed_arg(input: &Vec<char>, p: usize, far: &mut Furthest) -> (r: Option<
    ((String, Option<Expr>), usize),
>)
    requires
        p <= input.len(),
    ensures
        ({
            let step = grammar::typed_arg(input@, p as int, old(far)@);
            &&& final(far)@ == step.far
            &&& match r {
                Some((value, end)) => step.value == Some(param_of(value)) && step.end == end
                    && p < end <= input.len(),
                None => step.value is None,
            }
        }),
    decreases input.len() - p, 1nat,
{
    proof {
        reveal(grammar::typed_arg);
        reveal(grammar::typed_expr);
    }
    let (name, pos) = match identifier(input, p, far) {
        Some(found) => found,
        None => {
            return None;
        },
    };
    let pos = match ws_lit_ws(input, pos, Token::Colon, far) {
        Some(end) => end,
        None => {
            return None;
        },
    };
    let (ty, pos) = match typed_expr(input, pos, far) {
        Some(found) => found,
        None => {
            return None;
        },
    };
    Some(((name, Some(ty)), pos))
}

/// The rule `plain_arg`.
#[verifier::spinoff_prover]
pub fn plain_arg(input: &Vec<char>, p: usize, far: &mut Furthest) -> (r: Option<
    ((String, Option<Expr>), usize),
>)
    requires
        p <= input.len(),
    ensures
        ({
            let step = grammar::plain_arg(input@, p as int, old(far)@);
            &&& final(far)@ == step.far
            &&& match r {
                Some((value, end)) => step.value == Some(param_of(value)) && step.end == end
                    && p < end <= input.len(),
                None => step.value is None,
            }
        }),
    decreases input.len() - p, 1nat,
{
    proof {
        reveal(grammar::plain_arg);
    }
    let (name, pos) = match identifier(input, p, far) {
        Some(found) => found,
        None => {
            return None;
        },
    };
    Some(((name, None), pos))
}

/// The rule `fn_arg`.
#[verifier::spinoff_prover]
pub fn fn_arg(input: &Vec<char>, p: usize, far: &mut Furthest) -> (r: Option<
    ((String, Option<Expr>), usize),
>)
    requires
        p <= input.len(),
    ensures
        ({
            let step = grammar::fn_arg(input@, p as int, old(far)@);
            &&& final(far)@ == step.far
            &&& match r {
                Some((value, end)) => step.value == Some(param_of(value)) && step.end == end
                    && p < end <= input.len(),
                None => step.value is None,
            }
        }),
    decreases input.len() - p, 2nat,
{
    proof {
        reveal(grammar::fn_arg);
        reveal(grammar::typed_arg);
        reveal(grammar::plain_arg);
    }
    match typed_arg(input, p, far) {
        Some(found) => {
            return Some(found);
        },
        None => {},
    }
    plain_arg(input, p, far)
}

/// The rule `fn_args`.
#[verifier::spinoff_prover]
pub fn fn_args(
    input: &Vec<char>,
    p: usize,
    far: &mut Furthest,
) -> (r: (Vec<(String, Option<Expr>)>, usize))
    requires
        p <= input.len(),
    ensures
        ({
            let step = grammar::fn_args(input@, p as int, old(far)@);
            &&& final(far)@ == step.far
            &&& step.value == Some(params_of(r.0@))
            &&& step.end == r.1
            &&& p <= r.1 <= input.len()
        }),
    decreases input.len() - p, 3nat,
{
    proof {
        reveal(grammar::fn_args);
        reveal(grammar::fn_args_more);
        reveal(grammar::fn_arg);
    }
    let mut items: Vec<(String, Option<Expr>)> = Vec::new();
    let mut pos: usize = p;
    match fn_arg(input, p, far) {
        Some((first, end)) => {
            let ghost head = param_of(first);
            items.push(first);
            assert(params_of(items@) =~= seq![head]);
            pos = end;
        },
        None => {
            assert(params_of(items@) =~= Seq::empty());
            return (items, p);
        },
    }
    loop
        invariant
            p < pos <= input.len(),
            ({
                let whole = grammar::fn_args(input@, p as int, old(far)@);
                let rest = grammar::fn_args_more(input@, pos as int, far@);
                &&& whole.far == rest.far
                &&& whole.end == rest.end
                &&& whole.value is Some
                &&& rest.value is Some
                &&& whole.value->0 =~= params_of(items@) + rest.value->0
            }),
        decreases input.len() - pos,
    {
        proof {
            reveal(grammar::fn_args);
            reveal(grammar::fn_args_more);
            reveal(grammar::fn_arg);
        }
        let after = match ws_lit_ws(input, pos, Token::Comma, far) {
            Some(end) => end,
            None => {
                return (items, pos);
            },
        };
        match fn_arg(input, after, far) {
            Some((next, end)) => {
                let ghost before = params_of(items@);
                let ghost added = param_of(next);
                items.push(next);
                assert(params_of(items@) =~= before.push(added));
                pos = end;
            },
            None => {
                return (items, pos);
            },
        }
    }
}

/// The rule `fn_expr`.
#[verifier::spinoff_prover]
pub fn fn_expr(input: &Vec<char>, p: usize, far: &mut Furthest) -> (r: Option<(Expr, usize)>)
    requires
        p <= input.len(),
    ensures
        ({
            let step = grammar::fn_expr(input@, p as int, old(far)@);
            &&& final(far)@ == step.far
            &&& match r {
                Some((value, end)) => step.value == Some(value@) && step.end == end
                    && p < end <= input.len(),
                None => step.value is None,
            }
        }),
    decreases input.len() - p, 1nat,
{
    proof {
        reveal(grammar::fn_expr);
        reveal(grammar::fn_args);
        reveal(grammar::body_expr);
    }
    let pos = match lit_ws(input, p, Token::Pipe, far) {
        Some(end) => end,
        None => {
            return None;
        },
    };
    let (params, pos) = fn_args(input, pos, far);
    let pos = match ws_lit_ws(input, pos, Token::Pipe, far) {
        Some(end) => end,
        None => {
            return None;
        },
    };
    let (body, pos) = body_expr(input, pos, far);
    let pos = match ws_lit(input, pos, Token::End, far) {
        Some(end) => end,
        None => {
            return None;
        },
    };
    Some((Expr::Fn(params, body), pos))
}

/// The rule `match_case`.
#[verifier::spinoff_prover]
pub fn match_case(input: &Vec<char>, p: usize, far: &mut Furthest) -> (r: Option<
    ((String, Vec<Expr>), usize),
>)
    requires
        p <= input.len(),
    ensures
        ({
            let step = grammar::match_case(input@, p as int, old(far)@);
            &&& final(far)@ == step.far
            &&& match r {
                Some((value, end)) => step.value == Some((value.0@, nodes_of(value.1@)))
                    && step.end == end
                    && p < end <= input.len(),
                None => step.value is None,
            }
        }),
    decreases input.len() - p, 1nat,
{
    proof {
        reveal(grammar::match_case);
        reveal(grammar::body_expr);
    }
    let pos = match lit_ws(input, p, Token::Pipe, far) {
        Some(end) => end,
        None => {
            return None;
        },
    };
    let (tag, pos) = match identifier(input, pos, far) {
        Some(found) => found,
        None => {
            return None;
        },
    };
    let pos = match ws_lit_ws(input, pos, Token::Arrow, far) {
        Some(end) => end,
        None => {
            return None;
        },
    };
    let (body, pos) = body_expr(input, pos, far);
    let pos = match ws_lit_ws(input, pos, Token::Comma, far) {
        Some(end) => end,
        None => {
            return None;
        },
    };
    Some(((tag, body), pos))
}

/// The rule `match_cases`.
#[verifier::spinoff_prover]
pub fn match_cases(
    input: &Vec<char>,
    p: usize,
    far: &mut Furthest,
) -> (r: (Vec<(String, Vec<Expr>)>, usize))
    requires
        p <= input.len(),
    ensures
        ({
            let step = grammar::match_cases(input@, p as int, old(far)@);
            &&& final(far)@ == step.far
            &&& step.value == Some(cases_of(r.0@))
            &&& step.end == r.1
            &&& p <= r.1 <= input.len()
        }),
    decreases input.len() - p, 2nat,
{
    proof {
        reveal(grammar::match_cases);
        reveal(grammar::match_cases_more);
        reveal(grammar::match_case);
    }
    let mut items: Vec<(String, Vec<Expr>)> = Vec::new();
    let mut pos: usize = p;
    match match_case(input, p, far) {
        Some((first, end)) => {
            let ghost head = (first.0@, nodes_of(first.1@));
            items.push(first);
            assert(cases_of(items@) =~= seq![head]);
            pos = end;
        },
        None => {
            assert(cases_of(items@) =~= Seq::empty());
            return (items, p);
        },
    }
    loop
        invariant
            p < pos <= input.len(),
            ({
                let whole = grammar::match_cases(input@, p as int, old(far)@);
                let rest = grammar::match_cases_more(input@, pos as int, far@);
                &&& whole.far == rest.far
                &&& whole.end == rest.end
                &&& whole.value is Some
                &&& rest.value is Some
                &&& whole.value->0 =~= cases_of(items@) + rest.value->0
            }),
        decreases input.len() - pos,
    {
        proof {
            reveal(grammar::match_cases);
            reveal(grammar::match_cases_more);
            reveal(grammar::match_case);
        }
        let after = skip(input, pos, far);
        match match_case(input, after, far) {
            Some((next, end)) => {
                let ghost before = cases_of(items@);
                let ghost added = (next.0@, nodes_of(next.1@));
                items.push(next);
                assert(cases_of(items@) =~= before.push(added));
                pos = end;
            },
            None => {
                return (items, pos);
            },
        }
    }
}

/// The rule `match_expr`.
#[verifier::spinoff_prover]
pub fn match_expr(input: &Vec<char>, p: usize, far: &mut Furthest) -> (r: Option<(Expr, usize)>)
    requires
        p <= input.len(),
    ensures
        ({
            let step = grammar::match_expr(input@, p as int, old(far)@);
            &&& final(far)@ == step.far
            &&& match r {
                Some((value, end)) => step.value == Some(value@) && step.end == end
                    && p < end <= input.len(),
                None => step.value is None,
            }
        }),
    decreases input.len() - p, 1nat,
{
    proof {
        reveal(grammar::match_expr);
        reveal(grammar::expr);
        reveal(grammar::match_cases);
    }
    let pos = match lit_ws(input, p, Token::Match, far) {
        Some(end) => end,
        None => {
            return None;
        },
    };
    let (scrutinee, pos) = match expr(input, pos, far) {
        Some(found) => found,
        None => {
            return None;
        },
    };
    let pos = match ws_lit_ws(input, pos, Token::With, far) {
        Some(end) => end,
        None => {
            return None;
        },
    };
    let (cases, pos) = match_cases(input, pos, far);
    let pos = match lit(input, pos, Token::End, far) {
        Some(end) => end,
        None => {
            return None;
        },
    };
    Some((Expr::Match(Box::new(scrutinee), cases), pos))
}

/// The rule `primary`.
#[verifier::spinoff_prover]
pub fn primary(input: &Vec<char>, p: usize, far: &mut Furthest) -> (r: Option<(Expr, usize)>)
    requires
        p <= input.len(),
    ensures
        ({
            let step = grammar::primary(input@, p as int, old(far)@);
            &&& final(far)@ == step.far
            &&& match r {
                Some((value, end)) => step.value == Some(value@) && step.end == end
                    && p < end <= input.len(),
                None => step.value is None,
            }
        }),
    decreases input.len() - p, 6nat,
{
    proof {
        reveal(grammar::primary);
        reveal(grammar::assign);
        reveal(grammar::paren_expr);
        reveal(grammar::directive_expr);
        reveal(grammar::match_expr);
        reveal(grammar::struct_expr);
        reveal(grammar::type_alias);
        reveal(grammar::call_expr);
        reveal(grammar::member_expr);
        reveal(grammar::loop_expr);
        reveal(grammar::if_expr);
        reveal(grammar::fn_expr);
        reveal(grammar::let_binding);
        reveal(grammar::list);
        reveal(grammar::record);
    }
    match assign(input, p, far) {
        Some(found) => {
            return Some(found);
        },
        None => {},
    }
    match paren_expr(input, p, far) {
        Some(found) => {
            return Some(found);
        },
        None => {},
    }
    match directive_expr(input, p, far) {
        Some(found) => {
            return Some(found);
        },
        None => {},
    }
    match match_expr(input, p, far) {
        Some(found) => {
            return Some(found);
        },
        None => {},
    }
    match struct_expr(input, p, far) {
        Some(found) => {
            return Some(found);
        },
        None => {},
    }
    match type_alias(input, p, far) {
        Some(found) => {
            return Some(found);
        },
        None => {},
    }
    match call_expr(input, p, far) {
        Some(found) => {
            return Some(found);
        },
        None => {},
    }
    match range_expr(input, p, far) {
        Some(found) => {
            return Some(found);
        },
        None => {},
    }
    match member_expr(input, p, far) {
        Some(found) => {
            return Some(found);
        },
        None => {},
    }
    match loop_expr(input, p, far) {
        Some(found) => {
            return Some(found);
        },
        None => {},
    }
    match if_expr(input, p, far) {
        Some(found) => {
            return Some(found);
        },
        None => {},
    }
    match fn_expr(input, p, far) {
        Some(found) => {
            return Some(found);
        },
        None => {},
    }
    match let_binding(input, p, far) {
        Some(found) => {
            return Some(found);
        },
        None => {},
    }
    match pass(input, p, far) {
        Some(found) => {
            return Some(found);
        },
        None => {},
    }
    match bool_literal(input, p, far) {
        Some(found) => {
            return Some(found);
        },
        None => {},
    }
    match float_literal(input, p, far) {
        Some(found) => {
            return Some(found);
        },
        None => {},
    }
    match integer_literal(input, p, far) {
        Some(found) => {
            return Some(found);
        },
        None => {},
    }
    match string_literal(input, p, far) {
        Some(found) => {
            return Some(found);
        },
        None => {},
    }
    match char_literal(input, p, far) {
        Some(found) => {
            return Some(found);
        },
        None => {},
    }
    match identifier_expr(input, p, far) {
        Some(found) => {
            return Some(found);
        },
        None => {},
    }
    match list(input, p, far) {
        Some(found) => {
            return Some(found);
        },
        None => {},
    }
    record(input, p, far)
}

/// The rule `bit`.
#[verifier::spinoff_prover]
pub fn bit(input: &Vec<char>, p: usize, far: &mut Furthest) -> (r: Option<(Expr, usize)>)
    requires
        p <= input.len(),
    ensures
        ({
            let step = grammar::bit(input@, p as int, old(far)@);
            &&& final(far)@ == step.far
            &&& match r {
                Some((value, end)) => step.value == Some(value@) && step.end == end
                    && p < end <= input.len(),
                None => step.value is None,
            }
        }),
    decreases input.len() - p, 7nat,
{
    proof {
        reveal(grammar::bit);
        reveal(grammar::primary);
    }
    let (lhs, pos) = match primary(input, p, far) {
        Some(found) => found,
        None => {
            return None;
        },
    };
    let pos = skip(input, pos, far);
    let (op, pos) = match bit_op(input, pos, far) {
        Some(found) => found,
        None => {
            return None;
        },
    };
    let pos = skip(input, pos, far);
    let (rhs, pos) = match primary(input, pos, far) {
        Some(found) => found,
        None => {
            return None;
        },
    };
    Some((Expr::Bit(Box::new(lhs), op, Box::new(rhs)), pos))
}

/// The rule `compare_form`.
#[verifier::spinoff_prover]
pub fn compare_form(input: &Vec<char>, p: usize, far: &mut Furthest) -> (r: Option<(Expr, usize)>)
    requires
        p <= input.len(),
    ensures
        ({
            let step = grammar::compare_form(input@, p as int, old(far)@);
            &&& final(far)@ == step.far
            &&& match r {
                Some((value, end)) => step.value == Some(value@) && step.end == end
                    && p < end <= input.len(),
                None => step.value is None,
            }
        }),
    decreases input.len() - p, 7nat,
{
    proof {
        reveal(grammar::compare_form);
        reveal(grammar::primary);
    }
    let (lhs, pos) = match primary(input, p, far) {
        Some(found) => found,
        None => {
            return None;
        },
    };
    let pos = skip(input, pos, far);
    let (op, pos) = match compare_op(input, pos, far) {
        Some(found) => found,
        None => {
            return None;
        },
    };
    let pos = skip(input, pos, far);
    let (rhs, pos) = match primary(input, pos, far) {
        Some(found) => found,
        None => {
            return None;
        },
    };
    Some((Expr::Compare(Box::new(lhs), op, Box::new(rhs)), pos))
}

/// The rule `compare`.
#[verifier::spinoff_prover]
pub fn compare(input: &Vec<char>, p: usize, far: &mut Furthest) -> (r: Option<(Expr, usize)>)
    requires
        p <= input.len(),
    ensures
        ({
            let step = grammar::compare(input@, p as int, old(far)@);
            &&& final(far)@ == step.far
            &&& match r {
                Some((value, end)) => step.value == Some(value@) && step.end == end
                    && p < end <= input.len(),
                None => step.value is None,
            }
        }),
    decreases input.len() - p, 8nat,
{
    proof {
        reveal(grammar::compare);
        reveal(grammar::compare_form);
        reveal(grammar::primary);
    }
    match compare_form(input, p, far) {
        Some(found) => {
            return Some(found);
        },
        None => {},
    }
    primary(input, p, far)
}

/// The rule `mul_form`.
#[verifier::spinoff_prover]
pub fn mul_form(input: &Vec<char>, p: usize, far: &mut Furthest) -> (r: Option<(Expr, usize)>)
    requires
        p <= input.len(),
    ensures
        ({
            let step = grammar::mul_form(input@, p as int, old(far)@);
            &&& final(far)@ == step.far
            &&& match r {
                Some((value, end)) => step.value == Some(value@) && step.end == end
                    && p < end <= input.len(),
                None => step.value is None,
            }
        }),
    decreases input.len() - p, 7nat,
{
    proof {
        reveal(grammar::mul_form);
        reveal(grammar::primary);
    }
    let (lhs, pos) = match primary(input, p, far) {
        Some(found) => found,
        None => {
            return None;
        },
    };
    let pos = skip(input, pos, far);
    let (op, pos) = match mul_op(input, pos, far) {
        Some(found) => found,
        None => {
            return None;
        },
    };
    let pos = skip(input, pos, far);
    let (rhs, pos) = match primary(input, pos, far) {
        Some(found) => found,
        None => {
            return None;
        },
    };
    Some((Expr::Bin(Box::new(lhs), op, Box::new(rhs)), pos))
}

/// The rule `mul_div`.
#[verifier::spinoff_prover]
pub fn mul_div(input: &Vec<char>, p: usize, far: &mut Furthest) -> (r: Option<(Expr, usize)>)
    requires
        p <= input.len(),
    ensures
        ({
            let step = grammar::mul_div(input@, p as int, old(far)@);
            &&& final(far)@ == step.far
            &&& match r {
                Some((value, end)) => step.value == Some(value@) && step.end == end
                    && p < end <= input.len(),
                None => step.value is None,
            }
        }),
    decreases input.len() - p, 9nat,
{
    proof {
        reveal(grammar::mul_div);
        reveal(grammar::mul_form);
        reveal(grammar::bit);
        reveal(grammar::compare);
    }
    match mul_form(input, p, far) {
        Some(found) => {
            return Some(found);
        },
        None => {},
    }
    match bit(input, p, far) {
        Some(found) => {
            return Some(found);
        },
        None => {},
    }
    compare(input, p, far)
}

/// The rule `add_form`.
#[verifier::spinoff_prover]
pub fn add_form(input: &Vec<char>, p: usize, far: &mut Furthest) -> (r: Option<(Expr, usize)>)
    requires
        p <= input.len(),
    ensures
        ({
            let step = grammar::add_form(input@, p as int, old(far)@);
            &&& final(far)@ == step.far
            &&& match r {
                Some((value, end)) => step.value == Some(value@) && step.end == end
                    && p < end <= input.len(),
                None => step.value is None,
            }
        }),
    decreases input.len() - p, 10nat,
{
    proof {
        reveal(grammar::add_form);
        reveal(grammar::mul_div);
    }
    let (lhs, pos) = match mul_div(input, p, far) {
        Some(found) => found,
        None => {
            return None;
        },
    };
    let pos = skip(input, pos, far);
    let (op, pos) = match add_op(input, pos, far) {
        Some(found) => found,
        None => {
            return None;
        },
    };
    let pos = skip(input, pos, far);
    let (rhs, pos) = match mul_div(input, pos, far) {
        Some(found) => found,
        None => {
            return None;
        },
    };
    Some((Expr::Bin(Box::new(lhs), op, Box::new(rhs)), pos))
}

/// The rule `add_sub`.
#[verifier::spinoff_prover]
pub fn add_sub(input: &Vec<char>, p: usize, far: &mut Furthest) -> (r: Option<(Expr, usize)>)
    requires
        p <= input.len(),
    ensures
        ({
            let step = grammar::add_sub(input@, p as int, old(far)@);
            &&& final(far)@ == step.far
            &&& match r {
                Some((value, end)) => step.value == Some(value@) && step.end == end
                    && p < end <= input.len(),
                None => step.value is None,
            }
        }),
    decreases input.len() - p, 11nat,
{
    proof {
        reveal(grammar::add_sub);
        reveal(grammar::add_form);
        reveal(grammar::mul_div);
    }
    match add_form(input, p, far) {
        Some(found) => {
            return Some(found);
        },
        None => {},
    }
    mul_div(input, p, far)
}

/// The rule `unary`.
#[verifier::spinoff_prover]
pub fn unary(input: &Vec<char>, p: usize, far: &mut Furthest) -> (r: Option<(Expr, usize)>)
    requires
        p <= input.len(),
    ensures
        ({
            let step = grammar::unary(input@, p as int, old(far)@);
            &&& final(far)@ == step.far
            &&& match r {
                Some((value, end)) => step.value == Some(value@) && step.end == end
                    && p < end <= input.len(),
                None => step.value is None,
            }
        }),
    decreases input.len() - p, 7nat,
{
    proof {
        reveal(grammar::unary);
        reveal(grammar::unary_ops);
        reveal(grammar::primary);
    }
    let (ops, pos) = unary_ops(input, p, far);
    let (operand, pos) = match primary(input, pos, far) {
        Some(found) => found,
        None => {
            return None;
        },
    };
    Some((apply_prefix(ops, operand), pos))
}

/// The rule `expr`.
#[verifier::spinoff_prover]
pub fn expr(input: &Vec<char>, p: usize, far: &mut Furthest) -> (r: Option<(Expr, usize)>)
    requires
        p <= input.len(),
    ensures
        ({
            let step = grammar::expr(input@, p as int, old(far)@);
            &&& final(far)@ == step.far
            &&& match r {
                Some((value, end)) => step.value == Some(value@) && step.end == end
                    && p < end <= input.len(),
                None => step.value is None,
            }
        }),
    decreases input.len() - p, 12nat,
{
    proof {
        reveal(grammar::expr);
        reveal(grammar::add_sub);
        reveal(grammar::unary);
        reveal(grammar::bit);
        reveal(grammar::compare);
        reveal(grammar::primary);
    }
    match add_sub(input, p, far) {
        Some(found) => {
            return Some(found);
        },
        None => {},
    }
    match unary(input, p, far) {
        Some(found) => {
            return Some(found);
        },
        None => {},
    }
    match bit(input, p, far) {
        Some(found) => {
            return Some(found);
        },
        None => {},
    }
    match compare(input, p, far) {
        Some(found) => {
            return Some(found);
        },
        None => {},
    }
    primary(input, p, far)
}

/// The rule `statements`.
#[verifier::spinoff_prover]
pub fn statements(input: &Vec<char>, p: usize, far: &mut Furthest) -> (r: (Vec<Box<Expr>>, usize))
    requires
        p <= input.len(),
    ensures
        ({
            let step = grammar::statements(input@, p as int, old(far)@);
            &&& final(far)@ == step.far
            &&& step.value == Some(boxed_nodes_of(r.0@))
            &&& step.end == r.1
            &&& p <= r.1 <= input.len()
        }),
    decreases input.len() - p, 13nat,
{
    proof {
        reveal(grammar::statements);
        reveal(grammar::statements_more);
        reveal(grammar::expr);
    }
    let mut items: Vec<Box<Expr>> = Vec::new();
    let mut pos: usize = p;
    match expr(input, p, far) {
        Some((first, end)) => {
            let ghost head = first@;
            items.push(Box::new(first));
            assert(boxed_nodes_of(items@) =~= seq![head]);
            pos = end;
        },
        None => {
            assert(boxed_nodes_of(items@) =~= Seq::empty());
            return (items, p);
        },
    }
    loop
        invariant
            p < pos <= input.len(),
            ({
                let whole = grammar::statements(input@, p as int, old(far)@);
                let rest = grammar::statements_more(input@, pos as int, far@);
                &&& whole.far == rest.far
                &&& whole.end == rest.end
                &&& whole.value is Some
                &&& rest.value is Some
                &&& whole.value->0 =~= boxed_nodes_of(items@) + rest.value->0
            }),
        decreases input.len() - pos,
    {
        proof {
            reveal(grammar::statements);
            reveal(grammar::statements_more);
            reveal(grammar::expr);
        }
        let after = skip(input, pos, far);
        match expr(input, after, far) {
            Some((next, end)) => {
                let ghost before = boxed_nodes_of(items@);
                let ghost added = next@;
                items.push(Box::new(next));
                assert(boxed_nodes_of(items@) =~= before.push(added));
                pos = end;
            },
            None => {
                return (items, pos);
            },
        }
    }
}

/// Where a parse failed, and what it looked for there.
#[derive(Debug, Clone, PartialEq, Eq)]
pub struct ParseError {
    /// The line of the position, counted from 1.
    pub line: usize,
    /// The column of the position, counted from 1, in characters.
    pub column: usize,
    /// The position in bytes from the start of the source; `usize::MAX`
    /// where it would be more.
    pub offset: usize,
    /// What was looked for at the position, each token once, in the order
    /// of the tokens' labels.
    pub expected: Vec<Token>,
}

/// A count as a machine number: the count itself, or the largest number
/// where the count is larger.
pub open spec fn clip(n: nat) -> usize {
    if n < usize::MAX {
        n as usize
    } else {
        usize::MAX
    }
}

/// Whether `err` is the report of the failure `far` in the source `s`.
pub open spec fn reports(err: ParseError, s: Seq<char>, far: crate::token::Far) -> bool {
    &&& err.expected@ == sort_by_label(far.expected)
    &&& err.line == clip(grammar::line_feeds(s, far.pos) + 1)
    &&& err.column == clip(grammar::since_line_start(s, far.pos) + 1)
    &&& err.offset == clip(grammar::byte_offset(s, far.pos))
}

/// The number of bytes that a character takes in UTF-8.
pub fn utf8_len(c: char) -> (n: usize)
    ensures
        n == grammar::utf8_len(c),
        1 <= n <= 4,
{
    let code = c as u32;
    if code < 0x80 {
        1
    } else if code < 0x800 {
        2
    } else if code < 0x10000 {
        3
    } else {
        4
    }
}

/// The characters of a string.
pub fn chars_of(source: &str) -> (chars: Vec<char>)
    ensures
        chars@ == source@,
{
    let mut chars: Vec<char> = Vec::new();
    for c in it: source.chars()
        invariant
            it.seq() == source@,
            chars@ == it.seq().take(it.index()),
    {
        chars.push(c);
        assert(chars@ =~= it.seq().take(it.index() + 1));
    }
    assert(source@.take(source@.len() as int) =~= source@);
    chars
}

/// The report of a failure at `far` in `input`.
pub fn report(input: &Vec<char>, far: Furthest) -> (err: ParseError)
    ensures
        reports(err, input@, far@),
{
    let mut line: usize = 1;
    let mut column: usize = 1;
    let mut offset: usize = 0;
    let mut i: usize = 0;
    if far.pos > input.len() {
        return ParseError { line, column, offset, expected: sorted_by_label(&far.expected) };
    }
    while i < far.pos
        invariant
            i <= far.pos <= input.len(),
            line == clip(grammar::line_feeds(input@, i as int) + 1),
            column == clip(grammar::since_line_start(input@, i as int) + 1),
            offset == clip(grammar::byte_offset(input@, i as int)),
        decreases far.pos - i,
    {
        let c = char_at(input, i);
        let width = utf8_len(c);
        if c == '\n' {
            if line < usize::MAX {
                line += 1;
            }
            column = 1;
        } else if column < usize::MAX {
            column += 1;
        }
        if offset > usize::MAX - width {
            offset = usize::MAX;
        } else {
            offset += width;
        }
        i += 1;
    }
    ParseError { line, column, offset, expected: sorted_by_label(&far.expected) }
}

/// Parses a whole program.
///
/// The result is the tree of the rule `program` in `grammar` where the
/// whole source is a program, and otherwise the report of the furthest
/// position that the parse reached with what it looked for there.
#[verifier::spinoff_prover]
pub fn program(source: &str) -> (r: Result<Expr, ParseError>)
    ensures
        match r {
            Ok(tree) => grammar::program(source@).value == Some(tree@),
            Err(err) => grammar::program(source@).value is None && reports(
                err,
                source@,
                grammar::program(source@).far,
            ),
        },
{
    let input = chars_of(source);
    let mut far = Furthest::new();
    let lead = skip(&input, 0, &mut far);
    let (items, end) = statements(&input, lead, &mut far);
    let trail = skip(&input, end, &mut far);
    if trail >= input.len() {
        Ok(Expr::Program(items))
    } else {
        far.mark(trail, Token::EndOfInput);
        Err(report(&input, far))
    }
}

} // verus!
