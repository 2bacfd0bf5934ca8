//! The bounds in the grammar are idle: every rule ends a match between its
//! start and the end of the input, so `within` around a rule, with the
//! bounds under which the grammar calls the rule, is the rule itself.

use vstd::prelude::*;
use crate::grammar::{
    add_form, add_op, add_sub, args, args_more, assign, assignable, bit, bit_op, blanks_end,
    body_expr, body_expr_more, bool_literal, call_expr, call_plain, call_typed, callee,
    char_literal, comment, compare, compare_form, compare_op, digits, directive_expr,
    directive_name, expr, field_entry, float_literal, fn_arg, fn_args, fn_args_more, fn_expr,
    identifier, identifier_expr, if_else, if_expr, if_plain, integer_literal, lemma_runs,
    let_binding, let_plain, let_typed, list, lit, lit_ws, loop_expr, match_case, match_cases,
    match_cases_more, match_expr, member_expr, method_entry, mul_div, mul_form, mul_op, paren_expr,
    pass, plain_arg, primary, range_bound, range_expr, record, record_entries, record_entries_more,
    record_entry, record_key, segment, segments, sign, skip, statements, statements_more,
    string_literal, struct_entries, struct_entries_more, struct_entry, struct_expr, type_alias,
    type_alias_generic, type_alias_plain, type_generic, typed_arg, typed_args, typed_args_more,
    typed_callee, typed_expr, typed_fn_expr, typed_literal, typed_member, typed_optional,
    typed_primary, typed_record, typed_record_entries, typed_record_entries_more,
    typed_record_entry, typed_rest, typed_symbol, typed_symbol_generic, typed_unary, typed_unary_op,
    typed_unary_ops, typed_unary_ops_more, typed_variant, unary, unary_op, unary_ops,
    unary_ops_more, until, ws_lit, ws_lit_ws,
};
use crate::token::{within, Far, Token};

verus! {

/// A search ends between its start and the end of the input.
pub proof fn lemma_until_ends(s: Seq<char>, p: int, stop: char)
    requires
        0 <= p <= s.len(),
    ensures
        p <= until(s, p, stop) <= s.len(),
    decreases s.len() - p,
{
    if p < s.len() {
        lemma_until_ends(s, p + 1, stop);
    }
}

/// What is skipped ends between its start and the end of the input.
pub proof fn lemma_skip_ends(s: Seq<char>, p: int, far: Far)
    requires
        0 <= p <= s.len(),
    ensures
        skip(s, p, far).value is Some,
        p <= skip(s, p, far).end <= s.len(),
    decreases s.len() - p,
{
    reveal(skip);
    reveal(comment);
    reveal(lit);
    lemma_runs(s, p);
    let blank = blanks_end(s, p);
    if blank > p {
        lemma_skip_ends(s, blank, far);
    } else {
        let c = comment(s, p, far);
        if c.value is Some {
            lemma_runs(s, lit(s, p, Token::CommentOpen, far).end);
            lemma_skip_ends(s, c.end, c.far);
        }
    }
}

/// `lit` within its bounds is `lit`; so are the literals with what can
/// be skipped around them.
#[verifier::spinoff_prover]
pub proof fn lit_ends_in_bounds(s: Seq<char>, p: int, token: Token, far: Far)
    requires
        0 <= p <= s.len(),
    ensures
        within(lit(s, p, token, far), p + 1, s.len()) == lit(s, p, token, far),
        within(lit_ws(s, p, token, far), p + 1, s.len()) == lit_ws(s, p, token, far),
        within(ws_lit(s, p, token, far), p + 1, s.len()) == ws_lit(s, p, token, far),
        within(ws_lit_ws(s, p, token, far), p + 1, s.len()) == ws_lit_ws(s, p, token, far),
{
    reveal(lit);
    reveal(lit_ws);
    reveal(ws_lit);
    reveal(ws_lit_ws);
    lemma_skip_ends(s, p, far);
    let word = lit(s, p, token, far);
    if word.value is Some {
        lemma_skip_ends(s, word.end, word.far);
    }
    let gap = skip(s, p, far);
    let late = lit(s, gap.end, token, gap.far);
    if late.value is Some {
        lemma_skip_ends(s, late.end, late.far);
    }
}

/// `_` within its bounds is `_`.
pub proof fn skip_ends_in_bounds(s: Seq<char>, p: int, far: Far)
    requires
        0 <= p <= s.len(),
    ensures
        within(skip(s, p, far), p, s.len()) == skip(s, p, far),
{
    lemma_skip_ends(s, p, far);
}

/// `identifier` within its bounds is `identifier`; so are the names in
/// value and in type position.
#[verifier::spinoff_prover]
pub proof fn identifier_ends_in_bounds(s: Seq<char>, p: int, far: Far)
    requires
        0 <= p <= s.len(),
    ensures
        within(identifier(s, p, far), p + 1, s.len()) == identifier(s, p, far),
        within(identifier_expr(s, p, far), p + 1, s.len()) == identifier_expr(s, p, far),
        within(typed_symbol(s, p, far), p + 1, s.len()) == typed_symbol(s, p, far),
{
    reveal(identifier);
    reveal(identifier_expr);
    reveal(typed_symbol);
}

/// The digits after a sign end after their start and within the input.
#[verifier::spinoff_prover]
pub proof fn lemma_digits_end(s: Seq<char>, p: int, far: Far)
    requires
        0 <= p <= s.len(),
    ensures
        p <= sign(s, p, far).end <= s.len(),
        digits(s, sign(s, p, far).end, sign(s, p, far).far).value is Some ==> p < digits(
            s,
            sign(s, p, far).end,
            sign(s, p, far).far,
        ).end <= s.len(),
{
    reveal(lit);
    reveal(sign);
    reveal(digits);
    if sign(s, p, far).end <= s.len() {
        lemma_runs(s, sign(s, p, far).end);
    }
}

/// `integer_literal` within its bounds is `integer_literal`.
#[verifier::spinoff_prover]
pub proof fn integer_literal_ends_in_bounds(s: Seq<char>, p: int, far: Far)
    requires
        0 <= p <= s.len(),
    ensures
        within(integer_literal(s, p, far), p + 1, s.len()) == integer_literal(s, p, far),
{
    reveal(integer_literal);
    lemma_digits_end(s, p, far);
}

/// `float_literal` within its bounds is `float_literal`.
#[verifier::spinoff_prover]
pub proof fn float_literal_ends_in_bounds(s: Seq<char>, p: int, far: Far)
    requires
        0 <= p <= s.len(),
    ensures
        within(float_literal(s, p, far), p + 1, s.len()) == float_literal(s, p, far),
{
    reveal(float_literal);
    reveal(lit);
    lemma_digits_end(s, p, far);
    let minus = sign(s, p, far);
    let whole = digits(s, minus.end, minus.far);
    if whole.value is Some {
        let point = lit(s, whole.end, Token::Dot, whole.far);
        if point.value is Some {
            lemma_runs(s, point.end);
        }
    }
}

/// `bool_literal` and `pass` within their bounds are themselves.
#[verifier::spinoff_prover]
pub proof fn words_end_in_bounds(s: Seq<char>, p: int, far: Far)
    requires
        0 <= p <= s.len(),
    ensures
        within(bool_literal(s, p, far), p + 1, s.len()) == bool_literal(s, p, far),
        within(pass(s, p, far), p + 1, s.len()) == pass(s, p, far),
{
    reveal(lit);
    reveal(bool_literal);
    reveal(pass);
}

/// `string_literal` and `char_literal` within their bounds are themselves.
#[verifier::spinoff_prover]
pub proof fn quoted_end_in_bounds(s: Seq<char>, p: int, far: Far)
    requires
        0 <= p <= s.len(),
    ensures
        within(string_literal(s, p, far), p + 1, s.len()) == string_literal(s, p, far),
        within(char_literal(s, p, far), p + 1, s.len()) == char_literal(s, p, far),
{
    reveal(lit);
    reveal(string_literal);
    reveal(char_literal);
    let opening = lit(s, p, Token::Quote, far);
    if opening.value is Some {
        lemma_until_ends(s, opening.end, '"');
    }
}

/// `range_expr`, `record_key` and `typed_literal` within their bounds are
/// themselves.
#[verifier::spinoff_prover]
pub proof fn small_rules_end_in_bounds(s: Seq<char>, p: int, far: Far)
    requires
        0 <= p <= s.len(),
    ensures
        within(range_expr(s, p, far), p + 1, s.len()) == range_expr(s, p, far),
        within(record_key(s, p, far), p + 1, s.len()) == record_key(s, p, far),
        within(typed_literal(s, p, far), p + 1, s.len()) == typed_literal(s, p, far),
{
    reveal(range_bound);
    reveal(range_expr);
    reveal(record_key);
    reveal(typed_literal);
    reveal(lit);
    integer_literal_ends_in_bounds(s, p, far);
    identifier_ends_in_bounds(s, p, far);
    identifier_ends_in_bounds(s, p, integer_literal(s, p, far).far);
    integer_literal_ends_in_bounds(s, p, identifier_expr(s, p, far).far);
    float_literal_ends_in_bounds(s, p, integer_literal(s, p, far).far);
    words_end_in_bounds(s, p, float_literal(s, p, integer_literal(s, p, far).far).far);
    let start = range_bound(s, p, far);
    if start.value is Some {
        let dots = lit(s, start.end, Token::DotDot, start.far);
        if dots.value is Some {
            integer_literal_ends_in_bounds(s, dots.end, dots.far);
            identifier_ends_in_bounds(s, dots.end, integer_literal(s, dots.end, dots.far).far);
        }
    }
}

/// `unary_op` within its bounds is `unary_op`.
#[verifier::spinoff_prover]
pub proof fn unary_op_ends_in_bounds(s: Seq<char>, p: int, far: Far)
    requires
        0 <= p <= s.len(),
    ensures
        within(unary_op(s, p, far), p + 1, s.len()) == unary_op(s, p, far),
{
    reveal(unary_op);
    reveal(lit);
}

/// `typed_unary_op` within its bounds is `typed_unary_op`.
#[verifier::spinoff_prover]
pub proof fn typed_unary_op_ends_in_bounds(s: Seq<char>, p: int, far: Far)
    requires
        0 <= p <= s.len(),
    ensures
        within(typed_unary_op(s, p, far), p + 1, s.len()) == typed_unary_op(s, p, far),
{
    reveal(typed_unary_op);
    reveal(lit);
}

/// `add_op` within its bounds is `add_op`.
#[verifier::spinoff_prover]
pub proof fn add_op_ends_in_bounds(s: Seq<char>, p: int, far: Far)
    requires
        0 <= p <= s.len(),
    ensures
        within(add_op(s, p, far), p + 1, s.len()) == add_op(s, p, far),
{
    reveal(add_op);
    reveal(lit);
}

/// `mul_op` within its bounds is `mul_op`.
#[verifier::spinoff_prover]
pub proof fn mul_op_ends_in_bounds(s: Seq<char>, p: int, far: Far)
    requires
        0 <= p <= s.len(),
    ensures
        within(mul_op(s, p, far), p + 1, s.len()) == mul_op(s, p, far),
{
    reveal(mul_op);
    reveal(lit);
}

/// `compare_op` within its bounds is `compare_op`.
#[verifier::spinoff_prover]
pub proof fn compare_op_ends_in_bounds(s: Seq<char>, p: int, far: Far)
    requires
        0 <= p <= s.len(),
    ensures
        within(compare_op(s, p, far), p + 1, s.len()) == compare_op(s, p, far),
{
    reveal(compare_op);
    reveal(lit);
}

/// `bit_op` within its bounds is `bit_op`.
#[verifier::spinoff_prover]
pub proof fn bit_op_ends_in_bounds(s: Seq<char>, p: int, far: Far)
    requires
        0 <= p <= s.len(),
    ensures
        within(bit_op(s, p, far), p + 1, s.len()) == bit_op(s, p, far),
{
    reveal(bit_op);
    reveal(lit);
}

/// What follows in `unary_ops` ends between its start and the end of the input.
#[verifier::spinoff_prover]
pub proof fn lemma_unary_ops_more_ends(s: Seq<char>, p: int, far: Far)
    requires
        0 <= p <= s.len(),
    ensures
        unary_ops_more(s, p, far).value is Some,
        p <= unary_ops_more(s, p, far).end <= s.len(),
    decreases s.len() - p,
{
    reveal(unary_ops_more);
    let sep = within(skip(s, p, far), p, s.len());
    if sep.value is Some {
        let next = within(unary_op(s, sep.end, sep.far), sep.end + 1, s.len());
        if next.value is Some {
            lemma_unary_ops_more_ends(s, next.end, next.far);
        }
    }
}

/// `unary_ops` within its bounds is `unary_ops`.
#[verifier::spinoff_prover]
pub proof fn unary_ops_ends_in_bounds(s: Seq<char>, p: int, far: Far)
    requires
        0 <= p <= s.len(),
    ensures
        within(unary_ops(s, p, far), p, s.len()) == unary_ops(s, p, far),
{
    reveal(unary_ops);
    let first = within(unary_op(s, p, far), p + 1, s.len());
    if first.value is Some {
        lemma_unary_ops_more_ends(s, first.end, first.far);
    }
}

/// What follows in `typed_unary_ops` ends between its start and the end of the input.
#[verifier::spinoff_prover]
pub proof fn lemma_typed_unary_ops_more_ends(s: Seq<char>, p: int, far: Far)
    requires
        0 <= p <= s.len(),
    ensures
        typed_unary_ops_more(s, p, far).value is Some,
        p <= typed_unary_ops_more(s, p, far).end <= s.len(),
    decreases s.len() - p,
{
    reveal(typed_unary_ops_more);
    let sep = within(skip(s, p, far), p, s.len());
    if sep.value is Some {
        let next = within(typed_unary_op(s, sep.end, sep.far), sep.end + 1, s.len());
        if next.value is Some {
            lemma_typed_unary_ops_more_ends(s, next.end, next.far);
        }
    }
}

/// `typed_unary_ops` within its bounds is `typed_unary_ops`.
#[verifier::spinoff_prover]
pub proof fn typed_unary_ops_ends_in_bounds(s: Seq<char>, p: int, far: Far)
    requires
        0 <= p <= s.len(),
    ensures
        within(typed_unary_ops(s, p, far), p, s.len()) == typed_unary_ops(s, p, far),
{
    reveal(typed_unary_ops);
    let first = within(typed_unary_op(s, p, far), p + 1, s.len());
    if first.value is Some {
        lemma_typed_unary_ops_more_ends(s, first.end, first.far);
    }
}

/// `typed_optional` within its bounds is `typed_optional`.
#[verifier::spinoff_prover]
pub proof fn typed_optional_ends_in_bounds(s: Seq<char>, p: int, far: Far)
    requires
        0 <= p <= s.len(),
    ensures
        within(typed_optional(s, p, far), p + 1, s.len()) == typed_optional(s, p, far),
{
    reveal(typed_optional);
}

/// `typed_fn_expr` within its bounds is `typed_fn_expr`.
#[verifier::spinoff_prover]
pub proof fn typed_fn_expr_ends_in_bounds(s: Seq<char>, p: int, far: Far)
    requires
        0 <= p <= s.len(),
    ensures
        within(typed_fn_expr(s, p, far), p + 1, s.len()) == typed_fn_expr(s, p, far),
{
    reveal(typed_fn_expr);
}

/// `typed_record_entry` within its bounds is `typed_record_entry`.
#[verifier::spinoff_prover]
pub proof fn typed_record_entry_ends_in_bounds(s: Seq<char>, p: int, far: Far)
    requires
        0 <= p <= s.len(),
    ensures
        within(typed_record_entry(s, p, far), p + 1, s.len()) == typed_record_entry(s, p, far),
{
    reveal(typed_record_entry);
}

/// What follows in `typed_record_entries` ends between its start and the end of the input.
#[verifier::spinoff_prover]
pub proof fn lemma_typed_record_entries_more_ends(s: Seq<char>, p: int, far: Far)
    requires
        0 <= p <= s.len(),
    ensures
        typed_record_entries_more(s, p, far).value is Some,
        p <= typed_record_entries_more(s, p, far).end <= s.len(),
    decreases s.len() - p,
{
    reveal(typed_record_entries_more);
    let sep = within(ws_lit_ws(s, p, Token::Comma, far), p + 1, s.len());
    if sep.value is Some {
        let next = within(typed_record_entry(s, sep.end, sep.far), sep.end + 1, s.len());
        if next.value is Some {
            lemma_typed_record_entries_more_ends(s, next.end, next.far);
        }
    }
}

/// `typed_record_entries` within its bounds is `typed_record_entries`.
#[verifier::spinoff_prover]
pub proof fn typed_record_entries_ends_in_bounds(s: Seq<char>, p: int, far: Far)
    requires
        0 <= p <= s.len(),
    ensures
        within(typed_record_entries(s, p, far), p, s.len()) == typed_record_entries(s, p, far),
{
    reveal(typed_record_entries);
    let first = within(typed_record_entry(s, p, far), p + 1, s.len());
    if first.value is Some {
        lemma_typed_record_entries_more_ends(s, first.end, first.far);
    }
}

/// `typed_record` within its bounds is `typed_record`.
#[verifier::spinoff_prover]
pub proof fn typed_record_ends_in_bounds(s: Seq<char>, p: int, far: Far)
    requires
        0 <= p <= s.len(),
    ensures
        within(typed_record(s, p, far), p + 1, s.len()) == typed_record(s, p, far),
{
    reveal(typed_record);
}

/// `typed_member` within its bounds is `typed_member`.
#[verifier::spinoff_prover]
pub proof fn typed_member_ends_in_bounds(s: Seq<char>, p: int, far: Far)
    requires
        0 <= p <= s.len(),
    ensures
        within(typed_member(s, p, far), p + 1, s.len()) == typed_member(s, p, far),
{
    reveal(typed_member);
}

/// `typed_symbol_generic` within its bounds is `typed_symbol_generic`.
#[verifier::spinoff_prover]
pub proof fn typed_symbol_generic_ends_in_bounds(s: Seq<char>, p: int, far: Far)
    requires
        0 <= p <= s.len(),
    ensures
        within(typed_symbol_generic(s, p, far), p + 1, s.len()) == typed_symbol_generic(s, p, far),
{
    reveal(typed_symbol_generic);
}

/// `type_alias_plain` within its bounds is `type_alias_plain`.
#[verifier::spinoff_prover]
pub proof fn type_alias_plain_ends_in_bounds(s: Seq<char>, p: int, far: Far)
    requires
        0 <= p <= s.len(),
    ensures
        within(type_alias_plain(s, p, far), p + 1, s.len()) == type_alias_plain(s, p, far),
{
    reveal(type_alias_plain);
}

/// `type_alias_generic` within its bounds is `type_alias_generic`.
#[verifier::spinoff_prover]
pub proof fn type_alias_generic_ends_in_bounds(s: Seq<char>, p: int, far: Far)
    requires
        0 <= p <= s.len(),
    ensures
        within(type_alias_generic(s, p, far), p + 1, s.len()) == type_alias_generic(s, p, far),
{
    reveal(type_alias_generic);
}

/// `type_alias` within its bounds is `type_alias`.
#[verifier::spinoff_prover]
pub proof fn type_alias_ends_in_bounds(s: Seq<char>, p: int, far: Far)
    requires
        0 <= p <= s.len(),
    ensures
        within(type_alias(s, p, far), p + 1, s.len()) == type_alias(s, p, far),
{
    reveal(type_alias);
}

/// What follows in `typed_args` ends between its start and the end of the input.
#[verifier::spinoff_prover]
pub proof fn lemma_typed_args_more_ends(s: Seq<char>, p: int, far: Far)
    requires
        0 <= p <= s.len(),
    ensures
        typed_args_more(s, p, far).value is Some,
        p <= typed_args_more(s, p, far).end <= s.len(),
    decreases s.len() - p,
{
    reveal(typed_args_more);
    let sep = within(ws_lit_ws(s, p, Token::Comma, far), p + 1, s.len());
    if sep.value is Some {
        let next = within(typed_expr(s, sep.end, sep.far), sep.end + 1, s.len());
        if next.value is Some {
            lemma_typed_args_more_ends(s, next.end, next.far);
        }
    }
}

/// `typed_args` within its bounds is `typed_args`.
#[verifier::spinoff_prover]
pub proof fn typed_args_ends_in_bounds(s: Seq<char>, p: int, far: Far)
    requires
        0 <= p <= s.len(),
    ensures
        within(typed_args(s, p, far), p, s.len()) == typed_args(s, p, far),
{
    reveal(typed_args);
    let first = within(typed_expr(s, p, far), p + 1, s.len());
    if first.value is Some {
        lemma_typed_args_more_ends(s, first.end, first.far);
    }
}

/// `type_generic` within its bounds is `type_generic`.
#[verifier::spinoff_prover]
pub proof fn type_generic_ends_in_bounds(s: Seq<char>, p: int, far: Far)
    requires
        0 <= p <= s.len(),
    ensures
        within(type_generic(s, p, far), p + 1, s.len()) == type_generic(s, p, far),
{
    reveal(type_generic);
}

/// What follows in `typed_rest` ends between its start and the end of the input.
#[verifier::spinoff_prover]
pub proof fn lemma_typed_rest_ends(s: Seq<char>, p: int, far: Far)
    requires
        0 <= p <= s.len(),
    ensures
        typed_rest(s, p, far).value is Some,
        p <= typed_rest(s, p, far).end <= s.len(),
    decreases s.len() - p,
{
    reveal(typed_rest);
    let first = within(typed_expr(s, p, far), p + 1, s.len());
    if first.value is Some {
        lemma_typed_rest_ends(s, first.end, first.far);
    }
}

/// `typed_rest` within its bounds is `typed_rest`.
#[verifier::spinoff_prover]
pub proof fn typed_rest_ends_in_bounds(s: Seq<char>, p: int, far: Far)
    requires
        0 <= p <= s.len(),
    ensures
        within(typed_rest(s, p, far), p, s.len()) == typed_rest(s, p, far),
{
    reveal(typed_rest);
    lemma_typed_rest_ends(s, p, far);
}

/// `typed_variant` within its bounds is `typed_variant`.
#[verifier::spinoff_prover]
pub proof fn typed_variant_ends_in_bounds(s: Seq<char>, p: int, far: Far)
    requires
        0 <= p <= s.len(),
    ensures
        within(typed_variant(s, p, far), p + 1, s.len()) == typed_variant(s, p, far),
{
    reveal(typed_variant);
}

/// `typed_unary` within its bounds is `typed_unary`.
#[verifier::spinoff_prover]
pub proof fn typed_unary_ends_in_bounds(s: Seq<char>, p: int, far: Far)
    requires
        0 <= p <= s.len(),
    ensures
        within(typed_unary(s, p, far), p + 1, s.len()) == typed_unary(s, p, far),
{
    reveal(typed_unary);
}

/// `typed_primary` within its bounds is `typed_primary`.
#[verifier::spinoff_prover]
pub proof fn typed_primary_ends_in_bounds(s: Seq<char>, p: int, far: Far)
    requires
        0 <= p <= s.len(),
    ensures
        within(typed_primary(s, p, far), p + 1, s.len()) == typed_primary(s, p, far),
{
    reveal(typed_primary);
}

/// `typed_expr` within its bounds is `typed_expr`.
#[verifier::spinoff_prover]
pub proof fn typed_expr_ends_in_bounds(s: Seq<char>, p: int, far: Far)
    requires
        0 <= p <= s.len(),
    ensures
        within(typed_expr(s, p, far), p + 1, s.len()) == typed_expr(s, p, far),
{
    reveal(typed_expr);
}

/// What follows in `segments` ends between its start and the end of the input.
#[verifier::spinoff_prover]
pub proof fn lemma_segments_ends(s: Seq<char>, p: int, far: Far)
    requires
        0 <= p <= s.len(),
    ensures
        segments(s, p, far).value is Some,
        p <= segments(s, p, far).end <= s.len(),
    decreases s.len() - p,
{
    reveal(segments);
    let first = within(segment(s, p, far), p + 1, s.len());
    if first.value is Some {
        lemma_segments_ends(s, first.end, first.far);
    }
}

/// `segments` within its bounds is `segments`.
#[verifier::spinoff_prover]
pub proof fn segments_ends_in_bounds(s: Seq<char>, p: int, far: Far)
    requires
        0 <= p <= s.len(),
    ensures
        within(segments(s, p, far), p, s.len()) == segments(s, p, far),
{
    reveal(segments);
    lemma_segments_ends(s, p, far);
}

/// `member_expr` within its bounds is `member_expr`.
#[verifier::spinoff_prover]
pub proof fn member_expr_ends_in_bounds(s: Seq<char>, p: int, far: Far)
    requires
        0 <= p <= s.len(),
    ensures
        within(member_expr(s, p, far), p + 1, s.len()) == member_expr(s, p, far),
{
    reveal(member_expr);
}

/// `segment` within its bounds is `segment`.
#[verifier::spinoff_prover]
pub proof fn segment_ends_in_bounds(s: Seq<char>, p: int, far: Far)
    requires
        0 <= p <= s.len(),
    ensures
        within(segment(s, p, far), p + 1, s.len()) == segment(s, p, far),
{
    reveal(segment);
}

/// `callee` within its bounds is `callee`.
#[verifier::spinoff_prover]
pub proof fn callee_ends_in_bounds(s: Seq<char>, p: int, far: Far)
    requires
        0 <= p <= s.len(),
    ensures
        within(callee(s, p, far), p + 1, s.len()) == callee(s, p, far),
{
    reveal(callee);
}

/// `typed_callee` within its bounds is `typed_callee`.
#[verifier::spinoff_prover]
pub proof fn typed_callee_ends_in_bounds(s: Seq<char>, p: int, far: Far)
    requires
        0 <= p <= s.len(),
    ensures
        within(typed_callee(s, p, far), p + 1, s.len()) == typed_callee(s, p, far),
{
    reveal(typed_callee);
}

/// What follows in `args` ends between its start and the end of the input.
#[verifier::spinoff_prover]
pub proof fn lemma_args_more_ends(s: Seq<char>, p: int, far: Far)
    requires
        0 <= p <= s.len(),
    ensures
        args_more(s, p, far).value is Some,
        p <= args_more(s, p, far).end <= s.len(),
    decreases s.len() - p,
{
    reveal(args_more);
    let sep = within(ws_lit_ws(s, p, Token::Comma, far), p + 1, s.len());
    if sep.value is Some {
        let next = within(expr(s, sep.end, sep.far), sep.end + 1, s.len());
        if next.value is Some {
            lemma_args_more_ends(s, next.end, next.far);
        }
    }
}

/// `args` within its bounds is `args`.
#[verifier::spinoff_prover]
pub proof fn args_ends_in_bounds(s: Seq<char>, p: int, far: Far)
    requires
        0 <= p <= s.len(),
    ensures
        within(args(s, p, far), p, s.len()) == args(s, p, far),
{
    reveal(args);
    let first = within(expr(s, p, far), p + 1, s.len());
    if first.value is Some {
        lemma_args_more_ends(s, first.end, first.far);
    }
}

/// `call_plain` within its bounds is `call_plain`.
#[verifier::spinoff_prover]
pub proof fn call_plain_ends_in_bounds(s: Seq<char>, p: int, far: Far)
    requires
        0 <= p <= s.len(),
    ensures
        within(call_plain(s, p, far), p + 1, s.len()) == call_plain(s, p, far),
{
    reveal(call_plain);
}

/// `call_typed` within its bounds is `call_typed`.
#[verifier::spinoff_prover]
pub proof fn call_typed_ends_in_bounds(s: Seq<char>, p: int, far: Far)
    requires
        0 <= p <= s.len(),
    ensures
        within(call_typed(s, p, far), p + 1, s.len()) == call_typed(s, p, far),
{
    reveal(call_typed);
}

/// `call_expr` within its bounds is `call_expr`.
#[verifier::spinoff_prover]
pub proof fn call_expr_ends_in_bounds(s: Seq<char>, p: int, far: Far)
    requires
        0 <= p <= s.len(),
    ensures
        within(call_expr(s, p, far), p + 1, s.len()) == call_expr(s, p, far),
{
    reveal(call_expr);
}

/// `directive_name` within its bounds is `directive_name`.
#[verifier::spinoff_prover]
pub proof fn directive_name_ends_in_bounds(s: Seq<char>, p: int, far: Far)
    requires
        0 <= p <= s.len(),
    ensures
        within(directive_name(s, p, far), p + 1, s.len()) == directive_name(s, p, far),
{
    reveal(directive_name);
}

/// `directive_expr` within its bounds is `directive_expr`.
#[verifier::spinoff_prover]
pub proof fn directive_expr_ends_in_bounds(s: Seq<char>, p: int, far: Far)
    requires
        0 <= p <= s.len(),
    ensures
        within(directive_expr(s, p, far), p + 1, s.len()) == directive_expr(s, p, far),
{
    reveal(directive_expr);
}

/// `let_plain` within its bounds is `let_plain`.
#[verifier::spinoff_prover]
pub proof fn let_plain_ends_in_bounds(s: Seq<char>, p: int, far: Far)
    requires
        0 <= p <= s.len(),
    ensures
        within(let_plain(s, p, far), p + 1, s.len()) == let_plain(s, p, far),
{
    reveal(let_plain);
}

/// `let_typed` within its bounds is `let_typed`.
#[verifier::spinoff_prover]
pub proof fn let_typed_ends_in_bounds(s: Seq<char>, p: int, far: Far)
    requires
        0 <= p <= s.len(),
    ensures
        within(let_typed(s, p, far), p + 1, s.len()) == let_typed(s, p, far),
{
    reveal(let_typed);
}

/// `let_binding` within its bounds is `let_binding`.
#[verifier::spinoff_prover]
pub proof fn let_binding_ends_in_bounds(s: Seq<char>, p: int, far: Far)
    requires
        0 <= p <= s.len(),
    ensures
        within(let_binding(s, p, far), p + 1, s.len()) == let_binding(s, p, far),
{
    reveal(let_binding);
}

/// `assignable` within its bounds is `assignable`.
#[verifier::spinoff_prover]
pub proof fn assignable_ends_in_bounds(s: Seq<char>, p: int, far: Far)
    requires
        0 <= p <= s.len(),
    ensures
        within(assignable(s, p, far), p + 1, s.len()) == assignable(s, p, far),
{
    reveal(assignable);
}

/// `assign` within its bounds is `assign`.
#[verifier::spinoff_prover]
pub proof fn assign_ends_in_bounds(s: Seq<char>, p: int, far: Far)
    requires
        0 <= p <= s.len(),
    ensures
        within(assign(s, p, far), p + 1, s.len()) == assign(s, p, far),
{
    reveal(assign);
}

/// `paren_expr` within its bounds is `paren_expr`.
#[verifier::spinoff_prover]
pub proof fn paren_expr_ends_in_bounds(s: Seq<char>, p: int, far: Far)
    requires
        0 <= p <= s.len(),
    ensures
        within(paren_expr(s, p, far), p + 1, s.len()) == paren_expr(s, p, far),
{
    reveal(paren_expr);
}

/// `list` within its bounds is `list`.
#[verifier::spinoff_prover]
pub proof fn list_ends_in_bounds(s: Seq<char>, p: int, far: Far)
    requires
        0 <= p <= s.len(),
    ensures
        within(list(s, p, far), p + 1, s.len()) == list(s, p, far),
{
    reveal(list);
}

/// `record_entry` within its bounds is `record_entry`.
#[verifier::spinoff_prover]
pub proof fn record_entry_ends_in_bounds(s: Seq<char>, p: int, far: Far)
    requires
        0 <= p <= s.len(),
    ensures
        within(record_entry(s, p, far), p + 1, s.len()) == record_entry(s, p, far),
{
    reveal(record_entry);
}

/// What follows in `record_entries` ends between its start and the end of the input.
#[verifier::spinoff_prover]
pub proof fn lemma_record_entries_more_ends(s: Seq<char>, p: int, far: Far)
    requires
        0 <= p <= s.len(),
    ensures
        record_entries_more(s, p, far).value is Some,
        p <= record_entries_more(s, p, far).end <= s.len(),
    decreases s.len() - p,
{
    reveal(record_entries_more);
    let sep = within(ws_lit_ws(s, p, Token::Comma, far), p + 1, s.len());
    if sep.value is Some {
        let next = within(record_entry(s, sep.end, sep.far), sep.end + 1, s.len());
        if next.value is Some {
            lemma_record_entries_more_ends(s, next.end, next.far);
        }
    }
}

/// `record_entries` within its bounds is `record_entries`.
#[verifier::spinoff_prover]
pub proof fn record_entries_ends_in_bounds(s: Seq<char>, p: int, far: Far)
    requires
        0 <= p <= s.len(),
    ensures
        within(record_entries(s, p, far), p, s.len()) == record_entries(s, p, far),
{
    reveal(record_entries);
    let first = within(record_entry(s, p, far), p + 1, s.len());
    if first.value is Some {
        lemma_record_entries_more_ends(s, first.end, first.far);
    }
}

/// `record` within its bounds is `record`.
#[verifier::spinoff_prover]
pub proof fn record_ends_in_bounds(s: Seq<char>, p: int, far: Far)
    requires
        0 <= p <= s.len(),
    ensures
        within(record(s, p, far), p + 1, s.len()) == record(s, p, far),
{
    reveal(record);
}

/// `field_entry` within its bounds is `field_entry`.
#[verifier::spinoff_prover]
pub proof fn field_entry_ends_in_bounds(s: Seq<char>, p: int, far: Far)
    requires
        0 <= p <= s.len(),
    ensures
        within(field_entry(s, p, far), p + 1, s.len()) == field_entry(s, p, far),
{
    reveal(field_entry);
}

/// `method_entry` within its bounds is `method_entry`.
#[verifier::spinoff_prover]
pub proof fn method_entry_ends_in_bounds(s: Seq<char>, p: int, far: Far)
    requires
        0 <= p <= s.len(),
    ensures
        within(method_entry(s, p, far), p + 1, s.len()) == method_entry(s, p, far),
{
    reveal(method_entry);
}

/// `struct_entry` within its bounds is `struct_entry`.
#[verifier::spinoff_prover]
pub proof fn struct_entry_ends_in_bounds(s: Seq<char>, p: int, far: Far)
    requires
        0 <= p <= s.len(),
    ensures
        within(struct_entry(s, p, far), p + 1, s.len()) == struct_entry(s, p, far),
{
    reveal(struct_entry);
}

/// What follows in `struct_entries` ends between its start and the end of the input.
#[verifier::spinoff_prover]
pub proof fn lemma_struct_entries_more_ends(s: Seq<char>, p: int, far: Far)
    requires
        0 <= p <= s.len(),
    ensures
        struct_entries_more(s, p, far).value is Some,
        p <= struct_entries_more(s, p, far).end <= s.len(),
    decreases s.len() - p,
{
    reveal(struct_entries_more);
    let sep = within(ws_lit_ws(s, p, Token::Comma, far), p + 1, s.len());
    if sep.value is Some {
        let next = within(struct_entry(s, sep.end, sep.far), sep.end + 1, s.len());
        if next.value is Some {
            lemma_struct_entries_more_ends(s, next.end, next.far);
        }
    }
}

/// `struct_entries` within its bounds is `struct_entries`.
#[verifier::spinoff_prover]
pub proof fn struct_entries_ends_in_bounds(s: Seq<char>, p: int, far: Far)
    requires
        0 <= p <= s.len(),
    ensures
        within(struct_entries(s, p, far), p, s.len()) == struct_entries(s, p, far),
{
    reveal(struct_entries);
    let first = within(struct_entry(s, p, far), p + 1, s.len());
    if first.value is Some {
        lemma_struct_entries_more_ends(s, first.end, first.far);
    }
}

/// `struct_expr` within its bounds is `struct_expr`.
#[verifier::spinoff_prover]
pub proof fn struct_expr_ends_in_bounds(s: Seq<char>, p: int, far: Far)
    requires
        0 <= p <= s.len(),
    ensures
        within(struct_expr(s, p, far), p + 1, s.len()) == struct_expr(s, p, far),
{
    reveal(struct_expr);
}

/// What follows in `body_expr` ends between its start and the end of the input.
#[verifier::spinoff_prover]
pub proof fn lemma_body_expr_more_ends(s: Seq<char>, p: int, far: Far)
    requires
        0 <= p <= s.len(),
    ensures
        body_expr_more(s, p, far).value is Some,
        p <= body_expr_more(s, p, far).end <= s.len(),
    decreases s.len() - p,
{
    reveal(body_expr_more);
    let sep = within(ws_lit_ws(s, p, Token::Semicolon, far), p + 1, s.len());
    if sep.value is Some {
        let next = within(expr(s, sep.end, sep.far), sep.end + 1, s.len());
        if next.value is Some {
            lemma_body_expr_more_ends(s, next.end, next.far);
        }
    }
}

/// `body_expr` within its bounds is `body_expr`.
#[verifier::spinoff_prover]
pub proof fn body_expr_ends_in_bounds(s: Seq<char>, p: int, far: Far)
    requires
        0 <= p <= s.len(),
    ensures
        within(body_expr(s, p, far), p, s.len()) == body_expr(s, p, far),
{
    reveal(body_expr);
    let first = within(expr(s, p, far), p + 1, s.len());
    if first.value is Some {
        lemma_body_expr_more_ends(s, first.end, first.far);
    }
}

/// `if_plain` within its bounds is `if_plain`.
#[verifier::spinoff_prover]
pub proof fn if_plain_ends_in_bounds(s: Seq<char>, p: int, far: Far)
    requires
        0 <= p <= s.len(),
    ensures
        within(if_plain(s, p, far), p + 1, s.len()) == if_plain(s, p, far),
{
    reveal(if_plain);
}

/// `if_else` within its bounds is `if_else`.
#[verifier::spinoff_prover]
pub proof fn if_else_ends_in_bounds(s: Seq<char>, p: int, far: Far)
    requires
        0 <= p <= s.len(),
    ensures
        within(if_else(s, p, far), p + 1, s.len()) == if_else(s, p, far),
{
    reveal(if_else);
}

/// `if_expr` within its bounds is `if_expr`.
#[verifier::spinoff_prover]
pub proof fn if_expr_ends_in_bounds(s: Seq<char>, p: int, far: Far)
    requires
        0 <= p <= s.len(),
    ensures
        within(if_expr(s, p, far), p + 1, s.len()) == if_expr(s, p, far),
{
    reveal(if_expr);
}

/// `loop_expr` within its bounds is `loop_expr`.
#[verifier::spinoff_prover]
pub proof fn loop_expr_ends_in_bounds(s: Seq<char>, p: int, far: Far)
    requires
        0 <= p <= s.len(),
    ensures
        within(loop_expr(s, p, far), p + 1, s.len()) == loop_expr(s, p, far),
{
    reveal(loop_expr);
}

/// `typed_arg` within its bounds is `typed_arg`.
#[verifier::spinoff_prover]
pub proof fn typed_arg_ends_in_bounds(s: Seq<char>, p: int, far: Far)
    requires
        0 <= p <= s.len(),
    ensures
        within(typed_arg(s, p, far), p + 1, s.len()) == typed_arg(s, p, far),
{
    reveal(typed_arg);
}

/// `plain_arg` within its bounds is `plain_arg`.
#[verifier::spinoff_prover]
pub proof fn plain_arg_ends_in_bounds(s: Seq<char>, p: int, far: Far)
    requires
        0 <= p <= s.len(),
    ensures
        within(plain_arg(s, p, far), p + 1, s.len()) == plain_arg(s, p, far),
{
    reveal(plain_arg);
}

/// `fn_arg` within its bounds is `fn_arg`.
#[verifier::spinoff_prover]
pub proof fn fn_arg_ends_in_bounds(s: Seq<char>, p: int, far: Far)
    requires
        0 <= p <= s.len(),
    ensures
        within(fn_arg(s, p, far), p + 1, s.len()) == fn_arg(s, p, far),
{
    reveal(fn_arg);
}

/// What follows in `fn_args` ends between its start and the end of the input.
#[verifier::spinoff_prover]
pub proof fn lemma_fn_args_more_ends(s: Seq<char>, p: int, far: Far)
    requires
        0 <= p <= s.len(),
    ensures
        fn_args_more(s, p, far).value is Some,
        p <= fn_args_more(s, p, far).end <= s.len(),
    decreases s.len() - p,
{
    reveal(fn_args_more);
    let sep = within(ws_lit_ws(s, p, Token::Comma, far), p + 1, s.len());
    if sep.value is Some {
        let next = within(fn_arg(s, sep.end, sep.far), sep.end + 1, s.len());
        if next.value is Some {
            lemma_fn_args_more_ends(s, next.end, next.far);
        }
    }
}

/// `fn_args` within its bounds is `fn_args`.
#[verifier::spinoff_prover]
pub proof fn fn_args_ends_in_bounds(s: Seq<char>, p: int, far: Far)
    requires
        0 <= p <= s.len(),
    ensures
        within(fn_args(s, p, far), p, s.len()) == fn_args(s, p, far),
{
    reveal(fn_args);
    let first = within(fn_arg(s, p, far), p + 1, s.len());
    if first.value is Some {
        lemma_fn_args_more_ends(s, first.end, first.far);
    }
}

/// `fn_expr` within its bounds is `fn_expr`.
#[verifier::spinoff_prover]
pub proof fn fn_expr_ends_in_bounds(s: Seq<char>, p: int, far: Far)
    requires
        0 <= p <= s.len(),
    ensures
        within(fn_expr(s, p, far), p + 1, s.len()) == fn_expr(s, p, far),
{
    reveal(fn_expr);
}

/// `match_case` within its bounds is `match_case`.
#[verifier::spinoff_prover]
pub proof fn match_case_ends_in_bounds(s: Seq<char>, p: int, far: Far)
    requires
        0 <= p <= s.len(),
    ensures
        within(match_case(s, p, far), p + 1, s.len()) == match_case(s, p, far),
{
    reveal(match_case);
}

/// What follows in `match_cases` ends between its start and the end of the input.
#[verifier::spinoff_prover]
pub proof fn lemma_match_cases_more_ends(s: Seq<char>, p: int, far: Far)
    requires
        0 <= p <= s.len(),
    ensures
        match_cases_more(s, p, far).value is Some,
        p <= match_cases_more(s, p, far).end <= s.len(),
    decreases s.len() - p,
{
    reveal(match_cases_more);
    let sep = within(skip(s, p, far), p, s.len());
    if sep.value is Some {
        let next = within(match_case(s, sep.end, sep.far), sep.end + 1, s.len());
        if next.value is Some {
            lemma_match_cases_more_ends(s, next.end, next.far);
        }
    }
}

/// `match_cases` within its bounds is `match_cases`.
#[verifier::spinoff_prover]
pub proof fn match_cases_ends_in_bounds(s: Seq<char>, p: int, far: Far)
    requires
        0 <= p <= s.len(),
    ensures
        within(match_cases(s, p, far), p, s.len()) == match_cases(s, p, far),
{
    reveal(match_cases);
    let first = within(match_case(s, p, far), p + 1, s.len());
    if first.value is Some {
        lemma_match_cases_more_ends(s, first.end, first.far);
    }
}

/// `match_expr` within its bounds is `match_expr`.
#[verifier::spinoff_prover]
pub proof fn match_expr_ends_in_bounds(s: Seq<char>, p: int, far: Far)
    requires
        0 <= p <= s.len(),
    ensures
        within(match_expr(s, p, far), p + 1, s.len()) == match_expr(s, p, far),
{
    reveal(match_expr);
}

/// `primary` within its bounds is `primary`.
#[verifier::spinoff_prover]
pub proof fn primary_ends_in_bounds(s: Seq<char>, p: int, far: Far)
    requires
        0 <= p <= s.len(),
    ensures
        within(primary(s, p, far), p + 1, s.len()) == primary(s, p, far),
{
    reveal(primary);
}

/// `bit` within its bounds is `bit`.
#[verifier::spinoff_prover]
pub proof fn bit_ends_in_bounds(s: Seq<char>, p: int, far: Far)
    requires
        0 <= p <= s.len(),
    ensures
        within(bit(s, p, far), p + 1, s.len()) == bit(s, p, far),
{
    reveal(bit);
}

/// `compare_form` within its bounds is `compare_form`.
#[verifier::spinoff_prover]
pub proof fn compare_form_ends_in_bounds(s: Seq<char>, p: int, far: Far)
    requires
        0 <= p <= s.len(),
    ensures
        within(compare_form(s, p, far), p + 1, s.len()) == compare_form(s, p, far),
{
    reveal(compare_form);
}

/// `compare` within its bounds is `compare`.
#[verifier::spinoff_prover]
pub proof fn compare_ends_in_bounds(s: Seq<char>, p: int, far: Far)
    requires
        0 <= p <= s.len(),
    ensures
        within(compare(s, p, far), p + 1, s.len()) == compare(s, p, far),
{
    reveal(compare);
}

/// `mul_form` within its bounds is `mul_form`.
#[verifier::spinoff_prover]
pub proof fn mul_form_ends_in_bounds(s: Seq<char>, p: int, far: Far)
    requires
        0 <= p <= s.len(),
    ensures
        within(mul_form(s, p, far), p + 1, s.len()) == mul_form(s, p, far),
{
    reveal(mul_form);
}

/// `mul_div` within its bounds is `mul_div`.
#[verifier::spinoff_prover]
pub proof fn mul_div_ends_in_bounds(s: Seq<char>, p: int, far: Far)
    requires
        0 <= p <= s.len(),
    ensures
        within(mul_div(s, p, far), p + 1, s.len()) == mul_div(s, p, far),
{
    reveal(mul_div);
}

/// `add_form` within its bounds is `add_form`.
#[verifier::spinoff_prover]
pub proof fn add_form_ends_in_bounds(s: Seq<char>, p: int, far: Far)
    requires
        0 <= p <= s.len(),
    ensures
        within(add_form(s, p, far), p + 1, s.len()) == add_form(s, p, far),
{
    reveal(add_form);
}

/// `add_sub` within its bounds is `add_sub`.
#[verifier::spinoff_prover]
pub proof fn add_sub_ends_in_bounds(s: Seq<char>, p: int, far: Far)
    requires
        0 <= p <= s.len(),
    ensures
        within(add_sub(s, p, far), p + 1, s.len()) == add_sub(s, p, far),
{
    reveal(add_sub);
}

/// `unary` within its bounds is `unary`.
#[verifier::spinoff_prover]
pub proof fn unary_ends_in_bounds(s: Seq<char>, p: int, far: Far)
    requires
        0 <= p <= s.len(),
    ensures
        within(unary(s, p, far), p + 1, s.len()) == unary(s, p, far),
{
    reveal(unary);
}

/// `expr` within its bounds is `expr`.
#[verifier::spinoff_prover]
pub proof fn expr_ends_in_bounds(s: Seq<char>, p: int, far: Far)
    requires
        0 <= p <= s.len(),
    ensures
        within(expr(s, p, far), p + 1, s.len()) == expr(s, p, far),
{
    reveal(expr);
}

/// What follows in `statements` ends between its start and the end of the input.
#[verifier::spinoff_prover]
pub proof fn lemma_statements_more_ends(s: Seq<char>, p: int, far: Far)
    requires
        0 <= p <= s.len(),
    ensures
        statements_more(s, p, far).value is Some,
        p <= statements_more(s, p, far).end <= s.len(),
    decreases s.len() - p,
{
    reveal(statements_more);
    let sep = within(skip(s, p, far), p, s.len());
    if sep.value is Some {
        let next = within(expr(s, sep.end, sep.far), sep.end + 1, s.len());
        if next.value is Some {
            lemma_statements_more_ends(s, next.end, next.far);
        }
    }
}

/// `statements` within its bounds is `statements`.
#[verifier::spinoff_prover]
pub proof fn statements_ends_in_bounds(s: Seq<char>, p: int, far: Far)
    requires
        0 <= p <= s.len(),
    ensures
        within(statements(s, p, far), p, s.len()) == statements(s, p, far),
{
    reveal(statements);
    let first = within(expr(s, p, far), p + 1, s.len());
    if first.value is Some {
        lemma_statements_more_ends(s, first.end, first.far);
    }
}

} // verus!
