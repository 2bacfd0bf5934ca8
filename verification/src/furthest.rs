//! The furthest failure of a parse is well-formed: its position lies in the
//! input and no token is expected twice. Every rule keeps it so.

use vstd::prelude::*;
use crate::grammar::{
    add_form, add_op, add_sub, args, args_more, assign, assignable, bit, bit_op, blanks_end,
    body_expr, body_expr_more, bool_literal, call_expr, call_plain, call_typed, callee,
    char_literal, comment, comment_close, compare, compare_form, compare_op, digits, digits_end,
    directive_expr, directive_name, expr, field_entry, float_literal, fn_arg, fn_args, fn_args_more,
    fn_expr, identifier, identifier_expr, if_else, if_expr, if_plain, integer_literal, lemma_runs,
    let_binding, let_plain, let_typed, list, lit, lit_ws, loop_expr, match_case, match_cases,
    match_cases_more, match_expr, member_expr, method_entry, mul_div, mul_form, mul_op, paren_expr,
    pass, plain_arg, primary, program, range_bound, range_expr, record, record_entries,
    record_entries_more, record_entry, record_key, segment, segments, sign, skip, statements,
    statements_more, string_literal, struct_entries, struct_entries_more, struct_entry, struct_expr,
    type_alias, type_alias_generic, type_alias_plain, type_generic, typed_arg, typed_args,
    typed_args_more, typed_callee, typed_expr, typed_fn_expr, typed_literal, typed_member,
    typed_optional, typed_primary, typed_record, typed_record_entries, typed_record_entries_more,
    typed_record_entry, typed_rest, typed_symbol, typed_symbol_generic, typed_unary, typed_unary_op,
    typed_unary_ops, typed_unary_ops_more, typed_variant, unary, unary_op, unary_ops,
    unary_ops_more, until, ws_lit, ws_lit_ws,
};
use crate::bounds::{
    identifier_ends_in_bounds, integer_literal_ends_in_bounds, lemma_skip_ends, lemma_until_ends,
    statements_ends_in_bounds,
};
use crate::token::{far_start, mark, within, Far, Token};

verus! {

/// Whether a furthest failure is well-formed for the input `s`: its
/// position lies in the input, and no token is expected twice.
pub open spec fn well_formed(s: Seq<char>, far: Far) -> bool {
    &&& 0 <= far.pos <= s.len()
    &&& far.expected.no_duplicates()
}

/// A failure that is recorded is kept if it is the furthest: the position
/// after it is the larger of the two, the token is expected where the
/// failure is at that position, and nothing changes where it is before it.
pub proof fn mark_keeps_the_furthest(far: Far, pos: int, token: Token)
    ensures
        mark(far, pos, token).pos == if pos > far.pos {
            pos
        } else {
            far.pos
        },
        pos >= far.pos ==> mark(far, pos, token).expected.contains(token),
        pos < far.pos ==> mark(far, pos, token) == far,
        pos == far.pos ==> forall|other: Token|
            far.expected.contains(other) ==> mark(far, pos, token).expected.contains(other),
        far.expected.no_duplicates() ==> mark(far, pos, token).expected.no_duplicates(),
{
    if pos > far.pos {
        assert(seq![token][0] == token);
    } else if pos == far.pos && !far.expected.contains(token) {
        let after = far.expected.push(token);
        assert(after[after.len() - 1] == token);
        assert forall|other: Token| far.expected.contains(other) implies after.contains(
            other,
        ) by {
            let i = choose|i: int| 0 <= i < far.expected.len() && far.expected[i] == other;
            assert(after[i] == other);
        }
    }
}

/// Recording a failure in the input keeps the furthest failure well-formed.
pub proof fn lemma_mark_keeps(s: Seq<char>, far: Far, pos: int, token: Token)
    requires
        0 <= pos <= s.len(),
        well_formed(s, far),
    ensures
        well_formed(s, mark(far, pos, token)),
{
    mark_keeps_the_furthest(far, pos, token);
}

/// `lit` keeps the furthest failure well-formed.
#[verifier::spinoff_prover]
pub proof fn lemma_lit_keeps(s: Seq<char>, p: int, token: Token, far: Far)
    requires
        0 <= p <= s.len(),
        well_formed(s, far),
    ensures
        well_formed(s, lit(s, p, token, far).far),
        well_formed(s, lit_ws(s, p, token, far).far),
        well_formed(s, ws_lit(s, p, token, far).far),
        well_formed(s, ws_lit_ws(s, p, token, far).far),
{
    reveal(lit);
    reveal(lit_ws);
    reveal(ws_lit);
    reveal(ws_lit_ws);
    lemma_mark_keeps(s, far, p, token);
    lemma_skip_ends(s, p, far);
    lemma_skip_keeps(s, p, far);
    let gap = skip(s, p, far);
    lemma_mark_keeps(s, gap.far, gap.end, token);
    let word = lit(s, p, token, far);
    if word.value is Some {
        lemma_skip_keeps(s, word.end, word.far);
    }
    let late = lit(s, gap.end, token, gap.far);
    if late.value is Some {
        lemma_skip_keeps(s, late.end, late.far);
    }
}

/// `comment` keeps the furthest failure well-formed.
#[verifier::spinoff_prover]
pub proof fn lemma_comment_keeps(s: Seq<char>, p: int, far: Far)
    requires
        0 <= p <= s.len(),
        well_formed(s, far),
    ensures
        well_formed(s, comment(s, p, far).far),
{
    reveal(comment);
    reveal(lit);
    lemma_mark_keeps(s, far, p, Token::CommentOpen);
    let opening = lit(s, p, Token::CommentOpen, far);
    if opening.value is Some {
        lemma_runs(s, opening.end);
        let close = comment_close(s, opening.end);
        lemma_mark_keeps(s, opening.far, close, Token::AnyChar);
        lemma_mark_keeps(s, mark(opening.far, close, Token::AnyChar), close, Token::CommentClose);
    }
}

/// `skip` keeps the furthest failure well-formed.
pub proof fn lemma_skip_keeps(s: Seq<char>, p: int, far: Far)
    requires
        0 <= p <= s.len(),
        well_formed(s, far),
    ensures
        well_formed(s, skip(s, p, far).far),
    decreases s.len() - p,
{
    reveal(skip);
    reveal(comment);
    reveal(lit);
    lemma_runs(s, p);
    let blank = blanks_end(s, p);
    if blank > p {
        lemma_skip_keeps(s, blank, far);
    } else {
        lemma_comment_keeps(s, p, far);
        let c = comment(s, p, far);
        if c.value is Some {
            lemma_runs(s, lit(s, p, Token::CommentOpen, far).end);
            lemma_skip_keeps(s, c.end, c.far);
        }
    }
}

/// `identifier` keeps the furthest failure well-formed.
#[verifier::spinoff_prover]
pub proof fn lemma_identifier_keeps(s: Seq<char>, p: int, far: Far)
    requires
        0 <= p <= s.len(),
        well_formed(s, far),
    ensures
        well_formed(s, identifier(s, p, far).far),
        well_formed(s, identifier_expr(s, p, far).far),
        well_formed(s, typed_symbol(s, p, far).far),
{
    reveal(identifier);
    reveal(identifier_expr);
    reveal(typed_symbol);
    lemma_mark_keeps(s, far, p, Token::Identifier);
}

/// `identifier_expr` keeps the furthest failure well-formed.
pub proof fn lemma_identifier_expr_keeps(s: Seq<char>, p: int, far: Far)
    requires
        0 <= p <= s.len(),
        well_formed(s, far),
    ensures
        well_formed(s, identifier_expr(s, p, far).far),
{
    lemma_identifier_keeps(s, p, far);
}

/// `typed_symbol` keeps the furthest failure well-formed.
pub proof fn lemma_typed_symbol_keeps(s: Seq<char>, p: int, far: Far)
    requires
        0 <= p <= s.len(),
        well_formed(s, far),
    ensures
        well_formed(s, typed_symbol(s, p, far).far),
{
    lemma_identifier_keeps(s, p, far);
}

/// `digits` keeps the furthest failure well-formed.
#[verifier::spinoff_prover]
pub proof fn lemma_digits_keeps(s: Seq<char>, p: int, far: Far)
    requires
        0 <= p <= s.len(),
        well_formed(s, far),
    ensures
        well_formed(s, sign(s, p, far).far),
        p <= sign(s, p, far).end <= s.len(),
        well_formed(s, digits(s, sign(s, p, far).end, sign(s, p, far).far).far),
        digits(s, sign(s, p, far).end, sign(s, p, far).far).value is Some ==> p < digits(
            s,
            sign(s, p, far).end,
            sign(s, p, far).far,
        ).end <= s.len(),
{
    reveal(sign);
    reveal(digits);
    reveal(lit);
    lemma_mark_keeps(s, far, p, Token::Minus);
    let minus = sign(s, p, far);
    lemma_runs(s, minus.end);
    lemma_mark_keeps(s, minus.far, digits_end(s, minus.end), Token::Digit);
}

/// `integer_literal` keeps the furthest failure well-formed.
#[verifier::spinoff_prover]
pub proof fn lemma_integer_literal_keeps(s: Seq<char>, p: int, far: Far)
    requires
        0 <= p <= s.len(),
        well_formed(s, far),
    ensures
        well_formed(s, integer_literal(s, p, far).far),
{
    reveal(integer_literal);
    lemma_digits_keeps(s, p, far);
    let minus = sign(s, p, far);
    let run = digits(s, minus.end, minus.far);
    if run.value is Some {
        lemma_mark_keeps(s, run.far, run.end, Token::I64);
    }
}

/// `float_literal` keeps the furthest failure well-formed.
#[verifier::spinoff_prover]
pub proof fn lemma_float_literal_keeps(s: Seq<char>, p: int, far: Far)
    requires
        0 <= p <= s.len(),
        well_formed(s, far),
    ensures
        well_formed(s, float_literal(s, p, far).far),
{
    reveal(float_literal);
    reveal(lit);
    lemma_digits_keeps(s, p, far);
    let minus = sign(s, p, far);
    let whole = digits(s, minus.end, minus.far);
    if whole.value is Some {
        lemma_mark_keeps(s, whole.far, whole.end, Token::Dot);
        let point = lit(s, whole.end, Token::Dot, whole.far);
        if point.value is Some {
            lemma_runs(s, point.end);
            lemma_mark_keeps(s, point.far, digits_end(s, point.end), Token::Digit);
        }
    }
}

/// `bool_literal` keeps the furthest failure well-formed.
#[verifier::spinoff_prover]
pub proof fn lemma_bool_literal_keeps(s: Seq<char>, p: int, far: Far)
    requires
        0 <= p <= s.len(),
        well_formed(s, far),
    ensures
        well_formed(s, bool_literal(s, p, far).far),
{
    reveal(bool_literal);
    lemma_lit_keeps(s, p, Token::True, far);
    lemma_lit_keeps(s, p, Token::False, lit(s, p, Token::True, far).far);
}

/// `string_literal` keeps the furthest failure well-formed.
#[verifier::spinoff_prover]
pub proof fn lemma_string_literal_keeps(s: Seq<char>, p: int, far: Far)
    requires
        0 <= p <= s.len(),
        well_formed(s, far),
    ensures
        well_formed(s, string_literal(s, p, far).far),
{
    reveal(string_literal);
    reveal(lit);
    lemma_lit_keeps(s, p, Token::Quote, far);
    let opening = lit(s, p, Token::Quote, far);
    if opening.value is Some {
        lemma_until_ends(s, opening.end, '"');
        let end = until(s, opening.end, '"');
        lemma_mark_keeps(s, opening.far, end, Token::NotQuote);
        lemma_lit_keeps(s, end, Token::Quote, mark(opening.far, end, Token::NotQuote));
    }
}

/// `char_literal` keeps the furthest failure well-formed.
#[verifier::spinoff_prover]
pub proof fn lemma_char_literal_keeps(s: Seq<char>, p: int, far: Far)
    requires
        0 <= p <= s.len(),
        well_formed(s, far),
    ensures
        well_formed(s, char_literal(s, p, far).far),
{
    reveal(char_literal);
    reveal(lit);
    lemma_lit_keeps(s, p, Token::Apostrophe, far);
    let opening = lit(s, p, Token::Apostrophe, far);
    if opening.value is Some {
        lemma_mark_keeps(s, opening.far, opening.end, Token::NotApostrophe);
        if opening.end < s.len() {
            lemma_lit_keeps(s, opening.end + 1, Token::Apostrophe, opening.far);
        }
    }
}

/// `pass` keeps the furthest failure well-formed.
#[verifier::spinoff_prover]
pub proof fn lemma_pass_keeps(s: Seq<char>, p: int, far: Far)
    requires
        0 <= p <= s.len(),
        well_formed(s, far),
    ensures
        well_formed(s, pass(s, p, far).far),
{
    reveal(pass);
    lemma_lit_keeps(s, p, Token::Pass, far);
}

/// `range_bound` keeps the furthest failure well-formed.
#[verifier::spinoff_prover]
pub proof fn lemma_range_bound_keeps(s: Seq<char>, p: int, far: Far)
    requires
        0 <= p <= s.len(),
        well_formed(s, far),
    ensures
        well_formed(s, range_bound(s, p, far).far),
        range_bound(s, p, far).value is Some ==> p < range_bound(s, p, far).end <= s.len(),
{
    reveal(range_bound);
    lemma_integer_literal_keeps(s, p, far);
    lemma_identifier_keeps(s, p, integer_literal(s, p, far).far);
    integer_literal_ends_in_bounds(s, p, far);
    identifier_ends_in_bounds(s, p, integer_literal(s, p, far).far);
}

/// `range_expr` keeps the furthest failure well-formed.
#[verifier::spinoff_prover]
pub proof fn lemma_range_expr_keeps(s: Seq<char>, p: int, far: Far)
    requires
        0 <= p <= s.len(),
        well_formed(s, far),
    ensures
        well_formed(s, range_expr(s, p, far).far),
{
    reveal(range_expr);
    reveal(lit);
    lemma_range_bound_keeps(s, p, far);
    let start = range_bound(s, p, far);
    if start.value is Some {
        lemma_lit_keeps(s, start.end, Token::DotDot, start.far);
        let dots = lit(s, start.end, Token::DotDot, start.far);
        if dots.value is Some {
            lemma_range_bound_keeps(s, dots.end, dots.far);
        }
    }
}

/// `record_key` keeps the furthest failure well-formed.
#[verifier::spinoff_prover]
pub proof fn lemma_record_key_keeps(s: Seq<char>, p: int, far: Far)
    requires
        0 <= p <= s.len(),
        well_formed(s, far),
    ensures
        well_formed(s, record_key(s, p, far).far),
{
    reveal(record_key);
    lemma_identifier_keeps(s, p, far);
    lemma_integer_literal_keeps(s, p, identifier_expr(s, p, far).far);
}

/// `typed_literal` keeps the furthest failure well-formed.
#[verifier::spinoff_prover]
pub proof fn lemma_typed_literal_keeps(s: Seq<char>, p: int, far: Far)
    requires
        0 <= p <= s.len(),
        well_formed(s, far),
    ensures
        well_formed(s, typed_literal(s, p, far).far),
{
    reveal(typed_literal);
    lemma_integer_literal_keeps(s, p, far);
    let after_integer = integer_literal(s, p, far).far;
    lemma_float_literal_keeps(s, p, after_integer);
    lemma_bool_literal_keeps(s, p, float_literal(s, p, after_integer).far);
}

/// `unary_op` keeps the furthest failure well-formed.
#[verifier::spinoff_prover]
pub proof fn lemma_unary_op_keeps(s: Seq<char>, p: int, far: Far)
    requires
        0 <= p <= s.len(),
        well_formed(s, far),
    ensures
        well_formed(s, unary_op(s, p, far).far),
{
    reveal(unary_op);
    lemma_lit_keeps(s, p, Token::Tilde, far);
    let tilde = lit(s, p, Token::Tilde, far);
    lemma_lit_keeps(s, p, Token::Amp, tilde.far);
    let amp = lit(s, p, Token::Amp, tilde.far);
    lemma_lit_keeps(s, p, Token::Star, amp.far);
    let star = lit(s, p, Token::Star, amp.far);
}

/// `typed_unary_op` keeps the furthest failure well-formed.
#[verifier::spinoff_prover]
pub proof fn lemma_typed_unary_op_keeps(s: Seq<char>, p: int, far: Far)
    requires
        0 <= p <= s.len(),
        well_formed(s, far),
    ensures
        well_formed(s, typed_unary_op(s, p, far).far),
{
    reveal(typed_unary_op);
    lemma_lit_keeps(s, p, Token::Amp, far);
    let amp = lit(s, p, Token::Amp, far);
    lemma_lit_keeps(s, p, Token::Star, amp.far);
    let star = lit(s, p, Token::Star, amp.far);
}

/// `add_op` keeps the furthest failure well-formed.
#[verifier::spinoff_prover]
pub proof fn lemma_add_op_keeps(s: Seq<char>, p: int, far: Far)
    requires
        0 <= p <= s.len(),
        well_formed(s, far),
    ensures
        well_formed(s, add_op(s, p, far).far),
{
    reveal(add_op);
    lemma_lit_keeps(s, p, Token::Plus, far);
    let plus = lit(s, p, Token::Plus, far);
    lemma_lit_keeps(s, p, Token::Minus, plus.far);
    let minus = lit(s, p, Token::Minus, plus.far);
}

/// `mul_op` keeps the furthest failure well-formed.
#[verifier::spinoff_prover]
pub proof fn lemma_mul_op_keeps(s: Seq<char>, p: int, far: Far)
    requires
        0 <= p <= s.len(),
        well_formed(s, far),
    ensures
        well_formed(s, mul_op(s, p, far).far),
{
    reveal(mul_op);
    lemma_lit_keeps(s, p, Token::Star, far);
    let star = lit(s, p, Token::Star, far);
    lemma_lit_keeps(s, p, Token::Slash, star.far);
    let slash = lit(s, p, Token::Slash, star.far);
}

/// `compare_op` keeps the furthest failure well-formed.
#[verifier::spinoff_prover]
pub proof fn lemma_compare_op_keeps(s: Seq<char>, p: int, far: Far)
    requires
        0 <= p <= s.len(),
        well_formed(s, far),
    ensures
        well_formed(s, compare_op(s, p, far).far),
{
    reveal(compare_op);
    lemma_lit_keeps(s, p, Token::Gte, far);
    let gte = lit(s, p, Token::Gte, far);
    lemma_lit_keeps(s, p, Token::Lte, gte.far);
    let lte = lit(s, p, Token::Lte, gte.far);
    lemma_lit_keeps(s, p, Token::Gt, lte.far);
    let gt_word = lit(s, p, Token::Gt, lte.far);
    lemma_lit_keeps(s, p, Token::Lt, gt_word.far);
    let lt_word = lit(s, p, Token::Lt, gt_word.far);
    lemma_lit_keeps(s, p, Token::Eq, lt_word.far);
    let eq_word = lit(s, p, Token::Eq, lt_word.far);
    lemma_lit_keeps(s, p, Token::Neq, eq_word.far);
    let neq = lit(s, p, Token::Neq, eq_word.far);
    lemma_lit_keeps(s, p, Token::And, neq.far);
    let and_word = lit(s, p, Token::And, neq.far);
    lemma_lit_keeps(s, p, Token::Or, and_word.far);
    let or_word = lit(s, p, Token::Or, and_word.far);
}

/// `bit_op` keeps the furthest failure well-formed.
#[verifier::spinoff_prover]
pub proof fn lemma_bit_op_keeps(s: Seq<char>, p: int, far: Far)
    requires
        0 <= p <= s.len(),
        well_formed(s, far),
    ensures
        well_formed(s, bit_op(s, p, far).far),
{
    reveal(bit_op);
    lemma_lit_keeps(s, p, Token::Shl, far);
    let shl = lit(s, p, Token::Shl, far);
    lemma_lit_keeps(s, p, Token::Shr, shl.far);
    let shr = lit(s, p, Token::Shr, shl.far);
    lemma_lit_keeps(s, p, Token::Band, shr.far);
    let band = lit(s, p, Token::Band, shr.far);
    lemma_lit_keeps(s, p, Token::Bor, band.far);
    let bor = lit(s, p, Token::Bor, band.far);
    lemma_lit_keeps(s, p, Token::Xor, bor.far);
    let xor = lit(s, p, Token::Xor, bor.far);
    lemma_lit_keeps(s, p, Token::Rotl, xor.far);
    let rotl = lit(s, p, Token::Rotl, xor.far);
    lemma_lit_keeps(s, p, Token::Rotr, rotl.far);
    let rotr = lit(s, p, Token::Rotr, rotl.far);
}

/// What follows an item of `unary_ops` keeps the furthest failure well-formed.
#[verifier::spinoff_prover]
pub proof fn lemma_unary_ops_more_keeps(s: Seq<char>, p: int, far: Far)
    requires
        0 <= p <= s.len(),
        well_formed(s, far),
    ensures
        well_formed(s, unary_ops_more(s, p, far).far),
    decreases s.len() - p, 1nat,
{
    reveal(unary_ops);
    reveal(unary_ops_more);
    lemma_skip_keeps(s, p, far);
    let sep = within(skip(s, p, far), p, s.len());
    if sep.value is Some {
        lemma_unary_op_keeps(s, sep.end, sep.far);
        let next = within(unary_op(s, sep.end, sep.far), sep.end + 1, s.len());
        if next.value is Some {
            lemma_unary_ops_more_keeps(s, next.end, next.far);
        }
    }
}

/// `unary_ops` keeps the furthest failure well-formed.
#[verifier::spinoff_prover]
pub proof fn lemma_unary_ops_keeps(s: Seq<char>, p: int, far: Far)
    requires
        0 <= p <= s.len(),
        well_formed(s, far),
    ensures
        well_formed(s, unary_ops(s, p, far).far),
    decreases s.len() - p, 1nat,
{
    reveal(unary_ops);
    reveal(unary_ops_more);
    lemma_unary_op_keeps(s, p, far);
    let first = within(unary_op(s, p, far), p + 1, s.len());
    if first.value is Some {
        lemma_unary_ops_more_keeps(s, first.end, first.far);
    }
}

/// What follows an item of `typed_unary_ops` keeps the furthest failure well-formed.
#[verifier::spinoff_prover]
pub proof fn lemma_typed_unary_ops_more_keeps(s: Seq<char>, p: int, far: Far)
    requires
        0 <= p <= s.len(),
        well_formed(s, far),
    ensures
        well_formed(s, typed_unary_ops_more(s, p, far).far),
    decreases s.len() - p, 1nat,
{
    reveal(typed_unary_ops);
    reveal(typed_unary_ops_more);
    lemma_skip_keeps(s, p, far);
    let sep = within(skip(s, p, far), p, s.len());
    if sep.value is Some {
        lemma_typed_unary_op_keeps(s, sep.end, sep.far);
        let next = within(typed_unary_op(s, sep.end, sep.far), sep.end + 1, s.len());
        if next.value is Some {
            lemma_typed_unary_ops_more_keeps(s, next.end, next.far);
        }
    }
}

/// `typed_unary_ops` keeps the furthest failure well-formed.
#[verifier::spinoff_prover]
pub proof fn lemma_typed_unary_ops_keeps(s: Seq<char>, p: int, far: Far)
    requires
        0 <= p <= s.len(),
        well_formed(s, far),
    ensures
        well_formed(s, typed_unary_ops(s, p, far).far),
    decreases s.len() - p, 1nat,
{
    reveal(typed_unary_ops);
    reveal(typed_unary_ops_more);
    lemma_typed_unary_op_keeps(s, p, far);
    let first = within(typed_unary_op(s, p, far), p + 1, s.len());
    if first.value is Some {
        lemma_typed_unary_ops_more_keeps(s, first.end, first.far);
    }
}

/// `typed_optional` keeps the furthest failure well-formed.
#[verifier::spinoff_prover]
pub proof fn lemma_typed_optional_keeps(s: Seq<char>, p: int, far: Far)
    requires
        0 <= p <= s.len(),
        well_formed(s, far),
    ensures
        well_formed(s, typed_optional(s, p, far).far),
    decreases s.len() - p, 1nat,
{
    reveal(typed_optional);
    reveal(typed_expr);
    lemma_lit_keeps(s, p, Token::Question, far);
    let question = within(lit_ws(s, p, Token::Question, far), p + 1, s.len());
    if question.value is Some {
        lemma_typed_expr_keeps(s, question.end, question.far);
        let ty = within(typed_expr(s, question.end, question.far), question.end + 1, s.len());
        if ty.value is Some {
        }
    }
}

/// `typed_fn_expr` keeps the furthest failure well-formed.
#[verifier::spinoff_prover]
pub proof fn lemma_typed_fn_expr_keeps(s: Seq<char>, p: int, far: Far)
    requires
        0 <= p <= s.len(),
        well_formed(s, far),
    ensures
        well_formed(s, typed_fn_expr(s, p, far).far),
    decreases s.len() - p, 1nat,
{
    reveal(typed_fn_expr);
    reveal(fn_args);
    reveal(typed_expr);
    lemma_lit_keeps(s, p, Token::Pipe, far);
    let pipe = within(lit_ws(s, p, Token::Pipe, far), p + 1, s.len());
    if pipe.value is Some {
        lemma_fn_args_keeps(s, pipe.end, pipe.far);
        let params = within(fn_args(s, pipe.end, pipe.far), pipe.end, s.len());
        if params.value is Some {
            lemma_lit_keeps(s, params.end, Token::Pipe, params.far);
            let pipe2 = within(
                ws_lit_ws(s, params.end, Token::Pipe, params.far),
                params.end + 1,
                s.len(),
            );
            if pipe2.value is Some {
                lemma_typed_expr_keeps(s, pipe2.end, pipe2.far);
                let ty = within(typed_expr(s, pipe2.end, pipe2.far), pipe2.end + 1, s.len());
                if ty.value is Some {
                    lemma_lit_keeps(s, ty.end, Token::End, ty.far);
                    let end_word = within(
                        ws_lit(s, ty.end, Token::End, ty.far),
                        ty.end + 1,
                        s.len(),
                    );
                    if end_word.value is Some {
                    }
                }
            }
        }
    }
}

/// `typed_record_entry` keeps the furthest failure well-formed.
#[verifier::spinoff_prover]
pub proof fn lemma_typed_record_entry_keeps(s: Seq<char>, p: int, far: Far)
    requires
        0 <= p <= s.len(),
        well_formed(s, far),
    ensures
        well_formed(s, typed_record_entry(s, p, far).far),
    decreases s.len() - p, 1nat,
{
    reveal(typed_record_entry);
    reveal(typed_expr);
    lemma_record_key_keeps(s, p, far);
    let key = within(record_key(s, p, far), p + 1, s.len());
    if key.value is Some {
        lemma_lit_keeps(s, key.end, Token::Colon, key.far);
        let colon = within(ws_lit_ws(s, key.end, Token::Colon, key.far), key.end + 1, s.len());
        if colon.value is Some {
            lemma_typed_expr_keeps(s, colon.end, colon.far);
            let ty = within(typed_expr(s, colon.end, colon.far), colon.end + 1, s.len());
            if ty.value is Some {
            }
        }
    }
}

/// What follows an item of `typed_record_entries` keeps the furthest failure well-formed.
#[verifier::spinoff_prover]
pub proof fn lemma_typed_record_entries_more_keeps(s: Seq<char>, p: int, far: Far)
    requires
        0 <= p <= s.len(),
        well_formed(s, far),
    ensures
        well_formed(s, typed_record_entries_more(s, p, far).far),
    decreases s.len() - p, 2nat,
{
    reveal(typed_record_entries);
    reveal(typed_record_entries_more);
    reveal(typed_record_entry);
    lemma_lit_keeps(s, p, Token::Comma, far);
    let sep = within(ws_lit_ws(s, p, Token::Comma, far), p + 1, s.len());
    if sep.value is Some {
        lemma_typed_record_entry_keeps(s, sep.end, sep.far);
        let next = within(typed_record_entry(s, sep.end, sep.far), sep.end + 1, s.len());
        if next.value is Some {
            lemma_typed_record_entries_more_keeps(s, next.end, next.far);
        }
    }
}

/// `typed_record_entries` keeps the furthest failure well-formed.
#[verifier::spinoff_prover]
pub proof fn lemma_typed_record_entries_keeps(s: Seq<char>, p: int, far: Far)
    requires
        0 <= p <= s.len(),
        well_formed(s, far),
    ensures
        well_formed(s, typed_record_entries(s, p, far).far),
    decreases s.len() - p, 2nat,
{
    reveal(typed_record_entries);
    reveal(typed_record_entries_more);
    reveal(typed_record_entry);
    lemma_typed_record_entry_keeps(s, p, far);
    let first = within(typed_record_entry(s, p, far), p + 1, s.len());
    if first.value is Some {
        lemma_typed_record_entries_more_keeps(s, first.end, first.far);
    }
}

/// `typed_record` keeps the furthest failure well-formed.
#[verifier::spinoff_prover]
pub proof fn lemma_typed_record_keeps(s: Seq<char>, p: int, far: Far)
    requires
        0 <= p <= s.len(),
        well_formed(s, far),
    ensures
        well_formed(s, typed_record(s, p, far).far),
    decreases s.len() - p, 1nat,
{
    reveal(typed_record);
    reveal(typed_record_entries);
    lemma_lit_keeps(s, p, Token::LBrace, far);
    let l_brace = within(lit_ws(s, p, Token::LBrace, far), p + 1, s.len());
    if l_brace.value is Some {
        lemma_typed_record_entries_keeps(s, l_brace.end, l_brace.far);
        let entries = within(
            typed_record_entries(s, l_brace.end, l_brace.far),
            l_brace.end,
            s.len(),
        );
        if entries.value is Some {
            lemma_lit_keeps(s, entries.end, Token::RBrace, entries.far);
            let r_brace = within(
                ws_lit(s, entries.end, Token::RBrace, entries.far),
                entries.end + 1,
                s.len(),
            );
            if r_brace.value is Some {
            }
        }
    }
}

/// `typed_member` keeps the furthest failure well-formed.
#[verifier::spinoff_prover]
pub proof fn lemma_typed_member_keeps(s: Seq<char>, p: int, far: Far)
    requires
        0 <= p <= s.len(),
        well_formed(s, far),
    ensures
        well_formed(s, typed_member(s, p, far).far),
    decreases s.len() - p, 2nat,
{
    reveal(typed_member);
    reveal(member_expr);
    lemma_member_expr_keeps(s, p, far);
    let path = within(member_expr(s, p, far), p + 1, s.len());
    if path.value is Some {
    }
}

/// `typed_symbol_generic` keeps the furthest failure well-formed.
#[verifier::spinoff_prover]
pub proof fn lemma_typed_symbol_generic_keeps(s: Seq<char>, p: int, far: Far)
    requires
        0 <= p <= s.len(),
        well_formed(s, far),
    ensures
        well_formed(s, typed_symbol_generic(s, p, far).far),
    decreases s.len() - p, 1nat,
{
    reveal(typed_symbol_generic);
    reveal(type_generic);
    lemma_identifier_keeps(s, p, far);
    let name = within(identifier(s, p, far), p + 1, s.len());
    if name.value is Some {
        lemma_skip_keeps(s, name.end, name.far);
        let gap = within(skip(s, name.end, name.far), name.end, s.len());
        if gap.value is Some {
            lemma_type_generic_keeps(s, gap.end, gap.far);
            let args = within(type_generic(s, gap.end, gap.far), gap.end + 1, s.len());
            if args.value is Some {
            }
        }
    }
}

/// `type_alias_plain` keeps the furthest failure well-formed.
#[verifier::spinoff_prover]
pub proof fn lemma_type_alias_plain_keeps(s: Seq<char>, p: int, far: Far)
    requires
        0 <= p <= s.len(),
        well_formed(s, far),
    ensures
        well_formed(s, type_alias_plain(s, p, far).far),
    decreases s.len() - p, 1nat,
{
    reveal(type_alias_plain);
    reveal(typed_expr);
    lemma_lit_keeps(s, p, Token::Type, far);
    let type_word = within(lit_ws(s, p, Token::Type, far), p + 1, s.len());
    if type_word.value is Some {
        lemma_identifier_keeps(s, type_word.end, type_word.far);
        let name = within(identifier(s, type_word.end, type_word.far), type_word.end + 1, s.len());
        if name.value is Some {
            lemma_lit_keeps(s, name.end, Token::Assign, name.far);
            let assign = within(
                ws_lit_ws(s, name.end, Token::Assign, name.far),
                name.end + 1,
                s.len(),
            );
            if assign.value is Some {
                lemma_typed_expr_keeps(s, assign.end, assign.far);
                let ty = within(typed_expr(s, assign.end, assign.far), assign.end + 1, s.len());
                if ty.value is Some {
                    lemma_lit_keeps(s, ty.end, Token::End, ty.far);
                    let end_word = within(
                        ws_lit(s, ty.end, Token::End, ty.far),
                        ty.end + 1,
                        s.len(),
                    );
                    if end_word.value is Some {
                    }
                }
            }
        }
    }
}

/// `type_alias_generic` keeps the furthest failure well-formed.
#[verifier::spinoff_prover]
pub proof fn lemma_type_alias_generic_keeps(s: Seq<char>, p: int, far: Far)
    requires
        0 <= p <= s.len(),
        well_formed(s, far),
    ensures
        well_formed(s, type_alias_generic(s, p, far).far),
    decreases s.len() - p, 1nat,
{
    reveal(type_alias_generic);
    reveal(type_generic);
    reveal(typed_expr);
    lemma_lit_keeps(s, p, Token::Type, far);
    let type_word = within(lit_ws(s, p, Token::Type, far), p + 1, s.len());
    if type_word.value is Some {
        lemma_identifier_keeps(s, type_word.end, type_word.far);
        let name = within(identifier(s, type_word.end, type_word.far), type_word.end + 1, s.len());
        if name.value is Some {
            lemma_skip_keeps(s, name.end, name.far);
            let gap = within(skip(s, name.end, name.far), name.end, s.len());
            if gap.value is Some {
                lemma_type_generic_keeps(s, gap.end, gap.far);
                let params = within(type_generic(s, gap.end, gap.far), gap.end + 1, s.len());
                if params.value is Some {
                    lemma_lit_keeps(s, params.end, Token::Assign, params.far);
                    let assign = within(
                        ws_lit_ws(s, params.end, Token::Assign, params.far),
                        params.end + 1,
                        s.len(),
                    );
                    if assign.value is Some {
                        lemma_typed_expr_keeps(s, assign.end, assign.far);
                        let ty = within(
                            typed_expr(s, assign.end, assign.far),
                            assign.end + 1,
                            s.len(),
                        );
                        if ty.value is Some {
                            lemma_lit_keeps(s, ty.end, Token::End, ty.far);
                            let end_word = within(
                                ws_lit(s, ty.end, Token::End, ty.far),
                                ty.end + 1,
                                s.len(),
                            );
                            if end_word.value is Some {
                            }
                        }
                    }
                }
            }
        }
    }
}

/// `type_alias` keeps the furthest failure well-formed.
#[verifier::spinoff_prover]
pub proof fn lemma_type_alias_keeps(s: Seq<char>, p: int, far: Far)
    requires
        0 <= p <= s.len(),
        well_formed(s, far),
    ensures
        well_formed(s, type_alias(s, p, far).far),
    decreases s.len() - p, 2nat,
{
    reveal(type_alias);
    reveal(type_alias_plain);
    reveal(type_alias_generic);
    lemma_type_alias_plain_keeps(s, p, far);
    let by_type_alias_plain = within(type_alias_plain(s, p, far), p + 1, s.len());
    lemma_type_alias_generic_keeps(s, p, by_type_alias_plain.far);
}

/// What follows an item of `typed_args` keeps the furthest failure well-formed.
#[verifier::spinoff_prover]
pub proof fn lemma_typed_args_more_keeps(s: Seq<char>, p: int, far: Far)
    requires
        0 <= p <= s.len(),
        well_formed(s, far),
    ensures
        well_formed(s, typed_args_more(s, p, far).far),
    decreases s.len() - p, 6nat,
{
    reveal(typed_args);
    reveal(typed_args_more);
    reveal(typed_expr);
    lemma_lit_keeps(s, p, Token::Comma, far);
    let sep = within(ws_lit_ws(s, p, Token::Comma, far), p + 1, s.len());
    if sep.value is Some {
        lemma_typed_expr_keeps(s, sep.end, sep.far);
        let next = within(typed_expr(s, sep.end, sep.far), sep.end + 1, s.len());
        if next.value is Some {
            lemma_typed_args_more_keeps(s, next.end, next.far);
        }
    }
}

/// `typed_args` keeps the furthest failure well-formed.
#[verifier::spinoff_prover]
pub proof fn lemma_typed_args_keeps(s: Seq<char>, p: int, far: Far)
    requires
        0 <= p <= s.len(),
        well_formed(s, far),
    ensures
        well_formed(s, typed_args(s, p, far).far),
    decreases s.len() - p, 6nat,
{
    reveal(typed_args);
    reveal(typed_args_more);
    reveal(typed_expr);
    lemma_typed_expr_keeps(s, p, far);
    let first = within(typed_expr(s, p, far), p + 1, s.len());
    if first.value is Some {
        lemma_typed_args_more_keeps(s, first.end, first.far);
    }
}

/// `type_generic` keeps the furthest failure well-formed.
#[verifier::spinoff_prover]
pub proof fn lemma_type_generic_keeps(s: Seq<char>, p: int, far: Far)
    requires
        0 <= p <= s.len(),
        well_formed(s, far),
    ensures
        well_formed(s, type_generic(s, p, far).far),
    decreases s.len() - p, 1nat,
{
    reveal(type_generic);
    reveal(typed_args);
    lemma_lit_keeps(s, p, Token::Less, far);
    let less = within(lit_ws(s, p, Token::Less, far), p + 1, s.len());
    if less.value is Some {
        lemma_typed_args_keeps(s, less.end, less.far);
        let args = within(typed_args(s, less.end, less.far), less.end, s.len());
        if args.value is Some {
            lemma_lit_keeps(s, args.end, Token::Greater, args.far);
            let greater = within(
                ws_lit(s, args.end, Token::Greater, args.far),
                args.end + 1,
                s.len(),
            );
            if greater.value is Some {
            }
        }
    }
}

/// `typed_rest` keeps the furthest failure well-formed.
#[verifier::spinoff_prover]
pub proof fn lemma_typed_rest_keeps(s: Seq<char>, p: int, far: Far)
    requires
        0 <= p <= s.len(),
        well_formed(s, far),
    ensures
        well_formed(s, typed_rest(s, p, far).far),
    decreases s.len() - p, 6nat,
{
    reveal(typed_rest);
    reveal(typed_expr);
    lemma_typed_expr_keeps(s, p, far);
    let first = within(typed_expr(s, p, far), p + 1, s.len());
    if first.value is Some {
        lemma_typed_rest_keeps(s, first.end, first.far);
    }
}

/// `typed_variant` keeps the furthest failure well-formed.
#[verifier::spinoff_prover]
pub proof fn lemma_typed_variant_keeps(s: Seq<char>, p: int, far: Far)
    requires
        0 <= p <= s.len(),
        well_formed(s, far),
    ensures
        well_formed(s, typed_variant(s, p, far).far),
    decreases s.len() - p, 1nat,
{
    reveal(typed_variant);
    reveal(typed_expr);
    reveal(typed_rest);
    lemma_lit_keeps(s, p, Token::Pipe, far);
    let pipe = within(lit_ws(s, p, Token::Pipe, far), p + 1, s.len());
    if pipe.value is Some {
        lemma_typed_expr_keeps(s, pipe.end, pipe.far);
        let first = within(typed_expr(s, pipe.end, pipe.far), pipe.end + 1, s.len());
        if first.value is Some {
            lemma_lit_keeps(s, first.end, Token::Pipe, first.far);
            let pipe2 = within(
                ws_lit_ws(s, first.end, Token::Pipe, first.far),
                first.end + 1,
                s.len(),
            );
            if pipe2.value is Some {
                lemma_typed_rest_keeps(s, pipe2.end, pipe2.far);
                let rest = within(typed_rest(s, pipe2.end, pipe2.far), pipe2.end, s.len());
                if rest.value is Some {
                }
            }
        }
    }
}

/// `typed_unary` keeps the furthest failure well-formed.
#[verifier::spinoff_prover]
pub proof fn lemma_typed_unary_keeps(s: Seq<char>, p: int, far: Far)
    requires
        0 <= p <= s.len(),
        well_formed(s, far),
    ensures
        well_formed(s, typed_unary(s, p, far).far),
    decreases s.len() - p, 4nat,
{
    reveal(typed_unary);
    reveal(typed_unary_ops);
    reveal(typed_primary);
    lemma_typed_unary_ops_keeps(s, p, far);
    let ops = within(typed_unary_ops(s, p, far), p, s.len());
    if ops.value is Some {
        lemma_typed_primary_keeps(s, ops.end, ops.far);
        let inner = within(typed_primary(s, ops.end, ops.far), ops.end + 1, s.len());
        if inner.value is Some {
        }
    }
}

/// `typed_primary` keeps the furthest failure well-formed.
#[verifier::spinoff_prover]
pub proof fn lemma_typed_primary_keeps(s: Seq<char>, p: int, far: Far)
    requires
        0 <= p <= s.len(),
        well_formed(s, far),
    ensures
        well_formed(s, typed_primary(s, p, far).far),
    decreases s.len() - p, 3nat,
{
    reveal(typed_primary);
    reveal(typed_member);
    reveal(typed_symbol_generic);
    reveal(typed_optional);
    reveal(typed_record);
    reveal(typed_variant);
    reveal(typed_fn_expr);
    lemma_typed_literal_keeps(s, p, far);
    let by_typed_literal = within(typed_literal(s, p, far), p + 1, s.len());
    lemma_typed_member_keeps(s, p, by_typed_literal.far);
    let by_typed_member = within(typed_member(s, p, by_typed_literal.far), p + 1, s.len());
    lemma_typed_symbol_generic_keeps(s, p, by_typed_member.far);
    let by_typed_symbol_generic = within(
        typed_symbol_generic(s, p, by_typed_member.far),
        p + 1,
        s.len(),
    );
    lemma_typed_symbol_keeps(s, p, by_typed_symbol_generic.far);
    let by_typed_symbol = within(typed_symbol(s, p, by_typed_symbol_generic.far), p + 1, s.len());
    lemma_typed_optional_keeps(s, p, by_typed_symbol.far);
    let by_typed_optional = within(typed_optional(s, p, by_typed_symbol.far), p + 1, s.len());
    lemma_typed_record_keeps(s, p, by_typed_optional.far);
    let by_typed_record = within(typed_record(s, p, by_typed_optional.far), p + 1, s.len());
    lemma_typed_variant_keeps(s, p, by_typed_record.far);
    let by_typed_variant = within(typed_variant(s, p, by_typed_record.far), p + 1, s.len());
    lemma_typed_fn_expr_keeps(s, p, by_typed_variant.far);
}

/// `typed_expr` keeps the furthest failure well-formed.
#[verifier::spinoff_prover]
pub proof fn lemma_typed_expr_keeps(s: Seq<char>, p: int, far: Far)
    requires
        0 <= p <= s.len(),
        well_formed(s, far),
    ensures
        well_formed(s, typed_expr(s, p, far).far),
    decreases s.len() - p, 5nat,
{
    reveal(typed_expr);
    reveal(typed_unary);
    reveal(typed_primary);
    lemma_typed_unary_keeps(s, p, far);
    let by_typed_unary = within(typed_unary(s, p, far), p + 1, s.len());
    lemma_typed_primary_keeps(s, p, by_typed_unary.far);
}

/// `segments` keeps the furthest failure well-formed.
#[verifier::spinoff_prover]
pub proof fn lemma_segments_keeps(s: Seq<char>, p: int, far: Far)
    requires
        0 <= p <= s.len(),
        well_formed(s, far),
    ensures
        well_formed(s, segments(s, p, far).far),
    decreases s.len() - p, 6nat,
{
    reveal(segments);
    reveal(segment);
    lemma_segment_keeps(s, p, far);
    let first = within(segment(s, p, far), p + 1, s.len());
    if first.value is Some {
        lemma_segments_keeps(s, first.end, first.far);
    }
}

/// `member_expr` keeps the furthest failure well-formed.
#[verifier::spinoff_prover]
pub proof fn lemma_member_expr_keeps(s: Seq<char>, p: int, far: Far)
    requires
        0 <= p <= s.len(),
        well_formed(s, far),
    ensures
        well_formed(s, member_expr(s, p, far).far),
    decreases s.len() - p, 1nat,
{
    reveal(member_expr);
    reveal(segments);
    lemma_identifier_expr_keeps(s, p, far);
    let base = within(identifier_expr(s, p, far), p + 1, s.len());
    if base.value is Some {
        lemma_lit_keeps(s, base.end, Token::Dot, base.far);
        let dot = within(ws_lit_ws(s, base.end, Token::Dot, base.far), base.end + 1, s.len());
        if dot.value is Some {
            lemma_segments_keeps(s, dot.end, dot.far);
            let rest = within(segments(s, dot.end, dot.far), dot.end, s.len());
            if rest.value is Some {
            }
        }
    }
}

/// `segment` keeps the furthest failure well-formed.
#[verifier::spinoff_prover]
pub proof fn lemma_segment_keeps(s: Seq<char>, p: int, far: Far)
    requires
        0 <= p <= s.len(),
        well_formed(s, far),
    ensures
        well_formed(s, segment(s, p, far).far),
    decreases s.len() - p, 5nat,
{
    reveal(segment);
    reveal(member_expr);
    reveal(call_expr);
    lemma_member_expr_keeps(s, p, far);
    let by_member_expr = within(member_expr(s, p, far), p + 1, s.len());
    lemma_call_expr_keeps(s, p, by_member_expr.far);
}

/// `callee` keeps the furthest failure well-formed.
#[verifier::spinoff_prover]
pub proof fn lemma_callee_keeps(s: Seq<char>, p: int, far: Far)
    requires
        0 <= p <= s.len(),
        well_formed(s, far),
    ensures
        well_formed(s, callee(s, p, far).far),
    decreases s.len() - p, 2nat,
{
    reveal(callee);
    reveal(fn_expr);
    reveal(member_expr);
    lemma_fn_expr_keeps(s, p, far);
    let by_fn_expr = within(fn_expr(s, p, far), p + 1, s.len());
    lemma_identifier_expr_keeps(s, p, by_fn_expr.far);
    let by_identifier_expr = within(identifier_expr(s, p, by_fn_expr.far), p + 1, s.len());
    lemma_member_expr_keeps(s, p, by_identifier_expr.far);
}

/// `typed_callee` keeps the furthest failure well-formed.
#[verifier::spinoff_prover]
pub proof fn lemma_typed_callee_keeps(s: Seq<char>, p: int, far: Far)
    requires
        0 <= p <= s.len(),
        well_formed(s, far),
    ensures
        well_formed(s, typed_callee(s, p, far).far),
    decreases s.len() - p, 2nat,
{
    reveal(typed_callee);
    reveal(member_expr);
    lemma_identifier_expr_keeps(s, p, far);
    let by_identifier_expr = within(identifier_expr(s, p, far), p + 1, s.len());
    lemma_member_expr_keeps(s, p, by_identifier_expr.far);
}

/// What follows an item of `args` keeps the furthest failure well-formed.
#[verifier::spinoff_prover]
pub proof fn lemma_args_more_keeps(s: Seq<char>, p: int, far: Far)
    requires
        0 <= p <= s.len(),
        well_formed(s, far),
    ensures
        well_formed(s, args_more(s, p, far).far),
    decreases s.len() - p, 13nat,
{
    reveal(args);
    reveal(args_more);
    reveal(expr);
    lemma_lit_keeps(s, p, Token::Comma, far);
    let sep = within(ws_lit_ws(s, p, Token::Comma, far), p + 1, s.len());
    if sep.value is Some {
        lemma_expr_keeps(s, sep.end, sep.far);
        let next = within(expr(s, sep.end, sep.far), sep.end + 1, s.len());
        if next.value is Some {
            lemma_args_more_keeps(s, next.end, next.far);
        }
    }
}

/// `args` keeps the furthest failure well-formed.
#[verifier::spinoff_prover]
pub proof fn lemma_args_keeps(s: Seq<char>, p: int, far: Far)
    requires
        0 <= p <= s.len(),
        well_formed(s, far),
    ensures
        well_formed(s, args(s, p, far).far),
    decreases s.len() - p, 13nat,
{
    reveal(args);
    reveal(args_more);
    reveal(expr);
    lemma_expr_keeps(s, p, far);
    let first = within(expr(s, p, far), p + 1, s.len());
    if first.value is Some {
        lemma_args_more_keeps(s, first.end, first.far);
    }
}

/// `call_plain` keeps the furthest failure well-formed.
#[verifier::spinoff_prover]
pub proof fn lemma_call_plain_keeps(s: Seq<char>, p: int, far: Far)
    requires
        0 <= p <= s.len(),
        well_formed(s, far),
    ensures
        well_formed(s, call_plain(s, p, far).far),
    decreases s.len() - p, 3nat,
{
    reveal(call_plain);
    reveal(callee);
    reveal(args);
    lemma_callee_keeps(s, p, far);
    let target = within(callee(s, p, far), p + 1, s.len());
    if target.value is Some {
        lemma_lit_keeps(s, target.end, Token::LParen, target.far);
        let l_paren = within(
            lit_ws(s, target.end, Token::LParen, target.far),
            target.end + 1,
            s.len(),
        );
        if l_paren.value is Some {
            lemma_args_keeps(s, l_paren.end, l_paren.far);
            let args = within(args(s, l_paren.end, l_paren.far), l_paren.end, s.len());
            if args.value is Some {
                lemma_lit_keeps(s, args.end, Token::RParen, args.far);
                let r_paren = within(
                    ws_lit(s, args.end, Token::RParen, args.far),
                    args.end + 1,
                    s.len(),
                );
                if r_paren.value is Some {
                }
            }
        }
    }
}

/// `call_typed` keeps the furthest failure well-formed.
#[verifier::spinoff_prover]
pub proof fn lemma_call_typed_keeps(s: Seq<char>, p: int, far: Far)
    requires
        0 <= p <= s.len(),
        well_formed(s, far),
    ensures
        well_formed(s, call_typed(s, p, far).far),
    decreases s.len() - p, 3nat,
{
    reveal(call_typed);
    reveal(typed_callee);
    reveal(type_generic);
    reveal(args);
    lemma_typed_callee_keeps(s, p, far);
    let target = within(typed_callee(s, p, far), p + 1, s.len());
    if target.value is Some {
        lemma_skip_keeps(s, target.end, target.far);
        let gap = within(skip(s, target.end, target.far), target.end, s.len());
        if gap.value is Some {
            lemma_type_generic_keeps(s, gap.end, gap.far);
            let generics = within(type_generic(s, gap.end, gap.far), gap.end + 1, s.len());
            if generics.value is Some {
                lemma_lit_keeps(s, generics.end, Token::LParen, generics.far);
                let l_paren = within(
                    ws_lit_ws(s, generics.end, Token::LParen, generics.far),
                    generics.end + 1,
                    s.len(),
                );
                if l_paren.value is Some {
                    lemma_args_keeps(s, l_paren.end, l_paren.far);
                    let args = within(args(s, l_paren.end, l_paren.far), l_paren.end, s.len());
                    if args.value is Some {
                        lemma_lit_keeps(s, args.end, Token::RParen, args.far);
                        let r_paren = within(
                            ws_lit(s, args.end, Token::RParen, args.far),
                            args.end + 1,
                            s.len(),
                        );
                        if r_paren.value is Some {
                        }
                    }
                }
            }
        }
    }
}

/// `call_expr` keeps the furthest failure well-formed.
#[verifier::spinoff_prover]
pub proof fn lemma_call_expr_keeps(s: Seq<char>, p: int, far: Far)
    requires
        0 <= p <= s.len(),
        well_formed(s, far),
    ensures
        well_formed(s, call_expr(s, p, far).far),
    decreases s.len() - p, 4nat,
{
    reveal(call_expr);
    reveal(call_plain);
    reveal(call_typed);
    lemma_call_plain_keeps(s, p, far);
    let by_call_plain = within(call_plain(s, p, far), p + 1, s.len());
    lemma_call_typed_keeps(s, p, by_call_plain.far);
}

/// `directive_name` keeps the furthest failure well-formed.
#[verifier::spinoff_prover]
pub proof fn lemma_directive_name_keeps(s: Seq<char>, p: int, far: Far)
    requires
        0 <= p <= s.len(),
        well_formed(s, far),
    ensures
        well_formed(s, directive_name(s, p, far).far),
    decreases s.len() - p, 5nat,
{
    reveal(directive_name);
    reveal(call_expr);
    lemma_call_expr_keeps(s, p, far);
    let by_call_expr = within(call_expr(s, p, far), p + 1, s.len());
    lemma_identifier_expr_keeps(s, p, by_call_expr.far);
}

/// `directive_expr` keeps the furthest failure well-formed.
#[verifier::spinoff_prover]
pub proof fn lemma_directive_expr_keeps(s: Seq<char>, p: int, far: Far)
    requires
        0 <= p <= s.len(),
        well_formed(s, far),
    ensures
        well_formed(s, directive_expr(s, p, far).far),
    decreases s.len() - p, 1nat,
{
    reveal(directive_expr);
    reveal(directive_name);
    reveal(primary);
    lemma_lit_keeps(s, p, Token::At, far);
    let at = within(lit_ws(s, p, Token::At, far), p + 1, s.len());
    if at.value is Some {
        lemma_directive_name_keeps(s, at.end, at.far);
        let directive = within(directive_name(s, at.end, at.far), at.end + 1, s.len());
        if directive.value is Some {
            lemma_skip_keeps(s, directive.end, directive.far);
            let gap = within(skip(s, directive.end, directive.far), directive.end, s.len());
            if gap.value is Some {
                lemma_primary_keeps(s, gap.end, gap.far);
                let target = within(primary(s, gap.end, gap.far), gap.end + 1, s.len());
                if target.value is Some {
                }
            }
        }
    }
}

/// `let_plain` keeps the furthest failure well-formed.
#[verifier::spinoff_prover]
pub proof fn lemma_let_plain_keeps(s: Seq<char>, p: int, far: Far)
    requires
        0 <= p <= s.len(),
        well_formed(s, far),
    ensures
        well_formed(s, let_plain(s, p, far).far),
    decreases s.len() - p, 1nat,
{
    reveal(let_plain);
    reveal(expr);
    lemma_lit_keeps(s, p, Token::Let, far);
    let let_word = within(lit_ws(s, p, Token::Let, far), p + 1, s.len());
    if let_word.value is Some {
        lemma_identifier_keeps(s, let_word.end, let_word.far);
        let name = within(identifier(s, let_word.end, let_word.far), let_word.end + 1, s.len());
        if name.value is Some {
            lemma_lit_keeps(s, name.end, Token::Assign, name.far);
            let assign = within(
                ws_lit_ws(s, name.end, Token::Assign, name.far),
                name.end + 1,
                s.len(),
            );
            if assign.value is Some {
                lemma_expr_keeps(s, assign.end, assign.far);
                let value = within(expr(s, assign.end, assign.far), assign.end + 1, s.len());
                if value.value is Some {
                }
            }
        }
    }
}

/// `let_typed` keeps the furthest failure well-formed.
#[verifier::spinoff_prover]
pub proof fn lemma_let_typed_keeps(s: Seq<char>, p: int, far: Far)
    requires
        0 <= p <= s.len(),
        well_formed(s, far),
    ensures
        well_formed(s, let_typed(s, p, far).far),
    decreases s.len() - p, 1nat,
{
    reveal(let_typed);
    reveal(typed_expr);
    reveal(expr);
    lemma_lit_keeps(s, p, Token::Let, far);
    let let_word = within(lit_ws(s, p, Token::Let, far), p + 1, s.len());
    if let_word.value is Some {
        lemma_identifier_keeps(s, let_word.end, let_word.far);
        let name = within(identifier(s, let_word.end, let_word.far), let_word.end + 1, s.len());
        if name.value is Some {
            lemma_lit_keeps(s, name.end, Token::Colon, name.far);
            let colon = within(
                ws_lit_ws(s, name.end, Token::Colon, name.far),
                name.end + 1,
                s.len(),
            );
            if colon.value is Some {
                lemma_typed_expr_keeps(s, colon.end, colon.far);
                let ty = within(typed_expr(s, colon.end, colon.far), colon.end + 1, s.len());
                if ty.value is Some {
                    lemma_lit_keeps(s, ty.end, Token::Assign, ty.far);
                    let assign = within(
                        ws_lit_ws(s, ty.end, Token::Assign, ty.far),
                        ty.end + 1,
                        s.len(),
                    );
                    if assign.value is Some {
                        lemma_expr_keeps(s, assign.end, assign.far);
                        let value = within(
                            expr(s, assign.end, assign.far),
                            assign.end + 1,
                            s.len(),
                        );
                        if value.value is Some {
                        }
                    }
                }
            }
        }
    }
}

/// `let_binding` keeps the furthest failure well-formed.
#[verifier::spinoff_prover]
pub proof fn lemma_let_binding_keeps(s: Seq<char>, p: int, far: Far)
    requires
        0 <= p <= s.len(),
        well_formed(s, far),
    ensures
        well_formed(s, let_binding(s, p, far).far),
    decreases s.len() - p, 2nat,
{
    reveal(let_binding);
    reveal(let_plain);
    reveal(let_typed);
    lemma_let_plain_keeps(s, p, far);
    let by_let_plain = within(let_plain(s, p, far), p + 1, s.len());
    lemma_let_typed_keeps(s, p, by_let_plain.far);
}

/// `assignable` keeps the furthest failure well-formed.
#[verifier::spinoff_prover]
pub proof fn lemma_assignable_keeps(s: Seq<char>, p: int, far: Far)
    requires
        0 <= p <= s.len(),
        well_formed(s, far),
    ensures
        well_formed(s, assignable(s, p, far).far),
    decreases s.len() - p, 2nat,
{
    reveal(assignable);
    reveal(member_expr);
    lemma_member_expr_keeps(s, p, far);
    let by_member_expr = within(member_expr(s, p, far), p + 1, s.len());
    lemma_identifier_expr_keeps(s, p, by_member_expr.far);
}

/// `assign` keeps the furthest failure well-formed.
#[verifier::spinoff_prover]
pub proof fn lemma_assign_keeps(s: Seq<char>, p: int, far: Far)
    requires
        0 <= p <= s.len(),
        well_formed(s, far),
    ensures
        well_formed(s, assign(s, p, far).far),
    decreases s.len() - p, 3nat,
{
    reveal(assign);
    reveal(assignable);
    reveal(expr);
    lemma_assignable_keeps(s, p, far);
    let target = within(assignable(s, p, far), p + 1, s.len());
    if target.value is Some {
        lemma_lit_keeps(s, target.end, Token::Assign, target.far);
        let assign = within(
            ws_lit_ws(s, target.end, Token::Assign, target.far),
            target.end + 1,
            s.len(),
        );
        if assign.value is Some {
            lemma_expr_keeps(s, assign.end, assign.far);
            let value = within(expr(s, assign.end, assign.far), assign.end + 1, s.len());
            if value.value is Some {
            }
        }
    }
}

/// `paren_expr` keeps the furthest failure well-formed.
#[verifier::spinoff_prover]
pub proof fn lemma_paren_expr_keeps(s: Seq<char>, p: int, far: Far)
    requires
        0 <= p <= s.len(),
        well_formed(s, far),
    ensures
        well_formed(s, paren_expr(s, p, far).far),
    decreases s.len() - p, 1nat,
{
    reveal(paren_expr);
    reveal(expr);
    lemma_lit_keeps(s, p, Token::LParen, far);
    let l_paren = within(lit_ws(s, p, Token::LParen, far), p + 1, s.len());
    if l_paren.value is Some {
        lemma_expr_keeps(s, l_paren.end, l_paren.far);
        let inner = within(expr(s, l_paren.end, l_paren.far), l_paren.end + 1, s.len());
        if inner.value is Some {
            lemma_lit_keeps(s, inner.end, Token::RParen, inner.far);
            let r_paren = within(
                ws_lit(s, inner.end, Token::RParen, inner.far),
                inner.end + 1,
                s.len(),
            );
            if r_paren.value is Some {
            }
        }
    }
}

/// `list` keeps the furthest failure well-formed.
#[verifier::spinoff_prover]
pub proof fn lemma_list_keeps(s: Seq<char>, p: int, far: Far)
    requires
        0 <= p <= s.len(),
        well_formed(s, far),
    ensures
        well_formed(s, list(s, p, far).far),
    decreases s.len() - p, 1nat,
{
    reveal(list);
    reveal(args);
    lemma_lit_keeps(s, p, Token::LBracket, far);
    let l_bracket = within(lit(s, p, Token::LBracket, far), p + 1, s.len());
    if l_bracket.value is Some {
        lemma_args_keeps(s, l_bracket.end, l_bracket.far);
        let items = within(args(s, l_bracket.end, l_bracket.far), l_bracket.end, s.len());
        if items.value is Some {
            lemma_lit_keeps(s, items.end, Token::RBracket, items.far);
            let r_bracket = within(
                lit(s, items.end, Token::RBracket, items.far),
                items.end + 1,
                s.len(),
            );
            if r_bracket.value is Some {
            }
        }
    }
}

/// `record_entry` keeps the furthest failure well-formed.
#[verifier::spinoff_prover]
pub proof fn lemma_record_entry_keeps(s: Seq<char>, p: int, far: Far)
    requires
        0 <= p <= s.len(),
        well_formed(s, far),
    ensures
        well_formed(s, record_entry(s, p, far).far),
    decreases s.len() - p, 1nat,
{
    reveal(record_entry);
    reveal(expr);
    lemma_record_key_keeps(s, p, far);
    let key = within(record_key(s, p, far), p + 1, s.len());
    if key.value is Some {
        lemma_lit_keeps(s, key.end, Token::Colon, key.far);
        let colon = within(ws_lit_ws(s, key.end, Token::Colon, key.far), key.end + 1, s.len());
        if colon.value is Some {
            lemma_expr_keeps(s, colon.end, colon.far);
            let value = within(expr(s, colon.end, colon.far), colon.end + 1, s.len());
            if value.value is Some {
            }
        }
    }
}

/// What follows an item of `record_entries` keeps the furthest failure well-formed.
#[verifier::spinoff_prover]
pub proof fn lemma_record_entries_more_keeps(s: Seq<char>, p: int, far: Far)
    requires
        0 <= p <= s.len(),
        well_formed(s, far),
    ensures
        well_formed(s, record_entries_more(s, p, far).far),
    decreases s.len() - p, 2nat,
{
    reveal(record_entries);
    reveal(record_entries_more);
    reveal(record_entry);
    lemma_lit_keeps(s, p, Token::Comma, far);
    let sep = within(ws_lit_ws(s, p, Token::Comma, far), p + 1, s.len());
    if sep.value is Some {
        lemma_record_entry_keeps(s, sep.end, sep.far);
        let next = within(record_entry(s, sep.end, sep.far), sep.end + 1, s.len());
        if next.value is Some {
            lemma_record_entries_more_keeps(s, next.end, next.far);
        }
    }
}

/// `record_entries` keeps the furthest failure well-formed.
#[verifier::spinoff_prover]
pub proof fn lemma_record_entries_keeps(s: Seq<char>, p: int, far: Far)
    requires
        0 <= p <= s.len(),
        well_formed(s, far),
    ensures
        well_formed(s, record_entries(s, p, far).far),
    decreases s.len() - p, 2nat,
{
    reveal(record_entries);
    reveal(record_entries_more);
    reveal(record_entry);
    lemma_record_entry_keeps(s, p, far);
    let first = within(record_entry(s, p, far), p + 1, s.len());
    if first.value is Some {
        lemma_record_entries_more_keeps(s, first.end, first.far);
    }
}

/// `record` keeps the furthest failure well-formed.
#[verifier::spinoff_prover]
pub proof fn lemma_record_keeps(s: Seq<char>, p: int, far: Far)
    requires
        0 <= p <= s.len(),
        well_formed(s, far),
    ensures
        well_formed(s, record(s, p, far).far),
    decreases s.len() - p, 1nat,
{
    reveal(record);
    reveal(record_entries);
    lemma_lit_keeps(s, p, Token::LBrace, far);
    let l_brace = within(lit_ws(s, p, Token::LBrace, far), p + 1, s.len());
    if l_brace.value is Some {
        lemma_record_entries_keeps(s, l_brace.end, l_brace.far);
        let entries = within(record_entries(s, l_brace.end, l_brace.far), l_brace.end, s.len());
        if entries.value is Some {
            lemma_lit_keeps(s, entries.end, Token::RBrace, entries.far);
            let r_brace = within(
                ws_lit(s, entries.end, Token::RBrace, entries.far),
                entries.end + 1,
                s.len(),
            );
            if r_brace.value is Some {
            }
        }
    }
}

/// `field_entry` keeps the furthest failure well-formed.
#[verifier::spinoff_prover]
pub proof fn lemma_field_entry_keeps(s: Seq<char>, p: int, far: Far)
    requires
        0 <= p <= s.len(),
        well_formed(s, far),
    ensures
        well_formed(s, field_entry(s, p, far).far),
    decreases s.len() - p, 1nat,
{
    reveal(field_entry);
    reveal(typed_expr);
    lemma_identifier_keeps(s, p, far);
    let name = within(identifier(s, p, far), p + 1, s.len());
    if name.value is Some {
        lemma_lit_keeps(s, name.end, Token::Colon, name.far);
        let colon = within(ws_lit_ws(s, name.end, Token::Colon, name.far), name.end + 1, s.len());
        if colon.value is Some {
            lemma_typed_expr_keeps(s, colon.end, colon.far);
            let ty = within(typed_expr(s, colon.end, colon.far), colon.end + 1, s.len());
            if ty.value is Some {
            }
        }
    }
}

/// `method_entry` keeps the furthest failure well-formed.
#[verifier::spinoff_prover]
pub proof fn lemma_method_entry_keeps(s: Seq<char>, p: int, far: Far)
    requires
        0 <= p <= s.len(),
        well_formed(s, far),
    ensures
        well_formed(s, method_entry(s, p, far).far),
    decreases s.len() - p, 1nat,
{
    reveal(method_entry);
    reveal(fn_expr);
    lemma_identifier_keeps(s, p, far);
    let name = within(identifier(s, p, far), p + 1, s.len());
    if name.value is Some {
        lemma_lit_keeps(s, name.end, Token::Colon, name.far);
        let colon = within(ws_lit_ws(s, name.end, Token::Colon, name.far), name.end + 1, s.len());
        if colon.value is Some {
            lemma_fn_expr_keeps(s, colon.end, colon.far);
            let method = within(fn_expr(s, colon.end, colon.far), colon.end + 1, s.len());
            if method.value is Some {
            }
        }
    }
}

/// `struct_entry` keeps the furthest failure well-formed.
#[verifier::spinoff_prover]
pub proof fn lemma_struct_entry_keeps(s: Seq<char>, p: int, far: Far)
    requires
        0 <= p <= s.len(),
        well_formed(s, far),
    ensures
        well_formed(s, struct_entry(s, p, far).far),
    decreases s.len() - p, 2nat,
{
    reveal(struct_entry);
    reveal(field_entry);
    reveal(method_entry);
    lemma_field_entry_keeps(s, p, far);
    let by_field_entry = within(field_entry(s, p, far), p + 1, s.len());
    lemma_method_entry_keeps(s, p, by_field_entry.far);
}

/// What follows an item of `struct_entries` keeps the furthest failure well-formed.
#[verifier::spinoff_prover]
pub proof fn lemma_struct_entries_more_keeps(s: Seq<char>, p: int, far: Far)
    requires
        0 <= p <= s.len(),
        well_formed(s, far),
    ensures
        well_formed(s, struct_entries_more(s, p, far).far),
    decreases s.len() - p, 3nat,
{
    reveal(struct_entries);
    reveal(struct_entries_more);
    reveal(struct_entry);
    lemma_lit_keeps(s, p, Token::Comma, far);
    let sep = within(ws_lit_ws(s, p, Token::Comma, far), p + 1, s.len());
    if sep.value is Some {
        lemma_struct_entry_keeps(s, sep.end, sep.far);
        let next = within(struct_entry(s, sep.end, sep.far), sep.end + 1, s.len());
        if next.value is Some {
            lemma_struct_entries_more_keeps(s, next.end, next.far);
        }
    }
}

/// `struct_entries` keeps the furthest failure well-formed.
#[verifier::spinoff_prover]
pub proof fn lemma_struct_entries_keeps(s: Seq<char>, p: int, far: Far)
    requires
        0 <= p <= s.len(),
        well_formed(s, far),
    ensures
        well_formed(s, struct_entries(s, p, far).far),
    decreases s.len() - p, 3nat,
{
    reveal(struct_entries);
    reveal(struct_entries_more);
    reveal(struct_entry);
    lemma_struct_entry_keeps(s, p, far);
    let first = within(struct_entry(s, p, far), p + 1, s.len());
    if first.value is Some {
        lemma_struct_entries_more_keeps(s, first.end, first.far);
    }
}

/// `struct_expr` keeps the furthest failure well-formed.
#[verifier::spinoff_prover]
pub proof fn lemma_struct_expr_keeps(s: Seq<char>, p: int, far: Far)
    requires
        0 <= p <= s.len(),
        well_formed(s, far),
    ensures
        well_formed(s, struct_expr(s, p, far).far),
    decreases s.len() - p, 1nat,
{
    reveal(struct_expr);
    reveal(struct_entries);
    lemma_lit_keeps(s, p, Token::Struct, far);
    let struct_word = within(lit_ws(s, p, Token::Struct, far), p + 1, s.len());
    if struct_word.value is Some {
        lemma_identifier_keeps(s, struct_word.end, struct_word.far);
        let name = within(
            identifier(s, struct_word.end, struct_word.far),
            struct_word.end + 1,
            s.len(),
        );
        if name.value is Some {
            lemma_skip_keeps(s, name.end, name.far);
            let gap = within(skip(s, name.end, name.far), name.end, s.len());
            if gap.value is Some {
                lemma_struct_entries_keeps(s, gap.end, gap.far);
                let entries = within(struct_entries(s, gap.end, gap.far), gap.end, s.len());
                if entries.value is Some {
                    lemma_lit_keeps(s, entries.end, Token::End, entries.far);
                    let end_word = within(
                        ws_lit(s, entries.end, Token::End, entries.far),
                        entries.end + 1,
                        s.len(),
                    );
                    if end_word.value is Some {
                    }
                }
            }
        }
    }
}

/// What follows an item of `body_expr` keeps the furthest failure well-formed.
#[verifier::spinoff_prover]
pub proof fn lemma_body_expr_more_keeps(s: Seq<char>, p: int, far: Far)
    requires
        0 <= p <= s.len(),
        well_formed(s, far),
    ensures
        well_formed(s, body_expr_more(s, p, far).far),
    decreases s.len() - p, 13nat,
{
    reveal(body_expr);
    reveal(body_expr_more);
    reveal(expr);
    lemma_lit_keeps(s, p, Token::Semicolon, far);
    let sep = within(ws_lit_ws(s, p, Token::Semicolon, far), p + 1, s.len());
    if sep.value is Some {
        lemma_expr_keeps(s, sep.end, sep.far);
        let next = within(expr(s, sep.end, sep.far), sep.end + 1, s.len());
        if next.value is Some {
            lemma_body_expr_more_keeps(s, next.end, next.far);
        }
    }
}

/// `body_expr` keeps the furthest failure well-formed.
#[verifier::spinoff_prover]
pub proof fn lemma_body_expr_keeps(s: Seq<char>, p: int, far: Far)
    requires
        0 <= p <= s.len(),
        well_formed(s, far),
    ensures
        well_formed(s, body_expr(s, p, far).far),
    decreases s.len() - p, 13nat,
{
    reveal(body_expr);
    reveal(body_expr_more);
    reveal(expr);
    lemma_expr_keeps(s, p, far);
    let first = within(expr(s, p, far), p + 1, s.len());
    if first.value is Some {
        lemma_body_expr_more_keeps(s, first.end, first.far);
    }
}

/// `if_plain` keeps the furthest failure well-formed.
#[verifier::spinoff_prover]
pub proof fn lemma_if_plain_keeps(s: Seq<char>, p: int, far: Far)
    requires
        0 <= p <= s.len(),
        well_formed(s, far),
    ensures
        well_formed(s, if_plain(s, p, far).far),
    decreases s.len() - p, 1nat,
{
    reveal(if_plain);
    reveal(expr);
    reveal(body_expr);
    lemma_lit_keeps(s, p, Token::If, far);
    let if_word = within(lit_ws(s, p, Token::If, far), p + 1, s.len());
    if if_word.value is Some {
        lemma_expr_keeps(s, if_word.end, if_word.far);
        let cond = within(expr(s, if_word.end, if_word.far), if_word.end + 1, s.len());
        if cond.value is Some {
            lemma_lit_keeps(s, cond.end, Token::Then, cond.far);
            let then_word = within(
                ws_lit_ws(s, cond.end, Token::Then, cond.far),
                cond.end + 1,
                s.len(),
            );
            if then_word.value is Some {
                lemma_body_expr_keeps(s, then_word.end, then_word.far);
                let then_body = within(
                    body_expr(s, then_word.end, then_word.far),
                    then_word.end,
                    s.len(),
                );
                if then_body.value is Some {
                    lemma_lit_keeps(s, then_body.end, Token::End, then_body.far);
                    let end_word = within(
                        ws_lit(s, then_body.end, Token::End, then_body.far),
                        then_body.end + 1,
                        s.len(),
                    );
                    if end_word.value is Some {
                    }
                }
            }
        }
    }
}

/// `if_else` keeps the furthest failure well-formed.
#[verifier::spinoff_prover]
pub proof fn lemma_if_else_keeps(s: Seq<char>, p: int, far: Far)
    requires
        0 <= p <= s.len(),
        well_formed(s, far),
    ensures
        well_formed(s, if_else(s, p, far).far),
    decreases s.len() - p, 1nat,
{
    reveal(if_else);
    reveal(expr);
    reveal(body_expr);
    lemma_lit_keeps(s, p, Token::If, far);
    let if_word = within(lit_ws(s, p, Token::If, far), p + 1, s.len());
    if if_word.value is Some {
        lemma_expr_keeps(s, if_word.end, if_word.far);
        let cond = within(expr(s, if_word.end, if_word.far), if_word.end + 1, s.len());
        if cond.value is Some {
            lemma_lit_keeps(s, cond.end, Token::Then, cond.far);
            let then_word = within(
                ws_lit_ws(s, cond.end, Token::Then, cond.far),
                cond.end + 1,
                s.len(),
            );
            if then_word.value is Some {
                lemma_body_expr_keeps(s, then_word.end, then_word.far);
                let then_body = within(
                    body_expr(s, then_word.end, then_word.far),
                    then_word.end,
                    s.len(),
                );
                if then_body.value is Some {
                    lemma_lit_keeps(s, then_body.end, Token::Else, then_body.far);
                    let else_word = within(
                        ws_lit_ws(s, then_body.end, Token::Else, then_body.far),
                        then_body.end + 1,
                        s.len(),
                    );
                    if else_word.value is Some {
                        lemma_body_expr_keeps(s, else_word.end, else_word.far);
                        let else_body = within(
                            body_expr(s, else_word.end, else_word.far),
                            else_word.end,
                            s.len(),
                        );
                        if else_body.value is Some {
                            lemma_lit_keeps(s, else_body.end, Token::End, else_body.far);
                            let end_word = within(
                                ws_lit(s, else_body.end, Token::End, else_body.far),
                                else_body.end + 1,
                                s.len(),
                            );
                            if end_word.value is Some {
                            }
                        }
                    }
                }
            }
        }
    }
}

/// `if_expr` keeps the furthest failure well-formed.
#[verifier::spinoff_prover]
pub proof fn lemma_if_expr_keeps(s: Seq<char>, p: int, far: Far)
    requires
        0 <= p <= s.len(),
        well_formed(s, far),
    ensures
        well_formed(s, if_expr(s, p, far).far),
    decreases s.len() - p, 2nat,
{
    reveal(if_expr);
    reveal(if_plain);
    reveal(if_else);
    lemma_if_plain_keeps(s, p, far);
    let by_if_plain = within(if_plain(s, p, far), p + 1, s.len());
    lemma_if_else_keeps(s, p, by_if_plain.far);
}

/// `loop_expr` keeps the furthest failure well-formed.
#[verifier::spinoff_prover]
pub proof fn lemma_loop_expr_keeps(s: Seq<char>, p: int, far: Far)
    requires
        0 <= p <= s.len(),
        well_formed(s, far),
    ensures
        well_formed(s, loop_expr(s, p, far).far),
    decreases s.len() - p, 1nat,
{
    reveal(loop_expr);
    reveal(expr);
    reveal(primary);
    reveal(body_expr);
    lemma_lit_keeps(s, p, Token::For, far);
    let for_word = within(lit_ws(s, p, Token::For, far), p + 1, s.len());
    if for_word.value is Some {
        lemma_expr_keeps(s, for_word.end, for_word.far);
        let binding = within(expr(s, for_word.end, for_word.far), for_word.end + 1, s.len());
        if binding.value is Some {
            lemma_lit_keeps(s, binding.end, Token::In, binding.far);
            let in_word = within(
                ws_lit_ws(s, binding.end, Token::In, binding.far),
                binding.end + 1,
                s.len(),
            );
            if in_word.value is Some {
                lemma_primary_keeps(s, in_word.end, in_word.far);
                let iterable = within(
                    primary(s, in_word.end, in_word.far),
                    in_word.end + 1,
                    s.len(),
                );
                if iterable.value is Some {
                    lemma_skip_keeps(s, iterable.end, iterable.far);
                    let gap = within(skip(s, iterable.end, iterable.far), iterable.end, s.len());
                    if gap.value is Some {
                        lemma_body_expr_keeps(s, gap.end, gap.far);
                        let body = within(body_expr(s, gap.end, gap.far), gap.end, s.len());
                        if body.value is Some {
                            lemma_lit_keeps(s, body.end, Token::End, body.far);
                            let end_word = within(
                                ws_lit(s, body.end, Token::End, body.far),
                                body.end + 1,
                                s.len(),
                            );
                            if end_word.value is Some {
                            }
                        }
                    }
                }
            }
        }
    }
}

/// `typed_arg` keeps the furthest failure well-formed.
#[verifier::spinoff_prover]
pub proof fn lemma_typed_arg_keeps(s: Seq<char>, p: int, far: Far)
    requires
        0 <= p <= s.len(),
        well_formed(s, far),
    ensures
        well_formed(s, typed_arg(s, p, far).far),
    decreases s.len() - p, 1nat,
{
    reveal(typed_arg);
    reveal(typed_expr);
    lemma_identifier_keeps(s, p, far);
    let name = within(identifier(s, p, far), p + 1, s.len());
    if name.value is Some {
        lemma_lit_keeps(s, name.end, Token::Colon, name.far);
        let colon = within(ws_lit_ws(s, name.end, Token::Colon, name.far), name.end + 1, s.len());
        if colon.value is Some {
            lemma_typed_expr_keeps(s, colon.end, colon.far);
            let ty = within(typed_expr(s, colon.end, colon.far), colon.end + 1, s.len());
            if ty.value is Some {
            }
        }
    }
}

/// `plain_arg` keeps the furthest failure well-formed.
#[verifier::spinoff_prover]
pub proof fn lemma_plain_arg_keeps(s: Seq<char>, p: int, far: Far)
    requires
        0 <= p <= s.len(),
        well_formed(s, far),
    ensures
        well_formed(s, plain_arg(s, p, far).far),
    decreases s.len() - p, 1nat,
{
    reveal(plain_arg);
    lemma_identifier_keeps(s, p, far);
    let name = within(identifier(s, p, far), p + 1, s.len());
    if name.value is Some {
    }
}

/// `fn_arg` keeps the furthest failure well-formed.
#[verifier::spinoff_prover]
pub proof fn lemma_fn_arg_keeps(s: Seq<char>, p: int, far: Far)
    requires
        0 <= p <= s.len(),
        well_formed(s, far),
    ensures
        well_formed(s, fn_arg(s, p, far).far),
    decreases s.len() - p, 2nat,
{
    reveal(fn_arg);
    reveal(typed_arg);
    reveal(plain_arg);
    lemma_typed_arg_keeps(s, p, far);
    let by_typed_arg = within(typed_arg(s, p, far), p + 1, s.len());
    lemma_plain_arg_keeps(s, p, by_typed_arg.far);
}

/// What follows an item of `fn_args` keeps the furthest failure well-formed.
#[verifier::spinoff_prover]
pub proof fn lemma_fn_args_more_keeps(s: Seq<char>, p: int, far: Far)
    requires
        0 <= p <= s.len(),
        well_formed(s, far),
    ensures
        well_formed(s, fn_args_more(s, p, far).far),
    decreases s.len() - p, 3nat,
{
    reveal(fn_args);
    reveal(fn_args_more);
    reveal(fn_arg);
    lemma_lit_keeps(s, p, Token::Comma, far);
    let sep = within(ws_lit_ws(s, p, Token::Comma, far), p + 1, s.len());
    if sep.value is Some {
        lemma_fn_arg_keeps(s, sep.end, sep.far);
        let next = within(fn_arg(s, sep.end, sep.far), sep.end + 1, s.len());
        if next.value is Some {
            lemma_fn_args_more_keeps(s, next.end, next.far);
        }
    }
}

/// `fn_args` keeps the furthest failure well-formed.
#[verifier::spinoff_prover]
pub proof fn lemma_fn_args_keeps(s: Seq<char>, p: int, far: Far)
    requires
        0 <= p <= s.len(),
        well_formed(s, far),
    ensures
        well_formed(s, fn_args(s, p, far).far),
    decreases s.len() - p, 3nat,
{
    reveal(fn_args);
    reveal(fn_args_more);
    reveal(fn_arg);
    lemma_fn_arg_keeps(s, p, far);
    let first = within(fn_arg(s, p, far), p + 1, s.len());
    if first.value is Some {
        lemma_fn_args_more_keeps(s, first.end, first.far);
    }
}

/// `fn_expr` keeps the furthest failure well-formed.
#[verifier::spinoff_prover]
pub proof fn lemma_fn_expr_keeps(s: Seq<char>, p: int, far: Far)
    requires
        0 <= p <= s.len(),
        well_formed(s, far),
    ensures
        well_formed(s, fn_expr(s, p, far).far),
    decreases s.len() - p, 1nat,
{
    reveal(fn_expr);
    reveal(fn_args);
    reveal(body_expr);
    lemma_lit_keeps(s, p, Token::Pipe, far);
    let pipe = within(lit_ws(s, p, Token::Pipe, far), p + 1, s.len());
    if pipe.value is Some {
        lemma_fn_args_keeps(s, pipe.end, pipe.far);
        let params = within(fn_args(s, pipe.end, pipe.far), pipe.end, s.len());
        if params.value is Some {
            lemma_lit_keeps(s, params.end, Token::Pipe, params.far);
            let pipe2 = within(
                ws_lit_ws(s, params.end, Token::Pipe, params.far),
                params.end + 1,
                s.len(),
            );
            if pipe2.value is Some {
                lemma_body_expr_keeps(s, pipe2.end, pipe2.far);
                let body = within(body_expr(s, pipe2.end, pipe2.far), pipe2.end, s.len());
                if body.value is Some {
                    lemma_lit_keeps(s, body.end, Token::End, body.far);
                    let end_word = within(
                        ws_lit(s, body.end, Token::End, body.far),
                        body.end + 1,
                        s.len(),
                    );
                    if end_word.value is Some {
                    }
                }
            }
        }
    }
}

/// `match_case` keeps the furthest failure well-formed.
#[verifier::spinoff_prover]
pub proof fn lemma_match_case_keeps(s: Seq<char>, p: int, far: Far)
    requires
        0 <= p <= s.len(),
        well_formed(s, far),
    ensures
        well_formed(s, match_case(s, p, far).far),
    decreases s.len() - p, 1nat,
{
    reveal(match_case);
    reveal(body_expr);
    lemma_lit_keeps(s, p, Token::Pipe, far);
    let pipe = within(lit_ws(s, p, Token::Pipe, far), p + 1, s.len());
    if pipe.value is Some {
        lemma_identifier_keeps(s, pipe.end, pipe.far);
        let tag = within(identifier(s, pipe.end, pipe.far), pipe.end + 1, s.len());
        if tag.value is Some {
            lemma_lit_keeps(s, tag.end, Token::Arrow, tag.far);
            let arrow = within(ws_lit_ws(s, tag.end, Token::Arrow, tag.far), tag.end + 1, s.len());
            if arrow.value is Some {
                lemma_body_expr_keeps(s, arrow.end, arrow.far);
                let body = within(body_expr(s, arrow.end, arrow.far), arrow.end, s.len());
                if body.value is Some {
                    lemma_lit_keeps(s, body.end, Token::Comma, body.far);
                    let comma = within(
                        ws_lit_ws(s, body.end, Token::Comma, body.far),
                        body.end + 1,
                        s.len(),
                    );
                    if comma.value is Some {
                    }
                }
            }
        }
    }
}

/// What follows an item of `match_cases` keeps the furthest failure well-formed.
#[verifier::spinoff_prover]
pub proof fn lemma_match_cases_more_keeps(s: Seq<char>, p: int, far: Far)
    requires
        0 <= p <= s.len(),
        well_formed(s, far),
    ensures
        well_formed(s, match_cases_more(s, p, far).far),
    decreases s.len() - p, 2nat,
{
    reveal(match_cases);
    reveal(match_cases_more);
    reveal(match_case);
    lemma_skip_keeps(s, p, far);
    let sep = within(skip(s, p, far), p, s.len());
    if sep.value is Some {
        lemma_match_case_keeps(s, sep.end, sep.far);
        let next = within(match_case(s, sep.end, sep.far), sep.end + 1, s.len());
        if next.value is Some {
            lemma_match_cases_more_keeps(s, next.end, next.far);
        }
    }
}

/// `match_cases` keeps the furthest failure well-formed.
#[verifier::spinoff_prover]
pub proof fn lemma_match_cases_keeps(s: Seq<char>, p: int, far: Far)
    requires
        0 <= p <= s.len(),
        well_formed(s, far),
    ensures
        well_formed(s, match_cases(s, p, far).far),
    decreases s.len() - p, 2nat,
{
    reveal(match_cases);
    reveal(match_cases_more);
    reveal(match_case);
    lemma_match_case_keeps(s, p, far);
    let first = within(match_case(s, p, far), p + 1, s.len());
    if first.value is Some {
        lemma_match_cases_more_keeps(s, first.end, first.far);
    }
}

/// `match_expr` keeps the furthest failure well-formed.
#[verifier::spinoff_prover]
pub proof fn lemma_match_expr_keeps(s: Seq<char>, p: int, far: Far)
    requires
        0 <= p <= s.len(),
        well_formed(s, far),
    ensures
        well_formed(s, match_expr(s, p, far).far),
    decreases s.len() - p, 1nat,
{
    reveal(match_expr);
    reveal(expr);
    reveal(match_cases);
    lemma_lit_keeps(s, p, Token::Match, far);
    let match_word = within(lit_ws(s, p, Token::Match, far), p + 1, s.len());
    if match_word.value is Some {
        lemma_expr_keeps(s, match_word.end, match_word.far);
        let scrutinee = within(
            expr(s, match_word.end, match_word.far),
            match_word.end + 1,
            s.len(),
        );
        if scrutinee.value is Some {
            lemma_lit_keeps(s, scrutinee.end, Token::With, scrutinee.far);
            let with_word = within(
                ws_lit_ws(s, scrutinee.end, Token::With, scrutinee.far),
                scrutinee.end + 1,
                s.len(),
            );
            if with_word.value is Some {
                lemma_match_cases_keeps(s, with_word.end, with_word.far);
                let cases = within(
                    match_cases(s, with_word.end, with_word.far),
                    with_word.end,
                    s.len(),
                );
                if cases.value is Some {
                    lemma_lit_keeps(s, cases.end, Token::End, cases.far);
                    let end_word = within(
                        lit(s, cases.end, Token::End, cases.far),
                        cases.end + 1,
                        s.len(),
                    );
                    if end_word.value is Some {
                    }
                }
            }
        }
    }
}

/// `primary` keeps the furthest failure well-formed.
#[verifier::spinoff_prover]
pub proof fn lemma_primary_keeps(s: Seq<char>, p: int, far: Far)
    requires
        0 <= p <= s.len(),
        well_formed(s, far),
    ensures
        well_formed(s, primary(s, p, far).far),
    decreases s.len() - p, 6nat,
{
    reveal(primary);
    reveal(assign);
    reveal(paren_expr);
    reveal(directive_expr);
    reveal(match_expr);
    reveal(struct_expr);
    reveal(type_alias);
    reveal(call_expr);
    reveal(member_expr);
    reveal(loop_expr);
    reveal(if_expr);
    reveal(fn_expr);
    reveal(let_binding);
    reveal(list);
    reveal(record);
    lemma_assign_keeps(s, p, far);
    let by_assign = within(assign(s, p, far), p + 1, s.len());
    lemma_paren_expr_keeps(s, p, by_assign.far);
    let by_paren_expr = within(paren_expr(s, p, by_assign.far), p + 1, s.len());
    lemma_directive_expr_keeps(s, p, by_paren_expr.far);
    let by_directive_expr = within(directive_expr(s, p, by_paren_expr.far), p + 1, s.len());
    lemma_match_expr_keeps(s, p, by_directive_expr.far);
    let by_match_expr = within(match_expr(s, p, by_directive_expr.far), p + 1, s.len());
    lemma_struct_expr_keeps(s, p, by_match_expr.far);
    let by_struct_expr = within(struct_expr(s, p, by_match_expr.far), p + 1, s.len());
    lemma_type_alias_keeps(s, p, by_struct_expr.far);
    let by_type_alias = within(type_alias(s, p, by_struct_expr.far), p + 1, s.len());
    lemma_call_expr_keeps(s, p, by_type_alias.far);
    let by_call_expr = within(call_expr(s, p, by_type_alias.far), p + 1, s.len());
    lemma_range_expr_keeps(s, p, by_call_expr.far);
    let by_range_expr = within(range_expr(s, p, by_call_expr.far), p + 1, s.len());
    lemma_member_expr_keeps(s, p, by_range_expr.far);
    let by_member_expr = within(member_expr(s, p, by_range_expr.far), p + 1, s.len());
    lemma_loop_expr_keeps(s, p, by_member_expr.far);
    let by_loop_expr = within(loop_expr(s, p, by_member_expr.far), p + 1, s.len());
    lemma_if_expr_keeps(s, p, by_loop_expr.far);
    let by_if_expr = within(if_expr(s, p, by_loop_expr.far), p + 1, s.len());
    lemma_fn_expr_keeps(s, p, by_if_expr.far);
    let by_fn_expr = within(fn_expr(s, p, by_if_expr.far), p + 1, s.len());
    lemma_let_binding_keeps(s, p, by_fn_expr.far);
    let by_let_binding = within(let_binding(s, p, by_fn_expr.far), p + 1, s.len());
    lemma_pass_keeps(s, p, by_let_binding.far);
    let by_pass = within(pass(s, p, by_let_binding.far), p + 1, s.len());
    lemma_bool_literal_keeps(s, p, by_pass.far);
    let by_bool_literal = within(bool_literal(s, p, by_pass.far), p + 1, s.len());
    lemma_float_literal_keeps(s, p, by_bool_literal.far);
    let by_float_literal = within(float_literal(s, p, by_bool_literal.far), p + 1, s.len());
    lemma_integer_literal_keeps(s, p, by_float_literal.far);
    let by_integer_literal = within(integer_literal(s, p, by_float_literal.far), p + 1, s.len());
    lemma_string_literal_keeps(s, p, by_integer_literal.far);
    let by_string_literal = within(string_literal(s, p, by_integer_literal.far), p + 1, s.len());
    lemma_char_literal_keeps(s, p, by_string_literal.far);
    let by_char_literal = within(char_literal(s, p, by_string_literal.far), p + 1, s.len());
    lemma_identifier_expr_keeps(s, p, by_char_literal.far);
    let by_identifier_expr = within(identifier_expr(s, p, by_char_literal.far), p + 1, s.len());
    lemma_list_keeps(s, p, by_identifier_expr.far);
    let by_list = within(list(s, p, by_identifier_expr.far), p + 1, s.len());
    lemma_record_keeps(s, p, by_list.far);
}

/// `bit` keeps the furthest failure well-formed.
#[verifier::spinoff_prover]
pub proof fn lemma_bit_keeps(s: Seq<char>, p: int, far: Far)
    requires
        0 <= p <= s.len(),
        well_formed(s, far),
    ensures
        well_formed(s, bit(s, p, far).far),
    decreases s.len() - p, 7nat,
{
    reveal(bit);
    reveal(primary);
    lemma_primary_keeps(s, p, far);
    let lhs = within(primary(s, p, far), p + 1, s.len());
    if lhs.value is Some {
        lemma_skip_keeps(s, lhs.end, lhs.far);
        let gap = within(skip(s, lhs.end, lhs.far), lhs.end, s.len());
        if gap.value is Some {
            lemma_bit_op_keeps(s, gap.end, gap.far);
            let op = within(bit_op(s, gap.end, gap.far), gap.end + 1, s.len());
            if op.value is Some {
                lemma_skip_keeps(s, op.end, op.far);
                let gap2 = within(skip(s, op.end, op.far), op.end, s.len());
                if gap2.value is Some {
                    lemma_primary_keeps(s, gap2.end, gap2.far);
                    let rhs = within(primary(s, gap2.end, gap2.far), gap2.end + 1, s.len());
                    if rhs.value is Some {
                    }
                }
            }
        }
    }
}

/// `compare_form` keeps the furthest failure well-formed.
#[verifier::spinoff_prover]
pub proof fn lemma_compare_form_keeps(s: Seq<char>, p: int, far: Far)
    requires
        0 <= p <= s.len(),
        well_formed(s, far),
    ensures
        well_formed(s, compare_form(s, p, far).far),
    decreases s.len() - p, 7nat,
{
    reveal(compare_form);
    reveal(primary);
    lemma_primary_keeps(s, p, far);
    let lhs = within(primary(s, p, far), p + 1, s.len());
    if lhs.value is Some {
        lemma_skip_keeps(s, lhs.end, lhs.far);
        let gap = within(skip(s, lhs.end, lhs.far), lhs.end, s.len());
        if gap.value is Some {
            lemma_compare_op_keeps(s, gap.end, gap.far);
            let op = within(compare_op(s, gap.end, gap.far), gap.end + 1, s.len());
            if op.value is Some {
                lemma_skip_keeps(s, op.end, op.far);
                let gap2 = within(skip(s, op.end, op.far), op.end, s.len());
                if gap2.value is Some {
                    lemma_primary_keeps(s, gap2.end, gap2.far);
                    let rhs = within(primary(s, gap2.end, gap2.far), gap2.end + 1, s.len());
                    if rhs.value is Some {
                    }
                }
            }
        }
    }
}

/// `compare` keeps the furthest failure well-formed.
#[verifier::spinoff_prover]
pub proof fn lemma_compare_keeps(s: Seq<char>, p: int, far: Far)
    requires
        0 <= p <= s.len(),
        well_formed(s, far),
    ensures
        well_formed(s, compare(s, p, far).far),
    decreases s.len() - p, 8nat,
{
    reveal(compare);
    reveal(compare_form);
    reveal(primary);
    lemma_compare_form_keeps(s, p, far);
    let by_compare_form = within(compare_form(s, p, far), p + 1, s.len());
    lemma_primary_keeps(s, p, by_compare_form.far);
}

/// `mul_form` keeps the furthest failure well-formed.
#[verifier::spinoff_prover]
pub proof fn lemma_mul_form_keeps(s: Seq<char>, p: int, far: Far)
    requires
        0 <= p <= s.len(),
        well_formed(s, far),
    ensures
        well_formed(s, mul_form(s, p, far).far),
    decreases s.len() - p, 7nat,
{
    reveal(mul_form);
    reveal(primary);
    lemma_primary_keeps(s, p, far);
    let lhs = within(primary(s, p, far), p + 1, s.len());
    if lhs.value is Some {
        lemma_skip_keeps(s, lhs.end, lhs.far);
        let gap = within(skip(s, lhs.end, lhs.far), lhs.end, s.len());
        if gap.value is Some {
            lemma_mul_op_keeps(s, gap.end, gap.far);
            let op = within(mul_op(s, gap.end, gap.far), gap.end + 1, s.len());
            if op.value is Some {
                lemma_skip_keeps(s, op.end, op.far);
                let gap2 = within(skip(s, op.end, op.far), op.end, s.len());
                if gap2.value is Some {
                    lemma_primary_keeps(s, gap2.end, gap2.far);
                    let rhs = within(primary(s, gap2.end, gap2.far), gap2.end + 1, s.len());
                    if rhs.value is Some {
                    }
                }
            }
        }
    }
}

/// `mul_div` keeps the furthest failure well-formed.
#[verifier::spinoff_prover]
pub proof fn lemma_mul_div_keeps(s: Seq<char>, p: int, far: Far)
    requires
        0 <= p <= s.len(),
        well_formed(s, far),
    ensures
        well_formed(s, mul_div(s, p, far).far),
    decreases s.len() - p, 9nat,
{
    reveal(mul_div);
    reveal(mul_form);
    reveal(bit);
    reveal(compare);
    lemma_mul_form_keeps(s, p, far);
    let by_mul_form = within(mul_form(s, p, far), p + 1, s.len());
    lemma_bit_keeps(s, p, by_mul_form.far);
    let by_bit = within(bit(s, p, by_mul_form.far), p + 1, s.len());
    lemma_compare_keeps(s, p, by_bit.far);
}

/// `add_form` keeps the furthest failure well-formed.
#[verifier::spinoff_prover]
pub proof fn lemma_add_form_keeps(s: Seq<char>, p: int, far: Far)
    requires
        0 <= p <= s.len(),
        well_formed(s, far),
    ensures
        well_formed(s, add_form(s, p, far).far),
    decreases s.len() - p, 10nat,
{
    reveal(add_form);
    reveal(mul_div);
    lemma_mul_div_keeps(s, p, far);
    let lhs = within(mul_div(s, p, far), p + 1, s.len());
    if lhs.value is Some {
        lemma_skip_keeps(s, lhs.end, lhs.far);
        let gap = within(skip(s, lhs.end, lhs.far), lhs.end, s.len());
        if gap.value is Some {
            lemma_add_op_keeps(s, gap.end, gap.far);
            let op = within(add_op(s, gap.end, gap.far), gap.end + 1, s.len());
            if op.value is Some {
                lemma_skip_keeps(s, op.end, op.far);
                let gap2 = within(skip(s, op.end, op.far), op.end, s.len());
                if gap2.value is Some {
                    lemma_mul_div_keeps(s, gap2.end, gap2.far);
                    let rhs = within(mul_div(s, gap2.end, gap2.far), gap2.end + 1, s.len());
                    if rhs.value is Some {
                    }
                }
            }
        }
    }
}

/// `add_sub` keeps the furthest failure well-formed.
#[verifier::spinoff_prover]
pub proof fn lemma_add_sub_keeps(s: Seq<char>, p: int, far: Far)
    requires
        0 <= p <= s.len(),
        well_formed(s, far),
    ensures
        well_formed(s, add_sub(s, p, far).far),
    decreases s.len() - p, 11nat,
{
    reveal(add_sub);
    reveal(add_form);
    reveal(mul_div);
    lemma_add_form_keeps(s, p, far);
    let by_add_form = within(add_form(s, p, far), p + 1, s.len());
    lemma_mul_div_keeps(s, p, by_add_form.far);
}

/// `unary` keeps the furthest failure well-formed.
#[verifier::spinoff_prover]
pub proof fn lemma_unary_keeps(s: Seq<char>, p: int, far: Far)
    requires
        0 <= p <= s.len(),
        well_formed(s, far),
    ensures
        well_formed(s, unary(s, p, far).far),
    decreases s.len() - p, 7nat,
{
    reveal(unary);
    reveal(unary_ops);
    reveal(primary);
    lemma_unary_ops_keeps(s, p, far);
    let ops = within(unary_ops(s, p, far), p, s.len());
    if ops.value is Some {
        lemma_primary_keeps(s, ops.end, ops.far);
        let operand = within(primary(s, ops.end, ops.far), ops.end + 1, s.len());
        if operand.value is Some {
        }
    }
}

/// `expr` keeps the furthest failure well-formed.
#[verifier::spinoff_prover]
pub proof fn lemma_expr_keeps(s: Seq<char>, p: int, far: Far)
    requires
        0 <= p <= s.len(),
        well_formed(s, far),
    ensures
        well_formed(s, expr(s, p, far).far),
    decreases s.len() - p, 12nat,
{
    reveal(expr);
    reveal(add_sub);
    reveal(unary);
    reveal(bit);
    reveal(compare);
    reveal(primary);
    lemma_add_sub_keeps(s, p, far);
    let by_add_sub = within(add_sub(s, p, far), p + 1, s.len());
    lemma_unary_keeps(s, p, by_add_sub.far);
    let by_unary = within(unary(s, p, by_add_sub.far), p + 1, s.len());
    lemma_bit_keeps(s, p, by_unary.far);
    let by_bit = within(bit(s, p, by_unary.far), p + 1, s.len());
    lemma_compare_keeps(s, p, by_bit.far);
    let by_compare = within(compare(s, p, by_bit.far), p + 1, s.len());
    lemma_primary_keeps(s, p, by_compare.far);
}

/// What follows an item of `statements` keeps the furthest failure well-formed.
#[verifier::spinoff_prover]
pub proof fn lemma_statements_more_keeps(s: Seq<char>, p: int, far: Far)
    requires
        0 <= p <= s.len(),
        well_formed(s, far),
    ensures
        well_formed(s, statements_more(s, p, far).far),
    decreases s.len() - p, 13nat,
{
    reveal(statements);
    reveal(statements_more);
    reveal(expr);
    lemma_skip_keeps(s, p, far);
    let sep = within(skip(s, p, far), p, s.len());
    if sep.value is Some {
        lemma_expr_keeps(s, sep.end, sep.far);
        let next = within(expr(s, sep.end, sep.far), sep.end + 1, s.len());
        if next.value is Some {
            lemma_statements_more_keeps(s, next.end, next.far);
        }
    }
}

/// `statements` keeps the furthest failure well-formed.
#[verifier::spinoff_prover]
pub proof fn lemma_statements_keeps(s: Seq<char>, p: int, far: Far)
    requires
        0 <= p <= s.len(),
        well_formed(s, far),
    ensures
        well_formed(s, statements(s, p, far).far),
    decreases s.len() - p, 13nat,
{
    reveal(statements);
    reveal(statements_more);
    reveal(expr);
    lemma_expr_keeps(s, p, far);
    let first = within(expr(s, p, far), p + 1, s.len());
    if first.value is Some {
        lemma_statements_more_keeps(s, first.end, first.far);
    }
}

/// The furthest failure of a whole parse is well-formed: the position that
/// a failed parse reports lies in the source, and it expects no token twice.
pub proof fn program_failure_is_well_formed(s: Seq<char>)
    ensures
        well_formed(s, program(s).far),
{
    let lead = skip(s, 0, far_start());
    lemma_skip_keeps(s, 0, far_start());
    lemma_skip_ends(s, 0, far_start());
    lemma_statements_keeps(s, lead.end, lead.far);
    statements_ends_in_bounds(s, lead.end, lead.far);
    let items = statements(s, lead.end, lead.far);
    if items.value is Some {
        lemma_skip_keeps(s, items.end, items.far);
        lemma_skip_ends(s, items.end, items.far);
        let trail = skip(s, items.end, items.far);
        lemma_mark_keeps(s, trail.far, trail.end, Token::EndOfInput);
    } else {
        reveal(statements);
    }
}

} // verus!
