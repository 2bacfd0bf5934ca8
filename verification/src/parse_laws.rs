//! What the parser does with a binding of a literal, for every literal,
//! and with the comparison words that are prefixes of one another.

use vstd::prelude::*;
use crate::ast::{CompareOp, Node};
use crate::first::{
    lemma_add_op_start, lemma_assign_start, lemma_bit_op_start, lemma_bool_literal_start,
    lemma_call_expr_start, lemma_char_literal_start, lemma_compare_op_start,
    lemma_directive_expr_start, lemma_expr_start, lemma_float_literal_start, lemma_fn_expr_start,
    lemma_identifier_expr_start, lemma_if_expr_start, lemma_integer_literal_start,
    lemma_let_binding_start, lemma_lit_start, lemma_loop_expr_start, lemma_match_expr_start,
    lemma_member_expr_start, lemma_mul_op_start, lemma_paren_expr_start, lemma_pass_start,
    lemma_range_expr_start, lemma_string_literal_start, lemma_struct_expr_start,
    lemma_type_alias_start, token_first,
};
use crate::grammar::{
    add_form, add_op, add_sub, args, args_more, assign, assignable, bit, bit_op, blanks_end,
    body_expr, body_expr_more, bool_literal, call_expr, call_plain, call_typed, callee,
    char_literal, comment, compare, compare_form, compare_op, decimal_text, digits, digits_end,
    digits_value, directive_expr, expr, float_literal, fn_expr, identifier, identifier_expr,
    if_else, if_expr, if_plain, integer_literal, is_blank, is_digit, is_name_char,
    largest_magnitude, let_binding, let_plain, let_typed, list, lit, lit_ws, loop_expr, match_expr,
    member_expr, mul_div, mul_form, mul_op, name_end, paren_expr, pass, primary, program,
    range_bound, range_expr, sign, skip, stands_at, statements, statements_more, string_literal,
    struct_expr, type_alias, type_alias_generic, type_alias_plain, type_generic, typed_callee,
    until, ws_lit, ws_lit_ws,
};
use crate::token::{far_start, mark, token_text, Far, Token};

verus! {

/// Whether nothing can be skipped at `p`: the input ends there, or holds
/// there neither a blank nor the start of a comment.
pub open spec fn solid_at(s: Seq<char>, p: int) -> bool {
    p == s.len() || (!is_blank(s[p]) && s[p] != '(')
}

/// Where nothing can be skipped, `_` matches nothing.
#[verifier::spinoff_prover]
pub proof fn lemma_skip_stays(s: Seq<char>, p: int, far: Far)
    requires
        0 <= p <= s.len(),
        solid_at(s, p),
    ensures
        skip(s, p, far).value is Some,
        skip(s, p, far).end == p,
{
    reveal(skip);
    reveal(comment);
    lemma_lit_start(s, p, Token::CommentOpen);
}

/// One blank before something that cannot be skipped is all that `_` matches.
#[verifier::spinoff_prover]
pub proof fn lemma_skip_one_blank(s: Seq<char>, p: int, far: Far)
    requires
        0 <= p < s.len(),
        is_blank(s[p]),
        solid_at(s, p + 1),
    ensures
        skip(s, p, far).value is Some,
        skip(s, p, far).end == p + 1,
{
    reveal_with_fuel(skip, 2);
    reveal(comment);
    lemma_lit_start(s, p + 1, Token::CommentOpen);
    reveal_with_fuel(blanks_end, 3);
}

/// Whether `primary` matches `v` from `p` to the end of the input,
/// whatever failed before.
pub open spec fn primary_is(s: Seq<char>, p: int, v: Node) -> bool {
    forall|far: Far|
        (#[trigger] primary(s, p, far)).value == Some(v) && primary(s, p, far).end == s.len()
}

/// Whether `expr` matches `v` from `p` to the end of the input, whatever
/// failed before.
pub open spec fn expr_is(s: Seq<char>, p: int, v: Node) -> bool {
    forall|far: Far|
        (#[trigger] expr(s, p, far)).value == Some(v) && expr(s, p, far).end == s.len()
}

/// After a primary that reaches the end of the input no operator follows:
/// the forms with an operator do not match.
#[verifier::spinoff_prover]
pub proof fn lemma_no_operator_follows(s: Seq<char>, p: int, v: Node, far: Far)
    requires
        0 <= p < s.len(),
        primary_is(s, p, v),
    ensures
        mul_form(s, p, far).value is None,
        bit(s, p, far).value is None,
        compare_form(s, p, far).value is None,
{
    let n = s.len() as int;
    let first = primary(s, p, far);
    let gap = skip(s, n, first.far);
    lemma_skip_stays(s, n, first.far);
    lemma_mul_op_start(s, n, gap.far);
    lemma_bit_op_start(s, n, gap.far);
    lemma_compare_op_start(s, n, gap.far);
    reveal(mul_form);
    reveal(bit);
    reveal(compare_form);
    reveal(primary);
}

/// A primary that reaches the end of the input is the whole expression.
#[verifier::spinoff_prover]
pub proof fn lemma_compare_is_primary(s: Seq<char>, p: int, v: Node)
    requires
        0 <= p < s.len(),
        primary_is(s, p, v),
    ensures
        forall|far: Far|
            (#[trigger] compare(s, p, far)).value == Some(v) && compare(s, p, far).end == s.len(),
        forall|far: Far|
            (#[trigger] mul_div(s, p, far)).value == Some(v) && mul_div(s, p, far).end == s.len(),
{
    assert forall|far: Far|
        (#[trigger] compare(s, p, far)).value == Some(v) && compare(s, p, far).end
            == s.len() by {
        lemma_no_operator_follows(s, p, v, far);
        reveal(compare);
        reveal(compare_form);
        reveal(primary);
        assert(primary(s, p, compare_form(s, p, far).far).value == Some(v));
    }
    assert forall|far: Far|
        (#[trigger] mul_div(s, p, far)).value == Some(v) && mul_div(s, p, far).end
            == s.len() by {
        lemma_no_operator_follows(s, p, v, far);
        let after_mul = mul_form(s, p, far).far;
        lemma_no_operator_follows(s, p, v, after_mul);
        reveal(mul_div);
        reveal(mul_form);
        reveal(bit);
        reveal(compare);
        assert(compare(s, p, bit(s, p, after_mul).far).value == Some(v));
    }
}

/// A primary that reaches the end of the input is the whole expression.
#[verifier::spinoff_prover]
pub proof fn lemma_expr_is_primary(s: Seq<char>, p: int, v: Node)
    requires
        0 <= p < s.len(),
        primary_is(s, p, v),
    ensures
        expr_is(s, p, v),
{
    lemma_compare_is_primary(s, p, v);
    assert forall|far: Far|
        (#[trigger] expr(s, p, far)).value == Some(v) && expr(s, p, far).end == s.len() by {
        let n = s.len() as int;
        let lhs = mul_div(s, p, far);
        lemma_skip_stays(s, n, lhs.far);
        lemma_add_op_start(s, n, skip(s, n, lhs.far).far);
        reveal(add_form);
        reveal(mul_div);
        assert(add_form(s, p, far).value is None);
        reveal(add_sub);
        assert(mul_div(s, p, add_form(s, p, far).far).value == Some(v));
        assert(add_sub(s, p, far).value == Some(v) && add_sub(s, p, far).end == n);
        reveal(expr);
    }
}

/// A source that is one expression from its start to its end, with
/// nothing to skip in front, is the program of that expression.
#[verifier::spinoff_prover]
pub proof fn lemma_program_of_one(s: Seq<char>, v: Node)
    requires
        0 < s.len(),
        solid_at(s, 0),
        expr_is(s, 0, v),
    ensures
        program(s).value == Some(Node::Program(seq![v])),
{
    let n = s.len() as int;
    lemma_skip_stays(s, 0, far_start());
    let lead = skip(s, 0, far_start());
    let first = expr(s, 0, lead.far);
    assert(first.value == Some(v) && first.end == n);
    lemma_skip_stays(s, n, first.far);
    let gap = skip(s, n, first.far);
    lemma_expr_start(s, n, gap.far);
    reveal(statements);
    reveal(statements_more);
    reveal(expr);
    let items = statements(s, 0, lead.far);
    assert(items.value->0 =~= seq![v]);
    assert(items.end == n);
    lemma_skip_stays(s, n, items.far);
}

/// Where what follows a name that ends at `q` starts: behind one blank, or
/// at `q` itself.
pub open spec fn next_after(s: Seq<char>, q: int) -> int {
    if 0 <= q < s.len() && is_blank(s[q]) {
        q + 1
    } else {
        q
    }
}

/// Whether `c` starts what makes more of a name: a path, a call, generic
/// arguments, an assignment or a range.
pub open spec fn follows_a_name(c: char) -> bool {
    c == '.' || c == '=' || c == '<' || c == '('
}

/// Whether a name stands from `p` up to `q` and nothing that a path, a
/// call, an assignment or a range needs comes after it: behind the name,
/// and one blank if there is one, the input ends or holds a character that
/// is no blank and starts neither a comment nor any of these.
pub open spec fn bare_name(s: Seq<char>, p: int, q: int) -> bool {
    &&& 0 <= p < q <= s.len()
    &&& name_end(s, p) == q
    &&& solid_at(s, next_after(s, q))
    &&& (next_after(s, q) == s.len() || !follows_a_name(s[next_after(s, q)]))
}

/// After a bare name none of the literals follows that make more of a name.
#[verifier::spinoff_prover]
pub proof fn lemma_not_next(s: Seq<char>, p: int, q: int, token: Token, far: Far)
    requires
        bare_name(s, p, q),
        follows_a_name(token_first(token)),
    ensures
        lit(s, q, token, far).value is None,
        lit_ws(s, q, token, far).value is None,
        ws_lit_ws(s, q, token, far).value is None,
        skip(s, q, far).value is Some,
        skip(s, q, far).end == next_after(s, q),
        lit_ws(s, skip(s, q, far).end, token, skip(s, q, far).far).value is None,
{
    let r = next_after(s, q);
    lemma_lit_start(s, q, token);
    if r == q {
        lemma_skip_stays(s, q, far);
    } else {
        lemma_skip_one_blank(s, q, far);
        lemma_lit_start(s, r, token);
    }
    reveal(ws_lit_ws);
}

/// The name in value position that a bare name is.
#[verifier::spinoff_prover]
pub proof fn lemma_bare_name_is_a_name(s: Seq<char>, p: int, q: int, far: Far)
    requires
        bare_name(s, p, q),
    ensures
        identifier(s, p, far).value == Some(s.subrange(p, q)),
        identifier(s, p, far).end == q,
        identifier(s, p, far).far == far,
        identifier_expr(s, p, far).value == Some(Node::Var(s.subrange(p, q))),
        identifier_expr(s, p, far).end == q,
        identifier_expr(s, p, far).far == far,
        is_name_char(s[p]),
{
    reveal(identifier);
    reveal(identifier_expr);
}

/// A bare name is no path.
#[verifier::spinoff_prover]
pub proof fn lemma_bare_name_is_no_path(s: Seq<char>, p: int, q: int, far: Far)
    requires
        bare_name(s, p, q),
    ensures
        member_expr(s, p, far).value is None,
{
    lemma_bare_name_is_a_name(s, p, q, far);
    lemma_not_next(s, p, q, Token::Dot, far);
    reveal(member_expr);
}

/// A bare name is no assignment.
#[verifier::spinoff_prover]
pub proof fn lemma_bare_name_is_no_assignment(s: Seq<char>, p: int, q: int, far: Far)
    requires
        bare_name(s, p, q),
    ensures
        assign(s, p, far).value is None,
{
    lemma_bare_name_is_no_path(s, p, q, far);
    let after = member_expr(s, p, far).far;
    lemma_bare_name_is_a_name(s, p, q, after);
    lemma_not_next(s, p, q, Token::Assign, after);
    reveal(assign);
    reveal(assignable);
    reveal(member_expr);
}

/// A bare name is no call.
#[verifier::spinoff_prover]
pub proof fn lemma_bare_name_is_no_call(s: Seq<char>, p: int, q: int, far: Far)
    requires
        bare_name(s, p, q),
    ensures
        call_expr(s, p, far).value is None,
{
    lemma_bare_name_is_a_name(s, p, q, far);
    lemma_fn_expr_start(s, p, far);
    let after_fn = fn_expr(s, p, far).far;
    lemma_bare_name_is_a_name(s, p, q, after_fn);
    lemma_not_next(s, p, q, Token::LParen, after_fn);
    reveal(callee);
    reveal(fn_expr);
    reveal(member_expr);
    reveal(call_plain);
    assert(call_plain(s, p, far).value is None);
    let after_plain = call_plain(s, p, far).far;
    lemma_bare_name_is_a_name(s, p, q, after_plain);
    lemma_not_next(s, p, q, Token::Less, after_plain);
    reveal(typed_callee);
    reveal(type_generic);
    reveal(call_typed);
    assert(call_typed(s, p, after_plain).value is None);
    reveal(call_expr);
}

/// A bare name is no range.
#[verifier::spinoff_prover]
pub proof fn lemma_bare_name_is_no_range(s: Seq<char>, p: int, q: int, far: Far)
    requires
        bare_name(s, p, q),
    ensures
        range_expr(s, p, far).value is None,
{
    lemma_bare_name_is_a_name(s, p, q, far);
    lemma_integer_literal_start(s, p, far);
    let after = integer_literal(s, p, far).far;
    lemma_bare_name_is_a_name(s, p, q, after);
    lemma_not_next(s, p, q, Token::DotDot, after);
    reveal(range_expr);
    reveal(range_bound);
}

/// A rule that starts with a word does not match where the word does not stand.
#[verifier::spinoff_prover]
pub proof fn lemma_word_absent(s: Seq<char>, p: int)
    requires
        0 <= p <= s.len(),
    ensures
        !stands_at(s, p, Token::Match) ==> forall|far: Far|
            (#[trigger] match_expr(s, p, far)).value is None,
        !stands_at(s, p, Token::Struct) ==> forall|far: Far|
            (#[trigger] struct_expr(s, p, far)).value is None,
        !stands_at(s, p, Token::Type) ==> forall|far: Far|
            (#[trigger] type_alias(s, p, far)).value is None,
        !stands_at(s, p, Token::For) ==> forall|far: Far|
            (#[trigger] loop_expr(s, p, far)).value is None,
        !stands_at(s, p, Token::If) ==> forall|far: Far|
            (#[trigger] if_expr(s, p, far)).value is None,
        !stands_at(s, p, Token::Let) ==> forall|far: Far|
            (#[trigger] let_binding(s, p, far)).value is None,
        !stands_at(s, p, Token::Pass) ==> forall|far: Far|
            (#[trigger] pass(s, p, far)).value is None,
{
    reveal(lit);
    reveal(lit_ws);
    assert forall|far: Far| !stands_at(s, p, Token::Match) implies (#[trigger] match_expr(
        s,
        p,
        far,
    )).value is None by {
        reveal(match_expr);
    }
    assert forall|far: Far| !stands_at(s, p, Token::Struct) implies (#[trigger] struct_expr(
        s,
        p,
        far,
    )).value is None by {
        reveal(struct_expr);
    }
    assert forall|far: Far| !stands_at(s, p, Token::Type) implies (#[trigger] type_alias(
        s,
        p,
        far,
    )).value is None by {
        reveal(type_alias);
        reveal(type_alias_plain);
        reveal(type_alias_generic);
    }
    assert forall|far: Far| !stands_at(s, p, Token::For) implies (#[trigger] loop_expr(
        s,
        p,
        far,
    )).value is None by {
        reveal(loop_expr);
    }
    assert forall|far: Far| !stands_at(s, p, Token::If) implies (#[trigger] if_expr(
        s,
        p,
        far,
    )).value is None by {
        reveal(if_expr);
        reveal(if_plain);
        reveal(if_else);
    }
    assert forall|far: Far| !stands_at(s, p, Token::Let) implies (#[trigger] let_binding(
        s,
        p,
        far,
    )).value is None by {
        reveal(let_binding);
        reveal(let_plain);
        reveal(let_typed);
    }
    assert forall|far: Far| !stands_at(s, p, Token::Pass) implies (#[trigger] pass(
        s,
        p,
        far,
    )).value is None by {
        reveal(pass);
    }
}

/// Whether none of the words `match`, `struct`, `type`, `for` and `if` stands at `p`.
pub open spec fn no_statement_word(s: Seq<char>, p: int) -> bool {
    &&& !stands_at(s, p, Token::Match)
    &&& !stands_at(s, p, Token::Struct)
    &&& !stands_at(s, p, Token::Type)
    &&& !stands_at(s, p, Token::For)
    &&& !stands_at(s, p, Token::If)
}

/// Whether the alternatives of `primary` before the binding do not match at `p`.
pub open spec fn nothing_before_let(s: Seq<char>, p: int) -> bool {
    &&& forall|far: Far| (#[trigger] assign(s, p, far)).value is None
    &&& forall|far: Far| (#[trigger] paren_expr(s, p, far)).value is None
    &&& forall|far: Far| (#[trigger] directive_expr(s, p, far)).value is None
    &&& forall|far: Far| (#[trigger] match_expr(s, p, far)).value is None
    &&& forall|far: Far| (#[trigger] struct_expr(s, p, far)).value is None
    &&& forall|far: Far| (#[trigger] type_alias(s, p, far)).value is None
    &&& forall|far: Far| (#[trigger] call_expr(s, p, far)).value is None
    &&& forall|far: Far| (#[trigger] range_expr(s, p, far)).value is None
    &&& forall|far: Far| (#[trigger] member_expr(s, p, far)).value is None
    &&& forall|far: Far| (#[trigger] loop_expr(s, p, far)).value is None
    &&& forall|far: Far| (#[trigger] if_expr(s, p, far)).value is None
    &&& forall|far: Far| (#[trigger] fn_expr(s, p, far)).value is None
}

/// A bare name that is none of the words that start a statement is
/// nothing that `primary` tries before the binding.
#[verifier::spinoff_prover]
pub proof fn lemma_bare_name_before_let(s: Seq<char>, p: int, q: int)
    requires
        bare_name(s, p, q),
        no_statement_word(s, p),
    ensures
        nothing_before_let(s, p),
{
    lemma_word_absent(s, p);
    assert(is_name_char(s[p])) by {
        lemma_bare_name_is_a_name(s, p, q, far_start());
    }
    assert forall|far: Far| (#[trigger] assign(s, p, far)).value is None by {
        lemma_bare_name_is_no_assignment(s, p, q, far);
    }
    assert forall|far: Far| (#[trigger] paren_expr(s, p, far)).value is None by {
        lemma_paren_expr_start(s, p, far);
    }
    assert forall|far: Far| (#[trigger] directive_expr(s, p, far)).value is None by {
        lemma_directive_expr_start(s, p, far);
    }
    assert forall|far: Far| (#[trigger] call_expr(s, p, far)).value is None by {
        lemma_bare_name_is_no_call(s, p, q, far);
    }
    assert forall|far: Far| (#[trigger] range_expr(s, p, far)).value is None by {
        lemma_bare_name_is_no_range(s, p, q, far);
    }
    assert forall|far: Far| (#[trigger] member_expr(s, p, far)).value is None by {
        lemma_bare_name_is_no_path(s, p, q, far);
    }
    assert forall|far: Far| (#[trigger] fn_expr(s, p, far)).value is None by {
        lemma_fn_expr_start(s, p, far);
    }
}

/// Whether a literal other than a boolean can start with `c`: a digit, a
/// sign or a quotation mark.
pub open spec fn starts_plain_literal(c: char) -> bool {
    is_digit(c) || c == '-' || c == '"' || c == '\''
}

/// At the first character of a number, a string or a character literal
/// nothing matches that `primary` tries before the binding, but perhaps a range.
#[verifier::spinoff_prover]
pub proof fn lemma_literal_before_let(s: Seq<char>, p: int)
    requires
        0 <= p < s.len(),
        starts_plain_literal(s[p]),
        forall|far: Far| (#[trigger] range_expr(s, p, far)).value is None,
    ensures
        nothing_before_let(s, p),
        forall|far: Far| (#[trigger] let_binding(s, p, far)).value is None,
        forall|far: Far| (#[trigger] pass(s, p, far)).value is None,
        forall|far: Far| (#[trigger] bool_literal(s, p, far)).value is None,
{
    assert forall|far: Far| (#[trigger] assign(s, p, far)).value is None by {
        lemma_assign_start(s, p, far);
    }
    assert forall|far: Far| (#[trigger] paren_expr(s, p, far)).value is None by {
        lemma_paren_expr_start(s, p, far);
    }
    assert forall|far: Far| (#[trigger] directive_expr(s, p, far)).value is None by {
        lemma_directive_expr_start(s, p, far);
    }
    assert forall|far: Far| (#[trigger] match_expr(s, p, far)).value is None by {
        lemma_match_expr_start(s, p, far);
    }
    assert forall|far: Far| (#[trigger] struct_expr(s, p, far)).value is None by {
        lemma_struct_expr_start(s, p, far);
    }
    assert forall|far: Far| (#[trigger] type_alias(s, p, far)).value is None by {
        lemma_type_alias_start(s, p, far);
    }
    assert forall|far: Far| (#[trigger] call_expr(s, p, far)).value is None by {
        lemma_call_expr_start(s, p, far);
    }
    assert forall|far: Far| (#[trigger] member_expr(s, p, far)).value is None by {
        lemma_member_expr_start(s, p, far);
    }
    assert forall|far: Far| (#[trigger] loop_expr(s, p, far)).value is None by {
        lemma_loop_expr_start(s, p, far);
    }
    assert forall|far: Far| (#[trigger] if_expr(s, p, far)).value is None by {
        lemma_if_expr_start(s, p, far);
    }
    assert forall|far: Far| (#[trigger] fn_expr(s, p, far)).value is None by {
        lemma_fn_expr_start(s, p, far);
    }
    assert forall|far: Far| (#[trigger] let_binding(s, p, far)).value is None by {
        lemma_let_binding_start(s, p, far);
    }
    assert forall|far: Far| (#[trigger] pass(s, p, far)).value is None by {
        lemma_pass_start(s, p, far);
    }
    assert forall|far: Far| (#[trigger] bool_literal(s, p, far)).value is None by {
        lemma_bool_literal_start(s, p, far);
    }
}

/// A search that meets `stop` first at `b` ends at `b`.
pub proof fn lemma_until_meets(s: Seq<char>, a: int, b: int, stop: char)
    requires
        0 <= a <= b <= s.len(),
        forall|i: int| a <= i < b ==> s[i] != stop,
        b == s.len() || s[b] == stop,
    ensures
        until(s, a, stop) == b,
    decreases b - a,
{
    if a < b {
        lemma_until_meets(s, a + 1, b, stop);
    }
}

/// A run of digits from `a` up to `b`, where no digit stands, ends at `b`.
pub proof fn lemma_digits_run(s: Seq<char>, a: int, b: int)
    requires
        0 <= a <= b <= s.len(),
        forall|i: int| a <= i < b ==> is_digit(s[i]),
        b == s.len() || !is_digit(s[b]),
    ensures
        digits_end(s, a) == b,
    decreases b - a,
{
    if a < b {
        lemma_digits_run(s, a + 1, b);
    }
}

/// A run of name characters from `a` up to `b`, where none stands, ends at `b`.
pub proof fn lemma_name_run(s: Seq<char>, a: int, b: int)
    requires
        0 <= a <= b <= s.len(),
        forall|i: int| a <= i < b ==> is_name_char(s[i]),
        b == s.len() || !is_name_char(s[b]),
    ensures
        name_end(s, a) == b,
    decreases b - a,
{
    if a < b {
        lemma_name_run(s, a + 1, b);
    }
}

/// A literal stands where its text is.
pub proof fn lemma_lit_stands(s: Seq<char>, p: int, token: Token, far: Far)
    requires
        0 <= p,
        p + token_text(token).len() <= s.len(),
        token_text(token).len() > 0,
        s.subrange(p, p + token_text(token).len()) == token_text(token),
    ensures
        lit(s, p, token, far).value is Some,
        lit(s, p, token, far).end == p + token_text(token).len(),
        lit(s, p, token, far).far == far,
{
    reveal(lit);
}

/// Whether `primary` tries the literals at `p`: nothing before them matches.
pub open spec fn literals_are_next(s: Seq<char>, p: int) -> bool {
    &&& nothing_before_let(s, p)
    &&& forall|far: Far| (#[trigger] let_binding(s, p, far)).value is None
    &&& forall|far: Far| (#[trigger] pass(s, p, far)).value is None
}

/// Where the literals are next and one of them matches to the end of the
/// input after those before it have failed, that is what `primary` matches.
/// The literals are tried in the order boolean, floating-point, integer,
/// string, character; `rank` is the place of the one that matches.
#[verifier::spinoff_prover]
pub proof fn lemma_primary_is_literal(s: Seq<char>, p: int, v: Node, rank: int)
    requires
        0 <= p < s.len(),
        literals_are_next(s, p),
        0 <= rank <= 4,
        rank > 0 ==> forall|far: Far| (#[trigger] bool_literal(s, p, far)).value is None,
        rank > 1 ==> forall|far: Far| (#[trigger] float_literal(s, p, far)).value is None,
        rank > 2 ==> forall|far: Far| (#[trigger] integer_literal(s, p, far)).value is None,
        rank > 3 ==> forall|far: Far| (#[trigger] string_literal(s, p, far)).value is None,
        rank == 0 ==> forall|far: Far|
            (#[trigger] bool_literal(s, p, far)).value == Some(v) && bool_literal(s, p, far).end
                == s.len(),
        rank == 1 ==> forall|far: Far|
            (#[trigger] float_literal(s, p, far)).value == Some(v) && float_literal(
                s,
                p,
                far,
            ).end == s.len(),
        rank == 2 ==> forall|far: Far|
            (#[trigger] integer_literal(s, p, far)).value == Some(v) && integer_literal(
                s,
                p,
                far,
            ).end == s.len(),
        rank == 3 ==> forall|far: Far|
            (#[trigger] string_literal(s, p, far)).value == Some(v) && string_literal(
                s,
                p,
                far,
            ).end == s.len(),
        rank == 4 ==> forall|far: Far|
            (#[trigger] char_literal(s, p, far)).value == Some(v) && char_literal(s, p, far).end
                == s.len(),
    ensures
        primary_is(s, p, v),
{
    assert forall|far: Far|
        (#[trigger] primary(s, p, far)).value == Some(v) && primary(s, p, far).end
            == s.len() by {
        let alt0 = assign(s, p, far);
        let alt1 = paren_expr(s, p, alt0.far);
        let alt2 = directive_expr(s, p, alt1.far);
        let alt3 = match_expr(s, p, alt2.far);
        let alt4 = struct_expr(s, p, alt3.far);
        let alt5 = type_alias(s, p, alt4.far);
        let alt6 = call_expr(s, p, alt5.far);
        let alt7 = range_expr(s, p, alt6.far);
        let alt8 = member_expr(s, p, alt7.far);
        let alt9 = loop_expr(s, p, alt8.far);
        let alt10 = if_expr(s, p, alt9.far);
        let alt11 = fn_expr(s, p, alt10.far);
        let alt12 = let_binding(s, p, alt11.far);
        let alt13 = pass(s, p, alt12.far);
        let alt14 = bool_literal(s, p, alt13.far);
        let alt15 = float_literal(s, p, alt14.far);
        let alt16 = integer_literal(s, p, alt15.far);
        let alt17 = string_literal(s, p, alt16.far);
        let alt18 = char_literal(s, p, alt17.far);
        reveal(primary);
        reveal(assign);
        reveal(paren_expr);
        reveal(directive_expr);
        reveal(match_expr);
        reveal(struct_expr);
        reveal(type_alias);
        reveal(call_expr);
        reveal(member_expr);
        reveal(loop_expr);
        reveal(if_expr);
        reveal(fn_expr);
        reveal(let_binding);
    }
}

/// Where the binding is next and matches to the end of the input, it is
/// what `primary` matches.
#[verifier::spinoff_prover]
pub proof fn lemma_primary_is_binding(s: Seq<char>, p: int, v: Node)
    requires
        0 <= p < s.len(),
        nothing_before_let(s, p),
        forall|far: Far|
            (#[trigger] let_binding(s, p, far)).value == Some(v) && let_binding(s, p, far).end
                == s.len(),
    ensures
        primary_is(s, p, v),
{
    assert forall|far: Far|
        (#[trigger] primary(s, p, far)).value == Some(v) && primary(s, p, far).end
            == s.len() by {
        let alt0 = assign(s, p, far);
        let alt1 = paren_expr(s, p, alt0.far);
        let alt2 = directive_expr(s, p, alt1.far);
        let alt3 = match_expr(s, p, alt2.far);
        let alt4 = struct_expr(s, p, alt3.far);
        let alt5 = type_alias(s, p, alt4.far);
        let alt6 = call_expr(s, p, alt5.far);
        let alt7 = range_expr(s, p, alt6.far);
        let alt8 = member_expr(s, p, alt7.far);
        let alt9 = loop_expr(s, p, alt8.far);
        let alt10 = if_expr(s, p, alt9.far);
        let alt11 = fn_expr(s, p, alt10.far);
        let alt12 = let_binding(s, p, alt11.far);
        reveal(primary);
        reveal(assign);
        reveal(paren_expr);
        reveal(directive_expr);
        reveal(match_expr);
        reveal(struct_expr);
        reveal(type_alias);
        reveal(call_expr);
        reveal(member_expr);
        reveal(loop_expr);
        reveal(if_expr);
        reveal(fn_expr);
        reveal(let_binding);
    }
}

/// The text `let x = `.
pub open spec fn binding_head() -> Seq<char> {
    "let x = "@
}

/// A source that is `let x = ` and then an expression to its end, with
/// nothing to skip in front of the expression, is the binding of that
/// expression to `x`.
#[verifier::spinoff_prover]
pub proof fn lemma_binding_of(s: Seq<char>, v: Node)
    requires
        s.len() > 8,
        s.subrange(0, 8) == binding_head(),
        solid_at(s, 8),
        expr_is(s, 8, v),
    ensures
        expr_is(s, 0, Node::Let("x"@, Box::new(v))),
        solid_at(s, 0),
{
    reveal_strlit("let x = ");
    reveal_strlit("let");
    reveal_strlit("x");
    reveal_strlit("=");
    reveal_strlit("match");
    reveal_strlit("struct");
    reveal_strlit("type");
    reveal_strlit("for");
    reveal_strlit("if");
    let head = s.subrange(0, 8);
    assert(forall|i: int| 0 <= i < 8 ==> s[i] == head[i]);
    assert(s[0] == 'l' && s[1] == 'e' && s[2] == 't' && s[3] == ' ' && s[4] == 'x' && s[5] == ' '
        && s[6] == '=' && s[7] == ' ');
    lemma_name_run(s, 0, 3);
    lemma_name_run(s, 4, 5);
    assert(bare_name(s, 0, 3));
    assert(no_statement_word(s, 0)) by {
        lemma_lit_start(s, 0, Token::Match);
        lemma_lit_start(s, 0, Token::Struct);
        lemma_lit_start(s, 0, Token::Type);
        lemma_lit_start(s, 0, Token::For);
        lemma_lit_start(s, 0, Token::If);
    }
    lemma_bare_name_before_let(s, 0, 3);
    let bound = Node::Let("x"@, Box::new(v));
    assert forall|far: Far|
        (#[trigger] let_binding(s, 0, far)).value == Some(bound) && let_binding(s, 0, far).end
            == s.len() by {
        assert(s.subrange(0, 3) =~= "let"@);
        lemma_lit_stands(s, 0, Token::Let, far);
        lemma_skip_one_blank(s, 3, far);
        let a = skip(s, 3, far);
        reveal(identifier);
        assert(s.subrange(4, 5) =~= "x"@);
        lemma_skip_one_blank(s, 5, a.far);
        let b = skip(s, 5, a.far);
        assert(s.subrange(6, 7) =~= "="@);
        lemma_lit_stands(s, 6, Token::Assign, b.far);
        lemma_skip_one_blank(s, 7, b.far);
        let c = skip(s, 7, b.far);
        assert(expr(s, 8, c.far).value == Some(v));
        reveal(lit_ws);
        reveal(ws_lit_ws);
        reveal(let_plain);
        reveal(expr);
        assert(let_plain(s, 0, far).value == Some(bound));
        assert(let_plain(s, 0, far).end == s.len());
        reveal(let_binding);
    }
    lemma_primary_is_binding(s, 0, bound);
    lemma_expr_is_primary(s, 0, bound);
}

/// A string literal from `p` to the end of the input is what `primary` matches there.
#[verifier::spinoff_prover]
pub proof fn lemma_string_at(s: Seq<char>, p: int, content: Seq<char>)
    requires
        0 <= p,
        s.len() == p + content.len() + 2,
        s[p] == '"',
        s[s.len() - 1] == '"',
        s.subrange(p + 1, s.len() - 1) == content,
        forall|i: int| 0 <= i < content.len() ==> content[i] != '"',
    ensures
        primary_is(s, p, Node::String(content)),
        solid_at(s, p),
{
    let n = s.len() as int;
    reveal_strlit("\"");
    assert(forall|i: int| p + 1 <= i < n - 1 ==> s[i] == content[i - (p + 1)]);
    lemma_until_meets(s, p + 1, n - 1, '"');
    assert(s.subrange(p, p + 1) =~= "\""@);
    assert(s.subrange(n - 1, n) =~= "\""@);
    assert forall|far: Far| (#[trigger] range_expr(s, p, far)).value is None by {
        lemma_range_expr_start(s, p, far);
    }
    lemma_literal_before_let(s, p);
    assert forall|far: Far| (#[trigger] float_literal(s, p, far)).value is None by {
        lemma_float_literal_start(s, p, far);
    }
    assert forall|far: Far| (#[trigger] integer_literal(s, p, far)).value is None by {
        lemma_integer_literal_start(s, p, far);
    }
    assert forall|far: Far|
        (#[trigger] string_literal(s, p, far)).value == Some(Node::String(content))
            && string_literal(s, p, far).end == n by {
        lemma_lit_stands(s, p, Token::Quote, far);
        lemma_lit_stands(s, n - 1, Token::Quote, mark(far, n - 1, Token::NotQuote));
        reveal(string_literal);
    }
    lemma_primary_is_literal(s, p, Node::String(content), 3);
}

/// A character literal from `p` to the end of the input is what `primary` matches there.
#[verifier::spinoff_prover]
pub proof fn lemma_char_at(s: Seq<char>, p: int, c: char)
    requires
        0 <= p,
        s.len() == p + 3,
        s[p] == '\'',
        s[p + 1] == c,
        s[p + 2] == '\'',
        c != '\'',
    ensures
        primary_is(s, p, Node::Char(c)),
        solid_at(s, p),
{
    let n = s.len() as int;
    reveal_strlit("'");
    assert(s.subrange(p, p + 1) =~= "'"@);
    assert(s.subrange(p + 2, p + 3) =~= "'"@);
    assert forall|far: Far| (#[trigger] range_expr(s, p, far)).value is None by {
        lemma_range_expr_start(s, p, far);
    }
    lemma_literal_before_let(s, p);
    assert forall|far: Far| (#[trigger] float_literal(s, p, far)).value is None by {
        lemma_float_literal_start(s, p, far);
    }
    assert forall|far: Far| (#[trigger] integer_literal(s, p, far)).value is None by {
        lemma_integer_literal_start(s, p, far);
    }
    assert forall|far: Far| (#[trigger] string_literal(s, p, far)).value is None by {
        lemma_string_literal_start(s, p, far);
    }
    assert forall|far: Far|
        (#[trigger] char_literal(s, p, far)).value == Some(Node::Char(c)) && char_literal(
            s,
            p,
            far,
        ).end == n by {
        lemma_lit_stands(s, p, Token::Apostrophe, far);
        lemma_lit_stands(s, p + 2, Token::Apostrophe, far);
        reveal(char_literal);
    }
    lemma_primary_is_literal(s, p, Node::Char(c), 4);
}

/// The text of a boolean literal.
pub open spec fn bool_text(b: bool) -> Seq<char> {
    if b {
        "true"@
    } else {
        "false"@
    }
}

/// A boolean literal from `p` to the end of the input is what `primary` matches there.
#[verifier::spinoff_prover]
pub proof fn lemma_bool_at(s: Seq<char>, p: int, b: bool)
    requires
        0 <= p,
        s.len() == p + bool_text(b).len(),
        s.subrange(p, s.len() as int) == bool_text(b),
    ensures
        primary_is(s, p, Node::Bool(b)),
        solid_at(s, p),
{
    let n = s.len() as int;
    reveal_strlit("true");
    reveal_strlit("false");
    reveal_strlit("type");
    reveal_strlit("for");
    let text = bool_text(b);
    assert(forall|i: int| 0 <= i < text.len() ==> s[p + i] == s.subrange(p, n)[i]);
    assert(forall|i: int| p <= i < n ==> is_name_char(s[i])) by {
        assert forall|i: int| p <= i < n implies is_name_char(s[i]) by {
            assert(s[i] == text[i - p]);
        }
    }
    lemma_name_run(s, p, n);
    assert(bare_name(s, p, n));
    assert(s[p] == text[0] && s[p + 1] == text[1]) by {
        assert(s.subrange(p, n)[0] == s[p]);
        assert(s.subrange(p, n)[1] == s[p + 1]);
    }
    assert(s[p] == if b {
        't'
    } else {
        'f'
    });
    assert(no_statement_word(s, p)) by {
        lemma_lit_start(s, p, Token::Match);
        lemma_lit_start(s, p, Token::Struct);
        lemma_lit_start(s, p, Token::If);
        if b {
            lemma_lit_start(s, p, Token::For);
            if stands_at(s, p, Token::Type) {
                assert(s.subrange(p, p + 4)[1] == 'y');
            }
        } else {
            lemma_lit_start(s, p, Token::Type);
            if stands_at(s, p, Token::For) {
                assert(s.subrange(p, p + 3)[1] == 'o');
            }
        }
    }
    lemma_bare_name_before_let(s, p, n);
    lemma_word_absent(s, p);
    lemma_lit_start(s, p, Token::Let);
    lemma_lit_start(s, p, Token::Pass);
    assert forall|far: Far|
        (#[trigger] bool_literal(s, p, far)).value == Some(Node::Bool(b)) && bool_literal(
            s,
            p,
            far,
        ).end == n by {
        reveal(bool_literal);
        if b {
            lemma_lit_stands(s, p, Token::True, far);
        } else {
            lemma_lit_start(s, p, Token::True);
            lemma_lit_stands(s, p, Token::False, lit(s, p, Token::True, far).far);
        }
    }
    lemma_primary_is_literal(s, p, Node::Bool(b), 0);
}

/// The sign of a numeral: `-` for a negative one, nothing otherwise.
pub open spec fn sign_text(negative: bool) -> Seq<char> {
    if negative {
        seq!['-']
    } else {
        Seq::empty()
    }
}

/// Whether every character is a digit.
pub open spec fn all_digits(ds: Seq<char>) -> bool {
    forall|i: int| 0 <= i < ds.len() ==> is_digit(#[trigger] ds[i])
}

/// The sign of a numeral that stands at `p`, and the digits after it.
#[verifier::spinoff_prover]
pub proof fn lemma_sign_and_digits(
    s: Seq<char>,
    p: int,
    negative: bool,
    ds: Seq<char>,
    end: int,
    far: Far,
)
    requires
        0 <= p,
        ds.len() > 0,
        all_digits(ds),
        end == p + sign_text(negative).len() + ds.len(),
        end <= s.len(),
        s.subrange(p, end) == sign_text(negative) + ds,
        end == s.len() || !is_digit(s[end]),
    ensures
        sign(s, p, far).value == Some(negative),
        sign(s, p, far).end == p + sign_text(negative).len(),
        digits(s, sign(s, p, far).end, sign(s, p, far).far).value == Some(ds),
        digits(s, sign(s, p, far).end, sign(s, p, far).far).end == end,
        starts_plain_literal(s[p]),
        !is_name_char(s[p]),
{
    reveal_strlit("-");
    let start = p + sign_text(negative).len();
    let text = sign_text(negative) + ds;
    assert(forall|i: int| 0 <= i < text.len() ==> s[p + i] == #[trigger] s.subrange(p, end)[i]);
    assert forall|i: int| start <= i < end implies is_digit(s[i]) by {
        assert(s[i] == s.subrange(p, end)[i - p]);
        assert(text[i - p] == ds[i - start]);
    }
    assert(s[p] == s.subrange(p, end)[0]);
    lemma_digits_run(s, start, end);
    assert forall|k: int| 0 <= k < ds.len() implies s.subrange(start, end)[k] == ds[k] by {
        assert(s[start + k] == s.subrange(p, end)[start + k - p]);
        assert(text[start + k - p] == ds[k]);
    }
    assert(s.subrange(start, end) =~= ds);
    reveal(sign);
    reveal(digits);
    if negative {
        assert(s.subrange(p, p + 1) =~= "-"@);
        lemma_lit_stands(s, p, Token::Minus, far);
    } else {
        assert(text[0] == ds[0]);
        lemma_lit_start(s, p, Token::Minus);
    }
}

/// An integer literal from `p` to the end of the input is what `primary` matches there.
#[verifier::spinoff_prover]
pub proof fn lemma_integer_at(s: Seq<char>, p: int, negative: bool, ds: Seq<char>)
    requires
        0 <= p,
        ds.len() > 0,
        all_digits(ds),
        digits_value(ds) <= largest_magnitude(negative),
        s.len() == p + sign_text(negative).len() + ds.len(),
        s.subrange(p, s.len() as int) == sign_text(negative) + ds,
    ensures
        primary_is(
            s,
            p,
            Node::Int(
                if negative {
                    -digits_value(ds)
                } else {
                    digits_value(ds) as int
                },
            ),
        ),
        solid_at(s, p),
{
    let n = s.len() as int;
    let v = Node::Int(
        if negative {
            -digits_value(ds)
        } else {
            digits_value(ds) as int
        },
    );
    lemma_sign_and_digits(s, p, negative, ds, n, far_start());
    assert forall|far: Far|
        (#[trigger] integer_literal(s, p, far)).value == Some(v) && integer_literal(
            s,
            p,
            far,
        ).end == n by {
        lemma_sign_and_digits(s, p, negative, ds, n, far);
        reveal(integer_literal);
    }
    assert forall|far: Far| (#[trigger] range_expr(s, p, far)).value is None by {
        lemma_lit_start(s, n, Token::DotDot);
        reveal(range_expr);
        reveal(range_bound);
    }
    lemma_literal_before_let(s, p);
    assert forall|far: Far| (#[trigger] float_literal(s, p, far)).value is None by {
        lemma_sign_and_digits(s, p, negative, ds, n, far);
        lemma_lit_start(s, n, Token::Dot);
        reveal(float_literal);
    }
    lemma_primary_is_literal(s, p, v, 2);
}

/// A floating-point literal from `p` to the end of the input is what
/// `primary` matches there.
#[verifier::spinoff_prover]
pub proof fn lemma_float_at(
    s: Seq<char>,
    p: int,
    negative: bool,
    whole: Seq<char>,
    fraction: Seq<char>,
)
    requires
        0 <= p,
        whole.len() > 0,
        all_digits(whole),
        all_digits(fraction),
        s.len() == p + sign_text(negative).len() + whole.len() + 1 + fraction.len(),
        s.subrange(p, s.len() as int) == sign_text(negative) + whole + seq!['.'] + fraction,
    ensures
        primary_is(s, p, Node::Float(decimal_text(negative, whole, fraction))),
        solid_at(s, p),
{
    let n = s.len() as int;
    let dot = p + sign_text(negative).len() + whole.len();
    let v = Node::Float(decimal_text(negative, whole, fraction));
    let text = sign_text(negative) + whole + seq!['.'] + fraction;
    reveal_strlit(".");
    reveal_strlit("..");
    assert(forall|i: int| 0 <= i < text.len() ==> s[p + i] == #[trigger] s.subrange(p, n)[i]);
    assert(s[dot] == '.') by {
        assert(s[dot] == s.subrange(p, n)[dot - p]);
    }
    assert forall|i: int| dot + 1 <= i < n implies is_digit(s[i]) by {
        assert(s[i] == s.subrange(p, n)[i - p]);
        assert(text[i - p] == fraction[i - (dot + 1)]);
    }
    assert forall|k: int| 0 <= k < dot - p implies s.subrange(p, dot)[k] == (sign_text(negative)
        + whole)[k] by {
        assert(s[p + k] == s.subrange(p, n)[k]);
        assert(text[k] == (sign_text(negative) + whole)[k]);
    }
    assert(s.subrange(p, dot) =~= sign_text(negative) + whole);
    assert forall|k: int| 0 <= k < fraction.len() implies s.subrange(dot + 1, n)[k]
        == fraction[k] by {
        assert(s[dot + 1 + k] == s.subrange(p, n)[dot + 1 + k - p]);
        assert(text[dot + 1 + k - p] == fraction[k]);
    }
    assert(s.subrange(dot + 1, n) =~= fraction);
    assert(s.subrange(dot, dot + 1) =~= "."@);
    lemma_digits_run(s, dot + 1, n);
    lemma_sign_and_digits(s, p, negative, whole, dot, far_start());
    assert(!stands_at(s, dot, Token::DotDot)) by {
        if stands_at(s, dot, Token::DotDot) {
            assert(s.subrange(dot, dot + 2)[1] == '.');
        }
    }
    assert forall|far: Far| (#[trigger] range_expr(s, p, far)).value is None by {
        lemma_sign_and_digits(s, p, negative, whole, dot, far);
        reveal(integer_literal);
        reveal(lit);
        reveal(range_expr);
        reveal(range_bound);
        lemma_identifier_expr_start(s, p, integer_literal(s, p, far).far);
    }
    lemma_literal_before_let(s, p);
    assert forall|far: Far|
        (#[trigger] float_literal(s, p, far)).value == Some(v) && float_literal(s, p, far).end
            == n by {
        lemma_sign_and_digits(s, p, negative, whole, dot, far);
        let run = digits(s, sign(s, p, far).end, sign(s, p, far).far);
        lemma_lit_stands(s, dot, Token::Dot, run.far);
        reveal(float_literal);
    }
    lemma_primary_is_literal(s, p, v, 1);
}

/// The program that is one binding of `v` to `x`.
pub open spec fn binding_program(v: Node) -> Node {
    Node::Program(seq![Node::Let("x"@, Box::new(v))])
}

/// A source that is `let x = ` and a literal that `primary` matches to
/// the end is the program of that binding.
#[verifier::spinoff_prover]
pub proof fn lemma_binding_program(s: Seq<char>, literal: Seq<char>, v: Node)
    requires
        s == binding_head() + literal,
        literal.len() > 0,
        primary_is(s, 8, v),
        solid_at(s, 8),
    ensures
        program(s).value == Some(binding_program(v)),
{
    reveal_strlit("let x = ");
    assert(s.subrange(0, 8) =~= binding_head());
    lemma_expr_is_primary(s, 8, v);
    lemma_binding_of(s, v);
    lemma_program_of_one(s, Node::Let("x"@, Box::new(v)));
}

/// For every integer literal `n`, the source `let x = n` is the program
/// that binds that integer to `x`. The literal is an optional `-` and
/// digits, for a number from `i64::MIN` to `i64::MAX`.
pub proof fn binding_of_an_integer(negative: bool, ds: Seq<char>)
    requires
        ds.len() > 0,
        all_digits(ds),
        digits_value(ds) <= largest_magnitude(negative),
    ensures
        program(binding_head() + (sign_text(negative) + ds)).value == Some(
            binding_program(
                Node::Int(
                    if negative {
                        -digits_value(ds)
                    } else {
                        digits_value(ds) as int
                    },
                ),
            ),
        ),
{
    reveal_strlit("let x = ");
    let literal = sign_text(negative) + ds;
    let s = binding_head() + literal;
    assert(s.subrange(8, s.len() as int) =~= literal);
    lemma_integer_at(s, 8, negative, ds);
    lemma_binding_program(
        s,
        literal,
        Node::Int(
            if negative {
                -digits_value(ds)
            } else {
                digits_value(ds) as int
            },
        ),
    );
}

/// For every floating-point literal `n`, the source `let x = n` is the
/// program that binds to `x` the numeral in its canonical text. The
/// literal is an optional `-`, digits, a point, and digits or none.
pub proof fn binding_of_a_float(negative: bool, whole: Seq<char>, fraction: Seq<char>)
    requires
        whole.len() > 0,
        all_digits(whole),
        all_digits(fraction),
    ensures
        program(
            binding_head() + (sign_text(negative) + whole + seq!['.'] + fraction),
        ).value == Some(binding_program(Node::Float(decimal_text(negative, whole, fraction)))),
{
    reveal_strlit("let x = ");
    let literal = sign_text(negative) + whole + seq!['.'] + fraction;
    let s = binding_head() + literal;
    assert(s.subrange(8, s.len() as int) =~= literal);
    lemma_float_at(s, 8, negative, whole, fraction);
    lemma_binding_program(s, literal, Node::Float(decimal_text(negative, whole, fraction)));
}

/// For both boolean literals `n`, the source `let x = n` is the program
/// that binds that boolean to `x`.
pub proof fn binding_of_a_bool(b: bool)
    ensures
        program(binding_head() + bool_text(b)).value == Some(binding_program(Node::Bool(b))),
{
    reveal_strlit("let x = ");
    reveal_strlit("true");
    reveal_strlit("false");
    let literal = bool_text(b);
    let s = binding_head() + literal;
    assert(s.subrange(8, s.len() as int) =~= literal);
    lemma_bool_at(s, 8, b);
    lemma_binding_program(s, literal, Node::Bool(b));
}

/// For every character literal `n`, the source `let x = n` is the program
/// that binds that character to `x`. The literal is one character other
/// than `'` between two `'`.
pub proof fn binding_of_a_char(c: char)
    requires
        c != '\'',
    ensures
        program(binding_head() + seq!['\'', c, '\'']).value == Some(
            binding_program(Node::Char(c)),
        ),
{
    reveal_strlit("let x = ");
    let literal = seq!['\'', c, '\''];
    let s = binding_head() + literal;
    lemma_char_at(s, 8, c);
    lemma_binding_program(s, literal, Node::Char(c));
}

/// For every string literal `n`, the source `let x = n` is the program
/// that binds that string to `x`. The literal is any text without `"`
/// between two `"`.
pub proof fn binding_of_a_string(content: Seq<char>)
    requires
        forall|i: int| 0 <= i < content.len() ==> content[i] != '"',
    ensures
        program(binding_head() + (seq!['"'] + content + seq!['"'])).value == Some(
            binding_program(Node::String(content)),
        ),
{
    reveal_strlit("let x = ");
    let literal = seq!['"'] + content + seq!['"'];
    let s = binding_head() + literal;
    assert(s.subrange(9, s.len() - 1) =~= content);
    lemma_string_at(s, 8, content);
    lemma_binding_program(s, literal, Node::String(content));
}

/// Where `gte` or `lte` stands, the comparison word is that word and not
/// its prefix `gt` or `lt`: the longer words are tried first.
pub proof fn longer_comparison_word_wins(s: Seq<char>, p: int, far: Far)
    requires
        0 <= p,
    ensures
        stands_at(s, p, Token::Gte) ==> compare_op(s, p, far).value == Some(CompareOp::Gte)
            && compare_op(s, p, far).end == p + 3,
        stands_at(s, p, Token::Lte) ==> compare_op(s, p, far).value == Some(CompareOp::Lte)
            && compare_op(s, p, far).end == p + 3,
{
    reveal(compare_op);
    reveal(lit);
    reveal_strlit("gte");
    reveal_strlit("lte");
    if stands_at(s, p, Token::Lte) {
        assert(s.subrange(p, p + 3)[0] == 'l');
        if stands_at(s, p, Token::Gte) {
            assert(s.subrange(p, p + 3)[0] == 'g');
        }
    }
}

/// Whether `primary` matches `v` from `p` up to `q`, whatever failed before.
pub open spec fn primary_ends(s: Seq<char>, p: int, v: Node, q: int) -> bool {
    forall|far: Far| (#[trigger] primary(s, p, far)).value == Some(v) && primary(s, p, far).end == q
}

/// Whether `expr` matches `v` from `p` up to `q`, whatever failed before.
pub open spec fn expr_ends(s: Seq<char>, p: int, v: Node, q: int) -> bool {
    forall|far: Far| (#[trigger] expr(s, p, far)).value == Some(v) && expr(s, p, far).end == q
}

/// Whether what can be skipped at `q` ends at `r`, whatever failed before.
pub open spec fn skips_to(s: Seq<char>, q: int, r: int) -> bool {
    forall|far: Far| (#[trigger] skip(s, q, far)).value is Some && skip(s, q, far).end == r
}

/// Whether no operator stands at `r`.
pub open spec fn no_operator_at(s: Seq<char>, r: int) -> bool {
    &&& !stands_at(s, r, Token::Star)
    &&& !stands_at(s, r, Token::Slash)
    &&& !stands_at(s, r, Token::Plus)
    &&& !stands_at(s, r, Token::Minus)
    &&& !stands_at(s, r, Token::Shl)
    &&& !stands_at(s, r, Token::Shr)
    &&& !stands_at(s, r, Token::Band)
    &&& !stands_at(s, r, Token::Bor)
    &&& !stands_at(s, r, Token::Xor)
    &&& !stands_at(s, r, Token::Rotl)
    &&& !stands_at(s, r, Token::Rotr)
    &&& !stands_at(s, r, Token::Gte)
    &&& !stands_at(s, r, Token::Lte)
    &&& !stands_at(s, r, Token::Gt)
    &&& !stands_at(s, r, Token::Lt)
    &&& !stands_at(s, r, Token::Eq)
    &&& !stands_at(s, r, Token::Neq)
    &&& !stands_at(s, r, Token::And)
    &&& !stands_at(s, r, Token::Or)
}

/// Whether an operator can start with `c`.
pub open spec fn starts_operator(c: char) -> bool {
    c == '*' || c == '/' || c == '+' || c == '-' || c == 's' || c == 'b' || c == 'x' || c == 'r'
        || c == 'g' || c == 'l' || c == 'e' || c == 'n' || c == 'a' || c == 'o'
}

/// No operator stands at the end of the input, nor at a character that no
/// operator starts with.
#[verifier::spinoff_prover]
pub proof fn lemma_no_operator_char(s: Seq<char>, r: int)
    requires
        0 <= r <= s.len(),
        r == s.len() || !starts_operator(s[r]),
    ensures
        no_operator_at(s, r),
{
    lemma_lit_start(s, r, Token::Star);
    lemma_lit_start(s, r, Token::Slash);
    lemma_lit_start(s, r, Token::Plus);
    lemma_lit_start(s, r, Token::Minus);
    lemma_lit_start(s, r, Token::Shl);
    lemma_lit_start(s, r, Token::Shr);
    lemma_lit_start(s, r, Token::Band);
    lemma_lit_start(s, r, Token::Bor);
    lemma_lit_start(s, r, Token::Xor);
    lemma_lit_start(s, r, Token::Rotl);
    lemma_lit_start(s, r, Token::Rotr);
    lemma_lit_start(s, r, Token::Gte);
    lemma_lit_start(s, r, Token::Lte);
    lemma_lit_start(s, r, Token::Gt);
    lemma_lit_start(s, r, Token::Lt);
    lemma_lit_start(s, r, Token::Eq);
    lemma_lit_start(s, r, Token::Neq);
    lemma_lit_start(s, r, Token::And);
    lemma_lit_start(s, r, Token::Or);
}

/// Where no operator stands, no operator rule matches.
#[verifier::spinoff_prover]
pub proof fn lemma_no_operator_rule(s: Seq<char>, r: int, far: Far)
    requires
        0 <= r <= s.len(),
        no_operator_at(s, r),
    ensures
        mul_op(s, r, far).value is None,
        add_op(s, r, far).value is None,
        bit_op(s, r, far).value is None,
        compare_op(s, r, far).value is None,
{
    reveal(lit);
    reveal(mul_op);
    reveal(add_op);
    reveal(bit_op);
    reveal(compare_op);
}

/// What can be skipped behind a position where at most one blank stands
/// in front of something that cannot be skipped ends behind that blank.
pub proof fn lemma_skips_to(s: Seq<char>, q: int)
    requires
        0 <= q <= s.len(),
        solid_at(s, next_after(s, q)),
    ensures
        skips_to(s, q, next_after(s, q)),
{
    assert forall|far: Far|
        (#[trigger] skip(s, q, far)).value is Some && skip(s, q, far).end == next_after(s, q) by {
        if next_after(s, q) == q {
            lemma_skip_stays(s, q, far);
        } else {
            lemma_skip_one_blank(s, q, far);
        }
    }
}

/// After a primary behind which no operator follows, the forms with an
/// operator do not match.
#[verifier::spinoff_prover]
pub proof fn lemma_no_operator_behind(s: Seq<char>, p: int, v: Node, q: int, r: int, far: Far)
    requires
        0 <= p < q <= r <= s.len(),
        primary_ends(s, p, v, q),
        skips_to(s, q, r),
        no_operator_at(s, r),
    ensures
        mul_form(s, p, far).value is None,
        bit(s, p, far).value is None,
        compare_form(s, p, far).value is None,
{
    let first = primary(s, p, far);
    let gap = skip(s, q, first.far);
    lemma_no_operator_rule(s, r, gap.far);
    reveal(mul_form);
    reveal(bit);
    reveal(compare_form);
    reveal(primary);
}

/// A primary behind which no operator follows is the whole expression.
#[verifier::spinoff_prover]
pub proof fn lemma_expr_ends(s: Seq<char>, p: int, v: Node, q: int, r: int)
    requires
        0 <= p < q <= r <= s.len(),
        primary_ends(s, p, v, q),
        skips_to(s, q, r),
        no_operator_at(s, r),
    ensures
        expr_ends(s, p, v, q),
{
    assert forall|far: Far|
        (#[trigger] compare(s, p, far)).value == Some(v) && compare(s, p, far).end == q by {
        lemma_no_operator_behind(s, p, v, q, r, far);
        reveal(compare);
        reveal(compare_form);
        reveal(primary);
        assert(primary(s, p, compare_form(s, p, far).far).value == Some(v));
    }
    assert forall|far: Far|
        (#[trigger] mul_div(s, p, far)).value == Some(v) && mul_div(s, p, far).end == q by {
        lemma_no_operator_behind(s, p, v, q, r, far);
        let after_mul = mul_form(s, p, far).far;
        lemma_no_operator_behind(s, p, v, q, r, after_mul);
        reveal(mul_div);
        reveal(mul_form);
        reveal(bit);
        reveal(compare);
        assert(compare(s, p, bit(s, p, after_mul).far).value == Some(v));
    }
    assert forall|far: Far|
        (#[trigger] expr(s, p, far)).value == Some(v) && expr(s, p, far).end == q by {
        let lhs = mul_div(s, p, far);
        let gap = skip(s, q, lhs.far);
        lemma_no_operator_rule(s, r, gap.far);
        reveal(add_form);
        reveal(mul_div);
        assert(add_form(s, p, far).value is None);
        reveal(add_sub);
        assert(mul_div(s, p, add_form(s, p, far).far).value == Some(v));
        assert(add_sub(s, p, far).value == Some(v) && add_sub(s, p, far).end == q);
        reveal(expr);
    }
}

/// A bare name that is none of the words of the grammar is what `primary`
/// matches: the name in value position.
#[verifier::spinoff_prover]
pub proof fn lemma_primary_is_name(s: Seq<char>, p: int, q: int)
    requires
        bare_name(s, p, q),
        no_statement_word(s, p),
        !stands_at(s, p, Token::Let),
        !stands_at(s, p, Token::Pass),
        !stands_at(s, p, Token::True),
        !stands_at(s, p, Token::False),
    ensures
        primary_ends(s, p, Node::Var(s.subrange(p, q)), q),
{
    lemma_bare_name_before_let(s, p, q);
    lemma_word_absent(s, p);
    lemma_bare_name_is_a_name(s, p, q, far_start());
    assert forall|far: Far|
        (#[trigger] primary(s, p, far)).value == Some(Node::Var(s.subrange(p, q))) && primary(
            s,
            p,
            far,
        ).end == q by {
        let alt0 = assign(s, p, far);
        let alt1 = paren_expr(s, p, alt0.far);
        let alt2 = directive_expr(s, p, alt1.far);
        let alt3 = match_expr(s, p, alt2.far);
        let alt4 = struct_expr(s, p, alt3.far);
        let alt5 = type_alias(s, p, alt4.far);
        let alt6 = call_expr(s, p, alt5.far);
        let alt7 = range_expr(s, p, alt6.far);
        let alt8 = member_expr(s, p, alt7.far);
        let alt9 = loop_expr(s, p, alt8.far);
        let alt10 = if_expr(s, p, alt9.far);
        let alt11 = fn_expr(s, p, alt10.far);
        let alt12 = let_binding(s, p, alt11.far);
        let alt13 = pass(s, p, alt12.far);
        let alt14 = bool_literal(s, p, alt13.far);
        assert(alt14.value is None) by {
            reveal(bool_literal);
            reveal(lit);
        }
        lemma_float_literal_start(s, p, alt14.far);
        let alt15 = float_literal(s, p, alt14.far);
        lemma_integer_literal_start(s, p, alt15.far);
        let alt16 = integer_literal(s, p, alt15.far);
        lemma_string_literal_start(s, p, alt16.far);
        let alt17 = string_literal(s, p, alt16.far);
        lemma_char_literal_start(s, p, alt17.far);
        let alt18 = char_literal(s, p, alt17.far);
        lemma_bare_name_is_a_name(s, p, q, alt18.far);
        reveal(primary);
        reveal(assign);
        reveal(paren_expr);
        reveal(directive_expr);
        reveal(match_expr);
        reveal(struct_expr);
        reveal(type_alias);
        reveal(call_expr);
        reveal(member_expr);
        reveal(loop_expr);
        reveal(if_expr);
        reveal(fn_expr);
        reveal(let_binding);
    }
}

/// Whether a comparison word stands at `r` and reaches up to `e`.
pub open spec fn compares_at(s: Seq<char>, r: int, op: CompareOp, e: int) -> bool {
    forall|far: Far|
        (#[trigger] compare_op(s, r, far)).value == Some(op) && compare_op(s, r, far).end == e
}

/// Whether `compare_form` matches `v` from `p` up to `q`, whatever failed before.
pub open spec fn comparison_ends(s: Seq<char>, p: int, v: Node, q: int) -> bool {
    forall|far: Far|
        (#[trigger] compare_form(s, p, far)).value == Some(v) && compare_form(s, p, far).end == q
}

/// Whether neither `*`, `/` nor a bitwise word stands at `r`.
pub open spec fn no_product_at(s: Seq<char>, r: int) -> bool {
    &&& !stands_at(s, r, Token::Star)
    &&& !stands_at(s, r, Token::Slash)
    &&& !stands_at(s, r, Token::Shl)
    &&& !stands_at(s, r, Token::Shr)
    &&& !stands_at(s, r, Token::Band)
    &&& !stands_at(s, r, Token::Bor)
    &&& !stands_at(s, r, Token::Xor)
    &&& !stands_at(s, r, Token::Rotl)
    &&& !stands_at(s, r, Token::Rotr)
}

/// A primary, a comparison word and a primary, with what can be skipped
/// between them, are one comparison.
#[verifier::spinoff_prover]
pub proof fn lemma_comparison(
    s: Seq<char>,
    p: int,
    a: Node,
    q1: int,
    r1: int,
    op: CompareOp,
    e: int,
    r2: int,
    b: Node,
    q2: int,
)
    requires
        0 <= p < q1 <= r1 < e <= r2 < q2 <= s.len(),
        primary_ends(s, p, a, q1),
        skips_to(s, q1, r1),
        compares_at(s, r1, op, e),
        skips_to(s, e, r2),
        primary_ends(s, r2, b, q2),
    ensures
        comparison_ends(s, p, Node::Compare(Box::new(a), op, Box::new(b)), q2),
{
    assert forall|far: Far|
        (#[trigger] compare_form(s, p, far)).value == Some(
            Node::Compare(Box::new(a), op, Box::new(b)),
        ) && compare_form(s, p, far).end == q2 by {
        let lhs = primary(s, p, far);
        let gap = skip(s, q1, lhs.far);
        let word = compare_op(s, r1, gap.far);
        let gap2 = skip(s, e, word.far);
        let rhs = primary(s, r2, gap2.far);
        reveal(compare_form);
        reveal(primary);
    }
}

/// A comparison in front of which neither a product nor a bitwise
/// operation matches is what `mul_div` matches.
#[verifier::spinoff_prover]
pub proof fn lemma_comparison_is_product(
    s: Seq<char>,
    p: int,
    a: Node,
    q1: int,
    r1: int,
    v: Node,
    q2: int,
    far: Far,
)
    requires
        0 <= p < q1 <= r1 <= s.len(),
        p < q2 <= s.len(),
        primary_ends(s, p, a, q1),
        skips_to(s, q1, r1),
        no_product_at(s, r1),
        comparison_ends(s, p, v, q2),
    ensures
        mul_div(s, p, far).value == Some(v),
        mul_div(s, p, far).end == q2,
{
    let lhs = primary(s, p, far);
    let gap = skip(s, q1, lhs.far);
    assert(mul_op(s, r1, gap.far).value is None) by {
        reveal(mul_op);
        reveal(lit);
    }
    assert(mul_form(s, p, far).value is None) by {
        reveal(mul_form);
        reveal(primary);
    }
    let after_mul = mul_form(s, p, far).far;
    let lhs2 = primary(s, p, after_mul);
    let gap2 = skip(s, q1, lhs2.far);
    assert(bit_op(s, r1, gap2.far).value is None) by {
        reveal(bit_op);
        reveal(lit);
    }
    assert(bit(s, p, after_mul).value is None) by {
        reveal(bit);
        reveal(primary);
    }
    let after_bit = bit(s, p, after_mul).far;
    let form = compare_form(s, p, after_bit);
    assert(compare(s, p, after_bit).value == Some(v) && compare(s, p, after_bit).end == q2) by {
        reveal(compare);
        reveal(compare_form);
    }
    reveal(mul_div);
    reveal(mul_form);
    reveal(bit);
    reveal(compare);
}

/// A comparison behind which neither `+` nor `-` follows is the whole
/// expression.
#[verifier::spinoff_prover]
pub proof fn lemma_comparison_is_expr(
    s: Seq<char>,
    p: int,
    a: Node,
    q1: int,
    r1: int,
    v: Node,
    q2: int,
    r3: int,
)
    requires
        0 <= p < q1 <= r1 <= s.len(),
        p < q2 <= r3 <= s.len(),
        primary_ends(s, p, a, q1),
        skips_to(s, q1, r1),
        no_product_at(s, r1),
        comparison_ends(s, p, v, q2),
        skips_to(s, q2, r3),
        !stands_at(s, r3, Token::Plus),
        !stands_at(s, r3, Token::Minus),
    ensures
        expr_ends(s, p, v, q2),
{
    assert forall|far: Far|
        (#[trigger] expr(s, p, far)).value == Some(v) && expr(s, p, far).end == q2 by {
        lemma_comparison_is_product(s, p, a, q1, r1, v, q2, far);
        let lhs = mul_div(s, p, far);
        let gap = skip(s, q2, lhs.far);
        assert(add_op(s, r3, gap.far).value is None) by {
            reveal(add_op);
            reveal(lit);
        }
        assert(add_form(s, p, far).value is None) by {
            reveal(add_form);
            reveal(mul_div);
        }
        lemma_comparison_is_product(s, p, a, q1, r1, v, q2, add_form(s, p, far).far);
        assert(add_sub(s, p, far).value == Some(v) && add_sub(s, p, far).end == q2) by {
            reveal(add_sub);
            reveal(add_form);
            reveal(mul_div);
        }
        reveal(expr);
        reveal(add_sub);
    }
}

/// The source `a gte b` is the program of one comparison of `a` with `b`
/// by `gte`.
#[verifier::spinoff_prover]
pub proof fn a_gte_b_is_one_comparison()
    ensures
        program("a gte b"@).value == Some(
            Node::Program(
                seq![
                    Node::Compare(
                        Box::new(Node::Var("a"@)),
                        CompareOp::Gte,
                        Box::new(Node::Var("b"@)),
                    ),
                ],
            ),
        ),
{
    let s = "a gte b"@;
    reveal_strlit("a gte b");
    reveal_strlit("a");
    reveal_strlit("b");
    reveal_strlit("gte");
    let a = Node::Var("a"@);
    let b = Node::Var("b"@);
    let v = Node::Compare(Box::new(a), CompareOp::Gte, Box::new(b));
    assert(s[0] == 'a' && s[1] == ' ' && s[2] == 'g' && s[3] == 't' && s[4] == 'e' && s[5] == ' '
        && s[6] == 'b');
    lemma_name_run(s, 0, 1);
    lemma_name_run(s, 6, 7);
    assert(s.subrange(0, 1) =~= "a"@);
    assert(s.subrange(6, 7) =~= "b"@);
    assert(s.subrange(2, 5) =~= "gte"@);
    lemma_plain_name(s, 0);
    lemma_plain_name(s, 6);
    lemma_primary_is_name(s, 0, 1);
    lemma_primary_is_name(s, 6, 7);
    lemma_skips_to(s, 1);
    lemma_skips_to(s, 5);
    lemma_skips_to(s, 7);
    assert(compares_at(s, 2, CompareOp::Gte, 5)) by {
        assert forall|far: Far|
            (#[trigger] compare_op(s, 2, far)).value == Some(CompareOp::Gte) && compare_op(
                s,
                2,
                far,
            ).end == 5 by {
            longer_comparison_word_wins(s, 2, far);
        }
    }
    lemma_comparison(s, 0, a, 1, 2, CompareOp::Gte, 5, 6, b, 7);
    assert(no_product_at(s, 2)) by {
        lemma_lit_start(s, 2, Token::Star);
        lemma_lit_start(s, 2, Token::Slash);
        lemma_lit_start(s, 2, Token::Shl);
        lemma_lit_start(s, 2, Token::Shr);
        lemma_lit_start(s, 2, Token::Band);
        lemma_lit_start(s, 2, Token::Bor);
        lemma_lit_start(s, 2, Token::Xor);
        lemma_lit_start(s, 2, Token::Rotl);
        lemma_lit_start(s, 2, Token::Rotr);
    }
    lemma_lit_start(s, 7, Token::Plus);
    lemma_lit_start(s, 7, Token::Minus);
    lemma_comparison_is_expr(s, 0, a, 1, 2, v, 7, 7);
    lemma_program_of_one(s, v);
}

/// A name that starts with none of the letters that the words `match`,
/// `struct`, `type`, `for`, `if`, `let`, `pass`, `true` and `false` start
/// with is none of these words.
#[verifier::spinoff_prover]
pub proof fn lemma_plain_name(s: Seq<char>, p: int)
    requires
        0 <= p < s.len(),
        s[p] != 'm' && s[p] != 's' && s[p] != 't' && s[p] != 'f' && s[p] != 'i' && s[p] != 'l'
            && s[p] != 'p',
    ensures
        no_statement_word(s, p),
        !stands_at(s, p, Token::Let),
        !stands_at(s, p, Token::Pass),
        !stands_at(s, p, Token::True),
        !stands_at(s, p, Token::False),
{
    lemma_lit_start(s, p, Token::Match);
    lemma_lit_start(s, p, Token::Struct);
    lemma_lit_start(s, p, Token::Type);
    lemma_lit_start(s, p, Token::For);
    lemma_lit_start(s, p, Token::If);
    lemma_lit_start(s, p, Token::Let);
    lemma_lit_start(s, p, Token::Pass);
    lemma_lit_start(s, p, Token::True);
    lemma_lit_start(s, p, Token::False);
}

/// Whether the text of `token` stands at `r` and reaches up to `e`.
pub open spec fn word_at(s: Seq<char>, r: int, token: Token, e: int) -> bool {
    stands_at(s, r, token) && e == r + token_text(token).len()
}

/// Whether `args` matches `items` from `p` up to `q`, whatever failed before.
pub open spec fn args_end(s: Seq<char>, p: int, items: Seq<Node>, q: int) -> bool {
    forall|far: Far| (#[trigger] args(s, p, far)).value == Some(items) && args(s, p, far).end == q
}

/// Whether `list` matches `v` from `p` up to `q`, whatever failed before.
pub open spec fn list_ends(s: Seq<char>, p: int, v: Node, q: int) -> bool {
    forall|far: Far| (#[trigger] list(s, p, far)).value == Some(v) && list(s, p, far).end == q
}

/// Whether `body_expr` matches `items` from `p` up to `q`, whatever failed before.
pub open spec fn body_ends(s: Seq<char>, p: int, items: Seq<Node>, q: int) -> bool {
    forall|far: Far|
        (#[trigger] body_expr(s, p, far)).value == Some(items) && body_expr(s, p, far).end == q
}

/// Whether `loop_expr` matches `v` from `p` up to `q`, whatever failed before.
pub open spec fn loop_ends(s: Seq<char>, p: int, v: Node, q: int) -> bool {
    forall|far: Far|
        (#[trigger] loop_expr(s, p, far)).value == Some(v) && loop_expr(s, p, far).end == q
}

/// Two expressions with a comma and a blank between them, in front of
/// something that is no comma, are two arguments.
#[verifier::spinoff_prover]
pub proof fn lemma_two_arguments(s: Seq<char>, p: int, a: Node, q1: int, b: Node, q2: int)
    requires
        0 <= p < q1,
        q1 + 2 < q2 <= s.len(),
        expr_ends(s, p, a, q1),
        solid_at(s, q1),
        word_at(s, q1, Token::Comma, q1 + 1),
        is_blank(s[q1 + 1]),
        solid_at(s, q1 + 2),
        expr_ends(s, q1 + 2, b, q2),
        solid_at(s, q2),
        !stands_at(s, q2, Token::Comma),
    ensures
        args_end(s, p, seq![a, b], q2),
{
    assert forall|far: Far|
        (#[trigger] args(s, p, far)).value == Some(seq![a, b]) && args(s, p, far).end == q2 by {
        let first = expr(s, p, far);
        lemma_skip_stays(s, q1, first.far);
        let gap = skip(s, q1, first.far);
        let comma = lit(s, q1, Token::Comma, gap.far);
        lemma_skip_one_blank(s, q1 + 1, comma.far);
        let gap2 = skip(s, q1 + 1, comma.far);
        let second = expr(s, q1 + 2, gap2.far);
        lemma_skip_stays(s, q2, second.far);
        let gap3 = skip(s, q2, second.far);
        assert(args_more(s, q2, second.far).value == Some(Seq::<Node>::empty()) && args_more(
            s,
            q2,
            second.far,
        ).end == q2) by {
            reveal(args_more);
            reveal(ws_lit_ws);
            reveal(lit_ws);
            reveal(lit);
        }
        assert(args_more(s, q1, first.far).value->0 =~= seq![b] && args_more(
            s,
            q1,
            first.far,
        ).end == q2) by {
            reveal(args_more);
            reveal(ws_lit_ws);
            reveal(lit_ws);
            reveal(lit);
            reveal(expr);
        }
        assert(seq![a] + seq![b] =~= seq![a, b]);
        reveal(args);
        reveal(args_more);
        reveal(expr);
    }
}

/// Arguments between `[` and `]` are a list.
#[verifier::spinoff_prover]
pub proof fn lemma_list(s: Seq<char>, p: int, items: Seq<Node>, q: int)
    requires
        0 <= p < q < s.len(),
        word_at(s, p, Token::LBracket, p + 1),
        args_end(s, p + 1, items, q),
        word_at(s, q, Token::RBracket, q + 1),
    ensures
        list_ends(s, p, Node::List(items), q + 1),
{
    assert forall|far: Far|
        (#[trigger] list(s, p, far)).value == Some(Node::List(items)) && list(s, p, far).end == q
            + 1 by {
        let opening = lit(s, p, Token::LBracket, far);
        let inner = args(s, p + 1, opening.far);
        reveal(list);
        reveal(lit);
        reveal(args);
    }
}

/// At `[` a list is what `primary` matches.
#[verifier::spinoff_prover]
pub proof fn lemma_primary_is_list(s: Seq<char>, p: int, v: Node, q: int)
    requires
        0 <= p < s.len(),
        s[p] == '[',
        list_ends(s, p, v, q),
    ensures
        primary_ends(s, p, v, q),
{
    assert forall|far: Far|
        (#[trigger] primary(s, p, far)).value == Some(v) && primary(s, p, far).end == q by {
        lemma_assign_start(s, p, far);
        let alt0 = assign(s, p, far);
        lemma_paren_expr_start(s, p, alt0.far);
        let alt1 = paren_expr(s, p, alt0.far);
        lemma_directive_expr_start(s, p, alt1.far);
        let alt2 = directive_expr(s, p, alt1.far);
        lemma_match_expr_start(s, p, alt2.far);
        let alt3 = match_expr(s, p, alt2.far);
        lemma_struct_expr_start(s, p, alt3.far);
        let alt4 = struct_expr(s, p, alt3.far);
        lemma_type_alias_start(s, p, alt4.far);
        let alt5 = type_alias(s, p, alt4.far);
        lemma_call_expr_start(s, p, alt5.far);
        let alt6 = call_expr(s, p, alt5.far);
        lemma_range_expr_start(s, p, alt6.far);
        let alt7 = range_expr(s, p, alt6.far);
        lemma_member_expr_start(s, p, alt7.far);
        let alt8 = member_expr(s, p, alt7.far);
        lemma_loop_expr_start(s, p, alt8.far);
        let alt9 = loop_expr(s, p, alt8.far);
        lemma_if_expr_start(s, p, alt9.far);
        let alt10 = if_expr(s, p, alt9.far);
        lemma_fn_expr_start(s, p, alt10.far);
        let alt11 = fn_expr(s, p, alt10.far);
        lemma_let_binding_start(s, p, alt11.far);
        let alt12 = let_binding(s, p, alt11.far);
        lemma_pass_start(s, p, alt12.far);
        let alt13 = pass(s, p, alt12.far);
        lemma_bool_literal_start(s, p, alt13.far);
        let alt14 = bool_literal(s, p, alt13.far);
        lemma_float_literal_start(s, p, alt14.far);
        let alt15 = float_literal(s, p, alt14.far);
        lemma_integer_literal_start(s, p, alt15.far);
        let alt16 = integer_literal(s, p, alt15.far);
        lemma_string_literal_start(s, p, alt16.far);
        let alt17 = string_literal(s, p, alt16.far);
        lemma_char_literal_start(s, p, alt17.far);
        let alt18 = char_literal(s, p, alt17.far);
        lemma_identifier_expr_start(s, p, alt18.far);
        let alt19 = identifier_expr(s, p, alt18.far);
        let alt20 = list(s, p, alt19.far);
        reveal(primary);
        reveal(assign);
        reveal(paren_expr);
        reveal(directive_expr);
        reveal(match_expr);
        reveal(struct_expr);
        reveal(type_alias);
        reveal(call_expr);
        reveal(member_expr);
        reveal(loop_expr);
        reveal(if_expr);
        reveal(fn_expr);
        reveal(let_binding);
        reveal(list);
    }
}

/// The word `pass`, as a bare name, is what `primary` matches: the placeholder.
#[verifier::spinoff_prover]
pub proof fn lemma_primary_is_pass(s: Seq<char>, p: int)
    requires
        bare_name(s, p, p + 4),
        word_at(s, p, Token::Pass, p + 4),
        no_statement_word(s, p),
        !stands_at(s, p, Token::Let),
    ensures
        primary_ends(s, p, Node::Pass, p + 4),
{
    lemma_bare_name_before_let(s, p, p + 4);
    lemma_word_absent(s, p);
    assert forall|far: Far|
        (#[trigger] primary(s, p, far)).value == Some(Node::Pass) && primary(s, p, far).end == p
            + 4 by {
        let alt0 = assign(s, p, far);
        let alt1 = paren_expr(s, p, alt0.far);
        let alt2 = directive_expr(s, p, alt1.far);
        let alt3 = match_expr(s, p, alt2.far);
        let alt4 = struct_expr(s, p, alt3.far);
        let alt5 = type_alias(s, p, alt4.far);
        let alt6 = call_expr(s, p, alt5.far);
        let alt7 = range_expr(s, p, alt6.far);
        let alt8 = member_expr(s, p, alt7.far);
        let alt9 = loop_expr(s, p, alt8.far);
        let alt10 = if_expr(s, p, alt9.far);
        let alt11 = fn_expr(s, p, alt10.far);
        let alt12 = let_binding(s, p, alt11.far);
        let alt13 = pass(s, p, alt12.far);
        assert(alt13.value == Some(Node::Pass) && alt13.end == p + 4) by {
            reveal(pass);
            reveal(lit);
        }
        reveal(primary);
        reveal(assign);
        reveal(paren_expr);
        reveal(directive_expr);
        reveal(match_expr);
        reveal(struct_expr);
        reveal(type_alias);
        reveal(call_expr);
        reveal(member_expr);
        reveal(loop_expr);
        reveal(if_expr);
        reveal(fn_expr);
        reveal(let_binding);
    }
}

/// One expression behind which no `;` follows is a body of one statement.
#[verifier::spinoff_prover]
pub proof fn lemma_body_of_one(s: Seq<char>, p: int, v: Node, q: int, r: int)
    requires
        0 <= p < q <= r <= s.len(),
        expr_ends(s, p, v, q),
        skips_to(s, q, r),
        !stands_at(s, r, Token::Semicolon),
    ensures
        body_ends(s, p, seq![v], q),
{
    assert forall|far: Far|
        (#[trigger] body_expr(s, p, far)).value == Some(seq![v]) && body_expr(s, p, far).end
            == q by {
        let first = expr(s, p, far);
        let gap = skip(s, q, first.far);
        assert(body_expr_more(s, q, first.far).value == Some(Seq::<Node>::empty())
            && body_expr_more(s, q, first.far).end == q) by {
            reveal(body_expr_more);
            reveal(ws_lit_ws);
            reveal(lit_ws);
            reveal(lit);
        }
        assert(seq![v] + Seq::<Node>::empty() =~= seq![v]);
        reveal(body_expr);
        reveal(body_expr_more);
        reveal(expr);
    }
}

/// `for`, a binding, `in`, what is run over, a body and `end`, with what
/// can be skipped between them, are a loop. `at` holds the positions in
/// order: where each part ends and the next one starts.
#[verifier::spinoff_prover]
pub proof fn lemma_loop(
    s: Seq<char>,
    p: int,
    at: Seq<int>,
    binding: Node,
    iterable: Node,
    body: Seq<Node>,
)
    requires
        at.len() == 10,
        0 <= p < at[0] <= at[1] < at[2] <= at[3] < at[4] <= at[5] < at[6] <= at[7] <= at[8]
            <= at[9] < s.len(),
        word_at(s, p, Token::For, at[0]),
        skips_to(s, at[0], at[1]),
        expr_ends(s, at[1], binding, at[2]),
        skips_to(s, at[2], at[3]),
        word_at(s, at[3], Token::In, at[4]),
        skips_to(s, at[4], at[5]),
        primary_ends(s, at[5], iterable, at[6]),
        skips_to(s, at[6], at[7]),
        body_ends(s, at[7], body, at[8]),
        skips_to(s, at[8], at[9]),
        stands_at(s, at[9], Token::End),
    ensures
        loop_ends(
            s,
            p,
            Node::Loop(Box::new(binding), Box::new(iterable), body),
            at[9] + token_text(Token::End).len(),
        ),
{
    assert forall|far: Far|
        (#[trigger] loop_expr(s, p, far)).value == Some(
            Node::Loop(Box::new(binding), Box::new(iterable), body),
        ) && loop_expr(s, p, far).end == at[9] + token_text(Token::End).len() by {
        let for_word = lit(s, p, Token::For, far);
        let gap0 = skip(s, at[0], for_word.far);
        let first = expr(s, at[1], gap0.far);
        let gap1 = skip(s, at[2], first.far);
        let in_word = lit(s, at[3], Token::In, gap1.far);
        let gap2 = skip(s, at[4], in_word.far);
        let second = primary(s, at[5], gap2.far);
        let gap3 = skip(s, at[6], second.far);
        let third = body_expr(s, at[7], gap3.far);
        let gap4 = skip(s, at[8], third.far);
        let end_word = lit(s, at[9], Token::End, gap4.far);
        reveal(lit);
        reveal(lit_ws);
        reveal(ws_lit_ws);
        reveal(ws_lit);
        reveal(loop_expr);
        reveal(expr);
        reveal(primary);
        reveal(body_expr);
    }
}

/// Where `for` stands as a bare name, a loop is what `primary` matches.
#[verifier::spinoff_prover]
pub proof fn lemma_primary_is_loop(s: Seq<char>, p: int, v: Node, q: int)
    requires
        bare_name(s, p, p + 3),
        s[p] == 'f',
        loop_ends(s, p, v, q),
    ensures
        primary_ends(s, p, v, q),
{
    lemma_word_absent(s, p);
    lemma_lit_start(s, p, Token::Match);
    lemma_lit_start(s, p, Token::Struct);
    lemma_lit_start(s, p, Token::Type);
    assert forall|far: Far|
        (#[trigger] primary(s, p, far)).value == Some(v) && primary(s, p, far).end == q by {
        lemma_bare_name_is_no_assignment(s, p, p + 3, far);
        let alt0 = assign(s, p, far);
        lemma_paren_expr_start(s, p, alt0.far);
        let alt1 = paren_expr(s, p, alt0.far);
        lemma_directive_expr_start(s, p, alt1.far);
        let alt2 = directive_expr(s, p, alt1.far);
        let alt3 = match_expr(s, p, alt2.far);
        let alt4 = struct_expr(s, p, alt3.far);
        let alt5 = type_alias(s, p, alt4.far);
        lemma_bare_name_is_no_call(s, p, p + 3, alt5.far);
        let alt6 = call_expr(s, p, alt5.far);
        lemma_bare_name_is_no_range(s, p, p + 3, alt6.far);
        let alt7 = range_expr(s, p, alt6.far);
        lemma_bare_name_is_no_path(s, p, p + 3, alt7.far);
        let alt8 = member_expr(s, p, alt7.far);
        let alt9 = loop_expr(s, p, alt8.far);
        reveal(primary);
        reveal(assign);
        reveal(paren_expr);
        reveal(directive_expr);
        reveal(match_expr);
        reveal(struct_expr);
        reveal(type_alias);
        reveal(call_expr);
        reveal(member_expr);
        reveal(loop_expr);
    }
}

/// The text of a loop over `xs` that binds `a` and `b` and does nothing.
pub open spec fn loop_text() -> Seq<char> {
    "for [a, b] in xs pass end"@
}

/// The characters of `loop_text`.
pub proof fn lemma_loop_text()
    ensures
        loop_text().len() == 25,
        loop_text()[0] == 'f' && loop_text()[1] == 'o' && loop_text()[2] == 'r',
        loop_text()[3] == ' ' && loop_text()[4] == '[' && loop_text()[5] == 'a',
        loop_text()[6] == ',' && loop_text()[7] == ' ' && loop_text()[8] == 'b',
        loop_text()[9] == ']' && loop_text()[10] == ' ' && loop_text()[11] == 'i',
        loop_text()[12] == 'n' && loop_text()[13] == ' ' && loop_text()[14] == 'x',
        loop_text()[15] == 's' && loop_text()[16] == ' ' && loop_text()[17] == 'p',
        loop_text()[18] == 'a' && loop_text()[19] == 's' && loop_text()[20] == 's',
        loop_text()[21] == ' ' && loop_text()[22] == 'e' && loop_text()[23] == 'n',
        loop_text()[24] == 'd',
{
    reveal_strlit("for [a, b] in xs pass end");
}

/// In `loop_text`, `[a, b]` is an expression: the list of the names `a`
/// and `b`.
#[verifier::spinoff_prover]
pub proof fn lemma_loop_text_binding()
    ensures
        expr_ends(loop_text(), 4, Node::List(seq![Node::Var("a"@), Node::Var("b"@)]), 10),
{
    let s = loop_text();
    lemma_loop_text();
    reveal_strlit("a");
    reveal_strlit("b");
    reveal_strlit(",");
    reveal_strlit("[");
    reveal_strlit("]");
    let a = Node::Var("a"@);
    let b = Node::Var("b"@);
    lemma_name_run(s, 5, 6);
    lemma_name_run(s, 8, 9);
    assert(s.subrange(5, 6) =~= "a"@);
    assert(s.subrange(8, 9) =~= "b"@);
    assert(s.subrange(6, 7) =~= ","@);
    assert(s.subrange(4, 5) =~= "["@);
    assert(s.subrange(9, 10) =~= "]"@);
    lemma_plain_name(s, 5);
    lemma_plain_name(s, 8);
    lemma_primary_is_name(s, 5, 6);
    lemma_primary_is_name(s, 8, 9);
    lemma_skips_to(s, 6);
    lemma_skips_to(s, 9);
    lemma_no_operator_char(s, 6);
    lemma_no_operator_char(s, 9);
    lemma_expr_ends(s, 5, a, 6, 6);
    lemma_expr_ends(s, 8, b, 9, 9);
    lemma_lit_start(s, 9, Token::Comma);
    lemma_two_arguments(s, 5, a, 6, b, 9);
    lemma_list(s, 4, seq![a, b], 9);
    lemma_primary_is_list(s, 4, Node::List(seq![a, b]), 10);
    lemma_skips_to(s, 10);
    lemma_no_operator_char(s, 11);
    lemma_expr_ends(s, 4, Node::List(seq![a, b]), 10, 11);
}

/// In `loop_text`, `xs` is a primary: the name `xs`.
#[verifier::spinoff_prover]
pub proof fn lemma_loop_text_iterable()
    ensures
        primary_ends(loop_text(), 14, Node::Var("xs"@), 16),
{
    let s = loop_text();
    lemma_loop_text();
    reveal_strlit("xs");
    lemma_name_run(s, 14, 16);
    assert(s.subrange(14, 16) =~= "xs"@);
    lemma_plain_name(s, 14);
    lemma_primary_is_name(s, 14, 16);
}

/// In `loop_text`, `pass` is a body: the placeholder alone.
#[verifier::spinoff_prover]
pub proof fn lemma_loop_text_body()
    ensures
        body_ends(loop_text(), 17, seq![Node::Pass], 21),
{
    let s = loop_text();
    lemma_loop_text();
    reveal_strlit("pass");
    reveal_strlit("eq");
    lemma_name_run(s, 17, 21);
    assert(s.subrange(17, 21) =~= "pass"@);
    lemma_lit_start(s, 17, Token::Match);
    lemma_lit_start(s, 17, Token::Struct);
    lemma_lit_start(s, 17, Token::Type);
    lemma_lit_start(s, 17, Token::For);
    lemma_lit_start(s, 17, Token::If);
    lemma_lit_start(s, 17, Token::Let);
    lemma_primary_is_pass(s, 17);
    lemma_skips_to(s, 21);
    assert(no_operator_at(s, 22)) by {
        lemma_lit_start(s, 22, Token::Star);
        lemma_lit_start(s, 22, Token::Slash);
        lemma_lit_start(s, 22, Token::Plus);
        lemma_lit_start(s, 22, Token::Minus);
        lemma_lit_start(s, 22, Token::Shl);
        lemma_lit_start(s, 22, Token::Shr);
        lemma_lit_start(s, 22, Token::Band);
        lemma_lit_start(s, 22, Token::Bor);
        lemma_lit_start(s, 22, Token::Xor);
        lemma_lit_start(s, 22, Token::Rotl);
        lemma_lit_start(s, 22, Token::Rotr);
        lemma_lit_start(s, 22, Token::Gte);
        lemma_lit_start(s, 22, Token::Lte);
        lemma_lit_start(s, 22, Token::Gt);
        lemma_lit_start(s, 22, Token::Lt);
        lemma_lit_start(s, 22, Token::Neq);
        lemma_lit_start(s, 22, Token::And);
        lemma_lit_start(s, 22, Token::Or);
        if stands_at(s, 22, Token::Eq) {
            assert(s.subrange(22, 24)[1] == 'q');
        }
    }
    lemma_expr_ends(s, 17, Node::Pass, 21, 22);
    lemma_lit_start(s, 22, Token::Semicolon);
    lemma_body_of_one(s, 17, Node::Pass, 21, 22);
}

/// The loop that `loop_text` is.
pub open spec fn loop_of_text() -> Node {
    Node::Loop(
        Box::new(Node::List(seq![Node::Var("a"@), Node::Var("b"@)])),
        Box::new(Node::Var("xs"@)),
        seq![Node::Pass],
    )
}

/// The source `for [a, b] in xs pass end` is the program of one loop: the
/// binding is the list of `a` and `b`, what is run over is `xs`, and the
/// body is the placeholder.
#[verifier::spinoff_prover]
pub proof fn destructuring_loop_is_a_loop()
    ensures
        program(loop_text()).value == Some(Node::Program(seq![loop_of_text()])),
{
    let s = loop_text();
    lemma_loop_text();
    lemma_loop_text_binding();
    lemma_loop_text_iterable();
    lemma_loop_text_body();
    reveal_strlit("for");
    reveal_strlit("in");
    reveal_strlit("end");
    assert(s.subrange(0, 3) =~= "for"@);
    assert(s.subrange(11, 13) =~= "in"@);
    assert(s.subrange(22, 25) =~= "end"@);
    lemma_name_run(s, 0, 3);
    lemma_skips_to(s, 3);
    lemma_skips_to(s, 10);
    lemma_skips_to(s, 13);
    lemma_skips_to(s, 16);
    lemma_skips_to(s, 21);
    let at = seq![3int, 4, 10, 11, 13, 14, 16, 17, 21, 22];
    lemma_loop(
        s,
        0,
        at,
        Node::List(seq![Node::Var("a"@), Node::Var("b"@)]),
        Node::Var("xs"@),
        seq![Node::Pass],
    );
    lemma_primary_is_loop(s, 0, loop_of_text(), 25);
    lemma_expr_is_primary(s, 0, loop_of_text());
    lemma_program_of_one(s, loop_of_text());
}

} // verus!
