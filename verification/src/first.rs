//! Where a rule cannot match because of the character that it finds: for
//! each rule the characters that a match can start with, and the proof
//! that it matches at no other character nor at the end of the input.
//! These facts carry the laws of `parse_laws`.

use vstd::prelude::*;
use crate::grammar::{
    add_form, add_op, add_sub, args, assign, assignable, bit, bit_op, body_expr, bool_literal,
    call_expr, call_plain, call_typed, callee, char_literal, compare, compare_form, compare_op,
    digits, directive_expr, directive_name, expr, float_literal, fn_args, fn_expr, identifier,
    identifier_expr, if_else, if_expr, if_plain, integer_literal, is_digit, is_name_char,
    let_binding, let_plain, let_typed, list, lit, lit_ws, loop_expr, match_cases, match_expr,
    member_expr, mul_div, mul_form, mul_op, paren_expr, pass, primary, range_bound, range_expr,
    record, record_entries, segments, sign, stands_at, starts_with, string_literal, struct_entries,
    struct_expr, type_alias, type_alias_generic, type_alias_plain, type_generic, typed_callee,
    typed_expr, unary, unary_op, unary_ops,
};
use crate::token::{token_text, Far, Token};

verus! {

/// The first character of a literal token; a blank for a token that is no literal.
pub open spec fn token_first(token: Token) -> char {
    match token {
        Token::Amp => '&',
        Token::Star => '*',
        Token::Question => '?',
        Token::Pipe => '|',
        Token::End => 'e',
        Token::Colon => ':',
        Token::LBrace => '{',
        Token::RBrace => '}',
        Token::Comma => ',',
        Token::Type => 't',
        Token::Assign => '=',
        Token::Less => '<',
        Token::Greater => '>',
        Token::CommentOpen => '(',
        Token::CommentClose => '*',
        Token::Pass => 'p',
        Token::Minus => '-',
        Token::Dot => '.',
        Token::True => 't',
        Token::False => 'f',
        Token::Quote => '"',
        Token::Apostrophe => '\'',
        Token::At => '@',
        Token::DotDot => '.',
        Token::LParen => '(',
        Token::RParen => ')',
        Token::Let => 'l',
        Token::LBracket => '[',
        Token::RBracket => ']',
        Token::Struct => 's',
        Token::Plus => '+',
        Token::Slash => '/',
        Token::Gte => 'g',
        Token::Lte => 'l',
        Token::Gt => 'g',
        Token::Lt => 'l',
        Token::Eq => 'e',
        Token::Neq => 'n',
        Token::And => 'a',
        Token::Or => 'o',
        Token::Shl => 's',
        Token::Shr => 's',
        Token::Band => 'b',
        Token::Bor => 'b',
        Token::Xor => 'x',
        Token::Rotl => 'r',
        Token::Rotr => 'r',
        Token::If => 'i',
        Token::Then => 't',
        Token::Else => 'e',
        Token::For => 'f',
        Token::In => 'i',
        Token::Match => 'm',
        Token::With => 'w',
        Token::Arrow => '-',
        Token::Tilde => '~',
        Token::Semicolon => ';',
        _ => ' ',
    }
}

/// The text of a literal token starts with `token_first`.
pub proof fn lemma_token_first(token: Token)
    ensures
        token_text(token).len() > 0 ==> token_text(token)[0] == token_first(token),
{
    reveal_strlit("&");
    reveal_strlit("*");
    reveal_strlit("?");
    reveal_strlit("|");
    reveal_strlit("end");
    reveal_strlit(":");
    reveal_strlit("{");
    reveal_strlit("}");
    reveal_strlit(",");
    reveal_strlit("type");
    reveal_strlit("=");
    reveal_strlit("<");
    reveal_strlit(">");
    reveal_strlit("(*");
    reveal_strlit("*)");
    reveal_strlit("pass");
    reveal_strlit("-");
    reveal_strlit(".");
    reveal_strlit("true");
    reveal_strlit("false");
    reveal_strlit("\"");
    reveal_strlit("'");
    reveal_strlit("@");
    reveal_strlit("..");
    reveal_strlit("(");
    reveal_strlit(")");
    reveal_strlit("let");
    reveal_strlit("[");
    reveal_strlit("]");
    reveal_strlit("struct");
    reveal_strlit("+");
    reveal_strlit("/");
    reveal_strlit("gte");
    reveal_strlit("lte");
    reveal_strlit("gt");
    reveal_strlit("lt");
    reveal_strlit("eq");
    reveal_strlit("neq");
    reveal_strlit("and");
    reveal_strlit("or");
    reveal_strlit("shl");
    reveal_strlit("shr");
    reveal_strlit("band");
    reveal_strlit("bor");
    reveal_strlit("xor");
    reveal_strlit("rotl");
    reveal_strlit("rotr");
    reveal_strlit("if");
    reveal_strlit("then");
    reveal_strlit("else");
    reveal_strlit("for");
    reveal_strlit("in");
    reveal_strlit("match");
    reveal_strlit("with");
    reveal_strlit("->");
    reveal_strlit("~");
    reveal_strlit(";");
    reveal_strlit("");
}

/// Whether a match of `integer_literal` can start with the character `c`.
pub open spec fn starts_integer_literal(c: char) -> bool {
    c == '-' || is_digit(c)
}

/// Whether a match of `float_literal` can start with the character `c`.
pub open spec fn starts_float_literal(c: char) -> bool {
    c == '-' || is_digit(c)
}

/// Whether a match of `bool_literal` can start with the character `c`.
pub open spec fn starts_bool_literal(c: char) -> bool {
    c == 't' || c == 'f'
}

/// Whether a match of `string_literal` can start with the character `c`.
pub open spec fn starts_string_literal(c: char) -> bool {
    c == '"'
}

/// Whether a match of `char_literal` can start with the character `c`.
pub open spec fn starts_char_literal(c: char) -> bool {
    c == '\''
}

/// Whether a match of `pass` can start with the character `c`.
pub open spec fn starts_pass(c: char) -> bool {
    c == 'p'
}

/// Whether a match of `identifier_expr` can start with the character `c`.
pub open spec fn starts_identifier_expr(c: char) -> bool {
    is_name_char(c)
}

/// Whether a match of `range_expr` can start with the character `c`.
pub open spec fn starts_range_expr(c: char) -> bool {
    c == '-' || is_digit(c) || is_name_char(c)
}

/// Whether a match of `unary_op` can start with the character `c`.
pub open spec fn starts_unary_op(c: char) -> bool {
    c == '~' || c == '&' || c == '*'
}

/// Whether a match of `add_op` can start with the character `c`.
pub open spec fn starts_add_op(c: char) -> bool {
    c == '+' || c == '-'
}

/// Whether a match of `mul_op` can start with the character `c`.
pub open spec fn starts_mul_op(c: char) -> bool {
    c == '*' || c == '/'
}

/// Whether a match of `compare_op` can start with the character `c`.
pub open spec fn starts_compare_op(c: char) -> bool {
    c == 'g'
        || c == 'l'
        || c == 'g'
        || c == 'l'
        || c == 'e'
        || c == 'n'
        || c == 'a'
        || c == 'o'
}

/// Whether a match of `bit_op` can start with the character `c`.
pub open spec fn starts_bit_op(c: char) -> bool {
    c == 's' || c == 's' || c == 'b' || c == 'b' || c == 'x' || c == 'r' || c == 'r'
}

/// Whether a match of `type_alias_plain` can start with the character `c`.
pub open spec fn starts_type_alias_plain(c: char) -> bool {
    c == 't'
}

/// Whether a match of `type_alias_generic` can start with the character `c`.
pub open spec fn starts_type_alias_generic(c: char) -> bool {
    c == 't'
}

/// Whether a match of `type_alias` can start with the character `c`.
pub open spec fn starts_type_alias(c: char) -> bool {
    starts_type_alias_plain(c) || starts_type_alias_generic(c)
}

/// Whether a match of `member_expr` can start with the character `c`.
pub open spec fn starts_member_expr(c: char) -> bool {
    starts_identifier_expr(c)
}

/// Whether a match of `callee` can start with the character `c`.
pub open spec fn starts_callee(c: char) -> bool {
    starts_fn_expr(c) || starts_identifier_expr(c) || starts_member_expr(c)
}

/// Whether a match of `typed_callee` can start with the character `c`.
pub open spec fn starts_typed_callee(c: char) -> bool {
    starts_identifier_expr(c) || starts_member_expr(c)
}

/// Whether a match of `call_plain` can start with the character `c`.
pub open spec fn starts_call_plain(c: char) -> bool {
    starts_callee(c)
}

/// Whether a match of `call_typed` can start with the character `c`.
pub open spec fn starts_call_typed(c: char) -> bool {
    starts_typed_callee(c)
}

/// Whether a match of `call_expr` can start with the character `c`.
pub open spec fn starts_call_expr(c: char) -> bool {
    starts_call_plain(c) || starts_call_typed(c)
}

/// Whether a match of `directive_expr` can start with the character `c`.
pub open spec fn starts_directive_expr(c: char) -> bool {
    c == '@'
}

/// Whether a match of `let_plain` can start with the character `c`.
pub open spec fn starts_let_plain(c: char) -> bool {
    c == 'l'
}

/// Whether a match of `let_typed` can start with the character `c`.
pub open spec fn starts_let_typed(c: char) -> bool {
    c == 'l'
}

/// Whether a match of `let_binding` can start with the character `c`.
pub open spec fn starts_let_binding(c: char) -> bool {
    starts_let_plain(c) || starts_let_typed(c)
}

/// Whether a match of `assignable` can start with the character `c`.
pub open spec fn starts_assignable(c: char) -> bool {
    starts_member_expr(c) || starts_identifier_expr(c)
}

/// Whether a match of `assign` can start with the character `c`.
pub open spec fn starts_assign(c: char) -> bool {
    starts_assignable(c)
}

/// Whether a match of `paren_expr` can start with the character `c`.
pub open spec fn starts_paren_expr(c: char) -> bool {
    c == '('
}

/// Whether a match of `list` can start with the character `c`.
pub open spec fn starts_list(c: char) -> bool {
    c == '['
}

/// Whether a match of `record` can start with the character `c`.
pub open spec fn starts_record(c: char) -> bool {
    c == '{'
}

/// Whether a match of `struct_expr` can start with the character `c`.
pub open spec fn starts_struct_expr(c: char) -> bool {
    c == 's'
}

/// Whether a match of `if_plain` can start with the character `c`.
pub open spec fn starts_if_plain(c: char) -> bool {
    c == 'i'
}

/// Whether a match of `if_else` can start with the character `c`.
pub open spec fn starts_if_else(c: char) -> bool {
    c == 'i'
}

/// Whether a match of `if_expr` can start with the character `c`.
pub open spec fn starts_if_expr(c: char) -> bool {
    starts_if_plain(c) || starts_if_else(c)
}

/// Whether a match of `loop_expr` can start with the character `c`.
pub open spec fn starts_loop_expr(c: char) -> bool {
    c == 'f'
}

/// Whether a match of `fn_expr` can start with the character `c`.
pub open spec fn starts_fn_expr(c: char) -> bool {
    c == '|'
}

/// Whether a match of `match_expr` can start with the character `c`.
pub open spec fn starts_match_expr(c: char) -> bool {
    c == 'm'
}

/// Whether a match of `primary` can start with the character `c`.
pub open spec fn starts_primary(c: char) -> bool {
    starts_assign(c)
        || starts_paren_expr(c)
        || starts_directive_expr(c)
        || starts_match_expr(c)
        || starts_struct_expr(c)
        || starts_type_alias(c)
        || starts_call_expr(c)
        || starts_range_expr(c)
        || starts_member_expr(c)
        || starts_loop_expr(c)
        || starts_if_expr(c)
        || starts_fn_expr(c)
        || starts_let_binding(c)
        || starts_pass(c)
        || starts_bool_literal(c)
        || starts_float_literal(c)
        || starts_integer_literal(c)
        || starts_string_literal(c)
        || starts_char_literal(c)
        || starts_identifier_expr(c)
        || starts_list(c)
        || starts_record(c)
}

/// Whether a match of `bit` can start with the character `c`.
pub open spec fn starts_bit(c: char) -> bool {
    starts_primary(c)
}

/// Whether a match of `compare_form` can start with the character `c`.
pub open spec fn starts_compare_form(c: char) -> bool {
    starts_primary(c)
}

/// Whether a match of `compare` can start with the character `c`.
pub open spec fn starts_compare(c: char) -> bool {
    starts_compare_form(c) || starts_primary(c)
}

/// Whether a match of `mul_form` can start with the character `c`.
pub open spec fn starts_mul_form(c: char) -> bool {
    starts_primary(c)
}

/// Whether a match of `mul_div` can start with the character `c`.
pub open spec fn starts_mul_div(c: char) -> bool {
    starts_mul_form(c) || starts_bit(c) || starts_compare(c)
}

/// Whether a match of `add_form` can start with the character `c`.
pub open spec fn starts_add_form(c: char) -> bool {
    starts_mul_div(c)
}

/// Whether a match of `add_sub` can start with the character `c`.
pub open spec fn starts_add_sub(c: char) -> bool {
    starts_add_form(c) || starts_mul_div(c)
}

/// Whether a match of `unary` can start with the character `c`.
pub open spec fn starts_unary(c: char) -> bool {
    starts_unary_op(c) || starts_primary(c)
}

/// Whether a match of `expr` can start with the character `c`.
pub open spec fn starts_expr(c: char) -> bool {
    starts_add_sub(c)
        || starts_unary(c)
        || starts_bit(c)
        || starts_compare(c)
        || starts_primary(c)
}

/// A literal does not stand at the end of the input, nor at a character
/// other than its first.
pub proof fn lemma_lit_start(s: Seq<char>, p: int, token: Token)
    requires
        0 <= p <= s.len(),
        p == s.len() || s[p] != token_first(token),
    ensures
        !stands_at(s, p, token),
        forall|far: Far| (#[trigger] lit(s, p, token, far)).value is None,
        forall|far: Far| (#[trigger] lit_ws(s, p, token, far)).value is None,
{
    lemma_token_first(token);
    let text = token_text(token);
    if text.len() > 0 && starts_with(s, p, text) {
        assert(s.subrange(p, p + text.len())[0] == text[0]);
    }
    assert forall|far: Far| (#[trigger] lit(s, p, token, far)).value is None by {
        reveal(lit);
    }
    assert forall|far: Far| (#[trigger] lit_ws(s, p, token, far)).value is None by {
        reveal(lit);
        reveal(lit_ws);
    }
}

/// A name does not start at the end of the input, nor at a character that
/// no name holds.
pub proof fn lemma_identifier_start(s: Seq<char>, p: int, far: Far)
    requires
        0 <= p <= s.len(),
        p == s.len() || !is_name_char(s[p]),
    ensures
        identifier(s, p, far).value is None,
{
    reveal(identifier);
}

/// `identifier_expr` does not match at the end of the input, nor at a character
/// that none of its matches starts with.
pub proof fn lemma_identifier_expr_start(s: Seq<char>, p: int, far: Far)
    requires
        0 <= p <= s.len(),
        p == s.len() || !starts_identifier_expr(s[p]),
    ensures
        identifier_expr(s, p, far).value is None,
{
    reveal(identifier_expr);
    lemma_identifier_start(s, p, far);
}

/// `integer_literal` does not match at the end of the input, nor at a character
/// that none of its matches starts with.
pub proof fn lemma_integer_literal_start(s: Seq<char>, p: int, far: Far)
    requires
        0 <= p <= s.len(),
        p == s.len() || !starts_integer_literal(s[p]),
    ensures
        integer_literal(s, p, far).value is None,
{
    reveal(integer_literal);
    reveal(sign);
    reveal(digits);
    lemma_lit_start(s, p, Token::Minus);
}

/// `float_literal` does not match at the end of the input, nor at a character
/// that none of its matches starts with.
pub proof fn lemma_float_literal_start(s: Seq<char>, p: int, far: Far)
    requires
        0 <= p <= s.len(),
        p == s.len() || !starts_float_literal(s[p]),
    ensures
        float_literal(s, p, far).value is None,
{
    reveal(float_literal);
    reveal(sign);
    reveal(digits);
    lemma_lit_start(s, p, Token::Minus);
}

/// `bool_literal` does not match at the end of the input, nor at a character that
/// none of its matches starts with.
pub proof fn lemma_bool_literal_start(s: Seq<char>, p: int, far: Far)
    requires
        0 <= p <= s.len(),
        p == s.len() || !starts_bool_literal(s[p]),
    ensures
        bool_literal(s, p, far).value is None,
{
    reveal(bool_literal);
    lemma_lit_start(s, p, Token::True);
    lemma_lit_start(s, p, Token::False);
}

/// `string_literal` does not match at the end of the input, nor at a character
/// that none of its matches starts with.
pub proof fn lemma_string_literal_start(s: Seq<char>, p: int, far: Far)
    requires
        0 <= p <= s.len(),
        p == s.len() || !starts_string_literal(s[p]),
    ensures
        string_literal(s, p, far).value is None,
{
    reveal(string_literal);
    lemma_lit_start(s, p, Token::Quote);
}

/// `char_literal` does not match at the end of the input, nor at a character that
/// none of its matches starts with.
pub proof fn lemma_char_literal_start(s: Seq<char>, p: int, far: Far)
    requires
        0 <= p <= s.len(),
        p == s.len() || !starts_char_literal(s[p]),
    ensures
        char_literal(s, p, far).value is None,
{
    reveal(char_literal);
    lemma_lit_start(s, p, Token::Apostrophe);
}

/// `pass` does not match at the end of the input, nor at a character that none of
/// its matches starts with.
pub proof fn lemma_pass_start(s: Seq<char>, p: int, far: Far)
    requires
        0 <= p <= s.len(),
        p == s.len() || !starts_pass(s[p]),
    ensures
        pass(s, p, far).value is None,
{
    reveal(pass);
    lemma_lit_start(s, p, Token::Pass);
}

/// `range_expr` does not match at the end of the input, nor at a character that
/// none of its matches starts with.
pub proof fn lemma_range_expr_start(s: Seq<char>, p: int, far: Far)
    requires
        0 <= p <= s.len(),
        p == s.len() || !starts_range_expr(s[p]),
    ensures
        range_expr(s, p, far).value is None,
{
    reveal(range_expr);
    reveal(range_bound);
    lemma_integer_literal_start(s, p, far);
    lemma_identifier_expr_start(s, p, integer_literal(s, p, far).far);
}

/// `unary_op` does not match at the end of the input, nor at a character that
/// none of its matches starts with.
#[verifier::spinoff_prover]
pub proof fn lemma_unary_op_start(s: Seq<char>, p: int, far: Far)
    requires
        0 <= p <= s.len(),
        p == s.len() || !starts_unary_op(s[p]),
    ensures
        unary_op(s, p, far).value is None,
{
    reveal(unary_op);
    lemma_lit_start(s, p, Token::Tilde);
    lemma_lit_start(s, p, Token::Amp);
    lemma_lit_start(s, p, Token::Star);
}

/// `add_op` does not match at the end of the input, nor at a character that none
/// of its matches starts with.
#[verifier::spinoff_prover]
pub proof fn lemma_add_op_start(s: Seq<char>, p: int, far: Far)
    requires
        0 <= p <= s.len(),
        p == s.len() || !starts_add_op(s[p]),
    ensures
        add_op(s, p, far).value is None,
{
    reveal(add_op);
    lemma_lit_start(s, p, Token::Plus);
    lemma_lit_start(s, p, Token::Minus);
}

/// `mul_op` does not match at the end of the input, nor at a character that none
/// of its matches starts with.
#[verifier::spinoff_prover]
pub proof fn lemma_mul_op_start(s: Seq<char>, p: int, far: Far)
    requires
        0 <= p <= s.len(),
        p == s.len() || !starts_mul_op(s[p]),
    ensures
        mul_op(s, p, far).value is None,
{
    reveal(mul_op);
    lemma_lit_start(s, p, Token::Star);
    lemma_lit_start(s, p, Token::Slash);
}

/// `compare_op` does not match at the end of the input, nor at a character that
/// none of its matches starts with.
#[verifier::spinoff_prover]
pub proof fn lemma_compare_op_start(s: Seq<char>, p: int, far: Far)
    requires
        0 <= p <= s.len(),
        p == s.len() || !starts_compare_op(s[p]),
    ensures
        compare_op(s, p, far).value is None,
{
    reveal(compare_op);
    lemma_lit_start(s, p, Token::Gte);
    lemma_lit_start(s, p, Token::Lte);
    lemma_lit_start(s, p, Token::Gt);
    lemma_lit_start(s, p, Token::Lt);
    lemma_lit_start(s, p, Token::Eq);
    lemma_lit_start(s, p, Token::Neq);
    lemma_lit_start(s, p, Token::And);
    lemma_lit_start(s, p, Token::Or);
}

/// `bit_op` does not match at the end of the input, nor at a character that none
/// of its matches starts with.
#[verifier::spinoff_prover]
pub proof fn lemma_bit_op_start(s: Seq<char>, p: int, far: Far)
    requires
        0 <= p <= s.len(),
        p == s.len() || !starts_bit_op(s[p]),
    ensures
        bit_op(s, p, far).value is None,
{
    reveal(bit_op);
    lemma_lit_start(s, p, Token::Shl);
    lemma_lit_start(s, p, Token::Shr);
    lemma_lit_start(s, p, Token::Band);
    lemma_lit_start(s, p, Token::Bor);
    lemma_lit_start(s, p, Token::Xor);
    lemma_lit_start(s, p, Token::Rotl);
    lemma_lit_start(s, p, Token::Rotr);
}

/// `type_alias_plain` does not match at the end of the input, nor at a character
/// that none of its matches starts with.
#[verifier::spinoff_prover]
pub proof fn lemma_type_alias_plain_start(s: Seq<char>, p: int, far: Far)
    requires
        0 <= p <= s.len(),
        p == s.len() || !starts_type_alias_plain(s[p]),
    ensures
        type_alias_plain(s, p, far).value is None,
{
    reveal(type_alias_plain);
    reveal(typed_expr);
    lemma_lit_start(s, p, Token::Type);
}

/// `type_alias_generic` does not match at the end of the input, nor at a
/// character that none of its matches starts with.
#[verifier::spinoff_prover]
pub proof fn lemma_type_alias_generic_start(s: Seq<char>, p: int, far: Far)
    requires
        0 <= p <= s.len(),
        p == s.len() || !starts_type_alias_generic(s[p]),
    ensures
        type_alias_generic(s, p, far).value is None,
{
    reveal(type_alias_generic);
    reveal(type_generic);
    reveal(typed_expr);
    lemma_lit_start(s, p, Token::Type);
}

/// `type_alias` does not match at the end of the input, nor at a character that
/// none of its matches starts with.
#[verifier::spinoff_prover]
pub proof fn lemma_type_alias_start(s: Seq<char>, p: int, far: Far)
    requires
        0 <= p <= s.len(),
        p == s.len() || !starts_type_alias(s[p]),
    ensures
        type_alias(s, p, far).value is None,
{
    reveal(type_alias);
    reveal(type_alias_plain);
    reveal(type_alias_generic);
    lemma_type_alias_plain_start(s, p, far);
    let after_type_alias_plain = type_alias_plain(s, p, far).far;
    lemma_type_alias_generic_start(s, p, after_type_alias_plain);
}

/// `member_expr` does not match at the end of the input, nor at a character that
/// none of its matches starts with.
#[verifier::spinoff_prover]
pub proof fn lemma_member_expr_start(s: Seq<char>, p: int, far: Far)
    requires
        0 <= p <= s.len(),
        p == s.len() || !starts_member_expr(s[p]),
    ensures
        member_expr(s, p, far).value is None,
{
    reveal(member_expr);
    reveal(segments);
    lemma_identifier_expr_start(s, p, far);
}

/// `callee` does not match at the end of the input, nor at a character that none
/// of its matches starts with.
#[verifier::spinoff_prover]
pub proof fn lemma_callee_start(s: Seq<char>, p: int, far: Far)
    requires
        0 <= p <= s.len(),
        p == s.len() || !starts_callee(s[p]),
    ensures
        callee(s, p, far).value is None,
{
    reveal(callee);
    reveal(fn_expr);
    reveal(member_expr);
    lemma_fn_expr_start(s, p, far);
    let after_fn_expr = fn_expr(s, p, far).far;
    lemma_identifier_expr_start(s, p, after_fn_expr);
    let after_identifier_expr = identifier_expr(s, p, after_fn_expr).far;
    lemma_member_expr_start(s, p, after_identifier_expr);
}

/// `typed_callee` does not match at the end of the input, nor at a character that
/// none of its matches starts with.
#[verifier::spinoff_prover]
pub proof fn lemma_typed_callee_start(s: Seq<char>, p: int, far: Far)
    requires
        0 <= p <= s.len(),
        p == s.len() || !starts_typed_callee(s[p]),
    ensures
        typed_callee(s, p, far).value is None,
{
    reveal(typed_callee);
    reveal(member_expr);
    lemma_identifier_expr_start(s, p, far);
    let after_identifier_expr = identifier_expr(s, p, far).far;
    lemma_member_expr_start(s, p, after_identifier_expr);
}

/// `call_plain` does not match at the end of the input, nor at a character that
/// none of its matches starts with.
#[verifier::spinoff_prover]
pub proof fn lemma_call_plain_start(s: Seq<char>, p: int, far: Far)
    requires
        0 <= p <= s.len(),
        p == s.len() || !starts_call_plain(s[p]),
    ensures
        call_plain(s, p, far).value is None,
{
    reveal(call_plain);
    reveal(callee);
    reveal(args);
    lemma_callee_start(s, p, far);
}

/// `call_typed` does not match at the end of the input, nor at a character that
/// none of its matches starts with.
#[verifier::spinoff_prover]
pub proof fn lemma_call_typed_start(s: Seq<char>, p: int, far: Far)
    requires
        0 <= p <= s.len(),
        p == s.len() || !starts_call_typed(s[p]),
    ensures
        call_typed(s, p, far).value is None,
{
    reveal(call_typed);
    reveal(typed_callee);
    reveal(type_generic);
    reveal(args);
    lemma_typed_callee_start(s, p, far);
}

/// `call_expr` does not match at the end of the input, nor at a character that
/// none of its matches starts with.
#[verifier::spinoff_prover]
pub proof fn lemma_call_expr_start(s: Seq<char>, p: int, far: Far)
    requires
        0 <= p <= s.len(),
        p == s.len() || !starts_call_expr(s[p]),
    ensures
        call_expr(s, p, far).value is None,
{
    reveal(call_expr);
    reveal(call_plain);
    reveal(call_typed);
    lemma_call_plain_start(s, p, far);
    let after_call_plain = call_plain(s, p, far).far;
    lemma_call_typed_start(s, p, after_call_plain);
}

/// `directive_expr` does not match at the end of the input, nor at a character
/// that none of its matches starts with.
#[verifier::spinoff_prover]
pub proof fn lemma_directive_expr_start(s: Seq<char>, p: int, far: Far)
    requires
        0 <= p <= s.len(),
        p == s.len() || !starts_directive_expr(s[p]),
    ensures
        directive_expr(s, p, far).value is None,
{
    reveal(directive_expr);
    reveal(directive_name);
    reveal(primary);
    lemma_lit_start(s, p, Token::At);
}

/// `let_plain` does not match at the end of the input, nor at a character that
/// none of its matches starts with.
#[verifier::spinoff_prover]
pub proof fn lemma_let_plain_start(s: Seq<char>, p: int, far: Far)
    requires
        0 <= p <= s.len(),
        p == s.len() || !starts_let_plain(s[p]),
    ensures
        let_plain(s, p, far).value is None,
{
    reveal(let_plain);
    reveal(expr);
    lemma_lit_start(s, p, Token::Let);
}

/// `let_typed` does not match at the end of the input, nor at a character that
/// none of its matches starts with.
#[verifier::spinoff_prover]
pub proof fn lemma_let_typed_start(s: Seq<char>, p: int, far: Far)
    requires
        0 <= p <= s.len(),
        p == s.len() || !starts_let_typed(s[p]),
    ensures
        let_typed(s, p, far).value is None,
{
    reveal(let_typed);
    reveal(typed_expr);
    reveal(expr);
    lemma_lit_start(s, p, Token::Let);
}

/// `let_binding` does not match at the end of the input, nor at a character that
/// none of its matches starts with.
#[verifier::spinoff_prover]
pub proof fn lemma_let_binding_start(s: Seq<char>, p: int, far: Far)
    requires
        0 <= p <= s.len(),
        p == s.len() || !starts_let_binding(s[p]),
    ensures
        let_binding(s, p, far).value is None,
{
    reveal(let_binding);
    reveal(let_plain);
    reveal(let_typed);
    lemma_let_plain_start(s, p, far);
    let after_let_plain = let_plain(s, p, far).far;
    lemma_let_typed_start(s, p, after_let_plain);
}

/// `assignable` does not match at the end of the input, nor at a character that
/// none of its matches starts with.
#[verifier::spinoff_prover]
pub proof fn lemma_assignable_start(s: Seq<char>, p: int, far: Far)
    requires
        0 <= p <= s.len(),
        p == s.len() || !starts_assignable(s[p]),
    ensures
        assignable(s, p, far).value is None,
{
    reveal(assignable);
    reveal(member_expr);
    lemma_member_expr_start(s, p, far);
    let after_member_expr = member_expr(s, p, far).far;
    lemma_identifier_expr_start(s, p, after_member_expr);
}

/// `assign` does not match at the end of the input, nor at a character that none
/// of its matches starts with.
#[verifier::spinoff_prover]
pub proof fn lemma_assign_start(s: Seq<char>, p: int, far: Far)
    requires
        0 <= p <= s.len(),
        p == s.len() || !starts_assign(s[p]),
    ensures
        assign(s, p, far).value is None,
{
    reveal(assign);
    reveal(assignable);
    reveal(expr);
    lemma_assignable_start(s, p, far);
}

/// `paren_expr` does not match at the end of the input, nor at a character that
/// none of its matches starts with.
#[verifier::spinoff_prover]
pub proof fn lemma_paren_expr_start(s: Seq<char>, p: int, far: Far)
    requires
        0 <= p <= s.len(),
        p == s.len() || !starts_paren_expr(s[p]),
    ensures
        paren_expr(s, p, far).value is None,
{
    reveal(paren_expr);
    reveal(expr);
    lemma_lit_start(s, p, Token::LParen);
}

/// `list` does not match at the end of the input, nor at a character that none of
/// its matches starts with.
#[verifier::spinoff_prover]
pub proof fn lemma_list_start(s: Seq<char>, p: int, far: Far)
    requires
        0 <= p <= s.len(),
        p == s.len() || !starts_list(s[p]),
    ensures
        list(s, p, far).value is None,
{
    reveal(list);
    reveal(args);
    lemma_lit_start(s, p, Token::LBracket);
}

/// `record` does not match at the end of the input, nor at a character that none
/// of its matches starts with.
#[verifier::spinoff_prover]
pub proof fn lemma_record_start(s: Seq<char>, p: int, far: Far)
    requires
        0 <= p <= s.len(),
        p == s.len() || !starts_record(s[p]),
    ensures
        record(s, p, far).value is None,
{
    reveal(record);
    reveal(record_entries);
    lemma_lit_start(s, p, Token::LBrace);
}

/// `struct_expr` does not match at the end of the input, nor at a character that
/// none of its matches starts with.
#[verifier::spinoff_prover]
pub proof fn lemma_struct_expr_start(s: Seq<char>, p: int, far: Far)
    requires
        0 <= p <= s.len(),
        p == s.len() || !starts_struct_expr(s[p]),
    ensures
        struct_expr(s, p, far).value is None,
{
    reveal(struct_expr);
    reveal(struct_entries);
    lemma_lit_start(s, p, Token::Struct);
}

/// `if_plain` does not match at the end of the input, nor at a character that
/// none of its matches starts with.
#[verifier::spinoff_prover]
pub proof fn lemma_if_plain_start(s: Seq<char>, p: int, far: Far)
    requires
        0 <= p <= s.len(),
        p == s.len() || !starts_if_plain(s[p]),
    ensures
        if_plain(s, p, far).value is None,
{
    reveal(if_plain);
    reveal(expr);
    reveal(body_expr);
    lemma_lit_start(s, p, Token::If);
}

/// `if_else` does not match at the end of the input, nor at a character that none
/// of its matches starts with.
#[verifier::spinoff_prover]
pub proof fn lemma_if_else_start(s: Seq<char>, p: int, far: Far)
    requires
        0 <= p <= s.len(),
        p == s.len() || !starts_if_else(s[p]),
    ensures
        if_else(s, p, far).value is None,
{
    reveal(if_else);
    reveal(expr);
    reveal(body_expr);
    lemma_lit_start(s, p, Token::If);
}

/// `if_expr` does not match at the end of the input, nor at a character that none
/// of its matches starts with.
#[verifier::spinoff_prover]
pub proof fn lemma_if_expr_start(s: Seq<char>, p: int, far: Far)
    requires
        0 <= p <= s.len(),
        p == s.len() || !starts_if_expr(s[p]),
    ensures
        if_expr(s, p, far).value is None,
{
    reveal(if_expr);
    reveal(if_plain);
    reveal(if_else);
    lemma_if_plain_start(s, p, far);
    let after_if_plain = if_plain(s, p, far).far;
    lemma_if_else_start(s, p, after_if_plain);
}

/// `loop_expr` does not match at the end of the input, nor at a character that
/// none of its matches starts with.
#[verifier::spinoff_prover]
pub proof fn lemma_loop_expr_start(s: Seq<char>, p: int, far: Far)
    requires
        0 <= p <= s.len(),
        p == s.len() || !starts_loop_expr(s[p]),
    ensures
        loop_expr(s, p, far).value is None,
{
    reveal(loop_expr);
    reveal(expr);
    reveal(primary);
    reveal(body_expr);
    lemma_lit_start(s, p, Token::For);
}

/// `fn_expr` does not match at the end of the input, nor at a character that none
/// of its matches starts with.
#[verifier::spinoff_prover]
pub proof fn lemma_fn_expr_start(s: Seq<char>, p: int, far: Far)
    requires
        0 <= p <= s.len(),
        p == s.len() || !starts_fn_expr(s[p]),
    ensures
        fn_expr(s, p, far).value is None,
{
    reveal(fn_expr);
    reveal(fn_args);
    reveal(body_expr);
    lemma_lit_start(s, p, Token::Pipe);
}

/// `match_expr` does not match at the end of the input, nor at a character that
/// none of its matches starts with.
#[verifier::spinoff_prover]
pub proof fn lemma_match_expr_start(s: Seq<char>, p: int, far: Far)
    requires
        0 <= p <= s.len(),
        p == s.len() || !starts_match_expr(s[p]),
    ensures
        match_expr(s, p, far).value is None,
{
    reveal(match_expr);
    reveal(expr);
    reveal(match_cases);
    lemma_lit_start(s, p, Token::Match);
}

/// `primary` does not match at the end of the input, nor at a character that none
/// of its matches starts with.
#[verifier::spinoff_prover]
pub proof fn lemma_primary_start(s: Seq<char>, p: int, far: Far)
    requires
        0 <= p <= s.len(),
        p == s.len() || !starts_primary(s[p]),
    ensures
        primary(s, p, far).value is None,
{
    reveal(primary);
    reveal(assign);
    reveal(paren_expr);
    reveal(directive_expr);
    reveal(match_expr);
    reveal(struct_expr);
    reveal(type_alias);
    reveal(call_expr);
    reveal(member_expr);
    reveal(loop_expr);
    reveal(if_expr);
    reveal(fn_expr);
    reveal(let_binding);
    reveal(list);
    reveal(record);
    lemma_assign_start(s, p, far);
    let after_assign = assign(s, p, far).far;
    lemma_paren_expr_start(s, p, after_assign);
    let after_paren_expr = paren_expr(s, p, after_assign).far;
    lemma_directive_expr_start(s, p, after_paren_expr);
    let after_directive_expr = directive_expr(s, p, after_paren_expr).far;
    lemma_match_expr_start(s, p, after_directive_expr);
    let after_match_expr = match_expr(s, p, after_directive_expr).far;
    lemma_struct_expr_start(s, p, after_match_expr);
    let after_struct_expr = struct_expr(s, p, after_match_expr).far;
    lemma_type_alias_start(s, p, after_struct_expr);
    let after_type_alias = type_alias(s, p, after_struct_expr).far;
    lemma_call_expr_start(s, p, after_type_alias);
    let after_call_expr = call_expr(s, p, after_type_alias).far;
    lemma_range_expr_start(s, p, after_call_expr);
    let after_range_expr = range_expr(s, p, after_call_expr).far;
    lemma_member_expr_start(s, p, after_range_expr);
    let after_member_expr = member_expr(s, p, after_range_expr).far;
    lemma_loop_expr_start(s, p, after_member_expr);
    let after_loop_expr = loop_expr(s, p, after_member_expr).far;
    lemma_if_expr_start(s, p, after_loop_expr);
    let after_if_expr = if_expr(s, p, after_loop_expr).far;
    lemma_fn_expr_start(s, p, after_if_expr);
    let after_fn_expr = fn_expr(s, p, after_if_expr).far;
    lemma_let_binding_start(s, p, after_fn_expr);
    let after_let_binding = let_binding(s, p, after_fn_expr).far;
    lemma_pass_start(s, p, after_let_binding);
    let after_pass = pass(s, p, after_let_binding).far;
    lemma_bool_literal_start(s, p, after_pass);
    let after_bool_literal = bool_literal(s, p, after_pass).far;
    lemma_float_literal_start(s, p, after_bool_literal);
    let after_float_literal = float_literal(s, p, after_bool_literal).far;
    lemma_integer_literal_start(s, p, after_float_literal);
    let after_integer_literal = integer_literal(s, p, after_float_literal).far;
    lemma_string_literal_start(s, p, after_integer_literal);
    let after_string_literal = string_literal(s, p, after_integer_literal).far;
    lemma_char_literal_start(s, p, after_string_literal);
    let after_char_literal = char_literal(s, p, after_string_literal).far;
    lemma_identifier_expr_start(s, p, after_char_literal);
    let after_identifier_expr = identifier_expr(s, p, after_char_literal).far;
    lemma_list_start(s, p, after_identifier_expr);
    let after_list = list(s, p, after_identifier_expr).far;
    lemma_record_start(s, p, after_list);
}

/// `bit` does not match at the end of the input, nor at a character that none of
/// its matches starts with.
#[verifier::spinoff_prover]
pub proof fn lemma_bit_start(s: Seq<char>, p: int, far: Far)
    requires
        0 <= p <= s.len(),
        p == s.len() || !starts_bit(s[p]),
    ensures
        bit(s, p, far).value is None,
{
    reveal(bit);
    reveal(primary);
    lemma_primary_start(s, p, far);
}

/// `compare_form` does not match at the end of the input, nor at a character that
/// none of its matches starts with.
#[verifier::spinoff_prover]
pub proof fn lemma_compare_form_start(s: Seq<char>, p: int, far: Far)
    requires
        0 <= p <= s.len(),
        p == s.len() || !starts_compare_form(s[p]),
    ensures
        compare_form(s, p, far).value is None,
{
    reveal(compare_form);
    reveal(primary);
    lemma_primary_start(s, p, far);
}

/// `compare` does not match at the end of the input, nor at a character that none
/// of its matches starts with.
#[verifier::spinoff_prover]
pub proof fn lemma_compare_start(s: Seq<char>, p: int, far: Far)
    requires
        0 <= p <= s.len(),
        p == s.len() || !starts_compare(s[p]),
    ensures
        compare(s, p, far).value is None,
{
    reveal(compare);
    reveal(compare_form);
    reveal(primary);
    lemma_compare_form_start(s, p, far);
    let after_compare_form = compare_form(s, p, far).far;
    lemma_primary_start(s, p, after_compare_form);
}

/// `mul_form` does not match at the end of the input, nor at a character that
/// none of its matches starts with.
#[verifier::spinoff_prover]
pub proof fn lemma_mul_form_start(s: Seq<char>, p: int, far: Far)
    requires
        0 <= p <= s.len(),
        p == s.len() || !starts_mul_form(s[p]),
    ensures
        mul_form(s, p, far).value is None,
{
    reveal(mul_form);
    reveal(primary);
    lemma_primary_start(s, p, far);
}

/// `mul_div` does not match at the end of the input, nor at a character that none
/// of its matches starts with.
#[verifier::spinoff_prover]
pub proof fn lemma_mul_div_start(s: Seq<char>, p: int, far: Far)
    requires
        0 <= p <= s.len(),
        p == s.len() || !starts_mul_div(s[p]),
    ensures
        mul_div(s, p, far).value is None,
{
    reveal(mul_div);
    reveal(mul_form);
    reveal(bit);
    reveal(compare);
    lemma_mul_form_start(s, p, far);
    let after_mul_form = mul_form(s, p, far).far;
    lemma_bit_start(s, p, after_mul_form);
    let after_bit = bit(s, p, after_mul_form).far;
    lemma_compare_start(s, p, after_bit);
}

/// `add_form` does not match at the end of the input, nor at a character that
/// none of its matches starts with.
#[verifier::spinoff_prover]
pub proof fn lemma_add_form_start(s: Seq<char>, p: int, far: Far)
    requires
        0 <= p <= s.len(),
        p == s.len() || !starts_add_form(s[p]),
    ensures
        add_form(s, p, far).value is None,
{
    reveal(add_form);
    reveal(mul_div);
    lemma_mul_div_start(s, p, far);
}

/// `add_sub` does not match at the end of the input, nor at a character that none
/// of its matches starts with.
#[verifier::spinoff_prover]
pub proof fn lemma_add_sub_start(s: Seq<char>, p: int, far: Far)
    requires
        0 <= p <= s.len(),
        p == s.len() || !starts_add_sub(s[p]),
    ensures
        add_sub(s, p, far).value is None,
{
    reveal(add_sub);
    reveal(add_form);
    reveal(mul_div);
    lemma_add_form_start(s, p, far);
    let after_add_form = add_form(s, p, far).far;
    lemma_mul_div_start(s, p, after_add_form);
}

/// `unary` does not match at the end of the input, nor at a character that none
/// of its matches starts with.
#[verifier::spinoff_prover]
pub proof fn lemma_unary_start(s: Seq<char>, p: int, far: Far)
    requires
        0 <= p <= s.len(),
        p == s.len() || !starts_unary(s[p]),
    ensures
        unary(s, p, far).value is None,
{
    reveal(unary);
    reveal(unary_ops);
    reveal(primary);
    reveal(unary_ops);
    lemma_unary_op_start(s, p, far);
    lemma_primary_start(s, p, unary_ops(s, p, far).far);
}

/// `expr` does not match at the end of the input, nor at a character that none of
/// its matches starts with.
#[verifier::spinoff_prover]
pub proof fn lemma_expr_start(s: Seq<char>, p: int, far: Far)
    requires
        0 <= p <= s.len(),
        p == s.len() || !starts_expr(s[p]),
    ensures
        expr(s, p, far).value is None,
{
    reveal(expr);
    reveal(add_sub);
    reveal(unary);
    reveal(bit);
    reveal(compare);
    reveal(primary);
    lemma_add_sub_start(s, p, far);
    let after_add_sub = add_sub(s, p, far).far;
    lemma_unary_start(s, p, after_add_sub);
    let after_unary = unary(s, p, after_add_sub).far;
    lemma_bit_start(s, p, after_unary);
    let after_bit = bit(s, p, after_unary).far;
    lemma_compare_start(s, p, after_bit);
    let after_compare = compare(s, p, after_bit).far;
    lemma_primary_start(s, p, after_compare);
}

} // verus!
