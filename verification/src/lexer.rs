//! The rules of the grammar that read characters: literals, names, numbers,
//! blanks and comments. Each function is proved to compute the rule of the
//! same name in `grammar`.

use vstd::prelude::*;
use crate::ast::{Expr};
use crate::grammar;
use crate::token::{token_text, Furthest, Token};

verus! {

/// Whether the text of `token` stands in the input at `p`.
pub fn is_at(input: &Vec<char>, p: usize, token: Token) -> (found: bool)
    requires
        p <= input.len(),
    ensures
        found == grammar::stands_at(input@, p as int, token),
{
    let text = token.text();
    let n = text.unicode_len();
    if n == 0 || n > input.len() - p {
        return false;
    }
    let mut i: usize = 0;
    while i < n
        invariant
            i <= n,
            n == text@.len(),
            text@ == token_text(token),
            p + n <= input.len(),
            forall|j: int| 0 <= j < i ==> input@[p + j] == text@[j],
        decreases n - i,
    {
        if input[p + i] != text.get_char(i) {
            assert(input@.subrange(p as int, p + n)[i as int] != text@[i as int]);
            return false;
        }
        i += 1;
    }
    assert(input@.subrange(p as int, p + n) =~= text@);
    true
}

/// The rule `lit`: a literal of the grammar.
pub fn lit(input: &Vec<char>, p: usize, token: Token, far: &mut Furthest) -> (end: Option<usize>)
    requires
        p <= input.len(),
    ensures
        ({
            let step = grammar::lit(input@, p as int, token, old(far)@);
            &&& final(far)@ == step.far
            &&& match end {
                Some(e) => step.value is Some && step.end == e && p < e <= input.len(),
                None => step.value is None,
            }
        }),
{
    proof {
        reveal(grammar::lit);
    }
    if is_at(input, p, token) {
        Some(p + token.text().unicode_len())
    } else {
        far.mark(p, token);
        None
    }
}

/// The character at position `i`.
pub fn char_at(input: &Vec<char>, i: usize) -> (c: char)
    requires
        i < input.len(),
    ensures
        c == input@[i as int],
{
    input[i]
}

/// Whether a character is a blank: a space, a tab, a line feed or a carriage return.
pub fn is_blank(c: char) -> (yes: bool)
    ensures
        yes == grammar::is_blank(c),
{
    c == ' ' || c == '\t' || c == '\n' || c == '\r'
}

/// Whether a character can stand in a name: a letter or an underscore.
pub fn is_name_char(c: char) -> (yes: bool)
    ensures
        yes == grammar::is_name_char(c),
{
    ('a' <= c && c <= 'z') || ('A' <= c && c <= 'Z') || c == '_'
}

/// Whether a character is a decimal digit.
pub fn is_digit(c: char) -> (yes: bool)
    ensures
        yes == grammar::is_digit(c),
{
    '0' <= c && c <= '9'
}

/// The end of the run of blanks that starts at `p`.
pub fn blanks_end(input: &Vec<char>, p: usize) -> (end: usize)
    requires
        p <= input.len(),
    ensures
        end == grammar::blanks_end(input@, p as int),
        p <= end <= input.len(),
{
    let mut i: usize = p;
    while i < input.len() && is_blank(input[i])
        invariant
            p <= i <= input.len(),
            grammar::blanks_end(input@, p as int) == grammar::blanks_end(input@, i as int),
        decreases input.len() - i,
    {
        i += 1;
    }
    i
}

/// The end of the run of name characters that starts at `p`.
pub fn name_end(input: &Vec<char>, p: usize) -> (end: usize)
    requires
        p <= input.len(),
    ensures
        end == grammar::name_end(input@, p as int),
        p <= end <= input.len(),
{
    let mut i: usize = p;
    while i < input.len() && is_name_char(input[i])
        invariant
            p <= i <= input.len(),
            grammar::name_end(input@, p as int) == grammar::name_end(input@, i as int),
        decreases input.len() - i,
    {
        i += 1;
    }
    i
}

/// The end of the run of digits that starts at `p`.
pub fn digits_end(input: &Vec<char>, p: usize) -> (end: usize)
    requires
        p <= input.len(),
    ensures
        end == grammar::digits_end(input@, p as int),
        p <= end <= input.len(),
{
    let mut i: usize = p;
    while i < input.len() && is_digit(input[i])
        invariant
            p <= i <= input.len(),
            grammar::digits_end(input@, p as int) == grammar::digits_end(input@, i as int),
        decreases input.len() - i,
    {
        i += 1;
    }
    i
}

/// The first position from `p` on that holds `stop`, or the end of the input.
pub fn until(input: &Vec<char>, p: usize, stop: char) -> (end: usize)
    requires
        p <= input.len(),
    ensures
        end == grammar::until(input@, p as int, stop),
        p <= end <= input.len(),
        end < input.len() ==> input@[end as int] == stop,
{
    let mut i: usize = p;
    while i < input.len() && input[i] != stop
        invariant
            p <= i <= input.len(),
            grammar::until(input@, p as int, stop) == grammar::until(input@, i as int, stop),
        decreases input.len() - i,
    {
        i += 1;
    }
    i
}

/// The rule `comment`.
pub fn comment(input: &Vec<char>, p: usize, far: &mut Furthest) -> (end: Option<usize>)
    requires
        p <= input.len(),
    ensures
        ({
            let step = grammar::comment(input@, p as int, old(far)@);
            &&& final(far)@ == step.far
            &&& match end {
                Some(e) => step.value is Some && step.end == e && p < e <= input.len(),
                None => step.value is None,
            }
        }),
{
    proof {
        reveal(grammar::comment);
        reveal(grammar::lit);
    }
    let start = match lit(input, p, Token::CommentOpen, far) {
        Some(end) => end,
        None => {
            return None;
        },
    };
    let mut i: usize = start;
    while i < input.len() && !is_at(input, i, Token::CommentClose)
        invariant
            start <= i <= input.len(),
            grammar::comment_close(input@, start as int) == grammar::comment_close(
                input@,
                i as int,
            ),
        decreases input.len() - i,
    {
        i += 1;
    }
    if i < input.len() {
        Some(i + Token::CommentClose.text().unicode_len())
    } else {
        far.mark(i, Token::AnyChar);
        far.mark(i, Token::CommentClose);
        None
    }
}

/// The rule `_`: blanks and comments, as many as there are.
pub fn skip(input: &Vec<char>, p: usize, far: &mut Furthest) -> (end: usize)
    requires
        p <= input.len(),
    ensures
        ({
            let step = grammar::skip(input@, p as int, old(far)@);
            &&& final(far)@ == step.far
            &&& step.value is Some
            &&& step.end == end
            &&& p <= end <= input.len()
        }),
{
    proof {
        reveal(grammar::skip);
    }
    let mut pos: usize = p;
    loop
        invariant
            p <= pos <= input.len(),
            grammar::skip(input@, p as int, old(far)@) == grammar::skip(
                input@,
                pos as int,
                far@,
            ),
        decreases input.len() - pos,
    {
        proof {
            reveal(grammar::skip);
        }
        let blank = blanks_end(input, pos);
        if blank > pos {
            pos = blank;
        } else {
            match comment(input, pos, far) {
                Some(end) => {
                    pos = end;
                },
                None => {
                    return pos;
                },
            }
        }
    }
}

/// The rule `lit_ws`: a literal and what can be skipped after it.
pub fn lit_ws(input: &Vec<char>, p: usize, token: Token, far: &mut Furthest) -> (end: Option<usize>)
    requires
        p <= input.len(),
    ensures
        ({
            let step = grammar::lit_ws(input@, p as int, token, old(far)@);
            &&& final(far)@ == step.far
            &&& match end {
                Some(e) => step.value is Some && step.end == e && p < e <= input.len(),
                None => step.value is None,
            }
        }),
{
    proof {
        reveal(grammar::lit_ws);
    }
    match lit(input, p, token, far) {
        Some(end) => Some(skip(input, end, far)),
        None => None,
    }
}

/// The rule `ws_lit`: what can be skipped, and a literal after it.
pub fn ws_lit(input: &Vec<char>, p: usize, token: Token, far: &mut Furthest) -> (end: Option<usize>)
    requires
        p <= input.len(),
    ensures
        ({
            let step = grammar::ws_lit(input@, p as int, token, old(far)@);
            &&& final(far)@ == step.far
            &&& match end {
                Some(e) => step.value is Some && step.end == e && p < e <= input.len(),
                None => step.value is None,
            }
        }),
{
    proof {
        reveal(grammar::ws_lit);
    }
    let gap = skip(input, p, far);
    lit(input, gap, token, far)
}

/// The rule `ws_lit_ws`: a literal with what can be skipped on both sides of it.
pub fn ws_lit_ws(input: &Vec<char>, p: usize, token: Token, far: &mut Furthest) -> (end: Option<
    usize,
>)
    requires
        p <= input.len(),
    ensures
        ({
            let step = grammar::ws_lit_ws(input@, p as int, token, old(far)@);
            &&& final(far)@ == step.far
            &&& match end {
                Some(e) => step.value is Some && step.end == e && p < e <= input.len(),
                None => step.value is None,
            }
        }),
{
    proof {
        reveal(grammar::ws_lit_ws);
    }
    let gap = skip(input, p, far);
    lit_ws(input, gap, token, far)
}

/// Appends the characters of the input from `from` up to `to`.
pub fn push_range(out: &mut String, input: &Vec<char>, from: usize, to: usize)
    requires
        from <= to <= input.len(),
    ensures
        final(out)@ == old(out)@ + input@.subrange(from as int, to as int),
{
    let mut i: usize = from;
    while i < to
        invariant
            from <= i <= to,
            to <= input.len(),
            out@ =~= old(out)@ + input@.subrange(from as int, i as int),
        decreases to - i,
    {
        out.push(input[i]);
        i += 1;
    }
}

/// The characters of the input from `from` up to `to`.
pub fn range_string(input: &Vec<char>, from: usize, to: usize) -> (out: String)
    requires
        from <= to <= input.len(),
    ensures
        out@ == input@.subrange(from as int, to as int),
{
    let mut out = String::new();
    push_range(&mut out, input, from, to);
    assert(out@ =~= input@.subrange(from as int, to as int));
    out
}

/// The rule `identifier`.
pub fn identifier(input: &Vec<char>, p: usize, far: &mut Furthest) -> (r: Option<(String, usize)>)
    requires
        p <= input.len(),
    ensures
        ({
            let step = grammar::identifier(input@, p as int, old(far)@);
            &&& final(far)@ == step.far
            &&& match r {
                Some((name, end)) => step.value == Some(name@) && step.end == end && p < end
                    <= input.len(),
                None => step.value is None,
            }
        }),
{
    proof {
        reveal(grammar::identifier);
    }
    let end = name_end(input, p);
    if end > p {
        Some((range_string(input, p, end), end))
    } else {
        far.mark(p, Token::Identifier);
        None
    }
}

/// The rule `digits`: the end of one or more digits.
pub fn digits(input: &Vec<char>, p: usize, far: &mut Furthest) -> (r: Option<usize>)
    requires
        p <= input.len(),
    ensures
        ({
            let step = grammar::digits(input@, p as int, old(far)@);
            &&& final(far)@ == step.far
            &&& match r {
                Some(end) => step.value == Some(input@.subrange(p as int, end as int))
                    && step.end == end && p < end <= input.len(),
                None => step.value is None,
            }
        }),
{
    proof {
        reveal(grammar::digits);
    }
    let end = digits_end(input, p);
    far.mark(end, Token::Digit);
    if end > p {
        Some(end)
    } else {
        None
    }
}

/// The rule `sign`: whether a `-` is there, and where the numeral goes on.
pub fn sign(input: &Vec<char>, p: usize, far: &mut Furthest) -> (r: (bool, usize))
    requires
        p <= input.len(),
    ensures
        ({
            let step = grammar::sign(input@, p as int, old(far)@);
            &&& final(far)@ == step.far
            &&& step.value == Some(r.0)
            &&& step.end == r.1
            &&& p <= r.1 <= input.len()
        }),
{
    proof {
        reveal(grammar::sign);
    }
    match lit(input, p, Token::Minus, far) {
        Some(end) => (true, end),
        None => (false, p),
    }
}

/// The number that a digit character stands for.
pub fn digit_value(c: char) -> (d: u64)
    ensures
        d == grammar::digit_of(c),
        d <= 9,
{
    if c == '1' {
        1
    } else if c == '2' {
        2
    } else if c == '3' {
        3
    } else if c == '4' {
        4
    } else if c == '5' {
        5
    } else if c == '6' {
        6
    } else if c == '7' {
        7
    } else if c == '8' {
        8
    } else if c == '9' {
        9
    } else {
        0
    }
}

/// The number that the digits from `from` up to `to` stand for, if it is at
/// most `limit`.
pub fn digits_number(input: &Vec<char>, from: usize, to: usize, limit: u64) -> (r: Option<u64>)
    requires
        from <= to <= input.len(),
        9 <= limit <= 9223372036854775808,
    ensures
        match r {
            Some(n) => n == grammar::digits_value(input@.subrange(from as int, to as int)) && n
                <= limit,
            None => grammar::digits_value(input@.subrange(from as int, to as int)) > limit,
        },
{
    let mut acc: u64 = 0;
    let mut over: bool = false;
    let mut i: usize = from;
    assert(input@.subrange(from as int, from as int) =~= Seq::<char>::empty());
    while i < to
        invariant
            from <= i <= to,
            to <= input.len(),
            9 <= limit <= 9223372036854775808,
            !over ==> acc == grammar::digits_value(input@.subrange(from as int, i as int)) && acc
                <= limit,
            over ==> grammar::digits_value(input@.subrange(from as int, i as int)) > limit,
        decreases to - i,
    {
        let d = digit_value(input[i]);
        proof {
            let next = input@.subrange(from as int, i + 1);
            assert(next.drop_last() =~= input@.subrange(from as int, i as int));
            assert(next.last() == input@[i as int]);
        }
        if !over {
            if acc > (limit - d) / 10 {
                over = true;
            } else {
                acc = acc * 10 + d;
            }
        }
        i += 1;
    }
    if over {
        None
    } else {
        Some(acc)
    }
}

/// The rule `integer_literal`.
pub fn integer_literal(input: &Vec<char>, p: usize, far: &mut Furthest) -> (r: Option<
    (Expr, usize),
>)
    requires
        p <= input.len(),
    ensures
        ({
            let step = grammar::integer_literal(input@, p as int, old(far)@);
            &&& final(far)@ == step.far
            &&& match r {
                Some((value, end)) => step.value == Some(value@) && step.end == end && p < end
                    <= input.len(),
                None => step.value is None,
            }
        }),
{
    proof {
        reveal(grammar::integer_literal);
    }
    let (negative, start) = sign(input, p, far);
    let end = match digits(input, start, far) {
        Some(end) => end,
        None => {
            return None;
        },
    };
    let limit: u64 = if negative {
        9223372036854775808
    } else {
        9223372036854775807
    };
    match digits_number(input, start, end, limit) {
        Some(magnitude) => {
            if !negative {
                Some((Expr::Int(magnitude as i64), end))
            } else if magnitude == 9223372036854775808 {
                Some((Expr::Int(i64::MIN), end))
            } else {
                Some((Expr::Int(-(magnitude as i64)), end))
            }
        },
        None => {
            far.mark(end, Token::I64);
            None
        },
    }
}

/// The canonical text of a decimal numeral whose whole part stands in the
/// input from `w0` up to `w1` and whose fraction stands from `f0` up to `f1`.
pub fn decimal_string(
    input: &Vec<char>,
    negative: bool,
    w0: usize,
    w1: usize,
    f0: usize,
    f1: usize,
) -> (out: String)
    requires
        w0 <= w1 <= input.len(),
        f0 <= f1 <= input.len(),
    ensures
        out@ == grammar::decimal_text(
            negative,
            input@.subrange(w0 as int, w1 as int),
            input@.subrange(f0 as int, f1 as int),
        ),
{
    let mut a: usize = w0;
    while w1 - a > 1 && input[a] == '0'
        invariant
            w0 <= a <= w1,
            w1 <= input.len(),
            grammar::strip_leading_zeros(input@.subrange(w0 as int, w1 as int))
                == grammar::strip_leading_zeros(input@.subrange(a as int, w1 as int)),
        decreases w1 - a,
    {
        assert(input@.subrange(a as int, w1 as int).drop_first() =~= input@.subrange(
            a + 1,
            w1 as int,
        ));
        a += 1;
    }
    let mut b: usize = f1;
    while b > f0 && input[b - 1] == '0'
        invariant
            f0 <= b <= f1,
            f1 <= input.len(),
            grammar::strip_trailing_zeros(input@.subrange(f0 as int, f1 as int))
                == grammar::strip_trailing_zeros(input@.subrange(f0 as int, b as int)),
        decreases b - f0,
    {
        assert(input@.subrange(f0 as int, b as int).drop_last() =~= input@.subrange(
            f0 as int,
            b - 1,
        ));
        b -= 1;
    }
    let mut out = String::new();
    if negative {
        out.push('-');
    }
    push_range(&mut out, input, a, w1);
    if b > f0 {
        out.push('.');
        push_range(&mut out, input, f0, b);
    }
    assert(out@ =~= grammar::decimal_text(
        negative,
        input@.subrange(w0 as int, w1 as int),
        input@.subrange(f0 as int, f1 as int),
    ));
    out
}

/// The rule `float_literal`.
pub fn float_literal(input: &Vec<char>, p: usize, far: &mut Furthest) -> (r: Option<(Expr, usize)>)
    requires
        p <= input.len(),
    ensures
        ({
            let step = grammar::float_literal(input@, p as int, old(far)@);
            &&& final(far)@ == step.far
            &&& match r {
                Some((value, end)) => step.value == Some(value@) && step.end == end && p < end
                    <= input.len(),
                None => step.value is None,
            }
        }),
{
    proof {
        reveal(grammar::float_literal);
    }
    let (negative, start) = sign(input, p, far);
    let whole_end = match digits(input, start, far) {
        Some(end) => end,
        None => {
            return None;
        },
    };
    let fraction = match lit(input, whole_end, Token::Dot, far) {
        Some(end) => end,
        None => {
            return None;
        },
    };
    let end = digits_end(input, fraction);
    far.mark(end, Token::Digit);
    let text = decimal_string(input, negative, start, whole_end, fraction, end);
    Some((Expr::Float(text), end))
}

/// The rule `bool_literal`.
pub fn bool_literal(input: &Vec<char>, p: usize, far: &mut Furthest) -> (r: Option<(Expr, usize)>)
    requires
        p <= input.len(),
    ensures
        ({
            let step = grammar::bool_literal(input@, p as int, old(far)@);
            &&& final(far)@ == step.far
            &&& match r {
                Some((value, end)) => step.value == Some(value@) && step.end == end && p < end
                    <= input.len(),
                None => step.value is None,
            }
        }),
{
    proof {
        reveal(grammar::bool_literal);
    }
    match lit(input, p, Token::True, far) {
        Some(end) => {
            return Some((Expr::Bool(true), end));
        },
        None => {},
    }
    match lit(input, p, Token::False, far) {
        Some(end) => Some((Expr::Bool(false), end)),
        None => None,
    }
}

/// The rule `string_literal`.
pub fn string_literal(input: &Vec<char>, p: usize, far: &mut Furthest) -> (r: Option<
    (Expr, usize),
>)
    requires
        p <= input.len(),
    ensures
        ({
            let step = grammar::string_literal(input@, p as int, old(far)@);
            &&& final(far)@ == step.far
            &&& match r {
                Some((value, end)) => step.value == Some(value@) && step.end == end && p < end
                    <= input.len(),
                None => step.value is None,
            }
        }),
{
    proof {
        reveal(grammar::string_literal);
    }
    let start = match lit(input, p, Token::Quote, far) {
        Some(end) => end,
        None => {
            return None;
        },
    };
    let stop = until(input, start, '"');
    far.mark(stop, Token::NotQuote);
    match lit(input, stop, Token::Quote, far) {
        Some(end) => Some((Expr::String(range_string(input, start, stop)), end)),
        None => None,
    }
}

/// The rule `char_literal`.
pub fn char_literal(input: &Vec<char>, p: usize, far: &mut Furthest) -> (r: Option<(Expr, usize)>)
    requires
        p <= input.len(),
    ensures
        ({
            let step = grammar::char_literal(input@, p as int, old(far)@);
            &&& final(far)@ == step.far
            &&& match r {
                Some((value, end)) => step.value == Some(value@) && step.end == end && p < end
                    <= input.len(),
                None => step.value is None,
            }
        }),
{
    proof {
        reveal(grammar::char_literal);
    }
    let start = match lit(input, p, Token::Apostrophe, far) {
        Some(end) => end,
        None => {
            return None;
        },
    };
    if !(start < input.len() && input[start] != '\'') {
        far.mark(start, Token::NotApostrophe);
        return None;
    }
    let c = char_at(input, start);
    match lit(input, start + 1, Token::Apostrophe, far) {
        Some(end) => Some((Expr::Char(c), end)),
        None => None,
    }
}

/// The rule `pass`.
pub fn pass(input: &Vec<char>, p: usize, far: &mut Furthest) -> (r: Option<(Expr, usize)>)
    requires
        p <= input.len(),
    ensures
        ({
            let step = grammar::pass(input@, p as int, old(far)@);
            &&& final(far)@ == step.far
            &&& match r {
                Some((value, end)) => step.value == Some(value@) && step.end == end && p < end
                    <= input.len(),
                None => step.value is None,
            }
        }),
{
    proof {
        reveal(grammar::pass);
    }
    match lit(input, p, Token::Pass, far) {
        Some(end) => Some((Expr::Pass, end)),
        None => None,
    }
}

/// The rule `identifier_expr`.
pub fn identifier_expr(input: &Vec<char>, p: usize, far: &mut Furthest) -> (r: Option<
    (Expr, usize),
>)
    requires
        p <= input.len(),
    ensures
        ({
            let step = grammar::identifier_expr(input@, p as int, old(far)@);
            &&& final(far)@ == step.far
            &&& match r {
                Some((value, end)) => step.value == Some(value@) && step.end == end && p < end
                    <= input.len(),
                None => step.value is None,
            }
        }),
{
    proof {
        reveal(grammar::identifier_expr);
    }
    match identifier(input, p, far) {
        Some((name, end)) => Some((Expr::Var(name), end)),
        None => None,
    }
}

/// The rule `typed_symbol`.
pub fn typed_symbol(input: &Vec<char>, p: usize, far: &mut Furthest) -> (r: Option<(Expr, usize)>)
    requires
        p <= input.len(),
    ensures
        ({
            let step = grammar::typed_symbol(input@, p as int, old(far)@);
            &&& final(far)@ == step.far
            &&& match r {
                Some((value, end)) => step.value == Some(value@) && step.end == end && p < end
                    <= input.len(),
                None => step.value is None,
            }
        }),
{
    proof {
        reveal(grammar::typed_symbol);
    }
    match identifier(input, p, far) {
        Some((name, end)) => Some((Expr::TypedSymbol(name), end)),
        None => None,
    }
}

/// The rule `range_bound`.
pub fn range_bound(input: &Vec<char>, p: usize, far: &mut Furthest) -> (r: Option<(Expr, usize)>)
    requires
        p <= input.len(),
    ensures
        ({
            let step = grammar::range_bound(input@, p as int, old(far)@);
            &&& final(far)@ == step.far
            &&& match r {
                Some((value, end)) => step.value == Some(value@) && step.end == end && p < end
                    <= input.len(),
                None => step.value is None,
            }
        }),
{
    proof {
        reveal(grammar::range_bound);
    }
    match integer_literal(input, p, far) {
        Some(found) => {
            return Some(found);
        },
        None => {},
    }
    identifier_expr(input, p, far)
}

/// The rule `range_expr`.
pub fn range_expr(input: &Vec<char>, p: usize, far: &mut Furthest) -> (r: Option<(Expr, usize)>)
    requires
        p <= input.len(),
    ensures
        ({
            let step = grammar::range_expr(input@, p as int, old(far)@);
            &&& final(far)@ == step.far
            &&& match r {
                Some((value, end)) => step.value == Some(value@) && step.end == end && p < end
                    <= input.len(),
                None => step.value is None,
            }
        }),
{
    proof {
        reveal(grammar::range_expr);
    }
    let (start, pos) = match range_bound(input, p, far) {
        Some(found) => found,
        None => {
            return None;
        },
    };
    let pos = match lit(input, pos, Token::DotDot, far) {
        Some(end) => end,
        None => {
            return None;
        },
    };
    let (end, pos) = match range_bound(input, pos, far) {
        Some(found) => found,
        None => {
            return None;
        },
    };
    Some((Expr::Range(Box::new(start), Box::new(end)), pos))
}

/// The rule `record_key`.
pub fn record_key(input: &Vec<char>, p: usize, far: &mut Furthest) -> (r: Option<(Expr, usize)>)
    requires
        p <= input.len(),
    ensures
        ({
            let step = grammar::record_key(input@, p as int, old(far)@);
            &&& final(far)@ == step.far
            &&& match r {
                Some((value, end)) => step.value == Some(value@) && step.end == end && p < end
                    <= input.len(),
                None => step.value is None,
            }
        }),
{
    proof {
        reveal(grammar::record_key);
    }
    match identifier_expr(input, p, far) {
        Some(found) => {
            return Some(found);
        },
        None => {},
    }
    integer_literal(input, p, far)
}

/// The rule `typed_literal`.
pub fn typed_literal(input: &Vec<char>, p: usize, far: &mut Furthest) -> (r: Option<(Expr, usize)>)
    requires
        p <= input.len(),
    ensures
        ({
            let step = grammar::typed_literal(input@, p as int, old(far)@);
            &&& final(far)@ == step.far
            &&& match r {
                Some((value, end)) => step.value == Some(value@) && step.end == end && p < end
                    <= input.len(),
                None => step.value is None,
            }
        }),
{
    proof {
        reveal(grammar::typed_literal);
    }
    match integer_literal(input, p, far) {
        Some((value, end)) => {
            return Some((Expr::TypedLiteral(Box::new(value)), end));
        },
        None => {},
    }
    match float_literal(input, p, far) {
        Some((value, end)) => {
            return Some((Expr::TypedLiteral(Box::new(value)), end));
        },
        None => {},
    }
    match bool_literal(input, p, far) {
        Some((value, end)) => Some((Expr::TypedLiteral(Box::new(value)), end)),
        None => None,
    }
}

} // verus!
