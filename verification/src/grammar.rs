//! The grammar, as functions from the input and a position to the outcome of
//! each rule there.
//!
//! The grammar is a parsing expression grammar: the alternatives of a rule
//! are tried in order and the first that matches is taken. Every rule takes
//! the furthest failure so far and hands on the one after it, so that a
//! failed parse can say how far it came and what it looked for there.
//! Failures inside blanks and inside a name are not recorded; a name that
//! is missing is recorded as such.
//!
//! The input is a sequence of characters and a position counts characters.
//! A rule is written as its steps in order, each at the end of the one
//! before it. Each step stands inside `within`, with the bounds that a match
//! of the step keeps anyway: this is what shows that the rules, which call
//! one another, are well-founded, and `bounds` proves that it changes no
//! outcome. The rules are opaque: a proof reveals the ones that it unfolds.

use vstd::prelude::*;
use crate::ast::{BinOp, BitOp, CompareOp, Node, UnaryOp};
use crate::token::{fail, far_start, mark, ok, token_text, within, Far, Step, Token};

verus! {

/// Whether `text` stands in `s` at position `p`.
pub open spec fn starts_with(s: Seq<char>, p: int, text: Seq<char>) -> bool {
    0 <= p && p + text.len() <= s.len() && s.subrange(p, p + text.len()) == text
}

/// Whether the text of a literal token stands in `s` at position `p`.
pub open spec fn stands_at(s: Seq<char>, p: int, token: Token) -> bool {
    token_text(token).len() > 0 && starts_with(s, p, token_text(token))
}

/// A literal of the grammar.
#[verifier::opaque]
pub open spec fn lit(s: Seq<char>, p: int, token: Token, far: Far) -> Step<()> {
    if stands_at(s, p, token) {
        ok((), p + token_text(token).len(), far)
    } else {
        fail(mark(far, p, token))
    }
}

/// Whether a character is a blank: a space, a tab, a line feed or a carriage return.
pub open spec fn is_blank(c: char) -> bool {
    c == ' ' || c == '\t' || c == '\n' || c == '\r'
}

/// Whether a character can stand in a name: a letter or an underscore.
pub open spec fn is_name_char(c: char) -> bool {
    ('a' <= c && c <= 'z') || ('A' <= c && c <= 'Z') || c == '_'
}

/// Whether a character is a decimal digit.
pub open spec fn is_digit(c: char) -> bool {
    '0' <= c && c <= '9'
}

/// The end of the run of blanks that starts at `p`.
pub open spec fn blanks_end(s: Seq<char>, p: int) -> int
    decreases s.len() - p,
{
    if 0 <= p < s.len() && is_blank(s[p]) {
        blanks_end(s, p + 1)
    } else {
        p
    }
}

/// The end of the run of name characters that starts at `p`.
pub open spec fn name_end(s: Seq<char>, p: int) -> int
    decreases s.len() - p,
{
    if 0 <= p < s.len() && is_name_char(s[p]) {
        name_end(s, p + 1)
    } else {
        p
    }
}

/// The end of the run of digits that starts at `p`.
pub open spec fn digits_end(s: Seq<char>, p: int) -> int
    decreases s.len() - p,
{
    if 0 <= p < s.len() && is_digit(s[p]) {
        digits_end(s, p + 1)
    } else {
        p
    }
}

/// The first position from `p` on that holds `stop`, or the end of the input.
pub open spec fn until(s: Seq<char>, p: int, stop: char) -> int
    decreases s.len() - p,
{
    if 0 <= p < s.len() && s[p] != stop {
        until(s, p + 1, stop)
    } else {
        p
    }
}

/// The first position from `p` on where a comment's closing `*)` stands, or
/// the end of the input.
pub open spec fn comment_close(s: Seq<char>, p: int) -> int
    decreases s.len() - p,
{
    if 0 <= p < s.len() && !stands_at(s, p, Token::CommentClose) {
        comment_close(s, p + 1)
    } else {
        p
    }
}

/// A run ends between its start and the end of the input.
pub proof fn lemma_runs(s: Seq<char>, p: int)
    requires
        0 <= p <= s.len(),
    ensures
        p <= blanks_end(s, p) <= s.len(),
        p <= name_end(s, p) <= s.len(),
        p <= digits_end(s, p) <= s.len(),
        p <= comment_close(s, p) <= s.len(),
        comment_close(s, p) < s.len() ==> stands_at(s, comment_close(s, p), Token::CommentClose),
    decreases s.len() - p,
{
    if p < s.len() {
        lemma_runs(s, p + 1);
    }
}

/// A comment: `(*`, anything up to the first `*)`, and that `*)`.
#[verifier::opaque]
pub open spec fn comment(s: Seq<char>, p: int, far: Far) -> Step<()> {
    let opening = lit(s, p, Token::CommentOpen, far);
    if opening.value is None {
        opening
    } else {
        let close = comment_close(s, opening.end);
        if close < s.len() {
            ok((), close + token_text(Token::CommentClose).len(), opening.far)
        } else {
            fail(mark(mark(opening.far, close, Token::AnyChar), close, Token::CommentClose))
        }
    }
}

/// The rule `_`: blanks and comments, as many as there are. Always a match.
#[verifier::opaque]
pub open spec fn skip(s: Seq<char>, p: int, far: Far) -> Step<()>
    decreases s.len() - p,
{
    if 0 <= p <= s.len() {
        let blank = blanks_end(s, p);
        if blank > p {
            proof {
                lemma_runs(s, p);
            }
            skip(s, blank, far)
        } else {
            let c = comment(s, p, far);
            if c.value is Some {
                proof {
                    reveal(lit);
                    reveal(comment);
                    lemma_runs(s, lit(s, p, Token::CommentOpen, far).end);
                }
                skip(s, c.end, c.far)
            } else {
                ok((), p, c.far)
            }
        }
    } else {
        ok((), p, far)
    }
}

/// A literal and what can be skipped after it.
#[verifier::opaque]
pub open spec fn lit_ws(s: Seq<char>, p: int, token: Token, far: Far) -> Step<()> {
    let word = lit(s, p, token, far);
    if word.value is None {
        word
    } else {
        skip(s, word.end, word.far)
    }
}

/// What can be skipped, and a literal after it.
#[verifier::opaque]
pub open spec fn ws_lit(s: Seq<char>, p: int, token: Token, far: Far) -> Step<()> {
    let gap = skip(s, p, far);
    lit(s, gap.end, token, gap.far)
}

/// A literal with what can be skipped on both sides of it.
#[verifier::opaque]
pub open spec fn ws_lit_ws(s: Seq<char>, p: int, token: Token, far: Far) -> Step<()> {
    let gap = skip(s, p, far);
    lit_ws(s, gap.end, token, gap.far)
}

/// A name: one or more letters or underscores.
#[verifier::opaque]
pub open spec fn identifier(s: Seq<char>, p: int, far: Far) -> Step<Seq<char>> {
    let end = name_end(s, p);
    if p < end <= s.len() {
        ok(s.subrange(p, end), end, far)
    } else {
        fail(mark(far, p, Token::Identifier))
    }
}

/// One or more digits. The digit that is missing after the last one is
/// recorded as a failure there.
#[verifier::opaque]
pub open spec fn digits(s: Seq<char>, p: int, far: Far) -> Step<Seq<char>> {
    let end = digits_end(s, p);
    if end > p {
        ok(s.subrange(p, end), end, mark(far, end, Token::Digit))
    } else {
        fail(mark(far, end, Token::Digit))
    }
}

/// An optional `-`: whether it is there.
#[verifier::opaque]
pub open spec fn sign(s: Seq<char>, p: int, far: Far) -> Step<bool> {
    let minus = lit(s, p, Token::Minus, far);
    if minus.value is Some {
        ok(true, minus.end, minus.far)
    } else {
        ok(false, p, minus.far)
    }
}

/// The number that a digit character stands for.
pub open spec fn digit_of(c: char) -> nat {
    if c == '1' {
        1
    } else if c == '2' {
        2
    } else if c == '3' {
        3
    } else if c == '4' {
        4
    } else if c == '5' {
        5
    } else if c == '6' {
        6
    } else if c == '7' {
        7
    } else if c == '8' {
        8
    } else if c == '9' {
        9
    } else {
        0
    }
}

/// The number that a run of digits stands for.
pub open spec fn digits_value(ds: Seq<char>) -> nat
    decreases ds.len(),
{
    if ds.len() == 0 {
        0
    } else {
        digits_value(ds.drop_last()) * 10 + digit_of(ds.last())
    }
}

/// Digits without the zeros in front; at least one digit stays.
pub open spec fn strip_leading_zeros(ds: Seq<char>) -> Seq<char>
    decreases ds.len(),
{
    if ds.len() > 1 && ds[0] == '0' {
        strip_leading_zeros(ds.drop_first())
    } else {
        ds
    }
}

/// Digits without the zeros at the end.
pub open spec fn strip_trailing_zeros(ds: Seq<char>) -> Seq<char>
    decreases ds.len(),
{
    if ds.len() > 0 && ds.last() == '0' {
        strip_trailing_zeros(ds.drop_last())
    } else {
        ds
    }
}

/// The canonical text of a decimal numeral: the sign of a negative one, the
/// whole part without leading zeros, and the fraction without trailing
/// zeros, after a point, where any of it is left.
pub open spec fn decimal_text(negative: bool, whole: Seq<char>, fraction: Seq<char>) -> Seq<char> {
    let kept = strip_trailing_zeros(fraction);
    (if negative {
        seq!['-']
    } else {
        Seq::empty()
    }) + strip_leading_zeros(whole) + (if kept.len() > 0 {
        seq!['.'] + kept
    } else {
        Seq::empty()
    })
}

/// The largest number that the digits of an integer literal can stand
/// for: `i64::MAX`, and one more behind a `-`.
pub open spec fn largest_magnitude(negative: bool) -> int {
    if negative {
        i64::MAX + 1
    } else {
        i64::MAX as int
    }
}

/// An integer literal: an optional `-` and digits, for a number from
/// `i64::MIN` to `i64::MAX`. One whose digits stand for more is no match.
#[verifier::opaque]
pub open spec fn integer_literal(s: Seq<char>, p: int, far: Far) -> Step<Node> {
    let minus = sign(s, p, far);
    let run = digits(s, minus.end, minus.far);
    if run.value is None {
        fail(run.far)
    } else {
        let magnitude = digits_value(run.value->0);
        if magnitude > largest_magnitude(minus.value->0) {
            fail(mark(run.far, run.end, Token::I64))
        } else if minus.value->0 {
            ok(Node::Int(-magnitude), run.end, run.far)
        } else {
            ok(Node::Int(magnitude as int), run.end, run.far)
        }
    }
}

/// A floating-point literal: an optional `-`, digits, a point, and digits
/// or none.
#[verifier::opaque]
pub open spec fn float_literal(s: Seq<char>, p: int, far: Far) -> Step<Node> {
    let minus = sign(s, p, far);
    let whole = digits(s, minus.end, minus.far);
    if whole.value is None {
        fail(whole.far)
    } else {
        let point = lit(s, whole.end, Token::Dot, whole.far);
        if point.value is None {
            fail(point.far)
        } else {
            let end = digits_end(s, point.end);
            ok(
                Node::Float(
                    decimal_text(minus.value->0, whole.value->0, s.subrange(point.end, end)),
                ),
                end,
                mark(point.far, end, Token::Digit),
            )
        }
    }
}

/// `true` or `false`.
#[verifier::opaque]
pub open spec fn bool_literal(s: Seq<char>, p: int, far: Far) -> Step<Node> {
    let yes = lit(s, p, Token::True, far);
    if yes.value is Some {
        ok(Node::Bool(true), yes.end, yes.far)
    } else {
        let no = lit(s, p, Token::False, yes.far);
        if no.value is Some {
            ok(Node::Bool(false), no.end, no.far)
        } else {
            fail(no.far)
        }
    }
}

/// A string literal: everything between two `"`.
#[verifier::opaque]
pub open spec fn string_literal(s: Seq<char>, p: int, far: Far) -> Step<Node> {
    let opening = lit(s, p, Token::Quote, far);
    if opening.value is None {
        fail(opening.far)
    } else {
        let end = until(s, opening.end, '"');
        let close = lit(s, end, Token::Quote, mark(opening.far, end, Token::NotQuote));
        if close.value is None {
            fail(close.far)
        } else {
            ok(Node::String(s.subrange(opening.end, end)), close.end, close.far)
        }
    }
}

/// A character literal: one character other than `'` between two `'`.
#[verifier::opaque]
pub open spec fn char_literal(s: Seq<char>, p: int, far: Far) -> Step<Node> {
    let opening = lit(s, p, Token::Apostrophe, far);
    if opening.value is None {
        fail(opening.far)
    } else if !(opening.end < s.len() && s[opening.end] != '\'') {
        fail(mark(opening.far, opening.end, Token::NotApostrophe))
    } else {
        let close = lit(s, opening.end + 1, Token::Apostrophe, opening.far);
        if close.value is None {
            fail(close.far)
        } else {
            ok(Node::Char(s[opening.end]), close.end, close.far)
        }
    }
}

/// The placeholder `pass`.
#[verifier::opaque]
pub open spec fn pass(s: Seq<char>, p: int, far: Far) -> Step<Node> {
    let word = lit(s, p, Token::Pass, far);
    if word.value is Some {
        ok(Node::Pass, word.end, word.far)
    } else {
        fail(word.far)
    }
}

/// A name in value position.
#[verifier::opaque]
pub open spec fn identifier_expr(s: Seq<char>, p: int, far: Far) -> Step<Node> {
    let name = identifier(s, p, far);
    if name.value is Some {
        ok(Node::Var(name.value->0), name.end, name.far)
    } else {
        fail(name.far)
    }
}

/// A name in type position.
#[verifier::opaque]
pub open spec fn typed_symbol(s: Seq<char>, p: int, far: Far) -> Step<Node> {
    let name = identifier(s, p, far);
    if name.value is Some {
        ok(Node::TypedSymbol(name.value->0), name.end, name.far)
    } else {
        fail(name.far)
    }
}

/// A bound of a range: an integer literal or a name.
#[verifier::opaque]
pub open spec fn range_bound(s: Seq<char>, p: int, far: Far) -> Step<Node> {
    let number = integer_literal(s, p, far);
    if number.value is Some {
        number
    } else {
        identifier_expr(s, p, number.far)
    }
}

/// A range: two bounds with `..` between them, and nothing else.
#[verifier::opaque]
pub open spec fn range_expr(s: Seq<char>, p: int, far: Far) -> Step<Node> {
    let start = range_bound(s, p, far);
    if start.value is None {
        fail(start.far)
    } else {
        let dots = lit(s, start.end, Token::DotDot, start.far);
        if dots.value is None {
            fail(dots.far)
        } else {
            let end = range_bound(s, dots.end, dots.far);
            if end.value is None {
                fail(end.far)
            } else {
                ok(
                    Node::Range(Box::new(start.value->0), Box::new(end.value->0)),
                    end.end,
                    end.far,
                )
            }
        }
    }
}

/// The key of a record entry: a name or an integer literal.
#[verifier::opaque]
pub open spec fn record_key(s: Seq<char>, p: int, far: Far) -> Step<Node> {
    let name = identifier_expr(s, p, far);
    if name.value is Some {
        name
    } else {
        integer_literal(s, p, name.far)
    }
}

/// The type of a literal: an integer, floating-point or boolean literal.
#[verifier::opaque]
pub open spec fn typed_literal(s: Seq<char>, p: int, far: Far) -> Step<Node> {
    let number = integer_literal(s, p, far);
    if number.value is Some {
        ok(Node::TypedLiteral(Box::new(number.value->0)), number.end, number.far)
    } else {
        let decimal = float_literal(s, p, number.far);
        if decimal.value is Some {
            ok(Node::TypedLiteral(Box::new(decimal.value->0)), decimal.end, decimal.far)
        } else {
            let boolean = bool_literal(s, p, decimal.far);
            if boolean.value is Some {
                ok(Node::TypedLiteral(Box::new(boolean.value->0)), boolean.end, boolean.far)
            } else {
                fail(boolean.far)
            }
        }
    }
}

/// An operand behind prefix operators; the first operator is the outermost.
pub open spec fn prefixed(ops: Seq<UnaryOp>, operand: Node) -> Node
    decreases ops.len(),
{
    if ops.len() == 0 {
        operand
    } else {
        Node::Unary(Box::new(prefixed(ops.drop_first(), operand)), ops[0])
    }
}

/// A type behind prefix operators; the first operator is the outermost.
pub open spec fn typed_prefixed(ops: Seq<UnaryOp>, inner: Node) -> Node
    decreases ops.len(),
{
    if ops.len() == 0 {
        inner
    } else {
        Node::TypedUnary(
            Box::new(Node::Unary(Box::new(typed_prefixed(ops.drop_first(), inner)), ops[0])),
        )
    }
}

/// The alternatives as one chain that leans to the right: the first
/// alternative on the left, the chain of the others on the right. One
/// alternative alone is itself.
pub open spec fn chain(alternatives: Seq<Node>) -> Node
    decreases alternatives.len(),
{
    if alternatives.len() <= 1 {
        alternatives[0]
    } else {
        Node::TypedVariant(Box::new(alternatives[0]), Box::new(chain(alternatives.drop_first())))
    }
}

/// The chain of a first alternative and the others.
pub open spec fn variant_chain(first: Node, rest: Seq<Node>) -> Node {
    chain(seq![first] + rest)
}

/// An operator at the end of the list is the innermost.
pub proof fn lemma_prefixed_last(ops: Seq<UnaryOp>, op: UnaryOp, operand: Node)
    ensures
        prefixed(ops.push(op), operand) == prefixed(ops, Node::Unary(Box::new(operand), op)),
        typed_prefixed(ops.push(op), operand) == typed_prefixed(
            ops,
            Node::TypedUnary(Box::new(Node::Unary(Box::new(operand), op))),
        ),
    decreases ops.len(),
{
    if ops.len() == 0 {
        assert(ops.push(op).drop_first() =~= ops);
        reveal_with_fuel(prefixed, 2);
        reveal_with_fuel(typed_prefixed, 2);
    } else {
        lemma_prefixed_last(ops.drop_first(), op, operand);
        assert(ops.push(op).drop_first() =~= ops.drop_first().push(op));
    }
}

/// The last two alternatives of a chain are its innermost pair.
pub proof fn lemma_chain_last(before: Seq<Node>, x: Node, y: Node)
    ensures
        chain(before.push(x).push(y)) == chain(
            before.push(Node::TypedVariant(Box::new(x), Box::new(y))),
        ),
    decreases before.len(),
{
    if before.len() == 0 {
        assert(before.push(x).push(y).drop_first() =~= seq![y]);
        reveal_with_fuel(chain, 3);
    } else {
        lemma_chain_last(before.drop_first(), x, y);
        assert(before.push(x).push(y).drop_first() =~= before.drop_first().push(x).push(y));
        assert(before.push(Node::TypedVariant(Box::new(x), Box::new(y))).drop_first()
            =~= before.drop_first().push(Node::TypedVariant(Box::new(x), Box::new(y))));
    }
}

/// A prefix operator: `~`, `&` or `*`.
#[verifier::opaque]
pub open spec fn unary_op(s: Seq<char>, p: int, far: Far) -> Step<UnaryOp> {
    let tilde = lit(s, p, Token::Tilde, far);
    if tilde.value is Some {
        ok(UnaryOp::BitNot, tilde.end, tilde.far)
    } else {
        let amp = lit(s, p, Token::Amp, tilde.far);
        if amp.value is Some {
            ok(UnaryOp::Ref, amp.end, amp.far)
        } else {
            let star = lit(s, p, Token::Star, amp.far);
            if star.value is Some {
                ok(UnaryOp::Deref, star.end, star.far)
            } else {
                fail(star.far)
            }
        }
    }
}

/// A prefix operator of a type: `&` or `*`.
#[verifier::opaque]
pub open spec fn typed_unary_op(s: Seq<char>, p: int, far: Far) -> Step<UnaryOp> {
    let amp = lit(s, p, Token::Amp, far);
    if amp.value is Some {
        ok(UnaryOp::Ref, amp.end, amp.far)
    } else {
        let star = lit(s, p, Token::Star, amp.far);
        if star.value is Some {
            ok(UnaryOp::Deref, star.end, star.far)
        } else {
            fail(star.far)
        }
    }
}

/// `+` or `-`.
#[verifier::opaque]
pub open spec fn add_op(s: Seq<char>, p: int, far: Far) -> Step<BinOp> {
    let plus = lit(s, p, Token::Plus, far);
    if plus.value is Some {
        ok(BinOp::Add, plus.end, plus.far)
    } else {
        let minus = lit(s, p, Token::Minus, plus.far);
        if minus.value is Some {
            ok(BinOp::Sub, minus.end, minus.far)
        } else {
            fail(minus.far)
        }
    }
}

/// `*` or `/`.
#[verifier::opaque]
pub open spec fn mul_op(s: Seq<char>, p: int, far: Far) -> Step<BinOp> {
    let star = lit(s, p, Token::Star, far);
    if star.value is Some {
        ok(BinOp::Mul, star.end, star.far)
    } else {
        let slash = lit(s, p, Token::Slash, star.far);
        if slash.value is Some {
            ok(BinOp::Div, slash.end, slash.far)
        } else {
            fail(slash.far)
        }
    }
}

/// A comparison word. `gte` and `lte` are tried before `gt` and `lt`, which are their prefixes.
#[verifier::opaque]
pub open spec fn compare_op(s: Seq<char>, p: int, far: Far) -> Step<CompareOp> {
    let gte = lit(s, p, Token::Gte, far);
    if gte.value is Some {
        ok(CompareOp::Gte, gte.end, gte.far)
    } else {
        let lte = lit(s, p, Token::Lte, gte.far);
        if lte.value is Some {
            ok(CompareOp::Lte, lte.end, lte.far)
        } else {
            let gt_word = lit(s, p, Token::Gt, lte.far);
            if gt_word.value is Some {
                ok(CompareOp::Gt, gt_word.end, gt_word.far)
            } else {
                let lt_word = lit(s, p, Token::Lt, gt_word.far);
                if lt_word.value is Some {
                    ok(CompareOp::Lt, lt_word.end, lt_word.far)
                } else {
                    let eq_word = lit(s, p, Token::Eq, lt_word.far);
                    if eq_word.value is Some {
                        ok(CompareOp::Eq, eq_word.end, eq_word.far)
                    } else {
                        let neq = lit(s, p, Token::Neq, eq_word.far);
                        if neq.value is Some {
                            ok(CompareOp::Neq, neq.end, neq.far)
                        } else {
                            let and_word = lit(s, p, Token::And, neq.far);
                            if and_word.value is Some {
                                ok(CompareOp::And, and_word.end, and_word.far)
                            } else {
                                let or_word = lit(s, p, Token::Or, and_word.far);
                                if or_word.value is Some {
                                    ok(CompareOp::Or, or_word.end, or_word.far)
                                } else {
                                    fail(or_word.far)
                                }
                            }
                        }
                    }
                }
            }
        }
    }
}

/// A bitwise word.
#[verifier::opaque]
pub open spec fn bit_op(s: Seq<char>, p: int, far: Far) -> Step<BitOp> {
    let shl = lit(s, p, Token::Shl, far);
    if shl.value is Some {
        ok(BitOp::Shl, shl.end, shl.far)
    } else {
        let shr = lit(s, p, Token::Shr, shl.far);
        if shr.value is Some {
            ok(BitOp::Shr, shr.end, shr.far)
        } else {
            let band = lit(s, p, Token::Band, shr.far);
            if band.value is Some {
                ok(BitOp::And, band.end, band.far)
            } else {
                let bor = lit(s, p, Token::Bor, band.far);
                if bor.value is Some {
                    ok(BitOp::Or, bor.end, bor.far)
                } else {
                    let xor = lit(s, p, Token::Xor, bor.far);
                    if xor.value is Some {
                        ok(BitOp::Xor, xor.end, xor.far)
                    } else {
                        let rotl = lit(s, p, Token::Rotl, xor.far);
                        if rotl.value is Some {
                            ok(BitOp::Rotl, rotl.end, rotl.far)
                        } else {
                            let rotr = lit(s, p, Token::Rotr, rotl.far);
                            if rotr.value is Some {
                                ok(BitOp::Rotr, rotr.end, rotr.far)
                            } else {
                                fail(rotr.far)
                            }
                        }
                    }
                }
            }
        }
    }
}

/// Prefix operators with what can be skipped between them: `unary_op() ** _`.
#[verifier::opaque]
pub open spec fn unary_ops(s: Seq<char>, p: int, far: Far) -> Step<Seq<UnaryOp>>
    decreases s.len() - p, 1nat,
{
    let first = within(unary_op(s, p, far), p + 1, s.len());
    if first.value is None {
        ok(Seq::empty(), p, first.far)
    } else {
        let rest = unary_ops_more(s, first.end, first.far);
        ok(seq![first.value->0] + rest.value->0, rest.end, rest.far)
    }
}

/// What follows an item of `unary_ops`: a separator and an item, as often as both are there.
#[verifier::opaque]
pub open spec fn unary_ops_more(s: Seq<char>, p: int, far: Far) -> Step<Seq<UnaryOp>>
    decreases s.len() - p, 1nat,
{
    let sep = within(skip(s, p, far), p, s.len());
    if sep.value is None {
        ok(Seq::empty(), p, sep.far)
    } else {
        let next = within(unary_op(s, sep.end, sep.far), sep.end + 1, s.len());
        if next.value is None {
            ok(Seq::empty(), p, next.far)
        } else {
            let rest = unary_ops_more(s, next.end, next.far);
            ok(seq![next.value->0] + rest.value->0, rest.end, rest.far)
        }
    }
}

/// Prefix operators of a type: `typed_unary_op() ** _`.
#[verifier::opaque]
pub open spec fn typed_unary_ops(s: Seq<char>, p: int, far: Far) -> Step<Seq<UnaryOp>>
    decreases s.len() - p, 1nat,
{
    let first = within(typed_unary_op(s, p, far), p + 1, s.len());
    if first.value is None {
        ok(Seq::empty(), p, first.far)
    } else {
        let rest = typed_unary_ops_more(s, first.end, first.far);
        ok(seq![first.value->0] + rest.value->0, rest.end, rest.far)
    }
}

/// What follows an item of `typed_unary_ops`: a separator and an item, as often as both are there.
#[verifier::opaque]
pub open spec fn typed_unary_ops_more(s: Seq<char>, p: int, far: Far) -> Step<Seq<UnaryOp>>
    decreases s.len() - p, 1nat,
{
    let sep = within(skip(s, p, far), p, s.len());
    if sep.value is None {
        ok(Seq::empty(), p, sep.far)
    } else {
        let next = within(typed_unary_op(s, sep.end, sep.far), sep.end + 1, s.len());
        if next.value is None {
            ok(Seq::empty(), p, next.far)
        } else {
            let rest = typed_unary_ops_more(s, next.end, next.far);
            ok(seq![next.value->0] + rest.value->0, rest.end, rest.far)
        }
    }
}

/// An optional type: `"?" _ typed_expr`.
#[verifier::opaque]
pub open spec fn typed_optional(s: Seq<char>, p: int, far: Far) -> Step<Node>
    decreases s.len() - p, 1nat,
{
    let question = within(lit_ws(s, p, Token::Question, far), p + 1, s.len());
    if question.value is None {
        fail(question.far)
    } else {
        let ty = within(typed_expr(s, question.end, question.far), question.end + 1, s.len());
        if ty.value is None {
            fail(ty.far)
        } else {
            ok(Node::TypedOptional(Box::new(ty.value->0)), ty.end, ty.far)
        }
    }
}

/// A function type: `"|" _ fn_arg ** (_ "," _) _ "|" _ typed_expr _ "end"`. Its
/// body is the result type.
#[verifier::opaque]
pub open spec fn typed_fn_expr(s: Seq<char>, p: int, far: Far) -> Step<Node>
    decreases s.len() - p, 1nat,
{
    let pipe = within(lit_ws(s, p, Token::Pipe, far), p + 1, s.len());
    if pipe.value is None {
        fail(pipe.far)
    } else {
        let params = within(fn_args(s, pipe.end, pipe.far), pipe.end, s.len());
        if params.value is None {
            fail(params.far)
        } else {
            let pipe2 = within(
                ws_lit_ws(s, params.end, Token::Pipe, params.far),
                params.end + 1,
                s.len(),
            );
            if pipe2.value is None {
                fail(pipe2.far)
            } else {
                let ty = within(typed_expr(s, pipe2.end, pipe2.far), pipe2.end + 1, s.len());
                if ty.value is None {
                    fail(ty.far)
                } else {
                    let end_word = within(
                        ws_lit(s, ty.end, Token::End, ty.far),
                        ty.end + 1,
                        s.len(),
                    );
                    if end_word.value is None {
                        fail(end_word.far)
                    } else {
                        ok(
                            Node::TypedFn(Box::new(Node::Fn(params.value->0, seq![ty.value->0]))),
                            end_word.end,
                            end_word.far,
                        )
                    }
                }
            }
        }
    }
}

/// An entry of a record type: `record_key _ ":" _ typed_expr`, as the pair of the two.
#[verifier::opaque]
pub open spec fn typed_record_entry(s: Seq<char>, p: int, far: Far) -> Step<Seq<Node>>
    decreases s.len() - p, 1nat,
{
    let key = within(record_key(s, p, far), p + 1, s.len());
    if key.value is None {
        fail(key.far)
    } else {
        let colon = within(ws_lit_ws(s, key.end, Token::Colon, key.far), key.end + 1, s.len());
        if colon.value is None {
            fail(colon.far)
        } else {
            let ty = within(typed_expr(s, colon.end, colon.far), colon.end + 1, s.len());
            if ty.value is None {
                fail(ty.far)
            } else {
                ok(seq![key.value->0, ty.value->0], ty.end, ty.far)
            }
        }
    }
}

/// The entries of a record type: `typed_record_entry ** (_ "," _)`.
#[verifier::opaque]
pub open spec fn typed_record_entries(s: Seq<char>, p: int, far: Far) -> Step<Seq<Seq<Node>>>
    decreases s.len() - p, 2nat,
{
    let first = within(typed_record_entry(s, p, far), p + 1, s.len());
    if first.value is None {
        ok(Seq::empty(), p, first.far)
    } else {
        let rest = typed_record_entries_more(s, first.end, first.far);
        ok(seq![first.value->0] + rest.value->0, rest.end, rest.far)
    }
}

/// What follows an item of `typed_record_entries`: a separator and an item, as
/// often as both are there.
#[verifier::opaque]
pub open spec fn typed_record_entries_more(s: Seq<char>, p: int, far: Far) -> Step<Seq<Seq<Node>>>
    decreases s.len() - p, 2nat,
{
    let sep = within(ws_lit_ws(s, p, Token::Comma, far), p + 1, s.len());
    if sep.value is None {
        ok(Seq::empty(), p, sep.far)
    } else {
        let next = within(typed_record_entry(s, sep.end, sep.far), sep.end + 1, s.len());
        if next.value is None {
            ok(Seq::empty(), p, next.far)
        } else {
            let rest = typed_record_entries_more(s, next.end, next.far);
            ok(seq![next.value->0] + rest.value->0, rest.end, rest.far)
        }
    }
}

/// A record type: `"{" _ entries _ "}"`.
#[verifier::opaque]
pub open spec fn typed_record(s: Seq<char>, p: int, far: Far) -> Step<Node>
    decreases s.len() - p, 1nat,
{
    let l_brace = within(lit_ws(s, p, Token::LBrace, far), p + 1, s.len());
    if l_brace.value is None {
        fail(l_brace.far)
    } else {
        let entries = within(
            typed_record_entries(s, l_brace.end, l_brace.far),
            l_brace.end,
            s.len(),
        );
        if entries.value is None {
            fail(entries.far)
        } else {
            let r_brace = within(
                ws_lit(s, entries.end, Token::RBrace, entries.far),
                entries.end + 1,
                s.len(),
            );
            if r_brace.value is None {
                fail(r_brace.far)
            } else {
                ok(
                    Node::TypedRecord(Box::new(Node::Record(entries.value->0))),
                    r_brace.end,
                    r_brace.far,
                )
            }
        }
    }
}

/// A dotted type path: `member_expr`.
#[verifier::opaque]
pub open spec fn typed_member(s: Seq<char>, p: int, far: Far) -> Step<Node>
    decreases s.len() - p, 2nat,
{
    let path = within(member_expr(s, p, far), p + 1, s.len());
    if path.value is None {
        fail(path.far)
    } else {
        ok(Node::TypedMember(Box::new(path.value->0)), path.end, path.far)
    }
}

/// A generic type: `identifier _ type_generic`.
#[verifier::opaque]
pub open spec fn typed_symbol_generic(s: Seq<char>, p: int, far: Far) -> Step<Node>
    decreases s.len() - p, 1nat,
{
    let name = within(identifier(s, p, far), p + 1, s.len());
    if name.value is None {
        fail(name.far)
    } else {
        let gap = within(skip(s, name.end, name.far), name.end, s.len());
        if gap.value is None {
            fail(gap.far)
        } else {
            let args = within(type_generic(s, gap.end, gap.far), gap.end + 1, s.len());
            if args.value is None {
                fail(args.far)
            } else {
                ok(Node::TypedSymbolGeneric(name.value->0, args.value->0), args.end, args.far)
            }
        }
    }
}

/// A type alias without parameters: `"type" _ identifier _ "=" _ typed_expr _ "end"`.
#[verifier::opaque]
pub open spec fn type_alias_plain(s: Seq<char>, p: int, far: Far) -> Step<Node>
    decreases s.len() - p, 1nat,
{
    let type_word = within(lit_ws(s, p, Token::Type, far), p + 1, s.len());
    if type_word.value is None {
        fail(type_word.far)
    } else {
        let name = within(identifier(s, type_word.end, type_word.far), type_word.end + 1, s.len());
        if name.value is None {
            fail(name.far)
        } else {
            let assign = within(
                ws_lit_ws(s, name.end, Token::Assign, name.far),
                name.end + 1,
                s.len(),
            );
            if assign.value is None {
                fail(assign.far)
            } else {
                let ty = within(typed_expr(s, assign.end, assign.far), assign.end + 1, s.len());
                if ty.value is None {
                    fail(ty.far)
                } else {
                    let end_word = within(
                        ws_lit(s, ty.end, Token::End, ty.far),
                        ty.end + 1,
                        s.len(),
                    );
                    if end_word.value is None {
                        fail(end_word.far)
                    } else {
                        ok(
                            Node::TypeAlias(name.value->0, Seq::empty(), Box::new(ty.value->0)),
                            end_word.end,
                            end_word.far,
                        )
                    }
                }
            }
        }
    }
}

/// A type alias with parameters: `"type" _ identifier _ type_generic _ "=" _ typed_expr _ "end"`.
#[verifier::opaque]
pub open spec fn type_alias_generic(s: Seq<char>, p: int, far: Far) -> Step<Node>
    decreases s.len() - p, 1nat,
{
    let type_word = within(lit_ws(s, p, Token::Type, far), p + 1, s.len());
    if type_word.value is None {
        fail(type_word.far)
    } else {
        let name = within(identifier(s, type_word.end, type_word.far), type_word.end + 1, s.len());
        if name.value is None {
            fail(name.far)
        } else {
            let gap = within(skip(s, name.end, name.far), name.end, s.len());
            if gap.value is None {
                fail(gap.far)
            } else {
                let params = within(type_generic(s, gap.end, gap.far), gap.end + 1, s.len());
                if params.value is None {
                    fail(params.far)
                } else {
                    let assign = within(
                        ws_lit_ws(s, params.end, Token::Assign, params.far),
                        params.end + 1,
                        s.len(),
                    );
                    if assign.value is None {
                        fail(assign.far)
                    } else {
                        let ty = within(
                            typed_expr(s, assign.end, assign.far),
                            assign.end + 1,
                            s.len(),
                        );
                        if ty.value is None {
                            fail(ty.far)
                        } else {
                            let end_word = within(
                                ws_lit(s, ty.end, Token::End, ty.far),
                                ty.end + 1,
                                s.len(),
                            );
                            if end_word.value is None {
                                fail(end_word.far)
                            } else {
                                ok(
                                    Node::TypeAlias(
                                        name.value->0,
                                        params.value->0,
                                        Box::new(ty.value->0),
                                    ),
                                    end_word.end,
                                    end_word.far,
                                )
                            }
                        }
                    }
                }
            }
        }
    }
}

/// A type alias, without parameters or with them.
#[verifier::opaque]
pub open spec fn type_alias(s: Seq<char>, p: int, far: Far) -> Step<Node>
    decreases s.len() - p, 2nat,
{
    let by_type_alias_plain = within(type_alias_plain(s, p, far), p + 1, s.len());
    let by_type_alias_generic = within(
        type_alias_generic(s, p, by_type_alias_plain.far),
        p + 1,
        s.len(),
    );
    if by_type_alias_plain.value is Some {
        by_type_alias_plain
    } else {
        by_type_alias_generic
    }
}

/// Types with commas between them: `typed_expr ** (_ "," _)`.
#[verifier::opaque]
pub open spec fn typed_args(s: Seq<char>, p: int, far: Far) -> Step<Seq<Node>>
    decreases s.len() - p, 6nat,
{
    let first = within(typed_expr(s, p, far), p + 1, s.len());
    if first.value is None {
        ok(Seq::empty(), p, first.far)
    } else {
        let rest = typed_args_more(s, first.end, first.far);
        ok(seq![first.value->0] + rest.value->0, rest.end, rest.far)
    }
}

/// What follows an item of `typed_args`: a separator and an item, as often as both are there.
#[verifier::opaque]
pub open spec fn typed_args_more(s: Seq<char>, p: int, far: Far) -> Step<Seq<Node>>
    decreases s.len() - p, 6nat,
{
    let sep = within(ws_lit_ws(s, p, Token::Comma, far), p + 1, s.len());
    if sep.value is None {
        ok(Seq::empty(), p, sep.far)
    } else {
        let next = within(typed_expr(s, sep.end, sep.far), sep.end + 1, s.len());
        if next.value is None {
            ok(Seq::empty(), p, next.far)
        } else {
            let rest = typed_args_more(s, next.end, next.far);
            ok(seq![next.value->0] + rest.value->0, rest.end, rest.far)
        }
    }
}

/// Generic arguments: `"<" _ typed_expr ** (_ "," _) _ ">"`.
#[verifier::opaque]
pub open spec fn type_generic(s: Seq<char>, p: int, far: Far) -> Step<Seq<Node>>
    decreases s.len() - p, 1nat,
{
    let less = within(lit_ws(s, p, Token::Less, far), p + 1, s.len());
    if less.value is None {
        fail(less.far)
    } else {
        let args = within(typed_args(s, less.end, less.far), less.end, s.len());
        if args.value is None {
            fail(args.far)
        } else {
            let greater = within(
                ws_lit(s, args.end, Token::Greater, args.far),
                args.end + 1,
                s.len(),
            );
            if greater.value is None {
                fail(greater.far)
            } else {
                ok(args.value->0, greater.end, greater.far)
            }
        }
    }
}

/// Types one after the other: `typed_expr*`.
#[verifier::opaque]
pub open spec fn typed_rest(s: Seq<char>, p: int, far: Far) -> Step<Seq<Node>>
    decreases s.len() - p, 6nat,
{
    let first = within(typed_expr(s, p, far), p + 1, s.len());
    if first.value is None {
        ok(Seq::empty(), p, first.far)
    } else {
        let rest = typed_rest(s, first.end, first.far);
        ok(seq![first.value->0] + rest.value->0, rest.end, rest.far)
    }
}

/// A chain of alternatives: `"|" _ typed_expr _ "|" _ typed_expr*`. The chain
/// leans to the right; a single alternative is itself.
#[verifier::opaque]
pub open spec fn typed_variant(s: Seq<char>, p: int, far: Far) -> Step<Node>
    decreases s.len() - p, 1nat,
{
    let pipe = within(lit_ws(s, p, Token::Pipe, far), p + 1, s.len());
    if pipe.value is None {
        fail(pipe.far)
    } else {
        let first = within(typed_expr(s, pipe.end, pipe.far), pipe.end + 1, s.len());
        if first.value is None {
            fail(first.far)
        } else {
            let pipe2 = within(
                ws_lit_ws(s, first.end, Token::Pipe, first.far),
                first.end + 1,
                s.len(),
            );
            if pipe2.value is None {
                fail(pipe2.far)
            } else {
                let rest = within(typed_rest(s, pipe2.end, pipe2.far), pipe2.end, s.len());
                if rest.value is None {
                    fail(rest.far)
                } else {
                    ok(variant_chain(first.value->0, rest.value->0), rest.end, rest.far)
                }
            }
        }
    }
}

/// A type behind prefix operators: `typed_unary_op() ** _ typed_primary`.
#[verifier::opaque]
pub open spec fn typed_unary(s: Seq<char>, p: int, far: Far) -> Step<Node>
    decreases s.len() - p, 4nat,
{
    let ops = within(typed_unary_ops(s, p, far), p, s.len());
    if ops.value is None {
        fail(ops.far)
    } else {
        let inner = within(typed_primary(s, ops.end, ops.far), ops.end + 1, s.len());
        if inner.value is None {
            fail(inner.far)
        } else {
            ok(typed_prefixed(ops.value->0, inner.value->0), inner.end, inner.far)
        }
    }
}

/// A type without prefix operators, the alternatives in this order.
#[verifier::opaque]
pub open spec fn typed_primary(s: Seq<char>, p: int, far: Far) -> Step<Node>
    decreases s.len() - p, 3nat,
{
    let by_typed_literal = within(typed_literal(s, p, far), p + 1, s.len());
    let by_typed_member = within(typed_member(s, p, by_typed_literal.far), p + 1, s.len());
    let by_typed_symbol_generic = within(
        typed_symbol_generic(s, p, by_typed_member.far),
        p + 1,
        s.len(),
    );
    let by_typed_symbol = within(typed_symbol(s, p, by_typed_symbol_generic.far), p + 1, s.len());
    let by_typed_optional = within(typed_optional(s, p, by_typed_symbol.far), p + 1, s.len());
    let by_typed_record = within(typed_record(s, p, by_typed_optional.far), p + 1, s.len());
    let by_typed_variant = within(typed_variant(s, p, by_typed_record.far), p + 1, s.len());
    let by_typed_fn_expr = within(typed_fn_expr(s, p, by_typed_variant.far), p + 1, s.len());
    if by_typed_literal.value is Some {
        by_typed_literal
    } else if by_typed_member.value is Some {
        by_typed_member
    } else if by_typed_symbol_generic.value is Some {
        by_typed_symbol_generic
    } else if by_typed_symbol.value is Some {
        by_typed_symbol
    } else if by_typed_optional.value is Some {
        by_typed_optional
    } else if by_typed_record.value is Some {
        by_typed_record
    } else if by_typed_variant.value is Some {
        by_typed_variant
    } else {
        by_typed_fn_expr
    }
}

/// A type.
#[verifier::opaque]
pub open spec fn typed_expr(s: Seq<char>, p: int, far: Far) -> Step<Node>
    decreases s.len() - p, 5nat,
{
    let by_typed_unary = within(typed_unary(s, p, far), p + 1, s.len());
    let by_typed_primary = within(typed_primary(s, p, by_typed_unary.far), p + 1, s.len());
    if by_typed_unary.value is Some {
        by_typed_unary
    } else {
        by_typed_primary
    }
}

/// The segments after the first dot: `(member_expr / call_expr)*`.
#[verifier::opaque]
pub open spec fn segments(s: Seq<char>, p: int, far: Far) -> Step<Seq<Node>>
    decreases s.len() - p, 6nat,
{
    let first = within(segment(s, p, far), p + 1, s.len());
    if first.value is None {
        ok(Seq::empty(), p, first.far)
    } else {
        let rest = segments(s, first.end, first.far);
        ok(seq![first.value->0] + rest.value->0, rest.end, rest.far)
    }
}

/// A dotted path: `identifier_expr _ "." _ (member_expr / call_expr)*`.
#[verifier::opaque]
pub open spec fn member_expr(s: Seq<char>, p: int, far: Far) -> Step<Node>
    decreases s.len() - p, 1nat,
{
    let base = within(identifier_expr(s, p, far), p + 1, s.len());
    if base.value is None {
        fail(base.far)
    } else {
        let dot = within(ws_lit_ws(s, base.end, Token::Dot, base.far), base.end + 1, s.len());
        if dot.value is None {
            fail(dot.far)
        } else {
            let rest = within(segments(s, dot.end, dot.far), dot.end, s.len());
            if rest.value is None {
                fail(rest.far)
            } else {
                ok(Node::Member(seq![base.value->0] + rest.value->0), rest.end, rest.far)
            }
        }
    }
}

/// A segment of a path: a path or a call.
#[verifier::opaque]
pub open spec fn segment(s: Seq<char>, p: int, far: Far) -> Step<Node>
    decreases s.len() - p, 5nat,
{
    let by_member_expr = within(member_expr(s, p, far), p + 1, s.len());
    let by_call_expr = within(call_expr(s, p, by_member_expr.far), p + 1, s.len());
    if by_member_expr.value is Some {
        by_member_expr
    } else {
        by_call_expr
    }
}

/// What a call calls: a function, a name or a path.
#[verifier::opaque]
pub open spec fn callee(s: Seq<char>, p: int, far: Far) -> Step<Node>
    decreases s.len() - p, 2nat,
{
    let by_fn_expr = within(fn_expr(s, p, far), p + 1, s.len());
    let by_identifier_expr = within(identifier_expr(s, p, by_fn_expr.far), p + 1, s.len());
    let by_member_expr = within(member_expr(s, p, by_identifier_expr.far), p + 1, s.len());
    if by_fn_expr.value is Some {
        by_fn_expr
    } else if by_identifier_expr.value is Some {
        by_identifier_expr
    } else {
        by_member_expr
    }
}

/// What a call with generic arguments calls: a name or a path.
#[verifier::opaque]
pub open spec fn typed_callee(s: Seq<char>, p: int, far: Far) -> Step<Node>
    decreases s.len() - p, 2nat,
{
    let by_identifier_expr = within(identifier_expr(s, p, far), p + 1, s.len());
    let by_member_expr = within(member_expr(s, p, by_identifier_expr.far), p + 1, s.len());
    if by_identifier_expr.value is Some {
        by_identifier_expr
    } else {
        by_member_expr
    }
}

/// Expressions with commas between them: `expr ** (_ "," _)`.
#[verifier::opaque]
pub open spec fn args(s: Seq<char>, p: int, far: Far) -> Step<Seq<Node>>
    decreases s.len() - p, 13nat,
{
    let first = within(expr(s, p, far), p + 1, s.len());
    if first.value is None {
        ok(Seq::empty(), p, first.far)
    } else {
        let rest = args_more(s, first.end, first.far);
        ok(seq![first.value->0] + rest.value->0, rest.end, rest.far)
    }
}

/// What follows an item of `args`: a separator and an item, as often as both are there.
#[verifier::opaque]
pub open spec fn args_more(s: Seq<char>, p: int, far: Far) -> Step<Seq<Node>>
    decreases s.len() - p, 13nat,
{
    let sep = within(ws_lit_ws(s, p, Token::Comma, far), p + 1, s.len());
    if sep.value is None {
        ok(Seq::empty(), p, sep.far)
    } else {
        let next = within(expr(s, sep.end, sep.far), sep.end + 1, s.len());
        if next.value is None {
            ok(Seq::empty(), p, next.far)
        } else {
            let rest = args_more(s, next.end, next.far);
            ok(seq![next.value->0] + rest.value->0, rest.end, rest.far)
        }
    }
}

/// A call: `callee "(" _ expr ** (_ "," _) _ ")"`.
#[verifier::opaque]
pub open spec fn call_plain(s: Seq<char>, p: int, far: Far) -> Step<Node>
    decreases s.len() - p, 3nat,
{
    let target = within(callee(s, p, far), p + 1, s.len());
    if target.value is None {
        fail(target.far)
    } else {
        let l_paren = within(
            lit_ws(s, target.end, Token::LParen, target.far),
            target.end + 1,
            s.len(),
        );
        if l_paren.value is None {
            fail(l_paren.far)
        } else {
            let args = within(args(s, l_paren.end, l_paren.far), l_paren.end, s.len());
            if args.value is None {
                fail(args.far)
            } else {
                let r_paren = within(
                    ws_lit(s, args.end, Token::RParen, args.far),
                    args.end + 1,
                    s.len(),
                );
                if r_paren.value is None {
                    fail(r_paren.far)
                } else {
                    ok(
                        Node::Call(Box::new(target.value->0), args.value->0),
                        r_paren.end,
                        r_paren.far,
                    )
                }
            }
        }
    }
}

/// A call with generic arguments: `callee _ type_generic _ "(" _ expr ** (_ "," _) _ ")"`.
#[verifier::opaque]
pub open spec fn call_typed(s: Seq<char>, p: int, far: Far) -> Step<Node>
    decreases s.len() - p, 3nat,
{
    let target = within(typed_callee(s, p, far), p + 1, s.len());
    if target.value is None {
        fail(target.far)
    } else {
        let gap = within(skip(s, target.end, target.far), target.end, s.len());
        if gap.value is None {
            fail(gap.far)
        } else {
            let generics = within(type_generic(s, gap.end, gap.far), gap.end + 1, s.len());
            if generics.value is None {
                fail(generics.far)
            } else {
                let l_paren = within(
                    ws_lit_ws(s, generics.end, Token::LParen, generics.far),
                    generics.end + 1,
                    s.len(),
                );
                if l_paren.value is None {
                    fail(l_paren.far)
                } else {
                    let args = within(args(s, l_paren.end, l_paren.far), l_paren.end, s.len());
                    if args.value is None {
                        fail(args.far)
                    } else {
                        let r_paren = within(
                            ws_lit(s, args.end, Token::RParen, args.far),
                            args.end + 1,
                            s.len(),
                        );
                        if r_paren.value is None {
                            fail(r_paren.far)
                        } else {
                            ok(
                                Node::TypedCall(
                                    Box::new(target.value->0),
                                    generics.value->0,
                                    args.value->0,
                                ),
                                r_paren.end,
                                r_paren.far,
                            )
                        }
                    }
                }
            }
        }
    }
}

/// A call, plain or with generic arguments.
#[verifier::opaque]
pub open spec fn call_expr(s: Seq<char>, p: int, far: Far) -> Step<Node>
    decreases s.len() - p, 4nat,
{
    let by_call_plain = within(call_plain(s, p, far), p + 1, s.len());
    let by_call_typed = within(call_typed(s, p, by_call_plain.far), p + 1, s.len());
    if by_call_plain.value is Some {
        by_call_plain
    } else {
        by_call_typed
    }
}

/// What names a directive: a call or a name.
#[verifier::opaque]
pub open spec fn directive_name(s: Seq<char>, p: int, far: Far) -> Step<Node>
    decreases s.len() - p, 5nat,
{
    let by_call_expr = within(call_expr(s, p, far), p + 1, s.len());
    let by_identifier_expr = within(identifier_expr(s, p, by_call_expr.far), p + 1, s.len());
    if by_call_expr.value is Some {
        by_call_expr
    } else {
        by_identifier_expr
    }
}

/// A directive and its target: `"@" _ (call_expr / identifier_expr) _ primary`.
#[verifier::opaque]
pub open spec fn directive_expr(s: Seq<char>, p: int, far: Far) -> Step<Node>
    decreases s.len() - p, 1nat,
{
    let at = within(lit_ws(s, p, Token::At, far), p + 1, s.len());
    if at.value is None {
        fail(at.far)
    } else {
        let directive = within(directive_name(s, at.end, at.far), at.end + 1, s.len());
        if directive.value is None {
            fail(directive.far)
        } else {
            let gap = within(skip(s, directive.end, directive.far), directive.end, s.len());
            if gap.value is None {
                fail(gap.far)
            } else {
                let target = within(primary(s, gap.end, gap.far), gap.end + 1, s.len());
                if target.value is None {
                    fail(target.far)
                } else {
                    ok(
                        Node::Directive(Box::new(directive.value->0), Box::new(target.value->0)),
                        target.end,
                        target.far,
                    )
                }
            }
        }
    }
}

/// A binding: `"let" _ identifier _ "=" _ expr`.
#[verifier::opaque]
pub open spec fn let_plain(s: Seq<char>, p: int, far: Far) -> Step<Node>
    decreases s.len() - p, 1nat,
{
    let let_word = within(lit_ws(s, p, Token::Let, far), p + 1, s.len());
    if let_word.value is None {
        fail(let_word.far)
    } else {
        let name = within(identifier(s, let_word.end, let_word.far), let_word.end + 1, s.len());
        if name.value is None {
            fail(name.far)
        } else {
            let assign = within(
                ws_lit_ws(s, name.end, Token::Assign, name.far),
                name.end + 1,
                s.len(),
            );
            if assign.value is None {
                fail(assign.far)
            } else {
                let value = within(expr(s, assign.end, assign.far), assign.end + 1, s.len());
                if value.value is None {
                    fail(value.far)
                } else {
                    ok(Node::Let(name.value->0, Box::new(value.value->0)), value.end, value.far)
                }
            }
        }
    }
}

/// A typed binding: `"let" _ identifier _ ":" _ typed_expr _ "=" _ expr`.
#[verifier::opaque]
pub open spec fn let_typed(s: Seq<char>, p: int, far: Far) -> Step<Node>
    decreases s.len() - p, 1nat,
{
    let let_word = within(lit_ws(s, p, Token::Let, far), p + 1, s.len());
    if let_word.value is None {
        fail(let_word.far)
    } else {
        let name = within(identifier(s, let_word.end, let_word.far), let_word.end + 1, s.len());
        if name.value is None {
            fail(name.far)
        } else {
            let colon = within(
                ws_lit_ws(s, name.end, Token::Colon, name.far),
                name.end + 1,
                s.len(),
            );
            if colon.value is None {
                fail(colon.far)
            } else {
                let ty = within(typed_expr(s, colon.end, colon.far), colon.end + 1, s.len());
                if ty.value is None {
                    fail(ty.far)
                } else {
                    let assign = within(
                        ws_lit_ws(s, ty.end, Token::Assign, ty.far),
                        ty.end + 1,
                        s.len(),
                    );
                    if assign.value is None {
                        fail(assign.far)
                    } else {
                        let value = within(
                            expr(s, assign.end, assign.far),
                            assign.end + 1,
                            s.len(),
                        );
                        if value.value is None {
                            fail(value.far)
                        } else {
                            ok(
                                Node::TypedLet(
                                    name.value->0,
                                    Box::new(ty.value->0),
                                    Box::new(value.value->0),
                                ),
                                value.end,
                                value.far,
                            )
                        }
                    }
                }
            }
        }
    }
}

/// A binding, plain or typed.
#[verifier::opaque]
pub open spec fn let_binding(s: Seq<char>, p: int, far: Far) -> Step<Node>
    decreases s.len() - p, 2nat,
{
    let by_let_plain = within(let_plain(s, p, far), p + 1, s.len());
    let by_let_typed = within(let_typed(s, p, by_let_plain.far), p + 1, s.len());
    if by_let_plain.value is Some {
        by_let_plain
    } else {
        by_let_typed
    }
}

/// What can be assigned to: a path or a name.
#[verifier::opaque]
pub open spec fn assignable(s: Seq<char>, p: int, far: Far) -> Step<Node>
    decreases s.len() - p, 2nat,
{
    let by_member_expr = within(member_expr(s, p, far), p + 1, s.len());
    let by_identifier_expr = within(identifier_expr(s, p, by_member_expr.far), p + 1, s.len());
    if by_member_expr.value is Some {
        by_member_expr
    } else {
        by_identifier_expr
    }
}

/// An assignment: `assignable _ "=" _ expr`.
#[verifier::opaque]
pub open spec fn assign(s: Seq<char>, p: int, far: Far) -> Step<Node>
    decreases s.len() - p, 3nat,
{
    let target = within(assignable(s, p, far), p + 1, s.len());
    if target.value is None {
        fail(target.far)
    } else {
        let assign = within(
            ws_lit_ws(s, target.end, Token::Assign, target.far),
            target.end + 1,
            s.len(),
        );
        if assign.value is None {
            fail(assign.far)
        } else {
            let value = within(expr(s, assign.end, assign.far), assign.end + 1, s.len());
            if value.value is None {
                fail(value.far)
            } else {
                ok(
                    Node::Assign(Box::new(target.value->0), Box::new(value.value->0)),
                    value.end,
                    value.far,
                )
            }
        }
    }
}

/// An expression in parentheses: `"(" _ expr _ ")"`.
#[verifier::opaque]
pub open spec fn paren_expr(s: Seq<char>, p: int, far: Far) -> Step<Node>
    decreases s.len() - p, 1nat,
{
    let l_paren = within(lit_ws(s, p, Token::LParen, far), p + 1, s.len());
    if l_paren.value is None {
        fail(l_paren.far)
    } else {
        let inner = within(expr(s, l_paren.end, l_paren.far), l_paren.end + 1, s.len());
        if inner.value is None {
            fail(inner.far)
        } else {
            let r_paren = within(
                ws_lit(s, inner.end, Token::RParen, inner.far),
                inner.end + 1,
                s.len(),
            );
            if r_paren.value is None {
                fail(r_paren.far)
            } else {
                ok(inner.value->0, r_paren.end, r_paren.far)
            }
        }
    }
}

/// A list: `"[" expr ** (_ "," _) "]"`, with nothing skipped inside the brackets.
#[verifier::opaque]
pub open spec fn list(s: Seq<char>, p: int, far: Far) -> Step<Node>
    decreases s.len() - p, 1nat,
{
    let l_bracket = within(lit(s, p, Token::LBracket, far), p + 1, s.len());
    if l_bracket.value is None {
        fail(l_bracket.far)
    } else {
        let items = within(args(s, l_bracket.end, l_bracket.far), l_bracket.end, s.len());
        if items.value is None {
            fail(items.far)
        } else {
            let r_bracket = within(
                lit(s, items.end, Token::RBracket, items.far),
                items.end + 1,
                s.len(),
            );
            if r_bracket.value is None {
                fail(r_bracket.far)
            } else {
                ok(Node::List(items.value->0), r_bracket.end, r_bracket.far)
            }
        }
    }
}

/// An entry of a record: `record_key _ ":" _ expr`, as the pair of the two.
#[verifier::opaque]
pub open spec fn record_entry(s: Seq<char>, p: int, far: Far) -> Step<Seq<Node>>
    decreases s.len() - p, 1nat,
{
    let key = within(record_key(s, p, far), p + 1, s.len());
    if key.value is None {
        fail(key.far)
    } else {
        let colon = within(ws_lit_ws(s, key.end, Token::Colon, key.far), key.end + 1, s.len());
        if colon.value is None {
            fail(colon.far)
        } else {
            let value = within(expr(s, colon.end, colon.far), colon.end + 1, s.len());
            if value.value is None {
                fail(value.far)
            } else {
                ok(seq![key.value->0, value.value->0], value.end, value.far)
            }
        }
    }
}

/// The entries of a record: `record_entry ** (_ "," _)`.
#[verifier::opaque]
pub open spec fn record_entries(s: Seq<char>, p: int, far: Far) -> Step<Seq<Seq<Node>>>
    decreases s.len() - p, 2nat,
{
    let first = within(record_entry(s, p, far), p + 1, s.len());
    if first.value is None {
        ok(Seq::empty(), p, first.far)
    } else {
        let rest = record_entries_more(s, first.end, first.far);
        ok(seq![first.value->0] + rest.value->0, rest.end, rest.far)
    }
}

/// What follows an item of `record_entries`: a separator and an item, as often as both are there.
#[verifier::opaque]
pub open spec fn record_entries_more(s: Seq<char>, p: int, far: Far) -> Step<Seq<Seq<Node>>>
    decreases s.len() - p, 2nat,
{
    let sep = within(ws_lit_ws(s, p, Token::Comma, far), p + 1, s.len());
    if sep.value is None {
        ok(Seq::empty(), p, sep.far)
    } else {
        let next = within(record_entry(s, sep.end, sep.far), sep.end + 1, s.len());
        if next.value is None {
            ok(Seq::empty(), p, next.far)
        } else {
            let rest = record_entries_more(s, next.end, next.far);
            ok(seq![next.value->0] + rest.value->0, rest.end, rest.far)
        }
    }
}

/// A record: `"{" _ entries _ "}"`.
#[verifier::opaque]
pub open spec fn record(s: Seq<char>, p: int, far: Far) -> Step<Node>
    decreases s.len() - p, 1nat,
{
    let l_brace = within(lit_ws(s, p, Token::LBrace, far), p + 1, s.len());
    if l_brace.value is None {
        fail(l_brace.far)
    } else {
        let entries = within(record_entries(s, l_brace.end, l_brace.far), l_brace.end, s.len());
        if entries.value is None {
            fail(entries.far)
        } else {
            let r_brace = within(
                ws_lit(s, entries.end, Token::RBrace, entries.far),
                entries.end + 1,
                s.len(),
            );
            if r_brace.value is None {
                fail(r_brace.far)
            } else {
                ok(Node::Record(entries.value->0), r_brace.end, r_brace.far)
            }
        }
    }
}

/// A field of a struct: `identifier _ ":" _ typed_expr`.
#[verifier::opaque]
pub open spec fn field_entry(s: Seq<char>, p: int, far: Far) -> Step<(Seq<char>, Node)>
    decreases s.len() - p, 1nat,
{
    let name = within(identifier(s, p, far), p + 1, s.len());
    if name.value is None {
        fail(name.far)
    } else {
        let colon = within(ws_lit_ws(s, name.end, Token::Colon, name.far), name.end + 1, s.len());
        if colon.value is None {
            fail(colon.far)
        } else {
            let ty = within(typed_expr(s, colon.end, colon.far), colon.end + 1, s.len());
            if ty.value is None {
                fail(ty.far)
            } else {
                ok((name.value->0, ty.value->0), ty.end, ty.far)
            }
        }
    }
}

/// A method of a struct: `identifier _ ":" _ fn_expr`.
#[verifier::opaque]
pub open spec fn method_entry(s: Seq<char>, p: int, far: Far) -> Step<(Seq<char>, Node)>
    decreases s.len() - p, 1nat,
{
    let name = within(identifier(s, p, far), p + 1, s.len());
    if name.value is None {
        fail(name.far)
    } else {
        let colon = within(ws_lit_ws(s, name.end, Token::Colon, name.far), name.end + 1, s.len());
        if colon.value is None {
            fail(colon.far)
        } else {
            let method = within(fn_expr(s, colon.end, colon.far), colon.end + 1, s.len());
            if method.value is None {
                fail(method.far)
            } else {
                ok((name.value->0, method.value->0), method.end, method.far)
            }
        }
    }
}

/// A member of a struct: a field, or else a method.
#[verifier::opaque]
pub open spec fn struct_entry(s: Seq<char>, p: int, far: Far) -> Step<(Seq<char>, Node)>
    decreases s.len() - p, 2nat,
{
    let by_field_entry = within(field_entry(s, p, far), p + 1, s.len());
    let by_method_entry = within(method_entry(s, p, by_field_entry.far), p + 1, s.len());
    if by_field_entry.value is Some {
        by_field_entry
    } else {
        by_method_entry
    }
}

/// The members of a struct: `struct_entry ** (_ "," _)`.
#[verifier::opaque]
pub open spec fn struct_entries(s: Seq<char>, p: int, far: Far) -> Step<Seq<(Seq<char>, Node)>>
    decreases s.len() - p, 3nat,
{
    let first = within(struct_entry(s, p, far), p + 1, s.len());
    if first.value is None {
        ok(Seq::empty(), p, first.far)
    } else {
        let rest = struct_entries_more(s, first.end, first.far);
        ok(seq![first.value->0] + rest.value->0, rest.end, rest.far)
    }
}

/// What follows an item of `struct_entries`: a separator and an item, as often as both are there.
#[verifier::opaque]
pub open spec fn struct_entries_more(s: Seq<char>, p: int, far: Far) -> Step<Seq<(Seq<char>, Node)>>
    decreases s.len() - p, 3nat,
{
    let sep = within(ws_lit_ws(s, p, Token::Comma, far), p + 1, s.len());
    if sep.value is None {
        ok(Seq::empty(), p, sep.far)
    } else {
        let next = within(struct_entry(s, sep.end, sep.far), sep.end + 1, s.len());
        if next.value is None {
            ok(Seq::empty(), p, next.far)
        } else {
            let rest = struct_entries_more(s, next.end, next.far);
            ok(seq![next.value->0] + rest.value->0, rest.end, rest.far)
        }
    }
}

/// A struct: `"struct" _ identifier _ struct_entry ** (_ "," _) _ "end"`.
#[verifier::opaque]
pub open spec fn struct_expr(s: Seq<char>, p: int, far: Far) -> Step<Node>
    decreases s.len() - p, 1nat,
{
    let struct_word = within(lit_ws(s, p, Token::Struct, far), p + 1, s.len());
    if struct_word.value is None {
        fail(struct_word.far)
    } else {
        let name = within(
            identifier(s, struct_word.end, struct_word.far),
            struct_word.end + 1,
            s.len(),
        );
        if name.value is None {
            fail(name.far)
        } else {
            let gap = within(skip(s, name.end, name.far), name.end, s.len());
            if gap.value is None {
                fail(gap.far)
            } else {
                let entries = within(struct_entries(s, gap.end, gap.far), gap.end, s.len());
                if entries.value is None {
                    fail(entries.far)
                } else {
                    let end_word = within(
                        ws_lit(s, entries.end, Token::End, entries.far),
                        entries.end + 1,
                        s.len(),
                    );
                    if end_word.value is None {
                        fail(end_word.far)
                    } else {
                        ok(
                            Node::Struct(name.value->0, entries.value->0),
                            end_word.end,
                            end_word.far,
                        )
                    }
                }
            }
        }
    }
}

/// The statements of a body: `expr ** (_ ";" _)`.
#[verifier::opaque]
pub open spec fn body_expr(s: Seq<char>, p: int, far: Far) -> Step<Seq<Node>>
    decreases s.len() - p, 13nat,
{
    let first = within(expr(s, p, far), p + 1, s.len());
    if first.value is None {
        ok(Seq::empty(), p, first.far)
    } else {
        let rest = body_expr_more(s, first.end, first.far);
        ok(seq![first.value->0] + rest.value->0, rest.end, rest.far)
    }
}

/// What follows an item of `body_expr`: a separator and an item, as often as both are there.
#[verifier::opaque]
pub open spec fn body_expr_more(s: Seq<char>, p: int, far: Far) -> Step<Seq<Node>>
    decreases s.len() - p, 13nat,
{
    let sep = within(ws_lit_ws(s, p, Token::Semicolon, far), p + 1, s.len());
    if sep.value is None {
        ok(Seq::empty(), p, sep.far)
    } else {
        let next = within(expr(s, sep.end, sep.far), sep.end + 1, s.len());
        if next.value is None {
            ok(Seq::empty(), p, next.far)
        } else {
            let rest = body_expr_more(s, next.end, next.far);
            ok(seq![next.value->0] + rest.value->0, rest.end, rest.far)
        }
    }
}

/// A conditional without else: `"if" _ expr _ "then" _ body_expr _ "end"`.
#[verifier::opaque]
pub open spec fn if_plain(s: Seq<char>, p: int, far: Far) -> Step<Node>
    decreases s.len() - p, 1nat,
{
    let if_word = within(lit_ws(s, p, Token::If, far), p + 1, s.len());
    if if_word.value is None {
        fail(if_word.far)
    } else {
        let cond = within(expr(s, if_word.end, if_word.far), if_word.end + 1, s.len());
        if cond.value is None {
            fail(cond.far)
        } else {
            let then_word = within(
                ws_lit_ws(s, cond.end, Token::Then, cond.far),
                cond.end + 1,
                s.len(),
            );
            if then_word.value is None {
                fail(then_word.far)
            } else {
                let then_body = within(
                    body_expr(s, then_word.end, then_word.far),
                    then_word.end,
                    s.len(),
                );
                if then_body.value is None {
                    fail(then_body.far)
                } else {
                    let end_word = within(
                        ws_lit(s, then_body.end, Token::End, then_body.far),
                        then_body.end + 1,
                        s.len(),
                    );
                    if end_word.value is None {
                        fail(end_word.far)
                    } else {
                        ok(
                            Node::If(Box::new(cond.value->0), then_body.value->0, None),
                            end_word.end,
                            end_word.far,
                        )
                    }
                }
            }
        }
    }
}

/// A conditional with else: `"if" _ expr _ "then" _ body_expr _ "else" _ body_expr _ "end"`.
#[verifier::opaque]
pub open spec fn if_else(s: Seq<char>, p: int, far: Far) -> Step<Node>
    decreases s.len() - p, 1nat,
{
    let if_word = within(lit_ws(s, p, Token::If, far), p + 1, s.len());
    if if_word.value is None {
        fail(if_word.far)
    } else {
        let cond = within(expr(s, if_word.end, if_word.far), if_word.end + 1, s.len());
        if cond.value is None {
            fail(cond.far)
        } else {
            let then_word = within(
                ws_lit_ws(s, cond.end, Token::Then, cond.far),
                cond.end + 1,
                s.len(),
            );
            if then_word.value is None {
                fail(then_word.far)
            } else {
                let then_body = within(
                    body_expr(s, then_word.end, then_word.far),
                    then_word.end,
                    s.len(),
                );
                if then_body.value is None {
                    fail(then_body.far)
                } else {
                    let else_word = within(
                        ws_lit_ws(s, then_body.end, Token::Else, then_body.far),
                        then_body.end + 1,
                        s.len(),
                    );
                    if else_word.value is None {
                        fail(else_word.far)
                    } else {
                        let else_body = within(
                            body_expr(s, else_word.end, else_word.far),
                            else_word.end,
                            s.len(),
                        );
                        if else_body.value is None {
                            fail(else_body.far)
                        } else {
                            let end_word = within(
                                ws_lit(s, else_body.end, Token::End, else_body.far),
                                else_body.end + 1,
                                s.len(),
                            );
                            if end_word.value is None {
                                fail(end_word.far)
                            } else {
                                ok(
                                    Node::If(
                                        Box::new(cond.value->0),
                                        then_body.value->0,
                                        Some(else_body.value->0),
                                    ),
                                    end_word.end,
                                    end_word.far,
                                )
                            }
                        }
                    }
                }
            }
        }
    }
}

/// A conditional, without else or with it.
#[verifier::opaque]
pub open spec fn if_expr(s: Seq<char>, p: int, far: Far) -> Step<Node>
    decreases s.len() - p, 2nat,
{
    let by_if_plain = within(if_plain(s, p, far), p + 1, s.len());
    let by_if_else = within(if_else(s, p, by_if_plain.far), p + 1, s.len());
    if by_if_plain.value is Some {
        by_if_plain
    } else {
        by_if_else
    }
}

/// A loop: `"for" _ expr _ "in" _ primary _ body_expr _ "end"`.
#[verifier::opaque]
pub open spec fn loop_expr(s: Seq<char>, p: int, far: Far) -> Step<Node>
    decreases s.len() - p, 1nat,
{
    let for_word = within(lit_ws(s, p, Token::For, far), p + 1, s.len());
    if for_word.value is None {
        fail(for_word.far)
    } else {
        let binding = within(expr(s, for_word.end, for_word.far), for_word.end + 1, s.len());
        if binding.value is None {
            fail(binding.far)
        } else {
            let in_word = within(
                ws_lit_ws(s, binding.end, Token::In, binding.far),
                binding.end + 1,
                s.len(),
            );
            if in_word.value is None {
                fail(in_word.far)
            } else {
                let iterable = within(
                    primary(s, in_word.end, in_word.far),
                    in_word.end + 1,
                    s.len(),
                );
                if iterable.value is None {
                    fail(iterable.far)
                } else {
                    let gap = within(skip(s, iterable.end, iterable.far), iterable.end, s.len());
                    if gap.value is None {
                        fail(gap.far)
                    } else {
                        let body = within(body_expr(s, gap.end, gap.far), gap.end, s.len());
                        if body.value is None {
                            fail(body.far)
                        } else {
                            let end_word = within(
                                ws_lit(s, body.end, Token::End, body.far),
                                body.end + 1,
                                s.len(),
                            );
                            if end_word.value is None {
                                fail(end_word.far)
                            } else {
                                ok(
                                    Node::Loop(
                                        Box::new(binding.value->0),
                                        Box::new(iterable.value->0),
                                        body.value->0,
                                    ),
                                    end_word.end,
                                    end_word.far,
                                )
                            }
                        }
                    }
                }
            }
        }
    }
}

/// A parameter with its type: `identifier _ ":" _ typed_expr`.
#[verifier::opaque]
pub open spec fn typed_arg(s: Seq<char>, p: int, far: Far) -> Step<(Seq<char>, Option<Node>)>
    decreases s.len() - p, 1nat,
{
    let name = within(identifier(s, p, far), p + 1, s.len());
    if name.value is None {
        fail(name.far)
    } else {
        let colon = within(ws_lit_ws(s, name.end, Token::Colon, name.far), name.end + 1, s.len());
        if colon.value is None {
            fail(colon.far)
        } else {
            let ty = within(typed_expr(s, colon.end, colon.far), colon.end + 1, s.len());
            if ty.value is None {
                fail(ty.far)
            } else {
                ok((name.value->0, Some(ty.value->0)), ty.end, ty.far)
            }
        }
    }
}

/// A parameter without type: `identifier`.
#[verifier::opaque]
pub open spec fn plain_arg(s: Seq<char>, p: int, far: Far) -> Step<(Seq<char>, Option<Node>)>
    decreases s.len() - p, 1nat,
{
    let name = within(identifier(s, p, far), p + 1, s.len());
    if name.value is None {
        fail(name.far)
    } else {
        ok((name.value->0, None), name.end, name.far)
    }
}

/// A parameter, with its type or without.
#[verifier::opaque]
pub open spec fn fn_arg(s: Seq<char>, p: int, far: Far) -> Step<(Seq<char>, Option<Node>)>
    decreases s.len() - p, 2nat,
{
    let by_typed_arg = within(typed_arg(s, p, far), p + 1, s.len());
    let by_plain_arg = within(plain_arg(s, p, by_typed_arg.far), p + 1, s.len());
    if by_typed_arg.value is Some {
        by_typed_arg
    } else {
        by_plain_arg
    }
}

/// Parameters with commas between them: `fn_arg ** (_ "," _)`.
#[verifier::opaque]
pub open spec fn fn_args(s: Seq<char>, p: int, far: Far) -> Step<Seq<(Seq<char>, Option<Node>)>>
    decreases s.len() - p, 3nat,
{
    let first = within(fn_arg(s, p, far), p + 1, s.len());
    if first.value is None {
        ok(Seq::empty(), p, first.far)
    } else {
        let rest = fn_args_more(s, first.end, first.far);
        ok(seq![first.value->0] + rest.value->0, rest.end, rest.far)
    }
}

/// What follows an item of `fn_args`: a separator and an item, as often as both are there.
#[verifier::opaque]
pub open spec fn fn_args_more(s: Seq<char>, p: int, far: Far) -> Step<
    Seq<(Seq<char>, Option<Node>)>,
>
    decreases s.len() - p, 3nat,
{
    let sep = within(ws_lit_ws(s, p, Token::Comma, far), p + 1, s.len());
    if sep.value is None {
        ok(Seq::empty(), p, sep.far)
    } else {
        let next = within(fn_arg(s, sep.end, sep.far), sep.end + 1, s.len());
        if next.value is None {
            ok(Seq::empty(), p, next.far)
        } else {
            let rest = fn_args_more(s, next.end, next.far);
            ok(seq![next.value->0] + rest.value->0, rest.end, rest.far)
        }
    }
}

/// A function: `"|" _ fn_arg ** (_ "," _) _ "|" _ body_expr _ "end"`.
#[verifier::opaque]
pub open spec fn fn_expr(s: Seq<char>, p: int, far: Far) -> Step<Node>
    decreases s.len() - p, 1nat,
{
    let pipe = within(lit_ws(s, p, Token::Pipe, far), p + 1, s.len());
    if pipe.value is None {
        fail(pipe.far)
    } else {
        let params = within(fn_args(s, pipe.end, pipe.far), pipe.end, s.len());
        if params.value is None {
            fail(params.far)
        } else {
            let pipe2 = within(
                ws_lit_ws(s, params.end, Token::Pipe, params.far),
                params.end + 1,
                s.len(),
            );
            if pipe2.value is None {
                fail(pipe2.far)
            } else {
                let body = within(body_expr(s, pipe2.end, pipe2.far), pipe2.end, s.len());
                if body.value is None {
                    fail(body.far)
                } else {
                    let end_word = within(
                        ws_lit(s, body.end, Token::End, body.far),
                        body.end + 1,
                        s.len(),
                    );
                    if end_word.value is None {
                        fail(end_word.far)
                    } else {
                        ok(Node::Fn(params.value->0, body.value->0), end_word.end, end_word.far)
                    }
                }
            }
        }
    }
}

/// A case of a match: `"|" _ identifier _ "->" _ body_expr _ "," _`.
#[verifier::opaque]
pub open spec fn match_case(s: Seq<char>, p: int, far: Far) -> Step<(Seq<char>, Seq<Node>)>
    decreases s.len() - p, 1nat,
{
    let pipe = within(lit_ws(s, p, Token::Pipe, far), p + 1, s.len());
    if pipe.value is None {
        fail(pipe.far)
    } else {
        let tag = within(identifier(s, pipe.end, pipe.far), pipe.end + 1, s.len());
        if tag.value is None {
            fail(tag.far)
        } else {
            let arrow = within(ws_lit_ws(s, tag.end, Token::Arrow, tag.far), tag.end + 1, s.len());
            if arrow.value is None {
                fail(arrow.far)
            } else {
                let body = within(body_expr(s, arrow.end, arrow.far), arrow.end, s.len());
                if body.value is None {
                    fail(body.far)
                } else {
                    let comma = within(
                        ws_lit_ws(s, body.end, Token::Comma, body.far),
                        body.end + 1,
                        s.len(),
                    );
                    if comma.value is None {
                        fail(comma.far)
                    } else {
                        ok((tag.value->0, body.value->0), comma.end, comma.far)
                    }
                }
            }
        }
    }
}

/// The cases of a match: `match_case ** _`.
#[verifier::opaque]
pub open spec fn match_cases(s: Seq<char>, p: int, far: Far) -> Step<Seq<(Seq<char>, Seq<Node>)>>
    decreases s.len() - p, 2nat,
{
    let first = within(match_case(s, p, far), p + 1, s.len());
    if first.value is None {
        ok(Seq::empty(), p, first.far)
    } else {
        let rest = match_cases_more(s, first.end, first.far);
        ok(seq![first.value->0] + rest.value->0, rest.end, rest.far)
    }
}

/// What follows an item of `match_cases`: a separator and an item, as often as both are there.
#[verifier::opaque]
pub open spec fn match_cases_more(s: Seq<char>, p: int, far: Far) -> Step<
    Seq<(Seq<char>, Seq<Node>)>,
>
    decreases s.len() - p, 2nat,
{
    let sep = within(skip(s, p, far), p, s.len());
    if sep.value is None {
        ok(Seq::empty(), p, sep.far)
    } else {
        let next = within(match_case(s, sep.end, sep.far), sep.end + 1, s.len());
        if next.value is None {
            ok(Seq::empty(), p, next.far)
        } else {
            let rest = match_cases_more(s, next.end, next.far);
            ok(seq![next.value->0] + rest.value->0, rest.end, rest.far)
        }
    }
}

/// A match: `"match" _ expr _ "with" _ match_case ** _ "end"`.
#[verifier::opaque]
pub open spec fn match_expr(s: Seq<char>, p: int, far: Far) -> Step<Node>
    decreases s.len() - p, 1nat,
{
    let match_word = within(lit_ws(s, p, Token::Match, far), p + 1, s.len());
    if match_word.value is None {
        fail(match_word.far)
    } else {
        let scrutinee = within(
            expr(s, match_word.end, match_word.far),
            match_word.end + 1,
            s.len(),
        );
        if scrutinee.value is None {
            fail(scrutinee.far)
        } else {
            let with_word = within(
                ws_lit_ws(s, scrutinee.end, Token::With, scrutinee.far),
                scrutinee.end + 1,
                s.len(),
            );
            if with_word.value is None {
                fail(with_word.far)
            } else {
                let cases = within(
                    match_cases(s, with_word.end, with_word.far),
                    with_word.end,
                    s.len(),
                );
                if cases.value is None {
                    fail(cases.far)
                } else {
                    let end_word = within(
                        lit(s, cases.end, Token::End, cases.far),
                        cases.end + 1,
                        s.len(),
                    );
                    if end_word.value is None {
                        fail(end_word.far)
                    } else {
                        ok(
                            Node::Match(Box::new(scrutinee.value->0), cases.value->0),
                            end_word.end,
                            end_word.far,
                        )
                    }
                }
            }
        }
    }
}

/// An expression without infix or prefix operator. Assignment comes first, so
/// that a target followed by `=` is always an assignment.
#[verifier::opaque]
pub open spec fn primary(s: Seq<char>, p: int, far: Far) -> Step<Node>
    decreases s.len() - p, 6nat,
{
    let by_assign = within(assign(s, p, far), p + 1, s.len());
    let by_paren_expr = within(paren_expr(s, p, by_assign.far), p + 1, s.len());
    let by_directive_expr = within(directive_expr(s, p, by_paren_expr.far), p + 1, s.len());
    let by_match_expr = within(match_expr(s, p, by_directive_expr.far), p + 1, s.len());
    let by_struct_expr = within(struct_expr(s, p, by_match_expr.far), p + 1, s.len());
    let by_type_alias = within(type_alias(s, p, by_struct_expr.far), p + 1, s.len());
    let by_call_expr = within(call_expr(s, p, by_type_alias.far), p + 1, s.len());
    let by_range_expr = within(range_expr(s, p, by_call_expr.far), p + 1, s.len());
    let by_member_expr = within(member_expr(s, p, by_range_expr.far), p + 1, s.len());
    let by_loop_expr = within(loop_expr(s, p, by_member_expr.far), p + 1, s.len());
    let by_if_expr = within(if_expr(s, p, by_loop_expr.far), p + 1, s.len());
    let by_fn_expr = within(fn_expr(s, p, by_if_expr.far), p + 1, s.len());
    let by_let_binding = within(let_binding(s, p, by_fn_expr.far), p + 1, s.len());
    let by_pass = within(pass(s, p, by_let_binding.far), p + 1, s.len());
    let by_bool_literal = within(bool_literal(s, p, by_pass.far), p + 1, s.len());
    let by_float_literal = within(float_literal(s, p, by_bool_literal.far), p + 1, s.len());
    let by_integer_literal = within(integer_literal(s, p, by_float_literal.far), p + 1, s.len());
    let by_string_literal = within(string_literal(s, p, by_integer_literal.far), p + 1, s.len());
    let by_char_literal = within(char_literal(s, p, by_string_literal.far), p + 1, s.len());
    let by_identifier_expr = within(identifier_expr(s, p, by_char_literal.far), p + 1, s.len());
    let by_list = within(list(s, p, by_identifier_expr.far), p + 1, s.len());
    let by_record = within(record(s, p, by_list.far), p + 1, s.len());
    if by_assign.value is Some {
        by_assign
    } else if by_paren_expr.value is Some {
        by_paren_expr
    } else if by_directive_expr.value is Some {
        by_directive_expr
    } else if by_match_expr.value is Some {
        by_match_expr
    } else if by_struct_expr.value is Some {
        by_struct_expr
    } else if by_type_alias.value is Some {
        by_type_alias
    } else if by_call_expr.value is Some {
        by_call_expr
    } else if by_range_expr.value is Some {
        by_range_expr
    } else if by_member_expr.value is Some {
        by_member_expr
    } else if by_loop_expr.value is Some {
        by_loop_expr
    } else if by_if_expr.value is Some {
        by_if_expr
    } else if by_fn_expr.value is Some {
        by_fn_expr
    } else if by_let_binding.value is Some {
        by_let_binding
    } else if by_pass.value is Some {
        by_pass
    } else if by_bool_literal.value is Some {
        by_bool_literal
    } else if by_float_literal.value is Some {
        by_float_literal
    } else if by_integer_literal.value is Some {
        by_integer_literal
    } else if by_string_literal.value is Some {
        by_string_literal
    } else if by_char_literal.value is Some {
        by_char_literal
    } else if by_identifier_expr.value is Some {
        by_identifier_expr
    } else if by_list.value is Some {
        by_list
    } else {
        by_record
    }
}

/// One bitwise operation: `primary _ bit_op _ primary`.
#[verifier::opaque]
pub open spec fn bit(s: Seq<char>, p: int, far: Far) -> Step<Node>
    decreases s.len() - p, 7nat,
{
    let lhs = within(primary(s, p, far), p + 1, s.len());
    if lhs.value is None {
        fail(lhs.far)
    } else {
        let gap = within(skip(s, lhs.end, lhs.far), lhs.end, s.len());
        if gap.value is None {
            fail(gap.far)
        } else {
            let op = within(bit_op(s, gap.end, gap.far), gap.end + 1, s.len());
            if op.value is None {
                fail(op.far)
            } else {
                let gap2 = within(skip(s, op.end, op.far), op.end, s.len());
                if gap2.value is None {
                    fail(gap2.far)
                } else {
                    let rhs = within(primary(s, gap2.end, gap2.far), gap2.end + 1, s.len());
                    if rhs.value is None {
                        fail(rhs.far)
                    } else {
                        ok(
                            Node::Bit(Box::new(lhs.value->0), op.value->0, Box::new(rhs.value->0)),
                            rhs.end,
                            rhs.far,
                        )
                    }
                }
            }
        }
    }
}

/// One comparison: `primary _ compare_op _ primary`.
#[verifier::opaque]
pub open spec fn compare_form(s: Seq<char>, p: int, far: Far) -> Step<Node>
    decreases s.len() - p, 7nat,
{
    let lhs = within(primary(s, p, far), p + 1, s.len());
    if lhs.value is None {
        fail(lhs.far)
    } else {
        let gap = within(skip(s, lhs.end, lhs.far), lhs.end, s.len());
        if gap.value is None {
            fail(gap.far)
        } else {
            let op = within(compare_op(s, gap.end, gap.far), gap.end + 1, s.len());
            if op.value is None {
                fail(op.far)
            } else {
                let gap2 = within(skip(s, op.end, op.far), op.end, s.len());
                if gap2.value is None {
                    fail(gap2.far)
                } else {
                    let rhs = within(primary(s, gap2.end, gap2.far), gap2.end + 1, s.len());
                    if rhs.value is None {
                        fail(rhs.far)
                    } else {
                        ok(
                            Node::Compare(
                                Box::new(lhs.value->0),
                                op.value->0,
                                Box::new(rhs.value->0),
                            ),
                            rhs.end,
                            rhs.far,
                        )
                    }
                }
            }
        }
    }
}

/// One comparison, or else a primary.
#[verifier::opaque]
pub open spec fn compare(s: Seq<char>, p: int, far: Far) -> Step<Node>
    decreases s.len() - p, 8nat,
{
    let by_compare_form = within(compare_form(s, p, far), p + 1, s.len());
    let by_primary = within(primary(s, p, by_compare_form.far), p + 1, s.len());
    if by_compare_form.value is Some {
        by_compare_form
    } else {
        by_primary
    }
}

/// One product or quotient: `primary _ ("*" / "/") _ primary`.
#[verifier::opaque]
pub open spec fn mul_form(s: Seq<char>, p: int, far: Far) -> Step<Node>
    decreases s.len() - p, 7nat,
{
    let lhs = within(primary(s, p, far), p + 1, s.len());
    if lhs.value is None {
        fail(lhs.far)
    } else {
        let gap = within(skip(s, lhs.end, lhs.far), lhs.end, s.len());
        if gap.value is None {
            fail(gap.far)
        } else {
            let op = within(mul_op(s, gap.end, gap.far), gap.end + 1, s.len());
            if op.value is None {
                fail(op.far)
            } else {
                let gap2 = within(skip(s, op.end, op.far), op.end, s.len());
                if gap2.value is None {
                    fail(gap2.far)
                } else {
                    let rhs = within(primary(s, gap2.end, gap2.far), gap2.end + 1, s.len());
                    if rhs.value is None {
                        fail(rhs.far)
                    } else {
                        ok(
                            Node::Bin(Box::new(lhs.value->0), op.value->0, Box::new(rhs.value->0)),
                            rhs.end,
                            rhs.far,
                        )
                    }
                }
            }
        }
    }
}

/// One product or quotient, or else what binds tighter.
#[verifier::opaque]
pub open spec fn mul_div(s: Seq<char>, p: int, far: Far) -> Step<Node>
    decreases s.len() - p, 9nat,
{
    let by_mul_form = within(mul_form(s, p, far), p + 1, s.len());
    let by_bit = within(bit(s, p, by_mul_form.far), p + 1, s.len());
    let by_compare = within(compare(s, p, by_bit.far), p + 1, s.len());
    if by_mul_form.value is Some {
        by_mul_form
    } else if by_bit.value is Some {
        by_bit
    } else {
        by_compare
    }
}

/// One sum or difference: `mul_div _ ("+" / "-") _ mul_div`.
#[verifier::opaque]
pub open spec fn add_form(s: Seq<char>, p: int, far: Far) -> Step<Node>
    decreases s.len() - p, 10nat,
{
    let lhs = within(mul_div(s, p, far), p + 1, s.len());
    if lhs.value is None {
        fail(lhs.far)
    } else {
        let gap = within(skip(s, lhs.end, lhs.far), lhs.end, s.len());
        if gap.value is None {
            fail(gap.far)
        } else {
            let op = within(add_op(s, gap.end, gap.far), gap.end + 1, s.len());
            if op.value is None {
                fail(op.far)
            } else {
                let gap2 = within(skip(s, op.end, op.far), op.end, s.len());
                if gap2.value is None {
                    fail(gap2.far)
                } else {
                    let rhs = within(mul_div(s, gap2.end, gap2.far), gap2.end + 1, s.len());
                    if rhs.value is None {
                        fail(rhs.far)
                    } else {
                        ok(
                            Node::Bin(Box::new(lhs.value->0), op.value->0, Box::new(rhs.value->0)),
                            rhs.end,
                            rhs.far,
                        )
                    }
                }
            }
        }
    }
}

/// One sum or difference, or else what binds tighter.
#[verifier::opaque]
pub open spec fn add_sub(s: Seq<char>, p: int, far: Far) -> Step<Node>
    decreases s.len() - p, 11nat,
{
    let by_add_form = within(add_form(s, p, far), p + 1, s.len());
    let by_mul_div = within(mul_div(s, p, by_add_form.far), p + 1, s.len());
    if by_add_form.value is Some {
        by_add_form
    } else {
        by_mul_div
    }
}

/// A primary behind prefix operators: `unary_op() ** _ primary`.
#[verifier::opaque]
pub open spec fn unary(s: Seq<char>, p: int, far: Far) -> Step<Node>
    decreases s.len() - p, 7nat,
{
    let ops = within(unary_ops(s, p, far), p, s.len());
    if ops.value is None {
        fail(ops.far)
    } else {
        let operand = within(primary(s, ops.end, ops.far), ops.end + 1, s.len());
        if operand.value is None {
            fail(operand.far)
        } else {
            ok(prefixed(ops.value->0, operand.value->0), operand.end, operand.far)
        }
    }
}

/// An expression. Each level holds one operator at most: there are no chains of
/// operators of one level.
#[verifier::opaque]
pub open spec fn expr(s: Seq<char>, p: int, far: Far) -> Step<Node>
    decreases s.len() - p, 12nat,
{
    let by_add_sub = within(add_sub(s, p, far), p + 1, s.len());
    let by_unary = within(unary(s, p, by_add_sub.far), p + 1, s.len());
    let by_bit = within(bit(s, p, by_unary.far), p + 1, s.len());
    let by_compare = within(compare(s, p, by_bit.far), p + 1, s.len());
    let by_primary = within(primary(s, p, by_compare.far), p + 1, s.len());
    if by_add_sub.value is Some {
        by_add_sub
    } else if by_unary.value is Some {
        by_unary
    } else if by_bit.value is Some {
        by_bit
    } else if by_compare.value is Some {
        by_compare
    } else {
        by_primary
    }
}

/// The statements of a program: `expr ** _`.
#[verifier::opaque]
pub open spec fn statements(s: Seq<char>, p: int, far: Far) -> Step<Seq<Node>>
    decreases s.len() - p, 13nat,
{
    let first = within(expr(s, p, far), p + 1, s.len());
    if first.value is None {
        ok(Seq::empty(), p, first.far)
    } else {
        let rest = statements_more(s, first.end, first.far);
        ok(seq![first.value->0] + rest.value->0, rest.end, rest.far)
    }
}

/// What follows an item of `statements`: a separator and an item, as often as both are there.
#[verifier::opaque]
pub open spec fn statements_more(s: Seq<char>, p: int, far: Far) -> Step<Seq<Node>>
    decreases s.len() - p, 13nat,
{
    let sep = within(skip(s, p, far), p, s.len());
    if sep.value is None {
        ok(Seq::empty(), p, sep.far)
    } else {
        let next = within(expr(s, sep.end, sep.far), sep.end + 1, s.len());
        if next.value is None {
            ok(Seq::empty(), p, next.far)
        } else {
            let rest = statements_more(s, next.end, next.far);
            ok(seq![next.value->0] + rest.value->0, rest.end, rest.far)
        }
    }
}

/// A whole program: `_ expr ** _ _`, and then the end of the input. The
/// failure of a program that does not reach the end is that nothing more
/// was found where it stopped.
pub open spec fn program(s: Seq<char>) -> Step<Node> {
    let lead = skip(s, 0, far_start());
    let items = statements(s, lead.end, lead.far);
    let trail = skip(s, items.end, items.far);
    if items.value is Some && trail.end >= s.len() {
        ok(Node::Program(items.value->0), trail.end, trail.far)
    } else {
        fail(mark(trail.far, trail.end, Token::EndOfInput))
    }
}

/// The number of line feeds before position `p`.
pub open spec fn line_feeds(s: Seq<char>, p: int) -> nat
    decreases p,
{
    if p <= 0 || p > s.len() {
        0
    } else if s[p - 1] == '\n' {
        line_feeds(s, p - 1) + 1
    } else {
        line_feeds(s, p - 1)
    }
}

/// The number of characters between the last line feed before `p` and `p`.
pub open spec fn since_line_start(s: Seq<char>, p: int) -> nat
    decreases p,
{
    if p <= 0 || p > s.len() || s[p - 1] == '\n' {
        0
    } else {
        since_line_start(s, p - 1) + 1
    }
}

/// The number of bytes that a character takes in UTF-8.
pub open spec fn utf8_len(c: char) -> nat {
    if (c as u32) < 0x80 {
        1
    } else if (c as u32) < 0x800 {
        2
    } else if (c as u32) < 0x10000 {
        3
    } else {
        4
    }
}

/// The number of bytes that the characters before `p` take in UTF-8.
pub open spec fn byte_offset(s: Seq<char>, p: int) -> nat
    decreases p,
{
    if p <= 0 || p > s.len() {
        0
    } else {
        byte_offset(s, p - 1) + utf8_len(s[p - 1])
    }
}

} // verus!
