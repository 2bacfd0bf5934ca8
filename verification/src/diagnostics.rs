//! The report of a parse failure for a reader: the lines of the source
//! around the failure and what was expected there, laid out by `chic`.

use vstd::prelude::*;
use vstd::string::StringExecFns;
use crate::emit::{join_strings, string_views};
use crate::esper_parser::{chars_of, ParseError};
use crate::grammar::until;
use crate::lexer;
use crate::text::{join, nat_text, push_nat};
use crate::token::{token_label, Token};

verus! {

/// A line without the carriage return at its end, if it has one.
pub open spec fn without_return(text: Seq<char>) -> Seq<char> {
    if text.len() > 0 && text.last() == '\r' {
        text.drop_last()
    } else {
        text
    }
}

/// The lines of `s` from position `p` on. A line ends at a line feed, with
/// the carriage return before it if there is one, or at the end of the
/// text; nothing after the last line feed is no line.
pub open spec fn lines_from(s: Seq<char>, p: int) -> Seq<Seq<char>>
    decreases s.len() - p,
{
    if p < 0 || p >= s.len() {
        Seq::empty()
    } else {
        let end = until(s, p, '\n');
        if p <= end < s.len() {
            seq![without_return(s.subrange(p, end))] + lines_from(s, end + 1)
        } else {
            seq![s.subrange(p, s.len() as int)]
        }
    }
}

/// The lines of a text.
pub open spec fn lines_of(s: Seq<char>) -> Seq<Seq<char>> {
    lines_from(s, 0)
}

/// The first line of the window around line `line`: two lines before it.
pub open spec fn window_first(line: int) -> int {
    if line > 2 {
        line - 2
    } else {
        1
    }
}

/// The last line of the window around line `line`: two lines after it, or
/// the last line that there is.
pub open spec fn window_last(line: int, total: int) -> int {
    if line + 2 <= total {
        line + 2
    } else {
        total
    }
}

/// The lines of the source around line `line`, the window: from two lines
/// before it to two lines after it, as far as there are lines. Lines count
/// from 1.
pub open spec fn window_lines(s: Seq<char>, line: int) -> Seq<Seq<char>> {
    let lines = lines_of(s);
    let first = window_first(line);
    let last = window_last(line, lines.len() as int);
    if first - 1 < last {
        lines.subrange(first - 1, last)
    } else {
        Seq::empty()
    }
}

/// The window as one text: its lines joined by line feeds.
pub open spec fn window_text(s: Seq<char>, line: int) -> Seq<char> {
    join(window_lines(s, line), "\n"@)
}

/// Where line `index` of a slice starts in the count of characters that
/// `chic` keeps: every line before it counts its characters and two more.
pub open spec fn line_start_in(lines: Seq<Seq<char>>, index: int) -> int
    decreases index,
{
    if index <= 0 || index > lines.len() {
        0
    } else {
        line_start_in(lines, index - 1) + lines[index - 1].len() + 2
    }
}

/// The place of the marker in a window `shown` around line `line`, for a
/// failure in column `column` of that line, in the count of characters
/// that `chic` keeps: the start of the failure's line in the window and
/// the characters before the column. A failure on a line that the window
/// does not hold is marked behind the end of the window's last line.
pub open spec fn marker_in(shown: Seq<Seq<char>>, line: int, column: int) -> int {
    let index = line - window_first(line);
    if shown.len() == 0 {
        0
    } else if 0 <= index < shown.len() {
        line_start_in(shown, index) + if column >= 1 {
            column - 1
        } else {
            0
        }
    } else {
        line_start_in(shown, shown.len() - 1) + shown.last().len()
    }
}

/// The place of the marker for a failure at `line` and `column` of `s`.
pub open spec fn marker_position(s: Seq<char>, line: int, column: int) -> int {
    marker_in(window_lines(s, line), line, column)
}

/// A later line starts later.
pub proof fn lemma_line_starts_grow(lines: Seq<Seq<char>>, from: int, to: int)
    requires
        0 <= from <= to <= lines.len(),
    ensures
        0 <= line_start_in(lines, from) <= line_start_in(lines, to),
    decreases to,
{
    if from < to {
        lemma_line_starts_grow(lines, from, to - 1);
    } else if from > 0 {
        lemma_line_starts_grow(lines, from - 1, from - 1);
    }
}

/// What was expected, in words: nothing reported, the one token, or `one
/// of` and the tokens with commas between them.
pub open spec fn expected_message(expected: Seq<Token>) -> Seq<char> {
    "expected: "@ + if expected.len() == 0 {
        "<unreported>"@
    } else if expected.len() == 1 {
        token_label(expected[0])
    } else {
        "one of "@ + join(Seq::new(expected.len(), |i: int| token_label(expected[i])), ", "@)
    }
}

/// The text that `chic` lays out for an error with the title `title`, one
/// slice of source `source` whose first line has the number `line_start`,
/// and one annotation `label` over the characters from `start` up to `end`.
pub uninterp spec fn chic_error_text(
    title: Seq<char>,
    line_start: int,
    start: int,
    end: int,
    source: Seq<char>,
    label: Seq<char>,
) -> Seq<char>;

/// Whether `chic` can lay out a slice of `length` characters that starts
/// at line `line_start`, with an annotation that starts at `start`: the
/// line numbers and the character positions that it counts fit in `usize`.
pub open spec fn can_lay_out(line_start: int, start: int, length: int) -> bool {
    &&& start < usize::MAX
    &&& line_start + length < usize::MAX
    &&& 3 * length + 3 <= usize::MAX
}

/// `chic::Error::new(title).error(line_start, start, end, source, label).to_string()`.
///
/// The text is a function of the six arguments. The call does not panic
/// for a range that is not empty, under the bounds of `can_lay_out`.
#[verifier::external_body]
fn chic_error(
    title: &str,
    line_start: usize,
    start: usize,
    end: usize,
    source: &str,
    label: &str,
) -> (out: String)
    requires
        start < end,
        can_lay_out(line_start as int, start as int, source@.len() as int),
    ensures
        out@ == chic_error_text(
            title@,
            line_start as int,
            start as int,
            end as int,
            source@,
            label@,
        ),
{
    chic::Error::new(title).error(line_start, start, end, source, label).to_string()
}

/// The lines of a text.
pub fn lines(input: &Vec<char>) -> (out: Vec<String>)
    ensures
        string_views(out@) == lines_of(input@),
{
    let mut out: Vec<String> = Vec::new();
    let mut p: usize = 0;
    assert(string_views(out@) =~= Seq::<Seq<char>>::empty());
    while p < input.len()
        invariant
            p <= input.len(),
            lines_of(input@) =~= string_views(out@) + lines_from(input@, p as int),
        decreases input.len() - p,
    {
        let end = lexer::until(input, p, '\n');
        let ghost before = string_views(out@);
        if end < input.len() {
            let stop: usize = if end > p && lexer::char_at(input, end - 1) == '\r' {
                end - 1
            } else {
                end
            };
            let text = lexer::range_string(input, p, stop);
            assert(text@ =~= without_return(input@.subrange(p as int, end as int)));
            out.push(text);
            assert(string_views(out@) =~= before.push(text@));
            p = end + 1;
        } else {
            let text = lexer::range_string(input, p, input.len());
            out.push(text);
            assert(string_views(out@) =~= before.push(text@));
            p = input.len();
        }
    }
    assert(string_views(out@) + lines_from(input@, p as int) =~= string_views(out@));
    out
}

/// The lines of the source around line `line`.
pub fn shown_lines(source: &Vec<char>, line: usize) -> (shown: Vec<String>)
    ensures
        string_views(shown@) == window_lines(source@, line as int),
{
    let all = lines(source);
    let total = all.len();
    let first: usize = if line > 2 {
        line - 2
    } else {
        1
    };
    let last: usize = if line <= total && 2 <= total - line {
        line + 2
    } else {
        total
    };
    let mut shown: Vec<String> = Vec::new();
    if first - 1 < last {
        let mut i: usize = first - 1;
        assert(string_views(shown@) =~= string_views(all@).subrange(first - 1, i as int));
        while i < last
            invariant
                1 <= first,
                first - 1 <= i <= last <= all.len(),
                string_views(shown@) =~= string_views(all@).subrange(first - 1, i as int),
            decreases last - i,
        {
            let text = all[i].clone();
            assert(text@ == all@[i as int]@);
            let ghost before = string_views(shown@);
            shown.push(text);
            assert(string_views(shown@) =~= before.push(all@[i as int]@));
            assert(string_views(all@).subrange(first - 1, i + 1) =~= string_views(all@).subrange(
                first - 1,
                i as int,
            ).push(all@[i as int]@));
            i += 1;
        }
        assert(string_views(shown@) =~= lines_of(source@).subrange(first - 1, last as int));
    } else {
        assert(string_views(shown@) =~= Seq::<Seq<char>>::empty());
    }
    shown
}

/// The lines of the source around line `line`, joined by line feeds.
pub fn window(source: &Vec<char>, line: usize) -> (out: String)
    ensures
        out@ == window_text(source@, line as int),
{
    let shown = shown_lines(source, line);
    join_strings(&shown, "\n")
}

/// Where line `index` of `shown` starts in the count of characters that
/// `chic` keeps, if that is below `usize::MAX`.
pub fn line_start(shown: &Vec<String>, index: usize) -> (start: Option<usize>)
    requires
        index <= shown.len(),
    ensures
        match start {
            Some(at) => at == line_start_in(string_views(shown@), index as int) && at < usize::MAX,
            None => line_start_in(string_views(shown@), index as int) >= usize::MAX,
        },
{
    let ghost texts = string_views(shown@);
    let mut at: usize = 0;
    let mut i: usize = 0;
    while i < index
        invariant
            i <= index <= shown.len(),
            texts == string_views(shown@),
            at == line_start_in(texts, i as int),
            at < usize::MAX,
        decreases index - i,
    {
        let length = shown[i].as_str().unicode_len();
        assert(texts[i as int] == shown@[i as int]@);
        if length >= usize::MAX - 2 || at >= usize::MAX - 2 - length {
            proof {
                lemma_line_starts_grow(texts, i + 1, index as int);
            }
            return None;
        }
        at = at + length + 2;
        i += 1;
    }
    Some(at)
}

/// The place of the marker in the window `shown` around line `line`, for a
/// failure in column `column`, if it is below `usize::MAX`.
pub fn marker_place(shown: &Vec<String>, line: usize, column: usize) -> (place: Option<usize>)
    ensures
        match place {
            Some(at) => at == marker_in(string_views(shown@), line as int, column as int) && at
                < usize::MAX,
            None => marker_in(string_views(shown@), line as int, column as int) >= usize::MAX,
        },
{
    let ghost texts = string_views(shown@);
    let first: usize = if line > 2 {
        line - 2
    } else {
        1
    };
    if shown.len() == 0 {
        return Some(0);
    }
    let (index, extra): (usize, usize) = if line >= first && line - first < shown.len() {
        (
            line - first,
            if column >= 1 {
                column - 1
            } else {
                0
            },
        )
    } else {
        let last = shown.len() - 1;
        assert(texts[last as int] == shown@[last as int]@);
        (last, shown[last].as_str().unicode_len())
    };
    match line_start(shown, index) {
        Some(start) => {
            if extra >= usize::MAX - start {
                None
            } else {
                Some(start + extra)
            }
        },
        None => None,
    }
}

/// What was expected, in words.
pub fn expected_string(expected: &Vec<Token>) -> (out: String)
    ensures
        out@ == expected_message(expected@),
{
    let mut out = String::new();
    out.append("expected: ");
    if expected.len() == 0 {
        out.append("<unreported>");
    } else if expected.len() == 1 {
        out.append(expected[0].label());
    } else {
        let mut labels: Vec<String> = Vec::new();
        let mut i: usize = 0;
        while i < expected.len()
            invariant
                i <= expected.len(),
                labels@.len() == i,
                forall|j: int| 0 <= j < i ==> (#[trigger] labels@[j])@ == token_label(expected@[j]),
            decreases expected.len() - i,
        {
            labels.push(String::from_str(expected[i].label()));
            i += 1;
        }
        assert(string_views(labels@) =~= Seq::new(
            expected@.len(),
            |i: int| token_label(expected@[i]),
        ));
        let list = join_strings(&labels, ", ");
        out.append("one of ");
        out.append(list.as_str());
    }
    assert(out@ =~= expected_message(expected@));
    out
}

/// The failure in one line: `error at`, the line and the column with a
/// colon between them, and what was expected.
pub open spec fn failure_line(line: nat, column: nat, expected: Seq<Token>) -> Seq<char> {
    "error at "@ + nat_text(line) + ":"@ + nat_text(column) + ": "@ + expected_message(expected)
}

/// The failure in one line.
pub fn describe(err: &ParseError) -> (out: String)
    ensures
        out@ == failure_line(err.line as nat, err.column as nat, err.expected@),
{
    let mut out = String::new();
    out.append("error at ");
    push_nat(&mut out, err.line as u64);
    out.append(":");
    push_nat(&mut out, err.column as u64);
    out.append(": ");
    let expected = expected_string(&err.expected);
    out.append(expected.as_str());
    assert(out@ =~= failure_line(err.line as nat, err.column as nat, err.expected@));
    out
}

/// The report of a parse failure in `source` for a reader: under the title
/// `parse error`, the lines around the failure with their numbers, and
/// what was expected as the annotation of the character in the failure's
/// line and column. `None` where the line numbers or positions would not
/// fit in `usize`.
pub fn render_parse_error(source: &str, err: &ParseError) -> (out: Option<String>)
    ensures
        match out {
            Some(text) => can_lay_out(
                window_first(err.line as int),
                marker_position(source@, err.line as int, err.column as int),
                window_text(source@, err.line as int).len() as int,
            ) && text@ == chic_error_text(
                "parse error"@,
                window_first(err.line as int),
                marker_position(source@, err.line as int, err.column as int),
                marker_position(source@, err.line as int, err.column as int) + 1,
                window_text(source@, err.line as int),
                expected_message(err.expected@),
            ),
            None => !can_lay_out(
                window_first(err.line as int),
                marker_position(source@, err.line as int, err.column as int),
                window_text(source@, err.line as int).len() as int,
            ),
        },
{
    let input = chars_of(source);
    let lines = shown_lines(&input, err.line);
    let shown = join_strings(&lines, "\n");
    let message = expected_string(&err.expected);
    let length = shown.as_str().unicode_len();
    let first: usize = if err.line > 2 {
        err.line - 2
    } else {
        1
    };
    match marker_place(&lines, err.line, err.column) {
        Some(start) => {
            if length < usize::MAX - first && length <= (usize::MAX - 3) / 3 {
                Some(
                    chic_error(
                        "parse error",
                        first,
                        start,
                        start + 1,
                        shown.as_str(),
                        message.as_str(),
                    ),
                )
            } else {
                None
            }
        },
        None => None,
    }
}

} // verus!
