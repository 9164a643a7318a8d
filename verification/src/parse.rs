//! Parsing of a rendered backtrace into stack frames.

use crate::event::{StackFrame, StackTrace, StackTraceView};
use vstd::prelude::*;
use vstd::std_specs::iter::IteratorSpec;

verus! {

/// Whether `c` is one of `0` to `9`.
pub open spec fn is_digit(c: char) -> bool {
    '0' <= c && c <= '9'
}

/// Whether `c` is an ASCII character.
pub open spec fn is_ascii(c: char) -> bool {
    c <= '\x7f'
}

/// Whether `c` may be a decimal digit of Unicode: one of `0` to `9`, or any
/// character outside ASCII.
pub open spec fn may_be_digit(c: char) -> bool {
    is_digit(c) || !is_ascii(c)
}

/// Whether `c` may be white space of Unicode: a blank, one of the five
/// characters from tab to carriage return, or any character outside ASCII.
pub open spec fn may_be_space(c: char) -> bool {
    c == ' ' || ('\t' <= c && c <= '\r') || !is_ascii(c)
}

/// The number that `c` stands for, where it is one of `0` to `9`.
pub open spec fn digit_value(c: char) -> nat {
    (c as u32 - '0' as u32) as nat
}

/// The number that a run of the digits `0` to `9` stands for.
pub open spec fn decimal_value(digits: Seq<char>) -> nat
    decreases digits.len(),
{
    if digits.len() == 0 {
        0
    } else {
        decimal_value(digits.drop_last()) * 10 + digit_value(digits.last())
    }
}

/// Whether the run is a `u64` written with the digits `0` to `9`.
pub open spec fn is_u64_text(run: Seq<char>) -> bool {
    &&& forall|m: int| 0 <= m < run.len() ==> is_digit(#[trigger] run[m])
    &&& decimal_value(run) <= u64::MAX
}

/// Whether no line ends between the positions `from` and `to`.
pub open spec fn on_one_line(text: Seq<char>, from: int, to: int) -> bool {
    forall|m: int| from <= m < to ==> #[trigger] text[m] != '\n'
}

/// Whether a line ends at `feed` and nothing but white space stands from
/// there up to position `at`.
pub open spec fn blank_between(text: Seq<char>, feed: int, at: int) -> bool {
    &&& 0 <= feed < at <= text.len()
    &&& text[feed] == '\n'
    &&& forall|k: int| feed < k < at ==> may_be_space(#[trigger] text[k])
}

/// Whether position `at` stands behind the end of a line and nothing but
/// white space.
pub open spec fn after_break(text: Seq<char>, at: int) -> bool {
    exists|feed: int| #[trigger] blank_between(text, feed, at)
}

/// Whether position `at` stands behind the end of a line and white space, at
/// least one character of it.
pub open spec fn indented(text: Seq<char>, at: int) -> bool {
    exists|feed: int| #[trigger] blank_between(text, feed, at) && feed + 1 < at
}

/// Whether the word `at` that opens the location of a frame may stand at
/// position `at`: behind the end of a line and white space, and before
/// white space.
pub open spec fn opens_location(text: Seq<char>, at: int) -> bool {
    &&& 0 <= at
    &&& at + 2 < text.len()
    &&& text[at] == 'a'
    &&& text[at + 1] == 't'
    &&& may_be_space(text[at + 2])
    &&& indented(text, at)
}

/// Whether position `at` may lie in the location of a frame: in the line
/// that begins behind an opening `at` and its white space.
pub open spec fn in_location(text: Seq<char>, at: int) -> bool {
    exists|open: int| #[trigger]
        opens_location(text, open) && open + 3 <= at && on_one_line(text, open + 3, at)
}

/// Whether a run that the parser may take for a number begins at `from` and
/// reaches position `to`: it stands directly behind a colon in the location
/// of a frame and holds nothing that could not be a digit.
pub open spec fn open_run(text: Seq<char>, from: int, to: int) -> bool {
    &&& 0 < from <= to <= text.len()
    &&& text[from - 1] == ':'
    &&& in_location(text, from - 1)
    &&& forall|m: int| from <= m < to ==> may_be_digit(#[trigger] text[m])
}

/// Whether a run as in [`open_run`] that is not empty begins at `from` and
/// reaches position `to`.
pub open spec fn full_run(text: Seq<char>, from: int, to: int) -> bool {
    open_run(text, from, to) && from < to
}

/// Whether a line ends at position `at`, or the text.
pub open spec fn line_ends(text: Seq<char>, at: int) -> bool {
    at == text.len() || text[at] == '\n'
}

/// Whether the parser may take the characters from `from` to `to` for the
/// last number of a location: a run that reaches the end of its line.
pub open spec fn may_be_last_number(text: Seq<char>, from: int, to: int) -> bool {
    full_run(text, from, to) && line_ends(text, to)
}

/// Whether the parser may take the characters from `from` to `to` for the
/// line number of a location and those behind, up to `last`, for its column
/// number: two runs with a colon between, of which the second reaches the
/// end of the line.
pub open spec fn may_be_line_number(text: Seq<char>, from: int, to: int, last: int) -> bool {
    &&& full_run(text, from, to)
    &&& text[to] == ':'
    &&& full_run(text, to + 1, last)
    &&& line_ends(text, last)
}

/// Holds where the frame parser can read every number that it may take from
/// the text. The parser takes the location of a frame from what follows the
/// end of a line, white space, the word `at` and one more character of white
/// space. Where the line of the location ends with a colon and a run of
/// decimal digits of Unicode, it takes the run for a number, and likewise a
/// run before that one, behind a colon of the location. It needs each number
/// to be a `u64` written with the digits `0` to `9`.
///
/// Two things are not decided here, and a text is refused where either could
/// make the parser fail: which characters outside ASCII are digits or white
/// space, so that each of them may be either, and whether the parser takes
/// the line before a location for a frame.
pub open spec fn numbers_readable(text: Seq<char>) -> bool {
    &&& forall|from: int, to: int| #[trigger]
        may_be_last_number(text, from, to) ==> is_u64_text(text.subrange(from, to))
    &&& forall|from: int, to: int, last: int| #[trigger]
        may_be_line_number(text, from, to, last) ==> is_u64_text(text.subrange(from, to))
}

/// How [`after_break`] and [`indented`] move on by one character.
proof fn lemma_break_step(text: Seq<char>, i: int)
    requires
        0 <= i < text.len(),
    ensures
        after_break(text, i + 1) <==> (text[i] == '\n' || (after_break(text, i) && may_be_space(
            text[i],
        ))),
        indented(text, i + 1) <==> (after_break(text, i) && may_be_space(text[i])),
{
    if text[i] == '\n' {
        assert(blank_between(text, i, i + 1));
    }
    if after_break(text, i) && may_be_space(text[i]) {
        let feed = choose|feed: int| #[trigger] blank_between(text, feed, i);
        assert(blank_between(text, feed, i + 1) && feed + 1 < i + 1);
    }
    if after_break(text, i + 1) && text[i] != '\n' {
        let feed = choose|feed: int| #[trigger] blank_between(text, feed, i + 1);
        assert(feed < i);
        assert(may_be_space(text[i]));
        assert(blank_between(text, feed, i));
    }
    if indented(text, i + 1) {
        let feed = choose|feed: int| #[trigger] blank_between(text, feed, i + 1) && feed + 1 < i + 1;
        assert(may_be_space(text[i]));
        assert(blank_between(text, feed, i));
    }
}

/// How [`in_location`] moves on by one character.
proof fn lemma_location_step(text: Seq<char>, i: int)
    requires
        0 <= i < text.len(),
    ensures
        in_location(text, i + 1) <==> (opens_location(text, i - 2) || (in_location(text, i)
            && text[i] != '\n')),
{
    if opens_location(text, i - 2) {
        assert(on_one_line(text, i - 2 + 3, i + 1));
    } else if in_location(text, i) && text[i] != '\n' {
        let open = choose|open: int| #[trigger]
            opens_location(text, open) && open + 3 <= i && on_one_line(text, open + 3, i);
        assert(on_one_line(text, open + 3, i + 1));
    } else if in_location(text, i + 1) {
        let open = choose|open: int| #[trigger]
            opens_location(text, open) && open + 3 <= i + 1 && on_one_line(
                text,
                open + 3,
                i + 1,
            );
        assert(open + 3 <= i);
        assert(text[i] != '\n');
        assert(on_one_line(text, open + 3, i));
    }
}

/// How [`open_run`] moves on by one character.
proof fn lemma_open_run_step(text: Seq<char>, from: int, i: int)
    requires
        0 <= i < text.len(),
    ensures
        open_run(text, from, i + 1) <==> ((from == i + 1 && text[i] == ':' && in_location(text, i))
            || (from <= i && open_run(text, from, i) && may_be_digit(text[i]))),
{
    if open_run(text, from, i + 1) && from <= i {
        assert(may_be_digit(text[i]));
    }
}

/// At most one run is open at a position.
proof fn lemma_open_run_unique(text: Seq<char>, first: int, second: int, to: int)
    requires
        open_run(text, first, to),
        open_run(text, second, to),
    ensures
        first == second,
{
    if first < second {
        assert(may_be_digit(text[second - 1]));
    } else if second < first {
        assert(may_be_digit(text[first - 1]));
    }
}

/// How [`decimal_value`] moves on by one digit.
proof fn lemma_decimal_step(text: Seq<char>, from: int, i: int)
    requires
        0 <= from <= i < text.len(),
    ensures
        decimal_value(text.subrange(from, i + 1)) == decimal_value(text.subrange(from, i)) * 10
            + digit_value(text[i]),
{
    assert(text.subrange(from, i + 1).drop_last() =~= text.subrange(from, i));
}

/// A run whose characters are the digits `0` to `9` and whose value fits is
/// a `u64`; one with another character or a greater value is none.
proof fn lemma_u64_text(text: Seq<char>, from: int, to: int)
    requires
        0 <= from <= to <= text.len(),
    ensures
        is_u64_text(text.subrange(from, to)) <==> ((forall|m: int|
            from <= m < to ==> is_digit(#[trigger] text[m])) && decimal_value(
            text.subrange(from, to),
        ) <= u64::MAX),
{
    let run = text.subrange(from, to);
    if forall|m: int| from <= m < to ==> is_digit(#[trigger] text[m]) {
        assert forall|m: int| 0 <= m < run.len() implies is_digit(#[trigger] run[m]) by {
            assert(run[m] == text[from + m]);
        }
    } else {
        let m = choose|m: int| from <= m < to && !is_digit(#[trigger] text[m]);
        assert(!is_digit(run[m - from]));
    }
}

/// Decides [`numbers_readable`] in one pass over the text.
pub fn has_readable_numbers(text: &str) -> (ok: bool)
    ensures
        ok == numbers_readable(text@),
{
    let mut broke = false;
    let mut padded = false;
    let mut saw_a = false;
    let mut saw_at = false;
    let mut located = false;
    let mut in_run = false;
    let mut empty = true;
    let mut plain = true;
    let mut fits = true;
    let mut value: u64 = 0;
    let mut pending = false;
    let ghost mut from: int = 0;
    for c in it: text.chars()
        invariant
            it.seq() == text@,
            broke == after_break(text@, it.index() as int),
            padded == indented(text@, it.index() as int),
            saw_a == (it.index() >= 1 && text@[it.index() - 1] == 'a' && indented(
                text@,
                it.index() - 1,
            )),
            saw_at == (it.index() >= 2 && text@[it.index() - 2] == 'a' && text@[it.index() - 1]
                == 't' && indented(text@, it.index() - 2)),
            located == in_location(text@, it.index() as int),
            in_run ==> open_run(text@, from, it.index() as int),
            !in_run ==> forall|f: int| !#[trigger] open_run(text@, f, it.index() as int),
            in_run ==> empty == (from == it.index()),
            in_run ==> plain == (forall|m: int|
                from <= m < it.index() ==> is_digit(#[trigger] text@[m])),
            in_run && plain && fits ==> value == decimal_value(
                text@.subrange(from, it.index() as int),
            ),
            in_run && plain && !fits ==> decimal_value(text@.subrange(from, it.index() as int))
                > u64::MAX,
            in_run && pending ==> exists|f: int| #[trigger]
                full_run(text@, f, from - 1) && !is_u64_text(text@.subrange(f, from - 1)),
            in_run && !pending ==> forall|f: int| #[trigger]
                full_run(text@, f, from - 1) ==> is_u64_text(text@.subrange(f, from - 1)),
            forall|f: int, t: int|
                t < it.index() && #[trigger] may_be_last_number(text@, f, t) ==> is_u64_text(
                    text@.subrange(f, t),
                ),
            forall|f: int, t: int, l: int|
                l < it.index() && #[trigger] may_be_line_number(text@, f, t, l) ==> is_u64_text(
                    text@.subrange(f, t),
                ),
    {
        let ghost i = it.index() as int;
        let unread = in_run && !empty && !(plain && fits);
        proof {
            if in_run {
                lemma_u64_text(text@, from, i);
            }
        }
        if c == '\n' && in_run && !empty && (unread || pending) {
            proof {
                assert(may_be_last_number(text@, from, i));
                if !unread {
                    let f = choose|f: int| #[trigger]
                        full_run(text@, f, from - 1) && !is_u64_text(text@.subrange(f, from - 1));
                    assert(may_be_line_number(text@, f, from - 1, i));
                }
            }
            return false;
        }
        proof {
            assert forall|f: int| #[trigger] may_be_last_number(text@, f, i) implies is_u64_text(
                text@.subrange(f, i),
            ) by {
                lemma_open_run_unique(text@, f, from, i);
            }
            assert forall|f: int, t: int| #[trigger]
                may_be_line_number(text@, f, t, i) implies is_u64_text(text@.subrange(f, t)) by {
                lemma_open_run_unique(text@, t + 1, from, i);
            }
            lemma_break_step(text@, i);
            lemma_location_step(text@, i);
            assert forall|f: int| true implies (#[trigger] open_run(text@, f, i + 1) <==> ((f == i
                + 1 && text@[i] == ':' && in_location(text@, i)) || (f <= i && open_run(
                text@,
                f,
                i,
            ) && may_be_digit(text@[i])))) by {
                lemma_open_run_step(text@, f, i);
            }
        }
        let digit = '0' <= c && c <= '9';
        let space = c == ' ' || ('\t' <= c && c <= '\r') || c > '\x7f';
        if c == ':' {
            let ghost before = from;
            proof {
                if unread {
                    assert(full_run(text@, before, i));
                    assert(!is_u64_text(text@.subrange(before, i)));
                } else {
                    assert forall|f: int| #[trigger] full_run(text@, f, i) implies is_u64_text(
                        text@.subrange(f, i),
                    ) by {
                        lemma_open_run_unique(text@, f, before, i);
                    }
                }
                from = i + 1;
                assert(text@.subrange(i + 1, i + 1) =~= Seq::<char>::empty());
            }
            pending = unread;
            in_run = located;
            empty = true;
            plain = true;
            fits = true;
            value = 0;
            proof {
                if pending {
                    assert(full_run(text@, before, from - 1) && !is_u64_text(
                        text@.subrange(before, from - 1),
                    ));
                }
            }
        } else if in_run && (digit || c > '\x7f') {
            empty = false;
            proof {
                lemma_decimal_step(text@, from, i);
            }
            if !digit {
                plain = false;
            } else if fits {
                let d = c as u64 - '0' as u64;
                if value > (u64::MAX - d) / 10 {
                    fits = false;
                } else {
                    value = value * 10 + d;
                }
            }
        } else {
            in_run = false;
        }
        located = (saw_at && space) || (located && c != '\n');
        saw_at = saw_a && c == 't';
        saw_a = padded && c == 'a';
        padded = broke && space;
        broke = c == '\n' || (broke && space);
        proof {
            assert(located == in_location(text@, i + 1));
            assert(in_run ==> open_run(text@, from, i + 1));
            assert(!in_run ==> forall|f: int| !#[trigger] open_run(text@, f, i + 1));
            assert(in_run ==> plain == (forall|m: int|
                from <= m < i + 1 ==> is_digit(#[trigger] text@[m])));
        }
    }
    let ghost end = text@.len() as int;
    let unread = in_run && !empty && !(plain && fits);
    proof {
        if in_run {
            lemma_u64_text(text@, from, end);
        }
    }
    if in_run && !empty && (unread || pending) {
        proof {
            assert(may_be_last_number(text@, from, end));
            if !unread {
                let f = choose|f: int| #[trigger]
                    full_run(text@, f, from - 1) && !is_u64_text(text@.subrange(f, from - 1));
                assert(may_be_line_number(text@, f, from - 1, end));
            }
        }
        return false;
    }
    proof {
        assert forall|f: int, t: int| #[trigger] may_be_last_number(text@, f, t) implies is_u64_text(
            text@.subrange(f, t),
        ) by {
            if t == end {
                lemma_open_run_unique(text@, f, from, end);
            }
        }
        assert forall|f: int, t: int, l: int| #[trigger]
            may_be_line_number(text@, f, t, l) implies is_u64_text(text@.subrange(f, t)) by {
            if l == end {
                lemma_open_run_unique(text@, t + 1, from, end);
            }
        }
    }
    true
}

/// The stack trace that `sentry_backtrace::parse_stacktrace` reads from a
/// rendered backtrace.
pub uninterp spec fn parsed_stacktrace(text: Seq<char>) -> Option<StackTraceView>;

/// Calls `sentry_backtrace::parse_stacktrace`, which finds the frames of a
/// rendered backtrace with a regular expression and hands them back with the
/// outermost call first, or nothing where it found no frame. Of each frame
/// it fills the seven fields that [`StackFrame`] holds and leaves the others
/// unset. It reads a line or column number as a run of digits behind a colon
/// in the location of a frame and panics where that run is no `u64`, which
/// `numbers_readable` excludes.
#[verifier::external_body]
fn parse_stacktrace(text: &str) -> (parsed: Option<StackTrace>)
    requires
        numbers_readable(text@),
    ensures
        parsed.deep_view() == parsed_stacktrace(text@),
        parsed matches Some(trace) ==> trace.frames@.len() > 0,
{
    sentry_backtrace::parse_stacktrace(text).map(|trace| StackTrace {
        frames: trace.frames.into_iter().map(|frame| StackFrame {
            function: frame.function,
            symbol: frame.symbol,
            abs_path: frame.abs_path,
            filename: frame.filename,
            lineno: frame.lineno,
            colno: frame.colno,
            instruction_addr: frame.instruction_addr.map(|addr| addr.0),
        }).collect(),
    })
}

/// The stack trace that a rendered backtrace stands for: what the parser
/// reads from it, and none where it may hold a number that the parser cannot
/// read.
pub open spec fn stacktrace_of_text(text: Seq<char>) -> Option<StackTraceView> {
    if numbers_readable(text) {
        parsed_stacktrace(text)
    } else {
        None
    }
}

/// Parses a rendered backtrace into a stack trace. A text that may hold a
/// line or column number that the parser cannot read yields no stack trace.
pub fn parse_backtrace(text: &str) -> (parsed: Option<StackTrace>)
    ensures
        parsed.deep_view() == stacktrace_of_text(text@),
        parsed matches Some(trace) ==> trace.frames@.len() > 0,
{
    if has_readable_numbers(text) {
        parse_stacktrace(text)
    } else {
        None
    }
}

} // verus!
