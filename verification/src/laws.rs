//! What holds of every extraction.

use crate::comment_parser::{
    after_first_line, bears_comment, body_column, comment_body, continuation_body, extract,
    finish, first_line, initial_state, instruction_of, instruction_prefix, is_directive,
    line_length, open_after, rendered_text, run, split_lines, step, strip_space, tabs, ScanState,
    Syntax,
};
use crate::errors::Failure;
use crate::text::{
    byte_len, contains_text, is_first_occurrence, is_whitespace, leading_run,
    lemma_byte_len_ascii, lemma_byte_len_at_least, lemma_byte_len_parts,
    lemma_first_occurrence_exists, lemma_leading_run, lemma_leading_run_bounds,
    lemma_position_of, lemma_trailing_run_bounds, occurs_at, position_of, trailing_run, trim,
    trim_start, CharClass,
};
use vstd::prelude::*;

verus! {

/// The instruction that a line holds, read while a multi-line comment is or
/// is not open; `None` where the line is no directive.
pub open spec fn directive_on(p: Syntax, open: Option<nat>, line: Seq<char>) -> Option<Seq<char>> {
    let body = comment_body(p, open, line);
    if bears_comment(p, open, line) && open is None && is_directive(body) {
        Some(instruction_of(body))
    } else {
        None
    }
}

/// Whether a multi-line comment is open after a line, whatever the capture.
pub open spec fn continuation_after(p: Syntax, open: Option<nat>, line: Seq<char>) -> Option<nat> {
    if bears_comment(p, open, line) && directive_on(p, open, line) is None {
        open_after(p, open, line, comment_body(p, open, line))
    } else {
        open
    }
}

/// The number of directives among `lines` whose instruction is `token`.
pub open spec fn directive_count(
    p: Syntax,
    open: Option<nat>,
    lines: Seq<Seq<char>>,
    token: Seq<char>,
) -> nat
    decreases lines.len(),
{
    if lines.len() == 0 {
        0
    } else {
        let here: nat = if directive_on(p, open, lines[0]) == Some(token) {
            1
        } else {
            0
        };
        here + directive_count(p, continuation_after(p, open, lines[0]), lines.drop_first(), token)
    }
}

/// The number of captures under way in a state: one or none.
pub open spec fn pending(st: ScanState) -> nat {
    if st.capture is Some {
        1
    } else {
        0
    }
}

/// A line changes the capture in one way only: a `startcode` outside a
/// capture begins one, an `endcode` within a capture ends it, and every other
/// line that is taken leaves the capture as it is. A line is refused exactly
/// where it is a `startcode` within a capture, an `endcode` outside one, or
/// a directive with another instruction.
pub proof fn lemma_capture_changes_by_directive(
    p: Syntax,
    st: ScanState,
    offset: nat,
    line: Seq<char>,
)
    ensures
        match step(p, st, offset, line) {
            Ok(next) => {
                &&& next.open == continuation_after(p, st.open, line)
                &&& if directive_on(p, st.open, line) == Some("startcode"@) {
                    st.capture is None && next.capture is Some
                } else if directive_on(p, st.open, line) == Some("endcode"@) {
                    st.capture is Some && next.capture is None
                } else {
                    directive_on(p, st.open, line) is None && next.capture == st.capture
                }
            },
            Err(e) => match e {
                Failure::DoubleStartcode { .. } => directive_on(p, st.open, line) == Some(
                    "startcode"@,
                ) && st.capture is Some,
                Failure::MissingStartcode { .. } => directive_on(p, st.open, line) == Some(
                    "endcode"@,
                ) && st.capture is None,
                Failure::BadInstruction { .. } => directive_on(p, st.open, line) matches Some(t)
                    && t != "startcode"@ && t != "endcode"@,
                _ => false,
            },
        },
{
    reveal_strlit("startcode");
    reveal_strlit("endcode");
}

/// Over any run of lines that is taken, the captures begun and the one under
/// way at the start are as many as the captures ended and the one under way
/// at the end.
pub proof fn lemma_captures_balance(
    p: Syntax,
    st: ScanState,
    offset: nat,
    lines: Seq<Seq<char>>,
)
    requires
        run(p, st, offset, lines) is Ok,
    ensures
        directive_count(p, st.open, lines, "startcode"@) + pending(st) == directive_count(
            p,
            st.open,
            lines,
            "endcode"@,
        ) + pending(run(p, st, offset, lines)->Ok_0),
    decreases lines.len(),
{
    reveal_strlit("startcode");
    reveal_strlit("endcode");
    if lines.len() > 0 {
        lemma_capture_changes_by_directive(p, st, offset, lines[0]);
        let next = step(p, st, offset, lines[0])->Ok_0;
        lemma_captures_balance(
            p,
            next,
            offset + byte_len(lines[0]) + 1,
            lines.drop_first(),
        );
    }
}

/// In a source that is extracted, every `startcode` is matched by an
/// `endcode`: there are as many of the one as of the other.
pub proof fn lemma_every_capture_is_closed(p: Syntax, source: Seq<char>)
    requires
        extract(p, source) is Ok,
    ensures
        directive_count(p, None, split_lines(source), "startcode"@) == directive_count(
            p,
            None,
            split_lines(source),
            "endcode"@,
        ),
{
    lemma_captures_balance(p, initial_state(), 0, split_lines(source));
}

/// A source whose lines are all taken, and that holds one `startcode` more
/// than it holds `endcode`s, is refused for its missing `endcode`; the error
/// never comes otherwise.
pub proof fn lemma_unclosed_capture_is_reported(p: Syntax, source: Seq<char>)
    requires
        run(p, initial_state(), 0, split_lines(source)) is Ok,
    ensures
        extract(p, source) matches Err(Failure::MissingEndcode { .. }) <==> directive_count(
            p,
            None,
            split_lines(source),
            "startcode"@,
        ) == directive_count(p, None, split_lines(source), "endcode"@) + 1,
        extract(p, source) is Ok <==> directive_count(p, None, split_lines(source), "startcode"@)
            == directive_count(p, None, split_lines(source), "endcode"@),
{
    lemma_captures_balance(p, initial_state(), 0, split_lines(source));
}

/// Extraction is a function of the syntax and the source: the same input
/// gives the same text, or the same failure.
pub proof fn lemma_extraction_repeats(p: Syntax, source: Seq<char>, q: Syntax, again: Seq<char>)
    requires
        p == q,
        source == again,
    ensures
        extract(p, source) == extract(q, again),
{
}

/// `n` marker characters.
pub open spec fn markers(n: nat) -> Seq<char> {
    Seq::new(n, |i: int| '~')
}

/// A comment text that starts with `n` marker characters gives an output
/// line that starts with `n` indentation units, followed by what stands
/// after the markers, less one leading space.
pub proof fn lemma_marker_depth(n: nat, rest: Seq<char>)
    requires
        rest.len() == 0 || rest[0] != '~',
    ensures
        leading_run(markers(n) + rest, CharClass::Only('~')) == n,
        rendered_text(markers(n) + rest) == tabs(n) + strip_space(rest),
{
    let text = markers(n) + rest;
    lemma_leading_run(text, CharClass::Only('~'), n);
    assert(text.skip(n as int) =~= rest);
}

/// A line of an open comment loses `indent` characters where it starts
/// with as many whitespace characters or more, and else all its leading
/// whitespace. What it loses is whitespace, and the rest is kept as it is.
pub proof fn lemma_continuation_strip(indent: nat, line: Seq<char>)
    ensures
        ({
            let ws = leading_run(line, CharClass::Whitespace);
            let lost = line.len() - continuation_body(indent, line).len();
            &&& ws <= line.len()
            &&& lost == if ws >= indent {
                indent
            } else {
                ws
            }
            &&& line == line.take(lost) + continuation_body(indent, line)
            &&& forall|i: int| 0 <= i < lost ==> is_whitespace(#[trigger] line[i])
        }),
{
    lemma_leading_run_bounds(line, CharClass::Whitespace);
    let ws = leading_run(line, CharClass::Whitespace);
    let lost = if ws >= indent {
        indent
    } else {
        ws
    };
    assert(line =~= line.take(lost as int) + line.skip(lost as int));
    assert forall|i: int| 0 <= i < lost implies is_whitespace(#[trigger] line[i]) by {
        assert(CharClass::Whitespace.holds(line[i]));
    }
}

/// Where the syntax has no end marker, no multi-line comment is ever open.
pub proof fn lemma_line_comments_stay_closed(
    p: Syntax,
    st: ScanState,
    offset: nat,
    lines: Seq<Seq<char>>,
)
    requires
        p.end is None,
        st.open is None,
    ensures
        run(p, st, offset, lines) matches Ok(end) ==> end.open is None,
    decreases lines.len(),
{
    if lines.len() > 0 {
        match step(p, st, offset, lines[0]) {
            Ok(next) => {
                lemma_line_comments_stay_closed(
                    p,
                    next,
                    offset + byte_len(lines[0]) + 1,
                    lines.drop_first(),
                );
            },
            Err(_) => {},
        }
    }
}

/// The output only grows: what a run of lines gives begins with what was
/// there before.
pub proof fn lemma_output_grows(p: Syntax, st: ScanState, offset: nat, lines: Seq<Seq<char>>)
    ensures
        run(p, st, offset, lines) matches Ok(end) ==> st.output.is_prefix_of(end.output),
    decreases lines.len(),
{
    if lines.len() > 0 {
        match step(p, st, offset, lines[0]) {
            Ok(next) => {
                assert(st.output.is_prefix_of(next.output));
                lemma_output_grows(
                    p,
                    next,
                    offset + byte_len(lines[0]) + 1,
                    lines.drop_first(),
                );
            },
            Err(_) => {},
        }
    }
}

/// The failure for a missing `endcode` points at the `startcode` of the
/// capture that the source ends in, and comes with no other ending.
pub proof fn lemma_finish(st: ScanState)
    ensures
        finish(st) is Ok <==> st.capture is None,
        finish(st) is Ok ==> finish(st) == Ok::<Seq<char>, Failure>(st.output),
        st.capture matches Some(at) ==> finish(st) == Err::<Seq<char>, Failure>(
            Failure::MissingEndcode { bad_bit: (at, 0) },
        ),
{
}

/// A comment holds an instruction exactly where, with the whitespace at
/// both its ends left out, it starts with the instruction prefix.
pub proof fn lemma_directive_of_trimmed(body: Seq<char>)
    ensures
        is_directive(body) <==> instruction_prefix().is_prefix_of(trim(body)),
{
    reveal_strlit("spec:");
    let prefix = instruction_prefix();
    let t = trim_start(body);
    lemma_leading_run_bounds(body, CharClass::Whitespace);
    lemma_trailing_run_bounds(t, CharClass::Whitespace);
    let kept = t.len() - trailing_run(t, CharClass::Whitespace);
    if is_directive(body) {
        assert(t[4] == prefix[4]);
        if kept < 5 {
            assert(CharClass::Whitespace.holds(t[4]));
        }
        assert(prefix =~= trim(body).subrange(0, 5));
    }
    if prefix.is_prefix_of(trim(body)) {
        assert(prefix =~= t.subrange(0, 5));
    }
}

/// In a comment that holds an instruction, the instruction prefix stands
/// first where the leading whitespace ends.
pub proof fn lemma_prefix_position(body: Seq<char>)
    requires
        is_directive(body),
    ensures
        position_of(body, instruction_prefix()) == leading_run(body, CharClass::Whitespace),
{
    reveal_strlit("spec:");
    let prefix = instruction_prefix();
    let ws = leading_run(body, CharClass::Whitespace) as int;
    lemma_leading_run_bounds(body, CharClass::Whitespace);
    assert(body.subrange(ws, ws + 5) =~= trim_start(body).subrange(0, 5));
    assert forall|j: int| 0 <= j < ws implies !occurs_at(body, prefix, j) by {
        assert(CharClass::Whitespace.holds(body[j]));
        if occurs_at(body, prefix, j) {
            assert(body.subrange(j, j + 5)[0] == prefix[0]);
        }
    }
    assert(is_first_occurrence(body, prefix, ws));
    lemma_position_of(body, prefix, ws);
}

/// The instruction of a directive stands in its line: the span of a failure
/// that points at it lies within the line.
pub proof fn lemma_instruction_stands_in_line(line: Seq<char>, from: int, body: Seq<char>)
    requires
        0 <= from <= line.len(),
        body == line.skip(from),
        is_directive(body),
    ensures
        contains_text(line, instruction_of(body)),
        contains_text(line, instruction_prefix()),
        position_of(line, instruction_of(body)) + instruction_of(body).len() <= line.len(),
        position_of(line, instruction_prefix()) + instruction_prefix().len() <= line.len(),
{
    reveal_strlit("spec:");
    let prefix = instruction_prefix();
    let ws = leading_run(body, CharClass::Whitespace) as int;
    lemma_leading_run_bounds(body, CharClass::Whitespace);
    let after = trim_start(body).skip(5);
    let k = leading_run(after, CharClass::Except(' ')) as int;
    lemma_leading_run_bounds(after, CharClass::Except(' '));
    let token = instruction_of(body);
    assert(token =~= line.subrange(from + ws + 5, from + ws + 5 + k));
    assert(occurs_at(line, token, from + ws + 5));
    lemma_first_occurrence_exists(line, token, from + ws + 5);
    assert(prefix =~= line.subrange(from + ws, from + ws + 5));
    assert(occurs_at(line, prefix, from + ws));
    lemma_first_occurrence_exists(line, prefix, from + ws);
}

/// The first occurrence of an ASCII text that stands in a line ends, counted
/// in bytes, within the line.
proof fn lemma_token_bytes(line: Seq<char>, token: Seq<char>)
    requires
        contains_text(line, token),
        forall|i: int| 0 <= i < token.len() ==> (#[trigger] token[i]) as u32 <= 0x7F,
    ensures
        byte_len(line.take(position_of(line, token))) + token.len() <= byte_len(line),
{
    let i = choose|i: int| occurs_at(line, token, i);
    lemma_first_occurrence_exists(line, token, i);
    let k = position_of(line, token);
    lemma_byte_len_parts(line, k, k + token.len());
    lemma_byte_len_ascii(token);
}

/// A failure on a line points into the line, and a capture that a line
/// begins is marked within the line. `offset` is the byte offset of the line.
pub proof fn lemma_step_points_into_line(p: Syntax, st: ScanState, offset: nat, line: Seq<char>)
    ensures
        match step(p, st, offset, line) {
            Ok(next) => next.capture is None || next.capture == st.capture || (
            next.capture matches Some(at) && offset <= at <= offset + byte_len(line)),
            Err(e) => e.span() matches Some(span) && offset <= span.0 && span.0 + span.1
                <= offset + byte_len(line),
        },
{
    reveal_strlit("spec:");
    reveal_strlit("startcode");
    reveal_strlit("endcode");
    let body = comment_body(p, st.open, line);
    if bears_comment(p, st.open, line) && st.open is None && is_directive(body) {
        let ws = leading_run(line, CharClass::Whitespace) as int;
        lemma_leading_run_bounds(line, CharClass::Whitespace);
        assert(p.start =~= line.subrange(ws, ws + p.start.len()));
        lemma_first_occurrence_exists(line, p.start, ws);
        lemma_instruction_stands_in_line(line, body_column(p, line), body);
        lemma_token_bytes(line, instruction_prefix());
        if instruction_of(body) == "startcode"@ {
            lemma_token_bytes(line, "startcode"@);
        } else if instruction_of(body) == "endcode"@ {
            lemma_token_bytes(line, "endcode"@);
        }
    }
}

/// The first line of a text and what follows it take, in bytes, no more
/// than the text; where a line break parts them, it takes one byte more.
proof fn lemma_first_line_bytes(s: Seq<char>)
    requires
        s.len() > 0,
    ensures
        line_length(s) < s.len() ==> byte_len(first_line(s)) + 1 + byte_len(after_first_line(s))
            <= byte_len(s),
        line_length(s) >= s.len() ==> first_line(s) == s && after_first_line(s).len() == 0,
        after_first_line(s).len() < s.len(),
{
    let k = line_length(s) as int;
    lemma_leading_run_bounds(s, CharClass::Except('\n'));
    if k < s.len() {
        lemma_byte_len_parts(s, k, k + 1);
        lemma_byte_len_at_least(s.subrange(k, k + 1));
        if k > 0 {
            lemma_byte_len_parts(s, k - 1, k);
            assert(s.take(k).drop_last() =~= s.take(k - 1));
        }
    } else {
        assert(s.take(k) =~= s);
    }
}

/// A scan that fails points into the text that it scans, and a capture that
/// is under way when it ends began there. `offset` is the byte offset of the
/// text, before which a capture under way at the start began.
pub proof fn lemma_run_points_into_text(p: Syntax, st: ScanState, offset: nat, s: Seq<char>)
    requires
        st.capture matches Some(at) ==> at <= offset,
    ensures
        match run(p, st, offset, split_lines(s)) {
            Ok(end) => end.capture matches Some(at) ==> at <= offset + byte_len(s),
            Err(e) => e.span() matches Some(span) && span.0 + span.1 <= offset + byte_len(s),
        },
    decreases s.len(),
{
    if s.len() > 0 {
        let line = first_line(s);
        let rest = after_first_line(s);
        assert(split_lines(s)[0] == line);
        assert(split_lines(s).drop_first() =~= split_lines(rest));
        lemma_first_line_bytes(s);
        lemma_step_points_into_line(p, st, offset, line);
        match step(p, st, offset, line) {
            Ok(next) => {
                lemma_run_points_into_text(p, next, offset + byte_len(line) + 1, rest);
            },
            Err(_) => {},
        }
    }
}

/// Every failure of an extraction has a span, and the span lies within
/// the source: it starts and ends at byte offsets that the source has.
pub proof fn lemma_failure_points_into_source(p: Syntax, source: Seq<char>)
    ensures
        extract(p, source) matches Err(e) ==> e.span() matches Some(span) && span.0 + span.1
            <= byte_len(source),
{
    lemma_run_points_into_text(p, initial_state(), 0, source);
}

/// The text is made of whole lines: it is empty, or it ends with a line
/// feed.
pub open spec fn is_whole_lines(text: Seq<char>) -> bool {
    text.len() == 0 || text.last() == '\n'
}

/// A scan adds whole lines to the output.
pub proof fn lemma_run_gives_whole_lines(
    p: Syntax,
    st: ScanState,
    offset: nat,
    lines: Seq<Seq<char>>,
)
    requires
        is_whole_lines(st.output),
    ensures
        run(p, st, offset, lines) matches Ok(end) ==> is_whole_lines(end.output),
    decreases lines.len(),
{
    reveal_strlit("\n");
    reveal_strlit("```\n");
    if lines.len() > 0 {
        match step(p, st, offset, lines[0]) {
            Ok(next) => {
                lemma_run_gives_whole_lines(
                    p,
                    next,
                    offset + byte_len(lines[0]) + 1,
                    lines.drop_first(),
                );
            },
            Err(_) => {},
        }
    }
}

/// The text that an extraction gives is made of whole lines.
pub proof fn lemma_extract_gives_whole_lines(p: Syntax, source: Seq<char>)
    ensures
        extract(p, source) matches Ok(text) ==> is_whole_lines(text),
{
    lemma_run_gives_whole_lines(p, initial_state(), 0, split_lines(source));
}

} // verus!
