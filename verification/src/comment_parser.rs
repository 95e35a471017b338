//! The comment extractor: a scan, line by line, that keeps the text of the
//! specially marked comments of a source, and the code that stands between a
//! `spec:startcode` and a `spec:endcode` instruction.

use crate::errors::{Failure, SpecError};
use crate::text::{
    append_chars, byte_len, byte_len_of, chars_of, count_leading, count_trailing, ends_with,
    leading_run, lemma_byte_len_at_least, lemma_byte_len_parts, lemma_first_occurrence_exists,
    matches_at, occurs_at, position, position_of, same_text, starts_with, string_of, trailing_run,
    trim, trim_start, CharClass,
};
use vstd::string::StringExecFns;
use vstd::slice::slice_subrange;
use vstd::prelude::*;

verus! {

/// The comment syntax of a source, as texts.
pub struct Syntax {
    /// What a specification comment starts with.
    pub start: Seq<char>,
    /// What closes a comment, where comments run over several lines.
    pub end: Option<Seq<char>>,
    /// The tag that a captured code excerpt is fenced with.
    pub tag: Seq<char>,
}

/// The state of a scan between two lines.
pub struct ScanState {
    /// The offset of the `startcode` token that opened the code capture under
    /// way, if one is.
    pub capture: Option<nat>,
    /// The indentation of the multi-line comment that is open, if one is.
    pub open: Option<nat>,
    /// The text gathered so far.
    pub output: Seq<char>,
}

/// The state in which every scan begins.
pub open spec fn initial_state() -> ScanState {
    ScanState { capture: None, open: None, output: Seq::empty() }
}

/// The length of the first line of `s`, its line break left out.
pub open spec fn line_length(s: Seq<char>) -> nat {
    leading_run(s, CharClass::Except('\n'))
}

/// The first line of `s`: what stands before the first line feed, less a
/// carriage return that stands directly before it.
pub open spec fn first_line(s: Seq<char>) -> Seq<char> {
    let k = line_length(s);
    let raw = s.take(k as int);
    if k < s.len() && k > 0 && s[k - 1] == '\r' {
        raw.drop_last()
    } else {
        raw
    }
}

/// What follows the first line of `s` and its line feed.
pub open spec fn after_first_line(s: Seq<char>) -> Seq<char> {
    let k = line_length(s);
    if k < s.len() {
        s.skip(k as int + 1)
    } else {
        Seq::empty()
    }
}

/// The lines of `s`. A line ends at a line feed, or at a carriage return
/// followed by a line feed, or with the text; a text that ends in a line
/// break has no empty last line.
pub open spec fn split_lines(s: Seq<char>) -> Seq<Seq<char>>
    decreases s.len(),
{
    if s.len() == 0 {
        Seq::empty()
    } else {
        seq![first_line(s)] + split_lines(after_first_line(s))
    }
}

/// The line belongs to a comment: it starts with the start marker, leading
/// whitespace aside, or a multi-line comment is open.
pub open spec fn bears_comment(p: Syntax, open: Option<nat>, line: Seq<char>) -> bool {
    open is Some || p.start.is_prefix_of(trim_start(line))
}

/// A line of an open multi-line comment, less `indent` characters of its
/// leading whitespace, or less all of it where it has fewer.
pub open spec fn continuation_body(indent: nat, line: Seq<char>) -> Seq<char> {
    let ws = leading_run(line, CharClass::Whitespace);
    if indent > ws {
        line.skip(ws as int)
    } else {
        line.skip(indent as int)
    }
}

/// The column at which the text of a comment begins: right after the first
/// start marker of the line.
pub open spec fn body_column(p: Syntax, line: Seq<char>) -> int {
    position_of(line, p.start) + p.start.len()
}

/// The part of a comment-bearing line that belongs to the comment.
pub open spec fn comment_body(p: Syntax, open: Option<nat>, line: Seq<char>) -> Seq<char> {
    match open {
        Some(indent) => continuation_body(indent, line),
        None => line.skip(body_column(p, line)),
    }
}

/// What an instruction starts with.
pub open spec fn instruction_prefix() -> Seq<char> {
    "spec:"@
}

/// The comment holds an instruction: the instruction prefix is the first
/// thing in it, whitespace aside.
pub open spec fn is_directive(body: Seq<char>) -> bool {
    instruction_prefix().is_prefix_of(trim_start(body))
}

/// The instruction of a directive: what follows the prefix, up to the next
/// space.
pub open spec fn instruction_of(body: Seq<char>) -> Seq<char> {
    let after = trim_start(body).skip(instruction_prefix().len() as int);
    after.take(leading_run(after, CharClass::Except(' ')) as int)
}

/// The byte offset, within the line, of the first occurrence of `token`.
pub open spec fn byte_column(line: Seq<char>, token: Seq<char>) -> nat {
    byte_len(line.take(position_of(line, token)))
}

/// What a directive line does to the scan.
pub open spec fn directive_step(
    p: Syntax,
    st: ScanState,
    offset: nat,
    line: Seq<char>,
    body: Seq<char>,
) -> Result<ScanState, Failure> {
    let token = instruction_of(body);
    if token == "startcode"@ {
        let at = offset + byte_column(line, "startcode"@);
        match st.capture {
            None => Ok(
                ScanState {
                    capture: Some(at),
                    open: st.open,
                    output: st.output + "```"@ + p.tag + "\n"@,
                },
            ),
            Some(_) => Err(Failure::DoubleStartcode { bad_bit: (at, "startcode"@.len()) }),
        }
    } else if token == "endcode"@ {
        match st.capture {
            Some(_) => Ok(
                ScanState { capture: None, open: st.open, output: st.output + "```\n"@ },
            ),
            None => Err(
                Failure::MissingStartcode {
                    bad_bit: (offset + byte_column(line, "endcode"@), "endcode"@.len()),
                },
            ),
        }
    } else {
        Err(
            Failure::BadInstruction {
                bad_bit: (offset + byte_column(line, instruction_prefix()), 0),
                instruction: line.skip(
                    position_of(line, instruction_prefix()) + instruction_prefix().len(),
                ),
            },
        )
    }
}

/// `s` less every copy of `pat` that it ends with.
pub open spec fn strip_trailing(s: Seq<char>, pat: Seq<char>) -> Seq<char>
    decreases s.len(),
{
    if pat.len() > 0 && pat.is_suffix_of(s) {
        strip_trailing(s.take(s.len() - pat.len()), pat)
    } else {
        s
    }
}

/// The comment ends on this line: the end marker is the last thing in it,
/// whitespace aside.
pub open spec fn closes_comment(end: Seq<char>, comment: Seq<char>) -> bool {
    end.is_suffix_of(trim(comment))
}

/// The text of the comment on this line: its body, less the end marker where
/// the comment ends here.
pub open spec fn text_fragment(p: Syntax, body: Seq<char>) -> Seq<char> {
    match p.end {
        Some(end) => if closes_comment(end, body) {
            strip_trailing(body, end)
        } else {
            body
        },
        None => body,
    }
}

/// Whether a multi-line comment is open after this line, and its
/// indentation: a comment that does not end on the line where it starts is
/// open from there, with the column of its text as indentation.
pub open spec fn open_after(
    p: Syntax,
    open: Option<nat>,
    line: Seq<char>,
    body: Seq<char>,
) -> Option<nat> {
    match p.end {
        Some(end) => if closes_comment(end, body) {
            None
        } else {
            match open {
                Some(indent) => Some(indent),
                None => Some(body_column(p, line) as nat),
            }
        },
        None => open,
    }
}

/// `n` indentation units.
pub open spec fn tabs(n: nat) -> Seq<char> {
    Seq::new(n, |i: int| '\t')
}

/// The marker character that, repeated at the start of a comment, tells
/// its depth.
pub open spec fn depth_marker() -> CharClass {
    CharClass::Only('~')
}

/// `s` less one leading space, if it has one.
pub open spec fn strip_space(s: Seq<char>) -> Seq<char> {
    if s.len() > 0 && s[0] == ' ' {
        s.skip(1)
    } else {
        s
    }
}

/// The output line for the text of a comment: one indentation unit for each
/// leading marker character, then what follows them, less one leading space.
pub open spec fn rendered_text(fragment: Seq<char>) -> Seq<char> {
    let depth = leading_run(fragment, depth_marker());
    tabs(depth) + strip_space(fragment.skip(depth as int))
}

/// What one line does to the scan. `offset` is the byte offset of the line.
pub open spec fn step(p: Syntax, st: ScanState, offset: nat, line: Seq<char>) -> Result<
    ScanState,
    Failure,
> {
    if !bears_comment(p, st.open, line) {
        if st.capture is Some {
            Ok(ScanState { capture: st.capture, open: st.open, output: st.output + line + "\n"@ })
        } else {
            Ok(st)
        }
    } else {
        let body = comment_body(p, st.open, line);
        if st.open is None && is_directive(body) {
            directive_step(p, st, offset, line, body)
        } else {
            Ok(
                ScanState {
                    capture: st.capture,
                    open: open_after(p, st.open, line, body),
                    output: st.output + rendered_text(text_fragment(p, body)) + "\n"@,
                },
            )
        }
    }
}

/// The scan of `lines`, from the state `st`, the first line standing at the
/// byte offset `offset`. Each line moves the offset on by its length in
/// bytes and one more, for its line break.
pub open spec fn run(p: Syntax, st: ScanState, offset: nat, lines: Seq<Seq<char>>) -> Result<
    ScanState,
    Failure,
>
    decreases lines.len(),
{
    if lines.len() == 0 {
        Ok(st)
    } else {
        match step(p, st, offset, lines[0]) {
            Err(e) => Err(e),
            Ok(next) => run(p, next, offset + byte_len(lines[0]) + 1, lines.drop_first()),
        }
    }
}

/// What a scan that reached the end of the source in the state `st` gives:
/// the gathered text, unless a code capture is still under way.
pub open spec fn finish(st: ScanState) -> Result<Seq<char>, Failure> {
    match st.capture {
        Some(at) => Err(Failure::MissingEndcode { bad_bit: (at, 0) }),
        None => Ok(st.output),
    }
}

/// The specification text of the given lines.
pub open spec fn extract_lines(p: Syntax, lines: Seq<Seq<char>>) -> Result<Seq<char>, Failure> {
    match run(p, initial_state(), 0, lines) {
        Err(e) => Err(e),
        Ok(st) => finish(st),
    }
}

/// The specification text of `source`.
pub open spec fn extract(p: Syntax, source: Seq<char>) -> Result<Seq<char>, Failure> {
    extract_lines(p, split_lines(source))
}

/// Whether a code capture is under way, and the byte offset of the
/// `startcode` token that opened it.
#[derive(Debug, Clone, Copy, PartialEq, Eq)]
pub enum CaptureState {
    Idle,
    Capturing(usize),
}

/// Whether a multi-line comment is open, and the indentation of its first
/// line.
#[derive(Debug, Clone, Copy, PartialEq, Eq)]
pub enum CommentContinuation {
    Closed,
    Open(usize),
}

impl View for CaptureState {
    type V = Option<nat>;

    open spec fn view(&self) -> Option<nat> {
        match self {
            CaptureState::Idle => None,
            CaptureState::Capturing(at) => Some(*at as nat),
        }
    }
}

impl View for CommentContinuation {
    type V = Option<nat>;

    open spec fn view(&self) -> Option<nat> {
        match self {
            CommentContinuation::Closed => None,
            CommentContinuation::Open(indent) => Some(*indent as nat),
        }
    }
}

/// The comment syntax that a scan goes by.
pub struct Markers {
    pub start: Vec<char>,
    pub end: Option<Vec<char>>,
    pub tag: Vec<char>,
}

impl View for Markers {
    type V = Syntax;

    open spec fn view(&self) -> Syntax {
        Syntax {
            start: self.start@,
            end: match self.end {
                Some(e) => Some(e@),
                None => None,
            },
            tag: self.tag@,
        }
    }
}

/// The extractor between two lines of a source.
pub struct Extractor {
    pub capture: CaptureState,
    pub continuation: CommentContinuation,
    pub output: Vec<char>,
}

impl View for Extractor {
    type V = ScanState;

    open spec fn view(&self) -> ScanState {
        ScanState { capture: self.capture@, open: self.continuation@, output: self.output@ }
    }
}

/// Whether the comment ends on this line.
pub fn comment_closes(end: &[char], comment: &[char]) -> (r: bool)
    ensures
        r == closes_comment(end@, comment@),
{
    let lead = count_leading(comment, CharClass::Whitespace);
    let rest = slice_subrange(comment, lead, comment.len());
    let trail = count_trailing(rest, CharClass::Whitespace);
    let trimmed = slice_subrange(rest, 0, rest.len() - trail);
    ends_with(trimmed, end)
}

/// The length of `s` without the copies of `pat` that it ends with.
pub fn stripped_length(s: &[char], pat: &[char]) -> (n: usize)
    ensures
        n <= s.len(),
        s@.take(n as int) == strip_trailing(s@, pat@),
{
    let mut n: usize = s.len();
    assert(s@.take(n as int) =~= s@);
    if pat.len() == 0 {
        return n;
    }
    while n >= pat.len() && matches_at(s, pat, n - pat.len())
        invariant
            n <= s.len(),
            pat.len() > 0,
            strip_trailing(s@.take(n as int), pat@) == strip_trailing(s@, pat@),
        decreases n,
    {
        proof {
            let t = s@.take(n as int);
            assert(t.subrange(t.len() - pat.len(), t.len() as int) =~= s@.subrange(
                n - pat.len(),
                n as int,
            ));
            assert(pat@.is_suffix_of(t));
            assert(t.take(t.len() - pat.len()) =~= s@.take(n - pat.len()));
        }
        n = n - pat.len();
    }
    proof {
        let t = s@.take(n as int);
        if n >= pat.len() {
            assert(t.subrange(t.len() - pat.len(), t.len() as int) =~= s@.subrange(
                n - pat.len(),
                n as int,
            ));
        }
        assert(!pat@.is_suffix_of(t));
    }
    n
}

impl Extractor {
    /// The extractor before the first line.
    pub fn new() -> (r: Extractor)
        ensures
            r@ == initial_state(),
    {
        Extractor {
            capture: CaptureState::Idle,
            continuation: CommentContinuation::Closed,
            output: Vec::new(),
        }
    }

    /// Ends the scan: gives the gathered text, unless a code capture is
    /// still under way.
    pub fn finish(self) -> (r: Result<Vec<char>, SpecError>)
        ensures
            match finish(self@) {
                Ok(text) => r matches Ok(v) && v@ == text,
                Err(e) => r matches Err(x) && x@ == e,
            },
    {
        match self.capture {
            CaptureState::Capturing(at) => Err(SpecError::MissingEndcode { bad_bit: (at, 0) }),
            CaptureState::Idle => Ok(self.output),
        }
    }

    /// Appends the text of a comment as one output line.
    pub fn emit_text(&mut self, fragment: &[char])
        ensures
            final(self).capture == old(self).capture,
            final(self).continuation == old(self).continuation,
            final(self).output@ == old(self).output@ + rendered_text(fragment@) + "\n"@,
    {
        let depth = count_leading(fragment, CharClass::Only('~'));
        let mut i: usize = 0;
        while i < depth
            invariant
                i <= depth,
                self.capture == old(self).capture,
                self.continuation == old(self).continuation,
                self.output@ == old(self).output@ + tabs(i as nat),
            decreases depth - i,
        {
            self.output.push('\t');
            assert(tabs((i + 1) as nat) =~= tabs(i as nat).push('\t'));
            i = i + 1;
        }
        let rest = slice_subrange(fragment, depth, fragment.len());
        let text = if rest.len() > 0 && rest[0] == ' ' {
            slice_subrange(rest, 1, rest.len())
        } else {
            rest
        };
        append_chars(&mut self.output, text);
        self.output.push('\n');
        proof {
            reveal_strlit("\n");
            assert(rest@ =~= fragment@.skip(depth as int));
            assert(text@ =~= strip_space(rest@));
            assert("\n"@ =~= seq!['\n']);
            assert(self.output@ =~= old(self).output@ + rendered_text(fragment@) + "\n"@);
        }
    }

    /// Takes a directive line: `body` is its comment, `line` the whole line,
    /// which stands at the byte offset `offset`.
    fn take_directive(
        &mut self,
        markers: &Markers,
        offset: usize,
        line: &[char],
        body: &[char],
    ) -> (r: Result<(), SpecError>)
        requires
            offset + byte_len(line@) <= usize::MAX,
            is_directive(body@),
            exists|b: int| 0 <= b <= line@.len() && body@ == line@.skip(b),
        ensures
            match directive_step(markers@, old(self)@, offset as nat, line@, body@) {
                Ok(st) => r is Ok && final(self)@ == st,
                Err(e) => r matches Err(x) && x@ == e && *final(self) == *old(self),
            },
    {
        let prefix = chars_of("spec:");
        let startcode = chars_of("startcode");
        let endcode = chars_of("endcode");
        proof {
            reveal_strlit("spec:");
            reveal_strlit("startcode");
            reveal_strlit("endcode");
            reveal_strlit("```");
            reveal_strlit("```\n");
            reveal_strlit("\n");
        }
        let lead = count_leading(body, CharClass::Whitespace);
        let trimmed = slice_subrange(body, lead, body.len());
        let after = slice_subrange(trimmed, prefix.len(), trimmed.len());
        let stop = count_leading(after, CharClass::Except(' '));
        let token = slice_subrange(after, 0, stop);
        assert(token@ == instruction_of(body@));
        if same_text(token, startcode.as_slice()) {
            let at = offset + Self::column(line, startcode.as_slice());
            match self.capture {
                CaptureState::Idle => {
                    let fence = chars_of("```");
                    append_chars(&mut self.output, fence.as_slice());
                    append_chars(&mut self.output, markers.tag.as_slice());
                    self.output.push('\n');
                    self.capture = CaptureState::Capturing(at);
                    proof {
                        assert("\n"@ =~= seq!['\n']);
                        assert(self.output@ =~= old(self).output@ + "```"@ + markers.tag@ + "\n"@);
                    }
                    Ok(())
                },
                CaptureState::Capturing(_) => Err(
                    SpecError::DoubleStartcode { bad_bit: (at, startcode.len()) },
                ),
            }
        } else if same_text(token, endcode.as_slice()) {
            match self.capture {
                CaptureState::Capturing(_) => {
                    let fence = chars_of("```\n");
                    append_chars(&mut self.output, fence.as_slice());
                    self.capture = CaptureState::Idle;
                    Ok(())
                },
                CaptureState::Idle => {
                    let at = offset + Self::column(line, endcode.as_slice());
                    Err(SpecError::MissingStartcode { bad_bit: (at, endcode.len()) })
                },
            }
        } else {
            let k = position(line, prefix.as_slice());
            proof {
                let b = choose|b: int| 0 <= b <= line@.len() && body@ == line@.skip(b);
                assert(line@.subrange(b + lead, b + lead + 5) =~= trimmed@.subrange(0, 5));
                assert(occurs_at(line@, prefix@, b + lead));
                lemma_first_occurrence_exists(line@, prefix@, b + lead);
                lemma_byte_len_parts(line@, 0, k as int);
            }
            let at = offset + byte_len_of(slice_subrange(line, 0, k));
            let given = string_of(slice_subrange(line, k + prefix.len(), line.len()));
            Err(SpecError::BadInstruction { bad_bit: (at, 0), instruction: given })
        }
    }

    /// The byte offset, within the line, of the first occurrence of `token`.
    fn column(line: &[char], token: &[char]) -> (r: usize)
        requires
            byte_len(line@) <= usize::MAX,
        ensures
            r == byte_column(line@, token@),
            r <= byte_len(line@),
    {
        let k = position(line, token);
        proof {
            lemma_byte_len_parts(line@, 0, k as int);
        }
        byte_len_of(slice_subrange(line, 0, k))
    }

    /// Takes one line of the source, which stands at the byte offset
    /// `offset`.
    pub fn take_line(&mut self, markers: &Markers, offset: usize, line: &[char]) -> (r: Result<
        (),
        SpecError,
    >)
        requires
            offset + byte_len(line@) <= usize::MAX,
        ensures
            match step(markers@, old(self)@, offset as nat, line@) {
                Ok(st) => r is Ok && final(self)@ == st,
                Err(e) => r matches Err(x) && x@ == e,
            },
    {
        proof {
            reveal_strlit("spec:");
            reveal_strlit("\n");
        }
        let lead = count_leading(line, CharClass::Whitespace);
        let trimmed = slice_subrange(line, lead, line.len());
        let marked = starts_with(trimmed, markers.start.as_slice());
        let body_start: usize = match self.continuation {
            CommentContinuation::Open(indent) => {
                if indent > lead {
                    lead
                } else {
                    indent
                }
            },
            CommentContinuation::Closed => {
                if !marked {
                    if let CaptureState::Capturing(_) = self.capture {
                        append_chars(&mut self.output, line);
                        self.output.push('\n');
                        proof {
                            assert("\n"@ =~= seq!['\n']);
                            assert(self.output@ =~= old(self).output@ + line@ + "\n"@);
                        }
                    }
                    return Ok(());
                }
                let k = position(line, markers.start.as_slice());
                proof {
                    assert(line@.subrange(lead as int, lead + markers.start@.len())
                        =~= trimmed@.subrange(0, markers.start@.len() as int));
                    assert(occurs_at(line@, markers.start@, lead as int));
                    lemma_first_occurrence_exists(line@, markers.start@, lead as int);
                }
                k + markers.start.len()
            },
        };
        let body = slice_subrange(line, body_start, line.len());
        assert(body@ == comment_body(markers@, old(self).continuation@, line@));
        if let CommentContinuation::Closed = self.continuation {
            let prefix = chars_of("spec:");
            let body_lead = count_leading(body, CharClass::Whitespace);
            let body_trimmed = slice_subrange(body, body_lead, body.len());
            if starts_with(body_trimmed, prefix.as_slice()) {
                return self.take_directive(markers, offset, line, body);
            }
        }
        let mut fragment = body;
        match &markers.end {
            Some(end) => {
                if comment_closes(end.as_slice(), body) {
                    let n = stripped_length(body, end.as_slice());
                    fragment = slice_subrange(body, 0, n);
                    self.continuation = CommentContinuation::Closed;
                } else {
                    if let CommentContinuation::Closed = self.continuation {
                        self.continuation = CommentContinuation::Open(body_start);
                    }
                }
            },
            None => {},
        }
        assert(fragment@ == text_fragment(markers@, body@));
        self.emit_text(fragment);
        Ok(())
    }
}

/// The specification text of `source`, scanned by the given syntax.
pub fn extract_text(markers: &Markers, source: &[char]) -> (r: Result<Vec<char>, SpecError>)
    requires
        byte_len(source@) <= usize::MAX,
    ensures
        match extract(markers@, source@) {
            Ok(text) => r matches Ok(v) && v@ == text,
            Err(e) => r matches Err(x) && x@ == e,
        },
{
    let n = source.len();
    let mut extractor = Extractor::new();
    let mut pos: usize = 0;
    let mut offset: usize = 0;
    let ghost mut at: nat = 0;
    proof {
        assert(source@.skip(0) =~= source@);
    }
    while pos < n
        invariant
            n == source.len(),
            pos <= n,
            byte_len(source@) <= usize::MAX,
            pos < n ==> offset == at && at <= byte_len(source@.take(pos as int)),
            run(markers@, initial_state(), 0, split_lines(source@)) == run(
                markers@,
                extractor@,
                at,
                split_lines(source@.skip(pos as int)),
            ),
        decreases n - pos,
    {
        let rest = slice_subrange(source, pos, n);
        let k = count_leading(rest, CharClass::Except('\n'));
        let broken = k < rest.len();
        let len = if broken && k > 0 && rest[k - 1] == '\r' {
            k - 1
        } else {
            k
        };
        let line = slice_subrange(rest, 0, len);
        proof {
            assert(rest@ =~= source@.skip(pos as int));
            assert(line@ =~= first_line(rest@));
            assert(line@ =~= source@.subrange(pos as int, pos + len));
            lemma_byte_len_parts(source@, pos as int, pos + len);
            assert(split_lines(rest@).drop_first() =~= split_lines(after_first_line(rest@)));
            assert(split_lines(rest@)[0] == line@);
        }
        let width = byte_len_of(line);
        match extractor.take_line(markers, offset, line) {
            Err(e) => {
                return Err(e);
            },
            Ok(()) => {},
        }
        proof {
            at = at + byte_len(line@) + 1;
        }
        if broken {
            proof {
                lemma_byte_len_parts(source@, pos + len, pos + k + 1);
                lemma_byte_len_at_least(source@.subrange(pos + len, pos + k + 1));
                assert(after_first_line(rest@) =~= source@.skip(pos + k + 1));
            }
            offset = offset + width + 1;
            pos = pos + k + 1;
        } else {
            proof {
                assert(source@.skip(n as int) =~= after_first_line(rest@));
            }
            pos = n;
        }
    }
    proof {
        assert(source@.skip(n as int).len() == 0);
    }
    extractor.finish()
}

/// The syntax whose markers and tag are the given texts.
pub open spec fn syntax_of(lang: Seq<char>, start_comment: Seq<char>, end_comment: Option<&str>)
    -> Syntax {
    Syntax {
        start: start_comment,
        end: match end_comment {
            Some(e) => Some(e@),
            None => None,
        },
        tag: lang,
    }
}

/// Extracts the specification text of `source`: the text of the comments
/// that start with `start_comment`, one output line for each, and, fenced and
/// tagged with `lang`, the lines that stand between a `spec:startcode` and a
/// `spec:endcode` instruction. Where `end_comment` is given, a comment runs
/// on until a line ends with it.
///
/// Fails where an instruction is unknown, a `startcode` stands within a
/// capture, an `endcode` outside one, or the source ends within one.
pub fn parse_code(lang: &str, start_comment: &str, end_comment: Option<&str>, source: &str) -> (r:
    Result<String, SpecError>)
    ensures
        match extract(syntax_of(lang@, start_comment@, end_comment), source@) {
            Ok(text) => r matches Ok(s) && s@ == text,
            Err(e) => r matches Err(x) && x@ == e,
        },
{
    let markers = Markers {
        start: chars_of(start_comment),
        end: match end_comment {
            Some(e) => Some(chars_of(e)),
            None => None,
        },
        tag: chars_of(lang),
    };
    // the source is held in memory, so the length of its encoding is a `usize`
    let _size: usize = source.as_bytes().len();
    let text = chars_of(source);
    match extract_text(&markers, text.as_slice()) {
        Ok(v) => Ok(string_of(v.as_slice())),
        Err(e) => Err(e),
    }
}

/// Detects whether a comment ends on its line: whether `comment`, with the
/// whitespace around it left out, ends with `end`.
pub fn has_end(end: &str, comment: &str) -> (r: bool)
    ensures
        r == closes_comment(end@, comment@),
{
    let end = chars_of(end);
    let comment = chars_of(comment);
    comment_closes(end.as_slice(), comment.as_slice())
}

/// The position of the last `c` in `s`; -1 where there is none.
pub open spec fn last_index_of(s: Seq<char>, c: char) -> int {
    s.len() - trailing_run(s, CharClass::Except(c)) - 1
}

/// `path` without what does not count at its end: a `/`, and a `.` that
/// stands for the directory before it.
pub open spec fn without_tail(path: Seq<char>) -> Seq<char>
    decreases path.len(),
{
    if path.len() > 0 && path.last() == '/' {
        without_tail(path.drop_last())
    } else if path.len() >= 2 && path[path.len() - 2] == '/' && path.last() == '.' {
        without_tail(path.take(path.len() - 2))
    } else {
        path
    }
}

/// The name of the file that `path` leads to: its last component, with `/`
/// between the components.
pub open spec fn file_name_of(path: Seq<char>) -> Seq<char> {
    let path = without_tail(path);
    path.skip(last_index_of(path, '/') + 1)
}

/// The extension of the file that `path` leads to: what follows the last
/// `.` of the file name. A name without a `.`, or whose only `.` is its first
/// character, has none, and neither has the name `..`.
pub open spec fn extension_of(path: Seq<char>) -> Option<Seq<char>> {
    let name = file_name_of(path);
    let dot = last_index_of(name, '.');
    if dot <= 0 || name == ".."@ {
        None
    } else {
        Some(name.skip(dot + 1))
    }
}

/// The length of `path` without what does not count at its end.
fn length_without_tail(path: &[char]) -> (n: usize)
    ensures
        n <= path.len(),
        path@.take(n as int) == without_tail(path@),
{
    let mut n: usize = path.len();
    assert(path@.take(n as int) =~= path@);
    while n > 0 && (path[n - 1] == '/' || (n >= 2 && path[n - 2] == '/' && path[n - 1] == '.'))
        invariant
            n <= path.len(),
            without_tail(path@.take(n as int)) == without_tail(path@),
        decreases n,
    {
        proof {
            let t = path@.take(n as int);
            assert(t.drop_last() =~= path@.take(n - 1));
            if n >= 2 {
                assert(t.take(t.len() - 2) =~= path@.take(n - 2));
            }
        }
        if path[n - 1] == '/' {
            n = n - 1;
        } else {
            n = n - 2;
        }
    }
    n
}

/// The extension of the file that `path` leads to, if it has one.
pub fn extension(path: &str) -> (r: Option<String>)
    ensures
        r is Some == extension_of(path@) is Some,
        r matches Some(ext) ==> Some(ext@) == extension_of(path@),
{
    let chars = chars_of(path);
    let kept = length_without_tail(chars.as_slice());
    let path = slice_subrange(chars.as_slice(), 0, kept);
    let after_slash = count_trailing(path, CharClass::Except('/'));
    let name = slice_subrange(path, path.len() - after_slash, path.len());
    let after_dot = count_trailing(name, CharClass::Except('.'));
    let parent = chars_of("..");
    if name.len() - after_dot <= 1 || same_text(name, parent.as_slice()) {
        None
    } else {
        Some(string_of(slice_subrange(name, name.len() - after_dot, name.len())))
    }
}

/// The comment syntax of a language.
pub struct SyntaxProfile {
    /// What a specification comment starts with.
    pub start_marker: String,
    /// What closes a comment, where comments run over several lines.
    pub end_marker: Option<String>,
    /// The tag that a captured code excerpt is fenced with.
    pub code_tag: String,
}

impl View for SyntaxProfile {
    type V = Syntax;

    open spec fn view(&self) -> Syntax {
        Syntax {
            start: self.start_marker@,
            end: match self.end_marker {
                Some(e) => Some(e@),
                None => None,
            },
            tag: self.code_tag@,
        }
    }
}

/// The comment syntax that goes with a file extension: that of Python for
/// `py`, that of OCaml for `ml` and `mli`, and for every other extension line
/// comments that start with `//~`, the extension itself being the tag.
pub open spec fn profile_of(extension: Seq<char>) -> Syntax {
    if extension == "py"@ {
        Syntax { start: "#~"@, end: None, tag: "python"@ }
    } else if extension == "ml"@ || extension == "mli"@ {
        Syntax { start: "(*~"@, end: Some("*)"@), tag: "ocaml"@ }
    } else {
        Syntax { start: "//~"@, end: None, tag: extension }
    }
}

impl SyntaxProfile {
    /// The comment syntax that goes with a file extension.
    pub fn for_extension(extension: &str) -> (r: SyntaxProfile)
        ensures
            r@ == profile_of(extension@),
    {
        let ext = chars_of(extension);
        if same_text(ext.as_slice(), chars_of("py").as_slice()) {
            SyntaxProfile {
                start_marker: String::from_str("#~"),
                end_marker: None,
                code_tag: String::from_str("python"),
            }
        } else if same_text(ext.as_slice(), chars_of("ml").as_slice()) || same_text(
            ext.as_slice(),
            chars_of("mli").as_slice(),
        ) {
            SyntaxProfile {
                start_marker: String::from_str("(*~"),
                end_marker: Some(String::from_str("*)")),
                code_tag: String::from_str("ocaml"),
            }
        } else {
            SyntaxProfile {
                start_marker: String::from_str("//~"),
                end_marker: None,
                code_tag: String::from_str(extension),
            }
        }
    }

    /// Extracts the specification text of `source` by this syntax.
    pub fn parse(&self, source: &str) -> (r: Result<String, SpecError>)
        ensures
            match extract(self@, source@) {
                Ok(text) => r matches Ok(s) && s@ == text,
                Err(e) => r matches Err(x) && x@ == e,
            },
    {
        let end: Option<&str> = match &self.end_marker {
            Some(e) => Some(e.as_str()),
            None => None,
        };
        parse_code(self.code_tag.as_str(), self.start_marker.as_str(), end, source)
    }
}

/// What a file gives to the specification: a Markdown file, its whole
/// content; any other file, the specification text extracted by the syntax
/// that goes with its extension. A file without an extension gives nothing.
pub open spec fn content_of(file_name: Seq<char>, source: Seq<char>) -> Result<Seq<char>, Failure> {
    match extension_of(file_name) {
        None => Err(Failure::CantParseFile(file_name)),
        Some(ext) => if ext == "md"@ {
            Ok(source)
        } else {
            extract(profile_of(ext), source)
        },
    }
}

/// The specification-related content of the file named `file_name`, whose
/// content is `source`.
pub fn parse_file(file_name: &str, source: &str) -> (r: Result<String, SpecError>)
    ensures
        match content_of(file_name@, source@) {
            Ok(text) => r matches Ok(s) && s@ == text,
            Err(e) => r matches Err(x) && x@ == e,
        },
{
    match extension(file_name) {
        None => Err(SpecError::CantParseFile(String::from_str(file_name))),
        Some(ext) => {
            if same_text(chars_of(ext.as_str()).as_slice(), chars_of("md").as_slice()) {
                Ok(String::from_str(source))
            } else {
                SyntaxProfile::for_extension(ext.as_str()).parse(source)
            }
        },
    }
}

} // verus!
