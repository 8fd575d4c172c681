//! Rewrites Markdown into the subset that WeChat shows, piece by piece as text arrives.

use crate::text;
use vstd::prelude::*;

verus! {

/// A span that was opened and not yet closed.
#[derive(Clone, Copy, PartialEq, Eq, Structural, Debug)]
pub enum InlineKind {
    Code,
    Image,
    Strike,
    Bold3,
    Italic,
    UBold3,
    UItalic,
    Table,
}

/// An open span and the text seen since its marker.
#[verifier::ext_equal]
pub struct OpenSpan {
    pub kind: InlineKind,
    pub acc: Seq<char>,
}

/// The state of a filter: the text not yet handled, whether a code fence is open,
/// whether the text starts a line, and the open span.
#[verifier::ext_equal]
pub struct FilterState {
    pub buf: Seq<char>,
    pub fence: bool,
    pub sol: bool,
    pub inline: Option<OpenSpan>,
}

/// What one step of the filter leaves and what it gives out.
#[verifier::ext_equal]
pub struct FilterStep {
    pub state: FilterState,
    pub out: Seq<char>,
}

pub open spec fn quiet(state: FilterState) -> FilterStep {
    FilterStep { state, out: Seq::empty() }
}

pub open spec fn char_is(s: Seq<char>, i: int, c: char) -> bool {
    0 <= i < s.len() && s[i] == c
}

/// What follows the first line end at or after `from`.
pub open spec fn after_line(s: Seq<char>, from: int) -> Seq<char> {
    match text::find_from(s, "\n"@, from) {
        Some(nl) => s.skip(nl + 1),
        None => Seq::empty(),
    }
}

/// Inside a code fence: a closing fence at the start of a line is dropped with the rest of
/// its line; everything else passes unchanged.
pub open spec fn fence_step(st: FilterState, eof: bool) -> FilterStep {
    let buf = st.buf;
    if st.sol && text::byte_len(buf) < 3 && !eof {
        quiet(st)
    } else if st.sol && text::occurs_at(buf, "```"@, 0) {
        quiet(FilterState { fence: false, buf: after_line(buf, 3), sol: true, ..st })
    } else {
        match text::find(buf, "\n"@) {
            Some(nl) => FilterStep {
                state: FilterState { buf: buf.skip(nl + 1), sol: true, ..st },
                out: buf.take(nl + 1),
            },
            None => FilterStep {
                state: FilterState { buf: Seq::empty(), sol: false, ..st },
                out: buf,
            },
        }
    }
}

/// How many characters from `from` on are `c`, or `c` or a space where `spaced`.
pub open spec fn run_length(s: Seq<char>, c: char, spaced: bool, from: int) -> int
    decreases s.len() - from,
{
    if 0 <= from < s.len() && (s[from] == c || (spaced && s[from] == ' ')) {
        1 + run_length(s, c, spaced, from + 1)
    } else {
        0
    }
}

pub open spec fn count_of(s: Seq<char>, c: char) -> nat
    decreases s.len(),
{
    if s.len() == 0 {
        0
    } else {
        count_of(s.drop_last(), c) + if s.last() == c {
            1nat
        } else {
            0nat
        }
    }
}

pub open spec fn all_blank(s: Seq<char>) -> bool {
    forall|i: int| 0 <= i < s.len() ==> s[i] == ' ' || s[i] == '\t'
}

/// At the start of a line: block markers are recognised here.
pub open spec fn sol_step(st: FilterState, eof: bool) -> FilterStep {
    let buf = st.buf;
    let body = quiet(FilterState { sol: false, ..st });
    if char_is(buf, 0, '\n') {
        FilterStep { state: FilterState { buf: buf.skip(1), ..st }, out: seq!['\n'] }
    } else if char_is(buf, 0, '`') {
        if text::byte_len(buf) < 3 && !eof {
            quiet(st)
        } else if text::occurs_at(buf, "```"@, 0) {
            quiet(FilterState { fence: true, buf: after_line(buf, 3), sol: true, ..st })
        } else {
            body
        }
    } else if char_is(buf, 0, '>') {
        if text::byte_len(buf) < 2 && !eof {
            quiet(st)
        } else {
            let n = if char_is(buf, 1, ' ') {
                2int
            } else {
                1int
            };
            quiet(FilterState { buf: buf.skip(n), sol: false, ..st })
        }
    } else if char_is(buf, 0, '#') {
        let n = run_length(buf, '#', false, 0);
        if n == buf.len() && !eof {
            quiet(st)
        } else if 5 <= n <= 6 && char_is(buf, n, ' ') {
            quiet(FilterState { buf: buf.skip(n + 1), sol: false, ..st })
        } else {
            body
        }
    } else if char_is(buf, 0, '|') {
        quiet(
            FilterState {
                buf: buf.skip(1),
                inline: Some(OpenSpan { kind: InlineKind::Table, acc: Seq::empty() }),
                sol: false,
                ..st
            },
        )
    } else if char_is(buf, 0, ' ') || char_is(buf, 0, '\t') {
        if !eof && all_blank(buf) {
            quiet(st)
        } else {
            body
        }
    } else if char_is(buf, 0, '-') || char_is(buf, 0, '*') || char_is(buf, 0, '_') {
        let j = run_length(buf, buf[0], true, 0);
        if j == buf.len() && !eof {
            quiet(st)
        } else if (j == buf.len() || char_is(buf, j, '\n')) && count_of(buf.take(j), buf[0]) >= 3 {
            let rest = if j < buf.len() {
                buf.skip(j + 1)
            } else {
                Seq::empty()
            };
            quiet(FilterState { buf: rest, sol: true, ..st })
        } else {
            body
        }
    } else {
        body
    }
}

/// What stops the scan of running text.
pub enum BodyStop {
    /// A line end at this position.
    Newline(int),
    /// A marker at this position, its length, and the span it opens.
    Open(int, int, InlineKind),
    End,
}

/// The first thing at or after `i` that ends a line or opens a span. Doubled `*` and `_` are
/// stepped over, and a single one before a space, a line end or the end of the text.
pub open spec fn body_scan(s: Seq<char>, i: int) -> BodyStop
    decreases s.len() - i,
{
    if i < 0 || i >= s.len() {
        BodyStop::End
    } else if s[i] == '\n' {
        BodyStop::Newline(i)
    } else if s[i] == '`' {
        BodyStop::Open(i, 1, InlineKind::Code)
    } else if s[i] == '!' && char_is(s, i + 1, '[') {
        BodyStop::Open(i, 2, InlineKind::Image)
    } else if s[i] == '~' && char_is(s, i + 1, '~') {
        BodyStop::Open(i, 2, InlineKind::Strike)
    } else if s[i] == '*' || s[i] == '_' {
        if char_is(s, i + 1, s[i]) && char_is(s, i + 2, s[i]) {
            BodyStop::Open(
                i,
                3,
                if s[i] == '*' {
                    InlineKind::Bold3
                } else {
                    InlineKind::UBold3
                },
            )
        } else if char_is(s, i + 1, s[i]) {
            body_scan(s, i + 2)
        } else if i + 1 < s.len() && s[i + 1] != ' ' && s[i + 1] != '\n' {
            BodyStop::Open(
                i,
                1,
                if s[i] == '*' {
                    InlineKind::Italic
                } else {
                    InlineKind::UItalic
                },
            )
        } else {
            body_scan(s, i + 1)
        }
    } else {
        body_scan(s, i + 1)
    }
}

/// How many characters at the end of `s` may be the start of a marker that is still to come.
pub open spec fn held_back(s: Seq<char>) -> int {
    let n = s.len();
    if n >= 2 && (s[n - 1] == '*' || s[n - 1] == '_') && s[n - 2] == s[n - 1] {
        2
    } else if n >= 1 && (s[n - 1] == '*' || s[n - 1] == '_' || s[n - 1] == '~' || s[n - 1] == '!') {
        1
    } else {
        0
    }
}

/// Running text: passes up to the next line end or the next marker.
pub open spec fn body_step(st: FilterState, eof: bool) -> FilterStep {
    let buf = st.buf;
    match body_scan(buf, 0) {
        BodyStop::Newline(i) => FilterStep {
            state: FilterState { buf: buf.skip(i + 1), sol: true, ..st },
            out: buf.take(i + 1),
        },
        BodyStop::Open(i, n, kind) => FilterStep {
            state: FilterState {
                buf: buf.skip(i + n),
                inline: Some(OpenSpan { kind, acc: Seq::empty() }),
                ..st
            },
            out: buf.take(i),
        },
        BodyStop::End => {
            let hold = if eof {
                0
            } else {
                held_back(buf)
            };
            FilterStep {
                state: FilterState { buf: buf.skip(buf.len() - hold), ..st },
                out: buf.take(buf.len() - hold),
            }
        },
    }
}

/// Whether an open span ends in the text seen so far.
#[verifier::ext_equal]
pub enum SpanEnd {
    Open,
    /// The span ends: what it gives out, the text after it, and whether a line ended with it.
    Closed { out: Seq<char>, rest: Seq<char>, line_end: bool },
    /// A table row without a cell and without a `|`.
    BlankRow,
}

/// A span that ends with `marker`: its text without the markers.
pub open spec fn simple_end(acc: Seq<char>, marker: Seq<char>) -> SpanEnd {
    match text::find(acc, marker) {
        Some(i) => SpanEnd::Closed {
            out: acc.take(i),
            rest: acc.skip(i + marker.len()),
            line_end: false,
        },
        None => SpanEnd::Open,
    }
}

/// Inline code: ends with a backtick, or, where there is none, with the line.
pub open spec fn code_end(acc: Seq<char>) -> SpanEnd {
    match simple_end(acc, "`"@) {
        SpanEnd::Open => match text::find(acc, "\n"@) {
            Some(nl) => SpanEnd::Closed {
                out: seq!['`'] + acc.take(nl + 1),
                rest: acc.skip(nl + 1),
                line_end: true,
            },
            None => SpanEnd::Open,
        },
        end => end,
    }
}

/// Emphasis: ends with a single `marker`, or with the line. Doubled markers are stepped over.
pub open spec fn em_end(acc: Seq<char>, marker: char, j: int) -> SpanEnd
    decreases acc.len() - j,
{
    if j < 0 || j >= acc.len() {
        SpanEnd::Open
    } else if acc[j] == '\n' {
        SpanEnd::Closed {
            out: seq![marker] + acc.take(j + 1),
            rest: acc.skip(j + 1),
            line_end: true,
        }
    } else if acc[j] == marker {
        if char_is(acc, j + 1, marker) {
            em_end(acc, marker, j + 2)
        } else {
            SpanEnd::Closed { out: acc.take(j), rest: acc.skip(j + 1), line_end: false }
        }
    } else {
        em_end(acc, marker, j + 1)
    }
}

/// An image: dropped whole with its address; `![..]` without an address is kept.
pub open spec fn image_end(acc: Seq<char>) -> SpanEnd {
    match text::find(acc, "]"@) {
        None => SpanEnd::Open,
        Some(cb) => if cb + 1 >= acc.len() {
            SpanEnd::Open
        } else if acc[cb + 1] != '(' {
            SpanEnd::Closed {
                out: "!["@ + acc.take(cb + 1),
                rest: acc.skip(cb + 1),
                line_end: false,
            }
        } else {
            match text::find_from(acc, ")"@, cb + 2) {
                Some(cp) => SpanEnd::Closed {
                    out: Seq::empty(),
                    rest: acc.skip(cp + 1),
                    line_end: false,
                },
                None => SpanEnd::Open,
            }
        },
    }
}

pub open spec fn is_ascii_space(c: char) -> bool {
    c == ' ' || c == '\t' || c == '\n' || c == '\u{c}' || c == '\r'
}

/// The row of dashes between the head of a table and its body.
pub open spec fn separator_row(line: Seq<char>) -> bool {
    &&& line.contains('-')
    &&& forall|i: int|
        0 <= i < line.len() ==> (is_ascii_space(#[trigger] line[i]) || line[i] == '|' || line[i]
            == ':' || line[i] == '-')
}

pub open spec fn blank_row(line: Seq<char>) -> bool {
    !line.contains('|') && text::trim(line).len() == 0
}

/// The cells of a table row, without the empty ones at its two ends.
pub open spec fn row_cells(line: Seq<char>) -> Seq<Seq<char>> {
    let parts = text::split(line, '|').map_values(|p: Seq<char>| text::trim(p));
    let start = if parts[0].len() == 0 {
        1int
    } else {
        0int
    };
    let end = if parts.last().len() == 0 {
        parts.len() - 1
    } else {
        parts.len() as int
    };
    parts.subrange(start, end)
}

/// A table row with its cells separated by tabs; nothing for a separator row.
pub open spec fn table_row(line: Seq<char>) -> Seq<char> {
    if separator_row(line) {
        Seq::empty()
    } else {
        text::join(row_cells(line), "\t"@)
    }
}

/// A table row: ends with the line. A row without text gives no line either.
pub open spec fn table_end(acc: Seq<char>) -> SpanEnd {
    match text::find(acc, "\n"@) {
        None => SpanEnd::Open,
        Some(nl) => {
            let line = acc.take(nl);
            if blank_row(line) {
                SpanEnd::BlankRow
            } else {
                let row = table_row(line);
                SpanEnd::Closed {
                    out: if row.len() == 0 {
                        row
                    } else {
                        row + "\n"@
                    },
                    rest: acc.skip(nl + 1),
                    line_end: true,
                }
            }
        },
    }
}

pub open spec fn span_end(kind: InlineKind, acc: Seq<char>) -> SpanEnd {
    match kind {
        InlineKind::Code => code_end(acc),
        InlineKind::Strike => simple_end(acc, "~~"@),
        InlineKind::Bold3 => simple_end(acc, "***"@),
        InlineKind::UBold3 => simple_end(acc, "___"@),
        InlineKind::Italic => em_end(acc, '*', 0),
        InlineKind::UItalic => em_end(acc, '_', 0),
        InlineKind::Image => image_end(acc),
        InlineKind::Table => table_end(acc),
    }
}

/// Inside a span: the text is collected until the span ends. `None` for a blank table row.
pub open spec fn inline_step(st: FilterState, span: OpenSpan) -> Option<FilterStep> {
    let acc = span.acc + st.buf;
    match span_end(span.kind, acc) {
        SpanEnd::Open => Some(
            quiet(
                FilterState {
                    buf: Seq::empty(),
                    inline: Some(OpenSpan { kind: span.kind, acc }),
                    ..st
                },
            ),
        ),
        SpanEnd::Closed { out, rest, line_end } => Some(
            FilterStep {
                state: FilterState { buf: rest, inline: None, sol: st.sol || line_end, ..st },
                out,
            },
        ),
        SpanEnd::BlankRow => None,
    }
}

/// One step of the filter on a state with text left. `None` for a blank table row.
#[verifier::opaque]
pub open spec fn filter_step(st: FilterState, eof: bool) -> Option<FilterStep> {
    if st.fence {
        Some(fence_step(st, eof))
    } else {
        match st.inline {
            Some(span) => inline_step(st, span),
            None => if st.sol {
                Some(sol_step(st, eof))
            } else {
                Some(body_step(st, eof))
            },
        }
    }
}

/// The text that a state still holds.
pub open spec fn weight(st: FilterState) -> nat {
    st.buf.len() + match st.inline {
        Some(span) => span.acc.len(),
        None => 0,
    }
}

/// Steps until no text is left or a step changes nothing.
pub open spec fn filter_run(st: FilterState, eof: bool) -> Option<FilterStep>
    decreases weight(st), if st.sol { 1int } else { 0int },
{
    if st.buf.len() == 0 {
        Some(quiet(st))
    } else {
        match filter_step(st, eof) {
            None => None,
            Some(next) => if next.state == st || next.state.buf.len() == 0 {
                Some(next)
            } else {
                proof {
                    lemma_step_progress(st, eof);
                }
                match filter_run(next.state, eof) {
                    None => None,
                    Some(rest) => Some(
                        FilterStep { state: rest.state, out: next.out + rest.out },
                    ),
                }
            },
        }
    }
}

pub open spec fn marker_of(kind: InlineKind) -> Seq<char> {
    match kind {
        InlineKind::Code => "`"@,
        InlineKind::Image => "!["@,
        InlineKind::Strike => "~~"@,
        InlineKind::Bold3 => "***"@,
        InlineKind::Italic => "*"@,
        InlineKind::UBold3 => "___"@,
        InlineKind::UItalic => "_"@,
        InlineKind::Table => ""@,
    }
}

/// At the end of the text an open span gives back its marker and its text, and a table row
/// ends. `None` for a blank table row.
pub open spec fn close_open_span(st: FilterState) -> Option<FilterStep> {
    let closed = FilterState { inline: None, ..st };
    match st.inline {
        None => Some(quiet(st)),
        Some(span) => if span.kind == InlineKind::Table {
            if blank_row(span.acc) {
                None
            } else {
                Some(FilterStep { state: closed, out: table_row(span.acc) })
            }
        } else {
            Some(FilterStep { state: closed, out: marker_of(span.kind) + span.acc })
        },
    }
}

/// All that the filter does with the text it holds. `None` where it meets a blank table row.
pub open spec fn pumped(st: FilterState, eof: bool) -> Option<FilterStep> {
    match filter_run(st, eof) {
        None => None,
        Some(ran) => if !eof {
            Some(ran)
        } else {
            match close_open_span(ran.state) {
                None => None,
                Some(last) => Some(FilterStep { state: last.state, out: ran.out + last.out }),
            }
        },
    }
}

pub open spec fn initial_state() -> FilterState {
    FilterState { buf: Seq::empty(), fence: false, sol: true, inline: None }
}

pub open spec fn with_text(st: FilterState, delta: Seq<char>) -> FilterState {
    FilterState { buf: st.buf + delta, ..st }
}

/// `text` fed to a new filter in one piece and flushed. `None` where it has a blank table row.
pub open spec fn filtered(text: Seq<char>) -> Option<Seq<char>> {
    match pumped(with_text(initial_state(), text), false) {
        None => None,
        Some(fed) => match pumped(fed.state, true) {
            None => None,
            Some(flushed) => Some(fed.out + flushed.out),
        },
    }
}

pub proof fn lemma_run_length(s: Seq<char>, c: char, spaced: bool, from: int)
    requires
        0 <= from <= s.len(),
    ensures
        0 <= run_length(s, c, spaced, from) <= s.len() - from,
        from < s.len() && s[from] == c ==> run_length(s, c, spaced, from) >= 1,
    decreases s.len() - from,
{
    if from < s.len() {
        lemma_run_length(s, c, spaced, from + 1);
    }
}

pub proof fn lemma_body_scan(s: Seq<char>, i: int)
    requires
        0 <= i,
    ensures
        match body_scan(s, i) {
            BodyStop::Newline(k) => i <= k < s.len(),
            BodyStop::Open(k, n, _) => i <= k && 1 <= n && k + n <= s.len(),
            BodyStop::End => true,
        },
    decreases s.len() - i,
{
    if i < s.len() {
        lemma_body_scan(s, i + 1);
        if i + 2 <= s.len() {
            lemma_body_scan(s, i + 2);
        }
    }
}

pub proof fn lemma_em_end(acc: Seq<char>, marker: char, j: int)
    requires
        0 <= j,
    ensures
        match em_end(acc, marker, j) {
            SpanEnd::Closed { out, rest, line_end } => rest.len() < acc.len(),
            SpanEnd::BlankRow => false,
            SpanEnd::Open => true,
        },
    decreases acc.len() - j,
{
    if j < acc.len() {
        lemma_em_end(acc, marker, j + 1);
        if j + 2 <= acc.len() {
            lemma_em_end(acc, marker, j + 2);
        }
    }
}

/// A span that ends leaves less text than there was.
pub proof fn lemma_span_end(kind: InlineKind, acc: Seq<char>)
    ensures
        match span_end(kind, acc) {
            SpanEnd::Closed { out, rest, line_end } => rest.len() < acc.len(),
            _ => true,
        },
{
    reveal_strlit("`");
    reveal_strlit("\n");
    reveal_strlit("~~");
    reveal_strlit("***");
    reveal_strlit("___");
    reveal_strlit("]");
    reveal_strlit(")");
    text::lemma_find_from(acc, "`"@, 0);
    text::lemma_find_from(acc, "\n"@, 0);
    text::lemma_find_from(acc, "~~"@, 0);
    text::lemma_find_from(acc, "***"@, 0);
    text::lemma_find_from(acc, "___"@, 0);
    text::lemma_find_from(acc, "]"@, 0);
    lemma_em_end(acc, '*', 0);
    lemma_em_end(acc, '_', 0);
    if let Some(cb) = text::find(acc, "]"@) {
        if cb + 1 < acc.len() {
            text::lemma_find_from(acc, ")"@, cb + 2);
        }
    }
}

/// A step that changes the state leaves less text, or the same text no longer at the start
/// of a line, or no text to look at.
pub proof fn lemma_step_progress(st: FilterState, eof: bool)
    requires
        st.buf.len() > 0,
    ensures
        match filter_step(st, eof) {
            Some(next) => next.state == st || next.state.buf.len() == 0 || weight(next.state)
                < weight(st) || (weight(next.state) == weight(st) && st.sol && !next.state.sol),
            None => true,
        },
{
    reveal(filter_step);
    let buf = st.buf;
    reveal_strlit("\n");
    reveal_strlit("```");
    text::lemma_find_from(buf, "\n"@, 0);
    if st.fence {
        text::lemma_find_from(buf, "\n"@, 3);
    } else if let Some(span) = st.inline {
        lemma_span_end(span.kind, span.acc + buf);
    } else if st.sol {
        text::lemma_find_from(buf, "\n"@, 3);
        lemma_run_length(buf, '#', false, 0);
        lemma_run_length(buf, buf[0], true, 0);
    } else {
        lemma_body_scan(buf, 0);
        let next = body_step(st, eof);
        if body_scan(buf, 0) == BodyStop::End {
            let hold = if eof {
                0
            } else {
                held_back(buf)
            };
            if hold == buf.len() {
                assert(next.state.buf =~= buf);
            }
        }
    }
}

/// An open span and the text seen since its marker, as the filter holds them.
pub struct InlineState {
    kind: InlineKind,
    acc: Vec<char>,
}

impl View for InlineState {
    type V = OpenSpan;

    closed spec fn view(&self) -> OpenSpan {
        OpenSpan { kind: self.kind, acc: self.acc@ }
    }
}

/// A filter that takes text in pieces and gives out what WeChat can show of it.
pub struct StreamingMarkdownFilter {
    buf: Vec<char>,
    fence: bool,
    sol: bool,
    inline: Option<InlineState>,
}

impl View for StreamingMarkdownFilter {
    type V = FilterState;

    closed spec fn view(&self) -> FilterState {
        FilterState {
            buf: self.buf@,
            fence: self.fence,
            sol: self.sol,
            inline: match self.inline {
                Some(span) => Some(span@),
                None => None,
            },
        }
    }
}

impl StreamingMarkdownFilter {
    pub fn new() -> (filter: Self)
        ensures
            filter@ == initial_state(),
    {
        StreamingMarkdownFilter { buf: Vec::new(), fence: false, sol: true, inline: None }
    }

    /// Drops the first `n` characters of the text not yet handled.
    fn skip(&mut self, n: usize)
        requires
            n <= old(self)@.buf.len(),
        ensures
            final(self)@ == (FilterState { buf: old(self)@.buf.skip(n as int), ..old(self)@ }),
    {
        self.buf = text::slice_of(&self.buf, n, self.buf.len());
    }

    /// Drops the text up to the end of the line that holds position `from`.
    fn skip_line(&mut self, from: usize)
        requires
            from <= old(self)@.buf.len(),
        ensures
            final(self)@ == (FilterState {
                buf: after_line(old(self)@.buf, from as int),
                ..old(self)@
            }),
    {
        proof {
            reveal_strlit("\n");
        }
        match text::find_in(&self.buf, "\n", from) {
            Some(nl) => {
                self.skip(nl + 1);
            },
            None => {
                self.buf = Vec::new();
            },
        }
    }

    /// Takes the first `n` characters of the text not yet handled.
    fn take(&mut self, n: usize) -> (out: String)
        requires
            n <= old(self)@.buf.len(),
        ensures
            final(self)@ == (FilterState { buf: old(self)@.buf.skip(n as int), ..old(self)@ }),
            out@ == old(self)@.buf.take(n as int),
    {
        let out = text::string_of_range(&self.buf, 0, n);
        self.skip(n);
        out
    }

    fn pump_fence(&mut self, eof: bool) -> (out: String)
        requires
            old(self)@.buf.len() > 0,
        ensures
            (FilterStep { state: final(self)@, out: out@ }) == fence_step(old(self)@, eof),
    {
        proof {
            reveal_strlit("```");
            reveal_strlit("\n");
        }
        if self.sol {
            if !eof && !text::takes_bytes(&self.buf, 3) {
                return String::new();
            }
            if text::matches_at(&self.buf, "```", 0) {
                self.fence = false;
                self.skip_line(3);
                self.sol = true;
                return String::new();
            }
            self.sol = false;
        }
        match text::find_in(&self.buf, "\n", 0) {
            Some(nl) => {
                let out = self.take(nl + 1);
                self.sol = true;
                out
            },
            None => {
                let n = self.buf.len();
                let out = self.take(n);
                out
            },
        }
    }

    fn pump_sol(&mut self, eof: bool) -> (out: String)
        requires
            old(self)@.buf.len() > 0,
        ensures
            (FilterStep { state: final(self)@, out: out@ }) == sol_step(old(self)@, eof),
    {
        proof {
            reveal_strlit("```");
            reveal_strlit("\n");
            text::lemma_byte_len_bounds(self.buf@);
        }
        let first: char = self.buf[0];
        match first {
            '\n' => {
                let out = self.take(1);
                assert(out@ =~= seq!['\n']);
                return out;
            },
            '`' => {
                if !eof && !text::takes_bytes(&self.buf, 3) {
                    return String::new();
                }
                if text::matches_at(&self.buf, "```", 0) {
                    self.fence = true;
                    self.skip_line(3);
                    self.sol = true;
                    return String::new();
                }
                self.sol = false;
            },
            '>' => {
                if !eof && !text::takes_bytes(&self.buf, 2) {
                    return String::new();
                }
                if self.buf.len() > 1 && self.buf[1] == ' ' {
                    self.skip(2);
                } else {
                    self.skip(1);
                }
                self.sol = false;
            },
            '#' => {
                let n = self.leading_run('#', false);
                if n == self.buf.len() && !eof {
                    return String::new();
                }
                if 5 <= n && n <= 6 && n < self.buf.len() && self.buf[n] == ' ' {
                    self.skip(n + 1);
                }
                self.sol = false;
            },
            '|' => {
                self.skip(1);
                self.inline = Some(InlineState { kind: InlineKind::Table, acc: Vec::new() });
                self.sol = false;
            },
            ' ' | '\t' => {
                if !eof && self.holds_only_blanks() {
                    return String::new();
                }
                self.sol = false;
            },
            '-' | '*' | '_' => {
                let j = self.leading_run(first, true);
                if j == self.buf.len() && !eof {
                    return String::new();
                }
                if (j == self.buf.len() || self.buf[j] == '\n') && self.count_before(j, first) >= 3 {
                    if j < self.buf.len() {
                        self.skip(j + 1);
                    } else {
                        self.buf = Vec::new();
                    }
                    self.sol = true;
                    return String::new();
                }
                self.sol = false;
            },
            _ => {
                self.sol = false;
            },
        }
        String::new()
    }

    /// How many characters at the start of the text are `c`, or `c` or a space where `spaced`.
    fn leading_run(&self, c: char, spaced: bool) -> (n: usize)
        ensures
            n == run_length(self@.buf, c, spaced, 0),
            n <= self@.buf.len(),
    {
        let mut n: usize = 0;
        while n < self.buf.len() && (self.buf[n] == c || (spaced && self.buf[n] == ' '))
            invariant
                n <= self.buf.len(),
                run_length(self.buf@, c, spaced, 0) == n + run_length(
                    self.buf@,
                    c,
                    spaced,
                    n as int,
                ),
            decreases self.buf.len() - n,
        {
            n += 1;
        }
        n
    }

    fn holds_only_blanks(&self) -> (b: bool)
        ensures
            b == all_blank(self@.buf),
    {
        let mut i: usize = 0;
        while i < self.buf.len()
            invariant
                i <= self.buf.len(),
                forall|k: int| 0 <= k < i ==> self.buf@[k] == ' ' || self.buf@[k] == '\t',
            decreases self.buf.len() - i,
        {
            if self.buf[i] != ' ' && self.buf[i] != '\t' {
                return false;
            }
            i += 1;
        }
        true
    }

    /// How often `c` stands among the first `n` characters of the text.
    fn count_before(&self, n: usize, c: char) -> (count: usize)
        requires
            n <= self@.buf.len(),
        ensures
            count == count_of(self@.buf.take(n as int), c),
    {
        let mut count: usize = 0;
        let mut i: usize = 0;
        while i < n
            invariant
                i <= n <= self.buf.len(),
                count <= i,
                count == count_of(self.buf@.take(i as int), c),
            decreases n - i,
        {
            assert(self.buf@.take(i + 1).drop_last() =~= self.buf@.take(i as int));
            if self.buf[i] == c {
                count += 1;
            }
            i += 1;
        }
        count
    }

    /// Whether `c` stands at position `i` of the text.
    fn is_at(&self, i: usize, c: char) -> (b: bool)
        ensures
            b == char_is(self@.buf, i as int, c),
    {
        i < self.buf.len() && self.buf[i] == c
    }

    fn pump_body(&mut self, eof: bool) -> (out: String)
        requires
            old(self)@.buf.len() > 0,
            old(self)@.inline is None,
        ensures
            (FilterStep { state: final(self)@, out: out@ }) == body_step(old(self)@, eof),
    {
        let mut i: usize = 0;
        while i < self.buf.len()
            invariant
                i <= self.buf.len(),
                *self == *old(self),
                self.inline is None,
                body_scan(self.buf@, 0) == body_scan(self.buf@, i as int),
            decreases self.buf.len() - i,
        {
            let c = self.buf[i];
            match c {
                '\n' => {
                    let out = self.take(i + 1);
                    self.sol = true;
                    return out;
                },
                '`' => {
                    return self.start_inline(i, 1, InlineKind::Code);
                },
                '!' => {
                    if self.is_at(i + 1, '[') {
                        return self.start_inline(i, 2, InlineKind::Image);
                    }
                    i += 1;
                },
                '~' => {
                    if self.is_at(i + 1, '~') {
                        return self.start_inline(i, 2, InlineKind::Strike);
                    }
                    i += 1;
                },
                '*' | '_' => {
                    if self.is_at(i + 1, c) && self.is_at(i + 2, c) {
                        let kind = if c == '*' {
                            InlineKind::Bold3
                        } else {
                            InlineKind::UBold3
                        };
                        return self.start_inline(i, 3, kind);
                    }
                    if self.is_at(i + 1, c) {
                        i += 2;
                    } else if i + 1 < self.buf.len() && self.buf[i + 1] != ' ' && self.buf[i + 1]
                        != '\n' {
                        let kind = if c == '*' {
                            InlineKind::Italic
                        } else {
                            InlineKind::UItalic
                        };
                        return self.start_inline(i, 1, kind);
                    } else {
                        i += 1;
                    }
                },
                _ => {
                    i += 1;
                },
            }
        }
        let hold: usize = if eof {
            0
        } else {
            self.held_back()
        };
        let n = self.buf.len() - hold;
        self.take(n)
    }

    /// How many characters at the end of the text may start a marker that is still to come.
    fn held_back(&self) -> (n: usize)
        ensures
            n == held_back(self@.buf),
            n <= self@.buf.len(),
    {
        let n = self.buf.len();
        if n == 0 {
            return 0;
        }
        let last = self.buf[n - 1];
        if (last == '*' || last == '_') && n >= 2 && self.buf[n - 2] == last {
            2
        } else if last == '*' || last == '_' || last == '~' || last == '!' {
            1
        } else {
            0
        }
    }

    fn start_inline(&mut self, marker_at: usize, marker_len: usize, kind: InlineKind) -> (out: String)
        requires
            marker_at + marker_len <= old(self)@.buf.len(),
        ensures
            out@ == old(self)@.buf.take(marker_at as int),
            final(self)@ == (FilterState {
                buf: old(self)@.buf.skip(marker_at + marker_len),
                inline: Some(OpenSpan { kind, acc: Seq::empty() }),
                ..old(self)@
            }),
    {
        let out = text::string_of_range(&self.buf, 0, marker_at);
        assert(marker_at + marker_len <= self.buf.len());
        self.skip(marker_at + marker_len);
        self.inline = Some(InlineState { kind, acc: Vec::new() });
        out
    }

    /// Collects the text into the open span and ends the span where it can. `None` for a
    /// blank table row.
    fn pump_inline(&mut self) -> (out: Option<String>)
        requires
            old(self)@.inline is Some,
        ensures
            match inline_step(old(self)@, old(self)@.inline->0) {
                Some(step) => out is Some && (FilterStep { state: final(self)@, out: out->0@ })
                    == step,
                None => out is None,
            },
    {
        let mut inline = match self.inline.take() {
            Some(inline) => inline,
            None => {
                return Some(String::new());
            },
        };
        text::extend_with(&mut inline.acc, &self.buf);
        self.buf = Vec::new();
        let ghost before = self@;
        proof {
            reveal_strlit("`");
            reveal_strlit("~~");
            reveal_strlit("***");
            reveal_strlit("___");
        }
        let closed = match inline.kind {
            InlineKind::Code => match self.close_simple_inline(&inline, "`", 1) {
                Some(out) => Some(out),
                None => self.close_code_at_line_end(&inline),
            },
            InlineKind::Strike => self.close_simple_inline(&inline, "~~", 2),
            InlineKind::Bold3 => self.close_simple_inline(&inline, "***", 3),
            InlineKind::UBold3 => self.close_simple_inline(&inline, "___", 3),
            InlineKind::Italic => self.close_em_inline(&inline, '*'),
            InlineKind::UItalic => self.close_em_inline(&inline, '_'),
            InlineKind::Image => self.close_image_inline(&inline),
            InlineKind::Table => match self.close_table_inline(&inline) {
                Some(closed) => closed,
                None => {
                    return None;
                },
            },
        };
        match closed {
            Some(out) => Some(out),
            None => {
                self.inline = Some(inline);
                Some(String::new())
            },
        }
    }

    /// The state after a span ended: `rest` is left, and a line may have started.
    spec fn after_span(st: FilterState, rest: Seq<char>, line_end: bool) -> FilterState {
        FilterState { buf: rest, sol: st.sol || line_end, ..st }
    }

    /// Whether `out` and the new state are what the end of a span calls for.
    spec fn span_handled(
        end: SpanEnd,
        before: FilterState,
        after: FilterState,
        out: Option<String>,
    ) -> bool {
        match end {
            SpanEnd::Open => out is None && after == before,
            SpanEnd::Closed { out: given, rest, line_end } => out is Some && out->0@ == given
                && after == Self::after_span(before, rest, line_end),
            SpanEnd::BlankRow => false,
        }
    }

    fn close_simple_inline(&mut self, inline: &InlineState, marker: &str, marker_len: usize) -> (out:
        Option<String>)
        requires
            marker_len == marker@.len(),
        ensures
            Self::span_handled(
                simple_end(inline@.acc, marker@),
                old(self)@,
                final(self)@,
                out,
            ),
    {
        match text::find_in(&inline.acc, marker, 0) {
            Some(idx) => {
                self.buf = text::slice_of(&inline.acc, idx + marker_len, inline.acc.len());
                Some(text::string_of_range(&inline.acc, 0, idx))
            },
            None => None,
        }
    }

    fn close_code_at_line_end(&mut self, inline: &InlineState) -> (out: Option<String>)
        requires
            simple_end(inline@.acc, "`"@) is Open,
        ensures
            Self::span_handled(code_end(inline@.acc), old(self)@, final(self)@, out),
    {
        proof {
            reveal_strlit("`");
            reveal_strlit("\n");
        }
        match text::find_in(&inline.acc, "\n", 0) {
            Some(nl) => {
                let mut out = text::chars_of("`");
                text::extend_with(&mut out, &text::slice_of(&inline.acc, 0, nl + 1));
                self.buf = text::slice_of(&inline.acc, nl + 1, inline.acc.len());
                self.sol = true;
                let out = text::string_of(&out);
                assert(out@ =~= seq!['`'] + inline@.acc.take(nl + 1));
                Some(out)
            },
            None => None,
        }
    }

    fn close_em_inline(&mut self, inline: &InlineState, marker: char) -> (out: Option<String>)
        ensures
            Self::span_handled(
                em_end(inline@.acc, marker, 0),
                old(self)@,
                final(self)@,
                out,
            ),
    {
        let mut j: usize = 0;
        while j < inline.acc.len()
            invariant
                j <= inline.acc.len(),
                *self == *old(self),
                em_end(inline.acc@, marker, 0) == em_end(inline.acc@, marker, j as int),
            decreases inline.acc.len() - j,
        {
            if inline.acc[j] == '\n' {
                let mut out: Vec<char> = Vec::new();
                out.push(marker);
                text::extend_with(&mut out, &text::slice_of(&inline.acc, 0, j + 1));
                self.buf = text::slice_of(&inline.acc, j + 1, inline.acc.len());
                self.sol = true;
                let out = text::string_of(&out);
                assert(out@ =~= seq![marker] + inline@.acc.take(j + 1));
                return Some(out);
            }
            if inline.acc[j] == marker {
                if j + 1 < inline.acc.len() && inline.acc[j + 1] == marker {
                    j += 2;
                    continue;
                }
                self.buf = text::slice_of(&inline.acc, j + 1, inline.acc.len());
                return Some(text::string_of_range(&inline.acc, 0, j));
            }
            j += 1;
        }
        None
    }

    fn close_image_inline(&mut self, inline: &InlineState) -> (out: Option<String>)
        ensures
            Self::span_handled(image_end(inline@.acc), old(self)@, final(self)@, out),
    {
        proof {
            reveal_strlit("]");
            reveal_strlit(")");
        }
        let cb = match text::find_in(&inline.acc, "]", 0) {
            Some(cb) => cb,
            None => {
                return None;
            },
        };
        if cb + 1 >= inline.acc.len() {
            return None;
        }
        if inline.acc[cb + 1] != '(' {
            let mut out = text::chars_of("![");
            text::extend_with(&mut out, &text::slice_of(&inline.acc, 0, cb + 1));
            self.buf = text::slice_of(&inline.acc, cb + 1, inline.acc.len());
            return Some(text::string_of(&out));
        }
        match text::find_in(&inline.acc, ")", cb + 2) {
            Some(cp) => {
                self.buf = text::slice_of(&inline.acc, cp + 1, inline.acc.len());
                Some(String::new())
            },
            None => None,
        }
    }

    /// `None` for a blank row; otherwise what a span that may have ended gives out.
    fn close_table_inline(&mut self, inline: &InlineState) -> (out: Option<Option<String>>)
        ensures
            match out {
                None => table_end(inline@.acc) is BlankRow,
                Some(closed) => Self::span_handled(
                    table_end(inline@.acc),
                    old(self)@,
                    final(self)@,
                    closed,
                ),
            },
    {
        proof {
            reveal_strlit("\n");
        }
        match text::find_in(&inline.acc, "\n", 0) {
            None => Some(None),
            Some(nl) => {
                let line = text::slice_of(&inline.acc, 0, nl);
                assert(line@ == inline@.acc.take(nl as int));
                if is_blank_row(&line) {
                    return None;
                }
                let mut row = extract_table_row(&line);
                if row.len() > 0 {
                    text::extend_with(&mut row, &text::chars_of("\n"));
                }
                self.buf = text::slice_of(&inline.acc, nl + 1, inline.acc.len());
                self.sol = true;
                Some(Some(text::string_of(&row)))
            },
        }
    }

    /// Whether the state is one with these marks: the length of the text, the two flags, and
    /// the kind and length of the open span.
    fn has_marks(&self, len: usize, sol: bool, fence: bool, span: Option<(InlineKind, usize)>) -> (b:
        bool)
        ensures
            b == (self@.buf.len() == len && self@.sol == sol && self@.fence == fence && match (
                self@.inline,
                span,
            ) {
                (Some(open), Some((kind, n))) => open.kind == kind && open.acc.len() == n,
                (None, None) => true,
                _ => false,
            }),
    {
        let same_span = match (&self.inline, span) {
            (Some(open), Some((kind, n))) => open.kind == kind && open.acc.len() == n,
            (None, None) => true,
            _ => false,
        };
        self.buf.len() == len && self.sol == sol && self.fence == fence && same_span
    }

    /// One step on a state with text left. `None` for a blank table row.
    fn step(&mut self, eof: bool) -> (out: Option<String>)
        requires
            old(self)@.buf.len() > 0,
        ensures
            match filter_step(old(self)@, eof) {
                Some(step) => out is Some && (FilterStep { state: final(self)@, out: out->0@ })
                    == step,
                None => out is None,
            },
    {
        reveal(filter_step);
        if self.fence {
            Some(self.pump_fence(eof))
        } else if self.inline.is_some() {
            self.pump_inline()
        } else if self.sol {
            Some(self.pump_sol(eof))
        } else {
            Some(self.pump_body(eof))
        }
    }

    /// Handles the text it holds. `None` where it meets a blank table row.
    fn pump(&mut self, eof: bool) -> (out: Option<String>)
        ensures
            match pumped(old(self)@, eof) {
                Some(step) => out is Some && (FilterStep { state: final(self)@, out: out->0@ })
                    == step,
                None => out is None,
            },
    {
        let mut out = String::new();
        let ghost start = self@;
        let mut going = true;
        while going && self.buf.len() > 0
            invariant
                start == old(self)@,
                going ==> filter_run(start, eof) == prepend(out@, filter_run(self@, eof)),
                !going ==> filter_run(start, eof) == Some(FilterStep { state: self@, out: out@ }),
            decreases
                    if going { 1int } else { 0int },
                    if self.buf.len() > 0 { 1int } else { 0int },
                    weight(self@),
                    if self.sol { 1int } else { 0int },
        {
            let ghost st = self@;
            let len = self.buf.len();
            let sol = self.sol;
            let fence = self.fence;
            let span = match &self.inline {
                Some(open) => Some((open.kind, open.acc.len())),
                None => None,
            };
            proof {
                lemma_step_progress(st, eof);
                lemma_step_marks(st, eof);
            }
            let piece = match self.step(eof) {
                Some(piece) => piece,
                None => {
                    return None;
                },
            };
            let ghost given = out@;
            out.append(piece.as_str());
            if self.has_marks(len, sol, fence, span) {
                going = false;
            }
            proof {
                if self@.buf.len() > 0 && self@ != st {
                    if let Some(rest) = filter_run(self@, eof) {
                        assert(given + (piece@ + rest.out) =~= given + piece@ + rest.out);
                    }
                } else if self@ != st {
                    assert(given + piece@ + Seq::<char>::empty() =~= given + piece@);
                }
            }
        }
        proof {
            if going {
                assert(out@ + Seq::<char>::empty() =~= out@);
            }
        }
        if eof {
            if let Some(inline) = self.inline.take() {
                if inline.kind == InlineKind::Table {
                    if is_blank_row(&inline.acc) {
                        return None;
                    }
                    let row = extract_table_row(&inline.acc);
                    out.append(text::string_of(&row).as_str());
                } else {
                    let ghost ran = out@;
                    out.append(inline_marker(inline.kind));
                    out.append(text::string_of(&inline.acc).as_str());
                    assert(out@ =~= ran + (marker_of(inline.kind) + inline.acc@));
                }
            } else {
                assert(out@ + Seq::<char>::empty() =~= out@);
            }
        }
        Some(out)
    }

    /// Takes the next piece of the text and gives out what can be shown by now.
    pub fn feed(&mut self, delta: &str) -> (out: String)
        requires
            pumped(with_text(old(self)@, delta@), false) is Some,
        ensures
            pumped(with_text(old(self)@, delta@), false) == Some(
                FilterStep { state: final(self)@, out: out@ },
            ),
    {
        text::extend_with(&mut self.buf, &text::chars_of(delta));
        match self.pump(false) {
            Some(out) => out,
            None => String::new(),
        }
    }

    /// Gives out what is left when the text has ended.
    pub fn flush(&mut self) -> (out: String)
        requires
            pumped(old(self)@, true) is Some,
        ensures
            pumped(old(self)@, true) == Some(FilterStep { state: final(self)@, out: out@ }),
    {
        match self.pump(true) {
            Some(out) => out,
            None => String::new(),
        }
    }

    fn copy(&self) -> (filter: Self)
        ensures
            filter@ == self@,
    {
        let inline = match &self.inline {
            Some(open) => Some(
                InlineState { kind: open.kind, acc: text::slice_of(&open.acc, 0, open.acc.len()) },
            ),
            None => None,
        };
        let filter = StreamingMarkdownFilter {
            buf: text::slice_of(&self.buf, 0, self.buf.len()),
            fence: self.fence,
            sol: self.sol,
            inline,
        };
        assert(filter@ =~= self@) by {
            assert(filter.buf@ =~= self.buf@);
            if let Some(open) = self.inline {
                assert(filter.inline->0.acc@ =~= open.acc@);
            }
        }
        filter
    }

    /// Takes the next piece of the text and gives out what can be shown by now. `None`, with the
    /// filter left as it was, where that meets a blank table row.
    pub fn try_feed(&mut self, delta: &str) -> (out: Option<String>)
        ensures
            match out {
                Some(out) => pumped(with_text(old(self)@, delta@), false) == Some(
                    FilterStep { state: final(self)@, out: out@ },
                ),
                None => pumped(with_text(old(self)@, delta@), false) is None && final(self)@ == old(
                    self,
                )@,
            },
    {
        let mut next = self.copy();
        text::extend_with(&mut next.buf, &text::chars_of(delta));
        match next.pump(false) {
            Some(out) => {
                *self = next;
                Some(out)
            },
            None => None,
        }
    }

    /// Gives out what is left when the text has ended. `None`, with the filter left as it was, where
    /// a blank table row is left.
    pub fn try_flush(&mut self) -> (out: Option<String>)
        ensures
            match out {
                Some(out) => pumped(old(self)@, true) == Some(
                    FilterStep { state: final(self)@, out: out@ },
                ),
                None => pumped(old(self)@, true) is None && final(self)@ == old(self)@,
            },
    {
        let mut next = self.copy();
        match next.pump(true) {
            Some(out) => {
                *self = next;
                Some(out)
            },
            None => None,
        }
    }
}

/// `step` after `out` was given out.
pub open spec fn prepend(out: Seq<char>, step: Option<FilterStep>) -> Option<FilterStep> {
    match step {
        Some(step) => Some(FilterStep { state: step.state, out: out + step.out }),
        None => None,
    }
}

/// A step that leaves as much text, the flags and the length of the open span as they were
/// changes nothing.
proof fn lemma_step_marks(st: FilterState, eof: bool)
    requires
        st.buf.len() > 0,
    ensures
        match filter_step(st, eof) {
            Some(next) => {
                let t = next.state;
                t.buf.len() == st.buf.len() && t.sol == st.sol && t.fence == st.fence && match (
                    t.inline,
                    st.inline,
                ) {
                    (Some(a), Some(b)) => a.kind == b.kind && a.acc.len() == b.acc.len(),
                    (None, None) => true,
                    _ => false,
                } ==> t == st
            },
            None => true,
        },
{
    reveal(filter_step);
    let buf = st.buf;
    reveal_strlit("\n");
    reveal_strlit("```");
    text::lemma_find_from(buf, "\n"@, 0);
    text::lemma_find_from(buf, "\n"@, 3);
    if !st.fence && st.inline is None {
        lemma_run_length(buf, '#', false, 0);
        lemma_run_length(buf, buf[0], true, 0);
        lemma_body_scan(buf, 0);
        if !st.sol && body_scan(buf, 0) == BodyStop::End {
            assert(buf.skip(0) =~= buf);
        }
    }
}

/// `text` fed to a new filter and flushed.
pub fn filter_markdown(text: &str) -> (out: String)
    requires
        filtered(text@) is Some,
    ensures
        filtered(text@) == Some(out@),
{
    let mut filter = StreamingMarkdownFilter::new();
    let mut out = filter.feed(text);
    let rest = filter.flush();
    out.append(rest.as_str());
    out
}

/// `text` fed to a new filter and flushed. `None` where it has a blank table row.
pub fn try_filter_markdown(text: &str) -> (out: Option<String>)
    ensures
        match filtered(text@) {
            Some(shown) => out is Some && out->0@ == shown,
            None => out is None,
        },
{
    let mut filter = StreamingMarkdownFilter::new();
    text::extend_with(&mut filter.buf, &text::chars_of(text));
    match filter.pump(false) {
        None => None,
        Some(fed) => match filter.pump(true) {
            None => None,
            Some(flushed) => Some(fed.concat(flushed.as_str())),
        },
    }
}

fn inline_marker(kind: InlineKind) -> (marker: &'static str)
    ensures
        marker@ == marker_of(kind),
{
    match kind {
        InlineKind::Code => "`",
        InlineKind::Image => "![",
        InlineKind::Strike => "~~",
        InlineKind::Bold3 => "***",
        InlineKind::Italic => "*",
        InlineKind::UBold3 => "___",
        InlineKind::UItalic => "_",
        InlineKind::Table => "",
    }
}

fn is_blank_row(line: &Vec<char>) -> (b: bool)
    ensures
        b == blank_row(line@),
{
    !contains_char(line, '|') && text::trimmed(line).len() == 0
}

fn contains_char(v: &Vec<char>, c: char) -> (b: bool)
    ensures
        b == v@.contains(c),
{
    let mut i: usize = 0;
    while i < v.len()
        invariant
            i <= v.len(),
            forall|k: int| 0 <= k < i ==> v@[k] != c,
        decreases v.len() - i,
    {
        if v[i] == c {
            return true;
        }
        i += 1;
    }
    false
}

fn is_separator_row(line: &Vec<char>) -> (b: bool)
    ensures
        b == separator_row(line@),
{
    let mut i: usize = 0;
    while i < line.len()
        invariant
            i <= line.len(),
            forall|k: int|
                0 <= k < i ==> (is_ascii_space(#[trigger] line@[k]) || line@[k] == '|' || line@[k]
                    == ':' || line@[k] == '-'),
        decreases line.len() - i,
    {
        let c = line[i];
        let space = c == ' ' || c == '\t' || c == '\n' || c == '\u{c}' || c == '\r';
        if !(space || c == '|' || c == ':' || c == '-') {
            return false;
        }
        i += 1;
    }
    contains_char(line, '-')
}

/// A row whose only part is empty is blank.
proof fn lemma_blank_row(line: Seq<char>)
    requires
        !blank_row(line),
    ensures
        ({
            let parts = text::split(line, '|');
            parts.len() >= 2 || (parts.len() == 1 && text::trim(parts[0]).len() > 0)
        }),
{
    lemma_split_without(line, '|');
}

proof fn lemma_split_without(s: Seq<char>, sep: char)
    ensures
        text::split(s, sep).len() >= 1,
        s.contains(sep) ==> text::split(s, sep).len() >= 2,
        !s.contains(sep) ==> text::split(s, sep) == seq![s],
    decreases s.len(),
{
    if s.len() > 0 {
        let init = s.drop_last();
        lemma_split_without(init, sep);
        assert(init.push(s.last()) =~= s);
        if s.contains(sep) {
            let i = choose|i: int| 0 <= i < s.len() && s[i] == sep;
            if i < s.len() - 1 {
                assert(init[i] == sep);
            }
        } else {
            assert(!init.contains(sep)) by {
                if init.contains(sep) {
                    let i = choose|i: int| 0 <= i < init.len() && init[i] == sep;
                    assert(s[i] == sep);
                }
            }
            assert(s[s.len() - 1] != sep);
            assert(text::split(s, sep) =~= seq![s]);
        }
    } else {
        assert(s =~= Seq::empty());
    }
}

fn extract_table_row(line: &Vec<char>) -> (row: Vec<char>)
    requires
        !blank_row(line@),
    ensures
        row@ == table_row(line@),
{
    if is_separator_row(line) {
        return Vec::new();
    }
    let raw = text::split_on(line, '|');
    let mut parts: Vec<Vec<char>> = Vec::new();
    let mut i: usize = 0;
    while i < raw.len()
        invariant
            i <= raw.len(),
            parts.len() == i,
            text::views(raw@) == text::split(line@, '|'),
            forall|k: int| 0 <= k < i ==> #[trigger] parts@[k]@ == text::trim(raw@[k]@),
        decreases raw.len() - i,
    {
        parts.push(text::trimmed(&raw[i]));
        i += 1;
    }
    let ghost trimmed = text::split(line@, '|').map_values(|p: Seq<char>| text::trim(p));
    proof {
        assert(text::views(parts@) =~= trimmed) by {
            assert forall|k: int| 0 <= k < parts.len() implies text::views(parts@)[k] == trimmed[k] by {
                assert(text::views(raw@)[k] == raw@[k]@);
            }
        }
        lemma_blank_row(line@);
        assert(text::views(parts@)[0] == parts@[0]@);
        assert(text::views(parts@).last() == parts@[parts@.len() - 1]@);
        assert(text::views(raw@)[0] == raw@[0]@);
    }
    let start: usize = if parts[0].len() == 0 {
        1
    } else {
        0
    };
    let end: usize = if parts[parts.len() - 1].len() == 0 {
        parts.len() - 1
    } else {
        parts.len()
    };
    text::join_range(&parts, start, end, "\t")
}

} // verus!
