//! What holds of the Markdown filter as a whole.

use crate::chunk;
use crate::markdown_filter as md;
use crate::markdown_filter::{FilterState, InlineKind};
use crate::text;
use vstd::prelude::*;

verus! {

/// At the end of the text every step changes the state.
proof fn lemma_step_at_end(st: FilterState)
    requires
        st.buf.len() > 0,
    ensures
        md::filter_step(st, true) matches Some(next) ==> next.state != st,
{
    reveal(md::filter_step);
    let buf = st.buf;
    reveal_strlit("\n");
    reveal_strlit("```");
    text::lemma_find_from(buf, "\n"@, 0);
    text::lemma_find_from(buf, "\n"@, 3);
    if !st.fence && st.inline is None {
        md::lemma_run_length(buf, '#', false, 0);
        md::lemma_run_length(buf, buf[0], true, 0);
        md::lemma_body_scan(buf, 0);
    }
}

/// At the end of the text the filter handles all of it.
proof fn lemma_run_at_end(st: FilterState)
    ensures
        md::filter_run(st, true) matches Some(ran) ==> ran.state.buf.len() == 0,
    decreases md::weight(st), if st.sol { 1int } else { 0int },
{
    if st.buf.len() > 0 {
        lemma_step_at_end(st);
        md::lemma_step_progress(st, true);
        if let Some(next) = md::filter_step(st, true) {
            if next.state.buf.len() > 0 {
                lemma_run_at_end(next.state);
            }
        }
    }
}

/// A flush leaves nothing behind: no text and no open span, and flushing again gives nothing.
pub proof fn law_flush_leaves_nothing(st: FilterState)
    ensures
        md::pumped(st, true) matches Some(flushed) ==> {
            &&& flushed.state.buf.len() == 0
            &&& flushed.state.inline is None
            &&& md::pumped(flushed.state, true) == Some(md::quiet(flushed.state))
        },
{
    lemma_run_at_end(st);
    if let Some(flushed) = md::pumped(st, true) {
        assert(md::quiet(flushed.state).out + md::quiet(flushed.state).out =~= Seq::<char>::empty());
    }
}

/// A state in which no table row is open and no text holds a `|`.
pub open spec fn pipe_free(st: FilterState) -> bool {
    &&& !st.buf.contains('|')
    &&& st.inline matches Some(span) ==> span.kind != InlineKind::Table && !span.acc.contains('|')
}

proof fn lemma_skip_lacks(s: Seq<char>, n: int, c: char)
    requires
        !s.contains(c),
        0 <= n <= s.len(),
    ensures
        !s.skip(n).contains(c),
{
    if s.skip(n).contains(c) {
        let i = choose|i: int| 0 <= i < s.skip(n).len() && s.skip(n)[i] == c;
        assert(s[n + i] == c);
    }
}

proof fn lemma_add_lacks(a: Seq<char>, b: Seq<char>, c: char)
    requires
        !a.contains(c),
        !b.contains(c),
    ensures
        !(a + b).contains(c),
{
    if (a + b).contains(c) {
        let i = choose|i: int| 0 <= i < (a + b).len() && (a + b)[i] == c;
        if i < a.len() {
            assert(a[i] == c);
        } else {
            assert(b[i - a.len()] == c);
        }
    }
}

/// What follows a span is the end of the text collected in it.
pub proof fn lemma_span_rest(kind: InlineKind, acc: Seq<char>)
    ensures
        md::span_end(kind, acc) matches md::SpanEnd::Closed { out, rest, line_end } ==> rest.len()
            <= acc.len() && rest == acc.skip(acc.len() - rest.len()),
        kind != InlineKind::Table ==> !(md::span_end(kind, acc) is BlankRow),
{
    reveal_strlit("`");
    reveal_strlit("\n");
    reveal_strlit("~~");
    reveal_strlit("***");
    reveal_strlit("___");
    reveal_strlit("]");
    reveal_strlit(")");
    text::lemma_find_from(acc, "`"@, 0);
    text::lemma_find_from(acc, "\n"@, 0);
    text::lemma_find_from(acc, "~~"@, 0);
    text::lemma_find_from(acc, "***"@, 0);
    text::lemma_find_from(acc, "___"@, 0);
    text::lemma_find_from(acc, "]"@, 0);
    lemma_em_rest(acc, '*', 0);
    lemma_em_rest(acc, '_', 0);
    if let Some(cb) = text::find(acc, "]"@) {
        if cb + 1 < acc.len() {
            text::lemma_find_from(acc, ")"@, cb + 2);
        }
    }
}

proof fn lemma_em_rest(acc: Seq<char>, marker: char, j: int)
    requires
        0 <= j,
    ensures
        md::em_end(acc, marker, j) matches md::SpanEnd::Closed { out, rest, line_end } ==> rest.len()
            <= acc.len() && rest == acc.skip(acc.len() - rest.len()),
        !(md::em_end(acc, marker, j) is BlankRow),
    decreases acc.len() - j,
{
    if j < acc.len() {
        lemma_em_rest(acc, marker, j + 1);
        if j + 2 <= acc.len() {
            lemma_em_rest(acc, marker, j + 2);
        }
    }
}

proof fn lemma_step_without_pipes(st: FilterState, eof: bool)
    requires
        st.buf.len() > 0,
        pipe_free(st),
    ensures
        md::filter_step(st, eof) matches Some(next) && pipe_free(next.state),
{
    reveal(md::filter_step);
    let buf = st.buf;
    reveal_strlit("\n");
    reveal_strlit("```");
    text::lemma_find_from(buf, "\n"@, 0);
    text::lemma_find_from(buf, "\n"@, 3);
    assert forall|n: int| 0 <= n <= buf.len() implies !(#[trigger] buf.skip(n)).contains('|') by {
        lemma_skip_lacks(buf, n, '|');
    }
    assert(!Seq::<char>::empty().contains('|'));
    if st.fence {
    } else if let Some(span) = st.inline {
        let acc = span.acc + buf;
        lemma_add_lacks(span.acc, buf, '|');
        lemma_span_rest(span.kind, acc);
        if let md::SpanEnd::Closed { out, rest, line_end } = md::span_end(span.kind, acc) {
            lemma_skip_lacks(acc, acc.len() - rest.len(), '|');
        }
    } else if st.sol {
        md::lemma_run_length(buf, '#', false, 0);
        md::lemma_run_length(buf, buf[0], true, 0);
        assert(buf[0] != '|');
    } else {
        md::lemma_body_scan(buf, 0);
        lemma_body_opens_no_table(buf, 0);
    }
}

proof fn lemma_body_opens_no_table(s: Seq<char>, i: int)
    requires
        0 <= i,
    ensures
        md::body_scan(s, i) matches md::BodyStop::Open(k, n, kind) ==> kind != InlineKind::Table,
    decreases s.len() - i,
{
    if i < s.len() {
        lemma_body_opens_no_table(s, i + 1);
        if i + 2 <= s.len() {
            lemma_body_opens_no_table(s, i + 2);
        }
    }
}

proof fn lemma_run_without_pipes(st: FilterState, eof: bool)
    requires
        pipe_free(st),
    ensures
        md::filter_run(st, eof) matches Some(ran) && pipe_free(ran.state),
    decreases md::weight(st), if st.sol { 1int } else { 0int },
{
    if st.buf.len() > 0 {
        lemma_step_without_pipes(st, eof);
        md::lemma_step_progress(st, eof);
        if let Some(next) = md::filter_step(st, eof) {
            if next.state != st && next.state.buf.len() > 0 {
                lemma_run_without_pipes(next.state, eof);
            }
        }
    }
}

/// Text without a `|` is never refused, however it is cut into pieces.
pub proof fn law_text_without_pipes_is_never_refused(st: FilterState, delta: Seq<char>, eof: bool)
    requires
        pipe_free(st),
        !delta.contains('|'),
    ensures
        md::pumped(md::with_text(st, delta), eof) matches Some(step) && pipe_free(step.state),
{
    lemma_add_lacks(st.buf, delta, '|');
    lemma_run_without_pipes(md::with_text(st, delta), eof);
}

/// A whole text without a `|` is never refused.
pub proof fn law_whole_text_without_pipes_is_never_refused(text: Seq<char>)
    requires
        !text.contains('|'),
    ensures
        md::filtered(text) is Some,
{
    let st = md::initial_state();
    assert(!Seq::<char>::empty().contains('|'));
    law_text_without_pipes_is_never_refused(st, text, false);
    let fed = md::pumped(md::with_text(st, text), false)->0;
    law_text_without_pipes_is_never_refused(fed.state, Seq::empty(), true);
    assert(md::with_text(fed.state, Seq::empty()) =~= fed.state);
}

/// A run that ends in a text ends there as well when more comes after it.
pub proof fn lemma_run_length_stable(s: Seq<char>, more: Seq<char>, c: char, spaced: bool, from: int)
    requires
        0 <= from <= s.len(),
        from + md::run_length(s, c, spaced, from) < s.len(),
    ensures
        md::run_length(s + more, c, spaced, from) == md::run_length(s, c, spaced, from),
    decreases s.len() - from,
{
    let all = s + more;
    if from < s.len() {
        assert(all[from] == s[from]);
        if s[from] == c || (spaced && s[from] == ' ') {
            lemma_run_length_stable(s, more, c, spaced, from + 1);
        }
    }
}

/// A heading so deep that its marker is dropped.
pub open spec fn is_deep_heading(line: Seq<char>) -> bool {
    let n = md::run_length(line, '#', false, 0);
    5 <= n <= 6 && md::char_is(line, n, ' ')
}

/// A line of dashes, with or without spaces: it is dropped.
pub open spec fn is_dashed_rule(line: Seq<char>) -> bool {
    let j = md::run_length(line, '-', true, 0);
    (j == line.len() || md::char_is(line, j, '\n')) && md::count_of(line.take(j), '-') >= 3
}

/// A line, with all that follows it, that starts with nothing that is dropped.
pub open spec fn starts_plainly(line: Seq<char>) -> bool {
    &&& !md::char_is(line, 0, '>')
    &&& !md::char_is(line, 0, '|')
    &&& !is_deep_heading(line)
    &&& md::char_is(line, 0, '-') ==> !is_dashed_rule(line)
}

/// What stands at `i` opens no span.
pub open spec fn opens_no_span(s: Seq<char>, i: int) -> bool {
    &&& s[i] != '`' && s[i] != '*' && s[i] != '_'
    &&& s[i] == '!' ==> !md::char_is(s, i + 1, '[')
    &&& s[i] == '~' ==> !md::char_is(s, i + 1, '~')
}

/// Whether a line starts at `i`, in a text that starts one itself where `sol`.
pub open spec fn line_starts(s: Seq<char>, i: int, sol: bool) -> bool {
    if i == 0 {
        sol
    } else {
        s[i - 1] == '\n'
    }
}

/// Text without markers: nothing in it opens a span, and no line of it starts with a quote, a
/// table row, a deep heading or a rule.
pub open spec fn is_plain(s: Seq<char>, sol: bool) -> bool {
    forall|i: int|
        0 <= i < s.len() ==> #[trigger] opens_no_span(s, i) && (line_starts(s, i, sol)
            ==> starts_plainly(s.skip(i)))
}

/// A state outside code and spans whose text, with `more` to come, is plain.
pub open spec fn plain_state(st: FilterState, more: Seq<char>) -> bool {
    !st.fence && st.inline is None && is_plain(st.buf + more, st.sol)
}

proof fn lemma_plain_suffix(s: Seq<char>, sol: bool, n: int, then: bool)
    requires
        is_plain(s, sol),
        0 <= n <= s.len(),
        then ==> n > 0 && s[n - 1] == '\n',
    ensures
        is_plain(s.skip(n), then),
{
    let t = s.skip(n);
    assert forall|i: int| 0 <= i < t.len() implies #[trigger] opens_no_span(t, i) && (line_starts(
        t,
        i,
        then,
    ) ==> starts_plainly(t.skip(i))) by {
        assert(opens_no_span(s, n + i));
        assert(i + 1 < t.len() ==> t[i + 1] == s[n + i + 1]);
        assert(i > 0 ==> t[i - 1] == s[n + i - 1]);
        assert(t.skip(i) =~= s.skip(n + i));
    }
}

proof fn lemma_body_scan_plain(s: Seq<char>, more: Seq<char>, sol: bool, i: int)
    requires
        0 <= i,
        is_plain(s + more, sol),
    ensures
        match md::body_scan(s, i) {
            md::BodyStop::Newline(k) => i <= k < s.len() && s[k] == '\n',
            md::BodyStop::Open(k, n, kind) => false,
            md::BodyStop::End => true,
        },
    decreases s.len() - i,
{
    if i < s.len() {
        assert(opens_no_span(s + more, i));
        assert((s + more)[i] == s[i]);
        assert(i + 1 < s.len() ==> (s + more)[i + 1] == s[i + 1]);
        lemma_body_scan_plain(s, more, sol, i + 1);
    }
}

proof fn lemma_step_plain(st: FilterState, more: Seq<char>, eof: bool)
    requires
        st.buf.len() > 0,
        plain_state(st, more),
        eof ==> more.len() == 0,
    ensures
        md::filter_step(st, eof) matches Some(next) && plain_state(next.state, more) && next.out
            + next.state.buf == st.buf,
{
    reveal(md::filter_step);
    let buf = st.buf;
    let all = buf + more;
    assert(opens_no_span(all, 0));
    assert forall|i: int| 0 <= i < buf.len() implies all[i] == #[trigger] buf[i] by {}
    assert forall|n: int| 0 <= n <= buf.len() implies #[trigger] buf.skip(n) + more == all.skip(
        n,
    ) by {
        assert(buf.skip(n) + more =~= all.skip(n));
    }
    let next = md::filter_step(st, eof)->0;
    if st.sol {
        assert(all.skip(0) =~= all);
        assert(starts_plainly(all));
        lemma_plain_suffix(all, true, 0, false);
        md::lemma_run_length(buf, '#', false, 0);
        md::lemma_run_length(buf, '-', true, 0);
        if eof {
            assert(all =~= buf);
        }
        if buf[0] == '\n' {
            lemma_plain_suffix(all, true, 1, true);
            assert(seq!['\n'] + buf.skip(1) =~= buf);
        } else {
            let n = md::run_length(buf, '#', false, 0);
            if n < buf.len() {
                lemma_run_length_stable(buf, more, '#', false, 0);
                assert(all[n] == buf[n]);
            }
            let j = md::run_length(buf, '-', true, 0);
            if j < buf.len() {
                lemma_run_length_stable(buf, more, '-', true, 0);
                assert(all[j] == buf[j]);
                assert(all.take(j) =~= buf.take(j));
            }
            assert(next.out =~= Seq::<char>::empty());
            assert(next.state.buf == buf);
            assert(Seq::<char>::empty() + buf =~= buf);
        }
    } else {
        lemma_body_scan_plain(buf, more, st.sol, 0);
        match md::body_scan(buf, 0) {
            md::BodyStop::Newline(i) => {
                lemma_plain_suffix(all, false, i + 1, true);
                assert(buf.skip(i + 1) + more == all.skip(i + 1));
            },
            _ => {
                let n = buf.len() - next.state.buf.len();
                lemma_plain_suffix(all, false, n, false);
                assert(buf.skip(n) + more == all.skip(n));
            },
        }
        assert(next.out + next.state.buf =~= buf);
    }
}

proof fn lemma_run_plain(st: FilterState, more: Seq<char>, eof: bool)
    requires
        plain_state(st, more),
        eof ==> more.len() == 0,
    ensures
        md::filter_run(st, eof) matches Some(ran) && plain_state(ran.state, more) && ran.out
            + ran.state.buf == st.buf,
    decreases md::weight(st), if st.sol { 1int } else { 0int },
{
    if st.buf.len() > 0 {
        lemma_step_plain(st, more, eof);
        md::lemma_step_progress(st, eof);
        let next = md::filter_step(st, eof)->0;
        if next.state != st && next.state.buf.len() > 0 {
            lemma_run_plain(next.state, more, eof);
            let ran = md::filter_run(next.state, eof)->0;
            assert(next.out + ran.out + ran.state.buf =~= next.out + (ran.out + ran.state.buf));
        }
    } else {
        assert(Seq::<char>::empty() + st.buf =~= st.buf);
    }
}

/// What a filter gives out for pieces fed one after the other and a flush at the end.
pub open spec fn streamed(st: FilterState, pieces: Seq<Seq<char>>) -> Option<Seq<char>>
    decreases pieces.len(),
{
    if pieces.len() == 0 {
        match md::pumped(st, true) {
            Some(flushed) => Some(flushed.out),
            None => None,
        }
    } else {
        match md::pumped(md::with_text(st, pieces[0]), false) {
            None => None,
            Some(fed) => match streamed(fed.state, pieces.drop_first()) {
                Some(rest) => Some(fed.out + rest),
                None => None,
            },
        }
    }
}

/// The pieces put together.
pub open spec fn joined(pieces: Seq<Seq<char>>) -> Seq<char>
    decreases pieces.len(),
{
    if pieces.len() == 0 {
        Seq::empty()
    } else {
        pieces[0] + joined(pieces.drop_first())
    }
}

/// Plain text passes unchanged, however it is cut into pieces.
pub proof fn law_plain_text_passes(st: FilterState, pieces: Seq<Seq<char>>)
    requires
        plain_state(st, joined(pieces)),
    ensures
        streamed(st, pieces) == Some(st.buf + joined(pieces)),
    decreases pieces.len(),
{
    if pieces.len() == 0 {
        lemma_run_plain(st, Seq::empty(), true);
        lemma_run_at_end(st);
        let ran = md::filter_run(st, true)->0;
        assert(ran.out + ran.state.buf =~= ran.out);
        assert(ran.out + Seq::<char>::empty() =~= ran.out);
        assert(st.buf + Seq::<char>::empty() =~= st.buf);
    } else {
        let with = md::with_text(st, pieces[0]);
        let rest = joined(pieces.drop_first());
        assert(with.buf + rest =~= st.buf + joined(pieces));
        lemma_run_plain(with, rest, false);
        let fed = md::filter_run(with, false)->0;
        law_plain_text_passes(fed.state, pieces.drop_first());
        assert(fed.out + (fed.state.buf + rest) =~= fed.out + fed.state.buf + rest);
        assert(st.buf + pieces[0] + rest =~= st.buf + (pieces[0] + rest));
    }
}

/// A whole text fed in one piece is what [`md::filtered`] describes.
pub proof fn law_one_piece(text: Seq<char>)
    ensures
        md::filtered(text) == streamed(md::initial_state(), seq![text]),
{
    reveal_with_fuel(streamed, 2);
    assert(seq![text].drop_first() =~= Seq::<Seq<char>>::empty());
}

/// A whole plain text passes unchanged.
pub proof fn law_whole_plain_text_passes(text: Seq<char>)
    requires
        is_plain(text, true),
    ensures
        md::filtered(text) == Some(text),
{
    let pieces = seq![text];
    law_one_piece(text);
    reveal_with_fuel(joined, 2);
    assert(pieces.drop_first() =~= Seq::<Seq<char>>::empty());
    assert(Seq::<char>::empty() + (text + Seq::<char>::empty()) =~= text);
    law_plain_text_passes(md::initial_state(), pieces);
}

/// A line of code with its line end: anything but a closing fence.
pub open spec fn is_code_line(line: Seq<char>) -> bool {
    &&& line.len() > 0
    &&& line.last() == '\n'
    &&& !line.drop_last().contains('\n')
    &&& !text::occurs_at(line, "```"@, 0)
}

pub open spec fn all_code_lines(lines: Seq<Seq<char>>) -> bool {
    forall|i: int| 0 <= i < lines.len() ==> is_code_line(#[trigger] lines[i])
}

/// The first line end of a text is where its first line ends.
proof fn lemma_first_line(line: Seq<char>, rest: Seq<char>, from: int)
    requires
        0 <= from <= line.len(),
        !line.skip(from).contains('\n'),
    ensures
        text::find_from(line + seq!['\n'] + rest, "\n"@, from) == Some(line.len() as int),
{
    reveal_strlit("\n");
    let s = line + seq!['\n'] + rest;
    assert(s.subrange(line.len() as int, line.len() as int + 1) =~= "\n"@);
    assert forall|j: int| from <= j < line.len() implies !#[trigger] text::occurs_at(
        s,
        "\n"@,
        j,
    ) by {
        assert(line.skip(from)[j - from] == line[j]);
        assert(s.subrange(j, j + 1)[0] == line[j]);
    }
    text::lemma_find_from_is(s, "\n"@, from, line.len() as int);
}

/// A run is its first step and the run from there.
pub proof fn lemma_run_unfolds(st: FilterState)
    requires
        st.buf.len() > 0,
    ensures
        md::filter_run(st, false) == match md::filter_step(st, false) {
            None => None,
            Some(next) => if next.state == st {
                Some(next)
            } else {
                md::prepend(next.out, md::filter_run(next.state, false))
            },
        },
{
    if let Some(next) = md::filter_step(st, false) {
        if next.state != st && next.state.buf.len() == 0 {
            assert(next.out + Seq::<char>::empty() =~= next.out);
        }
    }
}

/// A closing fence is dropped with its line.
proof fn lemma_fence_closes(st: FilterState, after: Seq<char>, rest: Seq<char>)
    requires
        st.fence,
        st.sol,
        !after.contains('\n'),
        st.buf == "```"@ + after + seq!['\n'] + rest,
    ensures
        md::filter_run(st, false) == md::filter_run(
            FilterState { fence: false, buf: rest, ..st },
            false,
        ),
{
    reveal(md::filter_step);
    reveal_strlit("```");
    let buf = st.buf;
    let line = "```"@ + after;
    text::lemma_byte_len_bounds(buf);
    assert(buf.subrange(0, 3) =~= "```"@);
    assert(line.skip(3) =~= after);
    lemma_first_line(line, rest, 3);
    assert(buf.skip(line.len() as int + 1) =~= rest);
    lemma_run_unfolds(st);
    let next = FilterState { fence: false, buf: rest, ..st };
    if let Some(run) = md::filter_run(next, false) {
        assert(Seq::<char>::empty() + run.out =~= run.out);
    }
}

proof fn lemma_fenced_lines(st: FilterState, lines: Seq<Seq<char>>, after: Seq<char>, rest: Seq<char>)
    requires
        st.fence,
        st.sol,
        all_code_lines(lines),
        !after.contains('\n'),
        st.buf == chunk::concat(lines) + ("```"@ + after + seq!['\n'] + rest),
    ensures
        md::filter_run(st, false) == md::prepend(
            chunk::concat(lines),
            md::filter_run(FilterState { fence: false, buf: rest, ..st }, false),
        ),
    decreases lines.len(),
{
    let end = "```"@ + after + seq!['\n'] + rest;
    let closed = md::filter_run(FilterState { fence: false, buf: rest, ..st }, false);
    if lines.len() == 0 {
        assert(st.buf =~= end);
        lemma_fence_closes(st, after, rest);
        if let Some(run) = closed {
            assert(Seq::<char>::empty() + run.out =~= run.out);
        }
    } else {
        reveal(md::filter_step);
        reveal_strlit("```");
        let line = lines[0];
        let others = chunk::concat(lines.drop_first());
        let tail = others + end;
        let buf = st.buf;
        assert(is_code_line(line));
        assert(buf =~= line + tail);
        text::lemma_byte_len_bounds(buf);
        if text::occurs_at(buf, "```"@, 0) {
            assert(buf.subrange(0, 3) == "```"@);
            if line.len() >= 3 {
                assert(line.subrange(0, 3) =~= buf.subrange(0, 3));
            } else {
                assert(buf.subrange(0, 3)[line.len() - 1] == line.last());
            }
        }
        let bare = line.drop_last();
        assert(bare.skip(0) =~= bare);
        assert(buf =~= bare + seq!['\n'] + tail);
        lemma_first_line(bare, tail, 0);
        assert(buf.skip(line.len() as int) =~= tail);
        assert(buf.take(line.len() as int) =~= line);
        let next = FilterState { buf: tail, ..st };
        assert forall|i: int| 0 <= i < lines.drop_first().len() implies is_code_line(
            #[trigger] lines.drop_first()[i],
        ) by {
            assert(is_code_line(lines[i + 1]));
        }
        lemma_run_unfolds(st);
        lemma_fenced_lines(next, lines.drop_first(), after, rest);
        if let Some(run) = closed {
            assert(line + (others + run.out) =~= chunk::concat(lines) + run.out);
        }
    }
}

/// Lines of code between fences pass unchanged, whatever Markdown they look like, and the fences,
/// the name of the language and what stands behind the closing fence do not show. The text that
/// follows is filtered as if it stood alone.
pub proof fn law_fenced_code_passes(
    language: Seq<char>,
    lines: Seq<Seq<char>>,
    after: Seq<char>,
    rest: Seq<char>,
)
    requires
        !language.contains('\n'),
        all_code_lines(lines),
        !after.contains('\n'),
    ensures
        md::filtered(
            "```"@ + language + seq!['\n'] + chunk::concat(lines) + ("```"@ + after + seq!['\n']
                + rest),
        ) == match md::filtered(rest) {
            Some(shown) => Some(chunk::concat(lines) + shown),
            None => None,
        },
{
    reveal(md::filter_step);
    reveal_strlit("```");
    let code = chunk::concat(lines);
    let tail = code + ("```"@ + after + seq!['\n'] + rest);
    let text = "```"@ + language + seq!['\n'] + code + ("```"@ + after + seq!['\n'] + rest);
    let first = "```"@ + language;
    let st = md::with_text(md::initial_state(), text);
    assert(st.buf =~= text);
    assert(text =~= first + seq!['\n'] + tail);
    text::lemma_byte_len_bounds(text);
    assert(text.subrange(0, 3) =~= "```"@);
    assert(first.skip(3) =~= language);
    lemma_first_line(first, tail, 3);
    assert(text.skip(first.len() as int + 1) =~= tail);
    lemma_run_unfolds(st);
    let next = FilterState { buf: tail, fence: true, sol: true, inline: None };
    lemma_fenced_lines(next, lines, after, rest);
    let then = md::with_text(md::initial_state(), rest);
    assert(then =~= FilterState { buf: rest, fence: false, sol: true, inline: None });
    if let Some(run) = md::filter_run(then, false) {
        assert(Seq::<char>::empty() + (code + run.out) =~= code + run.out);
        if let Some(flushed) = md::pumped(run.state, true) {
            assert(code + run.out + flushed.out =~= code + (run.out + flushed.out));
        }
    }
}

} // verus!
