//! What WeChat users are shown of each kind of Markdown.
//!
//! [`after_text`] is what is shown of text inside a line, and [`md::filtered`] what is shown of text
//! at the start of one. The laws say of each construct what is shown of it, and that what follows is
//! shown as if it stood alone.

use crate::chunk;
use crate::markdown_filter as md;
use crate::markdown_filter::{FilterState, FilterStep, InlineKind, OpenSpan};
use crate::markdown_laws as laws;
use crate::markdown_streaming as streaming;
use crate::text;
use crate::text_laws;
use vstd::prelude::*;

verus! {

/// What is shown of `rest` behind a letter.
pub open spec fn after_text(rest: Seq<char>) -> Option<Seq<char>> {
    match md::filtered(seq!['x'] + rest) {
        Some(shown) => Some(shown.skip(1)),
        None => None,
    }
}

/// `shown` behind `first`.
pub open spec fn behind(first: Seq<char>, shown: Option<Seq<char>>) -> Option<Seq<char>> {
    match shown {
        Some(shown) => Some(first + shown),
        None => None,
    }
}

/// A character that opens nothing and ends no line.
pub open spec fn is_quiet(c: char) -> bool {
    c != '`' && c != '*' && c != '_' && c != '~' && c != '!' && c != '\n'
}

pub open spec fn all_quiet(s: Seq<char>) -> bool {
    forall|i: int| 0 <= i < s.len() ==> is_quiet(#[trigger] s[i])
}

pub open spec fn begins(s: Seq<char>, c: char) -> bool {
    s.len() > 0 && s[0] == c
}

pub open spec fn is_marker(c: char) -> bool {
    c == '*' || c == '_'
}

pub open spec fn stands_at(s: Seq<char>, mark: Seq<char>, i: int) -> bool {
    0 <= i && i + mark.len() <= s.len() && s.subrange(i, i + mark.len()) == mark
}

/// Whether `mark` behind `inner` is the first one.
pub open spec fn free_of(inner: Seq<char>, mark: Seq<char>) -> bool {
    forall|i: int| 0 <= i < inner.len() ==> !#[trigger] stands_at(inner + mark, mark, i)
}

/// A line in which `c` stands only twice in a row.
pub open spec fn is_paired(s: Seq<char>, c: char) -> bool
    decreases s.len(),
{
    if s.len() == 0 {
        true
    } else if s[0] == '\n' {
        false
    } else if s[0] == c {
        s.len() > 1 && s[1] == c && is_paired(s.skip(2), c)
    } else {
        is_paired(s.skip(1), c)
    }
}

spec fn in_line(rest: Seq<char>) -> FilterState {
    FilterState { buf: rest, fence: false, sol: false, inline: None }
}

spec fn at_start(rest: Seq<char>) -> FilterState {
    FilterState { buf: rest, fence: false, sol: true, inline: None }
}

spec fn in_span(kind: InlineKind, rest: Seq<char>) -> FilterState {
    FilterState {
        buf: rest,
        fence: false,
        sol: false,
        inline: Some(OpenSpan { kind, acc: Seq::empty() }),
    }
}

/// All that is given out by a run and the flush behind it.
spec fn finished(run: Option<FilterStep>) -> Option<Seq<char>> {
    match run {
        None => None,
        Some(run) => match md::pumped(run.state, true) {
            None => None,
            Some(flushed) => Some(run.out + flushed.out),
        },
    }
}

spec fn shown_from(st: FilterState) -> Option<Seq<char>> {
    finished(md::filter_run(st, false))
}

proof fn lemma_finished(out: Seq<char>, run: Option<FilterStep>)
    ensures
        finished(md::prepend(out, run)) == behind(out, finished(run)),
{
    if let Some(run) = run {
        if let Some(flushed) = md::pumped(run.state, true) {
            assert(out + run.out + flushed.out =~= out + (run.out + flushed.out));
        }
    }
}

proof fn lemma_filtered(t: Seq<char>)
    ensures
        md::filtered(t) == shown_from(at_start(t)),
{
    assert(md::with_text(md::initial_state(), t) =~= at_start(t));
}

/// One step, and what comes after it.
proof fn lemma_step(st: FilterState, next: FilterStep)
    requires
        st.buf.len() > 0,
        md::filter_step(st, false) == Some(next),
        next.state != st,
    ensures
        shown_from(st) == behind(next.out, shown_from(next.state)),
{
    laws::lemma_run_unfolds(st);
    lemma_finished(next.out, md::filter_run(next.state, false));
}

proof fn lemma_quiet_step(st: FilterState, next: FilterState)
    requires
        st.buf.len() > 0,
        md::filter_step(st, false) == Some(md::quiet(next)),
        next != st,
    ensures
        shown_from(st) == shown_from(next),
{
    lemma_step(st, md::quiet(next));
    if let Some(shown) = shown_from(next) {
        assert(Seq::<char>::empty() + shown =~= shown);
    }
}

/// Nothing is shown of nothing.
proof fn lemma_nothing()
    ensures
        shown_from(in_line(Seq::empty())) == Some(Seq::<char>::empty()),
        shown_from(at_start(Seq::empty())) == Some(Seq::<char>::empty()),
{
    assert(Seq::<char>::empty() + Seq::<char>::empty() =~= Seq::<char>::empty());
}

proof fn lemma_scan_quiet(x: Seq<char>, rest: Seq<char>, i: int)
    requires
        all_quiet(x),
        0 <= i <= x.len(),
    ensures
        md::body_scan(x + rest, i) == md::body_scan(x + rest, x.len() as int),
    decreases x.len() - i,
{
    if i < x.len() {
        assert((x + rest)[i] == x[i]);
        assert(is_quiet(x[i]));
        lemma_scan_quiet(x, rest, i + 1);
    }
}

/// Text that running text passes over.
proof fn lemma_passed(x: Seq<char>, rest: Seq<char>)
    requires
        x.len() > 0,
        md::body_scan(x + rest, 0) == md::body_scan(x + rest, x.len() as int),
        rest.len() > 0 ==> md::held_back(x + rest) == md::held_back(rest),
        rest.len() == 0 ==> md::held_back(x) == 0 || md::held_back(x) == x.len(),
    ensures
        shown_from(in_line(x + rest)) == behind(x, shown_from(in_line(rest))),
{
    reveal(md::filter_step);
    let all = x + rest;
    streaming::lemma_body_shift(x, rest, 0);
    if rest.len() > 0 {
        streaming::lemma_inert_prefix(in_line(all), in_line(rest), x, rest, false);
        lemma_finished(x, md::filter_run(in_line(rest), false));
    } else {
        assert(all =~= x);
        lemma_nothing();
        assert(x + Seq::<char>::empty() =~= x);
        if md::held_back(x) == 0 {
            let next = FilterStep { state: in_line(Seq::empty()), out: x };
            assert(x.skip(x.len() as int) =~= Seq::<char>::empty());
            assert(x.take(x.len() as int) =~= x);
            lemma_step(in_line(x), next);
        } else {
            let st = in_line(x);
            assert(x.skip(0) =~= x);
            assert(x.take(0) =~= Seq::<char>::empty());
            laws::lemma_run_unfolds(st);
            assert(md::filter_run(st, false) == Some(md::quiet(st)));
            assert(x.skip(x.len() as int) =~= Seq::<char>::empty());
            assert(x.take(x.len() as int) =~= x);
            assert(md::filter_run(st, true) == Some(
                FilterStep { state: in_line(Seq::empty()), out: x },
            ));
            assert(Seq::<char>::empty() + (x + Seq::<char>::empty()) =~= x);
        }
    }
}

proof fn lemma_quiet_prefix(x: Seq<char>, rest: Seq<char>)
    requires
        all_quiet(x),
        x.len() > 0,
    ensures
        shown_from(in_line(x + rest)) == behind(x, shown_from(in_line(rest))),
{
    lemma_scan_quiet(x, rest, 0);
    let all = x + rest;
    assert(is_quiet(x[x.len() - 1]));
    if rest.len() > 0 {
        assert(all[all.len() - 1] == rest[rest.len() - 1]);
        assert(rest.len() >= 2 ==> all[all.len() - 2] == rest[rest.len() - 2]);
        assert(rest.len() == 1 ==> all[all.len() - 2] == x[x.len() - 1]);
    }
    lemma_passed(x, rest);
}

/// A text that starts a line as it would go on.
proof fn lemma_starts_as_text(t: Seq<char>)
    requires
        t.len() > 0,
        t[0] != '\n' && t[0] != '`' && t[0] != '>' && t[0] != '#' && t[0] != '|' && t[0] != ' '
            && t[0] != '\t' && t[0] != '-' && t[0] != '*' && t[0] != '_',
    ensures
        shown_from(at_start(t)) == shown_from(in_line(t)),
{
    reveal(md::filter_step);
    lemma_quiet_step(at_start(t), in_line(t));
}

proof fn lemma_after_text(rest: Seq<char>)
    ensures
        after_text(rest) == shown_from(in_line(rest)),
{
    let x = seq!['x'];
    lemma_filtered(x + rest);
    lemma_starts_as_text(x + rest);
    lemma_quiet_prefix(x, rest);
    if let Some(shown) = shown_from(in_line(rest)) {
        assert((x + shown).skip(1) =~= shown);
    }
}

/// Text without markers is shown as it is.
pub proof fn law_text_is_shown(x: Seq<char>, rest: Seq<char>)
    requires
        all_quiet(x),
    ensures
        after_text(x + rest) == behind(x, after_text(rest)),
        after_text(Seq::empty()) == Some(Seq::<char>::empty()),
        md::filtered(Seq::empty()) == Some(Seq::<char>::empty()),
{
    lemma_after_text(x + rest);
    lemma_after_text(rest);
    lemma_after_text(Seq::empty());
    lemma_filtered(Seq::empty());
    lemma_nothing();
    if x.len() > 0 {
        lemma_quiet_prefix(x, rest);
    } else {
        assert(x + rest =~= rest);
        if let Some(shown) = after_text(rest) {
            assert(x + shown =~= shown);
        }
    }
}

/// A line end is shown, and a new line starts behind it.
pub proof fn law_line_ends_are_shown(rest: Seq<char>)
    ensures
        after_text(seq!['\n'] + rest) == behind(seq!['\n'], md::filtered(rest)),
        md::filtered(seq!['\n'] + rest) == behind(seq!['\n'], md::filtered(rest)),
{
    reveal(md::filter_step);
    let t = seq!['\n'] + rest;
    lemma_after_text(t);
    lemma_filtered(rest);
    lemma_filtered(t);
    assert(t.skip(1) =~= rest);
    assert(t.take(1) =~= seq!['\n']);
    let next = FilterStep { state: at_start(rest), out: seq!['\n'] };
    lemma_step(in_line(t), next);
    assert(md::filter_step(at_start(t), false) == Some(next));
    lemma_step(at_start(t), next);
}

/// The step that opens a span.
proof fn lemma_opens(marker: Seq<char>, kind: InlineKind, behind_it: Seq<char>)
    requires
        marker.len() > 0,
        md::body_scan(marker + behind_it, 0) == md::BodyStop::Open(0, marker.len() as int, kind),
    ensures
        shown_from(in_line(marker + behind_it)) == shown_from(in_span(kind, behind_it)),
{
    reveal(md::filter_step);
    let t = marker + behind_it;
    assert(t.skip(marker.len() as int) =~= behind_it);
    assert(t.take(0) =~= Seq::<char>::empty());
    lemma_quiet_step(in_line(t), in_span(kind, behind_it));
}

/// The step that closes a span inside a line.
proof fn lemma_closes(kind: InlineKind, buf: Seq<char>, out: Seq<char>, rest: Seq<char>)
    requires
        buf.len() > 0,
        md::span_end(kind, buf) == (md::SpanEnd::Closed { out, rest, line_end: false }),
    ensures
        shown_from(in_span(kind, buf)) == behind(out, shown_from(in_line(rest))),
{
    reveal(md::filter_step);
    assert(Seq::<char>::empty() + buf =~= buf);
    lemma_step(in_span(kind, buf), FilterStep { state: in_line(rest), out });
}

/// The step that closes a span with its line.
proof fn lemma_closes_with_line(kind: InlineKind, buf: Seq<char>, out: Seq<char>, rest: Seq<char>)
    requires
        buf.len() > 0,
        md::span_end(kind, buf) == (md::SpanEnd::Closed { out, rest, line_end: true }),
    ensures
        shown_from(in_span(kind, buf)) == behind(out, shown_from(at_start(rest))),
{
    reveal(md::filter_step);
    assert(Seq::<char>::empty() + buf =~= buf);
    lemma_step(in_span(kind, buf), FilterStep { state: at_start(rest), out });
}

/// A span that never ends.
proof fn lemma_stays_open(kind: InlineKind, buf: Seq<char>)
    requires
        buf.len() > 0 ==> md::span_end(kind, buf) is Open,
        kind != InlineKind::Table,
    ensures
        shown_from(in_span(kind, buf)) == Some(md::marker_of(kind) + buf),
{
    reveal(md::filter_step);
    let st = in_span(kind, buf);
    let end = FilterState {
        buf: Seq::empty(),
        inline: Some(OpenSpan { kind, acc: buf }),
        ..st
    };
    assert(Seq::<char>::empty() + buf =~= buf);
    if buf.len() > 0 {
        lemma_quiet_step(st, end);
    } else {
        assert(st =~= end);
    }
    let out = md::marker_of(kind) + buf;
    assert(md::pumped(end, true) == Some(
        FilterStep { state: in_line(Seq::empty()), out: Seq::<char>::empty() + out },
    ));
    assert(Seq::<char>::empty() + (Seq::<char>::empty() + out) =~= out);
}

/// Where `mark` first stands.
proof fn lemma_first_mark(inner: Seq<char>, mark: Seq<char>, rest: Seq<char>)
    requires
        mark.len() > 0,
        free_of(inner, mark),
    ensures
        text::find(inner + mark + rest, mark) == Some(inner.len() as int),
        (inner + mark + rest).take(inner.len() as int) == inner,
        (inner + mark + rest).skip(inner.len() + mark.len() as int) == rest,
        text::find(inner, mark) is None,
{
    let t = inner + mark + rest;
    let n = inner.len() as int;
    assert(t.subrange(n, n + mark.len()) =~= mark);
    assert forall|j: int| 0 <= j < n implies !#[trigger] text::occurs_at(t, mark, j) by {
        assert(!stands_at(inner + mark, mark, j));
        assert((inner + mark).subrange(j, j + mark.len()) =~= t.subrange(j, j + mark.len()));
    }
    text::lemma_find_from_is(t, mark, 0, n);
    assert(t.take(n) =~= inner);
    assert(t.skip(n + mark.len()) =~= rest);
    text::lemma_find_from(inner, mark, 0);
    if let Some(i) = text::find(inner, mark) {
        assert(!stands_at(inner + mark, mark, i));
        assert((inner + mark).subrange(i, i + mark.len()) =~= inner.subrange(i, i + mark.len()));
    }
}

/// Where `mark` first stands.
proof fn lemma_first(inner: Seq<char>, mark: Seq<char>, rest: Seq<char>)
    requires
        mark.len() > 0,
        !inner.contains(mark[0]),
    ensures
        text::find(inner + mark + rest, mark) == Some(inner.len() as int),
        (inner + mark + rest).take(inner.len() as int) == inner,
        (inner + mark + rest).skip(inner.len() + mark.len() as int) == rest,
{
    let t = inner + mark + rest;
    let n = inner.len() as int;
    assert(t.subrange(n, n + mark.len()) =~= mark);
    assert forall|j: int| 0 <= j < n implies !#[trigger] text::occurs_at(t, mark, j) by {
        if text::occurs_at(t, mark, j) {
            assert(t.subrange(j, j + mark.len())[0] == t[j]);
            assert(inner[j] == mark[0]);
        }
    }
    text::lemma_find_from_is(t, mark, 0, n);
    assert(t.take(n) =~= inner);
    assert(t.skip(n + mark.len()) =~= rest);
}

/// What does not hold the first character of `mark` does not hold `mark`.
proof fn lemma_never(s: Seq<char>, mark: Seq<char>)
    requires
        mark.len() > 0,
        !s.contains(mark[0]),
    ensures
        text::find(s, mark) is None,
{
    text::lemma_find_from(s, mark, 0);
    if let Some(i) = text::find(s, mark) {
        assert(s.subrange(i, i + mark.len())[0] == s[i]);
    }
}

proof fn lemma_marks()
    ensures
        "`"@ == seq!['`'],
        "\n"@ == seq!['\n'],
        "~~"@ == seq!['~', '~'],
        "***"@ == seq!['*', '*', '*'],
        "___"@ == seq!['_', '_', '_'],
        "*"@ == seq!['*'],
        "_"@ == seq!['_'],
        "!["@ == seq!['!', '['],
        "]"@ == seq![']'],
        ")"@ == seq![')'],
        "```"@ == seq!['`', '`', '`'],
        "\t"@ == seq!['\t'],
{
    reveal_strlit("`");
    reveal_strlit("\n");
    reveal_strlit("~~");
    reveal_strlit("***");
    reveal_strlit("___");
    reveal_strlit("*");
    reveal_strlit("_");
    reveal_strlit("![");
    reveal_strlit("]");
    reveal_strlit(")");
    reveal_strlit("```");
    reveal_strlit("\t");
    assert("`"@ =~= seq!['`']);
    assert("\n"@ =~= seq!['\n']);
    assert("~~"@ =~= seq!['~', '~']);
    assert("***"@ =~= seq!['*', '*', '*']);
    assert("___"@ =~= seq!['_', '_', '_']);
    assert("*"@ =~= seq!['*']);
    assert("_"@ =~= seq!['_']);
    assert("!["@ =~= seq!['!', '[']);
    assert("]"@ =~= seq![']']);
    assert(")"@ =~= seq![')']);
    assert("```"@ =~= seq!['`', '`', '`']);
    assert("\t"@ =~= seq!['\t']);
}

/// Inline code is shown without its backticks, whatever it holds. Without a second one the first is
/// shown as well.
pub proof fn law_inline_code_is_shown(inner: Seq<char>, rest: Seq<char>)
    requires
        !inner.contains('`'),
    ensures
        after_text(seq!['`'] + (inner + seq!['`'] + rest)) == behind(inner, after_text(rest)),
        !inner.contains('\n') ==> after_text(seq!['`'] + inner) == Some(seq!['`'] + inner),
        !inner.contains('\n') && !rest.contains('`') ==> after_text(
            seq!['`'] + (inner + seq!['\n'] + rest),
        ) == behind(seq!['`'] + inner + seq!['\n'], md::filtered(rest)),
{
    lemma_marks();
    let tick = seq!['`'];
    let nl = seq!['\n'];
    let closed = inner + tick + rest;
    lemma_after_text(tick + closed);
    lemma_after_text(rest);
    lemma_opens(tick, InlineKind::Code, closed);
    lemma_first(inner, tick, rest);
    lemma_closes(InlineKind::Code, closed, inner, rest);
    if !inner.contains('\n') {
        lemma_after_text(tick + inner);
        lemma_opens(tick, InlineKind::Code, inner);
        lemma_never(inner, tick);
        lemma_never(inner, nl);
        lemma_stays_open(InlineKind::Code, inner);
        if !rest.contains('`') {
            let line = inner + nl + rest;
            lemma_after_text(tick + line);
            lemma_opens(tick, InlineKind::Code, line);
            lemma_first(inner, nl, rest);
            assert(!line.contains('`')) by {
                if line.contains('`') {
                    let i = choose|i: int| 0 <= i < line.len() && line[i] == '`';
                    if i < inner.len() {
                        assert(inner[i] == '`');
                    } else if i > inner.len() {
                        assert(rest[i - inner.len() - 1] == '`');
                    }
                }
            }
            lemma_never(line, tick);
            assert(line.take(inner.len() as int + 1) =~= inner + nl);
            assert(tick + (inner + nl) =~= tick + inner + nl);
            lemma_closes_with_line(InlineKind::Code, line, tick + inner + nl, rest);
            lemma_filtered(rest);
        }
    }
}

/// Struck text is shown without its tildes; where it does not end, they are shown.
pub proof fn law_struck_text_is_shown(inner: Seq<char>, rest: Seq<char>)
    requires
        free_of(inner, seq!['~', '~']),
    ensures
        after_text(seq!['~', '~'] + (inner + seq!['~', '~'] + rest)) == behind(
            inner,
            after_text(rest),
        ),
        after_text(seq!['~', '~'] + inner) == Some(seq!['~', '~'] + inner),
{
    lemma_marks();
    let mark = seq!['~', '~'];
    let closed = inner + mark + rest;
    lemma_after_text(mark + closed);
    lemma_after_text(rest);
    lemma_opens(mark, InlineKind::Strike, closed);
    lemma_first_mark(inner, mark, rest);
    lemma_closes(InlineKind::Strike, closed, inner, rest);
    lemma_after_text(mark + inner);
    lemma_opens(mark, InlineKind::Strike, inner);
    lemma_stays_open(InlineKind::Strike, inner);
}

/// Text between three markers is shown without them; where it does not end, they are shown.
pub proof fn law_strong_emphasis_is_shown(c: char, inner: Seq<char>, rest: Seq<char>)
    requires
        is_marker(c),
        free_of(inner, seq![c, c, c]),
    ensures
        after_text(seq![c, c, c] + (inner + seq![c, c, c] + rest)) == behind(
            inner,
            after_text(rest),
        ),
        after_text(seq![c, c, c] + inner) == Some(seq![c, c, c] + inner),
{
    lemma_marks();
    let mark = seq![c, c, c];
    let kind = if c == '*' {
        InlineKind::Bold3
    } else {
        InlineKind::UBold3
    };
    let closed = inner + mark + rest;
    lemma_after_text(mark + closed);
    lemma_after_text(rest);
    lemma_opens(mark, kind, closed);
    lemma_first_mark(inner, mark, rest);
    lemma_closes(kind, closed, inner, rest);
    lemma_after_text(mark + inner);
    lemma_opens(mark, kind, inner);
    lemma_stays_open(kind, inner);
}

proof fn lemma_em_end(inner: Seq<char>, c: char, end: Seq<char>, j: int)
    requires
        is_marker(c),
        0 <= j <= inner.len(),
        is_paired(inner.skip(j), c),
    ensures
        md::em_end(inner + end, c, j) == md::em_end(inner + end, c, inner.len() as int),
    decreases inner.len() - j,
{
    if j < inner.len() {
        let rest = inner.skip(j);
        assert((inner + end)[j] == rest[0]);
        if rest[0] == c {
            assert((inner + end)[j + 1] == rest[1]);
            assert(rest.skip(2) =~= inner.skip(j + 2));
            lemma_em_end(inner, c, end, j + 2);
        } else {
            assert(rest.skip(1) =~= inner.skip(j + 1));
            lemma_em_end(inner, c, end, j + 1);
        }
    }
}

/// Text between single markers is shown without them, and with the doubled ones in it. Where its line
/// ends first, or the text does, the marker is shown.
pub proof fn law_emphasis_is_shown(c: char, inner: Seq<char>, rest: Seq<char>)
    requires
        is_marker(c),
        inner.len() > 0,
        inner[0] != ' ',
        inner[0] != c,
        is_paired(inner, c),
    ensures
        !begins(rest, c) ==> after_text(seq![c] + (inner + seq![c] + rest)) == behind(
            inner,
            after_text(rest),
        ),
        after_text(seq![c] + (inner + seq!['\n'] + rest)) == behind(
            seq![c] + inner + seq!['\n'],
            md::filtered(rest),
        ),
        after_text(seq![c] + inner) == Some(seq![c] + inner),
{
    lemma_marks();
    let mark = seq![c];
    let nl = seq!['\n'];
    let kind = if c == '*' {
        InlineKind::Italic
    } else {
        InlineKind::UItalic
    };
    let n = inner.len() as int;
    assert(inner.skip(0) =~= inner);
    if !begins(rest, c) {
        let closed = inner + mark + rest;
        assert(closed[0] == inner[0]);
        assert((mark + closed)[1] == inner[0]);
        lemma_after_text(mark + closed);
        lemma_after_text(rest);
        lemma_opens(mark, kind, closed);
        assert(closed =~= inner + (mark + rest));
        lemma_em_end(inner, c, mark + rest, 0);
        assert(closed[n] == c);
        assert(n + 1 < closed.len() ==> closed[n + 1] == rest[0]);
        assert(closed.take(n) =~= inner);
        assert(closed.skip(n + 1) =~= rest);
        lemma_closes(kind, closed, inner, rest);
    }
    let line = inner + nl + rest;
    assert((mark + line)[1] == inner[0]);
    lemma_after_text(mark + line);
    lemma_filtered(rest);
    lemma_opens(mark, kind, line);
    assert(line =~= inner + (nl + rest));
    lemma_em_end(inner, c, nl + rest, 0);
    assert(line[n] == '\n');
    assert(line.take(n + 1) =~= inner + nl);
    assert(line.skip(n + 1) =~= rest);
    assert(mark + (inner + nl) =~= mark + inner + nl);
    lemma_closes_with_line(kind, line, mark + inner + nl, rest);
    assert((mark + inner)[1] == inner[0]);
    lemma_after_text(mark + inner);
    lemma_opens(mark, kind, inner);
    assert(inner + Seq::<char>::empty() =~= inner);
    lemma_em_end(inner, c, Seq::empty(), 0);
    lemma_stays_open(kind, inner);
}

/// Doubled markers are shown, and so is a single one that nothing is joined to, an exclamation mark
/// without a bracket and a single tilde.
pub proof fn law_other_marks_are_shown(c: char, rest: Seq<char>)
    ensures
        is_marker(c) && !begins(rest, c) ==> after_text(seq![c, c] + rest) == behind(
            seq![c, c],
            after_text(rest),
        ),
        is_marker(c) && (rest.len() == 0 || rest[0] == ' ' || rest[0] == '\n') ==> after_text(
            seq![c] + rest,
        ) == behind(seq![c], after_text(rest)),
        !begins(rest, '[') ==> after_text(seq!['!'] + rest) == behind(
            seq!['!'],
            after_text(rest),
        ),
        !begins(rest, '~') ==> after_text(seq!['~'] + rest) == behind(
            seq!['~'],
            after_text(rest),
        ),
{
    lemma_after_text(rest);
    let n = rest.len() as int;
    if is_marker(c) && !begins(rest, c) {
        let x = seq![c, c];
        let all = x + rest;
        lemma_after_text(all);
        assert(all[0] == c && all[1] == c);
        assert(n > 0 ==> all[2] == rest[0]);
        assert(n > 0 ==> all[all.len() - 1] == rest[n - 1]);
        assert(n > 1 ==> all[all.len() - 2] == rest[n - 2]);
        lemma_passed(x, rest);
    }
    if is_marker(c) && (rest.len() == 0 || rest[0] == ' ' || rest[0] == '\n') {
        let x = seq![c];
        let all = x + rest;
        lemma_after_text(all);
        assert(all[0] == c);
        assert(n > 0 ==> all[1] == rest[0]);
        assert(n > 0 ==> all[all.len() - 1] == rest[n - 1]);
        assert(n > 1 ==> all[all.len() - 2] == rest[n - 2]);
        lemma_passed(x, rest);
    }
    if !begins(rest, '[') {
        lemma_single('!', rest);
    }
    if !begins(rest, '~') {
        lemma_single('~', rest);
    }
}

proof fn lemma_single(c: char, rest: Seq<char>)
    requires
        c == '!' && !begins(rest, '[') || c == '~' && !begins(rest, '~'),
    ensures
        after_text(seq![c] + rest) == behind(seq![c], after_text(rest)),
{
    let x = seq![c];
    let all = x + rest;
    let n = rest.len() as int;
    lemma_after_text(rest);
    lemma_after_text(all);
    assert(all[0] == c);
    assert(n > 0 ==> all[1] == rest[0]);
    assert(n > 0 ==> all[all.len() - 1] == rest[n - 1]);
    assert(n > 1 ==> all[all.len() - 2] == rest[n - 2]);
    lemma_passed(x, rest);
}

/// An image with its address is not shown. Without an address it is shown as it is written, and so
/// it is where it does not end.
pub proof fn law_images_are_dropped(alt: Seq<char>, address: Seq<char>, rest: Seq<char>)
    requires
        !alt.contains(']'),
        !address.contains(')'),
    ensures
        after_text(
            seq!['!', '['] + (alt + seq![']'] + (seq!['('] + (address + seq![')'] + rest))),
        ) == after_text(rest),
        rest.len() > 0 && rest[0] != '(' ==> after_text(seq!['!', '['] + (alt + seq![']'] + rest))
            == behind(seq!['!', '['] + alt + seq![']'], after_text(rest)),
        after_text(seq!['!', '['] + alt) == Some(seq!['!', '['] + alt),
        after_text(seq!['!', '['] + (alt + seq![']'])) == Some(seq!['!', '['] + (alt + seq![']'])),
        after_text(seq!['!', '['] + (alt + seq![']'] + (seq!['('] + address))) == Some(
            seq!['!', '['] + (alt + seq![']'] + (seq!['('] + address)),
        ),
{
    lemma_marks();
    let mark = seq!['!', '['];
    let kind = InlineKind::Image;
    let n = alt.len() as int;
    let tail = address + seq![')'] + rest;
    let closed = alt + seq![']'] + (seq!['('] + tail);
    lemma_after_text(rest);
    lemma_after_text(mark + closed);
    lemma_opens(mark, kind, closed);
    lemma_first(alt, seq![']'], seq!['('] + tail);
    assert(closed[n + 1] == '(');
    let cp = n + 2 + address.len();
    assert(closed.subrange(cp, cp + 1) =~= seq![')']);
    assert forall|j: int| n + 2 <= j < cp implies !#[trigger] text::occurs_at(
        closed,
        seq![')'],
        j,
    ) by {
        assert(closed.subrange(j, j + 1)[0] == address[j - n - 2]);
    }
    text::lemma_find_from_is(closed, seq![')'], n + 2, cp);
    assert(closed.skip(cp + 1) =~= rest);
    lemma_closes(kind, closed, Seq::empty(), rest);
    if let Some(shown) = after_text(rest) {
        assert(Seq::<char>::empty() + shown =~= shown);
    }
    if rest.len() > 0 && rest[0] != '(' {
        let bare = alt + seq![']'] + rest;
        lemma_after_text(mark + bare);
        lemma_opens(mark, kind, bare);
        lemma_first(alt, seq![']'], rest);
        assert(bare[n + 1] == rest[0]);
        assert(bare.take(n + 1) =~= alt + seq![']']);
        assert(mark + (alt + seq![']']) =~= mark + alt + seq![']']);
        lemma_closes(kind, bare, mark + alt + seq![']'], rest);
    }
    lemma_after_text(mark + alt);
    lemma_opens(mark, kind, alt);
    lemma_never(alt, seq![']']);
    lemma_stays_open(kind, alt);
    lemma_open_images(alt, address);
}

proof fn lemma_open_images(alt: Seq<char>, address: Seq<char>)
    requires
        !alt.contains(']'),
        !address.contains(')'),
    ensures
        after_text(seq!['!', '['] + (alt + seq![']'])) == Some(seq!['!', '['] + (alt + seq![']'])),
        after_text(seq!['!', '['] + (alt + seq![']'] + (seq!['('] + address))) == Some(
            seq!['!', '['] + (alt + seq![']'] + (seq!['('] + address)),
        ),
{
    lemma_marks();
    let mark = seq!['!', '['];
    let kind = InlineKind::Image;
    let n = alt.len() as int;
    let e = Seq::<char>::empty();
    let bare = alt + seq![']'];
    assert(bare + e =~= bare);
    lemma_first(alt, seq![']'], e);
    lemma_after_text(mark + bare);
    lemma_opens(mark, kind, bare);
    lemma_stays_open(kind, bare);
    let open = alt + seq![']'] + (seq!['('] + address);
    lemma_first(alt, seq![']'], seq!['('] + address);
    lemma_after_text(mark + open);
    lemma_opens(mark, kind, open);
    assert(open[n + 1] == '(');
    text::lemma_find_from(open, seq![')'], n + 2);
    if let Some(i) = text::find_from(open, seq![')'], n + 2) {
        assert(open.subrange(i, i + 1)[0] == address[i - n - 2]);
    }
    lemma_stays_open(kind, open);
}

/// Any other text is shown at the start of a line as it is shown inside one: text that starts with
/// none of the characters that mean something there, a single marker with text joined to it, inline
/// code, and text behind white space.
pub proof fn law_lines_start_like_text(t: Seq<char>)
    requires
        t.len() > 0,
        ({
            ||| t[0] != '\n' && t[0] != '`' && t[0] != '>' && t[0] != '#' && t[0] != '|' && t[0] != ' '
                && t[0] != '\t' && t[0] != '-' && t[0] != '*' && t[0] != '_'
            ||| is_marker(t[0]) && t.len() > 1 && t[1] != t[0] && t[1] != ' ' && t[1] != '\n'
            ||| t[0] == '`' && t.len() > 2 && !(t[1] == '`' && t[2] == '`')
            ||| (t[0] == ' ' || t[0] == '\t') && exists|i: int|
                0 <= i < t.len() && #[trigger] t[i] != ' ' && t[i] != '\t'
        }),
    ensures
        md::filtered(t) == after_text(t),
{
    reveal(md::filter_step);
    lemma_marks();
    lemma_filtered(t);
    lemma_after_text(t);
    if is_marker(t[0]) {
        reveal_with_fuel(md::run_length, 3);
        assert(md::run_length(t, t[0], true, 0) == 1);
    } else if t[0] == '`' {
        text::lemma_byte_len_bounds(t);
        if text::occurs_at(t, "```"@, 0) {
            assert(t.subrange(0, 3)[1] == t[1] && t.subrange(0, 3)[2] == t[2]);
        }
    } else if t[0] == ' ' || t[0] == '\t' {
        let i = choose|i: int| 0 <= i < t.len() && #[trigger] t[i] != ' ' && t[i] != '\t';
        assert(!md::all_blank(t));
    }
    lemma_quiet_step(at_start(t), in_line(t));
}

/// The mark of a quote and one space behind it are not shown.
pub proof fn law_quotes_are_shown(rest: Seq<char>)
    ensures
        md::filtered(seq!['>', ' '] + rest) == after_text(rest),
        !begins(rest, ' ') ==> md::filtered(seq!['>'] + rest) == after_text(rest),
{
    reveal(md::filter_step);
    lemma_after_text(rest);
    let spaced = seq!['>', ' '] + rest;
    lemma_filtered(spaced);
    text::lemma_byte_len_bounds(spaced);
    assert(spaced.skip(2) =~= rest);
    assert(spaced[0] == '>' && spaced[1] == ' ');
    lemma_quiet_step(at_start(spaced), in_line(rest));
    if !begins(rest, ' ') {
        let t = seq!['>'] + rest;
        lemma_filtered(t);
        text::lemma_byte_len_bounds(t);
        assert(t.skip(1) =~= rest);
        assert(rest.len() > 0 ==> t[1] == rest[0]);
        if rest.len() > 0 {
            lemma_quiet_step(at_start(t), in_line(rest));
        } else {
            assert(rest =~= Seq::<char>::empty());
            assert(t =~= Seq::<char>::empty().push('>'));
            text::lemma_byte_len_push(Seq::empty(), '>');
            let st = at_start(t);
            laws::lemma_run_unfolds(st);
            assert(md::filter_run(st, false) == Some(md::quiet(st)));
            assert(md::filter_run(st, true) == Some(md::quiet(in_line(Seq::empty()))));
            lemma_nothing();
            assert(Seq::<char>::empty() + (Seq::<char>::empty() + Seq::<char>::empty())
                =~= Seq::<char>::empty());
        }
    }
}

/// `n` times `c`.
pub open spec fn repeated(c: char, n: nat) -> Seq<char> {
    Seq::new(n, |i: int| c)
}

proof fn lemma_run_of(c: char, n: nat, rest: Seq<char>, from: int)
    requires
        !begins(rest, c),
        0 <= from <= n,
    ensures
        md::run_length(repeated(c, n) + rest, c, false, from) == n - from,
    decreases n - from,
{
    let t = repeated(c, n) + rest;
    if from < n {
        assert(t[from] == c);
        lemma_run_of(c, n, rest, from + 1);
    } else {
        assert(from < t.len() ==> t[from] == rest[0]);
    }
}

/// The marks of a heading of the fifth or sixth level are not shown; those of others are, and so are
/// those with no space behind them.
pub proof fn law_headings_are_shown(n: nat, rest: Seq<char>)
    requires
        n >= 1,
        !begins(rest, '#'),
    ensures
        (n == 5 || n == 6) && begins(rest, ' ') ==> md::filtered(repeated('#', n) + rest)
            == after_text(rest.skip(1)),
        !((n == 5 || n == 6) && begins(rest, ' ')) ==> md::filtered(repeated('#', n) + rest)
            == behind(repeated('#', n), after_text(rest)),
{
    reveal(md::filter_step);
    let marks = repeated('#', n);
    let t = marks + rest;
    let st = at_start(t);
    lemma_filtered(t);
    lemma_run_of('#', n, rest, 0);
    assert(t[0] == '#');
    assert(rest.len() > 0 ==> t[n as int] == rest[0]);
    assert forall|i: int| 0 <= i < marks.len() implies is_quiet(#[trigger] marks[i]) by {}
    if (n == 5 || n == 6) && begins(rest, ' ') {
        lemma_after_text(rest.skip(1));
        assert(t.skip(n as int + 1) =~= rest.skip(1));
        lemma_quiet_step(st, in_line(rest.skip(1)));
    } else {
        lemma_after_text(rest);
        lemma_quiet_prefix(marks, rest);
        if rest.len() > 0 {
            lemma_quiet_step(st, in_line(t));
        } else {
            laws::lemma_run_unfolds(st);
            assert(md::filter_run(st, false) == Some(md::quiet(st)));
            lemma_flushed(t);
            assert(t =~= marks);
            lemma_nothing();
            assert(rest =~= Seq::<char>::empty());
            assert(marks + Seq::<char>::empty() =~= marks);
        }
    }
}

/// What is held back at the start of a line to the end of the text, and means nothing there.
proof fn lemma_flushed(t: Seq<char>)
    requires
        t.len() > 0,
        all_quiet(t),
        md::filter_step(at_start(t), true) == Some(md::quiet(in_line(t))),
        md::filter_run(at_start(t), false) == Some(md::quiet(at_start(t))),
    ensures
        shown_from(at_start(t)) == Some(t),
{
    reveal(md::filter_step);
    let e = Seq::<char>::empty();
    assert(t + e =~= t);
    lemma_scan_quiet(t, e, 0);
    assert(t.skip(t.len() as int) =~= e);
    assert(t.take(t.len() as int) =~= t);
    assert(md::filter_run(in_line(t), true) == Some(FilterStep { state: in_line(e), out: t }));
    assert(e + t =~= t);
    assert(md::filter_run(at_start(t), true) == Some(FilterStep { state: in_line(e), out: e + t }));
    assert(e + (e + t + e) =~= t);
}

/// A line of at least three times `c`, and spaces, that starts with `c`.
pub open spec fn is_rule(line: Seq<char>, c: char) -> bool {
    &&& begins(line, c)
    &&& forall|i: int| 0 <= i < line.len() ==> #[trigger] line[i] == c || line[i] == ' '
    &&& exists|i: int, j: int| 0 < i < j < line.len() && #[trigger] line[i] == c && #[trigger] line[j]
        == c
}

proof fn lemma_rule_run(line: Seq<char>, c: char, rest: Seq<char>, from: int)
    requires
        forall|i: int| 0 <= i < line.len() ==> #[trigger] line[i] == c || line[i] == ' ',
        rest.len() > 0 ==> rest[0] != c && rest[0] != ' ',
        0 <= from <= line.len(),
    ensures
        md::run_length(line + rest, c, true, from) == line.len() - from,
    decreases line.len() - from,
{
    let t = line + rest;
    if from < line.len() {
        assert(t[from] == line[from]);
        lemma_rule_run(line, c, rest, from + 1);
    } else {
        assert(from < t.len() ==> t[from] == rest[0]);
    }
}

proof fn lemma_count_split(s: Seq<char>, n: int, c: char)
    requires
        0 <= n <= s.len(),
    ensures
        md::count_of(s, c) == md::count_of(s.take(n), c) + md::count_of(s.skip(n), c),
    decreases s.len() - n,
{
    if n == s.len() {
        assert(s.take(n) =~= s);
        assert(s.skip(n) =~= Seq::<char>::empty());
    } else {
        lemma_count_split(s.drop_last(), n, c);
        assert(s.drop_last().take(n) =~= s.take(n));
        assert(s.skip(n).drop_last() =~= s.drop_last().skip(n));
        assert(s.skip(n).last() == s.last());
    }
}

proof fn lemma_three(line: Seq<char>, c: char)
    requires
        is_rule(line, c),
    ensures
        md::count_of(line, c) >= 3,
{
    let (i, j) = choose|i: int, j: int|
        0 < i < j < line.len() && #[trigger] line[i] == c && #[trigger] line[j] == c;
    lemma_count_split(line, j + 1, c);
    let a = line.take(j + 1);
    assert(a.last() == c);
    assert(a.drop_last() =~= line.take(j));
    let b = line.take(j);
    lemma_count_split(b, i + 1, c);
    let d = b.take(i + 1);
    assert(d.last() == c);
    lemma_count_split(d.drop_last(), 1, c);
    let f = d.drop_last().take(1);
    assert(f.last() == c);
    assert(f.len() == 1);
    assert(md::count_of(f.drop_last(), c) == 0);
}

proof fn lemma_rule_with_line_end(line: Seq<char>, c: char, rest: Seq<char>)
    requires
        c == '-' || c == '*' || c == '_',
        is_rule(line, c),
    ensures
        md::filtered(line + (seq!['\n'] + rest)) == md::filtered(rest),
{
    let n = line.len() as int;
    let t = line + (seq!['\n'] + rest);
    assert(md::filter_step(at_start(t), false) == Some(md::quiet(at_start(rest)))) by {
        reveal(md::filter_step);
        lemma_three(line, c);
        lemma_rule_run(line, c, seq!['\n'] + rest, 0);
        assert(t[0] == c);
        assert(t[n] == '\n');
        assert(t.take(n) =~= line);
        assert(t.skip(n + 1) =~= rest);
    }
    lemma_filtered(t);
    lemma_filtered(rest);
    lemma_quiet_step(at_start(t), at_start(rest));
}

/// A rule waits for the end of its line, and goes with a flush.
proof fn lemma_rule_steps(line: Seq<char>, c: char)
    requires
        c == '-' || c == '*' || c == '_',
        is_rule(line, c),
    ensures
        md::filter_step(at_start(line), false) == Some(md::quiet(at_start(line))),
        md::filter_step(at_start(line), true) == Some(md::quiet(at_start(Seq::empty()))),
{
    let n = line.len() as int;
    let e = Seq::<char>::empty();
    lemma_three(line, c);
    assert(line + e =~= line);
    lemma_rule_run(line, c, e, 0);
    assert(line.take(n) =~= line);
    assert(md::filter_step(at_start(line), false) == Some(md::quiet(at_start(line)))) by {
        reveal(md::filter_step);
    }
    assert(md::filter_step(at_start(line), true) == Some(md::quiet(at_start(e)))) by {
        reveal(md::filter_step);
    }
}

proof fn lemma_rule_at_the_end(line: Seq<char>, c: char)
    requires
        c == '-' || c == '*' || c == '_',
        is_rule(line, c),
    ensures
        md::filtered(line) == Some(Seq::<char>::empty()),
{
    let e = Seq::<char>::empty();
    let st = at_start(line);
    lemma_filtered(line);
    lemma_rule_steps(line, c);
    laws::lemma_run_unfolds(st);
    assert(md::filter_run(st, false) == Some(md::quiet(st)));
    assert(e + e =~= e);
    assert(md::filter_run(st, true) == Some(md::quiet(at_start(e))));
}

/// A rule is not shown, and neither is the end of its line.
pub proof fn law_rules_are_dropped(line: Seq<char>, c: char, rest: Seq<char>)
    requires
        c == '-' || c == '*' || c == '_',
        is_rule(line, c),
    ensures
        md::filtered(line + (seq!['\n'] + rest)) == md::filtered(rest),
        md::filtered(line) == Some(Seq::<char>::empty()),
{
    lemma_rule_with_line_end(line, c, rest);
    lemma_rule_at_the_end(line, c);
}

/// A line that starts like a rule, and goes on or ends before the third mark, is shown as text is
/// shown inside a line. Its dashes and the spaces between them are shown as they are.
pub proof fn law_list_items_are_shown(line: Seq<char>, c: char, rest: Seq<char>)
    requires
        c == '-' || c == '*' || c == '_',
        begins(line, c),
        forall|i: int| 0 <= i < line.len() ==> #[trigger] line[i] == c || line[i] == ' ',
        rest.len() > 0,
        rest[0] != c && rest[0] != ' ',
        rest[0] == '\n' ==> !is_rule(line, c),
    ensures
        md::filtered(line + rest) == after_text(line + rest),
        c == '-' ==> md::filtered(line + rest) == behind(line, after_text(rest)),
        c == '-' && !is_rule(line, c) ==> md::filtered(line) == Some(line),
{
    let t = line + rest;
    lemma_filtered(t);
    lemma_after_text(rest);
    lemma_after_text(t);
    lemma_rule_run(line, c, rest, 0);
    assert(t[0] == c);
    assert(t[line.len() as int] == rest[0]);
    assert(t.take(line.len() as int) =~= line);
    if rest[0] == '\n' {
        lemma_no_rule(line, c);
    }
    assert(md::filter_step(at_start(t), false) == Some(md::quiet(in_line(t)))) by {
        reveal(md::filter_step);
    }
    lemma_quiet_step(at_start(t), in_line(t));
    if c == '-' {
        assert forall|i: int| 0 <= i < line.len() implies is_quiet(#[trigger] line[i]) by {
            assert(line[i] == '-' || line[i] == ' ');
        }
        lemma_quiet_prefix(line, rest);
        if !is_rule(line, c) {
            lemma_last_item(line);
        }
    }
}

proof fn lemma_last_item(line: Seq<char>)
    requires
        begins(line, '-'),
        forall|i: int| 0 <= i < line.len() ==> #[trigger] line[i] == '-' || line[i] == ' ',
        !is_rule(line, '-'),
    ensures
        md::filtered(line) == Some(line),
{
    let e = Seq::<char>::empty();
    let st = at_start(line);
    lemma_filtered(line);
    lemma_no_rule(line, '-');
    assert(line + e =~= line);
    lemma_rule_run(line, '-', e, 0);
    assert(line.take(line.len() as int) =~= line);
    assert(md::filter_step(st, false) == Some(md::quiet(st))) by {
        reveal(md::filter_step);
    }
    assert(md::filter_step(st, true) == Some(md::quiet(in_line(line)))) by {
        reveal(md::filter_step);
    }
    laws::lemma_run_unfolds(st);
    assert forall|i: int| 0 <= i < line.len() implies is_quiet(#[trigger] line[i]) by {
        assert(line[i] == '-' || line[i] == ' ');
    }
    lemma_flushed(line);
}

/// A line of marks that is no rule has at most two.
proof fn lemma_no_rule(line: Seq<char>, c: char)
    requires
        begins(line, c),
        forall|i: int| 0 <= i < line.len() ==> #[trigger] line[i] == c || line[i] == ' ',
        !is_rule(line, c),
    ensures
        md::count_of(line, c) < 3,
{
    let n = line.len() as int;
    if exists|i: int| 0 < i < n && line[i] == c {
        let i = choose|i: int| 0 < i < n && line[i] == c;
        assert forall|j: int| 0 < j < n && j != i implies #[trigger] line[j] != c by {
            if j < i {
                assert(!(line[j] == c && line[i] == c));
            } else {
                assert(!(line[i] == c && line[j] == c));
            }
        }
        lemma_count_split(line, i, c);
        lemma_count_split(line.take(i), 1, c);
        lemma_count_split(line.skip(i), 1, c);
        lemma_count_none(line.take(i).skip(1), c);
        lemma_count_none(line.skip(i).skip(1), c);
        lemma_count_one(line.take(i).take(1), c);
        lemma_count_one(line.skip(i).take(1), c);
    } else {
        lemma_count_split(line, 1, c);
        lemma_count_none(line.skip(1), c);
        lemma_count_one(line.take(1), c);
    }
}

proof fn lemma_count_one(s: Seq<char>, c: char)
    requires
        s.len() == 1,
    ensures
        md::count_of(s, c) <= 1,
{
    assert(md::count_of(s.drop_last(), c) == 0);
}

proof fn lemma_count_none(s: Seq<char>, c: char)
    requires
        forall|i: int| 0 <= i < s.len() ==> #[trigger] s[i] != c,
    ensures
        md::count_of(s, c) == 0,
    decreases s.len(),
{
    if s.len() > 0 {
        lemma_count_none(s.drop_last(), c);
    }
}

/// Text that is only blank is shown.
pub proof fn law_blanks_are_shown(t: Seq<char>)
    requires
        t.len() > 0,
        forall|i: int| 0 <= i < t.len() ==> #[trigger] t[i] == ' ' || t[i] == '\t',
    ensures
        md::filtered(t) == Some(t),
{
    let st = at_start(t);
    lemma_filtered(t);
    assert(t[0] == ' ' || t[0] == '\t');
    assert(md::all_blank(t));
    assert(md::filter_step(st, false) == Some(md::quiet(st))) by {
        reveal(md::filter_step);
    }
    assert(md::filter_step(st, true) == Some(md::quiet(in_line(t)))) by {
        reveal(md::filter_step);
    }
    laws::lemma_run_unfolds(st);
    assert forall|i: int| 0 <= i < t.len() implies is_quiet(#[trigger] t[i]) by {
        assert(t[i] == ' ' || t[i] == '\t');
    }
    lemma_flushed(t);
}

/// A bar with nothing but white space behind it, to the end of its line or of the text, is refused.
pub proof fn law_bars_alone_are_refused(blank: Seq<char>, rest: Seq<char>)
    requires
        text_laws::is_blank(blank),
        !blank.contains('\n'),
    ensures
        md::filtered(seq!['|'] + (blank + seq!['\n'] + rest)) is None,
        md::filtered(seq!['|'] + blank) is None,
{
    lemma_marks();
    let bar = seq!['|'];
    let nl = seq!['\n'];
    let e = Seq::<char>::empty();
    let kind = InlineKind::Table;
    text_laws::lemma_trim_blank(blank);
    assert(!blank.contains('|')) by {
        if blank.contains('|') {
            let i = choose|i: int| 0 <= i < blank.len() && blank[i] == '|';
            assert(text::is_space(blank[i]));
        }
    }
    let line = blank + nl + rest;
    lemma_filtered(bar + line);
    assert((bar + line).skip(1) =~= line);
    assert(md::filter_step(at_start(bar + line), false) == Some(
        md::quiet(in_span(kind, line)),
    )) by {
        reveal(md::filter_step);
    }
    lemma_quiet_step(at_start(bar + line), in_span(kind, line));
    lemma_first(blank, nl, rest);
    assert(e + line =~= line);
    assert(md::filter_step(in_span(kind, line), false) is None) by {
        reveal(md::filter_step);
    }
    laws::lemma_run_unfolds(in_span(kind, line));
    lemma_filtered(bar + blank);
    assert((bar + blank).skip(1) =~= blank);
    assert(md::filter_step(at_start(bar + blank), false) == Some(
        md::quiet(in_span(kind, blank)),
    )) by {
        reveal(md::filter_step);
    }
    lemma_quiet_step(at_start(bar + blank), in_span(kind, blank));
    let st = in_span(kind, blank);
    let end = FilterState { buf: e, inline: Some(OpenSpan { kind, acc: blank }), ..st };
    lemma_never(blank, nl);
    assert(e + blank =~= blank);
    if blank.len() > 0 {
        assert(md::filter_step(st, false) == Some(md::quiet(end))) by {
            reveal(md::filter_step);
        }
        lemma_quiet_step(st, end);
    } else {
        assert(st =~= end);
    }
    assert(md::pumped(end, true) is None);
}

/// Inside a code fence.
spec fn in_fence(rest: Seq<char>) -> FilterState {
    FilterState { buf: rest, fence: true, sol: true, inline: None }
}

/// The step over a line of code.
proof fn lemma_code_line(line: Seq<char>, tail: Seq<char>, eof: bool)
    requires
        laws::is_code_line(line),
        eof || text::byte_len(line + tail) >= 3,
    ensures
        md::filter_step(in_fence(line + tail), eof) == Some(
            FilterStep { state: in_fence(tail), out: line },
        ),
{
    lemma_marks();
    let ticks = seq!['`', '`', '`'];
    let buf = line + tail;
    let bare = line.drop_last();
    assert(buf =~= bare + seq!['\n'] + tail);
    lemma_first(bare, seq!['\n'], tail);
    assert(buf.skip(line.len() as int) =~= tail);
    assert(buf.take(line.len() as int) =~= line);
    assert(!text::occurs_at(buf, ticks, 0)) by {
        if text::occurs_at(buf, ticks, 0) {
            assert(buf.subrange(0, 3) == ticks);
            if line.len() >= 3 {
                assert(line.subrange(0, 3) =~= buf.subrange(0, 3));
            } else {
                assert(buf.subrange(0, 3)[line.len() - 1] == line.last());
            }
        }
    }
    reveal(md::filter_step);
}

/// The step over the end of the code.
proof fn lemma_code_end(last: Seq<char>, eof: bool)
    requires
        last.len() > 0,
        !last.contains('\n'),
        eof || text::byte_len(last) >= 3,
    ensures
        md::filter_step(in_fence(last), eof) == Some(
            if begins_fence(last) {
                md::quiet(at_start(Seq::empty()))
            } else {
                FilterStep { state: behind_code(), out: last }
            },
        ),
{
    lemma_marks();
    let ticks = seq!['`', '`', '`'];
    lemma_never(last, seq!['\n']);
    text::lemma_find_from(last, seq!['\n'], 3);
    if let Some(i) = text::find_from(last, seq!['\n'], 3) {
        assert(last.subrange(i, i + 1)[0] == last[i]);
    }
    if last.len() >= 3 {
        assert(begins_fence(last) ==> last.subrange(0, 3) =~= ticks);
        assert(last.subrange(0, 3)[0] == last[0] && last.subrange(0, 3)[1] == last[1]
            && last.subrange(0, 3)[2] == last[2]);
    }
    reveal(md::filter_step);
}

/// What is left of the filter behind code that is not ended.
spec fn behind_code() -> FilterState {
    FilterState { buf: Seq::empty(), fence: true, sol: false, inline: None }
}

proof fn lemma_short_code(lines: Seq<Seq<char>>, last: Seq<char>)
    requires
        laws::all_code_lines(lines),
        !last.contains('\n'),
        !begins_fence(last),
    ensures
        ({
            let code = chunk::concat(lines) + last;
            md::filter_run(in_fence(code), true) == Some(
                FilterStep {
                    state: FilterState {
                        buf: Seq::empty(),
                        fence: true,
                        sol: last.len() == 0,
                        inline: None,
                    },
                    out: code,
                },
            )
        }),
    decreases lines.len(),
{
    let e = Seq::<char>::empty();
    if lines.len() == 0 {
        assert(chunk::concat(lines) + last =~= last);
        if last.len() > 0 {
            lemma_code_end(last, true);
        } else {
            assert(last =~= e);
        }
    } else {
        let others = lines.drop_first();
        let tail = chunk::concat(others) + last;
        assert(laws::is_code_line(lines[0]));
        assert(chunk::concat(lines) + last =~= lines[0] + tail);
        assert forall|i: int| 0 <= i < others.len() implies laws::is_code_line(
            #[trigger] others[i],
        ) by {
            assert(laws::is_code_line(lines[i + 1]));
        }
        lemma_code_line(lines[0], tail, true);
        lemma_short_code(others, last);
        if tail.len() == 0 {
            assert(tail =~= e);
            assert(lines[0] + tail =~= lines[0]);
        }
    }
}

proof fn lemma_last_code(lines: Seq<Seq<char>>, last: Seq<char>)
    requires
        laws::all_code_lines(lines),
        !last.contains('\n'),
    ensures
        shown_from(in_fence(chunk::concat(lines) + last)) == Some(
            if begins_fence(last) {
                chunk::concat(lines)
            } else {
                chunk::concat(lines) + last
            },
        ),
    decreases lines.len(),
{
    let e = Seq::<char>::empty();
    let buf = chunk::concat(lines) + last;
    let st = in_fence(buf);
    if buf.len() == 0 {
        assert(buf =~= e);
        assert(e + (e + e) =~= e);
    } else if text::byte_len(buf) < 3 {
        text::lemma_byte_len_bounds(buf);
        assert(md::filter_step(st, false) == Some(md::quiet(st))) by {
            reveal(md::filter_step);
        }
        laws::lemma_run_unfolds(st);
        lemma_short_code(lines, last);
        assert(e + (buf + e) =~= buf);
    } else if lines.len() == 0 {
        assert(buf =~= last);
        lemma_code_end(last, false);
        lemma_nothing();
        assert(shown_from(behind_code()) == Some(e)) by {
            assert(e + (e + e) =~= e);
        }
        if begins_fence(last) {
            lemma_quiet_step(st, at_start(e));
            assert(chunk::concat(lines) =~= e);
        } else {
            lemma_step(st, FilterStep { state: behind_code(), out: last });
            assert(last + e =~= last);
        }
    } else {
        let others = lines.drop_first();
        let tail = chunk::concat(others) + last;
        assert(laws::is_code_line(lines[0]));
        assert(buf =~= lines[0] + tail);
        assert forall|i: int| 0 <= i < others.len() implies laws::is_code_line(
            #[trigger] others[i],
        ) by {
            assert(laws::is_code_line(lines[i + 1]));
        }
        lemma_last_code(others, last);
        lemma_code_line(lines[0], tail, false);
        lemma_step(st, FilterStep { state: in_fence(tail), out: lines[0] });
        assert(lines[0] + tail =~= buf);
        assert(lines[0] + chunk::concat(others) =~= chunk::concat(lines));
    }
}

/// Whether `s` starts with three backticks.
pub open spec fn begins_fence(s: Seq<char>) -> bool {
    s.len() >= 3 && s[0] == '`' && s[1] == '`' && s[2] == '`'
}

/// Code is shown to the end of the text where no fence ends it. A fence in the last line ends it and
/// is not shown.
pub proof fn law_code_at_the_end_is_shown(
    language: Seq<char>,
    lines: Seq<Seq<char>>,
    last: Seq<char>,
)
    requires
        !language.contains('\n'),
        laws::all_code_lines(lines),
        !last.contains('\n'),
    ensures
        ({
            let code = chunk::concat(lines) + last;
            let all = seq!['`', '`', '`'] + language + seq!['\n'] + code;
            &&& begins_fence(last) ==> md::filtered(all) == Some(chunk::concat(lines))
            &&& !begins_fence(last) ==> md::filtered(all) == Some(code)
        }),
{
    lemma_marks();
    let ticks = seq!['`', '`', '`'];
    let code = chunk::concat(lines) + last;
    let first = ticks + language;
    let t = first + seq!['\n'] + code;
    let n = first.len() as int;
    lemma_filtered(t);
    text::lemma_byte_len_bounds(t);
    assert(t.subrange(0, 3) =~= ticks);
    assert(t.subrange(n, n + 1) =~= seq!['\n']);
    assert forall|j: int| 3 <= j < n implies !#[trigger] text::occurs_at(t, seq!['\n'], j) by {
        assert(t.subrange(j, j + 1)[0] == language[j - 3]);
    }
    text::lemma_find_from_is(t, seq!['\n'], 3, n);
    assert(t.skip(n + 1) =~= code);
    assert(md::filter_step(at_start(t), false) == Some(md::quiet(in_fence(code)))) by {
        reveal(md::filter_step);
    }
    lemma_quiet_step(at_start(t), in_fence(code));
    lemma_last_code(lines, last);
}

/// The parts of a table row: each cell with the white space around it.
pub open spec fn padded(
    before: Seq<Seq<char>>,
    cells: Seq<Seq<char>>,
    after: Seq<Seq<char>>,
) -> Seq<Seq<char>> {
    Seq::new(cells.len(), |i: int| before[i] + cells[i] + after[i])
}

/// The cells that are shown: all but an empty one at either end.
pub open spec fn shown_cells(cells: Seq<Seq<char>>) -> Seq<Seq<char>> {
    let front = if cells[0].len() == 0 {
        cells.drop_first()
    } else {
        cells
    };
    if cells.last().len() == 0 && front.len() > 0 {
        front.drop_last()
    } else {
        front
    }
}

/// The row of dashes below the head of a table.
pub open spec fn is_divider(row: Seq<char>) -> bool {
    &&& row.contains('-')
    &&& forall|i: int|
        0 <= i < row.len() ==> #[trigger] row[i] == '-' || row[i] == ':' || row[i] == '|' || row[i]
            == ' ' || row[i] == '\t' || row[i] == '\r' || row[i] == '\n' || row[i] == '\u{c}'
}

/// Whether `row` is a row of these cells, with white space around them.
pub open spec fn is_row_of(
    row: Seq<char>,
    before: Seq<Seq<char>>,
    cells: Seq<Seq<char>>,
    after: Seq<Seq<char>>,
) -> bool {
    &&& cells.len() > 0
    &&& cells.len() == 1 ==> cells[0].len() > 0
    &&& before.len() == cells.len()
    &&& after.len() == cells.len()
    &&& forall|i: int|
        0 <= i < cells.len() ==> {
            &&& text_laws::is_blank(before[i])
            &&& text_laws::is_bare(#[trigger] cells[i])
            &&& text_laws::is_blank(after[i])
        }
    &&& text_laws::none_holds(padded(before, cells, after), '|')
    &&& row == text_laws::laid_out(padded(before, cells, after), seq!['|'])
    &&& !row.contains('\n')
}

proof fn lemma_row(
    row: Seq<char>,
    before: Seq<Seq<char>>,
    cells: Seq<Seq<char>>,
    after: Seq<Seq<char>>,
)
    requires
        is_row_of(row, before, cells, after),
    ensures
        !md::blank_row(row),
        md::table_row(row) == if is_divider(row) {
            Seq::<char>::empty()
        } else {
            text_laws::laid_out(shown_cells(cells), seq!['\t'])
        },
{
    lemma_marks();
    let parts = padded(before, cells, after);
    let n = cells.len() as int;
    text_laws::law_split_undoes_joining(parts, '|');
    let trimmed = text::split(row, '|').map_values(|p: Seq<char>| text::trim(p));
    assert forall|i: int| 0 <= i < n implies #[trigger] trimmed[i] == cells[i] by {
        assert(text_laws::is_bare(cells[i]));
        text_laws::law_trim_takes_off_white_space(before[i], cells[i], after[i]);
    }
    assert(trimmed =~= cells);
    if n == 1 {
        assert(row == parts[0]);
        assert(text::trim(row) == trimmed[0]);
    } else {
        assert(row == parts[0] + seq!['|'] + text_laws::laid_out(parts.drop_first(), seq!['|']));
        assert(row[parts[0].len() as int] == '|');
    }
    assert(md::row_cells(row) =~= shown_cells(cells));
    text_laws::law_join(shown_cells(cells), seq!['\t']);
    assert(md::separator_row(row) == is_divider(row)) by {
        if is_divider(row) {
            assert forall|i: int| 0 <= i < row.len() implies (md::is_ascii_space(#[trigger] row[i])
                || row[i] == '|' || row[i] == ':' || row[i] == '-') by {
                assert(row[i] == '-' || row[i] == ':' || row[i] == '|' || row[i] == ' ' || row[i]
                    == '\t' || row[i] == '\r' || row[i] == '\n' || row[i] == '\u{c}');
            }
        }
        if md::separator_row(row) {
            assert forall|i: int| 0 <= i < row.len() implies #[trigger] row[i] == '-' || row[i] == ':'
                || row[i] == '|' || row[i] == ' ' || row[i] == '\t' || row[i] == '\r' || row[i]
                == '\n' || row[i] == '\u{c}' by {
                assert(md::is_ascii_space(row[i]) || row[i] == '|' || row[i] == ':' || row[i] == '-');
            }
        }
    }
}

/// Every cell of a table row is shown, without the white space around it and with a tab between each
/// two; only an empty cell at either end is not. A row of dashes is not shown, and a row of which
/// nothing is shown has no line.
pub proof fn law_table_rows_show_their_cells(
    row: Seq<char>,
    before: Seq<Seq<char>>,
    cells: Seq<Seq<char>>,
    after: Seq<Seq<char>>,
    rest: Seq<char>,
)
    requires
        is_row_of(row, before, cells, after),
    ensures
        ({
            let shown = text_laws::laid_out(shown_cells(cells), seq!['\t']);
            let with_end = seq!['|'] + (row + seq!['\n'] + rest);
            &&& is_divider(row) || shown.len() == 0 ==> md::filtered(with_end) == md::filtered(rest)
            &&& !is_divider(row) && shown.len() > 0 ==> md::filtered(with_end) == behind(
                shown + seq!['\n'],
                md::filtered(rest),
            )
            &&& is_divider(row) ==> md::filtered(seq!['|'] + row) == Some(Seq::<char>::empty())
            &&& !is_divider(row) ==> md::filtered(seq!['|'] + row) == Some(shown)
        }),
{
    lemma_row_with_line_end(row, before, cells, after, rest);
    lemma_row_at_the_end(row, before, cells, after);
}

/// The step that opens a table row.
proof fn lemma_bar(behind_it: Seq<char>)
    ensures
        md::filtered(seq!['|'] + behind_it) == shown_from(in_span(InlineKind::Table, behind_it)),
{
    let t = seq!['|'] + behind_it;
    lemma_filtered(t);
    assert(md::filter_step(at_start(t), false) == Some(
        md::quiet(in_span(InlineKind::Table, behind_it)),
    )) by {
        reveal(md::filter_step);
        assert(t.skip(1) =~= behind_it);
    }
    lemma_quiet_step(at_start(t), in_span(InlineKind::Table, behind_it));
}

proof fn lemma_row_with_line_end(
    row: Seq<char>,
    before: Seq<Seq<char>>,
    cells: Seq<Seq<char>>,
    after: Seq<Seq<char>>,
    rest: Seq<char>,
)
    requires
        is_row_of(row, before, cells, after),
    ensures
        ({
            let shown = text_laws::laid_out(shown_cells(cells), seq!['\t']);
            let with_end = seq!['|'] + (row + seq!['\n'] + rest);
            &&& is_divider(row) || shown.len() == 0 ==> md::filtered(with_end) == md::filtered(rest)
            &&& !is_divider(row) && shown.len() > 0 ==> md::filtered(with_end) == behind(
                shown + seq!['\n'],
                md::filtered(rest),
            )
        }),
{
    lemma_marks();
    lemma_row(row, before, cells, after);
    let kind = InlineKind::Table;
    let nl = seq!['\n'];
    let e = Seq::<char>::empty();
    let line = row + nl + rest;
    lemma_bar(line);
    lemma_filtered(rest);
    lemma_first(row, nl, rest);
    assert(line.skip(row.len() as int + 1) =~= rest);
    let shown = md::table_row(row);
    let out = if shown.len() == 0 {
        shown
    } else {
        shown + "\n"@
    };
    lemma_closes_with_line(kind, line, out, rest);
    if shown.len() == 0 {
        assert(out =~= e);
        if let Some(more) = md::filtered(rest) {
            assert(e + more =~= more);
        }
    }
}

proof fn lemma_row_at_the_end(
    row: Seq<char>,
    before: Seq<Seq<char>>,
    cells: Seq<Seq<char>>,
    after: Seq<Seq<char>>,
)
    requires
        is_row_of(row, before, cells, after),
    ensures
        ({
            let shown = text_laws::laid_out(shown_cells(cells), seq!['\t']);
            &&& is_divider(row) ==> md::filtered(seq!['|'] + row) == Some(Seq::<char>::empty())
            &&& !is_divider(row) ==> md::filtered(seq!['|'] + row) == Some(shown)
        }),
{
    lemma_marks();
    lemma_row(row, before, cells, after);
    let kind = InlineKind::Table;
    let e = Seq::<char>::empty();
    let shown = md::table_row(row);
    lemma_bar(row);
    let st = in_span(kind, row);
    let end = FilterState { buf: e, inline: Some(OpenSpan { kind, acc: row }), ..st };
    lemma_never(row, seq!['\n']);
    assert(e + row =~= row);
    if row.len() > 0 {
        assert(md::filter_step(st, false) == Some(md::quiet(end))) by {
            reveal(md::filter_step);
        }
        lemma_quiet_step(st, end);
    } else {
        assert(st =~= end);
    }
    assert(md::pumped(end, true) == Some(FilterStep { state: in_line(e), out: e + shown }));
    assert(e + (e + shown) =~= shown);
}

/// The row `| c1 | .. | cn |`, however many cells it has, shows them all.
pub proof fn law_framed_rows_show_their_cells(cells: Seq<Seq<char>>, rest: Seq<char>)
    requires
        cells.len() > 0,
        cells[0].len() > 0,
        forall|i: int|
            0 <= i < cells.len() ==> text_laws::is_bare(#[trigger] cells[i]) && !cells[i].contains(
                '|',
            ) && !cells[i].contains('\n'),
        !is_divider(framed(cells)),
    ensures
        md::filtered(seq!['|'] + (framed(cells) + seq!['\n'] + rest)) == behind(
            text_laws::laid_out(cells, seq!['\t']) + seq!['\n'],
            md::filtered(rest),
        ),
{
    let space = seq![' '];
    let all = cells.push(Seq::empty());
    let before = Seq::new(all.len(), |i: int| if i < cells.len() { space } else { Seq::empty() });
    let row = framed(cells);
    let parts = padded(before, all, before);
    assert forall|i: int| 0 <= i < all.len() implies {
        &&& text_laws::is_blank(before[i])
        &&& text_laws::is_bare(#[trigger] all[i])
    } by {
        if i < cells.len() {
            assert(text_laws::is_bare(cells[i]));
        }
    }
    assert forall|i: int| 0 <= i < parts.len() implies !(#[trigger] parts[i]).contains('|')
        && !parts[i].contains('\n') by {
        if i < cells.len() {
            assert(text_laws::is_bare(cells[i]));
            assert forall|k: int| 0 <= k < parts[i].len() implies parts[i][k] != '|' && parts[i][k]
                != '\n' by {
                if 0 < k <= cells[i].len() {
                    assert(parts[i][k] == cells[i][k - 1]);
                }
            }
        }
    }
    assert(parts =~= framed_parts(cells));
    lemma_laid_out_lacks(parts, '|', '\n');
    assert(is_row_of(row, before, all, before));
    law_table_rows_show_their_cells(row, before, all, before, rest);
    assert(all.drop_last() =~= cells);
    assert(shown_cells(all) =~= cells);
    assert(text_laws::laid_out(cells, seq!['\t']).len() > 0);
}

/// The parts of a row with a space on both sides of each cell, and a bar behind the last one.
pub open spec fn framed_parts(cells: Seq<Seq<char>>) -> Seq<Seq<char>> {
    Seq::new(
        cells.len() + 1,
        |i: int|
            if i < cells.len() {
                seq![' '] + cells[i] + seq![' ']
            } else {
                Seq::empty()
            },
    )
}

pub open spec fn framed(cells: Seq<Seq<char>>) -> Seq<char> {
    text_laws::laid_out(framed_parts(cells), seq!['|'])
}

proof fn lemma_laid_out_lacks(parts: Seq<Seq<char>>, sep: char, c: char)
    requires
        forall|i: int| 0 <= i < parts.len() ==> !(#[trigger] parts[i]).contains(c),
        sep != c,
    ensures
        !text_laws::laid_out(parts, seq![sep]).contains(c),
    decreases parts.len(),
{
    let all = text_laws::laid_out(parts, seq![sep]);
    if parts.len() > 0 {
        assert(!parts[0].contains(c));
    }
    if parts.len() > 1 {
        let rest = parts.drop_first();
        assert forall|i: int| 0 <= i < rest.len() implies !(#[trigger] rest[i]).contains(c) by {
            assert(!parts[i + 1].contains(c));
        }
        lemma_laid_out_lacks(rest, sep, c);
        let tail = text_laws::laid_out(rest, seq![sep]);
        assert forall|k: int| 0 <= k < all.len() implies all[k] != c by {
            if k < parts[0].len() {
                assert(all[k] == parts[0][k]);
            } else if k > parts[0].len() {
                assert(all[k] == tail[k - parts[0].len() - 1]);
            }
        }
    }
}

} // verus!
