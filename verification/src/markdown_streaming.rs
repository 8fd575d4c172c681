//! When the Markdown filter gives out the same however its text is cut into pieces.

use crate::markdown_filter as md;
use crate::markdown_filter::{FilterState, FilterStep, InlineKind, OpenSpan};
use crate::markdown_laws as laws;
use crate::text;
use vstd::prelude::*;

verus! {

/// Whether emphasis by `marker`, with `acc` behind it, ends at the first `marker` from `j` on: that
/// one stands alone, or the line ends before it.
pub open spec fn ends_singly(acc: Seq<char>, marker: char, j: int) -> bool
    decreases acc.len() - j,
{
    if j < 0 || j >= acc.len() || acc[j] == '\n' {
        true
    } else if acc[j] == marker {
        !md::char_is(acc, j + 1, marker)
    } else {
        ends_singly(acc, marker, j + 1)
    }
}

/// Whether inline code, with `acc` behind its backtick, ends on its line: there is no line end
/// before the next backtick.
pub open spec fn ends_on_its_line(acc: Seq<char>) -> bool {
    match (text::find(acc, "\n"@), text::find(acc, "`"@)) {
        (Some(nl), Some(tick)) => tick < nl,
        _ => true,
    }
}

/// Whether a span, with `acc` behind its marker, ends where the first part of `acc` that ends it
/// has it end.
pub open spec fn span_is_steady(kind: InlineKind, acc: Seq<char>) -> bool {
    match kind {
        InlineKind::Code => ends_on_its_line(acc),
        InlineKind::Italic => ends_singly(acc, '*', 0),
        InlineKind::UItalic => ends_singly(acc, '_', 0),
        _ => true,
    }
}

/// Whether the next step of a filter that has all of its text depends on no text that a cut may
/// keep away from it. A code fence takes its line with it, so it does, unless text is cut
/// `at_line_ends` only.
pub open spec fn steps_steadily(st: FilterState, at_line_ends: bool) -> bool {
    if st.fence {
        at_line_ends
    } else {
        match st.inline {
            Some(span) => span_is_steady(span.kind, span.acc + st.buf),
            None => st.sol && text::occurs_at(st.buf, "```"@, 0) ==> at_line_ends,
        }
    }
}

/// Whether a filter that has all of its text meets nothing that a cut may change: no doubled marker
/// inside emphasis by that marker, no inline code whose second backtick is on a later line, and, but
/// where text is cut `at_line_ends` only, no code fence.
pub open spec fn is_steady(st: FilterState, at_line_ends: bool) -> bool
    decreases md::weight(st), if st.sol { 1int } else { 0int },
{
    st.buf.len() > 0 ==> steps_steadily(st, at_line_ends) && match md::filter_step(st, false) {
        None => true,
        Some(next) => {
            proof {
                md::lemma_step_progress(st, false);
            }
            next.state == st || next.state.buf.len() == 0 || is_steady(next.state, at_line_ends)
        },
    }
}

/// A text that is read steadily from its start on.
pub open spec fn is_steady_text(s: Seq<char>, at_line_ends: bool) -> bool {
    is_steady(md::with_text(md::initial_state(), s), at_line_ends)
}

/// No text, or text that ends with a line end.
pub open spec fn whole_lines(s: Seq<char>) -> bool {
    s.len() > 0 ==> s.last() == '\n'
}

/// What is found in a text is found there as well when more comes after it.
proof fn lemma_find_stable(s: Seq<char>, more: Seq<char>, pat: Seq<char>, from: int)
    requires
        0 <= from,
    ensures
        text::find_from(s, pat, from) matches Some(i) ==> text::find_from(s + more, pat, from)
            == Some(i) && from <= i && i + pat.len() <= s.len(),
{
    text::lemma_find_from(s, pat, from);
    if let Some(i) = text::find_from(s, pat, from) {
        let all = s + more;
        assert(all.subrange(i, i + pat.len()) =~= s.subrange(i, i + pat.len()));
        assert forall|j: int| from <= j < i implies !#[trigger] text::occurs_at(all, pat, j) by {
            assert(!text::occurs_at(s, pat, j));
            assert(all.subrange(j, j + pat.len()) =~= s.subrange(j, j + pat.len()));
        }
        text::lemma_find_from_is(all, pat, from, i);
    }
}

proof fn lemma_simple_stable(acc: Seq<char>, more: Seq<char>, marker: Seq<char>)
    ensures
        match md::simple_end(acc, marker) {
            md::SpanEnd::Closed { out, rest, line_end } => md::simple_end(acc + more, marker)
                == (md::SpanEnd::Closed { out, rest: rest + more, line_end }),
            _ => true,
        },
{
    lemma_find_stable(acc, more, marker, 0);
    if let Some(i) = text::find(acc, marker) {
        let all = acc + more;
        assert(all.take(i) =~= acc.take(i));
        assert(all.skip(i + marker.len()) =~= acc.skip(i + marker.len()) + more);
    }
}

proof fn lemma_em_stable(acc: Seq<char>, more: Seq<char>, marker: char, j: int)
    requires
        0 <= j,
        ends_singly(acc + more, marker, j),
    ensures
        match md::em_end(acc, marker, j) {
            md::SpanEnd::Closed { out, rest, line_end } => md::em_end(acc + more, marker, j)
                == (md::SpanEnd::Closed { out, rest: rest + more, line_end }),
            _ => true,
        },
    decreases acc.len() - j,
{
    if j < acc.len() {
        let all = acc + more;
        assert(all[j] == acc[j]);
        if acc[j] == '\n' || acc[j] == marker {
            assert(j + 1 < acc.len() ==> all[j + 1] == acc[j + 1]);
            assert(all.take(j + 1) =~= acc.take(j + 1));
            assert(all.take(j) =~= acc.take(j));
            assert(all.skip(j + 1) =~= acc.skip(j + 1) + more);
        } else {
            lemma_em_stable(acc, more, marker, j + 1);
        }
    }
}

proof fn lemma_code_stable(acc: Seq<char>, more: Seq<char>)
    requires
        ends_on_its_line(acc + more),
    ensures
        match md::code_end(acc) {
            md::SpanEnd::Closed { out, rest, line_end } => md::code_end(acc + more)
                == (md::SpanEnd::Closed { out, rest: rest + more, line_end }),
            _ => true,
        },
{
    let all = acc + more;
    reveal_strlit("`");
    reveal_strlit("\n");
    lemma_simple_stable(acc, more, "`"@);
    lemma_find_stable(acc, more, "\n"@, 0);
    text::lemma_find_from(acc, "`"@, 0);
    text::lemma_find_from(all, "`"@, 0);
    if let Some(nl) = text::find(acc, "\n"@) {
        if text::find(acc, "`"@) is None {
            if let Some(tick) = text::find(all, "`"@) {
                assert(all.subrange(tick, tick + 1) =~= acc.subrange(tick, tick + 1));
                assert(text::occurs_at(acc, "`"@, tick));
            }
            assert(all.take(nl + 1) =~= acc.take(nl + 1));
            assert(all.skip(nl + 1) =~= acc.skip(nl + 1) + more);
        }
    }
}

/// A span that has ended has ended in the same way when more text comes.
proof fn lemma_span_stable(kind: InlineKind, acc: Seq<char>, more: Seq<char>)
    requires
        span_is_steady(kind, acc + more),
    ensures
        match md::span_end(kind, acc) {
            md::SpanEnd::Closed { out, rest, line_end } => md::span_end(kind, acc + more)
                == (md::SpanEnd::Closed { out, rest: rest + more, line_end }),
            md::SpanEnd::BlankRow => md::span_end(kind, acc + more) is BlankRow,
            md::SpanEnd::Open => true,
        },
{
    let all = acc + more;
    reveal_strlit("]");
    reveal_strlit(")");
    reveal_strlit("\n");
    laws::lemma_span_rest(kind, acc);
    lemma_simple_stable(acc, more, "~~"@);
    lemma_simple_stable(acc, more, "***"@);
    lemma_simple_stable(acc, more, "___"@);
    lemma_find_stable(acc, more, "\n"@, 0);
    lemma_find_stable(acc, more, "]"@, 0);
    if kind == InlineKind::Italic {
        lemma_em_stable(acc, more, '*', 0);
    } else if kind == InlineKind::UItalic {
        lemma_em_stable(acc, more, '_', 0);
    } else if kind == InlineKind::Code {
        lemma_code_stable(acc, more);
    }
    assert forall|n: int| 0 <= n <= acc.len() implies #[trigger] all.skip(n) == acc.skip(n)
        + more by {
        assert(all.skip(n) =~= acc.skip(n) + more);
    }
    assert forall|n: int| 0 <= n <= acc.len() implies #[trigger] all.take(n) == acc.take(n) by {
        assert(all.take(n) =~= acc.take(n));
    }
    if let Some(nl) = text::find(acc, "\n"@) {
        assert(all.skip(nl + 1) == acc.skip(nl + 1) + more);
        assert(all.take(nl) == acc.take(nl));
    }
    if let Some(cb) = text::find(acc, "]"@) {
        if cb + 1 < acc.len() {
            assert(all[cb + 1] == acc[cb + 1]);
            assert(all.skip(cb + 1) == acc.skip(cb + 1) + more);
            assert(all.take(cb + 1) == acc.take(cb + 1));
            lemma_find_stable(acc, more, ")"@, cb + 2);
            if let Some(cp) = text::find_from(acc, ")"@, cb + 2) {
                assert(all.skip(cp + 1) == acc.skip(cp + 1) + more);
            }
        }
    }
}

/// Where running text stops, it stops as well when more text comes. Where it does not stop, more
/// text is looked at from what is held back on.
proof fn lemma_body_stable(s: Seq<char>, more: Seq<char>, i: int)
    requires
        0 <= i <= s.len() - md::held_back(s),
    ensures
        match md::body_scan(s, i) {
            md::BodyStop::End => md::body_scan(s + more, i) == md::body_scan(
                s + more,
                s.len() - md::held_back(s),
            ),
            stop => md::body_scan(s + more, i) == stop,
        },
    decreases s.len() - i,
{
    let all = s + more;
    let n = s.len() - md::held_back(s);
    if i < n {
        assert(all[i] == s[i]);
        assert(i + 1 < s.len() ==> all[i + 1] == s[i + 1]);
        assert(i + 2 < s.len() ==> all[i + 2] == s[i + 2]);
        lemma_body_stable(s, more, i + 1);
        if i + 2 <= n {
            lemma_body_stable(s, more, i + 2);
        }
    } else {
        reveal_with_fuel(md::body_scan, 3);
    }
}

pub open spec fn shifted(stop: md::BodyStop, n: int) -> md::BodyStop {
    match stop {
        md::BodyStop::Newline(k) => md::BodyStop::Newline(n + k),
        md::BodyStop::Open(k, len, kind) => md::BodyStop::Open(n + k, len, kind),
        md::BodyStop::End => md::BodyStop::End,
    }
}

pub proof fn lemma_body_shift(x: Seq<char>, y: Seq<char>, i: int)
    requires
        0 <= i,
    ensures
        md::body_scan(x + y, x.len() + i) == shifted(md::body_scan(y, i), x.len() as int),
    decreases y.len() - i,
{
    let s = x + y;
    if i < y.len() {
        assert(s[x.len() + i] == y[i]);
        assert(i + 1 < y.len() ==> s[x.len() + i + 1] == y[i + 1]);
        assert(i + 2 < y.len() ==> s[x.len() + i + 2] == y[i + 2]);
        lemma_body_shift(x, y, i + 1);
        if i + 2 <= y.len() {
            lemma_body_shift(x, y, i + 2);
        }
    }
}

/// What holds of a step and the text `more` that comes after it: it does not matter which comes
/// first.
pub open spec fn commutes(st: FilterState, more: Seq<char>, at_line_ends: bool) -> bool {
    match md::filter_step(st, false) {
        None => md::filter_run(md::with_text(st, more), false) is None,
        Some(next) => {
            &&& next.state == st ==> next.out.len() == 0
            &&& next.state != st ==> {
                &&& is_steady(md::with_text(next.state, more), at_line_ends)
                &&& at_line_ends ==> whole_lines(next.state.buf)
                &&& md::filter_run(md::with_text(st, more), false) == md::prepend(
                    next.out,
                    md::filter_run(md::with_text(next.state, more), false),
                )
            }
        },
    }
}

/// A state whose text, with `more` to come, is steady, and which has whole lines where text is cut
/// `at_line_ends` only.
pub open spec fn is_ready(st: FilterState, more: Seq<char>, at_line_ends: bool) -> bool {
    &&& is_steady(md::with_text(st, more), at_line_ends)
    &&& at_line_ends ==> whole_lines(st.buf)
}

/// A step that is the same when more text comes commutes with it.
proof fn lemma_same_step(st: FilterState, more: Seq<char>, at_line_ends: bool, next: FilterStep)
    requires
        st.buf.len() > 0,
        is_ready(st, more, at_line_ends),
        md::filter_step(st, false) == Some(next),
        next.state != st,
        at_line_ends ==> whole_lines(next.state.buf),
        md::filter_step(md::with_text(st, more), false) == Some(
            FilterStep { state: md::with_text(next.state, more), out: next.out },
        ),
    ensures
        commutes(st, more, at_line_ends),
{
    let with = md::with_text(st, more);
    laws::lemma_run_unfolds(with);
    if md::with_text(next.state, more) == with {
        let a = next.state.buf + more;
        let b = st.buf + more;
        assert(a.len() == b.len());
        assert forall|i: int| 0 <= i < st.buf.len() implies next.state.buf[i] == st.buf[i] by {
            assert(a[i] == b[i]);
        }
        assert(next.state.buf =~= st.buf);
    }
}

/// In whole lines every line ends.
proof fn lemma_whole_lines(s: Seq<char>, from: int)
    requires
        whole_lines(s),
        0 <= from < s.len(),
    ensures
        text::find_from(s, "\n"@, from) is Some,
{
    reveal_strlit("\n");
    text::lemma_find_from(s, "\n"@, from);
    assert(s.subrange(s.len() - 1, s.len() as int) =~= "\n"@);
    assert(text::occurs_at(s, "\n"@, s.len() - 1));
}

/// A fence that opens or closes, with more text to come.
proof fn lemma_fence_line(buf: Seq<char>, more: Seq<char>)
    requires
        whole_lines(buf),
        text::occurs_at(buf, "```"@, 0),
    ensures
        text::occurs_at(buf + more, "```"@, 0),
        md::after_line(buf + more, 3) == md::after_line(buf, 3) + more,
        whole_lines(md::after_line(buf, 3)),
{
    reveal_strlit("```");
    reveal_strlit("\n");
    let all = buf + more;
    assert(all.subrange(0, 3) =~= buf.subrange(0, 3));
    assert(buf.subrange(0, 3)[0] == buf[0] && buf.subrange(0, 3)[1] == buf[1] && buf.subrange(
        0,
        3,
    )[2] == buf[2]);
    lemma_whole_lines(buf, 3);
    lemma_find_stable(buf, more, "\n"@, 3);
    let nl = text::find_from(buf, "\n"@, 3)->0;
    assert(all.skip(nl + 1) =~= buf.skip(nl + 1) + more);
}

/// Inside a code fence.
proof fn lemma_fence_commutes(st: FilterState, more: Seq<char>, at_line_ends: bool)
    requires
        st.buf.len() > 0,
        is_ready(st, more, at_line_ends),
        st.fence,
    ensures
        commutes(st, more, at_line_ends),
{
    reveal(md::filter_step);
    reveal_strlit("```");
    reveal_strlit("\n");
    let buf = st.buf;
    let with = md::with_text(st, more);
    let next = md::fence_step(st, false);
    text::lemma_byte_len_add(buf, more);
    assert(steps_steadily(with, at_line_ends));
    if st.sol && text::byte_len(buf) < 3 {
    } else if st.sol && text::occurs_at(buf, "```"@, 0) {
        lemma_fence_line(buf, more);
        lemma_same_step(st, more, at_line_ends, next);
    } else {
        if text::occurs_at(with.buf, "```"@, 0) {
            assert(with.buf.subrange(0, 3) == "```"@);
            if buf.len() >= 3 {
                assert(buf.subrange(0, 3) =~= with.buf.subrange(0, 3));
            } else {
                assert(with.buf.subrange(0, 3)[buf.len() - 1] == buf.last());
            }
        }
        lemma_whole_lines(buf, 0);
        lemma_find_stable(buf, more, "\n"@, 0);
        let nl = text::find(buf, "\n"@)->0;
        assert(with.buf.skip(nl + 1) =~= buf.skip(nl + 1) + more);
        assert(with.buf.take(nl + 1) =~= buf.take(nl + 1));
        lemma_same_step(st, more, at_line_ends, next);
    }
}

/// At the start of a line.
proof fn lemma_sol_commutes(st: FilterState, more: Seq<char>, at_line_ends: bool)
    requires
        st.buf.len() > 0,
        is_ready(st, more, at_line_ends),
        !st.fence,
        st.inline is None,
        st.sol,
    ensures
        commutes(st, more, at_line_ends),
{
    reveal(md::filter_step);
    let buf = st.buf;
    let with = md::with_text(st, more);
    let next = md::sol_step(st, false);
    assert(with.buf[0] == buf[0]);
    assert(steps_steadily(with, at_line_ends));
    if next.state != st {
        text::lemma_byte_len_bounds(buf);
        text::lemma_byte_len_add(buf, more);
        md::lemma_run_length(buf, '#', false, 0);
        md::lemma_run_length(buf, buf[0], true, 0);
        assert forall|n: int| 0 <= n <= buf.len() implies #[trigger] with.buf.skip(n) == buf.skip(n)
            + more by {
            assert(with.buf.skip(n) =~= buf.skip(n) + more);
        }
        assert forall|n: int| 0 <= n < buf.len() implies with.buf[n] == #[trigger] buf[n] by {}
        if buf[0] == '`' {
            reveal_strlit("```");
            if text::occurs_at(buf, "```"@, 0) {
                assert(with.buf.subrange(0, 3) =~= buf.subrange(0, 3));
                lemma_fence_line(buf, more);
            } else if text::occurs_at(with.buf, "```"@, 0) {
                lemma_ticks(buf, more);
            }
        } else if buf[0] == '>' {
            lemma_one_byte(buf);
            assert(with.buf[1] == buf[1]);
        } else if buf[0] == '#' {
            let n = md::run_length(buf, '#', false, 0);
            laws::lemma_run_length_stable(buf, more, '#', false, 0);
            assert(with.buf[n] == buf[n]);
        } else if buf[0] == '|' {
            assert(with.buf.skip(1) == buf.skip(1) + more);
        } else if buf[0] == ' ' || buf[0] == '\t' {
            let i = choose|i: int| 0 <= i < buf.len() && !(buf[i] == ' ' || buf[i] == '\t');
            assert(with.buf[i] == buf[i]);
        } else if buf[0] == '-' || buf[0] == '*' || buf[0] == '_' {
            let j = md::run_length(buf, buf[0], true, 0);
            laws::lemma_run_length_stable(buf, more, buf[0], true, 0);
            assert(with.buf[j] == buf[j]);
            assert(with.buf.take(j) =~= buf.take(j));
        }
        lemma_same_step(st, more, at_line_ends, next);
    }
}

/// Three bytes or more that are not three backticks do not become them.
proof fn lemma_ticks(buf: Seq<char>, more: Seq<char>)
    requires
        text::byte_len(buf) >= 3,
        text::occurs_at(buf + more, "```"@, 0),
    ensures
        text::occurs_at(buf, "```"@, 0),
{
    reveal_strlit("```");
    let all = buf + more;
    let first = all.subrange(0, 3);
    assert(first[0] == all[0] && first[1] == all[1] && first[2] == all[2]);
    if buf.len() >= 3 {
        assert(buf.subrange(0, 3) =~= first);
    } else {
        text::lemma_byte_len_push(Seq::empty(), '`');
        text::lemma_byte_len_push(seq!['`'], '`');
        assert(Seq::<char>::empty().push('`') =~= seq!['`']);
        if buf.len() == 1 {
            assert(buf =~= seq!['`']);
        } else if buf.len() == 2 {
            assert(buf =~= seq!['`'].push('`'));
        }
    }
}

/// One ASCII character takes one byte.
proof fn lemma_one_byte(s: Seq<char>)
    requires
        s.len() > 0,
        s[0] == '>',
    ensures
        s.len() == 1 ==> text::byte_len(s) == 1,
{
    if s.len() == 1 {
        text::lemma_byte_len_push(Seq::empty(), '>');
        assert(Seq::<char>::empty().push('>') =~= s);
    }
}

/// Inside a span.
proof fn lemma_inline_commutes(
    st: FilterState,
    more: Seq<char>,
    at_line_ends: bool,
    span: OpenSpan,
)
    requires
        st.buf.len() > 0,
        is_ready(st, more, at_line_ends),
        !st.fence,
        st.inline == Some(span),
    ensures
        commutes(st, more, at_line_ends),
{
    reveal(md::filter_step);
    let with = md::with_text(st, more);
    let acc = span.acc + st.buf;
    assert(span.acc + with.buf =~= acc + more);
    assert(steps_steadily(with, at_line_ends));
    lemma_span_stable(span.kind, acc, more);
    laws::lemma_span_rest(span.kind, acc);
    match md::span_end(span.kind, acc) {
        md::SpanEnd::Open => {
            let next = md::inline_step(st, span)->0;
            if more.len() == 0 {
                assert(with =~= st);
                assert(md::with_text(next.state, more) =~= next.state);
                laws::lemma_run_unfolds(st);
            } else {
                let after = md::with_text(next.state, more);
                assert(after.buf =~= more);
                assert(md::filter_step(with, false) == md::filter_step(after, false));
                laws::lemma_run_unfolds(with);
                laws::lemma_run_unfolds(after);
                if let Some(t) = md::filter_step(with, false) {
                    assert(t.state != with && t.state != after);
                    if let Some(run) = md::filter_run(t.state, false) {
                        assert(Seq::<char>::empty() + (t.out + run.out) =~= t.out + run.out);
                    }
                }
                assert(steps_steadily(after, at_line_ends));
                assert(is_steady(after, at_line_ends));
            }
        },
        md::SpanEnd::Closed { out, rest, line_end } => {
            let next = md::inline_step(st, span)->0;
            assert(rest.len() > 0 ==> rest.last() == st.buf.last());
            lemma_same_step(st, more, at_line_ends, next);
        },
        md::SpanEnd::BlankRow => {
            laws::lemma_run_unfolds(with);
        },
    }
}

/// In running text.
proof fn lemma_body_commutes(st: FilterState, more: Seq<char>, at_line_ends: bool)
    requires
        st.buf.len() > 0,
        is_ready(st, more, at_line_ends),
        !st.fence,
        st.inline is None,
        !st.sol,
    ensures
        commutes(st, more, at_line_ends),
{
    reveal(md::filter_step);
    let buf = st.buf;
    let with = md::with_text(st, more);
    let next = md::body_step(st, false);
    md::lemma_body_scan(buf, 0);
    lemma_body_stable(buf, more, 0);
    match md::body_scan(buf, 0) {
        md::BodyStop::Newline(i) => {
            assert(with.buf.skip(i + 1) =~= buf.skip(i + 1) + more);
            assert(with.buf.take(i + 1) =~= buf.take(i + 1));
            lemma_same_step(st, more, at_line_ends, next);
        },
        md::BodyStop::Open(i, n, kind) => {
            assert(with.buf.skip(i + n) =~= buf.skip(i + n) + more);
            assert(with.buf.take(i) =~= buf.take(i));
            lemma_same_step(st, more, at_line_ends, next);
        },
        md::BodyStop::End => {
            lemma_body_end_commutes(st, more, at_line_ends);
        },
    }
}

/// In running text that does not stop.
proof fn lemma_body_end_commutes(st: FilterState, more: Seq<char>, at_line_ends: bool)
    requires
        st.buf.len() > 0,
        is_ready(st, more, at_line_ends),
        !st.fence,
        st.inline is None,
        !st.sol,
        md::body_scan(st.buf, 0) is End,
    ensures
        commutes(st, more, at_line_ends),
{
    reveal(md::filter_step);
    let buf = st.buf;
    let with = md::with_text(st, more);
    let next = md::body_step(st, false);
    let h = md::held_back(buf);
    let x = buf.take(buf.len() - h);
    let y = buf.skip(buf.len() - h);
    let z = y + more;
    lemma_body_stable(buf, more, 0);
    assert(with.buf =~= x + z);
    lemma_body_shift(x, z, 0);
    if x.len() == 0 {
        assert(y =~= buf);
    } else if z.len() == 0 {
        assert(with =~= st);
        laws::lemma_run_unfolds(st);
        assert(md::with_text(next.state, more) =~= next.state);
        assert(next.out + Seq::<char>::empty() =~= next.out);
    } else {
        let after = md::with_text(next.state, more);
        let n = with.buf.len();
        assert(with.buf[n - 1] == z[z.len() - 1]);
        assert(z.len() >= 2 ==> with.buf[n - 2] == z[z.len() - 2]);
        assert(z.len() == 1 && h == 0 ==> with.buf[n - 2] == buf[buf.len() - 1]);
        assert(md::held_back(with.buf) == md::held_back(z));
        lemma_inert_prefix(with, after, x, z, at_line_ends);
    }
}

/// Text `x` that running text passes over is given out as it is, and what follows is the same as
/// without it.
pub proof fn lemma_inert_prefix(
    with: FilterState,
    after: FilterState,
    x: Seq<char>,
    z: Seq<char>,
    at_line_ends: bool,
)
    requires
        x.len() > 0,
        z.len() > 0,
        with.buf == x + z,
        after.buf == z,
        !with.fence,
        with.inline is None,
        !with.sol,
        after == (FilterState { buf: z, ..with }),
        md::held_back(with.buf) == md::held_back(z),
        md::body_scan(with.buf, 0) == shifted(md::body_scan(z, 0), x.len() as int),
    ensures
        md::filter_run(with, false) == md::prepend(x, md::filter_run(after, false)),
        is_steady(with, at_line_ends) ==> is_steady(after, at_line_ends),
{
    reveal(md::filter_step);
    let t = md::body_step(with, false);
    let u = md::body_step(after, false);
    md::lemma_body_scan(z, 0);
    assert forall|n: int| 0 <= n <= z.len() implies with.buf.skip(x.len() + n) == #[trigger] z.skip(
        n,
    ) && with.buf.take(x.len() + n) == x + z.take(n) by {
        assert(with.buf.skip(x.len() + n) =~= z.skip(n));
        assert(with.buf.take(x.len() + n) =~= x + z.take(n));
    }
    match md::body_scan(z, 0) {
        md::BodyStop::Newline(k) => {
            assert(with.buf.skip(x.len() + (k + 1)) == z.skip(k + 1));
        },
        md::BodyStop::Open(k, n, kind) => {
            assert(with.buf.skip(x.len() + (k + n)) == z.skip(k + n));
            assert(with.buf.skip(x.len() + k) == z.skip(k));
        },
        md::BodyStop::End => {
            let n = z.len() - md::held_back(z);
            assert(with.buf.skip(x.len() + n) == z.skip(n));
        },
    }
    assert(t.state == u.state);
    assert(t.out == x + u.out);
    laws::lemma_run_unfolds(with);
    laws::lemma_run_unfolds(after);
    assert(t.state.buf.len() <= z.len());
    if u.state == after {
        assert(u.out.len() == 0);
        assert(t.out =~= x);
    } else if let Some(run) = md::filter_run(u.state, false) {
        assert(t.out + run.out =~= x + (u.out + run.out));
    }
}

proof fn lemma_commutes(st: FilterState, more: Seq<char>, at_line_ends: bool)
    requires
        st.buf.len() > 0,
        is_ready(st, more, at_line_ends),
    ensures
        commutes(st, more, at_line_ends),
{
    if st.fence {
        lemma_fence_commutes(st, more, at_line_ends);
    } else {
        match st.inline {
            Some(span) => lemma_inline_commutes(st, more, at_line_ends, span),
            None => if st.sol {
                lemma_sol_commutes(st, more, at_line_ends);
            } else {
                lemma_body_commutes(st, more, at_line_ends);
            },
        }
    }
}

/// It does not matter whether a filter runs before more text comes.
proof fn lemma_run_commutes(st: FilterState, more: Seq<char>, at_line_ends: bool)
    requires
        is_ready(st, more, at_line_ends),
    ensures
        match md::filter_run(st, false) {
            None => md::filter_run(md::with_text(st, more), false) is None,
            Some(ran) => is_ready(ran.state, more, at_line_ends) && md::filter_run(
                md::with_text(st, more),
                false,
            ) == md::prepend(ran.out, md::filter_run(md::with_text(ran.state, more), false)),
        },
    decreases md::weight(st), if st.sol { 1int } else { 0int },
{
    let with = md::with_text(st, more);
    if st.buf.len() == 0 {
        if let Some(run) = md::filter_run(with, false) {
            assert(Seq::<char>::empty() + run.out =~= run.out);
        }
    } else {
        lemma_commutes(st, more, at_line_ends);
        laws::lemma_run_unfolds(st);
        md::lemma_step_progress(st, false);
        if let Some(next) = md::filter_step(st, false) {
            if next.state == st {
                assert(next.out =~= Seq::<char>::empty());
                if let Some(run) = md::filter_run(with, false) {
                    assert(Seq::<char>::empty() + run.out =~= run.out);
                }
            } else if next.state.buf.len() == 0 {
                assert(next.out + Seq::<char>::empty() =~= next.out);
            } else {
                lemma_run_commutes(next.state, more, at_line_ends);
                if let Some(ran) = md::filter_run(next.state, false) {
                    if let Some(run) = md::filter_run(md::with_text(ran.state, more), false) {
                        assert(next.out + (ran.out + run.out) =~= next.out + ran.out + run.out);
                    }
                }
            }
        }
    }
}

/// However a steady text is cut into pieces, a filter gives out the same for it as for the text in
/// one piece, and refuses it or not. Where it is cut `at_line_ends` only, it may hold code fences.
pub proof fn law_pieces_do_not_matter(
    st: FilterState,
    pieces: Seq<Seq<char>>,
    at_line_ends: bool,
)
    requires
        pieces.len() > 0,
        is_ready(st, laws::joined(pieces), at_line_ends),
        at_line_ends ==> forall|i: int|
            0 <= i < pieces.len() - 1 ==> whole_lines(#[trigger] pieces[i]),
    ensures
        laws::streamed(st, pieces) == laws::streamed(st, seq![laws::joined(pieces)]),
    decreases pieces.len(),
{
    let all = laws::joined(pieces);
    let whole = seq![all];
    reveal_with_fuel(laws::streamed, 2);
    assert(whole.drop_first() =~= Seq::<Seq<char>>::empty());
    let first = pieces[0];
    let rest = laws::joined(pieces.drop_first());
    if pieces.len() == 1 {
        assert(first + rest =~= first);
        assert(pieces =~= whole);
    } else {
        let with = md::with_text(st, first);
        assert(md::with_text(with, rest) =~= md::with_text(st, all));
        assert(at_line_ends ==> whole_lines(pieces[0]));
        assert(at_line_ends ==> whole_lines(with.buf)) by {
            if first.len() > 0 {
                assert(with.buf.last() == first.last());
            } else {
                assert(with.buf =~= st.buf);
            }
        }
        lemma_run_commutes(with, rest, at_line_ends);
        if let Some(fed) = md::filter_run(with, false) {
            assert forall|i: int|
                at_line_ends && 0 <= i < pieces.drop_first().len() - 1 implies whole_lines(
                #[trigger] pieces.drop_first()[i],
            ) by {
                assert(whole_lines(pieces[i + 1]));
            }
            law_pieces_do_not_matter(fed.state, pieces.drop_first(), at_line_ends);
            let others = seq![rest];
            assert(others.drop_first() =~= Seq::<Seq<char>>::empty());
            if let Some(then) = md::filter_run(md::with_text(fed.state, rest), false) {
                if let Some(flushed) = md::pumped(then.state, true) {
                    assert(fed.out + (then.out + flushed.out) =~= fed.out + then.out
                        + flushed.out);
                }
            }
        }
    }
}

/// A steady text that is fed to a new filter in pieces gives what the whole text gives.
pub proof fn law_whole_text_or_pieces(pieces: Seq<Seq<char>>)
    requires
        pieces.len() > 0,
        is_steady_text(laws::joined(pieces), false),
    ensures
        laws::streamed(md::initial_state(), pieces) == md::filtered(laws::joined(pieces)),
{
    law_pieces_do_not_matter(md::initial_state(), pieces, false);
    laws::law_one_piece(laws::joined(pieces));
}

/// A steady text that is fed to a new filter in lines gives what the whole text gives, with its code
/// fences.
pub proof fn law_whole_text_or_lines(pieces: Seq<Seq<char>>)
    requires
        pieces.len() > 0,
        is_steady_text(laws::joined(pieces), true),
        forall|i: int| 0 <= i < pieces.len() - 1 ==> whole_lines(#[trigger] pieces[i]),
    ensures
        laws::streamed(md::initial_state(), pieces) == md::filtered(laws::joined(pieces)),
{
    law_pieces_do_not_matter(md::initial_state(), pieces, true);
    laws::law_one_piece(laws::joined(pieces));
}

} // verus!
