//! Texts that the Markdown filter reads steadily, by what stands in them.

use crate::markdown_filter as md;
use crate::markdown_filter::{FilterState, InlineKind, OpenSpan};
use crate::markdown_laws as laws;
use crate::markdown_streaming as streaming;
use crate::text;
use vstd::prelude::*;

verus! {

/// Whether `c` stands at `i` and behind it.
pub open spec fn pair_at(s: Seq<char>, i: int, c: char) -> bool {
    md::char_is(s, i, c) && md::char_is(s, i + 1, c)
}

/// Whether `c` stands at `i` and not before it.
pub open spec fn run_starts(s: Seq<char>, i: int, c: char) -> bool {
    md::char_is(s, i, c) && !md::char_is(s, i - 1, c)
}

/// `c` never stands twice in a row.
pub open spec fn never_doubled(s: Seq<char>, c: char) -> bool {
    forall|i: int| !pair_at(s, i, c)
}

/// A run of `c` from `i` on that opens no emphasis: `c` stands there two or three times, or alone
/// before a space, before a line end or at the end of the text.
pub open spec fn opens_no_emphasis(s: Seq<char>, i: int, c: char) -> bool {
    if md::char_is(s, i + 1, c) {
        !(md::char_is(s, i + 2, c) && md::char_is(s, i + 3, c))
    } else {
        i + 1 >= s.len() || s[i + 1] == ' ' || s[i + 1] == '\n'
    }
}

pub open spec fn never_emphasis(s: Seq<char>, c: char) -> bool {
    forall|i: int| #[trigger] run_starts(s, i, c) ==> opens_no_emphasis(s, i, c)
}

/// No line but the first starts with a code fence.
pub open spec fn no_later_fence(s: Seq<char>) -> bool {
    forall|i: int| 0 < i < s.len() && s[i - 1] == '\n' ==> !#[trigger] text::occurs_at(s, "```"@, i)
}

/// No line end stands between two backticks.
pub open spec fn ticks_on_one_line(s: Seq<char>) -> bool {
    forall|i: int, j: int, k: int|
        0 <= i < j < k < s.len() ==> !(#[trigger] s[i] == '`' && #[trigger] s[j] == '\n'
            && #[trigger] s[k] == '`')
}

/// Text in which each of the two emphasis markers is never doubled or opens no emphasis, in which
/// only one line holds backticks, and of which no line but the first starts with a code fence.
pub open spec fn is_tame(s: Seq<char>) -> bool {
    &&& never_doubled(s, '*') || never_emphasis(s, '*')
    &&& never_doubled(s, '_') || never_emphasis(s, '_')
    &&& no_later_fence(s)
    &&& ticks_on_one_line(s)
}

/// A position that parts no run of emphasis markers.
pub open spec fn is_clean_cut(s: Seq<char>, n: int) -> bool {
    !pair_at(s, n - 1, '*') && !pair_at(s, n - 1, '_')
}

/// The text of a state that is not given out yet.
pub open spec fn pending(st: FilterState) -> Seq<char> {
    match st.inline {
        Some(span) => span.acc + st.buf,
        None => st.buf,
    }
}

/// Code that ends on its line, and no emphasis by a marker that is doubled.
pub open spec fn span_is_tame(kind: InlineKind, s: Seq<char>) -> bool {
    &&& kind == InlineKind::Code ==> streaming::ends_on_its_line(s)
    &&& kind == InlineKind::Italic ==> never_doubled(s, '*')
    &&& kind == InlineKind::UItalic ==> never_doubled(s, '_')
}

/// A state outside code fences whose text is tame.
pub open spec fn is_tame_state(st: FilterState) -> bool {
    &&& !st.fence
    &&& st.inline matches Some(span) ==> !st.sol && span_is_tame(span.kind, pending(st))
    &&& st.sol ==> !text::occurs_at(st.buf, "```"@, 0)
    &&& is_tame(pending(st))
}

proof fn lemma_suffix_marker(s: Seq<char>, n: int, c: char)
    requires
        0 <= n <= s.len(),
        !pair_at(s, n - 1, c),
    ensures
        never_doubled(s, c) ==> never_doubled(s.skip(n), c),
        never_emphasis(s, c) ==> never_emphasis(s.skip(n), c),
{
    let t = s.skip(n);
    assert forall|i: int| i >= 0 implies #[trigger] md::char_is(t, i, c) == md::char_is(
        s,
        n + i,
        c,
    ) by {}
    if never_doubled(s, c) {
        assert forall|i: int| !pair_at(t, i, c) by {
            assert(!pair_at(s, n + i, c));
        }
    }
    if never_emphasis(s, c) {
        assert forall|i: int| #[trigger] run_starts(t, i, c) implies opens_no_emphasis(t, i, c) by {
            assert(run_starts(s, n + i, c)) by {
                if i > 0 {
                    assert(!md::char_is(t, i - 1, c));
                }
            }
            assert(opens_no_emphasis(s, n + i, c));
            assert(md::char_is(t, i + 1, c) == md::char_is(s, n + i + 1, c));
            assert(md::char_is(t, i + 2, c) == md::char_is(s, n + i + 2, c));
            assert(md::char_is(t, i + 3, c) == md::char_is(s, n + i + 3, c));
        }
    }
}

/// What occurs in the end of a text occurs in the text.
proof fn lemma_occurs_suffix(s: Seq<char>, n: int, pat: Seq<char>, i: int)
    requires
        0 <= n <= s.len(),
        0 <= i,
    ensures
        text::occurs_at(s.skip(n), pat, i) == text::occurs_at(s, pat, n + i),
{
    if n + i + pat.len() <= s.len() {
        assert(s.skip(n).subrange(i, i + pat.len()) =~= s.subrange(n + i, n + i + pat.len()));
    }
}

proof fn lemma_tame_suffix(s: Seq<char>, n: int)
    requires
        is_tame(s),
        0 <= n <= s.len(),
        is_clean_cut(s, n),
    ensures
        is_tame(s.skip(n)),
        never_doubled(s, '*') ==> never_doubled(s.skip(n), '*'),
        never_doubled(s, '_') ==> never_doubled(s.skip(n), '_'),
        n > 0 && s[n - 1] == '\n' ==> !text::occurs_at(s.skip(n), "```"@, 0),
{
    let t = s.skip(n);
    lemma_suffix_marker(s, n, '*');
    lemma_suffix_marker(s, n, '_');
    assert forall|i: int| 0 < i < t.len() && t[i - 1] == '\n' implies !#[trigger] text::occurs_at(
        t,
        "```"@,
        i,
    ) by {
        lemma_occurs_suffix(s, n, "```"@, i);
        assert(s[n + i - 1] == t[i - 1]);
        assert(!text::occurs_at(s, "```"@, n + i));
    }
    assert forall|i: int, j: int, k: int| 0 <= i < j < k < t.len() implies !(#[trigger] t[i] == '`'
        && #[trigger] t[j] == '\n' && #[trigger] t[k] == '`') by {
        assert(t[i] == s[n + i] && t[j] == s[n + j] && t[k] == s[n + k]);
    }
    lemma_occurs_suffix(s, n, "```"@, 0);
    if n > 0 && s[n - 1] == '\n' && text::occurs_at(t, "```"@, 0) {
        reveal_strlit("```");
        assert(n < s.len());
        assert(!text::occurs_at(s, "```"@, n));
    }
}

/// Code whose backtick stands in a tame text ends on its line.
proof fn lemma_code_ends(s: Seq<char>, k: int)
    requires
        ticks_on_one_line(s),
        0 <= k < s.len(),
        s[k] == '`',
    ensures
        streaming::ends_on_its_line(s.skip(k + 1)),
{
    reveal_strlit("`");
    reveal_strlit("\n");
    let acc = s.skip(k + 1);
    text::lemma_find_from(acc, "`"@, 0);
    text::lemma_find_from(acc, "\n"@, 0);
    if let Some(nl) = text::find(acc, "\n"@) {
        if let Some(tick) = text::find(acc, "`"@) {
            assert(acc.subrange(nl, nl + 1)[0] == s[k + 1 + nl]);
            assert(acc.subrange(tick, tick + 1)[0] == s[k + 1 + tick]);
            if nl < tick {
                assert(s[k] == '`' && s[k + 1 + nl] == '\n' && s[k + 1 + tick] == '`');
            }
        }
    }
}

proof fn lemma_ends_singly(acc: Seq<char>, marker: char, j: int)
    requires
        0 <= j,
        never_doubled(acc, marker),
    ensures
        streaming::ends_singly(acc, marker, j),
    decreases acc.len() - j,
{
    if j < acc.len() {
        assert(!pair_at(acc, j, marker));
        lemma_ends_singly(acc, marker, j + 1);
    }
}

/// Emphasis is opened only by a marker that is never doubled, and what opens a span parts no run of
/// markers.
proof fn lemma_body_opens(s: Seq<char>, i: int)
    requires
        0 <= i,
        is_tame(s),
        is_clean_cut(s, i),
    ensures
        match md::body_scan(s, i) {
            md::BodyStop::Open(k, n, kind) => {
                &&& is_clean_cut(s, k + n)
                &&& kind == InlineKind::Italic ==> never_doubled(s, '*')
                &&& kind == InlineKind::UItalic ==> never_doubled(s, '_')
                &&& kind == InlineKind::Code ==> n == 1 && s[k] == '`'
            },
            md::BodyStop::Newline(k) => s[k] == '\n',
            md::BodyStop::End => true,
        },
    decreases s.len() - i,
{
    if i < s.len() {
        let c = s[i];
        if c == '*' || c == '_' {
            assert(run_starts(s, i, c));
            if md::char_is(s, i + 1, c) {
                assert(pair_at(s, i, c));
                assert(opens_no_emphasis(s, i, c));
                if !md::char_is(s, i + 2, c) {
                    lemma_body_opens(s, i + 2);
                }
            } else {
                lemma_body_opens(s, i + 1);
            }
        } else {
            lemma_body_opens(s, i + 1);
        }
    }
}

/// Running text that does not stop holds no marker three times in a row.
proof fn lemma_no_triple(s: Seq<char>, i: int, k: int, c: char)
    requires
        0 <= i <= k,
        md::body_scan(s, i) is End,
        c == '*' || c == '_',
    ensures
        !(pair_at(s, k, c) && pair_at(s, k + 1, c)),
    decreases s.len() - i,
{
    if i < s.len() && k + 2 < s.len() && pair_at(s, k, c) && pair_at(s, k + 1, c) {
        if (s[i] == '*' || s[i] == '_') && md::char_is(s, i + 1, s[i]) {
            if k >= i + 2 {
                lemma_no_triple(s, i + 2, k, c);
            }
        } else if k >= i + 1 {
            lemma_no_triple(s, i + 1, k, c);
        }
    }
}

proof fn lemma_em_cut(acc: Seq<char>, marker: char, j: int)
    requires
        0 <= j,
        never_doubled(acc, marker),
        marker != '\n',
    ensures
        md::em_end(acc, marker, j) matches md::SpanEnd::Closed { out, rest, line_end } ==> {
            let n = acc.len() - rest.len();
            &&& is_clean_cut(acc, n)
            &&& n > 0
            &&& line_end ==> acc[n - 1] == '\n'
        },
    decreases acc.len() - j,
{
    if j < acc.len() {
        assert(!pair_at(acc, j, marker));
        lemma_em_cut(acc, marker, j + 1);
        if j + 2 <= acc.len() {
            lemma_em_cut(acc, marker, j + 2);
        }
    }
}

/// Three markers that end a span are a run of their own.
proof fn lemma_triple_cut(acc: Seq<char>, triple: Seq<char>, c: char)
    requires
        triple == seq![c, c, c],
        never_doubled(acc, c) || never_emphasis(acc, c),
        c == '*' || c == '_',
    ensures
        md::simple_end(acc, triple) matches md::SpanEnd::Closed { out, rest, line_end }
            ==> is_clean_cut(acc, acc.len() - rest.len()),
{
    text::lemma_find_from(acc, triple, 0);
    if let Some(i) = text::find(acc, triple) {
        let found = acc.subrange(i, i + 3);
        assert(found[0] == c && found[1] == c && found[2] == c);
        assert(acc[i] == c && acc[i + 1] == c && acc[i + 2] == c);
        assert(pair_at(acc, i, c));
        if md::char_is(acc, i - 1, c) {
            assert(acc.subrange(i - 1, i + 2) =~= triple);
            assert(text::occurs_at(acc, triple, i - 1));
        }
        assert(run_starts(acc, i, c));
        assert(opens_no_emphasis(acc, i, c));
    }
}

/// What ends a span parts no run of markers.
proof fn lemma_span_cut(kind: InlineKind, acc: Seq<char>)
    requires
        span_is_tame(kind, acc),
        is_tame(acc),
    ensures
        md::span_end(kind, acc) matches md::SpanEnd::Closed { out, rest, line_end } ==> {
            let n = acc.len() - rest.len();
            &&& is_clean_cut(acc, n)
            &&& line_end ==> n > 0 && acc[n - 1] == '\n'
        },
{
    reveal_strlit("]");
    reveal_strlit(")");
    reveal_strlit("\n");
    reveal_strlit("`");
    text::lemma_find_from(acc, "\n"@, 0);
    if let Some(nl) = text::find(acc, "\n"@) {
        assert(acc.subrange(nl, nl + 1)[0] == acc[nl]);
    }
    match kind {
        InlineKind::Strike => {
            reveal_strlit("~~");
            text::lemma_find_from(acc, "~~"@, 0);
            if let Some(i) = text::find(acc, "~~"@) {
                assert(acc.subrange(i, i + 2)[1] == acc[i + 1]);
            }
        },
        InlineKind::Bold3 => {
            reveal_strlit("***");
            assert("***"@ =~= seq!['*', '*', '*']);
            lemma_triple_cut(acc, "***"@, '*');
        },
        InlineKind::UBold3 => {
            reveal_strlit("___");
            assert("___"@ =~= seq!['_', '_', '_']);
            lemma_triple_cut(acc, "___"@, '_');
        },
        InlineKind::Italic => {
            lemma_em_cut(acc, '*', 0);
        },
        InlineKind::UItalic => {
            lemma_em_cut(acc, '_', 0);
        },
        InlineKind::Image => {
            text::lemma_find_from(acc, "]"@, 0);
            if let Some(cb) = text::find(acc, "]"@) {
                assert(acc.subrange(cb, cb + 1)[0] == acc[cb]);
                text::lemma_find_from(acc, ")"@, cb + 2);
                if let Some(cp) = text::find_from(acc, ")"@, cb + 2) {
                    assert(acc.subrange(cp, cp + 1)[0] == acc[cp]);
                }
            }
        },
        InlineKind::Table => {},
        InlineKind::Code => {
            text::lemma_find_from(acc, "`"@, 0);
            if let Some(i) = text::find(acc, "`"@) {
                assert(acc.subrange(i, i + 1)[0] == acc[i]);
            }
        },
    }
}

/// Inside a span.
proof fn lemma_tame_inline(st: FilterState, span: OpenSpan)
    requires
        st.buf.len() > 0,
        is_tame_state(st),
        st.inline == Some(span),
    ensures
        streaming::steps_steadily(st, false),
        md::filter_step(st, false) matches Some(next) ==> is_tame_state(next.state),
{
    reveal(md::filter_step);
    let acc = span.acc + st.buf;
    if span.kind == InlineKind::Italic {
        lemma_ends_singly(acc, '*', 0);
    } else if span.kind == InlineKind::UItalic {
        lemma_ends_singly(acc, '_', 0);
    }
    laws::lemma_span_rest(span.kind, acc);
    lemma_span_cut(span.kind, acc);
    match md::span_end(span.kind, acc) {
        md::SpanEnd::Closed { out, rest, line_end } => {
            lemma_tame_suffix(acc, acc.len() - rest.len());
        },
        md::SpanEnd::Open => {
            assert(acc + Seq::<char>::empty() =~= acc);
        },
        md::SpanEnd::BlankRow => {},
    }
}

/// At the start of a line.
proof fn lemma_tame_sol(st: FilterState)
    requires
        st.buf.len() > 0,
        is_tame_state(st),
        st.inline is None,
        st.sol,
    ensures
        streaming::steps_steadily(st, false),
        md::filter_step(st, false) matches Some(next) && is_tame_state(next.state),
{
    reveal(md::filter_step);
    let buf = st.buf;
    text::lemma_byte_len_bounds(buf);
    md::lemma_run_length(buf, '#', false, 0);
    md::lemma_run_length(buf, buf[0], true, 0);
    assert forall|n: int|
        0 < n <= buf.len() && buf[n - 1] != '*' && buf[n - 1] != '_' implies is_tame(
        #[trigger] buf.skip(n),
    ) && (buf[n - 1] == '\n' ==> !text::occurs_at(buf.skip(n), "```"@, 0)) by {
        lemma_tame_suffix(buf, n);
    }
    if buf[0] == '>' {
        assert(is_tame(buf.skip(1)));
        assert(md::char_is(buf, 1, ' ') ==> is_tame(buf.skip(2)));
    } else if buf[0] == '#' {
        let n = md::run_length(buf, '#', false, 0);
        assert(md::char_is(buf, n, ' ') ==> is_tame(buf.skip(n + 1)));
    } else if buf[0] == '|' {
        assert(is_tame(buf.skip(1)));
        assert(Seq::<char>::empty() + buf.skip(1) =~= buf.skip(1));
    } else if buf[0] == '\n' {
        assert(is_tame(buf.skip(1)));
    } else if buf[0] == '-' || buf[0] == '*' || buf[0] == '_' {
        let j = md::run_length(buf, buf[0], true, 0);
        assert(md::char_is(buf, j, '\n') ==> is_tame(buf.skip(j + 1)));
    }
}

/// In running text.
proof fn lemma_tame_body(st: FilterState)
    requires
        st.buf.len() > 0,
        is_tame_state(st),
        st.inline is None,
        !st.sol,
    ensures
        streaming::steps_steadily(st, false),
        md::filter_step(st, false) matches Some(next) && is_tame_state(next.state),
{
    reveal(md::filter_step);
    let buf = st.buf;
    md::lemma_body_scan(buf, 0);
    lemma_body_opens(buf, 0);
    match md::body_scan(buf, 0) {
        md::BodyStop::Newline(i) => {
            lemma_tame_suffix(buf, i + 1);
        },
        md::BodyStop::Open(i, n, kind) => {
            lemma_tame_suffix(buf, i + n);
            if kind == InlineKind::Code {
                lemma_code_ends(buf, i);
            }
            assert(Seq::<char>::empty() + buf.skip(i + n) =~= buf.skip(i + n));
        },
        md::BodyStop::End => {
            let n = buf.len() as int;
            let h = md::held_back(buf);
            assert(is_clean_cut(buf, n - h)) by {
                if h == 2 && n >= 3 {
                    lemma_no_triple(buf, 0, n - 3, '*');
                    lemma_no_triple(buf, 0, n - 3, '_');
                    assert(buf[n - 3] != buf[n - 2]);
                }
            }
            lemma_tame_suffix(buf, n - h);
        },
    }
}

proof fn lemma_tame_run(st: FilterState)
    requires
        is_tame_state(st),
    ensures
        streaming::is_steady(st, false),
    decreases md::weight(st), if st.sol { 1int } else { 0int },
{
    if st.buf.len() > 0 {
        match st.inline {
            Some(span) => lemma_tame_inline(st, span),
            None => if st.sol {
                lemma_tame_sol(st);
            } else {
                lemma_tame_body(st);
            },
        }
        md::lemma_step_progress(st, false);
        if let Some(next) = md::filter_step(st, false) {
            if next.state != st && next.state.buf.len() > 0 {
                lemma_tame_run(next.state);
            }
        }
    }
}

/// A tame text that does not start with a code fence is read steadily.
pub proof fn law_tame_text_is_steady(s: Seq<char>)
    requires
        is_tame(s),
        !text::occurs_at(s, "```"@, 0),
    ensures
        streaming::is_steady_text(s, false),
{
    let st = md::with_text(md::initial_state(), s);
    assert(st.buf =~= s);
    lemma_tame_run(st);
}

/// `c` stands only twice in a row, or alone before a space, before a line end or at the end of the
/// text: it opens nothing.
pub open spec fn never_opens(s: Seq<char>, c: char) -> bool {
    forall|i: int| #[trigger]
        run_starts(s, i, c) ==> if md::char_is(s, i + 1, c) {
            !md::char_is(s, i + 2, c)
        } else {
            i + 1 >= s.len() || s[i + 1] == ' ' || s[i + 1] == '\n'
        }
}

/// A character that may open emphasis or a table row.
pub open spec fn may_open(s: Seq<char>, i: int) -> bool {
    ||| s[i] == '|'
    ||| s[i] == '*' && !never_opens(s, '*')
    ||| s[i] == '_' && !never_opens(s, '_')
}

pub open spec fn line_end_between(s: Seq<char>, i: int, k: int) -> bool {
    exists|j: int| i <= j < k && #[trigger] s[j] == '\n'
}

/// Every line end has an even number of backticks before it, or an odd one where `odd`.
pub open spec fn ticks_are_paired(s: Seq<char>, odd: bool) -> bool {
    forall|k: int|
        0 <= k < s.len() && #[trigger] s[k] == '\n' ==> md::count_of(s.take(k), '`') % 2 == if odd {
            1int
        } else {
            0int
        }
}

/// Text of lines with inline code and lines with emphasis: each of the two emphasis markers is never
/// doubled or opens nothing, nothing on a line before a backtick may open emphasis or a table row,
/// there are no images and no struck text, and no line but the first starts with a code fence.
pub open spec fn is_orderly(s: Seq<char>) -> bool {
    &&& never_doubled(s, '*') || never_opens(s, '*')
    &&& never_doubled(s, '_') || never_opens(s, '_')
    &&& never_doubled(s, '~')
    &&& forall|i: int| #![trigger s[i]] md::char_is(s, i, '!') ==> !md::char_is(s, i + 1, '[')
    &&& forall|i: int, k: int|
        #![trigger may_open(s, i), s[k]]
        0 <= i < k < s.len() && may_open(s, i) && s[k] == '`' ==> line_end_between(s, i, k)
    &&& no_later_fence(s)
}

/// The first line holds no backtick.
pub open spec fn starts_without_ticks(s: Seq<char>) -> bool {
    forall|k: int| 0 <= k < s.len() && #[trigger] s[k] == '`' ==> line_end_between(s, 0, k)
}

/// A state outside code fences whose text is orderly, with backticks in pairs on each line.
pub open spec fn is_orderly_state(st: FilterState) -> bool {
    &&& !st.fence
    &&& is_orderly(pending(st))
    &&& st.sol ==> !text::occurs_at(st.buf, "```"@, 0)
    &&& match st.inline {
        None => ticks_are_paired(pending(st), false),
        Some(span) => {
            &&& !st.sol
            &&& match span.kind {
                InlineKind::Code => ticks_are_paired(pending(st), true),
                InlineKind::Italic => ticks_are_paired(pending(st), false) && starts_without_ticks(
                    pending(st),
                ) && never_doubled(pending(st), '*'),
                InlineKind::UItalic => ticks_are_paired(pending(st), false) && starts_without_ticks(
                    pending(st),
                ) && never_doubled(pending(st), '_'),
                InlineKind::Table => ticks_are_paired(pending(st), false) && starts_without_ticks(
                    pending(st),
                ),
                _ => false,
            }
        },
    }
}

proof fn lemma_count_add(a: Seq<char>, b: Seq<char>, c: char)
    ensures
        md::count_of(a + b, c) == md::count_of(a, c) + md::count_of(b, c),
    decreases b.len(),
{
    if b.len() == 0 {
        assert(a + b =~= a);
    } else {
        assert((a + b).drop_last() =~= a + b.drop_last());
        lemma_count_add(a, b.drop_last(), c);
    }
}

proof fn lemma_count_none(s: Seq<char>, c: char)
    requires
        forall|i: int| 0 <= i < s.len() ==> #[trigger] s[i] != c,
    ensures
        md::count_of(s, c) == 0,
    decreases s.len(),
{
    if s.len() > 0 {
        assert(s[s.len() - 1] != c);
        lemma_count_none(s.drop_last(), c);
    }
}

/// A cut behind `n` characters of which none is a backtick, or of which the last is the only one.
proof fn lemma_paired_suffix(s: Seq<char>, n: int, odd: bool)
    requires
        ticks_are_paired(s, odd),
        0 <= n <= s.len(),
        forall|i: int| 0 <= i < n - 1 ==> #[trigger] s[i] != '`',
    ensures
        n > 0 && s[n - 1] == '`' ==> ticks_are_paired(s.skip(n), !odd),
        n == 0 || s[n - 1] != '`' ==> ticks_are_paired(s.skip(n), odd),
{
    let t = s.skip(n);
    let a = s.take(n);
    let ticks: nat = if n > 0 && s[n - 1] == '`' {
        1
    } else {
        0
    };
    assert(md::count_of(a, '`') == ticks) by {
        if n > 0 {
            assert forall|i: int| 0 <= i < a.drop_last().len() implies #[trigger] a.drop_last()[i]
                != '`' by {
                assert(s[i] != '`');
            }
            lemma_count_none(a.drop_last(), '`');
        }
    }
    assert forall|k: int| 0 <= k < t.len() && #[trigger] t[k] == '\n' implies md::count_of(
        t.take(k),
        '`',
    ) + ticks == md::count_of(s.take(n + k), '`') && s[n + k] == '\n' by {
        lemma_count_add(a, t.take(k), '`');
        assert(s.take(n + k) =~= a + t.take(k));
    }
}

proof fn lemma_never_opens_suffix(s: Seq<char>, n: int, c: char)
    requires
        0 <= n <= s.len(),
        !pair_at(s, n - 1, c),
        never_opens(s, c),
    ensures
        never_opens(s.skip(n), c),
{
    let t = s.skip(n);
    assert forall|i: int| i >= 0 implies #[trigger] md::char_is(t, i, c) == md::char_is(
        s,
        n + i,
        c,
    ) by {}
    assert forall|i: int| #[trigger] run_starts(t, i, c) implies if md::char_is(t, i + 1, c) {
        !md::char_is(t, i + 2, c)
    } else {
        i + 1 >= t.len() || t[i + 1] == ' ' || t[i + 1] == '\n'
    } by {
        assert(run_starts(s, n + i, c)) by {
            if i > 0 {
                assert(!md::char_is(t, i - 1, c));
            }
        }
        assert(md::char_is(t, i + 1, c) == md::char_is(s, n + i + 1, c));
        assert(md::char_is(t, i + 2, c) == md::char_is(s, n + i + 2, c));
    }
}

proof fn lemma_orderly_suffix(s: Seq<char>, n: int)
    requires
        is_orderly(s),
        0 <= n <= s.len(),
        is_clean_cut(s, n),
    ensures
        is_orderly(s.skip(n)),
        never_doubled(s, '*') ==> never_doubled(s.skip(n), '*'),
        never_doubled(s, '_') ==> never_doubled(s.skip(n), '_'),
        n > 0 && s[n - 1] == '\n' ==> !text::occurs_at(s.skip(n), "```"@, 0),
        n > 0 && may_open(s, n - 1) ==> starts_without_ticks(s.skip(n)),
{
    let t = s.skip(n);
    lemma_suffix_marker(s, n, '*');
    lemma_suffix_marker(s, n, '_');
    if never_opens(s, '*') {
        lemma_never_opens_suffix(s, n, '*');
    }
    if never_opens(s, '_') {
        lemma_never_opens_suffix(s, n, '_');
    }
    assert forall|i: int| !pair_at(t, i, '~') by {
        assert(!pair_at(s, n + i, '~'));
    }
    assert forall|i: int| #![trigger t[i]] md::char_is(t, i, '!') implies !md::char_is(
        t,
        i + 1,
        '[',
    ) by {
        if md::char_is(t, i, '!') {
            assert(s[n + i] == t[i]);
            assert(md::char_is(s, n + i, '!'));
        }
    }
    assert forall|i: int, k: int|
        #![trigger may_open(t, i), t[k]]
        0 <= i < k < t.len() && may_open(t, i) && t[k] == '`' implies line_end_between(
        t,
        i,
        k,
    ) by {
        assert(may_open(s, n + i));
        assert(s[n + k] == '`');
        let j = choose|j: int| n + i <= j < n + k && #[trigger] s[j] == '\n';
        assert(t[j - n] == '\n');
    }
    if n > 0 && may_open(s, n - 1) {
        assert forall|k: int| 0 <= k < t.len() && #[trigger] t[k] == '`' implies line_end_between(
            t,
            0,
            k,
        ) by {
            assert(s[n + k] == '`');
            let j = choose|j: int| n - 1 <= j < n + k && #[trigger] s[j] == '\n';
            assert(t[j - n] == '\n');
        }
    }
    assert forall|i: int| 0 < i < t.len() && t[i - 1] == '\n' implies !#[trigger] text::occurs_at(
        t,
        "```"@,
        i,
    ) by {
        lemma_occurs_suffix(s, n, "```"@, i);
        assert(s[n + i - 1] == t[i - 1]);
        assert(!text::occurs_at(s, "```"@, n + i));
    }
    lemma_occurs_suffix(s, n, "```"@, 0);
    if n > 0 && s[n - 1] == '\n' && text::occurs_at(t, "```"@, 0) {
        reveal_strlit("```");
        assert(!text::occurs_at(s, "```"@, n));
    }
}

/// What ends emphasis: no line end comes before it.
proof fn lemma_em_first(acc: Seq<char>, marker: char, j: int)
    requires
        0 <= j <= acc.len(),
        forall|i: int| 0 <= i < j ==> #[trigger] acc[i] != '\n',
        never_doubled(acc, marker),
        marker != '\n',
    ensures
        md::em_end(acc, marker, j) matches md::SpanEnd::Closed { out, rest, line_end } ==> {
            let n = acc.len() - rest.len();
            &&& 0 < n <= acc.len()
            &&& forall|i: int| 0 <= i < n - 1 ==> #[trigger] acc[i] != '\n'
            &&& acc[n - 1] == '\n' || acc[n - 1] == marker
        },
    decreases acc.len() - j,
{
    if j < acc.len() {
        assert(!pair_at(acc, j, marker));
        if acc[j] != '\n' && acc[j] != marker {
            lemma_em_first(acc, marker, j + 1);
        }
    }
}

/// Inside code.
proof fn lemma_orderly_code(st: FilterState, span: OpenSpan)
    requires
        st.buf.len() > 0,
        is_orderly_state(st),
        st.inline == Some(span),
        span.kind == InlineKind::Code,
    ensures
        streaming::steps_steadily(st, false),
        md::filter_step(st, false) matches Some(next) && is_orderly_state(next.state),
{
    reveal(md::filter_step);
    reveal_strlit("`");
    reveal_strlit("\n");
    let acc = span.acc + st.buf;
    text::lemma_find_from(acc, "`"@, 0);
    text::lemma_find_from(acc, "\n"@, 0);
    assert forall|i: int| 0 <= i < acc.len() && #[trigger] acc[i] == '`' implies text::occurs_at(
        acc,
        "`"@,
        i,
    ) by {
        assert(acc.subrange(i, i + 1) =~= "`"@);
    }
    if let Some(nl) = text::find(acc, "\n"@) {
        assert(acc.subrange(nl, nl + 1)[0] == acc[nl]);
        let line = acc.take(nl);
        if forall|i: int| 0 <= i < line.len() ==> #[trigger] line[i] != '`' {
            lemma_count_none(line, '`');
        } else {
            let i = choose|i: int| 0 <= i < line.len() && #[trigger] line[i] == '`';
            assert(acc[i] == '`');
        }
    }
    if let Some(tick) = text::find(acc, "`"@) {
        assert(acc.subrange(tick, tick + 1)[0] == acc[tick]);
        lemma_orderly_suffix(acc, tick + 1);
        lemma_paired_suffix(acc, tick + 1, true);
    } else {
        assert(acc + Seq::<char>::empty() =~= acc);
    }
}

/// Inside emphasis or a table row.
proof fn lemma_orderly_inline(st: FilterState, span: OpenSpan)
    requires
        st.buf.len() > 0,
        is_orderly_state(st),
        st.inline == Some(span),
        span.kind != InlineKind::Code,
    ensures
        streaming::steps_steadily(st, false),
        md::filter_step(st, false) matches Some(next) ==> is_orderly_state(next.state),
{
    reveal(md::filter_step);
    reveal_strlit("\n");
    let acc = span.acc + st.buf;
    if span.kind == InlineKind::Italic {
        lemma_ends_singly(acc, '*', 0);
        lemma_em_first(acc, '*', 0);
        lemma_em_cut(acc, '*', 0);
    } else if span.kind == InlineKind::UItalic {
        lemma_ends_singly(acc, '_', 0);
        lemma_em_first(acc, '_', 0);
        lemma_em_cut(acc, '_', 0);
    } else {
        text::lemma_find_from(acc, "\n"@, 0);
        assert forall|i: int| 0 <= i < acc.len() && #[trigger] acc[i] == '\n' implies text::occurs_at(
            acc,
            "\n"@,
            i,
        ) by {
            assert(acc.subrange(i, i + 1) =~= "\n"@);
        }
        if let Some(nl) = text::find(acc, "\n"@) {
            assert(acc.subrange(nl, nl + 1)[0] == acc[nl]);
        }
    }
    laws::lemma_span_rest(span.kind, acc);
    match md::span_end(span.kind, acc) {
        md::SpanEnd::Closed { out, rest, line_end } => {
            let n = acc.len() - rest.len();
            assert forall|i: int| 0 <= i < n - 1 implies #[trigger] acc[i] != '`' by {
                if acc[i] == '`' {
                    let j = choose|j: int| 0 <= j < i && #[trigger] acc[j] == '\n';
                    assert(acc[j] == '\n');
                }
            }
            assert(is_clean_cut(acc, n));
            lemma_orderly_suffix(acc, n);
            lemma_paired_suffix(acc, n, false);
        },
        md::SpanEnd::Open => {
            assert(acc + Seq::<char>::empty() =~= acc);
        },
        md::SpanEnd::BlankRow => {},
    }
}

/// The characters of a run.
proof fn lemma_run_chars(s: Seq<char>, c: char, spaced: bool, from: int)
    requires
        0 <= from,
    ensures
        forall|i: int|
            from <= i < from + md::run_length(s, c, spaced, from) ==> #[trigger] s[i] == c || s[i]
                == ' ',
    decreases s.len() - from,
{
    if from < s.len() {
        lemma_run_chars(s, c, spaced, from + 1);
    }
}

/// At the start of a line.
proof fn lemma_orderly_sol(st: FilterState)
    requires
        st.buf.len() > 0,
        is_orderly_state(st),
        st.inline is None,
        st.sol,
    ensures
        streaming::steps_steadily(st, false),
        md::filter_step(st, false) matches Some(next) && is_orderly_state(next.state),
{
    reveal(md::filter_step);
    let buf = st.buf;
    md::lemma_run_length(buf, '#', false, 0);
    md::lemma_run_length(buf, buf[0], true, 0);
    if buf[0] == '>' {
        lemma_orderly_suffix(buf, 1);
        lemma_paired_suffix(buf, 1, false);
        if md::char_is(buf, 1, ' ') {
            lemma_orderly_suffix(buf, 2);
            lemma_paired_suffix(buf, 2, false);
        }
    } else if buf[0] == '#' {
        let n = md::run_length(buf, '#', false, 0);
        lemma_run_chars(buf, '#', false, 0);
        if md::char_is(buf, n, ' ') {
            lemma_orderly_suffix(buf, n + 1);
            lemma_paired_suffix(buf, n + 1, false);
        }
    } else if buf[0] == '|' {
        lemma_orderly_suffix(buf, 1);
        lemma_paired_suffix(buf, 1, false);
        assert(may_open(buf, 0));
        assert(Seq::<char>::empty() + buf.skip(1) =~= buf.skip(1));
    } else if buf[0] == '\n' {
        lemma_orderly_suffix(buf, 1);
        lemma_paired_suffix(buf, 1, false);
    } else if buf[0] == '-' || buf[0] == '*' || buf[0] == '_' {
        let j = md::run_length(buf, buf[0], true, 0);
        lemma_run_chars(buf, buf[0], true, 0);
        if md::char_is(buf, j, '\n') {
            lemma_orderly_suffix(buf, j + 1);
            lemma_paired_suffix(buf, j + 1, false);
        }
    }
}

/// Running text stops at the first backtick at the latest, and otherwise only at a line end or where
/// emphasis is opened by a marker that is never doubled.
proof fn lemma_orderly_scan(s: Seq<char>, i: int)
    requires
        0 <= i <= s.len(),
        is_orderly(s),
        is_clean_cut(s, i),
        forall|j: int| 0 <= j < i ==> #[trigger] s[j] != '`',
    ensures
        match md::body_scan(s, i) {
            md::BodyStop::Newline(k) => 0 <= k < s.len() && s[k] == '\n' && forall|j: int|
                0 <= j < k ==> #[trigger] s[j] != '`',
            md::BodyStop::Open(k, n, kind) => {
                &&& n == 1
                &&& 0 <= k < s.len()
                &&& is_clean_cut(s, k + 1)
                &&& forall|j: int| 0 <= j < k ==> #[trigger] s[j] != '`'
                &&& match kind {
                    InlineKind::Code => s[k] == '`',
                    InlineKind::Italic => s[k] == '*' && may_open(s, k) && never_doubled(s, '*'),
                    InlineKind::UItalic => s[k] == '_' && may_open(s, k) && never_doubled(s, '_'),
                    _ => false,
                }
            },
            md::BodyStop::End => forall|j: int| 0 <= j < s.len() ==> #[trigger] s[j] != '`',
        },
    decreases s.len() - i,
{
    if i < s.len() {
        let c = s[i];
        if c == '\n' || c == '`' {
        } else if c == '*' || c == '_' {
            assert(run_starts(s, i, c));
            if md::char_is(s, i + 1, c) {
                assert(pair_at(s, i, c));
                lemma_orderly_scan(s, i + 2);
            } else {
                if !(i + 1 < s.len() && s[i + 1] != ' ' && s[i + 1] != '\n') {
                    lemma_orderly_scan(s, i + 1);
                }
            }
        } else {
            assert(md::char_is(s, i, '!') ==> !md::char_is(s, i + 1, '['));
            assert(!pair_at(s, i, '~'));
            lemma_orderly_scan(s, i + 1);
        }
    }
}

/// In running text.
proof fn lemma_orderly_body(st: FilterState)
    requires
        st.buf.len() > 0,
        is_orderly_state(st),
        st.inline is None,
        !st.sol,
    ensures
        streaming::steps_steadily(st, false),
        md::filter_step(st, false) matches Some(next) && is_orderly_state(next.state),
{
    reveal(md::filter_step);
    let buf = st.buf;
    lemma_orderly_scan(buf, 0);
    match md::body_scan(buf, 0) {
        md::BodyStop::Newline(i) => {
            lemma_orderly_suffix(buf, i + 1);
            lemma_paired_suffix(buf, i + 1, false);
        },
        md::BodyStop::Open(i, n, kind) => {
            lemma_orderly_suffix(buf, i + 1);
            lemma_paired_suffix(buf, i + 1, false);
            assert(Seq::<char>::empty() + buf.skip(i + 1) =~= buf.skip(i + 1));
        },
        md::BodyStop::End => {
            let n = buf.len() as int;
            let h = md::held_back(buf);
            assert(is_clean_cut(buf, n - h)) by {
                if h == 2 && n >= 3 {
                    lemma_no_triple(buf, 0, n - 3, '*');
                    lemma_no_triple(buf, 0, n - 3, '_');
                    assert(buf[n - 3] != buf[n - 2]);
                }
            }
            lemma_orderly_suffix(buf, n - h);
            lemma_paired_suffix(buf, n - h, false);
        },
    }
}

proof fn lemma_orderly_run(st: FilterState)
    requires
        is_orderly_state(st),
    ensures
        streaming::is_steady(st, false),
    decreases md::weight(st), if st.sol { 1int } else { 0int },
{
    if st.buf.len() > 0 {
        match st.inline {
            Some(span) => if span.kind == InlineKind::Code {
                lemma_orderly_code(st, span);
            } else {
                lemma_orderly_inline(st, span);
            },
            None => if st.sol {
                lemma_orderly_sol(st);
            } else {
                lemma_orderly_body(st);
            },
        }
        md::lemma_step_progress(st, false);
        if let Some(next) = md::filter_step(st, false) {
            if next.state != st && next.state.buf.len() > 0 {
                lemma_orderly_run(next.state);
            }
        }
    }
}

/// An orderly text whose backticks come in pairs on each line, and which does not start with a code
/// fence, is read steadily.
pub proof fn law_orderly_text_is_steady(s: Seq<char>)
    requires
        is_orderly(s),
        ticks_are_paired(s, false),
        !text::occurs_at(s, "```"@, 0),
    ensures
        streaming::is_steady_text(s, false),
{
    let st = md::with_text(md::initial_state(), s);
    assert(st.buf =~= s);
    lemma_orderly_run(st);
}

} // verus!
