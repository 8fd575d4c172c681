//! Where long text is cut.

use crate::chunk;
use crate::delivery::{TextDelivery, MAX_TEXT_BYTES};
use crate::text;
use vstd::prelude::*;

verus! {

/// Whether `window` is the longest part at the start of `s` that takes at most `limit` bytes.
pub open spec fn is_window(s: Seq<char>, limit: int, window: Seq<char>) -> bool {
    &&& window.len() < s.len()
    &&& window == s.take(window.len() as int)
    &&& text::byte_len(window) <= limit
    &&& text::byte_len(s.take(window.len() as int + 1)) > limit
}

/// Whether `mark` stands at `i`, with more than three tenths of the bytes of `window` before it.
pub open spec fn stands_late(window: Seq<char>, mark: Seq<char>, i: int) -> bool {
    &&& 0 <= i
    &&& i + mark.len() <= window.len()
    &&& window.subrange(i, i + mark.len()) == mark
    &&& text::byte_len(window.take(i)) > text::byte_len(window) * 3 / 10
}

pub open spec fn never_late(window: Seq<char>, mark: Seq<char>) -> bool {
    forall|i: int| !#[trigger] stands_late(window, mark, i)
}

/// Whether `i` is the last place where `mark` stands late.
pub open spec fn is_last_late(window: Seq<char>, mark: Seq<char>, i: int) -> bool {
    stands_late(window, mark, i) && forall|j: int| #[trigger]
        stands_late(window, mark, j) ==> j <= i
}

/// What is found is the last occurrence.
proof fn lemma_rfind_from(s: Seq<char>, pat: Seq<char>, at: int)
    ensures
        match chunk::rfind_from(s, pat, at) {
            Some(i) => 0 <= i <= at && text::occurs_at(s, pat, i) && forall|j: int|
                i < j <= at ==> !#[trigger] text::occurs_at(s, pat, j),
            None => forall|j: int| j <= at ==> !#[trigger] text::occurs_at(s, pat, j),
        },
    decreases at + 1,
{
    if at >= 0 {
        lemma_rfind_from(s, pat, at - 1);
    }
}

proof fn lemma_bytes_grow(s: Seq<char>, i: int, j: int)
    requires
        0 <= i <= j <= s.len(),
    ensures
        text::byte_len(s.take(i)) <= text::byte_len(s.take(j)),
{
    text::lemma_byte_len_add(s.take(i), s.subrange(i, j));
    assert(s.take(i) + s.subrange(i, j) =~= s.take(j));
}

proof fn lemma_late_break(window: Seq<char>, mark: Seq<char>)
    requires
        mark.len() > 0,
    ensures
        match chunk::late_break(window, mark) {
            Some(cut) => is_last_late(window, mark, cut - mark.len()),
            None => never_late(window, mark),
        },
{
    lemma_rfind_from(window, mark, window.len() - mark.len());
    match chunk::rfind(window, mark) {
        Some(at) => {
            assert forall|j: int| #[trigger] stands_late(window, mark, j) implies j <= at && (
            text::byte_len(window.take(at)) > text::byte_len(window) * 3 / 10) by {
                assert(text::occurs_at(window, mark, j));
                lemma_bytes_grow(window, j, at);
            }
        },
        None => {
            assert forall|j: int| !#[trigger] stands_late(window, mark, j) by {
                if stands_late(window, mark, j) {
                    assert(text::occurs_at(window, mark, j));
                }
            }
        },
    }
}

/// The longest part that fits is what the limit says.
proof fn lemma_window(s: Seq<char>, limit: int, window: Seq<char>)
    requires
        0 <= limit,
        is_window(s, limit, window),
    ensures
        chunk::window_len(s, limit) == window.len(),
{
    let n = chunk::window_len(s, limit);
    chunk::lemma_window_len(s, limit);
    let m = window.len() as int;
    if n < m {
        lemma_bytes_grow(s, n + 1, m);
        text::lemma_byte_len_push(s.take(n), s[n]);
        assert(s.take(n).push(s[n]) =~= s.take(n + 1));
    } else if n > m {
        lemma_bytes_grow(s, m + 1, n);
    }
}

/// Text that is too long is cut directly after the last blank line that stands beyond three tenths
/// of what fits; where there is none, after the last such line end; where there is none either, after
/// the last such space; and only else where the limit falls.
pub proof fn law_text_is_cut_where_a_reader_expects_it(
    s: Seq<char>,
    limit: int,
    window: Seq<char>,
    i: int,
)
    requires
        0 <= limit < text::byte_len(s),
        chunk::divisible(s, limit),
        is_window(s, limit, window),
    ensures
        ({
            let blank_line = seq!['\n', '\n'];
            let line_end = seq!['\n'];
            let space = seq![' '];
            let first = chunk::chunks(s, limit)[0];
            &&& is_last_late(window, blank_line, i) ==> first == s.take(i + 2)
            &&& never_late(window, blank_line) && is_last_late(window, line_end, i) ==> first
                == s.take(i + 1)
            &&& never_late(window, blank_line) && never_late(window, line_end) && is_last_late(
                window,
                space,
                i,
            ) ==> first == s.take(i + 1)
            &&& never_late(window, blank_line) && never_late(window, line_end) && never_late(
                window,
                space,
            ) ==> first == window
        }),
{
    reveal_strlit("\n\n");
    reveal_strlit("\n");
    reveal_strlit(" ");
    assert("\n\n"@ =~= seq!['\n', '\n']);
    assert("\n"@ =~= seq!['\n']);
    assert(" "@ =~= seq![' ']);
    lemma_window(s, limit, window);
    chunk::lemma_cut_at(s, limit);
    lemma_late_break(window, "\n\n"@);
    lemma_late_break(window, "\n"@);
    lemma_late_break(window, " "@);
    let cut = chunk::cut_at(s, limit);
    assert(chunk::chunks(s, limit)[0] == s.take(cut));
}

/// Text that fits is one piece. Of longer text the pieces behind the first are those of what is
/// left.
pub proof fn law_pieces_follow_each_other(s: Seq<char>, limit: int)
    requires
        0 <= limit,
        chunk::divisible(s, limit),
    ensures
        text::byte_len(s) <= limit ==> chunk::chunks(s, limit) == seq![s],
        text::byte_len(s) > limit ==> {
            let pieces = chunk::chunks(s, limit);
            &&& pieces.len() >= 2
            &&& pieces.drop_first() == chunk::chunks(s.skip(pieces[0].len() as int), limit)
        },
{
    if text::byte_len(s) > limit {
        chunk::lemma_cut_at(s, limit);
        let cut = chunk::cut_at(s, limit);
        let rest = chunk::chunks(s.skip(cut), limit);
        assert(rest.len() >= 1);
        assert((seq![s.take(cut)] + rest).drop_first() =~= rest);
        assert(s.take(cut).len() == cut);
    }
}

/// A text is sent in pieces of at most 4000 bytes, and in one piece where it takes no more.
pub proof fn law_messages_take_four_thousand_bytes(delivery: TextDelivery, s: Seq<char>)
    requires
        delivery.carries(s),
    ensures
        text::byte_len(s) <= 4000 ==> delivery.chunks@.len() == 1 && delivery.chunks@[0]@ == s,
        text::byte_len(s) > 4000 ==> delivery.chunks@.len() > 1,
        forall|i: int|
            0 <= i < delivery.chunks@.len() ==> text::byte_len((#[trigger] delivery.chunks@[i])@)
                <= 4000,
        chunk::concat(text::string_views(delivery.chunks@)) == s,
{
    assert forall|i: int| 0 <= i < s.len() implies text::char_width(#[trigger] s[i])
        <= MAX_TEXT_BYTES by {
        text::lemma_char_width(s[i]);
    }
    law_pieces_follow_each_other(s, MAX_TEXT_BYTES as int);
    chunk::law_chunks(s, MAX_TEXT_BYTES as int);
    let views = text::string_views(delivery.chunks@);
    assert forall|i: int| 0 <= i < delivery.chunks@.len() implies text::byte_len(
        (#[trigger] delivery.chunks@[i])@,
    ) <= 4000 by {
        assert(views[i] == delivery.chunks@[i]@);
    }
    assert(delivery.chunks@.len() > 0 ==> views[0] == delivery.chunks@[0]@);
}

} // verus!
