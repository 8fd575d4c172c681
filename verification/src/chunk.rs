//! Cuts long text into pieces that a message can carry.

use crate::text;
use vstd::prelude::*;

verus! {

/// How many characters of `s` fit into `limit` bytes.
pub open spec fn window_len(s: Seq<char>, limit: int) -> int
    decreases s.len(),
{
    if s.len() == 0 || text::char_width(s[0]) > limit {
        0
    } else {
        1 + window_len(s.drop_first(), limit - text::char_width(s[0]))
    }
}

/// The last position at or before `at` where `pat` stands in `s`.
pub open spec fn rfind_from(s: Seq<char>, pat: Seq<char>, at: int) -> Option<int>
    decreases at + 1,
{
    if at < 0 {
        None
    } else if text::occurs_at(s, pat, at) {
        Some(at)
    } else {
        rfind_from(s, pat, at - 1)
    }
}

/// The last position where `pat` stands in `s`.
pub open spec fn rfind(s: Seq<char>, pat: Seq<char>) -> Option<int> {
    rfind_from(s, pat, s.len() - pat.len())
}

/// Where `window` can be cut after its last `pat`: only beyond three tenths of its bytes.
pub open spec fn late_break(window: Seq<char>, pat: Seq<char>) -> Option<int> {
    match rfind(window, pat) {
        Some(i) => if text::byte_len(window.take(i)) > text::byte_len(window) * 3 / 10 {
            Some(i + pat.len())
        } else {
            None
        },
        None => None,
    }
}

/// Where text that is too long is cut: after a blank line, else after a line end, else after a
/// space, else where the limit falls.
pub open spec fn cut_at(s: Seq<char>, limit: int) -> int {
    let n = window_len(s, limit);
    let window = s.take(n);
    match late_break(window, "\n\n"@) {
        Some(cut) => cut,
        None => match late_break(window, "\n"@) {
            Some(cut) => cut,
            None => match late_break(window, " "@) {
                Some(cut) => cut,
                None => n,
            },
        },
    }
}

/// The pieces of `s`, each of at most `limit` bytes.
pub open spec fn chunks(s: Seq<char>, limit: int) -> Seq<Seq<char>>
    decreases s.len(),
{
    let cut = cut_at(s, limit);
    if text::byte_len(s) <= limit || cut <= 0 || cut > s.len() {
        seq![s]
    } else {
        seq![s.take(cut)] + chunks(s.skip(cut), limit)
    }
}

/// Every character of `s` fits into `limit` bytes, or all of `s` does.
pub open spec fn divisible(s: Seq<char>, limit: int) -> bool {
    text::byte_len(s) <= limit || forall|i: int|
        0 <= i < s.len() ==> text::char_width(#[trigger] s[i]) <= limit
}

pub proof fn lemma_window_len(s: Seq<char>, limit: int)
    requires
        0 <= limit,
    ensures
        ({
            let n = window_len(s, limit);
            &&& 0 <= n <= s.len()
            &&& text::byte_len(s.take(n)) <= limit
            &&& n < s.len() ==> text::byte_len(s.take(n)) + text::char_width(s[n]) > limit
            &&& text::byte_len(s) > limit ==> n < s.len()
        }),
    decreases s.len(),
{
    let n = window_len(s, limit);
    if s.len() == 0 || text::char_width(s[0]) > limit {
        assert(s.take(0) =~= Seq::empty());
        if s.len() > 0 {
            text::lemma_byte_len_bounds(s);
        }
    } else {
        let rest = s.drop_first();
        let w = text::char_width(s[0]);
        lemma_window_len(rest, limit - w);
        text::lemma_char_width(s[0]);
        assert(s.take(n).drop_first() =~= rest.take(n - 1));
        assert(s.take(n)[0] == s[0]);
    }
}

proof fn lemma_rfind_from(s: Seq<char>, pat: Seq<char>, at: int)
    ensures
        match rfind_from(s, pat, at) {
            Some(i) => 0 <= i <= at && text::occurs_at(s, pat, i),
            None => true,
        },
    decreases at + 1,
{
    if at >= 0 {
        lemma_rfind_from(s, pat, at - 1);
    }
}

/// Text that is too long is cut into two parts that both hold something.
pub proof fn lemma_cut_at(s: Seq<char>, limit: int)
    requires
        0 <= limit < text::byte_len(s),
        divisible(s, limit),
    ensures
        0 < cut_at(s, limit) < s.len(),
        text::byte_len(s.take(cut_at(s, limit))) <= limit,
        divisible(s.skip(cut_at(s, limit)), limit),
{
    reveal_strlit("\n\n");
    reveal_strlit("\n");
    reveal_strlit(" ");
    let n = window_len(s, limit);
    let cut = cut_at(s, limit);
    let window = s.take(n);
    lemma_window_len(s, limit);
    assert(text::char_width(s[0]) <= limit);
    lemma_rfind_from(window, "\n\n"@, n - 2);
    lemma_rfind_from(window, "\n"@, n - 1);
    lemma_rfind_from(window, " "@, n - 1);
    assert(0 < cut <= n);
    assert(s.take(cut) + s.subrange(cut, n) =~= window);
    text::lemma_byte_len_add(s.take(cut), s.subrange(cut, n));
    assert forall|i: int| 0 <= i < s.skip(cut).len() implies text::char_width(
        #[trigger] s.skip(cut)[i],
    ) <= limit by {
        assert(s.skip(cut)[i] == s[cut + i]);
    }
}

/// The pieces put together.
pub open spec fn concat(parts: Seq<Seq<char>>) -> Seq<char>
    decreases parts.len(),
{
    if parts.len() == 0 {
        Seq::empty()
    } else {
        parts[0] + concat(parts.drop_first())
    }
}

/// The pieces of a text put together are the text, none of them is over the limit, and none is
/// empty unless the text is.
pub proof fn law_chunks(s: Seq<char>, limit: int)
    requires
        0 <= limit,
        divisible(s, limit),
    ensures
        concat(chunks(s, limit)) == s,
        chunks(s, limit).len() >= 1,
        forall|i: int|
            0 <= i < chunks(s, limit).len() ==> text::byte_len(#[trigger] chunks(s, limit)[i])
                <= limit,
        s.len() > 0 ==> forall|i: int|
            0 <= i < chunks(s, limit).len() ==> (#[trigger] chunks(s, limit)[i]).len() > 0,
    decreases s.len(),
{
    if text::byte_len(s) <= limit {
        reveal_with_fuel(concat, 2);
        assert(seq![s].drop_first() =~= Seq::<Seq<char>>::empty());
        assert(s + Seq::<char>::empty() =~= s);
    } else {
        lemma_cut_at(s, limit);
        let cut = cut_at(s, limit);
        let rest = chunks(s.skip(cut), limit);
        law_chunks(s.skip(cut), limit);
        assert((seq![s.take(cut)] + rest).drop_first() =~= rest);
        assert(s.take(cut) + s.skip(cut) =~= s);
        assert forall|i: int| 0 <= i < chunks(s, limit).len() implies text::byte_len(
            #[trigger] chunks(s, limit)[i],
        ) <= limit && chunks(s, limit)[i].len() > 0 by {
            if i > 0 {
                assert(chunks(s, limit)[i] == rest[i - 1]);
            }
        }
    }
}

/// The end of the longest part of `v` from `from` on that takes at most `limit` bytes, and the
/// bytes it takes.
fn char_boundary_at_or_before(v: &Vec<char>, from: usize, limit: usize) -> (r: (usize, usize))
    requires
        from <= v.len(),
    ensures
        r.0 == from + window_len(v@.skip(from as int), limit as int),
        r.0 <= v.len(),
        r.1 == text::byte_len(v@.subrange(from as int, r.0 as int)),
        r.1 <= limit,
{
    let mut end: usize = from;
    let mut bytes: usize = 0;
    assert(v@.subrange(from as int, from as int) =~= Seq::empty());
    while end < v.len() && text::width_of(v[end]) <= limit - bytes
        invariant
            from <= end <= v.len(),
            bytes <= limit,
            bytes == text::byte_len(v@.subrange(from as int, end as int)),
            from + window_len(v@.skip(from as int), limit as int) == end + window_len(
                v@.skip(end as int),
                limit - bytes,
            ),
        decreases v.len() - end,
    {
        proof {
            text::lemma_byte_len_push(v@.subrange(from as int, end as int), v@[end as int]);
            assert(v@.subrange(from as int, end + 1) =~= v@.subrange(from as int, end as int).push(
                v@[end as int],
            ));
            assert(v@.skip(end as int).drop_first() =~= v@.skip(end + 1));
        }
        bytes += text::width_of(v[end]);
        end += 1;
    }
    (end, bytes)
}

/// The bytes that the first `n` characters of `v` take.
fn bytes_before(v: &Vec<char>, n: usize, total: usize) -> (bytes: usize)
    requires
        n <= v.len(),
        total == text::byte_len(v@),
    ensures
        bytes == text::byte_len(v@.take(n as int)),
{
    let mut bytes: usize = 0;
    let mut i: usize = 0;
    assert(v@.take(0) =~= Seq::empty());
    while i < n
        invariant
            i <= n <= v.len(),
            total == text::byte_len(v@),
            bytes == text::byte_len(v@.take(i as int)),
        decreases n - i,
    {
        proof {
            text::lemma_byte_len_push(v@.take(i as int), v@[i as int]);
            assert(v@.take(i + 1) =~= v@.take(i as int).push(v@[i as int]));
            text::lemma_byte_len_add(v@.take(i + 1), v@.skip(i + 1));
            assert(v@.take(i + 1) + v@.skip(i + 1) =~= v@);
        }
        bytes += text::width_of(v[i]);
        i += 1;
    }
    bytes
}

/// Where `window` can be cut after its last `pat`.
fn late_break_in(window: &Vec<char>, window_bytes: usize, pat: &str) -> (r: Option<usize>)
    requires
        window_bytes == text::byte_len(window@),
    ensures
        match r {
            Some(cut) => late_break(window@, pat@) == Some(cut as int) && cut <= window.len(),
            None => late_break(window@, pat@) is None,
        },
{
    let p = text::chars_of(pat);
    if p.len() > window.len() {
        return None;
    }
    let mut at: usize = window.len() - p.len();
    loop
        invariant
            p@ == pat@,
            at + p.len() <= window.len(),
            rfind(window@, pat@) == rfind_from(window@, pat@, at as int),
        ensures
            at + p.len() <= window.len(),
            rfind(window@, pat@) == Some(at as int),
        decreases at,
    {
        if text::pattern_at(window, &p, at) {
            break;
        }
        if at == 0 {
            assert(rfind_from(window@, pat@, -1) is None);
            return None;
        }
        at -= 1;
    }
    let before = bytes_before(window, at, window_bytes);
    let floor: u128 = (window_bytes as u128) * 3 / 10;
    if before as u128 > floor {
        Some(at + p.len())
    } else {
        None
    }
}

/// `text` in pieces of at most `limit` bytes each, cut where a reader would expect it.
pub fn chunk_text(text: &str, limit: usize) -> (parts: Vec<String>)
    requires
        divisible(text@, limit as int),
    ensures
        text::string_views(parts@) == chunks(text@, limit as int),
{
    let v = text::chars_of(text);
    let mut left: usize = text.as_bytes().len();
    let mut parts: Vec<String> = Vec::new();
    let mut from: usize = 0;
    let ghost all = chunks(text@, limit as int);
    assert(v@.skip(0) =~= v@);
    assert(Seq::<Seq<char>>::empty() + all =~= all);
    assert(text::string_views(parts@) =~= Seq::<Seq<char>>::empty());
    while left > limit
        invariant
            from <= v.len(),
            left == text::byte_len(v@.skip(from as int)),
            divisible(v@.skip(from as int), limit as int),
            all == text::string_views(parts@) + chunks(v@.skip(from as int), limit as int),
        decreases v.len() - from,
    {
        let ghost rest = v@.skip(from as int);
        let ghost done = text::string_views(parts@);
        proof {
            lemma_cut_at(rest, limit as int);
            lemma_window_len(rest, limit as int);
        }
        let (window_end, window_bytes) = char_boundary_at_or_before(&v, from, limit);
        let window = text::slice_of(&v, from, window_end);
        assert(window@ =~= rest.take(window_len(rest, limit as int)));
        let cut = match late_break_in(&window, window_bytes, "\n\n") {
            Some(cut) => cut,
            None => match late_break_in(&window, window_bytes, "\n") {
                Some(cut) => cut,
                None => match late_break_in(&window, window_bytes, " ") {
                    Some(cut) => cut,
                    None => window.len(),
                },
            },
        };
        assert(cut == cut_at(rest, limit as int));
        let piece = text::string_of_range(&window, 0, cut);
        assert(piece@ =~= rest.take(cut as int));
        let taken = bytes_before(&window, cut, window_bytes);
        proof {
            assert(window@.take(cut as int) =~= rest.take(cut as int));
            text::lemma_byte_len_add(rest.take(cut as int), rest.skip(cut as int));
            assert(rest.take(cut as int) + rest.skip(cut as int) =~= rest);
            assert(rest.skip(cut as int) =~= v@.skip(from + cut));
        }
        parts.push(piece);
        left -= taken;
        from += cut;
        proof {
            let after = chunks(v@.skip(from as int), limit as int);
            assert(text::string_views(parts@) =~= done.push(rest.take(cut as int)));
            assert(done + (seq![rest.take(cut as int)] + after) =~= done.push(
                rest.take(cut as int),
            ) + after);
        }
    }
    let ghost done = text::string_views(parts@);
    let last = text::string_of_range(&v, from, v.len());
    assert(last@ =~= v@.skip(from as int));
    parts.push(last);
    assert(text::string_views(parts@) =~= done + seq![v@.skip(from as int)]);
    parts
}

} // verus!
