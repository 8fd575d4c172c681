//! Text as a sequence of characters: searching, splitting, trimming and measuring.

use vstd::prelude::*;
use vstd::utf8::*;

verus! {

/// The number of bytes that `s` takes in UTF-8.
pub open spec fn byte_len(s: Seq<char>) -> nat {
    encode_utf8(s).len()
}

/// The number of bytes that one character takes in UTF-8.
pub open spec fn char_width(c: char) -> nat {
    if (c as u32) < 0x80 {
        1
    } else if (c as u32) < 0x800 {
        2
    } else if (c as u32) < 0x10000 {
        3
    } else {
        4
    }
}

/// Whether `pat` stands in `s` at position `at`.
pub open spec fn occurs_at(s: Seq<char>, pat: Seq<char>, at: int) -> bool {
    0 <= at && at + pat.len() <= s.len() && s.subrange(at, at + pat.len()) == pat
}

/// The first position at or after `from` where `pat` stands in `s`.
pub open spec fn find_from(s: Seq<char>, pat: Seq<char>, from: int) -> Option<int>
    decreases s.len() + 1 - from,
{
    if from < 0 || from + pat.len() > s.len() {
        None
    } else if s.subrange(from, from + pat.len()) == pat {
        Some(from)
    } else {
        find_from(s, pat, from + 1)
    }
}

/// The first position where `pat` stands in `s`.
pub open spec fn find(s: Seq<char>, pat: Seq<char>) -> Option<int> {
    find_from(s, pat, 0)
}

/// What [`find_from`] finds is an occurrence, and no occurrence comes before it.
pub proof fn lemma_find_from(s: Seq<char>, pat: Seq<char>, from: int)
    requires
        0 <= from,
    ensures
        match find_from(s, pat, from) {
            Some(i) => from <= i && occurs_at(s, pat, i) && forall|j: int|
                from <= j < i ==> !#[trigger] occurs_at(s, pat, j),
            None => forall|j: int| from <= j ==> !#[trigger] occurs_at(s, pat, j),
        },
    decreases s.len() + 1 - from,
{
    if from + pat.len() > s.len() {
    } else if s.subrange(from, from + pat.len()) == pat {
    } else {
        lemma_find_from(s, pat, from + 1);
    }
}

/// An occurrence with none before it is what [`find_from`] finds.
pub proof fn lemma_find_from_is(s: Seq<char>, pat: Seq<char>, from: int, at: int)
    requires
        0 <= from <= at,
        occurs_at(s, pat, at),
        forall|j: int| from <= j < at ==> !#[trigger] occurs_at(s, pat, j),
    ensures
        find_from(s, pat, from) == Some(at),
{
    lemma_find_from(s, pat, from);
    if let Some(i) = find_from(s, pat, from) {
        if i < at {
            assert(!occurs_at(s, pat, i));
        }
    }
}

pub broadcast proof fn lemma_char_width(c: char)
    ensures
        #[trigger] encode_scalar(c as u32).len() == char_width(c),
        1 <= char_width(c) <= 4,
{
    char_is_scalar(c);
}

pub proof fn lemma_byte_len_push(s: Seq<char>, c: char)
    ensures
        byte_len(s.push(c)) == byte_len(s) + char_width(c),
    decreases s.len(),
{
    lemma_char_width(c);
    if s.len() == 0 {
        reveal_with_fuel(encode_utf8, 2);
        assert(s.push(c).drop_first() =~= s);
    } else {
        lemma_byte_len_push(s.drop_first(), c);
        assert(s.push(c).drop_first() =~= s.drop_first().push(c));
    }
}

pub proof fn lemma_byte_len_add(a: Seq<char>, b: Seq<char>)
    ensures
        byte_len(a + b) == byte_len(a) + byte_len(b),
    decreases a.len(),
{
    if a.len() == 0 {
        assert(a + b =~= b);
    } else {
        lemma_byte_len_add(a.drop_first(), b);
        assert((a + b).drop_first() =~= a.drop_first() + b);
    }
}

pub proof fn lemma_byte_len_bounds(s: Seq<char>)
    ensures
        s.len() <= byte_len(s) <= 4 * s.len(),
    decreases s.len(),
{
    if s.len() > 0 {
        lemma_char_width(s[0]);
        lemma_byte_len_bounds(s.drop_first());
    }
}

/// `String::push` appends one character.
pub assume_specification[ String::push ](s: &mut String, c: char)
    ensures
        final(s)@ == old(s)@.push(c),
;

/// Whether `s` is the text `other`.
pub fn is(s: &String, other: &str) -> (b: bool)
    ensures
        b == (s@ == other@),
{
    *s == other.to_owned()
}

/// The characters of `s`.
pub fn chars_of(s: &str) -> (v: Vec<char>)
    ensures
        v@ == s@,
{
    let mut v: Vec<char> = Vec::new();
    for c in it: s.chars()
        invariant
            v@ == it.seq().take(it.index() as int),
            it.seq() == s@,
    {
        v.push(c);
    }
    v
}

/// The characters `from..to` of `v` as a string.
pub fn string_of_range(v: &Vec<char>, from: usize, to: usize) -> (s: String)
    requires
        from <= to <= v.len(),
    ensures
        s@ == v@.subrange(from as int, to as int),
{
    let mut s = String::new();
    let mut i: usize = from;
    while i < to
        invariant
            from <= i <= to <= v.len(),
            s@ == v@.subrange(from as int, i as int),
        decreases to - i,
    {
        s.push(v[i]);
        i += 1;
        assert(v@.subrange(from as int, i as int) =~= v@.subrange(from as int, i - 1).push(v@[i - 1]));
    }
    s
}

/// `v` as a string.
pub fn string_of(v: &Vec<char>) -> (s: String)
    ensures
        s@ == v@,
{
    assert(v@.subrange(0, v@.len() as int) =~= v@);
    string_of_range(v, 0, v.len())
}

/// The characters `from..to` of `v`.
pub fn slice_of(v: &Vec<char>, from: usize, to: usize) -> (r: Vec<char>)
    requires
        from <= to <= v.len(),
    ensures
        r@ == v@.subrange(from as int, to as int),
{
    let mut r: Vec<char> = Vec::new();
    let mut i: usize = from;
    while i < to
        invariant
            from <= i <= to <= v.len(),
            r@ == v@.subrange(from as int, i as int),
        decreases to - i,
    {
        r.push(v[i]);
        i += 1;
        assert(v@.subrange(from as int, i as int) =~= v@.subrange(from as int, i - 1).push(v@[i - 1]));
    }
    r
}

/// Appends the characters of `s` to `v`.
pub fn extend_with(v: &mut Vec<char>, s: &Vec<char>)
    ensures
        final(v)@ == old(v)@ + s@,
{
    let mut i: usize = 0;
    while i < s.len()
        invariant
            i <= s.len(),
            v@ == old(v)@ + s@.take(i as int),
        decreases s.len() - i,
    {
        v.push(s[i]);
        i += 1;
        assert(s@.take(i as int) =~= s@.take(i - 1).push(s@[i - 1]));
    }
    assert(s@.take(s@.len() as int) =~= s@);
}

/// Whether `pat` stands in `v` at position `at`.
pub fn pattern_at(v: &Vec<char>, pat: &Vec<char>, at: usize) -> (b: bool)
    requires
        at <= v.len(),
    ensures
        b == occurs_at(v@, pat@, at as int),
{
    if v.len() - at < pat.len() {
        return false;
    }
    let mut i: usize = 0;
    while i < pat.len()
        invariant
            i <= pat.len(),
            at + pat.len() <= v.len(),
            forall|k: int| 0 <= k < i ==> v@[at + k] == pat@[k],
        decreases pat.len() - i,
    {
        if v[at + i] != pat[i] {
            assert(v@.subrange(at as int, at + pat@.len())[i as int] != pat@[i as int]);
            return false;
        }
        i += 1;
    }
    assert(v@.subrange(at as int, at + pat@.len()) =~= pat@);
    true
}

/// Whether the text `pat` stands in `v` at position `at`.
pub fn matches_at(v: &Vec<char>, pat: &str, at: usize) -> (b: bool)
    requires
        at <= v.len(),
    ensures
        b == occurs_at(v@, pat@, at as int),
{
    pattern_at(v, &chars_of(pat), at)
}

/// The first position at or after `from` where `pat` stands in `v`.
pub fn find_in(v: &Vec<char>, pat: &str, from: usize) -> (r: Option<usize>)
    requires
        from <= v.len(),
    ensures
        match r {
            Some(i) => find_from(v@, pat@, from as int) == Some(i as int) && i + pat@.len()
                <= v.len(),
            None => find_from(v@, pat@, from as int) is None,
        },
{
    let p = chars_of(pat);
    let mut i: usize = from;
    loop
        invariant
            from <= i <= v.len(),
            p@ == pat@,
            forall|j: int| from <= j < i ==> !#[trigger] occurs_at(v@, pat@, j),
        decreases v.len() - i,
    {
        if pattern_at(v, &p, i) {
            proof {
                lemma_find_from_is(v@, pat@, from as int, i as int);
            }
            return Some(i);
        }
        if i == v.len() {
            proof {
                lemma_find_from(v@, pat@, from as int);
            }
            return None;
        }
        i += 1;
    }
}

/// Whether the UTF-8 form of `v` takes at least `n` bytes.
pub fn takes_bytes(v: &Vec<char>, n: usize) -> (b: bool)
    ensures
        b == (byte_len(v@) >= n),
{
    let mut left: usize = n;
    let mut i: usize = 0;
    assert(v@.take(0) =~= Seq::empty());
    while i < v.len()
        invariant
            i <= v.len(),
            left <= n,
            n - left == byte_len(v@.take(i as int)),
        decreases v.len() - i,
    {
        let w = width_of(v[i]);
        proof {
            lemma_byte_len_push(v@.take(i as int), v@[i as int]);
            assert(v@.take(i + 1) =~= v@.take(i as int).push(v@[i as int]));
            lemma_byte_len_add(v@.take(i + 1), v@.skip(i + 1));
            assert(v@.take(i + 1) + v@.skip(i + 1) =~= v@);
        }
        if left <= w {
            return true;
        }
        left -= w;
        i += 1;
    }
    assert(v@.take(v@.len() as int) =~= v@);
    left == 0
}

/// The number of bytes that `c` takes in UTF-8.
pub fn width_of(c: char) -> (w: usize)
    ensures
        w == char_width(c),
        1 <= w <= 4,
{
    let code: u32 = c as u32;
    if code < 0x80 {
        1
    } else if code < 0x800 {
        2
    } else if code < 0x10000 {
        3
    } else {
        4
    }
}

/// The characters with the Unicode property `White_Space`.
pub open spec fn is_space(c: char) -> bool {
    ||| '\t' <= c <= '\r'
    ||| c == ' '
    ||| c == '\u{85}'
    ||| c == '\u{a0}'
    ||| c == '\u{1680}'
    ||| '\u{2000}' <= c <= '\u{200a}'
    ||| '\u{2028}' <= c <= '\u{2029}'
    ||| c == '\u{202f}'
    ||| c == '\u{205f}'
    ||| c == '\u{3000}'
}

/// Whether `c` has the Unicode property `White_Space`.
pub fn space_char(c: char) -> (b: bool)
    ensures
        b == is_space(c),
{
    ('\t' <= c && c <= '\r') || c == ' ' || c == '\u{85}' || c == '\u{a0}' || c == '\u{1680}' || (
    '\u{2000}' <= c && c <= '\u{200a}') || ('\u{2028}' <= c && c <= '\u{2029}') || c == '\u{202f}' || c
        == '\u{205f}' || c == '\u{3000}'
}

/// `s` without the white space at its start.
pub open spec fn trim_start(s: Seq<char>) -> Seq<char>
    decreases s.len(),
{
    if s.len() > 0 && is_space(s[0]) {
        trim_start(s.drop_first())
    } else {
        s
    }
}

/// `s` without the white space at its end.
pub open spec fn trim_end(s: Seq<char>) -> Seq<char>
    decreases s.len(),
{
    if s.len() > 0 && is_space(s.last()) {
        trim_end(s.drop_last())
    } else {
        s
    }
}

/// `s` without the white space at its two ends.
pub open spec fn trim(s: Seq<char>) -> Seq<char> {
    trim_end(trim_start(s))
}

/// The part of `v` that is left when white space is taken off its two ends.
pub fn trimmed(v: &Vec<char>) -> (r: Vec<char>)
    ensures
        r@ == trim(v@),
{
    let n = v.len();
    let mut a: usize = 0;
    assert(v@.skip(0) =~= v@);
    while a < n && space_char(v[a])
        invariant
            a <= n,
            n == v.len(),
            trim_start(v@) == trim_start(v@.skip(a as int)),
        decreases n - a,
    {
        assert(v@.skip(a as int).drop_first() =~= v@.skip(a + 1));
        a += 1;
    }
    let mut b: usize = n;
    assert(v@.skip(a as int) =~= v@.subrange(a as int, n as int));
    while a < b && space_char(v[b - 1])
        invariant
            a <= b <= n,
            n == v.len(),
            trim_end(v@.skip(a as int)) == trim_end(v@.subrange(a as int, b as int)),
        decreases b,
    {
        assert(v@.subrange(a as int, b as int).drop_last() =~= v@.subrange(a as int, b - 1));
        b -= 1;
    }
    slice_of(v, a, b)
}

/// `s` cut at every `sep`: one part more than there are separators.
pub open spec fn split(s: Seq<char>, sep: char) -> Seq<Seq<char>>
    decreases s.len(),
{
    if s.len() == 0 {
        seq![Seq::empty()]
    } else {
        let init = split(s.drop_last(), sep);
        if s.last() == sep {
            init.push(Seq::empty())
        } else {
            init.drop_last().push(init.last().push(s.last()))
        }
    }
}

/// The characters of each part.
pub open spec fn views(parts: Seq<Vec<char>>) -> Seq<Seq<char>> {
    parts.map_values(|p: Vec<char>| p@)
}

/// The text of each string.
pub open spec fn string_views(parts: Seq<String>) -> Seq<Seq<char>> {
    parts.map_values(|p: String| p@)
}

/// `v` cut at every `sep`.
pub fn split_on(v: &Vec<char>, sep: char) -> (parts: Vec<Vec<char>>)
    ensures
        views(parts@) == split(v@, sep),
        parts.len() >= 1,
{
    let mut done: Vec<Vec<char>> = Vec::new();
    let mut part: Vec<char> = Vec::new();
    let mut i: usize = 0;
    assert(views(done@).push(part@) =~= split(v@.take(0), sep));
    while i < v.len()
        invariant
            i <= v.len(),
            views(done@).push(part@) == split(v@.take(i as int), sep),
        decreases v.len() - i,
    {
        let c = v[i];
        let ghost before = views(done@).push(part@);
        assert(v@.take(i + 1).drop_last() =~= v@.take(i as int));
        assert(before.drop_last() =~= views(done@));
        if c == sep {
            done.push(part);
            part = Vec::new();
            assert(views(done@) =~= before);
        } else {
            part.push(c);
        }
        i += 1;
    }
    assert(v@.take(v@.len() as int) =~= v@);
    let ghost before = views(done@).push(part@);
    done.push(part);
    assert(views(done@) =~= before);
    done
}

/// `parts` with `sep` between each two of them.
pub open spec fn join(parts: Seq<Seq<char>>, sep: Seq<char>) -> Seq<char>
    decreases parts.len(),
{
    if parts.len() == 0 {
        Seq::empty()
    } else if parts.len() == 1 {
        parts[0]
    } else {
        join(parts.drop_last(), sep) + sep + parts.last()
    }
}

/// What is joined in two goes is joined.
pub proof fn lemma_join_add(a: Seq<Seq<char>>, b: Seq<Seq<char>>, sep: Seq<char>)
    requires
        a.len() > 0,
        b.len() > 0,
    ensures
        join(a + b, sep) == join(a, sep) + sep + join(b, sep),
    decreases b.len(),
{
    let all = a + b;
    assert(all.drop_last() =~= a + b.drop_last());
    assert(all.last() == b.last());
    if b.len() == 1 {
        assert(all.drop_last() =~= a);
    } else {
        lemma_join_add(a, b.drop_last(), sep);
        assert(join(a, sep) + sep + join(b.drop_last(), sep) + sep + b.last() =~= join(a, sep) + sep + (
        join(b.drop_last(), sep) + sep + b.last()));
    }
}

/// Parts can be joined from the front as well.
pub proof fn lemma_join_front(first: Seq<char>, rest: Seq<Seq<char>>, sep: Seq<char>)
    requires
        rest.len() > 0,
    ensures
        join(seq![first] + rest, sep) == first + sep + join(rest, sep),
{
    lemma_join_add(seq![first], rest, sep);
}

/// The parts `from..to` with `sep` between each two of them.
pub fn join_range(parts: &Vec<Vec<char>>, from: usize, to: usize, sep: &str) -> (r: Vec<char>)
    requires
        from <= to <= parts.len(),
    ensures
        r@ == join(views(parts@).subrange(from as int, to as int), sep@),
{
    let mut r: Vec<char> = Vec::new();
    let s = chars_of(sep);
    let mut i: usize = from;
    while i < to
        invariant
            from <= i <= to <= parts.len(),
            s@ == sep@,
            r@ == join(views(parts@).subrange(from as int, i as int), sep@),
        decreases to - i,
    {
        if i > from {
            extend_with(&mut r, &s);
        }
        extend_with(&mut r, &parts[i]);
        assert(views(parts@).subrange(from as int, i + 1).drop_last() =~= views(parts@).subrange(
            from as int,
            i as int,
        ));
        i += 1;
        assert(r@ =~= join(views(parts@).subrange(from as int, i as int), sep@));
    }
    r
}

/// The runs of `s` without white space, in order.
pub open spec fn words(s: Seq<char>) -> Seq<Seq<char>>
    decreases s.len(),
{
    if s.len() == 0 {
        Seq::empty()
    } else {
        let init = words(s.drop_last());
        if is_space(s.last()) {
            init
        } else if s.len() == 1 || is_space(s[s.len() - 2]) {
            init.push(seq![s.last()])
        } else {
            init.drop_last().push(init.last().push(s.last()))
        }
    }
}

/// At least one character, and no white space.
pub open spec fn is_word(s: Seq<char>) -> bool {
    s.len() > 0 && forall|i: int| 0 <= i < s.len() ==> !is_space(#[trigger] s[i])
}

pub open spec fn all_words(parts: Seq<Seq<char>>) -> bool {
    forall|i: int| 0 <= i < parts.len() ==> is_word(#[trigger] parts[i])
}

/// The words of a text are words, and there is one where it does not end with white space.
pub proof fn lemma_words(s: Seq<char>)
    ensures
        all_words(words(s)),
        s.len() > 0 && !is_space(s.last()) ==> words(s).len() > 0,
    decreases s.len(),
{
    if s.len() > 0 {
        let init = words(s.drop_last());
        lemma_words(s.drop_last());
        if !is_space(s.last()) && s.len() > 1 && !is_space(s[s.len() - 2]) {
            assert(s.drop_last().last() == s[s.len() - 2]);
            assert(is_word(init.last()));
            assert(is_word(init.last().push(s.last())));
        }
    }
}

/// A word behind white space is a word of its own.
pub proof fn lemma_words_push(before: Seq<char>, word: Seq<char>)
    requires
        before.len() == 0 || is_space(before.last()),
        is_word(word),
    ensures
        words(before + word) == words(before).push(word),
    decreases word.len(),
{
    let s = before + word;
    assert(s.last() == word.last());
    assert(s.drop_last() =~= before + word.drop_last());
    if word.len() == 1 {
        assert(s.drop_last() =~= before);
        assert(word =~= seq![s.last()]);
    } else {
        let init = word.drop_last();
        assert(is_word(init));
        lemma_words_push(before, init);
        assert(s[s.len() - 2] == init.last());
        assert(words(before).push(init).drop_last() =~= words(before));
        assert(init.push(s.last()) =~= word);
    }
}

/// Words with a space between each two are the words of the text that they make up.
pub proof fn lemma_words_of_join(parts: Seq<Seq<char>>)
    requires
        all_words(parts),
    ensures
        words(join(parts, " "@)) == parts,
    decreases parts.len(),
{
    reveal_strlit(" ");
    if parts.len() == 1 {
        lemma_words_push(Seq::empty(), parts[0]);
        assert(Seq::<char>::empty() + parts[0] =~= parts[0]);
        assert(words(Seq::empty()).push(parts[0]) =~= parts);
    } else if parts.len() > 1 {
        let init = join(parts.drop_last(), " "@);
        let before = init + " "@;
        assert forall|i: int| 0 <= i < parts.drop_last().len() implies is_word(
            #[trigger] parts.drop_last()[i],
        ) by {
            assert(is_word(parts[i]));
        }
        lemma_words_of_join(parts.drop_last());
        assert(before.drop_last() =~= init);
        assert(is_word(parts[parts.len() - 1]));
        lemma_words_push(before, parts.last());
        assert(parts.drop_last().push(parts.last()) =~= parts);
    }
}

/// The runs of `v` without white space, in order.
pub fn words_of(v: &Vec<char>) -> (r: Vec<Vec<char>>)
    ensures
        views(r@) == words(v@),
{
    let mut done: Vec<Vec<char>> = Vec::new();
    let mut word: Vec<char> = Vec::new();
    let mut i: usize = 0;
    assert(views(done@) =~= words(v@.take(0)));
    while i < v.len()
        invariant
            i <= v.len(),
            word.len() > 0 <==> (i > 0 && !is_space(v@[i - 1])),
            words(v@.take(i as int)) == if word.len() > 0 {
                views(done@).push(word@)
            } else {
                views(done@)
            },
        decreases v.len() - i,
    {
        let c = v[i];
        let ghost done0 = views(done@);
        let ghost word0 = word@;
        assert(v@.take(i + 1).drop_last() =~= v@.take(i as int));
        assert(done0.push(word0).drop_last() =~= done0);
        if space_char(c) {
            if word.len() > 0 {
                done.push(word);
                word = Vec::new();
                assert(views(done@) =~= done0.push(word0));
            }
        } else {
            word.push(c);
            assert(i > 0 ==> v@.take(i + 1)[i - 1] == v@[i - 1]);
            assert(word0.len() == 0 ==> word@ =~= seq![c]);
        }
        i += 1;
    }
    assert(v@.take(v@.len() as int) =~= v@);
    if word.len() > 0 {
        let ghost done0 = views(done@);
        let ghost word0 = word@;
        done.push(word);
        assert(views(done@) =~= done0.push(word0));
    }
    done
}

/// The bytes that `v` takes in UTF-8, where they are at most `max`.
pub fn bytes_up_to(v: &Vec<char>, max: usize) -> (r: Option<usize>)
    ensures
        match r {
            Some(n) => n == byte_len(v@) && n <= max,
            None => byte_len(v@) > max,
        },
{
    let mut total: usize = 0;
    let mut i: usize = 0;
    assert(v@.take(0) =~= Seq::empty());
    while i < v.len()
        invariant
            i <= v.len(),
            total <= max,
            total == byte_len(v@.take(i as int)),
        decreases v.len() - i,
    {
        let w = width_of(v[i]);
        proof {
            lemma_byte_len_push(v@.take(i as int), v@[i as int]);
            assert(v@.take(i + 1) =~= v@.take(i as int).push(v@[i as int]));
            lemma_byte_len_add(v@.take(i + 1), v@.skip(i + 1));
            assert(v@.take(i + 1) + v@.skip(i + 1) =~= v@);
        }
        if w > max - total {
            return None;
        }
        total += w;
        i += 1;
    }
    assert(v@.take(v@.len() as int) =~= v@);
    Some(total)
}

} // verus!
