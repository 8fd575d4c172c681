//! What holds of searching, splitting, trimming and writing numbers.

use crate::decimal;
use crate::text;
use vstd::prelude::*;

verus! {

/// A text of white space only.
pub open spec fn is_blank(s: Seq<char>) -> bool {
    forall|i: int| 0 <= i < s.len() ==> text::is_space(#[trigger] s[i])
}

/// A text that neither starts nor ends with white space.
pub open spec fn is_bare(s: Seq<char>) -> bool {
    s.len() > 0 ==> !text::is_space(s[0]) && !text::is_space(s.last())
}

/// White space around a text is taken off, and nothing else.
pub proof fn law_trim_takes_off_white_space(before: Seq<char>, s: Seq<char>, after: Seq<char>)
    requires
        is_blank(before),
        is_bare(s),
        is_blank(after),
    ensures
        text::trim(before + s + after) == s,
    decreases before.len() + after.len(),
{
    let all = before + s + after;
    if before.len() > 0 {
        assert(text::is_space(before[0]));
        assert(all[0] == before[0]);
        let rest = before.drop_first();
        assert forall|i: int| 0 <= i < rest.len() implies text::is_space(#[trigger] rest[i]) by {
            assert(text::is_space(before[i + 1]));
        }
        law_trim_takes_off_white_space(rest, s, after);
        assert(all.drop_first() =~= rest + s + after);
    } else if s.len() == 0 {
        assert(all =~= after);
        lemma_trim_blank(after);
        assert(s =~= Seq::empty());
    } else {
        assert(all[0] == s[0]);
        assert(text::trim_start(all) == all);
        lemma_trim_end(s, after);
        assert(all =~= s + after);
    }
}

pub proof fn lemma_trim_blank(s: Seq<char>)
    requires
        is_blank(s),
    ensures
        text::trim(s) == Seq::<char>::empty(),
    decreases s.len(),
{
    if s.len() > 0 {
        assert(text::is_space(s[0]));
        let rest = s.drop_first();
        assert forall|i: int| 0 <= i < rest.len() implies text::is_space(#[trigger] rest[i]) by {
            assert(text::is_space(s[i + 1]));
        }
        lemma_trim_blank(rest);
    } else {
        assert(s =~= Seq::empty());
    }
}

proof fn lemma_trim_end(s: Seq<char>, after: Seq<char>)
    requires
        s.len() > 0,
        !text::is_space(s.last()),
        is_blank(after),
    ensures
        text::trim_end(s + after) == s,
    decreases after.len(),
{
    if after.len() > 0 {
        assert(text::is_space(after[after.len() - 1]));
        assert((s + after).drop_last() =~= s + after.drop_last());
        let rest = after.drop_last();
        assert forall|i: int| 0 <= i < rest.len() implies text::is_space(#[trigger] rest[i]) by {
            assert(text::is_space(after[i]));
        }
        lemma_trim_end(s, rest);
    } else {
        assert(s + after =~= s);
    }
}

/// White space is what Unicode says it is: the space and the five characters from tab to carriage
/// return, the next line, the spaces that do not break, the ogham mark, the typographic spaces, the ends
/// of lines and paragraphs, the space of mathematics and the ideographic one.
pub proof fn law_white_space(c: char)
    ensures
        text::is_space(c) <==> {
            let n = c as u32;
            n == 0x20 || 9 <= n <= 13 || n == 0x85 || n == 0xa0 || n == 0x1680 || 0x2000 <= n <= 0x200a
                || n == 0x2028 || n == 0x2029 || n == 0x202f || n == 0x205f || n == 0x3000
        },
{
}

/// Parts with `sep` between each two of them.
pub open spec fn laid_out(parts: Seq<Seq<char>>, sep: Seq<char>) -> Seq<char>
    decreases parts.len(),
{
    if parts.len() == 0 {
        Seq::empty()
    } else if parts.len() == 1 {
        parts[0]
    } else {
        parts[0] + sep + laid_out(parts.drop_first(), sep)
    }
}

/// To join is to put the separator between each two.
pub proof fn law_join(parts: Seq<Seq<char>>, sep: Seq<char>)
    ensures
        text::join(parts, sep) == laid_out(parts, sep),
    decreases parts.len(),
{
    if parts.len() > 1 {
        let rest = parts.drop_first();
        law_join(rest, sep);
        text::lemma_join_front(parts[0], rest, sep);
        assert(seq![parts[0]] + rest =~= parts);
    }
}

pub open spec fn none_holds(parts: Seq<Seq<char>>, c: char) -> bool {
    forall|i: int| 0 <= i < parts.len() ==> !(#[trigger] parts[i]).contains(c)
}

/// A text without the separator is one part.
pub proof fn lemma_split_one(s: Seq<char>, sep: char)
    requires
        !s.contains(sep),
    ensures
        text::split(s, sep) == seq![s],
    decreases s.len(),
{
    if s.len() > 0 {
        let init = s.drop_last();
        assert(s[s.len() - 1] != sep);
        assert forall|i: int| 0 <= i < init.len() implies init[i] != sep by {
            assert(s[i] == init[i]);
        }
        lemma_split_one(init, sep);
        assert(init.push(s.last()) =~= s);
        assert(seq![init].drop_last().push(init.push(s.last())) =~= seq![s]);
    } else {
        assert(s =~= Seq::empty());
    }
}

/// A text is split as what stands before a separator and what stands behind it.
pub proof fn lemma_split_add(a: Seq<char>, b: Seq<char>, sep: char)
    ensures
        text::split(a + seq![sep] + b, sep) == text::split(a, sep) + text::split(b, sep),
        text::split(b, sep).len() >= 1,
    decreases b.len(),
{
    let all = a + seq![sep] + b;
    if b.len() == 0 {
        assert(all.drop_last() =~= a);
        assert(text::split(b, sep) =~= seq![Seq::empty()]);
        assert(text::split(all, sep) =~= text::split(a, sep) + text::split(b, sep));
    } else {
        let init = b.drop_last();
        lemma_split_add(a, init, sep);
        assert(all.drop_last() =~= a + seq![sep] + init);
        assert(all.last() == b.last());
        let left = text::split(a, sep);
        let right = text::split(init, sep);
        assert((left + right).last() == right.last());
        assert((left + right).drop_last() =~= left + right.drop_last());
        assert(text::split(all, sep) =~= left + text::split(b, sep));
    }
}

/// Splitting gives back the parts that a separator was put between.
pub proof fn law_split_undoes_joining(parts: Seq<Seq<char>>, sep: char)
    requires
        parts.len() > 0,
        none_holds(parts, sep),
    ensures
        text::split(laid_out(parts, seq![sep]), sep) == parts,
    decreases parts.len(),
{
    assert(!parts[0].contains(sep));
    lemma_split_one(parts[0], sep);
    if parts.len() > 1 {
        let rest = parts.drop_first();
        assert forall|i: int| 0 <= i < rest.len() implies !(#[trigger] rest[i]).contains(sep) by {
            assert(!parts[i + 1].contains(sep));
        }
        law_split_undoes_joining(rest, sep);
        lemma_split_add(parts[0], laid_out(rest, seq![sep]), sep);
        assert(seq![parts[0]] + rest =~= parts);
    } else {
        assert(seq![parts[0]] =~= parts);
    }
}

/// The number that decimal digits stand for.
pub open spec fn number(digits: Seq<char>) -> nat
    decreases digits.len(),
{
    if digits.len() == 0 {
        0
    } else {
        number(digits.drop_last()) * 10 + (digits.last() as nat - '0' as nat) as nat
    }
}

/// A number is written in decimal digits that stand for it, with no zero in front of others.
pub proof fn law_decimal(n: nat)
    ensures
        decimal::decimal(n).len() > 0,
        forall|i: int|
            0 <= i < decimal::decimal(n).len() ==> '0' <= #[trigger] decimal::decimal(n)[i] <= '9',
        number(decimal::decimal(n)) == n,
        n > 0 ==> decimal::decimal(n)[0] != '0',
        n == 0 ==> decimal::decimal(n) == seq!['0'],
    decreases n,
{
    let s = decimal::decimal(n);
    if n >= 10 {
        law_decimal(n / 10);
        assert(s.drop_last() =~= decimal::decimal(n / 10));
    } else {
        reveal_with_fuel(number, 2);
        assert(s.drop_last() =~= Seq::<char>::empty());
    }
}

/// A number below zero is written with a minus sign.
pub proof fn law_signed_decimal(n: int)
    ensures
        n >= 0 ==> decimal::signed_decimal(n) == decimal::decimal(n as nat),
        n < 0 ==> decimal::signed_decimal(n) == seq!['-'] + decimal::decimal((-n) as nat),
{
    reveal_strlit("-");
    assert("-"@ =~= seq!['-']);
}

/// A number of 32 bits that was written in decimal, with a plus sign or without, is read back. So is
/// any other row of digits that stands for one, and nothing else is read.
pub proof fn law_decimal_is_read_back(n: u32, s: Seq<char>)
    ensures
        decimal::parse_u32(decimal::decimal(n as nat)) == Some(n),
        decimal::parse_u32(seq!['+'] + decimal::decimal(n as nat)) == Some(n),
        s.len() == 0 ==> decimal::parse_u32(s) is None,
        (exists|i: int| 0 < i < s.len() && !('0' <= #[trigger] s[i] <= '9'))
            ==> decimal::parse_u32(s) is None,
        s.len() > 0 && (forall|i: int| 0 <= i < s.len() ==> '0' <= #[trigger] s[i] <= '9') ==> {
            if number(s) <= 4_294_967_295 {
                decimal::parse_u32(s) is Some && decimal::parse_u32(s)->0 == number(s)
            } else {
                decimal::parse_u32(s) is None
            }
        },
{
    lemma_number_is_value(s);
    if s.len() > 0 && forall|i: int| 0 <= i < s.len() ==> '0' <= #[trigger] s[i] <= '9' {
        assert('0' <= s[0] <= '9');
        assert forall|i: int| 0 <= i < s.len() implies decimal::is_digit(#[trigger] s[i]) by {
            assert('0' <= s[i] <= '9');
        }
    }
    let d = decimal::decimal(n as nat);
    law_decimal(n as nat);
    lemma_number_is_value(d);
    assert(d[0] != '+');
    assert((seq!['+'] + d).drop_first() =~= d);
    if exists|i: int| 0 < i < s.len() && !('0' <= #[trigger] s[i] <= '9') {
        let i = choose|i: int| 0 < i < s.len() && !('0' <= #[trigger] s[i] <= '9');
        assert(!decimal::is_digit(s[i]));
        assert(s.drop_first()[i - 1] == s[i]);
    }
}

proof fn lemma_number_is_value(s: Seq<char>)
    ensures
        number(s) == decimal::value(s),
    decreases s.len(),
{
    if s.len() > 0 {
        lemma_number_is_value(s.drop_last());
    }
}

/// What is found stands there, and nothing before it does.
pub proof fn law_find(s: Seq<char>, pat: Seq<char>, from: int, at: int)
    requires
        0 <= from <= at,
        at + pat.len() <= s.len(),
        s.subrange(at, at + pat.len()) == pat,
        forall|j: int| from <= j < at ==> #[trigger] s.subrange(j, j + pat.len()) != pat,
    ensures
        text::find_from(s, pat, from) == Some(at),
{
    assert forall|j: int| from <= j < at implies !#[trigger] text::occurs_at(s, pat, j) by {
        assert(s.subrange(j, j + pat.len()) != pat);
    }
    text::lemma_find_from_is(s, pat, from, at);
}

/// Where a text does not stand, it is not found.
pub proof fn law_find_nothing(s: Seq<char>, pat: Seq<char>, from: int)
    requires
        0 <= from,
        forall|j: int|
            from <= j && j + pat.len() <= s.len() ==> #[trigger] s.subrange(j, j + pat.len()) != pat,
    ensures
        text::find_from(s, pat, from) is None,
{
    text::lemma_find_from(s, pat, from);
    if let Some(i) = text::find_from(s, pat, from) {
        assert(s.subrange(i, i + pat.len()) == pat);
    }
}

} // verus!
