//! What holds of the names under which clients introduce themselves.

use crate::bot_agent as agent;
use crate::text;
use crate::text_laws;
use vstd::prelude::*;

verus! {

/// The words of one comment: the first opens it, and only the last may close it.
pub open spec fn is_comment_group(words: Seq<Seq<char>>) -> bool {
    &&& words.len() > 0
    &&& text::all_words(words)
    &&& agent::starts_comment(words[0])
    &&& agent::comment_end(words, 0) == words.len() - 1
}

/// A word that opens no comment, or the words of a comment.
pub open spec fn is_token(token: Seq<char>) -> bool {
    ||| text::is_word(token) && !agent::starts_comment(token)
    ||| exists|words: Seq<Seq<char>>| #[trigger]
        is_comment_group(words) && token == text::join(words, " "@)
}

pub open spec fn all_tokens(tokens: Seq<Seq<char>>) -> bool {
    forall|i: int| 0 <= i < tokens.len() ==> is_token(#[trigger] tokens[i])
}

/// The words of a product with its comment, where it has one.
pub open spec fn is_product_group(words: Seq<Seq<char>>) -> bool {
    &&& words.len() > 0
    &&& text::all_words(words)
    &&& agent::is_product(words[0])
    &&& words.len() > 1 ==> {
        let comment = text::join(words.skip(1), " "@);
        &&& is_comment_group(words.skip(1))
        &&& agent::ends_comment(comment)
        &&& agent::is_comment(comment.subrange(1, comment.len() - 1))
    }
}

/// A product as a name holds it.
pub open spec fn is_kept_product(product: Seq<char>) -> bool {
    exists|words: Seq<Seq<char>>| #[trigger]
        is_product_group(words) && product == text::join(words, " "@)
}

pub open spec fn all_kept_products(products: Seq<Seq<char>>) -> bool {
    forall|i: int| 0 <= i < products.len() ==> is_kept_product(#[trigger] products[i])
}

/// The words of a product.
spec fn group_of(product: Seq<char>) -> Seq<Seq<char>> {
    choose|words: Seq<Seq<char>>| #[trigger]
        is_product_group(words) && product == text::join(words, " "@)
}

/// The words of all `products`, in order.
spec fn words_of_all(products: Seq<Seq<char>>) -> Seq<Seq<char>>
    decreases products.len(),
{
    if products.len() == 0 {
        Seq::empty()
    } else {
        group_of(products[0]) + words_of_all(products.drop_first())
    }
}

/// A product starts with no parenthesis.
proof fn lemma_product_opens_no_comment(token: Seq<char>)
    requires
        agent::is_product(token),
    ensures
        !agent::starts_comment(token),
{
    reveal_strlit("/");
    text::lemma_find_from(token, "/"@, 0);
    let at = text::find(token, "/"@)->0;
    assert(agent::name_char(token.take(at)[0]));
}

/// Joined words start and end as the first and the last of them do.
proof fn lemma_join_ends(words: Seq<Seq<char>>)
    requires
        words.len() > 0,
        text::all_words(words),
    ensures
        text::join(words, " "@).len() > 0,
        text::join(words, " "@)[0] == words[0][0],
        text::join(words, " "@).last() == words.last().last(),
    decreases words.len(),
{
    assert(text::is_word(words[0]));
    assert(text::is_word(words[words.len() - 1]));
    if words.len() > 1 {
        assert forall|i: int| 0 <= i < words.drop_last().len() implies text::is_word(
            #[trigger] words.drop_last()[i],
        ) by {
            assert(text::is_word(words[i]));
        }
        lemma_join_ends(words.drop_last());
    }
}

/// A comment ends where it ends, whatever words stand before it.
proof fn lemma_comment_end_shift(before: Seq<Seq<char>>, words: Seq<Seq<char>>, i: int)
    requires
        0 <= i < words.len(),
    ensures
        agent::comment_end(before + words, before.len() + i) == before.len()
            + agent::comment_end(words, i),
    decreases words.len() - i,
{
    assert((before + words)[before.len() + i] == words[i]);
    if i + 1 < words.len() && !agent::ends_comment(words[i]) {
        lemma_comment_end_shift(before, words, i + 1);
    }
}

/// A comment that is closed ends where it ends, whatever words follow.
proof fn lemma_comment_end_stable(words: Seq<Seq<char>>, more: Seq<Seq<char>>, i: int)
    requires
        0 <= i < words.len(),
        agent::ends_comment(words.last()),
    ensures
        agent::comment_end(words + more, i) == agent::comment_end(words, i),
    decreases words.len() - i,
{
    assert((words + more)[i] == words[i]);
    if i + 1 < words.len() && !agent::ends_comment(words[i]) {
        lemma_comment_end_stable(words, more, i + 1);
    }
}

/// The words of a comment, taken by themselves, are the words of a comment.
proof fn lemma_comment_end_part(words: Seq<Seq<char>>, from: int, k: int, i: int)
    requires
        0 <= from <= i <= k < words.len(),
        agent::comment_end(words, i) == k,
    ensures
        agent::comment_end(words.subrange(from, k + 1), i - from) == k - from,
    decreases k - i,
{
    assert(words.subrange(from, k + 1)[i - from] == words[i]);
    if i < k {
        assert(i + 1 < words.len() && !agent::ends_comment(words[i]));
        lemma_comment_end_part(words, from, k, i + 1);
    }
}

/// The tokens of words do not depend on what stands before them.
proof fn lemma_tokens_shift(before: Seq<Seq<char>>, words: Seq<Seq<char>>, i: int)
    requires
        0 <= i <= words.len(),
    ensures
        agent::tokens_from(before + words, before.len() + i) == agent::tokens_from(words, i),
    decreases words.len() - i,
{
    let all = before + words;
    if i < words.len() {
        assert(all[before.len() + i] == words[i]);
        if agent::starts_comment(words[i]) {
            agent::lemma_comment_end(words, i);
            lemma_comment_end_shift(before, words, i);
            let k = agent::comment_end(words, i);
            assert(all.subrange(before.len() + i, before.len() + k + 1) =~= words.subrange(
                i,
                k + 1,
            ));
            lemma_tokens_shift(before, words, k + 1);
        } else {
            lemma_tokens_shift(before, words, i + 1);
        }
    }
}

proof fn lemma_tokens(words: Seq<Seq<char>>, i: int)
    requires
        0 <= i,
        text::all_words(words),
    ensures
        all_tokens(agent::tokens_from(words, i)),
    decreases words.len() - i,
{
    if i < words.len() {
        assert(text::is_word(words[i]));
        if agent::starts_comment(words[i]) {
            agent::lemma_comment_end(words, i);
            let k = agent::comment_end(words, i);
            let comment = words.subrange(i, k + 1);
            lemma_comment_end_part(words, i, k, i);
            assert forall|j: int| 0 <= j < comment.len() implies text::is_word(
                #[trigger] comment[j],
            ) by {
                assert(text::is_word(words[i + j]));
            }
            assert(is_comment_group(comment));
            lemma_tokens(words, k + 1);
        } else {
            lemma_tokens(words, i + 1);
        }
    }
}

/// A product with a comment that follows it is a product as a name holds it.
proof fn lemma_product_with_comment(product: Seq<char>, token: Seq<char>)
    requires
        agent::is_product(product),
        text::is_word(product),
        is_token(token),
        agent::starts_comment(token),
        agent::ends_comment(token),
        agent::is_comment(token.subrange(1, token.len() - 1)),
    ensures
        is_kept_product(agent::with_comment(product, token.subrange(1, token.len() - 1))),
{
    reveal_strlit(" ");
    reveal_strlit(" (");
    reveal_strlit(")");
    let comment = choose|words: Seq<Seq<char>>| #[trigger]
        is_comment_group(words) && token == text::join(words, " "@);
    let words = seq![product] + comment;
    text::lemma_join_front(product, comment, " "@);
    assert(words.skip(1) =~= comment);
    assert(is_product_group(words));
    assert(agent::with_comment(product, token.subrange(1, token.len() - 1)) =~= product + " "@
        + token);
}

proof fn lemma_bare_product(product: Seq<char>)
    requires
        agent::is_product(product),
        text::is_word(product),
    ensures
        is_kept_product(product),
{
    assert(is_product_group(seq![product]));
}

proof fn lemma_accepted_kept(tokens: Seq<Seq<char>>, pending: Option<Seq<char>>)
    requires
        all_tokens(tokens),
        pending matches Some(p) ==> agent::is_product(p) && text::is_word(p),
    ensures
        all_kept_products(agent::accepted(tokens, pending)),
    decreases tokens.len(),
{
    if let Some(product) = pending {
        lemma_bare_product(product);
    }
    if tokens.len() > 0 {
        let token = tokens[0];
        let rest = tokens.drop_first();
        assert(is_token(tokens[0]));
        assert forall|i: int| 0 <= i < rest.len() implies is_token(#[trigger] rest[i]) by {
            assert(is_token(tokens[i + 1]));
        }
        if agent::starts_comment(token) && agent::ends_comment(token) {
            lemma_accepted_kept(rest, None);
            if let Some(product) = pending {
                if agent::is_comment(token.subrange(1, token.len() - 1)) {
                    lemma_product_with_comment(product, token);
                }
            }
        } else if agent::is_product(token) {
            lemma_product_opens_no_comment(token);
            if !text::is_word(token) {
                let comment = choose|words: Seq<Seq<char>>| #[trigger]
                    is_comment_group(words) && token == text::join(words, " "@);
                lemma_join_ends(comment);
            }
            lemma_accepted_kept(rest, Some(token));
        } else {
            lemma_accepted_kept(rest, None);
        }
    }
}

/// What fits fits again, and is part of what there was.
proof fn lemma_fitting_again(products: Seq<Seq<char>>, used: int, first: bool)
    requires
        all_kept_products(products),
    ensures
        agent::fitting(agent::fitting(products, used, first), used, first) == agent::fitting(
            products,
            used,
            first,
        ),
        all_kept_products(agent::fitting(products, used, first)),
    decreases products.len(),
{
    if products.len() > 0 {
        let separator = if first {
            0int
        } else {
            1int
        };
        let total = used + text::byte_len(products[0]) + separator;
        if total <= agent::MAX_BOT_AGENT_BYTES {
            let others = products.drop_first();
            assert forall|i: int| 0 <= i < others.len() implies is_kept_product(
                #[trigger] others[i],
            ) by {
                assert(is_kept_product(products[i + 1]));
            }
            lemma_fitting_again(others, total, false);
            let rest = agent::fitting(others, total, false);
            let kept = seq![products[0]] + rest;
            assert(is_kept_product(products[0]));
            assert(kept.drop_first() =~= rest);
        }
    }
}

/// The words of products with a space between each two.
proof fn lemma_words_of_products(products: Seq<Seq<char>>)
    requires
        all_kept_products(products),
    ensures
        text::all_words(words_of_all(products)),
        products.len() > 0 ==> words_of_all(products).len() > 0 && text::join(
            words_of_all(products),
            " "@,
        ) == text::join(products, " "@),
    decreases products.len(),
{
    if products.len() > 0 {
        let first = group_of(products[0]);
        let others = products.drop_first();
        assert(is_kept_product(products[0]));
        assert forall|i: int| 0 <= i < others.len() implies is_kept_product(
            #[trigger] others[i],
        ) by {
            assert(is_kept_product(products[i + 1]));
        }
        lemma_words_of_products(others);
        let rest = words_of_all(others);
        if others.len() > 0 {
            text::lemma_join_add(first, rest, " "@);
            text::lemma_join_front(products[0], others, " "@);
            assert(seq![products[0]] + others =~= products);
        } else {
            assert(first + rest =~= first);
        }
    }
}

/// The products of a name are accepted as they are, whatever words follow that do not start with a
/// comment.
proof fn lemma_products_accepted(products: Seq<Seq<char>>, more: Seq<Seq<char>>)
    requires
        all_kept_products(products),
        more.len() > 0 ==> !agent::starts_comment(more[0]),
    ensures
        agent::accepted(agent::tokens_from(words_of_all(products) + more, 0), None) == products
            + agent::accepted(agent::tokens_from(more, 0), None),
        products.len() > 0 ==> {
            let tokens = agent::tokens_from(words_of_all(products) + more, 0);
            tokens.len() > 0 && agent::is_product(tokens[0])
        },
    decreases products.len(),
{
    let end = agent::accepted(agent::tokens_from(more, 0), None);
    if products.len() == 0 {
        assert(words_of_all(products) + more =~= more);
        assert(products + end =~= end);
    } else {
        let product = products[0];
        let group = group_of(product);
        let others = products.drop_first();
        assert(is_kept_product(products[0]));
        assert forall|i: int| 0 <= i < others.len() implies is_kept_product(
            #[trigger] others[i],
        ) by {
            assert(is_kept_product(products[i + 1]));
        }
        lemma_products_accepted(others, more);
        let rest = words_of_all(others) + more;
        let all = group + rest;
        assert(words_of_all(products) + more =~= all);
        let tokens = agent::tokens_from(all, 0);
        let later = agent::tokens_from(rest, 0);
        let name = group[0];
        lemma_product_opens_no_comment(name);
        lemma_tokens_shift(group, rest, 0);
        assert(all[0] == name);
        assert(seq![product] + others =~= products);
        assert(seq![product] + (others + end) =~= products + end);
        if group.len() == 1 {
            assert(product == name);
            assert(tokens == seq![name] + later);
            assert(tokens.drop_first() =~= later);
            if later.len() > 0 {
                if others.len() > 0 {
                    lemma_product_opens_no_comment(later[0]);
                } else {
                    assert(rest =~= more);
                    assert(later[0] == more[0]);
                }
                let pending = if agent::is_product(later[0]) {
                    Some(later[0])
                } else {
                    None
                };
                assert(agent::accepted(later, None) =~= agent::accepted(
                    later.drop_first(),
                    pending,
                ));
                assert(agent::accepted(later, Some(name)) == seq![name] + agent::accepted(
                    later.drop_first(),
                    pending,
                ));
            } else {
                assert(agent::accepted(later, Some(name)) =~= seq![name] + agent::accepted(
                    later,
                    None,
                ));
            }
            assert(agent::accepted(tokens, None) =~= agent::accepted(later, Some(name)));
        } else {
            let comment = group.skip(1);
            let token = text::join(comment, " "@);
            lemma_join_ends(comment);
            assert(all[1] == comment[0]);
            assert(all =~= seq![name] + (comment + rest));
            lemma_comment_end_stable(comment, rest, 0);
            lemma_comment_end_shift(seq![name], comment + rest, 0);
            assert(agent::comment_end(all, 1) == group.len() - 1);
            assert(all.subrange(1, group.len() as int) =~= comment);
            assert(agent::tokens_from(all, 1) == seq![token] + later);
            assert(tokens == seq![name] + (seq![token] + later));
            let inner = token.subrange(1, token.len() - 1);
            assert(tokens.drop_first() =~= seq![token] + later);
            assert(tokens.drop_first().drop_first() =~= later);
            assert(agent::starts_comment(token) && agent::ends_comment(token));
            reveal_strlit(" ");
            reveal_strlit(" (");
            reveal_strlit(")");
            text::lemma_join_front(name, comment, " "@);
            assert(seq![name] + comment =~= group);
            assert(agent::with_comment(name, inner) =~= product);
            assert(agent::accepted(tokens.drop_first(), Some(name)) == seq![product]
                + agent::accepted(later, None));
            assert(agent::accepted(tokens, None) =~= seq![product] + agent::accepted(later, None));
        }
    }
}

/// The name of a client that gives none holds no product.
proof fn lemma_default_name()
    ensures
        agent::kept_products(agent::DEFAULT_BOT_AGENT@).len() == 0,
{
    let name = agent::DEFAULT_BOT_AGENT@;
    reveal_strlit("OpenClaw");
    reveal_strlit("/");
    let words = seq![name];
    assert(text::is_word(name));
    text::lemma_words_of_join(words);
    assert(text::join(words, " "@) == name);
    assert(agent::tokens_from(words, 1) =~= Seq::<Seq<char>>::empty());
    let tokens = agent::tokens_from(words, 0);
    assert(tokens =~= words);
    text::lemma_find_from(name, "/"@, 0);
    if let Some(at) = text::find(name, "/"@) {
        assert(name.subrange(at, at + 1)[0] == name[at]);
    }
    assert(tokens.drop_first() =~= Seq::<Seq<char>>::empty());
    assert(agent::accepted(tokens.drop_first(), None) =~= Seq::<Seq<char>>::empty());
    assert(agent::accepted(tokens, None) =~= Seq::<Seq<char>>::empty());
}

/// A name that is sent would be sent as it is if a client called itself by it.
pub proof fn law_sanitized_again(raw: Option<Seq<char>>)
    ensures
        agent::sanitized(Some(agent::sanitized(raw))) == agent::sanitized(raw),
{
    lemma_default_name();
    if let Some(raw) = raw {
        if agent::kept_products(raw).len() > 0 {
            let words = text::words(raw);
            let tokens = agent::tokens_from(words, 0);
            let products = agent::kept_products(raw);
            text::lemma_words(raw);
            lemma_tokens(words, 0);
            lemma_accepted_kept(tokens, None);
            lemma_fitting_again(agent::accepted(tokens, None), 0, true);
            lemma_words_of_products(products);
            text::lemma_words_of_join(words_of_all(products));
            lemma_products_accepted(products, Seq::empty());
            assert(words_of_all(products) + Seq::<Seq<char>>::empty() =~= words_of_all(products));
            assert(products + agent::accepted(agent::tokens_from(Seq::empty(), 0), None)
                =~= products);
        }
    }
}

pub open spec fn is_letter_or_digit(c: char) -> bool {
    ('a' <= c <= 'z') || ('A' <= c <= 'Z') || ('0' <= c <= '9')
}

/// The name of a product: up to 32 letters, digits, `_`, `.` and `-`.
pub open spec fn is_name(s: Seq<char>) -> bool {
    &&& 1 <= s.len() <= 32
    &&& forall|i: int|
        0 <= i < s.len() ==> is_letter_or_digit(#[trigger] s[i]) || s[i] == '_' || s[i] == '.' || s[i]
            == '-'
}

/// The version of a product: the same, and `+`.
pub open spec fn is_version(s: Seq<char>) -> bool {
    &&& 1 <= s.len() <= 32
    &&& forall|i: int|
        0 <= i < s.len() ==> is_letter_or_digit(#[trigger] s[i]) || s[i] == '_' || s[i] == '.' || s[i]
            == '-' || s[i] == '+'
}

/// What a comment says: up to 64 printable characters without parentheses.
pub open spec fn is_remark(s: Seq<char>) -> bool {
    &&& 1 <= s.len() <= 64
    &&& forall|i: int| 0 <= i < s.len() ==> ' ' <= #[trigger] s[i] <= '~' && s[i] != '(' && s[i] != ')'
}

pub open spec fn slashed(name: Seq<char>, version: Seq<char>) -> Seq<char> {
    name + seq!['/'] + version
}

/// A product: its name, a slash and its version.
pub open spec fn is_bare_entry(s: Seq<char>) -> bool {
    exists|name: Seq<char>, version: Seq<char>|
        is_name(name) && is_version(version) && s == #[trigger] slashed(name, version)
}

/// The words of a comment in parentheses.
pub open spec fn is_parenthesis(words: Seq<Seq<char>>) -> bool {
    let s = text_laws::laid_out(words, seq![' ']);
    &&& words.len() > 0
    &&& text::all_words(words)
    &&& s.len() >= 3
    &&& s[0] == '('
    &&& s.last() == ')'
    &&& is_remark(s.subrange(1, s.len() - 1))
}

pub open spec fn commented(product: Seq<char>, words: Seq<Seq<char>>) -> Seq<char> {
    product + seq![' '] + text_laws::laid_out(words, seq![' '])
}

/// A product, alone or with a comment.
pub open spec fn is_entry(s: Seq<char>) -> bool {
    ||| is_bare_entry(s)
    ||| exists|product: Seq<char>, words: Seq<Seq<char>>|
        is_bare_entry(product) && is_parenthesis(words) && s == #[trigger] commented(product, words)
}

pub open spec fn all_entries(entries: Seq<Seq<char>>) -> bool {
    forall|i: int| 0 <= i < entries.len() ==> is_entry(#[trigger] entries[i])
}

/// A word that is neither a product nor the start of a comment.
pub open spec fn is_junk(s: Seq<char>) -> bool {
    text::is_word(s) && s[0] != '(' && !is_bare_entry(s)
}

pub open spec fn all_junk(words: Seq<Seq<char>>) -> bool {
    forall|i: int| 0 <= i < words.len() ==> is_junk(#[trigger] words[i])
}

proof fn lemma_slashed(name: Seq<char>, version: Seq<char>)
    requires
        is_name(name),
        is_version(version),
    ensures
        agent::is_product(slashed(name, version)),
        text::is_word(slashed(name, version)),
{
    reveal_strlit("/");
    assert("/"@ =~= seq!['/']);
    let s = slashed(name, version);
    let n = name.len() as int;
    assert forall|j: int| 0 <= j < n implies #[trigger] s.subrange(j, j + 1) != "/"@ by {
        assert(s.subrange(j, j + 1)[0] == name[j]);
        assert(is_letter_or_digit(name[j]) || name[j] == '_' || name[j] == '.' || name[j] == '-');
    }
    assert(s.subrange(n, n + 1) =~= "/"@);
    text_laws::law_find(s, "/"@, 0, n);
    assert(s.take(n) =~= name);
    assert(s.skip(n + 1) =~= version);
    assert forall|i: int| 0 <= i < name.len() implies agent::name_char(#[trigger] name[i]) by {
        assert(is_letter_or_digit(name[i]) || name[i] == '_' || name[i] == '.' || name[i] == '-');
    }
    assert forall|i: int| 0 <= i < version.len() implies agent::version_char(
        #[trigger] version[i],
    ) by {
        assert(is_letter_or_digit(version[i]) || version[i] == '_' || version[i] == '.' || version[i]
            == '-' || version[i] == '+');
    }
    assert forall|i: int| 0 <= i < s.len() implies !text::is_space(#[trigger] s[i]) by {
        if i < n {
            assert(agent::name_char(name[i]));
        } else if i > n {
            assert(agent::version_char(version[i - n - 1]));
        }
    }
}

proof fn lemma_product_is_slashed(s: Seq<char>)
    requires
        agent::is_product(s),
    ensures
        is_bare_entry(s),
{
    reveal_strlit("/");
    text::lemma_find_from(s, "/"@, 0);
    let at = text::find(s, "/"@)->0;
    let name = s.take(at);
    let version = s.skip(at + 1);
    assert(s.subrange(at, at + 1)[0] == '/');
    assert forall|i: int| 0 <= i < name.len() implies is_letter_or_digit(#[trigger] name[i])
        || name[i] == '_' || name[i] == '.' || name[i] == '-' by {
        assert(agent::name_char(name[i]));
    }
    assert forall|i: int| 0 <= i < version.len() implies is_letter_or_digit(#[trigger] version[i])
        || version[i] == '_' || version[i] == '.' || version[i] == '-' || version[i] == '+' by {
        assert(agent::version_char(version[i]));
    }
    assert(s =~= slashed(name, version));
}

/// Where the words of a text end.
proof fn lemma_word_ends(words: Seq<Seq<char>>, j: int) -> (p: int)
    requires
        0 <= j < words.len(),
        text::all_words(words),
    ensures
        ({
            let s = text_laws::laid_out(words, seq![' ']);
            &&& 0 <= p < s.len()
            &&& s[p] == words[j].last()
            &&& j < words.len() - 1 ==> p < s.len() - 1
        }),
    decreases words.len(),
{
    assert(text::is_word(words[0]));
    if words.len() == 1 {
        words[0].len() - 1
    } else {
        let rest = words.drop_first();
        assert forall|i: int| 0 <= i < rest.len() implies text::is_word(#[trigger] rest[i]) by {
            assert(text::is_word(words[i + 1]));
        }
        let s = text_laws::laid_out(words, seq![' ']);
        let tail = text_laws::laid_out(rest, seq![' ']);
        if j == 0 {
            let p = words[0].len() - 1;
            assert(s[p] == words[0][p]);
            p
        } else {
            let q = lemma_word_ends(rest, j - 1);
            let p = words[0].len() + 1 + q;
            assert(s[p] == tail[q]);
            p
        }
    }
}

proof fn lemma_parenthesis(words: Seq<Seq<char>>, i: int)
    requires
        is_parenthesis(words),
        0 <= i < words.len(),
    ensures
        agent::comment_end(words, i) == words.len() - 1,
    decreases words.len() - i,
{
    let s = text_laws::laid_out(words, seq![' ']);
    let inner = s.subrange(1, s.len() - 1);
    if i < words.len() - 1 {
        let p = lemma_word_ends(words, i);
        if p > 0 {
            assert(inner[p - 1] == s[p]);
        }
        lemma_parenthesis(words, i + 1);
    }
}

proof fn lemma_entry_is_kept(s: Seq<char>)
    requires
        is_entry(s),
    ensures
        is_kept_product(s),
{
    reveal_strlit(" ");
    assert(" "@ =~= seq![' ']);
    if is_bare_entry(s) {
        let (name, version) = choose|name: Seq<char>, version: Seq<char>|
            is_name(name) && is_version(version) && s == #[trigger] slashed(name, version);
        lemma_slashed(name, version);
        lemma_bare_product(s);
    } else {
        let (product, words) = choose|product: Seq<char>, words: Seq<Seq<char>>|
            is_bare_entry(product) && is_parenthesis(words) && s == #[trigger] commented(
                product,
                words,
            );
        let (name, version) = choose|name: Seq<char>, version: Seq<char>|
            is_name(name) && is_version(version) && product == #[trigger] slashed(name, version);
        lemma_slashed(name, version);
        lemma_parenthesis(words, 0);
        text_laws::law_join(words, " "@);
        let token = text::join(words, " "@);
        let inner = token.subrange(1, token.len() - 1);
        assert forall|i: int| 0 <= i < inner.len() implies agent::comment_char(
            #[trigger] inner[i],
        ) by {
            assert(' ' <= inner[i] <= '~');
        }
        assert(text::is_word(words[0]));
        text_laws::law_join(words, seq![' ']);
        lemma_join_ends(words);
        let group = seq![product] + words;
        assert(group.skip(1) =~= words);
        assert forall|i: int| 0 <= i < group.len() implies text::is_word(#[trigger] group[i]) by {
            if i > 0 {
                assert(text::is_word(words[i - 1]));
            }
        }
        assert(is_comment_group(words));
        assert(is_product_group(group));
        text::lemma_join_front(product, words, " "@);
        assert(s == text::join(group, " "@));
    }
}

proof fn lemma_entries_are_kept(entries: Seq<Seq<char>>)
    requires
        all_entries(entries),
    ensures
        all_kept_products(entries),
{
    assert forall|i: int| 0 <= i < entries.len() implies is_kept_product(#[trigger] entries[i]) by {
        assert(is_entry(entries[i]));
        lemma_entry_is_kept(entries[i]);
    }
}

proof fn lemma_junk_is_passed(junk: Seq<Seq<char>>, more: Seq<Seq<char>>, i: int)
    requires
        all_junk(junk),
        0 <= i <= junk.len(),
    ensures
        agent::accepted(agent::tokens_from(junk + more, i), None) == agent::accepted(
            agent::tokens_from(more, 0),
            None,
        ),
    decreases junk.len() - i,
{
    let all = junk + more;
    if i < junk.len() {
        assert(all[i] == junk[i]);
        assert(is_junk(junk[i]));
        if agent::is_product(junk[i]) {
            lemma_product_is_slashed(junk[i]);
        }
        lemma_junk_is_passed(junk, more, i + 1);
        let later = agent::tokens_from(all, i + 1);
        let tokens = agent::tokens_from(all, i);
        assert(tokens == seq![junk[i]] + later);
        assert(tokens.drop_first() =~= later);
        assert(agent::accepted(tokens, None) =~= agent::accepted(later, None));
    } else {
        lemma_tokens_shift(junk, more, 0);
    }
}

/// The words of entries, then of junk, then of entries.
proof fn lemma_words_of_raw(
    first: Seq<Seq<char>>,
    junk: Seq<Seq<char>>,
    second: Seq<Seq<char>>,
)
    requires
        all_kept_products(first),
        all_junk(junk),
        all_kept_products(second),
        first.len() + junk.len() + second.len() > 0,
    ensures
        text::words(text_laws::laid_out(first + junk + second, seq![' '])) == words_of_all(first)
            + junk + words_of_all(second),
{
    reveal_strlit(" ");
    assert(" "@ =~= seq![' ']);
    let a = words_of_all(first);
    let b = words_of_all(second);
    lemma_words_of_products(first);
    lemma_words_of_products(second);
    let all = a + junk + b;
    assert forall|i: int| 0 <= i < all.len() implies text::is_word(#[trigger] all[i]) by {
        if i < a.len() {
            assert(text::is_word(a[i]));
        } else if i < a.len() + junk.len() {
            assert(is_junk(junk[i - a.len()]));
        } else {
            assert(text::is_word(b[i - a.len() - junk.len()]));
        }
    }
    text::lemma_words_of_join(all);
    text_laws::law_join(first + junk + second, " "@);
    assert(text::join(first + junk + second, " "@) == text::join(all, " "@)) by {
        let e = Seq::<Seq<char>>::empty();
        assert(first.len() == 0 ==> a =~= e && first =~= e);
        assert(second.len() == 0 ==> b =~= e && second =~= e);
        if junk.len() == 0 {
            assert(first + junk + second =~= first + second);
            assert(all =~= a + b);
            if first.len() > 0 && second.len() > 0 {
                text::lemma_join_add(first, second, " "@);
                text::lemma_join_add(a, b, " "@);
            } else if first.len() > 0 {
                assert(first + second =~= first);
                assert(a + b =~= a);
            } else {
                assert(first + second =~= second);
                assert(a + b =~= b);
            }
        } else {
            let left = first + junk;
            let words = a + junk;
            if first.len() > 0 {
                text::lemma_join_add(first, junk, " "@);
                text::lemma_join_add(a, junk, " "@);
            } else {
                assert(left =~= junk);
                assert(words =~= junk);
            }
            if second.len() > 0 {
                text::lemma_join_add(left, second, " "@);
                text::lemma_join_add(words, b, " "@);
            } else {
                assert(left + second =~= left);
                assert(words + b =~= words);
            }
        }
    }
}

proof fn lemma_first_word(products: Seq<Seq<char>>)
    requires
        all_kept_products(products),
    ensures
        words_of_all(products).len() > 0 ==> !agent::starts_comment(words_of_all(products)[0]),
{
    if products.len() > 0 {
        assert(is_kept_product(products[0]));
        let group = group_of(products[0]);
        lemma_product_opens_no_comment(group[0]);
        assert(words_of_all(products)[0] == group[0]);
    }
}

proof fn lemma_accepted_raw(
    first: Seq<Seq<char>>,
    junk: Seq<Seq<char>>,
    second: Seq<Seq<char>>,
)
    requires
        all_kept_products(first),
        all_junk(junk),
        all_kept_products(second),
        first.len() + junk.len() + second.len() > 0,
    ensures
        agent::kept_products(text_laws::laid_out(first + junk + second, seq![' ']))
            == agent::fitting(first + second, 0, true),
{
    let a = words_of_all(first);
    let b = words_of_all(second);
    let e = Seq::<Seq<char>>::empty();
    lemma_words_of_raw(first, junk, second);
    lemma_first_word(second);
    assert(a + junk + b =~= a + (junk + b));
    if junk.len() > 0 {
        assert(is_junk(junk[0]));
        assert((junk + b)[0] == junk[0]);
    } else {
        assert(junk + b =~= b);
    }
    lemma_products_accepted(first, junk + b);
    lemma_junk_is_passed(junk, b, 0);
    lemma_products_accepted(second, e);
    assert(b + e =~= b);
    assert(second + agent::accepted(agent::tokens_from(e, 0), None) =~= second);
}

/// As many products as fit are those whose text is short enough.
proof fn lemma_fits(products: Seq<Seq<char>>, used: int, first: bool, k: int)
    requires
        0 <= k <= products.len(),
        k > 0 ==> used + (if first {
            0int
        } else {
            1int
        }) + text::byte_len(text::join(products.take(k), " "@)) <= 256,
        k < products.len() ==> used + (if first {
            0int
        } else {
            1int
        }) + text::byte_len(text::join(products.take(k + 1), " "@)) > 256,
    ensures
        agent::fitting(products, used, first) == products.take(k),
    decreases products.len(),
{
    let sep = if first {
        0int
    } else {
        1int
    };
    if products.len() == 0 {
        assert(products.take(k) =~= Seq::<Seq<char>>::empty());
    } else {
        let rest = products.drop_first();
        let total = used + text::byte_len(products[0]) + sep;
        lemma_join_bytes(products, 1);
        if k == 0 {
            assert(products.take(0) =~= Seq::<Seq<char>>::empty());
        } else {
            lemma_join_bytes(products, k);
            assert(total <= 256);
            if k < products.len() {
                lemma_join_bytes(products, k + 1);
            }
            lemma_fits(rest, total, false, k - 1);
            assert(products.take(k) =~= seq![products[0]] + rest.take(k - 1));
        }
    }
}

proof fn lemma_join_bytes(products: Seq<Seq<char>>, k: int)
    requires
        0 < k <= products.len(),
    ensures
        text::byte_len(text::join(products.take(k), " "@)) == text::byte_len(products[0]) + if k
            > 1 {
            1 + text::byte_len(text::join(products.drop_first().take(k - 1), " "@))
        } else {
            0
        },
{
    reveal_strlit(" ");
    let first = products[0];
    let rest = products.drop_first().take(k - 1);
    if k > 1 {
        assert(products.take(k) =~= seq![first] + rest);
        text::lemma_join_front(first, rest, " "@);
        text::lemma_byte_len_push(first, ' ');
        assert(first + " "@ =~= first.push(' '));
        text::lemma_byte_len_add(first + " "@, text::join(rest, " "@));
    } else {
        assert(products.take(1) =~= seq![first]);
    }
}

/// Of products with or without comments as many are kept, from the first one on, as take no more than
/// 256 bytes with the spaces between them. All of them are kept where they take no more.
pub proof fn law_products_are_kept(entries: Seq<Seq<char>>, k: int)
    requires
        all_entries(entries),
        0 < k <= entries.len(),
        text::byte_len(text_laws::laid_out(entries.take(k), seq![' '])) <= 256,
        k < entries.len() ==> text::byte_len(
            text_laws::laid_out(entries.take(k + 1), seq![' ']),
        ) > 256,
    ensures
        agent::sanitized(Some(text_laws::laid_out(entries, seq![' ']))) == text_laws::laid_out(
            entries.take(k),
            seq![' '],
        ),
{
    reveal_strlit(" ");
    assert(" "@ =~= seq![' ']);
    let e = Seq::<Seq<char>>::empty();
    lemma_entries_are_kept(entries);
    lemma_accepted_raw(entries, e, e);
    assert(entries + e + e =~= entries);
    assert(entries + e =~= entries);
    text_laws::law_join(entries.take(k), " "@);
    if k < entries.len() {
        text_laws::law_join(entries.take(k + 1), " "@);
    }
    lemma_fits(entries, 0, true, k);
}

/// Words that are neither products nor comments are left out, wherever they stand between products, and
/// where nothing else is there, or no name was given, the usual name is sent.
pub proof fn law_other_words_are_left_out(
    first: Seq<Seq<char>>,
    junk: Seq<Seq<char>>,
    second: Seq<Seq<char>>,
)
    requires
        all_entries(first),
        all_junk(junk),
        all_entries(second),
    ensures
        first.len() + second.len() > 0 ==> agent::sanitized(
            Some(text_laws::laid_out(first + junk + second, seq![' '])),
        ) == agent::sanitized(Some(text_laws::laid_out(first + second, seq![' ']))),
        first.len() + second.len() == 0 ==> agent::sanitized(
            Some(text_laws::laid_out(junk, seq![' '])),
        ) == "OpenClaw"@,
        agent::sanitized(None) == "OpenClaw"@,
{
    let e = Seq::<Seq<char>>::empty();
    lemma_entries_are_kept(first);
    lemma_entries_are_kept(second);
    if first.len() + second.len() > 0 {
        lemma_accepted_raw(first, junk, second);
        lemma_accepted_raw(first, e, second);
        assert(first + e + second =~= first + second);
    } else if junk.len() > 0 {
        lemma_accepted_raw(e, junk, e);
        assert(e + junk + e =~= junk);
        assert(e + e =~= e);
    } else {
        assert(text_laws::laid_out(junk, seq![' ']) =~= Seq::<char>::empty());
        assert(agent::tokens_from(text::words(Seq::empty()), 0) =~= e);
        assert(agent::accepted(e, None) =~= e);
    }
}

/// A comment that is no valid one is left out, and the product before it kept: one with a parenthesis
/// inside, one that is empty or too long, and one with characters that cannot be printed.
pub proof fn law_wrong_comments_are_left_out(name: Seq<char>, version: Seq<char>, remark: Seq<char>)
    requires
        is_name(name),
        is_version(version),
        remark.len() > 0 ==> text::is_word(remark),
        !is_remark(remark),
    ensures
        agent::sanitized(
            Some(slashed(name, version) + seq![' '] + (seq!['('] + remark + seq![')'])),
        ) == slashed(name, version),
{
    reveal_strlit(" ");
    assert(" "@ =~= seq![' ']);
    let product = slashed(name, version);
    let token = seq!['('] + remark + seq![')'];
    let words = seq![product, token];
    let raw = product + seq![' '] + token;
    lemma_slashed(name, version);
    lemma_product_opens_no_comment(product);
    assert forall|i: int| 0 <= i < token.len() implies !text::is_space(#[trigger] token[i]) by {
        if 0 < i <= remark.len() {
            assert(token[i] == remark[i - 1]);
            assert(!text::is_space(remark[i - 1]));
        }
    }
    assert(text::all_words(words));
    text::lemma_words_of_join(words);
    reveal_with_fuel(text::join, 3);
    assert(words.drop_last() =~= seq![product]);
    assert(text::join(words, " "@) =~= raw);
    assert(agent::comment_end(words, 1) == 1);
    assert(words.subrange(1, 2) =~= seq![token]);
    assert(text::join(seq![token], " "@) == token);
    assert(agent::tokens_from(words, 2) =~= Seq::<Seq<char>>::empty());
    assert(agent::tokens_from(words, 1) =~= seq![token]);
    assert(agent::tokens_from(words, 0) =~= words);
    let inner = token.subrange(1, token.len() - 1);
    assert(inner =~= remark);
    if agent::is_comment(remark) {
        assert forall|i: int| 0 <= i < remark.len() implies ' ' <= #[trigger] remark[i] <= '~'
            && remark[i] != '(' && remark[i] != ')' by {
            assert(agent::comment_char(remark[i]));
        }
    }
    let rest = words.drop_first();
    assert(rest =~= seq![token]);
    assert(rest.drop_first() =~= Seq::<Seq<char>>::empty());
    assert(agent::accepted(rest.drop_first(), None) =~= Seq::<Seq<char>>::empty());
    assert(agent::accepted(rest, Some(product)) =~= seq![product]);
    assert(agent::accepted(words, None) =~= seq![product]);
    text::lemma_byte_len_bounds(product);
    assert(product.len() <= 65);
    lemma_product_bytes(name, version);
    lemma_fits(seq![product], 0, true, 1);
    assert(seq![product].take(1) =~= seq![product]);
}

proof fn lemma_product_bytes(name: Seq<char>, version: Seq<char>)
    requires
        is_name(name),
        is_version(version),
    ensures
        text::byte_len(text::join(seq![slashed(name, version)].take(1), " "@)) <= 256,
{
    let product = slashed(name, version);
    assert(seq![product].take(1) =~= seq![product]);
    lemma_ascii_bytes(product);
    assert forall|i: int| 0 <= i < product.len() implies (#[trigger] product[i] as u32) < 128 by {
        if i < name.len() {
            assert(is_letter_or_digit(name[i]) || name[i] == '_' || name[i] == '.' || name[i] == '-');
        } else if i > name.len() {
            let v = version[i - name.len() - 1];
            assert(is_letter_or_digit(v) || v == '_' || v == '.' || v == '-' || v == '+');
        }
    }
    lemma_ascii_bytes(product);
}

proof fn lemma_ascii_bytes(s: Seq<char>)
    ensures
        (forall|i: int| 0 <= i < s.len() ==> (#[trigger] s[i] as u32) < 128) ==> text::byte_len(s)
            == s.len(),
    decreases s.len(),
{
    if s.len() > 0 && forall|i: int| 0 <= i < s.len() ==> (#[trigger] s[i] as u32) < 128 {
        let init = s.drop_last();
        assert forall|i: int| 0 <= i < init.len() implies (#[trigger] init[i] as u32) < 128 by {
            assert((s[i] as u32) < 128);
        }
        lemma_ascii_bytes(init);
        text::lemma_byte_len_push(init, s.last());
        assert(init.push(s.last()) =~= s);
        assert((s[s.len() - 1] as u32) < 128);
    } else if s.len() == 0 {
        text::lemma_byte_len_bounds(s);
    }
}

/// The words of a text are what white space stands between, however much of it.
pub proof fn law_words_are_apart(a: Seq<char>, c: char, b: Seq<char>)
    requires
        text::is_space(c),
    ensures
        text::words(a + seq![c] + b) == text::words(a) + text::words(b),
        text::is_word(a) ==> text::words(a) == seq![a],
        text::words(Seq::empty()).len() == 0,
    decreases b.len(),
{
    let s = a + seq![c] + b;
    if text::is_word(a) {
        text::lemma_words_push(Seq::empty(), a);
        assert(Seq::<char>::empty() + a =~= a);
        assert(text::words(Seq::empty()).push(a) =~= seq![a]);
    }
    if b.len() == 0 {
        assert(s.drop_last() =~= a);
        assert(text::words(a) + text::words(b) =~= text::words(a));
    } else {
        let init = b.drop_last();
        law_words_are_apart(a, c, init);
        assert(s.drop_last() =~= a + seq![c] + init);
        assert(s.last() == b.last());
        if !text::is_space(b.last()) {
            if b.len() == 1 {
                assert(s[s.len() - 2] == c);
                assert(text::words(init).len() == 0);
                assert(text::words(s) =~= text::words(a) + text::words(b));
            } else {
                assert(s[s.len() - 2] == b[b.len() - 2]);
                let left = text::words(a);
                let right = text::words(init);
                if text::is_space(b[b.len() - 2]) {
                    assert(text::words(s) =~= left + text::words(b));
                } else {
                    text::lemma_words(init);
                    assert(init.last() == b[b.len() - 2]);
                    assert((left + right).last() == right.last());
                    assert((left + right).drop_last() =~= left + right.drop_last());
                    assert(text::words(s) =~= left + text::words(b));
                }
            }
        }
    }
}

} // verus!
