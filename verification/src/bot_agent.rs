//! The name under which a client introduces itself.

use crate::text;
use vstd::prelude::*;

verus! {

/// The name of a client that gives none of its own.
pub const DEFAULT_BOT_AGENT: &'static str = "OpenClaw";

/// How many bytes a name may take.
pub const MAX_BOT_AGENT_BYTES: usize = 256;

pub open spec fn is_alphanumeric(c: char) -> bool {
    ('0' <= c <= '9') || ('A' <= c <= 'Z') || ('a' <= c <= 'z')
}

pub open spec fn name_char(c: char) -> bool {
    is_alphanumeric(c) || c == '_' || c == '.' || c == '-'
}

pub open spec fn version_char(c: char) -> bool {
    name_char(c) || c == '+'
}

pub open spec fn comment_char(c: char) -> bool {
    ' ' <= c <= '~' && c != '(' && c != ')'
}

/// `name/version`, each of 1 to 32 permitted characters.
pub open spec fn is_product(token: Seq<char>) -> bool {
    match text::find(token, "/"@) {
        None => false,
        Some(at) => {
            let name = token.take(at);
            let version = token.skip(at + 1);
            &&& 1 <= name.len() <= 32
            &&& 1 <= version.len() <= 32
            &&& forall|i: int| 0 <= i < name.len() ==> name_char(#[trigger] name[i])
            &&& forall|i: int| 0 <= i < version.len() ==> version_char(#[trigger] version[i])
        },
    }
}

/// 1 to 64 printable ASCII characters without parentheses.
pub open spec fn is_comment(comment: Seq<char>) -> bool {
    &&& 1 <= comment.len() <= 64
    &&& forall|i: int| 0 <= i < comment.len() ==> comment_char(#[trigger] comment[i])
}

pub open spec fn starts_comment(token: Seq<char>) -> bool {
    token.len() > 0 && token[0] == '('
}

pub open spec fn ends_comment(token: Seq<char>) -> bool {
    token.len() > 0 && token.last() == ')'
}

/// The last word of the comment that starts with word `i`: the first word from there on that
/// ends with a parenthesis, or the last word of all.
pub open spec fn comment_end(words: Seq<Seq<char>>, i: int) -> int
    decreases words.len() - i,
{
    if i + 1 >= words.len() || ends_comment(words[i]) {
        i
    } else {
        comment_end(words, i + 1)
    }
}

/// The words from `i` on, with the words of each comment put together.
pub open spec fn tokens_from(words: Seq<Seq<char>>, i: int) -> Seq<Seq<char>>
    decreases words.len() - i,
{
    if i < 0 || i >= words.len() {
        Seq::empty()
    } else if starts_comment(words[i]) {
        proof {
            lemma_comment_end(words, i);
        }
        let k = comment_end(words, i);
        seq![text::join(words.subrange(i, k + 1), " "@)] + tokens_from(words, k + 1)
    } else {
        seq![words[i]] + tokens_from(words, i + 1)
    }
}

pub open spec fn optional(token: Option<Seq<char>>) -> Seq<Seq<char>> {
    match token {
        Some(token) => seq![token],
        None => Seq::empty(),
    }
}

pub open spec fn with_comment(product: Seq<char>, comment: Seq<char>) -> Seq<char> {
    product + " ("@ + comment + ")"@
}

/// The products among `tokens`, each with the valid comment that follows it. `pending` is the
/// product just seen.
pub open spec fn accepted(tokens: Seq<Seq<char>>, pending: Option<Seq<char>>) -> Seq<Seq<char>>
    decreases tokens.len(),
{
    if tokens.len() == 0 {
        optional(pending)
    } else {
        let token = tokens[0];
        let rest = tokens.drop_first();
        if starts_comment(token) && ends_comment(token) {
            let comment = token.subrange(1, token.len() - 1);
            let product = match pending {
                Some(product) if is_comment(comment) => Some(with_comment(product, comment)),
                _ => pending,
            };
            optional(product) + accepted(rest, None)
        } else {
            optional(pending) + accepted(
                rest,
                if is_product(token) {
                    Some(token)
                } else {
                    None
                },
            )
        }
    }
}

/// As many `products` as fit, with one byte between each two, when `used` bytes are taken.
pub open spec fn fitting(products: Seq<Seq<char>>, used: int, first: bool) -> Seq<Seq<char>>
    decreases products.len(),
{
    if products.len() == 0 {
        Seq::empty()
    } else {
        let total = used + text::byte_len(products[0]) + if first {
            0int
        } else {
            1int
        };
        if total > MAX_BOT_AGENT_BYTES {
            Seq::empty()
        } else {
            seq![products[0]] + fitting(products.drop_first(), total, false)
        }
    }
}

/// The products of `raw` that a name may hold.
pub open spec fn kept_products(raw: Seq<char>) -> Seq<Seq<char>> {
    fitting(accepted(tokens_from(text::words(raw), 0), None), 0, true)
}

/// The name that is sent for `raw`.
pub open spec fn sanitized(raw: Option<Seq<char>>) -> Seq<char> {
    match raw {
        Some(raw) if kept_products(raw).len() > 0 => text::join(kept_products(raw), " "@),
        _ => DEFAULT_BOT_AGENT@,
    }
}

fn alphanumeric(c: char) -> (b: bool)
    ensures
        b == is_alphanumeric(c),
{
    ('0' <= c && c <= '9') || ('A' <= c && c <= 'Z') || ('a' <= c && c <= 'z')
}

fn is_bot_agent_product(token: &Vec<char>) -> (b: bool)
    ensures
        b == is_product(token@),
{
    proof {
        reveal_strlit("/");
    }
    let at = match text::find_in(token, "/", 0) {
        Some(at) => at,
        None => {
            return false;
        },
    };
    let name_len = at;
    let version_len = token.len() - at - 1;
    if name_len == 0 || version_len == 0 || name_len > 32 || version_len > 32 {
        return false;
    }
    let mut i: usize = 0;
    while i < at
        invariant
            i <= at < token.len(),
            text::find(token@, "/"@) == Some(at as int),
            forall|k: int| 0 <= k < i ==> name_char(#[trigger] token@[k]),
        decreases at - i,
    {
        let c = token[i];
        if !(alphanumeric(c) || c == '_' || c == '.' || c == '-') {
            assert(token@.take(at as int)[i as int] == c);
            return false;
        }
        i += 1;
    }
    i = at + 1;
    while i < token.len()
        invariant
            at + 1 <= i <= token.len(),
            text::find(token@, "/"@) == Some(at as int),
            forall|k: int| at + 1 <= k < i ==> version_char(#[trigger] token@[k]),
        decreases token.len() - i,
    {
        let c = token[i];
        if !(alphanumeric(c) || c == '_' || c == '.' || c == '+' || c == '-') {
            assert(token@.skip(at + 1)[i - at - 1] == c);
            return false;
        }
        i += 1;
    }
    true
}

fn is_bot_agent_comment(comment: &Vec<char>) -> (b: bool)
    ensures
        b == is_comment(comment@),
{
    if comment.len() == 0 || comment.len() > 64 {
        return false;
    }
    let mut i: usize = 0;
    while i < comment.len()
        invariant
            i <= comment.len(),
            forall|k: int| 0 <= k < i ==> comment_char(#[trigger] comment@[k]),
        decreases comment.len() - i,
    {
        let c = comment[i];
        if !(' ' <= c && c <= '~' && c != '(' && c != ')') {
            return false;
        }
        i += 1;
    }
    true
}

/// A comment ends where it starts or later.
pub proof fn lemma_comment_end(words: Seq<Seq<char>>, i: int)
    requires
        0 <= i < words.len(),
    ensures
        i <= comment_end(words, i) < words.len(),
    decreases words.len() - i,
{
    if i + 1 < words.len() && !ends_comment(words[i]) {
        lemma_comment_end(words, i + 1);
    }
}

fn opens_comment(token: &Vec<char>) -> (b: bool)
    ensures
        b == starts_comment(token@),
{
    token.len() > 0 && token[0] == '('
}

fn closes_comment(token: &Vec<char>) -> (b: bool)
    ensures
        b == ends_comment(token@),
{
    token.len() > 0 && token[token.len() - 1] == ')'
}

/// The tokens that `words` make up.
fn group_comments(words: &Vec<Vec<char>>) -> (tokens: Vec<Vec<char>>)
    ensures
        text::views(tokens@) == tokens_from(text::views(words@), 0),
{
    let ghost all = tokens_from(text::views(words@), 0);
    let mut tokens: Vec<Vec<char>> = Vec::new();
    let mut i: usize = 0;
    assert(text::views(tokens@) + all =~= all);
    while i < words.len()
        invariant
            i <= words.len(),
            all == text::views(tokens@) + tokens_from(text::views(words@), i as int),
        decreases words.len() - i,
    {
        let ghost done = text::views(tokens@);
        let ghost seen = text::views(words@);
        if opens_comment(&words[i]) {
            let start = i;
            while i + 1 < words.len() && !closes_comment(&words[i])
                invariant
                    start <= i < words.len(),
                    seen == text::views(words@),
                    comment_end(seen, start as int) == comment_end(seen, i as int),
                decreases words.len() - i,
            {
                i += 1;
            }
            let comment = text::join_range(words, start, i + 1, " ");
            tokens.push(comment);
            assert(text::views(tokens@) =~= done.push(
                text::join(seen.subrange(start as int, i + 1), " "@),
            ));
        } else {
            let word = text::slice_of(&words[i], 0, words[i].len());
            assert(word@ =~= seen[i as int]);
            tokens.push(word);
            assert(text::views(tokens@) =~= done.push(seen[i as int]));
        }
        i += 1;
        assert(all =~= text::views(tokens@) + tokens_from(seen, i as int));
    }
    assert(all =~= text::views(tokens@));
    tokens
}

/// Appends `product` with `comment` in parentheses, or without it where it is not valid.
fn push_with_comment(products: &mut Vec<Vec<char>>, product: Vec<char>, comment: &Vec<char>)
    ensures
        text::views(final(products)@) == text::views(old(products)@).push(
            if is_comment(comment@) {
                with_comment(product@, comment@)
            } else {
                product@
            },
        ),
{
    let ghost before = text::views(products@);
    let ghost bare = product@;
    let mut product = product;
    if is_bot_agent_comment(comment) {
        text::extend_with(&mut product, &text::chars_of(" ("));
        text::extend_with(&mut product, comment);
        text::extend_with(&mut product, &text::chars_of(")"));
    }
    let ghost last = product@;
    products.push(product);
    assert(text::views(products@) =~= before.push(last));
}

/// The products among `tokens` with their comments.
fn accept(tokens: &Vec<Vec<char>>) -> (products: Vec<Vec<char>>)
    ensures
        text::views(products@) == accepted(text::views(tokens@), None),
{
    let ghost seen = text::views(tokens@);
    let ghost all = accepted(seen, None);
    let mut products: Vec<Vec<char>> = Vec::new();
    let mut pending: Option<Vec<char>> = None;
    let mut i: usize = 0;
    assert(seen.skip(0) =~= seen);
    assert(text::views(products@) + all =~= all);
    while i < tokens.len()
        invariant
            i <= tokens.len(),
            seen == text::views(tokens@),
            all == text::views(products@) + accepted(seen.skip(i as int), optional_view(pending)),
        decreases tokens.len() - i,
    {
        let token = &tokens[i];
        let ghost done = text::views(products@);
        let ghost before = optional_view(pending);
        assert(seen.skip(i as int).drop_first() =~= seen.skip(i + 1));
        assert(seen.skip(i as int)[0] == token@);
        let ghost rest = seen.skip(i + 1);
        if opens_comment(token) && closes_comment(token) {
            if let Some(product) = pending {
                let comment = text::slice_of(token, 1, token.len() - 1);
                push_with_comment(&mut products, product, &comment);
            }
            pending = None;
        } else {
            if let Some(product) = pending {
                products.push(product);
                assert(text::views(products@) =~= done.push(product@));
            }
            pending = if is_bot_agent_product(token) {
                Some(text::slice_of(token, 0, token.len()))
            } else {
                None
            };
            assert(token@.subrange(0, token@.len() as int) =~= token@);
        }
        i += 1;
        assert(all =~= text::views(products@) + accepted(rest, optional_view(pending)));
    }
    let ghost done = text::views(products@);
    assert(seen.skip(i as int) =~= Seq::empty());
    if let Some(product) = pending {
        products.push(product);
        assert(text::views(products@) =~= done + optional(optional_view(pending)));
    }
    assert(all =~= text::views(products@));
    products
}

pub open spec fn optional_view(v: Option<Vec<char>>) -> Option<Seq<char>> {
    match v {
        Some(v) => Some(v@),
        None => None,
    }
}

/// How many of `products` fit.
fn count_fitting(products: &Vec<Vec<char>>) -> (n: usize)
    ensures
        n <= products.len(),
        text::views(products@).take(n as int) == fitting(text::views(products@), 0, true),
{
    let ghost seen = text::views(products@);
    let ghost all = fitting(seen, 0, true);
    let mut used: usize = 0;
    let mut n: usize = 0;
    assert(seen.skip(0) =~= seen);
    assert(all =~= seen.take(0) + all);
    while n < products.len()
        invariant
            n <= products.len(),
            seen == text::views(products@),
            all == fitting(seen, 0, true),
            used <= MAX_BOT_AGENT_BYTES,
            all == seen.take(n as int) + fitting(seen.skip(n as int), used as int, n == 0),
        decreases products.len() - n,
    {
        assert(seen.skip(n as int)[0] == products@[n as int]@);
        let separator: usize = if n == 0 {
            0
        } else {
            1
        };
        if used + separator > MAX_BOT_AGENT_BYTES {
            assert(all =~= seen.take(n as int));
            return n;
        }
        match text::bytes_up_to(&products[n], MAX_BOT_AGENT_BYTES - used - separator) {
            Some(bytes) => {
                used += separator + bytes;
                assert(seen.skip(n as int).drop_first() =~= seen.skip(n + 1));
                assert(seen.take(n + 1) =~= seen.take(n as int) + seq![seen[n as int]]);
                n += 1;
                assert(all =~= seen.take(n as int) + fitting(
                    seen.skip(n as int),
                    used as int,
                    n == 0,
                ));
            },
            None => {
                assert(all =~= seen.take(n as int));
                return n;
            },
        }
    }
    assert(all =~= seen.take(n as int));
    n
}

/// The name that is sent for `raw`.
pub fn sanitize_bot_agent(raw: Option<&str>) -> (name: String)
    ensures
        name@ == sanitized(
            match raw {
                Some(raw) => Some(raw@),
                None => None,
            },
        ),
{
    if let Some(raw) = raw {
        let words = text::words_of(&text::chars_of(raw));
        let products = accept(&group_comments(&words));
        let n = count_fitting(&products);
        if n > 0 {
            let name = text::join_range(&products, 0, n, " ");
            assert(text::views(products@).subrange(0, n as int) =~= text::views(products@).take(
                n as int,
            ));
            return text::string_of(&name);
        }
    }
    DEFAULT_BOT_AGENT.to_owned()
}

pub open spec fn printable(s: Seq<char>) -> bool {
    forall|i: int| 0 <= i < s.len() ==> ' ' <= #[trigger] s[i] <= '~'
}

pub open spec fn all_printable(parts: Seq<Seq<char>>) -> bool {
    forall|i: int| 0 <= i < parts.len() ==> printable(#[trigger] parts[i])
}

proof fn lemma_product_printable(token: Seq<char>)
    requires
        is_product(token),
    ensures
        printable(token),
{
    reveal_strlit("/");
    text::lemma_find_from(token, "/"@, 0);
    let at = text::find(token, "/"@)->0;
    assert(token.subrange(at, at + 1)[0] == '/');
    assert forall|i: int| 0 <= i < token.len() implies ' ' <= #[trigger] token[i] <= '~' by {
        if i < at {
            assert(name_char(token.take(at)[i]));
        } else if i > at {
            assert(version_char(token.skip(at + 1)[i - at - 1]));
        }
    }
}

proof fn lemma_accepted_printable(tokens: Seq<Seq<char>>, pending: Option<Seq<char>>)
    requires
        pending matches Some(p) ==> printable(p),
    ensures
        all_printable(accepted(tokens, pending)),
    decreases tokens.len(),
{
    if tokens.len() > 0 {
        let token = tokens[0];
        let rest = tokens.drop_first();
        if starts_comment(token) && ends_comment(token) {
            lemma_accepted_printable(rest, None);
            reveal_strlit(" (");
            reveal_strlit(")");
        } else {
            if is_product(token) {
                lemma_product_printable(token);
            }
            lemma_accepted_printable(
                rest,
                if is_product(token) {
                    Some(token)
                } else {
                    None
                },
            );
        }
    }
}

proof fn lemma_join_printable(parts: Seq<Seq<char>>)
    requires
        all_printable(parts),
    ensures
        printable(text::join(parts, " "@)),
    decreases parts.len(),
{
    reveal_strlit(" ");
    if parts.len() > 1 {
        lemma_join_printable(parts.drop_last());
    }
}

proof fn lemma_fitting(products: Seq<Seq<char>>, used: int, first: bool)
    requires
        0 <= used <= MAX_BOT_AGENT_BYTES,
        all_printable(products),
    ensures
        all_printable(fitting(products, used, first)),
        fitting(products, used, first).len() > 0 ==> used + (if first {
            0int
        } else {
            1int
        }) + text::byte_len(text::join(fitting(products, used, first), " "@))
            <= MAX_BOT_AGENT_BYTES,
    decreases products.len(),
{
    if products.len() > 0 {
        let separator = if first {
            0int
        } else {
            1int
        };
        let total = used + text::byte_len(products[0]) + separator;
        if total <= MAX_BOT_AGENT_BYTES {
            let rest = fitting(products.drop_first(), total, false);
            lemma_fitting(products.drop_first(), total, false);
            if rest.len() > 0 {
                text::lemma_join_front(products[0], rest, " "@);
                reveal_strlit(" ");
                text::lemma_byte_len_push(products[0], ' ');
                assert(products[0] + " "@ =~= products[0].push(' '));
                text::lemma_byte_len_add(products[0] + " "@, text::join(rest, " "@));
            } else {
                assert(seq![products[0]] + rest =~= seq![products[0]]);
            }
        }
    }
}

/// Whatever a client calls itself, the name that is sent is printable ASCII of at most
/// [`MAX_BOT_AGENT_BYTES`] bytes.
pub proof fn law_sanitized(raw: Option<Seq<char>>)
    ensures
        printable(sanitized(raw)),
        text::byte_len(sanitized(raw)) <= MAX_BOT_AGENT_BYTES,
{
    reveal_strlit("OpenClaw");
    text::lemma_byte_len_bounds("OpenClaw"@);
    if let Some(raw) = raw {
        let products = accepted(tokens_from(text::words(raw), 0), None);
        lemma_accepted_printable(tokens_from(text::words(raw), 0), None);
        lemma_fitting(products, 0, true);
        lemma_join_printable(kept_products(raw));
    }
}

} // verus!
