//! What replies, addresses and versions mean.

use crate::decimal;
use crate::error::ErrorView;
use crate::outside;
use crate::protocol;
use crate::responses::GetUpdatesResponse;
use crate::text_laws;
use vstd::prelude::*;
use vstd::utf8;

verus! {

/// Whether `err` says this: an error that asks to slow down, after 90 seconds, where the code is -2,
/// and else an error of the service.
pub open spec fn says(err: ErrorView, message: Seq<char>, http_status: u16, errcode: int) -> bool {
    if errcode == -2 {
        err == ErrorView::RateLimited {
            retry_after: 90_000_000_000,
            message,
            http_status,
            errcode: -2i32,
        }
    } else {
        err == ErrorView::Api { message, http_status, errcode: errcode as i32 }
    }
}

/// `ret=` and the code.
pub open spec fn bare_code(code: int) -> Seq<char> {
    seq!['r', 'e', 't', '='] + decimal::signed_decimal(code)
}

proof fn lemma_bare_code(code: int)
    ensures
        protocol::ret_text(code) == bare_code(code),
{
    reveal_strlit("ret=");
    assert("ret="@ =~= seq!['r', 'e', 't', '=']);
}

pub open spec fn is_small(code: Option<i64>) -> bool {
    code is Some ==> i32::MIN <= code->0 <= i32::MAX
}

/// A request has failed if HTTP says so, or `errcode` or `ret` is there and not 0. The error tells the
/// status and the code, which is `errcode` unless that is 0 or not there; of a failed HTTP request it
/// is `errcode` or 0. It tells the words of the reply: `errmsg`, else `message`, else the code, or,
/// where that is 0, the whole reply unless it is empty.
pub proof fn law_failed_replies_are_errors(
    status: u16,
    before: Seq<char>,
    words: Seq<char>,
    after: Seq<char>,
    errcode: Option<i64>,
    ret: Option<i64>,
    errmsg: Option<Seq<char>>,
    message: Option<Seq<char>>,
)
    requires
        is_small(errcode),
        is_small(ret),
        text_laws::is_blank(before),
        text_laws::is_bare(words),
        text_laws::is_blank(after),
    ensures
        ({
            let raw_body = before + words + after;
            let outcome = protocol::reply_outcome(
                status,
                raw_body,
                (errcode, ret, errmsg, message),
            );
            let code: int = if status >= 400 {
                if errcode is Some {
                    errcode->0 as int
                } else {
                    0
                }
            } else if errcode is Some && errcode->0 != 0 {
                errcode->0 as int
            } else if ret is Some {
                ret->0 as int
            } else {
                0
            };
            let failed = status >= 400 || code != 0;
            &&& outcome is Some <==> failed
            &&& failed && errmsg is Some ==> says(outcome->0, errmsg->0, status, code)
            &&& failed && errmsg is None && message is Some ==> says(
                outcome->0,
                message->0,
                status,
                code,
            )
            &&& failed && errmsg is None && message is None ==> {
                if code != 0 || words.len() == 0 || words == seq!['{', '}'] {
                    says(outcome->0, bare_code(code), status, code)
                } else {
                    says(outcome->0, raw_body, status, code)
                }
            }
        }),
{
    text_laws::law_trim_takes_off_white_space(before, words, after);
    reveal_strlit("{}");
    assert("{}"@ =~= seq!['{', '}']);
    let code = protocol::failure_code(status, (errcode, ret, errmsg, message));
    if let Some(code) = code {
        lemma_bare_code(code as int);
    }
}

/// A poll has failed if `ret` is not 0 or `errcode` is there and not 0. The error tells `errcode`, or
/// `ret` where that is not there, and the words of the reply, or `ret` where it has none.
pub proof fn law_failed_polls_are_errors(response: GetUpdatesResponse)
    ensures
        ({
            let outcome = protocol::updates_outcome(response);
            let failed = response.ret != 0 || (response.errcode is Some && response.errcode->0 != 0);
            let code: int = if response.errcode is Some {
                response.errcode->0 as int
            } else {
                response.ret as int
            };
            &&& outcome is Some <==> failed
            &&& failed && response.errmsg is Some ==> says(
                outcome->0,
                response.errmsg->0@,
                200,
                code,
            )
            &&& failed && response.errmsg is None ==> says(
                outcome->0,
                bare_code(response.ret as int),
                200,
                code,
            )
        }),
{
    lemma_bare_code(response.ret as int);
}

/// The fields of a reply are read by their names.
pub proof fn law_replies_are_read_by_name(raw_body: Seq<char>)
    ensures
        ({
            let fields = protocol::reply_fields(raw_body);
            &&& fields.0 == outside::field_of(raw_body, "errcode"@).0
            &&& fields.1 == outside::field_of(raw_body, "ret"@).0
            &&& fields.2 == outside::field_of(raw_body, "errmsg"@).1
            &&& fields.3 == outside::field_of(raw_body, "message"@).1
        }),
{
}

proof fn lemma_no_dot(n: nat)
    ensures
        !decimal::decimal(n).contains('.'),
{
    text_laws::law_decimal(n);
    if decimal::decimal(n).contains('.') {
        let i = choose|i: int| 0 <= i < decimal::decimal(n).len() && decimal::decimal(n)[i] == '.';
        assert('0' <= decimal::decimal(n)[i] <= '9');
    }
}

/// The lowest byte of the number at `i`, where there is one.
pub open spec fn low_byte_of(ns: Seq<u32>, i: int) -> int {
    if i < ns.len() {
        ns[i] as int % 256
    } else {
        0
    }
}

pub open spec fn in_decimal(ns: Seq<u32>) -> Seq<Seq<char>> {
    Seq::new(ns.len(), |i: int| decimal::decimal(ns[i] as nat))
}

proof fn lemma_numbers_add(a: Seq<Seq<char>>, b: Seq<Seq<char>>)
    ensures
        protocol::numbers(a + b) == protocol::numbers(a) + protocol::numbers(b),
    decreases b.len(),
{
    if b.len() == 0 {
        assert(a + b =~= a);
        assert(protocol::numbers(a) + protocol::numbers(b) =~= protocol::numbers(a));
    } else {
        lemma_numbers_add(a, b.drop_last());
        assert((a + b).drop_last() =~= a + b.drop_last());
        assert(protocol::numbers(a + b) =~= protocol::numbers(a) + protocol::numbers(b));
    }
}

proof fn lemma_numbers(ns: Seq<u32>)
    ensures
        protocol::numbers(in_decimal(ns)) == ns,
    decreases ns.len(),
{
    if ns.len() > 0 {
        lemma_numbers(ns.drop_last());
        text_laws::law_decimal_is_read_back(ns.last(), Seq::empty());
        assert(in_decimal(ns).drop_last() =~= in_decimal(ns.drop_last()));
        assert(ns.drop_last().push(ns.last()) =~= ns);
    }
}

/// Of a version the first three numbers count, however many it has; one that is not there counts as 0,
/// and a part that is no number does not count at all.
pub proof fn law_versions_have_three_numbers(ns: Seq<u32>, ms: Seq<u32>, other: Seq<char>)
    requires
        ns.len() + ms.len() > 0,
        !other.contains('.'),
        other.len() == 0 || !('0' <= other[0] <= '9' || other[0] == '+') || exists|i: int|
            0 < i < other.len() && !('0' <= #[trigger] other[i] <= '9'),
    ensures
        ({
            let all = ns + ms;
            let parts = in_decimal(ns).push(other) + in_decimal(ms);
            let packed = low_byte_of(all, 0) * 65536 + low_byte_of(all, 1) * 256 + low_byte_of(
                all,
                2,
            );
            &&& protocol::client_version(text_laws::laid_out(in_decimal(all), seq!['.'])) == packed
            &&& protocol::client_version(text_laws::laid_out(parts, seq!['.'])) == packed
        }),
{
    let all = ns + ms;
    let parts = in_decimal(ns).push(other) + in_decimal(ms);
    assert forall|i: int| 0 <= i < in_decimal(all).len() implies !(
    #[trigger] in_decimal(all)[i]).contains('.') by {
        lemma_no_dot(all[i] as nat);
    }
    assert forall|i: int| 0 <= i < parts.len() implies !(#[trigger] parts[i]).contains('.') by {
        if i < ns.len() {
            lemma_no_dot(ns[i] as nat);
        } else if i > ns.len() {
            lemma_no_dot(ms[i - ns.len() - 1] as nat);
        }
    }
    text_laws::law_split_undoes_joining(in_decimal(all), '.');
    text_laws::law_split_undoes_joining(parts, '.');
    lemma_numbers(all);
    lemma_numbers(ns);
    lemma_numbers(ms);
    lemma_numbers_add(in_decimal(ns).push(other), in_decimal(ms));
    text_laws::law_decimal_is_read_back(0, other);
    assert(in_decimal(ns).push(other).drop_last() =~= in_decimal(ns));
    if other.len() > 0 && !('0' <= other[0] <= '9' || other[0] == '+') {
        assert(!decimal::is_digit(other[0]));
    }
    assert(decimal::parse_u32(other) is None);
}

/// A version of three numbers is one number with a byte for each, the first one highest.
pub proof fn law_versions_are_packed(a: u32, b: u32, c: u32)
    ensures
        protocol::client_version(
            decimal::decimal(a as nat) + seq!['.'] + (decimal::decimal(b as nat) + seq!['.']
                + decimal::decimal(c as nat)),
        ) == (a % 256) * 65536 + (b % 256) * 256 + c % 256,
{
    let parts = seq![
        decimal::decimal(a as nat),
        decimal::decimal(b as nat),
        decimal::decimal(c as nat),
    ];
    lemma_no_dot(a as nat);
    lemma_no_dot(b as nat);
    lemma_no_dot(c as nat);
    text_laws::law_split_undoes_joining(parts, '.');
    reveal_with_fuel(text_laws::laid_out, 4);
    assert(parts.drop_first() =~= seq![parts[1], parts[2]]);
    assert(parts.drop_first().drop_first() =~= seq![parts[2]]);
    let version = decimal::decimal(a as nat) + seq!['.'] + (decimal::decimal(b as nat) + seq!['.']
        + decimal::decimal(c as nat));
    assert(text_laws::laid_out(parts, seq!['.']) =~= version);
    text_laws::law_decimal_is_read_back(a, Seq::empty());
    text_laws::law_decimal_is_read_back(b, Seq::empty());
    text_laws::law_decimal_is_read_back(c, Seq::empty());
    reveal_with_fuel(protocol::numbers, 4);
    assert(parts.drop_last() =~= seq![parts[0], parts[1]]);
    assert(parts.drop_last().drop_last() =~= seq![parts[0]]);
    assert(parts.drop_last().drop_last().drop_last() =~= Seq::<Seq<char>>::empty());
    assert(protocol::numbers(parts) =~= seq![a, b, c]);
}

/// The value of a random header is a number of 32 bits, the first byte highest, in decimal and then in
/// base64.
pub proof fn law_uin_is_a_number(bytes: Seq<u8>)
    requires
        bytes.len() == 4,
    ensures
        protocol::uin(bytes) == outside::base64_encoding(
            utf8::encode_utf8(
                decimal::decimal(
                    (((bytes[0] * 256 + bytes[1]) * 256 + bytes[2]) * 256 + bytes[3]) as nat,
                ),
            ),
        ),
{
}

/// What a digit of a number to the base 16 stands for.
pub open spec fn hex_value(c: char) -> int {
    if '0' <= c <= '9' {
        c as int - '0' as int
    } else if 'a' <= c <= 'f' {
        c as int - 'a' as int + 10
    } else if 'A' <= c <= 'F' {
        c as int - 'A' as int + 10
    } else {
        -1
    }
}

/// Each byte is written as two small digits to the base 16, the higher one first.
pub proof fn law_hexadecimal(bytes: Seq<u8>, i: int)
    requires
        0 <= i < bytes.len(),
    ensures
        outside::hex_encoding(bytes).len() == 2 * bytes.len(),
        ({
            let high = outside::hex_encoding(bytes)[2 * i];
            let low = outside::hex_encoding(bytes)[2 * i + 1];
            &&& 0 <= hex_value(high) <= 15 && !('A' <= high <= 'F')
            &&& 0 <= hex_value(low) <= 15 && !('A' <= low <= 'F')
            &&& hex_value(high) * 16 + hex_value(low) == bytes[i]
        }),
    decreases bytes.len(),
{
    lemma_hex_len(bytes);
    let rest = outside::hex_encoding(bytes.drop_first());
    if i > 0 {
        law_hexadecimal(bytes.drop_first(), i - 1);
        assert(outside::hex_encoding(bytes)[2 * i] == rest[2 * (i - 1)]);
        assert(outside::hex_encoding(bytes)[2 * i + 1] == rest[2 * (i - 1) + 1]);
    }
}

proof fn lemma_hex_len(bytes: Seq<u8>)
    ensures
        outside::hex_encoding(bytes).len() == 2 * bytes.len(),
    decreases bytes.len(),
{
    if bytes.len() > 0 {
        lemma_hex_len(bytes.drop_first());
    }
}

/// The bytes that a part of an address stands for.
pub open spec fn percent_decoded(s: Seq<char>) -> Seq<u8>
    decreases s.len(),
{
    if s.len() == 0 {
        Seq::empty()
    } else if s[0] == '%' && s.len() >= 3 {
        seq![(hex_value(s[1]) * 16 + hex_value(s[2])) as u8] + percent_decoded(s.skip(3))
    } else {
        seq![s[0] as u8] + percent_decoded(s.drop_first())
    }
}

/// A part of an address holds only letters, digits, `-`, `.`, `_`, `~` and percent signs, and stands
/// for the bytes of the text.
pub proof fn law_addresses_are_encoded(bytes: Seq<u8>)
    ensures
        percent_decoded(outside::percent_encoded(bytes)) == bytes,
        forall|i: int|
            0 <= i < outside::percent_encoded(bytes).len() ==> {
                let c = #[trigger] outside::percent_encoded(bytes)[i];
                ('a' <= c <= 'z') || ('A' <= c <= 'Z') || ('0' <= c <= '9') || c == '-' || c == '.'
                    || c == '_' || c == '~' || c == '%'
            },
    decreases bytes.len(),
{
    let s = outside::percent_encoded(bytes);
    if bytes.len() > 0 {
        let b = bytes[0];
        let rest = outside::percent_encoded(bytes.drop_first());
        law_addresses_are_encoded(bytes.drop_first());
        let first = outside::percent_byte(b);
        assert forall|i: int| 0 <= i < s.len() implies {
            let c = #[trigger] s[i];
            ('a' <= c <= 'z') || ('A' <= c <= 'Z') || ('0' <= c <= '9') || c == '-' || c == '.' || c
                == '_' || c == '~' || c == '%'
        } by {
            if i >= first.len() {
                assert(s[i] == rest[i - first.len()]);
            }
        }
        if outside::is_unreserved(b) {
            assert(s.drop_first() =~= rest);
            assert(s[0] != '%');
        } else {
            assert(s.skip(3) =~= rest);
            assert(hex_value(s[1]) == b as int / 16);
            assert(hex_value(s[2]) == b as int % 16);
        }
        assert(seq![b] + bytes.drop_first() =~= bytes);
    } else {
        assert(bytes =~= Seq::<u8>::empty());
    }
}

/// A letter or digit, or one of `-`, `.`, `_` and `~`.
pub open spec fn stands_for_itself(b: u8) -> bool {
    ||| 'a' as u8 <= b <= 'z' as u8
    ||| 'A' as u8 <= b <= 'Z' as u8
    ||| '0' as u8 <= b <= '9' as u8
    ||| b == '-' as u8
    ||| b == '.' as u8
    ||| b == '_' as u8
    ||| b == '~' as u8
}

/// What needs no percent sign has none, and what has one is written in capital digits. Text is encoded
/// by its bytes.
pub proof fn law_plain_parts_of_addresses(b: u8, s: Seq<char>)
    ensures
        stands_for_itself(b) ==> outside::percent_encoded(seq![b]) == seq![b as char],
        !stands_for_itself(b) ==> outside::percent_encoded(seq![b]).len() == 3,
        !stands_for_itself(b) ==> !('a' <= outside::percent_encoded(seq![b])[1] <= 'f') && !('a'
            <= outside::percent_encoded(seq![b])[2] <= 'f'),
        outside::url_encoding(s) == outside::percent_encoded(utf8::encode_utf8(s)),
{
    reveal_with_fuel(outside::percent_encoded, 2);
    assert(seq![b].drop_first() =~= Seq::<u8>::empty());
    let e = Seq::<char>::empty();
    assert(outside::percent_byte(b) + e =~= outside::percent_byte(b));
}

/// What a character of base64 stands for.
pub open spec fn base64_value(c: char) -> int {
    if 'A' <= c <= 'Z' {
        c as int - 'A' as int
    } else if 'a' <= c <= 'z' {
        c as int - 'a' as int + 26
    } else if '0' <= c <= '9' {
        c as int - '0' as int + 52
    } else if c == '+' {
        62
    } else if c == '/' {
        63
    } else {
        -1
    }
}

proof fn lemma_base64_digit(n: int)
    requires
        0 <= n < 64,
    ensures
        base64_value(outside::base64_digit(n)) == n,
        outside::base64_digit(n) != '=',
{
}

proof fn lemma_sextets(n: int)
    requires
        0 <= n < 16777216,
    ensures
        0 <= n / 262144 < 64,
        0 <= n / 4096 % 64 < 64,
        0 <= n / 64 % 64 < 64,
        0 <= n % 64 < 64,
        (n / 262144) * 64 + n / 4096 % 64 == n / 4096,
        (n / 4096) * 64 + n / 64 % 64 == n / 64,
        (n / 64) * 64 + n % 64 == n,
{
    assert(n / 262144 == (n / 4096) / 64);
    assert(n / 4096 == (n / 64) / 64);
}

/// Three bytes are four characters of base64, and what is left at the end is padded.
pub proof fn law_base64(bytes: Seq<u8>)
    requires
        bytes.len() > 0,
    ensures
        ({
            let s = outside::base64_encoding(bytes);
            &&& s.len() >= 4
            &&& bytes.len() >= 3 ==> ((base64_value(s[0]) * 64 + base64_value(s[1])) * 64
                + base64_value(s[2])) * 64 + base64_value(s[3]) == bytes[0] * 65536 + bytes[1] * 256
                + bytes[2]
            &&& bytes.len() >= 3 ==> s.skip(4) == outside::base64_encoding(bytes.skip(3))
            &&& bytes.len() == 2 ==> s.len() == 4 && (base64_value(s[0]) * 64 + base64_value(s[1]))
                * 64 + base64_value(s[2]) == (bytes[0] * 256 + bytes[1]) * 4 && s[3] == '='
            &&& bytes.len() == 1 ==> s.len() == 4 && base64_value(s[0]) * 64 + base64_value(s[1])
                == bytes[0] * 16 && s[2] == '=' && s[3] == '='
        }),
{
    let s = outside::base64_encoding(bytes);
    let b0 = bytes[0] as int;
    let b1: int = if 1 < bytes.len() {
        bytes[1] as int
    } else {
        0
    };
    let b2: int = if 2 < bytes.len() {
        bytes[2] as int
    } else {
        0
    };
    let n = b0 * 65536 + b1 * 256 + b2;
    lemma_sextets(n);
    lemma_base64_digit(n / 262144);
    lemma_base64_digit(n / 4096 % 64);
    lemma_base64_digit(n / 64 % 64);
    lemma_base64_digit(n % 64);
    let third = if bytes.len() > 1 {
        outside::base64_digit(n / 64 % 64)
    } else {
        '='
    };
    let fourth = if bytes.len() > 2 {
        outside::base64_digit(n % 64)
    } else {
        '='
    };
    let head = seq![
        outside::base64_digit(n / 262144),
        outside::base64_digit(n / 4096 % 64),
        third,
        fourth,
    ];
    let rest = if bytes.len() > 3 {
        outside::base64_encoding(bytes.skip(3))
    } else {
        Seq::empty()
    };
    assert(s == head + rest);
    assert(s.skip(4) =~= rest);
    if bytes.len() == 3 {
        assert(bytes.skip(3) =~= Seq::<u8>::empty());
    }
}

/// A file is put on the CDN under the address of the CDN, the parameter of the service and the name of
/// the file, both encoded.
pub proof fn law_upload_addresses(base: Seq<char>, param: Seq<char>, filekey: Seq<char>)
    ensures
        protocol::cdn_upload_url(base, param, filekey) == base
            + "/upload?encrypted_query_param="@ + outside::url_encoding(param) + "&filekey="@
            + outside::url_encoding(filekey),
{
}

/// The status of a QR code is asked for under its own address, with the code encoded, and with the
/// verification code where one was typed.
pub proof fn law_status_addresses(qrcode: Seq<char>, code: Seq<char>)
    ensures
        ({
            let bare = "/ilink/bot/get_qrcode_status?qrcode="@ + outside::url_encoding(qrcode);
            &&& protocol::qr_status_endpoint(qrcode, None) == bare
            &&& protocol::qr_status_endpoint(qrcode, Some(Seq::empty())) == bare
            &&& code.len() > 0 ==> protocol::qr_status_endpoint(qrcode, Some(code)) == bare
                + "&verify_code="@ + outside::url_encoding(code)
        }),
{
}

} // verus!
