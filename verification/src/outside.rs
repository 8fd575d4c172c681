//! Calls into other crates, with what is relied on of each.

use base64::Engine;
use md5::{Digest, Md5};
use rand::Rng;
use vstd::prelude::*;
use vstd::utf8;

verus! {

/// The digit of `n` in hexadecimal, with upper-case letters.
pub open spec fn upper_hex_digit(n: int) -> char {
    if n < 10 {
        (48 + n) as char
    } else {
        (55 + n) as char
    }
}

/// The digit of `n` in hexadecimal, with lower-case letters.
pub open spec fn lower_hex_digit(n: int) -> char {
    if n < 10 {
        (48 + n) as char
    } else {
        (87 + n) as char
    }
}

/// Whether a byte stands for itself in a URL: ASCII letters, digits and `-`, `.`, `_`, `~`.
pub open spec fn is_unreserved(b: u8) -> bool {
    ||| 48 <= b <= 57
    ||| 65 <= b <= 90
    ||| 97 <= b <= 122
    ||| b == 45
    ||| b == 46
    ||| b == 95
    ||| b == 126
}

/// One byte as it stands in a URL.
pub open spec fn percent_byte(b: u8) -> Seq<char> {
    if is_unreserved(b) {
        seq![b as char]
    } else {
        seq!['%', upper_hex_digit(b as int / 16), upper_hex_digit(b as int % 16)]
    }
}

/// Bytes as they stand in a URL.
pub open spec fn percent_encoded(bytes: Seq<u8>) -> Seq<char>
    decreases bytes.len(),
{
    if bytes.len() == 0 {
        Seq::empty()
    } else {
        percent_byte(bytes[0]) + percent_encoded(bytes.drop_first())
    }
}

/// Text as it stands in a URL.
pub open spec fn url_encoding(s: Seq<char>) -> Seq<char> {
    percent_encoded(utf8::encode_utf8(s))
}

/// `urlencoding::encode`: every byte of the UTF-8 form but ASCII letters, digits and `-`, `.`,
/// `_`, `~` becomes a percent sign and two upper-case hexadecimal digits.
#[verifier::external_body]
pub(crate) fn url_encoded(s: &str) -> (r: String)
    ensures
        r@ == url_encoding(s@),
{
    urlencoding::encode(s).into_owned()
}

/// Bytes as two lower-case hexadecimal digits each.
pub open spec fn hex_encoding(bytes: Seq<u8>) -> Seq<char>
    decreases bytes.len(),
{
    if bytes.len() == 0 {
        Seq::empty()
    } else {
        seq![lower_hex_digit(bytes[0] as int / 16), lower_hex_digit(bytes[0] as int % 16)]
            + hex_encoding(bytes.drop_first())
    }
}

/// `hex::encode`: each byte becomes two lower-case hexadecimal digits, the higher one first.
#[verifier::external_body]
pub(crate) fn hex_encoded(bytes: &Vec<u8>) -> (r: String)
    ensures
        r@ == hex_encoding(bytes@),
{
    hex::encode(bytes)
}

/// The character of `n` in the base64 alphabet.
pub open spec fn base64_digit(n: int) -> char {
    if n < 26 {
        (65 + n) as char
    } else if n < 52 {
        (71 + n) as char
    } else if n < 62 {
        (n - 4) as char
    } else if n == 62 {
        '+'
    } else {
        '/'
    }
}

/// Bytes in base64, padded with `=`.
pub open spec fn base64_encoding(bytes: Seq<u8>) -> Seq<char>
    decreases bytes.len(),
{
    if bytes.len() == 0 {
        Seq::empty()
    } else {
        let b = |i: int|
            if i < bytes.len() {
                bytes[i] as int
            } else {
                0
            };
        let n = b(0) * 65536 + b(1) * 256 + b(2);
        let third = if bytes.len() > 1 {
            base64_digit(n / 64 % 64)
        } else {
            '='
        };
        let fourth = if bytes.len() > 2 {
            base64_digit(n % 64)
        } else {
            '='
        };
        seq![base64_digit(n / 262144), base64_digit(n / 4096 % 64), third, fourth]
            + if bytes.len() > 3 {
            base64_encoding(bytes.skip(3))
        } else {
            Seq::empty()
        }
    }
}

/// `base64::Engine::encode` of `base64::engine::general_purpose::STANDARD`: the UTF-8 form of the
/// text in the standard alphabet, padded with `=`.
#[verifier::external_body]
pub(crate) fn base64_encoded(s: &str) -> (r: String)
    requires
        utf8::encode_utf8(s@).len() <= 0x1000_0000,
    ensures
        r@ == base64_encoding(utf8::encode_utf8(s@)),
{
    base64::engine::general_purpose::STANDARD.encode(s)
}

/// The MD5 digest of `data`.
pub uninterp spec fn md5_of(data: Seq<u8>) -> Seq<u8>;

/// `md5::Md5::digest`: the 16 bytes of the MD5 digest.
#[verifier::external_body]
pub(crate) fn md5_digest(data: &Vec<u8>) -> (r: Vec<u8>)
    ensures
        r@ == md5_of(data@),
        r@.len() == 16,
{
    Md5::digest(data).to_vec()
}

/// `rand::Rng::fill_bytes` of `rand::rng()`: `n` bytes that nothing is known of.
#[verifier::external_body]
pub(crate) fn random_bytes(n: usize) -> (r: Vec<u8>)
    requires
        n <= 64,
    ensures
        r@.len() == n,
{
    let mut bytes = vec![0u8; n];
    rand::rng().fill_bytes(&mut bytes);
    bytes
}

pub open spec fn is_lower_hex(c: char) -> bool {
    ('0' <= c <= '9') || ('a' <= c <= 'f')
}

/// The text of a random UUID: hyphens at four places, lower-case hexadecimal digits at the
/// others, and among them the marks of version and variant.
pub open spec fn is_random_uuid(s: Seq<char>) -> bool {
    &&& s.len() == 36
    &&& forall|i: int|
        0 <= i < 36 ==> if i == 8 || i == 13 || i == 18 || i == 23 {
            #[trigger] s[i] == '-'
        } else {
            is_lower_hex(s[i])
        }
    &&& s[14] == '4'
    &&& s[19] == '8' || s[19] == '9' || s[19] == 'a' || s[19] == 'b'
}

/// `uuid::Uuid::new_v4`, as text: a random UUID of version 4 in its hyphenated form.
#[verifier::external_body]
pub(crate) fn new_client_id() -> (r: String)
    ensures
        is_random_uuid(r@),
{
    uuid::Uuid::new_v4().to_string()
}

/// The field `key` of the JSON object that `text` denotes, where it is an integer of 64 bits, and
/// where it is a string.
pub uninterp spec fn field_of(text: Seq<char>, key: Seq<char>) -> (Option<i64>, Option<Seq<char>>);

/// `serde_json::from_str`, and then four fields of the value: two by `serde_json::Value::as_i64`
/// and two by `as_str`. Text that is no JSON object has no fields. What a given text denotes is
/// not said.
#[verifier::external_body]
pub(crate) fn parse_fields(text: &str, integers: (&str, &str), texts: (&str, &str)) -> (r: (
    Option<i64>,
    Option<i64>,
    Option<String>,
    Option<String>,
))
    ensures
        r.0 == field_of(text@, integers.0@).0,
        r.1 == field_of(text@, integers.1@).0,
        crate::types::option_view(r.2) == field_of(text@, texts.0@).1,
        crate::types::option_view(r.3) == field_of(text@, texts.1@).1,
{
    let value: serde_json::Value = serde_json::from_str(text).unwrap_or_default();
    (
        value[integers.0].as_i64(),
        value[integers.1].as_i64(),
        value[texts.0].as_str().map(str::to_string),
        value[texts.1].as_str().map(str::to_string),
    )
}

} // verus!
