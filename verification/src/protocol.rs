//! Requests to the iLink service, and what its replies say.

use crate::decimal;
use crate::error::{self, Result};
use crate::outside;
use crate::text;
use crate::types;
use vstd::prelude::*;
use vstd::utf8;

pub use crate::client::{GetUploadUrlParams, ILinkClient};
pub use crate::messages::{
    build_media_message, build_media_message_with_client_id, build_text_message,
    build_text_message_with_client_id,
};
pub use crate::responses::{
    GetConfigResponse, GetUpdatesResponse, GetUploadUrlResponse, NotifyStartResponse,
    NotifyStopResponse, QrCodeResponse, QrStatusResponse,
};

verus! {

pub const DEFAULT_BASE_URL: &'static str = "https://ilinkai.weixin.qq.com";

pub const CDN_BASE_URL: &'static str = "https://novac2c.cdn.weixin.qq.com/c2c";

/// The version of this library.
pub const CHANNEL_VERSION: &'static str = "0.4.0";

pub const DEFAULT_ILINK_APP_ID: &'static str = "bot";

/// What every request says about the client.
#[derive(Debug, Clone, PartialEq, Eq)]
pub struct BaseInfo {
    pub channel_version: String,
    pub bot_agent: Option<String>,
}

/// What can be chosen about requests.
#[derive(Debug, Clone)]
pub struct ILinkClientOptions {
    pub bot_agent: Option<String>,
    pub route_tag: Option<String>,
    pub ilink_app_id: Option<String>,
    pub markdown_filter: bool,
}

impl Default for ILinkClientOptions {
    fn default() -> (options: Self)
        ensures
            options.bot_agent is None,
            options.route_tag is None,
            options.ilink_app_id is None,
            options.markdown_filter,
    {
        ILinkClientOptions {
            bot_agent: None,
            route_tag: None,
            ilink_app_id: None,
            markdown_filter: true,
        }
    }
}

/// The numbers among `parts`, in order.
pub open spec fn numbers(parts: Seq<Seq<char>>) -> Seq<u32>
    decreases parts.len(),
{
    if parts.len() == 0 {
        Seq::empty()
    } else {
        let init = numbers(parts.drop_last());
        match decimal::parse_u32(parts.last()) {
            Some(n) => init.push(n),
            None => init,
        }
    }
}

/// The lowest byte of the number `i`, or 0 where there is none.
pub open spec fn byte_at(numbers: Seq<u32>, i: int) -> int {
    if i < numbers.len() {
        numbers[i] as int % 256
    } else {
        0
    }
}

/// A version such as `1.2.3` as one number: a byte for each of its first three numbers.
pub open spec fn client_version(version: Seq<char>) -> int {
    let parts = numbers(text::split(version, '.'));
    byte_at(parts, 0) * 65536 + byte_at(parts, 1) * 256 + byte_at(parts, 2)
}

fn low_byte(numbers: &Vec<u32>, i: usize) -> (n: u32)
    ensures
        n == byte_at(numbers@, i as int),
        n < 256,
{
    if i < numbers.len() {
        numbers[i] % 256
    } else {
        0
    }
}

/// `version` as one decimal number.
pub fn build_client_version(version: &str) -> (s: String)
    ensures
        s@ == decimal::decimal(client_version(version@) as nat),
{
    let parts = text::split_on(&text::chars_of(version), '.');
    let ghost seen = text::views(parts@);
    let mut found: Vec<u32> = Vec::new();
    let mut i: usize = 0;
    assert(found@ =~= numbers(seen.take(0)));
    while i < parts.len()
        invariant
            i <= parts.len(),
            seen == text::views(parts@),
            found@ == numbers(seen.take(i as int)),
        decreases parts.len() - i,
    {
        assert(seen.take(i + 1).drop_last() =~= seen.take(i as int));
        assert(seen[i as int] == parts@[i as int]@);
        if let Some(n) = decimal::parse_u32_of(&parts[i]) {
            found.push(n);
        }
        i += 1;
    }
    assert(seen.take(seen.len() as int) =~= seen);
    let number: u32 = low_byte(&found, 0) * 65536 + low_byte(&found, 1) * 256 + low_byte(&found, 2);
    decimal::decimal_of(number as u128)
}

/// The value of the header `X-WECHAT-UIN` that four bytes make up.
pub open spec fn uin(bytes: Seq<u8>) -> Seq<char> {
    let n = bytes[0] * 16777216 + bytes[1] * 65536 + bytes[2] * 256 + bytes[3];
    outside::base64_encoding(utf8::encode_utf8(decimal::decimal(n as nat)))
}

/// The value of the header `X-WECHAT-UIN` that four bytes make up.
pub fn wechat_uin(bytes: &Vec<u8>) -> (s: String)
    requires
        bytes@.len() == 4,
    ensures
        s@ == uin(bytes@),
{
    let n: u32 = bytes[0] as u32 * 16777216 + bytes[1] as u32 * 65536 + bytes[2] as u32 * 256
        + bytes[3] as u32;
    let digits = decimal::decimal_of(n as u128);
    proof {
        assert(vstd::arithmetic::power::pow(10, 10) == 10_000_000_000) by {
            reveal_with_fuel(vstd::arithmetic::power::pow, 11);
        }
        decimal::lemma_decimal_len(n as nat, 10);
        text::lemma_byte_len_bounds(digits@);
    }
    outside::base64_encoded(digits.as_str())
}

/// A random value for the header `X-WECHAT-UIN`.
pub fn random_wechat_uin() -> (s: String)
    ensures
        exists|bytes: Seq<u8>| bytes.len() == 4 && s@ == #[trigger] uin(bytes),
{
    let bytes = outside::random_bytes(4);
    wechat_uin(&bytes)
}

/// `ret=` and the code.
pub open spec fn ret_text(code: int) -> Seq<char> {
    "ret="@ + decimal::signed_decimal(code)
}

fn ret_text_of(code: i32) -> (s: String)
    ensures
        s@ == ret_text(code as int),
{
    "ret=".to_owned().concat(decimal::signed_decimal_of(code as i64).as_str())
}

/// What the service says in a reply about how a request went.
#[derive(Debug)]
pub struct ApiReply {
    pub errcode: Option<i64>,
    pub ret: Option<i64>,
    pub errmsg: Option<String>,
    pub message: Option<String>,
}

impl View for ApiReply {
    type V = (Option<i64>, Option<i64>, Option<Seq<char>>, Option<Seq<char>>);

    open spec fn view(&self) -> (Option<i64>, Option<i64>, Option<Seq<char>>, Option<Seq<char>>) {
        (
            self.errcode,
            self.ret,
            types::option_view(self.errmsg),
            types::option_view(self.message),
        )
    }
}

/// What a reply says went wrong: its own words, or the code, or the whole reply where it gives
/// neither.
pub open spec fn reply_message(
    fields: (Option<i64>, Option<i64>, Option<Seq<char>>, Option<Seq<char>>),
    raw_body: Seq<char>,
    code: i32,
) -> Seq<char> {
    match (fields.2, fields.3) {
        (Some(errmsg), _) => errmsg,
        (None, Some(message)) => message,
        (None, None) => {
            let body = text::trim(raw_body);
            if code != 0 || body.len() == 0 || body == "{}"@ {
                ret_text(code as int)
            } else {
                raw_body
            }
        },
    }
}

/// What a reply says went wrong.
pub fn api_error_message(reply: &ApiReply, raw_body: &str, code: i32) -> (s: String)
    ensures
        s@ == reply_message(reply@, raw_body@, code),
{
    if let Some(errmsg) = &reply.errmsg {
        return errmsg.clone();
    }
    if let Some(message) = &reply.message {
        return message.clone();
    }
    if code != 0 {
        return ret_text_of(code);
    }
    let body = text::string_of(&text::trimmed(&text::chars_of(raw_body)));
    if body.as_str().is_empty() || text::is(&body, "{}") {
        ret_text_of(code)
    } else {
        raw_body.to_owned()
    }
}

/// The code of a reply with which a request has failed, where it has: that of a failed HTTP
/// request, else the first of `errcode` and `ret` that is there and not 0.
pub open spec fn failure_code(
    status: u16,
    fields: (Option<i64>, Option<i64>, Option<Seq<char>>, Option<Seq<char>>),
) -> Option<i32> {
    if status >= 400 {
        match fields.0 {
            Some(code) => Some(code as i32),
            None => Some(0),
        }
    } else {
        match (fields.0, fields.1) {
            (Some(code), _) if code != 0 => Some(code as i32),
            (_, Some(code)) if code != 0 => Some(code as i32),
            _ => None,
        }
    }
}

/// How a request went that was answered with `status` and these fields.
pub open spec fn reply_outcome(
    status: u16,
    raw_body: Seq<char>,
    fields: (Option<i64>, Option<i64>, Option<Seq<char>>, Option<Seq<char>>),
) -> Option<error::ErrorView> {
    match failure_code(status, fields) {
        Some(code) => Some(
            error::api_error_view(reply_message(fields, raw_body, code), status, code),
        ),
        None => None,
    }
}

/// Whether a request went well that was answered with `status`, `raw_body` and what that says.
pub fn check_reply_fields(status: u16, raw_body: &str, reply: &ApiReply) -> (r: Result<()>)
    ensures
        match r {
            Ok(()) => reply_outcome(status, raw_body@, reply@) is None,
            Err(err) => reply_outcome(status, raw_body@, reply@) == Some(err@),
        },
{
    let code: i32 = if status >= 400 {
        match reply.errcode {
            Some(code) => code as i32,
            None => 0,
        }
    } else {
        match (reply.errcode, reply.ret) {
            (Some(code), _) if code != 0 => code as i32,
            (_, Some(code)) if code != 0 => code as i32,
            _ => {
                return Ok(());
            },
        }
    };
    Err(error::api_error(api_error_message(reply, raw_body, code), status, code))
}

/// What a reply says: the integers `errcode` and `ret` and the strings `errmsg` and `message`.
pub open spec fn reply_fields(raw_body: Seq<char>) -> (
    Option<i64>,
    Option<i64>,
    Option<Seq<char>>,
    Option<Seq<char>>,
) {
    (
        outside::field_of(raw_body, "errcode"@).0,
        outside::field_of(raw_body, "ret"@).0,
        outside::field_of(raw_body, "errmsg"@).1,
        outside::field_of(raw_body, "message"@).1,
    )
}

/// Whether a request went well that was answered with `status` and `raw_body`.
pub fn check_reply(status: u16, raw_body: &str) -> (r: Result<()>)
    ensures
        match r {
            Ok(()) => reply_outcome(status, raw_body@, reply_fields(raw_body@)) is None,
            Err(err) => reply_outcome(status, raw_body@, reply_fields(raw_body@)) == Some(err@),
        },
{
    let (errcode, ret, errmsg, message) = outside::parse_fields(
        raw_body,
        ("errcode", "ret"),
        ("errmsg", "message"),
    );
    check_reply_fields(status, raw_body, &ApiReply { errcode, ret, errmsg, message })
}

/// A reply that carries a code other than 0 is an error with that code, although the HTTP request
/// went well, and the one that asks to slow down is told apart from all others. A reply without
/// such a code is none.
pub proof fn law_codes_are_errors(
    status: u16,
    raw_body: Seq<char>,
    errcode: Option<i64>,
    ret: Option<i64>,
    errmsg: Option<Seq<char>>,
    message: Option<Seq<char>>,
)
    requires
        status < 400,
        errcode matches Some(code) ==> i32::MIN <= code <= i32::MAX,
        ret matches Some(code) ==> i32::MIN <= code <= i32::MAX,
    ensures
        ({
            let outcome = reply_outcome(status, raw_body, (errcode, ret, errmsg, message));
            let code = if errcode is Some && errcode->0 != 0 {
                errcode->0
            } else if ret is Some {
                ret->0
            } else {
                0
            };
            &&& outcome is None <==> code == 0
            &&& code == error::RATE_LIMIT_ERRCODE ==> {
                &&& outcome matches Some(error::ErrorView::RateLimited { errcode, .. }) && errcode
                    == code
            }
            &&& code != 0 && code != error::RATE_LIMIT_ERRCODE ==> {
                &&& outcome matches Some(error::ErrorView::Api { errcode, .. }) && errcode == code
            }
        }),
{
}

/// How a poll for messages went.
pub open spec fn updates_outcome(response: GetUpdatesResponse) -> Option<error::ErrorView> {
    let failed = response.ret != 0 || match response.errcode {
        Some(code) => code != 0,
        None => false,
    };
    if failed {
        let code = match response.errcode {
            Some(code) => code,
            None => response.ret,
        };
        let message = match response.errmsg {
            Some(message) => message@,
            None => ret_text(response.ret as int),
        };
        Some(error::api_error_view(message, 200, code))
    } else {
        None
    }
}

/// Whether a poll for messages went well.
pub fn check_updates(response: &GetUpdatesResponse) -> (r: Result<()>)
    ensures
        match r {
            Ok(()) => updates_outcome(*response) is None,
            Err(err) => updates_outcome(*response) == Some(err@),
        },
{
    let bad_errcode = match response.errcode {
        Some(code) => code != 0,
        None => false,
    };
    if response.ret != 0 || bad_errcode {
        let code = match response.errcode {
            Some(code) => code,
            None => response.ret,
        };
        let message = match &response.errmsg {
            Some(message) => message.clone(),
            None => ret_text_of(response.ret),
        };
        return Err(error::api_error(message, 200, code));
    }
    Ok(())
}

/// Where the status of a QR code is asked for, with a verification code where one was typed.
pub open spec fn qr_status_endpoint(qrcode: Seq<char>, verify_code: Option<Seq<char>>) -> Seq<
    char,
> {
    let endpoint = "/ilink/bot/get_qrcode_status?qrcode="@ + outside::url_encoding(qrcode);
    match verify_code {
        Some(code) if code.len() > 0 => endpoint + "&verify_code="@ + outside::url_encoding(code),
        _ => endpoint,
    }
}

/// The text of `s`, where there is one.
pub open spec fn str_view(s: Option<&str>) -> Option<Seq<char>> {
    match s {
        Some(s) => Some(s@),
        None => None,
    }
}

/// Where the status of a QR code is asked for.
pub fn build_qr_status_endpoint(qrcode: &str, verify_code: Option<&str>) -> (s: String)
    ensures
        s@ == qr_status_endpoint(qrcode@, str_view(verify_code)),
{
    let endpoint = "/ilink/bot/get_qrcode_status?qrcode=".to_owned().concat(
        outside::url_encoded(qrcode).as_str(),
    );
    if let Some(code) = verify_code {
        if !code.is_empty() {
            return endpoint.concat("&verify_code=").concat(outside::url_encoded(code).as_str());
        }
    }
    endpoint
}

/// Where a file is put on the CDN.
pub open spec fn cdn_upload_url(
    cdn_base_url: Seq<char>,
    upload_param: Seq<char>,
    filekey: Seq<char>,
) -> Seq<char> {
    cdn_base_url + "/upload?encrypted_query_param="@ + outside::url_encoding(upload_param)
        + "&filekey="@ + outside::url_encoding(filekey)
}

/// Where a file is put on the CDN.
pub fn build_cdn_upload_url(cdn_base_url: &str, upload_param: &str, filekey: &str) -> (s: String)
    ensures
        s@ == cdn_upload_url(cdn_base_url@, upload_param@, filekey@),
{
    cdn_base_url.to_owned().concat("/upload?encrypted_query_param=").concat(
        outside::url_encoded(upload_param).as_str(),
    ).concat("&filekey=").concat(outside::url_encoded(filekey).as_str())
}

} // verus!
