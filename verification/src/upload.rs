//! Putting a file on the CDN.

use crate::client::GetUploadUrlParams;
use crate::decimal;
use crate::error::{ErrorView, Result, WechatIlinkError};
use crate::outside;
use crate::types::{CDNMedia, UploadResult};
use vstd::prelude::*;

verus! {

/// How often an upload is tried.
pub const MAX_ATTEMPTS: u32 = 3;

/// What a file is, and how it is encrypted.
pub struct EncryptedFile {
    pub aes_key: Vec<u8>,
    /// The key in hexadecimal.
    pub aes_key_hex: String,
    /// The key as it stands in a message.
    pub aes_key_base64: String,
    pub ciphertext: Vec<u8>,
}

/// Whether `params` tells of `data`, encrypted as `file`, under `filekey`.
pub open spec fn describes(
    params: GetUploadUrlParams,
    data: Seq<u8>,
    file: EncryptedFile,
    user_id: Seq<char>,
    media_type: i32,
    filekey: Seq<char>,
) -> bool {
    &&& params.filekey@ == filekey
    &&& params.media_type == media_type
    &&& params.to_user_id@ == user_id
    &&& params.rawsize == data.len()
    &&& params.rawfilemd5@ == outside::hex_encoding(outside::md5_of(data))
    &&& params.filesize == file.ciphertext@.len()
    &&& params.thumb_rawsize is None
    &&& params.thumb_rawfilemd5 is None
    &&& params.thumb_filesize is None
    &&& params.no_need_thumb
    &&& params.aeskey == file.aes_key_hex
}

/// What is told of `data`, encrypted as `file`, under the name that `filekey` makes up.
pub fn upload_params_with_filekey(
    data: &Vec<u8>,
    file: &EncryptedFile,
    user_id: &str,
    media_type: i32,
    filekey: &Vec<u8>,
) -> (params: GetUploadUrlParams)
    ensures
        describes(
            params,
            data@,
            *file,
            user_id@,
            media_type,
            outside::hex_encoding(filekey@),
        ),
{
    GetUploadUrlParams {
        filekey: outside::hex_encoded(filekey),
        media_type,
        to_user_id: user_id.to_owned(),
        rawsize: data.len(),
        rawfilemd5: outside::hex_encoded(&outside::md5_digest(data)),
        filesize: file.ciphertext.len(),
        thumb_rawsize: None,
        thumb_rawfilemd5: None,
        thumb_filesize: None,
        no_need_thumb: true,
        aeskey: file.aes_key_hex.clone(),
    }
}

/// What is told of `data`, encrypted as `file`, under a random name of 16 bytes.
pub fn upload_params(data: &Vec<u8>, file: &EncryptedFile, user_id: &str, media_type: i32) -> (
params: GetUploadUrlParams)
    ensures
        exists|filekey: Seq<u8>|
            filekey.len() == 16 && describes(
                params,
                data@,
                *file,
                user_id@,
                media_type,
                #[trigger] outside::hex_encoding(filekey),
            ),
{
    let filekey = outside::random_bytes(16);
    upload_params_with_filekey(data, file, user_id, media_type, &filekey)
}

/// The file once it is on the CDN, where `encrypt_query_param` finds it.
pub fn uploaded(file: EncryptedFile, encrypt_query_param: String) -> (r: UploadResult)
    ensures
        r.media.encrypt_query_param == Some(encrypt_query_param),
        r.media.aes_key == Some(file.aes_key_base64),
        r.media.encrypt_type == Some(1i32),
        r.media.full_url is None,
        r.aes_key == file.aes_key,
        r.encrypted_file_size == file.ciphertext@.len(),
{
    let encrypted_file_size = file.ciphertext.len();
    UploadResult {
        media: CDNMedia {
            encrypt_query_param: Some(encrypt_query_param),
            aes_key: Some(file.aes_key_base64),
            encrypt_type: Some(1),
            full_url: None,
        },
        aes_key: file.aes_key,
        encrypted_file_size,
    }
}

/// What comes of one attempt.
#[derive(Debug)]
pub enum CdnReply {
    /// The CDN has answered, with these headers where they are there.
    Response {
        status: u16,
        /// The header `x-error-message`.
        error_message: Option<String>,
        /// The header `x-encrypted-param`.
        encrypted_param: Option<String>,
    },
    /// The CDN could not be reached.
    NetworkError(String),
}

#[verifier::ext_equal]
pub enum CdnReplyView {
    Response { status: u16, error_message: Option<Seq<char>>, encrypted_param: Option<Seq<char>> },
    NetworkError(Seq<char>),
}

impl View for CdnReply {
    type V = CdnReplyView;

    open spec fn view(&self) -> CdnReplyView {
        match *self {
            CdnReply::Response { status, error_message, encrypted_param } =>
            CdnReplyView::Response {
                status,
                error_message: crate::types::option_view(error_message),
                encrypted_param: crate::types::option_view(encrypted_param),
            },
            CdnReply::NetworkError(message) => CdnReplyView::NetworkError(message@),
        }
    }
}

/// What one attempt means: the file is there, it will never be, or another attempt may help.
#[verifier::ext_equal]
pub enum Attempt {
    Done(Seq<char>),
    Rejected(ErrorView),
    Failed(ErrorView),
}

pub open spec fn status_text(what: Seq<char>, status: u16, message: Seq<char>) -> Seq<char> {
    what + decimal::decimal(status as nat) + ": "@ + message
}

pub open spec fn message_or(message: Option<Seq<char>>, default: Seq<char>) -> Seq<char> {
    match message {
        Some(message) => message,
        None => default,
    }
}

/// What one attempt means.
pub open spec fn attempt(reply: CdnReplyView) -> Attempt {
    match reply {
        CdnReplyView::Response { status, error_message, encrypted_param } => {
            if 400 <= status < 500 {
                Attempt::Rejected(
                    ErrorView::Media(
                        status_text(
                            "CDN upload client error "@,
                            status,
                            message_or(error_message, "client error"@),
                        ),
                    ),
                )
            } else if status != 200 {
                Attempt::Failed(
                    ErrorView::Media(
                        status_text(
                            "CDN upload server error "@,
                            status,
                            message_or(error_message, "server error"@),
                        ),
                    ),
                )
            } else {
                match encrypted_param {
                    Some(param) => Attempt::Done(param),
                    None => Attempt::Failed(
                        ErrorView::Media("CDN upload response missing x-encrypted-param header"@),
                    ),
                }
            }
        },
        CdnReplyView::NetworkError(message) => Attempt::Failed(
            ErrorView::Other("CDN upload network error: "@ + message),
        ),
    }
}

/// How an upload ends with its attempt number `number`, where it does: with the parameter that
/// finds the file, or with an error.
pub open spec fn end_after(number: int, reply: CdnReplyView) -> Option<core::result::Result<Seq<char>, ErrorView>> {
    match attempt(reply) {
        Attempt::Done(param) => Some(Ok(param)),
        Attempt::Rejected(err) => Some(Err(err)),
        Attempt::Failed(err) => if number >= MAX_ATTEMPTS {
            Some(Err(err))
        } else {
            None
        },
    }
}

pub open spec fn end_view(end: Result<String>) -> core::result::Result<Seq<char>, ErrorView> {
    match end {
        Ok(param) => Ok(param@),
        Err(err) => Err(err@),
    }
}

/// An upload in progress.
#[derive(Debug)]
pub struct CdnUpload {
    /// How many attempts have been made.
    pub attempts: u32,
}

fn status_text_of(what: &str, status: u16, message: Option<String>, default: &str) -> (s: String)
    ensures
        s@ == status_text(
            what@,
            status,
            message_or(crate::types::option_view(message), default@),
        ),
{
    let message = match message {
        Some(message) => message,
        None => default.to_owned(),
    };
    what.to_owned().concat(decimal::decimal_of(status as u128).as_str()).concat(": ").concat(
        message.as_str(),
    )
}

impl CdnUpload {
    pub fn new() -> (upload: CdnUpload)
        ensures
            upload.attempts == 0,
    {
        CdnUpload { attempts: 0 }
    }

    /// Takes what came of an attempt. Where nothing is returned, another attempt is to be made.
    pub fn on_reply(&mut self, reply: CdnReply) -> (r: Option<Result<String>>)
        requires
            old(self).attempts < MAX_ATTEMPTS,
        ensures
            final(self).attempts == old(self).attempts + 1,
            match r {
                Some(end) => end_after(old(self).attempts + 1, reply@) == Some(end_view(end)),
                None => end_after(old(self).attempts + 1, reply@) is None,
            },
            r is None ==> final(self).attempts < MAX_ATTEMPTS,
    {
        self.attempts += 1;
        let err = match reply {
            CdnReply::Response { status, error_message, encrypted_param } => {
                if status >= 400 && status < 500 {
                    return Some(
                        Err(
                            WechatIlinkError::Media(
                                status_text_of(
                                    "CDN upload client error ",
                                    status,
                                    error_message,
                                    "client error",
                                ),
                            ),
                        ),
                    );
                }
                if status != 200 {
                    WechatIlinkError::Media(
                        status_text_of(
                            "CDN upload server error ",
                            status,
                            error_message,
                            "server error",
                        ),
                    )
                } else {
                    match encrypted_param {
                        Some(param) => {
                            return Some(Ok(param));
                        },
                        None => WechatIlinkError::Media(
                            "CDN upload response missing x-encrypted-param header".to_owned(),
                        ),
                    }
                }
            },
            CdnReply::NetworkError(message) => WechatIlinkError::Other(
                "CDN upload network error: ".to_owned().concat(message.as_str()),
            ),
        };
        if self.attempts < MAX_ATTEMPTS {
            None
        } else {
            Some(Err(err))
        }
    }
}

/// How an upload ends that has made `made` attempts and gets `replies` to the next ones.
pub open spec fn upload_run(made: int, replies: Seq<CdnReplyView>) -> Option<core::result::Result<Seq<char>, ErrorView>>
    decreases replies.len(),
{
    if replies.len() == 0 {
        None
    } else {
        match end_after(made + 1, replies[0]) {
            Some(end) => Some(end),
            None => upload_run(made + 1, replies.drop_first()),
        }
    }
}

/// An upload ends with its third attempt at the latest: with the first that is no failure, or
/// with the error of the third.
pub proof fn law_upload_ends(replies: Seq<CdnReplyView>)
    requires
        replies.len() >= 3,
    ensures
        upload_run(0, replies) == Some(
            if !(attempt(replies[0]) is Failed) {
                end_after(1, replies[0])->0
            } else if !(attempt(replies[1]) is Failed) {
                end_after(2, replies[1])->0
            } else {
                end_after(3, replies[2])->0
            },
        ),
{
    reveal_with_fuel(upload_run, 4);
    assert(replies.drop_first()[0] == replies[1]);
    assert(replies.drop_first().drop_first()[0] == replies[2]);
}

} // verus!
