//! How files are put on the CDN and taken from it.

use crate::client::GetUploadUrlParams;
use crate::decimal;
use crate::error::ErrorView;
use crate::media;
use crate::media::MediaKind;
use crate::outside;
use crate::responses::GetUploadUrlResponse;
use crate::types::{CDNMedia, IncomingMessage};
use crate::upload;
use crate::upload::{CdnReplyView, EncryptedFile};
use vstd::prelude::*;

verus! {

/// What a file tells about itself is what it is: the size and the digest of the data as it was given,
/// the size of what is put on the CDN, the key, whom it is for and as what, and that it has no thumb.
pub proof fn law_files_tell_what_they_are(
    params: GetUploadUrlParams,
    data: Seq<u8>,
    file: EncryptedFile,
    user_id: Seq<char>,
    media_type: i32,
    filekey: Seq<char>,
)
    requires
        upload::describes(params, data, file, user_id, media_type, filekey),
    ensures
        params.filekey@ == filekey,
        params.media_type == media_type,
        params.to_user_id@ == user_id,
        params.rawsize == data.len(),
        params.rawfilemd5@ == outside::hex_encoding(outside::md5_of(data)),
        params.filesize == file.ciphertext@.len(),
        params.aeskey@ == file.aes_key_hex@,
        params.no_need_thumb,
        params.thumb_rawsize is None && params.thumb_rawfilemd5 is None && params.thumb_filesize is None,
{
}

/// An upload that was taken ends with the parameter of the CDN, whichever attempt it was; one that the
/// CDN says is wrong ends at once; every other one is tried again, and ends with the third attempt.
pub proof fn law_attempts(number: int, status: u16, said: Option<Seq<char>>, param: Option<Seq<char>>)
    ensures
        ({
            let end = upload::end_after(
                number,
                CdnReplyView::Response { status, error_message: said, encrypted_param: param },
            );
            let words = |otherwise: Seq<char>|
                if said is Some {
                    said->0
                } else {
                    otherwise
                };
            let digits = decimal::decimal(status as nat);
            let rejected = 400 <= status && status <= 499;
            &&& status == 200 && param is Some ==> end is Some && end->0 == core::result::Result::<
                Seq<char>,
                ErrorView,
            >::Ok(param->0)
            &&& rejected ==> end is Some && end->0 == core::result::Result::<Seq<char>, ErrorView>::Err(
                ErrorView::Media(
                    "CDN upload client error "@ + digits + ": "@ + words("client error"@),
                ),
            )
            &&& status != 200 && !rejected && number < 3 ==> end is None
            &&& status != 200 && !rejected && number >= 3 ==> end is Some && end->0
                == core::result::Result::<Seq<char>, ErrorView>::Err(
                ErrorView::Media(
                    "CDN upload server error "@ + digits + ": "@ + words("server error"@),
                ),
            )
            &&& status == 200 && param is None && number < 3 ==> end is None
            &&& status == 200 && param is None && number >= 3 ==> end is Some && end->0
                == core::result::Result::<Seq<char>, ErrorView>::Err(
                ErrorView::Media("CDN upload response missing x-encrypted-param header"@),
            )
        }),
{
}

/// An upload that did not reach the CDN is tried again, and ends with the third attempt.
pub proof fn law_unreached_attempts(number: int, message: Seq<char>)
    ensures
        ({
            let end = upload::end_after(number, CdnReplyView::NetworkError(message));
            &&& number < 3 ==> end is None
            &&& number >= 3 ==> end is Some && end->0 == core::result::Result::<
                Seq<char>,
                ErrorView,
            >::Err(ErrorView::Other("CDN upload network error: "@ + message))
        }),
{
}

/// A text that is there and not empty.
pub open spec fn is_given(s: Option<String>) -> bool {
    s is Some && s->0@.len() > 0
}

/// A file is put where the service says; where it gives only a parameter, at the usual address with
/// that parameter; and nowhere where it gives neither.
pub proof fn law_upload_places(response: GetUploadUrlResponse, filekey: Seq<char>)
    ensures
        ({
            let url = media::upload_url(response, filekey);
            &&& is_given(response.upload_full_url) ==> url == Some(response.upload_full_url->0@)
            &&& !is_given(response.upload_full_url) && is_given(response.upload_param) ==> url == Some(
                "https://novac2c.cdn.weixin.qq.com/c2c"@ + "/upload?encrypted_query_param="@
                    + outside::url_encoding(response.upload_param->0@) + "&filekey="@
                    + outside::url_encoding(filekey),
            )
            &&& !is_given(response.upload_full_url) && !is_given(response.upload_param)
                ==> url is None
        }),
{
}

/// A key is there where it is not empty, and the error for a missing one tells what lacks it.
pub proof fn law_keys(media: CDNMedia, what: Seq<char>)
    ensures
        media::nonempty(media.aes_key) is Some <==> is_given(media.aes_key),
        is_given(media.aes_key) ==> media::nonempty(media.aes_key) == Some(media.aes_key->0@),
        media::missing_key(what) == ErrorView::Media(what + " CDN media missing AES key"@),
{
}

/// Of a message the first image is downloaded; where that is not on the CDN or there is none, the first
/// file; else the first video; else the first voice recording; and nothing where none of these is on the
/// CDN.
pub proof fn law_what_is_downloaded(msg: IncomingMessage)
    ensures
        ({
            let chosen = media::chosen_media(msg);
            let image = msg.images@.len() > 0 && msg.images@[0].media is Some;
            let file = msg.files@.len() > 0 && msg.files@[0].media is Some;
            let video = msg.videos@.len() > 0 && msg.videos@[0].media is Some;
            let voice = msg.voices@.len() > 0 && msg.voices@[0].media is Some;
            &&& image ==> chosen == Some((MediaKind::Image, msg.images@[0].media->0))
            &&& !image && file ==> chosen == Some((MediaKind::File, msg.files@[0].media->0))
            &&& !image && !file && video ==> chosen == Some(
                (MediaKind::Video, msg.videos@[0].media->0),
            )
            &&& !image && !file && !video && voice ==> chosen == Some(
                (MediaKind::Voice, msg.voices@[0].media->0),
            )
            &&& !image && !file && !video && !voice ==> chosen is None
        }),
{
}

/// Only an image brings a key of its own, and only a file a name, which is `file.bin` where it has
/// none. Each kind has a name.
pub proof fn law_downloads_are_described(msg: IncomingMessage)
    ensures
        msg.images@.len() > 0 && msg.images@[0].aes_key is Some ==> media::own_key(
            msg,
            MediaKind::Image,
        ) == Some(msg.images@[0].aes_key->0@),
        msg.images@.len() > 0 && msg.images@[0].aes_key is None ==> media::own_key(
            msg,
            MediaKind::Image,
        ) is None,
        media::own_key(msg, MediaKind::File) is None,
        media::own_key(msg, MediaKind::Video) is None,
        media::own_key(msg, MediaKind::Voice) is None,
        msg.files@.len() > 0 && msg.files@[0].file_name is Some ==> media::download_name(
            msg,
            MediaKind::File,
        ) == Some(msg.files@[0].file_name->0@),
        msg.files@.len() > 0 && msg.files@[0].file_name is None ==> media::download_name(
            msg,
            MediaKind::File,
        ) == Some("file.bin"@),
        media::download_name(msg, MediaKind::Image) is None,
        media::download_name(msg, MediaKind::Video) is None,
        media::download_name(msg, MediaKind::Voice) is None,
        media::kind_name(MediaKind::Image) == "image"@,
        media::kind_name(MediaKind::File) == "file"@,
        media::kind_name(MediaKind::Video) == "video"@,
        media::kind_name(MediaKind::Voice) == "voice"@,
{
}

} // verus!
