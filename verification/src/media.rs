//! Moving files to and from the CDN.

use crate::error::{ErrorView, Result, WechatIlinkError};
use crate::protocol;
use crate::responses::GetUploadUrlResponse;
use crate::types::{self, CDNMedia, DownloadedMedia, IncomingMessage};
use vstd::prelude::*;

verus! {

/// The text of `s`, unless it is empty.
pub open spec fn nonempty(s: Option<String>) -> Option<Seq<char>> {
    match s {
        Some(s) if s@.len() > 0 => Some(s@),
        _ => None,
    }
}

/// Where a file is put: the address that the service gives, else one that is made from the
/// parameter that it gives.
pub open spec fn upload_url(response: GetUploadUrlResponse, filekey: Seq<char>) -> Option<
    Seq<char>,
> {
    match (nonempty(response.upload_full_url), nonempty(response.upload_param)) {
        (Some(url), _) => Some(url),
        (None, Some(param)) => Some(
            protocol::cdn_upload_url(protocol::CDN_BASE_URL@, param, filekey),
        ),
        (None, None) => None,
    }
}

/// Where a file is put.
pub fn resolve_cdn_upload_url(response: &GetUploadUrlResponse, filekey: &str) -> (r: Result<String>)
    ensures
        match r {
            Ok(url) => upload_url(*response, filekey@) == Some(url@),
            Err(err) => upload_url(*response, filekey@) is None && err@ == ErrorView::Media(
                "getuploadurl did not return upload_full_url or upload_param"@,
            ),
        },
{
    if let Some(url) = &response.upload_full_url {
        if !url.as_str().is_empty() {
            return Ok(url.clone());
        }
    }
    if let Some(param) = &response.upload_param {
        if !param.as_str().is_empty() {
            return Ok(
                protocol::build_cdn_upload_url(protocol::CDN_BASE_URL, param.as_str(), filekey),
            );
        }
    }
    Err(
        WechatIlinkError::Media(
            "getuploadurl did not return upload_full_url or upload_param".to_owned(),
        ),
    )
}

/// The error for media that cannot be decrypted.
pub open spec fn missing_key(media_type: Seq<char>) -> ErrorView {
    ErrorView::Media(media_type + " CDN media missing AES key"@)
}

/// Media other than images must come with a key.
pub fn require_download_aes_key(media_type: &str, media: &CDNMedia) -> (r: Result<()>)
    ensures
        match r {
            Ok(()) => nonempty(media.aes_key) is Some,
            Err(err) => nonempty(media.aes_key) is None && err@ == missing_key(media_type@),
        },
{
    if let Some(key) = &media.aes_key {
        if !key.as_str().is_empty() {
            return Ok(());
        }
    }
    Err(
        WechatIlinkError::Media(
            media_type.to_owned().concat(" CDN media missing AES key"),
        ),
    )
}

/// What a file that is to be downloaded is.
#[derive(Clone, Copy, Debug, PartialEq, Eq, Structural)]
pub enum MediaKind {
    Image,
    File,
    Video,
    Voice,
}

/// A file of a message that is to be downloaded.
pub struct DownloadTask<'a> {
    pub kind: MediaKind,
    pub media: &'a CDNMedia,
    /// The key that takes precedence over that of `media`.
    pub aes_key: Option<&'a str>,
    pub file_name: Option<String>,
}

pub open spec fn first_image(msg: IncomingMessage) -> Option<CDNMedia> {
    if msg.images@.len() > 0 {
        msg.images@[0].media
    } else {
        None
    }
}

pub open spec fn first_file(msg: IncomingMessage) -> Option<CDNMedia> {
    if msg.files@.len() > 0 {
        msg.files@[0].media
    } else {
        None
    }
}

pub open spec fn first_video(msg: IncomingMessage) -> Option<CDNMedia> {
    if msg.videos@.len() > 0 {
        msg.videos@[0].media
    } else {
        None
    }
}

pub open spec fn first_voice(msg: IncomingMessage) -> Option<CDNMedia> {
    if msg.voices@.len() > 0 {
        msg.voices@[0].media
    } else {
        None
    }
}

/// What is downloaded of a message: its first image, else its first file, else its first video,
/// else its first voice recording, each only where it refers to the CDN.
pub open spec fn chosen_media(msg: IncomingMessage) -> Option<(MediaKind, CDNMedia)> {
    match (first_image(msg), first_file(msg), first_video(msg), first_voice(msg)) {
        (Some(media), _, _, _) => Some((MediaKind::Image, media)),
        (None, Some(media), _, _) => Some((MediaKind::File, media)),
        (None, None, Some(media), _) => Some((MediaKind::Video, media)),
        (None, None, None, Some(media)) => Some((MediaKind::Voice, media)),
        (None, None, None, None) => None,
    }
}

pub open spec fn kind_name(kind: MediaKind) -> Seq<char> {
    match kind {
        MediaKind::Image => "image"@,
        MediaKind::File => "file"@,
        MediaKind::Video => "video"@,
        MediaKind::Voice => "voice"@,
    }
}

/// The key that takes precedence over that of the media: an image has one of its own.
pub open spec fn own_key(msg: IncomingMessage, kind: MediaKind) -> Option<Seq<char>> {
    if kind is Image {
        types::option_view(msg.images@[0].aes_key)
    } else {
        None
    }
}

/// The name that a download gets: only a file has one.
pub open spec fn download_name(msg: IncomingMessage, kind: MediaKind) -> Option<Seq<char>> {
    if kind is File {
        match msg.files@[0].file_name {
            Some(name) => Some(name@),
            None => Some("file.bin"@),
        }
    } else {
        None
    }
}

/// What is downloaded of `msg`. There is an error where it lacks its key.
pub fn select_download<'a>(msg: &'a IncomingMessage) -> (r: Result<Option<DownloadTask<'a>>>)
    ensures
        match (r, chosen_media(*msg)) {
            (Ok(Some(task)), Some((kind, media))) => {
                &&& kind is Image || nonempty(media.aes_key) is Some
                &&& task.kind == kind
                &&& *task.media == media
                &&& protocol::str_view(task.aes_key) == own_key(*msg, kind)
                &&& types::option_view(task.file_name) == download_name(*msg, kind)
            },
            (Ok(None), None) => true,
            (Err(err), Some((kind, media))) => !(kind is Image) && nonempty(media.aes_key) is None
                && err@ == missing_key(kind_name(kind)),
            _ => false,
        },
{
    if msg.images.len() > 0 {
        if let Some(media) = &msg.images[0].media {
            let aes_key = match &msg.images[0].aes_key {
                Some(key) => Some(key.as_str()),
                None => None,
            };
            return Ok(
                Some(DownloadTask { kind: MediaKind::Image, media, aes_key, file_name: None }),
            );
        }
    }
    if msg.files.len() > 0 {
        if let Some(media) = &msg.files[0].media {
            match require_download_aes_key("file", media) {
                Ok(()) => {},
                Err(err) => {
                    return Err(err);
                },
            }
            let file_name = match &msg.files[0].file_name {
                Some(name) => name.clone(),
                None => "file.bin".to_owned(),
            };
            return Ok(
                Some(
                    DownloadTask {
                        kind: MediaKind::File,
                        media,
                        aes_key: None,
                        file_name: Some(file_name),
                    },
                ),
            );
        }
    }
    if msg.videos.len() > 0 {
        if let Some(media) = &msg.videos[0].media {
            return match require_download_aes_key("video", media) {
                Ok(()) => Ok(
                    Some(
                        DownloadTask {
                            kind: MediaKind::Video,
                            media,
                            aes_key: None,
                            file_name: None,
                        },
                    ),
                ),
                Err(err) => Err(err),
            };
        }
    }
    if msg.voices.len() > 0 {
        if let Some(media) = &msg.voices[0].media {
            return match require_download_aes_key("voice", media) {
                Ok(()) => Ok(
                    Some(
                        DownloadTask {
                            kind: MediaKind::Voice,
                            media,
                            aes_key: None,
                            file_name: None,
                        },
                    ),
                ),
                Err(err) => Err(err),
            };
        }
    }
    Ok(None)
}

impl<'a> DownloadTask<'a> {
    /// The download, now that its data has come.
    pub fn finish(self, data: Vec<u8>) -> (r: DownloadedMedia)
        ensures
            r.data == data,
            r.media_type@ == kind_name(self.kind),
            r.file_name == self.file_name,
            types::option_view(r.format) == if self.kind is Voice {
                Some("silk"@)
            } else {
                None
            },
    {
        let media_type = match self.kind {
            MediaKind::Image => "image".to_owned(),
            MediaKind::File => "file".to_owned(),
            MediaKind::Video => "video".to_owned(),
            MediaKind::Voice => "voice".to_owned(),
        };
        let format = match self.kind {
            MediaKind::Voice => Some("silk".to_owned()),
            _ => None,
        };
        DownloadedMedia { data, media_type, file_name: self.file_name, format }
    }
}

} // verus!
