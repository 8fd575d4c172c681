//! What the operations that send text and move files do.

use crate::bot::WechatIlinkClient;
use crate::chunk;
use crate::chunk_laws;
use crate::client::{GetUploadUrlParams, ILinkClient};
use crate::content;
use crate::content::{ContentAction, ContentDelivery, ItemKind, SendContent, SendPlan, SendStep};
use crate::content_laws;
use crate::decimal;
use crate::delivery::{SendReceipt, TextDelivery};
use crate::error::WechatIlinkError;
use crate::json::{Json, JsonView};
use crate::json_laws;
use crate::media;
use crate::media::{DownloadTask, MediaKind};
use crate::messages;
use crate::operation_laws;
use crate::outside;
use crate::request_laws;
use crate::request_operations;
use crate::responses::GetUploadUrlResponse;
use crate::text;
use crate::transfer_laws;
use crate::types::{CDNMedia, DownloadedMedia, IncomingMessage, UploadResult};
use crate::upload;
use crate::upload::{CdnReply, CdnUpload, EncryptedFile};
use vstd::prelude::*;

verus! {

/// A receipt tells the id of the last message, one for a single message tells its id, and an empty one
/// tells nothing.
pub proof fn law_receipts_tell(
    receipt: &SendReceipt,
    last: Option<&str>,
    id: String,
    single: SendReceipt,
    empty: SendReceipt,
)
    requires
        call_ensures(SendReceipt::last_message_id, (receipt,), last),
        call_ensures(SendReceipt::single, (id,), single),
        call_ensures(SendReceipt::empty, (), empty),
    ensures
        last is Some <==> receipt.message_ids@.len() > 0,
        last is Some ==> last->0@ == receipt.message_ids@.last()@,
        single.message_ids@.len() == 1,
        single.message_ids@[0]@ == id@,
        single.visible_texts@.len() == 0,
        empty.message_ids@.len() == 0,
        empty.visible_texts@.len() == 0,
{
    assert(single@.message_ids.len() == single.message_ids@.len());
    assert(single@.message_ids[0] == single.message_ids@[0]@);
    assert(single@.visible_texts.len() == single.visible_texts@.len());
    assert(empty@.message_ids.len() == empty.message_ids@.len());
    assert(empty@.visible_texts.len() == empty.visible_texts@.len());
    assert(receipt@.message_ids.len() == receipt.message_ids@.len());
    assert(receipt.message_ids@.len() > 0 ==> receipt@.message_ids.last()
        == receipt.message_ids@.last()@);
}

pub open spec fn texts_of(strings: Seq<String>) -> Seq<Seq<char>> {
    Seq::new(strings.len(), |i: int| strings[i]@)
}

/// A receipt that another one is appended to tells first what it told, then what the other one tells.
pub proof fn law_receipts_are_appended()
    ensures
        forall|a: &mut SendReceipt, b: SendReceipt| #[trigger]
            call_ensures(SendReceipt::append, (a, b), ()) ==> {
                &&& texts_of(final(a).message_ids@) == texts_of((*a).message_ids@) + texts_of(
                    b.message_ids@,
                )
                &&& texts_of(final(a).visible_texts@) == texts_of((*a).visible_texts@) + texts_of(
                    b.visible_texts@,
                )
            },
{
    assert forall|strings: Seq<String>| #[trigger] texts_of(strings) == text::string_views(strings) by {
        assert(texts_of(strings) =~= text::string_views(strings));
    }
}

/// A logged-in client sends a text with its token, to the user, in pieces of at most 4000 bytes that are
/// the text together.
pub proof fn law_texts_are_delivered(
    c: &WechatIlinkClient,
    user_id: &str,
    s: &str,
    context_token: &str,
    r: core::result::Result<TextDelivery, WechatIlinkError>,
)
    requires
        call_ensures(TextDelivery::new, (c, user_id, s, context_token), r),
    ensures
        r is Ok <==> c.credentials is Some,
        r matches Err(err) ==> err matches WechatIlinkError::Auth(m) && m@ == "not logged in"@,
        r matches Ok(d) ==> {
            &&& d.base_url@ == c.credentials->0.base_url@
            &&& d.token@ == c.credentials->0.token@
            &&& d.user_id@ == user_id@
            &&& d.context_token@ == context_token@
            &&& chunk::concat(text::string_views(d.chunks@)) == s@
            &&& text::byte_len(s@) <= 4000 ==> d.chunks@.len() == 1
            &&& d.receipt.message_ids@.len() == 0
            &&& d.receipt.visible_texts@.len() == 0
            &&& forall|i: int|
                0 <= i < d.chunks@.len() ==> text::byte_len((#[trigger] d.chunks@[i])@) <= 4000
        },
{
    if let Ok(d) = r {
        chunk_laws::law_messages_take_four_thousand_bytes(d, s@);
        assert(text::string_views(d.receipt.message_ids@).len() == 0);
        assert(text::string_views(d.receipt.visible_texts@).len() == 0);
    }
}

/// The next message of a delivery carries the first piece that was not sent, as it is or as it is shown,
/// to its user.
pub proof fn law_pieces_are_sent_in_order(
    d: &TextDelivery,
    c: &ILinkClient,
    client_id: &str,
    r: Option<Json>,
    shown: Seq<char>,
)
    requires
        call_ensures(TextDelivery::message_with_client_id, (d, c, client_id), r),
    ensures
        r is Some <==> d.receipt.visible_texts@.len() < d.chunks@.len(),
        r is Some && !c.options.markdown_filter ==> request_operations::is_text_message(
            r->0@,
            d.user_id@,
            d.context_token@,
            d.chunks@[d.receipt.visible_texts@.len() as int]@,
            client_id@,
        ),
        r is Some && c.options.markdown_filter && crate::markdown_filter::filtered(
            d.chunks@[d.receipt.visible_texts@.len() as int]@,
        ) == Some(shown) ==> request_operations::is_text_message(
            r->0@,
            d.user_id@,
            d.context_token@,
            shown,
            client_id@,
        ),
{
    assert(d.receipt@.visible_texts.len() == d.receipt.visible_texts@.len());
    if r is Some {
        let piece = d.chunks@[d.receipt.visible_texts@.len() as int]@;
        request_laws::law_sent_text(c.options, piece);
        request_laws::law_text_messages(d.user_id@, d.context_token@, piece, client_id@);
        request_laws::law_text_messages(d.user_id@, d.context_token@, shown, client_id@);
    }
}

/// Once a piece was sent, the receipt tells it and the id of its message, and nothing else changes.
pub proof fn law_sent_pieces_are_told()
    ensures
        forall|d: &mut TextDelivery, id: String| #[trigger]
            call_ensures(TextDelivery::on_sent, (d, id), ()) ==> {
                let n = (*d).receipt.visible_texts@.len();
                &&& final(d).receipt.visible_texts@.len() == n + 1
                &&& final(d).receipt.visible_texts@.last()@ == (*d).chunks@[n as int]@
                &&& final(d).receipt.message_ids@.len() == (*d).receipt.message_ids@.len() + 1
                &&& final(d).receipt.message_ids@.last()@ == id@
                &&& final(d).chunks == (*d).chunks
                &&& final(d).user_id == (*d).user_id
                &&& final(d).token == (*d).token
                &&& final(d).base_url == (*d).base_url
                &&& final(d).context_token == (*d).context_token
            },
{
    assert forall|d: &mut TextDelivery, id: String| #[trigger]
        call_ensures(TextDelivery::on_sent, (d, id), ()) implies {
        let n = (*d).receipt.visible_texts@.len();
        &&& final(d).receipt.visible_texts@.len() == n + 1
        &&& final(d).receipt.visible_texts@.last()@ == (*d).chunks@[n as int]@
        &&& final(d).receipt.message_ids@.len() == (*d).receipt.message_ids@.len() + 1
        &&& final(d).receipt.message_ids@.last()@ == id@
        &&& final(d).chunks == (*d).chunks
        &&& final(d).user_id == (*d).user_id
        &&& final(d).token == (*d).token
        &&& final(d).base_url == (*d).base_url
        &&& final(d).context_token == (*d).context_token
    } by {
        let texts = text::string_views(final(d).receipt.visible_texts@);
        let ids = text::string_views(final(d).receipt.message_ids@);
        assert(texts.len() == final(d).receipt.visible_texts@.len());
        assert(ids.len() == final(d).receipt.message_ids@.len());
        assert((*d).receipt@.visible_texts.len() == (*d).receipt.visible_texts@.len());
        assert((*d).receipt@.message_ids.len() == (*d).receipt.message_ids@.len());
        assert(texts.last() == final(d).receipt.visible_texts@.last()@);
        assert(ids.last() == final(d).receipt.message_ids@.last()@);
    }
}

/// Content is delivered in the steps of its plan, none of which is taken at first.
pub proof fn law_content_is_delivered(content: SendContent, d: ContentDelivery, plan: SendPlan)
    requires
        call_ensures(ContentDelivery::new, (content,), d),
        call_ensures(SendPlan::new, (content,), plan),
    ensures
        d.valid(),
        content::step_views(d.plan.steps@) == content::step_views(plan.steps@),
        d.plan.data@ == plan.data@,
        content::kind_view(d.plan.kind) == content::kind_view(plan.kind),
        d.taken == 0,
        d.upload is None,
        d.receipt.message_ids@.len() == 0,
        d.receipt.visible_texts@.len() == 0,
{
    assert(text::string_views(d.receipt.message_ids@).len() == 0);
    assert(text::string_views(d.receipt.visible_texts@).len() == 0);
}

/// What is to be done next is what the first step says that was not taken: its text is sent, or the data
/// is uploaded as what it is, or the item is sent. When all were taken, nothing is left to do.
pub proof fn law_steps_are_taken_in_order(d: &ContentDelivery, action: ContentAction<'_>)
    requires
        d.valid(),
        call_ensures(ContentDelivery::next, (d,), action),
    ensures
        d.taken >= d.plan.steps@.len() ==> action is Done,
        d.taken < d.plan.steps@.len() ==> match d.plan.steps@[d.taken as int] {
            SendStep::Text(s) => action matches ContentAction::SendText(t) && t@ == s@,
            SendStep::Upload { media_type: wanted } => action matches ContentAction::Upload {
                media_type,
                data,
            } && media_type == wanted && data@ == d.plan.data@,
            SendStep::Item => action is SendItem,
        },
{
    if d.taken < d.plan.steps@.len() {
        assert(d.steps()[d.taken as int] == d.plan.steps@[d.taken as int]@);
    }
}

/// A step that was taken counts once. What was sent is told in the receipt behind what was sent before,
/// and the data that was uploaded is kept for the item.
pub proof fn law_steps_count_once()
    ensures
        forall|d: &mut ContentDelivery, receipt: SendReceipt| #[trigger]
            call_ensures(ContentDelivery::on_text_sent, (d, receipt), ()) ==> {
                &&& final(d).taken == (*d).taken + 1
                &&& final(d).plan == (*d).plan
                &&& final(d).upload == (*d).upload
                &&& final(d).receipt@.message_ids == (*d).receipt@.message_ids
                    + receipt@.message_ids
                &&& final(d).receipt@.visible_texts == (*d).receipt@.visible_texts
                    + receipt@.visible_texts
            },
        forall|d: &mut ContentDelivery, file: UploadResult| #[trigger]
            call_ensures(ContentDelivery::on_uploaded, (d, file), ()) ==> {
                &&& final(d).taken == (*d).taken + 1
                &&& final(d).plan == (*d).plan
                &&& final(d).upload == Some(file)
                &&& final(d).receipt == (*d).receipt
            },
        forall|d: &mut ContentDelivery, id: String| #[trigger]
            call_ensures(ContentDelivery::on_item_sent, (d, id), ()) ==> {
                &&& final(d).taken == (*d).taken + 1
                &&& final(d).plan == (*d).plan
                &&& final(d).upload == (*d).upload
                &&& final(d).receipt@.message_ids == (*d).receipt@.message_ids.push(id@)
                &&& final(d).receipt@.visible_texts == (*d).receipt@.visible_texts
            },
{
    assert forall|d: &mut ContentDelivery, id: String| #[trigger]
        call_ensures(ContentDelivery::on_item_sent, (d, id), ()) implies {
        &&& final(d).taken == (*d).taken + 1
        &&& final(d).plan == (*d).plan
        &&& final(d).upload == (*d).upload
        &&& final(d).receipt@.message_ids == (*d).receipt@.message_ids.push(id@)
        &&& final(d).receipt@.visible_texts == (*d).receipt@.visible_texts
    } by {
        assert((*d).receipt@.message_ids + seq![id@] =~= (*d).receipt@.message_ids.push(id@));
        assert((*d).receipt@.visible_texts + Seq::<Seq<char>>::empty() =~= (
        *d).receipt@.visible_texts);
    }
}

/// A file tells its sizes, its digest and its keys, each in its place, and once it is on the CDN the
/// parameter that finds it.
pub proof fn law_files_are_described(
    data: &Vec<u8>,
    file: &EncryptedFile,
    user_id: &str,
    media_type: i32,
    filekey: &Vec<u8>,
    params: GetUploadUrlParams,
    param: String,
    done: UploadResult,
)
    requires
        call_ensures(
            upload::upload_params_with_filekey,
            (data, file, user_id, media_type, filekey),
            params,
        ),
        call_ensures(upload::uploaded, (*file, param), done),
    ensures
        params.filekey@ == outside::hex_encoding(filekey@),
        params.media_type == media_type,
        params.to_user_id@ == user_id@,
        params.rawsize == data@.len(),
        params.rawfilemd5@ == outside::hex_encoding(outside::md5_of(data@)),
        params.filesize == file.ciphertext@.len(),
        params.no_need_thumb,
        params.aeskey@ == file.aes_key_hex@,
        done.media.encrypt_query_param is Some && done.media.encrypt_query_param->0@ == param@,
        done.media.aes_key is Some && done.media.aes_key->0@ == file.aes_key_base64@,
        done.media.encrypt_type == Some(1i32),
        done.media.full_url is None,
        done.aes_key@ == file.aes_key@,
        done.encrypted_file_size == file.ciphertext@.len(),
{
    transfer_laws::law_files_tell_what_they_are(
        params,
        data@,
        *file,
        user_id@,
        media_type,
        outside::hex_encoding(filekey@),
    );
}

/// An upload ends well with the parameter of a reply that brings one, ends at once where the CDN refuses
/// the file, and else goes on until its third attempt.
pub proof fn law_uploads_end()
    ensures
        forall|
            u: &mut CdnUpload,
            status: u16,
            said: Option<String>,
            param: Option<String>,
            r: Option<core::result::Result<String, WechatIlinkError>>,
        |
            #![trigger call_ensures(CdnUpload::on_reply, (u, CdnReply::Response { status, error_message: said, encrypted_param: param }), r)]
            call_ensures(
                CdnUpload::on_reply,
                (u, CdnReply::Response { status, error_message: said, encrypted_param: param }),
                r,
            ) ==> {
                let refused = 400 <= status && status < 500;
                let done = status == 200 && param is Some;
                &&& final(u).attempts == (*u).attempts + 1
                &&& done ==> r is Some && r->0 is Ok && r->0->Ok_0@ == param->0@
                &&& r is Some && r->0 is Ok ==> done
                &&& refused ==> r is Some && (r->0 matches Err(err) && err
                    matches WechatIlinkError::Media(m) && m@ == "CDN upload client error "@
                    + decimal::decimal(status as nat) + ": "@ + operation_laws::given_or(
                    said,
                    "client error"@,
                ))
                &&& !done && !refused ==> (r is Some <==> (*u).attempts + 1 >= 3)
                &&& status != 200 && !refused && r is Some ==> (r->0 matches Err(err) && err
                    matches WechatIlinkError::Media(m) && m@ == "CDN upload server error "@
                    + decimal::decimal(status as nat) + ": "@ + operation_laws::given_or(
                    said,
                    "server error"@,
                ))
            },
        forall|
            u: &mut CdnUpload,
            message: String,
            r: Option<core::result::Result<String, WechatIlinkError>>,
        |
            #![trigger call_ensures(CdnUpload::on_reply, (u, CdnReply::NetworkError(message)), r)]
            call_ensures(CdnUpload::on_reply, (u, CdnReply::NetworkError(message)), r) ==> {
                &&& final(u).attempts == (*u).attempts + 1
                &&& r is Some <==> (*u).attempts + 1 >= 3
                &&& r is Some ==> (r->0 matches Err(err) && err matches WechatIlinkError::Other(m)
                    && m@ == "CDN upload network error: "@ + message@)
            },
{
}

/// A file is put where the service says, and nowhere where it says nothing.
pub proof fn law_places_are_resolved(
    response: &GetUploadUrlResponse,
    filekey: &str,
    r: core::result::Result<String, WechatIlinkError>,
)
    requires
        call_ensures(media::resolve_cdn_upload_url, (response, filekey), r),
    ensures
        ({
            let full = transfer_laws::is_given(response.upload_full_url);
            let param = transfer_laws::is_given(response.upload_param);
            &&& r is Ok <==> full || param
            &&& full ==> r is Ok && r->Ok_0@ == response.upload_full_url->0@
            &&& !full && param ==> r is Ok && r->Ok_0@ == "https://novac2c.cdn.weixin.qq.com/c2c"@
                + "/upload?encrypted_query_param="@ + outside::url_encoding(
                response.upload_param->0@,
            ) + "&filekey="@ + outside::url_encoding(filekey@)
            &&& r matches Err(err) ==> err is Media
        }),
{
    transfer_laws::law_upload_places(*response, filekey@);
}

/// Of a message its first image is downloaded, else its first file, its first video or its first voice
/// recording, the first of these that is on the CDN. All but an image need a key.
pub proof fn law_downloads_are_chosen(
    msg: &IncomingMessage,
    r: core::result::Result<Option<DownloadTask<'_>>, WechatIlinkError>,
)
    requires
        call_ensures(media::select_download, (msg,), r),
    ensures
        ({
            let image = msg.images@.len() > 0 && msg.images@[0].media is Some;
            let file = msg.files@.len() > 0 && msg.files@[0].media is Some;
            let video = msg.videos@.len() > 0 && msg.videos@[0].media is Some;
            let voice = msg.voices@.len() > 0 && msg.voices@[0].media is Some;
            &&& image ==> is_task(r, MediaKind::Image, msg.images@[0].media->0)
            &&& !image && file ==> is_task(r, MediaKind::File, msg.files@[0].media->0)
                || lacks_key(r, msg.files@[0].media->0, "file"@)
            &&& !image && !file && video ==> is_task(
                r,
                MediaKind::Video,
                msg.videos@[0].media->0,
            ) || lacks_key(r, msg.videos@[0].media->0, "video"@)
            &&& !image && !file && !video && voice ==> is_task(
                r,
                MediaKind::Voice,
                msg.voices@[0].media->0,
            ) || lacks_key(r, msg.voices@[0].media->0, "voice"@)
            &&& !image && !file && !video && !voice ==> r is Ok && r->Ok_0 is None
            &&& !image && file && r is Ok ==> {
                let name = r->Ok_0->0.file_name;
                name is Some && name->0@ == operation_laws::given_or(
                    msg.files@[0].file_name,
                    "file.bin"@,
                )
            }
            &&& image ==> {
                let own = r->Ok_0->0.aes_key;
                &&& own is Some <==> msg.images@[0].aes_key is Some
                &&& own is Some ==> own->0@ == msg.images@[0].aes_key->0@
            }
        }),
{
    transfer_laws::law_what_is_downloaded(*msg);
    transfer_laws::law_downloads_are_described(*msg);
}

/// Whether this is the download of `media`, which has its key unless it is an image.
pub open spec fn is_task(
    r: core::result::Result<Option<DownloadTask<'_>>, WechatIlinkError>,
    kind: MediaKind,
    media: CDNMedia,
) -> bool {
    &&& r is Ok
    &&& r->Ok_0 is Some
    &&& r->Ok_0->0.kind == kind
    &&& *r->Ok_0->0.media == media
    &&& kind is Image || transfer_laws::is_given(media.aes_key)
}

/// Whether this is the error for `media` without a key.
pub open spec fn lacks_key(
    r: core::result::Result<Option<DownloadTask<'_>>, WechatIlinkError>,
    media: CDNMedia,
    what: Seq<char>,
) -> bool {
    &&& !transfer_laws::is_given(media.aes_key)
    &&& r matches Err(err) && err matches WechatIlinkError::Media(m) && m@ == what
        + " CDN media missing AES key"@
}

/// A download has the data that came, and is called what it is. Voice recordings are in the format
/// `silk`.
pub proof fn law_downloads_are_finished(task: DownloadTask<'_>, data: Vec<u8>, r: DownloadedMedia)
    requires
        call_ensures(DownloadTask::finish, (task, data), r),
    ensures
        r.data@ == data@,
        r.file_name == task.file_name,
        r.media_type@ == match task.kind {
            MediaKind::Image => "image"@,
            MediaKind::File => "file"@,
            MediaKind::Video => "video"@,
            MediaKind::Voice => "voice"@,
        },
        r.format is Some <==> task.kind is Voice,
        r.format is Some ==> r.format->0@ == "silk"@,
{
}

/// Whether an item of this type refers to the file on the CDN under this name.
pub open spec fn refers_to(item: JsonView, number: int, key: Seq<char>, file: UploadResult) -> bool {
    exists|inner: JsonView|
        {
            &&& json_laws::has_fields(item, 2)
            &&& json_laws::has(item, "type"@, JsonView::Integer(number))
            &&& #[trigger] json_laws::has(item, key, inner)
            &&& exists|media: JsonView|
                #![trigger json_laws::has(inner, "media"@, media)]
                json_laws::has(inner, "media"@, media) && is_reference(media, file.media)
        }
}

/// Whether a value tells the parts of a reference to the CDN, each under its name.
pub open spec fn is_reference(value: JsonView, media: CDNMedia) -> bool {
    &&& media.encrypt_query_param is Some ==> json_laws::has(
        value,
        "encrypt_query_param"@,
        JsonView::Text(media.encrypt_query_param->0@),
    )
    &&& media.aes_key is Some ==> json_laws::has(
        value,
        "aes_key"@,
        JsonView::Text(media.aes_key->0@),
    )
    &&& media.encrypt_type is Some ==> json_laws::has(
        value,
        "encrypt_type"@,
        JsonView::Integer(media.encrypt_type->0 as int),
    )
    &&& media.full_url is Some ==> json_laws::has(
        value,
        "full_url"@,
        JsonView::Text(media.full_url->0@),
    )
}

/// The item of a message refers to the file that was uploaded, as what it is.
pub proof fn law_items_are_written(
    kind: &ItemKind,
    file: &UploadResult,
    data_len: usize,
    item: Json,
    reference: Json,
)
    requires
        call_ensures(content::media_item_json, (kind, file, data_len), item),
        call_ensures(messages::cdn_media_json, (&file.media,), reference),
    ensures
        is_reference(reference@, file.media),
        kind is Image ==> refers_to(item@, 2, "image_item"@, *file),
        kind is Video ==> refers_to(item@, 5, "video_item"@, *file),
        kind is File ==> refers_to(item@, 4, "file_item"@, *file),
{
    let media = messages::cdn_media(file.media);
    request_laws::law_references(file.media);
    content_laws::law_items_refer_to_the_data(kind@, *file, data_len as nat);
    assert(is_reference(media, file.media));
    match kind {
        ItemKind::Image => {
            let inner = choose|inner: JsonView|
                #![trigger json_laws::has_fields(inner, 2)]
                json_laws::has(item@, "image_item"@, inner) && json_laws::has_fields(inner, 2)
                    && json_laws::has(inner, "media"@, media) && json_laws::has(
                    inner,
                    "mid_size"@,
                    JsonView::Integer(file.encrypted_file_size as int),
                );
            assert(json_laws::has(inner, "media"@, media));
        },
        ItemKind::Video => {
            let inner = choose|inner: JsonView|
                #![trigger json_laws::has_fields(inner, 2)]
                json_laws::has(item@, "video_item"@, inner) && json_laws::has_fields(inner, 2)
                    && json_laws::has(inner, "media"@, media) && json_laws::has(
                    inner,
                    "video_size"@,
                    JsonView::Integer(file.encrypted_file_size as int),
                );
            assert(json_laws::has(inner, "media"@, media));
        },
        ItemKind::File { file_name } => {
            let inner = choose|inner: JsonView|
                #![trigger json_laws::has_fields(inner, 3)]
                json_laws::has(item@, "file_item"@, inner) && json_laws::has_fields(inner, 3)
                    && json_laws::has(inner, "media"@, media) && json_laws::has(
                    inner,
                    "file_name"@,
                    JsonView::Text(file_name@),
                );
            assert(json_laws::has(inner, "media"@, media));
        },
    }
}

} // verus!
