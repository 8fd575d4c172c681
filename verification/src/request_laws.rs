//! What requests and messages hold.

use crate::bot_agent;
use crate::client;
use crate::client::{GetUploadUrlParams, RequestView};
use crate::decimal;
use crate::json::JsonView;
use crate::json_laws;
use crate::messages;
use crate::protocol;
use crate::protocol::ILinkClientOptions;
use crate::types::CDNMedia;
use vstd::prelude::*;

verus! {

/// Whether a request has this header, and no other value under its name.
pub open spec fn has_header(request: RequestView, name: Seq<char>, value: Seq<char>) -> bool {
    &&& request.headers.contains((name, value))
    &&& forall|i: int|
        0 <= i < request.headers.len() && (#[trigger] request.headers[i]).0 == name
            ==> request.headers[i].1 == value
}

pub open spec fn lacks_header(request: RequestView, name: Seq<char>) -> bool {
    forall|i: int| 0 <= i < request.headers.len() ==> (#[trigger] request.headers[i]).0 != name
}

pub open spec fn is_chosen(value: Option<String>) -> bool {
    value is Some && value->0@.len() > 0
}

proof fn lemma_header_names()
    ensures
        "iLink-App-Id"@.len() == 12,
        "iLink-App-ClientVersion"@.len() == 23,
        "SKRouteTag"@.len() == 10,
        "Content-Type"@.len() == 12,
        "Content-Type"@[0] == 'C',
        "iLink-App-Id"@[0] == 'i',
        "AuthorizationType"@.len() == 17,
        "Authorization"@.len() == 13,
        "X-WECHAT-UIN"@.len() == 12,
        "X-WECHAT-UIN"@[0] == 'X',
{
    reveal_strlit("iLink-App-Id");
    reveal_strlit("iLink-App-ClientVersion");
    reveal_strlit("SKRouteTag");
    reveal_strlit("Content-Type");
    reveal_strlit("AuthorizationType");
    reveal_strlit("Authorization");
    reveal_strlit("X-WECHAT-UIN");
}

proof fn lemma_version()
    ensures
        protocol::client_version(protocol::CHANNEL_VERSION@) == 1024,
        decimal::decimal(1024) == seq!['1', '0', '2', '4'],
{
    reveal_strlit("0.4.0");
    crate::protocol_laws::law_versions_are_packed(0, 4, 0);
    assert(decimal::decimal(0) =~= seq!['0']);
    assert(decimal::decimal(4) =~= seq!['4']);
    assert("0.4.0"@ =~= decimal::decimal(0) + seq!['.'] + (decimal::decimal(4) + seq!['.']
        + decimal::decimal(0)));
    reveal_with_fuel(decimal::decimal, 5);
    assert(decimal::decimal(1) =~= seq!['1']);
    assert(decimal::decimal(10) =~= seq!['1', '0']);
    assert(decimal::decimal(102) =~= seq!['1', '0', '2']);
    assert(decimal::decimal(1024) =~= seq!['1', '0', '2', '4']);
}

/// Every request tells the id of the application, which is `bot` unless another one was chosen, the
/// version of this library, and the route where one was chosen.
pub proof fn law_common_headers(options: ILinkClientOptions, request: RequestView)
    requires
        request.headers == client::common_headers_view(options),
    ensures
        is_chosen(options.ilink_app_id) ==> has_header(
            request,
            "iLink-App-Id"@,
            options.ilink_app_id->0@,
        ),
        !is_chosen(options.ilink_app_id) ==> has_header(request, "iLink-App-Id"@, "bot"@),
        has_header(request, "iLink-App-ClientVersion"@, seq!['1', '0', '2', '4']),
        is_chosen(options.route_tag) ==> has_header(request, "SKRouteTag"@, options.route_tag->0@)
            && request.headers.len() == 3,
        !is_chosen(options.route_tag) ==> request.headers.len() == 2,
{
    lemma_header_names();
    lemma_version();
    let headers = request.headers;
    assert(headers.contains(headers[0]) && headers.contains(headers[1]));
    if is_chosen(options.route_tag) {
        assert(headers.contains(headers[2]));
    }
}

/// A request of a logged-in client goes to the address of the service with its own path, carries the
/// token, the body and a header of its own, may take as long as it says, and tells what every request
/// tells.
pub proof fn law_posts(
    request: RequestView,
    options: ILinkClientOptions,
    base_url: Seq<char>,
    endpoint: Seq<char>,
    token: Seq<char>,
    body: JsonView,
    timeout_secs: u64,
)
    requires
        client::is_post(request, options, base_url, endpoint, token, body, timeout_secs),
    ensures
        request.url == base_url + endpoint,
        request.timeout_secs == Some(timeout_secs),
        request.body == Some(body),
        has_header(request, "Content-Type"@, "application/json"@),
        has_header(request, "AuthorizationType"@, "ilink_bot_token"@),
        has_header(request, "Authorization"@, "Bearer "@ + token),
        exists|bytes: Seq<u8>|
            bytes.len() == 4 && has_header(
                request,
                "X-WECHAT-UIN"@,
                #[trigger] protocol::uin(bytes),
            ),
        request.headers.len() == 4 + client::common_headers_view(options).len(),
        request.headers.skip(4) == client::common_headers_view(options),
{
    lemma_header_names();
    let bytes = choose|bytes: Seq<u8>|
        bytes.len() == 4 && request == client::post_view(
            options,
            base_url,
            endpoint,
            token,
            #[trigger] protocol::uin(bytes),
            body,
            timeout_secs,
        );
    let headers = request.headers;
    let common = client::common_headers_view(options);
    assert(headers.skip(4) =~= common);
    assert(headers.contains(headers[0]) && headers.contains(headers[1]) && headers.contains(
        headers[2],
    ) && headers.contains(headers[3]));
    assert(headers.len() == 4 + common.len());
    assert(headers[4] == common[0] && headers[5] == common[1]);
    assert(common.len() == 3 ==> headers[6] == common[2]);
    assert(has_header(request, "X-WECHAT-UIN"@, protocol::uin(bytes)));
}

proof fn lemma_body_names()
    ensures
        "base_info"@.len() == 9,
        "base_info"@[0] == 'b',
        "get_updates_buf"@.len() == 15,
        "msg"@.len() == 3,
        "ilink_user_id"@.len() == 13,
        "ilink_user_id"@[0] == 'i',
        "context_token"@.len() == 13,
        "context_token"@[0] == 'c',
        "typing_ticket"@.len() == 13,
        "typing_ticket"@[0] == 't',
        "status"@.len() == 6,
        "channel_version"@.len() == 15,
        "bot_agent"@.len() == 9,
        "local_token_list"@.len() == 16,
{
    reveal_strlit("base_info");
    reveal_strlit("get_updates_buf");
    reveal_strlit("msg");
    reveal_strlit("ilink_user_id");
    reveal_strlit("context_token");
    reveal_strlit("typing_ticket");
    reveal_strlit("status");
    reveal_strlit("channel_version");
    reveal_strlit("bot_agent");
    reveal_strlit("local_token_list");
}

proof fn lemma_fields(object: JsonView)
    requires
        object is Object,
    ensures
        forall|i: int|
            0 <= i < object->Object_0.len() ==> object->Object_0.contains(
                #[trigger] object->Object_0[i],
            ),
{
}

/// What every request says about the client: the version of the library and the name.
pub proof fn law_base_info(options: ILinkClientOptions)
    ensures
        ({
            let info = client::base_info_view(options);
            &&& json_laws::has_fields(info, 2)
            &&& json_laws::has(info, "channel_version"@, JsonView::Text("0.4.0"@))
            &&& options.bot_agent is Some ==> json_laws::has(
                info,
                "bot_agent"@,
                JsonView::Text(bot_agent::sanitized(Some(options.bot_agent->0@))),
            )
            &&& options.bot_agent is None ==> json_laws::has(
                info,
                "bot_agent"@,
                JsonView::Text("OpenClaw"@),
            )
        }),
{
    lemma_body_names();
    lemma_fields(client::base_info_view(options));
}

/// The bodies of requests carry what they were given, each under its own name, and what every
/// request says about the client.
pub proof fn law_bodies(
    options: ILinkClientOptions,
    cursor: Seq<char>,
    msg: JsonView,
    user_id: Seq<char>,
    context_token: Seq<char>,
    ticket: Seq<char>,
    status: int,
)
    ensures
        ({
            let info = client::base_info_view(options);
            let updates = client::updates_body(options, cursor);
            let send = client::send_body(options, msg);
            let config = client::config_body(options, user_id, context_token);
            let typing = client::typing_body(options, user_id, ticket, status);
            let notify = client::notify_body(options);
            &&& json_laws::has_fields(updates, 2)
            &&& json_laws::has(updates, "get_updates_buf"@, JsonView::Text(cursor))
            &&& json_laws::has(updates, "base_info"@, info)
            &&& json_laws::has_fields(send, 2)
            &&& json_laws::has(send, "msg"@, msg)
            &&& json_laws::has(send, "base_info"@, info)
            &&& json_laws::has_fields(config, 3)
            &&& json_laws::has(config, "ilink_user_id"@, JsonView::Text(user_id))
            &&& json_laws::has(config, "context_token"@, JsonView::Text(context_token))
            &&& json_laws::has(config, "base_info"@, info)
            &&& json_laws::has_fields(typing, 4)
            &&& json_laws::has(typing, "ilink_user_id"@, JsonView::Text(user_id))
            &&& json_laws::has(typing, "typing_ticket"@, JsonView::Text(ticket))
            &&& json_laws::has(typing, "status"@, JsonView::Integer(status))
            &&& json_laws::has(typing, "base_info"@, info)
            &&& json_laws::has_fields(notify, 1)
            &&& json_laws::has(notify, "base_info"@, info)
        }),
{
    lemma_body_names();
    lemma_fields(client::updates_body(options, cursor));
    lemma_fields(client::send_body(options, msg));
    lemma_fields(client::config_body(options, user_id, context_token));
    lemma_fields(client::typing_body(options, user_id, ticket, status));
    lemma_fields(client::notify_body(options));
    let updates = client::updates_body(options, cursor)->Object_0;
    assert(updates.contains(updates[0]) && updates.contains(updates[1]));
    let send = client::send_body(options, msg)->Object_0;
    assert(send.contains(send[0]) && send.contains(send[1]));
    let config = client::config_body(options, user_id, context_token)->Object_0;
    assert(config.contains(config[0]) && config.contains(config[1]) && config.contains(config[2]));
    let typing = client::typing_body(options, user_id, ticket, status)->Object_0;
    assert(typing.contains(typing[0]) && typing.contains(typing[1]) && typing.contains(typing[2])
        && typing.contains(typing[3]));
    let notify = client::notify_body(options)->Object_0;
    assert(notify.contains(notify[0]));
}

/// The requests of a login: a QR code is asked for with the tokens that are known, and its status
/// under its own address. Neither carries a token of its own.
pub proof fn law_login_requests(
    options: ILinkClientOptions,
    base_url: Seq<char>,
    tokens: Seq<JsonView>,
    qrcode: Seq<char>,
    verify_code: Option<Seq<char>>,
)
    ensures
        ({
            let code = client::qr_code_view(options, base_url, tokens);
            let status = client::qr_status_view(options, base_url, qrcode, verify_code);
            &&& code.url == base_url + "/ilink/bot/get_bot_qrcode?bot_type=3"@
            &&& code.timeout_secs is None
            &&& code.headers == client::common_headers_view(options)
            &&& code.body is Some
            &&& json_laws::has_fields(code.body->0, 1)
            &&& json_laws::has(code.body->0, "local_token_list"@, JsonView::Array(tokens))
            &&& status.url == base_url + protocol::qr_status_endpoint(qrcode, verify_code)
            &&& status.timeout_secs == Some(35u64)
            &&& status.headers == client::common_headers_view(options)
            &&& status.body is None
            &&& lacks_header(code, "Authorization"@)
            &&& lacks_header(status, "Authorization"@)
        }),
{
    lemma_body_names();
    lemma_header_names();
    let fields = client::qr_code_view(options, base_url, tokens).body->0->Object_0;
    assert(fields.contains(fields[0]));
}

proof fn lemma_upload_names()
    ensures
        "filekey"@.len() == 7,
        "media_type"@.len() == 10,
        "media_type"@[0] == 'm',
        "to_user_id"@.len() == 10,
        "to_user_id"@[0] == 't',
        "rawsize"@.len() == 7,
        "rawsize"@[0] == 'r',
        "filekey"@[0] == 'f',
        "rawfilemd5"@.len() == 10,
        "rawfilemd5"@[0] == 'r',
        "filesize"@.len() == 8,
        "no_need_thumb"@.len() == 13,
        "aeskey"@.len() == 6,
        "base_info"@.len() == 9,
        "thumb_rawsize"@.len() == 13,
        "thumb_rawsize"@[0] == 't',
        "no_need_thumb"@[0] == 'n',
        "thumb_rawfilemd5"@.len() == 16,
        "thumb_filesize"@.len() == 14,
{
    reveal_strlit("filekey");
    reveal_strlit("media_type");
    reveal_strlit("to_user_id");
    reveal_strlit("rawsize");
    reveal_strlit("rawfilemd5");
    reveal_strlit("filesize");
    reveal_strlit("no_need_thumb");
    reveal_strlit("aeskey");
    reveal_strlit("base_info");
    reveal_strlit("thumb_rawsize");
    reveal_strlit("thumb_rawfilemd5");
    reveal_strlit("thumb_filesize");
}

/// What a file tells about itself stands in the request for a place on the CDN, each part under its
/// own name; what it does not tell is left out.
pub proof fn law_upload_requests(options: ILinkClientOptions, params: GetUploadUrlParams)
    ensures
        ({
            let body = client::upload_url_body(options, params);
            &&& json_laws::has(body, "filekey"@, JsonView::Text(params.filekey@))
            &&& json_laws::has(body, "media_type"@, JsonView::Integer(params.media_type as int))
            &&& json_laws::has(body, "to_user_id"@, JsonView::Text(params.to_user_id@))
            &&& json_laws::has(body, "rawsize"@, JsonView::Integer(params.rawsize as int))
            &&& json_laws::has(body, "rawfilemd5"@, JsonView::Text(params.rawfilemd5@))
            &&& json_laws::has(body, "filesize"@, JsonView::Integer(params.filesize as int))
            &&& json_laws::has(body, "no_need_thumb"@, JsonView::Bool(params.no_need_thumb))
            &&& json_laws::has(body, "aeskey"@, JsonView::Text(params.aeskey@))
            &&& json_laws::has(body, "base_info"@, client::base_info_view(options))
            &&& params.thumb_rawsize is Some ==> json_laws::has(
                body,
                "thumb_rawsize"@,
                JsonView::Integer(params.thumb_rawsize->0 as int),
            )
            &&& params.thumb_rawsize is None ==> json_laws::lacks(body, "thumb_rawsize"@)
            &&& params.thumb_rawfilemd5 is Some ==> json_laws::has(
                body,
                "thumb_rawfilemd5"@,
                JsonView::Text(params.thumb_rawfilemd5->0@),
            )
            &&& params.thumb_rawfilemd5 is None ==> json_laws::lacks(body, "thumb_rawfilemd5"@)
            &&& params.thumb_filesize is Some ==> json_laws::has(
                body,
                "thumb_filesize"@,
                JsonView::Integer(params.thumb_filesize->0 as int),
            )
            &&& params.thumb_filesize is None ==> json_laws::lacks(body, "thumb_filesize"@)
        }),
{
    lemma_upload_names();
    let body = client::upload_url_body(options, params);
    let fields = body->Object_0;
    lemma_fields(body);
    assert forall|i: int| 0 <= i < fields.len() implies fields.contains(#[trigger] fields[i]) by {}
    assert(fields.contains(fields[0]) && fields.contains(fields[1]) && fields.contains(fields[2])
        && fields.contains(fields[3]) && fields.contains(fields[4]) && fields.contains(fields[5])
        && fields.contains(fields[6]) && fields.contains(fields[7]) && fields.contains(fields[8]));
    let n: int = 9;
    let a: int = if params.thumb_rawsize is Some {
        1
    } else {
        0
    };
    let b: int = if params.thumb_rawfilemd5 is Some {
        1
    } else {
        0
    };
    if params.thumb_rawsize is Some {
        assert(fields.contains(fields[n]));
    }
    if params.thumb_rawfilemd5 is Some {
        assert(fields.contains(fields[n + a]));
    }
    if params.thumb_filesize is Some {
        assert(fields.contains(fields[n + a + b]));
    }
}

proof fn lemma_message_names()
    ensures
        "from_user_id"@.len() == 12,
        "to_user_id"@.len() == 10,
        "client_id"@.len() == 9,
        "client_id"@[0] == 'c',
        "item_list"@.len() == 9,
        "item_list"@[0] == 'i',
        "message_type"@.len() == 12,
        "message_type"@[0] == 'm',
        "from_user_id"@[0] == 'f',
        "message_state"@.len() == 13,
        "message_state"@[0] == 'm',
        "context_token"@.len() == 13,
        "context_token"@[0] == 'c',
        "type"@.len() == 4,
        "msg_id"@.len() == 6,
        "text_item"@.len() == 9,
        "text"@.len() == 4,
        "encrypt_query_param"@.len() == 19,
        "aes_key"@.len() == 7,
        "encrypt_type"@.len() == 12,
        "full_url"@.len() == 8,
{
    reveal_strlit("from_user_id");
    reveal_strlit("to_user_id");
    reveal_strlit("client_id");
    reveal_strlit("item_list");
    reveal_strlit("message_type");
    reveal_strlit("message_state");
    reveal_strlit("context_token");
    reveal_strlit("type");
    reveal_strlit("msg_id");
    reveal_strlit("text_item");
    reveal_strlit("text");
    reveal_strlit("encrypt_query_param");
    reveal_strlit("aes_key");
    reveal_strlit("encrypt_type");
    reveal_strlit("full_url");
}

/// Whether `message` is one from the bot to this user, in this context, under this id, with these
/// items, and nothing else.
pub open spec fn is_message(
    message: JsonView,
    user_id: Seq<char>,
    context_token: Seq<char>,
    items: Seq<JsonView>,
    client_id: Seq<char>,
) -> bool {
    &&& json_laws::has_fields(message, 7)
    &&& json_laws::has(message, "from_user_id"@, JsonView::Text(Seq::empty()))
    &&& json_laws::has(message, "to_user_id"@, JsonView::Text(user_id))
    &&& json_laws::has(message, "client_id"@, JsonView::Text(client_id))
    &&& json_laws::has(message, "message_type"@, JsonView::Integer(2))
    &&& json_laws::has(message, "message_state"@, JsonView::Integer(2))
    &&& json_laws::has(message, "context_token"@, JsonView::Text(context_token))
    &&& json_laws::has(message, "item_list"@, JsonView::Array(items))
}

proof fn lemma_message(
    user_id: Seq<char>,
    context_token: Seq<char>,
    items: Seq<JsonView>,
    client_id: Seq<char>,
)
    ensures
        is_message(
            messages::message(user_id, context_token, items, client_id),
            user_id,
            context_token,
            items,
            client_id,
        ),
{
    lemma_message_names();
    reveal_strlit("");
    assert(""@ =~= Seq::<char>::empty());
    let fields = messages::message(user_id, context_token, items, client_id)->Object_0;
    assert(fields.contains(fields[0]) && fields.contains(fields[1]) && fields.contains(fields[2])
        && fields.contains(fields[3]) && fields.contains(fields[4]) && fields.contains(fields[5])
        && fields.contains(fields[6]));
}

/// A text message goes to the user, in the context, under the id, and carries the text in its only
/// item, which goes by the same id.
pub proof fn law_text_messages(
    user_id: Seq<char>,
    context_token: Seq<char>,
    s: Seq<char>,
    client_id: Seq<char>,
)
    ensures
        exists|item: JsonView, inner: JsonView|
            {
                &&& is_message(
                    messages::text_message(user_id, context_token, s, client_id),
                    user_id,
                    context_token,
                    seq![item],
                    client_id,
                )
                &&& #[trigger] json_laws::has_fields(item, 3)
                &&& json_laws::has(item, "type"@, JsonView::Integer(1))
                &&& json_laws::has(item, "msg_id"@, JsonView::Text(client_id))
                &&& json_laws::has(item, "text_item"@, inner)
                &&& #[trigger] json_laws::has_fields(inner, 1)
                &&& json_laws::has(inner, "text"@, JsonView::Text(s))
            },
{
    lemma_message_names();
    let item = messages::text_item(s, client_id);
    lemma_message(user_id, context_token, seq![item], client_id);
    let fields = item->Object_0;
    assert(fields.contains(fields[0]) && fields.contains(fields[1]) && fields.contains(fields[2]));
    let inner = fields[2].1;
    assert(inner->Object_0.contains(inner->Object_0[0]));
    assert(json_laws::has_fields(item, 3));
    assert(json_laws::has_fields(inner, 1));
}

/// A media message carries all the items it was given, in order: as they are where they have an id of
/// their own, and else with the id of the message added to their fields.
pub proof fn law_media_messages(
    user_id: Seq<char>,
    context_token: Seq<char>,
    given: Seq<JsonView>,
    client_id: Seq<char>,
)
    ensures
        exists|items: Seq<JsonView>|
            {
                &&& #[trigger] is_message(
                    messages::media_message(user_id, context_token, given, client_id),
                    user_id,
                    context_token,
                    items,
                    client_id,
                )
                &&& items.len() == given.len()
                &&& forall|i: int|
                    0 <= i < given.len() ==> {
                        let item = #[trigger] given[i];
                        if json_laws::lacks(item, "msg_id"@) {
                            &&& json_laws::has(items[i], "msg_id"@, JsonView::Text(client_id))
                            &&& items[i]->Object_0.drop_last() == item->Object_0
                        } else {
                            items[i] == item
                        }
                    }
            },
{
    lemma_message_names();
    let items = given.map_values(|item: JsonView| messages::with_msg_id(item, client_id));
    lemma_message(user_id, context_token, items, client_id);
    assert forall|i: int| 0 <= i < given.len() implies {
        let item = #[trigger] given[i];
        if json_laws::lacks(item, "msg_id"@) {
            &&& json_laws::has(items[i], "msg_id"@, JsonView::Text(client_id))
            &&& items[i]->Object_0.drop_last() == item->Object_0
        } else {
            items[i] == item
        }
    } by {
        let item = given[i];
        if item is Object {
            let fields = item->Object_0;
            if json_laws::lacks(item, "msg_id"@) {
                json_laws::law_fields_are_found(fields, "msg_id"@, 0);
                assert(item == JsonView::Object(fields));
                let with = items[i]->Object_0;
                assert(with == fields.push(("msg_id"@, JsonView::Text(client_id))));
                assert(with.contains(with[fields.len() as int]));
                assert(with.drop_last() =~= fields);
                assert forall|k: int| 0 <= k < with.len() && (#[trigger] with[k]).0 == "msg_id"@ implies with[k].1
                    == JsonView::Text(client_id) by {
                    if k < fields.len() {
                        assert(item->Object_0[k].0 != "msg_id"@);
                    }
                }
            } else {
                lemma_found(fields, "msg_id"@);
            }
        }
    }
}

proof fn lemma_found(fields: Seq<(Seq<char>, JsonView)>, key: Seq<char>)
    requires
        !json_laws::lacks(JsonView::Object(fields), key),
    ensures
        crate::json::lookup(fields, key) is Some,
    decreases fields.len(),
{
    let object = JsonView::Object(fields);
    let i = choose|i: int| 0 <= i < object->Object_0.len() && (#[trigger] object->Object_0[i]).0 == key;
    if fields[0].0 != key {
        let rest = fields.drop_first();
        assert(JsonView::Object(rest)->Object_0[i - 1].0 == key);
        lemma_found(rest, key);
    }
}

/// A reference to a file on the CDN has a field for each part that is there, and no other.
pub proof fn law_references(media: CDNMedia)
    ensures
        ({
            let json = messages::cdn_media(media);
            &&& media.encrypt_query_param is Some ==> json_laws::has(
                json,
                "encrypt_query_param"@,
                JsonView::Text(media.encrypt_query_param->0@),
            )
            &&& media.encrypt_query_param is None ==> json_laws::lacks(json, "encrypt_query_param"@)
            &&& media.aes_key is Some ==> json_laws::has(
                json,
                "aes_key"@,
                JsonView::Text(media.aes_key->0@),
            )
            &&& media.aes_key is None ==> json_laws::lacks(json, "aes_key"@)
            &&& media.encrypt_type is Some ==> json_laws::has(
                json,
                "encrypt_type"@,
                JsonView::Integer(media.encrypt_type->0 as int),
            )
            &&& media.encrypt_type is None ==> json_laws::lacks(json, "encrypt_type"@)
            &&& media.full_url is Some ==> json_laws::has(
                json,
                "full_url"@,
                JsonView::Text(media.full_url->0@),
            )
            &&& media.full_url is None ==> json_laws::lacks(json, "full_url"@)
        }),
{
    lemma_message_names();
    let fields = messages::cdn_media(media)->Object_0;
    let a: int = if media.encrypt_query_param is Some {
        1
    } else {
        0
    };
    let b: int = if media.aes_key is Some {
        1
    } else {
        0
    };
    let c: int = if media.encrypt_type is Some {
        1
    } else {
        0
    };
    if media.encrypt_query_param is Some {
        assert(fields.contains(fields[0]));
    }
    if media.aes_key is Some {
        assert(fields.contains(fields[a]));
    }
    if media.encrypt_type is Some {
        assert(fields.contains(fields[a + b]));
    }
    if media.full_url is Some {
        assert(fields.contains(fields[a + b + c]));
    }
}

/// Text is sent as it is shown where Markdown is filtered, and else as it is.
pub proof fn law_sent_text(options: ILinkClientOptions, s: Seq<char>)
    ensures
        !options.markdown_filter ==> client::sent_text(options, s) == s,
        options.markdown_filter && crate::markdown_filter::filtered(s) is Some ==> Some(
            client::sent_text(options, s),
        ) == crate::markdown_filter::filtered(s),
{
}

} // verus!
