//! What the requests of each operation say, over the arguments of the operation.

use crate::bot_agent;
use crate::client;
use crate::client::{GetUploadUrlParams, HttpRequest, ILinkClient};
use crate::json::{Json, JsonView};
use crate::json_laws;
use crate::messages;
use crate::outside;
use crate::protocol;
use crate::protocol::ILinkClientOptions;
use crate::request_laws;
use crate::responses::GetConfigResponse;
use vstd::prelude::*;

verus! {

/// Whether a request has this header.
pub open spec fn has_header(request: HttpRequest, name: Seq<char>, value: Seq<char>) -> bool {
    exists|i: int|
        0 <= i < request.headers@.len() && (#[trigger] request.headers@[i]).0@ == name
            && request.headers@[i].1@ == value
}

/// Whether a request tells who sends it: the application, the version and the route.
pub open spec fn is_signed(request: HttpRequest, options: ILinkClientOptions) -> bool {
    let id = options.ilink_app_id;
    let tag = options.route_tag;
    &&& id is Some && id->0@.len() > 0 ==> has_header(request, "iLink-App-Id"@, id->0@)
    &&& id is None || id->0@.len() == 0 ==> has_header(request, "iLink-App-Id"@, "bot"@)
    &&& has_header(request, "iLink-App-ClientVersion"@, seq!['1', '0', '2', '4'])
    &&& tag is Some && tag->0@.len() > 0 ==> has_header(request, "SKRouteTag"@, tag->0@)
}

/// Whether a request is one of a logged-in client.
pub open spec fn is_authorized(
    request: HttpRequest,
    options: ILinkClientOptions,
    url: Seq<char>,
    token: Seq<char>,
    timeout_secs: u64,
) -> bool {
    &&& request.url@ == url
    &&& request.timeout_secs == Some(timeout_secs)
    &&& request.body is Some
    &&& has_header(request, "Content-Type"@, "application/json"@)
    &&& has_header(request, "AuthorizationType"@, "ilink_bot_token"@)
    &&& has_header(request, "Authorization"@, "Bearer "@ + token)
    &&& is_signed(request, options)
}

/// Whether a body tells which library sends it, and for which bot.
pub open spec fn names_the_bot(body: JsonView, options: ILinkClientOptions) -> bool {
    exists|info: JsonView|
        {
            &&& json_laws::has(body, "base_info"@, info)
            &&& #[trigger] json_laws::has_fields(info, 2)
            &&& json_laws::has(info, "channel_version"@, JsonView::Text("0.4.0"@))
            &&& json_laws::has(
                info,
                "bot_agent"@,
                JsonView::Text(
                    bot_agent::sanitized(
                        if options.bot_agent is Some {
                            Some(options.bot_agent->0@)
                        } else {
                            None
                        },
                    ),
                ),
            )
        }
}

proof fn lemma_header(request: HttpRequest, name: Seq<char>, value: Seq<char>)
    requires
        request_laws::has_header(request@, name, value),
    ensures
        has_header(request, name, value),
{
    let views = client::header_views(request.headers@);
    let i = choose|i: int| 0 <= i < views.len() && views[i] == (name, value);
    assert(views[i] == (request.headers@[i].0@, request.headers@[i].1@));
}

proof fn lemma_common(request: HttpRequest, options: ILinkClientOptions, from: int)
    requires
        0 <= from <= request.headers@.len(),
        client::header_views(request.headers@).skip(from) == client::common_headers_view(options),
    ensures
        is_signed(request, options),
{
    let views = client::header_views(request.headers@);
    let common = client::RequestView {
        headers: client::common_headers_view(options),
        ..request@
    };
    request_laws::law_common_headers(options, common);
    assert forall|name: Seq<char>, value: Seq<char>| #[trigger]
        request_laws::has_header(common, name, value) implies has_header(request, name, value) by {
        let i = choose|i: int| 0 <= i < common.headers.len() && common.headers[i] == (name, value);
        assert(views.skip(from)[i] == views[from + i]);
        assert(views[from + i] == (request.headers@[from + i].0@, request.headers@[from + i].1@));
    }
}

pub proof fn lemma_post(
    request: HttpRequest,
    options: ILinkClientOptions,
    base_url: Seq<char>,
    endpoint: Seq<char>,
    token: Seq<char>,
    body: JsonView,
    timeout_secs: u64,
)
    requires
        client::is_post(request@, options, base_url, endpoint, token, body, timeout_secs),
    ensures
        is_authorized(request, options, base_url + endpoint, token, timeout_secs),
        request.body->0@ == body,
{
    request_laws::law_posts(request@, options, base_url, endpoint, token, body, timeout_secs);
    lemma_header(request, "Content-Type"@, "application/json"@);
    lemma_header(request, "AuthorizationType"@, "ilink_bot_token"@);
    lemma_header(request, "Authorization"@, "Bearer "@ + token);
    lemma_common(request, options, 4);
}

proof fn lemma_names_the_bot(body: JsonView, options: ILinkClientOptions)
    requires
        json_laws::has(body, "base_info"@, client::base_info_view(options)),
    ensures
        names_the_bot(body, options),
{
    request_laws::law_base_info(options);
    crate::bot_agent_laws::law_other_words_are_left_out(Seq::empty(), Seq::empty(), Seq::empty());
}

/// A client polls for messages with its cursor.
pub proof fn law_polls(
    c: &ILinkClient,
    base_url: &str,
    token: &str,
    cursor: &str,
    request: HttpRequest,
)
    requires
        call_ensures(ILinkClient::get_updates, (c, base_url, token, cursor), request),
    ensures
        is_authorized(request, c.options, base_url@ + "/ilink/bot/getupdates"@, token@, 45),
        json_laws::has(request.body->0@, "get_updates_buf"@, JsonView::Text(cursor@)),
        json_laws::has_fields(request.body->0@, 2),
        names_the_bot(request.body->0@, c.options),
{
    let body = client::updates_body(c.options, cursor@);
    lemma_post(request, c.options, base_url@, "/ilink/bot/getupdates"@, token@, body, 45);
    request_laws::law_bodies(c.options, cursor@, body, cursor@, cursor@, cursor@, 0);
    lemma_names_the_bot(body, c.options);
}

/// A client sends a message as it is.
pub proof fn law_sends(
    c: &ILinkClient,
    base_url: &str,
    token: &str,
    msg: Json,
    request: HttpRequest,
)
    requires
        call_ensures(ILinkClient::send_message, (c, base_url, token, msg), request),
    ensures
        is_authorized(request, c.options, base_url@ + "/ilink/bot/sendmessage"@, token@, 15),
        json_laws::has(request.body->0@, "msg"@, msg@),
        json_laws::has_fields(request.body->0@, 2),
        names_the_bot(request.body->0@, c.options),
{
    let body = client::send_body(c.options, msg@);
    let e = Seq::<char>::empty();
    lemma_post(request, c.options, base_url@, "/ilink/bot/sendmessage"@, token@, body, 15);
    request_laws::law_bodies(c.options, e, msg@, e, e, e, 0);
    lemma_names_the_bot(body, c.options);
}

/// A client asks for the settings of a conversation.
pub proof fn law_asks_for_settings(
    c: &ILinkClient,
    base_url: &str,
    token: &str,
    user_id: &str,
    context_token: &str,
    request: HttpRequest,
)
    requires
        call_ensures(
            ILinkClient::get_config,
            (c, base_url, token, user_id, context_token),
            request,
        ),
    ensures
        is_authorized(request, c.options, base_url@ + "/ilink/bot/getconfig"@, token@, 15),
        json_laws::has(request.body->0@, "ilink_user_id"@, JsonView::Text(user_id@)),
        json_laws::has(request.body->0@, "context_token"@, JsonView::Text(context_token@)),
        json_laws::has_fields(request.body->0@, 3),
        names_the_bot(request.body->0@, c.options),
{
    let body = client::config_body(c.options, user_id@, context_token@);
    let e = Seq::<char>::empty();
    lemma_post(request, c.options, base_url@, "/ilink/bot/getconfig"@, token@, body, 15);
    request_laws::law_bodies(c.options, e, body, user_id@, context_token@, e, 0);
    lemma_names_the_bot(body, c.options);
}

/// Whether a request shows a user whether the bot is typing.
pub open spec fn shows_typing(
    request: HttpRequest,
    c: ILinkClient,
    base_url: Seq<char>,
    token: Seq<char>,
    user_id: Seq<char>,
    ticket: Seq<char>,
    status: int,
) -> bool {
    &&& is_authorized(request, c.options, base_url + "/ilink/bot/sendtyping"@, token, 15)
    &&& json_laws::has(request.body->0@, "ilink_user_id"@, JsonView::Text(user_id))
    &&& json_laws::has(request.body->0@, "typing_ticket"@, JsonView::Text(ticket))
    &&& json_laws::has(request.body->0@, "status"@, JsonView::Integer(status))
    &&& json_laws::has_fields(request.body->0@, 4)
    &&& names_the_bot(request.body->0@, c.options)
}

proof fn lemma_typing(
    request: HttpRequest,
    c: ILinkClient,
    base_url: Seq<char>,
    token: Seq<char>,
    user_id: Seq<char>,
    ticket: Seq<char>,
    status: int,
)
    requires
        client::is_post(
            request@,
            c.options,
            base_url,
            "/ilink/bot/sendtyping"@,
            token,
            client::typing_body(c.options, user_id, ticket, status),
            15,
        ),
    ensures
        shows_typing(request, c, base_url, token, user_id, ticket, status),
{
    let body = client::typing_body(c.options, user_id, ticket, status);
    let e = Seq::<char>::empty();
    lemma_post(request, c.options, base_url, "/ilink/bot/sendtyping"@, token, body, 15);
    request_laws::law_bodies(c.options, e, body, user_id, e, ticket, status);
    lemma_names_the_bot(body, c.options);
}

/// A client shows a user whether it is typing, with the ticket of the conversation.
pub proof fn law_shows_typing(
    c: &ILinkClient,
    base_url: &str,
    token: &str,
    user_id: &str,
    ticket: &str,
    status: i32,
    request: HttpRequest,
)
    requires
        call_ensures(
            ILinkClient::send_typing,
            (c, base_url, token, user_id, ticket, status),
            request,
        ),
    ensures
        shows_typing(request, *c, base_url@, token@, user_id@, ticket@, status as int),
{
    lemma_typing(request, *c, base_url@, token@, user_id@, ticket@, status as int);
}

/// With settings that bring a ticket a client shows that it is typing, and else it does nothing.
pub proof fn law_shows_typing_with_a_ticket(
    c: &ILinkClient,
    base_url: &str,
    token: &str,
    user_id: &str,
    config: &GetConfigResponse,
    request: Option<HttpRequest>,
)
    requires
        call_ensures(
            ILinkClient::typing_after_config,
            (c, base_url, token, user_id, config),
            request,
        ),
    ensures
        request is Some <==> config.typing_ticket is Some,
        request is Some ==> shows_typing(
            request->0,
            *c,
            base_url@,
            token@,
            user_id@,
            config.typing_ticket->0@,
            1,
        ),
{
    if request is Some {
        lemma_typing(
            request->0,
            *c,
            base_url@,
            token@,
            user_id@,
            config.typing_ticket->0@,
            1,
        );
    }
}

/// A client says when it starts and when it stops.
pub proof fn law_says_when_it_runs(
    c: &ILinkClient,
    base_url: &str,
    token: &str,
    started: HttpRequest,
    stopped: HttpRequest,
)
    requires
        call_ensures(ILinkClient::notify_start, (c, base_url, token), started),
        call_ensures(ILinkClient::notify_stop, (c, base_url, token), stopped),
    ensures
        is_authorized(started, c.options, base_url@ + "/ilink/bot/msg/notifystart"@, token@, 10),
        json_laws::has_fields(started.body->0@, 1),
        names_the_bot(started.body->0@, c.options),
        is_authorized(stopped, c.options, base_url@ + "/ilink/bot/msg/notifystop"@, token@, 10),
        json_laws::has_fields(stopped.body->0@, 1),
        names_the_bot(stopped.body->0@, c.options),
{
    let body = client::notify_body(c.options);
    let e = Seq::<char>::empty();
    lemma_post(started, c.options, base_url@, "/ilink/bot/msg/notifystart"@, token@, body, 10);
    lemma_post(stopped, c.options, base_url@, "/ilink/bot/msg/notifystop"@, token@, body, 10);
    request_laws::law_bodies(c.options, e, body, e, e, e, 0);
    lemma_names_the_bot(body, c.options);
}

/// A client asks where a file can be put, and tells of the file what there is to tell.
pub proof fn law_asks_for_a_place(
    c: &ILinkClient,
    base_url: &str,
    token: &str,
    params: &GetUploadUrlParams,
    request: HttpRequest,
)
    requires
        call_ensures(ILinkClient::get_upload_url, (c, base_url, token, params), request),
    ensures
        is_authorized(request, c.options, base_url@ + "/ilink/bot/getuploadurl"@, token@, 15),
        names_the_bot(request.body->0@, c.options),
        ({
            let body = request.body->0@;
            &&& json_laws::has(body, "filekey"@, JsonView::Text(params.filekey@))
            &&& json_laws::has(body, "media_type"@, JsonView::Integer(params.media_type as int))
            &&& json_laws::has(body, "to_user_id"@, JsonView::Text(params.to_user_id@))
            &&& json_laws::has(body, "rawsize"@, JsonView::Integer(params.rawsize as int))
            &&& json_laws::has(body, "rawfilemd5"@, JsonView::Text(params.rawfilemd5@))
            &&& json_laws::has(body, "filesize"@, JsonView::Integer(params.filesize as int))
            &&& json_laws::has(body, "no_need_thumb"@, JsonView::Bool(params.no_need_thumb))
            &&& json_laws::has(body, "aeskey"@, JsonView::Text(params.aeskey@))
        }),
{
    let body = client::upload_url_body(c.options, *params);
    lemma_post(request, c.options, base_url@, "/ilink/bot/getuploadurl"@, token@, body, 15);
    request_laws::law_upload_requests(c.options, *params);
    lemma_names_the_bot(body, c.options);
}

/// Requests of a login carry no token. A QR code is asked for with the tokens of earlier logins, and
/// its status with the code that was typed.
pub proof fn law_login_requests(
    c: &ILinkClient,
    base_url: &str,
    tokens: &Vec<String>,
    qrcode: &str,
    typed: Option<&str>,
    code: HttpRequest,
    known: HttpRequest,
    status: HttpRequest,
    verified: HttpRequest,
)
    requires
        call_ensures(ILinkClient::get_qr_code, (c, base_url), code),
        call_ensures(ILinkClient::get_qr_code_with_local_tokens, (c, base_url, tokens), known),
        call_ensures(ILinkClient::poll_qr_status, (c, base_url, qrcode), status),
        call_ensures(
            ILinkClient::poll_qr_status_with_verify_code,
            (c, base_url, qrcode, typed),
            verified,
        ),
    ensures
        code.url@ == base_url@ + "/ilink/bot/get_bot_qrcode?bot_type=3"@,
        code.body is Some,
        json_laws::has(code.body->0@, "local_token_list"@, JsonView::Array(Seq::empty())),
        known.url@ == base_url@ + "/ilink/bot/get_bot_qrcode?bot_type=3"@,
        known.body is Some,
        json_laws::has(
            known.body->0@,
            "local_token_list"@,
            JsonView::Array(
                Seq::new(tokens@.len(), |i: int| JsonView::Text(tokens@[i]@)),
            ),
        ),
        status.url@ == base_url@ + ("/ilink/bot/get_qrcode_status?qrcode="@
            + outside::url_encoding(qrcode@)),
        status.body is None,
        status.timeout_secs == Some(35u64),
        typed is Some && typed->0@.len() > 0 ==> verified.url@ == base_url@ + (
        "/ilink/bot/get_qrcode_status?qrcode="@ + outside::url_encoding(qrcode@) + "&verify_code="@
            + outside::url_encoding(typed->0@)),
        typed is None || typed->0@.len() == 0 ==> verified.url@ == status.url@,
        verified.body is None,
        verified.timeout_secs == Some(35u64),
        is_signed(code, c.options),
        is_signed(known, c.options),
        is_signed(status, c.options),
        is_signed(verified, c.options),
{
    let e = Seq::<JsonView>::empty();
    let all = client::text_views(tokens@);
    let code_typed = protocol::str_view(typed);
    request_laws::law_login_requests(c.options, base_url@, e, qrcode@, None);
    request_laws::law_login_requests(c.options, base_url@, all, qrcode@, code_typed);
    assert(all =~= Seq::new(tokens@.len(), |i: int| JsonView::Text(tokens@[i]@)));
    assert(client::header_views(code.headers@).skip(0) =~= client::header_views(code.headers@));
    assert(client::header_views(known.headers@).skip(0) =~= client::header_views(known.headers@));
    assert(client::header_views(status.headers@).skip(0) =~= client::header_views(status.headers@));
    assert(client::header_views(verified.headers@).skip(0) =~= client::header_views(
        verified.headers@,
    ));
    lemma_common(code, c.options, 0);
    lemma_common(known, c.options, 0);
    lemma_common(status, c.options, 0);
    lemma_common(verified, c.options, 0);
}

/// Whether a message from the bot carries this text to a user.
pub open spec fn is_text_message(
    msg: JsonView,
    user_id: Seq<char>,
    context_token: Seq<char>,
    s: Seq<char>,
    client_id: Seq<char>,
) -> bool {
    exists|item: JsonView, inner: JsonView|
        {
            &&& request_laws::is_message(msg, user_id, context_token, seq![item], client_id)
            &&& #[trigger] json_laws::has_fields(item, 3)
            &&& json_laws::has(item, "type"@, JsonView::Integer(1))
            &&& json_laws::has(item, "msg_id"@, JsonView::Text(client_id))
            &&& json_laws::has(item, "text_item"@, inner)
            &&& #[trigger] json_laws::has_fields(inner, 1)
            &&& json_laws::has(inner, "text"@, JsonView::Text(s))
        }
}

/// A message carries the text as it is where nothing filters it, and else what is shown of it.
pub proof fn law_messages_carry_the_text(
    c: &ILinkClient,
    user_id: &str,
    context_token: &str,
    s: &str,
    client_id: &str,
    payload: Json,
    filtered: Json,
    chosen: Json,
    shown: Seq<char>,
)
    requires
        call_ensures(
            messages::build_text_message_payload,
            (user_id, context_token, s, client_id),
            payload,
        ),
        call_ensures(
            messages::build_text_message_with_client_id,
            (user_id, context_token, s, client_id),
            filtered,
        ),
        call_ensures(
            ILinkClient::build_text_message_with_client_id,
            (c, user_id, context_token, s, client_id),
            chosen,
        ),
        crate::markdown_filter::filtered(s@) == Some(shown),
    ensures
        is_text_message(payload@, user_id@, context_token@, s@, client_id@),
        is_text_message(filtered@, user_id@, context_token@, shown, client_id@),
        is_text_message(
            chosen@,
            user_id@,
            context_token@,
            if c.options.markdown_filter {
                shown
            } else {
                s@
            },
            client_id@,
        ),
{
    request_laws::law_text_messages(user_id@, context_token@, s@, client_id@);
    request_laws::law_text_messages(user_id@, context_token@, shown, client_id@);
    request_laws::law_sent_text(c.options, s@);
}

} // verus!
