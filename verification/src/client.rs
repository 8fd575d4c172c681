//! The requests of each operation of the service.

use crate::bot_agent;
use crate::json::{self, Json, JsonView};
use crate::markdown_filter;
use crate::messages;
use crate::protocol::{self, BaseInfo, ILinkClientOptions};
use crate::responses::GetConfigResponse;
use crate::types;
use vstd::prelude::*;

verus! {

/// How long an HTTP client is to wait for a request that has no limit of its own, unless the
/// application brings a client of its own.
pub const DEFAULT_TIMEOUT_SECS: u64 = 45;

/// An HTTP request: a `POST` where it has a body, else a `GET`.
#[derive(Debug)]
pub struct HttpRequest {
    pub url: String,
    /// How long the request may take, where that is not left to the HTTP client.
    pub timeout_secs: Option<u64>,
    pub headers: Vec<(String, String)>,
    pub body: Option<Json>,
}

#[verifier::ext_equal]
pub struct RequestView {
    pub url: Seq<char>,
    pub timeout_secs: Option<u64>,
    pub headers: Seq<(Seq<char>, Seq<char>)>,
    pub body: Option<JsonView>,
}

pub open spec fn header_views(headers: Seq<(String, String)>) -> Seq<(Seq<char>, Seq<char>)> {
    headers.map_values(|h: (String, String)| (h.0@, h.1@))
}

impl View for HttpRequest {
    type V = RequestView;

    open spec fn view(&self) -> RequestView {
        RequestView {
            url: self.url@,
            timeout_secs: self.timeout_secs,
            headers: header_views(self.headers@),
            body: match self.body {
                Some(body) => Some(body@),
                None => None,
            },
        }
    }
}

/// Makes the requests of a client with certain options.
#[derive(Debug)]
pub struct ILinkClient {
    pub options: ILinkClientOptions,
}

/// What a file must tell about itself before it is put on the CDN.
#[derive(Debug)]
pub struct GetUploadUrlParams {
    pub filekey: String,
    pub media_type: i32,
    pub to_user_id: String,
    pub rawsize: usize,
    pub rawfilemd5: String,
    pub filesize: usize,
    pub thumb_rawsize: Option<usize>,
    pub thumb_rawfilemd5: Option<String>,
    pub thumb_filesize: Option<usize>,
    pub no_need_thumb: bool,
    pub aeskey: String,
}

/// What every request says about the client.
pub open spec fn base_info_view(options: ILinkClientOptions) -> JsonView {
    JsonView::Object(
        seq![
            ("channel_version"@, JsonView::Text(protocol::CHANNEL_VERSION@)),
            (
                "bot_agent"@,
                JsonView::Text(bot_agent::sanitized(types::option_view(options.bot_agent))),
            ),
        ],
    )
}

/// The id of the application: the one that was chosen, unless it is empty.
pub open spec fn app_id(options: ILinkClientOptions) -> Seq<char> {
    match options.ilink_app_id {
        Some(id) if id@.len() > 0 => id@,
        _ => protocol::DEFAULT_ILINK_APP_ID@,
    }
}

/// The headers that every request has.
pub open spec fn common_headers_view(options: ILinkClientOptions) -> Seq<(Seq<char>, Seq<char>)> {
    let headers = seq![
        ("iLink-App-Id"@, app_id(options)),
        (
            "iLink-App-ClientVersion"@,
            crate::decimal::decimal(protocol::client_version(protocol::CHANNEL_VERSION@) as nat),
        ),
    ];
    match options.route_tag {
        Some(tag) if tag@.len() > 0 => headers.push(("SKRouteTag"@, tag@)),
        _ => headers,
    }
}

/// A request of a logged-in client.
pub open spec fn post_view(
    options: ILinkClientOptions,
    base_url: Seq<char>,
    endpoint: Seq<char>,
    token: Seq<char>,
    uin: Seq<char>,
    body: JsonView,
    timeout_secs: u64,
) -> RequestView {
    RequestView {
        url: base_url + endpoint,
        timeout_secs: Some(timeout_secs),
        headers: seq![
            ("Content-Type"@, "application/json"@),
            ("AuthorizationType"@, "ilink_bot_token"@),
            ("Authorization"@, "Bearer "@ + token),
            ("X-WECHAT-UIN"@, uin),
        ] + common_headers_view(options),
        body: Some(body),
    }
}

/// Whether `request` is that of a logged-in client, with a random header `X-WECHAT-UIN`.
pub open spec fn is_post(
    request: RequestView,
    options: ILinkClientOptions,
    base_url: Seq<char>,
    endpoint: Seq<char>,
    token: Seq<char>,
    body: JsonView,
    timeout_secs: u64,
) -> bool {
    exists|bytes: Seq<u8>|
        bytes.len() == 4 && request == post_view(
            options,
            base_url,
            endpoint,
            token,
            #[trigger] protocol::uin(bytes),
            body,
            timeout_secs,
        )
}

fn push_header(headers: &mut Vec<(String, String)>, name: &str, value: &str)
    ensures
        header_views(final(headers)@) == header_views(old(headers)@).push((name@, value@)),
{
    headers.push((name.to_owned(), value.to_owned()));
    assert(header_views(headers@) =~= header_views(old(headers)@).push((name@, value@)));
}

/// `info` as it stands in a request.
pub fn base_info_json(info: &BaseInfo) -> (r: Json)
    ensures
        r@ == JsonView::Object(
            seq![("channel_version"@, JsonView::Text(info.channel_version@))]
                + messages::text_field("bot_agent"@, info.bot_agent),
        ),
{
    let mut fields: Vec<(String, Json)> = Vec::new();
    json::put_text(&mut fields, "channel_version", info.channel_version.as_str());
    assert(json::field_views(fields@) =~= seq![
        ("channel_version"@, JsonView::Text(info.channel_version@)),
    ]);
    messages::put_text_field(&mut fields, "bot_agent", &info.bot_agent);
    json::object(fields)
}

impl ILinkClient {
    pub fn new() -> (client: ILinkClient)
        ensures
            client.options.bot_agent is None,
            client.options.route_tag is None,
            client.options.ilink_app_id is None,
            client.options.markdown_filter,
    {
        Self::with_options(ILinkClientOptions::default())
    }

    pub fn with_options(options: ILinkClientOptions) -> (client: ILinkClient)
        ensures
            client.options == options,
    {
        ILinkClient { options }
    }

    /// What every request says about the client.
    pub fn base_info(&self) -> (info: BaseInfo)
        ensures
            info.channel_version@ == protocol::CHANNEL_VERSION@,
            types::option_view(info.bot_agent) == Some(
                bot_agent::sanitized(types::option_view(self.options.bot_agent)),
            ),
    {
        let agent = match &self.options.bot_agent {
            Some(agent) => Some(agent.as_str()),
            None => None,
        };
        BaseInfo {
            channel_version: protocol::CHANNEL_VERSION.to_owned(),
            bot_agent: Some(bot_agent::sanitize_bot_agent(agent)),
        }
    }

    /// The headers that every request has.
    pub fn common_headers(&self) -> (headers: Vec<(String, String)>)
        ensures
            header_views(headers@) == common_headers_view(self.options),
    {
        let mut headers: Vec<(String, String)> = Vec::new();
        self.push_common_headers(&mut headers);
        assert(header_views(headers@) =~= common_headers_view(self.options));
        headers
    }

    fn push_common_headers(&self, headers: &mut Vec<(String, String)>)
        ensures
            header_views(final(headers)@) == header_views(old(headers)@) + common_headers_view(
                self.options,
            ),
    {
        let version = protocol::build_client_version(protocol::CHANNEL_VERSION);
        match &self.options.ilink_app_id {
            Some(id) if !id.as_str().is_empty() => {
                push_header(headers, "iLink-App-Id", id.as_str());
            },
            _ => {
                push_header(headers, "iLink-App-Id", protocol::DEFAULT_ILINK_APP_ID);
            },
        }
        push_header(headers, "iLink-App-ClientVersion", version.as_str());
        if let Some(tag) = &self.options.route_tag {
            if !tag.as_str().is_empty() {
                push_header(headers, "SKRouteTag", tag.as_str());
            }
        }
        assert(header_views(headers@) =~= header_views(old(headers)@) + common_headers_view(
            self.options,
        ));
    }

    /// A request of a logged-in client.
    pub fn api_post_with_uin(
        &self,
        base_url: &str,
        endpoint: &str,
        token: &str,
        uin: &str,
        body: Json,
        timeout_secs: u64,
    ) -> (request: HttpRequest)
        ensures
            request@ == post_view(
                self.options,
                base_url@,
                endpoint@,
                token@,
                uin@,
                body@,
                timeout_secs,
            ),
    {
        let mut headers: Vec<(String, String)> = Vec::new();
        push_header(&mut headers, "Content-Type", "application/json");
        push_header(&mut headers, "AuthorizationType", "ilink_bot_token");
        push_header(&mut headers, "Authorization", "Bearer ".to_owned().concat(token).as_str());
        push_header(&mut headers, "X-WECHAT-UIN", uin);
        assert(header_views(headers@) =~= seq![
            ("Content-Type"@, "application/json"@),
            ("AuthorizationType"@, "ilink_bot_token"@),
            ("Authorization"@, "Bearer "@ + token@),
            ("X-WECHAT-UIN"@, uin@),
        ]);
        self.push_common_headers(&mut headers);
        HttpRequest {
            url: base_url.to_owned().concat(endpoint),
            timeout_secs: Some(timeout_secs),
            headers,
            body: Some(body),
        }
    }

    /// A request of a logged-in client, with a random header `X-WECHAT-UIN`.
    fn api_post(
        &self,
        base_url: &str,
        endpoint: &str,
        token: &str,
        body: Json,
        timeout_secs: u64,
    ) -> (request: HttpRequest)
        ensures
            is_post(
                request@,
                self.options,
                base_url@,
                endpoint@,
                token@,
                body@,
                timeout_secs,
            ),
    {
        let uin = protocol::random_wechat_uin();
        self.api_post_with_uin(base_url, endpoint, token, uin.as_str(), body, timeout_secs)
    }

    /// The object of `fields` and what the client says about itself.
    fn with_base_info(&self, fields: Vec<(String, Json)>) -> (body: Json)
        ensures
            body@ == JsonView::Object(
                json::field_views(fields@).push(("base_info"@, base_info_view(self.options))),
            ),
    {
        let mut fields = fields;
        json::put(&mut fields, "base_info", self.base_info_value());
        json::object(fields)
    }

    /// Asks for a QR code to log in with.
    pub fn get_qr_code(&self, base_url: &str) -> (request: HttpRequest)
        ensures
            request@ == qr_code_view(self.options, base_url@, Seq::empty()),
    {
        let none: Vec<String> = Vec::new();
        assert(text_views(none@) =~= Seq::empty());
        self.get_qr_code_with_local_tokens(base_url, &none)
    }

    /// Asks for a QR code to log in with, and names the tokens that are known already.
    pub fn get_qr_code_with_local_tokens(
        &self,
        base_url: &str,
        local_token_list: &Vec<String>,
    ) -> (request: HttpRequest)
        ensures
            request@ == qr_code_view(self.options, base_url@, text_views(local_token_list@)),
    {
        let mut tokens: Vec<Json> = Vec::new();
        let mut i: usize = 0;
        while i < local_token_list.len()
            invariant
                i <= local_token_list.len(),
                json::item_views(tokens@) == text_views(local_token_list@).take(i as int),
            decreases local_token_list.len() - i,
        {
            let ghost before = json::item_views(tokens@);
            tokens.push(Json::Text(local_token_list[i].clone()));
            assert(json::item_views(tokens@) =~= before.push(
                JsonView::Text(local_token_list@[i as int]@),
            ));
            assert(text_views(local_token_list@).take(i + 1) =~= text_views(
                local_token_list@,
            ).take(i as int).push(JsonView::Text(local_token_list@[i as int]@)));
            i += 1;
        }
        assert(text_views(local_token_list@).take(i as int) =~= text_views(local_token_list@));
        let mut fields: Vec<(String, Json)> = Vec::new();
        json::put(&mut fields, "local_token_list", json::array(tokens));
        let headers = self.common_headers();
        let request = HttpRequest {
            url: base_url.to_owned().concat("/ilink/bot/get_bot_qrcode?bot_type=3"),
            timeout_secs: None,
            headers,
            body: Some(json::object(fields)),
        };
        assert(json::field_views(fields@) =~= seq![
            ("local_token_list"@, JsonView::Array(text_views(local_token_list@))),
        ]);
        request
    }

    /// Asks for the status of a QR code.
    pub fn poll_qr_status(&self, base_url: &str, qrcode: &str) -> (request: HttpRequest)
        ensures
            request@ == qr_status_view(self.options, base_url@, qrcode@, None),
    {
        self.poll_qr_status_with_verify_code(base_url, qrcode, None)
    }

    /// Asks for the status of a QR code, with a verification code where one was typed.
    pub fn poll_qr_status_with_verify_code(
        &self,
        base_url: &str,
        qrcode: &str,
        verify_code: Option<&str>,
    ) -> (request: HttpRequest)
        ensures
            request@ == qr_status_view(
                self.options,
                base_url@,
                qrcode@,
                protocol::str_view(verify_code),
            ),
    {
        HttpRequest {
            url: base_url.to_owned().concat(
                protocol::build_qr_status_endpoint(qrcode, verify_code).as_str(),
            ),
            timeout_secs: Some(35),
            headers: self.common_headers(),
            body: None,
        }
    }

    /// Asks for what has come in since `cursor`.
    pub fn get_updates(&self, base_url: &str, token: &str, cursor: &str) -> (request: HttpRequest)
        ensures
            is_post(
                request@,
                self.options,
                base_url@,
                "/ilink/bot/getupdates"@,
                token@,
                updates_body(self.options, cursor@),
                45,
            ),
    {
        let mut fields: Vec<(String, Json)> = Vec::new();
        json::put_text(&mut fields, "get_updates_buf", cursor);
        let body = self.with_base_info(fields);
        assert(body@->Object_0 =~= updates_body(self.options, cursor@)->Object_0);
        self.api_post(base_url, "/ilink/bot/getupdates", token, body, 45)
    }

    /// Sends `msg`.
    pub fn send_message(&self, base_url: &str, token: &str, msg: Json) -> (request: HttpRequest)
        ensures
            is_post(
                request@,
                self.options,
                base_url@,
                "/ilink/bot/sendmessage"@,
                token@,
                send_body(self.options, msg@),
                15,
            ),
    {
        let mut fields: Vec<(String, Json)> = Vec::new();
        json::put(&mut fields, "msg", msg);
        let body = self.with_base_info(fields);
        assert(body@->Object_0 =~= send_body(self.options, msg@)->Object_0);
        self.api_post(base_url, "/ilink/bot/sendmessage", token, body, 15)
    }

    /// Asks for the settings of a conversation.
    pub fn get_config(&self, base_url: &str, token: &str, user_id: &str, context_token: &str) -> (
    request: HttpRequest)
        ensures
            is_post(
                request@,
                self.options,
                base_url@,
                "/ilink/bot/getconfig"@,
                token@,
                config_body(self.options, user_id@, context_token@),
                15,
            ),
    {
        let mut fields: Vec<(String, Json)> = Vec::new();
        json::put_text(&mut fields, "ilink_user_id", user_id);
        json::put_text(&mut fields, "context_token", context_token);
        let body = self.with_base_info(fields);
        assert(body@->Object_0 =~= config_body(
            self.options,
            user_id@,
            context_token@,
        )->Object_0);
        self.api_post(base_url, "/ilink/bot/getconfig", token, body, 15)
    }

    /// Shows a user that the bot is typing.
    pub fn send_typing(
        &self,
        base_url: &str,
        token: &str,
        user_id: &str,
        ticket: &str,
        status: i32,
    ) -> (request: HttpRequest)
        ensures
            is_post(
                request@,
                self.options,
                base_url@,
                "/ilink/bot/sendtyping"@,
                token@,
                typing_body(self.options, user_id@, ticket@, status as int),
                15,
            ),
    {
        let mut fields: Vec<(String, Json)> = Vec::new();
        json::put_text(&mut fields, "ilink_user_id", user_id);
        json::put_text(&mut fields, "typing_ticket", ticket);
        json::put_integer(&mut fields, "status", status as i128);
        let body = self.with_base_info(fields);
        assert(body@->Object_0 =~= typing_body(
            self.options,
            user_id@,
            ticket@,
            status as int,
        )->Object_0);
        self.api_post(base_url, "/ilink/bot/sendtyping", token, body, 15)
    }

    /// Shows a user that the bot is typing, where `config` brings the ticket for it.
    pub fn typing_after_config(
        &self,
        base_url: &str,
        token: &str,
        user_id: &str,
        config: &GetConfigResponse,
    ) -> (r: Option<HttpRequest>)
        ensures
            match (r, config.typing_ticket) {
                (Some(request), Some(ticket)) => is_post(
                    request@,
                    self.options,
                    base_url@,
                    "/ilink/bot/sendtyping"@,
                    token@,
                    typing_body(self.options, user_id@, ticket@, 1),
                    15,
                ),
                (None, None) => true,
                _ => false,
            },
    {
        match &config.typing_ticket {
            Some(ticket) => Some(
                self.send_typing(base_url, token, user_id, ticket.as_str(), 1),
            ),
            None => None,
        }
    }

    /// Tells that the client starts to poll.
    pub fn notify_start(&self, base_url: &str, token: &str) -> (request: HttpRequest)
        ensures
            is_post(
                request@,
                self.options,
                base_url@,
                "/ilink/bot/msg/notifystart"@,
                token@,
                notify_body(self.options),
                10,
            ),
    {
        let body = self.with_base_info(Vec::new());
        assert(body@->Object_0 =~= notify_body(self.options)->Object_0);
        self.api_post(base_url, "/ilink/bot/msg/notifystart", token, body, 10)
    }

    /// Tells that the client stops polling.
    pub fn notify_stop(&self, base_url: &str, token: &str) -> (request: HttpRequest)
        ensures
            is_post(
                request@,
                self.options,
                base_url@,
                "/ilink/bot/msg/notifystop"@,
                token@,
                notify_body(self.options),
                10,
            ),
    {
        let body = self.with_base_info(Vec::new());
        assert(body@->Object_0 =~= notify_body(self.options)->Object_0);
        self.api_post(base_url, "/ilink/bot/msg/notifystop", token, body, 10)
    }

    /// Asks where a file can be put on the CDN.
    pub fn get_upload_url(&self, base_url: &str, token: &str, params: &GetUploadUrlParams) -> (
    request: HttpRequest)
        ensures
            is_post(
                request@,
                self.options,
                base_url@,
                "/ilink/bot/getuploadurl"@,
                token@,
                upload_url_body(self.options, *params),
                15,
            ),
    {
        let mut fields: Vec<(String, Json)> = Vec::new();
        json::put_text(&mut fields, "filekey", params.filekey.as_str());
        json::put_integer(&mut fields, "media_type", params.media_type as i128);
        json::put_text(&mut fields, "to_user_id", params.to_user_id.as_str());
        json::put_integer(&mut fields, "rawsize", params.rawsize as i128);
        json::put_text(&mut fields, "rawfilemd5", params.rawfilemd5.as_str());
        json::put_integer(&mut fields, "filesize", params.filesize as i128);
        json::put(&mut fields, "no_need_thumb", Json::Bool(params.no_need_thumb));
        json::put_text(&mut fields, "aeskey", params.aeskey.as_str());
        json::put(&mut fields, "base_info", self.base_info_value());
        if let Some(n) = params.thumb_rawsize {
            json::put_integer(&mut fields, "thumb_rawsize", n as i128);
        }
        messages::put_text_field(&mut fields, "thumb_rawfilemd5", &params.thumb_rawfilemd5);
        if let Some(n) = params.thumb_filesize {
            json::put_integer(&mut fields, "thumb_filesize", n as i128);
        }
        assert(json::field_views(fields@) =~= upload_url_body(self.options, *params)->Object_0);
        self.api_post(base_url, "/ilink/bot/getuploadurl", token, json::object(fields), 15)
    }

    fn base_info_value(&self) -> (r: Json)
        ensures
            r@ == base_info_view(self.options),
    {
        let info = base_info_json(&self.base_info());
        assert(info@->Object_0 =~= base_info_view(self.options)->Object_0);
        info
    }

    /// A message that carries `text`, filtered where the options say so.
    pub fn build_text_message_with_client_id(
        &self,
        user_id: &str,
        context_token: &str,
        text: &str,
        client_id: &str,
    ) -> (msg: Json)
        requires
            self.options.markdown_filter ==> markdown_filter::filtered(text@) is Some,
        ensures
            msg@ == messages::text_message(
                user_id@,
                context_token@,
                sent_text(self.options, text@),
                client_id@,
            ),
    {
        if self.options.markdown_filter {
            messages::build_text_message_with_client_id(user_id, context_token, text, client_id)
        } else {
            messages::build_text_message_payload(user_id, context_token, text, client_id)
        }
    }
}

pub open spec fn text_views(texts: Seq<String>) -> Seq<JsonView> {
    texts.map_values(|t: String| JsonView::Text(t@))
}

/// The text that is sent for `text`.
pub open spec fn sent_text(options: ILinkClientOptions, text: Seq<char>) -> Seq<char> {
    if options.markdown_filter {
        markdown_filter::filtered(text)->0
    } else {
        text
    }
}

/// The request for a QR code.
pub open spec fn qr_code_view(
    options: ILinkClientOptions,
    base_url: Seq<char>,
    tokens: Seq<JsonView>,
) -> RequestView {
    RequestView {
        url: base_url + "/ilink/bot/get_bot_qrcode?bot_type=3"@,
        timeout_secs: None,
        headers: common_headers_view(options),
        body: Some(JsonView::Object(seq![("local_token_list"@, JsonView::Array(tokens))])),
    }
}

/// The request for the status of a QR code.
pub open spec fn qr_status_view(
    options: ILinkClientOptions,
    base_url: Seq<char>,
    qrcode: Seq<char>,
    verify_code: Option<Seq<char>>,
) -> RequestView {
    RequestView {
        url: base_url + protocol::qr_status_endpoint(qrcode, verify_code),
        timeout_secs: Some(35),
        headers: common_headers_view(options),
        body: None,
    }
}

pub open spec fn updates_body(options: ILinkClientOptions, cursor: Seq<char>) -> JsonView {
    JsonView::Object(
        seq![
            ("get_updates_buf"@, JsonView::Text(cursor)),
            ("base_info"@, base_info_view(options)),
        ],
    )
}

pub open spec fn send_body(options: ILinkClientOptions, msg: JsonView) -> JsonView {
    JsonView::Object(seq![("msg"@, msg), ("base_info"@, base_info_view(options))])
}

pub open spec fn config_body(
    options: ILinkClientOptions,
    user_id: Seq<char>,
    context_token: Seq<char>,
) -> JsonView {
    JsonView::Object(
        seq![
            ("ilink_user_id"@, JsonView::Text(user_id)),
            ("context_token"@, JsonView::Text(context_token)),
            ("base_info"@, base_info_view(options)),
        ],
    )
}

pub open spec fn typing_body(
    options: ILinkClientOptions,
    user_id: Seq<char>,
    ticket: Seq<char>,
    status: int,
) -> JsonView {
    JsonView::Object(
        seq![
            ("ilink_user_id"@, JsonView::Text(user_id)),
            ("typing_ticket"@, JsonView::Text(ticket)),
            ("status"@, JsonView::Integer(status)),
            ("base_info"@, base_info_view(options)),
        ],
    )
}

pub open spec fn notify_body(options: ILinkClientOptions) -> JsonView {
    JsonView::Object(seq![("base_info"@, base_info_view(options))])
}

pub open spec fn size_view(size: Option<usize>) -> Option<int> {
    match size {
        Some(n) => Some(n as int),
        None => None,
    }
}

pub open spec fn upload_url_body(options: ILinkClientOptions, params: GetUploadUrlParams) -> JsonView {
    JsonView::Object(
        seq![
            ("filekey"@, JsonView::Text(params.filekey@)),
            ("media_type"@, JsonView::Integer(params.media_type as int)),
            ("to_user_id"@, JsonView::Text(params.to_user_id@)),
            ("rawsize"@, JsonView::Integer(params.rawsize as int)),
            ("rawfilemd5"@, JsonView::Text(params.rawfilemd5@)),
            ("filesize"@, JsonView::Integer(params.filesize as int)),
            ("no_need_thumb"@, JsonView::Bool(params.no_need_thumb)),
            ("aeskey"@, JsonView::Text(params.aeskey@)),
            ("base_info"@, base_info_view(options)),
        ] + messages::integer_field("thumb_rawsize"@, size_view(params.thumb_rawsize))
            + messages::text_field("thumb_rawfilemd5"@, params.thumb_rawfilemd5)
            + messages::integer_field("thumb_filesize"@, size_view(params.thumb_filesize)),
    )
}

} // verus!
