use wechat_ilink::bot_agent::sanitize_bot_agent;
use wechat_ilink::client::HttpRequest;
use wechat_ilink::protocol::{
    self, build_client_version, build_media_message, build_media_message_with_client_id,
    build_qr_status_endpoint, build_text_message, build_text_message_with_client_id, check_reply,
    check_reply_fields, check_updates, random_wechat_uin, wechat_uin, ApiReply,
    ILinkClientOptions, CHANNEL_VERSION,
};
use wechat_ilink::responses::{empty_updates_response, wait_qr_status_response};
use wechat_ilink::time::Duration;
use wechat_ilink::{
    GetConfigResponse, GetUploadUrlParams, ILinkClient, Json, WechatIlinkError,
};

fn with_agent(agent: &str) -> ILinkClient {
    ILinkClient::with_options(ILinkClientOptions {
        bot_agent: Some(agent.to_string()),
        ..ILinkClientOptions::default()
    })
}

fn header<'a>(request: &'a HttpRequest, name: &str) -> Option<&'a str> {
    request
        .headers
        .iter()
        .find(|h| h.0 == name)
        .map(|h| h.1.as_str())
}

fn text_of<'a>(msg: &'a Json) -> Option<&'a str> {
    msg.get("item_list")?
        .item(0)?
        .get("text_item")?
        .get("text")?
        .as_str()
}

#[test]
fn base_info_preserves_bot_agent_when_configured() {
    let client = with_agent("Amux/0.1");

    let base_info = client.base_info();
    assert_eq!(base_info.channel_version, CHANNEL_VERSION);
    assert_eq!(base_info.bot_agent.as_deref(), Some("Amux/0.1"));
}

#[test]
fn base_info_defaults_bot_agent() {
    let client = ILinkClient::new();

    let base_info = client.base_info();
    assert_eq!(base_info.bot_agent.as_deref(), Some("OpenClaw"));
}

#[test]
fn base_info_sanitizes_bot_agent() {
    let client = with_agent(" Amux/0.1\tBad Agent\r\n");

    let base_info = client.base_info();
    assert_eq!(base_info.bot_agent.as_deref(), Some("Amux/0.1"));
}

#[test]
fn base_info_preserves_valid_bot_agent_comment() {
    let client = with_agent("Amux/0.1 (worker channel) Other/2.0");

    let base_info = client.base_info();
    assert_eq!(
        base_info.bot_agent.as_deref(),
        Some("Amux/0.1 (worker channel) Other/2.0")
    );
}

#[test]
fn a_name_that_was_sent_is_sent_again() {
    let long = "name/1.0 (a comment of some length) ".repeat(20);
    let cases = [
        ("a/1 (x  y) junk (z) b/2", "a/1 (x y) b/2"),
        ("a/1 ( ) b/2 ( c )", "a/1 ( ) b/2 ( c )"),
        ("nothing", "OpenClaw"),
        (long.as_str(), &long[..251]),
    ];
    for (raw, sent) in cases {
        assert_eq!(sanitize_bot_agent(Some(raw)), sent);
        assert_eq!(sanitize_bot_agent(Some(sent)), sent);
    }
}

#[test]
fn bot_agent_edge_cases() {
    assert_eq!(sanitize_bot_agent(None), "OpenClaw");
    assert_eq!(sanitize_bot_agent(Some("  \t")), "OpenClaw");
    assert_eq!(sanitize_bot_agent(Some("no-slash")), "OpenClaw");
    assert_eq!(sanitize_bot_agent(Some("a/1/2")), "OpenClaw");
    assert_eq!(sanitize_bot_agent(Some("/1 a/ b/2")), "b/2");
    assert_eq!(sanitize_bot_agent(Some("a/1 () b/2")), "a/1 b/2");
    assert_eq!(sanitize_bot_agent(Some("a/1 (x (y) b/2")), "a/1 b/2");
    assert_eq!(sanitize_bot_agent(Some("a/1 (open b/2")), "a/1");
    assert_eq!(sanitize_bot_agent(Some("(x) a/1+b (y)")), "a/1+b (y)");
    assert_eq!(sanitize_bot_agent(Some("a/1 (x) (y)")), "a/1 (x)");
    assert_eq!(sanitize_bot_agent(Some("a/ü b/1")), "b/1");
    let name32 = "n".repeat(32);
    let name33 = "n".repeat(33);
    assert_eq!(
        sanitize_bot_agent(Some(&format!("{name32}/1 {name33}/1"))),
        format!("{name32}/1")
    );
}

#[test]
fn bot_agent_is_cut_after_whole_products() {
    let product = format!("{}/{}", "n".repeat(31), "v".repeat(32));
    assert_eq!(product.len(), 64);
    let raw = vec![product.as_str(); 6].join(" ");
    let kept = sanitize_bot_agent(Some(&raw));
    assert_eq!(kept, vec![product.as_str(); 3].join(" "));
    assert!(kept.len() <= 256);
}

#[test]
fn empty_updates_response_preserves_cursor() {
    let response = empty_updates_response("cursor-1");

    assert_eq!(response.ret, 0);
    assert!(response.msgs.is_empty());
    assert_eq!(response.get_updates_buf, "cursor-1");
}

#[test]
fn send_message_rejects_nonzero_ret_response() {
    match check_reply(200, r#"{"ret":40003,"errmsg":"invalid context_token"}"#) {
        Err(WechatIlinkError::Api {
            message,
            http_status,
            errcode,
        }) => {
            assert_eq!(message, "invalid context_token");
            assert_eq!(http_status, 200);
            assert_eq!(errcode, 40003);
        }
        other => panic!("expected API error, got {other:?}"),
    }
}

#[test]
fn send_message_maps_ret_minus_two_to_rate_limited() {
    match check_reply(200, r#"{"ret":-2}"#) {
        Err(WechatIlinkError::RateLimited {
            retry_after,
            message,
            http_status,
            errcode,
        }) => {
            assert_eq!(retry_after, Duration::from_secs(90));
            assert_eq!(message, "ret=-2");
            assert_eq!(http_status, 200);
            assert_eq!(errcode, -2);
        }
        other => panic!("expected rate limit error, got {other:?}"),
    }
}

fn api_error(status: u16, body: &str) -> (String, u16, i32) {
    match check_reply(status, body) {
        Err(WechatIlinkError::Api {
            message,
            http_status,
            errcode,
        }) => (message, http_status, errcode),
        other => panic!("expected API error, got {other:?}"),
    }
}

#[test]
fn replies_are_read_as_json() {
    assert!(check_reply(200, "{}").is_ok());
    assert!(check_reply(200, "").is_ok());
    assert!(check_reply(200, "not json").is_ok());
    assert!(check_reply(399, r#"{"ret":0,"errcode":0}"#).is_ok());
    assert!(check_reply(200, r#"{"ret":"7"}"#).is_ok());
    assert_eq!(
        api_error(200, r#"{"errcode":5,"ret":-2,"message":"m"}"#),
        ("m".to_string(), 200, 5)
    );
    assert_eq!(
        api_error(200, r#"{"errcode":0,"ret":7}"#),
        ("ret=7".to_string(), 200, 7)
    );
    assert_eq!(
        api_error(500, r#"{"errcode":9,"errmsg":"e","message":"m"}"#),
        ("e".to_string(), 500, 9)
    );
    assert_eq!(api_error(502, "Bad Gateway"), ("Bad Gateway".to_string(), 502, 0));
    assert_eq!(api_error(404, "  "), ("ret=0".to_string(), 404, 0));
    assert_eq!(api_error(404, " {} "), ("ret=0".to_string(), 404, 0));
    assert_eq!(api_error(200, r#"{"ret":4294967297}"#).2, 1);
}

#[test]
fn reply_fields_decide() {
    let reply = ApiReply {
        errcode: None,
        ret: Some(-2),
        errmsg: Some("slow".to_string()),
        message: None,
    };
    let err = check_reply_fields(200, "body", &reply).unwrap_err();
    assert!(err.is_rate_limited());
    let reply = ApiReply {
        errcode: Some(0),
        ret: Some(0),
        errmsg: Some("ok".to_string()),
        message: None,
    };
    assert!(check_reply_fields(200, "body", &reply).is_ok());
    assert!(check_reply_fields(400, "body", &reply).is_err());
}

#[test]
fn updates_report_their_errors() {
    let mut response = empty_updates_response("c");
    assert!(check_updates(&response).is_ok());
    response.errcode = Some(0);
    assert!(check_updates(&response).is_ok());
    response.ret = 3;
    match check_updates(&response) {
        Err(WechatIlinkError::Api { message, errcode, http_status }) => {
            assert_eq!(message, "ret=3");
            assert_eq!(errcode, 0);
            assert_eq!(http_status, 200);
        }
        _ => panic!("expected an API error"),
    }
    response.ret = 0;
    response.errcode = Some(-2);
    response.errmsg = Some("slow down".to_string());
    match check_updates(&response) {
        Err(WechatIlinkError::RateLimited { message, .. }) => assert_eq!(message, "slow down"),
        _ => panic!("expected a rate limit"),
    }
}

#[test]
fn qr_status_endpoint_includes_verify_code_when_present() {
    let endpoint = build_qr_status_endpoint("qr value", Some("12 34"));

    assert_eq!(
        endpoint,
        "/ilink/bot/get_qrcode_status?qrcode=qr%20value&verify_code=12%2034"
    );
}

#[test]
fn qr_status_endpoint_without_verify_code() {
    assert_eq!(
        build_qr_status_endpoint("a-_.~b/c?ü", Some("")),
        "/ilink/bot/get_qrcode_status?qrcode=a-_.~b%2Fc%3F%C3%BC"
    );
    assert_eq!(
        build_qr_status_endpoint("", None),
        "/ilink/bot/get_qrcode_status?qrcode="
    );
}

#[test]
fn wait_qr_status_response_is_wait() {
    let response = wait_qr_status_response();

    assert_eq!(response.status, "wait");
    assert!(response.bot_token.is_none());
}

#[test]
fn common_headers_preserve_route_tag_when_configured() {
    let client = ILinkClient::with_options(ILinkClientOptions {
        route_tag: Some("route-a".to_string()),
        ..ILinkClientOptions::default()
    });

    let request = client.poll_qr_status("https://example.test", "qr");
    assert_eq!(header(&request, "SKRouteTag"), Some("route-a"));
}

#[test]
fn common_headers_use_configured_ilink_app_id() {
    let client = ILinkClient::with_options(ILinkClientOptions {
        ilink_app_id: Some("custom-app".to_string()),
        ..ILinkClientOptions::default()
    });

    let request = client.poll_qr_status("https://example.test", "qr");
    assert_eq!(header(&request, "iLink-App-Id"), Some("custom-app"));
}

#[test]
fn common_headers_default() {
    let client = ILinkClient::with_options(ILinkClientOptions {
        ilink_app_id: Some(String::new()),
        route_tag: Some(String::new()),
        ..ILinkClientOptions::default()
    });
    assert_eq!(
        client.common_headers(),
        vec![
            ("iLink-App-Id".to_string(), "bot".to_string()),
            ("iLink-App-ClientVersion".to_string(), "1024".to_string()),
        ]
    );
}

#[test]
fn client_version_packs_three_bytes() {
    assert_eq!(build_client_version("0.4.0"), "1024");
    assert_eq!(build_client_version("1.2.3"), "66051");
    assert_eq!(build_client_version("1.2.3-beta"), "66048");
    assert_eq!(build_client_version("257.0.+5"), "65541");
    assert_eq!(build_client_version("x.1"), "65536");
    assert_eq!(build_client_version("4294967296.1"), "65536");
    assert_eq!(build_client_version(""), "0");
}

#[test]
fn uin_is_base64_of_decimal() {
    // 0x00000000 is "0", 0x01020304 is "16909060", and the largest is "4294967295".
    assert_eq!(wechat_uin(&vec![0, 0, 0, 0]), "MA==");
    assert_eq!(wechat_uin(&vec![1, 2, 3, 4]), "MTY5MDkwNjA=");
    assert_eq!(wechat_uin(&vec![255, 255, 255, 255]), "NDI5NDk2NzI5NQ==");
    let random = random_wechat_uin();
    assert!(random.len() >= 4 && random.len() % 4 == 0);
}

#[test]
fn text_message_builder_can_disable_markdown_filter() {
    let client = ILinkClient::with_options(ILinkClientOptions {
        markdown_filter: false,
        ..ILinkClientOptions::default()
    });

    let msg = client.build_text_message_with_client_id("user-1", "ctx-1", "# title", "msg-1");
    assert_eq!(text_of(&msg), Some("# title"));
}

#[test]
fn text_message_builder_filters_by_default() {
    let msg = ILinkClient::new().build_text_message_with_client_id("u", "c", "*em*", "m");
    assert_eq!(text_of(&msg), Some("em"));
}

#[test]
fn outbound_message_builders_accept_caller_supplied_client_id() {
    let text =
        build_text_message_with_client_id("user-1", "ctx-1", "agent output", "outbound-text-1");
    assert_eq!(text.get("client_id").unwrap().as_str(), Some("outbound-text-1"));
    let item = text.get("item_list").unwrap().item(0).unwrap();
    assert_eq!(item.get("msg_id").unwrap().as_str(), Some("outbound-text-1"));
    assert_eq!(text_of(&text), Some("agent output"));

    let media = build_media_message_with_client_id(
        "user-1",
        "ctx-1",
        vec![Json::Object(vec![
            ("type".to_string(), Json::Integer(1)),
            (
                "text_item".to_string(),
                Json::Object(vec![("text".to_string(), Json::Text("caption".to_string()))]),
            ),
        ])],
        "outbound-media-1",
    );
    assert_eq!(media.get("client_id").unwrap().as_str(), Some("outbound-media-1"));
    let item = media.get("item_list").unwrap().item(0).unwrap();
    assert_eq!(item.get("msg_id").unwrap().as_str(), Some("outbound-media-1"));
    assert_eq!(text_of(&media), Some("caption"));
}

#[test]
fn media_items_keep_their_own_id() {
    let media = build_media_message_with_client_id(
        "u",
        "c",
        vec![
            Json::Object(vec![("msg_id".to_string(), Json::Integer(7))]),
            Json::Null,
        ],
        "id",
    );
    let items = media.get("item_list").unwrap();
    assert_eq!(items.item(0).unwrap().get("msg_id"), Some(&Json::Integer(7)));
    assert_eq!(items.item(1), Some(&Json::Null));
    assert_eq!(items.item(2), None);
    assert_eq!(media.get("to_user_id").unwrap().as_str(), Some("u"));
    assert_eq!(media.get("from_user_id").unwrap().as_str(), Some(""));
    assert_eq!(media.get("context_token").unwrap().as_str(), Some("c"));
    assert_eq!(media.get("message_type"), Some(&Json::Integer(2)));
    assert_eq!(media.get("message_state"), Some(&Json::Integer(2)));
}

fn assert_is_uuid(id: &str) {
    assert_eq!(id.len(), 36);
    for (i, c) in id.chars().enumerate() {
        if i == 8 || i == 13 || i == 18 || i == 23 {
            assert_eq!(c, '-');
        } else {
            assert!(matches!(c, '0'..='9' | 'a'..='f'));
        }
    }
    assert_eq!(id.as_bytes()[14], b'4');
    assert!(matches!(id.as_bytes()[19], b'8' | b'9' | b'a' | b'b'));
}

#[test]
fn message_ids_are_random_uuids() {
    let first = build_text_message("u", "c", "t");
    let second = build_media_message("u", "c", Vec::new());
    let a = first.get("client_id").unwrap().as_str().unwrap().to_string();
    let b = second.get("client_id").unwrap().as_str().unwrap().to_string();
    assert_is_uuid(&a);
    assert_is_uuid(&b);
    assert_ne!(a, b);
}

#[test]
fn upload_params_preserve_current_typescript_sdk_thumbnail_fields() {
    let params = GetUploadUrlParams {
        filekey: "file-key".to_string(),
        media_type: 1,
        to_user_id: "user-1".to_string(),
        rawsize: 100,
        rawfilemd5: "raw-md5".to_string(),
        filesize: 128,
        thumb_rawsize: Some(50),
        thumb_rawfilemd5: Some("thumb-md5".to_string()),
        thumb_filesize: Some(64),
        no_need_thumb: false,
        aeskey: "aes-key".to_string(),
    };

    assert_eq!(params.thumb_rawsize, Some(50));
    assert_eq!(params.thumb_rawfilemd5.as_deref(), Some("thumb-md5"));
    assert_eq!(params.thumb_filesize, Some(64));

    let request = ILinkClient::new().get_upload_url("https://base", "token", &params);
    assert_eq!(request.url, "https://base/ilink/bot/getuploadurl");
    assert_eq!(request.timeout_secs, Some(15));
    let body = request.body.unwrap();
    assert_eq!(body.get("filekey").unwrap().as_str(), Some("file-key"));
    assert_eq!(body.get("media_type"), Some(&Json::Integer(1)));
    assert_eq!(body.get("to_user_id").unwrap().as_str(), Some("user-1"));
    assert_eq!(body.get("rawsize"), Some(&Json::Integer(100)));
    assert_eq!(body.get("rawfilemd5").unwrap().as_str(), Some("raw-md5"));
    assert_eq!(body.get("filesize"), Some(&Json::Integer(128)));
    assert_eq!(body.get("thumb_rawsize"), Some(&Json::Integer(50)));
    assert_eq!(body.get("thumb_rawfilemd5").unwrap().as_str(), Some("thumb-md5"));
    assert_eq!(body.get("thumb_filesize"), Some(&Json::Integer(64)));
    assert_eq!(body.get("no_need_thumb"), Some(&Json::Bool(false)));
    assert_eq!(body.get("aeskey").unwrap().as_str(), Some("aes-key"));
}

#[test]
fn outbound_text_filters_unsupported_markdown_like_typescript_sdk() {
    let message = build_text_message_with_client_id(
        "user-1",
        "ctx-1",
        &[
            "##### Heading\n",
            "> quote\n",
            "plain `code` ~~strike~~ ***strong*** _em_\n",
            "![alt](https://example.test/image.png)\n",
            "| A | B |\n",
            "|---|---|\n",
            "| x | y |\n",
            "```rust\n",
            "fn main() {}\n",
            "```\n",
        ]
        .concat(),
        "client-1",
    );

    assert_eq!(
        text_of(&message),
        Some("Heading\nquote\nplain code strike strong em\n\nA\tB\nx\ty\nfn main() {}\n")
    );
}

#[test]
fn cdn_media_with_only_a_full_url_is_written_as_such() {
    let media = wechat_ilink::CDNMedia {
        encrypt_query_param: None,
        aes_key: None,
        encrypt_type: None,
        full_url: Some("https://cdn.example/file".to_string()),
    };
    let json = wechat_ilink::messages::cdn_media_json(&media);
    assert_eq!(
        json.get("full_url").unwrap().as_str(),
        Some("https://cdn.example/file")
    );
    assert!(json.get("encrypt_query_param").is_none());
    assert!(json.get("aes_key").is_none());
}

fn assert_post(request: &HttpRequest, endpoint: &str, timeout_secs: u64) {
    assert_eq!(request.url, format!("https://base{endpoint}"));
    assert_eq!(request.timeout_secs, Some(timeout_secs));
    assert_eq!(header(request, "Content-Type"), Some("application/json"));
    assert_eq!(header(request, "AuthorizationType"), Some("ilink_bot_token"));
    assert_eq!(header(request, "Authorization"), Some("Bearer tok"));
    assert!(header(request, "X-WECHAT-UIN").is_some());
    assert_eq!(header(request, "iLink-App-Id"), Some("bot"));
    let info = request.body.as_ref().unwrap().get("base_info").unwrap();
    assert_eq!(info.get("channel_version").unwrap().as_str(), Some("0.4.0"));
    assert_eq!(info.get("bot_agent").unwrap().as_str(), Some("OpenClaw"));
}

#[test]
fn requests_of_each_operation() {
    let client = ILinkClient::new();
    let request = client.get_updates("https://base", "tok", "cur");
    assert_post(&request, "/ilink/bot/getupdates", 45);
    let body = request.body.unwrap();
    assert_eq!(body.get("get_updates_buf").unwrap().as_str(), Some("cur"));

    let request = client.send_message("https://base", "tok", Json::Bool(true));
    assert_post(&request, "/ilink/bot/sendmessage", 15);
    assert_eq!(request.body.unwrap().get("msg"), Some(&Json::Bool(true)));

    let request = client.get_config("https://base", "tok", "user", "ctx");
    assert_post(&request, "/ilink/bot/getconfig", 15);
    let body = request.body.unwrap();
    assert_eq!(body.get("ilink_user_id").unwrap().as_str(), Some("user"));
    assert_eq!(body.get("context_token").unwrap().as_str(), Some("ctx"));

    let request = client.send_typing("https://base", "tok", "user", "ticket", 1);
    assert_post(&request, "/ilink/bot/sendtyping", 15);
    let body = request.body.unwrap();
    assert_eq!(body.get("typing_ticket").unwrap().as_str(), Some("ticket"));
    assert_eq!(body.get("status"), Some(&Json::Integer(1)));

    assert_post(
        &client.notify_start("https://base", "tok"),
        "/ilink/bot/msg/notifystart",
        10,
    );
    assert_post(
        &client.notify_stop("https://base", "tok"),
        "/ilink/bot/msg/notifystop",
        10,
    );
}

#[test]
fn requests_of_a_login() {
    let client = ILinkClient::new();
    let request = client.get_qr_code_with_local_tokens("https://base", &vec!["t".to_string()]);
    assert_eq!(request.url, "https://base/ilink/bot/get_bot_qrcode?bot_type=3");
    assert_eq!(request.timeout_secs, None);
    assert_eq!(header(&request, "Authorization"), None);
    let tokens = request.body.unwrap();
    let tokens = tokens.get("local_token_list").unwrap();
    assert_eq!(tokens.item(0).unwrap().as_str(), Some("t"));
    assert!(tokens.item(1).is_none());
    let request = client.get_qr_code("https://base");
    assert_eq!(
        request.body.unwrap().get("local_token_list"),
        Some(&Json::Array(Vec::new()))
    );

    let request = client.poll_qr_status_with_verify_code("https://base", "q r", Some("1"));
    assert_eq!(
        request.url,
        "https://base/ilink/bot/get_qrcode_status?qrcode=q%20r&verify_code=1"
    );
    assert_eq!(request.timeout_secs, Some(35));
    assert!(request.body.is_none());
}

#[test]
fn typing_needs_a_ticket() {
    let client = ILinkClient::new();
    let mut config = GetConfigResponse {
        ret: Some(0),
        errmsg: Some("ok".to_string()),
        typing_ticket: None,
    };
    assert!(client
        .typing_after_config("https://base", "tok", "user", &config)
        .is_none());
    config.typing_ticket = Some("ticket-1".to_string());
    let request = client
        .typing_after_config("https://base", "tok", "user", &config)
        .unwrap();
    let body = request.body.unwrap();
    assert_eq!(body.get("typing_ticket").unwrap().as_str(), Some("ticket-1"));
    assert_eq!(body.get("status"), Some(&Json::Integer(1)));
}

#[test]
fn cdn_upload_url_is_encoded() {
    assert_eq!(
        protocol::build_cdn_upload_url("https://cdn", "a=b&c", "k+1"),
        "https://cdn/upload?encrypted_query_param=a%3Db%26c&filekey=k%2B1"
    );
}
