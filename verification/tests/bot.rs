use wechat_ilink::bot::{context_account_key, reply_context};
use wechat_ilink::category::categorize_by_extension;
use wechat_ilink::chunk::chunk_text;
use wechat_ilink::media::{require_download_aes_key, resolve_cdn_upload_url};
use wechat_ilink::messages::cdn_media_json;
use wechat_ilink::protocol;
use wechat_ilink::rate_limit::RateLimitTable;
use wechat_ilink::retry::{RateLimitRetry, RetryDecision};
use wechat_ilink::time::{Duration, Instant, SystemTime};
use wechat_ilink::types::{Credentials, IncomingMessage, WechatContext};
use wechat_ilink::{
    CDNMedia, Json, UserInteractionReason, WechatEvent, WechatIlinkClient, WechatIlinkError,
    WechatRateLimitOptions,
};

fn test_credentials() -> Credentials {
    Credentials {
        token: "token-1".into(),
        base_url: "https://example.invalid".into(),
        account_id: "account-1".into(),
        user_id: "bot-1".into(),
        saved_at: None,
    }
}

fn test_context() -> WechatContext {
    WechatContext {
        account_key: "account-1".to_string(),
        user_id: "user-1".to_string(),
        context_token: "ctx-1".to_string(),
        observed_at_unix_ms: 1,
        source_message_id: Some("msg-1".to_string()),
    }
}

fn message(context: Option<WechatContext>) -> IncomingMessage {
    IncomingMessage {
        user_id: "user-1".to_string(),
        text: "hi".to_string(),
        message_id: None,
        wire_message_id: None,
        client_id: "client-1".to_string(),
        quoted: None,
        context,
        images: Vec::new(),
        files: Vec::new(),
        videos: Vec::new(),
        voices: Vec::new(),
    }
}

fn at_secs(secs: i128) -> Instant {
    Instant::from_nanos(secs * 1_000_000_000).unwrap()
}

fn unix_millis(millis: i128) -> SystemTime {
    SystemTime::from_unix_nanos(millis * 1_000_000).unwrap()
}

#[test]
fn chunk_text_short() {
    let chunks = chunk_text("hello", 100);
    assert_eq!(chunks, vec!["hello"]);
}

#[test]
fn chunk_text_empty() {
    let chunks = chunk_text("", 100);
    assert_eq!(chunks, vec![""]);
}

#[test]
fn chunk_text_splits_on_paragraph() {
    let text = "aaaa\n\nbbbb";
    let chunks = chunk_text(text, 7);
    assert_eq!(chunks, vec!["aaaa\n\n", "bbbb"]);
}

#[test]
fn chunk_text_splits_on_newline() {
    let text = "aaaa\nbbbb";
    let chunks = chunk_text(text, 7);
    assert_eq!(chunks, vec!["aaaa\n", "bbbb"]);
}

#[test]
fn chunk_text_exact_limit() {
    let text = "abcdef";
    let chunks = chunk_text(text, 6);
    assert_eq!(chunks, vec!["abcdef"]);
}

#[test]
fn chunk_text_does_not_split_utf8_char_boundary() {
    let mut text = "a".repeat(3999);
    text.push('启');
    text.push_str("tail");

    let chunks = chunk_text(&text, 4000);

    assert_eq!(chunks.concat(), text);
    assert!(chunks.iter().all(|chunk| chunk.len() <= 4000));
}

#[test]
fn chunk_text_splits_on_space_and_counts_bytes() {
    assert_eq!(chunk_text("aaaa bbbb", 7), vec!["aaaa ", "bbbb"]);
    // An early break is passed over.
    assert_eq!(chunk_text("a bbbbbbbbbbb", 10), vec!["a bbbbbbbb", "bbb"]);
    assert_eq!(chunk_text("启启启", 7), vec!["启启", "启"]);
    assert_eq!(chunk_text("abcdefg", 2), vec!["ab", "cd", "ef", "g"]);
}

#[test]
fn categorize_image_extensions() {
    assert_eq!(categorize_by_extension("photo.png"), "image");
    assert_eq!(categorize_by_extension("photo.JPG"), "image");
    assert_eq!(categorize_by_extension("anim.gif"), "image");
    assert_eq!(categorize_by_extension("pic.webp"), "image");
}

#[test]
fn categorize_video_extensions() {
    assert_eq!(categorize_by_extension("clip.mp4"), "video");
    assert_eq!(categorize_by_extension("clip.MOV"), "video");
    assert_eq!(categorize_by_extension("movie.webm"), "video");
}

#[test]
fn categorize_file_extensions() {
    assert_eq!(categorize_by_extension("report.pdf"), "file");
    assert_eq!(categorize_by_extension("data.csv"), "file");
    assert_eq!(categorize_by_extension("noext"), "file");
}

#[test]
fn categorize_agrees_with_paths() {
    let names = [
        "", ".", "..", "/", "png", ".png", "a.png", "a.png/", "a.png/.", "a.png/..", "x/.png",
        "a.b.JPEG", "a.png.", "dir.mp4/file", "dir/clip.avi", "..png", "a..svg", "./a.bmp//",
        "MOVIE.M\u{212A}V", "a.gİf", "a.ſvg", "...", "..a", "a/../b.mov", "图.webp", "a.png/..b",
    ];
    for name in names {
        let ext = std::path::Path::new(name)
            .extension()
            .and_then(|e| e.to_str())
            .unwrap_or("")
            .to_lowercase();
        let expected = match ext.as_str() {
            "png" | "jpg" | "jpeg" | "gif" | "webp" | "bmp" | "svg" => "image",
            "mp4" | "mov" | "webm" | "mkv" | "avi" => "video",
            _ => "file",
        };
        assert_eq!(categorize_by_extension(name), expected, "{name:?}");
    }
}

#[test]
fn cdn_media_json_with_encrypt_type() {
    let media = CDNMedia {
        encrypt_query_param: Some("param=1".to_string()),
        aes_key: Some("key123".to_string()),
        encrypt_type: Some(1),
        full_url: None,
    };
    let j = cdn_media_json(&media);
    assert_eq!(j.get("encrypt_query_param").unwrap().as_str(), Some("param=1"));
    assert_eq!(j.get("aes_key").unwrap().as_str(), Some("key123"));
    assert_eq!(j.get("encrypt_type"), Some(&Json::Integer(1)));
}

#[test]
fn cdn_media_json_without_encrypt_type() {
    let media = CDNMedia {
        encrypt_query_param: Some("p".to_string()),
        aes_key: Some("k".to_string()),
        encrypt_type: None,
        full_url: None,
    };
    let j = cdn_media_json(&media);
    assert!(j.get("encrypt_type").is_none());
}

#[test]
fn upload_url_prefers_full_url() {
    let response = protocol::GetUploadUrlResponse {
        upload_param: Some("param".to_string()),
        thumb_upload_param: None,
        upload_full_url: Some("https://cdn.example/upload".to_string()),
    };

    let upload_url = resolve_cdn_upload_url(&response, "file-key").unwrap();
    assert_eq!(upload_url, "https://cdn.example/upload");
}

#[test]
fn upload_url_falls_back_to_upload_param() {
    let response = protocol::GetUploadUrlResponse {
        upload_param: Some("param value".to_string()),
        thumb_upload_param: None,
        upload_full_url: None,
    };

    let upload_url = resolve_cdn_upload_url(&response, "file key").unwrap();
    assert_eq!(
        upload_url,
        format!(
            "{}/upload?encrypted_query_param=param%20value&filekey=file%20key",
            protocol::CDN_BASE_URL
        )
    );
}

#[test]
fn upload_url_requires_full_url_or_upload_param() {
    let response = protocol::GetUploadUrlResponse {
        upload_param: None,
        thumb_upload_param: None,
        upload_full_url: None,
    };

    let err = resolve_cdn_upload_url(&response, "file-key").unwrap_err();
    assert!(matches!(err, WechatIlinkError::Media(_)));
}

#[test]
fn empty_upload_urls_do_not_count() {
    let response = protocol::GetUploadUrlResponse {
        upload_param: Some("p".to_string()),
        thumb_upload_param: None,
        upload_full_url: Some(String::new()),
    };
    assert_eq!(
        resolve_cdn_upload_url(&response, "k").unwrap(),
        "https://novac2c.cdn.weixin.qq.com/c2c/upload?encrypted_query_param=p&filekey=k"
    );
    let response = protocol::GetUploadUrlResponse {
        upload_param: Some(String::new()),
        thumb_upload_param: None,
        upload_full_url: Some(String::new()),
    };
    assert!(resolve_cdn_upload_url(&response, "k").is_err());
}

#[test]
fn non_image_download_requires_media_aes_key() {
    let media = CDNMedia {
        encrypt_query_param: Some("param".to_string()),
        aes_key: None,
        encrypt_type: Some(1),
        full_url: None,
    };

    let err = require_download_aes_key("voice", &media).unwrap_err();
    assert!(matches!(err, WechatIlinkError::Media(_)));
}

#[test]
fn non_image_download_accepts_media_aes_key() {
    let media = CDNMedia {
        encrypt_query_param: Some("param".to_string()),
        aes_key: Some("key".to_string()),
        encrypt_type: Some(1),
        full_url: None,
    };

    require_download_aes_key("file", &media).unwrap();
}

#[test]
fn rate_limit_builder_defaults_and_overrides_are_available() {
    let default_options = WechatRateLimitOptions::default();
    assert_eq!(default_options.retry_after, Duration::from_secs(90));
    assert_eq!(default_options.retry_attempts, 5);
    assert_eq!(default_options.interaction_window, Duration::from_secs(300));
    assert_eq!(default_options.interaction_threshold, 6);
    assert_eq!(
        default_options.context_ttl,
        Duration::from_secs(24 * 60 * 60)
    );

    let client = WechatIlinkClient::builder()
        .rate_limit_retry_after(Duration::from_secs(60))
        .rate_limit_max_retries(2)
        .rate_limit_interaction_window(Duration::from_secs(120))
        .rate_limit_interaction_threshold(4)
        .context_ttl(Duration::from_secs(3600))
        .context_expiry_remind_before(Duration::from_secs(300))
        .build();

    assert_eq!(client.rate_limit.retry_after, Duration::from_secs(60));
    assert_eq!(client.rate_limit.retry_attempts, 2);
    assert_eq!(
        client.rate_limit.interaction_window,
        Duration::from_secs(120)
    );
    assert_eq!(client.rate_limit.interaction_threshold, 4);
    assert_eq!(client.rate_limit.context_ttl, Duration::from_secs(3600));
    assert_eq!(
        client.rate_limit.context_remind_before,
        Duration::from_secs(300)
    );
}

#[test]
fn builder_ignores_zero_durations() {
    let client = WechatIlinkClient::builder()
        .rate_limit_retry_after(Duration::from_secs(0))
        .rate_limit_retry_attempts(7)
        .context_ttl(Duration::from_secs(0))
        .rate_limit_interaction_window(Duration::from_millis(0))
        .build();
    assert_eq!(client.rate_limit.retry_after, Duration::from_secs(90));
    assert_eq!(client.rate_limit.retry_attempts, 7);
    assert_eq!(client.rate_limit.context_ttl, Duration::from_secs(86400));
    assert_eq!(client.rate_limit.interaction_window, Duration::from_secs(300));
}

#[test]
fn builder_chooses_the_base_url() {
    assert_eq!(WechatIlinkClient::new().base_url, "https://ilinkai.weixin.qq.com");
    let client = WechatIlinkClient::builder().base_url("https://other").build();
    assert_eq!(client.base_url, "https://other");
    let client = WechatIlinkClient::builder()
        .base_url("https://other")
        .credentials(test_credentials())
        .build();
    assert_eq!(client.base_url, "https://example.invalid");
}

#[test]
fn builder_hands_options_on() {
    let options = WechatRateLimitOptions {
        retry_attempts: 1,
        ..WechatRateLimitOptions::default()
    };
    let client = WechatIlinkClient::builder()
        .bot_agent("Amux/0.1")
        .ilink_app_id("app")
        .route_tag("tag")
        .markdown_filter(false)
        .rate_limit_options(options)
        .build();
    assert_eq!(client.client.options.bot_agent.as_deref(), Some("Amux/0.1"));
    assert_eq!(client.client.options.ilink_app_id.as_deref(), Some("app"));
    assert_eq!(client.client.options.route_tag.as_deref(), Some("tag"));
    assert!(!client.client.options.markdown_filter);
    assert_eq!(client.rate_limit.retry_attempts, 1);
    assert!(!client.stopped);
}

fn assert_rate_limit_event(event: Option<WechatEvent>, sent: usize, limit: usize) {
    match event {
        Some(WechatEvent::UserInteractionRequested {
            account_key,
            user_id,
            reason:
                UserInteractionReason::OutboundRateLimitApproaching {
                    sent_count,
                    threshold,
                    ..
                },
        }) => {
            assert_eq!(account_key, "account-1");
            assert_eq!(user_id, None);
            assert_eq!(sent_count, sent);
            assert_eq!(threshold, limit);
        }
        _ => panic!("expected a rate-limit interaction event"),
    }
}

#[test]
fn outbound_threshold_emits_interaction_event_and_incoming_resets_window() {
    let mut client = WechatIlinkClient::builder()
        .rate_limit_interaction_threshold(3)
        .rate_limit_interaction_window(Duration::from_secs(300))
        .build();
    client.set_credentials(test_credentials());

    assert!(client.record_successful_message_send(at_secs(1)).is_none());
    assert!(client.record_successful_message_send(at_secs(2)).is_none());
    assert_rate_limit_event(client.record_successful_message_send(at_secs(3)), 3, 3);
    assert!(client.record_successful_message_send(at_secs(4)).is_none());

    client.reset_account_rate_limit("account-1");
    assert!(client.record_successful_message_send(at_secs(5)).is_none());
    assert!(client.record_successful_message_send(at_secs(6)).is_none());
    assert_rate_limit_event(client.record_successful_message_send(at_secs(7)), 3, 3);
}

#[test]
fn sends_leave_the_window() {
    let mut table = RateLimitTable::new();
    let window = Duration::from_secs(10);
    assert_eq!(table.record_send("a", at_secs(0), window), 1);
    assert_eq!(table.record_send("a", at_secs(5), window), 2);
    assert_eq!(table.record_send("a", at_secs(10), window), 3);
    assert_eq!(table.record_send("a", at_secs(11), window), 3);
    assert_eq!(table.record_send("a", at_secs(40), window), 1);
    assert_eq!(table.record_send("b", at_secs(40), window), 1);
}

#[test]
fn only_sends_within_the_window_count_towards_the_threshold() {
    let mut client = WechatIlinkClient::builder()
        .rate_limit_interaction_threshold(3)
        .rate_limit_interaction_window(Duration::from_secs(10))
        .credentials(test_credentials())
        .build();
    assert!(client.record_successful_message_send(at_secs(0)).is_none());
    assert!(client.record_successful_message_send(at_secs(1)).is_none());
    client.defer_account_rate_limit("account-1", at_secs(1), Duration::from_secs(90));
    assert!(client.record_successful_message_send(at_secs(12)).is_none());
    assert!(client.record_successful_message_send(at_secs(13)).is_none());
    assert_rate_limit_event(client.record_successful_message_send(at_secs(14)), 3, 3);
    assert!(client.record_successful_message_send(at_secs(22)).is_none());
    assert_rate_limit_event(client.record_successful_message_send(at_secs(24)), 3, 3);
}

#[test]
fn no_events_without_account_or_threshold() {
    let mut client = WechatIlinkClient::builder()
        .rate_limit_interaction_threshold(1)
        .build();
    assert!(client.record_successful_message_send(at_secs(1)).is_none());
    let mut client = WechatIlinkClient::builder()
        .rate_limit_interaction_threshold(0)
        .credentials(test_credentials())
        .build();
    assert!(client.record_successful_message_send(at_secs(1)).is_none());
}

fn assert_context_expiring_event(events: &[WechatEvent]) {
    assert_eq!(events.len(), 1);
    match &events[0] {
        WechatEvent::UserInteractionRequested {
            account_key,
            user_id,
            reason: UserInteractionReason::ContextExpiring { .. },
        } => {
            assert_eq!(account_key, "account-1");
            assert_eq!(user_id.as_deref(), Some("user-1"));
        }
        _ => panic!("expected a context-expiring interaction event"),
    }
}

#[test]
fn context_expiry_emits_user_interaction_event_and_new_context_resets_it() {
    let mut client = WechatIlinkClient::builder()
        .context_ttl(Duration::from_millis(5))
        .context_expiry_remind_before(Duration::from_millis(5))
        .build();

    let context = test_context();
    client.observe_context_for_interaction(&context, unix_millis(1000));
    let events = client.emit_due_context_interaction_requests(unix_millis(1010));
    assert_context_expiring_event(&events);
    assert!(client
        .emit_due_context_interaction_requests(unix_millis(1020))
        .is_empty());

    client.observe_context_for_interaction(&context, unix_millis(1030));
    let events = client.emit_due_context_interaction_requests(unix_millis(1040));
    assert_context_expiring_event(&events);
}

#[test]
fn contexts_are_told_only_shortly_before_they_expire() {
    let mut client = WechatIlinkClient::builder()
        .context_ttl(Duration::from_secs(100))
        .context_expiry_remind_before(Duration::from_secs(10))
        .build();
    client.observe_context_for_interaction(&test_context(), unix_millis(0));
    assert!(client
        .emit_due_context_interaction_requests(unix_millis(89_999))
        .is_empty());
    let events = client.emit_due_context_interaction_requests(unix_millis(90_000));
    match &events[0] {
        WechatEvent::UserInteractionRequested {
            reason:
                UserInteractionReason::ContextExpiring {
                    observed_at,
                    expires_at,
                    remind_before,
                },
            ..
        } => {
            assert_eq!(*observed_at, unix_millis(0));
            assert_eq!(*expires_at, unix_millis(100_000));
            assert_eq!(*remind_before, Duration::from_secs(10));
        }
        _ => panic!("expected a context-expiring interaction event"),
    }
}

fn rate_limited(message: &str) -> WechatIlinkError {
    WechatIlinkError::RateLimited {
        retry_after: Duration::from_secs(1),
        message: message.to_string(),
        http_status: 200,
        errcode: -2,
    }
}

#[test]
fn retry_rate_limited_uses_configured_retry_count() {
    let mut client = WechatIlinkClient::builder()
        .rate_limit_retry_after(Duration::from_millis(1))
        .rate_limit_max_retries(2)
        .build();
    client.set_credentials(test_credentials());

    let mut attempts = 0;
    let mut retry = RateLimitRetry::begin(&mut client, at_secs(1)).unwrap();
    let err = loop {
        attempts += 1;
        match retry.on_error(&mut client, rate_limited("busy"), at_secs(1)) {
            RetryDecision::TryAgain { wait } => {
                assert_eq!(wait, Some(Duration::from_millis(1)));
            }
            RetryDecision::GiveUp(err) => break err,
        }
    };
    assert!(err.is_rate_limited());
    assert_eq!(attempts, 3);
    match err {
        WechatIlinkError::RateLimited {
            retry_after,
            message,
            ..
        } => {
            assert_eq!(retry_after, Duration::from_millis(1));
            assert_eq!(message, "busy");
        }
        _ => unreachable!(),
    }
}

#[test]
fn other_errors_are_not_retried() {
    let mut client = WechatIlinkClient::new();
    let mut retry = RateLimitRetry::begin(&mut client, at_secs(1)).unwrap();
    let err = WechatIlinkError::Auth("no".to_string());
    assert!(matches!(
        retry.on_error(&mut client, err, at_secs(1)),
        RetryDecision::GiveUp(WechatIlinkError::Auth(_))
    ));
    // Without an account there is nothing to wait for.
    assert!(matches!(
        retry.on_error(&mut client, rate_limited("busy"), at_secs(1)),
        RetryDecision::TryAgain { wait: None }
    ));
}

#[test]
fn active_rate_limit_backoff_returns_error_without_queueing_new_request() {
    let mut client = WechatIlinkClient::builder()
        .rate_limit_retry_after(Duration::from_secs(90))
        .build();
    client.set_credentials(test_credentials());
    client.defer_account_rate_limit("account-1", at_secs(10), Duration::from_secs(90));

    match RateLimitRetry::begin(&mut client, at_secs(40)) {
        Err(WechatIlinkError::RateLimited {
            retry_after,
            message,
            http_status,
            errcode,
        }) => {
            assert_eq!(retry_after, Duration::from_secs(60));
            assert_eq!(message, "ret=-2");
            assert_eq!(http_status, 200);
            assert_eq!(errcode, -2);
        }
        _ => panic!("expected the backoff"),
    }
    assert!(RateLimitRetry::begin(&mut client, at_secs(100)).is_ok());
}

#[test]
fn deferral_never_gets_shorter() {
    let mut table = RateLimitTable::new();
    table.defer("a", at_secs(0), Duration::from_secs(90));
    table.defer("a", at_secs(1), Duration::from_secs(10));
    assert_eq!(
        table.active_backoff("a", at_secs(1)),
        Some(Duration::from_secs(89))
    );
    table.reset("a");
    assert_eq!(table.active_backoff("a", at_secs(1)), None);
    table.defer("", at_secs(0), Duration::from_secs(90));
    assert_eq!(table.active_backoff("", at_secs(1)), None);
}

#[test]
fn credentials_are_supplied_by_caller() {
    let mut client = WechatIlinkClient::new();
    assert!(client.credentials().is_none());
    client.set_credentials(test_credentials());

    let creds = client.credentials().unwrap();
    assert_eq!(creds.account_id, "account-1");
    assert_eq!(client.base_url, "https://example.invalid");
    assert_eq!(client.account_key(), "account-1");
}

#[test]
fn account_key_falls_back_to_the_user() {
    let mut creds = test_credentials();
    assert_eq!(context_account_key(&creds), "account-1");
    creds.account_id.clear();
    assert_eq!(context_account_key(&creds), "bot-1");
    assert_eq!(WechatIlinkClient::new().account_key(), "");
}

#[test]
fn auth_is_required() {
    let mut client = WechatIlinkClient::new();
    match client.get_auth() {
        Err(WechatIlinkError::Auth(message)) => assert_eq!(message, "not logged in"),
        _ => panic!("expected an auth error"),
    }
    client.set_credentials(test_credentials());
    assert_eq!(
        client.get_auth().unwrap(),
        ("https://example.invalid".to_string(), "token-1".to_string())
    );
}

#[test]
fn reply_needs_a_context() {
    let with = message(Some(test_context()));
    assert_eq!(reply_context(&with).unwrap_or_else(|_| panic!()).context_token, "ctx-1");
    let without = message(None);
    match reply_context(&without) {
        Err(WechatIlinkError::NoContext(user)) => assert_eq!(user, "user-1"),
        _ => panic!("expected a missing context"),
    }
}

#[test]
fn stop_and_start() {
    let mut client = WechatIlinkClient::new();
    client.stop();
    assert!(client.stopped);
    client.start();
    assert!(!client.stopped);
}

#[test]
fn lower_case_is_that_of_unicode() {
    for code in 0x80..=0x10ffff_u32 {
        if let Some(c) = char::from_u32(code) {
            let lowered = c.to_lowercase().to_string();
            let ascii = lowered.len() == 1;
            assert_eq!(ascii, c == '\u{212A}');
        }
    }
    assert_eq!(categorize_by_extension("a.m\u{212A}v"), "video");
}

#[test]
fn one_context_for_each_user() {
    let mut client = WechatIlinkClient::builder()
        .context_ttl(Duration::from_secs(1))
        .build();
    let mut other = test_context();
    other.user_id = "user-2".to_string();
    client.observe_context_for_interaction(&test_context(), unix_millis(0));
    client.observe_context_for_interaction(&other, unix_millis(0));
    client.observe_context_for_interaction(&test_context(), unix_millis(1));
    let events = client.emit_due_context_interaction_requests(unix_millis(5000));
    assert_eq!(events.len(), 2);
}

#[test]
fn contexts_are_told_at_once_when_reminders_come_too_early() {
    let mut client = WechatIlinkClient::builder()
        .context_expiry_remind_before(Duration::from_secs(u64::MAX))
        .build();
    client.observe_context_for_interaction(&test_context(), unix_millis(10));
    assert!(client
        .emit_due_context_interaction_requests(unix_millis(9))
        .is_empty());
    assert_eq!(
        client
            .emit_due_context_interaction_requests(unix_millis(10))
            .len(),
        1
    );
}
