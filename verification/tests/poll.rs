use wechat_ilink::poll::{PollDecision, Poller};
use wechat_ilink::retry::RateLimitRetry;
use wechat_ilink::time::{Duration, Instant, SystemTime};
use wechat_ilink::types::{Credentials, IncomingMessage, WechatContext};
use wechat_ilink::{WechatEvent, WechatIlinkClient, WechatIlinkError};

fn client() -> WechatIlinkClient {
    WechatIlinkClient::builder()
        .credentials(Credentials {
            token: "token-1".into(),
            base_url: "https://example.invalid".into(),
            account_id: "account-1".into(),
            user_id: "bot-1".into(),
            saved_at: None,
        })
        .build()
}

fn context(user: &str) -> WechatContext {
    WechatContext {
        account_key: "account-1".to_string(),
        user_id: user.to_string(),
        context_token: format!("ctx-{user}"),
        observed_at_unix_ms: 1,
        source_message_id: None,
    }
}

fn message(user: &str, context: Option<WechatContext>) -> IncomingMessage {
    IncomingMessage {
        user_id: user.to_string(),
        text: "hi".to_string(),
        message_id: None,
        wire_message_id: None,
        client_id: "client-1".to_string(),
        quoted: None,
        context,
        images: Vec::new(),
        files: Vec::new(),
        videos: Vec::new(),
        voices: Vec::new(),
    }
}

fn unix_secs(secs: i128) -> SystemTime {
    SystemTime::from_unix_nanos(secs * 1_000_000_000).unwrap()
}

fn format_event(event: &WechatEvent) -> String {
    match event {
        WechatEvent::ContextObserved(ctx) => format!("context:{}", ctx.user_id),
        WechatEvent::CursorAdvanced { cursor, .. } => format!("cursor:{cursor}"),
        WechatEvent::Message(msg) => format!("message:{}", msg.user_id),
        WechatEvent::AuthSessionExpired { account_key } => format!("auth:{account_key}"),
        WechatEvent::UserInteractionRequested { .. } => "interaction".to_string(),
    }
}

fn formatted(events: &[WechatEvent]) -> Vec<String> {
    events.iter().map(format_event).collect()
}

#[test]
fn stream_from_cursor_reports_missing_auth_without_storing_cursor() {
    let client = WechatIlinkClient::new();
    let poller = Poller::start(Some("external-cursor".to_string()));
    assert!(matches!(
        poller.next_request(&client),
        Err(WechatIlinkError::Auth(_))
    ));
    assert!(client.credentials().is_none());
}

#[test]
fn polls_from_the_cursor_until_stopped() {
    let mut client = client();
    let poller = Poller::start(Some("cursor-1".to_string()));
    let request = poller.next_request(&client).unwrap().unwrap();
    assert_eq!(request.url, "https://example.invalid/ilink/bot/getupdates");
    assert_eq!(
        request.body.unwrap().get("get_updates_buf").unwrap().as_str(),
        Some("cursor-1")
    );
    client.stop();
    assert!(poller.next_request(&client).unwrap().is_none());
    assert_eq!(Poller::start(None).cursor, "");
}

#[test]
fn messages_come_before_the_cursor() {
    let mut client = client();
    let mut poller = Poller::start(None);
    let events = poller.on_updates(
        &mut client,
        "cursor-2".to_string(),
        vec![
            message("user-1", Some(context("user-1"))),
            message("user-2", None),
        ],
        unix_secs(10),
    );
    assert_eq!(
        formatted(&events),
        vec![
            "context:user-1",
            "message:user-1",
            "message:user-2",
            "cursor:cursor-2"
        ]
    );
    assert_eq!(poller.cursor, "cursor-2");

    let events = poller.on_updates(&mut client, "cursor-2".to_string(), vec![], unix_secs(11));
    assert!(events.is_empty());
    let events = poller.on_updates(&mut client, String::new(), vec![], unix_secs(12));
    assert!(events.is_empty());
    assert_eq!(poller.cursor, "cursor-2");
}

#[test]
fn due_contexts_come_between_messages_and_cursor() {
    let mut client = client();
    let mut poller = Poller::start(None);
    poller.on_updates(
        &mut client,
        "c1".to_string(),
        vec![message("user-1", Some(context("user-1")))],
        unix_secs(0),
    );
    let day = 24 * 60 * 60;
    let events = poller.on_updates(
        &mut client,
        "c2".to_string(),
        vec![message("user-2", Some(context("user-2")))],
        unix_secs(day),
    );
    assert_eq!(
        formatted(&events),
        vec![
            "context:user-2",
            "message:user-2",
            "interaction",
            "cursor:c2"
        ]
    );
}

#[test]
fn a_message_lifts_the_limits() {
    let now = Instant::from_nanos(0).unwrap();
    let mut client = client();
    client.defer_account_rate_limit("account-1", now, Duration::from_secs(90));
    assert!(RateLimitRetry::begin(&mut client, now).is_err());
    let mut poller = Poller::start(None);
    poller.on_updates(&mut client, "c".to_string(), vec![], unix_secs(0));
    assert!(RateLimitRetry::begin(&mut client, now).is_err());
    poller.on_updates(
        &mut client,
        "c".to_string(),
        vec![message("user-1", None)],
        unix_secs(0),
    );
    assert!(RateLimitRetry::begin(&mut client, now).is_ok());
}

fn wait_of(decision: PollDecision) -> Duration {
    match decision {
        PollDecision::Wait(wait) => wait,
        PollDecision::Stop(_) => panic!("expected a delay"),
    }
}

#[test]
fn delays_double_up_to_ten_seconds() {
    let mut client = client();
    let mut poller = Poller::start(None);
    let err = WechatIlinkError::Other("broken".to_string());
    for secs in [1, 2, 4, 8, 10, 10] {
        assert_eq!(
            wait_of(poller.on_error(&client, &err, false)),
            Duration::from_secs(secs)
        );
    }
    poller.on_updates(&mut client, String::new(), vec![], unix_secs(0));
    assert_eq!(
        wait_of(poller.on_error(&client, &err, false)),
        Duration::from_secs(1)
    );
}

#[test]
fn rate_limited_polls_wait_as_configured() {
    let client = client();
    let mut poller = Poller::start(Some("c".to_string()));
    let other = WechatIlinkError::Other("broken".to_string());
    poller.on_error(&client, &other, false);
    let limited = WechatIlinkError::RateLimited {
        retry_after: Duration::from_secs(5),
        message: "ret=-2".to_string(),
        http_status: 200,
        errcode: -2,
    };
    assert_eq!(
        wait_of(poller.on_error(&client, &limited, false)),
        Duration::from_secs(90)
    );
    assert_eq!(poller.retry_delay, Duration::from_secs(1));
    assert_eq!(poller.cursor, "c");
}

#[test]
fn an_expired_session_ends_polling() {
    let client = client();
    let mut poller = Poller::start(Some("c".to_string()));
    let err = WechatIlinkError::Auth("expired".to_string());
    match poller.on_error(&client, &err, true) {
        PollDecision::Stop(event) => assert_eq!(format_event(&event), "auth:account-1"),
        PollDecision::Wait(_) => panic!("expected polling to end"),
    }
    assert_eq!(poller.cursor, "");
}
