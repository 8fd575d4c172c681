use wechat_ilink::decimal::{decimal_of, parse_u32_of, signed_decimal_of};
use wechat_ilink::error::{api_error, lagged_error, poll_task_error};
use wechat_ilink::text::{chars_of, split_on, string_of, trimmed, words_of};
use wechat_ilink::time::{Duration, Instant, SystemTime};
use wechat_ilink::{WechatContext, WechatIlinkError};

#[test]
fn decimals() {
    assert_eq!(decimal_of(0), "0");
    assert_eq!(decimal_of(u128::MAX), "340282366920938463463374607431768211455");
    assert_eq!(signed_decimal_of(-40), "-40");
    assert_eq!(signed_decimal_of(i64::MIN), "-9223372036854775808");
    assert_eq!(parse_u32_of(&chars_of("+042")), Some(42));
    assert_eq!(parse_u32_of(&chars_of("4294967295")), Some(u32::MAX));
    assert_eq!(parse_u32_of(&chars_of("4294967296")), None);
    assert_eq!(parse_u32_of(&chars_of("+")), None);
    assert_eq!(parse_u32_of(&chars_of("-1")), None);
    assert_eq!(parse_u32_of(&chars_of("1a")), None);
}

#[test]
fn durations() {
    assert_eq!(Duration::from_secs(2), Duration::from_millis(2000));
    assert_eq!(Duration::from_secs(2).as_nanos(), 2_000_000_000);
    assert_eq!(Duration::from_millis(2999).as_secs(), 2);
    assert!(Duration::from_nanos(0).unwrap().is_zero());
    assert!(Duration::from_nanos(u128::MAX).is_none());
    let max = Duration::from_secs(10);
    assert_eq!(Duration::from_secs(4).doubled_up_to(max), Duration::from_secs(8));
    assert_eq!(Duration::from_secs(6).doubled_up_to(max), max);
}

#[test]
fn points_in_time() {
    let a = Instant::from_nanos(5).unwrap();
    let b = a.checked_add(Duration::from_secs(1)).unwrap();
    assert_eq!(b.as_nanos(), 1_000_000_005);
    assert_eq!(b.checked_duration_since(a), Some(Duration::from_secs(1)));
    assert_eq!(a.checked_duration_since(b), None);
    let longest = Duration::from_secs(u64::MAX);
    assert!(a.checked_add(longest).is_none());
    let t = SystemTime::from_unix_nanos(-5).unwrap();
    assert_eq!(
        t.checked_sub(Duration::from_secs(1)).unwrap().unix_nanos(),
        -1_000_000_005
    );
    assert!(t.checked_sub(longest).is_none());
    assert!(SystemTime::from_unix_nanos(i128::MAX).is_none());
}

#[test]
fn text_parts() {
    assert_eq!(string_of(&trimmed(&chars_of(" \u{3000}a b\u{85}"))), "a b");
    let words: Vec<String> = words_of(&chars_of(" a\tbc\u{2003}d "))
        .iter()
        .map(string_of)
        .collect();
    assert_eq!(words, vec!["a", "bc", "d"]);
    let parts: Vec<String> = split_on(&chars_of("a..b."), '.').iter().map(string_of).collect();
    assert_eq!(parts, vec!["a", "", "b", ""]);
}

#[test]
fn white_space_is_that_of_unicode() {
    for code in 0..=0x10ffff_u32 {
        if let Some(c) = char::from_u32(code) {
            assert_eq!(wechat_ilink::text::space_char(c), c.is_whitespace());
        }
    }
}

#[test]
fn errors() {
    assert!(api_error("m".to_string(), 200, -2).is_rate_limited());
    assert!(!api_error("m".to_string(), 200, -1).is_rate_limited());
    match lagged_error(12) {
        WechatIlinkError::Other(message) => {
            assert_eq!(message, "wechat event stream lagged by 12 events");
        }
        _ => panic!("expected another error"),
    }
    match poll_task_error("panic") {
        WechatIlinkError::Other(message) => assert_eq!(message, "wechat poll task failed: panic"),
        _ => panic!("expected another error"),
    }
}

#[test]
fn contexts_are_printed_without_the_token() {
    let mut context = WechatContext {
        account_key: "account-1".to_string(),
        user_id: "user-1".to_string(),
        context_token: "context-token-1".to_string(),
        observed_at_unix_ms: -5,
        source_message_id: Some("msg-1".to_string()),
    };
    let text = context.redacted();
    assert_eq!(
        text,
        "WechatContext { account_key: \"account-1\", user_id: \"user-1\", \
         context_token: <redacted>, observed_at_unix_ms: -5, source_message_id: Some(\"msg-1\") }"
    );
    context.context_token = "context-token-2".to_string();
    assert_eq!(context.redacted(), text);
    context.source_message_id = None;
    assert!(context.redacted().ends_with("source_message_id: None }"));
}
