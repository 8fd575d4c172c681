use wechat_ilink::login::{timestamp_of, LoginAction, LoginQrEvent, LoginStep, QrLogin};
use wechat_ilink::responses::{wait_qr_status_response, QrCodeResponse, QrStatusResponse};
use wechat_ilink::time::Duration;
use wechat_ilink::WechatIlinkError;

fn qr(code: &str) -> QrCodeResponse {
    QrCodeResponse {
        qrcode: code.to_string(),
        qrcode_img_content: format!("content of {code}"),
    }
}

fn status(name: &str) -> QrStatusResponse {
    QrStatusResponse {
        status: name.to_string(),
        ..wait_qr_status_response()
    }
}

fn started() -> QrLogin {
    let (mut login, action) = QrLogin::start("https://base".to_string());
    assert!(matches!(action, LoginAction::FetchQrCode));
    let step = login.on_qr_code(qr("code-1"));
    assert!(matches!(
        &step.events[..],
        [LoginQrEvent::QrCode { content }] if content == "content of code-1"
    ));
    assert_polls_after(&step, 0);
    login
}

fn assert_polls_after(step: &LoginStep, secs: u64) {
    match step.next {
        LoginAction::PollStatus { wait } => assert_eq!(wait, Duration::from_secs(secs)),
        _ => panic!("expected another poll"),
    }
}

fn auth_error(action: LoginAction) -> String {
    match action {
        LoginAction::Fail(WechatIlinkError::Auth(message)) => message,
        _ => panic!("expected the login to fail"),
    }
}

#[test]
fn login_succeeds() {
    let mut login = started();
    let step = login.on_status(wait_qr_status_response(), 0);
    assert!(matches!(
        &step.events[..],
        [LoginQrEvent::StatusChanged { status }] if status == "wait"
    ));
    assert_polls_after(&step, 1);
    let step = login.on_status(wait_qr_status_response(), 0);
    assert!(step.events.is_empty());
    let step = login.on_status(status("scaned"), 0);
    assert_eq!(step.events.len(), 1);
    assert_polls_after(&step, 2);

    let mut confirmed = status("confirmed");
    confirmed.bot_token = Some("token".to_string());
    confirmed.ilink_bot_id = Some("bot".to_string());
    let step = login.on_status(confirmed, 1700000000);
    assert!(matches!(step.next, LoginAction::Finish));
    match &step.events[..] {
        [LoginQrEvent::StatusChanged { .. }, LoginQrEvent::Confirmed { credentials }] => {
            assert_eq!(credentials.token, "token");
            assert_eq!(credentials.base_url, "https://base");
            assert_eq!(credentials.account_id, "bot");
            assert_eq!(credentials.user_id, "");
            assert_eq!(credentials.saved_at.as_deref(), Some("1700000000Z"));
        }
        _ => panic!("expected credentials"),
    }
}

#[test]
fn confirmation_may_bring_an_address() {
    let mut login = started();
    let mut confirmed = status("confirmed");
    confirmed.bot_token = Some("token".to_string());
    confirmed.baseurl = Some("https://other".to_string());
    confirmed.ilink_user_id = Some("user".to_string());
    let step = login.on_status(confirmed, 0);
    match step.events.last() {
        Some(LoginQrEvent::Confirmed { credentials }) => {
            assert_eq!(credentials.base_url, "https://other");
            assert_eq!(credentials.user_id, "user");
        }
        _ => panic!("expected credentials"),
    }
}

#[test]
fn confirmation_without_token_fails() {
    let mut login = started();
    let step = login.on_status(status("confirmed"), 0);
    assert_eq!(auth_error(step.next), "missing bot_token");
}

#[test]
fn bound_app_fails() {
    let mut login = started();
    let step = login.on_status(status("binded_redirect"), 0);
    assert_eq!(auth_error(step.next), "QR login is already bound to this app");
}

#[test]
fn no_more_than_three_codes() {
    let mut login = started();
    for n in 2..=3 {
        let step = login.on_status(status("expired"), 0);
        assert!(matches!(step.next, LoginAction::FetchQrCode), "{n}");
        login.on_qr_code(qr("again"));
    }
    let step = login.on_status(status("verify_code_blocked"), 0);
    assert_eq!(
        auth_error(step.next),
        "QR code expired 3 times — login aborted"
    );
}

#[test]
fn redirect_changes_the_host() {
    let mut login = started();
    assert_eq!(login.poll_base_url, "https://ilinkai.weixin.qq.com");
    let step = login.on_status(status("scaned_but_redirect"), 0);
    assert_polls_after(&step, 2);
    assert_eq!(login.poll_base_url, "https://ilinkai.weixin.qq.com");
    let mut redirect = status("scaned_but_redirect");
    redirect.redirect_host = Some("idc.example".to_string());
    let step = login.on_status(redirect, 0);
    assert!(step.events.is_empty());
    assert_eq!(login.poll_base_url, "https://idc.example");
    login.on_qr_code(qr("code-2"));
    assert_eq!(login.poll_base_url, "https://ilinkai.weixin.qq.com");
    assert_eq!(login.qrcode, "code-2");
    assert_eq!(login.last_status, "");
}

fn prompt(step: &LoginStep) -> &str {
    match step.events.last() {
        Some(LoginQrEvent::NeedVerifyCode { prompt }) => prompt,
        _ => panic!("expected a prompt"),
    }
}

#[test]
fn verification_code() {
    let mut login = started();
    let step = login.on_status(status("need_verifycode"), 0);
    assert!(matches!(step.next, LoginAction::AwaitVerifyCode));
    assert_eq!(prompt(&step), "QR verification code required");
    let action = login.on_verify_code(Some(" 1234\n".to_string()));
    assert!(matches!(action, LoginAction::PollStatus { wait } if wait.is_zero()));
    assert_eq!(login.verify_code.as_deref(), Some("1234"));
    let step = login.on_status(status("need_verifycode"), 0);
    assert_eq!(prompt(&step), "QR verification code mismatch");
    login.on_status(status("scaned"), 0);
    assert_eq!(login.verify_code, None);
}

#[test]
fn missing_verification_code_fails() {
    let message = "QR verification code was not provided";
    assert_eq!(auth_error(started().on_verify_code(None)), message);
    assert_eq!(
        auth_error(started().on_verify_code(Some(" \t".to_string()))),
        message
    );
}

#[test]
fn unknown_status_polls_on() {
    let mut login = started();
    let step = login.on_status(status("something"), 0);
    assert_eq!(step.events.len(), 1);
    assert_polls_after(&step, 2);
}

#[test]
fn timestamps_are_seconds() {
    assert_eq!(timestamp_of(0), "0Z");
    assert_eq!(timestamp_of(u64::MAX), "18446744073709551615Z");
}
