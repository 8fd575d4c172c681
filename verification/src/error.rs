//! What can go wrong between a client and the iLink service.

use crate::decimal;
use crate::time::Duration;
use vstd::prelude::*;

verus! {

pub type Result<T> = core::result::Result<T, WechatIlinkError>;

#[derive(Debug)]
pub enum WechatIlinkError {
    /// The client is not logged in, or logging in failed.
    Auth(String),
    /// The message of this user carries no context to reply with.
    NoContext(String),
    /// The service answered with an error.
    Api { message: String, http_status: u16, errcode: i32 },
    /// The service asks to slow down.
    RateLimited { retry_after: Duration, message: String, http_status: u16, errcode: i32 },
    /// Media could not be moved to or from the CDN.
    Media(String),
    /// The network or the HTTP client failed.
    Transport(String),
    Other(String),
}

/// An error with its texts as sequences of characters and its delay in nanoseconds.
#[verifier::ext_equal]
pub enum ErrorView {
    Auth(Seq<char>),
    NoContext(Seq<char>),
    Api { message: Seq<char>, http_status: u16, errcode: i32 },
    RateLimited { retry_after: int, message: Seq<char>, http_status: u16, errcode: i32 },
    Media(Seq<char>),
    Transport(Seq<char>),
    Other(Seq<char>),
}

impl View for WechatIlinkError {
    type V = ErrorView;

    open spec fn view(&self) -> ErrorView {
        match *self {
            WechatIlinkError::Auth(m) => ErrorView::Auth(m@),
            WechatIlinkError::NoContext(m) => ErrorView::NoContext(m@),
            WechatIlinkError::Api { message, http_status, errcode } => ErrorView::Api {
                message: message@,
                http_status,
                errcode,
            },
            WechatIlinkError::RateLimited { retry_after, message, http_status, errcode } =>
            ErrorView::RateLimited { retry_after: retry_after@, message: message@, http_status, errcode },
            WechatIlinkError::Media(m) => ErrorView::Media(m@),
            WechatIlinkError::Transport(m) => ErrorView::Transport(m@),
            WechatIlinkError::Other(m) => ErrorView::Other(m@),
        }
    }
}

impl WechatIlinkError {
    pub fn is_rate_limited(&self) -> (b: bool)
        ensures
            b == (self is RateLimited),
    {
        match self {
            WechatIlinkError::RateLimited { .. } => true,
            _ => false,
        }
    }
}

/// The code that the service gives when it asks to slow down.
pub const RATE_LIMIT_ERRCODE: i32 = -2;

/// How long to wait, in seconds, where nothing else is configured.
pub const DEFAULT_RATE_LIMIT_RETRY_AFTER_SECS: u64 = 90;

pub open spec fn default_retry_after() -> int {
    DEFAULT_RATE_LIMIT_RETRY_AFTER_SECS * crate::time::NANOS_PER_SEC
}

/// The error that stands for a reply with `errcode`.
pub open spec fn api_error_view(message: Seq<char>, http_status: u16, errcode: i32) -> ErrorView {
    if errcode == RATE_LIMIT_ERRCODE {
        ErrorView::RateLimited { retry_after: default_retry_after(), message, http_status, errcode }
    } else {
        ErrorView::Api { message, http_status, errcode }
    }
}

/// The error that stands for a reply with `errcode`.
pub fn api_error(message: String, http_status: u16, errcode: i32) -> (err: WechatIlinkError)
    ensures
        err@ == api_error_view(message@, http_status, errcode),
{
    if errcode == RATE_LIMIT_ERRCODE {
        WechatIlinkError::RateLimited {
            retry_after: Duration::from_secs(DEFAULT_RATE_LIMIT_RETRY_AFTER_SECS),
            message,
            http_status,
            errcode,
        }
    } else {
        WechatIlinkError::Api { message, http_status, errcode }
    }
}

/// The error that stands for a backoff that is still running.
pub open spec fn backoff_view(retry_after: int) -> ErrorView {
    ErrorView::RateLimited {
        retry_after,
        message: "ret=-2"@,
        http_status: 200,
        errcode: RATE_LIMIT_ERRCODE,
    }
}

/// The error that stands for a backoff that is still running.
pub fn rate_limited_error(retry_after: Duration) -> (err: WechatIlinkError)
    ensures
        err@ == backoff_view(retry_after@),
{
    WechatIlinkError::RateLimited {
        retry_after,
        message: "ret=-2".to_owned(),
        http_status: 200,
        errcode: RATE_LIMIT_ERRCODE,
    }
}

/// `err` with another delay, where it has one.
pub open spec fn with_retry_after_view(err: ErrorView, retry_after: int) -> ErrorView {
    match err {
        ErrorView::RateLimited { message, http_status, errcode, .. } => ErrorView::RateLimited {
            retry_after,
            message,
            http_status,
            errcode,
        },
        other => other,
    }
}

/// `err` with another delay, where it has one.
pub fn with_rate_limit_retry_after(err: WechatIlinkError, retry_after: Duration) -> (r:
    WechatIlinkError)
    ensures
        r@ == with_retry_after_view(err@, retry_after@),
{
    match err {
        WechatIlinkError::RateLimited { retry_after: _, message, http_status, errcode } =>
        WechatIlinkError::RateLimited { retry_after, message, http_status, errcode },
        other => other,
    }
}

/// The error of a subscriber that has missed `skipped` events.
pub fn lagged_error(skipped: u64) -> (err: WechatIlinkError)
    ensures
        err@ == ErrorView::Other(
            "wechat event stream lagged by "@ + decimal::decimal(skipped as nat) + " events"@,
        ),
{
    WechatIlinkError::Other(
        "wechat event stream lagged by ".to_owned().concat(
            decimal::decimal_of(skipped as u128).as_str(),
        ).concat(" events"),
    )
}

/// The error of polling that has broken down.
pub fn poll_task_error(reason: &str) -> (err: WechatIlinkError)
    ensures
        err@ == ErrorView::Other("wechat poll task failed: "@ + reason@),
{
    WechatIlinkError::Other("wechat poll task failed: ".to_owned().concat(reason))
}

} // verus!
