//! Logging in with a QR code.

use crate::decimal;
use crate::error::{ErrorView, WechatIlinkError};
use crate::responses::{QrCodeResponse, QrStatusResponse, QrStatusView};
use crate::text;
use crate::time::{self, Duration};
use crate::types::{Credentials, CredentialsView};
use vstd::prelude::*;

verus! {

/// How many QR codes are requested before a login is given up.
pub const MAX_QR_REFRESH: u32 = 3;

/// Where QR codes come from.
pub const FIXED_QR_BASE_URL: &'static str = "https://ilinkai.weixin.qq.com";

/// What an application learns during a login.
#[derive(Debug)]
pub enum LoginQrEvent {
    /// A new QR code is to be shown.
    QrCode { content: String },
    /// The login has come further.
    StatusChanged { status: String },
    /// The user has to type a verification code.
    NeedVerifyCode { prompt: String },
    /// The login is complete.
    Confirmed { credentials: Credentials },
}

/// What is to be done next.
#[derive(Debug)]
pub enum LoginAction {
    /// Request a new QR code from [`FIXED_QR_BASE_URL`].
    FetchQrCode,
    /// Ask for the status after this delay.
    PollStatus { wait: Duration },
    /// Wait for the verification code.
    AwaitVerifyCode,
    /// Nothing: the login is complete.
    Finish,
    /// Nothing: the login has failed.
    Fail(WechatIlinkError),
}

/// The events that one answer gives rise to, and what is to be done next.
#[derive(Debug)]
pub struct LoginStep {
    pub events: Vec<LoginQrEvent>,
    pub next: LoginAction,
}

/// A login in progress.
#[derive(Debug)]
pub struct QrLogin {
    /// The address of the service for a confirmation that gives none.
    pub base_url: String,
    /// How many QR codes have been requested.
    pub refresh_count: u32,
    /// The QR code that is shown.
    pub qrcode: String,
    pub last_status: String,
    /// Where the status is asked for.
    pub poll_base_url: String,
    pub verify_code: Option<String>,
}

#[verifier::ext_equal]
pub enum LoginEventView {
    QrCode(Seq<char>),
    StatusChanged(Seq<char>),
    NeedVerifyCode(Seq<char>),
    Confirmed(CredentialsView),
}

#[verifier::ext_equal]
pub enum LoginActionView {
    FetchQrCode,
    PollStatus(int),
    AwaitVerifyCode,
    Finish,
    Fail(ErrorView),
}

#[verifier::ext_equal]
pub struct LoginStepView {
    pub events: Seq<LoginEventView>,
    pub next: LoginActionView,
}

#[verifier::ext_equal]
pub struct LoginState {
    pub base_url: Seq<char>,
    pub refresh_count: int,
    pub qrcode: Seq<char>,
    pub last_status: Seq<char>,
    pub poll_base_url: Seq<char>,
    pub verify_code: Option<Seq<char>>,
}

impl View for LoginQrEvent {
    type V = LoginEventView;

    open spec fn view(&self) -> LoginEventView {
        match *self {
            LoginQrEvent::QrCode { content } => LoginEventView::QrCode(content@),
            LoginQrEvent::StatusChanged { status } => LoginEventView::StatusChanged(status@),
            LoginQrEvent::NeedVerifyCode { prompt } => LoginEventView::NeedVerifyCode(prompt@),
            LoginQrEvent::Confirmed { credentials } => LoginEventView::Confirmed(credentials@),
        }
    }
}

impl View for LoginAction {
    type V = LoginActionView;

    open spec fn view(&self) -> LoginActionView {
        match *self {
            LoginAction::FetchQrCode => LoginActionView::FetchQrCode,
            LoginAction::PollStatus { wait } => LoginActionView::PollStatus(wait@),
            LoginAction::AwaitVerifyCode => LoginActionView::AwaitVerifyCode,
            LoginAction::Finish => LoginActionView::Finish,
            LoginAction::Fail(err) => LoginActionView::Fail(err@),
        }
    }
}

impl View for LoginStep {
    type V = LoginStepView;

    open spec fn view(&self) -> LoginStepView {
        LoginStepView {
            events: self.events@.map_values(|e: LoginQrEvent| e@),
            next: self.next@,
        }
    }
}

impl View for QrLogin {
    type V = LoginState;

    open spec fn view(&self) -> LoginState {
        LoginState {
            base_url: self.base_url@,
            refresh_count: self.refresh_count as int,
            qrcode: self.qrcode@,
            last_status: self.last_status@,
            poll_base_url: self.poll_base_url@,
            verify_code: crate::types::option_view(self.verify_code),
        }
    }
}

pub open spec fn seconds(n: int) -> int {
    n * time::NANOS_PER_SEC
}

/// The error of a login for which no more QR codes are requested.
pub open spec fn aborted_view() -> ErrorView {
    ErrorView::Auth(
        "QR code expired "@ + decimal::decimal(MAX_QR_REFRESH as nat) + " times — login aborted"@,
    )
}

/// Asking for another QR code.
pub open spec fn refresh_step(state: LoginState) -> (LoginState, LoginActionView) {
    if state.refresh_count >= MAX_QR_REFRESH {
        (state, LoginActionView::Fail(aborted_view()))
    } else {
        (
            LoginState { refresh_count: state.refresh_count + 1, ..state },
            LoginActionView::FetchQrCode,
        )
    }
}

/// A QR code has come: it is shown, and its status is asked for.
pub open spec fn qr_code_step(state: LoginState, qrcode: Seq<char>, content: Seq<char>) -> (
    LoginState,
    LoginStepView,
) {
    (
        LoginState {
            qrcode,
            last_status: Seq::empty(),
            poll_base_url: FIXED_QR_BASE_URL@,
            verify_code: None,
            ..state
        },
        LoginStepView {
            events: seq![LoginEventView::QrCode(content)],
            next: LoginActionView::PollStatus(0),
        },
    )
}

pub open spec fn or_else(value: Option<Seq<char>>, default: Seq<char>) -> Seq<char> {
    match value {
        Some(value) => value,
        None => default,
    }
}

/// The time of a login as it is kept with the credentials.
pub open spec fn timestamp(unix_secs: nat) -> Seq<char> {
    decimal::decimal(unix_secs) + "Z"@
}

/// The credentials that a confirmation carries.
pub open spec fn confirmed_credentials(
    state: LoginState,
    status: QrStatusView,
    token: Seq<char>,
    now: nat,
) -> CredentialsView {
    CredentialsView {
        token,
        base_url: or_else(status.baseurl, state.base_url),
        account_id: or_else(status.ilink_bot_id, Seq::empty()),
        user_id: or_else(status.ilink_user_id, Seq::empty()),
        saved_at: Some(timestamp(now)),
    }
}

/// What a status leads to, apart from telling that it has changed.
pub open spec fn status_outcome(state: LoginState, status: QrStatusView, now: nat) -> (
    LoginState,
    Option<LoginEventView>,
    LoginActionView,
) {
    let kind = status.status;
    if kind == "wait"@ {
        (state, None, LoginActionView::PollStatus(seconds(1)))
    } else if kind == "need_verifycode"@ {
        let prompt = if state.verify_code is Some {
            "QR verification code mismatch"@
        } else {
            "QR verification code required"@
        };
        (state, Some(LoginEventView::NeedVerifyCode(prompt)), LoginActionView::AwaitVerifyCode)
    } else if kind == "verify_code_blocked"@ || kind == "expired"@ {
        let (next, action) = refresh_step(state);
        (next, None, action)
    } else if kind == "binded_redirect"@ {
        (
            state,
            None,
            LoginActionView::Fail(ErrorView::Auth("QR login is already bound to this app"@)),
        )
    } else if kind == "confirmed"@ {
        match status.bot_token {
            Some(token) => (
                state,
                Some(LoginEventView::Confirmed(confirmed_credentials(state, status, token, now))),
                LoginActionView::Finish,
            ),
            None => (state, None, LoginActionView::Fail(ErrorView::Auth("missing bot_token"@))),
        }
    } else if kind == "scaned_but_redirect"@ {
        let next = match status.redirect_host {
            Some(host) => LoginState { poll_base_url: "https://"@ + host, ..state },
            None => state,
        };
        (next, None, LoginActionView::PollStatus(seconds(2)))
    } else if kind == "scaned"@ {
        (
            LoginState { verify_code: None, ..state },
            None,
            LoginActionView::PollStatus(seconds(2)),
        )
    } else {
        (state, None, LoginActionView::PollStatus(seconds(2)))
    }
}

/// What a status leads to: first that it has changed, where it has.
pub open spec fn status_step(state: LoginState, status: QrStatusView, now: nat) -> (
    LoginState,
    LoginStepView,
) {
    let (next, event, action) = status_outcome(
        LoginState { last_status: status.status, ..state },
        status,
        now,
    );
    let changed = if status.status != state.last_status {
        seq![LoginEventView::StatusChanged(status.status)]
    } else {
        Seq::empty()
    };
    let events = match event {
        Some(event) => changed.push(event),
        None => changed,
    };
    (next, LoginStepView { events, next: action })
}

/// A verification code was typed, or not.
pub open spec fn verify_code_step(state: LoginState, code: Option<Seq<char>>) -> (
    LoginState,
    LoginActionView,
) {
    let code = text::trim(or_else(code, Seq::empty()));
    if code.len() == 0 {
        (
            state,
            LoginActionView::Fail(ErrorView::Auth("QR verification code was not provided"@)),
        )
    } else {
        (LoginState { verify_code: Some(code), ..state }, LoginActionView::PollStatus(0))
    }
}

/// `unix_secs` seconds after the Unix epoch, as it is kept with the credentials.
pub fn timestamp_of(unix_secs: u64) -> (s: String)
    ensures
        s@ == timestamp(unix_secs as nat),
{
    decimal::decimal_of(unix_secs as u128).concat("Z")
}

fn aborted_error() -> (err: WechatIlinkError)
    ensures
        err@ == aborted_view(),
{
    WechatIlinkError::Auth(
        "QR code expired ".to_owned().concat(decimal::decimal_of(MAX_QR_REFRESH as u128).as_str()).concat(
            " times — login aborted",
        ),
    )
}

fn unwrap_or(value: Option<String>, default: &str) -> (s: String)
    ensures
        s@ == or_else(crate::types::option_view(value), default@),
{
    match value {
        Some(value) => value,
        None => default.to_owned(),
    }
}

impl QrLogin {
    /// Starts a login: a first QR code is to be requested.
    pub fn start(base_url: String) -> (r: (QrLogin, LoginAction))
        ensures
            (r.0@, r.1@) == refresh_step(
                LoginState {
                    base_url: base_url@,
                    refresh_count: 0,
                    qrcode: Seq::empty(),
                    last_status: Seq::empty(),
                    poll_base_url: FIXED_QR_BASE_URL@,
                    verify_code: None,
                },
            ),
    {
        let mut login = QrLogin {
            base_url,
            refresh_count: 0,
            qrcode: String::new(),
            last_status: String::new(),
            poll_base_url: FIXED_QR_BASE_URL.to_owned(),
            verify_code: None,
        };
        let action = login.refresh();
        (login, action)
    }

    /// Asks for another QR code, unless that was done often enough.
    fn refresh(&mut self) -> (action: LoginAction)
        ensures
            (final(self)@, action@) == refresh_step(old(self)@),
    {
        if self.refresh_count >= MAX_QR_REFRESH {
            LoginAction::Fail(aborted_error())
        } else {
            self.refresh_count += 1;
            LoginAction::FetchQrCode
        }
    }

    /// Takes the QR code that was requested.
    pub fn on_qr_code(&mut self, qr: QrCodeResponse) -> (step: LoginStep)
        ensures
            (final(self)@, step@) == qr_code_step(old(self)@, qr.qrcode@, qr.qrcode_img_content@),
    {
        self.qrcode = qr.qrcode;
        self.last_status = String::new();
        self.poll_base_url = FIXED_QR_BASE_URL.to_owned();
        self.verify_code = None;
        let mut events: Vec<LoginQrEvent> = Vec::new();
        events.push(LoginQrEvent::QrCode { content: qr.qrcode_img_content });
        LoginStep { events, next: LoginAction::PollStatus { wait: Duration::from_secs(0) } }
    }

    /// Takes the status that was asked for, `unix_secs` seconds after the Unix epoch.
    pub fn on_status(&mut self, status: QrStatusResponse, unix_secs: u64) -> (step: LoginStep)
        ensures
            (final(self)@, step@) == status_step(old(self)@, status@, unix_secs as nat),
    {
        let mut events: Vec<LoginQrEvent> = Vec::new();
        if status.status != self.last_status {
            self.last_status = status.status.clone();
            events.push(LoginQrEvent::StatusChanged { status: status.status.clone() });
        }
        let next = if text::is(&status.status, "wait") {
            LoginAction::PollStatus { wait: Duration::from_secs(1) }
        } else if text::is(&status.status, "need_verifycode") {
            let prompt = if self.verify_code.is_some() {
                "QR verification code mismatch".to_owned()
            } else {
                "QR verification code required".to_owned()
            };
            events.push(LoginQrEvent::NeedVerifyCode { prompt });
            LoginAction::AwaitVerifyCode
        } else if text::is(&status.status, "verify_code_blocked") || text::is(
            &status.status,
            "expired",
        ) {
            self.refresh()
        } else if text::is(&status.status, "binded_redirect") {
            LoginAction::Fail(
                WechatIlinkError::Auth("QR login is already bound to this app".to_owned()),
            )
        } else if text::is(&status.status, "confirmed") {
            match status.bot_token {
                Some(token) => {
                    let credentials = Credentials {
                        token,
                        base_url: unwrap_or(status.baseurl, self.base_url.as_str()),
                        account_id: status.ilink_bot_id.unwrap_or_default(),
                        user_id: status.ilink_user_id.unwrap_or_default(),
                        saved_at: Some(timestamp_of(unix_secs)),
                    };
                    events.push(LoginQrEvent::Confirmed { credentials });
                    LoginAction::Finish
                },
                None => LoginAction::Fail(WechatIlinkError::Auth("missing bot_token".to_owned())),
            }
        } else if text::is(&status.status, "scaned_but_redirect") {
            if let Some(host) = &status.redirect_host {
                self.poll_base_url = "https://".to_owned().concat(host.as_str());
            }
            LoginAction::PollStatus { wait: Duration::from_secs(2) }
        } else {
            if text::is(&status.status, "scaned") {
                self.verify_code = None;
            }
            LoginAction::PollStatus { wait: Duration::from_secs(2) }
        };
        LoginStep { events, next }
    }

    /// Takes the verification code that was typed; there is none where it was cancelled.
    pub fn on_verify_code(&mut self, code: Option<String>) -> (action: LoginAction)
        ensures
            (final(self)@, action@) == verify_code_step(
                old(self)@,
                crate::types::option_view(code),
            ),
    {
        proof {
            reveal_strlit("");
            assert(""@ =~= Seq::<char>::empty());
        }
        let code = text::trimmed(&text::chars_of(unwrap_or(code, "").as_str()));
        if code.len() == 0 {
            LoginAction::Fail(
                WechatIlinkError::Auth("QR verification code was not provided".to_owned()),
            )
        } else {
            self.verify_code = Some(text::string_of(&code));
            LoginAction::PollStatus { wait: Duration::from_secs(0) }
        }
    }
}

/// What can come in during a login.
pub enum LoginInput {
    QrCode { qrcode: Seq<char>, content: Seq<char> },
    Status { status: QrStatusView, now: nat },
    VerifyCode(Option<Seq<char>>),
}

pub open spec fn input_step(state: LoginState, input: LoginInput) -> (LoginState, LoginActionView) {
    match input {
        LoginInput::QrCode { qrcode, content } => {
            let (next, step) = qr_code_step(state, qrcode, content);
            (next, step.next)
        },
        LoginInput::Status { status, now } => {
            let (next, step) = status_step(state, status, now);
            (next, step.next)
        },
        LoginInput::VerifyCode(code) => verify_code_step(state, code),
    }
}

/// How many QR codes are requested while `inputs` come in.
pub open spec fn codes_requested(state: LoginState, inputs: Seq<LoginInput>) -> nat
    decreases inputs.len(),
{
    if inputs.len() == 0 {
        0
    } else {
        let (next, action) = input_step(state, inputs[0]);
        codes_requested(next, inputs.drop_first()) + if action is FetchQrCode {
            1nat
        } else {
            0nat
        }
    }
}

/// Whatever comes in, a login requests no more than [`MAX_QR_REFRESH`] QR codes in all, the first
/// one included.
pub proof fn law_qr_codes_are_limited(state: LoginState, inputs: Seq<LoginInput>)
    requires
        0 <= state.refresh_count <= MAX_QR_REFRESH,
    ensures
        state.refresh_count + codes_requested(state, inputs) <= MAX_QR_REFRESH,
    decreases inputs.len(),
{
    if inputs.len() > 0 {
        let (next, action) = input_step(state, inputs[0]);
        law_qr_codes_are_limited(next, inputs.drop_first());
    }
}

/// A status is told when it comes, and not again when it comes a second time in a row.
pub proof fn law_status_is_told_once(
    state: LoginState,
    first: QrStatusView,
    first_now: nat,
    second: QrStatusView,
    second_now: nat,
)
    requires
        first.status == second.status,
    ensures
        ({
            let (after, step) = status_step(state, first, first_now);
            let (_, again) = status_step(after, second, second_now);
            let told = LoginEventView::StatusChanged(first.status);
            &&& step.events.contains(told) <==> first.status != state.last_status
            &&& !again.events.contains(told)
        }),
{
    let (after, step) = status_step(state, first, first_now);
    let told = LoginEventView::StatusChanged(first.status);
    if first.status != state.last_status {
        assert(step.events[0] == told);
    }
}

/// A new QR code starts from nothing: no status, no verification code, no other host.
pub proof fn law_qr_code_starts_afresh(
    state: LoginState,
    other: LoginState,
    qrcode: Seq<char>,
    content: Seq<char>,
)
    requires
        state.base_url == other.base_url,
        state.refresh_count == other.refresh_count,
    ensures
        qr_code_step(state, qrcode, content) == qr_code_step(other, qrcode, content),
{
}

} // verus!
