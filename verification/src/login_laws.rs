//! What each answer means for a login.

use crate::error::ErrorView;
use crate::login;
use crate::login::{LoginActionView, LoginEventView, LoginState};
use crate::responses::QrStatusView;
use crate::text_laws;
use vstd::prelude::*;

verus! {

/// The texts of all statuses differ.
proof fn lemma_statuses()
    ensures
        "wait"@.len() == 4,
        "need_verifycode"@.len() == 15,
        "verify_code_blocked"@.len() == 19,
        "expired"@.len() == 7,
        "binded_redirect"@.len() == 15,
        "binded_redirect"@[0] == 'b',
        "need_verifycode"@[0] == 'n',
        "confirmed"@.len() == 9,
        "scaned_but_redirect"@.len() == 19,
        "scaned_but_redirect"@[0] == 's',
        "verify_code_blocked"@[0] == 'v',
        "scaned"@.len() == 6,
{
    reveal_strlit("wait");
    reveal_strlit("need_verifycode");
    reveal_strlit("verify_code_blocked");
    reveal_strlit("expired");
    reveal_strlit("binded_redirect");
    reveal_strlit("confirmed");
    reveal_strlit("scaned_but_redirect");
    reveal_strlit("scaned");
}

/// A status is told if and only if it is not the last one, before all else, and it is the last one
/// from then on. What is told besides is at most one thing.
pub proof fn law_a_new_status_is_told_first(state: LoginState, status: QrStatusView, now: nat)
    ensures
        ({
            let (next, step) = login::status_step(state, status, now);
            let told = LoginEventView::StatusChanged(status.status);
            &&& next.last_status == status.status
            &&& next.base_url == state.base_url
            &&& next.qrcode == state.qrcode
            &&& status.status != state.last_status ==> step.events.len() >= 1 && step.events[0]
                == told && step.events.len() <= 2
            &&& status.status == state.last_status ==> step.events.len() <= 1
            &&& forall|i: int|
                0 <= i < step.events.len() && (#[trigger] step.events[i]) is StatusChanged ==> i == 0
                    && step.events[i] == told && status.status != state.last_status
        }),
{
}

/// A confirmation with a token completes the login, and the credentials carry each field of the
/// status in its own place. The address is the one that the login started with where the status
/// gives none, and an id that the status does not give is empty.
pub proof fn law_confirmation_gives_credentials(state: LoginState, status: QrStatusView, now: nat)
    requires
        status.status == "confirmed"@,
        status.bot_token is Some,
    ensures
        ({
            let (next, step) = login::status_step(state, status, now);
            &&& step.next == LoginActionView::Finish
            &&& step.events.len() == (if status.status != state.last_status {
                2int
            } else {
                1int
            })
            &&& step.events.last() is Confirmed
            &&& {
                let credentials = step.events.last()->Confirmed_0;
                &&& Some(credentials.token) == status.bot_token
                &&& status.baseurl is Some ==> Some(credentials.base_url) == status.baseurl
                &&& status.baseurl is None ==> credentials.base_url == state.base_url
                &&& status.ilink_bot_id is Some ==> Some(credentials.account_id)
                    == status.ilink_bot_id
                &&& status.ilink_bot_id is None ==> credentials.account_id.len() == 0
                &&& status.ilink_user_id is Some ==> Some(credentials.user_id)
                    == status.ilink_user_id
                &&& status.ilink_user_id is None ==> credentials.user_id.len() == 0
                &&& credentials.saved_at is Some
                &&& credentials.saved_at->0 == crate::decimal::decimal(now).push('Z')
            }
            &&& next == (LoginState { last_status: "confirmed"@, ..state })
        }),
{
    lemma_statuses();
    reveal_strlit("Z");
    assert(crate::decimal::decimal(now) + "Z"@ =~= crate::decimal::decimal(now).push('Z'));
}

/// Nothing but a confirmation with a token completes a login; a confirmation without one fails it.
pub proof fn law_only_a_confirmation_completes(state: LoginState, status: QrStatusView, now: nat)
    ensures
        ({
            let (next, step) = login::status_step(state, status, now);
            let complete = status.status == "confirmed"@ && status.bot_token is Some;
            &&& step.next is Finish <==> complete
            &&& forall|i: int|
                0 <= i < step.events.len() && (#[trigger] step.events[i]) is Confirmed ==> complete
            &&& status.status == "confirmed"@ && status.bot_token is None ==> {
                &&& step.next == LoginActionView::Fail(ErrorView::Auth("missing bot_token"@))
                &&& next == (LoginState { last_status: "confirmed"@, ..state })
            }
        }),
{
    lemma_statuses();
}

/// While the QR code waits to be scanned, and after that, its status is asked for again: after one
/// second, and after two. A scan drops the verification code, and a redirect names the host that is
/// asked from then on; nothing else changes.
pub proof fn law_polling_goes_on(state: LoginState, status: QrStatusView, now: nat)
    ensures
        ({
            let (next, step) = login::status_step(state, status, now);
            let kept = LoginState { last_status: status.status, ..state };
            let told: int = if status.status != state.last_status {
                1
            } else {
                0
            };
            let kind = status.status;
            &&& kind == "wait"@ ==> {
                &&& step.next == LoginActionView::PollStatus(1_000_000_000)
                &&& next == kept
                &&& step.events.len() == told
            }
            &&& kind == "scaned"@ ==> {
                &&& step.next == LoginActionView::PollStatus(2_000_000_000)
                &&& next == (LoginState { verify_code: None, ..kept })
                &&& step.events.len() == told
            }
            &&& kind == "scaned_but_redirect"@ ==> {
                &&& step.next == LoginActionView::PollStatus(2_000_000_000)
                &&& status.redirect_host is None ==> next == kept
                &&& status.redirect_host is Some ==> next == (LoginState {
                    poll_base_url: "https://"@ + status.redirect_host->0,
                    ..kept
                })
                &&& step.events.len() == told
            }
            &&& kind != "wait"@ && kind != "scaned"@ && kind != "scaned_but_redirect"@ && kind
                != "need_verifycode"@ && kind != "verify_code_blocked"@ && kind != "expired"@
                && kind != "binded_redirect"@ && kind != "confirmed"@ ==> {
                &&& step.next == LoginActionView::PollStatus(2_000_000_000)
                &&& next == kept
                &&& step.events.len() == told
            }
        }),
{
    lemma_statuses();
}

/// A status that asks for a verification code is answered by asking for one, and the words tell a
/// first time from a code that was wrong.
pub proof fn law_verification_codes_are_asked_for(state: LoginState, status: QrStatusView, now: nat)
    ensures
        ({
            let (next, step) = login::status_step(state, status, now);
            let asked = status.status == "need_verifycode"@;
            &&& step.next is AwaitVerifyCode <==> asked
            &&& forall|i: int|
                0 <= i < step.events.len() && (#[trigger] step.events[i]) is NeedVerifyCode ==> asked
            &&& asked ==> {
                &&& next == (LoginState { last_status: status.status, ..state })
                &&& step.events.len() > 0
                &&& state.verify_code is None ==> step.events.last()
                    == LoginEventView::NeedVerifyCode("QR verification code required"@)
                &&& state.verify_code is Some ==> step.events.last()
                    == LoginEventView::NeedVerifyCode("QR verification code mismatch"@)
            }
        }),
{
    lemma_statuses();
}

/// A QR code that has expired, or for which too many codes were typed, is replaced by a new one,
/// but the fourth one is not requested: the login fails instead. No other status replaces it.
pub proof fn law_expired_codes_are_replaced(state: LoginState, status: QrStatusView, now: nat)
    ensures
        ({
            let (next, step) = login::status_step(state, status, now);
            let over = status.status == "expired"@ || status.status == "verify_code_blocked"@;
            let kept = LoginState { last_status: status.status, ..state };
            &&& step.next is FetchQrCode <==> over && state.refresh_count < 3
            &&& over && state.refresh_count < 3 ==> next == (LoginState {
                refresh_count: state.refresh_count + 1,
                ..kept
            })
            &&& over && state.refresh_count >= 3 ==> {
                &&& next == kept
                &&& step.next == LoginActionView::Fail(
                    ErrorView::Auth("QR code expired 3 times — login aborted"@),
                )
            }
            &&& !over ==> next.refresh_count == state.refresh_count
            &&& status.status == "binded_redirect"@ ==> {
                &&& next == kept
                &&& step.next == LoginActionView::Fail(
                    ErrorView::Auth("QR login is already bound to this app"@),
                )
            }
        }),
{
    lemma_statuses();
    lemma_aborted();
}

proof fn lemma_aborted()
    ensures
        "QR code expired "@ + crate::decimal::decimal(3) + " times — login aborted"@
            == "QR code expired 3 times — login aborted"@,
{
    reveal_strlit("QR code expired ");
    reveal_strlit(" times — login aborted");
    reveal_strlit("QR code expired 3 times — login aborted");
    assert(crate::decimal::decimal(3) =~= seq!['3']);
    assert("QR code expired "@ + crate::decimal::decimal(3) + " times — login aborted"@
        =~= "QR code expired 3 times — login aborted"@);
}

/// A QR code that has come is shown, and its status is asked for at once, at the usual place, with
/// no verification code.
pub proof fn law_a_qr_code_is_shown(state: LoginState, qrcode: Seq<char>, content: Seq<char>)
    ensures
        ({
            let (next, step) = login::qr_code_step(state, qrcode, content);
            &&& step.events == seq![LoginEventView::QrCode(content)]
            &&& step.next == LoginActionView::PollStatus(0)
            &&& next.qrcode == qrcode
            &&& next.last_status.len() == 0
            &&& next.poll_base_url == "https://ilinkai.weixin.qq.com"@
            &&& next.verify_code is None
            &&& next.base_url == state.base_url
            &&& next.refresh_count == state.refresh_count
        }),
{
}

/// A login starts with the request for a first QR code.
pub proof fn law_a_login_starts_with_a_qr_code(state: LoginState)
    requires
        state.refresh_count == 0,
    ensures
        login::refresh_step(state) == (
            LoginState { refresh_count: 1, ..state },
            LoginActionView::FetchQrCode,
        ),
{
}

/// A verification code is kept without the white space around it, and the status is asked for at
/// once. Where nothing was typed, or only white space, the login fails.
pub proof fn law_typed_codes_are_kept(
    state: LoginState,
    before: Seq<char>,
    code: Seq<char>,
    after: Seq<char>,
)
    requires
        text_laws::is_blank(before),
        text_laws::is_bare(code),
        text_laws::is_blank(after),
    ensures
        code.len() > 0 ==> login::verify_code_step(state, Some(before + code + after)) == (
            LoginState { verify_code: Some(code), ..state },
            LoginActionView::PollStatus(0),
        ),
        code.len() == 0 ==> login::verify_code_step(state, Some(before + code + after)) == (
            state,
            LoginActionView::Fail(ErrorView::Auth("QR verification code was not provided"@)),
        ),
        login::verify_code_step(state, None) == (
            state,
            LoginActionView::Fail(ErrorView::Auth("QR verification code was not provided"@)),
        ),
{
    text_laws::law_trim_takes_off_white_space(before, code, after);
    text_laws::lemma_trim_blank(Seq::empty());
}

} // verus!
