//! How a client paces itself, and what it starts with.

use crate::bot;
use crate::bot::{WechatIlinkClient, WechatIlinkClientBuilder, WechatRateLimitOptions};
use crate::delivery;
use crate::delivery::ReceiptView;
use crate::error;
use crate::error::ErrorView;
use crate::events::{EventView, ReasonView};
use crate::rate_limit;
use crate::rate_limit::AccountState;
use crate::retry;
use crate::retry::DecisionView;
use crate::types::Credentials;
use vstd::prelude::*;

verus! {

/// An error that does not ask to slow down is given up as it is, at once. One that does is given up when
/// the request was repeated often enough, with the delay of the policy in it and all else as it was;
/// before that the request is repeated, after that delay where there is one and an account to wait for.
pub proof fn law_only_limits_are_waited_for(
    account_key: Seq<char>,
    retries: int,
    retry_attempts: int,
    retry_after: int,
    err: ErrorView,
)
    ensures
        ({
            let decision = retry::decision(
                account_key,
                retries,
                retry_attempts,
                retry_after,
                err,
            );
            &&& !(err is RateLimited) ==> decision == DecisionView::GiveUp(err)
            &&& err is RateLimited && retries >= retry_attempts ==> decision == DecisionView::GiveUp(
                ErrorView::RateLimited {
                    retry_after,
                    message: err->RateLimited_message,
                    http_status: err->RateLimited_http_status,
                    errcode: err->RateLimited_errcode,
                },
            )
            &&& err is RateLimited && retries < retry_attempts && account_key.len() > 0 && retry_after
                != 0 ==> decision == DecisionView::TryAgain(Some(retry_after))
            &&& err is RateLimited && retries < retry_attempts && (account_key.len() == 0
                || retry_after == 0) ==> decision == DecisionView::TryAgain(None)
        }),
{
}

/// The error of an account that still holds back tells for how long, as the service would have said it.
/// Another delay changes nothing else of an error, and nothing of one that has none.
pub proof fn law_delays_of_errors(delay: int, err: ErrorView)
    ensures
        error::backoff_view(delay) == (ErrorView::RateLimited {
            retry_after: delay,
            message: "ret=-2"@,
            http_status: 200,
            errcode: -2i32,
        }),
        !(err is RateLimited) ==> error::with_retry_after_view(err, delay) == err,
        err is RateLimited ==> error::with_retry_after_view(err, delay) == (ErrorView::RateLimited {
            retry_after: delay,
            message: err->RateLimited_message,
            http_status: err->RateLimited_http_status,
            errcode: err->RateLimited_errcode,
        }),
{
}

/// The code -2 asks to slow down, for 90 seconds unless another time was chosen; every other code is an
/// error of the service. The words, the status and the code are kept.
pub proof fn law_errors_of_the_service(message: Seq<char>, http_status: u16, errcode: i32)
    ensures
        errcode == -2 ==> error::api_error_view(message, http_status, errcode)
            == (ErrorView::RateLimited {
            retry_after: 90_000_000_000,
            message,
            http_status,
            errcode,
        }),
        errcode != -2 ==> error::api_error_view(message, http_status, errcode) == (ErrorView::Api {
            message,
            http_status,
            errcode,
        }),
{
}

/// An account holds back until its time has come and not a moment longer, and then forgets it. To be told
/// again never shortens the time; it ends with the later of the two.
pub proof fn law_holding_back(state: AccountState, now: int, until: int)
    ensures
        state.next_allowed_at matches Some(t) ==> if now < t {
            &&& rate_limit::remaining_backoff(state, now) == Some(t - now)
            &&& rate_limit::after_check(state, now) == state
        } else {
            &&& rate_limit::remaining_backoff(state, now) is None
            &&& rate_limit::after_check(state, now) == (AccountState {
                sent_at: state.sent_at,
                next_allowed_at: None,
            })
        },
        state.next_allowed_at is None ==> rate_limit::remaining_backoff(state, now) is None
            && rate_limit::after_check(state, now) == state,
        rate_limit::after_deferral(state, until).sent_at == state.sent_at,
        rate_limit::after_deferral(state, until).next_allowed_at == Some(
            if state.next_allowed_at is Some && state.next_allowed_at->0 > until {
                state.next_allowed_at->0
            } else {
                until
            },
        ),
{
}

/// What is known of an account: what the table holds, and nothing sent and no time where it holds
/// nothing. A message that was sent leaves the time until which the account holds back as it was.
pub proof fn law_accounts_are_known(
    table: Map<Seq<char>, AccountState>,
    key: Seq<char>,
    state: AccountState,
    now: int,
    window: int,
)
    ensures
        table.dom().contains(key) ==> rate_limit::state_of(table, key) == table[key],
        !table.dom().contains(key) ==> rate_limit::state_of(table, key).sent_at.len() == 0
            && rate_limit::state_of(table, key).next_allowed_at is None,
        rate_limit::idle().sent_at.len() == 0,
        rate_limit::idle().next_allowed_at is None,
        rate_limit::after_send(state, now, window).next_allowed_at == state.next_allowed_at,
        rate_limit::after_send(state, now, window).sent_at.last() == now,
{
}

/// The event at the threshold tells the account, how many messages were counted, over what time, and the
/// threshold, and names no user.
pub proof fn law_the_event_tells_the_count(client: WechatIlinkClient, now: int)
    requires
        bot::send_event(client, now) is Some,
    ensures
        bot::send_event(client, now)->0 == (EventView::UserInteractionRequested {
            account_key: crate::poll_laws::own_key(client),
            user_id: None,
            reason: ReasonView::OutboundRateLimitApproaching {
                sent_count: client.rate_limit.interaction_threshold as int,
                window: client.rate_limit.interaction_window@,
                threshold: client.rate_limit.interaction_threshold as int,
            },
        }),
{
}

/// The key of an account is its own id, or that of its user where it has none; without credentials there
/// is none.
pub proof fn law_account_keys(credentials: Credentials)
    ensures
        bot::key_of(None).len() == 0,
        credentials.account_id@.len() > 0 ==> bot::key_of(Some(credentials))
            == credentials.account_id@,
        credentials.account_id@.len() == 0 ==> bot::key_of(Some(credentials)) == credentials.user_id@,
{
}

/// Where nothing is chosen a client waits 90 seconds, tries again five times, asks for a message at six
/// within five minutes, and takes a context to be good for a day, of which it tells 30 minutes ahead.
pub proof fn law_usual_policy(options: WechatRateLimitOptions)
    requires
        bot::is_default_policy(options),
    ensures
        options.retry_after@ == 90_000_000_000,
        options.retry_attempts == 5,
        options.interaction_window@ == 300_000_000_000,
        options.interaction_threshold == 6,
        options.context_ttl@ == 86_400_000_000_000,
        options.context_remind_before@ == 1_800_000_000_000,
{
}

/// A builder for which nothing was chosen filters Markdown and has nothing else.
pub proof fn law_usual_builder(builder: WechatIlinkClientBuilder)
    requires
        bot::is_default_builder(builder),
    ensures
        builder.base_url is None,
        builder.bot_agent is None,
        builder.ilink_app_id is None,
        builder.route_tag is None,
        builder.credentials is None,
        builder.markdown_filter,
        builder.rate_limit.retry_attempts == 5,
        builder.rate_limit.interaction_threshold == 6,
        bot::is_default_policy(builder.rate_limit),
{
}

/// A client has what was chosen for it, each choice in its own place, and starts with nothing sent and
/// nobody known. Its address is that of the credentials, else the chosen one, else the usual one.
pub proof fn law_clients_are_built(client: WechatIlinkClient, builder: WechatIlinkClientBuilder)
    requires
        bot::built_from(client, builder),
    ensures
        client.client.options.bot_agent == builder.bot_agent,
        client.client.options.route_tag == builder.route_tag,
        client.client.options.ilink_app_id == builder.ilink_app_id,
        client.client.options.markdown_filter == builder.markdown_filter,
        client.credentials == builder.credentials,
        client.rate_limit == builder.rate_limit,
        !client.stopped,
        client.rate_limit_states@ == Map::<Seq<char>, AccountState>::empty(),
        client.context_refresh_states@.len() == 0,
        builder.credentials matches Some(credentials) ==> client.base_url@ == credentials.base_url@,
        builder.credentials is None && builder.base_url is Some ==> client.base_url@
            == builder.base_url->0@,
        builder.credentials is None && builder.base_url is None ==> client.base_url@
            == "https://ilinkai.weixin.qq.com"@,
{
}

/// Receipts are put together in order, and an empty one adds nothing.
pub proof fn law_receipts(a: ReceiptView, b: ReceiptView)
    ensures
        delivery::joined(a, b).message_ids == a.message_ids + b.message_ids,
        delivery::joined(a, b).visible_texts == a.visible_texts + b.visible_texts,
        delivery::joined(delivery::empty_receipt(), b) == b,
        delivery::joined(a, delivery::empty_receipt()) == a,
{
    let e = delivery::empty_receipt();
    assert(delivery::joined(e, b) =~= b);
    assert(delivery::joined(a, e) =~= a);
}

} // verus!
