//! What the operations on a client do to it and tell of it.

use crate::bot;
use crate::bot::{WechatIlinkClient, WechatIlinkClientBuilder};
use crate::contexts::ContextEntry;
use crate::error::WechatIlinkError;
use crate::events;
use crate::events::{EventView, UserInteractionReason, WechatEvent};
use crate::pacing_laws;
use crate::poll_laws;
use crate::rate_limit::AccountState;
use crate::retry::{RateLimitRetry, RetryDecision};
use crate::time::{Duration, Instant, SystemTime};
use crate::types::{Credentials, IncomingMessage, WechatContext};
use vstd::prelude::*;

verus! {

/// What is chosen for a client is what the client has. Nothing else changes with a choice.
pub proof fn law_choices_are_kept(
    b: WechatIlinkClientBuilder,
    s: &str,
    on: bool,
    creds: Credentials,
    with_url: WechatIlinkClientBuilder,
    with_agent: WechatIlinkClientBuilder,
    with_app: WechatIlinkClientBuilder,
    with_tag: WechatIlinkClientBuilder,
    with_filter: WechatIlinkClientBuilder,
    with_creds: WechatIlinkClientBuilder,
)
    requires
        call_ensures(WechatIlinkClientBuilder::base_url, (b, s), with_url),
        call_ensures(WechatIlinkClientBuilder::bot_agent, (b, s), with_agent),
        call_ensures(WechatIlinkClientBuilder::ilink_app_id, (b, s), with_app),
        call_ensures(WechatIlinkClientBuilder::route_tag, (b, s), with_tag),
        call_ensures(WechatIlinkClientBuilder::markdown_filter, (b, on), with_filter),
        call_ensures(WechatIlinkClientBuilder::credentials, (b, creds), with_creds),
    ensures
        with_url.base_url is Some && with_url.base_url->0@ == s@,
        b == (WechatIlinkClientBuilder { base_url: b.base_url, ..with_url }),
        with_agent.bot_agent is Some && with_agent.bot_agent->0@ == s@,
        b == (WechatIlinkClientBuilder { bot_agent: b.bot_agent, ..with_agent }),
        with_app.ilink_app_id is Some && with_app.ilink_app_id->0@ == s@,
        b == (WechatIlinkClientBuilder { ilink_app_id: b.ilink_app_id, ..with_app }),
        with_tag.route_tag is Some && with_tag.route_tag->0@ == s@,
        b == (WechatIlinkClientBuilder { route_tag: b.route_tag, ..with_tag }),
        with_filter.markdown_filter == on,
        b == (WechatIlinkClientBuilder { markdown_filter: b.markdown_filter, ..with_filter }),
        with_creds.credentials == Some(creds),
        b == (WechatIlinkClientBuilder { credentials: b.credentials, ..with_creds }),
{
}

/// What is chosen of the policy is what the policy says. A delay of zero stands for the usual one, and a
/// lifetime or a window of zero for what was chosen before. Both names of the number of retries choose
/// it.
pub proof fn law_policies_are_kept(
    b: WechatIlinkClientBuilder,
    d: Duration,
    n: usize,
    after: WechatIlinkClientBuilder,
    attempts: WechatIlinkClientBuilder,
    retries: WechatIlinkClientBuilder,
    ttl: WechatIlinkClientBuilder,
    remind: WechatIlinkClientBuilder,
    window: WechatIlinkClientBuilder,
    threshold: WechatIlinkClientBuilder,
)
    requires
        call_ensures(WechatIlinkClientBuilder::rate_limit_retry_after, (b, d), after),
        call_ensures(WechatIlinkClientBuilder::rate_limit_retry_attempts, (b, n), attempts),
        call_ensures(WechatIlinkClientBuilder::rate_limit_max_retries, (b, n), retries),
        call_ensures(WechatIlinkClientBuilder::context_ttl, (b, d), ttl),
        call_ensures(WechatIlinkClientBuilder::context_expiry_remind_before, (b, d), remind),
        call_ensures(WechatIlinkClientBuilder::rate_limit_interaction_window, (b, d), window),
        call_ensures(WechatIlinkClientBuilder::rate_limit_interaction_threshold, (b, n), threshold),
    ensures
        after.rate_limit.retry_after@ == if d@ == 0 {
            90_000_000_000
        } else {
            d@
        },
        after.rate_limit.retry_attempts == b.rate_limit.retry_attempts,
        after.rate_limit.interaction_window == b.rate_limit.interaction_window,
        after.rate_limit.interaction_threshold == b.rate_limit.interaction_threshold,
        after.rate_limit.context_ttl == b.rate_limit.context_ttl,
        after.rate_limit.context_remind_before == b.rate_limit.context_remind_before,
        b == (WechatIlinkClientBuilder { rate_limit: b.rate_limit, ..after }),
        attempts.rate_limit.retry_attempts == n,
        attempts.rate_limit.retry_after == b.rate_limit.retry_after,
        attempts.rate_limit.interaction_threshold == b.rate_limit.interaction_threshold,
        b == (WechatIlinkClientBuilder { rate_limit: b.rate_limit, ..attempts }),
        retries == attempts,
        ttl.rate_limit.context_ttl == if d@ == 0 {
            b.rate_limit.context_ttl
        } else {
            d
        },
        ttl.rate_limit.context_remind_before == b.rate_limit.context_remind_before,
        ttl.rate_limit.interaction_window == b.rate_limit.interaction_window,
        ttl.rate_limit.retry_after == b.rate_limit.retry_after,
        b == (WechatIlinkClientBuilder { rate_limit: b.rate_limit, ..ttl }),
        remind.rate_limit.context_remind_before == d,
        remind.rate_limit.context_ttl == b.rate_limit.context_ttl,
        remind.rate_limit.interaction_window == b.rate_limit.interaction_window,
        remind.rate_limit.retry_after == b.rate_limit.retry_after,
        b == (WechatIlinkClientBuilder { rate_limit: b.rate_limit, ..remind }),
        window.rate_limit.interaction_window == if d@ == 0 {
            b.rate_limit.interaction_window
        } else {
            d
        },
        window.rate_limit.context_ttl == b.rate_limit.context_ttl,
        window.rate_limit.context_remind_before == b.rate_limit.context_remind_before,
        window.rate_limit.retry_after == b.rate_limit.retry_after,
        b == (WechatIlinkClientBuilder { rate_limit: b.rate_limit, ..window }),
        threshold.rate_limit.interaction_threshold == n,
        threshold.rate_limit.retry_attempts == b.rate_limit.retry_attempts,
        b == (WechatIlinkClientBuilder { rate_limit: b.rate_limit, ..threshold }),
{
}

/// A client for which nothing was chosen has the usual address and policy, and is not logged in. One for
/// which credentials were chosen is logged in with them, and has their address.
pub proof fn law_clients_start(
    b: WechatIlinkClientBuilder,
    chosen: WechatIlinkClientBuilder,
    creds: Credentials,
    logged_in: WechatIlinkClient,
    fresh: WechatIlinkClient,
)
    requires
        call_ensures(WechatIlinkClient::builder, (), b),
        call_ensures(WechatIlinkClientBuilder::credentials, (b, creds), chosen),
        call_ensures(WechatIlinkClientBuilder::build, (chosen,), logged_in),
        call_ensures(WechatIlinkClient::new, (), fresh),
    ensures
        fresh.credentials is None,
        fresh.base_url@ == "https://ilinkai.weixin.qq.com"@,
        fresh.client.options.markdown_filter,
        !fresh.stopped,
        fresh.rate_limit.retry_after@ == 90_000_000_000,
        fresh.rate_limit.retry_attempts == 5,
        fresh.rate_limit.interaction_window@ == 300_000_000_000,
        fresh.rate_limit.interaction_threshold == 6,
        fresh.rate_limit.context_ttl@ == 86_400_000_000_000,
        fresh.rate_limit.context_remind_before@ == 1_800_000_000_000,
        logged_in.credentials == Some(creds),
        logged_in.base_url@ == creds.base_url@,
        logged_in.client.options.bot_agent is None,
        logged_in.client.options.markdown_filter,
        logged_in.rate_limit.retry_attempts == 5,
        !logged_in.stopped,
{
    let builder = choose|builder: WechatIlinkClientBuilder|
        bot::is_default_builder(builder) && #[trigger] bot::built_from(fresh, builder);
    pacing_laws::law_usual_builder(builder);
    pacing_laws::law_usual_policy(builder.rate_limit);
    pacing_laws::law_clients_are_built(fresh, builder);
    pacing_laws::law_usual_builder(b);
    pacing_laws::law_clients_are_built(logged_in, chosen);
}

/// A client that is logged in gives its address and its token, each in its place. One that is not says
/// so.
pub proof fn law_authorization(
    c: &WechatIlinkClient,
    auth: core::result::Result<(String, String), WechatIlinkError>,
    creds: Option<Credentials>,
    key: String,
)
    requires
        call_ensures(WechatIlinkClient::get_auth, (c,), auth),
        call_ensures(WechatIlinkClient::credentials, (c,), creds),
        call_ensures(WechatIlinkClient::account_key, (c,), key),
    ensures
        creds == c.credentials,
        auth is Ok <==> c.credentials is Some,
        auth matches Ok(pair) ==> pair.0@ == c.credentials->0.base_url@ && pair.1@
            == c.credentials->0.token@,
        auth matches Err(err) ==> err matches WechatIlinkError::Auth(m) && m@ == "not logged in"@,
        key@ == poll_laws::own_key(*c),
{
}

/// A message is answered with its own context, and not at all where it brought none.
pub proof fn law_replies(
    msg: &IncomingMessage,
    context: core::result::Result<&WechatContext, WechatIlinkError>,
)
    requires
        call_ensures(bot::reply_context, (msg,), context),
    ensures
        context is Ok <==> msg.context is Some,
        context matches Ok(own) ==> *own == msg.context->0,
        context matches Err(err) ==> err matches WechatIlinkError::NoContext(user) && user@
            == msg.user_id@,
{
}

/// A client that logs in has the credentials and their address, and keeps all else. One that stops, and
/// starts again, keeps all but that.
pub proof fn law_clients_change()
    ensures
        forall|c: &mut WechatIlinkClient, creds: Credentials| #[trigger]
            call_ensures(WechatIlinkClient::set_credentials, (c, creds), ()) ==> {
                &&& final(c).credentials == Some(creds)
                &&& final(c).base_url@ == creds.base_url@
                &&& final(c).client == (*c).client
                &&& final(c).rate_limit == (*c).rate_limit
                &&& final(c).rate_limit_states == (*c).rate_limit_states
                &&& final(c).context_refresh_states == (*c).context_refresh_states
                &&& final(c).stopped == (*c).stopped
            },
        forall|c: &mut WechatIlinkClient| #[trigger]
            call_ensures(WechatIlinkClient::start, (c,), ()) ==> !final(c).stopped
                && final(c).credentials == (*c).credentials && final(c).rate_limit == (
            *c).rate_limit,
        forall|c: &mut WechatIlinkClient| #[trigger]
            call_ensures(WechatIlinkClient::stop, (c,), ()) ==> final(c).stopped
                && final(c).credentials == (*c).credentials && final(c).rate_limit == (
            *c).rate_limit,
{
}

/// Whether an account is told to wait.
pub open spec fn holds_back(table: Map<Seq<char>, AccountState>, key: Seq<char>, now: int) -> bool {
    table.dom().contains(key) && table[key].next_allowed_at is Some && table[key].next_allowed_at->0
        > now
}

/// An account that is deferred holds back for the whole time, and one that is reset does not hold back.
/// Neither changes anything for other accounts.
pub proof fn law_accounts_hold_back()
    ensures
        forall|
            c: &mut WechatIlinkClient,
            key: &str,
            now: Instant,
            delay: Duration,
            later: int,
            other: Seq<char>,
        |
            #![trigger call_ensures(WechatIlinkClient::defer_account_rate_limit, (c, key, now, delay), ()), holds_back(final(c).rate_limit_states@, other, later)]
            call_ensures(WechatIlinkClient::defer_account_rate_limit, (c, key, now, delay), ())
                && key@.len() > 0 ==> {
                &&& later < now@ + delay@ ==> holds_back(
                    final(c).rate_limit_states@,
                    key@,
                    later,
                )
                &&& later >= now@ + delay@ ==> holds_back(final(c).rate_limit_states@, key@, later)
                    == holds_back((*c).rate_limit_states@, key@, later)
                &&& other != key@ ==> holds_back(final(c).rate_limit_states@, other, later)
                    == holds_back((*c).rate_limit_states@, other, later)
            },
        forall|c: &mut WechatIlinkClient, key: &str, later: int, other: Seq<char>|
            #![trigger call_ensures(WechatIlinkClient::reset_account_rate_limit, (c, key), ()), holds_back(final(c).rate_limit_states@, other, later)]
            call_ensures(WechatIlinkClient::reset_account_rate_limit, (c, key), ()) && key@.len() > 0
                ==> {
                &&& !holds_back(final(c).rate_limit_states@, key@, later)
                &&& other != key@ ==> holds_back(final(c).rate_limit_states@, other, later)
                    == holds_back((*c).rate_limit_states@, other, later)
            },
        forall|c: &mut WechatIlinkClient, key: &str, now: Instant, wait: Option<Duration>|
            #[trigger] call_ensures(
                WechatIlinkClient::active_rate_limit_backoff,
                (c, key, now),
                wait,
            ) && key@.len() > 0 ==> {
                &&& wait is Some <==> holds_back((*c).rate_limit_states@, key@, now@)
                &&& wait is Some ==> now@ + wait->0@ == (
                *c).rate_limit_states@[key@].next_allowed_at->0
            },
{
}

/// A request is not started while its account holds back, and the error tells how long. Else it starts,
/// with no retry made.
pub proof fn law_requests_begin()
    ensures
        forall|
            c: &mut WechatIlinkClient,
            now: Instant,
            r: core::result::Result<RateLimitRetry, WechatIlinkError>,
        | #[trigger]
            call_ensures(RateLimitRetry::begin, (c, now), r) ==> {
                let key = poll_laws::own_key(*c);
                let back = key.len() > 0 && holds_back((*c).rate_limit_states@, key, now@);
                &&& r is Err <==> back
                &&& r matches Ok(retry) ==> retry.retries == 0 && retry.account_key@ == key
                &&& r matches Err(err) ==> err matches WechatIlinkError::RateLimited {
                    retry_after,
                    errcode,
                    ..
                } && errcode == -2 && now@ + retry_after@ == (
                *c).rate_limit_states@[key].next_allowed_at->0
            },
{
}

/// A request that fails is sent again only where the service asks to slow down, and only as often as
/// the policy says; each time its account is deferred.
pub proof fn law_requests_are_repeated()
    ensures
        forall|
            retry: &mut RateLimitRetry,
            c: &mut WechatIlinkClient,
            err: WechatIlinkError,
            now: Instant,
            r: RetryDecision,
        | #[trigger]
            call_ensures(RateLimitRetry::on_error, (retry, c, err, now), r) ==> {
                let key = (*retry).account_key@;
                let policy = (*c).rate_limit;
                &&& r is TryAgain <==> err is RateLimited && (*retry).retries
                    < policy.retry_attempts
                &&& r is TryAgain ==> final(retry).retries == (*retry).retries + 1
                &&& r is GiveUp ==> final(retry).retries == (*retry).retries
                &&& r matches RetryDecision::TryAgain { wait } ==> (wait is Some <==> key.len() > 0
                    && policy.retry_after@ != 0) && (wait is Some ==> wait->0@
                    == policy.retry_after@)
                &&& r matches RetryDecision::GiveUp(given) ==> !(err is RateLimited) ==> given@ == err@
                &&& err is RateLimited && key.len() > 0 ==> forall|later: int|
                    later < now@ + policy.retry_after@ ==> #[trigger] holds_back(
                        final(c).rate_limit_states@,
                        key,
                        later,
                    )
                &&& !(err is RateLimited) ==> final(c).rate_limit_states@ == (
                *c).rate_limit_states@
            },
{
}

/// A message that was sent is counted for its account, and the event of the one that reaches the
/// threshold tells the count.
pub proof fn law_sends_are_recorded()
    ensures
        forall|c: &mut WechatIlinkClient, now: Instant, event: Option<WechatEvent>|
            #[trigger] call_ensures(
                WechatIlinkClient::record_successful_message_send,
                (c, now),
                event,
            ) ==> {
                let key = poll_laws::own_key(*c);
                let policy = (*c).rate_limit;
                let counted = key.len() > 0 && policy.interaction_threshold > 0;
                let after = final(c).rate_limit_states@;
                &&& !counted ==> event is None && after == (*c).rate_limit_states@
                &&& counted ==> {
                    &&& after.dom().contains(key)
                    &&& after[key].sent_at.len() > 0
                    &&& after[key].sent_at.last() == now@
                    &&& event is Some <==> after[key].sent_at.len() == policy.interaction_threshold
                }
                &&& event matches Some(event) ==> event matches WechatEvent::UserInteractionRequested {
                    account_key,
                    user_id,
                    reason,
                } && account_key@ == key && user_id is None && (reason matches
                UserInteractionReason::OutboundRateLimitApproaching {
                    sent_count,
                    window,
                    threshold,
                } && sent_count == policy.interaction_threshold && threshold
                    == policy.interaction_threshold && window@ == policy.interaction_window@)
            },
{
}

/// The latest context of a user is kept from when it was observed until it expires, once for each user.
pub proof fn law_contexts_are_observed()
    ensures
        forall|c: &mut WechatIlinkClient, context: &WechatContext, now: SystemTime| #[trigger]
            call_ensures(
                WechatIlinkClient::observe_context_for_interaction,
                (c, context, now),
                (),
            ) ==> final(c).context_refresh_states@.contains(
                ContextEntry {
                    account_key: context.account_key@,
                    user_id: context.user_id@,
                    observed_at: now@,
                    expires_at: now@ + (*c).rate_limit.context_ttl@,
                    reminded: false,
                },
            ),
{
    assert forall|c: &mut WechatIlinkClient, context: &WechatContext, now: SystemTime| #[trigger]
        call_ensures(
            WechatIlinkClient::observe_context_for_interaction,
            (c, context, now),
            (),
        ) implies final(c).context_refresh_states@.contains(
        ContextEntry {
            account_key: context.account_key@,
            user_id: context.user_id@,
            observed_at: now@,
            expires_at: now@ + (*c).rate_limit.context_ttl@,
            reminded: false,
        },
    ) by {
        let table = (*c).context_refresh_states@;
        let ttl = (*c).rate_limit.context_ttl@;
        let entry = crate::contexts::fresh_entry(*context, now@, ttl);
        let after = crate::contexts::with_entry(table, entry);
        match crate::contexts::place_of(table, entry, 0) {
            Some(i) => {
                lemma_place(table, entry, 0);
                assert(after[i] == entry);
            },
            None => {
                assert(after.last() == entry);
            },
        }
    }
}

proof fn lemma_place(table: Seq<ContextEntry>, entry: ContextEntry, from: int)
    requires
        0 <= from,
    ensures
        crate::contexts::place_of(table, entry, from) matches Some(i) ==> from <= i < table.len(),
    decreases table.len() - from,
{
    if from < table.len() {
        lemma_place(table, entry, from + 1);
    }
}

/// The contexts that are about to expire are told, each with its user, its times and its account.
pub proof fn law_due_contexts_are_told()
    ensures
        forall|c: &mut WechatIlinkClient, now: SystemTime, told: Vec<WechatEvent>, i: int|
            #![trigger call_ensures(WechatIlinkClient::emit_due_context_interaction_requests, (c, now), told), told@[i]]
            call_ensures(
                WechatIlinkClient::emit_due_context_interaction_requests,
                (c, now),
                told,
            ) && 0 <= i < told@.len() ==> is_due_among(
                told@[i],
                (*c).context_refresh_states@,
                now@,
                (*c).rate_limit.context_remind_before@,
            ),
        forall|c: &mut WechatIlinkClient, now: SystemTime, told: Vec<WechatEvent>| #[trigger]
            call_ensures(
                WechatIlinkClient::emit_due_context_interaction_requests,
                (c, now),
                told,
            ) && (*c).rate_limit.context_ttl@ == 0 ==> told@.len() == 0,
{
    assert forall|c: &mut WechatIlinkClient, now: SystemTime, told: Vec<WechatEvent>, i: int|
        #![trigger call_ensures(WechatIlinkClient::emit_due_context_interaction_requests, (c, now), told), told@[i]]
        call_ensures(
            WechatIlinkClient::emit_due_context_interaction_requests,
            (c, now),
            told,
        ) && 0 <= i < told@.len() implies is_due_among(
        told@[i],
        (*c).context_refresh_states@,
        now@,
        (*c).rate_limit.context_remind_before@,
    ) by {
        let table = (*c).context_refresh_states@;
        let remind_before = (*c).rate_limit.context_remind_before@;
        let views = events::event_views(told@);
        assert(views[i] == told@[i]@);
        lemma_due(table, now@, remind_before, i);
    }
}

/// Whether an event tells of one of these contexts, not told of before.
pub open spec fn is_due_among(
    event: WechatEvent,
    table: Seq<ContextEntry>,
    now: int,
    remind_before: int,
) -> bool {
    exists|k: int|
        {
            let entry = #[trigger] table[k];
            &&& 0 <= k < table.len()
            &&& !entry.reminded
            &&& event matches WechatEvent::UserInteractionRequested { account_key, user_id, reason }
                && account_key@ == entry.account_key && user_id is Some && user_id->0@
                == entry.user_id && (reason matches UserInteractionReason::ContextExpiring {
                observed_at,
                expires_at,
                remind_before: before,
            } && observed_at@ == entry.observed_at && expires_at@ == entry.expires_at && before@
                == remind_before)
        }
}

proof fn lemma_due(table: Seq<ContextEntry>, now: int, remind_before: int, i: int)
    requires
        0 <= i < crate::contexts::due_events(table, now, remind_before).len(),
    ensures
        exists|k: int|
            {
                let entry = #[trigger] table[k];
                &&& 0 <= k < table.len()
                &&& !entry.reminded
                &&& crate::contexts::due_events(table, now, remind_before)[i]
                    == EventView::UserInteractionRequested {
                    account_key: entry.account_key,
                    user_id: Some(entry.user_id),
                    reason: crate::events::ReasonView::ContextExpiring {
                        observed_at: entry.observed_at,
                        expires_at: entry.expires_at,
                        remind_before,
                    },
                }
            },
    decreases table.len(),
{
    let init = table.drop_last();
    let before = crate::contexts::due_events(init, now, remind_before);
    poll_laws::law_contexts_are_told_before_they_expire(init, table.last(), now, remind_before);
    assert(init.push(table.last()) =~= table);
    if i < before.len() {
        lemma_due(init, now, remind_before, i);
        let k = choose|k: int|
            {
                let entry = #[trigger] init[k];
                &&& 0 <= k < init.len()
                &&& !entry.reminded
                &&& before[i] == EventView::UserInteractionRequested {
                    account_key: entry.account_key,
                    user_id: Some(entry.user_id),
                    reason: crate::events::ReasonView::ContextExpiring {
                        observed_at: entry.observed_at,
                        expires_at: entry.expires_at,
                        remind_before,
                    },
                }
            };
        assert(table[k] == init[k]);
    } else {
        assert(table[table.len() - 1] == table.last());
    }
}

} // verus!
