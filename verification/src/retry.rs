//! Sending a request again when the service asks to slow down.

use crate::bot::{self, WechatIlinkClient};
use crate::error::{self, ErrorView, Result, WechatIlinkError};
use crate::rate_limit;
use crate::time::{self, Duration, Instant};
use vstd::prelude::*;

verus! {

/// What is done about a request that has failed.
#[derive(Debug)]
pub enum RetryDecision {
    /// It is given up.
    GiveUp(WechatIlinkError),
    /// It is sent again, once the account no longer holds back or this time has passed; at once
    /// where there is none.
    TryAgain { wait: Option<Duration> },
}

#[verifier::ext_equal]
pub enum DecisionView {
    GiveUp(ErrorView),
    TryAgain(Option<int>),
}

impl View for RetryDecision {
    type V = DecisionView;

    open spec fn view(&self) -> DecisionView {
        match *self {
            RetryDecision::GiveUp(err) => DecisionView::GiveUp(err@),
            RetryDecision::TryAgain { wait } => DecisionView::TryAgain(
                match wait {
                    Some(wait) => Some(wait@),
                    None => None,
                },
            ),
        }
    }
}

/// A request on its way.
pub struct RateLimitRetry {
    pub account_key: String,
    pub retries: usize,
}

/// What is done about an error after `retries` retries.
pub open spec fn decision(
    account_key: Seq<char>,
    retries: int,
    retry_attempts: int,
    retry_after: int,
    err: ErrorView,
) -> DecisionView {
    if !(err is RateLimited) {
        DecisionView::GiveUp(err)
    } else if retries >= retry_attempts {
        DecisionView::GiveUp(error::with_retry_after_view(err, retry_after))
    } else if account_key.len() == 0 || retry_after == 0 {
        DecisionView::TryAgain(None)
    } else {
        DecisionView::TryAgain(Some(retry_after))
    }
}

impl RateLimitRetry {
    /// Starts a request at `now`, unless the account holds back.
    pub fn begin(client: &mut WechatIlinkClient, now: Instant) -> (r: Result<RateLimitRetry>)
        ensures
            *final(client) == (WechatIlinkClient {
                rate_limit_states: final(client).rate_limit_states,
                ..*old(client)
            }),
            ({
                let key = bot::key_of(old(client).credentials);
                let before = old(client).rate_limit_states@;
                let state = rate_limit::state_of(before, key);
                &&& final(client).rate_limit_states@ == if key.len() == 0 {
                    before
                } else {
                    before.insert(key, rate_limit::after_check(state, now@))
                }
                &&& match r {
                    Ok(retry) => (key.len() == 0 || rate_limit::remaining_backoff(
                        state,
                        now@,
                    ) is None) && retry.account_key@ == key && retry.retries == 0,
                    Err(err) => key.len() > 0 && (rate_limit::remaining_backoff(
                        state,
                        now@,
                    ) matches Some(wait) && err@ == error::backoff_view(wait)),
                }
            }),
    {
        let account_key = client.account_key();
        match client.active_rate_limit_backoff(account_key.as_str(), now) {
            Some(wait) => Err(error::rate_limited_error(wait)),
            None => Ok(RateLimitRetry { account_key, retries: 0 }),
        }
    }

    /// Decides what is done about `err`, which came at `now`.
    pub fn on_error(
        &mut self,
        client: &mut WechatIlinkClient,
        err: WechatIlinkError,
        now: Instant,
    ) -> (r: RetryDecision)
        requires
            err is RateLimited && old(self).account_key@.len() > 0 ==> time::in_time_range(
                now@ + old(client).rate_limit.retry_after@,
            ),
        ensures
            ({
                let key = old(self).account_key@;
                let policy = old(client).rate_limit;
                let before = old(client).rate_limit_states@;
                &&& r@ == decision(
                    key,
                    old(self).retries as int,
                    policy.retry_attempts as int,
                    policy.retry_after@,
                    err@,
                )
                &&& final(self).account_key == old(self).account_key
                &&& final(self).retries == old(self).retries + if r is TryAgain {
                    1int
                } else {
                    0int
                }
                &&& *final(client) == (WechatIlinkClient {
                    rate_limit_states: final(client).rate_limit_states,
                    ..*old(client)
                })
                &&& final(client).rate_limit_states@ == if err is RateLimited && key.len() > 0 {
                    before.insert(
                        key,
                        rate_limit::after_deferral(
                            rate_limit::state_of(before, key),
                            now@ + policy.retry_after@,
                        ),
                    )
                } else {
                    before
                }
            }),
    {
        if !err.is_rate_limited() {
            return RetryDecision::GiveUp(err);
        }
        let retry_after = client.rate_limit.retry_after;
        let err = error::with_rate_limit_retry_after(err, retry_after);
        client.defer_account_rate_limit(self.account_key.as_str(), now, retry_after);
        if self.retries >= client.rate_limit.retry_attempts {
            return RetryDecision::GiveUp(err);
        }
        self.retries += 1;
        if self.account_key.as_str().is_empty() || retry_after.is_zero() {
            RetryDecision::TryAgain { wait: None }
        } else {
            RetryDecision::TryAgain { wait: Some(retry_after) }
        }
    }
}

/// How often a request is sent, the first time included, that fails with `errors` in turn.
pub open spec fn times_sent(
    account_key: Seq<char>,
    retries: int,
    retry_attempts: int,
    retry_after: int,
    errors: Seq<ErrorView>,
) -> nat
    decreases errors.len(),
{
    if errors.len() > 0 && decision(
        account_key,
        retries,
        retry_attempts,
        retry_after,
        errors[0],
    ) is TryAgain {
        1 + times_sent(
            account_key,
            retries + 1,
            retry_attempts,
            retry_after,
            errors.drop_first(),
        )
    } else {
        1
    }
}

/// However long the service asks to slow down, a request is sent once and then as often as the
/// policy says, and no more.
pub proof fn law_retries_are_limited(
    account_key: Seq<char>,
    retries: int,
    retry_attempts: int,
    retry_after: int,
    errors: Seq<ErrorView>,
)
    requires
        0 <= retries <= retry_attempts,
    ensures
        retries + times_sent(account_key, retries, retry_attempts, retry_after, errors)
            <= retry_attempts + 1,
        (forall|i: int| 0 <= i < errors.len() ==> #[trigger] errors[i] is RateLimited)
            && errors.len() >= retry_attempts - retries ==> retries + times_sent(
            account_key,
            retries,
            retry_attempts,
            retry_after,
            errors,
        ) == retry_attempts + 1,
    decreases errors.len(),
{
    if errors.len() > 0 {
        if decision(account_key, retries, retry_attempts, retry_after, errors[0]) is TryAgain {
            law_retries_are_limited(
                account_key,
                retries + 1,
                retry_attempts,
                retry_after,
                errors.drop_first(),
            );
            if forall|i: int| 0 <= i < errors.len() ==> #[trigger] errors[i] is RateLimited {
                assert forall|i: int| 0 <= i < errors.drop_first().len() implies
                    #[trigger] errors.drop_first()[i] is RateLimited by {
                    assert(errors[i + 1] is RateLimited);
                }
            }
        }
    }
}

/// The error of a request that is given up for asking too often tells the delay of the policy,
/// and leaves everything else as the service said it.
pub proof fn law_given_up_error(
    account_key: Seq<char>,
    retry_attempts: int,
    retry_after: int,
    err: ErrorView,
)
    requires
        err is RateLimited,
    ensures
        decision(account_key, retry_attempts, retry_attempts, retry_after, err)
            == DecisionView::GiveUp(
            ErrorView::RateLimited {
                retry_after,
                message: err->RateLimited_message,
                http_status: err->RateLimited_http_status,
                errcode: err->RateLimited_errcode,
            },
        ),
{
}

} // verus!
