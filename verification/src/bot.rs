//! The state of a client: who it is, what it has sent, and whom it knows.

use crate::client::ILinkClient;
use crate::contexts::{self, ContextTable};
use crate::error::{self, ErrorView, Result, WechatIlinkError};
use crate::events::{self, EventView, ReasonView, UserInteractionReason, WechatEvent};
use crate::protocol::{self, ILinkClientOptions};
use crate::rate_limit::{self, RateLimitTable};
use crate::time::{self, Duration, Instant, SystemTime};
use crate::types::{self, Credentials, IncomingMessage, WechatContext};
use vstd::prelude::*;

verus! {

/// How a client deals with the limits of the service.
#[derive(Debug, Clone, Copy)]
pub struct WechatRateLimitOptions {
    /// How long to wait when the service asks to slow down.
    pub retry_after: Duration,
    /// How often a request is sent again after that.
    pub retry_attempts: usize,
    /// The time over which messages are counted.
    pub interaction_window: Duration,
    /// The number of messages at which a user should be asked to write.
    pub interaction_threshold: usize,
    /// How long a context is good for.
    pub context_ttl: Duration,
    /// How long before that the user should be asked to write.
    pub context_remind_before: Duration,
}

/// What a client does where nothing is chosen: it waits a minute and a half and tries again five
/// times, counts six messages within five minutes, and takes a context to be good for a day, of
/// which it tells half an hour before the end.
pub open spec fn is_default_policy(options: WechatRateLimitOptions) -> bool {
    &&& options.retry_after@ == error::default_retry_after()
    &&& options.retry_attempts == 5
    &&& options.interaction_window@ == 300 * time::NANOS_PER_SEC
    &&& options.interaction_threshold == 6
    &&& options.context_ttl@ == 86400 * time::NANOS_PER_SEC
    &&& options.context_remind_before@ == 1800 * time::NANOS_PER_SEC
}

impl Default for WechatRateLimitOptions {
    fn default() -> (options: Self)
        ensures
            is_default_policy(options),
    {
        WechatRateLimitOptions {
            retry_after: Duration::from_secs(error::DEFAULT_RATE_LIMIT_RETRY_AFTER_SECS),
            retry_attempts: 5,
            interaction_window: Duration::from_secs(300),
            interaction_threshold: 6,
            context_ttl: Duration::from_secs(86400),
            context_remind_before: Duration::from_secs(1800),
        }
    }
}

/// Puts a client together.
pub struct WechatIlinkClientBuilder {
    pub base_url: Option<String>,
    pub bot_agent: Option<String>,
    pub ilink_app_id: Option<String>,
    pub route_tag: Option<String>,
    pub markdown_filter: bool,
    pub rate_limit: WechatRateLimitOptions,
    pub credentials: Option<Credentials>,
}

/// A builder for which nothing was chosen.
pub open spec fn is_default_builder(builder: WechatIlinkClientBuilder) -> bool {
    &&& builder.base_url is None
    &&& builder.bot_agent is None
    &&& builder.ilink_app_id is None
    &&& builder.route_tag is None
    &&& builder.markdown_filter
    &&& is_default_policy(builder.rate_limit)
    &&& builder.credentials is None
}

impl Default for WechatIlinkClientBuilder {
    fn default() -> (builder: Self)
        ensures
            is_default_builder(builder),
    {
        WechatIlinkClientBuilder {
            base_url: None,
            bot_agent: None,
            ilink_app_id: None,
            route_tag: None,
            markdown_filter: true,
            rate_limit: WechatRateLimitOptions::default(),
            credentials: None,
        }
    }
}

impl WechatIlinkClientBuilder {
    /// The address of the service, unless credentials bring one.
    pub fn base_url(self, base_url: &str) -> (r: Self)
        ensures
            r == (Self { base_url: r.base_url, ..self }),
            types::option_view(r.base_url) == Some(base_url@),
    {
        let mut r = self;
        r.base_url = Some(base_url.to_owned());
        r
    }

    /// The name under which the client introduces itself.
    pub fn bot_agent(self, bot_agent: &str) -> (r: Self)
        ensures
            r == (Self { bot_agent: r.bot_agent, ..self }),
            types::option_view(r.bot_agent) == Some(bot_agent@),
    {
        let mut r = self;
        r.bot_agent = Some(bot_agent.to_owned());
        r
    }

    /// The id of the application.
    pub fn ilink_app_id(self, ilink_app_id: &str) -> (r: Self)
        ensures
            r == (Self { ilink_app_id: r.ilink_app_id, ..self }),
            types::option_view(r.ilink_app_id) == Some(ilink_app_id@),
    {
        let mut r = self;
        r.ilink_app_id = Some(ilink_app_id.to_owned());
        r
    }

    /// The tag by which requests are routed.
    pub fn route_tag(self, route_tag: &str) -> (r: Self)
        ensures
            r == (Self { route_tag: r.route_tag, ..self }),
            types::option_view(r.route_tag) == Some(route_tag@),
    {
        let mut r = self;
        r.route_tag = Some(route_tag.to_owned());
        r
    }

    /// Whether Markdown that WeChat does not show is taken out of messages.
    pub fn markdown_filter(self, enabled: bool) -> (r: Self)
        ensures
            r == (Self { markdown_filter: enabled, ..self }),
    {
        let mut r = self;
        r.markdown_filter = enabled;
        r
    }

    pub fn rate_limit_options(self, options: WechatRateLimitOptions) -> (r: Self)
        ensures
            r == (Self { rate_limit: options, ..self }),
    {
        let mut r = self;
        r.rate_limit = options;
        r
    }

    /// How long to wait when the service asks to slow down. No time stands for the usual one.
    pub fn rate_limit_retry_after(self, retry_after: Duration) -> (r: Self)
        ensures
            r == (Self {
                rate_limit: (WechatRateLimitOptions {
                    retry_after: r.rate_limit.retry_after,
                    ..self.rate_limit
                }),
                ..self
            }),
            retry_after@ != 0 ==> r.rate_limit.retry_after == retry_after,
            retry_after@ == 0 ==> r.rate_limit.retry_after@ == error::default_retry_after(),
    {
        let mut r = self;
        r.rate_limit.retry_after =
        if retry_after.is_zero() {
            Duration::from_secs(error::DEFAULT_RATE_LIMIT_RETRY_AFTER_SECS)
        } else {
            retry_after
        };
        r
    }

    /// How often a request is sent again when the service asks to slow down.
    pub fn rate_limit_retry_attempts(self, retry_attempts: usize) -> (r: Self)
        ensures
            r == (Self {
                rate_limit: (WechatRateLimitOptions { retry_attempts, ..self.rate_limit }),
                ..self
            }),
    {
        let mut r = self;
        r.rate_limit.retry_attempts = retry_attempts;
        r
    }

    /// Another name for [`rate_limit_retry_attempts`](Self::rate_limit_retry_attempts).
    pub fn rate_limit_max_retries(self, max_retries: usize) -> (r: Self)
        ensures
            r == (Self {
                rate_limit: (WechatRateLimitOptions {
                    retry_attempts: max_retries,
                    ..self.rate_limit
                }),
                ..self
            }),
    {
        let mut r = self;
        r.rate_limit.retry_attempts = max_retries;
        r
    }

    /// How long a context is good for. No time leaves it as it is.
    pub fn context_ttl(self, ttl: Duration) -> (r: Self)
        ensures
            r == if ttl@ == 0 {
                self
            } else {
                (Self {
                    rate_limit: (WechatRateLimitOptions { context_ttl: ttl, ..self.rate_limit }),
                    ..self
                })
            },
    {
        let mut r = self;
        if !ttl.is_zero() {
            r.rate_limit.context_ttl = ttl;
        }
        r
    }

    /// How long before a context expires its user should be asked to write.
    pub fn context_expiry_remind_before(self, remind_before: Duration) -> (r: Self)
        ensures
            r == (Self {
                rate_limit: (WechatRateLimitOptions {
                    context_remind_before: remind_before,
                    ..self.rate_limit
                }),
                ..self
            }),
    {
        let mut r = self;
        r.rate_limit.context_remind_before = remind_before;
        r
    }

    /// The time over which messages are counted. No time leaves it as it is.
    pub fn rate_limit_interaction_window(self, window: Duration) -> (r: Self)
        ensures
            r == if window@ == 0 {
                self
            } else {
                (Self {
                    rate_limit: (WechatRateLimitOptions {
                        interaction_window: window,
                        ..self.rate_limit
                    }),
                    ..self
                })
            },
    {
        let mut r = self;
        if !window.is_zero() {
            r.rate_limit.interaction_window = window;
        }
        r
    }

    /// The number of messages at which a user should be asked to write; 0 for never.
    pub fn rate_limit_interaction_threshold(self, threshold: usize) -> (r: Self)
        ensures
            r == (Self {
                rate_limit: (WechatRateLimitOptions {
                    interaction_threshold: threshold,
                    ..self.rate_limit
                }),
                ..self
            }),
    {
        let mut r = self;
        r.rate_limit.interaction_threshold = threshold;
        r
    }

    /// The credentials of an earlier login.
    pub fn credentials(self, credentials: Credentials) -> (r: Self)
        ensures
            r == (Self { credentials: Some(credentials), ..self }),
    {
        let mut r = self;
        r.credentials = Some(credentials);
        r
    }

    pub fn build(self) -> (client: WechatIlinkClient)
        ensures
            built_from(client, self),
    {
        WechatIlinkClient::from_builder(self)
    }
}

/// The state of a client.
pub struct WechatIlinkClient {
    pub client: ILinkClient,
    pub credentials: Option<Credentials>,
    pub rate_limit_states: RateLimitTable,
    pub context_refresh_states: ContextTable,
    pub base_url: String,
    pub stopped: bool,
    pub rate_limit: WechatRateLimitOptions,
}

/// The address that a client starts with: that of its credentials, else the chosen one, else the
/// usual one.
pub open spec fn initial_base_url(builder: WechatIlinkClientBuilder) -> Seq<char> {
    match (builder.credentials, builder.base_url) {
        (Some(credentials), _) => credentials.base_url@,
        (None, Some(base_url)) => base_url@,
        (None, None) => protocol::DEFAULT_BASE_URL@,
    }
}

/// Whether `client` is what `builder` puts together: nothing sent, nobody known.
pub open spec fn built_from(client: WechatIlinkClient, builder: WechatIlinkClientBuilder) -> bool {
    &&& client.client.options == (ILinkClientOptions {
        bot_agent: builder.bot_agent,
        route_tag: builder.route_tag,
        ilink_app_id: builder.ilink_app_id,
        markdown_filter: builder.markdown_filter,
    })
    &&& client.credentials == builder.credentials
    &&& client.rate_limit_states@ == Map::<Seq<char>, rate_limit::AccountState>::empty()
    &&& client.context_refresh_states@ == Seq::<contexts::ContextEntry>::empty()
    &&& client.base_url@ == initial_base_url(builder)
    &&& !client.stopped
    &&& client.rate_limit == builder.rate_limit
}

/// The key of an account: its id, or that of its user where it has none.
pub open spec fn key_of(credentials: Option<Credentials>) -> Seq<char> {
    match credentials {
        Some(credentials) => if credentials.account_id@.len() > 0 {
            credentials.account_id@
        } else {
            credentials.user_id@
        },
        None => Seq::empty(),
    }
}

/// The key of an account.
pub fn context_account_key(creds: &Credentials) -> (key: &str)
    ensures
        key@ == key_of(Some(*creds)),
{
    if !creds.account_id.as_str().is_empty() {
        creds.account_id.as_str()
    } else {
        creds.user_id.as_str()
    }
}

/// The event that a message sent at `now` gives rise to, where it does.
pub open spec fn send_event(client: WechatIlinkClient, now: int) -> Option<EventView> {
    let key = key_of(client.credentials);
    let window = client.rate_limit.interaction_window@;
    let threshold = client.rate_limit.interaction_threshold;
    let count = rate_limit::after_send(
        rate_limit::state_of(client.rate_limit_states@, key),
        now,
        window,
    ).sent_at.len();
    if key.len() > 0 && threshold > 0 && count == threshold {
        Some(
            EventView::UserInteractionRequested {
                account_key: key,
                user_id: None,
                reason: ReasonView::OutboundRateLimitApproaching {
                    sent_count: count as int,
                    window,
                    threshold: threshold as int,
                },
            },
        )
    } else {
        None
    }
}

pub open spec fn event_view(event: Option<WechatEvent>) -> Option<EventView> {
    match event {
        Some(event) => Some(event@),
        None => None,
    }
}

impl WechatIlinkClient {
    pub fn new() -> (client: WechatIlinkClient)
        ensures
            exists|builder: WechatIlinkClientBuilder|
                is_default_builder(builder) && #[trigger] built_from(client, builder),
    {
        Self::builder().build()
    }

    pub fn builder() -> (builder: WechatIlinkClientBuilder)
        ensures
            is_default_builder(builder),
    {
        WechatIlinkClientBuilder::default()
    }

    fn from_builder(builder: WechatIlinkClientBuilder) -> (client: WechatIlinkClient)
        ensures
            built_from(client, builder),
    {
        let base_url = match (&builder.credentials, builder.base_url) {
            (Some(credentials), _) => credentials.base_url.clone(),
            (None, Some(base_url)) => base_url,
            (None, None) => protocol::DEFAULT_BASE_URL.to_owned(),
        };
        WechatIlinkClient {
            client: ILinkClient::with_options(
                ILinkClientOptions {
                    bot_agent: builder.bot_agent,
                    route_tag: builder.route_tag,
                    ilink_app_id: builder.ilink_app_id,
                    markdown_filter: builder.markdown_filter,
                },
            ),
            credentials: builder.credentials,
            rate_limit_states: RateLimitTable::new(),
            context_refresh_states: ContextTable::new(),
            base_url,
            stopped: false,
            rate_limit: builder.rate_limit,
        }
    }

    /// Logs the client in with `creds`.
    pub fn set_credentials(&mut self, creds: Credentials)
        ensures
            *final(self) == (WechatIlinkClient {
                credentials: Some(creds),
                base_url: creds.base_url,
                ..*old(self)
            }),
    {
        self.base_url = creds.base_url.clone();
        self.credentials = Some(creds);
    }

    /// The credentials of the client, where it is logged in.
    pub fn credentials(&self) -> (creds: Option<Credentials>)
        ensures
            creds == self.credentials,
    {
        match &self.credentials {
            Some(creds) => Some(creds.clone()),
            None => None,
        }
    }

    /// The address and the token of a client that is logged in.
    pub fn get_auth(&self) -> (r: Result<(String, String)>)
        ensures
            match (r, self.credentials) {
                (Ok((base_url, token)), Some(creds)) => base_url == creds.base_url && token
                    == creds.token,
                (Err(err), None) => err@ == ErrorView::Auth("not logged in"@),
                _ => false,
            },
    {
        match &self.credentials {
            Some(creds) => Ok((creds.base_url.clone(), creds.token.clone())),
            None => Err(WechatIlinkError::Auth("not logged in".to_owned())),
        }
    }

    /// The key of the client's account; empty where it is not logged in.
    pub fn account_key(&self) -> (key: String)
        ensures
            key@ == key_of(self.credentials),
    {
        match &self.credentials {
            Some(creds) => context_account_key(creds).to_owned(),
            None => String::new(),
        }
    }

    /// Tells the client to poll.
    pub fn start(&mut self)
        ensures
            *final(self) == (WechatIlinkClient { stopped: false, ..*old(self) }),
    {
        self.stopped = false;
    }

    /// Tells the client to stop polling.
    pub fn stop(&mut self)
        ensures
            *final(self) == (WechatIlinkClient { stopped: true, ..*old(self) }),
    {
        self.stopped = true;
    }

    /// How long the account still holds back at `now`, where it does.
    pub fn active_rate_limit_backoff(&mut self, account_key: &str, now: Instant) -> (wait: Option<
        Duration,
    >)
        ensures
            *final(self) == (WechatIlinkClient {
                rate_limit_states: final(self).rate_limit_states,
                ..*old(self)
            }),
            account_key@.len() == 0 ==> wait is None && final(self).rate_limit_states@ == old(
                self,
            ).rate_limit_states@,
            account_key@.len() > 0 ==> {
                let state = rate_limit::state_of(old(self).rate_limit_states@, account_key@);
                &&& final(self).rate_limit_states@ == old(self).rate_limit_states@.insert(
                    account_key@,
                    rate_limit::after_check(state, now@),
                )
                &&& match wait {
                    Some(wait) => rate_limit::remaining_backoff(state, now@) == Some(wait@),
                    None => rate_limit::remaining_backoff(state, now@) is None,
                }
            },
    {
        self.rate_limit_states.active_backoff(account_key, now)
    }

    /// Tells the account to hold back for `retry_after` from `now` on.
    pub fn defer_account_rate_limit(
        &mut self,
        account_key: &str,
        now: Instant,
        retry_after: Duration,
    )
        requires
            account_key@.len() > 0 ==> time::in_time_range(now@ + retry_after@),
        ensures
            *final(self) == (WechatIlinkClient {
                rate_limit_states: final(self).rate_limit_states,
                ..*old(self)
            }),
            final(self).rate_limit_states@ == if account_key@.len() == 0 {
                old(self).rate_limit_states@
            } else {
                old(self).rate_limit_states@.insert(
                    account_key@,
                    rate_limit::after_deferral(
                        rate_limit::state_of(old(self).rate_limit_states@, account_key@),
                        now@ + retry_after@,
                    ),
                )
            },
    {
        self.rate_limit_states.defer(account_key, now, retry_after);
    }

    /// Forgets what the account has sent and that it holds back.
    pub fn reset_account_rate_limit(&mut self, account_key: &str)
        ensures
            *final(self) == (WechatIlinkClient {
                rate_limit_states: final(self).rate_limit_states,
                ..*old(self)
            }),
            final(self).rate_limit_states@ == if account_key@.len() == 0 {
                old(self).rate_limit_states@
            } else {
                old(self).rate_limit_states@.insert(account_key@, rate_limit::idle())
            },
    {
        self.rate_limit_states.reset(account_key);
    }

    /// Notes a context that came with a message at `now`.
    pub fn observe_context_for_interaction(&mut self, context: &WechatContext, now: SystemTime)
        requires
            time::in_time_range(now@ + old(self).rate_limit.context_ttl@),
        ensures
            *final(self) == (WechatIlinkClient {
                context_refresh_states: final(self).context_refresh_states,
                ..*old(self)
            }),
            final(self).context_refresh_states@ == contexts::with_entry(
                old(self).context_refresh_states@,
                contexts::fresh_entry(*context, now@, old(self).rate_limit.context_ttl@),
            ),
    {
        self.context_refresh_states.observe(context, now, self.rate_limit.context_ttl);
    }

    /// Tells whose contexts are about to expire at `now`, each once.
    pub fn emit_due_context_interaction_requests(&mut self, now: SystemTime) -> (told: Vec<
        WechatEvent,
    >)
        ensures
            *final(self) == (WechatIlinkClient {
                context_refresh_states: final(self).context_refresh_states,
                ..*old(self)
            }),
            ({
                let before = old(self).context_refresh_states@;
                let remind_before = old(self).rate_limit.context_remind_before@;
                if old(self).rate_limit.context_ttl@ == 0 {
                    &&& final(self).context_refresh_states@ == before
                    &&& told@.len() == 0
                } else {
                    &&& final(self).context_refresh_states@ == contexts::after_due(
                        before,
                        now@,
                        remind_before,
                    )
                    &&& events::event_views(told@) == contexts::due_events(
                        before,
                        now@,
                        remind_before,
                    )
                }
            }),
    {
        self.context_refresh_states.take_due(
            now,
            self.rate_limit.context_ttl,
            self.rate_limit.context_remind_before,
        )
    }

    /// Notes that a message was sent at `now`, and tells when the account comes near the limit of
    /// the service.
    pub fn record_successful_message_send(&mut self, now: Instant) -> (event: Option<WechatEvent>)
        ensures
            *final(self) == (WechatIlinkClient {
                rate_limit_states: final(self).rate_limit_states,
                ..*old(self)
            }),
            event_view(event) == send_event(*old(self), now@),
            ({
                let key = key_of(old(self).credentials);
                final(self).rate_limit_states@ == if key.len() == 0 || old(
                    self,
                ).rate_limit.interaction_threshold == 0 {
                    old(self).rate_limit_states@
                } else {
                    old(self).rate_limit_states@.insert(
                        key,
                        rate_limit::after_send(
                            rate_limit::state_of(old(self).rate_limit_states@, key),
                            now@,
                            old(self).rate_limit.interaction_window@,
                        ),
                    )
                }
            }),
    {
        let account_key = self.account_key();
        if account_key.as_str().is_empty() || self.rate_limit.interaction_threshold == 0 {
            return None;
        }
        let window = self.rate_limit.interaction_window;
        let threshold = self.rate_limit.interaction_threshold;
        let sent_count = self.rate_limit_states.record_send(account_key.as_str(), now, window);
        if sent_count == threshold {
            Some(
                WechatEvent::UserInteractionRequested {
                    account_key,
                    user_id: None,
                    reason: UserInteractionReason::OutboundRateLimitApproaching {
                        sent_count,
                        window,
                        threshold,
                    },
                },
            )
        } else {
            None
        }
    }
}

/// The context with which a message is answered. There is none where the message brought none.
pub fn reply_context(msg: &IncomingMessage) -> (r: Result<&WechatContext>)
    ensures
        match (r, msg.context) {
            (Ok(context), Some(own)) => *context == own,
            (Err(err), None) => err@ == ErrorView::NoContext(msg.user_id@),
            _ => false,
        },
{
    match &msg.context {
        Some(context) => Ok(context),
        None => Err(WechatIlinkError::NoContext(msg.user_id.clone())),
    }
}

/// A user is to be asked to write at a message if and only if the client is logged in, asks at all,
/// and has sent as many messages as the threshold says within the window that ends with that
/// message, itself counted. `times` are those of all messages since the last reset, that one last;
/// whether the account was told to hold back does not matter.
pub proof fn law_interaction_is_asked_for_at_the_threshold(
    client: WechatIlinkClient,
    times: Seq<int>,
)
    requires
        times.len() > 0,
        rate_limit::in_order(times),
        rate_limit::state_of(client.rate_limit_states@, key_of(client.credentials)).sent_at
            == rate_limit::after_sends(
            rate_limit::idle(),
            times.drop_last(),
            client.rate_limit.interaction_window@,
        ).sent_at,
    ensures
        send_event(client, times.last()) is Some <==> {
            &&& key_of(client.credentials).len() > 0
            &&& client.rate_limit.interaction_threshold > 0
            &&& rate_limit::within(
                times,
                times.last(),
                client.rate_limit.interaction_window@,
            ).len() == client.rate_limit.interaction_threshold
        },
{
    let window = client.rate_limit.interaction_window;
    time::lemma_duration_is_no_less_than_zero(window);
    rate_limit::law_sends_are_counted(rate_limit::idle(), times, window@);
}

} // verus!
