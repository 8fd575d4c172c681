//! Polling for messages.

use crate::bot::{self, WechatIlinkClient};
use crate::client::{self, HttpRequest};
use crate::contexts;
use crate::error::{ErrorView, Result, WechatIlinkError};
use crate::events::{self, EventView, WechatEvent};
use crate::rate_limit;
use crate::time::{self, Duration, SystemTime};
use crate::types::IncomingMessage;
use vstd::prelude::*;

verus! {

/// How long to wait after a first failure, in seconds.
pub const FIRST_RETRY_DELAY_SECS: u64 = 1;

/// How long to wait after a failure at most, in seconds.
pub const MAX_RETRY_DELAY_SECS: u64 = 10;

/// Where polling has come to.
pub struct Poller {
    /// Up to where messages have been handed over.
    pub cursor: String,
    /// How long to wait after the next failure.
    pub retry_delay: Duration,
}

/// What is done about a poll that has failed.
pub enum PollDecision {
    /// Polling goes on after this delay.
    Wait(Duration),
    /// Polling ends, and this is told.
    Stop(WechatEvent),
}

pub open spec fn first_delay() -> int {
    FIRST_RETRY_DELAY_SECS * time::NANOS_PER_SEC
}

pub open spec fn max_delay() -> int {
    MAX_RETRY_DELAY_SECS * time::NANOS_PER_SEC
}

/// The delay after the next failure but one.
pub open spec fn next_delay(delay: int) -> int {
    if 2 * delay <= max_delay() {
        2 * delay
    } else {
        max_delay()
    }
}

/// What is told of one message: the context that came with it, and then the message.
pub open spec fn message_events(msg: IncomingMessage) -> Seq<EventView> {
    match msg.context {
        Some(context) => seq![EventView::ContextObserved(context), EventView::Message(msg)],
        None => seq![EventView::Message(msg)],
    }
}

/// What is told of a batch of messages, in their order.
pub open spec fn batch_events(msgs: Seq<IncomingMessage>) -> Seq<EventView>
    decreases msgs.len(),
{
    if msgs.len() == 0 {
        Seq::empty()
    } else {
        batch_events(msgs.drop_last()) + message_events(msgs.last())
    }
}

/// The contexts that are kept after a batch of messages.
pub open spec fn batch_contexts(
    table: Seq<contexts::ContextEntry>,
    msgs: Seq<IncomingMessage>,
    now: int,
    ttl: int,
) -> Seq<contexts::ContextEntry>
    decreases msgs.len(),
{
    if msgs.len() == 0 {
        table
    } else {
        let init = batch_contexts(table, msgs.drop_last(), now, ttl);
        match msgs.last().context {
            Some(context) => contexts::with_entry(init, contexts::fresh_entry(context, now, ttl)),
            None => init,
        }
    }
}

/// Whether a cursor goes on from `cursor`.
pub open spec fn advances(cursor: Seq<char>, new_cursor: Seq<char>) -> bool {
    new_cursor.len() > 0 && cursor != new_cursor
}

/// What is told when the cursor goes on.
pub open spec fn cursor_events(
    account_key: Seq<char>,
    cursor: Seq<char>,
    new_cursor: Seq<char>,
) -> Seq<EventView> {
    if advances(cursor, new_cursor) {
        seq![EventView::CursorAdvanced { account_key, cursor: new_cursor }]
    } else {
        Seq::empty()
    }
}

/// Whose contexts are about to expire after a batch of messages.
pub open spec fn batch_due(
    client: WechatIlinkClient,
    msgs: Seq<IncomingMessage>,
    now: int,
) -> Seq<EventView> {
    let ttl = client.rate_limit.context_ttl@;
    if ttl == 0 {
        Seq::empty()
    } else {
        contexts::due_events(
            batch_contexts(client.context_refresh_states@, msgs, now, ttl),
            now,
            client.rate_limit.context_remind_before@,
        )
    }
}

/// All that is told of a batch: its messages, then whose contexts are about to expire, and last
/// that the cursor has gone on.
pub open spec fn updates_events(
    client: WechatIlinkClient,
    cursor: Seq<char>,
    new_cursor: Seq<char>,
    msgs: Seq<IncomingMessage>,
    now: int,
) -> Seq<EventView> {
    batch_events(msgs) + batch_due(client, msgs, now) + cursor_events(
        bot::key_of(client.credentials),
        cursor,
        new_cursor,
    )
}

impl Poller {
    /// Starts from `cursor`, or from the beginning.
    pub fn start(cursor: Option<String>) -> (poller: Poller)
        ensures
            poller.cursor@ == match cursor {
                Some(cursor) => cursor@,
                None => Seq::empty(),
            },
            poller.retry_delay@ == first_delay(),
    {
        Poller {
            cursor: cursor.unwrap_or_default(),
            retry_delay: Duration::from_secs(FIRST_RETRY_DELAY_SECS),
        }
    }

    /// The next request; there is none where the client was told to stop, and an error where it is
    /// not logged in.
    pub fn next_request(&self, client: &WechatIlinkClient) -> (r: Result<Option<HttpRequest>>)
        ensures
            match r {
                Ok(None) => client.stopped,
                Ok(Some(request)) => !client.stopped && (client.credentials matches Some(creds)
                    && client::is_post(
                    request@,
                    client.client.options,
                    creds.base_url@,
                    "/ilink/bot/getupdates"@,
                    creds.token@,
                    client::updates_body(client.client.options, self.cursor@),
                    45,
                )),
                Err(err) => !client.stopped && client.credentials is None && err@
                    == ErrorView::Auth("not logged in"@),
            },
    {
        if client.stopped {
            return Ok(None);
        }
        match client.get_auth() {
            Ok((base_url, token)) => Ok(
                Some(
                    client.client.get_updates(
                        base_url.as_str(),
                        token.as_str(),
                        self.cursor.as_str(),
                    ),
                ),
            ),
            Err(err) => Err(err),
        }
    }

    /// Takes a batch of messages that has come in up to `new_cursor`. A message of a user lifts
    /// the limits of the account.
    pub fn on_updates(
        &mut self,
        client: &mut WechatIlinkClient,
        new_cursor: String,
        incoming: Vec<IncomingMessage>,
        now: SystemTime,
    ) -> (told: Vec<WechatEvent>)
        requires
            forall|i: int|
                0 <= i < incoming@.len() && (#[trigger] incoming@[i]).context is Some
                    ==> time::in_time_range(now@ + old(client).rate_limit.context_ttl@),
        ensures
            events::event_views(told@) == updates_events(
                *old(client),
                old(self).cursor@,
                new_cursor@,
                incoming@,
                now@,
            ),
            final(self).cursor@ == if new_cursor@.len() > 0 {
                new_cursor@
            } else {
                old(self).cursor@
            },
            final(self).retry_delay@ == first_delay(),
            *final(client) == (WechatIlinkClient {
                rate_limit_states: final(client).rate_limit_states,
                context_refresh_states: final(client).context_refresh_states,
                ..*old(client)
            }),
            ({
                let key = bot::key_of(old(client).credentials);
                let ttl = old(client).rate_limit.context_ttl@;
                let observed = batch_contexts(
                    old(client).context_refresh_states@,
                    incoming@,
                    now@,
                    ttl,
                );
                &&& final(client).rate_limit_states@ == if key.len() > 0 && incoming@.len() > 0 {
                    old(client).rate_limit_states@.insert(key, rate_limit::idle())
                } else {
                    old(client).rate_limit_states@
                }
                &&& final(client).context_refresh_states@ == if ttl == 0 {
                    observed
                } else {
                    contexts::after_due(
                        observed,
                        now@,
                        old(client).rate_limit.context_remind_before@,
                    )
                }
            }),
    {
        let account_key = client.account_key();
        let ghost key = account_key@;
        let ghost before = *client;
        let ghost ttl = client.rate_limit.context_ttl@;
        let mut told: Vec<WechatEvent> = Vec::new();
        assert(events::event_views(told@) =~= batch_events(incoming@.take(0)));
        let ghost all = incoming@;
        for msg in it: incoming
            invariant
                all == it.seq(),
                key == account_key@,
                ttl == before.rate_limit.context_ttl@,
                forall|i: int|
                    0 <= i < all.len() && (#[trigger] all[i]).context is Some
                        ==> time::in_time_range(now@ + ttl),
                *client == (WechatIlinkClient {
                    rate_limit_states: client.rate_limit_states,
                    context_refresh_states: client.context_refresh_states,
                    ..before
                }),
                client.rate_limit_states@ == (if key.len() > 0 && it.index() > 0 {
                    before.rate_limit_states@.insert(key, rate_limit::idle())
                } else {
                    before.rate_limit_states@
                }),
                client.context_refresh_states@ == batch_contexts(
                    before.context_refresh_states@,
                    all.take(it.index() as int),
                    now@,
                    ttl,
                ),
                events::event_views(told@) == batch_events(all.take(it.index() as int)),
        {
            let ghost i = it.index() as int;
            let ghost told0 = events::event_views(told@);
            assert(all.take(i + 1).drop_last() =~= all.take(i));
            assert(all.take(i + 1).last() == msg);
            client.reset_account_rate_limit(account_key.as_str());
            assert(key.len() > 0 ==> client.rate_limit_states@
                =~= before.rate_limit_states@.insert(key, rate_limit::idle()));
            if let Some(context) = &msg.context {
                client.observe_context_for_interaction(context, now);
                told.push(WechatEvent::ContextObserved(context.clone()));
            }
            told.push(WechatEvent::Message(msg));
            assert(events::event_views(told@) =~= told0 + message_events(msg));
        }
        assert(all.take(all.len() as int) =~= all);
        let mut due = client.emit_due_context_interaction_requests(now);
        let ghost due_views = events::event_views(due@);
        assert(due_views =~= batch_due(before, all, now@));
        let ghost told1 = events::event_views(told@);
        told.append(&mut due);
        assert(events::event_views(told@) =~= told1 + due_views);
        if !new_cursor.as_str().is_empty() && self.cursor != new_cursor {
            let ghost told2 = events::event_views(told@);
            told.push(WechatEvent::CursorAdvanced { account_key, cursor: new_cursor.clone() });
            assert(events::event_views(told@) =~= told2.push(
                EventView::CursorAdvanced { account_key: key, cursor: new_cursor@ },
            ));
            self.cursor = new_cursor;
        }
        self.retry_delay = Duration::from_secs(FIRST_RETRY_DELAY_SECS);
        assert(events::event_views(told@) =~= updates_events(
            before,
            old(self).cursor@,
            new_cursor@,
            all,
            now@,
        ));
        told
    }

    /// Takes the error of a poll that has failed; `session_expired` tells whether it means that
    /// the session is over.
    pub fn on_error(
        &mut self,
        client: &WechatIlinkClient,
        err: &WechatIlinkError,
        session_expired: bool,
    ) -> (r: PollDecision)
        ensures
            session_expired ==> {
                &&& r matches PollDecision::Stop(event) && event@
                    == (EventView::AuthSessionExpired {
                    account_key: bot::key_of(client.credentials),
                })
                &&& final(self).cursor@.len() == 0
                &&& final(self).retry_delay == old(self).retry_delay
            },
            !session_expired && err is RateLimited ==> {
                &&& r == PollDecision::Wait(client.rate_limit.retry_after)
                &&& final(self).cursor == old(self).cursor
                &&& final(self).retry_delay@ == first_delay()
            },
            !session_expired && !(err is RateLimited) ==> {
                &&& r == PollDecision::Wait(old(self).retry_delay)
                &&& final(self).cursor == old(self).cursor
                &&& final(self).retry_delay@ == next_delay(old(self).retry_delay@)
            },
    {
        if session_expired {
            self.cursor = String::new();
            PollDecision::Stop(
                WechatEvent::AuthSessionExpired { account_key: client.account_key() },
            )
        } else if err.is_rate_limited() {
            self.retry_delay = Duration::from_secs(FIRST_RETRY_DELAY_SECS);
            PollDecision::Wait(client.rate_limit.retry_after)
        } else {
            let wait = self.retry_delay;
            self.retry_delay = wait.doubled_up_to(Duration::from_secs(MAX_RETRY_DELAY_SECS));
            PollDecision::Wait(wait)
        }
    }
}

/// The delay after `failures` failures in a row.
pub open spec fn delay_after(failures: nat) -> int
    decreases failures,
{
    if failures == 0 {
        first_delay()
    } else {
        next_delay(delay_after((failures - 1) as nat))
    }
}

/// However often polling fails in a row, it waits at least as long as the first time, never less
/// than before, and never longer than the longest delay.
pub proof fn law_delays_are_bounded(failures: nat)
    ensures
        first_delay() <= delay_after(failures) <= delay_after(failures + 1) <= max_delay(),
    decreases failures,
{
    if failures > 0 {
        law_delays_are_bounded((failures - 1) as nat);
    }
}

/// The messages among `told`, in order.
pub open spec fn told_messages(told: Seq<EventView>) -> Seq<IncomingMessage>
    decreases told.len(),
{
    if told.len() == 0 {
        Seq::empty()
    } else {
        match told.last() {
            EventView::Message(msg) => told_messages(told.drop_last()).push(msg),
            _ => told_messages(told.drop_last()),
        }
    }
}

pub open spec fn is_cursor_event(event: EventView) -> bool {
    event is CursorAdvanced
}

proof fn lemma_batch_messages(msgs: Seq<IncomingMessage>)
    ensures
        told_messages(batch_events(msgs)) == msgs,
        forall|i: int|
            0 <= i < batch_events(msgs).len() ==> !is_cursor_event(
                #[trigger] batch_events(msgs)[i],
            ),
    decreases msgs.len(),
{
    if msgs.len() > 0 {
        let rest = batch_events(msgs.drop_last());
        let last = msgs.last();
        lemma_batch_messages(msgs.drop_last());
        let all = batch_events(msgs);
        match last.context {
            Some(context) => {
                assert(all.drop_last() =~= rest.push(EventView::ContextObserved(context)));
                assert(all.drop_last().drop_last() =~= rest);
                reveal_with_fuel(told_messages, 3);
            },
            None => {
                assert(all.drop_last() =~= rest);
            },
        }
        assert(msgs.drop_last().push(last) =~= msgs);
    }
}

proof fn lemma_due_are_no_messages(
    table: Seq<contexts::ContextEntry>,
    now: int,
    remind_before: int,
)
    ensures
        forall|i: int|
            0 <= i < contexts::due_events(table, now, remind_before).len() ==> (
            #[trigger] contexts::due_events(
                table,
                now,
                remind_before,
            )[i]) is UserInteractionRequested,
    decreases table.len(),
{
    if table.len() > 0 {
        lemma_due_are_no_messages(table.drop_last(), now, remind_before);
    }
}

proof fn lemma_other_events(told: Seq<EventView>, others: Seq<EventView>)
    requires
        forall|i: int| 0 <= i < others.len() ==> !((#[trigger] others[i]) is Message),
    ensures
        told_messages(told + others) == told_messages(told),
    decreases others.len(),
{
    if others.len() == 0 {
        assert(told + others =~= told);
    } else {
        assert((told + others).drop_last() =~= told + others.drop_last());
        assert((told + others).last() == others.last());
        lemma_other_events(told, others.drop_last());
    }
}

/// Every message of a batch is told once and in order, and the cursor is told last: whoever keeps
/// it has been handed every message before it. It is told if and only if it goes on.
pub proof fn law_cursor_comes_last(
    client: WechatIlinkClient,
    cursor: Seq<char>,
    new_cursor: Seq<char>,
    msgs: Seq<IncomingMessage>,
    now: int,
)
    ensures
        ({
            let told = updates_events(client, cursor, new_cursor, msgs, now);
            &&& told_messages(told) == msgs
            &&& forall|i: int|
                0 <= i < told.len() && is_cursor_event(#[trigger] told[i]) ==> i == told.len() - 1
            &&& told.len() > 0 && is_cursor_event(told.last()) <==> advances(cursor, new_cursor)
        }),
{
    let due = batch_due(client, msgs, now);
    let last = cursor_events(bot::key_of(client.credentials), cursor, new_cursor);
    let told = updates_events(client, cursor, new_cursor, msgs, now);
    lemma_batch_messages(msgs);
    let ttl = client.rate_limit.context_ttl@;
    lemma_due_are_no_messages(
        batch_contexts(client.context_refresh_states@, msgs, now, ttl),
        now,
        client.rate_limit.context_remind_before@,
    );
    lemma_other_events(batch_events(msgs), due);
    lemma_other_events(batch_events(msgs) + due, last);
    let first = batch_events(msgs) + due;
    assert forall|i: int| 0 <= i < first.len() implies !is_cursor_event(#[trigger] first[i]) by {
        if i < batch_events(msgs).len() {
            assert(first[i] == batch_events(msgs)[i]);
        } else {
            assert(first[i] == due[i - batch_events(msgs).len()]);
        }
    }
    assert forall|i: int| 0 <= i < told.len() && is_cursor_event(#[trigger] told[i]) implies i
        == told.len() - 1 by {
        if i < first.len() {
            assert(told[i] == first[i]);
        }
    }
    if !advances(cursor, new_cursor) && told.len() > 0 {
        assert(told.last() == first[told.len() - 1]);
    }
}

/// A context is told directly before the message that brought it.
pub proof fn law_context_comes_with_its_message(msgs: Seq<IncomingMessage>, i: int)
    requires
        0 <= i < batch_events(msgs).len(),
        batch_events(msgs)[i] is ContextObserved,
    ensures
        i + 1 < batch_events(msgs).len(),
        batch_events(msgs)[i + 1] matches EventView::Message(msg) && msg.context == Some(
            batch_events(msgs)[i]->ContextObserved_0,
        ),
    decreases msgs.len(),
{
    let rest = batch_events(msgs.drop_last());
    if i < rest.len() {
        law_context_comes_with_its_message(msgs.drop_last(), i);
    }
}

} // verus!
