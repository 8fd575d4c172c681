//! What is told of a batch of messages, and what is kept of it.

use crate::bot::WechatIlinkClient;
use crate::contexts;
use crate::contexts::ContextEntry;
use crate::events::{EventView, ReasonView};
use crate::poll;
use crate::time;
use crate::types::{IncomingMessage, WechatContext};
use vstd::prelude::*;

verus! {

/// How many of `msgs` carry a context.
pub open spec fn contexts_among(msgs: Seq<IncomingMessage>) -> nat
    decreases msgs.len(),
{
    if msgs.len() == 0 {
        0
    } else {
        contexts_among(msgs.drop_last()) + if msgs.last().context is Some {
            1nat
        } else {
            0nat
        }
    }
}

/// Where the message `i` is told: behind those before it and the contexts up to its own.
pub open spec fn place(msgs: Seq<IncomingMessage>, i: int) -> int {
    i + contexts_among(msgs.take(i + 1))
}

proof fn lemma_batch_places(msgs: Seq<IncomingMessage>)
    ensures
        poll::batch_events(msgs).len() == msgs.len() + contexts_among(msgs),
        forall|i: int|
            0 <= i < msgs.len() ==> {
                let at = #[trigger] place(msgs, i);
                &&& 0 <= at < poll::batch_events(msgs).len()
                &&& poll::batch_events(msgs)[at] == EventView::Message(msgs[i])
                &&& msgs[i].context is Some ==> at > 0 && poll::batch_events(msgs)[at - 1]
                    == EventView::ContextObserved(msgs[i].context->0)
            },
    decreases msgs.len(),
{
    if msgs.len() > 0 {
        let init = msgs.drop_last();
        let n = init.len() as int;
        lemma_batch_places(init);
        let all = poll::batch_events(msgs);
        let before = poll::batch_events(init);
        assert forall|i: int| 0 <= i < msgs.len() implies {
            let at = #[trigger] place(msgs, i);
            &&& 0 <= at < all.len()
            &&& all[at] == EventView::Message(msgs[i])
            &&& msgs[i].context is Some ==> at > 0 && all[at - 1] == EventView::ContextObserved(
                msgs[i].context->0,
            )
        } by {
            if i < n {
                assert(msgs.take(i + 1) =~= init.take(i + 1));
                assert(place(msgs, i) == place(init, i));
                assert(msgs[i] == init[i]);
                let at = place(init, i);
                assert(all[at] == before[at]);
                if msgs[i].context is Some {
                    assert(all[at - 1] == before[at - 1]);
                }
            } else {
                assert(msgs.take(n + 1) =~= msgs);
            }
        }
    }
}

/// A user's own key of an account: its id, or that of its user where it has none.
pub open spec fn own_key(client: WechatIlinkClient) -> Seq<char> {
    if client.credentials is None {
        Seq::empty()
    } else if client.credentials->0.account_id@.len() > 0 {
        client.credentials->0.account_id@
    } else {
        client.credentials->0.user_id@
    }
}

proof fn lemma_due_are_requests(table: Seq<ContextEntry>, now: int, remind_before: int)
    ensures
        forall|i: int|
            0 <= i < contexts::due_events(table, now, remind_before).len() ==> (
            #[trigger] contexts::due_events(
                table,
                now,
                remind_before,
            )[i]) is UserInteractionRequested,
    decreases table.len(),
{
    if table.len() > 0 {
        lemma_due_are_requests(table.drop_last(), now, remind_before);
    }
}

/// Every message of a batch is told, in order, and every one that carries a context directly
/// after that context. Contexts and messages are all that is told before the users who should
/// write, and the cursor comes after them: once, last, and if and only if there is a new one.
pub proof fn law_a_batch_is_told(
    client: WechatIlinkClient,
    cursor: Seq<char>,
    new_cursor: Seq<char>,
    msgs: Seq<IncomingMessage>,
    now: int,
)
    ensures
        ({
            let told = poll::updates_events(client, cursor, new_cursor, msgs, now);
            let n = msgs.len() + contexts_among(msgs);
            let goes_on = new_cursor.len() > 0 && new_cursor != cursor;
            &&& told.len() >= n
            &&& forall|i: int|
                0 <= i < msgs.len() ==> {
                    let at = #[trigger] place(msgs, i);
                    &&& 0 <= at < n
                    &&& told[at] == EventView::Message(msgs[i])
                    &&& msgs[i].context is Some ==> at > 0 && told[at - 1]
                        == EventView::ContextObserved(msgs[i].context->0)
                }
            &&& forall|i: int|
                n <= i < told.len() ==> (#[trigger] told[i]) is UserInteractionRequested || (i
                    == told.len() - 1 && goes_on && told[i] == EventView::CursorAdvanced {
                    account_key: own_key(client),
                    cursor: new_cursor,
                })
            &&& goes_on ==> told.len() > n && told.last() is CursorAdvanced
        }),
{
    let told = poll::updates_events(client, cursor, new_cursor, msgs, now);
    let first = poll::batch_events(msgs);
    let due = poll::batch_due(client, msgs, now);
    let n = first.len() as int;
    lemma_batch_places(msgs);
    lemma_due_are_requests(
        poll::batch_contexts(
            client.context_refresh_states@,
            msgs,
            now,
            client.rate_limit.context_ttl@,
        ),
        now,
        client.rate_limit.context_remind_before@,
    );
    assert forall|i: int| 0 <= i < msgs.len() implies {
        let at = #[trigger] place(msgs, i);
        &&& 0 <= at < n
        &&& told[at] == EventView::Message(msgs[i])
        &&& msgs[i].context is Some ==> at > 0 && told[at - 1] == EventView::ContextObserved(
            msgs[i].context->0,
        )
    } by {
        let at = place(msgs, i);
        assert(told[at] == first[at]);
        if msgs[i].context is Some {
            assert(told[at - 1] == first[at - 1]);
        }
    }
    assert forall|i: int| n <= i < told.len() implies (#[trigger] told[i]) is UserInteractionRequested || (
    i == told.len() - 1 && new_cursor.len() > 0 && new_cursor != cursor && told[i]
        == EventView::CursorAdvanced { account_key: own_key(client), cursor: new_cursor }) by {
        if i < n + due.len() {
            assert(told[i] == due[i - n]);
        }
    }
}

/// Who should write is told of each context by itself, and nobody is told where contexts do not
/// expire: of one that was not told yet, from the time on that lies the chosen span before its end,
/// or from when it was observed on where that time cannot be represented.
pub proof fn law_contexts_are_told_before_they_expire(
    a: Seq<ContextEntry>,
    entry: ContextEntry,
    now: int,
    remind_before: int,
)
    ensures
        contexts::due_events(Seq::empty(), now, remind_before).len() == 0,
        ({
            let at = if time::in_time_range(entry.expires_at - remind_before) {
                entry.expires_at - remind_before
            } else {
                entry.observed_at
            };
            contexts::due_events(a.push(entry), now, remind_before) == if entry.reminded || now
                < at {
                contexts::due_events(a, now, remind_before)
            } else {
                contexts::due_events(a, now, remind_before).push(
                    EventView::UserInteractionRequested {
                        account_key: entry.account_key,
                        user_id: Some(entry.user_id),
                        reason: ReasonView::ContextExpiring {
                            observed_at: entry.observed_at,
                            expires_at: entry.expires_at,
                            remind_before,
                        },
                    },
                )
            }
        }),
{
    assert(a.push(entry).drop_last() =~= a);
}

/// A context that was told is kept until it has expired and then forgotten; one that was not told
/// is kept, and noted as told if and only if it is told now.
pub proof fn law_told_contexts_are_noted(
    a: Seq<ContextEntry>,
    entry: ContextEntry,
    now: int,
    remind_before: int,
)
    ensures
        contexts::after_due(Seq::empty(), now, remind_before).len() == 0,
        ({
            let before = contexts::after_due(a, now, remind_before);
            let after = contexts::after_due(a.push(entry), now, remind_before);
            let told = contexts::due_events(a.push(entry), now, remind_before).len()
                > contexts::due_events(a, now, remind_before).len();
            &&& entry.reminded && now > entry.expires_at ==> after == before
            &&& entry.reminded && now <= entry.expires_at ==> after == before.push(entry)
            &&& !entry.reminded ==> after == before.push(ContextEntry { reminded: told, ..entry })
        }),
{
    assert(a.push(entry).drop_last() =~= a);
}

/// Where the entry of a user of an account stands, where there is one.
pub open spec fn is_entry_of(entry: ContextEntry, account_key: Seq<char>, user_id: Seq<char>) -> bool {
    entry.account_key == account_key && entry.user_id == user_id
}

/// After a context was observed, its user has an entry with that time and its end the chosen span
/// later, that nobody was told of; all entries of other users stay as and where they were.
pub proof fn law_an_observed_context_is_kept(
    table: Seq<ContextEntry>,
    context: WechatContext,
    now: int,
    ttl: int,
)
    requires
        forall|i: int, j: int|
            0 <= i < j < table.len() ==> !((#[trigger] table[i]).account_key == (
            #[trigger] table[j]).account_key && table[i].user_id == table[j].user_id),
    ensures
        ({
            let after = contexts::with_entry(table, contexts::fresh_entry(context, now, ttl));
            &&& table.len() <= after.len() <= table.len() + 1
            &&& forall|i: int|
                0 <= i < table.len() ==> {
                    if is_entry_of(#[trigger] table[i], context.account_key@, context.user_id@) {
                        after.len() == table.len() && after[i] == (ContextEntry {
                            account_key: context.account_key@,
                            user_id: context.user_id@,
                            observed_at: now,
                            expires_at: now + ttl,
                            reminded: false,
                        })
                    } else {
                        after[i] == table[i]
                    }
                }
            &&& (forall|i: int|
                0 <= i < table.len() ==> !is_entry_of(
                    #[trigger] table[i],
                    context.account_key@,
                    context.user_id@,
                )) ==> after == table.push(
                ContextEntry {
                    account_key: context.account_key@,
                    user_id: context.user_id@,
                    observed_at: now,
                    expires_at: now + ttl,
                    reminded: false,
                },
            )
        }),
{
    let entry = contexts::fresh_entry(context, now, ttl);
    lemma_place(table, entry, 0);
    let after = contexts::with_entry(table, entry);
    assert forall|i: int| 0 <= i < table.len() implies {
        if is_entry_of(#[trigger] table[i], context.account_key@, context.user_id@) {
            after.len() == table.len() && after[i] == entry
        } else {
            after[i] == table[i]
        }
    } by {
        match contexts::place_of(table, entry, 0) {
            Some(at) => {
                if i != at && is_entry_of(table[i], context.account_key@, context.user_id@) {
                    assert(table[if i < at { i } else { at }].account_key == context.account_key@);
                    assert(table[if i < at { at } else { i }].account_key == context.account_key@);
                }
            },
            None => {},
        }
    }
}

proof fn lemma_place(table: Seq<ContextEntry>, entry: ContextEntry, from: int)
    requires
        0 <= from,
    ensures
        match contexts::place_of(table, entry, from) {
            Some(i) => from <= i < table.len() && is_entry_of(
                table[i],
                entry.account_key,
                entry.user_id,
            ),
            None => forall|j: int|
                from <= j < table.len() ==> !is_entry_of(
                    #[trigger] table[j],
                    entry.account_key,
                    entry.user_id,
                ),
        },
    decreases table.len() - from,
{
    if from < table.len() {
        lemma_place(table, entry, from + 1);
    }
}

/// The contexts of a batch are kept one after the other.
pub proof fn law_contexts_of_a_batch_are_kept(
    table: Seq<ContextEntry>,
    msgs: Seq<IncomingMessage>,
    msg: IncomingMessage,
    now: int,
    ttl: int,
)
    ensures
        poll::batch_contexts(table, Seq::empty(), now, ttl) == table,
        msg.context is None ==> poll::batch_contexts(table, msgs.push(msg), now, ttl)
            == poll::batch_contexts(table, msgs, now, ttl),
        msg.context matches Some(context) ==> poll::batch_contexts(table, msgs.push(msg), now, ttl)
            == contexts::with_entry(
            poll::batch_contexts(table, msgs, now, ttl),
            contexts::fresh_entry(context, now, ttl),
        ),
{
    assert(msgs.push(msg).drop_last() =~= msgs);
}

/// Of a batch, those users are told to write whose kept contexts are about to expire after it; none
/// where contexts do not expire.
pub proof fn law_due_contexts_of_a_batch_are_told(
    client: WechatIlinkClient,
    cursor: Seq<char>,
    new_cursor: Seq<char>,
    msgs: Seq<IncomingMessage>,
    now: int,
)
    ensures
        ({
            let told = poll::updates_events(client, cursor, new_cursor, msgs, now);
            let n = (msgs.len() + contexts_among(msgs)) as int;
            let ttl = client.rate_limit.context_ttl@;
            let due = contexts::due_events(
                poll::batch_contexts(client.context_refresh_states@, msgs, now, ttl),
                now,
                client.rate_limit.context_remind_before@,
            );
            let rest = told.skip(n);
            let requests = if new_cursor.len() > 0 && new_cursor != cursor {
                rest.drop_last()
            } else {
                rest
            };
            &&& ttl == 0 ==> requests.len() == 0
            &&& ttl != 0 ==> requests == due
        }),
{
    lemma_batch_places(msgs);
    let told = poll::updates_events(client, cursor, new_cursor, msgs, now);
    let n = (msgs.len() + contexts_among(msgs)) as int;
    let due = poll::batch_due(client, msgs, now);
    if new_cursor.len() > 0 && new_cursor != cursor {
        assert(told.skip(n).drop_last() =~= due);
    } else {
        assert(told.skip(n) =~= due);
    }
}

/// After a failure polling waits one second, after each further one twice as long, and never longer
/// than ten.
pub proof fn law_delays_double(failures: nat)
    ensures
        poll::delay_after(0) == 1_000_000_000,
        poll::delay_after(failures + 1) == if 2 * poll::delay_after(failures) <= 10_000_000_000 {
            2 * poll::delay_after(failures)
        } else {
            10_000_000_000
        },
        poll::first_delay() == 1_000_000_000,
        forall|delay: int|
            #[trigger] poll::next_delay(delay) == if 2 * delay <= 10_000_000_000 {
                2 * delay
            } else {
                10_000_000_000
            },
{
}

} // verus!
