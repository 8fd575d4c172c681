//! How often each account has sent of late, and until when it has to hold back.

use crate::text;
use crate::time::{self, Duration, Instant};
use std::collections::VecDeque;
use vstd::prelude::*;

verus! {

/// What is kept of one account.
pub struct AccountRateLimitState {
    sent_at: VecDeque<Instant>,
    next_allowed_at: Option<Instant>,
}

/// What is kept of one account: when it sent, the earliest first, and until when it holds back.
#[verifier::ext_equal]
pub struct AccountState {
    pub sent_at: Seq<int>,
    pub next_allowed_at: Option<int>,
}

pub open spec fn instant_views(s: Seq<Instant>) -> Seq<int> {
    s.map_values(|t: Instant| t@)
}

impl View for AccountRateLimitState {
    type V = AccountState;

    closed spec fn view(&self) -> AccountState {
        AccountState {
            sent_at: instant_views(self.sent_at@),
            next_allowed_at: match self.next_allowed_at {
                Some(t) => Some(t@),
                None => None,
            },
        }
    }
}

struct AccountEntry {
    key: String,
    state: AccountRateLimitState,
}

/// The accounts of which something is kept. The view maps each one's key to it.
pub struct RateLimitTable {
    entries: Vec<AccountEntry>,
}

/// An account of which nothing is known.
pub open spec fn idle() -> AccountState {
    AccountState { sent_at: Seq::empty(), next_allowed_at: None }
}

pub open spec fn state_of(table: Map<Seq<char>, AccountState>, key: Seq<char>) -> AccountState {
    if table.dom().contains(key) {
        table[key]
    } else {
        idle()
    }
}

/// How long an account still holds back at `now`.
pub open spec fn remaining_backoff(state: AccountState, now: int) -> Option<int> {
    match state.next_allowed_at {
        Some(t) if t > now => Some(t - now),
        _ => None,
    }
}

/// The account after it was looked at: a time that has passed is forgotten.
pub open spec fn after_check(state: AccountState, now: int) -> AccountState {
    if remaining_backoff(state, now) is Some {
        state
    } else {
        AccountState { next_allowed_at: None, ..state }
    }
}

/// The account after it was told to hold back until `until`: it never gets shorter.
pub open spec fn after_deferral(state: AccountState, until: int) -> AccountState {
    match state.next_allowed_at {
        Some(t) if t >= until => state,
        _ => AccountState { next_allowed_at: Some(until), ..state },
    }
}

/// `sent_at` without what lies more than `window` back at its front.
pub open spec fn recent(sent_at: Seq<int>, now: int, window: int) -> Seq<int>
    decreases sent_at.len(),
{
    if sent_at.len() > 0 && now - sent_at[0] > window {
        recent(sent_at.drop_first(), now, window)
    } else {
        sent_at
    }
}

/// The account after it has sent at `now`.
pub open spec fn after_send(state: AccountState, now: int, window: int) -> AccountState {
    AccountState { sent_at: recent(state.sent_at, now, window).push(now), ..state }
}

spec fn position(entries: Seq<AccountEntry>, key: Seq<char>, from: int) -> Option<int>
    decreases entries.len() - from,
{
    if from < 0 || from >= entries.len() {
        None
    } else if entries[from].key@ == key {
        Some(from)
    } else {
        position(entries, key, from + 1)
    }
}

proof fn lemma_position(entries: Seq<AccountEntry>, key: Seq<char>, from: int, at: int)
    requires
        0 <= from <= at <= entries.len(),
        forall|j: int| from <= j < at ==> (#[trigger] entries[j]).key@ != key,
        at < entries.len() ==> entries[at].key@ == key,
    ensures
        position(entries, key, from) == if at < entries.len() {
            Some(at)
        } else {
            None
        },
    decreases at - from,
{
    if from < at {
        assert(entries[from].key@ != key);
        lemma_position(entries, key, from + 1, at);
    }
}

proof fn lemma_position_is(entries: Seq<AccountEntry>, key: Seq<char>, from: int)
    requires
        0 <= from,
    ensures
        match position(entries, key, from) {
            Some(i) => from <= i < entries.len() && entries[i].key@ == key && forall|j: int|
                from <= j < i ==> (#[trigger] entries[j]).key@ != key,
            None => forall|j: int|
                from <= j < entries.len() ==> (#[trigger] entries[j]).key@ != key,
        },
    decreases entries.len() - from,
{
    if from < entries.len() && entries[from].key@ != key {
        lemma_position_is(entries, key, from + 1);
    }
}

/// Keys that stay where they are keep their positions, and a new one comes last.
proof fn lemma_same_keys(before: Seq<AccountEntry>, after: Seq<AccountEntry>, key: Seq<char>)
    requires
        before.len() <= after.len(),
        forall|i: int| 0 <= i < before.len() ==> (#[trigger] after[i]).key@ == before[i].key@,
    ensures
        position(before, key, 0) is Some ==> position(after, key, 0) == position(before, key, 0),
{
    lemma_position_is(before, key, 0);
    if let Some(i) = position(before, key, 0) {
        assert(after[i].key@ == before[i].key@);
        assert forall|j: int| 0 <= j < i implies (#[trigger] after[j]).key@ != key by {
            assert(before[j].key@ != key);
        }
        lemma_position(after, key, 0, i);
    }
}

/// What `entries` hold: the first one for each key.
spec fn accounts(entries: Seq<AccountEntry>) -> Map<Seq<char>, AccountState> {
    Map::new(
        |key: Seq<char>| position(entries, key, 0) is Some,
        |key: Seq<char>| entries[position(entries, key, 0)->0].state@,
    )
}

spec fn distinct_keys(entries: Seq<AccountEntry>) -> bool {
    forall|i: int, j: int|
        0 <= i < j < entries.len() ==> (#[trigger] entries[i]).key@ != (#[trigger] entries[j]).key@
}

impl View for RateLimitTable {
    type V = Map<Seq<char>, AccountState>;

    closed spec fn view(&self) -> Map<Seq<char>, AccountState> {
        accounts(self.entries@)
    }
}

/// The state of the account at `at` has changed, and nothing else.
proof fn lemma_changed(
    before: Seq<AccountEntry>,
    after: Seq<AccountEntry>,
    at: int,
    key: Seq<char>,
)
    requires
        0 <= at < before.len(),
        position(before, key, 0) == Some(at),
        after.len() == before.len(),
        after[at].key == before[at].key,
        forall|j: int| 0 <= j < before.len() && j != at ==> after[j] == #[trigger] before[j],
    ensures
        accounts(after) == accounts(before).insert(key, after[at].state@),
        distinct_keys(before) ==> distinct_keys(after),
{
    lemma_position_is(before, key, 0);
    assert forall|j: int| 0 <= j < before.len() implies (#[trigger] after[j]).key@
        == before[j].key@ by {}
    assert forall|k: Seq<char>| position(after, k, 0) == position(before, k, 0) by {
        lemma_same_keys(before, after, k);
        lemma_same_keys(after, before, k);
    }
    assert forall|k: Seq<char>|
        k != key && #[trigger] accounts(after).dom().contains(k) implies accounts(after)[k]
        == accounts(before)[k] by {
        lemma_position_is(before, k, 0);
        let j = position(before, k, 0)->0;
        assert(after[j] == before[j]);
    }
    assert(accounts(after) =~= accounts(before).insert(key, after[at].state@));
    if distinct_keys(before) {
        assert forall|i: int, j: int| 0 <= i < j < after.len() implies (#[trigger] after[i]).key@ != (
        #[trigger] after[j]).key@ by {
            assert(before[i].key@ != before[j].key@);
        }
    }
}

/// The place of `key`, which gets one where it has none.
fn place(entries: &mut Vec<AccountEntry>, key: &str) -> (at: usize)
    requires
        distinct_keys(old(entries)@),
    ensures
        at < final(entries).len(),
        distinct_keys(final(entries)@),
        position(final(entries)@, key@, 0) == Some(at as int),
        accounts(final(entries)@) == accounts(old(entries)@).insert(
            key@,
            state_of(accounts(old(entries)@), key@),
        ),
        final(entries)@[at as int].state@ == state_of(accounts(old(entries)@), key@),
{
    let ghost before = entries@;
    let mut i: usize = 0;
    while i < entries.len()
        invariant
            i <= entries.len(),
            entries@ == before,
            before == old(entries)@,
            distinct_keys(before),
            forall|j: int| 0 <= j < i ==> (#[trigger] before[j]).key@ != key@,
        decreases entries.len() - i,
    {
        if text::is(&entries[i].key, key) {
            proof {
                lemma_position(before, key@, 0, i as int);
                assert(accounts(before) =~= accounts(before).insert(
                    key@,
                    state_of(accounts(before), key@),
                ));
            }
            return i;
        }
        i += 1;
    }
    proof {
        lemma_position(before, key@, 0, i as int);
    }
    entries.push(
        AccountEntry {
            key: key.to_owned(),
            state: AccountRateLimitState { sent_at: VecDeque::new(), next_allowed_at: None },
        },
    );
    proof {
        let after = entries@;
        lemma_position(after, key@, 0, i as int);
        assert(after[i as int].state@ =~= idle());
        assert forall|k: Seq<char>| #[trigger]
            accounts(after).dom().contains(k) <==> accounts(before).dom().contains(k) || k
                == key@ by {
            lemma_same_keys(before, after, k);
            lemma_position_is(before, k, 0);
            lemma_position_is(after, k, 0);
        }
        assert forall|k: Seq<char>|
            k != key@ && #[trigger] accounts(after).dom().contains(k) implies accounts(after)[k]
            == accounts(before)[k] by {
            lemma_same_keys(before, after, k);
            lemma_position_is(before, k, 0);
            lemma_position_is(after, k, 0);
        }
        assert(accounts(after) =~= accounts(before).insert(
            key@,
            state_of(accounts(before), key@),
        ));
    }
    i
}

impl RateLimitTable {
    #[verifier::type_invariant]
    spec fn keys_are_distinct(self) -> bool {
        distinct_keys(self.entries@)
    }

    pub fn new() -> (table: RateLimitTable)
        ensures
            table@ == Map::<Seq<char>, AccountState>::empty(),
    {
        let table = RateLimitTable { entries: Vec::new() };
        assert(table@ =~= Map::empty());
        table
    }

    /// All that the table holds; the table is left empty.
    fn take_entries(&mut self) -> (entries: Vec<AccountEntry>)
        ensures
            entries@ == old(self).entries@,
            distinct_keys(entries@),
    {
        proof {
            use_type_invariant(&*self);
        }
        let mut entries: Vec<AccountEntry> = Vec::new();
        std::mem::swap(&mut entries, &mut self.entries);
        entries
    }

    /// How long the account still holds back, where it does. A time that has passed is forgotten.
    pub fn active_backoff(&mut self, account_key: &str, now: Instant) -> (wait: Option<Duration>)
        ensures
            account_key@.len() == 0 ==> wait is None && final(self)@ == old(self)@,
            account_key@.len() > 0 ==> {
                let state = state_of(old(self)@, account_key@);
                &&& final(self)@ == old(self)@.insert(account_key@, after_check(state, now@))
                &&& match wait {
                    Some(wait) => remaining_backoff(state, now@) == Some(wait@),
                    None => remaining_backoff(state, now@) is None,
                }
            },
    {
        if account_key.is_empty() {
            return None;
        }
        let mut entries = self.take_entries();
        let at = place(&mut entries, account_key);
        let ghost entered = entries@;
        let wait = match entries[at].state.next_allowed_at {
            Some(next_allowed_at) => match next_allowed_at.checked_duration_since(now) {
                Some(wait) if !wait.is_zero() => Some(wait),
                _ => None,
            },
            None => None,
        };
        if wait.is_none() {
            entries[at].state.next_allowed_at = None;
        }
        proof {
            lemma_changed(entered, entries@, at as int, account_key@);
            assert(entries@[at as int].state@ =~= after_check(entered[at as int].state@, now@));
        }
        self.entries = entries;
        wait
    }

    /// Tells the account to hold back for `retry_after` from `now` on.
    pub fn defer(&mut self, account_key: &str, now: Instant, retry_after: Duration)
        requires
            account_key@.len() > 0 ==> time::in_time_range(now@ + retry_after@),
        ensures
            account_key@.len() == 0 ==> final(self)@ == old(self)@,
            account_key@.len() > 0 ==> final(self)@ == old(self)@.insert(
                account_key@,
                after_deferral(state_of(old(self)@, account_key@), now@ + retry_after@),
            ),
    {
        if account_key.is_empty() {
            return ;
        }
        let until = now.checked_add(retry_after);
        let mut entries = self.take_entries();
        let at = place(&mut entries, account_key);
        let ghost entered = entries@;
        let later = match (entries[at].state.next_allowed_at, until) {
            (Some(current), Some(until)) => current.as_nanos() < until.as_nanos(),
            _ => true,
        };
        if later {
            entries[at].state.next_allowed_at = until;
        }
        proof {
            lemma_changed(entered, entries@, at as int, account_key@);
        }
        self.entries = entries;
    }

    /// Forgets what the account has sent and that it holds back.
    pub fn reset(&mut self, account_key: &str)
        ensures
            account_key@.len() == 0 ==> final(self)@ == old(self)@,
            account_key@.len() > 0 ==> final(self)@ == old(self)@.insert(account_key@, idle()),
    {
        if account_key.is_empty() {
            return ;
        }
        let mut entries = self.take_entries();
        let at = place(&mut entries, account_key);
        let ghost entered = entries@;
        entries[at].state.sent_at.clear();
        entries[at].state.next_allowed_at = None;
        proof {
            lemma_changed(entered, entries@, at as int, account_key@);
            assert(entries@[at as int].state@ =~= idle());
        }
        self.entries = entries;
    }

    /// Notes that the account has sent at `now`, and how often it has within `window`.
    pub fn record_send(&mut self, account_key: &str, now: Instant, window: Duration) -> (count:
        usize)
        ensures
            ({
                let after = after_send(state_of(old(self)@, account_key@), now@, window@);
                &&& final(self)@ == old(self)@.insert(account_key@, after)
                &&& count == after.sent_at.len()
            }),
    {
        let mut entries = self.take_entries();
        let at = place(&mut entries, account_key);
        let ghost entered = entries@;
        let ghost state = entries@[at as int].state@;
        while entries[at].state.sent_at.len() > 0 && Self::outside(
            entries[at].state.sent_at[0],
            now,
            window,
        )
            invariant
                at < entries.len(),
                entries@.len() == entered.len(),
                forall|j: int|
                    0 <= j < entered.len() && j != at ==> entries@[j] == #[trigger] entered[j],
                entries@[at as int].key == entered[at as int].key,
                entries@[at as int].state.next_allowed_at
                    == entered[at as int].state.next_allowed_at,
                recent(state.sent_at, now@, window@) == recent(
                    entries@[at as int].state@.sent_at,
                    now@,
                    window@,
                ),
            decreases entries[at as int].state.sent_at@.len(),
        {
            let ghost before = entries@[at as int].state@.sent_at;
            let _ = entries[at].state.sent_at.pop_front();
            assert(entries@[at as int].state@.sent_at =~= before.drop_first());
        }
        let ghost kept = entries@[at as int].state@.sent_at;
        entries[at].state.sent_at.push_back(now);
        proof {
            assert(entries@[at as int].state@.sent_at =~= kept.push(now@));
            lemma_changed(entered, entries@, at as int, account_key@);
            assert(entries@[at as int].state@ =~= after_send(state, now@, window@));
        }
        let count = entries[at].state.sent_at.len();
        self.entries = entries;
        count
    }

    /// Whether `sent_at` lies more than `window` before `now`.
    fn outside(sent_at: Instant, now: Instant, window: Duration) -> (b: bool)
        ensures
            b == (now@ - sent_at@ > window@),
    {
        now.as_nanos() - sent_at.as_nanos() > window.as_nanos() as i128
    }
}

/// An account that was told to hold back does so for the whole time, and for no longer than that
/// or than it already had to.
pub proof fn law_deferral_lasts(state: AccountState, until: int, now: int)
    ensures
        now < until ==> (remaining_backoff(after_deferral(state, until), now) matches Some(wait)
            && wait >= until - now),
        now >= until && remaining_backoff(state, now) is None ==> remaining_backoff(
            after_deferral(state, until),
            now,
        ) is None,
        after_deferral(state, until).sent_at == state.sent_at,
{
}

/// An account that was reset holds back no longer, and its next message counts as its first.
pub proof fn law_reset_lifts_the_limits(
    table: Map<Seq<char>, AccountState>,
    key: Seq<char>,
    now: int,
    window: int,
)
    ensures
        ({
            let state = state_of(table.insert(key, idle()), key);
            &&& remaining_backoff(state, now) is None
            &&& after_send(state, now, window).sent_at == seq![now]
        }),
{
    assert(recent(Seq::empty(), now, window).push(now) =~= seq![now]);
}

/// The account after it has sent at each of `times`.
pub open spec fn after_sends(state: AccountState, times: Seq<int>, window: int) -> AccountState
    decreases times.len(),
{
    if times.len() == 0 {
        state
    } else {
        after_send(after_sends(state, times.drop_last(), window), times.last(), window)
    }
}

/// What was dropped once would be dropped later as well.
proof fn lemma_recent_again(s: Seq<int>, last: int, before: int, now: int, window: int)
    requires
        before <= now,
    ensures
        recent(recent(s, before, window).push(last), now, window) == recent(
            s.push(last),
            now,
            window,
        ),
    decreases s.len(),
{
    if s.len() > 0 && before - s[0] > window {
        lemma_recent_again(s.drop_first(), last, before, now, window);
        assert(s.push(last).drop_first() =~= s.drop_first().push(last));
    }
}

/// What an account keeps of the times at which it has sent.
proof fn lemma_after_sends(state: AccountState, times: Seq<int>, window: int)
    requires
        state.sent_at.len() == 0,
        times.len() > 0,
        in_order(times),
    ensures
        after_sends(state, times, window) == (AccountState {
            sent_at: recent(times.drop_last(), times.last(), window).push(times.last()),
            ..state
        }),
    decreases times.len(),
{
    let init = times.drop_last();
    reveal_with_fuel(after_sends, 2);
    if init.len() > 0 {
        assert forall|i: int, j: int| 0 <= i <= j < init.len() implies init[i] <= init[j] by {
            assert(times[i] <= times[j]);
        }
        lemma_after_sends(state, init, window);
        assert(times[init.len() - 1] <= times[init.len() as int]);
        lemma_recent_again(init.drop_last(), init.last(), init.last(), times.last(), window);
        assert(init.drop_last().push(init.last()) =~= init);
    } else {
        assert(state.sent_at =~= init);
    }
}

pub open spec fn in_order(times: Seq<int>) -> bool {
    forall|i: int, j: int| 0 <= i <= j < times.len() ==> times[i] <= times[j]
}

/// Those of `times` that lie within `window` of `now`.
pub open spec fn within(times: Seq<int>, now: int, window: int) -> Seq<int> {
    times.filter(|t: int| now - t <= window)
}

/// Of all that an account has sent since it was reset, exactly what lies within the window of the
/// last message counts, whether the account holds back or not.
pub proof fn law_sends_are_counted(state: AccountState, times: Seq<int>, window: int)
    requires
        state.sent_at.len() == 0,
        times.len() > 0,
        in_order(times),
        window >= 0,
    ensures
        after_sends(state, times, window) == (AccountState {
            sent_at: within(times, times.last(), window),
            ..state
        }),
{
    let init = times.drop_last();
    let now = times.last();
    lemma_after_sends(state, times, window);
    assert forall|i: int, j: int| 0 <= i <= j < init.len() implies init[i] <= init[j] by {
        assert(times[i] <= times[j]);
    }
    law_old_sends_do_not_count(init, now, window);
    assert(within(times, now, window) =~= within(init, now, window).push(now)) by {
        reveal(Seq::filter);
    }
}

/// What lies outside the window does not count: where sends come in order, only those within the
/// window of the last one are left.
pub proof fn law_old_sends_do_not_count(sent_at: Seq<int>, now: int, window: int)
    requires
        in_order(sent_at),
    ensures
        recent(sent_at, now, window) == within(sent_at, now, window),
    decreases sent_at.len(),
{
    let keep = |t: int| now - t <= window;
    if sent_at.len() == 0 {
        assert(sent_at.filter(keep) =~= sent_at) by {
            reveal(Seq::filter);
        }
    } else if now - sent_at[0] > window {
        law_old_sends_do_not_count(sent_at.drop_first(), now, window);
        lemma_filter_front(sent_at, keep);
    } else {
        assert forall|i: int| 0 <= i < sent_at.len() implies keep(#[trigger] sent_at[i]) by {
            assert(sent_at[0] <= sent_at[i]);
        }
        lemma_filter_all(sent_at, keep);
    }
}

proof fn lemma_filter_front(s: Seq<int>, keep: spec_fn(int) -> bool)
    requires
        s.len() > 0,
        !keep(s[0]),
    ensures
        s.filter(keep) == s.drop_first().filter(keep),
    decreases s.len(),
{
    reveal(Seq::filter);
    if s.len() > 1 {
        lemma_filter_front(s.drop_last(), keep);
        assert(s.drop_last().drop_first() =~= s.drop_first().drop_last());
    } else {
        assert(s.drop_last().filter(keep) =~= Seq::empty());
        assert(s.drop_first() =~= Seq::empty());
    }
}

proof fn lemma_filter_all(s: Seq<int>, keep: spec_fn(int) -> bool)
    requires
        forall|i: int| 0 <= i < s.len() ==> keep(#[trigger] s[i]),
    ensures
        s.filter(keep) == s,
    decreases s.len(),
{
    reveal(Seq::filter);
    if s.len() > 0 {
        lemma_filter_all(s.drop_last(), keep);
        assert(s.drop_last().push(s.last()) =~= s);
    }
}

} // verus!
