//! When the context of each user expires, and who was told.

use crate::events::{self, EventView, ReasonView, UserInteractionReason, WechatEvent};
use crate::time::{self, Duration, SystemTime};
use crate::types::WechatContext;
use vstd::prelude::*;

verus! {

struct ContextRefreshState {
    account_key: String,
    user_id: String,
    observed_at: SystemTime,
    expires_at: SystemTime,
    reminded: bool,
}

/// What is kept of the latest context of one user of one account.
#[verifier::ext_equal]
pub struct ContextEntry {
    pub account_key: Seq<char>,
    pub user_id: Seq<char>,
    pub observed_at: int,
    pub expires_at: int,
    pub reminded: bool,
}

impl View for ContextRefreshState {
    type V = ContextEntry;

    closed spec fn view(&self) -> ContextEntry {
        ContextEntry {
            account_key: self.account_key@,
            user_id: self.user_id@,
            observed_at: self.observed_at@,
            expires_at: self.expires_at@,
            reminded: self.reminded,
        }
    }
}

/// The contexts that are kept, one for each user of each account.
pub struct ContextTable {
    entries: Vec<ContextRefreshState>,
}

impl View for ContextTable {
    type V = Seq<ContextEntry>;

    closed spec fn view(&self) -> Seq<ContextEntry> {
        self.entries@.map_values(|e: ContextRefreshState| e@)
    }
}

pub open spec fn same_user(a: ContextEntry, b: ContextEntry) -> bool {
    a.account_key == b.account_key && a.user_id == b.user_id
}

/// No user of an account occurs twice.
pub open spec fn distinct_users(table: Seq<ContextEntry>) -> bool {
    forall|i: int, j: int|
        0 <= i < j < table.len() ==> !same_user(#[trigger] table[i], #[trigger] table[j])
}

/// The place of the user of `entry`, from place `from` on.
pub open spec fn place_of(table: Seq<ContextEntry>, entry: ContextEntry, from: int) -> Option<int>
    decreases table.len() - from,
{
    if from < 0 || from >= table.len() {
        None
    } else if same_user(table[from], entry) {
        Some(from)
    } else {
        place_of(table, entry, from + 1)
    }
}

/// `table` with `entry` in place of what it held of the same user.
pub open spec fn with_entry(table: Seq<ContextEntry>, entry: ContextEntry) -> Seq<ContextEntry> {
    match place_of(table, entry, 0) {
        Some(i) => table.update(i, entry),
        None => table.push(entry),
    }
}

/// A context that was just observed.
pub open spec fn fresh_entry(context: WechatContext, observed_at: int, ttl: int) -> ContextEntry {
    ContextEntry {
        account_key: context.account_key@,
        user_id: context.user_id@,
        observed_at,
        expires_at: observed_at + ttl,
        reminded: false,
    }
}

/// From when on a user should be asked to write.
pub open spec fn remind_at(entry: ContextEntry, remind_before: int) -> int {
    if time::in_time_range(entry.expires_at - remind_before) {
        entry.expires_at - remind_before
    } else {
        entry.observed_at
    }
}

/// Whether a user should be asked to write, and was not yet.
pub open spec fn is_due(entry: ContextEntry, now: int, remind_before: int) -> bool {
    !entry.reminded && now >= remind_at(entry, remind_before)
}

/// Whether the context has expired and its user was asked to write.
pub open spec fn is_over(entry: ContextEntry, now: int) -> bool {
    entry.reminded && now > entry.expires_at
}

pub open spec fn marked(entry: ContextEntry, now: int, remind_before: int) -> ContextEntry {
    if is_due(entry, now, remind_before) {
        ContextEntry { reminded: true, ..entry }
    } else {
        entry
    }
}

/// The event that asks a user to write.
pub open spec fn due_event(entry: ContextEntry, remind_before: int) -> EventView {
    EventView::UserInteractionRequested {
        account_key: entry.account_key,
        user_id: Some(entry.user_id),
        reason: ReasonView::ContextExpiring {
            observed_at: entry.observed_at,
            expires_at: entry.expires_at,
            remind_before,
        },
    }
}

/// The table without what is over, with everyone marked who is told at `now`.
pub open spec fn after_due(table: Seq<ContextEntry>, now: int, remind_before: int) -> Seq<
    ContextEntry,
>
    decreases table.len(),
{
    if table.len() == 0 {
        Seq::empty()
    } else {
        let init = after_due(table.drop_last(), now, remind_before);
        if is_over(table.last(), now) {
            init
        } else {
            init.push(marked(table.last(), now, remind_before))
        }
    }
}

/// The events of those who are told at `now`.
pub open spec fn due_events(table: Seq<ContextEntry>, now: int, remind_before: int) -> Seq<
    EventView,
>
    decreases table.len(),
{
    if table.len() == 0 {
        Seq::empty()
    } else {
        let init = due_events(table.drop_last(), now, remind_before);
        if is_due(table.last(), now, remind_before) {
            init.push(due_event(table.last(), remind_before))
        } else {
            init
        }
    }
}

proof fn lemma_place_of(table: Seq<ContextEntry>, entry: ContextEntry, from: int)
    requires
        0 <= from,
    ensures
        match place_of(table, entry, from) {
            Some(i) => from <= i < table.len() && same_user(table[i], entry) && forall|j: int|
                from <= j < i ==> !same_user(#[trigger] table[j], entry),
            None => forall|j: int|
                from <= j < table.len() ==> !same_user(#[trigger] table[j], entry),
        },
    decreases table.len() - from,
{
    if from < table.len() && !same_user(table[from], entry) {
        lemma_place_of(table, entry, from + 1);
    }
}

impl ContextTable {
    #[verifier::type_invariant]
    spec fn users_are_distinct(self) -> bool {
        distinct_users(self@)
    }

    pub fn new() -> (table: ContextTable)
        ensures
            table@ == Seq::<ContextEntry>::empty(),
    {
        let table = ContextTable { entries: Vec::new() };
        assert(table@ =~= Seq::empty());
        table
    }

    /// Keeps `context`, observed at `observed_at`, for `ttl`.
    pub fn observe(&mut self, context: &WechatContext, observed_at: SystemTime, ttl: Duration)
        requires
            time::in_time_range(observed_at@ + ttl@),
        ensures
            final(self)@ == with_entry(old(self)@, fresh_entry(*context, observed_at@, ttl@)),
            distinct_users(final(self)@),
    {
        let expires_at = match observed_at.checked_add(ttl) {
            Some(expires_at) => expires_at,
            None => observed_at,
        };
        let entry = ContextRefreshState {
            account_key: context.account_key.clone(),
            user_id: context.user_id.clone(),
            observed_at,
            expires_at,
            reminded: false,
        };
        let ghost new = entry@;
        let ghost before = self@;
        proof {
            use_type_invariant(&*self);
            law_users_stay_distinct(before, new, 0, 0);
        }
        let mut i: usize = 0;
        while i < self.entries.len()
            invariant
                i <= self.entries.len(),
                *self == *old(self),
                before == self@,
                new == entry@,
                new == fresh_entry(*context, observed_at@, ttl@),
                place_of(before, new, 0) == place_of(before, new, i as int),
                distinct_users(with_entry(before, new)),
            decreases self.entries.len() - i,
        {
            assert(before[i as int] == self.entries@[i as int]@);
            if self.entries[i].account_key == entry.account_key && self.entries[i].user_id
                == entry.user_id {
                let mut entries: Vec<ContextRefreshState> = Vec::new();
                std::mem::swap(&mut entries, &mut self.entries);
                entries.set(i, entry);
                assert(entries@.map_values(|e: ContextRefreshState| e@) =~= before.update(
                    i as int,
                    new,
                ));
                self.entries = entries;
                return ;
            }
            i += 1;
        }
        let mut entries: Vec<ContextRefreshState> = Vec::new();
        std::mem::swap(&mut entries, &mut self.entries);
        entries.push(entry);
        assert(entries@.map_values(|e: ContextRefreshState| e@) =~= before.push(new));
        self.entries = entries;
    }

    /// Tells everyone whose context is about to expire at `now`, once. Nobody is told where
    /// contexts do not expire.
    pub fn take_due(&mut self, now: SystemTime, ttl: Duration, remind_before: Duration) -> (told:
        Vec<WechatEvent>)
        ensures
            distinct_users(final(self)@),
            ttl@ == 0 ==> told@.len() == 0 && final(self)@ == old(self)@,
            ttl@ != 0 ==> {
                &&& final(self)@ == after_due(old(self)@, now@, remind_before@)
                &&& events::event_views(told@) == due_events(old(self)@, now@, remind_before@)
            },
    {
        let mut told: Vec<WechatEvent> = Vec::new();
        proof {
            use_type_invariant(&*self);
        }
        if ttl.is_zero() {
            return told;
        }
        let mut entries: Vec<ContextRefreshState> = Vec::new();
        let mut kept: Vec<ContextRefreshState> = Vec::new();
        std::mem::swap(&mut entries, &mut self.entries);
        let ghost all = old(self)@;
        proof {
            lemma_after_due_distinct(all, now@, remind_before@);
        }
        assert(all =~= entries@.map_values(|e: ContextRefreshState| e@));
        assert(kept@.map_values(|e: ContextRefreshState| e@) =~= after_due(
            all.take(0),
            now@,
            remind_before@,
        ));
        assert(events::event_views(told@) =~= due_events(all.take(0), now@, remind_before@));
        for entry in it: entries
            invariant
                all == it.seq().map_values(|e: ContextRefreshState| e@),
                kept@.map_values(|e: ContextRefreshState| e@) == after_due(
                    all.take(it.index() as int),
                    now@,
                    remind_before@,
                ),
                events::event_views(told@) == due_events(
                    all.take(it.index() as int),
                    now@,
                    remind_before@,
                ),
        {
            let ghost i = it.index() as int;
            let ghost kept0 = kept@.map_values(|e: ContextRefreshState| e@);
            let ghost told0 = events::event_views(told@);
            assert(all.take(i + 1).drop_last() =~= all.take(i));
            assert(all[i] == entry@);
            let mut entry = entry;
            let ghost before = entry@;
            if !entry.reminded {
                let at = match entry.expires_at.checked_sub(remind_before) {
                    Some(at) => at,
                    None => entry.observed_at,
                };
                if now.unix_nanos() >= at.unix_nanos() {
                    entry.reminded = true;
                    told.push(
                        WechatEvent::UserInteractionRequested {
                            account_key: entry.account_key.clone(),
                            user_id: Some(entry.user_id.clone()),
                            reason: UserInteractionReason::ContextExpiring {
                                observed_at: entry.observed_at,
                                expires_at: entry.expires_at,
                                remind_before,
                            },
                        },
                    );
                    assert(events::event_views(told@) =~= told0.push(
                        due_event(before, remind_before@),
                    ));
                }
                let ghost after = entry@;
                assert(after =~= marked(before, now@, remind_before@));
                kept.push(entry);
                assert(kept@.map_values(|e: ContextRefreshState| e@) =~= kept0.push(after));
            } else if now.unix_nanos() <= entry.expires_at.unix_nanos() {
                kept.push(entry);
                assert(kept@.map_values(|e: ContextRefreshState| e@) =~= kept0.push(before));
            }
        }
        assert(all.take(all.len() as int) =~= all);
        self.entries = kept;
        told
    }
}

/// A table with one entry for each user of each account keeps that property.
pub proof fn law_users_stay_distinct(
    table: Seq<ContextEntry>,
    entry: ContextEntry,
    now: int,
    remind_before: int,
)
    requires
        distinct_users(table),
    ensures
        distinct_users(with_entry(table, entry)),
        distinct_users(after_due(table, now, remind_before)),
{
    lemma_place_of(table, entry, 0);
    let after = with_entry(table, entry);
    assert forall|i: int, j: int| 0 <= i < j < after.len() implies !same_user(
        #[trigger] after[i],
        #[trigger] after[j],
    ) by {
        if let Some(at) = place_of(table, entry, 0) {
            assert(!same_user(table[i], table[j]));
        } else if j < table.len() {
            assert(!same_user(table[i], table[j]));
        } else {
            assert(!same_user(table[i], entry));
        }
    }
    lemma_after_due_distinct(table, now, remind_before);
}

/// Every entry that is left stands for one that was there.
proof fn lemma_after_due_from(table: Seq<ContextEntry>, now: int, remind_before: int, i: int)
    requires
        0 <= i < after_due(table, now, remind_before).len(),
    ensures
        exists|j: int|
            0 <= j < table.len() && after_due(table, now, remind_before)[i] == marked(
                #[trigger] table[j],
                now,
                remind_before,
            ),
    decreases table.len(),
{
    let init = after_due(table.drop_last(), now, remind_before);
    if i < init.len() {
        lemma_after_due_from(table.drop_last(), now, remind_before, i);
        let j = choose|j: int|
            0 <= j < table.drop_last().len() && init[i] == marked(
                #[trigger] table.drop_last()[j],
                now,
                remind_before,
            );
        assert(table[j] == table.drop_last()[j]);
    } else {
        assert(table[table.len() - 1] == table.last());
    }
}

proof fn lemma_after_due_distinct(table: Seq<ContextEntry>, now: int, remind_before: int)
    requires
        distinct_users(table),
    ensures
        distinct_users(after_due(table, now, remind_before)),
    decreases table.len(),
{
    if table.len() > 0 {
        let rest = table.drop_last();
        let init = after_due(rest, now, remind_before);
        let after = after_due(table, now, remind_before);
        assert forall|i: int, j: int| 0 <= i < j < rest.len() implies !same_user(
            #[trigger] rest[i],
            #[trigger] rest[j],
        ) by {
            assert(!same_user(table[i], table[j]));
        }
        lemma_after_due_distinct(rest, now, remind_before);
        assert forall|i: int, j: int| 0 <= i < j < after.len() implies !same_user(
            #[trigger] after[i],
            #[trigger] after[j],
        ) by {
            if j < init.len() {
                assert(!same_user(init[i], init[j]));
            } else {
                lemma_after_due_from(rest, now, remind_before, i);
                let k = choose|k: int|
                    0 <= k < rest.len() && init[i] == marked(
                        #[trigger] rest[k],
                        now,
                        remind_before,
                    );
                assert(!same_user(table[k], table[table.len() - 1]));
            }
        }
    }
}

/// Nobody is told twice at the same time: once everyone was told, there is nobody left to tell.
pub proof fn law_told_once(table: Seq<ContextEntry>, now: int, remind_before: int)
    ensures
        due_events(after_due(table, now, remind_before), now, remind_before).len() == 0,
    decreases table.len(),
{
    if table.len() > 0 {
        law_told_once(table.drop_last(), now, remind_before);
        let init = after_due(table.drop_last(), now, remind_before);
        let after = after_due(table, now, remind_before);
        if !is_over(table.last(), now) {
            assert(after.drop_last() =~= init);
        }
    }
}

/// Where every user was told, nobody is told again, whatever time passes.
pub proof fn law_told_users_stay_told(table: Seq<ContextEntry>, now: int, remind_before: int)
    requires
        forall|i: int| 0 <= i < table.len() ==> (#[trigger] table[i]).reminded,
    ensures
        due_events(table, now, remind_before).len() == 0,
    decreases table.len(),
{
    if table.len() > 0 {
        assert(table[table.len() - 1].reminded);
        assert forall|i: int| 0 <= i < table.drop_last().len() implies (
        #[trigger] table.drop_last()[i]).reminded by {
            assert(table[i].reminded);
        }
        law_told_users_stay_told(table.drop_last(), now, remind_before);
    }
}

/// A context that was observed again counts from then on: its user is told when the new context
/// is about to expire, although they were told before.
pub proof fn law_new_context_starts_afresh(
    table: Seq<ContextEntry>,
    context: WechatContext,
    observed_at: int,
    ttl: int,
    remind_before: int,
    now: int,
)
    requires
        time::in_time_range(observed_at + ttl - remind_before),
    ensures
        ({
            let entry = fresh_entry(context, observed_at, ttl);
            &&& with_entry(table, entry).contains(entry)
            &&& is_due(entry, now, remind_before) <==> now >= observed_at + ttl - remind_before
        }),
{
    let entry = fresh_entry(context, observed_at, ttl);
    lemma_place_of(table, entry, 0);
    match place_of(table, entry, 0) {
        Some(i) => {
            assert(with_entry(table, entry)[i] == entry);
        },
        None => {
            assert(with_entry(table, entry)[table.len() as int] == entry);
        },
    }
}

} // verus!
