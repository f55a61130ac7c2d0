//! Properties that hold across calls of the presence engine.

use vstd::prelude::*;

use crate::presence_event::{
    after_cursor, latest_entry, latest_per_user, lemma_latest_entry_user, log_appended,
    next_entry, PresenceStreamEvent,
};
use crate::presence_list::{
    has_entry, lemma_observed_by, list_updated, list_wf, observed_by, PresenceList,
};
use crate::presence_state::PresenceState;
use crate::presence_status::upserted;
use crate::store::{status_of, PresenceStore};
use crate::sync::{event_of, events_of, sync_entries, PresenceEvent};
use crate::table::{contains_id, find_keyed, lemma_find_none, unique_keys, Keyed};

verus! {

/// Every status row agrees with the latest logged transition of its user:
/// same event, same state, same time.
pub open spec fn status_matches_log(store: PresenceStore) -> bool {
    forall|u: Seq<char>| #[trigger] row_matches_log(store, u)
}

/// The status row of `u`, if any, agrees with the latest logged transition of `u`.
pub open spec fn row_matches_log(store: PresenceStore, u: Seq<char>) -> bool {
    match status_of(store, u) {
        Some(st) => match latest_entry(store.events@, u, None) {
            Some(e) => e.event_id == st.event_id && e.presence == st.presence && e.created_at
                == st.updated_at,
            None => false,
        },
        None => true,
    }
}

/// How many of `ids` are `u`.
pub open spec fn count_id(ids: Seq<String>, u: Seq<char>) -> nat
    decreases ids.len(),
{
    if ids.len() == 0 {
        0
    } else {
        count_id(ids.drop_last(), u) + if ids.last()@ == u {
            1nat
        } else {
            0nat
        }
    }
}

/// How many rows of `rows` carry the key `u`.
pub open spec fn count_keyed<T: Keyed>(rows: Seq<T>, u: Seq<char>) -> nat
    decreases rows.len(),
{
    if rows.len() == 0 {
        0
    } else {
        count_keyed(rows.drop_last(), u) + if rows.last().key() == u {
            1nat
        } else {
            0nat
        }
    }
}

/// The transitions of `entries` that belong to `u`, in their order.
pub open spec fn entries_for(entries: Seq<PresenceStreamEvent>, u: Seq<char>) -> Seq<
    PresenceStreamEvent,
>
    decreases entries.len(),
{
    if entries.len() == 0 {
        Seq::empty()
    } else {
        let rest = entries_for(entries.drop_last(), u);
        if entries.last().user_id@ == u {
            rest.push(entries.last())
        } else {
            rest
        }
    }
}

/// The events of `events` about `u`, in their order.
pub open spec fn events_for(events: Seq<PresenceEvent>, u: Seq<char>) -> Seq<PresenceEvent>
    decreases events.len(),
{
    if events.len() == 0 {
        Seq::empty()
    } else {
        let rest = events_for(events.drop_last(), u);
        if events.last().content.user_id@ == u {
            rest.push(events.last())
        } else {
            rest
        }
    }
}

proof fn lemma_count_keyed_one<T: Keyed>(rows: Seq<T>, u: Seq<char>)
    requires
        unique_keys(rows),
        find_keyed(rows, u) is Some,
    ensures
        count_keyed(rows, u) == 1,
    decreases rows.len(),
{
    let d = rows.drop_last();
    assert forall|a: int, b: int|
        0 <= a < d.len() && 0 <= b < d.len() && a != b implies #[trigger] d[a].key()
        != #[trigger] d[b].key() by {
        assert(d[a] == rows[a] && d[b] == rows[b]);
    }
    if rows.last().key() == u {
        assert forall|i: int| 0 <= i < d.len() implies #[trigger] d[i].key() != u by {
            assert(d[i] == rows[i]);
            assert(rows[rows.len() - 1].key() == u);
        }
        lemma_find_none(d, u);
        lemma_count_keyed_zero(d, u);
    } else {
        lemma_count_keyed_one(d, u);
    }
}

proof fn lemma_count_keyed_zero<T: Keyed>(rows: Seq<T>, u: Seq<char>)
    requires
        find_keyed(rows, u) is None,
    ensures
        count_keyed(rows, u) == 0,
    decreases rows.len(),
{
    if rows.len() > 0 {
        lemma_count_keyed_zero(rows.drop_last(), u);
    }
}

proof fn lemma_count_id_zero(ids: Seq<String>, u: Seq<char>)
    requires
        !contains_id(ids, u),
    ensures
        count_id(ids, u) == 0,
    decreases ids.len(),
{
    if ids.len() > 0 {
        let d = ids.drop_last();
        assert(!contains_id(d, u)) by {
            if contains_id(d, u) {
                let k = choose|k: int| 0 <= k < d.len() && (#[trigger] d[k])@ == u;
                assert(ids[k] == d[k]);
            }
        }
        assert(ids[ids.len() - 1]@ != u);
        lemma_count_id_zero(d, u);
    }
}

proof fn lemma_has_entry_last(list: Seq<PresenceList>, a: Seq<char>, u: Seq<char>)
    requires
        list.len() > 0,
    ensures
        has_entry(list, a, u) <==> (has_entry(list.drop_last(), a, u) || (list.last().user_id@
            == a && list.last().observed_user_id@ == u)),
{
    let d = list.drop_last();
    if has_entry(d, a, u) {
        let k = choose|k: int|
            0 <= k < d.len() && (#[trigger] d[k]).user_id@ == a && d[k].observed_user_id@ == u;
        assert(list[k] == d[k]);
    }
    if list.last().user_id@ == a && list.last().observed_user_id@ == u {
        assert(list[list.len() - 1] == list.last());
    }
    if has_entry(list, a, u) {
        let k = choose|k: int|
            0 <= k < list.len() && (#[trigger] list[k]).user_id@ == a && list[k].observed_user_id@
                == u;
        if k < list.len() - 1 {
            assert(d[k] == list[k]);
        }
    }
}

/// Without duplicate entries, a listed user is observed exactly once.
proof fn lemma_observed_once(list: Seq<PresenceList>, o: Seq<char>, u: Seq<char>)
    requires
        list_wf(list),
        has_entry(list, o, u),
    ensures
        count_id(observed_by(list, o), u) == 1,
    decreases list.len(),
{
    let d = list.drop_last();
    let last = list.last();
    lemma_has_entry_last(list, o, u);
    assert(list_wf(d)) by {
        assert forall|x: int, y: int|
            0 <= x < d.len() && 0 <= y < d.len() && x != y implies !(#[trigger] d[x].user_id@
            == #[trigger] d[y].user_id@ && d[x].observed_user_id@ == d[y].observed_user_id@) by {
            assert(d[x] == list[x] && d[y] == list[y]);
        }
    }
    let obs = observed_by(d, o);
    if last.user_id@ == o {
        assert(observed_by(list, o).drop_last() =~= obs);
    }
    if last.user_id@ == o && last.observed_user_id@ == u {
        assert(!has_entry(d, o, u)) by {
            if has_entry(d, o, u) {
                let k = choose|k: int|
                    0 <= k < d.len() && (#[trigger] d[k]).user_id@ == o && d[k].observed_user_id@
                        == u;
                assert(d[k] == list[k]);
                assert(list[list.len() - 1] == last);
            }
        }
        lemma_observed_by(d, o, u);
        lemma_count_id_zero(obs, u);
    } else {
        lemma_observed_once(d, o, u);
    }
}

/// The transitions of `u` among the latest ones of `users`: the latest
/// transition of `u`, once for each time `users` names `u`.
proof fn lemma_entries_for_latest(
    events: Seq<PresenceStreamEvent>,
    users: Seq<String>,
    since: Option<i64>,
    u: Seq<char>,
)
    ensures
        entries_for(latest_per_user(events, users, since), u) =~= match latest_entry(
            events,
            u,
            since,
        ) {
            Some(e) => Seq::new(count_id(users, u), |_i: int| e),
            None => Seq::empty(),
        },
    decreases users.len(),
{
    if users.len() > 0 {
        let d = users.drop_last();
        let v = users.last()@;
        lemma_entries_for_latest(events, d, since, u);
        lemma_latest_entry_user(events, v, since);
        let rest = latest_per_user(events, d, since);
        match latest_entry(events, v, since) {
            Some(e) => {
                assert(rest.push(e).drop_last() =~= rest);
            },
            None => {},
        }
    }
}

/// The events about `u` are the events for the transitions of `u`.
proof fn lemma_events_for(
    entries: Seq<PresenceStreamEvent>,
    u: Seq<char>,
    now: u64,
    timeout_ms: Option<u64>,
)
    ensures
        events_for(events_of(entries, now, timeout_ms), u) =~= events_of(
            entries_for(entries, u),
            now,
            timeout_ms,
        ),
    decreases entries.len(),
{
    if entries.len() > 0 {
        let d = entries.drop_last();
        lemma_events_for(d, u, now, timeout_ms);
        assert(events_of(entries, now, timeout_ms).drop_last() =~= events_of(d, now, timeout_ms));
        let rest = entries_for(d, u);
        if entries.last().user_id@ == u {
            assert(events_of(rest.push(entries.last()), now, timeout_ms) =~= events_of(
                rest,
                now,
                timeout_ms,
            ).push(event_of(entries.last(), now, timeout_ms)));
        }
    }
}

proof fn lemma_next_ordering(stores: Seq<PresenceStore>, entries: Seq<PresenceStreamEvent>, k: int)
    requires
        stores.len() == entries.len() + 1,
        forall|i: int|
            0 <= i < entries.len() ==> log_appended(
                #[trigger] stores[i],
                stores[i + 1],
                entries[i],
            ),
        0 <= k < stores.len(),
    ensures
        stores[k].next_ordering == stores[0].next_ordering + k,
    decreases k,
{
    if k > 0 {
        lemma_next_ordering(stores, entries, k - 1);
        assert(log_appended(stores[k - 1], stores[k], entries[k - 1]));
    }
}

/// An upsert of `u` to `online` makes the lookup of `u` give `online`. A
/// second identical upsert keeps exactly one status row for `u`, with the
/// second call's update time, and each call appends exactly one transition.
pub proof fn lemma_repeated_upsert(
    s0: PresenceStore,
    s1: PresenceStore,
    s2: PresenceStore,
    u: String,
    e1: String,
    e2: String,
    t1: u64,
    t2: u64,
)
    requires
        s2.wf(),
        upserted(s0, s1, e1, u, PresenceState::Online, None, t1),
        upserted(s1, s2, e2, u, PresenceState::Online, None, t2),
    ensures
        status_of(s1, u@) matches Some(st) && st.presence == PresenceState::Online,
        status_of(s2, u@) matches Some(st) && st.presence == PresenceState::Online && st.updated_at
            == t2,
        count_keyed(s2.statuses@, u@) == 1,
        s1.events@.len() == s0.events@.len() + 1,
        s2.events@.len() == s1.events@.len() + 1,
{
    assert(status_of(s1, u@) is Some);
    assert(status_of(s2, u@) is Some);
    lemma_count_keyed_one(s2.statuses@, u@);
}

/// A store without status rows, such as a new one, has every row paired.
pub proof fn lemma_empty_store_paired(s: PresenceStore)
    requires
        s.statuses@.len() == 0,
    ensures
        status_matches_log(s),
{
    assert forall|v: Seq<char>| #[trigger] row_matches_log(s, v) by {
        assert(status_of(s, v) is None);
    }
}

/// An upsert keeps every status row paired with the latest logged transition
/// of its user; in particular the upserted user's row names the transition
/// just logged.
pub proof fn lemma_upsert_keeps_pairing(
    s0: PresenceStore,
    s1: PresenceStore,
    u: String,
    event_id: String,
    presence: PresenceState,
    status_msg: Option<String>,
    now: u64,
)
    requires
        status_matches_log(s0),
        upserted(s0, s1, event_id, u, presence, status_msg, now),
    ensures
        status_matches_log(s1),
{
    let entry = next_entry(s0, event_id, u, presence, now);
    assert(s1.events@.drop_last() =~= s0.events@);
    assert(s1.events@.last() == entry);
    assert forall|v: Seq<char>| #[trigger] row_matches_log(s1, v) by {
        assert(status_of(s1, v) == if v == u@ {
            Some(crate::presence_status::new_status(u, event_id, presence, status_msg, now))
        } else {
            status_of(s0, v)
        });
        if v != u@ {
            assert(row_matches_log(s0, v));
        }
    }
}

/// Over any sequence of appends to the log, by any users, the orderings
/// handed out strictly increase, and each exceeds every ordering already in
/// the log.
pub proof fn lemma_orderings_increase(
    stores: Seq<PresenceStore>,
    entries: Seq<PresenceStreamEvent>,
)
    requires
        stores.len() == entries.len() + 1,
        stores[0].wf(),
        forall|i: int|
            0 <= i < entries.len() ==> log_appended(#[trigger] stores[i], stores[i + 1], entries[i])
                && entries[i].ordering == stores[i].next_ordering,
    ensures
        forall|i: int, j: int|
            0 <= i < j < entries.len() ==> #[trigger] entries[i].ordering
                < #[trigger] entries[j].ordering,
        forall|i: int, k: int|
            0 <= i < entries.len() && 0 <= k < stores[0].events@.len() ==> #[trigger] stores[0].events@[k].ordering
                < #[trigger] entries[i].ordering,
{
    assert forall|i: int| 0 <= i < entries.len() implies #[trigger] entries[i].ordering
        == stores[0].next_ordering + i by {
        lemma_next_ordering(stores, entries, i);
    }
}

/// When a user changes presence twice before a sync, the events a sync
/// returns (for some reading of the clock) hold one event about that user, for
/// the later change.
pub proof fn lemma_latest_wins(
    s0: PresenceStore,
    s1: PresenceStore,
    s2: PresenceStore,
    o: Seq<char>,
    b: String,
    e1: String,
    e2: String,
    m1: Option<String>,
    m2: Option<String>,
    t1: u64,
    t2: u64,
    since: Option<i64>,
    timeout_ms: Option<u64>,
    events: Seq<PresenceEvent>,
)
    requires
        s0.wf(),
        has_entry(s0.presence_list@, o, b@),
        after_cursor(s0.next_ordering, since),
        upserted(s0, s1, e1, b, PresenceState::Online, m1, t1),
        upserted(s1, s2, e2, b, PresenceState::Unavailable, m2, t2),
        exists|now: u64| events == #[trigger] events_of(sync_entries(s2, o, since), now, timeout_ms),
    ensures
        events_for(events, b@).len() == 1,
        events_for(events, b@)[0].content.presence == PresenceState::Unavailable,
        events_for(events, b@)[0].event_id == e2,
{
    let now = choose|now: u64| events == #[trigger] events_of(sync_entries(s2, o, since), now, timeout_ms);
    let entry = next_entry(s1, e2, b, PresenceState::Unavailable, t2);
    assert(s2.events@.last() == entry);
    assert(latest_entry(s2.events@, b@, since) == Some(entry));
    let observed = observed_by(s2.presence_list@, o);
    lemma_observed_once(s2.presence_list@, o, b@);
    lemma_entries_for_latest(s2.events@, observed, since, b@);
    let mine = entries_for(sync_entries(s2, o, since), b@);
    assert(mine =~= seq![entry]);
    lemma_events_for(sync_entries(s2, o, since), b@, now, timeout_ms);
    assert(events_of(mine, now, timeout_ms)[0] == event_of(entry, now, timeout_ms));
}

/// After a user is invited and then dropped, the events a sync returns (for
/// any reading of the clock) hold none about them.
pub proof fn lemma_drop_effective(
    s0: PresenceStore,
    s1: PresenceStore,
    s2: PresenceStore,
    o: Seq<char>,
    b: String,
    invite1: Seq<String>,
    drop1: Seq<String>,
    invite2: Seq<String>,
    drop2: Seq<String>,
    since: Option<i64>,
    timeout_ms: Option<u64>,
    events: Seq<PresenceEvent>,
)
    requires
        contains_id(invite1, b@),
        contains_id(drop2, b@),
        list_updated(s0, s1, o, invite1, drop1),
        list_updated(s1, s2, o, invite2, drop2),
        exists|now: u64| events == #[trigger] events_of(sync_entries(s2, o, since), now, timeout_ms),
    ensures
        events_for(events, b@).len() == 0,
{
    let now = choose|now: u64| events == #[trigger] events_of(sync_entries(s2, o, since), now, timeout_ms);
    assert(!has_entry(s2.presence_list@, o, b@));
    let observed = observed_by(s2.presence_list@, o);
    lemma_observed_by(s2.presence_list@, o, b@);
    lemma_count_id_zero(observed, b@);
    lemma_entries_for_latest(s2.events@, observed, since, b@);
    lemma_events_for(sync_entries(s2, o, since), b@, now, timeout_ms);
}

/// A user stored as `online` at time `t` is reported `unavailable`, and not
/// currently active, in the events of a sync with a timeout at a time `now`
/// more than the timeout after `t`, while the stored state stays `online`.
pub proof fn lemma_stale_online(
    s0: PresenceStore,
    s1: PresenceStore,
    o: Seq<char>,
    u: String,
    event_id: String,
    status_msg: Option<String>,
    t: u64,
    since: Option<i64>,
    now: u64,
    timeout_ms: u64,
    events: Seq<PresenceEvent>,
)
    requires
        s1.wf(),
        has_entry(s0.presence_list@, o, u@),
        after_cursor(s0.next_ordering, since),
        upserted(s0, s1, event_id, u, PresenceState::Online, status_msg, t),
        now > t + timeout_ms,
        events == events_of(sync_entries(s1, o, since), now, Some(timeout_ms)),
    ensures
        status_of(s1, u@) matches Some(st) && st.presence == PresenceState::Online,
        events_for(events, u@).len() == 1,
        events_for(events, u@)[0].content.presence == PresenceState::Unavailable,
        !events_for(events, u@)[0].content.currently_active,
{
    assert(status_of(s1, u@) is Some);
    let entry = next_entry(s0, event_id, u, PresenceState::Online, t);
    assert(s1.events@.last() == entry);
    assert(latest_entry(s1.events@, u@, since) == Some(entry));
    let observed = observed_by(s1.presence_list@, o);
    lemma_observed_once(s1.presence_list@, o, u@);
    lemma_entries_for_latest(s1.events@, observed, since, u@);
    let mine = entries_for(sync_entries(s1, o, since), u@);
    assert(mine =~= seq![entry]);
    lemma_events_for(sync_entries(s1, o, since), u@, now, Some(timeout_ms));
    assert(events_of(mine, now, Some(timeout_ms))[0] == event_of(entry, now, Some(timeout_ms)));
}

/// Every transition among the latest ones of `users` belongs to one of them.
proof fn lemma_latest_users(
    events: Seq<PresenceStreamEvent>,
    users: Seq<String>,
    since: Option<i64>,
)
    ensures
        forall|k: int|
            0 <= k < latest_per_user(events, users, since).len() ==> contains_id(
                users,
                (#[trigger] latest_per_user(events, users, since)[k]).user_id@,
            ),
    decreases users.len(),
{
    if users.len() > 0 {
        let d = users.drop_last();
        lemma_latest_users(events, d, since);
        lemma_latest_entry_user(events, users.last()@, since);
        let rest = latest_per_user(events, d, since);
        let all = latest_per_user(events, users, since);
        assert forall|k: int| 0 <= k < all.len() implies contains_id(
            users,
            (#[trigger] all[k]).user_id@,
        ) by {
            if k < rest.len() {
                assert(all[k] == rest[k]);
                let j = choose|j: int| 0 <= j < d.len() && (#[trigger] d[j])@ == rest[k].user_id@;
                assert(users[j] == d[j]);
            } else {
                assert(users[users.len() - 1] == users.last());
            }
        }
    }
}

/// Transitions that all belong to `b` or `c`, two different users, are those
/// of `b` and those of `c`.
proof fn lemma_two_users(entries: Seq<PresenceStreamEvent>, b: Seq<char>, c: Seq<char>)
    requires
        b != c,
        forall|k: int|
            0 <= k < entries.len() ==> (#[trigger] entries[k]).user_id@ == b || entries[k].user_id@
                == c,
    ensures
        entries.len() == entries_for(entries, b).len() + entries_for(entries, c).len(),
    decreases entries.len(),
{
    if entries.len() > 0 {
        let d = entries.drop_last();
        assert forall|k: int| 0 <= k < d.len() implies (#[trigger] d[k]).user_id@ == b
            || d[k].user_id@ == c by {
            assert(d[k] == entries[k]);
        }
        assert(entries[entries.len() - 1] == entries.last());
        lemma_two_users(d, b, c);
    }
}

/// Appending a transition of another user leaves the latest transition of
/// `u` as it was.
proof fn lemma_latest_after_other(
    s: PresenceStore,
    t: PresenceStore,
    entry: PresenceStreamEvent,
    u: Seq<char>,
    since: Option<i64>,
)
    requires
        t.events@ == s.events@.push(entry),
        entry.user_id@ != u,
    ensures
        latest_entry(t.events@, u, since) == latest_entry(s.events@, u, since),
{
    assert(t.events@.drop_last() =~= s.events@);
}

/// Alice observes exactly Bob and Carl; Bob sets `online` twice and Carl once
/// after the cursor. The events of a sync at a time `now` after those updates
/// are two, one per user, each `online` with the time since that user's
/// latest update.
pub proof fn lemma_end_to_end(
    s0: PresenceStore,
    s1: PresenceStore,
    s2: PresenceStore,
    s3: PresenceStore,
    alice: Seq<char>,
    bob: String,
    carl: String,
    e1: String,
    e2: String,
    e3: String,
    m1: Option<String>,
    m2: Option<String>,
    m3: Option<String>,
    t1: u64,
    t2: u64,
    t3: u64,
    since: Option<i64>,
    now: u64,
    events: Seq<PresenceEvent>,
)
    requires
        s0.wf(),
        bob@ != carl@,
        has_entry(s0.presence_list@, alice, bob@),
        has_entry(s0.presence_list@, alice, carl@),
        forall|u: Seq<char>|
            #[trigger] has_entry(s0.presence_list@, alice, u) ==> u == bob@ || u == carl@,
        after_cursor(s0.next_ordering, since),
        upserted(s0, s1, e1, bob, PresenceState::Online, m1, t1),
        upserted(s1, s2, e2, bob, PresenceState::Online, m2, t2),
        upserted(s2, s3, e3, carl, PresenceState::Online, m3, t3),
        t2 <= now,
        t3 <= now,
        events == events_of(sync_entries(s3, alice, since), now, None),
    ensures
        events.len() == 2,
        events_for(events, bob@).len() == 1,
        events_for(events, bob@)[0].event_id == e2,
        events_for(events, bob@)[0].content.presence == PresenceState::Online,
        events_for(events, bob@)[0].content.last_active_ago == now - t2,
        events_for(events, carl@).len() == 1,
        events_for(events, carl@)[0].event_id == e3,
        events_for(events, carl@)[0].content.presence == PresenceState::Online,
        events_for(events, carl@)[0].content.last_active_ago == now - t3,
{
    let list = s3.presence_list@;
    let observed = observed_by(list, alice);
    let entries = sync_entries(s3, alice, since);
    let eb = next_entry(s1, e2, bob, PresenceState::Online, t2);
    let ec = next_entry(s2, e3, carl, PresenceState::Online, t3);
    assert(s2.events@.last() == eb);
    assert(latest_entry(s2.events@, bob@, since) == Some(eb));
    lemma_latest_after_other(s2, s3, ec, bob@, since);
    assert(s3.events@.last() == ec);
    assert(latest_entry(s3.events@, carl@, since) == Some(ec));
    lemma_observed_once(list, alice, bob@);
    lemma_observed_once(list, alice, carl@);
    lemma_entries_for_latest(s3.events@, observed, since, bob@);
    lemma_entries_for_latest(s3.events@, observed, since, carl@);
    assert(entries_for(entries, bob@) =~= seq![eb]);
    assert(entries_for(entries, carl@) =~= seq![ec]);
    lemma_latest_users(s3.events@, observed, since);
    assert forall|k: int| 0 <= k < entries.len() implies (#[trigger] entries[k]).user_id@ == bob@
        || entries[k].user_id@ == carl@ by {
        lemma_observed_by(list, alice, entries[k].user_id@);
    }
    lemma_two_users(entries, bob@, carl@);
    lemma_events_for(entries, bob@, now, None);
    lemma_events_for(entries, carl@, now, None);
    assert(events_of(seq![eb], now, None)[0] == event_of(eb, now, None));
    assert(events_of(seq![ec], now, None)[0] == event_of(ec, now, None));
}

} // verus!
