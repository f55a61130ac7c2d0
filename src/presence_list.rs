//! Presence lists: which users each user observes.

use vstd::prelude::*;

use crate::error::{ApiError, ListSide};
use crate::store::{missing_users, lemma_missing_empty, PresenceStore};
use crate::table::{contains_id, has_id};

verus! {

/// An entry of a presence list: `user_id` observes `observed_user_id`.
#[derive(Debug)]
pub struct PresenceList {
    /// The observer.
    pub user_id: String,
    /// The observed user.
    pub observed_user_id: String,
}

impl Clone for PresenceList {
    fn clone(&self) -> (r: Self)
        ensures
            r == *self,
    {
        PresenceList { user_id: self.user_id.clone(), observed_user_id: self.observed_user_id.clone() }
    }
}

/// Whether the list holds the entry in which `o` observes `u`.
pub open spec fn has_entry(list: Seq<PresenceList>, o: Seq<char>, u: Seq<char>) -> bool {
    exists|i: int|
        0 <= i < list.len() && (#[trigger] list[i]).user_id@ == o && list[i].observed_user_id@ == u
}

/// No entry appears twice.
pub open spec fn list_wf(list: Seq<PresenceList>) -> bool {
    forall|i: int, j: int|
        0 <= i < list.len() && 0 <= j < list.len() && i != j ==> !(#[trigger] list[i].user_id@
            == #[trigger] list[j].user_id@ && list[i].observed_user_id@
            == list[j].observed_user_id@)
}

/// The users that `o` observes, in the order of the list.
pub open spec fn observed_by(list: Seq<PresenceList>, o: Seq<char>) -> Seq<String>
    decreases list.len(),
{
    if list.len() == 0 {
        Seq::empty()
    } else {
        let rest = observed_by(list.drop_last(), o);
        if list.last().user_id@ == o {
            rest.push(list.last().observed_user_id)
        } else {
            rest
        }
    }
}

/// A user is among those `o` observes exactly when the list holds that entry.
pub proof fn lemma_observed_by(list: Seq<PresenceList>, o: Seq<char>, u: Seq<char>)
    ensures
        contains_id(observed_by(list, o), u) <==> has_entry(list, o, u),
    decreases list.len(),
{
    if list.len() > 0 {
        let d = list.drop_last();
        lemma_observed_by(d, o, u);
        let rest = observed_by(d, o);
        let last = list.last();
        if has_entry(d, o, u) {
            let i = choose|i: int|
                0 <= i < d.len() && (#[trigger] d[i]).user_id@ == o && d[i].observed_user_id@ == u;
            assert(list[i] == d[i]);
        }
        if has_entry(list, o, u) && !(last.user_id@ == o && last.observed_user_id@ == u) {
            let i = choose|i: int|
                0 <= i < list.len() && (#[trigger] list[i]).user_id@ == o
                    && list[i].observed_user_id@ == u;
            assert(i != list.len() - 1);
            assert(d[i] == list[i]);
        }
        if last.user_id@ == o {
            let full = rest.push(last.observed_user_id);
            if contains_id(rest, u) {
                let j = choose|j: int| 0 <= j < rest.len() && (#[trigger] rest[j])@ == u;
                assert(full[j] == rest[j]);
            }
            if contains_id(full, u) && !contains_id(rest, u) {
                let j = choose|j: int| 0 <= j < full.len() && (#[trigger] full[j])@ == u;
                if j < rest.len() {
                    assert(full[j] == rest[j]);
                }
            }
            if last.observed_user_id@ == u {
                assert(full[rest.len() as int]@ == u);
                assert(list[list.len() - 1] == last);
            }
        }
    }
}

/// Whether, after an update by `o` with `invite` and `drop`, the entry in
/// which `a` observes `u` is listed: invites are added first, then drops
/// removed; entries of other observers stay as they were.
pub open spec fn listed_after_update(
    before: Seq<PresenceList>,
    o: Seq<char>,
    invite: Seq<String>,
    drop: Seq<String>,
    a: Seq<char>,
    u: Seq<char>,
) -> bool {
    if a == o {
        (has_entry(before, o, u) || contains_id(invite, u)) && !contains_id(drop, u)
    } else {
        has_entry(before, a, u)
    }
}

/// `after` is `before` after a successful presence list update by `o`.
pub open spec fn list_updated(
    before: PresenceStore,
    after: PresenceStore,
    o: Seq<char>,
    invite: Seq<String>,
    drop: Seq<String>,
) -> bool {
    &&& forall|a: Seq<char>, u: Seq<char>|
        #[trigger] has_entry(after.presence_list@, a, u) <==> listed_after_update(
            before.presence_list@,
            o,
            invite,
            drop,
            a,
            u,
        )
    &&& after.users@ == before.users@
    &&& after.profiles@ == before.profiles@
    &&& after.statuses@ == before.statuses@
    &&& after.events@ == before.events@
    &&& after.next_ordering == before.next_ordering
}

/// Whether the list holds the entry in which `o` observes `u`.
fn has_pair(list: &Vec<PresenceList>, o: &String, u: &String) -> (r: bool)
    ensures
        r == has_entry(list@, o@, u@),
{
    let mut i: usize = 0;
    while i < list.len()
        invariant
            i <= list@.len(),
            forall|j: int|
                0 <= j < i ==> !((#[trigger] list@[j]).user_id@ == o@ && list@[j].observed_user_id@
                    == u@),
        decreases list@.len() - i,
    {
        if list[i].user_id == *o && list[i].observed_user_id == *u {
            return true;
        }
        i = i + 1;
    }
    false
}

impl PresenceList {
    /// The users that `user_id` observes.
    pub fn find_observed_users(store: &PresenceStore, user_id: &String) -> (r: Vec<String>)
        ensures
            r@ == observed_by(store.presence_list@, user_id@),
    {
        let list = &store.presence_list;
        let mut users: Vec<String> = Vec::new();
        let mut i: usize = 0;
        while i < list.len()
            invariant
                list@ == store.presence_list@,
                i <= list@.len(),
                users@ == observed_by(list@.take(i as int), user_id@),
            decreases list@.len() - i,
        {
            assert(list@.take(i as int + 1).drop_last() =~= list@.take(i as int));
            if list[i].user_id == *user_id {
                users.push(list[i].observed_user_id.clone());
            }
            i = i + 1;
        }
        assert(list@.take(list@.len() as int) =~= list@);
        users
    }

    /// Adds the users of `invite` to the presence list of `user_id`, then
    /// removes those of `drop`, as one step. Every user named must exist:
    /// unknown invitees fail the call, else unknown dropped users do, and a
    /// failed call changes nothing. Inviting a user already on the list
    /// changes nothing for that user; dropping one not on it is no error.
    /// Sharing a room with an invitee is not required.
    pub fn update(
        store: &mut PresenceStore,
        user_id: &String,
        invite: &Vec<String>,
        drop: Vec<String>,
    ) -> (r: Result<(), ApiError>)
        requires
            old(store).wf(),
        ensures
            final(store).wf(),
            missing_users(old(store).users@, invite@).len() > 0 ==> (r matches Err(
                ApiError::UnknownUsers(side, users),
            ) && side == ListSide::Invite && users@ == missing_users(old(store).users@, invite@)),
            missing_users(old(store).users@, invite@).len() == 0 && missing_users(
                old(store).users@,
                drop@,
            ).len() > 0 ==> (r matches Err(ApiError::UnknownUsers(side, users)) && side
                == ListSide::Drop && users@ == missing_users(old(store).users@, drop@)),
            missing_users(old(store).users@, invite@).len() == 0 && missing_users(
                old(store).users@,
                drop@,
            ).len() == 0 ==> r is Ok,
            r is Err ==> *final(store) == *old(store),
            r is Ok ==> list_updated(*old(store), *final(store), user_id@, invite@, drop@),
    {
        let missing = store.find_missing_users(invite);
        if missing.len() > 0 {
            return Err(ApiError::UnknownUsers(ListSide::Invite, missing));
        }
        let missing = store.find_missing_users(&drop);
        if missing.len() > 0 {
            return Err(ApiError::UnknownUsers(ListSide::Drop, missing));
        }
        let ghost before = store.presence_list@;
        let mut i: usize = 0;
        while i < invite.len()
            invariant
                store.wf(),
                i <= invite@.len(),
                store.users@ == old(store).users@,
                store.profiles@ == old(store).profiles@,
                store.statuses@ == old(store).statuses@,
                store.events@ == old(store).events@,
                store.next_ordering == old(store).next_ordering,
                before == old(store).presence_list@,
                forall|a: Seq<char>, u: Seq<char>|
                    #[trigger] has_entry(store.presence_list@, a, u) <==> (has_entry(before, a, u)
                        || (a == user_id@ && contains_id(invite@.take(i as int), u))),
            decreases invite@.len() - i,
        {
            let ghost prev = store.presence_list@;
            let ghost taken = invite@.take(i as int);
            let ghost next = invite@.take(i as int + 1);
            assert(next =~= taken.push(invite@[i as int]));
            if !has_pair(&store.presence_list, user_id, &invite[i]) {
                let entry = PresenceList { user_id: user_id.clone(), observed_user_id: invite[i].clone() };
                store.presence_list.push(entry);
                let ghost cur = store.presence_list@;
                assert(list_wf(cur)) by {
                    assert forall|x: int, y: int|
                        0 <= x < cur.len() && 0 <= y < cur.len() && x != y implies !(
                        #[trigger] cur[x].user_id@ == #[trigger] cur[y].user_id@
                            && cur[x].observed_user_id@ == cur[y].observed_user_id@) by {
                        if x < prev.len() && y < prev.len() {
                            assert(cur[x] == prev[x] && cur[y] == prev[y]);
                        } else if x < prev.len() {
                            assert(cur[x] == prev[x]);
                        } else if y < prev.len() {
                            assert(cur[y] == prev[y]);
                        }
                    }
                }
                assert forall|a: Seq<char>, u: Seq<char>|
                    #[trigger] has_entry(cur, a, u) <==> (has_entry(prev, a, u) || (a == user_id@
                        && u == invite@[i as int]@)) by {
                    if has_entry(prev, a, u) {
                        let k = choose|k: int|
                            0 <= k < prev.len() && (#[trigger] prev[k]).user_id@ == a
                                && prev[k].observed_user_id@ == u;
                        assert(cur[k] == prev[k]);
                    }
                    if a == user_id@ && u == invite@[i as int]@ {
                        assert(cur[prev.len() as int] == entry);
                    }
                    if has_entry(cur, a, u) {
                        let k = choose|k: int|
                            0 <= k < cur.len() && (#[trigger] cur[k]).user_id@ == a
                                && cur[k].observed_user_id@ == u;
                        if k < prev.len() {
                            assert(cur[k] == prev[k]);
                        }
                    }
                }
            }
            assert forall|u: Seq<char>|
                contains_id(next, u) <==> (contains_id(taken, u) || u == invite@[i as int]@) by {
                if contains_id(taken, u) {
                    let k = choose|k: int| 0 <= k < taken.len() && (#[trigger] taken[k])@ == u;
                    assert(next[k] == taken[k]);
                }
                if u == invite@[i as int]@ {
                    assert(next[i as int] == invite@[i as int]);
                }
                if contains_id(next, u) {
                    let k = choose|k: int| 0 <= k < next.len() && (#[trigger] next[k])@ == u;
                    if k < taken.len() {
                        assert(next[k] == taken[k]);
                    }
                }
            }
            i = i + 1;
        }
        assert(invite@.take(invite@.len() as int) =~= invite@);
        let ghost mid = store.presence_list@;
        let mut kept: Vec<PresenceList> = Vec::new();
        let mut j: usize = 0;
        while j < store.presence_list.len()
            invariant
                store.wf(),
                mid == store.presence_list@,
                j <= mid.len(),
                list_wf(kept@),
                forall|a: Seq<char>, u: Seq<char>|
                    #[trigger] has_entry(kept@, a, u) <==> (has_entry(mid.take(j as int), a, u)
                        && !(a == user_id@ && contains_id(drop@, u))),
            decreases mid.len() - j,
        {
            let ghost prev = kept@;
            let ghost taken = mid.take(j as int);
            let ghost next = mid.take(j as int + 1);
            assert(next =~= taken.push(mid[j as int]));
            let e = &store.presence_list[j];
            let dropped = e.user_id == *user_id && has_id(&drop, &e.observed_user_id);
            assert forall|a: Seq<char>, u: Seq<char>|
                has_entry(next, a, u) <==> (has_entry(taken, a, u) || (mid[j as int].user_id@ == a
                    && mid[j as int].observed_user_id@ == u)) by {
                if has_entry(taken, a, u) {
                    let k = choose|k: int|
                        0 <= k < taken.len() && (#[trigger] taken[k]).user_id@ == a
                            && taken[k].observed_user_id@ == u;
                    assert(next[k] == taken[k]);
                }
                if mid[j as int].user_id@ == a && mid[j as int].observed_user_id@ == u {
                    assert(next[j as int] == mid[j as int]);
                }
                if has_entry(next, a, u) {
                    let k = choose|k: int|
                        0 <= k < next.len() && (#[trigger] next[k]).user_id@ == a
                            && next[k].observed_user_id@ == u;
                    if k < taken.len() {
                        assert(next[k] == taken[k]);
                    }
                }
            }
            if !dropped {
                let entry = e.clone();
                kept.push(entry);
                let ghost cur = kept@;
                assert(!has_entry(taken, entry.user_id@, entry.observed_user_id@)) by {
                    if has_entry(taken, entry.user_id@, entry.observed_user_id@) {
                        let k = choose|k: int|
                            0 <= k < taken.len() && (#[trigger] taken[k]).user_id@
                                == entry.user_id@ && taken[k].observed_user_id@
                                == entry.observed_user_id@;
                        assert(mid[k] == taken[k]);
                    }
                }
                assert(list_wf(cur)) by {
                    assert forall|x: int, y: int|
                        0 <= x < cur.len() && 0 <= y < cur.len() && x != y implies !(
                        #[trigger] cur[x].user_id@ == #[trigger] cur[y].user_id@
                            && cur[x].observed_user_id@ == cur[y].observed_user_id@) by {
                        if x < prev.len() && y < prev.len() {
                            assert(cur[x] == prev[x] && cur[y] == prev[y]);
                        } else if x < prev.len() {
                            assert(cur[x] == prev[x]);
                            assert(has_entry(prev, prev[x].user_id@, prev[x].observed_user_id@));
                        } else if y < prev.len() {
                            assert(cur[y] == prev[y]);
                            assert(has_entry(prev, prev[y].user_id@, prev[y].observed_user_id@));
                        }
                    }
                }
                assert forall|a: Seq<char>, u: Seq<char>|
                    #[trigger] has_entry(cur, a, u) <==> (has_entry(prev, a, u) || (a
                        == entry.user_id@ && u == entry.observed_user_id@)) by {
                    if has_entry(prev, a, u) {
                        let k = choose|k: int|
                            0 <= k < prev.len() && (#[trigger] prev[k]).user_id@ == a
                                && prev[k].observed_user_id@ == u;
                        assert(cur[k] == prev[k]);
                    }
                    if a == entry.user_id@ && u == entry.observed_user_id@ {
                        assert(cur[prev.len() as int] == entry);
                    }
                    if has_entry(cur, a, u) {
                        let k = choose|k: int|
                            0 <= k < cur.len() && (#[trigger] cur[k]).user_id@ == a
                                && cur[k].observed_user_id@ == u;
                        if k < prev.len() {
                            assert(cur[k] == prev[k]);
                        }
                    }
                }
            }
            j = j + 1;
        }
        assert(mid.take(mid.len() as int) =~= mid);
        store.presence_list = kept;
        proof {
            lemma_missing_empty(old(store).users@, invite@);
            lemma_missing_empty(old(store).users@, drop@);
        }
        Ok(())
    }
}

} // verus!
