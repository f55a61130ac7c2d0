//! The presence store: users, profiles, status rows, the transition log and the
//! presence lists, kept together so that every operation applies as a whole.

use vstd::prelude::*;

use crate::presence_event::{log_wf, PresenceStreamEvent};
use crate::presence_list::{list_wf, PresenceList};
use crate::presence_status::PresenceStatus;
use crate::table::{
    contains_id, copy_text, find_keyed, has_id, index_of_key, lemma_find_none, lemma_find_push, lemma_find_update,
    unique_keys, Keyed,
};

verus! {

/// The profile data that presence events carry.
#[derive(Debug)]
pub struct Profile {
    /// The user's ID.
    pub user_id: String,
    /// The avatar URL.
    pub avatar_url: Option<String>,
    /// The display name.
    pub displayname: Option<String>,
}

impl Keyed for Profile {
    open spec fn key(&self) -> Seq<char> {
        self.user_id@
    }

    fn key_ref(&self) -> (r: &String) {
        &self.user_id
    }
}

impl Clone for Profile {
    fn clone(&self) -> (r: Self)
        ensures
            r == *self,
    {
        Profile {
            user_id: self.user_id.clone(),
            avatar_url: copy_text(&self.avatar_url),
            displayname: copy_text(&self.displayname),
        }
    }
}

/// The storage that the presence engine reads and writes.
pub struct PresenceStore {
    /// The users known to the homeserver.
    pub users: Vec<String>,
    /// The users' profiles.
    pub profiles: Vec<Profile>,
    /// One presence status per user.
    pub statuses: Vec<PresenceStatus>,
    /// The transition log, in the order of `ordering`.
    pub events: Vec<PresenceStreamEvent>,
    /// The presence list entries.
    pub presence_list: Vec<PresenceList>,
    /// The `ordering` that the next transition receives.
    pub next_ordering: i64,
}

/// Whether `u` is a known user.
pub open spec fn user_exists(users: Seq<String>, u: Seq<char>) -> bool {
    contains_id(users, u)
}

/// The identifiers among `ids` that name no known user, in their order.
pub open spec fn missing_users(users: Seq<String>, ids: Seq<String>) -> Seq<String>
    decreases ids.len(),
{
    if ids.len() == 0 {
        Seq::empty()
    } else if user_exists(users, ids.last()@) {
        missing_users(users, ids.drop_last())
    } else {
        missing_users(users, ids.drop_last()).push(ids.last())
    }
}

/// No missing users means every identifier names a known user.
pub proof fn lemma_missing_empty(users: Seq<String>, ids: Seq<String>)
    ensures
        missing_users(users, ids).len() == 0 <==> forall|i: int|
            0 <= i < ids.len() ==> user_exists(users, (#[trigger] ids[i])@),
    decreases ids.len(),
{
    if ids.len() > 0 {
        lemma_missing_empty(users, ids.drop_last());
        assert(forall|i: int| 0 <= i < ids.len() - 1 ==> ids.drop_last()[i] == ids[i]);
    }
}

/// Whether the event identifier `id` is already used by a logged transition
/// or a status row.
pub open spec fn event_id_taken(store: PresenceStore, id: Seq<char>) -> bool {
    ||| exists|i: int| 0 <= i < store.events@.len() && (#[trigger] store.events@[i]).event_id@ == id
    ||| exists|j: int|
        0 <= j < store.statuses@.len() && (#[trigger] store.statuses@[j]).event_id@ == id
}

/// The profile of `u`, if one was set.
pub open spec fn profile_of(store: PresenceStore, u: Seq<char>) -> Option<Profile> {
    find_keyed(store.profiles@, u)
}

/// The presence status of `u`, if one was ever recorded.
pub open spec fn status_of(store: PresenceStore, u: Seq<char>) -> Option<PresenceStatus> {
    find_keyed(store.statuses@, u)
}

impl PresenceStore {
    /// The store's invariant: one profile and one status per user, an ordered
    /// log, and no duplicate presence list entries.
    pub open spec fn wf(&self) -> bool {
        &&& unique_keys(self.profiles@)
        &&& unique_keys(self.statuses@)
        &&& log_wf(self.events@, self.next_ordering)
        &&& list_wf(self.presence_list@)
    }

    /// An empty store.
    pub fn new() -> (r: PresenceStore)
        ensures
            r.wf(),
            r.users@.len() == 0,
            r.profiles@.len() == 0,
            r.statuses@.len() == 0,
            r.events@.len() == 0,
            r.presence_list@.len() == 0,
            r.next_ordering == 1,
    {
        PresenceStore {
            users: Vec::new(),
            profiles: Vec::new(),
            statuses: Vec::new(),
            events: Vec::new(),
            presence_list: Vec::new(),
            next_ordering: 1,
        }
    }

    /// Whether `user_id` names a known user.
    pub fn user_exists(&self, user_id: &String) -> (r: bool)
        ensures
            r == user_exists(self.users@, user_id@),
    {
        has_id(&self.users, user_id)
    }

    /// Whether the event identifier `id` is already used by a logged
    /// transition or a status row.
    pub fn event_id_taken(&self, id: &String) -> (r: bool)
        ensures
            r == event_id_taken(*self, id@),
    {
        let mut i: usize = 0;
        while i < self.events.len()
            invariant
                i <= self.events@.len(),
                forall|k: int| 0 <= k < i ==> (#[trigger] self.events@[k]).event_id@ != id@,
            decreases self.events@.len() - i,
        {
            if self.events[i].event_id == *id {
                return true;
            }
            i = i + 1;
        }
        let mut j: usize = 0;
        while j < self.statuses.len()
            invariant
                j <= self.statuses@.len(),
                forall|k: int| 0 <= k < self.events@.len() ==> (#[trigger] self.events@[k]).event_id@ != id@,
                forall|k: int| 0 <= k < j ==> (#[trigger] self.statuses@[k]).event_id@ != id@,
            decreases self.statuses@.len() - j,
        {
            if self.statuses[j].event_id == *id {
                return true;
            }
            j = j + 1;
        }
        false
    }

    /// Records a user of the homeserver; a known user stays known once.
    pub fn register_user(&mut self, user_id: String)
        requires
            old(self).wf(),
        ensures
            final(self).wf(),
            forall|u: Seq<char>|
                user_exists(final(self).users@, u) <==> (user_exists(old(self).users@, u) || u
                    == user_id@),
            final(self).profiles@ == old(self).profiles@,
            final(self).statuses@ == old(self).statuses@,
            final(self).events@ == old(self).events@,
            final(self).presence_list@ == old(self).presence_list@,
            final(self).next_ordering == old(self).next_ordering,
    {
        if !self.user_exists(&user_id) {
            let ghost before = self.users@;
            let ghost id = user_id@;
            self.users.push(user_id);
            assert forall|u: Seq<char>|
                user_exists(self.users@, u) <==> (user_exists(before, u) || u == id) by {
                if user_exists(before, u) {
                    let i = choose|i: int| 0 <= i < before.len() && (#[trigger] before[i])@ == u;
                    assert(self.users@[i] == before[i]);
                }
                if u == id {
                    assert(self.users@[before.len() as int]@ == u);
                }
                if user_exists(self.users@, u) {
                    let i = choose|i: int|
                        0 <= i < self.users@.len() && (#[trigger] self.users@[i])@ == u;
                    if i < before.len() {
                        assert(before[i] == self.users@[i]);
                    }
                }
            }
        }
    }

    /// The identifiers among `ids` that name no known user.
    pub fn find_missing_users(&self, ids: &Vec<String>) -> (r: Vec<String>)
        ensures
            r@ == missing_users(self.users@, ids@),
    {
        let mut missing: Vec<String> = Vec::new();
        let mut i: usize = 0;
        while i < ids.len()
            invariant
                i <= ids@.len(),
                missing@ == missing_users(self.users@, ids@.take(i as int)),
            decreases ids@.len() - i,
        {
            assert(ids@.take(i as int + 1).drop_last() =~= ids@.take(i as int));
            if !self.user_exists(&ids[i]) {
                missing.push(ids[i].clone());
            }
            i = i + 1;
        }
        assert(ids@.take(ids@.len() as int) =~= ids@);
        missing
    }

    /// The profile of `user_id`, if one was set.
    pub fn find_profile(&self, user_id: &String) -> (r: Option<Profile>)
        requires
            self.wf(),
        ensures
            r == profile_of(*self, user_id@),
    {
        match index_of_key(&self.profiles, user_id) {
            Some(i) => {
                proof {
                    crate::table::lemma_find_at(self.profiles@, user_id@, i as int);
                }
                Some(self.profiles[i].clone())
            },
            None => {
                proof {
                    lemma_find_none(self.profiles@, user_id@);
                }
                None
            },
        }
    }

    /// Sets the profile of `user_id`, replacing an earlier one.
    pub fn set_profile(
        &mut self,
        user_id: String,
        avatar_url: Option<String>,
        displayname: Option<String>,
    )
        requires
            old(self).wf(),
        ensures
            final(self).wf(),
            forall|u: Seq<char>|
                #[trigger] profile_of(*final(self), u) == if u == user_id@ {
                    Some(Profile { user_id, avatar_url, displayname })
                } else {
                    profile_of(*old(self), u)
                },
            final(self).users@ == old(self).users@,
            final(self).statuses@ == old(self).statuses@,
            final(self).events@ == old(self).events@,
            final(self).presence_list@ == old(self).presence_list@,
            final(self).next_ordering == old(self).next_ordering,
    {
        let ghost before = self.profiles@;
        let row = Profile { user_id, avatar_url, displayname };
        match index_of_key(&self.profiles, &row.user_id) {
            Some(i) => {
                proof {
                    lemma_find_update(before, i as int, row);
                }
                self.profiles.set(i, row);
            },
            None => {
                proof {
                    lemma_find_none(before, row.key());
                    lemma_find_push(before, row);
                }
                self.profiles.push(row);
            },
        }
    }
}

} // verus!
