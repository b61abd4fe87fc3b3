//! The users of a server, each with the settings of its address.

use vstd::prelude::*;

use crate::user::{
    canonical_user, user_fault, validate_user, UserError, UserMetadata, UserMetadataView,
};

verus! {

/// A user, with the settings of its address.
#[derive(Debug)]
pub struct UserEntry {
    /// The name of the user.
    pub user: String,
    /// The settings of its address.
    pub metadata: UserMetadata,
}

impl Clone for UserEntry {
    fn clone(&self) -> (r: UserEntry)
        ensures
            r == *self,
    {
        UserEntry { user: self.user.clone(), metadata: self.metadata.clone() }
    }
}

/// Entry `i` is that of `user`.
pub open spec fn entry_of(entries: Seq<UserEntry>, i: int, user: Seq<char>) -> bool {
    0 <= i < entries.len() && entries[i].user@ == user
}

/// No user has two entries.
pub open spec fn distinct_users(entries: Seq<UserEntry>) -> bool {
    forall|i: int, j: int|
        0 <= i < entries.len() && 0 <= j < entries.len() && #[trigger] entries[i].user@
            == #[trigger] entries[j].user@ ==> i == j
}

/// Every user has a canonical name.
pub open spec fn canonical_users(entries: Seq<UserEntry>) -> bool {
    forall|i: int| 0 <= i < entries.len() ==> canonical_user(#[trigger] entries[i].user@)
}

/// The settings of each user that has an entry.
pub open spec fn settings_of(entries: Seq<UserEntry>) -> Map<Seq<char>, UserMetadataView> {
    Map::new(
        |user: Seq<char>| exists|i: int| entry_of(entries, i, user),
        |user: Seq<char>| entries[choose|i: int| entry_of(entries, i, user)].metadata@,
    )
}

proof fn lemma_settings_at(entries: Seq<UserEntry>, i: int)
    requires
        distinct_users(entries),
        0 <= i < entries.len(),
    ensures
        settings_of(entries).contains_key(entries[i].user@),
        settings_of(entries)[entries[i].user@] == entries[i].metadata@,
{
    let user = entries[i].user@;
    assert(entry_of(entries, i, user));
    let j = choose|j: int| entry_of(entries, j, user);
    assert(entries[i].user@ == entries[j].user@);
}

/// The settings that are stored as `entries`, of which the last one counts for
/// each user.
pub open spec fn stored_settings(entries: Seq<UserEntry>) -> Map<Seq<char>, UserMetadataView>
    decreases entries.len(),
{
    if entries.len() == 0 {
        Map::empty()
    } else {
        stored_settings(entries.drop_last()).insert(entries.last().user@, entries.last().metadata@)
    }
}

/// The users of a server. Each is listed once, under a canonical name.
pub struct Users {
    entries: Vec<UserEntry>,
}

impl View for Users {
    type V = Map<Seq<char>, UserMetadataView>;

    closed spec fn view(&self) -> Map<Seq<char>, UserMetadataView> {
        settings_of(self.entries@)
    }
}

impl Users {
    #[verifier::type_invariant]
    spec fn well_formed(self) -> bool {
        distinct_users(self.entries@) && canonical_users(self.entries@)
    }

    /// No users.
    pub fn new() -> (r: Users)
        ensures
            r@ == Map::<Seq<char>, UserMetadataView>::empty(),
    {
        let r = Users { entries: Vec::new() };
        assert(r@ =~= Map::<Seq<char>, UserMetadataView>::empty());
        r
    }

    /// The users that were stored as `stored`, if all of them have canonical
    /// names; else what is wrong with the first name that is not.
    pub fn load(stored: Vec<UserEntry>) -> (r: Result<Users, UserError>)
        ensures
            r is Ok <==> canonical_users(stored@),
            r matches Ok(users) ==> users@ == stored_settings(stored@),
            r matches Err(fault) ==> exists|i: int|
                0 <= i < stored@.len() && canonical_users(stored@.take(i)) && Some(fault)
                    == #[trigger] user_fault(stored@[i].user@),
    {
        let mut users = Users::new();
        let mut i: usize = 0;
        assert(stored@.take(0) =~= Seq::empty());
        while i < stored.len()
            invariant
                i <= stored@.len(),
                canonical_users(stored@.take(i as int)),
                users@ == stored_settings(stored@.take(i as int)),
            decreases stored.len() - i,
        {
            let entry = &stored[i];
            if let Err(fault) = validate_user(entry.user.as_str()) {
                assert(Some(fault) == user_fault(stored@[i as int].user@));
                assert(!canonical_user(stored@[i as int].user@));
                return Err(fault);
            }
            users.insert(entry.user.clone(), entry.metadata.clone());
            proof {
                let longer = stored@.take(i + 1);
                assert(longer.drop_last() =~= stored@.take(i as int));
                assert forall|k: int| 0 <= k < longer.len() implies canonical_user(
                    #[trigger] longer[k].user@,
                ) by {
                    if k < i {
                        assert(canonical_user(stored@.take(i as int)[k].user@));
                    }
                }
            }
            i = i + 1;
        }
        assert(stored@.take(stored@.len() as int) =~= stored@);
        Ok(users)
    }

    fn position(entries: &Vec<UserEntry>, user: &str) -> (r: Option<usize>)
        ensures
            r matches Some(i) ==> entry_of(entries@, i as int, user@),
            r is None ==> !exists|i: int| entry_of(entries@, i, user@),
    {
        let wanted: String = user.to_owned();
        let mut i: usize = 0;
        while i < entries.len()
            invariant
                wanted@ == user@,
                i <= entries@.len(),
                forall|k: int| 0 <= k < i ==> !#[trigger] entry_of(entries@, k, user@),
            decreases entries.len() - i,
        {
            if entries[i].user == wanted {
                return Some(i);
            }
            i = i + 1;
        }
        None
    }

    /// The settings of `user`, if it is one of the users.
    pub fn get(&self, user: &str) -> (r: Option<UserMetadata>)
        ensures
            r is Some <==> self@.contains_key(user@),
            r matches Some(metadata) ==> metadata@ == self@[user@],
            r is Some ==> canonical_user(user@),
    {
        proof {
            use_type_invariant(&*self);
        }
        match Users::position(&self.entries, user) {
            Some(i) => {
                proof {
                    lemma_settings_at(self.entries@, i as int);
                }
                Some(self.entries[i].metadata.clone())
            },
            None => None,
        }
    }

    /// Gives `user` the settings `metadata`; returns the settings that it had.
    pub fn insert(&mut self, user: String, metadata: UserMetadata) -> (r: Option<UserMetadata>)
        requires
            canonical_user(user@),
        ensures
            final(self)@ == old(self)@.insert(user@, metadata@),
            r is Some <==> old(self)@.contains_key(user@),
            r matches Some(before) ==> before@ == old(self)@[user@],
    {
        proof {
            use_type_invariant(&*self);
        }
        let mut entries: Vec<UserEntry> = Vec::new();
        std::mem::swap(&mut entries, &mut self.entries);
        let ghost before = entries@;
        let entry = UserEntry { user, metadata };
        let r = match Users::position(&entries, entry.user.as_str()) {
            Some(i) => {
                let settings = entries[i].metadata.clone();
                proof {
                    lemma_settings_at(before, i as int);
                }
                entries.set(i, entry);
                proof {
                    lemma_replaced(before, i as int, entry);
                }
                Some(settings)
            },
            None => {
                entries.push(entry);
                proof {
                    lemma_pushed(before, entry);
                }
                None
            },
        };
        self.entries = entries;
        r
    }

    /// Removes `user`; returns the settings that it had.
    pub fn remove(&mut self, user: &str) -> (r: Option<UserMetadata>)
        ensures
            final(self)@ == old(self)@.remove(user@),
            r is Some <==> old(self)@.contains_key(user@),
            r matches Some(before) ==> before@ == old(self)@[user@],
    {
        proof {
            use_type_invariant(&*self);
        }
        let mut entries: Vec<UserEntry> = Vec::new();
        std::mem::swap(&mut entries, &mut self.entries);
        let ghost before = entries@;
        let r = match Users::position(&entries, user) {
            Some(i) => {
                proof {
                    lemma_settings_at(before, i as int);
                    lemma_removed(before, i as int);
                }
                let entry = entries.remove(i);
                Some(entry.metadata)
            },
            None => {
                assert(settings_of(before) =~= settings_of(before).remove(user@));
                None
            },
        };
        self.entries = entries;
        r
    }

    /// Every user, once, with its settings.
    pub fn entries(&self) -> (r: &Vec<UserEntry>)
        ensures
            distinct_users(r@),
            canonical_users(r@),
            settings_of(r@) == self@,
    {
        proof {
            use_type_invariant(&*self);
        }
        &self.entries
    }
}

/// What `entries` hands out to be stored is what `load` makes of it again.
pub proof fn law_stored_users_are_restored(entries: Seq<UserEntry>)
    requires
        distinct_users(entries),
    ensures
        stored_settings(entries) == settings_of(entries),
    decreases entries.len(),
{
    if entries.len() == 0 {
        assert(settings_of(entries) =~= Map::empty());
    } else {
        let shorter = entries.drop_last();
        let last = entries.len() - 1;
        assert(distinct_users(shorter)) by {
            assert forall|i: int, j: int|
                0 <= i < shorter.len() && 0 <= j < shorter.len() && #[trigger] shorter[i].user@
                    == #[trigger] shorter[j].user@ implies i == j by {
                assert(entries[i].user@ == entries[j].user@);
            }
        }
        law_stored_users_are_restored(shorter);
        assert(!exists|i: int| entry_of(shorter, i, entries.last().user@)) by {
            assert forall|i: int| !entry_of(shorter, i, entries.last().user@) by {
                if entry_of(shorter, i, entries.last().user@) {
                    assert(entries[i].user@ == entries[last].user@);
                }
            }
        }
        lemma_pushed(shorter, entries.last());
        assert(shorter.push(entries.last()) =~= entries);
    }
}

proof fn lemma_replaced(entries: Seq<UserEntry>, i: int, entry: UserEntry)
    requires
        distinct_users(entries),
        canonical_users(entries),
        entry_of(entries, i, entry.user@),
    ensures
        distinct_users(entries.update(i, entry)),
        canonical_users(entries.update(i, entry)),
        settings_of(entries.update(i, entry)) == settings_of(entries).insert(
            entry.user@,
            entry.metadata@,
        ),
{
    let after = entries.update(i, entry);
    assert(forall|k: int| 0 <= k < entries.len() ==> #[trigger] after[k].user@ == entries[k].user@);
    assert(distinct_users(after)) by {
        assert forall|j: int, k: int|
            0 <= j < after.len() && 0 <= k < after.len() && #[trigger] after[j].user@
                == #[trigger] after[k].user@ implies j == k by {
            assert(entries[j].user@ == entries[k].user@);
        }
    }
    assert(canonical_users(after)) by {
        assert forall|k: int| 0 <= k < after.len() implies canonical_user(
            #[trigger] after[k].user@,
        ) by {
            assert(canonical_user(entries[k].user@));
        }
    }
    assert forall|user: Seq<char>| true implies settings_of(after).contains_key(user)
        == settings_of(entries).insert(entry.user@, entry.metadata@).contains_key(user) by {
        if settings_of(after).contains_key(user) {
            let k = choose|k: int| entry_of(after, k, user);
            assert(entry_of(entries, k, user));
        }
        if settings_of(entries).contains_key(user) {
            let k = choose|k: int| entry_of(entries, k, user);
            assert(entry_of(after, k, user));
        }
        assert(entry_of(after, i, entry.user@));
    }
    assert forall|user: Seq<char>| settings_of(after).contains_key(user) implies settings_of(
        after,
    )[user] == settings_of(entries).insert(entry.user@, entry.metadata@)[user] by {
        let k = choose|k: int| entry_of(after, k, user);
        lemma_settings_at(after, k);
        lemma_settings_at(entries, k);
        if k != i {
            assert(entries[k].user@ != entries[i].user@);
        }
    }
    assert(settings_of(after) =~= settings_of(entries).insert(entry.user@, entry.metadata@));
}

proof fn lemma_pushed(entries: Seq<UserEntry>, entry: UserEntry)
    requires
        distinct_users(entries),
        !exists|i: int| entry_of(entries, i, entry.user@),
    ensures
        distinct_users(entries.push(entry)),
        canonical_users(entries) && canonical_user(entry.user@) ==> canonical_users(
            entries.push(entry),
        ),
        settings_of(entries.push(entry)) == settings_of(entries).insert(
            entry.user@,
            entry.metadata@,
        ),
{
    let after = entries.push(entry);
    let last = entries.len() as int;
    assert(distinct_users(after)) by {
        assert forall|j: int, k: int|
            0 <= j < after.len() && 0 <= k < after.len() && #[trigger] after[j].user@
                == #[trigger] after[k].user@ implies j == k by {
            if j < last && k < last {
                assert(entries[j].user@ == entries[k].user@);
            } else if j < last {
                assert(!entry_of(entries, j, entry.user@));
            } else if k < last {
                assert(!entry_of(entries, k, entry.user@));
            }
        }
    }
    if canonical_users(entries) && canonical_user(entry.user@) {
        assert forall|k: int| 0 <= k < after.len() implies canonical_user(
            #[trigger] after[k].user@,
        ) by {
            if k < last {
                assert(canonical_user(entries[k].user@));
            }
        }
    }
    assert forall|user: Seq<char>| true implies settings_of(after).contains_key(user)
        == settings_of(entries).insert(entry.user@, entry.metadata@).contains_key(user) by {
        if settings_of(after).contains_key(user) {
            let k = choose|k: int| entry_of(after, k, user);
            if k < last {
                assert(entry_of(entries, k, user));
            }
        }
        if settings_of(entries).contains_key(user) {
            let k = choose|k: int| entry_of(entries, k, user);
            assert(entry_of(after, k, user));
        }
        assert(entry_of(after, last, entry.user@));
    }
    assert forall|user: Seq<char>| settings_of(after).contains_key(user) implies settings_of(
        after,
    )[user] == settings_of(entries).insert(entry.user@, entry.metadata@)[user] by {
        let k = choose|k: int| entry_of(after, k, user);
        lemma_settings_at(after, k);
        if k < last {
            lemma_settings_at(entries, k);
            assert(!entry_of(entries, k, entry.user@));
        }
    }
    assert(settings_of(after) =~= settings_of(entries).insert(entry.user@, entry.metadata@));
}

proof fn lemma_removed(entries: Seq<UserEntry>, i: int)
    requires
        distinct_users(entries),
        canonical_users(entries),
        0 <= i < entries.len(),
    ensures
        distinct_users(entries.remove(i)),
        canonical_users(entries.remove(i)),
        settings_of(entries.remove(i)) == settings_of(entries).remove(entries[i].user@),
{
    let after = entries.remove(i);
    let gone = entries[i].user@;
    assert(forall|k: int|
        0 <= k < after.len() ==> #[trigger] after[k] == entries[if k < i { k } else { k + 1 }]);
    assert(distinct_users(after)) by {
        assert forall|j: int, k: int|
            0 <= j < after.len() && 0 <= k < after.len() && #[trigger] after[j].user@
                == #[trigger] after[k].user@ implies j == k by {
            let j0 = if j < i { j } else { j + 1 };
            let k0 = if k < i { k } else { k + 1 };
            assert(entries[j0].user@ == entries[k0].user@);
        }
    }
    assert(canonical_users(after)) by {
        assert forall|k: int| 0 <= k < after.len() implies canonical_user(
            #[trigger] after[k].user@,
        ) by {
            let k0 = if k < i { k } else { k + 1 };
            assert(canonical_user(entries[k0].user@));
        }
    }
    assert forall|user: Seq<char>| true implies settings_of(after).contains_key(user)
        == settings_of(entries).remove(gone).contains_key(user) by {
        if settings_of(after).contains_key(user) {
            let k = choose|k: int| entry_of(after, k, user);
            let k0 = if k < i { k } else { k + 1 };
            assert(entry_of(entries, k0, user));
            if user == gone {
                assert(entries[k0].user@ == entries[i].user@);
            }
        }
        if settings_of(entries).contains_key(user) && user != gone {
            let k0 = choose|k: int| entry_of(entries, k, user);
            let k = if k0 < i { k0 } else { k0 - 1 };
            assert(after[k] == entries[k0]);
            assert(entry_of(after, k, user));
        }
    }
    assert forall|user: Seq<char>| settings_of(after).contains_key(user) implies settings_of(
        after,
    )[user] == settings_of(entries).remove(gone)[user] by {
        let k = choose|k: int| entry_of(after, k, user);
        let k0 = if k < i { k } else { k + 1 };
        lemma_settings_at(after, k);
        lemma_settings_at(entries, k0);
        assert(after[k] == entries[k0]);
    }
    assert(settings_of(after) =~= settings_of(entries).remove(gone));
}

/// Where no user has two entries, each entry gives the settings of its user, and a
/// user without an entry is none.
pub proof fn law_entries_give_the_settings(entries: Seq<UserEntry>)
    requires
        distinct_users(entries),
    ensures
        forall|i: int|
            0 <= i < entries.len() ==> settings_of(entries).contains_key(
                #[trigger] entries[i].user@,
            ) && settings_of(entries)[entries[i].user@] == entries[i].metadata@,
        forall|user: Seq<char>| #[trigger]
            settings_of(entries).contains_key(user) ==> exists|i: int|
                0 <= i < entries.len() && #[trigger] entries[i].user@ == user,
{
    assert forall|i: int| 0 <= i < entries.len() implies settings_of(entries).contains_key(
        #[trigger] entries[i].user@,
    ) && settings_of(entries)[entries[i].user@] == entries[i].metadata@ by {
        lemma_settings_at(entries, i);
    }
    assert forall|user: Seq<char>| #[trigger]
        settings_of(entries).contains_key(user) implies exists|i: int|
        0 <= i < entries.len() && #[trigger] entries[i].user@ == user by {
        let i = choose|i: int| entry_of(entries, i, user);
        assert(entries[i].user@ == user);
    }
}

/// Of entries that were stored, the last one of a user counts, and no entry is
/// lost.
pub proof fn law_last_stored_entry_counts(entries: Seq<UserEntry>, i: int)
    requires
        0 <= i < entries.len(),
        forall|j: int| i < j < entries.len() ==> #[trigger] entries[j].user@ != entries[i].user@,
    ensures
        stored_settings(entries).contains_key(entries[i].user@),
        stored_settings(entries)[entries[i].user@] == entries[i].metadata@,
    decreases entries.len(),
{
    if i < entries.len() - 1 {
        let shorter = entries.drop_last();
        assert(shorter[i] == entries[i]);
        assert forall|j: int| i < j < shorter.len() implies #[trigger] shorter[j].user@
            != shorter[i].user@ by {
            assert(entries[j].user@ != entries[i].user@);
        }
        law_last_stored_entry_counts(shorter, i);
        assert(entries[entries.len() - 1].user@ != entries[i].user@);
    }
}

/// Entries are distinct exactly if no two of them are of one user, and canonical
/// exactly if each is of a user with a canonical name.
pub proof fn law_distinct_and_canonical_entries(entries: Seq<UserEntry>)
    ensures
        distinct_users(entries) <==> forall|i: int, j: int|
            0 <= i < j < entries.len() ==> #[trigger] entries[i].user@ != #[trigger] entries[j].user@,
        canonical_users(entries) <==> forall|i: int|
            0 <= i < entries.len() ==> canonical_user(#[trigger] entries[i].user@),
{
    if forall|i: int, j: int|
        0 <= i < j < entries.len() ==> #[trigger] entries[i].user@ != #[trigger] entries[j].user@ {
        assert forall|i: int, j: int|
            0 <= i < entries.len() && 0 <= j < entries.len() && #[trigger] entries[i].user@
                == #[trigger] entries[j].user@ implies i == j by {}
    }
}

} // verus!
