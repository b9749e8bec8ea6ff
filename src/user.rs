use vstd::prelude::*;
use crate::crypto::{decrypt_key, spec_unwrap_key};
use crate::types::{Aes128Key, Id, Membership, UserGroup};

verus! {

/// The keys that a list of `(group, key)` entries gives: a later entry for
/// a group replaces an earlier one.
pub open spec fn entries_map(s: Seq<(Id, Aes128Key)>) -> Map<Seq<char>, Seq<u8>>
    decreases s.len(),
{
    if s.len() == 0 {
        Map::empty()
    } else {
        entries_map(s.drop_last()).insert(s.last().0@, s.last().1@)
    }
}

/// The mapping from group identifier to group key, built once per session.
/// It is a list of entries, the latest for a group winning, rather than a
/// hash map: group identifiers are strings, and vstd's hash map
/// specification promises nothing for `String` keys.
pub struct KeyHierarchy {
    entries: Vec<(Id, Aes128Key)>,
}

impl View for KeyHierarchy {
    type V = Map<Seq<char>, Seq<u8>>;

    closed spec fn view(&self) -> Map<Seq<char>, Seq<u8>> {
        entries_map(self.entries@)
    }
}

impl KeyHierarchy {
    /// A hierarchy without keys.
    pub fn new() -> (r: KeyHierarchy)
        ensures
            r@ == Map::<Seq<char>, Seq<u8>>::empty(),
    {
        KeyHierarchy { entries: Vec::new() }
    }

    /// Records `key` as the key of `group`, replacing an earlier one.
    pub fn insert(&mut self, group: Id, key: Aes128Key)
        ensures
            final(self)@ == old(self)@.insert(group@, key@),
    {
        let ghost before = self.entries@;
        self.entries.push((group, key));
        proof {
            assert(self.entries@.drop_last() =~= before);
        }
    }

    /// The key of `group`, if the hierarchy holds one.
    pub fn get(&self, group: &Id) -> (r: Option<Aes128Key>)
        ensures
            match r {
                Some(k) => self@.contains_key(group@) && self@[group@] == k@,
                None => !self@.contains_key(group@),
            },
    {
        let ghost all = self.entries@;
        let mut i: usize = self.entries.len();
        proof {
            assert(all.subrange(0, i as int) =~= all);
        }
        while i > 0
            invariant
                i <= all.len(),
                all == self.entries@,
                entries_map(all.subrange(0, i as int)).contains_key(group@) == self@.contains_key(
                    group@,
                ),
                self@.contains_key(group@) ==> entries_map(all.subrange(0, i as int))[group@]
                    == self@[group@],
            decreases i,
        {
            let ghost prefix = all.subrange(0, i as int);
            assert(prefix.drop_last() =~= all.subrange(0, i - 1));
            if self.entries[i - 1].0 == *group {
                return Some(self.entries[i - 1].1);
            }
            i -= 1;
        }
        None
    }
}

/// The user record together with the keys unlocked for it.
pub struct User {
    pub id: Id,
    pub memberships: Vec<Membership>,
    pub user_group: UserGroup,
    pub group_keys: KeyHierarchy,
}

/// The keys that unlocking adds for the memberships `ms`, in order, to `keys`.
pub open spec fn with_membership_keys(
    keys: Map<Seq<char>, Seq<u8>>,
    user_group_key: Seq<u8>,
    ms: Seq<Membership>,
) -> Map<Seq<char>, Seq<u8>>
    decreases ms.len(),
{
    if ms.len() == 0 {
        keys
    } else {
        let prev = with_membership_keys(keys, user_group_key, ms.drop_last());
        match ms.last().sym_enc_g_key {
            Some(w) => prev.insert(ms.last().group@, spec_unwrap_key(user_group_key, w@)),
            None => prev,
        }
    }
}

/// The key hierarchy after unlocking: the user group key, unwrapped with the
/// passphrase key, and each wrapped membership key, unwrapped with the user
/// group key. Memberships without a wrapped key add nothing.
pub open spec fn spec_unlocked_keys(
    keys: Map<Seq<char>, Seq<u8>>,
    passphrase_key: Seq<u8>,
    user_group: UserGroup,
    ms: Seq<Membership>,
) -> Map<Seq<char>, Seq<u8>> {
    let user_group_key = spec_unwrap_key(passphrase_key, user_group.sym_enc_g_key@);
    with_membership_keys(keys.insert(user_group.group@, user_group_key), user_group_key, ms)
}

impl User {
    /// A user record whose keys are not unlocked yet.
    pub fn new(id: Id, memberships: Vec<Membership>, user_group: UserGroup) -> (r: User)
        ensures
            r.id == id,
            r.memberships == memberships,
            r.user_group == user_group,
            r.group_keys@ == Map::<Seq<char>, Seq<u8>>::empty(),
    {
        User { id, memberships, user_group, group_keys: KeyHierarchy::new() }
    }

    /// Whether the user belongs to `group_id`, as its own group or through a
    /// membership.
    pub fn has_group(&self, group_id: &Id) -> (r: bool)
        ensures
            r == (self.user_group.group@ == group_id@ || exists|i: int|
                0 <= i < self.memberships@.len() && #[trigger] self.memberships@[i].group@
                    == group_id@),
    {
        if self.user_group.group == *group_id {
            return true;
        }
        let mut i: usize = 0;
        while i < self.memberships.len()
            invariant
                i <= self.memberships@.len(),
                forall|j: int| 0 <= j < i ==> #[trigger] self.memberships@[j].group@ != group_id@,
            decreases self.memberships@.len() - i,
        {
            if self.memberships[i].group == *group_id {
                return true;
            }
            i += 1;
        }
        false
    }

    /// Unlocks the group keys: the user group key is unwrapped with the
    /// passphrase key, then every membership that carries a wrapped key has
    /// it unwrapped with the user group key.
    pub fn unlock_group_keys(&mut self, user_passphrase_key: &Aes128Key)
        ensures
            final(self).group_keys@ == spec_unlocked_keys(
                old(self).group_keys@,
                user_passphrase_key@,
                old(self).user_group,
                old(self).memberships@,
            ),
            final(self).id == old(self).id,
            final(self).memberships == old(self).memberships,
            final(self).user_group == old(self).user_group,
    {
        let user_group_key = decrypt_key(user_passphrase_key, &self.user_group.sym_enc_g_key);
        let group = self.user_group.group.clone();
        self.group_keys.insert(group, user_group_key);
        let ghost start = self.group_keys@;
        let mut i: usize = 0;
        while i < self.memberships.len()
            invariant
                i <= self.memberships@.len(),
                self.id == old(self).id,
                self.memberships == old(self).memberships,
                self.user_group == old(self).user_group,
                start == old(self).group_keys@.insert(self.user_group.group@, user_group_key@),
                user_group_key@ == spec_unwrap_key(
                    user_passphrase_key@,
                    self.user_group.sym_enc_g_key@,
                ),
                self.group_keys@ == with_membership_keys(
                    start,
                    user_group_key@,
                    self.memberships@.subrange(0, i as int),
                ),
            decreases self.memberships@.len() - i,
        {
            let ghost ms = self.memberships@;
            assert(ms.subrange(0, i + 1).drop_last() =~= ms.subrange(0, i as int));
            if let Some(sym) = self.memberships[i].sym_enc_g_key {
                let key = decrypt_key(&user_group_key, &sym);
                let member_group = self.memberships[i].group.clone();
                self.group_keys.insert(member_group, key);
            }
            i += 1;
        }
        assert(self.memberships@.subrange(0, i as int) =~= self.memberships@);
    }

    /// The key of `group_id`, if it was unlocked.
    pub fn get_group_key(&self, group_id: &Id) -> (r: Option<Aes128Key>)
        ensures
            match r {
                Some(k) => self.group_keys@.contains_key(group_id@) && self.group_keys@[group_id@]
                    == k@,
                None => !self.group_keys@.contains_key(group_id@),
            },
    {
        self.group_keys.get(group_id)
    }

    /// The key of the user's own group, which unlocking always records.
    pub fn get_user_group_key(&self) -> (r: Aes128Key)
        requires
            self.group_keys@.contains_key(self.user_group.group@),
        ensures
            r@ == self.group_keys@[self.user_group.group@],
    {
        self.group_keys.get(&self.user_group.group).unwrap()
    }
}

} // verus!
