//! Members who are silenced. The mark outlives the member leaving: a
//! silenced member who joins again gets the silenced role back.

use vstd::prelude::*;

use std::collections::HashSet;

verus! {

broadcast use vstd::std_specs::hash::group_hash_axioms;

/// How a role update of a member changes the silenced mark.
#[derive(Clone, Copy, Debug, PartialEq, Eq, Structural)]
pub enum RoleSync {
    Silence,
    Unsilence,
    Unchanged,
}

/// Gaining the silenced role marks the member, losing it clears the mark.
pub fn role_sync(had_role: bool, has_role: bool) -> (r: RoleSync)
    ensures
        r == (if has_role && !had_role {
            RoleSync::Silence
        } else if had_role && !has_role {
            RoleSync::Unsilence
        } else {
            RoleSync::Unchanged
        }),
{
    if has_role && !had_role {
        RoleSync::Silence
    } else if had_role && !has_role {
        RoleSync::Unsilence
    } else {
        RoleSync::Unchanged
    }
}

/// The set of silenced members.
pub struct SilencedMembers {
    pub members: HashSet<u64>,
}

impl SilencedMembers {
    pub fn new() -> (r: SilencedMembers)
        ensures
            r.members@ == Set::<u64>::empty(),
    {
        SilencedMembers { members: HashSet::new() }
    }

    pub fn is_silenced(&self, user: u64) -> (r: bool)
        ensures
            r == self.members@.contains(user),
    {
        self.members.contains(&user)
    }

    pub fn silence_user(&mut self, user: u64)
        ensures
            final(self).members@ == old(self).members@.insert(user),
    {
        self.members.insert(user);
    }

    pub fn unsilence_user(&mut self, user: u64)
        ensures
            final(self).members@ == old(self).members@.remove(user),
    {
        self.members.remove(&user);
    }

    /// Applies a role update of `user`.
    pub fn apply_role_update(&mut self, user: u64, had_role: bool, has_role: bool) -> (r: RoleSync)
        ensures
            r == (if has_role && !had_role {
                RoleSync::Silence
            } else if had_role && !has_role {
                RoleSync::Unsilence
            } else {
                RoleSync::Unchanged
            }),
            r == RoleSync::Silence ==> final(self).members@ == old(self).members@.insert(user),
            r == RoleSync::Unsilence ==> final(self).members@ == old(self).members@.remove(user),
            r == RoleSync::Unchanged ==> final(self).members@ == old(self).members@,
    {
        let r = role_sync(had_role, has_role);
        match r {
            RoleSync::Silence => self.silence_user(user),
            RoleSync::Unsilence => self.unsilence_user(user),
            RoleSync::Unchanged => {},
        }
        r
    }
}

} // verus!
