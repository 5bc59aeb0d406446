//! Paging through the giveaway list, ten at a time, with each user's
//! position kept in memory.

use vstd::prelude::*;

use std::collections::HashMap;

use crate::text::str_eq;

verus! {

broadcast use vstd::std_specs::hash::group_hash_axioms;

/// Giveaways shown on one page.
pub const PAGE_SIZE: i64 = 10;

/// A press of a page button of the giveaway list.
#[derive(Clone, Copy, Debug, PartialEq, Eq, Structural)]
pub enum ListMove {
    Back,
    Next,
}

impl ListMove {
    /// The move behind a component id, if it is a page button.
    pub fn from_custom_id(id: &str) -> (r: Option<ListMove>)
        ensures
            r == Some(ListMove::Back) <==> id@ == "GIVEAWAY_list_back"@,
            r == Some(ListMove::Next) <==> id@ == "GIVEAWAY_list_next"@,
    {
        proof {
            reveal_strlit("GIVEAWAY_list_back");
            reveal_strlit("GIVEAWAY_list_next");
            assert("GIVEAWAY_list_back"@[14] != "GIVEAWAY_list_next"@[14]);
        }
        if str_eq(id, "GIVEAWAY_list_back") {
            Some(ListMove::Back)
        } else if str_eq(id, "GIVEAWAY_list_next") {
            Some(ListMove::Next)
        } else {
            None
        }
    }
}

/// Which page buttons are disabled.
#[derive(Clone, Copy, Debug, PartialEq, Eq, Structural)]
pub struct ListComponents {
    pub previous_disabled: bool,
    pub next_disabled: bool,
}

/// "Previous" is disabled when `offset - 10 < 0`, "next" when
/// `offset + 10 >= total`.
pub fn generate_list_components(offset: i64, total: i64) -> (r: ListComponents)
    ensures
        r.previous_disabled == (offset - PAGE_SIZE < 0),
        r.next_disabled == (offset + PAGE_SIZE >= total),
{
    ListComponents {
        previous_disabled: (offset as i128) - 10 < 0,
        next_disabled: (offset as i128) + 10 >= total as i128,
    }
}

/// The positions `[start, end)` of the page at `offset` in a list of
/// `total` giveaways: at most ten, none past the end.
pub fn page_bounds(offset: i64, total: usize) -> (r: (usize, usize))
    ensures
        r.0 == (if offset <= 0 {
            0
        } else if offset >= total {
            total as int
        } else {
            offset as int
        }),
        r.1 == (if r.0 + PAGE_SIZE <= total {
            r.0 + PAGE_SIZE
        } else {
            total as int
        }),
{
    let start: usize = if offset <= 0 {
        0
    } else if offset as u64 >= total as u64 {
        total
    } else {
        offset as usize
    };
    let end: usize = if total - start >= 10 {
        start + 10
    } else {
        total
    };
    (start, end)
}

/// Each user's current list offset; a user without one is at zero.
pub struct ListOffsets {
    pub offsets: HashMap<u64, i64>,
}

impl ListOffsets {
    pub open spec fn spec_offset(&self, user: u64) -> i64 {
        if self.offsets@.contains_key(user) {
            self.offsets@[user]
        } else {
            0
        }
    }

    pub fn new() -> (r: ListOffsets)
        ensures
            forall|u: u64| r.spec_offset(u) == 0,
    {
        ListOffsets { offsets: HashMap::new() }
    }

    pub fn get_offset(&self, user: u64) -> (r: i64)
        ensures
            r == self.spec_offset(user),
    {
        match self.offsets.get(&user) {
            Some(o) => *o,
            None => 0,
        }
    }

    pub fn set_offset(&mut self, user: u64, offset: i64)
        ensures
            final(self).spec_offset(user) == offset,
            forall|u: u64| u != user ==> final(self).spec_offset(u) == old(self).spec_offset(u),
    {
        self.offsets.insert(user, offset);
    }

    /// Moves `user` one page back, not below zero, and returns the offset.
    pub fn previous_page(&mut self, user: u64) -> (r: i64)
        ensures
            r == (if old(self).spec_offset(user) - PAGE_SIZE < 0 {
                0
            } else {
                old(self).spec_offset(user) - PAGE_SIZE
            }),
            final(self).spec_offset(user) == r,
            forall|u: u64| u != user ==> final(self).spec_offset(u) == old(self).spec_offset(u),
    {
        let cur = self.get_offset(user);
        let next = if cur < 10 {
            0
        } else {
            cur - 10
        };
        self.set_offset(user, next);
        next
    }

    /// Moves `user` one page on and returns the offset; an offset that
    /// cannot grow stays where it is.
    pub fn next_page(&mut self, user: u64) -> (r: i64)
        ensures
            r == (if old(self).spec_offset(user) <= i64::MAX - PAGE_SIZE {
                old(self).spec_offset(user) + PAGE_SIZE
            } else {
                old(self).spec_offset(user) as int
            }),
            final(self).spec_offset(user) == r,
            forall|u: u64| u != user ==> final(self).spec_offset(u) == old(self).spec_offset(u),
    {
        let cur = self.get_offset(user);
        let next = if cur <= i64::MAX - 10 {
            cur + 10
        } else {
            cur
        };
        self.set_offset(user, next);
        next
    }
}

} // verus!
