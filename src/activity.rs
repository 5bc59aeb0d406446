//! Member activity: messages counted per member and day, the most active
//! members of a day, and the daily award handed from one member to the next.

use vstd::prelude::*;

verus! {

broadcast use {vstd::seq_lib::group_to_multiset_ensures, vstd::multiset::group_multiset_axioms};

/// A member's message count on one day (days since the Unix epoch).
#[derive(Clone, Copy, Debug, PartialEq, Eq, Structural)]
pub struct UserMessageStat {
    pub date: i32,
    pub userid: u64,
    pub message_count: i32,
}

/// Position of the first row at or after `i` for `user` on `day`, or -1.
pub open spec fn stat_index(s: Seq<UserMessageStat>, user: u64, day: i32, i: int) -> int
    decreases s.len() - i,
{
    if i < 0 || i >= s.len() {
        -1
    } else if s[i].userid == user && s[i].date == day {
        i
    } else {
        stat_index(s, user, day, i + 1)
    }
}

proof fn lemma_stat_index(s: Seq<UserMessageStat>, user: u64, day: i32, i: int)
    requires
        0 <= i,
    ensures
        stat_index(s, user, day, i) == -1 ==> forall|j: int|
            i <= j < s.len() ==> !((#[trigger] s[j]).userid == user && s[j].date == day),
        stat_index(s, user, day, i) == -1 || (i <= stat_index(s, user, day, i) < s.len()
            && s[stat_index(s, user, day, i)].userid == user && s[stat_index(
            s,
            user,
            day,
            i,
        )].date == day),
    decreases s.len() - i,
{
    if i < s.len() && !(s[i].userid == user && s[i].date == day) {
        lemma_stat_index(s, user, day, i + 1);
    }
}

/// The rows of `day` whose member is not in `excluded`, as (member, count).
pub open spec fn eligible(s: Seq<UserMessageStat>, day: i32, excluded: Seq<u64>) -> Seq<(u64, i32)>
    decreases s.len(),
{
    if s.len() == 0 {
        Seq::empty()
    } else {
        let rest = eligible(s.drop_last(), day, excluded);
        let r = s.last();
        if r.date == day && !excluded.contains(r.userid) {
            rest.push((r.userid, r.message_count))
        } else {
            rest
        }
    }
}

/// Sum of the counts of `day`.
pub open spec fn day_total(s: Seq<UserMessageStat>, day: i32) -> int
    decreases s.len(),
{
    if s.len() == 0 {
        0
    } else {
        day_total(s.drop_last(), day) + if s.last().date == day {
            s.last().message_count as int
        } else {
            0
        }
    }
}

proof fn lemma_day_total_bound(s: Seq<UserMessageStat>, day: i32)
    ensures
        -(s.len() as int) * 0x8000_0000 <= day_total(s, day) <= (s.len() as int) * 0x8000_0000,
    decreases s.len(),
{
    if s.len() > 0 {
        lemma_day_total_bound(s.drop_last(), day);
    }
}

/// `r` lists counts from highest to lowest.
pub open spec fn descending(r: Seq<(u64, i32)>) -> bool {
    forall|i: int, j: int| 0 <= i < j < r.len() ==> r[i].1 >= r[j].1
}

/// `r` is a top-`n` of `e`: as many entries as fit, each taken from `e` at
/// most as often as it occurs there, highest counts first, and no entry
/// left out has a higher count than the last one taken.
pub open spec fn is_top(r: Seq<(u64, i32)>, e: Seq<(u64, i32)>, n: nat) -> bool {
    &&& r.len() == (if n < e.len() {
        n
    } else {
        e.len()
    })
    &&& descending(r)
    &&& r.to_multiset().subset_of(e.to_multiset())
    &&& r.len() > 0 ==> forall|x: (u64, i32)| e.contains(x) && !r.contains(x) ==> x.1 <= r.last().1
}

/// Message counts of all members and days.
pub struct MessageLog {
    pub stats: Vec<UserMessageStat>,
}

impl MessageLog {
    /// At most one row per member and day.
    pub open spec fn wf(&self) -> bool {
        forall|i: int, j: int|
            0 <= i < j < self.stats@.len() ==> !((#[trigger] self.stats@[i]).userid
                == (#[trigger] self.stats@[j]).userid && self.stats@[i].date == self.stats@[j].date)
    }

    pub fn new() -> (r: MessageLog)
        ensures
            r.wf(),
            r.stats@.len() == 0,
    {
        MessageLog { stats: Vec::new() }
    }

    /// Counts one message of `user` on `day`: the day's row grows by one
    /// (staying at `i32::MAX` once there), or a row with one is added.
    pub fn increment_message_count(&mut self, user: u64, day: i32)
        ensures
            old(self).wf() ==> final(self).wf(),
            ({
                let k = stat_index(old(self).stats@, user, day, 0);
                if k == -1 {
                    final(self).stats@ == old(self).stats@.push(
                        UserMessageStat { date: day, userid: user, message_count: 1 },
                    )
                } else {
                    let c = old(self).stats@[k].message_count;
                    final(self).stats@ == old(self).stats@.update(
                        k,
                        UserMessageStat {
                            date: day,
                            userid: user,
                            message_count: if c < i32::MAX {
                                (c + 1) as i32
                            } else {
                                c
                            },
                        },
                    )
                }
            }),
    {
        let mut i: usize = 0;
        while i < self.stats.len()
            invariant
                i <= self.stats@.len(),
                self.stats@ == old(self).stats@,
                stat_index(self.stats@, user, day, 0) == stat_index(self.stats@, user, day, i as int),
            decreases self.stats@.len() - i,
        {
            let r = self.stats[i];
            if r.userid == user && r.date == day {
                let c = r.message_count;
                let next = if c < i32::MAX {
                    c + 1
                } else {
                    c
                };
                self.stats.set(i, UserMessageStat { date: day, userid: user, message_count: next });
                return;
            }
            i = i + 1;
        }
        proof {
            lemma_stat_index(self.stats@, user, day, 0);
        }
        self.stats.push(UserMessageStat { date: day, userid: user, message_count: 1 });
        proof {
            assert forall|a: int, b: int| 0 <= a < b < self.stats@.len() && old(self).wf() implies !((
            #[trigger] self.stats@[a]).userid == (#[trigger] self.stats@[b]).userid
                && self.stats@[a].date == self.stats@[b].date) by {
                if b == self.stats@.len() - 1 {
                    assert(self.stats@[a] == old(self).stats@[a]);
                    assert(!(old(self).stats@[a].userid == user && old(self).stats@[a].date == day));
                }
            }
        }
    }

    /// All messages sent on `day`.
    pub fn total_daily_messages(&self, day: i32) -> (r: i128)
        ensures
            r == day_total(self.stats@, day),
    {
        let mut sum: i128 = 0;
        let mut i: usize = 0;
        while i < self.stats.len()
            invariant
                i <= self.stats@.len(),
                sum == day_total(self.stats@.subrange(0, i as int), day),
            decreases self.stats@.len() - i,
        {
            proof {
                assert(self.stats@.subrange(0, i + 1).drop_last() =~= self.stats@.subrange(
                    0,
                    i as int,
                ));
                lemma_day_total_bound(self.stats@.subrange(0, i as int), day);
                assert((i as int) * 0x8000_0000 <= 0x1_0000_0000_0000_0000 * 0x8000_0000)
                    by (nonlinear_arith)
                    requires
                        i <= usize::MAX,
                ;
            }
            let r = self.stats[i];
            if r.date == day {
                sum = sum + r.message_count as i128;
            }
            i = i + 1;
        }
        proof {
            assert(self.stats@.subrange(0, self.stats@.len() as int) =~= self.stats@);
        }
        sum
    }

    /// The (member, count) rows of `day` whose member is not excluded.
    pub fn eligible_rows(&self, day: i32, excluded: &Vec<u64>) -> (r: Vec<(u64, i32)>)
        ensures
            r@ == eligible(self.stats@, day, excluded@),
    {
        let mut out: Vec<(u64, i32)> = Vec::new();
        let mut i: usize = 0;
        while i < self.stats.len()
            invariant
                i <= self.stats@.len(),
                out@ == eligible(self.stats@.subrange(0, i as int), day, excluded@),
            decreases self.stats@.len() - i,
        {
            proof {
                assert(self.stats@.subrange(0, i + 1).drop_last() =~= self.stats@.subrange(
                    0,
                    i as int,
                ));
            }
            let r = self.stats[i];
            if r.date == day && !contains_id(excluded, r.userid) {
                out.push((r.userid, r.message_count));
            }
            i = i + 1;
        }
        proof {
            assert(self.stats@.subrange(0, self.stats@.len() as int) =~= self.stats@);
        }
        out
    }

    /// The `n` most active members of `day`, not counting `excluded`.
    pub fn get_most_active(&self, n: usize, day: i32, excluded: &Vec<u64>) -> (r: Vec<(u64, i32)>)
        ensures
            is_top(r@, eligible(self.stats@, day, excluded@), n as nat),
    {
        let rows = self.eligible_rows(day, excluded);
        top_n(rows, n)
    }
}

/// Whether `ids` holds `id`.
pub fn contains_id(ids: &Vec<u64>, id: u64) -> (r: bool)
    ensures
        r == ids@.contains(id),
{
    let mut i: usize = 0;
    while i < ids.len()
        invariant
            i <= ids@.len(),
            forall|j: int| 0 <= j < i ==> ids@[j] != id,
        decreases ids@.len() - i,
    {
        if ids[i] == id {
            return true;
        }
        i = i + 1;
    }
    false
}

/// Position of a highest count in a non-empty list.
fn index_of_max(v: &Vec<(u64, i32)>) -> (k: usize)
    requires
        v@.len() > 0,
    ensures
        k < v@.len(),
        forall|j: int| 0 <= j < v@.len() ==> v@[j].1 <= v@[k as int].1,
{
    let mut k: usize = 0;
    let mut i: usize = 1;
    while i < v.len()
        invariant
            1 <= i <= v@.len(),
            k < i,
            forall|j: int| 0 <= j < i ==> v@[j].1 <= v@[k as int].1,
        decreases v@.len() - i,
    {
        if v[i].1 > v[k].1 {
            k = i;
        }
        i = i + 1;
    }
    k
}

/// The `n` entries of `rows` with the highest counts, highest first.
pub fn top_n(rows: Vec<(u64, i32)>, n: usize) -> (r: Vec<(u64, i32)>)
    ensures
        is_top(r@, rows@, n as nat),
{
    let ghost e = rows@;
    let mut pool = rows;
    let mut top: Vec<(u64, i32)> = Vec::new();
    let count: usize = if n < pool.len() {
        n
    } else {
        pool.len()
    };
    while top.len() < count
        invariant
            count as nat == (if (n as nat) < e.len() {
                n as nat
            } else {
                e.len()
            }),
            top@.len() <= count,
            top@.len() + pool@.len() == e.len(),
            descending(top@),
            top@.to_multiset().add(pool@.to_multiset()) == e.to_multiset(),
            top@.len() > 0 ==> forall|j: int| 0 <= j < pool@.len() ==> pool@[j].1 <= top@.last().1,
        decreases count - top@.len(),
    {
        let k = index_of_max(&pool);
        let ghost before_top = top@;
        let ghost before_pool = pool@;
        let x = pool.swap_remove(k);
        proof {
            lemma_swap_remove_multiset(before_pool, k as int);
            assert(pool@.to_multiset() =~= before_pool.to_multiset().remove(x));
            assert(before_pool.contains(x));
            assert(before_pool.to_multiset().count(x) > 0);
            assert forall|j: int| 0 <= j < pool@.len() implies pool@[j].1 <= x.1 by {
                if j == k {
                    assert(pool@[j] == before_pool.last());
                } else {
                    assert(pool@[j] == before_pool[j]);
                }
            }
        }
        top.push(x);
        proof {
            assert(top@ == before_top.push(x));
            assert(before_top.push(x).to_multiset() =~= before_top.to_multiset().insert(x));
            assert(top@.to_multiset().add(pool@.to_multiset()) =~= e.to_multiset());
            assert forall|i: int, j: int| 0 <= i < j < top@.len() implies top@[i].1 >= top@[j].1 by {
                if j == top@.len() - 1 && i < j {
                    assert(top@[i] == before_top[i]);
                    if before_top.len() > 0 {
                        assert(before_pool[k as int].1 <= before_top.last().1);
                        if i < before_top.len() - 1 {
                            assert(before_top[i].1 >= before_top.last().1);
                        }
                    }
                }
            }
        }
    }
    proof {
        if top@.len() > 0 {
            assert forall|x: (u64, i32)| e.contains(x) && !top@.contains(x) implies x.1
                <= top@.last().1 by {
                    assert(e.to_multiset().count(x) > 0);
                assert(top@.to_multiset().count(x) == 0);
                assert(pool@.to_multiset().count(x) > 0);
                assert(pool@.contains(x));
                let j = choose|j: int| 0 <= j < pool@.len() && pool@[j] == x;
            }
        }
        assert(top@.to_multiset().subset_of(e.to_multiset()));
    }
    top
}

proof fn lemma_swap_remove_multiset(s: Seq<(u64, i32)>, k: int)
    requires
        0 <= k < s.len(),
    ensures
        s.update(k, s.last()).drop_last().to_multiset() =~= s.to_multiset().remove(s[k]),
{
    let u = s.update(k, s.last());
    let d = u.drop_last();
    assert(d.push(u.last()) =~= u);
    assert(d.push(u.last()).to_multiset() =~= d.to_multiset().insert(u.last()));
    assert(u.to_multiset() == s.to_multiset().insert(s.last()).remove(s[k]));
    assert(u.last() == s.last());
    assert(s.contains(s[k]));
    assert(s.to_multiset().count(s[k]) > 0);
    let m = s.to_multiset();
    let x = s[k];
    let l = s.last();
    assert forall|y: (u64, i32)| #[trigger] d.to_multiset().count(y) == m.remove(x).count(y) by {
        assert(d.to_multiset().insert(l).count(y) == m.insert(l).remove(x).count(y));
        if y == x {
            assert(m.insert(l).count(y) >= 1);
        }
    }
    assert(d.to_multiset() =~= m.remove(x));
}

/// Who loses the award when `winner` gets it: the previous holder, unless
/// there is none or it is the same member.
pub fn award_handover(winner: u64, previous: Option<u64>) -> (r: Option<u64>)
    ensures
        r == (match previous {
            Some(p) => if p != winner {
                Some(p)
            } else {
                None
            },
            None => None,
        }),
{
    match previous {
        Some(p) => if p != winner {
            Some(p)
        } else {
            None
        },
        None => None,
    }
}

} // verus!
