//! Giveaways: a timed prize drawing that goes from active to completed
//! exactly once, with winners drawn at random from the entrants.

use vstd::prelude::*;
use vstd::string::StringExecFns;

use rand::seq::SliceRandom;

use crate::text::str_eq;

verus! {

/// Why a giveaway command was refused.
#[derive(Clone, Copy, Debug, PartialEq, Eq, Structural)]
pub enum GiveawayError {
    /// No giveaway has the requested id.
    NotFound,
    /// The giveaway has already ended.
    AlreadyEnded,
    /// The duration is below one second, or its end time cannot be represented.
    InvalidDuration,
    /// The winner count is below one.
    InvalidWinners,
}

/// Which setting an edit changes.
#[derive(Clone, Copy, Debug, PartialEq, Eq, Structural)]
pub enum EditField {
    Duration,
    Winners,
}

impl EditField {
    /// The field named by the edit command's `field` argument.
    pub fn from_name(name: &str) -> (r: Option<EditField>)
        ensures
            r == Some(EditField::Duration) <==> name@ == "duration"@,
            r == Some(EditField::Winners) <==> name@ == "winners"@,
    {
        proof {
            reveal_strlit("duration");
            reveal_strlit("winners");
            assert("duration"@.len() != "winners"@.len());
        }
        if str_eq(name, "duration") {
            Some(EditField::Duration)
        } else if str_eq(name, "winners") {
            Some(EditField::Winners)
        } else {
            None
        }
    }
}

/// One prize drawing. Times are seconds since the Unix epoch.
pub struct Giveaway {
    pub id: i64,
    pub message_id: u64,
    pub channel_id: u64,
    pub start_time: i64,
    pub end_time: i64,
    pub max_winners: i64,
    pub prize: String,
    pub completed: bool,
    pub winners: Vec<u64>,
}

pub open spec fn min_nat(a: nat, b: nat) -> nat {
    if a < b {
        a
    } else {
        b
    }
}

/// How many winners a draw from `pool_len` entrants yields.
pub open spec fn draw_size(max_winners: i64, pool_len: nat) -> nat {
    if max_winners <= 0 {
        0
    } else {
        min_nat(max_winners as nat, pool_len)
    }
}

/// `winners` is a possible draw of `count` entrants from `pool`: the right
/// number of them, each entrant taken at most as often as it was entered.
pub open spec fn is_draw(winners: Seq<u64>, pool: Seq<u64>, count: nat) -> bool {
    &&& winners.len() == count
    &&& winners.to_multiset().subset_of(pool.to_multiset())
}

/// Relies on rand's `SliceRandom::choose_multiple` on a slice: it returns
/// `min(amount, len)` elements at distinct positions, so no entry is taken
/// twice.
#[verifier::external_body]
fn choose_multiple_of(pool: &[u64], amount: usize) -> (r: Vec<u64>)
    ensures
        is_draw(r@, pool@, min_nat(amount as nat, pool@.len())),
{
    pool.choose_multiple(&mut rand::thread_rng(), amount).cloned().collect()
}

/// Draws up to `max_winners` distinct entries of `candidates` at random.
/// An empty pool, or a non-positive count, gives no winners.
pub fn roll_winners(candidates: &Vec<u64>, max_winners: i64) -> (r: Vec<u64>)
    ensures
        is_draw(r@, candidates@, draw_size(max_winners, candidates@.len())),
{
    let len = candidates.len();
    let amount: usize = if max_winners <= 0 {
        0
    } else if max_winners as u64 >= len as u64 {
        len
    } else {
        max_winners as usize
    };
    choose_multiple_of(candidates.as_slice(), amount)
}

/// A draw from an empty pool is empty, whatever the winner count: it is a
/// valid outcome, not an error.
pub proof fn lemma_empty_pool_draws_nobody(winners: Seq<u64>, pool: Seq<u64>, max_winners: i64)
    requires
        pool.len() == 0,
        is_draw(winners, pool, draw_size(max_winners, pool.len())),
    ensures
        winners.len() == 0,
{
}

impl Giveaway {
    /// A giveaway runs at least a second and has room for a winner.
    pub open spec fn wf(&self) -> bool {
        &&& self.max_winners >= 1
        &&& self.start_time < self.end_time
    }

    /// Everything but the winners and the completed flag is as in `other`.
    pub open spec fn same_settings(&self, other: &Giveaway) -> bool {
        &&& self.id == other.id
        &&& self.message_id == other.message_id
        &&& self.channel_id == other.channel_id
        &&& self.start_time == other.start_time
        &&& self.end_time == other.end_time
        &&& self.max_winners == other.max_winners
        &&& self.prize == other.prize
    }

    /// Starts a giveaway at `now` that ends `duration` seconds later.
    pub fn start(
        id: i64,
        message_id: u64,
        channel_id: u64,
        now: i64,
        duration: i64,
        max_winners: i64,
        prize: String,
    ) -> (r: Result<Giveaway, GiveawayError>)
        ensures
            r == Err::<Giveaway, GiveawayError>(GiveawayError::InvalidDuration) <==> (duration < 1
                || now + duration > i64::MAX),
            r == Err::<Giveaway, GiveawayError>(GiveawayError::InvalidWinners) <==> (duration >= 1
                && now + duration <= i64::MAX && max_winners < 1),
            r is Ok <==> (duration >= 1 && now + duration <= i64::MAX && max_winners >= 1),
            r matches Ok(g) ==> {
                &&& g.wf()
                &&& g.id == id
                &&& g.message_id == message_id
                &&& g.channel_id == channel_id
                &&& g.start_time == now
                &&& g.end_time == now + duration
                &&& g.max_winners == max_winners
                &&& g.prize == prize
                &&& !g.completed
                &&& g.winners@.len() == 0
            },
    {
        if duration < 1 || now > i64::MAX - duration {
            return Err(GiveawayError::InvalidDuration);
        }
        if max_winners < 1 {
            return Err(GiveawayError::InvalidWinners);
        }
        Ok(
            Giveaway {
                id,
                message_id,
                channel_id,
                start_time: now,
                end_time: now + duration,
                max_winners,
                prize,
                completed: false,
                winners: Vec::new(),
            },
        )
    }

    /// Stores a draw as the winners, replacing earlier ones; the giveaway
    /// stays in its state.
    pub fn set_winners(&mut self, winners: Vec<u64>)
        ensures
            final(self).same_settings(old(self)),
            final(self).completed == old(self).completed,
            final(self).winners@ == winners@,
    {
        self.winners = winners;
    }

    /// Ends the giveaway with the given draw: refused, with nothing changed,
    /// when it has already ended; otherwise the draw becomes the winners and
    /// the giveaway is completed.
    pub fn finish_with(&mut self, winners: Vec<u64>) -> (r: Result<(), GiveawayError>)
        ensures
            final(self).same_settings(old(self)),
            old(self).completed ==> r == Err::<(), GiveawayError>(GiveawayError::AlreadyEnded)
                && final(self).winners@ == old(self).winners@ && final(self).completed,
            !old(self).completed ==> r is Ok && final(self).completed && final(self).winners@
                == winners@,
    {
        if self.completed {
            return Err(GiveawayError::AlreadyEnded);
        }
        self.winners = winners;
        self.completed = true;
        Ok(())
    }

    /// Ends the giveaway, manual or by the sweep: an ended giveaway is
    /// refused and not re-rolled; otherwise winners are drawn once from
    /// `candidates` and the giveaway is completed.
    pub fn end(&mut self, candidates: &Vec<u64>) -> (r: Result<(), GiveawayError>)
        ensures
            final(self).same_settings(old(self)),
            final(self).completed,
            old(self).completed <==> r == Err::<(), GiveawayError>(GiveawayError::AlreadyEnded),
            old(self).completed ==> final(self).winners@ == old(self).winners@,
            !old(self).completed ==> r is Ok && is_draw(
                final(self).winners@,
                candidates@,
                draw_size(old(self).max_winners, candidates@.len()),
            ),
    {
        if self.completed {
            return Err(GiveawayError::AlreadyEnded);
        }
        let winners = roll_winners(candidates, self.max_winners);
        self.finish_with(winners)
    }

    /// Draws new winners from `candidates`, active or completed alike, and
    /// returns them.
    pub fn reroll(&mut self, candidates: &Vec<u64>) -> (r: Vec<u64>)
        ensures
            final(self).same_settings(old(self)),
            final(self).completed == old(self).completed,
            final(self).winners@ == r@,
            is_draw(r@, candidates@, draw_size(old(self).max_winners, candidates@.len())),
    {
        let winners = roll_winners(candidates, self.max_winners);
        let shown = winners.clone();
        self.set_winners(winners);
        shown
    }

    /// Sets the duration, counted from the start time rather than from now.
    pub fn edit_duration(&mut self, seconds: i64) -> (r: Result<(), GiveawayError>)
        ensures
            r == Err::<(), GiveawayError>(GiveawayError::AlreadyEnded) <==> old(self).completed,
            r == Err::<(), GiveawayError>(GiveawayError::InvalidDuration) <==> (
            !old(self).completed && (seconds < 1 || old(self).start_time + seconds > i64::MAX)),
            r is Ok <==> (!old(self).completed && 1 <= seconds && old(self).start_time + seconds
                <= i64::MAX),
            r is Ok ==> final(self).end_time == old(self).start_time + seconds,
            r is Err ==> final(self).end_time == old(self).end_time,
            old(self).wf() ==> final(self).wf(),
            final(self).start_time == old(self).start_time,
            final(self).max_winners == old(self).max_winners,
            final(self).id == old(self).id,
            final(self).message_id == old(self).message_id,
            final(self).channel_id == old(self).channel_id,
            final(self).prize == old(self).prize,
            final(self).completed == old(self).completed,
            final(self).winners@ == old(self).winners@,
    {
        if self.completed {
            return Err(GiveawayError::AlreadyEnded);
        }
        if seconds < 1 || self.start_time > i64::MAX - seconds {
            return Err(GiveawayError::InvalidDuration);
        }
        self.end_time = self.start_time + seconds;
        Ok(())
    }

    /// Sets the number of winners.
    pub fn edit_max_winners(&mut self, winners: i64) -> (r: Result<(), GiveawayError>)
        ensures
            r == Err::<(), GiveawayError>(GiveawayError::AlreadyEnded) <==> old(self).completed,
            r == Err::<(), GiveawayError>(GiveawayError::InvalidWinners) <==> (
            !old(self).completed && winners < 1),
            r is Ok <==> (!old(self).completed && winners >= 1),
            r is Ok ==> final(self).max_winners == winners,
            r is Err ==> final(self).max_winners == old(self).max_winners,
            old(self).wf() ==> final(self).wf(),
            final(self).start_time == old(self).start_time,
            final(self).end_time == old(self).end_time,
            final(self).id == old(self).id,
            final(self).message_id == old(self).message_id,
            final(self).channel_id == old(self).channel_id,
            final(self).prize == old(self).prize,
            final(self).completed == old(self).completed,
            final(self).winners@ == old(self).winners@,
    {
        if self.completed {
            return Err(GiveawayError::AlreadyEnded);
        }
        if winners < 1 {
            return Err(GiveawayError::InvalidWinners);
        }
        self.max_winners = winners;
        Ok(())
    }

    /// Applies an edit of the duration or of the winner count.
    pub fn edit(&mut self, field: EditField, new_value: i64) -> (r: Result<(), GiveawayError>)
        ensures
            r == Err::<(), GiveawayError>(GiveawayError::AlreadyEnded) <==> old(self).completed,
            field == EditField::Duration ==> (r is Ok <==> (!old(self).completed && 1 <= new_value
                && old(self).start_time + new_value <= i64::MAX)),
            field == EditField::Winners ==> (r is Ok <==> (!old(self).completed && new_value >= 1)),
            field == EditField::Duration && r is Ok ==> final(self).end_time == old(
                self,
            ).start_time + new_value && final(self).max_winners == old(self).max_winners,
            field == EditField::Winners && r is Ok ==> final(self).max_winners == new_value
                && final(self).end_time == old(self).end_time,
            field == EditField::Duration ==> (r == Err::<(), GiveawayError>(
                GiveawayError::InvalidDuration) <==> (!old(self).completed && (new_value < 1
                || old(self).start_time + new_value > i64::MAX))),
            field == EditField::Winners ==> (r == Err::<(), GiveawayError>(
                GiveawayError::InvalidWinners) <==> (!old(self).completed && new_value < 1)),
            r is Err ==> final(self).end_time == old(self).end_time && final(self).max_winners
                == old(self).max_winners,
            old(self).wf() ==> final(self).wf(),
            final(self).start_time == old(self).start_time,
            final(self).completed == old(self).completed,
            final(self).winners@ == old(self).winners@,
            final(self).prize == old(self).prize,
            final(self).id == old(self).id,
            final(self).message_id == old(self).message_id,
            final(self).channel_id == old(self).channel_id,
    {
        match field {
            EditField::Duration => self.edit_duration(new_value),
            EditField::Winners => self.edit_max_winners(new_value),
        }
    }

    /// Whether the sweep should end this giveaway at `now`.
    pub open spec fn spec_is_due(&self, now: i64) -> bool {
        !self.completed && self.end_time <= now
    }

    pub fn is_due(&self, now: i64) -> (r: bool)
        ensures
            r == self.spec_is_due(now),
    {
        !self.completed && self.end_time <= now
    }
}

/// The value of `start` when the command leaves it out.
pub const DEFAULT_DURATION: i64 = 3600;

/// The winner count when the command leaves it out.
pub const DEFAULT_WINNERS: i64 = 1;

/// The settings of a start command, with defaults for what it leaves out:
/// an hour, one winner, and the prize "Nothing :(".
pub fn start_settings(duration: Option<i64>, winners: Option<i64>, prize: Option<String>) -> (r: (
    i64,
    i64,
    String,
))
    ensures
        r.0 == (match duration {
            Some(d) => d,
            None => DEFAULT_DURATION,
        }),
        r.1 == (match winners {
            Some(w) => w,
            None => DEFAULT_WINNERS,
        }),
        prize matches Some(p) ==> r.2 == p,
        prize is None ==> r.2@ == "Nothing :("@,
{
    let d = match duration {
        Some(d) => d,
        None => DEFAULT_DURATION,
    };
    let w = match winners {
        Some(w) => w,
        None => DEFAULT_WINNERS,
    };
    let p = match prize {
        Some(p) => p,
        None => String::from_str("Nothing :("),
    };
    (d, w, p)
}

/// Position of the first giveaway with id `id` at or after `i`, or -1.
pub open spec fn giveaway_index(gs: Seq<Giveaway>, id: i64, i: int) -> int
    decreases gs.len() - i,
{
    if i < 0 || i >= gs.len() {
        -1
    } else if gs[i].id == id {
        i
    } else {
        giveaway_index(gs, id, i + 1)
    }
}

proof fn lemma_giveaway_index(gs: Seq<Giveaway>, id: i64, i: int)
    requires
        0 <= i,
    ensures
        giveaway_index(gs, id, i) == -1 || (i <= giveaway_index(gs, id, i) < gs.len()
            && gs[giveaway_index(gs, id, i)].id == id),
    decreases gs.len() - i,
{
    if i < gs.len() && gs[i].id != id {
        lemma_giveaway_index(gs, id, i + 1);
    }
}

/// Position of the giveaway with id `id`, if any.
pub fn find_giveaway(gs: &Vec<Giveaway>, id: i64) -> (r: Option<usize>)
    ensures
        r is None <==> giveaway_index(gs@, id, 0) == -1,
        r matches Some(k) ==> k == giveaway_index(gs@, id, 0) && k < gs@.len() && gs@[k as int].id
            == id,
{
    let mut i: usize = 0;
    while i < gs.len()
        invariant
            i <= gs@.len(),
            giveaway_index(gs@, id, 0) == giveaway_index(gs@, id, i as int),
        decreases gs@.len() - i,
    {
        if gs[i].id == id {
            return Some(i);
        }
        i = i + 1;
    }
    None
}

/// Ends the giveaway with id `id` (see `Giveaway::end`); an unknown id is
/// `NotFound`.
pub fn end_giveaway(gs: &mut Vec<Giveaway>, id: i64, candidates: &Vec<u64>) -> (r: Result<
    (),
    GiveawayError,
>)
    ensures
        final(gs)@.len() == old(gs)@.len(),
        giveaway_index(old(gs)@, id, 0) == -1 <==> r == Err::<(), GiveawayError>(
            GiveawayError::NotFound),
        giveaway_index(old(gs)@, id, 0) == -1 ==> final(gs)@ == old(gs)@,
        giveaway_index(old(gs)@, id, 0) != -1 ==> {
            let k = giveaway_index(old(gs)@, id, 0);
            let (before, after) = (old(gs)@[k], final(gs)@[k]);
            &&& forall|j: int| 0 <= j < old(gs)@.len() && j != k ==> final(gs)@[j] == old(gs)@[j]
            &&& after.same_settings(&before)
            &&& after.completed
            &&& before.completed <==> r == Err::<(), GiveawayError>(GiveawayError::AlreadyEnded)
            &&& before.completed ==> after.winners@ == before.winners@
            &&& !before.completed ==> r is Ok && is_draw(
                after.winners@,
                candidates@,
                draw_size(before.max_winners, candidates@.len()),
            )
        },
{
    match find_giveaway(gs, id) {
        None => Err(GiveawayError::NotFound),
        Some(k) => {
            let mut g = gs.remove(k);
            let r = g.end(candidates);
            gs.insert(k, g);
            proof {
                assert forall|j: int| 0 <= j < old(gs)@.len() && j != k implies gs@[j]
                    == old(gs)@[j] by {
                    if j < k {
                        assert(gs@[j] == old(gs)@[j]);
                    } else {
                        assert(gs@[j] == old(gs)@.remove(k as int)[j - 1]);
                    }
                }
            }
            r
        },
    }
}

/// Removes the giveaway with id `id` and returns it; an unknown id is
/// `NotFound` and removes nothing.
pub fn delete_giveaway(gs: &mut Vec<Giveaway>, id: i64) -> (r: Result<Giveaway, GiveawayError>)
    ensures
        giveaway_index(old(gs)@, id, 0) == -1 <==> r is Err,
        r is Err ==> r == Err::<Giveaway, GiveawayError>(GiveawayError::NotFound) && final(gs)@
            == old(gs)@,
        r matches Ok(g) ==> g.id == id && g == old(gs)@[giveaway_index(old(gs)@, id, 0)]
            && final(gs)@ == old(gs)@.remove(giveaway_index(old(gs)@, id, 0)),
{
    match find_giveaway(gs, id) {
        None => Err(GiveawayError::NotFound),
        Some(k) => Ok(gs.remove(k)),
    }
}

/// Positions, in order, of the giveaways among the first `n` that are due.
pub open spec fn due_prefix(gs: Seq<Giveaway>, now: i64, n: int) -> Seq<usize>
    decreases n,
{
    if n <= 0 {
        Seq::empty()
    } else {
        due_prefix(gs, now, n - 1) + if gs[n - 1].spec_is_due(now) {
            seq![(n - 1) as usize]
        } else {
            Seq::empty()
        }
    }
}

/// One sweep: the positions of the active giveaways whose end time has
/// come, in order. Each is then ended on its own, so one that fails does
/// not hold up the rest.
pub fn due_giveaways(giveaways: &Vec<Giveaway>, now: i64) -> (r: Vec<usize>)
    ensures
        r@ == due_prefix(giveaways@, now, giveaways@.len() as int),
        forall|k: int|
            0 <= k < giveaways@.len() ==> (r@.contains(k as usize) <==> #[trigger] giveaways@[k].spec_is_due(now)),
{
    let mut due: Vec<usize> = Vec::new();
    let mut i: usize = 0;
    while i < giveaways.len()
        invariant
            i <= giveaways@.len(),
            due@ == due_prefix(giveaways@, now, i as int),
        decreases giveaways@.len() - i,
    {
        if giveaways[i].is_due(now) {
            due.push(i);
        }
        i = i + 1;
    }
    proof {
        lemma_due_prefix_exact(giveaways@, now, giveaways@.len() as int);
    }
    due
}

/// A sweep over the first `n` giveaways picks exactly the due ones.
pub proof fn lemma_due_prefix_exact(gs: Seq<Giveaway>, now: i64, n: int)
    requires
        0 <= n <= gs.len(),
        gs.len() <= usize::MAX,
    ensures
        forall|j: int|
            0 <= j < due_prefix(gs, now, n).len() ==> #[trigger] due_prefix(gs, now, n)[j] < n,
        forall|k: int|
            0 <= k < n ==> (due_prefix(gs, now, n).contains(k as usize) <==> #[trigger] gs[k].spec_is_due(now)),
    decreases n,
{
    if n > 0 {
        lemma_due_prefix_exact(gs, now, n - 1);
        let s = due_prefix(gs, now, n - 1);
        let t = due_prefix(gs, now, n);
        if gs[n - 1].spec_is_due(now) {
            assert(t == s.push((n - 1) as usize));
            assert(t[s.len() as int] == (n - 1) as usize);
            assert forall|j: int| 0 <= j < t.len() implies #[trigger] t[j] < n by {
                if j < s.len() {
                    assert(t[j] == s[j]);
                }
            }
            assert forall|k: int| 0 <= k < n implies (t.contains(k as usize) <==> #[trigger] gs[k].spec_is_due(now)) by {
                if k < n - 1 {
                    if t.contains(k as usize) {
                        let j = choose|j: int| 0 <= j < t.len() && t[j] == k as usize;
                        if j < s.len() {
                            assert(t[j] == s[j]);
                        }
                    }
                    if s.contains(k as usize) {
                        let j = choose|j: int| 0 <= j < s.len() && s[j] == k as usize;
                        assert(t[j] == s[j]);
                    }
                }
            }
        } else {
            assert(t =~= s);
            assert forall|k: int| 0 <= k < n implies (t.contains(k as usize) <==> #[trigger] gs[k].spec_is_due(now)) by {
                if k == n - 1 && t.contains(k as usize) {
                    let j = choose|j: int| 0 <= j < t.len() && t[j] == k as usize;
                    assert(s[j] < n - 1);
                }
            }
        }
    }
}

} // verus!
