//! Report cases: a flagged message put to a threshold vote among the
//! moderators who were online when it was reported. Three independent
//! tracks (delete the message, silence the suspect, block the reporter) each
//! count ballots and fire their side effect once, on the first crossing.

use vstd::prelude::*;
use vstd::string::StrSliceExecFns;

use crate::models::NewVotingAction;
use crate::text::str_eq;
use crate::thresholds::{
    capped_required, capped_votes_required, silence_required, silence_votes_required,
};

verus! {

/// The three actions a moderator can vote for.
#[derive(Clone, Copy, Debug, PartialEq, Eq, Structural)]
pub enum Action {
    DeleteMessage,
    SilenceSuspect,
    BlockReporter,
}

impl Action {
    /// The stored ballot type of the action.
    pub open spec fn spec_code(self) -> i32 {
        match self {
            Action::DeleteMessage => 0,
            Action::SilenceSuspect => 1,
            Action::BlockReporter => 2,
        }
    }

    pub fn code(&self) -> (r: i32)
        ensures
            r == self.spec_code(),
    {
        match self {
            Action::DeleteMessage => 0,
            Action::SilenceSuspect => 1,
            Action::BlockReporter => 2,
        }
    }

    /// The action behind a vote button of the moderation message.
    pub fn from_button_id(id: &str) -> (r: Option<Action>)
        ensures
            r == Some(Action::DeleteMessage) <==> id@ == "delete_button"@,
            r == Some(Action::SilenceSuspect) <==> id@ == "ban_button"@,
            r == Some(Action::BlockReporter) <==> id@ == "abuse_button"@,
    {
        proof {
            reveal_strlit("delete_button");
            reveal_strlit("ban_button");
            reveal_strlit("abuse_button");
            assert("delete_button"@.len() != "ban_button"@.len());
            assert("delete_button"@.len() != "abuse_button"@.len());
            assert("ban_button"@.len() != "abuse_button"@.len());
        }
        if str_eq(id, "delete_button") {
            Some(Action::DeleteMessage)
        } else if str_eq(id, "ban_button") {
            Some(Action::SilenceSuspect)
        } else if str_eq(id, "abuse_button") {
            Some(Action::BlockReporter)
        } else {
            None
        }
    }

    /// The action stored under a ballot type, if any.
    pub fn from_code(code: i32) -> (r: Option<Action>)
        ensures
            r.is_none() <==> !(0 <= code <= 2),
            r matches Some(a) ==> a.spec_code() == code,
    {
        if code == 0 {
            Some(Action::DeleteMessage)
        } else if code == 1 {
            Some(Action::SilenceSuspect)
        } else if code == 2 {
            Some(Action::BlockReporter)
        } else {
            None
        }
    }
}

/// Counter, threshold and one-shot flag of one action on one case.
#[derive(Clone, Copy, Debug, PartialEq, Eq, Structural)]
pub struct Track {
    pub votes: u32,
    pub required: u32,
    pub fired: bool,
}

impl Track {
    /// Counts never pass the required count, and an action that has not
    /// fired has not reached it (a required count of zero is reached by the
    /// first vote, which fires it without raising the count).
    pub open spec fn wf(self) -> bool {
        &&& self.votes <= self.required
        &&& !self.fired ==> (self.votes < self.required || self.required == 0)
        &&& self.required == 0 ==> self.votes == 0
    }

    pub open spec fn fresh(required: u32) -> Track {
        Track { votes: 0, required, fired: false }
    }
}

/// What a cast or a retraction did to the tally.
#[derive(Clone, Copy, Debug, PartialEq, Eq, Structural)]
pub enum VoteResult {
    /// Nothing was counted or uncounted.
    NoOp,
    /// The action's counter now stands at the first number; the second is
    /// the required count.
    Counted(u32, u32),
}

/// Roles that the bot grants as a case's side effects.
#[derive(Clone, Copy, Debug, PartialEq, Eq, Structural)]
pub enum Role {
    Silenced,
    NoReports,
}

/// A request to the presentation and role layer.
#[derive(Clone, Copy, Debug, PartialEq, Eq, Structural)]
pub enum Effect {
    DeleteMessage { channel_id: u64, message_id: u64 },
    GrantRole { user_id: u64, role: Role },
    RenderCaseUpdate { case_id: u64 },
}

/// One entry of the suspect message's history; an empty content records
/// that the message was removed.
#[derive(Clone, Debug)]
pub struct SuspectMessageEdit {
    pub voting_message_id: u64,
    pub suspect_message_id: u64,
    pub new_content: String,
    pub edit_time: i64,
}

pub open spec fn same_key(b: NewVotingAction, voter: u64, code: i32) -> bool {
    b.voter_user_id == voter && b.vote_type == code
}

/// Position of the first ballot at or after `i` by `voter` for `code`, or -1.
pub open spec fn ballot_index(s: Seq<NewVotingAction>, voter: u64, code: i32, i: int) -> int
    decreases s.len() - i,
{
    if i < 0 || i >= s.len() {
        -1
    } else if same_key(s[i], voter, code) {
        i
    } else {
        ballot_index(s, voter, code, i + 1)
    }
}

pub proof fn lemma_ballot_index(s: Seq<NewVotingAction>, voter: u64, code: i32, i: int)
    requires
        0 <= i,
    ensures
        ballot_index(s, voter, code, i) == -1 ==> forall|j: int|
            i <= j < s.len() ==> !same_key(#[trigger] s[j], voter, code),
        ballot_index(s, voter, code, i) != -1 ==> {
            let k = ballot_index(s, voter, code, i);
            &&& i <= k < s.len()
            &&& same_key(s[k], voter, code)
        },
    decreases s.len() - i,
{
    if i < s.len() && !same_key(s[i], voter, code) {
        lemma_ballot_index(s, voter, code, i + 1);
    }
}

/// The ballots and counters of one case: what votes change.
pub struct Tally {
    pub case_id: u64,
    pub ballots: Seq<NewVotingAction>,
    pub delete: Track,
    pub silence: Track,
    pub block_reporter: Track,
}

impl Tally {
    pub open spec fn track(self, a: Action) -> Track {
        match a {
            Action::DeleteMessage => self.delete,
            Action::SilenceSuspect => self.silence,
            Action::BlockReporter => self.block_reporter,
        }
    }

    pub open spec fn with_track(self, a: Action, t: Track) -> Tally {
        match a {
            Action::DeleteMessage => Tally { delete: t, ..self },
            Action::SilenceSuspect => Tally { silence: t, ..self },
            Action::BlockReporter => Tally { block_reporter: t, ..self },
        }
    }

    pub open spec fn has_ballot(self, voter: u64, a: Action) -> bool {
        ballot_index(self.ballots, voter, a.spec_code(), 0) != -1
    }

    /// At most one ballot per moderator and action, every ballot belongs
    /// to this case and names an action, and every track is consistent.
    pub open spec fn wf(self) -> bool {
        &&& self.delete.wf()
        &&& self.silence.wf()
        &&& self.block_reporter.wf()
        &&& forall|i: int, j: int|
            0 <= i < j < self.ballots.len() ==> !same_key(
                #[trigger] self.ballots[j],
                #[trigger] self.ballots[i].voter_user_id,
                self.ballots[i].vote_type,
            )
        &&& forall|i: int|
            0 <= i < self.ballots.len() ==> {
                &&& (#[trigger] self.ballots[i]).voting_message_id == self.case_id
                &&& 0 <= self.ballots[i].vote_type <= 2
            }
    }

    /// Casting a ballot. A repeated ballot changes nothing. A new ballot is
    /// always recorded; it is counted only while the action has not fired,
    /// and the action fires when the count reaches the required count. With
    /// nothing required, the first counted ballot fires the action and the
    /// count stays at zero.
    pub open spec fn cast(self, voter: u64, a: Action) -> (Tally, VoteResult) {
        if self.has_ballot(voter, a) {
            (self, VoteResult::NoOp)
        } else {
            let ballot = NewVotingAction {
                vote_type: a.spec_code(),
                voter_user_id: voter,
                voting_message_id: self.case_id,
            };
            let recorded = Tally { ballots: self.ballots.push(ballot), ..self };
            let t = self.track(a);
            if t.fired {
                (recorded, VoteResult::NoOp)
            } else {
                let n = if t.required == 0 {
                    0u32
                } else {
                    (t.votes + 1) as u32
                };
                let t2 = Track { votes: n, required: t.required, fired: n >= t.required };
                (recorded.with_track(a, t2), VoteResult::Counted(n, t.required))
            }
        }
    }

    /// Retracting a ballot. Without one nothing changes; otherwise it is
    /// removed and the counter drops by one, never below zero. A fired
    /// action stays fired.
    pub open spec fn retract(self, voter: u64, a: Action) -> (Tally, VoteResult) {
        let k = ballot_index(self.ballots, voter, a.spec_code(), 0);
        if k == -1 {
            (self, VoteResult::NoOp)
        } else {
            let t = self.track(a);
            let n = if t.votes > 0 {
                (t.votes - 1) as u32
            } else {
                0u32
            };
            let t2 = Track { votes: n, ..t };
            (
                Tally { ballots: self.ballots.remove(k), ..self }.with_track(a, t2),
                VoteResult::Counted(n, t.required),
            )
        }
    }

    /// Whether the step from `self` to `next` fired the action.
    pub open spec fn fires(self, next: Tally, a: Action) -> bool {
        !self.track(a).fired && next.track(a).fired
    }
}

/// One cast (`cast == true`) or retraction of a ballot.
#[derive(Clone, Copy, Debug, PartialEq, Eq, Structural)]
pub struct BallotOp {
    pub voter: u64,
    pub action: Action,
    pub cast: bool,
}

pub open spec fn step(t: Tally, op: BallotOp) -> Tally {
    if op.cast {
        t.cast(op.voter, op.action).0
    } else {
        t.retract(op.voter, op.action).0
    }
}

/// The tally after a sequence of operations.
pub open spec fn run(t: Tally, ops: Seq<BallotOp>) -> Tally
    decreases ops.len(),
{
    if ops.len() == 0 {
        t
    } else {
        run(step(t, ops[0]), ops.drop_first())
    }
}

/// How many steps of `ops` fire action `a`.
pub open spec fn firings(t: Tally, ops: Seq<BallotOp>, a: Action) -> nat
    decreases ops.len(),
{
    if ops.len() == 0 {
        0
    } else {
        let next = step(t, ops[0]);
        (if t.fires(next, a) {
            1nat
        } else {
            0nat
        }) + firings(next, ops.drop_first(), a)
    }
}

proof fn lemma_step_keeps_fired(t: Tally, op: BallotOp, a: Action)
    requires
        t.track(a).fired,
    ensures
        step(t, op).track(a).fired,
{
}

proof fn lemma_fired_stays_silent(t: Tally, ops: Seq<BallotOp>, a: Action)
    requires
        t.track(a).fired,
    ensures
        firings(t, ops, a) == 0,
        run(t, ops).track(a).fired,
    decreases ops.len(),
{
    if ops.len() > 0 {
        lemma_step_keeps_fired(t, ops[0], a);
        lemma_fired_stays_silent(step(t, ops[0]), ops.drop_first(), a);
    }
}

/// Whatever sequence of casts and retractions reaches an action's
/// threshold, however often, its side effect fires at most once, and not at
/// all if it had already fired.
pub proof fn lemma_fires_at_most_once(t: Tally, ops: Seq<BallotOp>, a: Action)
    ensures
        firings(t, ops, a) <= 1,
        t.track(a).fired ==> firings(t, ops, a) == 0,
    decreases ops.len(),
{
    if t.track(a).fired {
        lemma_fired_stays_silent(t, ops, a);
    } else if ops.len() > 0 {
        let next = step(t, ops[0]);
        lemma_fires_at_most_once(next, ops.drop_first(), a);
    }
}

/// Casting the same ballot twice records exactly one ballot: the second
/// cast is a no-op that changes nothing, and the first is counted unless
/// the ballot was already there or the action had already fired.
pub proof fn lemma_cast_twice(t: Tally, voter: u64, a: Action)
    requires
        t.wf(),
    ensures
        ({
            let (t1, r1) = t.cast(voter, a);
            let (t2, r2) = t1.cast(voter, a);
            &&& r2 == VoteResult::NoOp
            &&& t2 == t1
            &&& t2.wf()
            &&& t2.has_ballot(voter, a)
            &&& (!t.has_ballot(voter, a) && !t.track(a).fired) ==> r1 is Counted
        }),
{
    lemma_cast_wf(t, voter, a);
    let (t1, r1) = t.cast(voter, a);
    lemma_ballot_index(t1.ballots, voter, a.spec_code(), 0);
    if !t.has_ballot(voter, a) {
        let last = t1.ballots.len() - 1;
        assert(same_key(t1.ballots[last], voter, a.spec_code()));
    }
}

/// The cast that brings a count one short of its required count up to it
/// is counted as `Counted(required, required)`, records the ballot, and
/// fires the action; a cast after that records the ballot and is a no-op.
pub proof fn lemma_crossing_cast(t: Tally, voter: u64, a: Action, later: u64)
    requires
        t.wf(),
        !t.track(a).fired,
        t.track(a).required > 0,
        t.track(a).votes + 1 == t.track(a).required,
        !t.has_ballot(voter, a),
        later != voter,
        !t.has_ballot(later, a),
    ensures
        ({
            let (t1, r1) = t.cast(voter, a);
            let (t2, r2) = t1.cast(later, a);
            &&& r1 == VoteResult::Counted(t.track(a).required, t.track(a).required)
            &&& t.fires(t1, a)
            &&& t1.track(a).votes == t.track(a).required
            &&& t1.ballots == t.ballots.push(
                NewVotingAction {
                    vote_type: a.spec_code(),
                    voter_user_id: voter,
                    voting_message_id: t.case_id,
                },
            )
            &&& r2 == VoteResult::NoOp
            &&& !t1.fires(t2, a)
            &&& t2.track(a) == t1.track(a)
            &&& t2.ballots.len() == t1.ballots.len() + 1
        }),
{
    let (t1, r1) = t.cast(voter, a);
    lemma_ballot_index(t.ballots, later, a.spec_code(), 0);
    lemma_ballot_index(t1.ballots, later, a.spec_code(), 0);
    if t1.has_ballot(later, a) {
        let k = ballot_index(t1.ballots, later, a.spec_code(), 0);
        if k < t.ballots.len() {
            assert(t1.ballots[k] == t.ballots[k]);
        }
    }
}

proof fn lemma_cast_wf(t: Tally, voter: u64, a: Action)
    requires
        t.wf(),
    ensures
        t.cast(voter, a).0.wf(),
        t.cast(voter, a).0.case_id == t.case_id,
{
    lemma_ballot_index(t.ballots, voter, a.spec_code(), 0);
    let t1 = t.cast(voter, a).0;
    if !t.has_ballot(voter, a) {
        assert forall|i: int, j: int| 0 <= i < j < t1.ballots.len() implies !same_key(
            #[trigger] t1.ballots[j],
            #[trigger] t1.ballots[i].voter_user_id,
            t1.ballots[i].vote_type,
        ) by {
            if j == t.ballots.len() {
                assert(!same_key(t.ballots[i], voter, a.spec_code()));
            }
        }
    }
}

proof fn lemma_retract_wf(t: Tally, voter: u64, a: Action)
    requires
        t.wf(),
    ensures
        t.retract(voter, a).0.wf(),
        !t.retract(voter, a).0.has_ballot(voter, a),
{
    let k = ballot_index(t.ballots, voter, a.spec_code(), 0);
    lemma_ballot_index(t.ballots, voter, a.spec_code(), 0);
    let t1 = t.retract(voter, a).0;
    lemma_ballot_index(t1.ballots, voter, a.spec_code(), 0);
    if k != -1 {
        let s = t.ballots;
        let s1 = t1.ballots;
        assert(s1 == s.remove(k));
        assert forall|i: int| 0 <= i < s1.len() implies !same_key(
            #[trigger] s1[i],
            voter,
            a.spec_code(),
        ) by {
            if i < k {
                assert(s1[i] == s[i]);
            } else {
                assert(s1[i] == s[i + 1]);
            }
        }
        assert forall|i: int, j: int| 0 <= i < j < s1.len() implies !same_key(
            #[trigger] s1[j],
            #[trigger] s1[i].voter_user_id,
            s1[i].vote_type,
        ) by {
            let oi = if i < k {
                i
            } else {
                i + 1
            };
            let oj = if j < k {
                j
            } else {
                j + 1
            };
            assert(s1[i] == s[oi]);
            assert(s1[j] == s[oj]);
        }
        assert forall|i: int| 0 <= i < s1.len() implies {
            &&& (#[trigger] s1[i]).voting_message_id == t.case_id
            &&& 0 <= s1[i].vote_type <= 2
        } by {
            if i < k {
                assert(s1[i] == s[i]);
            } else {
                assert(s1[i] == s[i + 1]);
            }
        }
    }
}

/// A report case: one flagged message under moderator review.
pub struct CouncilVoting {
    pub vote_message_id: u64,
    pub suspect_id: u64,
    pub suspect_message_id: u64,
    pub suspect_message_channel_id: u64,
    pub suspect_message_send_time: i64,
    pub suspect_message_content: String,
    pub reporter_id: u64,
    pub moderators_online: u32,
    pub delete: Track,
    pub silence: Track,
    pub block_reporter: Track,
    pub ballots: Vec<NewVotingAction>,
    pub edits: Vec<SuspectMessageEdit>,
}

/// The side effect of an action on a case.
pub open spec fn action_effect(c: &CouncilVoting, a: Action) -> Effect {
    match a {
        Action::DeleteMessage => Effect::DeleteMessage {
            channel_id: c.suspect_message_channel_id,
            message_id: c.suspect_message_id,
        },
        Action::SilenceSuspect => Effect::GrantRole { user_id: c.suspect_id, role: Role::Silenced },
        Action::BlockReporter => Effect::GrantRole { user_id: c.reporter_id, role: Role::NoReports },
    }
}

/// Effects of a cast: nothing for a no-op; otherwise a re-render, preceded
/// by the action's side effect when this cast fired it.
pub open spec fn cast_effects(c: &CouncilVoting, a: Action, fired: bool, r: VoteResult) -> Seq<
    Effect,
> {
    match r {
        VoteResult::NoOp => Seq::empty(),
        VoteResult::Counted(_, _) => if fired {
            seq![action_effect(c, a), Effect::RenderCaseUpdate { case_id: c.vote_message_id }]
        } else {
            seq![Effect::RenderCaseUpdate { case_id: c.vote_message_id }]
        },
    }
}

impl CouncilVoting {
    pub open spec fn tally(&self) -> Tally {
        Tally {
            case_id: self.vote_message_id,
            ballots: self.ballots@,
            delete: self.delete,
            silence: self.silence,
            block_reporter: self.block_reporter,
        }
    }

    /// Thresholds are those of the moderator count, and the tally is
    /// consistent.
    pub open spec fn wf(&self) -> bool {
        &&& self.tally().wf()
        &&& self.delete.required == capped_required(self.moderators_online as nat)
        &&& self.silence.required == silence_required(self.moderators_online as nat)
        &&& self.block_reporter.required == capped_required(self.moderators_online as nat)
    }

    /// Everything but the tally is as in `other`.
    pub open spec fn same_report(&self, other: &CouncilVoting) -> bool {
        &&& self.same_details(other)
        &&& self.edits@ == other.edits@
    }

    /// The report's identity, parties, message and moderator count are as
    /// in `other`.
    pub open spec fn same_details(&self, other: &CouncilVoting) -> bool {
        &&& self.vote_message_id == other.vote_message_id
        &&& self.suspect_id == other.suspect_id
        &&& self.suspect_message_id == other.suspect_message_id
        &&& self.suspect_message_channel_id == other.suspect_message_channel_id
        &&& self.suspect_message_send_time == other.suspect_message_send_time
        &&& self.suspect_message_content == other.suspect_message_content
        &&& self.reporter_id == other.reporter_id
        &&& self.moderators_online == other.moderators_online
    }

    /// Opens a case with no ballots, no history, and thresholds computed
    /// once from the moderators online now.
    pub fn new(
        vote_message_id: u64,
        suspect_id: u64,
        suspect_message_id: u64,
        suspect_message_channel_id: u64,
        suspect_message_send_time: i64,
        suspect_message_content: String,
        reporter_id: u64,
        moderators_online: u32,
    ) -> (r: CouncilVoting)
        ensures
            r.wf(),
            r.vote_message_id == vote_message_id,
            r.suspect_id == suspect_id,
            r.suspect_message_id == suspect_message_id,
            r.suspect_message_channel_id == suspect_message_channel_id,
            r.suspect_message_send_time == suspect_message_send_time,
            r.suspect_message_content == suspect_message_content,
            r.reporter_id == reporter_id,
            r.moderators_online == moderators_online,
            r.delete == Track::fresh(capped_required(moderators_online as nat) as u32),
            r.silence == Track::fresh(silence_required(moderators_online as nat) as u32),
            r.block_reporter == Track::fresh(capped_required(moderators_online as nat) as u32),
            r.ballots@ == Seq::<NewVotingAction>::empty(),
            r.edits@ == Seq::<SuspectMessageEdit>::empty(),
    {
        let capped = capped_votes_required(moderators_online);
        let silence = silence_votes_required(moderators_online);
        CouncilVoting {
            vote_message_id,
            suspect_id,
            suspect_message_id,
            suspect_message_channel_id,
            suspect_message_send_time,
            suspect_message_content,
            reporter_id,
            moderators_online,
            delete: Track { votes: 0, required: capped, fired: false },
            silence: Track { votes: 0, required: silence, fired: false },
            block_reporter: Track { votes: 0, required: capped, fired: false },
            ballots: Vec::new(),
            edits: Vec::new(),
        }
    }

    pub fn track(&self, a: Action) -> (r: Track)
        ensures
            r == self.tally().track(a),
    {
        match a {
            Action::DeleteMessage => self.delete,
            Action::SilenceSuspect => self.silence,
            Action::BlockReporter => self.block_reporter,
        }
    }

    fn set_track(&mut self, a: Action, t: Track)
        ensures
            final(self).tally() == old(self).tally().with_track(a, t),
            final(self).same_report(old(self)),
    {
        match a {
            Action::DeleteMessage => self.delete = t,
            Action::SilenceSuspect => self.silence = t,
            Action::BlockReporter => self.block_reporter = t,
        }
    }

    /// Position of the ballot of `voter` for `a`, if there is one.
    pub fn find_ballot(&self, voter: u64, a: Action) -> (r: Option<usize>)
        ensures
            r is None <==> ballot_index(self.ballots@, voter, a.spec_code(), 0) == -1,
            r matches Some(k) ==> k == ballot_index(self.ballots@, voter, a.spec_code(), 0),
    {
        let code = a.code();
        let mut i: usize = 0;
        while i < self.ballots.len()
            invariant
                i <= self.ballots@.len(),
                code == a.spec_code(),
                ballot_index(self.ballots@, voter, code, 0) == ballot_index(
                    self.ballots@,
                    voter,
                    code,
                    i as int,
                ),
            decreases self.ballots@.len() - i,
        {
            let b = self.ballots[i];
            if b.voter_user_id == voter && b.vote_type == code {
                return Some(i);
            }
            i = i + 1;
        }
        None
    }

    /// Casts `voter`'s ballot for `a` (see `Tally::cast`).
    pub fn cast_vote(&mut self, voter: u64, a: Action) -> (r: VoteResult)
        requires
            old(self).wf(),
        ensures
            final(self).wf(),
            final(self).same_report(old(self)),
            (final(self).tally(), r) == old(self).tally().cast(voter, a),
    {
        proof {
            lemma_cast_wf(self.tally(), voter, a);
        }
        if self.find_ballot(voter, a).is_some() {
            return VoteResult::NoOp;
        }
        let ballot = NewVotingAction {
            vote_type: a.code(),
            voter_user_id: voter,
            voting_message_id: self.vote_message_id,
        };
        self.ballots.push(ballot);
        let t = self.track(a);
        if t.fired {
            return VoteResult::NoOp;
        }
        let n = if t.required == 0 {
            0
        } else {
            t.votes + 1
        };
        self.set_track(a, Track { votes: n, required: t.required, fired: n >= t.required });
        VoteResult::Counted(n, t.required)
    }

    /// Retracts `voter`'s ballot for `a` (see `Tally::retract`).
    pub fn retract_vote(&mut self, voter: u64, a: Action) -> (r: VoteResult)
        requires
            old(self).wf(),
        ensures
            final(self).wf(),
            final(self).same_report(old(self)),
            (final(self).tally(), r) == old(self).tally().retract(voter, a),
            !final(self).tally().has_ballot(voter, a),
    {
        proof {
            lemma_retract_wf(self.tally(), voter, a);
            lemma_ballot_index(self.ballots@, voter, a.spec_code(), 0);
        }
        match self.find_ballot(voter, a) {
            None => VoteResult::NoOp,
            Some(k) => {
                self.ballots.remove(k);
                let t = self.track(a);
                let n = if t.votes > 0 {
                    t.votes - 1
                } else {
                    0
                };
                self.set_track(a, Track { votes: n, ..t });
                VoteResult::Counted(n, t.required)
            },
        }
    }

    /// Handles a moderator's vote button: casts the ballot and returns the
    /// effects to run. The action's side effect is returned only by the cast
    /// that fires it, so it runs at most once per case.
    pub fn handle_vote(&mut self, voter: u64, a: Action) -> (effects: Vec<Effect>)
        requires
            old(self).wf(),
        ensures
            final(self).wf(),
            final(self).same_report(old(self)),
            final(self).tally() == old(self).tally().cast(voter, a).0,
            effects@ == cast_effects(
                old(self),
                a,
                old(self).tally().fires(final(self).tally(), a),
                old(self).tally().cast(voter, a).1,
            ),
    {
        let was_fired = self.track(a).fired;
        let r = self.cast_vote(voter, a);
        let mut effects: Vec<Effect> = Vec::new();
        match r {
            VoteResult::NoOp => {},
            VoteResult::Counted(_, _) => {
                if !was_fired && self.track(a).fired {
                    effects.push(self.effect_of(a));
                }
                effects.push(Effect::RenderCaseUpdate { case_id: self.vote_message_id });
            },
        }
        effects
    }

    /// The side effect of `a` on this case.
    pub fn effect_of(&self, a: Action) -> (r: Effect)
        ensures
            r == action_effect(self, a),
    {
        match a {
            Action::DeleteMessage => Effect::DeleteMessage {
                channel_id: self.suspect_message_channel_id,
                message_id: self.suspect_message_id,
            },
            Action::SilenceSuspect => Effect::GrantRole {
                user_id: self.suspect_id,
                role: Role::Silenced,
            },
            Action::BlockReporter => Effect::GrantRole {
                user_id: self.reporter_id,
                role: Role::NoReports,
            },
        }
    }

    /// Records an edit of the suspect message.
    pub fn handle_edit(&mut self, new_content: String, edit_time: i64)
        requires
            old(self).wf(),
        ensures
            final(self).wf(),
            final(self).same_details(old(self)),
            final(self).tally() == old(self).tally(),
            final(self).edits@ == old(self).edits@.push(
                SuspectMessageEdit {
                    voting_message_id: old(self).vote_message_id,
                    suspect_message_id: old(self).suspect_message_id,
                    new_content,
                    edit_time,
                },
            ),
    {
        let e = SuspectMessageEdit {
            voting_message_id: self.vote_message_id,
            suspect_message_id: self.suspect_message_id,
            new_content,
            edit_time,
        };
        self.edits.push(e);
    }

    /// Records that the suspect message was removed: an entry with empty
    /// content.
    pub fn handle_delete(&mut self, delete_time: i64)
        requires
            old(self).wf(),
        ensures
            final(self).wf(),
            final(self).same_details(old(self)),
            final(self).tally() == old(self).tally(),
            final(self).edits@.len() == old(self).edits@.len() + 1,
            final(self).edits@.drop_last() == old(self).edits@,
            final(self).edits@.last().new_content@ == Seq::<char>::empty(),
            final(self).edits@.last().edit_time == delete_time,
            final(self).edits@.last().voting_message_id == old(self).vote_message_id,
            final(self).edits@.last().suspect_message_id == old(self).suspect_message_id,
    {
        let e = SuspectMessageEdit {
            voting_message_id: self.vote_message_id,
            suspect_message_id: self.suspect_message_id,
            new_content: String::new(),
            edit_time: delete_time,
        };
        self.edits.push(e);
        proof {
            assert(self.edits@.drop_last() =~= old(self).edits@);
        }
    }

    pub open spec fn spec_message_removed(&self) -> bool {
        self.edits@.len() > 0 && self.edits@.last().new_content@.len() == 0
    }

    /// Whether the latest history entry records the message's removal.
    pub fn message_removed(&self) -> (r: bool)
        ensures
            r == self.spec_message_removed(),
    {
        let n = self.edits.len();
        if n == 0 {
            false
        } else {
            self.edits[n - 1].new_content.as_str().unicode_len() == 0
        }
    }

    /// The delete button is disabled once the action fired or the message
    /// is gone.
    pub fn delete_button_disabled(&self) -> (r: bool)
        ensures
            r == (self.delete.fired || self.spec_message_removed()),
    {
        self.delete.fired || self.message_removed()
    }

    /// The silence button is disabled once the action fired.
    pub fn silence_button_disabled(&self) -> (r: bool)
        ensures
            r == self.silence.fired,
    {
        self.silence.fired
    }

    /// The block-reporter button is disabled once the action fired.
    pub fn block_button_disabled(&self) -> (r: bool)
        ensures
            r == self.block_reporter.fired,
    {
        self.block_reporter.fired
    }
}

/// Position of the first case at or after `i` about message `message_id`,
/// or -1.
pub open spec fn case_index(cases: Seq<CouncilVoting>, message_id: u64, i: int) -> int
    decreases cases.len() - i,
{
    if i < 0 || i >= cases.len() {
        -1
    } else if cases[i].suspect_message_id == message_id {
        i
    } else {
        case_index(cases, message_id, i + 1)
    }
}

proof fn lemma_case_index(cases: Seq<CouncilVoting>, message_id: u64, i: int)
    requires
        0 <= i,
    ensures
        case_index(cases, message_id, i) == -1 ==> forall|j: int|
            i <= j < cases.len() ==> (#[trigger] cases[j]).suspect_message_id != message_id,
        case_index(cases, message_id, i) != -1 ==> i <= case_index(cases, message_id, i)
            < cases.len() && cases[case_index(cases, message_id, i)].suspect_message_id
            == message_id,
    decreases cases.len() - i,
{
    if i < cases.len() && cases[i].suspect_message_id != message_id {
        lemma_case_index(cases, message_id, i + 1);
    }
}

/// Position of the case about message `message_id`, if it was reported.
pub fn case_for_message(cases: &Vec<CouncilVoting>, message_id: u64) -> (r: Option<usize>)
    ensures
        r is None <==> case_index(cases@, message_id, 0) == -1,
        r matches Some(k) ==> k == case_index(cases@, message_id, 0),
{
    let mut i: usize = 0;
    while i < cases.len()
        invariant
            i <= cases@.len(),
            case_index(cases@, message_id, 0) == case_index(cases@, message_id, i as int),
        decreases cases@.len() - i,
    {
        if cases[i].suspect_message_id == message_id {
            return Some(i);
        }
        i = i + 1;
    }
    None
}

/// Whether some case is about message `message_id`.
pub fn is_reported(cases: &Vec<CouncilVoting>, message_id: u64) -> (r: bool)
    ensures
        r == exists|j: int| 0 <= j < cases@.len() && (#[trigger] cases@[j]).suspect_message_id == message_id,
{
    proof {
        lemma_case_index(cases@, message_id, 0);
    }
    case_for_message(cases, message_id).is_some()
}

/// What a report command leads to.
#[derive(Clone, Copy, Debug, PartialEq, Eq, Structural)]
pub enum ReportOutcome {
    /// The reporter is barred from reporting; nothing is filed.
    ReporterBlocked,
    /// The message already has a case; nothing new is filed.
    AlreadyReported,
    /// A new case is to be opened.
    Open,
}

/// Decides a report from what is known of it: a barred reporter is refused
/// first, then a message that already has a case is skipped, and otherwise
/// a case is opened.
pub fn decide_report(reporter_blocked: bool, already_reported: bool) -> (r: ReportOutcome)
    ensures
        r == (if reporter_blocked {
            ReportOutcome::ReporterBlocked
        } else if already_reported {
            ReportOutcome::AlreadyReported
        } else {
            ReportOutcome::Open
        }),
{
    if reporter_blocked {
        ReportOutcome::ReporterBlocked
    } else if already_reported {
        ReportOutcome::AlreadyReported
    } else {
        ReportOutcome::Open
    }
}

/// Decides a report against the open cases (see `decide_report`).
pub fn report_outcome(cases: &Vec<CouncilVoting>, reporter_blocked: bool, message_id: u64) -> (r:
    ReportOutcome)
    ensures
        reporter_blocked ==> r == ReportOutcome::ReporterBlocked,
        !reporter_blocked ==> (r == ReportOutcome::AlreadyReported <==> exists|j: int|
            0 <= j < cases@.len() && (#[trigger] cases@[j]).suspect_message_id == message_id),
        !reporter_blocked ==> r != ReportOutcome::ReporterBlocked,
{
    let already = if reporter_blocked {
        false
    } else {
        is_reported(cases, message_id)
    };
    decide_report(reporter_blocked, already)
}

} // verus!
