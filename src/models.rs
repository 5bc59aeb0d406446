//! Plain records that the entity store keeps.

use vstd::prelude::*;

verus! {

/// A cast ballot as stored, with its row id.
#[derive(Clone, Copy, Debug, PartialEq, Eq, Structural)]
pub struct VotingAction {
    pub id: i32,
    pub vote_type: i32,
    pub voter_user_id: u64,
    pub voting_message_id: u64,
}

/// A ballot: one moderator's vote for one action on one report case.
#[derive(Clone, Copy, Debug, PartialEq, Eq, Structural)]
pub struct NewVotingAction {
    pub vote_type: i32,
    pub voter_user_id: u64,
    pub voting_message_id: u64,
}

/// A stored giveaway winner.
#[derive(Clone, Copy, Debug, PartialEq, Eq, Structural)]
pub struct GiveawayWinner {
    pub id: i64,
    pub giveaway_id: i64,
    pub user_id: u64,
    pub rerolled: bool,
}

/// A giveaway winner to be stored.
#[derive(Clone, Copy, Debug, PartialEq, Eq, Structural)]
pub struct NewGiveawayWinner {
    pub giveaway_id: i64,
    pub user_id: u64,
}

/// A member marked as silenced.
#[derive(Clone, Copy, Debug, PartialEq, Eq, Structural)]
pub struct SilencedMember {
    pub id: i32,
    pub user_id: u64,
}

/// A member to be marked as silenced.
#[derive(Clone, Copy, Debug, PartialEq, Eq, Structural)]
pub struct NewSilencedMember {
    pub user_id: u64,
}

/// One option of a poll, as stored.
#[derive(Clone, Debug)]
pub struct VoteEventOption {
    pub id: i32,
    pub vote_id: i32,
    pub option_number: i32,
    pub option_value: String,
}

/// One option of a poll, to be stored.
#[derive(Clone, Debug)]
pub struct NewVoteEventOption {
    pub vote_id: i32,
    pub option_number: i32,
    pub option_value: String,
}

/// A member's choice in a poll, as stored.
#[derive(Clone, Copy, Debug, PartialEq, Eq, Structural)]
pub struct Vote {
    pub id: i32,
    pub vote_id: i32,
    pub voter_id: u64,
    pub option_number: i32,
}

/// A member's choice in a poll, to be stored.
#[derive(Clone, Copy, Debug, PartialEq, Eq, Structural)]
pub struct NewVote {
    pub vote_id: i32,
    pub voter_id: u64,
    pub option_number: i32,
}

/// A registered mailbox.
#[derive(Clone, Debug)]
pub struct Mailbox {
    pub name: String,
    pub sub: String,
}

} // verus!
