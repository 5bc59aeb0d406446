//! Text pieces of the moderation view: the list of moderators who voted for
//! an action, as mentions.

use vstd::prelude::*;
use vstd::string::{StrSliceExecFns, StringExecFns};

use crate::models::VotingAction;

verus! {

pub open spec fn digit_char(d: nat) -> char {
    if d == 0 {
        '0'
    } else if d == 1 {
        '1'
    } else if d == 2 {
        '2'
    } else if d == 3 {
        '3'
    } else if d == 4 {
        '4'
    } else if d == 5 {
        '5'
    } else if d == 6 {
        '6'
    } else if d == 7 {
        '7'
    } else if d == 8 {
        '8'
    } else {
        '9'
    }
}

/// Decimal digits of `n`, most significant first, without leading zeros.
pub open spec fn decimal(n: nat) -> Seq<char>
    decreases n,
{
    if n < 10 {
        seq![digit_char(n)]
    } else {
        decimal(n / 10) + seq![digit_char(n % 10)]
    }
}

/// A mention of a user on its own line: `\n<@id>`.
pub open spec fn mention(user: u64) -> Seq<char> {
    seq!['\n', '<', '@'] + decimal(user as nat) + seq!['>']
}

/// Mentions of the voters of the ballots of type `vote_type`, in order.
pub open spec fn mentions(actions: Seq<VotingAction>, vote_type: i32) -> Seq<char>
    decreases actions.len(),
{
    if actions.len() == 0 {
        Seq::empty()
    } else {
        mentions(actions.drop_last(), vote_type) + if actions.last().vote_type == vote_type {
            mention(actions.last().voter_user_id)
        } else {
            Seq::empty()
        }
    }
}

/// The voter list of an action: its mentions, or `-` when nobody voted.
pub open spec fn voter_list(actions: Seq<VotingAction>, vote_type: i32) -> Seq<char> {
    let m = mentions(actions, vote_type);
    if m.len() == 0 {
        seq!['-']
    } else {
        m
    }
}

fn digit_str(d: u64) -> (r: &'static str)
    requires
        d < 10,
    ensures
        r@ == seq![digit_char(d as nat)],
{
    let r = if d == 0 {
        "0"
    } else if d == 1 {
        "1"
    } else if d == 2 {
        "2"
    } else if d == 3 {
        "3"
    } else if d == 4 {
        "4"
    } else if d == 5 {
        "5"
    } else if d == 6 {
        "6"
    } else if d == 7 {
        "7"
    } else if d == 8 {
        "8"
    } else {
        "9"
    };
    proof {
        reveal_strlit("0");
        reveal_strlit("1");
        reveal_strlit("2");
        reveal_strlit("3");
        reveal_strlit("4");
        reveal_strlit("5");
        reveal_strlit("6");
        reveal_strlit("7");
        reveal_strlit("8");
        reveal_strlit("9");
        assert(r@ =~= seq![digit_char(d as nat)]);
    }
    r
}

/// Appends the decimal digits of `n`.
pub fn push_decimal(s: &mut String, n: u64)
    ensures
        final(s)@ == old(s)@ + decimal(n as nat),
    decreases n,
{
    if n >= 10 {
        push_decimal(s, n / 10);
    }
    s.append(digit_str(n % 10));
    proof {
        assert(s@ =~= old(s)@ + decimal(n as nat));
    }
}

/// The voters of the ballots of type `id`, one mention per line, or `-`
/// when there are none.
pub fn filter_votes(id: i32, actions: Vec<VotingAction>) -> (r: String)
    ensures
        r@ == voter_list(actions@, id),
{
    let mut out = String::new();
    let mut i: usize = 0;
    while i < actions.len()
        invariant
            i <= actions@.len(),
            out@ == mentions(actions@.subrange(0, i as int), id),
        decreases actions@.len() - i,
    {
        let a = actions[i];
        proof {
            assert(actions@.subrange(0, i + 1).drop_last() =~= actions@.subrange(0, i as int));
            reveal_strlit("\n<@");
            reveal_strlit(">");
        }
        if a.vote_type == id {
            out.append("\n<@");
            push_decimal(&mut out, a.voter_user_id);
            out.append(">");
        }
        i = i + 1;
        proof {
            assert(out@ =~= mentions(actions@.subrange(0, i as int), id));
        }
    }
    proof {
        assert(actions@.subrange(0, actions@.len() as int) =~= actions@);
    }
    if out.as_str().unicode_len() == 0 {
        proof {
            reveal_strlit("-");
        }
        let dash = String::from_str("-");
        proof {
            assert(dash@ =~= seq!['-']);
        }
        dash
    } else {
        out
    }
}

/// A mention without the leading line break: `<@id>`.
pub open spec fn inline_mention(user: u64) -> Seq<char> {
    seq!['<', '@'] + decimal(user as nat) + seq!['>']
}

/// Mentions of `winners` separated by `, `.
pub open spec fn joined_mentions(winners: Seq<u64>) -> Seq<char>
    decreases winners.len(),
{
    if winners.len() == 0 {
        Seq::empty()
    } else if winners.len() == 1 {
        inline_mention(winners[0])
    } else {
        joined_mentions(winners.drop_last()) + seq![',', ' '] + inline_mention(winners.last())
    }
}

/// How a draw is announced: the winners' mentions, or `Nobody...` when
/// nobody entered, so that an empty draw reads differently.
pub open spec fn winners_line(winners: Seq<u64>) -> Seq<char> {
    if winners.len() == 0 {
        seq!['N', 'o', 'b', 'o', 'd', 'y', '.', '.', '.']
    } else {
        joined_mentions(winners)
    }
}

/// The winners of a draw as announced.
pub fn winners_text(winners: &Vec<u64>) -> (r: String)
    ensures
        r@ == winners_line(winners@),
{
    if winners.len() == 0 {
        proof {
            reveal_strlit("Nobody...");
        }
        let r = String::from_str("Nobody...");
        proof {
            assert(r@ =~= winners_line(winners@));
        }
        return r;
    }
    let mut out = String::new();
    let mut i: usize = 0;
    while i < winners.len()
        invariant
            i <= winners@.len(),
            out@ == joined_mentions(winners@.subrange(0, i as int)),
        decreases winners@.len() - i,
    {
        proof {
            reveal_strlit(", ");
            reveal_strlit("<@");
            reveal_strlit(">");
            assert(winners@.subrange(0, i + 1).drop_last() =~= winners@.subrange(0, i as int));
        }
        if i > 0 {
            out.append(", ");
        }
        out.append("<@");
        push_decimal(&mut out, winners[i]);
        out.append(">");
        proof {
            let t = winners@.subrange(0, i + 1);
            if i == 0 {
                assert(t[0] == winners@[0]);
                assert(out@ =~= joined_mentions(t));
            } else {
                assert(t.last() == winners@[i as int]);
                assert(out@ =~= joined_mentions(t));
            }
        }
        i = i + 1;
    }
    proof {
        assert(winners@.subrange(0, winners@.len() as int) =~= winners@);
    }
    out
}

} // verus!
