//! Member polls: one choice per member, counted per option, open for a
//! fixed number of seconds.

use vstd::prelude::*;
use vstd::string::{StrSliceExecFns, StringExecFns};

use crate::models::{NewVote, Vote, VoteEventOption};
use crate::text::{digits_value, is_digit, parse_digits, str_eq};

verus! {

/// How many of `votes` chose option `option_number`.
pub open spec fn votes_for(votes: Seq<Vote>, option_number: i32) -> nat
    decreases votes.len(),
{
    if votes.len() == 0 {
        0
    } else {
        votes_for(votes.drop_last(), option_number) + if votes.last().option_number
            == option_number {
            1nat
        } else {
            0nat
        }
    }
}

proof fn lemma_votes_for_bound(votes: Seq<Vote>, option_number: i32)
    ensures
        votes_for(votes, option_number) <= votes.len(),
    decreases votes.len(),
{
    if votes.len() > 0 {
        lemma_votes_for_bound(votes.drop_last(), option_number);
    }
}

/// Number of votes that chose one option.
pub fn count_votes(votes: &Vec<Vote>, option_number: i32) -> (r: usize)
    ensures
        r == votes_for(votes@, option_number),
{
    let mut n: usize = 0;
    let mut i: usize = 0;
    while i < votes.len()
        invariant
            i <= votes@.len(),
            n == votes_for(votes@.subrange(0, i as int), option_number),
        decreases votes@.len() - i,
    {
        proof {
            assert(votes@.subrange(0, i + 1).drop_last() =~= votes@.subrange(0, i as int));
            lemma_votes_for_bound(votes@.subrange(0, i as int), option_number);
        }
        if votes[i].option_number == option_number {
            n = n + 1;
        }
        i = i + 1;
    }
    proof {
        assert(votes@.subrange(0, votes@.len() as int) =~= votes@);
    }
    n
}

/// The vote count of each option, in the order the options are given.
pub fn tally_options(options: &Vec<VoteEventOption>, votes: &Vec<Vote>) -> (r: Vec<usize>)
    ensures
        r@.len() == options@.len(),
        forall|k: int|
            0 <= k < options@.len() ==> r@[k] == votes_for(votes@, #[trigger] options@[k].option_number),
{
    let mut counts: Vec<usize> = Vec::new();
    let mut i: usize = 0;
    while i < options.len()
        invariant
            i <= options@.len(),
            counts@.len() == i,
            forall|k: int|
                0 <= k < i ==> counts@[k] == votes_for(votes@, #[trigger] options@[k].option_number),
        decreases options@.len() - i,
    {
        let c = count_votes(votes, options[i].option_number);
        counts.push(c);
        i = i + 1;
    }
    counts
}

/// Holds of the ballots not cast by `voter` in poll `vote_id`.
pub open spec fn not_by(vote_id: i32, voter: u64) -> spec_fn(NewVote) -> bool {
    |b: NewVote| !(b.vote_id == vote_id && b.voter_id == voter)
}

/// The ballots after `voter` chooses `option_number` in poll `vote_id`:
/// their earlier choice in that poll is dropped and the new one added last.
pub open spec fn after_choice(ballots: Seq<NewVote>, vote_id: i32, voter: u64, option_number: i32) -> Seq<NewVote> {
    ballots.filter(not_by(vote_id, voter)).push(
        NewVote { vote_id, voter_id: voter, option_number },
    )
}

/// Records `voter`'s choice, replacing any earlier one in the same poll.
pub fn user_vote(ballots: &mut Vec<NewVote>, vote_id: i32, voter: u64, option_number: i32)
    ensures
        final(ballots)@ == after_choice(old(ballots)@, vote_id, voter, option_number),
{
    let ghost keep = not_by(vote_id, voter);
    let mut kept: Vec<NewVote> = Vec::new();
    let mut i: usize = 0;
    while i < ballots.len()
        invariant
            i <= ballots@.len(),
            keep == not_by(vote_id, voter),
            kept@ == ballots@.subrange(0, i as int).filter(keep),
        decreases ballots@.len() - i,
    {
        let b = ballots[i];
        if !(b.vote_id == vote_id && b.voter_id == voter) {
            kept.push(b);
        }
        proof {
            reveal(Seq::filter);
            let s = ballots@.subrange(0, i + 1);
            assert(s.drop_last() =~= ballots@.subrange(0, i as int));
            assert(s.last() == b);
        }
        i = i + 1;
    }
    proof {
        assert(ballots@.subrange(0, ballots@.len() as int) =~= ballots@);
    }
    kept.push(NewVote { vote_id, voter_id: voter, option_number });
    *ballots = kept;
}

/// A poll has ended once more seconds than its duration have passed since
/// it started.
pub fn poll_has_ended(start_time: i64, duration: u32, now: i64) -> (r: bool)
    ensures
        r == (duration < now - start_time),
{
    (duration as i128) < (now as i128) - (start_time as i128)
}

/// Seconds left before a poll ends (negative once it is over).
pub fn seconds_left(start_time: i64, duration: u32, now: i64) -> (r: i128)
    ensures
        r == duration - (now - start_time),
{
    (duration as i128) - ((now as i128) - (start_time as i128))
}

/// Whether `c` has the Unicode `White_Space` property (as `char::is_whitespace`
/// reports it): tab through carriage return, space, next line, no-break
/// space, ogham space mark, the spaces U+2000 to U+200A, line and paragraph
/// separators, narrow no-break space, medium mathematical space and
/// ideographic space.
pub open spec fn white_space(c: char) -> bool {
    let v = c as u32;
    ||| 0x09 <= v <= 0x0D
    ||| v == 0x20
    ||| v == 0x85
    ||| v == 0xA0
    ||| v == 0x1680
    ||| 0x2000 <= v <= 0x200A
    ||| v == 0x2028
    ||| v == 0x2029
    ||| v == 0x202F
    ||| v == 0x205F
    ||| v == 0x3000
}

pub fn is_white_space(c: char) -> (r: bool)
    ensures
        r == white_space(c),
{
    let v = c as u32;
    (0x09 <= v && v <= 0x0D) || v == 0x20 || v == 0x85 || v == 0xA0 || v == 0x1680 || (0x2000 <= v
        && v <= 0x200A) || v == 0x2028 || v == 0x2029 || v == 0x202F || v == 0x205F || v == 0x3000
}

/// Bytes that `c` takes in UTF-8.
pub open spec fn utf8_len(c: char) -> nat {
    if (c as u32) < 0x80 {
        1
    } else if (c as u32) < 0x800 {
        2
    } else if (c as u32) < 0x10000 {
        3
    } else {
        4
    }
}

/// How many leading characters of `s` fit in `budget` bytes of UTF-8.
pub open spec fn fitting(s: Seq<char>, budget: nat) -> nat
    decreases s.len(),
{
    if s.len() == 0 || utf8_len(s[0]) > budget {
        0
    } else {
        1 + fitting(s.drop_first(), (budget - utf8_len(s[0])) as nat)
    }
}

/// The longest prefix of `s` that fits in `budget` bytes and ends on a
/// character boundary.
pub open spec fn truncated(s: Seq<char>, budget: nat) -> Seq<char> {
    s.take(fitting(s, budget) as int)
}

proof fn lemma_fitting_le(s: Seq<char>, budget: nat)
    ensures
        fitting(s, budget) <= s.len(),
    decreases s.len(),
{
    if s.len() > 0 && utf8_len(s[0]) <= budget {
        lemma_fitting_le(s.drop_first(), (budget - utf8_len(s[0])) as nat);
    }
}

fn char_utf8_len(c: char) -> (r: usize)
    ensures
        r == utf8_len(c),
{
    let v = c as u32;
    if v < 0x80 {
        1
    } else if v < 0x800 {
        2
    } else if v < 0x10000 {
        3
    } else {
        4
    }
}

/// The longest prefix of `s` within `budget` bytes that does not split a
/// character.
pub fn truncate_to_bytes(s: &str, budget: usize) -> (r: &str)
    ensures
        r@ == truncated(s@, budget as nat),
{
    let n = s.unicode_len();
    let mut i: usize = 0;
    let mut left: usize = budget;
    proof {
        assert(s@.subrange(0, 0) =~= s@.take(0));
        assert(s@.skip(0) =~= s@);
    }
    while i < n && char_utf8_len(s.get_char(i)) <= left
        invariant
            n == s@.len(),
            i <= n,
            left <= budget,
            fitting(s@, budget as nat) == i + fitting(s@.skip(i as int), left as nat),
        decreases n - i,
    {
        let w = char_utf8_len(s.get_char(i));
        proof {
            assert(s@.skip(i as int)[0] == s@[i as int]);
            assert(s@.skip(i as int).drop_first() =~= s@.skip(i + 1));
        }
        left = left - w;
        i = i + 1;
    }
    proof {
        if i == n {
            assert(s@.skip(i as int).len() == 0);
        } else {
            assert(s@.skip(i as int)[0] == s@[i as int]);
        }
        lemma_fitting_le(s@, budget as nat);
    }
    s.substring_char(0, i)
}

/// Whether `s` is empty or holds white space alone.
pub open spec fn blank(s: Seq<char>) -> bool {
    forall|i: int| 0 <= i < s.len() ==> white_space(#[trigger] s[i])
}

pub fn is_blank(s: &str) -> (r: bool)
    ensures
        r == blank(s@),
{
    let n = s.unicode_len();
    let mut i: usize = 0;
    while i < n
        invariant
            n == s@.len(),
            i <= n,
            forall|j: int| 0 <= j < i ==> white_space(#[trigger] s@[j]),
        decreases n - i,
    {
        if !is_white_space(s.get_char(i)) {
            return false;
        }
        i = i + 1;
    }
    true
}

/// The pieces of `s` between commas, as `str::split(',')` yields them.
pub open spec fn split_commas(s: Seq<char>) -> Seq<Seq<char>>
    decreases s.len(),
{
    if s.len() == 0 {
        seq![Seq::empty()]
    } else {
        let p = split_commas(s.drop_last());
        if s.last() == ',' {
            p.push(Seq::empty())
        } else {
            p.update(p.len() - 1, p.last().push(s.last()))
        }
    }
}

proof fn lemma_split_nonempty(s: Seq<char>)
    ensures
        split_commas(s).len() >= 1,
    decreases s.len(),
{
    if s.len() > 0 {
        lemma_split_nonempty(s.drop_last());
    }
}

/// Longest option text, in bytes.
pub const OPTION_BYTES: usize = 32;

/// The options of a poll: each piece truncated to 32 bytes, blank ones
/// dropped.
pub open spec fn kept_options(pieces: Seq<Seq<char>>) -> Seq<Seq<char>>
    decreases pieces.len(),
{
    if pieces.len() == 0 {
        Seq::empty()
    } else {
        let t = truncated(pieces.last(), OPTION_BYTES as nat);
        if blank(t) {
            kept_options(pieces.drop_last())
        } else {
            kept_options(pieces.drop_last()).push(t)
        }
    }
}

pub open spec fn str_views(ps: Seq<&str>) -> Seq<Seq<char>> {
    ps.map_values(|p: &str| p@)
}

pub open spec fn string_views(ps: Seq<String>) -> Seq<Seq<char>> {
    ps.map_values(|p: String| p@)
}

/// Splits the comma-separated option list of a poll command.
pub fn poll_options(text: &str) -> (r: Vec<String>)
    ensures
        string_views(r@) == kept_options(split_commas(text@)),
{
    let n = text.unicode_len();
    let mut pieces: Vec<&str> = Vec::new();
    let mut start: usize = 0;
    let mut i: usize = 0;
    proof {
        assert(text@.take(0) =~= Seq::<char>::empty());
        assert(text@.subrange(0, 0) =~= Seq::<char>::empty());
        assert(str_views(pieces@) =~= Seq::<Seq<char>>::empty());
        assert(split_commas(text@.take(0)) =~= str_views(pieces@).push(
            text@.subrange(0, 0),
        ));
    }
    while i < n
        invariant
            n == text@.len(),
            start <= i <= n,
            split_commas(text@.take(i as int)) == str_views(pieces@).push(
                text@.subrange(start as int, i as int),
            ),
        decreases n - i,
    {
        proof {
            assert(text@.take(i + 1).drop_last() =~= text@.take(i as int));
            assert(text@.take(i + 1).last() == text@[i as int]);
            lemma_split_nonempty(text@.take(i as int));
        }
        if text.get_char(i) == ',' {
            let piece = text.substring_char(start, i);
            let ghost before = pieces@;
            pieces.push(piece);
            start = i + 1;
            proof {
                assert(str_views(pieces@) =~= str_views(before).push(piece@));
                assert(text@.subrange(start as int, i + 1) =~= Seq::<char>::empty());
            }
        } else {
            proof {
                assert(text@.subrange(start as int, i + 1) =~= text@.subrange(start as int, i as int).push(text@[i as int]));
            }
        }
        i = i + 1;
        proof {
            assert(split_commas(text@.take(i as int)) =~= str_views(pieces@).push(
                text@.subrange(start as int, i as int),
            ));
        }
    }
    let ghost before = pieces@;
    let last = text.substring_char(start, n);
    pieces.push(last);
    proof {
        assert(str_views(pieces@) =~= str_views(before).push(last@));
        assert(text@.take(n as int) =~= text@);
        assert(str_views(pieces@) =~= split_commas(text@));
    }
    let ghost all = str_views(pieces@);
    let mut kept: Vec<String> = Vec::new();
    let mut k: usize = 0;
    while k < pieces.len()
        invariant
            k <= pieces@.len(),
            all == str_views(pieces@),
            string_views(kept@) == kept_options(all.take(k as int)),
        decreases pieces@.len() - k,
    {
        proof {
            assert(all.take(k + 1).drop_last() =~= all.take(k as int));
            assert(all.take(k + 1).last() == pieces@[k as int]@);
        }
        let t = truncate_to_bytes(pieces[k], OPTION_BYTES);
        let ghost before = kept@;
        if !is_blank(t) {
            kept.push(String::from_str(t));
            proof {
                assert(string_views(kept@) =~= string_views(before).push(t@));
            }
        }
        proof {
            assert(string_views(kept@) =~= kept_options(all.take(k + 1)));
        }
        k = k + 1;
    }
    proof {
        assert(all.take(pieces@.len() as int) =~= all);
    }
    kept
}

/// The options of a poll command, or `None` when fewer than two remain.
pub fn checked_poll_options(text: &str) -> (r: Option<Vec<String>>)
    ensures
        r is None <==> kept_options(split_commas(text@)).len() < 2,
        r matches Some(v) ==> string_views(v@) == kept_options(split_commas(text@)),
{
    let options = poll_options(text);
    proof {
        assert(string_views(options@).len() == options@.len());
    }
    if options.len() < 2 {
        None
    } else {
        Some(options)
    }
}

/// Longest poll title, in bytes.
pub const TITLE_BYTES: usize = 255;

/// The option number behind a poll button id `vote_<n>`.
pub fn vote_button_option(id: &str) -> (r: Option<i32>)
    ensures
        r is Some <==> ({
            let rest = id@.skip(5);
            &&& id@.len() > 5
            &&& id@.take(5) == "vote_"@
            &&& forall|i: int| 0 <= i < rest.len() ==> is_digit(#[trigger] rest[i])
            &&& digits_value(rest) <= i32::MAX
        }),
        r matches Some(v) ==> v == digits_value(id@.skip(5)),
{
    let n = id.unicode_len();
    if n <= 5 {
        return None;
    }
    if !str_eq(id.substring_char(0, 5), "vote_") {
        proof {
            assert(id@.subrange(0, 5) =~= id@.take(5));
        }
        return None;
    }
    proof {
        assert(id@.subrange(0, 5) =~= id@.take(5));
        assert(id@.subrange(5, n as int) =~= id@.skip(5));
    }
    parse_digits(id.substring_char(5, n))
}

} // verus!
