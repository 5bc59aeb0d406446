use testauskoira::models::{NewVote, Vote, VoteEventOption};
use testauskoira::poll::{count_votes, poll_has_ended, seconds_left, tally_options, user_vote};

fn vote(voter: u64, option: i32) -> Vote {
    Vote { id: 0, vote_id: 1, voter_id: voter, option_number: option }
}

fn option(n: i32, v: &str) -> VoteEventOption {
    VoteEventOption { id: n, vote_id: 1, option_number: n, option_value: v.to_string() }
}

#[test]
fn counts_per_option() {
    let votes = vec![vote(1, 0), vote(2, 1), vote(3, 0), vote(4, 2)];
    assert_eq!(count_votes(&votes, 0), 2);
    assert_eq!(count_votes(&votes, 5), 0);
    let options = vec![option(0, "a"), option(1, "b"), option(2, "c"), option(3, "d")];
    assert_eq!(tally_options(&options, &votes), vec![2, 1, 1, 0]);
}

#[test]
fn a_new_choice_replaces_the_old_one() {
    let mut ballots = vec![
        NewVote { vote_id: 1, voter_id: 5, option_number: 0 },
        NewVote { vote_id: 2, voter_id: 5, option_number: 1 },
        NewVote { vote_id: 1, voter_id: 6, option_number: 1 },
    ];
    user_vote(&mut ballots, 1, 5, 2);
    assert_eq!(
        ballots,
        vec![
            NewVote { vote_id: 2, voter_id: 5, option_number: 1 },
            NewVote { vote_id: 1, voter_id: 6, option_number: 1 },
            NewVote { vote_id: 1, voter_id: 5, option_number: 2 },
        ]
    );
}

#[test]
fn poll_end_time() {
    assert!(!poll_has_ended(100, 10, 110));
    assert!(poll_has_ended(100, 10, 111));
    assert_eq!(seconds_left(100, 10, 104), 6);
    assert_eq!(seconds_left(100, 10, 115), -5);
}

use testauskoira::poll::{checked_poll_options, is_white_space, poll_options, truncate_to_bytes, vote_button_option};
use testauskoira::text::{parse_digits, str_eq};

#[test]
fn options_are_split_trimmed_of_blanks_and_truncated() {
    assert_eq!(poll_options("a, b,,  ,c"), vec!["a", " b", "c"]);
    assert_eq!(poll_options(""), Vec::<String>::new());
    let long = "x".repeat(40);
    assert_eq!(poll_options(&format!("{},y", long)), vec!["x".repeat(32), "y".to_string()]);
    // a two-byte character is never split
    let wide = format!("{}ä", "z".repeat(31));
    assert_eq!(poll_options(&wide), vec!["z".repeat(31)]);
    assert_eq!(poll_options("\u{3000},q"), vec!["q"]);
}

#[test]
fn a_poll_needs_two_options() {
    assert_eq!(checked_poll_options("only"), None);
    assert_eq!(checked_poll_options("one, ,"), None);
    assert_eq!(checked_poll_options("yes,no"), Some(vec!["yes".to_string(), "no".to_string()]));
}

#[test]
fn truncation_keeps_character_boundaries() {
    assert_eq!(truncate_to_bytes("ääää", 3), "ä");
    assert_eq!(truncate_to_bytes("ääää", 4), "ää");
    assert_eq!(truncate_to_bytes("abc", 10), "abc");
    assert_eq!(truncate_to_bytes("abc", 0), "");
}

#[test]
fn poll_button_ids() {
    assert_eq!(vote_button_option("vote_3"), Some(3));
    assert_eq!(vote_button_option("vote_0012"), Some(12));
    assert_eq!(vote_button_option("vote_"), None);
    assert_eq!(vote_button_option("vote_x"), None);
    assert_eq!(vote_button_option("vote_-1"), None);
    assert_eq!(vote_button_option("vote_2147483647"), Some(i32::MAX));
    assert_eq!(vote_button_option("vote_2147483648"), None);
    assert_eq!(vote_button_option("poll_1"), None);
}

#[test]
fn digits_and_equality() {
    assert_eq!(parse_digits("0"), Some(0));
    assert_eq!(parse_digits("905"), Some(905));
    assert_eq!(parse_digits(""), None);
    assert_eq!(parse_digits("9a"), None);
    assert_eq!(parse_digits("99999999999999999999"), None);
    assert!(str_eq("abc", "abc"));
    assert!(!str_eq("abc", "abd"));
    assert!(!str_eq("abc", "ab"));
}

#[test]
fn white_space_agrees_with_std() {
    for c in (0u32..=0x10FFFF).filter_map(char::from_u32) {
        assert_eq!(is_white_space(c), c.is_whitespace(), "U+{:04X}", c as u32);
    }
}
