use testauskoira::models::VotingAction;
use testauskoira::render::filter_votes;
use testauskoira::report::{Action, CouncilVoting, Effect, Role, VoteResult};
use testauskoira::thresholds::{capped_votes_required, rounded_sqrt_of, silence_votes_required};

fn case(mods: u32) -> CouncilVoting {
    CouncilVoting::new(900, 11, 500, 77, 1_600_000_000, "bad words".to_string(), 22, mods)
}

#[test]
fn rounded_square_roots() {
    let expected: [(u32, u32); 12] = [
        (0, 0),
        (1, 1),
        (2, 1),
        (3, 2),
        (4, 2),
        (6, 2),
        (7, 3),
        (9, 3),
        (12, 3),
        (13, 4),
        (100, 10),
        (u32::MAX, 65536),
    ];
    for (n, k) in expected {
        assert_eq!(rounded_sqrt_of(n), k, "n = {}", n);
    }
}

#[test]
fn thresholds_clamped_for_delete_and_block() {
    assert_eq!(capped_votes_required(0), 1);
    assert_eq!(capped_votes_required(1), 1);
    assert_eq!(capped_votes_required(3), 2);
    assert_eq!(capped_votes_required(9), 3);
    assert_eq!(capped_votes_required(100), 3);
    for n in 0..500u32 {
        let r = capped_votes_required(n);
        assert!((1..=3).contains(&r));
    }
}

#[test]
fn silence_threshold_unbounded_and_zero_without_moderators() {
    assert_eq!(silence_votes_required(0), 0);
    assert_eq!(silence_votes_required(9), 3);
    assert_eq!(silence_votes_required(100), 10);
}

#[test]
fn new_case_snapshots_thresholds() {
    let c = case(9);
    assert_eq!(c.delete.required, 3);
    assert_eq!(c.silence.required, 3);
    assert_eq!(c.block_reporter.required, 3);
    assert_eq!(c.delete.votes, 0);
    assert!(!c.delete.fired);
    assert!(c.ballots.is_empty());
    assert!(c.edits.is_empty());
}

#[test]
fn casting_twice_counts_once() {
    let mut c = case(9);
    assert_eq!(c.cast_vote(1, Action::DeleteMessage), VoteResult::Counted(1, 3));
    assert_eq!(c.cast_vote(1, Action::DeleteMessage), VoteResult::NoOp);
    assert_eq!(c.delete.votes, 1);
    assert_eq!(c.ballots.len(), 1);
    // a different action by the same moderator is a separate ballot
    assert_eq!(c.cast_vote(1, Action::SilenceSuspect), VoteResult::Counted(1, 3));
    assert_eq!(c.ballots.len(), 2);
}

#[test]
fn nine_moderators_delete_scenario() {
    let mut c = case(9);
    assert_eq!(c.handle_vote(1, Action::DeleteMessage), vec![Effect::RenderCaseUpdate { case_id: 900 }]);
    assert_eq!(c.handle_vote(2, Action::DeleteMessage), vec![Effect::RenderCaseUpdate { case_id: 900 }]);
    let third = c.handle_vote(3, Action::DeleteMessage);
    assert_eq!(
        third,
        vec![
            Effect::DeleteMessage { channel_id: 77, message_id: 500 },
            Effect::RenderCaseUpdate { case_id: 900 }
        ]
    );
    assert_eq!(c.delete.votes, 3);
    assert!(c.delete.fired);
    let fourth = c.handle_vote(4, Action::DeleteMessage);
    assert!(fourth.is_empty());
    assert_eq!(c.ballots.len(), 4);
    assert_eq!(c.delete.votes, 3);
}

#[test]
fn third_cast_returns_counted_three_of_three() {
    let mut c = case(9);
    c.cast_vote(1, Action::DeleteMessage);
    c.cast_vote(2, Action::DeleteMessage);
    assert_eq!(c.cast_vote(3, Action::DeleteMessage), VoteResult::Counted(3, 3));
    assert_eq!(c.cast_vote(4, Action::DeleteMessage), VoteResult::NoOp);
}

#[test]
fn side_effect_fires_once_across_cross_retract_recross() {
    let mut c = case(4);
    let mut fired = 0;
    let steps: [(u64, bool); 8] = [
        (1, true),
        (2, true),
        (2, false),
        (3, true),
        (1, false),
        (1, true),
        (4, true),
        (5, true),
    ];
    for (voter, cast) in steps {
        let effects = if cast {
            c.handle_vote(voter, Action::BlockReporter)
        } else {
            c.retract_vote(voter, Action::BlockReporter);
            Vec::new()
        };
        fired += effects
            .iter()
            .filter(|e| matches!(e, Effect::GrantRole { role: Role::NoReports, .. }))
            .count();
    }
    assert_eq!(fired, 1);
    assert!(c.block_reporter.fired);
}

#[test]
fn block_reporter_targets_reporter_and_silence_targets_suspect() {
    let mut c = case(1);
    assert_eq!(
        c.handle_vote(5, Action::BlockReporter),
        vec![Effect::GrantRole { user_id: 22, role: Role::NoReports }, Effect::RenderCaseUpdate { case_id: 900 }]
    );
    assert_eq!(
        c.handle_vote(5, Action::SilenceSuspect),
        vec![Effect::GrantRole { user_id: 11, role: Role::Silenced }, Effect::RenderCaseUpdate { case_id: 900 }]
    );
    assert!(c.silence_button_disabled());
    assert!(c.block_button_disabled());
    assert!(!c.delete_button_disabled());
}

#[test]
fn zero_moderators_silence_fires_on_first_vote() {
    let mut c = case(0);
    assert_eq!(c.silence.required, 0);
    assert_eq!(c.cast_vote(8, Action::SilenceSuspect), VoteResult::Counted(0, 0));
    assert!(c.silence.fired);
    assert_eq!(c.silence.votes, 0);
    assert_eq!(c.cast_vote(9, Action::SilenceSuspect), VoteResult::NoOp);
}

#[test]
fn retracting_without_ballot_is_noop() {
    let mut c = case(9);
    assert_eq!(c.retract_vote(1, Action::DeleteMessage), VoteResult::NoOp);
    c.cast_vote(1, Action::DeleteMessage);
    c.cast_vote(2, Action::DeleteMessage);
    assert_eq!(c.retract_vote(1, Action::DeleteMessage), VoteResult::Counted(1, 3));
    assert_eq!(c.ballots.len(), 1);
    assert_eq!(c.ballots[0].voter_user_id, 2);
    assert_eq!(c.retract_vote(1, Action::DeleteMessage), VoteResult::NoOp);
}

#[test]
fn edits_and_deletion_are_recorded() {
    let mut c = case(9);
    c.handle_edit("edited".to_string(), 1_600_000_100);
    assert!(!c.message_removed());
    c.handle_delete(1_600_000_200);
    assert_eq!(c.edits.len(), 2);
    assert_eq!(c.edits[0].new_content, "edited");
    assert_eq!(c.edits[1].new_content, "");
    assert_eq!(c.edits[1].edit_time, 1_600_000_200);
    assert!(c.message_removed());
    assert!(c.delete_button_disabled());
}

#[test]
fn action_codes_round_trip() {
    for a in [Action::DeleteMessage, Action::SilenceSuspect, Action::BlockReporter] {
        assert_eq!(Action::from_code(a.code()), Some(a));
    }
    assert_eq!(Action::from_code(3), None);
    assert_eq!(Action::from_code(-1), None);
}

fn row(id: i32, vote_type: i32, voter: u64) -> VotingAction {
    VotingAction { id, vote_type, voter_user_id: voter, voting_message_id: 900 }
}

#[test]
fn filter_votes_lists_mentions() {
    let rows = vec![row(1, 0, 123), row(2, 1, 456), row(3, 0, 7890)];
    assert_eq!(filter_votes(0, rows.clone()), "\n<@123>\n<@7890>");
    assert_eq!(filter_votes(1, rows.clone()), "\n<@456>");
    assert_eq!(filter_votes(2, rows), "-");
    assert_eq!(filter_votes(0, Vec::new()), "-");
    assert_eq!(filter_votes(0, vec![row(1, 0, 0), row(2, 0, u64::MAX)]), "\n<@0>\n<@18446744073709551615>");
}

use testauskoira::report::{case_for_message, decide_report, is_reported, report_outcome, ReportOutcome};

#[test]
fn vote_button_ids() {
    assert_eq!(Action::from_button_id("delete_button"), Some(Action::DeleteMessage));
    assert_eq!(Action::from_button_id("ban_button"), Some(Action::SilenceSuspect));
    assert_eq!(Action::from_button_id("abuse_button"), Some(Action::BlockReporter));
    assert_eq!(Action::from_button_id("other"), None);
}

#[test]
fn reports_are_filed_once_per_message() {
    let cases = vec![case(3)];
    assert!(is_reported(&cases, 500));
    assert!(!is_reported(&cases, 501));
    assert_eq!(case_for_message(&cases, 500), Some(0));
    assert_eq!(case_for_message(&cases, 501), None);
    assert_eq!(report_outcome(&cases, true, 501), ReportOutcome::ReporterBlocked);
    assert_eq!(report_outcome(&cases, false, 500), ReportOutcome::AlreadyReported);
    assert_eq!(report_outcome(&cases, false, 501), ReportOutcome::Open);
    assert_eq!(report_outcome(&Vec::new(), false, 500), ReportOutcome::Open);
}

#[test]
fn zero_moderators_silence_effect_and_count() {
    let mut c = case(0);
    assert_eq!(
        c.handle_vote(8, Action::SilenceSuspect),
        vec![Effect::GrantRole { user_id: 11, role: Role::Silenced }, Effect::RenderCaseUpdate { case_id: 900 }]
    );
    assert!(c.silence.votes <= c.silence.required);
    assert!(c.handle_vote(9, Action::SilenceSuspect).is_empty());
    assert_eq!(c.retract_vote(8, Action::SilenceSuspect), VoteResult::Counted(0, 0));
    assert!(c.silence.fired);
}

#[test]
fn report_decision_order() {
    assert_eq!(decide_report(true, true), ReportOutcome::ReporterBlocked);
    assert_eq!(decide_report(false, true), ReportOutcome::AlreadyReported);
    assert_eq!(decide_report(false, false), ReportOutcome::Open);
}
