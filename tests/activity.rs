use testauskoira::activity::{award_handover, top_n, MessageLog};
use testauskoira::silenced::{role_sync, RoleSync, SilencedMembers};

#[test]
fn message_counts_per_member_and_day() {
    let mut log = MessageLog::new();
    log.increment_message_count(1, 100);
    log.increment_message_count(1, 100);
    log.increment_message_count(2, 100);
    log.increment_message_count(1, 101);
    assert_eq!(log.stats.len(), 3);
    assert_eq!(log.stats[0].message_count, 2);
    assert_eq!(log.total_daily_messages(100), 3);
    assert_eq!(log.total_daily_messages(101), 1);
    assert_eq!(log.total_daily_messages(99), 0);
}

#[test]
fn count_saturates_at_max() {
    let mut log = MessageLog::new();
    log.increment_message_count(1, 5);
    log.stats[0].message_count = i32::MAX;
    log.increment_message_count(1, 5);
    assert_eq!(log.stats[0].message_count, i32::MAX);
}

#[test]
fn most_active_of_a_day() {
    let mut log = MessageLog::new();
    for (user, n) in [(1u64, 3), (2, 7), (3, 5), (4, 9), (5, 1)] {
        for _ in 0..n {
            log.increment_message_count(user, 10);
        }
    }
    log.increment_message_count(6, 11);
    assert_eq!(log.get_most_active(3, 10, &vec![]), vec![(4, 9), (2, 7), (3, 5)]);
    assert_eq!(log.get_most_active(2, 10, &vec![4]), vec![(2, 7), (3, 5)]);
    assert_eq!(log.get_most_active(10, 11, &vec![]), vec![(6, 1)]);
    assert_eq!(log.get_most_active(0, 10, &vec![]), vec![]);
    assert_eq!(log.get_most_active(3, 12, &vec![]), vec![]);
}

#[test]
fn top_n_keeps_ties() {
    let top = top_n(vec![(1, 4), (2, 4), (3, 2)], 2);
    assert_eq!(top.len(), 2);
    assert!(top.iter().all(|e| e.1 == 4));
    assert_eq!(top_n(vec![(1, 1)], 5), vec![(1, 1)]);
}

#[test]
fn award_moves_from_previous_holder() {
    assert_eq!(award_handover(5, Some(4)), Some(4));
    assert_eq!(award_handover(5, Some(5)), None);
    assert_eq!(award_handover(5, None), None);
}

#[test]
fn silenced_marks_follow_the_role() {
    let mut s = SilencedMembers::new();
    assert!(!s.is_silenced(3));
    assert_eq!(s.apply_role_update(3, false, true), RoleSync::Silence);
    assert!(s.is_silenced(3));
    assert_eq!(s.apply_role_update(3, true, true), RoleSync::Unchanged);
    assert!(s.is_silenced(3));
    assert_eq!(s.apply_role_update(3, true, false), RoleSync::Unsilence);
    assert!(!s.is_silenced(3));
    s.silence_user(8);
    s.unsilence_user(9);
    assert!(s.is_silenced(8));
    assert_eq!(role_sync(false, false), RoleSync::Unchanged);
}
