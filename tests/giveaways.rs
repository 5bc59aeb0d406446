use testauskoira::giveaway::{due_giveaways, roll_winners, EditField, Giveaway, GiveawayError};
use testauskoira::pagination::{generate_list_components, page_bounds, ListOffsets};

const NOW: i64 = 1_700_000_000;

fn active(max_winners: i64, duration: i64) -> Giveaway {
    Giveaway::start(1, 10, 20, NOW, duration, max_winners, "X".to_string()).unwrap()
}

#[test]
fn start_validates_and_computes_end_time() {
    let g = active(2, 3600);
    assert!(!g.completed);
    assert_eq!(g.start_time, NOW);
    assert_eq!(g.end_time, NOW + 3600);
    assert_eq!(g.max_winners, 2);
    assert_eq!(g.prize, "X");
    assert!(g.winners.is_empty());
}

#[test]
fn start_rejects_bad_arguments() {
    let e = |d: i64, w: i64| Giveaway::start(1, 10, 20, NOW, d, w, "X".to_string()).err();
    assert_eq!(e(0, 1), Some(GiveawayError::InvalidDuration));
    assert_eq!(e(-5, 1), Some(GiveawayError::InvalidDuration));
    assert_eq!(e(1, 0), Some(GiveawayError::InvalidWinners));
    assert_eq!(e(0, 0), Some(GiveawayError::InvalidDuration));
    assert_eq!(e(i64::MAX, 1), Some(GiveawayError::InvalidDuration));
    assert_eq!(e(1, 1), None);
}

#[test]
fn giveaway_lifecycle_scenario() {
    let mut gs = vec![active(2, 3600)];
    // a sweep before expiry changes nothing
    assert!(due_giveaways(&gs, NOW + 10).is_empty());
    assert!(!gs[0].completed);
    // manual end is not time-gated
    let pool = vec![101, 102, 103, 104];
    assert_eq!(gs[0].end(&pool), Ok(()));
    assert!(gs[0].completed);
    assert_eq!(gs[0].winners.len(), 2);
    assert_ne!(gs[0].winners[0], gs[0].winners[1]);
    assert!(gs[0].winners.iter().all(|w| pool.contains(w)));
    // a completed giveaway is never due
    assert!(due_giveaways(&gs, NOW + 7200).is_empty());
}

#[test]
fn end_on_completed_is_already_ended_without_reroll() {
    let mut g = active(1, 60);
    g.end(&vec![5]).unwrap();
    assert_eq!(g.winners, vec![5]);
    assert_eq!(g.end(&vec![6, 7, 8]), Err(GiveawayError::AlreadyEnded));
    assert_eq!(g.winners, vec![5]);
    assert!(g.completed);
    assert_eq!(g.finish_with(vec![9]), Err(GiveawayError::AlreadyEnded));
    assert_eq!(g.winners, vec![5]);
}

#[test]
fn roll_from_empty_pool_is_empty() {
    assert!(roll_winners(&Vec::new(), 3).is_empty());
    let mut g = active(3, 60);
    assert_eq!(g.end(&Vec::new()), Ok(()));
    assert!(g.winners.is_empty());
    assert!(g.completed);
}

#[test]
fn roll_draws_min_of_count_and_pool() {
    let pool = vec![1, 2, 3];
    let one = roll_winners(&pool, 1);
    assert_eq!(one.len(), 1);
    assert!(pool.contains(&one[0]));
    let mut all = roll_winners(&pool, 10);
    all.sort();
    assert_eq!(all, vec![1, 2, 3]);
    assert!(roll_winners(&pool, 0).is_empty());
    assert!(roll_winners(&pool, -4).is_empty());
}

#[test]
fn reroll_works_in_both_states() {
    let mut g = active(1, 60);
    let w = g.reroll(&vec![42]);
    assert_eq!(w, vec![42]);
    assert_eq!(g.winners, vec![42]);
    assert!(!g.completed);
    g.end(&vec![1]).unwrap();
    let w = g.reroll(&vec![43]);
    assert_eq!(w, vec![43]);
    assert_eq!(g.winners, vec![43]);
    assert!(g.completed);
}

#[test]
fn edit_duration_counts_from_start_time() {
    let mut g = active(1, 3600);
    assert_eq!(g.edit(EditField::Duration, 100), Ok(()));
    assert_eq!(g.end_time, g.start_time + 100);
    assert_eq!(g.end_time, NOW + 100);
    assert_eq!(g.edit_duration(0), Err(GiveawayError::InvalidDuration));
    assert_eq!(g.end_time, NOW + 100);
    assert_eq!(g.edit_duration(i64::MAX), Err(GiveawayError::InvalidDuration));
}

#[test]
fn edit_winners_and_refuse_after_completion() {
    let mut g = active(1, 3600);
    assert_eq!(g.edit(EditField::Winners, 4), Ok(()));
    assert_eq!(g.max_winners, 4);
    assert_eq!(g.edit_max_winners(0), Err(GiveawayError::InvalidWinners));
    g.end(&vec![1, 2]).unwrap();
    assert_eq!(g.edit(EditField::Winners, 2), Err(GiveawayError::AlreadyEnded));
    assert_eq!(g.edit(EditField::Duration, 50), Err(GiveawayError::AlreadyEnded));
    assert_eq!(g.max_winners, 4);
    assert_eq!(g.end_time, NOW + 3600);
}

#[test]
fn sweep_picks_expired_active_giveaways_in_order() {
    let mut gs = vec![active(1, 100), active(1, 5000), active(1, 200), active(1, 50)];
    gs[3].end(&vec![1]).unwrap();
    assert_eq!(due_giveaways(&gs, NOW + 200), vec![0, 2]);
    assert_eq!(due_giveaways(&gs, NOW + 199), vec![0]);
    assert_eq!(due_giveaways(&gs, NOW), Vec::<usize>::new());
}

#[test]
fn list_buttons() {
    let c = generate_list_components(0, 25);
    assert!(c.previous_disabled);
    assert!(!c.next_disabled);
    let c = generate_list_components(10, 25);
    assert!(!c.previous_disabled);
    assert!(!c.next_disabled);
    let c = generate_list_components(20, 25);
    assert!(c.next_disabled);
    let c = generate_list_components(0, 10);
    assert!(c.next_disabled);
    let c = generate_list_components(i64::MAX, i64::MIN);
    assert!(c.next_disabled);
}

#[test]
fn page_bounds_clip_to_list() {
    assert_eq!(page_bounds(0, 25), (0, 10));
    assert_eq!(page_bounds(20, 25), (20, 25));
    assert_eq!(page_bounds(30, 25), (25, 25));
    assert_eq!(page_bounds(-3, 4), (0, 4));
}

#[test]
fn offsets_per_user() {
    let mut o = ListOffsets::new();
    assert_eq!(o.get_offset(7), 0);
    assert_eq!(o.next_page(7), 10);
    assert_eq!(o.next_page(7), 20);
    assert_eq!(o.get_offset(8), 0);
    assert_eq!(o.previous_page(7), 10);
    assert_eq!(o.previous_page(7), 0);
    assert_eq!(o.previous_page(7), 0);
    o.set_offset(8, 5);
    assert_eq!(o.previous_page(8), 0);
    o.set_offset(9, i64::MAX);
    assert_eq!(o.next_page(9), i64::MAX);
}

use testauskoira::giveaway::{delete_giveaway, end_giveaway, find_giveaway, start_settings};
use testauskoira::pagination::ListMove;
use testauskoira::render::winners_text;

fn with_id(id: i64) -> Giveaway {
    Giveaway::start(id, 10, 20, NOW, 60, 1, "P".to_string()).unwrap()
}

#[test]
fn start_defaults() {
    assert_eq!(start_settings(None, None, None), (3600, 1, "Nothing :(".to_string()));
    assert_eq!(start_settings(Some(5), Some(2), Some("Cake".to_string())), (5, 2, "Cake".to_string()));
}

#[test]
fn lookups_by_id() {
    let mut gs = vec![with_id(4), with_id(7)];
    assert_eq!(find_giveaway(&gs, 7), Some(1));
    assert_eq!(find_giveaway(&gs, 8), None);
    assert_eq!(end_giveaway(&mut gs, 8, &vec![1]), Err(GiveawayError::NotFound));
    assert_eq!(end_giveaway(&mut gs, 7, &vec![1]), Ok(()));
    assert!(gs[1].completed);
    assert!(!gs[0].completed);
    assert_eq!(end_giveaway(&mut gs, 7, &vec![2]), Err(GiveawayError::AlreadyEnded));
    assert_eq!(gs[1].winners, vec![1]);
    assert_eq!(delete_giveaway(&mut gs, 9).err(), Some(GiveawayError::NotFound));
    let removed = delete_giveaway(&mut gs, 4).unwrap();
    assert_eq!(removed.id, 4);
    assert_eq!(gs.len(), 1);
    assert_eq!(gs[0].id, 7);
}

#[test]
fn winners_announcement_text() {
    assert_eq!(winners_text(&vec![]), "Nobody...");
    assert_eq!(winners_text(&vec![5]), "<@5>");
    assert_eq!(winners_text(&vec![12, 3, 40]), "<@12>, <@3>, <@40>");
}

#[test]
fn component_ids() {
    assert_eq!(ListMove::from_custom_id("GIVEAWAY_list_back"), Some(ListMove::Back));
    assert_eq!(ListMove::from_custom_id("GIVEAWAY_list_next"), Some(ListMove::Next));
    assert_eq!(ListMove::from_custom_id("GIVEAWAY_list"), None);
    assert_eq!(EditField::from_name("duration"), Some(EditField::Duration));
    assert_eq!(EditField::from_name("winners"), Some(EditField::Winners));
    assert_eq!(EditField::from_name("prize"), None);
}

#[test]
fn valid_edits_of_an_active_giveaway_succeed() {
    let mut g = active(2, 3600);
    assert_eq!(g.edit(EditField::Duration, 100), Ok(()));
    assert_eq!(g.end_time, NOW + 100);
    assert_eq!(g.edit(EditField::Winners, 7), Ok(()));
    assert_eq!(g.max_winners, 7);
    assert_eq!(g.end_time, NOW + 100);
    assert_eq!(g.edit_duration(i64::MAX - NOW), Ok(()));
    assert_eq!(g.end_time, i64::MAX);
    assert_eq!(g.edit_duration(i64::MAX - NOW + 1), Err(GiveawayError::InvalidDuration));
    assert!(!g.completed);
}
