use seraph::score::{calculate_score, contribution_of, scoring_window_bounds, EpochRecord};
use seraph::state::{Identity, VList};

fn id(n: u64) -> Identity {
    Identity { hi: 0, lo: n as u128 }
}

fn rec(epoch_credits: u32, commission: u8) -> Option<EpochRecord> {
    Some(EpochRecord { epoch_credits, commission })
}

fn fresh_list() -> VList {
    let mut list = VList::default();
    list.init(&id(1), id(7), 1).unwrap();
    list
}

#[test]
fn five_even_epochs_average_to_the_discounted_credits() {
    // Five epochs of 40 credits at 10% commission: each contributes
    // 40 * 90 / 100 = 36, and the average is 36.
    let window = vec![rec(40, 10), rec(40, 10), rec(40, 10), rec(40, 10), rec(40, 10)];
    assert_eq!(calculate_score(&window), Some(36));
}

#[test]
fn a_sparse_window_averages_over_recorded_epochs_only() {
    // Two recorded epochs out of five: the average divides by 2, not 5.
    let window = vec![None, rec(100, 0), None, rec(50, 0), None];
    assert_eq!(calculate_score(&window), Some(75));
}

#[test]
fn an_empty_window_yields_no_score_and_no_change() {
    // No recorded epoch: no score, no shortlist mutation, no error.
    let mut list = fresh_list();
    list.insert_or_update(id(5), 20, 1);
    let before = (list.validators.clone(), list.idx);
    let window: Vec<Option<EpochRecord>> = vec![None, None, None, None, None];
    let outcome = list.score_and_update(id(6), &window, 9);
    assert_eq!(outcome, None);
    assert_eq!((list.validators, list.idx), before);
}

#[test]
fn scoring_with_data_updates_the_shortlist() {
    let mut list = fresh_list();
    list.insert_or_update(id(5), 20, 1);
    let window = vec![rec(40, 10), None, rec(60, 10)];
    let outcome = list.score_and_update(id(6), &window, 9);
    // (36 + 54) / 2 = 45, ahead of the existing 20.
    assert_eq!(outcome, Some(45));
    assert_eq!(list.idx, 2);
    assert_eq!(list.validators[0].validator, id(6));
    assert_eq!(list.validators[0].score, 45);
    assert_eq!(list.validators[0].last_scored_epoch, 9);
    assert_eq!(list.validators[1].validator, id(5));
}

#[test]
fn each_contribution_truncates_before_accumulating() {
    // 999 credits at 33%: 999 * 67 / 100 = 669.33, truncated to 669.
    assert_eq!(contribution_of(EpochRecord { epoch_credits: 999, commission: 33 }), 669);
    // The truncation happens per epoch: two such epochs average to 669,
    // not to the average of the untruncated contributions.
    let window = vec![rec(999, 33), rec(999, 33)];
    assert_eq!(calculate_score(&window), Some(669));
}

#[test]
fn a_full_commission_contributes_nothing() {
    assert_eq!(contribution_of(EpochRecord { epoch_credits: 500, commission: 100 }), 0);
    assert_eq!(contribution_of(EpochRecord { epoch_credits: 500, commission: 255 }), 0);
    let window = vec![rec(500, 100), rec(500, 200)];
    assert_eq!(calculate_score(&window), Some(0));
}

#[test]
fn the_largest_credits_still_fit_the_score() {
    let window = vec![rec(u32::MAX, 0), rec(u32::MAX, 0), rec(u32::MAX, 0), rec(u32::MAX, 0), rec(
        u32::MAX,
        0,
    )];
    assert_eq!(calculate_score(&window), Some(u32::MAX));
}

#[test]
fn the_window_covers_the_five_epochs_before_the_current_one() {
    assert_eq!(scoring_window_bounds(10), (5, 10));
    assert_eq!(scoring_window_bounds(6), (1, 6));
    assert_eq!(scoring_window_bounds(5), (0, 5));
    assert_eq!(scoring_window_bounds(3), (0, 3));
    assert_eq!(scoring_window_bounds(0), (0, 0));
}
