use meme_box_game::errors::ErrorCode;
use meme_box_game::game::GameState;

const COOLDOWN: u64 = 3600;

fn seeded_game() -> GameState {
    GameState::initialize_game(9, 100, COOLDOWN).unwrap()
}

/// A game whose first box went through: DOGE 50 by 1, DOGE 30 by 2, SHIB 40
/// by 3 (absorbed), as of time 30.
fn game_after_three_contributions() -> GameState {
    let mut g = seeded_game();
    g.contribute(0, "DOGE".to_string(), 50, 1, 10).unwrap();
    g.contribute(0, "DOGE".to_string(), 30, 2, 20).unwrap();
    g.contribute(0, "SHIB".to_string(), 40, 3, 30).unwrap();
    g
}

#[test]
fn initialize_seeds_every_box() {
    let g = seeded_game();
    assert_eq!(g.prize_pool, 900);
    assert_eq!(g.boxes.len(), 9);
    for b in &g.boxes {
        assert_eq!(b.amount, 100);
        assert!(b.leading_label.is_empty());
        assert!(b.contributions.is_empty());
        assert_eq!(b.start_time, 0);
        assert_eq!(b.last_leader_change_time, 0);
    }
    assert_eq!(g.cooldown, COOLDOWN);
}

#[test]
fn first_contribution_takes_leadership() {
    let mut g = seeded_game();
    let r = g.contribute(0, "DOGE".to_string(), 50, 1, 10);
    assert_eq!(r, Ok(()));
    let b = &g.boxes[0];
    assert_eq!(b.leading_label, "DOGE");
    assert_eq!(b.amount, 150);
    assert_eq!(b.start_time, 10);
    assert_eq!(b.last_leader_change_time, 10);
    assert_eq!(b.contributions.len(), 1);
    assert_eq!(b.contributions[0].user, 1);
    assert_eq!(b.contributions[0].amount, 50);
    assert_eq!(g.prize_pool, 950);
}

#[test]
fn backing_the_incumbent_accumulates() {
    let mut g = seeded_game();
    g.contribute(0, "DOGE".to_string(), 50, 1, 10).unwrap();
    let r = g.contribute(0, "DOGE".to_string(), 30, 2, 20);
    assert_eq!(r, Ok(()));
    let b = &g.boxes[0];
    assert_eq!(b.amount, 180);
    assert_eq!(b.last_leader_change_time, 10);
    assert_eq!(b.contributions.len(), 2);
    assert_eq!((b.contributions[0].user, b.contributions[0].amount), (1, 50));
    assert_eq!((b.contributions[1].user, b.contributions[1].amount), (2, 30));
}

#[test]
fn repeated_backer_gets_one_entry() {
    let mut g = seeded_game();
    g.contribute(0, "DOGE".to_string(), 50, 1, 10).unwrap();
    g.contribute(0, "DOGE".to_string(), 25, 1, 20).unwrap();
    let b = &g.boxes[0];
    assert_eq!(b.contributions.len(), 1);
    assert_eq!(b.contributions[0].user, 1);
    assert_eq!(b.contributions[0].amount, 75);
    assert_eq!(b.amount, 175);
}

#[test]
fn weak_challenge_is_absorbed() {
    let mut g = game_after_three_contributions();
    let b = &g.boxes[0];
    assert_eq!(b.leading_label, "DOGE");
    assert_eq!(b.amount, 220);
    assert_eq!(b.last_leader_change_time, 10);
    assert_eq!(b.contributions.len(), 2);
    assert_eq!((b.contributions[0].user, b.contributions[0].amount), (1, 50));
    assert_eq!((b.contributions[1].user, b.contributions[1].amount), (2, 30));
    assert_eq!(g.prize_pool, 1020);
}

#[test]
fn exact_tie_never_changes_leadership() {
    let mut g = game_after_three_contributions();
    // the box pools 220; an exactly equal challenge must not take over
    let r = g.contribute(0, "SHIB".to_string(), 220, 4, 40);
    assert_eq!(r, Ok(()));
    let b = &g.boxes[0];
    assert_eq!(b.leading_label, "DOGE");
    assert_eq!(b.amount, 440);
    assert_eq!(b.last_leader_change_time, 10);
    assert_eq!(b.contributions.len(), 2);
}

#[test]
fn strictly_greater_challenge_takes_over() {
    let mut g = game_after_three_contributions();
    let r = g.contribute(0, "SHIB".to_string(), 221, 4, 40);
    assert_eq!(r, Ok(()));
    let b = &g.boxes[0];
    assert_eq!(b.leading_label, "SHIB");
    assert_eq!(b.amount, 441);
    assert_eq!(b.start_time, 40);
    assert_eq!(b.last_leader_change_time, 40);
    assert_eq!(b.contributions.len(), 1);
    assert_eq!((b.contributions[0].user, b.contributions[0].amount), (4, 221));
    assert_eq!(b.previous_leaders.len(), 1);
    assert_eq!(b.previous_leaders[0].label, "DOGE");
    assert_eq!(b.previous_leaders[0].amount, 220);
}

#[test]
fn claim_pays_proportional_share() {
    let mut g = game_after_three_contributions();
    let r = g.claim(0, &"DOGE".to_string(), 1, 10 + COOLDOWN);
    // floor(50 * 220 / 80)
    assert_eq!(r, Ok(137));
    let b = &g.boxes[0];
    assert_eq!(b.amount, 220 - 137);
    assert_eq!(b.contributions.len(), 1);
    assert_eq!((b.contributions[0].user, b.contributions[0].amount), (2, 30));
    assert_eq!(g.prize_pool, 1020 - 137);
}

#[test]
fn second_claim_gets_no_contribution() {
    let mut g = game_after_three_contributions();
    g.claim(0, &"DOGE".to_string(), 1, 10 + COOLDOWN).unwrap();
    let again = g.claim(0, &"DOGE".to_string(), 1, 11 + COOLDOWN);
    assert_eq!(again, Err(ErrorCode::NoContribution));
}

#[test]
fn last_claimant_drains_and_resets_the_box() {
    let mut g = game_after_three_contributions();
    g.claim(0, &"DOGE".to_string(), 1, 10 + COOLDOWN).unwrap();
    // the remaining backer owns the whole ledger: floor(30 * 83 / 30) == 83
    let r = g.claim(0, &"DOGE".to_string(), 2, 10 + COOLDOWN);
    assert_eq!(r, Ok(83));
    let b = &g.boxes[0];
    assert!(b.leading_label.is_empty());
    assert_eq!(b.amount, 0);
    assert_eq!(b.start_time, 0);
    assert_eq!(b.last_leader_change_time, 0);
    assert!(b.contributions.is_empty());
    assert!(b.previous_leaders.is_empty());
    assert_eq!(g.prize_pool, 800);
}

#[test]
fn claim_after_reset_reports_stale_label() {
    let mut g = GameState::initialize_game(9, 100, COOLDOWN).unwrap();
    g.contribute(0, "DOGE".to_string(), 50, 1, 10).unwrap();
    // the sole backer's claim drains and resets the box, so a repeat under
    // the old label finds no leader to claim against
    g.claim(0, &"DOGE".to_string(), 1, 10 + COOLDOWN).unwrap();
    let again = g.claim(0, &"DOGE".to_string(), 1, 11 + COOLDOWN);
    assert_eq!(again, Err(ErrorCode::NotLeadingLabel));
}

#[test]
fn claim_before_cooldown_is_refused() {
    let mut g = game_after_three_contributions();
    let r = g.claim(0, &"DOGE".to_string(), 1, 10 + COOLDOWN - 1);
    assert_eq!(r, Err(ErrorCode::TimeLockNotElapsed));
    // the refusal leaves everything as it was
    assert_eq!(g.boxes[0].amount, 220);
    assert_eq!(g.prize_pool, 1020);
}

#[test]
fn claim_at_cooldown_boundary_is_paid() {
    let mut g = game_after_three_contributions();
    let r = g.claim(0, &"DOGE".to_string(), 1, 10 + COOLDOWN);
    assert!(r.is_ok());
}

#[test]
fn claim_against_stale_label_is_refused() {
    let mut g = game_after_three_contributions();
    g.contribute(0, "SHIB".to_string(), 221, 4, 40).unwrap();
    let r = g.claim(0, &"DOGE".to_string(), 1, 40 + COOLDOWN);
    assert_eq!(r, Err(ErrorCode::NotLeadingLabel));
}

#[test]
fn claim_on_idle_box_is_refused() {
    let mut g = seeded_game();
    let r = g.claim(1, &String::new(), 1, COOLDOWN);
    assert_eq!(r, Err(ErrorCode::NoContribution));
}

#[test]
fn contribute_rejects_bad_box_number() {
    let mut g = seeded_game();
    let r = g.contribute(9, "DOGE".to_string(), 50, 1, 10);
    assert_eq!(r, Err(ErrorCode::InvalidBoxNumber));
    assert_eq!(g.prize_pool, 900);
}

#[test]
fn contribute_rejects_zero_amount() {
    let mut g = seeded_game();
    let r = g.contribute(0, "DOGE".to_string(), 0, 1, 10);
    assert_eq!(r, Err(ErrorCode::InvalidAmount));
}

#[test]
fn contribute_rejects_empty_label() {
    let mut g = seeded_game();
    let r = g.contribute(0, String::new(), 50, 1, 10);
    assert_eq!(r, Err(ErrorCode::InvalidLabel));
}

#[test]
fn claim_by_non_backer_gets_no_contribution() {
    let mut g = game_after_three_contributions();
    // participant 3's absorbed challenge earned no ledger claim
    let r = g.claim(0, &"DOGE".to_string(), 3, 10 + COOLDOWN);
    assert_eq!(r, Err(ErrorCode::NoContribution));
}

#[test]
fn claim_rejects_bad_box_number() {
    let mut g = seeded_game();
    let r = g.claim(9, &"DOGE".to_string(), 1, COOLDOWN);
    assert_eq!(r, Err(ErrorCode::InvalidBoxNumber));
}

#[test]
fn boxes_are_independent_but_share_the_pool() {
    let mut g = seeded_game();
    g.contribute(0, "DOGE".to_string(), 50, 1, 10).unwrap();
    g.contribute(5, "PEPE".to_string(), 70, 2, 15).unwrap();
    assert_eq!(g.boxes[0].leading_label, "DOGE");
    assert_eq!(g.boxes[5].leading_label, "PEPE");
    assert_eq!(g.boxes[5].amount, 170);
    assert_eq!(g.boxes[1].amount, 100);
    assert_eq!(g.prize_pool, 900 + 50 + 70);
}

#[test]
fn getters_report_the_boxes() {
    let g = seeded_game();
    assert_eq!(g.box_count(), 9);
    assert!(g.get_box(8).is_some());
    assert_eq!(g.get_box(8).unwrap().amount, 100);
    assert!(g.get_box(9).is_none());
}
