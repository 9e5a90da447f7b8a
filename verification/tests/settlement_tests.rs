use meme_box_game::errors::ErrorCode;
use meme_box_game::game::GameState;
use meme_box_game::swap::raydium_swap_instruction_data;

const COOLDOWN: u64 = 3600;

fn game_after_three_contributions() -> GameState {
    let mut g = GameState::initialize_game(9, 100, COOLDOWN).unwrap();
    g.contribute(0, "DOGE".to_string(), 50, 1, 10).unwrap();
    g.contribute(0, "DOGE".to_string(), 30, 2, 20).unwrap();
    g.contribute(0, "SHIB".to_string(), 40, 3, 30).unwrap();
    g
}

#[test]
fn process_rewards_drains_the_whole_box() {
    let mut g = game_after_three_contributions();
    let payouts = g.process_rewards(0, 10 + COOLDOWN).unwrap();
    // in ledger order, each share against the then-remaining pool:
    // floor(50 * 220 / 80) == 137, then floor(30 * 83 / 30) == 83
    assert_eq!(payouts.len(), 2);
    assert_eq!((payouts[0].user, payouts[0].amount), (1, 137));
    assert_eq!((payouts[1].user, payouts[1].amount), (2, 83));
    assert_eq!(payouts[0].amount + payouts[1].amount, 220);
    let b = &g.boxes[0];
    assert!(b.leading_label.is_empty());
    assert_eq!(b.amount, 0);
    assert!(b.contributions.is_empty());
    assert!(b.previous_leaders.is_empty());
    assert_eq!(g.prize_pool, 800);
}

#[test]
fn process_rewards_respects_the_time_lock() {
    let mut g = game_after_three_contributions();
    let r = g.process_rewards(0, 10 + COOLDOWN - 1);
    assert_eq!(r, Err(ErrorCode::TimeLockNotElapsed));
    assert_eq!(g.boxes[0].amount, 220);
}

#[test]
fn process_rewards_rejects_bad_box_number() {
    let mut g = game_after_three_contributions();
    let r = g.process_rewards(9, 10 + COOLDOWN);
    assert_eq!(r, Err(ErrorCode::InvalidBoxNumber));
}

#[test]
fn process_rewards_on_idle_box_is_refused() {
    let mut g = GameState::initialize_game(9, 100, COOLDOWN).unwrap();
    let r = g.process_rewards(3, COOLDOWN);
    assert_eq!(r, Err(ErrorCode::NoContribution));
    assert_eq!(g.prize_pool, 900);
}

#[test]
fn sole_backer_inherits_seed_and_absorbed_stakes() {
    let mut g = GameState::initialize_game(2, 100, COOLDOWN).unwrap();
    g.contribute(1, "DOGE".to_string(), 50, 7, 10).unwrap();
    g.contribute(1, "SHIB".to_string(), 60, 8, 20).unwrap();
    let payouts = g.process_rewards(1, 10 + COOLDOWN).unwrap();
    assert_eq!(payouts.len(), 1);
    // the one backer takes the seed and the absorbed challenge with them
    assert_eq!((payouts[0].user, payouts[0].amount), (7, 210));
    assert_eq!(g.prize_pool, 100);
}

#[test]
fn settled_box_opens_a_fresh_round() {
    let mut g = game_after_three_contributions();
    g.process_rewards(0, 10 + COOLDOWN).unwrap();
    let later = 20 + COOLDOWN;
    let r = g.contribute(0, "PEPE".to_string(), 5, 9, later);
    assert_eq!(r, Ok(()));
    let b = &g.boxes[0];
    assert_eq!(b.leading_label, "PEPE");
    assert_eq!(b.amount, 5);
    assert_eq!(b.start_time, later);
    assert_eq!(b.last_leader_change_time, later);
    assert_eq!(b.contributions.len(), 1);
    assert_eq!(g.prize_pool, 805);
}

#[test]
fn contribute_overflow_is_refused_not_wrapped() {
    let mut g = GameState::initialize_game(9, 100, COOLDOWN).unwrap();
    let r = g.contribute(0, "DOGE".to_string(), u64::MAX - 899, 1, 10);
    assert_eq!(r, Err(ErrorCode::Overflow));
    assert_eq!(g.prize_pool, 900);
    assert_eq!(g.boxes[0].amount, 100);
}

#[test]
fn contribute_up_to_the_pool_limit_is_accepted() {
    let mut g = GameState::initialize_game(9, 100, COOLDOWN).unwrap();
    let r = g.contribute(0, "DOGE".to_string(), u64::MAX - 900, 1, 10);
    assert_eq!(r, Ok(()));
    assert_eq!(g.prize_pool, u64::MAX);
    assert_eq!(g.boxes[0].amount, u64::MAX - 800);
}

#[test]
fn initialize_overflow_is_refused() {
    let r = GameState::initialize_game(9, u64::MAX / 2, COOLDOWN);
    assert_eq!(r.err(), Some(ErrorCode::Overflow));
}

#[test]
fn huge_stakes_settle_without_wrapping() {
    let mut g = GameState::initialize_game(1, 0, COOLDOWN).unwrap();
    let huge = u64::MAX / 2;
    g.contribute(0, "DOGE".to_string(), huge, 1, 0).unwrap();
    g.contribute(0, "DOGE".to_string(), huge, 2, 5).unwrap();
    // shares are computed in 128-bit arithmetic: each backer of half the
    // ledger gets half the pool, floor-rounded
    let pool = 2 * huge;
    let r = g.claim(0, &"DOGE".to_string(), 1, COOLDOWN);
    assert_eq!(r, Ok(huge));
    assert_eq!(g.boxes[0].amount, pool - huge);
    let r2 = g.claim(0, &"DOGE".to_string(), 2, COOLDOWN);
    assert_eq!(r2, Ok(huge));
    assert_eq!(g.prize_pool, 0);
    assert!(g.boxes[0].leading_label.is_empty());
}

#[test]
fn swap_payload_encodes_op_code_and_amount() {
    let data = raydium_swap_instruction_data(0x0102030405060708);
    assert_eq!(data, vec![9, 8, 7, 6, 5, 4, 3, 2, 1]);
}

#[test]
fn swap_payload_encodes_small_amount() {
    let data = raydium_swap_instruction_data(1);
    assert_eq!(data.len(), 9);
    assert_eq!(data[0], 9);
    assert_eq!(data[1], 1);
    for k in 2..9 {
        assert_eq!(data[k], 0);
    }
}
