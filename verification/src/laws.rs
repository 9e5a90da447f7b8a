//! Laws of the game as a whole, stated over the operations' contracts and
//! proved once for every state and input they admit.

use vstd::prelude::*;

use crate::errors::ErrorCode;
use crate::game::{box_wf, boxes_sum, GameState};
use crate::ledger::{ledger_sum, lemma_remove_user_absent};
use crate::processor::box_contribute_post;
use crate::settlement::{box_settle_post, claim_check};

verus! {

/// Conservation of value: in every consistent game state the prize-pool
/// counter equals the sum of the boxes' pooled amounts. Every operation
/// requires and re-establishes `wf`, so this holds of every reachable state.
pub proof fn lemma_prize_pool_conserved(g: GameState)
    requires
        g.wf(),
    ensures
        boxes_sum(g.boxes@) == g.prize_pool,
{
}

/// A box's ledger never records more stake than the box pools. Equality is
/// not promised: the seed and absorbed losing stakes inflate the pool with
/// no ledger claim, and settlement distributes that excess pro rata.
pub proof fn lemma_ledger_covered_by_pool(g: GameState, box_number: int)
    requires
        g.wf(),
        0 <= box_number < g.boxes@.len(),
    ensures
        ledger_sum(g.boxes@[box_number].contributions@) <= g.boxes@[box_number].amount,
{
    assert(box_wf(g.boxes@[box_number]));
}

/// Settled claims are not paid twice: once a claim by `claimant` has been
/// paid against a box that still has other backers, a repeated claim by the
/// same claimant under the same label, at the same or any later time, is
/// answered `NoContribution`.
pub proof fn lemma_claim_idempotent(
    pre: GameState,
    post: GameState,
    box_number: int,
    expected_label: Seq<char>,
    claimant: u64,
    share: u64,
    now: u64,
    later: u64,
)
    requires
        pre.wf(),
        0 <= box_number < pre.boxes@.len(),
        post.boxes@.len() == pre.boxes@.len(),
        post.cooldown == pre.cooldown,
        claim_check(pre, box_number, expected_label, claimant, now) is None,
        box_settle_post(pre.boxes@[box_number], post.boxes@[box_number], claimant, share),
        post.boxes@[box_number].contributions@.len() > 0,
        later >= now,
    ensures
        claim_check(post, box_number, expected_label, claimant, later) == Some(
            ErrorCode::NoContribution,
        ),
{
    assert(box_wf(pre.boxes@[box_number]));
    let s = pre.boxes@[box_number].contributions@;
    if s.len() == 1 {
        // the sole backer's claim would have reset the box, leaving its
        // ledger empty
        assert(false);
    }
    lemma_remove_user_absent(s, claimant);
}

/// A tie never changes the leader: a stake under a challenger label that
/// does not strictly exceed the box's pooled amount — equality included —
/// leaves the leading label, the ledger, and the leadership timer exactly as
/// they were; only the pool grows.
pub proof fn lemma_tie_keeps_leader(
    pre: GameState,
    post: GameState,
    box_number: int,
    label: Seq<char>,
    amount: u64,
    user: u64,
    now: u64,
)
    requires
        0 <= box_number < pre.boxes@.len(),
        box_contribute_post(
            pre.boxes@[box_number],
            post.boxes@[box_number],
            label,
            amount,
            user,
            now,
        ),
        pre.boxes@[box_number].leading_label@ != label,
        pre.boxes@[box_number].leading_label@.len() > 0,
        amount <= pre.boxes@[box_number].amount,
    ensures
        post.boxes@[box_number].leading_label == pre.boxes@[box_number].leading_label,
        post.boxes@[box_number].contributions == pre.boxes@[box_number].contributions,
        post.boxes@[box_number].last_leader_change_time == pre.boxes@[
            box_number
        ].last_leader_change_time,
        post.boxes@[box_number].amount == pre.boxes@[box_number].amount + amount,
{
}

} // verus!
