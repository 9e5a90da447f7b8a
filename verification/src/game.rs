//! The game aggregate: the boxes, the prize-pool counter, and the
//! conservation invariant that ties them together.

use vstd::prelude::*;

use crate::errors::ErrorCode;
use crate::ledger::{
    amounts_positive, ledger_sum, users_unique, TokenContribution,
};

verus! {

/// A displaced leader, kept as history: the label and the pooled amount it
/// held when it was overtaken.
pub struct Leader {
    pub label: String,
    pub amount: u64,
}

/// One auction slot.
pub struct GameBox {
    /// The asset label currently winning the box; empty while no round is
    /// active.
    pub leading_label: String,
    /// The pooled stake the box holds: the leading label's backing, plus the
    /// initial seed and any absorbed losing stakes.
    pub amount: u64,
    /// When the current round started.
    pub start_time: u64,
    /// When leadership last changed.
    pub last_leader_change_time: u64,
    /// The ledger of the current leading label's backers.
    pub contributions: Vec<TokenContribution>,
    /// Leaders displaced during the current round, oldest first.
    pub previous_leaders: Vec<Leader>,
}

/// The persisted aggregate: a fixed sequence of boxes, the prize-pool counter
/// mirroring their pooled amounts, and the settlement cooldown.
pub struct GameState {
    pub boxes: Vec<GameBox>,
    /// Always the sum of the boxes' amounts: everything the custodial pool
    /// holds on the game's behalf.
    pub prize_pool: u64,
    /// Minimum time since the last leadership change before settlement is
    /// allowed.
    pub cooldown: u64,
}

/// A box's internal consistency:
/// each backer holds one positive entry; the ledger never records more stake
/// than the box pools (the seed and absorbed losing stakes inflate the pool
/// without a ledger claim); and a box has a leading label exactly while it
/// has backers.
pub open spec fn box_wf(b: GameBox) -> bool {
    &&& users_unique(b.contributions@)
    &&& amounts_positive(b.contributions@)
    &&& ledger_sum(b.contributions@) <= b.amount
    &&& (b.leading_label@.len() == 0 <==> b.contributions@.len() == 0)
}

/// A box holding `amount` of pooled stake and nothing else: no active round,
/// no ledger, no history, timers cleared. Fresh boxes hold the seed; settled
/// boxes hold zero.
pub open spec fn box_ready(b: GameBox, amount: u64) -> bool {
    &&& b.leading_label@.len() == 0
    &&& b.amount == amount
    &&& b.start_time == 0
    &&& b.last_leader_change_time == 0
    &&& b.contributions@.len() == 0
    &&& b.previous_leaders@.len() == 0
}

/// The total pooled stake across a sequence of boxes.
pub open spec fn boxes_sum(s: Seq<GameBox>) -> int
    decreases s.len(),
{
    if s.len() == 0 {
        0
    } else {
        boxes_sum(s.drop_last()) + s.last().amount
    }
}

pub proof fn lemma_boxes_sum_nonneg(s: Seq<GameBox>)
    ensures
        boxes_sum(s) >= 0,
    decreases s.len(),
{
    if s.len() > 0 {
        lemma_boxes_sum_nonneg(s.drop_last());
    }
}

pub proof fn lemma_boxes_sum_push(s: Seq<GameBox>, b: GameBox)
    ensures
        boxes_sum(s.push(b)) == boxes_sum(s) + b.amount,
{
    assert(s.push(b).drop_last() =~= s);
    assert(s.push(b).last() == b);
}

pub proof fn lemma_boxes_sum_update(s: Seq<GameBox>, i: int, b: GameBox)
    requires
        0 <= i < s.len(),
    ensures
        boxes_sum(s.update(i, b)) == boxes_sum(s) - s[i].amount + b.amount,
    decreases s.len(),
{
    let t = s.update(i, b);
    if i == s.len() - 1 {
        assert(t.drop_last() =~= s.drop_last());
        assert(t.last() == b);
    } else {
        assert(t.drop_last() =~= s.drop_last().update(i, b));
        lemma_boxes_sum_update(s.drop_last(), i, b);
        assert(t.last() == s.last());
    }
}

/// A single box pools no more than all boxes together.
pub proof fn lemma_box_le_sum(s: Seq<GameBox>, i: int)
    requires
        0 <= i < s.len(),
    ensures
        s[i].amount <= boxes_sum(s),
    decreases s.len(),
{
    if i == s.len() - 1 {
        lemma_boxes_sum_nonneg(s.drop_last());
    } else {
        lemma_box_le_sum(s.drop_last(), i);
        assert(s.drop_last()[i] == s[i]);
    }
}

impl GameBox {
    /// A fresh box pooling `amount`, with no round under way.
    pub fn new(amount: u64) -> (b: GameBox)
        ensures
            box_ready(b, amount),
            box_wf(b),
    {
        GameBox {
            leading_label: String::new(),
            amount,
            start_time: 0,
            last_leader_change_time: 0,
            contributions: Vec::new(),
            previous_leaders: Vec::new(),
        }
    }
}

impl GameState {
    /// Conservation of value, the game's standing invariant: the prize-pool
    /// counter equals the sum of the boxes' pooled amounts, and every box is
    /// internally consistent. Established by `initialize_game` and preserved
    /// by every operation.
    pub open spec fn wf(self) -> bool {
        &&& boxes_sum(self.boxes@) == self.prize_pool
        &&& forall|i: int| 0 <= i < self.boxes@.len() ==> #[trigger] box_wf(self.boxes@[i])
    }

    /// Creates a game of `box_count` boxes, each seeded with `seed_amount`,
    /// so the prize pool starts at `box_count * seed_amount`. The caller owes
    /// the custodial pool a transfer of that whole total; the seed carries no
    /// ledger entry, so it is never claimable on its own and is inherited by
    /// the round's eventual winners. Refused when the total cannot be
    /// represented.
    pub fn initialize_game(box_count: usize, seed_amount: u64, cooldown: u64) -> (r: Result<
        GameState,
        ErrorCode,
    >)
        ensures
            match r {
                Ok(g) => {
                    &&& g.wf()
                    &&& g.boxes@.len() == box_count
                    &&& forall|i: int|
                        0 <= i < box_count ==> box_ready(#[trigger] g.boxes@[i], seed_amount)
                    &&& g.prize_pool == box_count * seed_amount
                    &&& g.cooldown == cooldown
                },
                Err(e) => {
                    &&& e == ErrorCode::Overflow
                    &&& box_count * seed_amount > u64::MAX
                },
            },
    {
        let total = match seed_amount.checked_mul(box_count as u64) {
            Some(t) => t,
            None => {
                return Err(ErrorCode::Overflow);
            },
        };
        let mut boxes: Vec<GameBox> = Vec::new();
        let mut k: usize = 0;
        while k < box_count
            invariant
                k <= box_count,
                boxes@.len() == k,
                forall|i: int| 0 <= i < k ==> box_ready(#[trigger] boxes@[i], seed_amount),
                forall|i: int| 0 <= i < k ==> #[trigger] box_wf(boxes@[i]),
                boxes_sum(boxes@) == k * seed_amount,
            decreases box_count - k,
        {
            proof {
                assert((k + 1) * seed_amount == k * seed_amount + seed_amount)
                    by (nonlinear_arith);
            }
            let b = GameBox::new(seed_amount);
            proof {
                lemma_boxes_sum_push(boxes@, b);
            }
            boxes.push(b);
            k = k + 1;
        }
        Ok(GameState { boxes, prize_pool: total, cooldown })
    }

    /// How many boxes the game has.
    pub fn box_count(&self) -> (n: usize)
        ensures
            n == self.boxes@.len(),
    {
        self.boxes.len()
    }

    /// Read-only lookup of one box.
    pub fn get_box(&self, box_number: usize) -> (r: Option<&GameBox>)
        ensures
            match r {
                Some(b) => box_number < self.boxes@.len() && *b == self.boxes@[box_number as int],
                None => box_number >= self.boxes@.len(),
            },
    {
        if box_number < self.boxes.len() {
            Some(&self.boxes[box_number])
        } else {
            None
        }
    }
}

} // verus!
