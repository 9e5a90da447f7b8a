//! Applying a contribution to a box: validation, leader election, ledger
//! upkeep.
//!
//! A stake offered under the box's leading label accumulates into its
//! backer's ledger entry. A stake offered under any other label is a
//! challenge: it takes over leadership only when it is strictly greater than
//! the box's whole pooled amount — so a tie never changes the leader — and a
//! takeover wipes the displaced backers' ledger attribution while their money
//! stays in the pool. A failed challenge is absorbed into the pool with no
//! ledger claim.

use vstd::prelude::*;

use crate::errors::ErrorCode;
use crate::game::{
    box_wf, boxes_sum, GameBox, GameState, Leader, lemma_box_le_sum, lemma_boxes_sum_update,
};
use crate::ledger::{
    amount_of, amounts_positive, contains_user, find_user, ledger_sum, lemma_entry_le_sum,
    lemma_ledger_sum_nonneg, lemma_ledger_sum_push, lemma_ledger_sum_update,
    lemma_user_index_of, user_index, users_unique, TokenContribution,
};

verus! {

/// Which error, if any, `contribute` answers for these inputs; `None` means
/// the stake is accepted.
pub open spec fn contribute_check(
    g: GameState,
    box_number: int,
    label: Seq<char>,
    amount: u64,
) -> Option<ErrorCode> {
    if box_number >= g.boxes@.len() {
        Some(ErrorCode::InvalidBoxNumber)
    } else if amount == 0 {
        Some(ErrorCode::InvalidAmount)
    } else if label.len() == 0 {
        Some(ErrorCode::InvalidLabel)
    } else if g.prize_pool + amount > u64::MAX {
        Some(ErrorCode::Overflow)
    } else {
        None
    }
}

/// How an accepted stake of `amount` under `label`, offered by `user` at time
/// `now`, turns box `b` into box `nb`. The pooled amount always grows by the
/// stake; what else changes depends on how the offered label relates to the
/// leading one.
pub open spec fn box_contribute_post(
    b: GameBox,
    nb: GameBox,
    label: Seq<char>,
    amount: u64,
    user: u64,
    now: u64,
) -> bool {
    &&& nb.amount == b.amount + amount
    &&& if b.leading_label@ == label {
        // backing the incumbent: leadership and its timer stand; the stake
        // accumulates into the backer's entry, created if absent
        &&& nb.leading_label == b.leading_label
        &&& nb.start_time == b.start_time
        &&& nb.last_leader_change_time == b.last_leader_change_time
        &&& nb.previous_leaders == b.previous_leaders
        &&& if contains_user(b.contributions@, user) {
            nb.contributions@ == b.contributions@.update(
                user_index(b.contributions@, user),
                TokenContribution {
                    user,
                    amount: (amount_of(b.contributions@, user) + amount) as u64,
                },
            )
        } else {
            nb.contributions@ == b.contributions@.push(TokenContribution { user, amount })
        }
    } else if b.leading_label@.len() == 0 {
        // opening a round: the first stake takes leadership outright
        &&& nb.leading_label@ == label
        &&& nb.start_time == now
        &&& nb.last_leader_change_time == now
        &&& nb.previous_leaders == b.previous_leaders
        &&& nb.contributions@ == seq![TokenContribution { user, amount }]
    } else if amount > b.amount {
        // successful challenge: leadership changes, the displaced leader is
        // recorded, and the ledger is wiped and reseeded with the challenger
        &&& nb.leading_label@ == label
        &&& nb.start_time == now
        &&& nb.last_leader_change_time == now
        &&& nb.previous_leaders@ == b.previous_leaders@.push(
            Leader { label: b.leading_label, amount: b.amount },
        )
        &&& nb.contributions@ == seq![TokenContribution { user, amount }]
    } else {
        // failed challenge (ties included): everything but the pooled amount
        // stands; the stake is absorbed with no ledger claim
        &&& nb.leading_label == b.leading_label
        &&& nb.start_time == b.start_time
        &&& nb.last_leader_change_time == b.last_leader_change_time
        &&& nb.previous_leaders == b.previous_leaders
        &&& nb.contributions == b.contributions
    }
}

impl GameBox {
    /// Accumulates a stake behind the current leading label.
    fn back_incumbent(&mut self, amount: u64, user: u64)
        requires
            box_wf(*old(self)),
            old(self).leading_label@.len() > 0,
            amount > 0,
            old(self).amount + amount <= u64::MAX,
        ensures
            box_wf(*final(self)),
            final(self).amount == old(self).amount + amount,
            final(self).leading_label == old(self).leading_label,
            final(self).start_time == old(self).start_time,
            final(self).last_leader_change_time == old(self).last_leader_change_time,
            final(self).previous_leaders == old(self).previous_leaders,
            if contains_user(old(self).contributions@, user) {
                final(self).contributions@ == old(self).contributions@.update(
                    user_index(old(self).contributions@, user),
                    TokenContribution {
                        user,
                        amount: (amount_of(old(self).contributions@, user) + amount) as u64,
                    },
                )
            } else {
                final(self).contributions@ == old(self).contributions@.push(
                    TokenContribution { user, amount },
                )
            },
    {
        let ghost s = self.contributions@;
        self.amount = self.amount + amount;
        match find_user(&self.contributions, user) {
            Some(i) => {
                proof {
                    lemma_entry_le_sum(s, i as int);
                    lemma_user_index_of(s, i as int);
                }
                let cur = self.contributions[i].amount;
                self.contributions.set(i, TokenContribution { user, amount: cur + amount });
                proof {
                    let e = TokenContribution { user, amount: (cur + amount) as u64 };
                    lemma_ledger_sum_update(s, i as int, e);
                    let t = self.contributions@;
                    assert forall|p: int, q: int|
                        0 <= p < q < t.len() implies t[p].user != t[q].user by {
                        assert(t[p].user == s[p].user);
                        assert(t[q].user == s[q].user);
                    }
                    assert(amounts_positive(t));
                }
            },
            None => {
                self.contributions.push(TokenContribution { user, amount });
                proof {
                    lemma_ledger_sum_push(s, TokenContribution { user, amount });
                    let t = self.contributions@;
                    assert forall|p: int, q: int|
                        0 <= p < q < t.len() implies t[p].user != t[q].user by {
                        if q == s.len() {
                            assert(t[p] == s[p]);
                            assert(s[p].user != user);
                        } else {
                            assert(t[p] == s[p]);
                            assert(t[q] == s[q]);
                        }
                    }
                    assert(amounts_positive(t));
                }
            },
        }
    }

    /// Opens a round on an idle box: the first stake takes leadership.
    fn open_round(&mut self, label: String, amount: u64, user: u64, now: u64)
        requires
            box_wf(*old(self)),
            old(self).leading_label@.len() == 0,
            label@.len() > 0,
            amount > 0,
            old(self).amount + amount <= u64::MAX,
        ensures
            box_wf(*final(self)),
            final(self).amount == old(self).amount + amount,
            final(self).leading_label == label,
            final(self).start_time == now,
            final(self).last_leader_change_time == now,
            final(self).previous_leaders == old(self).previous_leaders,
            final(self).contributions@ == seq![TokenContribution { user, amount }],
    {
        self.leading_label = label;
        self.amount = self.amount + amount;
        self.start_time = now;
        self.last_leader_change_time = now;
        self.contributions.push(TokenContribution { user, amount });
        proof {
            reveal_with_fuel(ledger_sum, 2);
            let t = self.contributions@;
            assert(t =~= seq![TokenContribution { user, amount }]);
            assert(t.drop_last() =~= Seq::<TokenContribution>::empty());
            assert(ledger_sum(t) == amount);
        }
    }

    /// Changes leadership to a strictly stronger challenger: records the
    /// displaced leader, restarts the round's timers, and reseeds the ledger
    /// with the challenger alone.
    fn take_over(&mut self, label: String, amount: u64, user: u64, now: u64)
        requires
            box_wf(*old(self)),
            old(self).leading_label@.len() > 0,
            label@.len() > 0,
            amount > old(self).amount,
            old(self).amount + amount <= u64::MAX,
        ensures
            box_wf(*final(self)),
            final(self).amount == old(self).amount + amount,
            final(self).leading_label == label,
            final(self).start_time == now,
            final(self).last_leader_change_time == now,
            final(self).previous_leaders@ == old(self).previous_leaders@.push(
                Leader { label: old(self).leading_label, amount: old(self).amount },
            ),
            final(self).contributions@ == seq![TokenContribution { user, amount }],
    {
        let displaced = Leader { label: self.leading_label.clone(), amount: self.amount };
        self.previous_leaders.push(displaced);
        self.leading_label = label;
        self.amount = self.amount + amount;
        self.start_time = now;
        self.last_leader_change_time = now;
        self.contributions.clear();
        self.contributions.push(TokenContribution { user, amount });
        proof {
            reveal_with_fuel(ledger_sum, 2);
            let t = self.contributions@;
            assert(t =~= seq![TokenContribution { user, amount }]);
            assert(t.drop_last() =~= Seq::<TokenContribution>::empty());
            assert(ledger_sum(t) == amount);
        }
    }

    /// Absorbs a failed challenge: the stake sinks into the pool and nothing
    /// else moves.
    fn absorb(&mut self, amount: u64)
        requires
            box_wf(*old(self)),
            old(self).amount + amount <= u64::MAX,
        ensures
            box_wf(*final(self)),
            final(self).amount == old(self).amount + amount,
            final(self).leading_label == old(self).leading_label,
            final(self).start_time == old(self).start_time,
            final(self).last_leader_change_time == old(self).last_leader_change_time,
            final(self).previous_leaders == old(self).previous_leaders,
            final(self).contributions == old(self).contributions,
    {
        self.amount = self.amount + amount;
    }
}

impl GameState {
    /// Offers a stake of `amount` under `label` for the box at `box_number`,
    /// on behalf of `user`, at time `now`.
    ///
    /// An accepted stake always grows the box's pool and the prize pool by
    /// `amount` — the caller owes the custodial pool a matching transfer —
    /// and updates leadership as `box_contribute_post` states. A refused
    /// stake (see `contribute_check`) leaves the game untouched, so an
    /// aborted transfer needs no undoing.
    pub fn contribute(
        &mut self,
        box_number: usize,
        label: String,
        amount: u64,
        user: u64,
        now: u64,
    ) -> (r: Result<(), ErrorCode>)
        requires
            old(self).wf(),
        ensures
            final(self).wf(),
            final(self).cooldown == old(self).cooldown,
            final(self).boxes@.len() == old(self).boxes@.len(),
            match r {
                Ok(()) => {
                    &&& contribute_check(*old(self), box_number as int, label@, amount) is None
                    &&& final(self).prize_pool == old(self).prize_pool + amount
                    &&& box_contribute_post(
                        old(self).boxes@[box_number as int],
                        final(self).boxes@[box_number as int],
                        label@,
                        amount,
                        user,
                        now,
                    )
                    &&& forall|j: int|
                        0 <= j < old(self).boxes@.len() && j != box_number
                            ==> final(self).boxes@[j] == old(self).boxes@[j]
                },
                Err(e) => {
                    &&& contribute_check(*old(self), box_number as int, label@, amount)
                        == Some(e)
                    &&& *final(self) == *old(self)
                },
            },
    {
        if box_number >= self.boxes.len() {
            return Err(ErrorCode::InvalidBoxNumber);
        }
        if amount == 0 {
            return Err(ErrorCode::InvalidAmount);
        }
        if label.as_str().is_empty() {
            return Err(ErrorCode::InvalidLabel);
        }
        if amount > u64::MAX - self.prize_pool {
            return Err(ErrorCode::Overflow);
        }
        proof {
            lemma_box_le_sum(self.boxes@, box_number as int);
            lemma_ledger_sum_nonneg(self.boxes@[box_number as int].contributions@);
        }
        let b = &mut self.boxes[box_number];
        if b.leading_label == label {
            b.back_incumbent(amount, user);
        } else if b.leading_label.as_str().is_empty() {
            b.open_round(label, amount, user, now);
        } else if amount > b.amount {
            b.take_over(label, amount, user, now);
        } else {
            b.absorb(amount);
        }
        self.prize_pool = self.prize_pool + amount;
        proof {
            lemma_boxes_sum_update(
                old(self).boxes@,
                box_number as int,
                self.boxes@[box_number as int],
            );
            assert(self.boxes@ =~= old(self).boxes@.update(
                box_number as int,
                self.boxes@[box_number as int],
            ));
        }
        Ok(())
    }
}

} // verus!
