//! Settlement: paying a box's backers their proportional shares of its pool
//! and resetting the box once its ledger is drained.
//!
//! A backer's share is `floor(stake * pool / ledger_total)`, computed in
//! 128-bit arithmetic so the product cannot overflow. The pool may exceed the
//! ledger total (it also holds the seed and absorbed losing stakes); the
//! excess is distributed pro rata by the same formula, so every share is at
//! least the backer's own stake and the last backer to settle drains the box
//! exactly. Value is conserved: the prize pool drops by exactly what is paid.

use vstd::prelude::*;

use crate::errors::ErrorCode;
use crate::game::{
    box_ready, box_wf, GameBox, GameState, lemma_box_le_sum, lemma_boxes_sum_update,
};
use crate::ledger::{
    amount_of, contains_user, find_user, ledger_sum, ledger_total, lemma_entry_le_sum,
    lemma_ledger_sum_remove, lemma_remove_keeps_ledger_wf,
    lemma_remove_user_absent, lemma_user_index_of, user_index, TokenContribution,
};

verus! {

/// One payout owed by settlement: `amount` is to be transferred from the
/// custodial pool to `user` (converted through the exchange venue first when
/// the pooled asset is not the payout asset).
#[derive(Clone, Copy, Debug, PartialEq, Eq, Structural)]
pub struct Payout {
    pub user: u64,
    pub amount: u64,
}

/// The floor-rounded proportional share: a stake of `c` out of a ledger
/// totalling `t` is owed `c * pool / t` of the box's pooled amount.
pub open spec fn share_of(c: int, pool: int, t: int) -> int {
    c * pool / t
}

/// The amounts a sequence of payouts transfers, in order.
pub open spec fn payout_amounts(s: Seq<Payout>) -> Seq<int> {
    s.map_values(|p: Payout| p.amount as int)
}

/// The total amount a sequence of payouts transfers.
pub open spec fn payout_sum(s: Seq<Payout>) -> int
    decreases s.len(),
{
    if s.len() == 0 {
        0
    } else {
        payout_sum(s.drop_last()) + s.last().amount
    }
}

pub proof fn lemma_payout_sum_push(s: Seq<Payout>, p: Payout)
    ensures
        payout_sum(s.push(p)) == payout_sum(s) + p.amount,
{
    assert(s.push(p).drop_last() =~= s);
    assert(s.push(p).last() == p);
}

/// The amounts a full settlement pays, in ledger order: each backer in turn
/// is paid the floor-rounded share of the still-pooled amount proportional to
/// their stake in the still-open ledger.
pub open spec fn share_seq(s: Seq<TokenContribution>, pool: int) -> Seq<int>
    decreases s.len(),
{
    if s.len() == 0 {
        Seq::empty()
    } else {
        let sh = share_of(s[0].amount as int, pool, ledger_sum(s));
        seq![sh] + share_seq(s.drop_first(), pool - sh)
    }
}

/// Bounds of the proportional share for a positive stake `c` within a ledger
/// total `t` that the pool `a` covers: the share is at least one, never more
/// than the pool, leaves at least the rest of the ledger covered, and pays
/// the whole pool to a backer who owns the whole ledger.
pub proof fn lemma_share_bounds(c: int, t: int, a: int)
    requires
        1 <= c <= t <= a,
    ensures
        1 <= share_of(c, a, t) <= a,
        share_of(c, a, t) <= a - t + c,
        c == t ==> share_of(c, a, t) == a,
{
    let sh = c * a / t;
    assert(t <= c * a && c * a <= t * a) by (nonlinear_arith)
        requires
            1 <= c <= t <= a,
    ;
    vstd::arithmetic::div_mod::lemma_div_is_ordered(t, c * a, t);
    vstd::arithmetic::div_mod::lemma_div_by_self(t);
    vstd::arithmetic::div_mod::lemma_div_is_ordered(c * a, t * a, t);
    vstd::arithmetic::div_mod::lemma_div_multiples_vanish(a, t);
    assert(t * a == a * t) by (nonlinear_arith);
    assert(sh >= 1);
    assert(sh <= a);
    // the pool minus the share still covers the ledger minus the stake
    vstd::arithmetic::div_mod::lemma_fundamental_div_mod(c * a, t);
    vstd::arithmetic::div_mod::lemma_remainder(c * a, t);
    assert(t * sh <= c * a);
    assert(c * a <= t * (a - t + c)) by (nonlinear_arith)
        requires
            1 <= c <= t <= a,
    ;
    assert(sh <= a - t + c) by (nonlinear_arith)
        requires
            t >= 1,
            t * sh <= t * (a - t + c),
    ;
    if c == t {
        assert(c * a == t * a);
    }
}

/// How settling `user`'s claim turns box `b` into box `nb`, paying `share`:
/// the user's entry leaves the ledger and the pool drops by the share. The
/// last backer drains the pool exactly, and the box then resets — label,
/// timers and history cleared — ready for a new round.
pub open spec fn box_settle_post(b: GameBox, nb: GameBox, user: u64, share: u64) -> bool {
    let c = amount_of(b.contributions@, user);
    let t = ledger_sum(b.contributions@);
    &&& share == share_of(c, b.amount as int, t)
    &&& nb.amount == b.amount - share
    &&& nb.contributions@ == b.contributions@.remove(user_index(b.contributions@, user))
    &&& if b.contributions@.len() == 1 {
        box_ready(nb, 0)
    } else {
        &&& nb.leading_label == b.leading_label
        &&& nb.start_time == b.start_time
        &&& nb.last_leader_change_time == b.last_leader_change_time
        &&& nb.previous_leaders == b.previous_leaders
    }
}

impl GameBox {
    /// Pays one backer their proportional share and removes their entry;
    /// resets the box when that empties the ledger.
    fn settle_user(&mut self, user: u64) -> (share: u64)
        requires
            box_wf(*old(self)),
            contains_user(old(self).contributions@, user),
        ensures
            box_wf(*final(self)),
            box_settle_post(*old(self), *final(self), user, share),
            1 <= share <= old(self).amount,
            final(self).contributions@.len() == old(self).contributions@.len() - 1,
            ledger_sum(final(self).contributions@) == ledger_sum(old(self).contributions@)
                - amount_of(old(self).contributions@, user),
            !contains_user(final(self).contributions@, user),
    {
        let ghost s = self.contributions@;
        let idx: usize;
        match find_user(&self.contributions, user) {
            Some(i) => {
                idx = i;
            },
            None => {
                return unreached();
            },
        }
        proof {
            lemma_user_index_of(s, idx as int);
            lemma_entry_le_sum(s, idx as int);
        }
        let c = self.contributions[idx].amount;
        let t = ledger_total(&self.contributions);
        let a = self.amount;
        proof {
            lemma_share_bounds(c as int, t as int, a as int);
        }
        let c128: u128 = c as u128;
        let a128: u128 = a as u128;
        proof {
            assert(c128 * a128 <= u128::MAX) by (nonlinear_arith)
                requires
                    c128 <= u64::MAX,
                    a128 <= u64::MAX,
            ;
        }
        let share128: u128 = c128 * a128 / (t as u128);
        proof {
            assert(share128 == share_of(c as int, a as int, t as int));
        }
        let share: u64 = share128 as u64;
        self.contributions.remove(idx);
        proof {
            lemma_ledger_sum_remove(s, idx as int);
            lemma_remove_keeps_ledger_wf(s, idx as int);
            lemma_remove_user_absent(s, user);
        }
        if self.contributions.len() == 0 {
            proof {
                // a sole backer owns the whole ledger, so the share is the
                // whole pool
                assert(s.drop_last() =~= Seq::<TokenContribution>::empty());
                assert(ledger_sum(s) == s[0].amount);
            }
            self.leading_label = String::new();
            self.amount = 0;
            self.start_time = 0;
            self.last_leader_change_time = 0;
            self.previous_leaders.clear();
        } else {
            self.amount = a - share;
        }
        share
    }
}

/// Which error, if any, `claim` answers for these inputs; `None` means the
/// claim is paid.
pub open spec fn claim_check(
    g: GameState,
    box_number: int,
    expected_label: Seq<char>,
    claimant: u64,
    now: u64,
) -> Option<ErrorCode> {
    if box_number >= g.boxes@.len() {
        Some(ErrorCode::InvalidBoxNumber)
    } else if g.boxes@[box_number].leading_label@ != expected_label {
        Some(ErrorCode::NotLeadingLabel)
    } else if now < g.boxes@[box_number].last_leader_change_time + g.cooldown {
        Some(ErrorCode::TimeLockNotElapsed)
    } else if !contains_user(g.boxes@[box_number].contributions@, claimant) {
        Some(ErrorCode::NoContribution)
    } else {
        None
    }
}

/// Which error, if any, `process_rewards` answers for these inputs; `None`
/// means the box settles in full.
pub open spec fn process_check(g: GameState, box_number: int, now: u64) -> Option<ErrorCode> {
    if box_number >= g.boxes@.len() {
        Some(ErrorCode::InvalidBoxNumber)
    } else if g.boxes@[box_number].leading_label@.len() == 0 {
        Some(ErrorCode::NoContribution)
    } else if now < g.boxes@[box_number].last_leader_change_time + g.cooldown {
        Some(ErrorCode::TimeLockNotElapsed)
    } else {
        None
    }
}

impl GameState {
    /// Settles one backer's claim against the box at `box_number`: checks
    /// that `expected_label` still leads and that the cooldown since the last
    /// leadership change has elapsed, then pays the claimant their
    /// proportional share of the box's pool. The caller owes the claimant a
    /// transfer of the returned share out of the custodial pool. A refused
    /// claim leaves the game untouched.
    pub fn claim(
        &mut self,
        box_number: usize,
        expected_label: &String,
        claimant: u64,
        now: u64,
    ) -> (r: Result<u64, ErrorCode>)
        requires
            old(self).wf(),
        ensures
            final(self).wf(),
            final(self).cooldown == old(self).cooldown,
            final(self).boxes@.len() == old(self).boxes@.len(),
            match r {
                Ok(share) => {
                    &&& claim_check(
                        *old(self),
                        box_number as int,
                        expected_label@,
                        claimant,
                        now,
                    ) is None
                    &&& box_settle_post(
                        old(self).boxes@[box_number as int],
                        final(self).boxes@[box_number as int],
                        claimant,
                        share,
                    )
                    &&& 1 <= share <= old(self).boxes@[box_number as int].amount
                    &&& final(self).prize_pool == old(self).prize_pool - share
                    &&& forall|j: int|
                        0 <= j < old(self).boxes@.len() && j != box_number
                            ==> final(self).boxes@[j] == old(self).boxes@[j]
                },
                Err(e) => {
                    &&& claim_check(*old(self), box_number as int, expected_label@, claimant, now)
                        == Some(e)
                    &&& *final(self) == *old(self)
                },
            },
    {
        if box_number >= self.boxes.len() {
            return Err(ErrorCode::InvalidBoxNumber);
        }
        if !(self.boxes[box_number].leading_label == *expected_label) {
            return Err(ErrorCode::NotLeadingLabel);
        }
        let llct = self.boxes[box_number].last_leader_change_time;
        if now < llct || now - llct < self.cooldown {
            return Err(ErrorCode::TimeLockNotElapsed);
        }
        let present = match find_user(&self.boxes[box_number].contributions, claimant) {
            Some(_) => true,
            None => false,
        };
        if !present {
            return Err(ErrorCode::NoContribution);
        }
        proof {
            lemma_box_le_sum(self.boxes@, box_number as int);
        }
        let b = &mut self.boxes[box_number];
        let share = b.settle_user(claimant);
        self.prize_pool = self.prize_pool - share;
        proof {
            lemma_boxes_sum_update(
                old(self).boxes@,
                box_number as int,
                self.boxes@[box_number as int],
            );
            assert(self.boxes@ =~= old(self).boxes@.update(
                box_number as int,
                self.boxes@[box_number as int],
            ));
        }
        Ok(share)
    }

    /// Settles a whole box at once: pays every backer of the leading label,
    /// in ledger order, their proportional share of the then-remaining pool,
    /// and leaves the box reset for a new round. The returned payouts are
    /// owed to the backers out of the custodial pool; together they drain the
    /// box's whole pooled amount, so the pool keeps exactly what the other
    /// boxes hold. A refused settlement leaves the game untouched.
    pub fn process_rewards(&mut self, box_number: usize, now: u64) -> (r: Result<
        Vec<Payout>,
        ErrorCode,
    >)
        requires
            old(self).wf(),
        ensures
            final(self).wf(),
            final(self).cooldown == old(self).cooldown,
            final(self).boxes@.len() == old(self).boxes@.len(),
            match r {
                Ok(payouts) => {
                    let b = old(self).boxes@[box_number as int];
                    &&& process_check(*old(self), box_number as int, now) is None
                    &&& payouts@.len() == b.contributions@.len()
                    &&& forall|k: int|
                        0 <= k < payouts@.len() ==> payouts@[k].user
                            == b.contributions@[k].user
                    &&& payout_amounts(payouts@) == share_seq(b.contributions@, b.amount as int)
                    &&& payout_sum(payouts@) == b.amount
                    &&& box_ready(final(self).boxes@[box_number as int], 0)
                    &&& final(self).prize_pool == old(self).prize_pool - b.amount
                    &&& forall|j: int|
                        0 <= j < old(self).boxes@.len() && j != box_number
                            ==> final(self).boxes@[j] == old(self).boxes@[j]
                },
                Err(e) => {
                    &&& process_check(*old(self), box_number as int, now) == Some(e)
                    &&& *final(self) == *old(self)
                },
            },
    {
        if box_number >= self.boxes.len() {
            return Err(ErrorCode::InvalidBoxNumber);
        }
        if self.boxes[box_number].leading_label.as_str().is_empty() {
            return Err(ErrorCode::NoContribution);
        }
        let llct = self.boxes[box_number].last_leader_change_time;
        if now < llct || now - llct < self.cooldown {
            return Err(ErrorCode::TimeLockNotElapsed);
        }
        let ghost orig = *self;
        let ghost gb = orig.boxes@[box_number as int];
        let mut payouts: Vec<Payout> = Vec::new();
        proof {
            assert(box_wf(gb));
            assert(payout_amounts(Seq::<Payout>::empty()) =~= Seq::<int>::empty());
            assert(Seq::<int>::empty() + share_seq(gb.contributions@, gb.amount as int)
                =~= share_seq(gb.contributions@, gb.amount as int));
        }
        while self.boxes[box_number].contributions.len() > 0
            invariant
                self.wf(),
                box_number < self.boxes@.len(),
                self.boxes@.len() == orig.boxes@.len(),
                self.cooldown == orig.cooldown,
                forall|j: int|
                    0 <= j < orig.boxes@.len() && j != box_number ==> self.boxes@[j]
                        == orig.boxes@[j],
                payouts@.len() + self.boxes@[box_number as int].contributions@.len()
                    == gb.contributions@.len(),
                forall|k: int|
                    0 <= k < payouts@.len() ==> payouts@[k].user == gb.contributions@[k].user,
                forall|k: int|
                    0 <= k < self.boxes@[box_number as int].contributions@.len()
                        ==> self.boxes@[box_number as int].contributions@[k]
                            == gb.contributions@[k + payouts@.len()],
                payout_amounts(payouts@) + share_seq(
                    self.boxes@[box_number as int].contributions@,
                    self.boxes@[box_number as int].amount as int,
                ) == share_seq(gb.contributions@, gb.amount as int),
                payout_sum(payouts@) == gb.amount - self.boxes@[box_number as int].amount,
                self.prize_pool == orig.prize_pool - payout_sum(payouts@),
                self.boxes@[box_number as int].contributions@.len() == 0 ==> box_ready(
                    self.boxes@[box_number as int],
                    0,
                ),
            decreases self.boxes@[box_number as int].contributions@.len(),
        {
            let ghost pre = *self;
            let ghost preb = pre.boxes@[box_number as int];
            let ghost prepay = payouts@;
            let claimant = self.boxes[box_number].contributions[0].user;
            proof {
                assert(box_wf(preb));
                lemma_user_index_of(preb.contributions@, 0);
                lemma_box_le_sum(pre.boxes@, box_number as int);
            }
            let b = &mut self.boxes[box_number];
            let share = b.settle_user(claimant);
            self.prize_pool = self.prize_pool - share;
            payouts.push(Payout { user: claimant, amount: share });
            proof {
                let curb = self.boxes@[box_number as int];
                lemma_boxes_sum_update(pre.boxes@, box_number as int, curb);
                assert(self.boxes@ =~= pre.boxes@.update(box_number as int, curb));
                lemma_payout_sum_push(prepay, Payout { user: claimant, amount: share });
                assert(preb.contributions@.remove(0) =~= preb.contributions@.drop_first());
                assert(share_seq(preb.contributions@, preb.amount as int) == seq![
                    share as int,
                ] + share_seq(preb.contributions@.drop_first(), preb.amount - share));
                assert(payout_amounts(payouts@) =~= payout_amounts(prepay).push(share as int));
                assert(payout_amounts(payouts@) + share_seq(
                    curb.contributions@,
                    curb.amount as int,
                ) =~= payout_amounts(prepay) + share_seq(preb.contributions@, preb.amount as int));
            }
        }
        proof {
            assert(payout_amounts(payouts@) + share_seq(
                self.boxes@[box_number as int].contributions@,
                self.boxes@[box_number as int].amount as int,
            ) =~= payout_amounts(payouts@));
        }
        Ok(payouts)
    }
}

} // verus!
