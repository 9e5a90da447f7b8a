//! The per-box contribution ledger: which participant has how much stake
//! behind the box's current leading label.

use vstd::prelude::*;

verus! {

/// One ledger entry: the stake one participant has accumulated behind the
/// box's current leading label. A participant holds at most one entry per
/// box; repeated contributions accumulate into it.
#[derive(Clone, Copy, Debug, PartialEq, Eq, Structural)]
pub struct TokenContribution {
    /// The contributing participant's identity.
    pub user: u64,
    /// The participant's accumulated stake behind the leading label.
    pub amount: u64,
}

/// The total stake recorded in a ledger.
pub open spec fn ledger_sum(s: Seq<TokenContribution>) -> int
    decreases s.len(),
{
    if s.len() == 0 {
        0
    } else {
        ledger_sum(s.drop_last()) + s.last().amount
    }
}

/// Whether some entry of the ledger belongs to `user`.
pub open spec fn contains_user(s: Seq<TokenContribution>, user: u64) -> bool {
    exists|i: int| 0 <= i < s.len() && s[i].user == user
}

/// The index of `user`'s entry. Meaningful only when the ledger contains one
/// and its users are unique; then it is the one index holding `user`.
pub open spec fn user_index(s: Seq<TokenContribution>, user: u64) -> int {
    choose|i: int| 0 <= i < s.len() && s[i].user == user
}

/// The stake the ledger attributes to `user`: the amount of their entry, or
/// zero when they hold none.
pub open spec fn amount_of(s: Seq<TokenContribution>, user: u64) -> int {
    if contains_user(s, user) {
        s[user_index(s, user)].amount as int
    } else {
        0
    }
}

/// No participant holds two entries.
pub open spec fn users_unique(s: Seq<TokenContribution>) -> bool {
    forall|i: int, j: int| 0 <= i < j < s.len() ==> s[i].user != s[j].user
}

/// Every entry records a positive stake.
pub open spec fn amounts_positive(s: Seq<TokenContribution>) -> bool {
    forall|i: int| 0 <= i < s.len() ==> s[i].amount > 0
}

pub proof fn lemma_ledger_sum_nonneg(s: Seq<TokenContribution>)
    ensures
        ledger_sum(s) >= 0,
    decreases s.len(),
{
    if s.len() > 0 {
        lemma_ledger_sum_nonneg(s.drop_last());
    }
}

pub proof fn lemma_ledger_sum_take_step(s: Seq<TokenContribution>, k: int)
    requires
        0 <= k < s.len(),
    ensures
        ledger_sum(s.take(k + 1)) == ledger_sum(s.take(k)) + s[k].amount,
{
    assert(s.take(k + 1).drop_last() =~= s.take(k));
    assert(s.take(k + 1).last() == s[k]);
}

pub proof fn lemma_ledger_sum_take_all(s: Seq<TokenContribution>)
    ensures
        ledger_sum(s.take(s.len() as int)) == ledger_sum(s),
{
    assert(s.take(s.len() as int) =~= s);
}

/// A prefix of the ledger sums to no more than the whole ledger.
pub proof fn lemma_ledger_sum_take_le(s: Seq<TokenContribution>, k: int)
    requires
        0 <= k <= s.len(),
    ensures
        ledger_sum(s.take(k)) <= ledger_sum(s),
    decreases s.len() - k,
{
    if k == s.len() {
        lemma_ledger_sum_take_all(s);
    } else {
        lemma_ledger_sum_take_step(s, k);
        lemma_ledger_sum_take_le(s, k + 1);
    }
}

/// A single entry's amount is no more than the whole ledger's sum.
pub proof fn lemma_entry_le_sum(s: Seq<TokenContribution>, i: int)
    requires
        0 <= i < s.len(),
    ensures
        s[i].amount <= ledger_sum(s),
    decreases s.len(),
{
    if i == s.len() - 1 {
        lemma_ledger_sum_nonneg(s.drop_last());
    } else {
        lemma_entry_le_sum(s.drop_last(), i);
        assert(s.drop_last()[i] == s[i]);
    }
}

pub proof fn lemma_ledger_sum_push(s: Seq<TokenContribution>, e: TokenContribution)
    ensures
        ledger_sum(s.push(e)) == ledger_sum(s) + e.amount,
{
    assert(s.push(e).drop_last() =~= s);
    assert(s.push(e).last() == e);
}

pub proof fn lemma_ledger_sum_update(s: Seq<TokenContribution>, i: int, e: TokenContribution)
    requires
        0 <= i < s.len(),
    ensures
        ledger_sum(s.update(i, e)) == ledger_sum(s) - s[i].amount + e.amount,
    decreases s.len(),
{
    let t = s.update(i, e);
    if i == s.len() - 1 {
        assert(t.drop_last() =~= s.drop_last());
        assert(t.last() == e);
    } else {
        assert(t.drop_last() =~= s.drop_last().update(i, e));
        lemma_ledger_sum_update(s.drop_last(), i, e);
        assert(t.last() == s.last());
    }
}

pub proof fn lemma_ledger_sum_remove(s: Seq<TokenContribution>, i: int)
    requires
        0 <= i < s.len(),
    ensures
        ledger_sum(s.remove(i)) == ledger_sum(s) - s[i].amount,
    decreases s.len(),
{
    if i == s.len() - 1 {
        assert(s.remove(i) =~= s.drop_last());
    } else {
        assert(s.remove(i).drop_last() =~= s.drop_last().remove(i));
        lemma_ledger_sum_remove(s.drop_last(), i);
        assert(s.remove(i).last() == s.last());
    }
}

/// In a ledger with unique users, the entry at `i` is the one `user_index`
/// points at for its user.
pub proof fn lemma_user_index_of(s: Seq<TokenContribution>, i: int)
    requires
        users_unique(s),
        0 <= i < s.len(),
    ensures
        contains_user(s, s[i].user),
        user_index(s, s[i].user) == i,
        amount_of(s, s[i].user) == s[i].amount,
{
    assert(contains_user(s, s[i].user));
    let j = user_index(s, s[i].user);
    if j < i {
        assert(s[j].user != s[i].user);
    } else if i < j {
        assert(s[i].user != s[j].user);
    }
}

/// Removing a user's one entry removes the user from the ledger.
pub proof fn lemma_remove_user_absent(s: Seq<TokenContribution>, u: u64)
    requires
        users_unique(s),
        contains_user(s, u),
    ensures
        !contains_user(s.remove(user_index(s, u)), u),
{
    let i = user_index(s, u);
    let t = s.remove(i);
    s.remove_ensures(i);
    assert forall|j: int| 0 <= j < t.len() implies t[j].user != u by {
        if j < i {
            assert(t[j] == s[j]);
            assert(s[j].user != s[i].user);
        } else {
            assert(t[j] == s[j + 1]);
            assert(s[i].user != s[j + 1].user);
        }
    }
}

/// Removing an entry keeps users unique and amounts positive.
pub proof fn lemma_remove_keeps_ledger_wf(s: Seq<TokenContribution>, i: int)
    requires
        users_unique(s),
        amounts_positive(s),
        0 <= i < s.len(),
    ensures
        users_unique(s.remove(i)),
        amounts_positive(s.remove(i)),
{
    let t = s.remove(i);
    s.remove_ensures(i);
    assert forall|p: int, q: int| 0 <= p < q < t.len() implies t[p].user != t[q].user by {
        let sp = if p < i { p } else { p + 1 };
        let sq = if q < i { q } else { q + 1 };
        assert(t[p] == s[sp]);
        assert(t[q] == s[sq]);
        assert(s[sp].user != s[sq].user);
    }
    assert forall|p: int| 0 <= p < t.len() implies t[p].amount > 0 by {
        let sp = if p < i { p } else { p + 1 };
        assert(t[p] == s[sp]);
    }
}

/// Finds a participant's entry in a ledger, if there is one.
pub fn find_user(entries: &Vec<TokenContribution>, user: u64) -> (r: Option<usize>)
    ensures
        match r {
            Some(i) => i < entries@.len() && entries@[i as int].user == user,
            None => !contains_user(entries@, user),
        },
{
    let mut i: usize = 0;
    while i < entries.len()
        invariant
            i <= entries@.len(),
            forall|j: int| 0 <= j < i ==> entries@[j].user != user,
        decreases entries@.len() - i,
    {
        if entries[i].user == user {
            return Some(i);
        }
        i = i + 1;
    }
    None
}

/// Adds up a ledger whose total is known to be representable.
pub fn ledger_total(entries: &Vec<TokenContribution>) -> (total: u64)
    requires
        ledger_sum(entries@) <= u64::MAX,
    ensures
        total == ledger_sum(entries@),
{
    let mut total: u64 = 0;
    let mut i: usize = 0;
    while i < entries.len()
        invariant
            i <= entries@.len(),
            ledger_sum(entries@) <= u64::MAX,
            total == ledger_sum(entries@.take(i as int)),
        decreases entries@.len() - i,
    {
        proof {
            lemma_ledger_sum_take_step(entries@, i as int);
            lemma_ledger_sum_take_le(entries@, i as int + 1);
            lemma_ledger_sum_nonneg(entries@.take(i as int));
        }
        total = total + entries[i].amount;
        i = i + 1;
    }
    proof {
        lemma_ledger_sum_take_all(entries@);
    }
    total
}

} // verus!
