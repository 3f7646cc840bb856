use vstd::prelude::*;

verus! {

/// One line of the reveal settlement: an account and what it is owed.
pub struct Payout {
    pub account: String,
    pub amount: u128,
}

/// The total value a settlement hands out.
pub open spec fn payout_sum(ps: Seq<Payout>) -> int
    decreases ps.len(),
{
    if ps.len() == 0 {
        0
    } else {
        payout_sum(ps.drop_last()) + ps.last().amount
    }
}

/// Some payout line is addressed to `account`.
pub open spec fn holds_account(ps: Seq<Payout>, account: Seq<char>) -> bool {
    exists|i: int| 0 <= i < ps.len() && ps[i].account@ == account
}

/// No account appears on two payout lines.
pub open spec fn distinct_accounts(ps: Seq<Payout>) -> bool {
    forall|i: int, j: int| 0 <= i < j < ps.len() ==> ps[i].account@ != ps[j].account@
}

/// The sum grows by exactly the pushed amount.
pub proof fn lemma_payout_sum_push(ps: Seq<Payout>, p: Payout)
    ensures
        payout_sum(ps.push(p)) == payout_sum(ps) + p.amount,
{
    assert(ps.push(p).drop_last() =~= ps);
}

/// Replacing one line changes the sum by the difference of its amounts.
pub proof fn lemma_payout_sum_update(ps: Seq<Payout>, i: int, p: Payout)
    requires
        0 <= i < ps.len(),
    ensures
        payout_sum(ps.update(i, p)) == payout_sum(ps) - ps[i].amount + p.amount,
    decreases ps.len(),
{
    if i == ps.len() - 1 {
        assert(ps.update(i, p).drop_last() =~= ps.drop_last());
        assert(ps.update(i, p).last() == p);
    } else {
        assert(ps.update(i, p).drop_last() =~= ps.drop_last().update(i, p));
        lemma_payout_sum_update(ps.drop_last(), i, p);
    }
}

/// Every amount is nonnegative, so the sum is too.
pub proof fn lemma_payout_sum_nonneg(ps: Seq<Payout>)
    ensures
        payout_sum(ps) >= 0,
    decreases ps.len(),
{
    if ps.len() > 0 {
        lemma_payout_sum_nonneg(ps.drop_last());
    }
}

/// No single line exceeds the whole sum.
pub proof fn lemma_amount_le_sum(ps: Seq<Payout>, i: int)
    requires
        0 <= i < ps.len(),
    ensures
        ps[i].amount <= payout_sum(ps),
    decreases ps.len(),
{
    if i == ps.len() - 1 {
        lemma_payout_sum_nonneg(ps.drop_last());
    } else {
        lemma_amount_le_sum(ps.drop_last(), i);
    }
}

/// Add `amount` to `account`'s payout line, opening the line if it is new.
#[verifier::loop_isolation(false)]
pub fn credit(payouts: &mut Vec<Payout>, account: &String, amount: u128)
    requires
        distinct_accounts(old(payouts)@),
        payout_sum(old(payouts)@) + amount <= u128::MAX,
    ensures
        distinct_accounts(final(payouts)@),
        payout_sum(final(payouts)@) == payout_sum(old(payouts)@) + amount,
        final(payouts).len() >= 1,
        holds_account(final(payouts)@, account@),
        forall|a: Seq<char>|
            #[trigger] holds_account(final(payouts)@, a) <==> (holds_account(old(payouts)@, a)
                || a == account@),
        forall|q: int|
            0 <= q < final(payouts).len() ==> (#[trigger] final(payouts)@[q].account@) == account@
                || exists|j: int|
                0 <= j < old(payouts).len() && old(payouts)@[j].account@
                    == final(payouts)@[q].account@,
{
    let mut i: usize = 0;
    while i < payouts.len()
        invariant
            i <= payouts.len(),
            payouts@ == old(payouts)@,
            forall|j: int| 0 <= j < i ==> payouts@[j].account@ != account@,
        decreases payouts.len() - i,
    {
        if payouts[i].account == *account {
            proof {
                lemma_amount_le_sum(payouts@, i as int);
            }
            let line = payouts.remove(i);
            let new_amount = line.amount + amount;
            payouts.insert(i, Payout { account: line.account, amount: new_amount });
            proof {
                assert(payouts@ =~= old(payouts)@.update(i as int, payouts@[i as int]));
                lemma_payout_sum_update(old(payouts)@, i as int, payouts@[i as int]);
                assert forall|a: Seq<char>| #[trigger]
                    holds_account(payouts@, a) implies (holds_account(old(payouts)@, a)
                    || a == account@) by {
                    let w = choose|k: int| 0 <= k < payouts@.len() && payouts@[k].account@ == a;
                    assert(old(payouts)@[w].account@ == a);
                }
                assert forall|a: Seq<char>|
                    holds_account(old(payouts)@, a) || a == account@ implies #[trigger]
                    holds_account(payouts@, a) by {
                    if holds_account(old(payouts)@, a) {
                        let w = choose|k: int|
                            0 <= k < old(payouts)@.len() && old(payouts)@[k].account@ == a;
                        assert(payouts@[w].account@ == a);
                    } else {
                        assert(payouts@[i as int].account@ == a);
                    }
                }
                assert forall|q: int|
                    0 <= q < payouts.len() implies (#[trigger] payouts@[q].account@) == account@
                    || exists|j: int|
                    0 <= j < old(payouts).len() && old(payouts)@[j].account@
                        == payouts@[q].account@ by {
                    if q != i as int {
                        assert(old(payouts)@[q].account@ == payouts@[q].account@);
                    }
                }
            }
            return ;
        }
        i = i + 1;
    }
    payouts.push(Payout { account: account.clone(), amount });
    proof {
        lemma_payout_sum_push(old(payouts)@, payouts@.last());
        let n = payouts@.len() - 1;
        assert(payouts@[n].account@ == account@);
        assert forall|a: Seq<char>| #[trigger]
            holds_account(payouts@, a) implies (holds_account(old(payouts)@, a) || a == account@) by {
            let w = choose|k: int| 0 <= k < payouts@.len() && payouts@[k].account@ == a;
            if w < n {
                assert(old(payouts)@[w].account@ == a);
            }
        }
        assert forall|a: Seq<char>|
            holds_account(old(payouts)@, a) || a == account@ implies #[trigger]
            holds_account(payouts@, a) by {
            if holds_account(old(payouts)@, a) {
                let w = choose|k: int|
                    0 <= k < old(payouts)@.len() && old(payouts)@[k].account@ == a;
                assert(payouts@[w].account@ == a);
            } else {
                assert(payouts@[n].account@ == a);
            }
        }
        assert forall|q: int|
            0 <= q < payouts.len() implies (#[trigger] payouts@[q].account@) == account@
            || exists|j: int|
            0 <= j < old(payouts).len() && old(payouts)@[j].account@ == payouts@[q].account@ by {
            if q < n {
                assert(old(payouts)@[q].account@ == payouts@[q].account@);
            }
        }
    }
}

} // verus!
