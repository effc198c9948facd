//! Sums over finite sets of accounts.

use crate::account::AccountId;
use vstd::prelude::*;
use vstd::set::fold::*;

verus! {

/// The step of a sum: the running total plus the term of one account.
pub open spec fn add_term(term: spec_fn(AccountId) -> int) -> spec_fn(int, AccountId) -> int {
    |total: int, account: AccountId| total + term(account)
}

/// The sum of `term` over the accounts of a finite set.
pub open spec fn sum_over(accounts: Set<AccountId>, term: spec_fn(AccountId) -> int) -> int {
    accounts.fold(0int, add_term(term))
}

/// The sum of `term` over the first `count` accounts of a list.
pub open spec fn sum_of_first(
    accounts: Seq<AccountId>,
    count: int,
    term: spec_fn(AccountId) -> int,
) -> int
    decreases count,
{
    if count <= 0 {
        0
    } else {
        sum_of_first(accounts, count - 1, term) + term(accounts[count - 1])
    }
}

/// A sum over no accounts is zero.
pub proof fn lemma_sum_empty(term: spec_fn(AccountId) -> int)
    ensures
        sum_over(Set::empty(), term) == 0,
{
    lemma_fold_empty(0int, add_term(term));
}

/// A new account adds its term to the sum.
pub proof fn lemma_sum_insert(
    accounts: Set<AccountId>,
    account: AccountId,
    term: spec_fn(AccountId) -> int,
)
    requires
        accounts.finite(),
        !accounts.contains(account),
    ensures
        sum_over(accounts.insert(account), term) == sum_over(accounts, term) + term(account),
{
    assert(is_fun_commutative(add_term(term)));
    lemma_fold_insert(accounts, 0int, add_term(term), account);
}

/// Any account of the set can be split off the sum.
pub proof fn lemma_sum_remove(
    accounts: Set<AccountId>,
    account: AccountId,
    term: spec_fn(AccountId) -> int,
)
    requires
        accounts.finite(),
        accounts.contains(account),
    ensures
        sum_over(accounts, term) == sum_over(accounts.remove(account), term) + term(account),
{
    assert(accounts.remove(account).insert(account) =~= accounts);
    lemma_sum_insert(accounts.remove(account), account, term);
}

/// Summing along a list that names each account once gives the sum over the
/// set of its accounts, whatever the order of the list.
pub proof fn lemma_sum_of_list(accounts: Seq<AccountId>, term: spec_fn(AccountId) -> int)
    requires
        accounts.no_duplicates(),
    ensures
        sum_of_first(accounts, accounts.len() as int, term) == sum_over(accounts.to_set(), term),
    decreases accounts.len(),
{
    if accounts.len() == 0 {
        assert(accounts.to_set() =~= Set::empty());
        lemma_sum_empty(term);
    } else {
        let count = accounts.len() as int;
        let front = accounts.drop_last();
        let last = accounts.last();
        assert(front.no_duplicates());
        lemma_sum_of_list(front, term);
        lemma_sum_of_first_agrees(accounts, front, count - 1, term);
        assert(!front.to_set().contains(last)) by {
            if front.to_set().contains(last) {
                let i = choose|i: int| 0 <= i < front.len() && front[i] == last;
                assert(accounts[i] == accounts[count - 1]);
            }
        }
        assert(front.to_set().insert(last) =~= accounts.to_set()) by {
            assert forall|account: AccountId|
                front.to_set().insert(last).contains(account) <==> accounts.to_set().contains(
                    account,
                ) by {
                if front.to_set().contains(account) {
                    let i = choose|i: int| 0 <= i < front.len() && front[i] == account;
                    assert(accounts[i] == account);
                }
                if accounts.to_set().contains(account) {
                    let i = choose|i: int| 0 <= i < accounts.len() && accounts[i] == account;
                    if i < count - 1 {
                        assert(front[i] == account);
                    }
                }
                if account == last {
                    assert(accounts[count - 1] == account);
                }
            }
        }
        vstd::seq_lib::seq_to_set_is_finite(front);
        lemma_sum_insert(front.to_set(), last, term);
    }
}

/// Two lists that agree on their first `count` accounts have the same sum
/// over them.
proof fn lemma_sum_of_first_agrees(
    left: Seq<AccountId>,
    right: Seq<AccountId>,
    count: int,
    term: spec_fn(AccountId) -> int,
)
    requires
        count <= left.len(),
        count <= right.len(),
        forall|i: int| 0 <= i < count ==> left[i] == right[i],
    ensures
        sum_of_first(left, count, term) == sum_of_first(right, count, term),
    decreases count,
{
    if count > 0 {
        lemma_sum_of_first_agrees(left, right, count - 1, term);
    }
}

/// Where `weight * low(a) <= scale * high(a)` for every account, the same
/// holds of the sums.
pub proof fn lemma_sum_weighted_bound(
    accounts: Set<AccountId>,
    low: spec_fn(AccountId) -> int,
    high: spec_fn(AccountId) -> int,
    weight: int,
    scale: int,
)
    requires
        accounts.finite(),
        forall|account: AccountId|
            accounts.contains(account) ==> weight * #[trigger] low(account) <= scale * high(
                account,
            ),
    ensures
        weight * sum_over(accounts, low) <= scale * sum_over(accounts, high),
    decreases accounts.len(),
{
    if accounts.len() == 0 {
        assert(accounts =~= Set::empty());
        lemma_sum_empty(low);
        lemma_sum_empty(high);
    } else {
        let account = accounts.choose();
        let rest = accounts.remove(account);
        lemma_sum_weighted_bound(rest, low, high, weight, scale);
        lemma_sum_remove(accounts, account, low);
        lemma_sum_remove(accounts, account, high);
        let low_rest = sum_over(rest, low);
        let high_rest = sum_over(rest, high);
        let low_one = low(account);
        let high_one = high(account);
        assert(weight * (low_rest + low_one) == weight * low_rest + weight * low_one)
            by (nonlinear_arith);
        assert(scale * (high_rest + high_one) == scale * high_rest + scale * high_one)
            by (nonlinear_arith);
    }
}

} // verus!
