//! What holds of the pool's transitions, whatever the pool and the inputs.

use crate::account::AccountId;
use crate::arith::{amount_due, fits_i64, interest_on, trunc_div};
use crate::error::PoolError;
use crate::ledger::{LoanStatus, Pool, PoolView};
use crate::model::{amount_term, new_loan};
use crate::sums::{lemma_sum_weighted_bound, sum_over};
use vstd::prelude::*;

verus! {

/// The share of the pool's total interest that the earnings formula gives
/// each lender.
pub open spec fn share_term(pool: PoolView) -> spec_fn(AccountId) -> int {
    |lender: AccountId|
        trunc_div(pool.total_interest() * pool.balance(lender), pool.total_funds)
}

/// The model of a pool is well formed.
pub proof fn lemma_pool_is_well_formed(pool: Pool)
    requires
        pool.contributions.wf(),
        pool.active_loans.wf(),
    ensures
        pool@.wf(),
{
    pool.contributions.lemma_enumeration();
    pool.active_loans.lemma_enumeration();
}

/// Every transition takes a well-formed pool to a well-formed pool.
pub proof fn lemma_transitions_keep_well_formed(
    pool: PoolView,
    account: AccountId,
    amount: i64,
    interest_rate: i64,
    due_date: u64,
)
    requires
        pool.wf(),
    ensures
        PoolView::empty().wf(),
        pool.contribute(account, amount) matches Ok(next) ==> next.wf(),
        pool.request_loan(account, amount, interest_rate, due_date) matches Ok(next) ==> next.wf(),
        pool.repay_loan(account, amount) matches Ok(next) ==> next.wf(),
{
}

/// Two deposits by one lender add up: after `first` and then `second`, the
/// lender's balance and the pool's funds have each grown by
/// `first + second`, and nothing else has changed. In a pool that was
/// empty, both are then `first + second`.
pub proof fn lemma_contributions_add_up(
    pool: PoolView,
    lender: AccountId,
    first: i64,
    second: i64,
)
    ensures
        pool.contribute(lender, first) matches Ok(middle) ==> (middle.contribute(lender, second)
            matches Ok(after) ==> ({
            &&& after.balance(lender) == pool.balance(lender) + first + second
            &&& after.total_funds == pool.total_funds + first + second
            &&& after.active_loans == pool.active_loans
            &&& forall|other: AccountId|
                other != lender ==> after.balance(other) == pool.balance(other)
            &&& pool == PoolView::empty() ==> after.balance(lender) == first + second
                && after.total_funds == first + second
        })),
{
}

/// A loan is granted exactly when the pool holds at least the principal,
/// and then the funds drop by exactly the principal. Left out are the
/// requests after which the funds would not fit 64 bits.
pub proof fn lemma_loan_granted_iff_funded(
    pool: PoolView,
    borrower: AccountId,
    principal: i64,
    interest_rate: i64,
    due_date: u64,
)
    requires
        principal <= pool.total_funds ==> fits_i64(pool.total_funds - principal),
    ensures
        pool.request_loan(borrower, principal, interest_rate, due_date) is Ok <==> principal
            <= pool.total_funds,
        pool.request_loan(borrower, principal, interest_rate, due_date) matches Ok(next)
            ==> next.total_funds == pool.total_funds - principal,
        pool.request_loan(borrower, principal, interest_rate, due_date) matches Err(error)
            ==> error == PoolError::InsufficientPoolFunds,
{
}

/// A new loan takes the place of whatever record the borrower had, also of
/// a loan that is still outstanding: the earlier record is gone, its
/// principal is not returned to the funds, and no other record changes.
pub proof fn lemma_new_loan_replaces_record(
    pool: PoolView,
    borrower: AccountId,
    principal: i64,
    interest_rate: i64,
    due_date: u64,
)
    ensures
        pool.request_loan(borrower, principal, interest_rate, due_date) matches Ok(next) ==> ({
            &&& next.active_loans[borrower] == new_loan(
                borrower,
                principal,
                interest_rate,
                due_date,
            )
            &&& next.loan_status(borrower) == LoanStatus::Outstanding
            &&& next.total_funds == pool.total_funds - principal
            &&& next.contributions == pool.contributions
            &&& next.active_loans.dom() == pool.active_loans.dom().insert(borrower)
            &&& forall|other: AccountId|
                other != borrower && pool.active_loans.contains_key(other)
                    ==> next.active_loans[other] == pool.active_loans[other]
        }),
{
}

/// A repayment settles a loan exactly when the borrower has an unrepaid
/// loan and the repayment covers principal plus interest. The loan is then
/// marked repaid, the whole repayment is added to the funds, and a further
/// repayment is refused as already repaid. Left out are the repayments of
/// an outstanding loan whose amount due, or the funds after which, would
/// not fit 64 bits.
pub proof fn lemma_repayment_settles_iff_covered(
    pool: PoolView,
    borrower: AccountId,
    repayment: i64,
    later: i64,
)
    requires
        pool.loan_status(borrower) == LoanStatus::Outstanding ==> (amount_due(
            pool.active_loans[borrower].principal as int,
            pool.active_loans[borrower].interest_rate as int,
        ) matches Ok(due) && (repayment >= due ==> fits_i64(pool.total_funds + repayment))),
    ensures
        pool.repay_loan(borrower, repayment) is Ok <==> pool.loan_status(borrower)
            == LoanStatus::Outstanding && repayment >= pool.active_loans[borrower].principal
            + interest_on(
            pool.active_loans[borrower].principal as int,
            pool.active_loans[borrower].interest_rate as int,
        ),
        pool.repay_loan(borrower, repayment) matches Ok(next) ==> ({
            &&& next.loan_status(borrower) == LoanStatus::Repaid
            &&& next.total_funds == pool.total_funds + repayment
            &&& next.repay_loan(borrower, later) == Err::<PoolView, PoolError>(
                PoolError::LoanAlreadyRepaid,
            )
        }),
{
}

/// Repaying a loan that is already repaid is always refused as such. A
/// refusal changes nothing, so the funds stay as they are.
pub proof fn lemma_repaid_loan_is_final(pool: PoolView, borrower: AccountId, repayment: i64)
    requires
        pool.loan_status(borrower) == LoanStatus::Repaid,
    ensures
        pool.repay_loan(borrower, repayment) == Err::<PoolView, PoolError>(
            PoolError::LoanAlreadyRepaid,
        ),
{
}

/// The lenders' earnings together never exceed the total interest: what
/// rounding takes from each share stays in the pool.
///
/// This holds where the interest and every contribution are at least zero
/// and the contributions together do not exceed the pool's funds. While
/// principal is lent out the funds are below the contributions, and the
/// shares can then add up to more than the interest.
pub proof fn lemma_earnings_within_interest(pool: PoolView)
    requires
        pool.wf(),
        pool.total_funds > 0,
        pool.total_interest() >= 0,
        forall|lender: AccountId|
            pool.contributions.contains_key(lender) ==> (
            #[trigger] pool.contributions[lender]).amount >= 0,
        pool.total_contributed() <= pool.total_funds,
    ensures
        sum_over(pool.contributions.dom(), share_term(pool)) <= pool.total_interest(),
        forall|lender: AccountId| #[trigger]
            pool.earnings(lender) matches Ok(earned) ==> earned == share_term(pool)(lender),
{
    let funds = pool.total_funds;
    let interest = pool.total_interest();
    let lenders = pool.contributions.dom();
    let shares = share_term(pool);
    let amounts = amount_term(pool.contributions);
    assert forall|lender: AccountId| lenders.contains(lender) implies funds * #[trigger] shares(
        lender,
    ) <= interest * amounts(lender) by {
        let amount = pool.contributions[lender].amount as int;
        assert(pool.contributions[lender].amount >= 0);
        assert(interest * amount >= 0) by (nonlinear_arith)
            requires
                interest >= 0,
                amount >= 0,
        ;
        lemma_floor_below(interest * amount, funds);
    }
    lemma_sum_weighted_bound(lenders, shares, amounts, funds, interest);
    let earned = sum_over(lenders, shares);
    let contributed = sum_over(lenders, amounts);
    assert(earned <= interest) by (nonlinear_arith)
        requires
            funds * earned <= interest * contributed,
            contributed <= funds,
            interest >= 0,
            funds > 0,
    ;
}

/// A quotient rounded toward zero, times the divisor, does not exceed a
/// dividend that is at least zero.
proof fn lemma_floor_below(dividend: int, divisor: int)
    requires
        dividend >= 0,
        divisor > 0,
    ensures
        divisor * trunc_div(dividend, divisor) <= dividend,
{
    vstd::arithmetic::div_mod::lemma_fundamental_div_mod(dividend, divisor);
    vstd::arithmetic::div_mod::lemma_mod_pos_bound(dividend, divisor);
}

} // verus!
