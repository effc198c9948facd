//! The operations of the lending pool.
//!
//! Each operation works on a [`Pool`] that the caller holds: the caller
//! reads the stored pool, passes it through [`LendingPoolContract::load_or_initialize`],
//! applies the operation, and stores the pool again where the operation
//! succeeded. A refused operation leaves the pool exactly as it was.

use crate::account::AccountId;
use crate::account_map::AccountMap;
use crate::arith::{compute_amount_due, compute_interest, compute_share, fits_i64, widen};
use crate::error::PoolError;
use crate::ledger::{LenderContribution, LoanRequest, LoanStatus, Pool, PoolView};
use crate::model::{interest_term, new_loan};
use crate::sums::{lemma_sum_of_list, sum_of_first};
use vstd::prelude::*;

verus! {

/// The lending pool's operations.
pub struct LendingPoolContract;

impl LendingPoolContract {
    /// A pool with no funds and no records.
    pub fn initialize_pool() -> (pool: Pool)
        ensures
            pool@ == PoolView::empty(),
    {
        Pool { total_funds: 0, contributions: AccountMap::new(), active_loans: AccountMap::new() }
    }

    /// The pool to work on, given what storage holds: the stored pool, or a
    /// fresh one where nothing was stored yet.
    pub fn load_or_initialize(stored: Option<Pool>) -> (pool: Pool)
        ensures
            stored matches Some(found) ==> pool == found,
            stored is None ==> pool@ == PoolView::empty(),
    {
        match stored {
            Some(found) => found,
            None => Self::initialize_pool(),
        }
    }

    /// Records a deposit of `amount` by `lender`, as
    /// [`PoolView::contribute`] states it.
    pub fn contribute_to_pool(pool: &mut Pool, lender: AccountId, amount: i64) -> (result: Result<
        (),
        PoolError,
    >)
        ensures
            (match old(pool)@.contribute(lender, amount) {
                Ok(next) => result is Ok && final(pool)@ == next,
                Err(error) => result == Err::<(), PoolError>(error) && *final(pool) == *old(pool),
            }),
    {
        let balance: i64 = Self::view_lender_balance(pool, lender);
        let funds: i64 = match pool.total_funds.checked_add(amount) {
            Some(funds) => funds,
            None => {
                return Err(PoolError::ArithmeticOverflow);
            },
        };
        let new_balance: i64 = match balance.checked_add(amount) {
            Some(new_balance) => new_balance,
            None => {
                return Err(PoolError::ArithmeticOverflow);
            },
        };
        pool.total_funds = funds;
        pool.contributions.set(lender, LenderContribution { lender, amount: new_balance });
        Ok(())
    }

    /// Grants `borrower` a loan of `principal` out of the pool's funds, as
    /// [`PoolView::request_loan`] states it, and returns the record written.
    pub fn request_loan(
        pool: &mut Pool,
        borrower: AccountId,
        principal: i64,
        interest_rate: i64,
        due_date: u64,
    ) -> (result: Result<LoanRequest, PoolError>)
        ensures
            (match old(pool)@.request_loan(borrower, principal, interest_rate, due_date) {
                Ok(next) => result == Ok::<LoanRequest, PoolError>(
                    new_loan(borrower, principal, interest_rate, due_date),
                ) && final(pool)@ == next,
                Err(error) => result == Err::<LoanRequest, PoolError>(error) && *final(pool)
                    == *old(pool),
            }),
    {
        if pool.total_funds < principal {
            return Err(PoolError::InsufficientPoolFunds);
        }
        let funds: i64 = match pool.total_funds.checked_sub(principal) {
            Some(funds) => funds,
            None => {
                return Err(PoolError::ArithmeticOverflow);
            },
        };
        let loan = LoanRequest { borrower, principal, interest_rate, due_date, repaid: false };
        pool.total_funds = funds;
        pool.active_loans.set(borrower, loan);
        Ok(loan)
    }

    /// Settles the loan of `borrower` with a payment of `repayment_amount`,
    /// as [`PoolView::repay_loan`] states it.
    pub fn repay_loan(pool: &mut Pool, borrower: AccountId, repayment_amount: i64) -> (result:
        Result<(), PoolError>)
        ensures
            (match old(pool)@.repay_loan(borrower, repayment_amount) {
                Ok(next) => result is Ok && final(pool)@ == next,
                Err(error) => result == Err::<(), PoolError>(error) && *final(pool) == *old(pool),
            }),
    {
        let loan = match pool.active_loans.get(borrower) {
            Some(loan) => loan,
            None => {
                return Err(PoolError::LoanNotFound);
            },
        };
        if loan.repaid {
            return Err(PoolError::LoanAlreadyRepaid);
        }
        let due: i64 = compute_amount_due(loan.principal, loan.interest_rate)?;
        if repayment_amount < due {
            return Err(PoolError::InsufficientRepayment);
        }
        let funds: i64 = match pool.total_funds.checked_add(repayment_amount) {
            Some(funds) => funds,
            None => {
                return Err(PoolError::ArithmeticOverflow);
            },
        };
        pool.total_funds = funds;
        pool.active_loans.set(
            borrower,
            LoanRequest {
                borrower: loan.borrower,
                principal: loan.principal,
                interest_rate: loan.interest_rate,
                due_date: loan.due_date,
                repaid: true,
            },
        );
        Ok(())
    }

    /// What `lender` has contributed so far; zero for a lender without a
    /// record.
    pub fn view_lender_balance(pool: &Pool, lender: AccountId) -> (balance: i64)
        ensures
            balance == pool@.balance(lender),
    {
        match pool.contributions.get(lender) {
            Some(contribution) => contribution.amount,
            None => 0,
        }
    }

    /// Where the loan of `borrower` stands.
    pub fn view_loan_status(pool: &Pool, borrower: AccountId) -> (status: LoanStatus)
        ensures
            status == pool@.loan_status(borrower),
    {
        match pool.active_loans.get(borrower) {
            Some(loan) => if loan.repaid {
                LoanStatus::Repaid
            } else {
                LoanStatus::Outstanding
            },
            None => LoanStatus::NotFound,
        }
    }

    /// The interest of all recorded loans together, repaid or not, as
    /// [`PoolView::interest_earned`] states it. The total decides whether it
    /// fits, not the sums on the way to it.
    pub fn total_interest_earned(pool: &Pool) -> (earned: Result<i64, PoolError>)
        ensures
            widen(earned) == pool@.interest_earned(),
    {
        let ghost loans = pool.active_loans@;
        let ghost borrowers = pool.active_loans.keys();
        let ghost term = interest_term(loans);
        proof {
            use_type_invariant(&pool.active_loans);
            pool.active_loans.lemma_enumeration();
        }
        let mut total: i128 = 0;
        let mut index: usize = 0;
        loop
            invariant
                index <= borrowers.len() <= usize::MAX,
                loans == pool.active_loans@,
                borrowers == pool.active_loans.keys(),
                borrowers.to_set() == loans.dom(),
                term == interest_term(loans),
                total == sum_of_first(borrowers, index as int, term),
                -(index * 0x8000_0000_0000_0000) <= total <= index * 0x8000_0000_0000_0000,
                forall|i: int|
                    0 <= i < index ==> fits_i64(
                        (#[trigger] loans[borrowers[i]]).principal
                            * loans[borrowers[i]].interest_rate,
                    ),
            ensures
                index == borrowers.len(),
            decreases borrowers.len() - index,
        {
            let loan = match pool.active_loans.entry_at(index) {
                Some(entry) => entry.1,
                None => {
                    break ;
                },
            };
            assert(loans.contains_key(borrowers[index as int])) by {
                assert(borrowers.to_set().contains(borrowers[index as int]));
            }
            let interest: i64 = match compute_interest(loan.principal, loan.interest_rate) {
                Ok(interest) => interest,
                Err(error) => {
                    assert(pool@.interest_overflows());
                    return Err(error);
                },
            };
            total = total + interest as i128;
            index += 1;
        }
        proof {
            lemma_sum_of_list(borrowers, term);
            assert(!pool@.interest_overflows()) by {
                if pool@.interest_overflows() {
                    let borrower = choose|borrower: AccountId|
                        loans.contains_key(borrower) && !fits_i64(
                            (#[trigger] loans[borrower]).principal * loans[borrower].interest_rate,
                        );
                    assert(borrowers.to_set().contains(borrower));
                    let i = choose|i: int| 0 <= i < borrowers.len() && borrowers[i] == borrower;
                    assert(fits_i64(
                        loans[borrowers[i]].principal * loans[borrowers[i]].interest_rate,
                    ));
                }
            }
        }
        if total < i64::MIN as i128 || total > i64::MAX as i128 {
            return Err(PoolError::ArithmeticOverflow);
        }
        Ok(total as i64)
    }

    /// The share of the interest of all recorded loans that falls to
    /// `lender`, as [`PoolView::earnings`] states it.
    pub fn calculate_lender_earnings(pool: &Pool, lender: AccountId) -> (earnings: Result<
        i64,
        PoolError,
    >)
        ensures
            widen(earnings) == pool@.earnings(lender),
    {
        if pool.total_funds == 0 {
            return Err(PoolError::PoolEmpty);
        }
        let total: i64 = Self::total_interest_earned(pool)?;
        let balance: i64 = Self::view_lender_balance(pool, lender);
        compute_share(total, balance, pool.total_funds)
    }
}

} // verus!
