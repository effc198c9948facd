//! The pool's transitions as mathematical functions.
//!
//! Each operation of the ledger is a total function from a pool and its
//! inputs to either the next pool or the reason for refusing. The
//! executable operations in [`crate::contract`] are proved to compute
//! exactly these functions.
//!
//! Two choices are fixed here. A contribution's amount is taken as given:
//! a negative amount lowers the pool's funds and the lender's balance. A
//! loan request for a borrower who already has a loan record replaces that
//! record, whether or not the earlier loan was repaid.

use crate::account::AccountId;
use crate::arith::{amount_due, fits_i64, interest_on, lender_share};
use crate::error::PoolError;
use crate::ledger::{LenderContribution, LoanRequest, LoanStatus, PoolView};
use crate::sums::sum_over;
use vstd::prelude::*;

verus! {

/// The record of a loan as it is first written: not yet repaid.
pub open spec fn new_loan(
    borrower: AccountId,
    principal: i64,
    interest_rate: i64,
    due_date: u64,
) -> LoanRequest {
    LoanRequest { borrower, principal, interest_rate, due_date, repaid: false }
}

/// The interest of each borrower's recorded loan.
pub open spec fn interest_term(loans: Map<AccountId, LoanRequest>) -> spec_fn(AccountId) -> int {
    |borrower: AccountId|
        interest_on(loans[borrower].principal as int, loans[borrower].interest_rate as int)
}

/// The amount of each lender's recorded contribution.
pub open spec fn amount_term(contributions: Map<AccountId, LenderContribution>) -> spec_fn(
    AccountId,
) -> int {
    |lender: AccountId| contributions[lender].amount as int
}

impl PoolView {
    /// A pool holds 64-bit funds and finitely many records.
    pub open spec fn wf(self) -> bool {
        &&& fits_i64(self.total_funds)
        &&& self.contributions.dom().finite()
        &&& self.active_loans.dom().finite()
    }

    /// The pool before anything has happened: no funds, no records.
    pub open spec fn empty() -> PoolView {
        PoolView {
            total_funds: 0,
            contributions: Map::empty(),
            active_loans: Map::empty(),
        }
    }

    /// What `lender` has contributed so far; zero for a lender without a
    /// record.
    pub open spec fn balance(self, lender: AccountId) -> int {
        if self.contributions.contains_key(lender) {
            self.contributions[lender].amount as int
        } else {
            0
        }
    }

    /// Where the loan of `borrower` stands.
    pub open spec fn loan_status(self, borrower: AccountId) -> LoanStatus {
        if !self.active_loans.contains_key(borrower) {
            LoanStatus::NotFound
        } else if self.active_loans[borrower].repaid {
            LoanStatus::Repaid
        } else {
            LoanStatus::Outstanding
        }
    }

    /// A deposit of `amount` by `lender`: the funds and the lender's balance
    /// both grow by `amount`. Refused only where one of the two would leave
    /// the 64-bit range.
    pub open spec fn contribute(self, lender: AccountId, amount: i64) -> Result<
        PoolView,
        PoolError,
    > {
        if fits_i64(self.total_funds + amount) && fits_i64(self.balance(lender) + amount) {
            Ok(
                PoolView {
                    total_funds: self.total_funds + amount,
                    contributions: self.contributions.insert(
                        lender,
                        LenderContribution {
                            lender,
                            amount: (self.balance(lender) + amount) as i64,
                        },
                    ),
                    active_loans: self.active_loans,
                },
            )
        } else {
            Err(PoolError::ArithmeticOverflow)
        }
    }

    /// A loan of `principal` to `borrower`: granted exactly when the pool
    /// holds at least `principal`, unless the remaining funds would leave
    /// the 64-bit range (which takes a negative principal). The funds drop
    /// by `principal` and the new record takes the borrower's place in the
    /// loans.
    pub open spec fn request_loan(
        self,
        borrower: AccountId,
        principal: i64,
        interest_rate: i64,
        due_date: u64,
    ) -> Result<PoolView, PoolError> {
        if self.total_funds < principal {
            Err(PoolError::InsufficientPoolFunds)
        } else if !fits_i64(self.total_funds - principal) {
            Err(PoolError::ArithmeticOverflow)
        } else {
            Ok(
                PoolView {
                    total_funds: self.total_funds - principal,
                    contributions: self.contributions,
                    active_loans: self.active_loans.insert(
                        borrower,
                        new_loan(borrower, principal, interest_rate, due_date),
                    ),
                },
            )
        }
    }

    /// A repayment of `repayment` by `borrower`. It settles the loan where
    /// the borrower has an unrepaid loan and `repayment` covers principal
    /// plus interest; the whole of `repayment` then goes to the funds, also
    /// what exceeds the amount due. It is an overflow where the amount due,
    /// or the funds after the repayment, leave the 64-bit range.
    pub open spec fn repay_loan(self, borrower: AccountId, repayment: i64) -> Result<
        PoolView,
        PoolError,
    > {
        if !self.active_loans.contains_key(borrower) {
            Err(PoolError::LoanNotFound)
        } else {
            let loan = self.active_loans[borrower];
            if loan.repaid {
                Err(PoolError::LoanAlreadyRepaid)
            } else {
                match amount_due(loan.principal as int, loan.interest_rate as int) {
                    Err(error) => Err(error),
                    Ok(due) => if repayment < due {
                        Err(PoolError::InsufficientRepayment)
                    } else if !fits_i64(self.total_funds + repayment) {
                        Err(PoolError::ArithmeticOverflow)
                    } else {
                        Ok(
                            PoolView {
                                total_funds: self.total_funds + repayment,
                                contributions: self.contributions,
                                active_loans: self.active_loans.insert(
                                    borrower,
                                    LoanRequest { repaid: true, ..loan },
                                ),
                            },
                        )
                    },
                }
            }
        }
    }

    /// The interest of all recorded loans together, repaid or not.
    pub open spec fn total_interest(self) -> int {
        sum_over(self.active_loans.dom(), interest_term(self.active_loans))
    }

    /// The contributions of all lenders together.
    pub open spec fn total_contributed(self) -> int {
        sum_over(self.contributions.dom(), amount_term(self.contributions))
    }

    /// Whether the interest of some recorded loan cannot be computed in 64
    /// bits.
    pub open spec fn interest_overflows(self) -> bool {
        exists|borrower: AccountId|
            self.active_loans.contains_key(borrower) && !fits_i64(
                (#[trigger] self.active_loans[borrower]).principal
                    * self.active_loans[borrower].interest_rate,
            )
    }

    /// The total interest as a 64-bit amount; an overflow where the interest
    /// of some loan, or the total, leaves the 64-bit range.
    pub open spec fn interest_earned(self) -> Result<int, PoolError> {
        if self.interest_overflows() || !fits_i64(self.total_interest()) {
            Err(PoolError::ArithmeticOverflow)
        } else {
            Ok(self.total_interest())
        }
    }

    /// The share of the total interest that falls to `lender`:
    /// `total_interest * balance / total_funds`, rounded toward zero. A pool
    /// without funds is reported as empty, before anything else; an amount
    /// outside the 64-bit range as an overflow.
    pub open spec fn earnings(self, lender: AccountId) -> Result<int, PoolError> {
        if self.total_funds == 0 {
            Err(PoolError::PoolEmpty)
        } else {
            match self.interest_earned() {
                Ok(total) => lender_share(total, self.balance(lender), self.total_funds),
                Err(error) => Err(error),
            }
        }
    }
}

} // verus!
