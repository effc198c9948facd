//! The records of the ledger and the pool that holds them.

use crate::account::AccountId;
use crate::account_map::AccountMap;
use vstd::prelude::*;

verus! {

/// A borrower's loan: what was drawn, at which rate, until when, and whether
/// it has been settled.
#[derive(Clone, Copy, Debug, PartialEq, Eq, Structural, Hash)]
pub struct LoanRequest {
    pub borrower: AccountId,
    pub principal: i64,
    /// Interest as an integer percentage of the principal.
    pub interest_rate: i64,
    /// The time by which repayment is expected; the ledger records it and
    /// does not act on it.
    pub due_date: u64,
    pub repaid: bool,
}

/// The cumulative amount that a lender has deposited.
#[derive(Clone, Copy, Debug, PartialEq, Eq, Structural, Hash)]
pub struct LenderContribution {
    pub lender: AccountId,
    pub amount: i64,
}

/// Where a borrower's loan stands.
#[derive(Clone, Copy, Debug, PartialEq, Eq, Structural, Hash)]
pub enum LoanStatus {
    Outstanding,
    Repaid,
    NotFound,
}

/// The whole state of the lending pool.
///
/// `total_funds` is the pool's liquidity: contributions, less principal
/// lent out, plus everything repaid. There is one contribution record per
/// lender and one loan record per borrower; loan records are never removed.
#[derive(Debug)]
pub struct Pool {
    pub total_funds: i64,
    pub contributions: AccountMap<LenderContribution>,
    pub active_loans: AccountMap<LoanRequest>,
}

/// The pool as a mathematical value.
pub struct PoolView {
    pub total_funds: int,
    pub contributions: Map<AccountId, LenderContribution>,
    pub active_loans: Map<AccountId, LoanRequest>,
}

impl View for Pool {
    type V = PoolView;

    open spec fn view(&self) -> PoolView {
        PoolView {
            total_funds: self.total_funds as int,
            contributions: self.contributions@,
            active_loans: self.active_loans@,
        }
    }
}

impl Clone for Pool {
    /// A copy of the pool in the same state.
    fn clone(&self) -> (copy: Self)
        ensures
            copy@ == self@,
            copy.contributions.keys() == self.contributions.keys(),
            copy.active_loans.keys() == self.active_loans.keys(),
    {
        Pool {
            total_funds: self.total_funds,
            contributions: self.contributions.clone(),
            active_loans: self.active_loans.clone(),
        }
    }
}

impl LoanStatus {
    /// The line that [`LoanStatus::message`] gives for a status.
    pub open spec fn message_text(self) -> Seq<char> {
        match self {
            LoanStatus::Outstanding => "Loan is outstanding."@,
            LoanStatus::Repaid => "Loan is fully repaid."@,
            LoanStatus::NotFound => "No loan found for this borrower."@,
        }
    }

    /// A line of text for the status.
    pub fn message(&self) -> (text: &'static str)
        ensures
            text@ == self.message_text(),
    {
        match self {
            LoanStatus::Outstanding => "Loan is outstanding.",
            LoanStatus::Repaid => "Loan is fully repaid.",
            LoanStatus::NotFound => "No loan found for this borrower.",
        }
    }
}

} // verus!
