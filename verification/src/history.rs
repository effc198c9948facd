//! The pool as the outcome of a history of operations.
//!
//! A pool is only ever changed by the three operations of the ledger. This
//! module names them, lets a pool run through a sequence of them, and states
//! what holds of every pool that is reached this way.

use crate::account::AccountId;
use crate::error::PoolError;
use crate::ledger::{LoanStatus, PoolView};
use vstd::prelude::*;

verus! {

/// One request to change the pool.
pub enum Operation {
    Contribute { lender: AccountId, amount: i64 },
    RequestLoan { borrower: AccountId, principal: i64, interest_rate: i64, due_date: u64 },
    RepayLoan { borrower: AccountId, repayment: i64 },
}

impl Operation {
    /// Whether this is a contribution by `lender`.
    pub open spec fn is_contribution_of(self, lender: AccountId) -> bool {
        match self {
            Operation::Contribute { lender: contributor, .. } => contributor == lender,
            _ => false,
        }
    }

    /// Whether this is a loan request by `borrower`.
    pub open spec fn is_request_of(self, borrower: AccountId) -> bool {
        match self {
            Operation::RequestLoan { borrower: requester, .. } => requester == borrower,
            _ => false,
        }
    }

    /// Whether this is a repayment by `borrower`.
    pub open spec fn is_repayment_of(self, borrower: AccountId) -> bool {
        match self {
            Operation::RepayLoan { borrower: payer, .. } => payer == borrower,
            _ => false,
        }
    }
}

impl PoolView {
    /// Whether each record is filed under the account that it names.
    pub open spec fn files_by_account(self) -> bool {
        &&& forall|lender: AccountId|
            self.contributions.contains_key(lender) ==> (
            #[trigger] self.contributions[lender]).lender == lender
        &&& forall|borrower: AccountId|
            self.active_loans.contains_key(borrower) ==> (
            #[trigger] self.active_loans[borrower]).borrower == borrower
    }

    /// The outcome of one operation.
    pub open spec fn apply(self, operation: Operation) -> Result<PoolView, PoolError> {
        match operation {
            Operation::Contribute { lender, amount } => self.contribute(lender, amount),
            Operation::RequestLoan { borrower, principal, interest_rate, due_date } =>
                self.request_loan(borrower, principal, interest_rate, due_date),
            Operation::RepayLoan { borrower, repayment } => self.repay_loan(borrower, repayment),
        }
    }

    /// The pool after one operation: the next pool where the operation is
    /// accepted, the same pool where it is refused.
    pub open spec fn after(self, operation: Operation) -> PoolView {
        match self.apply(operation) {
            Ok(next) => next,
            Err(_) => self,
        }
    }

    /// The pool after a sequence of operations, applied in order.
    pub open spec fn after_all(self, operations: Seq<Operation>) -> PoolView
        decreases operations.len(),
    {
        if operations.len() == 0 {
            self
        } else {
            self.after_all(operations.drop_last()).after(operations.last())
        }
    }

    /// What one operation moves into the funds: a contribution's amount and
    /// a repayment in full, a loan's principal with a minus sign, and
    /// nothing where the operation is refused.
    pub open spec fn inflow(self, operation: Operation) -> int {
        if self.apply(operation) is Err {
            0
        } else {
            match operation {
                Operation::Contribute { amount, .. } => amount as int,
                Operation::RequestLoan { principal, .. } => -principal,
                Operation::RepayLoan { repayment, .. } => repayment as int,
            }
        }
    }

    /// What a sequence of operations moves into the funds altogether.
    pub open spec fn net_inflow(self, operations: Seq<Operation>) -> int
        decreases operations.len(),
    {
        if operations.len() == 0 {
            0
        } else {
            self.net_inflow(operations.drop_last()) + self.after_all(
                operations.drop_last(),
            ).inflow(operations.last())
        }
    }
}

/// The funds account for every operation: they are what was there, plus all
/// amounts contributed, minus all principal lent, plus all repayments. From
/// the empty pool they are exactly the net inflow.
pub proof fn lemma_funds_are_net_inflow(pool: PoolView, operations: Seq<Operation>)
    ensures
        pool.after_all(operations).total_funds == pool.total_funds + pool.net_inflow(operations),
        PoolView::empty().after_all(operations).total_funds == PoolView::empty().net_inflow(
            operations,
        ),
    decreases operations.len(),
{
    if operations.len() > 0 {
        lemma_funds_are_net_inflow(pool, operations.drop_last());
    }
}

/// A history keeps the pool well formed.
pub proof fn lemma_history_keeps_well_formed(pool: PoolView, operations: Seq<Operation>)
    requires
        pool.wf(),
    ensures
        pool.after_all(operations).wf(),
    decreases operations.len(),
{
    if operations.len() > 0 {
        lemma_history_keeps_well_formed(pool, operations.drop_last());
    }
}

/// No operation removes a record: who has a contribution or a loan record
/// keeps one through every history.
pub proof fn lemma_records_are_never_removed(pool: PoolView, operations: Seq<Operation>)
    ensures
        pool.contributions.dom().subset_of(pool.after_all(operations).contributions.dom()),
        pool.active_loans.dom().subset_of(pool.after_all(operations).active_loans.dom()),
    decreases operations.len(),
{
    if operations.len() > 0 {
        lemma_records_are_never_removed(pool, operations.drop_last());
    }
}

/// Every record is filed under the account it names, in every pool that a
/// history reaches from a pool of which this holds, such as the empty one.
pub proof fn lemma_records_name_their_account(pool: PoolView, operations: Seq<Operation>)
    requires
        pool.files_by_account(),
    ensures
        PoolView::empty().files_by_account(),
        pool.after_all(operations).files_by_account(),
    decreases operations.len(),
{
    if operations.len() > 0 {
        lemma_records_name_their_account(pool, operations.drop_last());
    }
}

/// A lender's balance moves only by that lender's accepted contributions,
/// and then by the amount contributed; and a lender has a record exactly
/// from the first accepted contribution on.
pub proof fn lemma_balance_moves_by_contributions(
    pool: PoolView,
    operation: Operation,
    lender: AccountId,
)
    ensures
        operation.is_contribution_of(lender) ==> pool.after(operation).balance(lender)
            == pool.balance(lender) + pool.inflow(operation),
        !operation.is_contribution_of(lender) ==> pool.after(operation).balance(lender)
            == pool.balance(lender),
        pool.after(operation).contributions.contains_key(lender) <==> ({
            ||| pool.contributions.contains_key(lender)
            ||| pool.apply(operation) is Ok && operation.is_contribution_of(lender)
        }),
{
}

/// A loan moves through two states. A borrower without a record gets one
/// only by an accepted request. An outstanding loan becomes repaid exactly
/// by an accepted repayment of its borrower. A repaid loan stays repaid
/// under every repayment and contribution. An accepted request by the
/// borrower starts over from outstanding, whatever was there.
pub proof fn lemma_loan_life_cycle(pool: PoolView, operation: Operation, borrower: AccountId)
    ensures
        pool.after(operation).loan_status(borrower) == (if pool.apply(operation) is Err {
            pool.loan_status(borrower)
        } else if operation.is_request_of(borrower) {
            LoanStatus::Outstanding
        } else if operation.is_repayment_of(borrower) {
            LoanStatus::Repaid
        } else {
            pool.loan_status(borrower)
        }),
        pool.loan_status(borrower) == LoanStatus::Repaid && operation.is_repayment_of(borrower)
            ==> pool.apply(operation) == Err::<PoolView, PoolError>(PoolError::LoanAlreadyRepaid),
        pool.loan_status(borrower) != LoanStatus::Outstanding && operation.is_repayment_of(
            borrower,
        ) ==> pool.apply(operation) is Err,
{
}

} // verus!
