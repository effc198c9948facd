//! The ways in which a pool operation can be refused.

use vstd::prelude::*;

verus! {

/// Why an operation was refused. A refused operation leaves the pool as it
/// was.
#[derive(Clone, Copy, Debug, PartialEq, Eq, Structural, Hash)]
pub enum PoolError {
    /// A loan request asks for more than the pool holds.
    InsufficientPoolFunds,
    /// A repayment names a borrower with no recorded loan.
    LoanNotFound,
    /// A repayment names a loan that is already settled.
    LoanAlreadyRepaid,
    /// A repayment is below principal plus interest.
    InsufficientRepayment,
    /// Earnings were asked of a pool whose funds are zero.
    PoolEmpty,
    /// An amount left the signed 64-bit range.
    ArithmeticOverflow,
}

} // verus!
