//! Participant identities.

use vstd::prelude::*;

verus! {

/// What an account identifier refers to.
#[derive(Clone, Copy, Debug, PartialEq, Eq, Structural, Hash)]
pub enum AccountKind {
    /// A key-holding participant.
    Account,
    /// A deployed contract.
    Contract,
}

/// An opaque participant identifier: a kind and a 256-bit key, held as its
/// upper and lower halves. The ledger only ever compares identifiers for
/// equality.
#[derive(Clone, Copy, Debug, PartialEq, Eq, Structural, Hash)]
pub struct AccountId {
    pub kind: AccountKind,
    pub high: u128,
    pub low: u128,
}

} // verus!
