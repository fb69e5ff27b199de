use vstd::prelude::*;

verus! {

/// The ledger's closed error taxonomy: one kind per violated precondition.
#[derive(Clone, Copy, PartialEq, Eq, Debug)]
pub enum BillError {
    /// The current call was not proven to originate from the named principal.
    Unauthorized,
    /// A bill was submitted with an empty participant list.
    InvalidParticipants,
    /// A bill was submitted with a total that is not strictly positive.
    InvalidAmount,
    /// A bill was submitted with the same participant listed twice.
    DuplicateParticipant,
    /// The given id names no bill in the ledger.
    BillNotFound,
    /// The payer owes no share of the bill.
    NotParticipant,
    /// The payer's share was already recorded as paid.
    AlreadyPaid,
    /// The bill is settled; settled bills reject every further payment.
    AlreadySettled,
}

} // verus!
