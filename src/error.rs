use vstd::prelude::*;

verus! {

/// What can stop the replay of an event.
#[derive(Clone, Copy, Debug, PartialEq, Eq, Structural)]
pub enum LedgerError {
    /// A deposit or withdrawal whose amount is not above zero.
    InvalidAmount,
    /// A deposit or withdrawal whose transaction id is already taken.
    DuplicateTransaction,
    /// An amount where the event kind forbids one, or none where it needs one.
    MalformedEvent,
    /// Two ledgers that were to be merged hold the same client.
    PartitionInvariantViolation,
    /// A balance would leave the range that a balance may take.
    Overflow,
}

} // verus!
