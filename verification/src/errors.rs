use vstd::prelude::*;

verus! {

/// Why an operation on the game registry was rejected. Every failure aborts
/// the whole operation: the registry is left exactly as it was.
#[derive(Clone, Copy, PartialEq, Eq, Structural, Debug)]
pub enum GameError {
    /// The attached value is below the required threshold at create or claim.
    InsufficientDeposit,
    /// The referenced board id is absent from the registry.
    GameNotFound,
    /// The chosen slot index lies at or beyond the board's slot count.
    SlotOutOfRange,
    /// The chosen slot has already been claimed.
    SlotTaken,
    /// A claim was attempted after the board filled up.
    BoardClosed,
    /// A reveal was attempted on a board that is not exactly full and unrevealed.
    BoardNotClosed,
    /// A reveal was attempted by someone other than the board's creator.
    Unauthorized,
    /// The digest of the revealed solution differs from the stored commitment.
    SolutionHashMismatch,
    /// The revealed solution is shorter than half the slot count.
    SolutionSizeInvalid,
    /// The payout pass left treasure behind but found nobody to give it to.
    AllocationError,
}

} // verus!
