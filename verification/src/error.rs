//! Errors that the lottery core reports.
use vstd::prelude::*;

verus! {

/// Why an operation was refused. Every operation stops at the first condition
/// that does not hold and reports it; nothing is written in that case.
#[derive(Clone, Copy, Debug, PartialEq, Eq, Structural)]
pub enum LotteryError {
    /// The payload is empty, too short for its tag, or carries an unknown tag.
    InvalidInstruction,
    /// The operation was addressed to another program.
    IncorrectProgramId,
    /// A record that this core must own is owned by someone else.
    IncorrectOwner,
    /// A record that must sign the operation did not.
    MissingSignature,
    /// A record holds less than the minimum balance for its size.
    NotRentExempt,
    /// The round record is already in use.
    AlreadyInitialized,
    /// The round record has not been initialized.
    NotInitialized,
    /// The round already has its winning numbers.
    AlreadyFinalized,
    /// The round has no winning numbers yet.
    NotFinalized,
    /// The ticket record already holds a purchase.
    AlreadyPurchased,
    /// A ticket or winning number lies outside its range.
    InvalidNumber,
    /// A supplied wallet is not the one the round records.
    InvalidWalletAccount,
    /// The participant list does not fit the round.
    InvalidParticipantsAccounts,
    /// Fewer random bytes than the six numbers need.
    InvalidRandomResult,
    /// A balance does not cover what must be paid from it.
    InsufficientFunds,
    /// A record's bytes do not decode: wrong length or a flag byte that is
    /// neither 0 nor 1.
    InvalidAccountData,
    /// Fewer records were supplied than the operation names.
    NotEnoughAccountKeys,
    /// A counter or the prize pool would exceed its field.
    Overflow,
}

} // verus!
