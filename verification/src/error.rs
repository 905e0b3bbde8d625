//! The ways in which the ledger turns an operation down.

use vstd::prelude::*;

verus! {

/// Why an operation was rejected. Every rejection leaves the ledger as it
/// was; none is fatal and none is worth retrying unchanged.
#[derive(Clone, Copy, Debug, PartialEq, Eq, Structural)]
pub enum ErrorCode {
    /// A prize was offered while a round is already running.
    AlreadyActive,
    /// Entries were bought, or the round was closed, while no round is running.
    RaffleInactive,
    /// The entry cost was changed while a round is running.
    RaffleActive,
    /// A draw was asked for before the round was closed.
    RaffleStillActive,
    /// A prize was offered while another one is still held.
    PrizeAlreadySet,
    /// A draw was asked for while no prize is held.
    NoPrizeSet,
    /// The caller is not the party that holds the offered asset.
    NotAssetOwner,
    /// The caller is not the authority of this raffle.
    NotAuthority,
    /// The payer cannot cover the entries asked for.
    InsufficientFunds,
    /// A draw was asked for on an empty ticket pool.
    NoParticipants,
    /// A withdrawal was asked for while nothing has been collected.
    NothingToWithdraw,
}

impl ErrorCode {
    /// The wording of [`ErrorCode::message`].
    pub open spec fn message_text(self) -> Seq<char> {
        match self {
            ErrorCode::AlreadyActive => "Raffle is already started"@,
            ErrorCode::RaffleInactive => "Raffle is not started"@,
            ErrorCode::RaffleActive => "Raffle is in progress"@,
            ErrorCode::RaffleStillActive => "Raffle is still running"@,
            ErrorCode::PrizeAlreadySet => "NFT prize is already set"@,
            ErrorCode::NoPrizeSet => "NFT prize is not set"@,
            ErrorCode::NotAssetOwner => "Owner does not own the NFT"@,
            ErrorCode::NotAuthority => "Caller is not the owner of the raffle"@,
            ErrorCode::InsufficientFunds => "Insufficient funds for the entries"@,
            ErrorCode::NoParticipants => "No player in the raffle"@,
            ErrorCode::NothingToWithdraw => "No balance to withdraw"@,
        }
    }

    /// A sentence for the caller that says what went wrong.
    pub fn message(&self) -> (text: &'static str)
        ensures
            text@ == self.message_text(),
    {
        match self {
            ErrorCode::AlreadyActive => "Raffle is already started",
            ErrorCode::RaffleInactive => "Raffle is not started",
            ErrorCode::RaffleActive => "Raffle is in progress",
            ErrorCode::RaffleStillActive => "Raffle is still running",
            ErrorCode::PrizeAlreadySet => "NFT prize is already set",
            ErrorCode::NoPrizeSet => "NFT prize is not set",
            ErrorCode::NotAssetOwner => "Owner does not own the NFT",
            ErrorCode::NotAuthority => "Caller is not the owner of the raffle",
            ErrorCode::InsufficientFunds => "Insufficient funds for the entries",
            ErrorCode::NoParticipants => "No player in the raffle",
            ErrorCode::NothingToWithdraw => "No balance to withdraw",
        }
    }
}

} // verus!
