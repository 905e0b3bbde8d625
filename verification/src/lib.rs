//! A raffle with one prize per round.
//!
//! Participants buy entries while a round is open; once it is closed the
//! authority has a winner drawn, with every entry weighing the same, and
//! the prize goes to the winner.
//!
//! [`RaffleLedger`] is the ledger as a mathematical value, with each
//! operation as a function on it; [`laws`] holds what is proved of it.
//! [`NFTRaffle`] is the ledger that runs: each of its operations states
//! which rejection or which new ledger the model gives.

pub mod accounting;
pub mod custody;
mod entropy;
pub mod error;
pub mod identity;
pub mod laws;
pub mod ledger;
pub mod raffle;
mod round;

pub use custody::{FundsTransfer, PrizeAsset, PrizeTransfer};
pub use error::ErrorCode;
pub use identity::Identity;
pub use ledger::RaffleLedger;
pub use raffle::NFTRaffle;
