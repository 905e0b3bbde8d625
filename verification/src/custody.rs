//! What the ledger asks of the custody layer: the asset held as a prize and
//! the transfers that an accepted operation calls for.

use vstd::prelude::*;
use crate::identity::Identity;

verus! {

/// A reference to the asset put up as the prize.
#[derive(Clone, Copy, Debug, PartialEq, Eq)]
pub struct PrizeAsset {
    /// The address that holds the asset.
    pub address: Identity,
    /// The asset's number at that address.
    pub id: u64,
}

/// Instruction to hand the prize over to the winner of a draw.
#[derive(Clone, Copy, Debug, PartialEq, Eq)]
pub struct PrizeTransfer {
    pub asset: PrizeAsset,
    pub from: Identity,
    pub to: Identity,
}

/// Instruction to pay the collected entry fees out.
#[derive(Clone, Copy, Debug, PartialEq, Eq)]
pub struct FundsTransfer {
    pub amount: u64,
    pub to: Identity,
}

} // verus!
