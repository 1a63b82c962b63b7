use vstd::prelude::*;

use crate::constants::MIN_VAULT_INIT_LAMPORTS;
use crate::pubkey::Pubkey;

verus! {

/// One escrow record: the stored state for one locked-fund agreement
/// between a sender and a receiver.
#[derive(Clone, Copy, Debug, PartialEq, Eq, Structural)]
pub struct Vault {
    /// The funding party; immutable after creation.
    pub sender: Pubkey,
    /// The intended recipient; immutable after creation.
    pub receiver: Pubkey,
    /// Remaining locked value; zeroed exactly once, on settlement.
    pub amount: u64,
    /// True once either a claim or a cancel has settled this record.
    pub claimed: bool,
    /// The derivation-proof byte for the record's address.
    pub bump: u8,
}

impl Vault {
    /// Serialized size of the record's fields.
    pub const SPACE: usize = 32 + 32 + 8 + 1 + 1;

    /// The shape every record has while it is live in storage: settlement
    /// both zeroes the amount and destroys the record in one atomic step,
    /// so a stored record is always unclaimed and above the floor.
    pub open spec fn live_ok(self) -> bool {
        &&& !self.claimed
        &&& self.amount >= MIN_VAULT_INIT_LAMPORTS
    }
}

} // verus!
