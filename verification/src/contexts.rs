use vstd::prelude::*;

use crate::errors::LockPayError;
use crate::errors::TxError;
use crate::pubkey::Pubkey;
use crate::pubkey::system_program_id;
use crate::state::Vault;

verus! {

/// The accounts an initialize operation runs against, as the runtime
/// resolves them: the authenticated sender with its balance, the receiver
/// account the caller supplied, the custodian's balance, and the bump
/// chosen for the new record's address.
#[derive(Clone, Copy, Debug, PartialEq, Eq, Structural)]
pub struct InitializeVault {
    pub sender: Pubkey,
    pub receiver: Pubkey,
    pub sender_lamports: u64,
    pub vault_authority_lamports: u64,
    pub bump: u8,
}

/// The accounts a claim runs against: the authenticated caller presenting
/// itself as the receiver, the resolved record, and the custodian with its
/// recorded owner.
#[derive(Clone, Copy, Debug, PartialEq, Eq, Structural)]
pub struct Claim {
    pub receiver: Pubkey,
    pub receiver_lamports: u64,
    pub vault: Vault,
    pub vault_authority_lamports: u64,
    pub vault_authority_owner: Pubkey,
}

/// The accounts a cancel runs against: the authenticated caller presenting
/// itself as the sender, the resolved record, and the custodian with its
/// recorded owner.
#[derive(Clone, Copy, Debug, PartialEq, Eq, Structural)]
pub struct Cancel {
    pub sender: Pubkey,
    pub sender_lamports: u64,
    pub vault: Vault,
    pub vault_authority_lamports: u64,
    pub vault_authority_owner: Pubkey,
}

impl Claim {
    /// The custodian constraint, checked before the claim handler runs: a
    /// spoofed custodian account — one not owned by the system program —
    /// fails the whole operation.
    pub fn validate(&self) -> (r: Result<(), TxError>)
        ensures
            self.vault_authority_owner == system_program_id() ==> r == Ok::<(), TxError>(()),
            self.vault_authority_owner != system_program_id() ==> r == Err::<(), TxError>(
                TxError::Program(LockPayError::InvalidState),
            ),
    {
        if self.vault_authority_owner == system_program_id() {
            Ok(())
        } else {
            Err(TxError::Program(LockPayError::InvalidState))
        }
    }
}

impl Cancel {
    /// The custodian constraint, checked before the cancel handler runs;
    /// identical to the one guarding a claim.
    pub fn validate(&self) -> (r: Result<(), TxError>)
        ensures
            self.vault_authority_owner == system_program_id() ==> r == Ok::<(), TxError>(()),
            self.vault_authority_owner != system_program_id() ==> r == Err::<(), TxError>(
                TxError::Program(LockPayError::InvalidState),
            ),
    {
        if self.vault_authority_owner == system_program_id() {
            Ok(())
        } else {
            Err(TxError::Program(LockPayError::InvalidState))
        }
    }
}

} // verus!
