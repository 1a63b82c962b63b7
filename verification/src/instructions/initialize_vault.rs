use vstd::prelude::*;

use crate::constants::MIN_VAULT_INIT_LAMPORTS;
use crate::contexts::InitializeVault;
use crate::errors::LockPayError;
use crate::errors::TxError;
use crate::pubkey::Pubkey;
use crate::state::Vault;
use crate::system::system_transfer;

verus! {

/// Opens a vault: checks that the declared receiver matches the resolved
/// receiver account and that the deposit reaches the floor, then moves the
/// amount from the sender to the custodian and returns the populated
/// record. Every check runs before any funds move, and a failed funding
/// transfer leaves both balances untouched.
pub fn handler(ctx: &mut InitializeVault, receiver: Pubkey, amount: u64) -> (r: Result<
    Vault,
    TxError,
>)
    requires
        old(ctx).receiver == receiver && amount >= MIN_VAULT_INIT_LAMPORTS
            && old(ctx).sender_lamports >= amount ==> old(ctx).vault_authority_lamports + amount
            <= u64::MAX,
    ensures
        ({
            let pre = *old(ctx);
            if pre.receiver != receiver {
                r == Err::<Vault, TxError>(TxError::Program(LockPayError::ReceiverMismatch))
                    && *final(ctx) == pre
            } else if amount < MIN_VAULT_INIT_LAMPORTS {
                r == Err::<Vault, TxError>(TxError::Program(LockPayError::AmountBelowMinimum))
                    && *final(ctx) == pre
            } else if pre.sender_lamports < amount {
                r == Err::<Vault, TxError>(TxError::InsufficientFunds) && *final(ctx) == pre
            } else {
                &&& r == Ok::<Vault, TxError>(
                    (Vault {
                        sender: pre.sender,
                        receiver,
                        amount,
                        claimed: false,
                        bump: pre.bump,
                    }),
                )
                &&& final(ctx).sender == pre.sender
                &&& final(ctx).receiver == pre.receiver
                &&& final(ctx).bump == pre.bump
                &&& final(ctx).sender_lamports == pre.sender_lamports - amount
                &&& final(ctx).vault_authority_lamports == pre.vault_authority_lamports + amount
            }
        }),
{
    if ctx.receiver != receiver {
        return Err(TxError::Program(LockPayError::ReceiverMismatch));
    }
    if amount < MIN_VAULT_INIT_LAMPORTS {
        return Err(TxError::Program(LockPayError::AmountBelowMinimum));
    }
    system_transfer(&mut ctx.sender_lamports, &mut ctx.vault_authority_lamports, amount)?;
    Ok(
        Vault {
            sender: ctx.sender,
            receiver,
            amount,
            claimed: false,
            bump: ctx.bump,
        },
    )
}

} // verus!
