use vstd::prelude::*;

use crate::contexts::Cancel;
use crate::errors::LockPayError;
use crate::errors::TxError;
use crate::system::system_transfer_signed;

verus! {

/// Settles a vault in the sender's favour: only the recorded sender may
/// cancel, only once; the full remaining amount then returns from the
/// custodian to the sender, and the record is marked claimed and zeroed —
/// the same settlement shape as a claim, with only the destination
/// differing.
pub fn handler(ctx: &mut Cancel) -> (r: Result<(), TxError>)
    requires
        old(ctx).sender == old(ctx).vault.sender && !old(ctx).vault.claimed
            ==> old(ctx).vault_authority_lamports >= old(ctx).vault.amount
            && old(ctx).sender_lamports + old(ctx).vault.amount <= u64::MAX,
    ensures
        ({
            let pre = *old(ctx);
            if pre.sender != pre.vault.sender {
                r == Err::<(), TxError>(TxError::Program(LockPayError::Unauthorized)) && *final(ctx)
                    == pre
            } else if pre.vault.claimed {
                r == Err::<(), TxError>(TxError::Program(LockPayError::AlreadyClaimed))
                    && *final(ctx) == pre
            } else {
                &&& r == Ok::<(), TxError>(())
                &&& final(ctx).vault.sender == pre.vault.sender
                &&& final(ctx).vault.receiver == pre.vault.receiver
                &&& final(ctx).vault.bump == pre.vault.bump
                &&& final(ctx).vault.claimed == true
                &&& final(ctx).vault.amount == 0
                &&& final(ctx).sender == pre.sender
                &&& final(ctx).sender_lamports == pre.sender_lamports + pre.vault.amount
                &&& final(ctx).vault_authority_lamports == pre.vault_authority_lamports
                    - pre.vault.amount
                &&& final(ctx).vault_authority_owner == pre.vault_authority_owner
            }
        }),
{
    if ctx.sender != ctx.vault.sender {
        return Err(TxError::Program(LockPayError::Unauthorized));
    }
    if ctx.vault.claimed {
        return Err(TxError::Program(LockPayError::AlreadyClaimed));
    }
    let amount = ctx.vault.amount;
    system_transfer_signed(&mut ctx.vault_authority_lamports, &mut ctx.sender_lamports, amount)?;
    ctx.vault.claimed = true;
    ctx.vault.amount = 0;
    Ok(())
}

} // verus!
