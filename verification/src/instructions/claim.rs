use vstd::prelude::*;

use crate::contexts::Claim;
use crate::errors::LockPayError;
use crate::errors::TxError;
use crate::system::system_transfer_signed;

verus! {

/// Settles a vault in the receiver's favour: only the recorded receiver may
/// claim, only once; the full remaining amount then moves from the
/// custodian to the receiver, the record is marked claimed and zeroed, and
/// every check runs before the funds move. The balance-word bounds are owed
/// only on the path that actually transfers.
pub fn handler(ctx: &mut Claim) -> (r: Result<(), TxError>)
    requires
        old(ctx).receiver == old(ctx).vault.receiver && !old(ctx).vault.claimed
            ==> old(ctx).vault_authority_lamports >= old(ctx).vault.amount
            && old(ctx).receiver_lamports + old(ctx).vault.amount <= u64::MAX,
    ensures
        ({
            let pre = *old(ctx);
            if pre.receiver != pre.vault.receiver {
                r == Err::<(), TxError>(TxError::Program(LockPayError::Unauthorized)) && *final(ctx)
                    == pre
            } else if pre.vault.claimed {
                r == Err::<(), TxError>(TxError::Program(LockPayError::AlreadyClaimed))
                    && *final(ctx) == pre
            } else {
                &&& r == Ok::<(), TxError>(())
                &&& final(ctx).vault.sender == pre.vault.sender
                &&& final(ctx).vault.receiver == pre.vault.receiver
                &&& final(ctx).vault.bump == pre.vault.bump
                &&& final(ctx).vault.claimed == true
                &&& final(ctx).vault.amount == 0
                &&& final(ctx).receiver == pre.receiver
                &&& final(ctx).receiver_lamports == pre.receiver_lamports + pre.vault.amount
                &&& final(ctx).vault_authority_lamports == pre.vault_authority_lamports
                    - pre.vault.amount
                &&& final(ctx).vault_authority_owner == pre.vault_authority_owner
            }
        }),
{
    if ctx.receiver != ctx.vault.receiver {
        return Err(TxError::Program(LockPayError::Unauthorized));
    }
    if ctx.vault.claimed {
        return Err(TxError::Program(LockPayError::AlreadyClaimed));
    }
    let amount = ctx.vault.amount;
    system_transfer_signed(&mut ctx.vault_authority_lamports, &mut ctx.receiver_lamports, amount)?;
    ctx.vault.claimed = true;
    ctx.vault.amount = 0;
    Ok(())
}

} // verus!
