use vstd::prelude::*;

use crate::errors::TxError;

verus! {

/// One atomic balance movement, as the system program performs it for a
/// signing owner: the whole amount moves, or nothing does. The credit side
/// must fit in a balance word; the caller owes that bound only when the
/// debit side can cover the transfer, since otherwise nothing moves.
pub fn system_transfer(from_lamports: &mut u64, to_lamports: &mut u64, lamports: u64) -> (r:
    Result<(), TxError>)
    requires
        *old(from_lamports) >= lamports ==> *old(to_lamports) + lamports <= u64::MAX,
    ensures
        *old(from_lamports) >= lamports ==> {
            &&& r == Ok::<(), TxError>(())
            &&& *final(from_lamports) == *old(from_lamports) - lamports
            &&& *final(to_lamports) == *old(to_lamports) + lamports
        },
        *old(from_lamports) < lamports ==> {
            &&& r == Err::<(), TxError>(TxError::InsufficientFunds)
            &&& *final(from_lamports) == *old(from_lamports)
            &&& *final(to_lamports) == *old(to_lamports)
        },
{
    if *from_lamports < lamports {
        return Err(TxError::InsufficientFunds);
    }
    *from_lamports = *from_lamports - lamports;
    *to_lamports = *to_lamports + lamports;
    Ok(())
}

/// The shared settlement primitive: an outgoing transfer from a source the
/// custodian authority controls, authorized by its derivation proof rather
/// than a private key. Claim and cancel both settle through this one
/// function, so the two paths cannot diverge. The caller must show the
/// custody covers the amount — the custodian invariant provides exactly
/// that — and under that bound the transfer cannot fail.
pub fn system_transfer_signed(from_lamports: &mut u64, to_lamports: &mut u64, lamports: u64) -> (r:
    Result<(), TxError>)
    requires
        *old(from_lamports) >= lamports,
        *old(to_lamports) + lamports <= u64::MAX,
    ensures
        r == Ok::<(), TxError>(()),
        *final(from_lamports) == *old(from_lamports) - lamports,
        *final(to_lamports) == *old(to_lamports) + lamports,
{
    system_transfer(from_lamports, to_lamports, lamports)
}

} // verus!
