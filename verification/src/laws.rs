use vstd::prelude::*;

use crate::constants::MIN_VAULT_INIT_LAMPORTS;
use crate::errors::LockPayError;
use crate::errors::TxError;
use crate::ledger::Ledger;
use crate::ledger::cancel_transition;
use crate::ledger::claim_transition;
use crate::ledger::initialize_transition;
use crate::ledger::key_lamports;
use crate::ledger::ledger_unchanged;
use crate::ledger::lemma_seq_vault_fields;
use crate::pubkey::Pubkey;
use crate::pubkey::system_program_id;

verus! {

/// Law: for a valid triple — distinct parties, the deposit at or above the
/// floor, the sender funded, no live record for the pair, the custodian
/// intact — opening an escrow and then claiming it both succeed, move
/// exactly `amount` from the sender to the receiver, leave the custodian's
/// balance and every other party's balance as they were, and leave no
/// record behind.
pub proof fn lemma_initialize_then_claim(
    l0: Ledger,
    l1: Ledger,
    l2: Ledger,
    sender: Pubkey,
    receiver: Pubkey,
    amount: u64,
    r1: Result<(), TxError>,
    r2: Result<(), TxError>,
)
    requires
        l0.wf(),
        sender != receiver,
        !l0.has_vault(sender, receiver),
        amount >= MIN_VAULT_INIT_LAMPORTS,
        l0.spec_balance(sender) >= amount,
        l0.vault_authority_owner == system_program_id(),
        initialize_transition(l0, l1, sender, receiver, receiver, amount, r1),
        claim_transition(l1, l2, receiver, sender, receiver, r2),
    ensures
        r1 == Ok::<(), TxError>(()),
        r2 == Ok::<(), TxError>(()),
        l2.spec_balance(sender) == l0.spec_balance(sender) - amount,
        l2.spec_balance(receiver) == l0.spec_balance(receiver) + amount,
        !l2.has_vault(sender, receiver),
        l2.vault_authority_lamports == l0.vault_authority_lamports,
        forall|q: Pubkey|
            q != sender && q != receiver ==> #[trigger] key_lamports(l2.accounts@, q)
                == key_lamports(l0.accounts@, q),
{
}

/// Law: for a valid triple, opening an escrow and then cancelling it both
/// succeed, return exactly `amount` to the sender — whose balance ends
/// where it began — leave the receiver's balance and every other party's
/// balance untouched, restore the custodian's balance, and leave no record
/// behind.
pub proof fn lemma_initialize_then_cancel(
    l0: Ledger,
    l1: Ledger,
    l2: Ledger,
    sender: Pubkey,
    receiver: Pubkey,
    amount: u64,
    r1: Result<(), TxError>,
    r2: Result<(), TxError>,
)
    requires
        l0.wf(),
        !l0.has_vault(sender, receiver),
        amount >= MIN_VAULT_INIT_LAMPORTS,
        l0.spec_balance(sender) >= amount,
        l0.vault_authority_owner == system_program_id(),
        initialize_transition(l0, l1, sender, receiver, receiver, amount, r1),
        cancel_transition(l1, l2, sender, sender, receiver, r2),
    ensures
        r1 == Ok::<(), TxError>(()),
        r2 == Ok::<(), TxError>(()),
        l2.spec_balance(sender) == l0.spec_balance(sender),
        l2.spec_balance(receiver) == l0.spec_balance(receiver),
        !l2.has_vault(sender, receiver),
        l2.vault_authority_lamports == l0.vault_authority_lamports,
        forall|q: Pubkey|
            q != sender && q != receiver ==> #[trigger] key_lamports(l2.accounts@, q)
                == key_lamports(l0.accounts@, q),
{
}

/// Law: settlement is final. After a claim or a cancel has settled the
/// record for a pair, a further claim of that pair finds no record, fails,
/// and moves nothing.
pub proof fn lemma_settled_then_claim_fails(
    l0: Ledger,
    l1: Ledger,
    l2: Ledger,
    first_caller: Pubkey,
    second_caller: Pubkey,
    sender: Pubkey,
    receiver: Pubkey,
    r2: Result<(), TxError>,
)
    requires
        claim_transition(l0, l1, first_caller, sender, receiver, Ok::<(), TxError>(()))
            || cancel_transition(l0, l1, first_caller, sender, receiver, Ok::<(), TxError>(())),
        claim_transition(l1, l2, second_caller, sender, receiver, r2),
    ensures
        r2 == Err::<(), TxError>(TxError::AccountNotFound),
        ledger_unchanged(l1, l2),
{
}

/// Law: settlement is final. After a claim or a cancel has settled the
/// record for a pair, a further cancel of that pair finds no record,
/// fails, and moves nothing.
pub proof fn lemma_settled_then_cancel_fails(
    l0: Ledger,
    l1: Ledger,
    l2: Ledger,
    first_caller: Pubkey,
    second_caller: Pubkey,
    sender: Pubkey,
    receiver: Pubkey,
    r2: Result<(), TxError>,
)
    requires
        claim_transition(l0, l1, first_caller, sender, receiver, Ok::<(), TxError>(()))
            || cancel_transition(l0, l1, first_caller, sender, receiver, Ok::<(), TxError>(())),
        cancel_transition(l1, l2, second_caller, sender, receiver, r2),
    ensures
        r2 == Err::<(), TxError>(TxError::AccountNotFound),
        ledger_unchanged(l1, l2),
{
}

/// Law: only the recorded receiver may claim. Any other caller is turned
/// away as unauthorized, and the state does not move.
pub proof fn lemma_claim_requires_receiver(
    l0: Ledger,
    l1: Ledger,
    caller: Pubkey,
    sender: Pubkey,
    receiver: Pubkey,
    r: Result<(), TxError>,
)
    requires
        l0.has_vault(sender, receiver),
        l0.vault_authority_owner == system_program_id(),
        caller != receiver,
        claim_transition(l0, l1, caller, sender, receiver, r),
    ensures
        r == Err::<(), TxError>(TxError::Program(LockPayError::Unauthorized)),
        ledger_unchanged(l0, l1),
{
    lemma_seq_vault_fields(l0.vaults@, sender, receiver);
}

/// Law: only the recorded sender may cancel. Any other caller is turned
/// away as unauthorized, and the state does not move.
pub proof fn lemma_cancel_requires_sender(
    l0: Ledger,
    l1: Ledger,
    caller: Pubkey,
    sender: Pubkey,
    receiver: Pubkey,
    r: Result<(), TxError>,
)
    requires
        l0.has_vault(sender, receiver),
        l0.vault_authority_owner == system_program_id(),
        caller != sender,
        cancel_transition(l0, l1, caller, sender, receiver, r),
    ensures
        r == Err::<(), TxError>(TxError::Program(LockPayError::Unauthorized)),
        ledger_unchanged(l0, l1),
{
    lemma_seq_vault_fields(l0.vaults@, sender, receiver);
}

/// Law: the floor is enforced. An initialize whose deposit is below the
/// minimum fails with the floor error before any funds move.
pub proof fn lemma_initialize_floor(
    l0: Ledger,
    l1: Ledger,
    sender: Pubkey,
    receiver: Pubkey,
    amount: u64,
    r: Result<(), TxError>,
)
    requires
        !l0.has_vault(sender, receiver),
        amount < MIN_VAULT_INIT_LAMPORTS,
        initialize_transition(l0, l1, sender, receiver, receiver, amount, r),
    ensures
        r == Err::<(), TxError>(TxError::Program(LockPayError::AmountBelowMinimum)),
        ledger_unchanged(l0, l1),
{
}

/// Law: the declared receiver must be the resolved receiver. An initialize
/// whose instruction argument names a different receiver than the account
/// supplied fails with the mismatch error before any funds move.
pub proof fn lemma_initialize_mismatch(
    l0: Ledger,
    l1: Ledger,
    sender: Pubkey,
    receiver_account: Pubkey,
    receiver: Pubkey,
    amount: u64,
    r: Result<(), TxError>,
)
    requires
        !l0.has_vault(sender, receiver_account),
        receiver_account != receiver,
        initialize_transition(l0, l1, sender, receiver_account, receiver, amount, r),
    ensures
        r == Err::<(), TxError>(TxError::Program(LockPayError::ReceiverMismatch)),
        ledger_unchanged(l0, l1),
{
}

/// Law: one live escrow per pair. An initialize for a pair that already
/// has a live record fails on allocation before any funds move.
pub proof fn lemma_initialize_unique(
    l0: Ledger,
    l1: Ledger,
    sender: Pubkey,
    receiver_account: Pubkey,
    receiver: Pubkey,
    amount: u64,
    r: Result<(), TxError>,
)
    requires
        l0.has_vault(sender, receiver_account),
        initialize_transition(l0, l1, sender, receiver_account, receiver, amount, r),
    ensures
        r == Err::<(), TxError>(TxError::AccountInUse),
        ledger_unchanged(l0, l1),
{
}

} // verus!
