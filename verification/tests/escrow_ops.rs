use lockpay_vault::constants::MIN_VAULT_INIT_LAMPORTS;
use lockpay_vault::errors::LockPayError;
use lockpay_vault::errors::TxError;
use lockpay_vault::ledger::Ledger;
use lockpay_vault::pubkey::Pubkey;

const MIN: u64 = MIN_VAULT_INIT_LAMPORTS;

fn funded_ledger(sender: Pubkey, lamports: u64) -> Ledger {
    let mut l = Ledger::new();
    l.airdrop(sender, lamports);
    l
}

#[test]
fn initialize_locks_funds_and_stores_record() {
    let s = Pubkey::new(1);
    let r = Pubkey::new(2);
    let mut l = funded_ledger(s, 5 * MIN);
    let res = l.initialize_vault(s, r, r, 2 * MIN);
    assert_eq!(res, Ok(()));
    assert_eq!(l.balance_of(s), 3 * MIN);
    assert_eq!(l.vault_authority_lamports, 2 * MIN);
    let v = l.get_vault(s, r).expect("record must be live");
    assert_eq!(v.sender, s);
    assert_eq!(v.receiver, r);
    assert_eq!(v.amount, 2 * MIN);
    assert!(!v.claimed);
}

#[test]
fn initialize_below_floor_fails_and_moves_nothing() {
    let s = Pubkey::new(1);
    let r = Pubkey::new(2);
    let mut l = funded_ledger(s, 5 * MIN);
    let res = l.initialize_vault(s, r, r, MIN - 1);
    assert_eq!(res, Err(TxError::Program(LockPayError::AmountBelowMinimum)));
    assert_eq!(l.balance_of(s), 5 * MIN);
    assert_eq!(l.vault_authority_lamports, 0);
    assert!(l.get_vault(s, r).is_none());
}

#[test]
fn initialize_at_floor_succeeds() {
    let s = Pubkey::new(1);
    let r = Pubkey::new(2);
    let mut l = funded_ledger(s, 2 * MIN);
    assert_eq!(l.initialize_vault(s, r, r, MIN), Ok(()));
    assert_eq!(l.vault_authority_lamports, MIN);
}

#[test]
fn initialize_receiver_mismatch_fails() {
    let s = Pubkey::new(1);
    let r = Pubkey::new(2);
    let other = Pubkey::new(3);
    let mut l = funded_ledger(s, 5 * MIN);
    let res = l.initialize_vault(s, r, other, 2 * MIN);
    assert_eq!(res, Err(TxError::Program(LockPayError::ReceiverMismatch)));
    assert_eq!(l.balance_of(s), 5 * MIN);
    assert!(l.get_vault(s, r).is_none());
}

#[test]
fn initialize_twice_for_same_pair_fails_allocation() {
    let s = Pubkey::new(1);
    let r = Pubkey::new(2);
    let mut l = funded_ledger(s, 10 * MIN);
    assert_eq!(l.initialize_vault(s, r, r, 2 * MIN), Ok(()));
    let res = l.initialize_vault(s, r, r, 3 * MIN);
    assert_eq!(res, Err(TxError::AccountInUse));
    // the first record and the balances stand untouched
    assert_eq!(l.balance_of(s), 8 * MIN);
    assert_eq!(l.vault_authority_lamports, 2 * MIN);
    assert_eq!(l.get_vault(s, r).unwrap().amount, 2 * MIN);
}

#[test]
fn initialize_with_poor_sender_fails() {
    let s = Pubkey::new(1);
    let r = Pubkey::new(2);
    let mut l = funded_ledger(s, MIN);
    let res = l.initialize_vault(s, r, r, 2 * MIN);
    assert_eq!(res, Err(TxError::InsufficientFunds));
    assert_eq!(l.balance_of(s), MIN);
    assert_eq!(l.vault_authority_lamports, 0);
    assert!(l.get_vault(s, r).is_none());
}

#[test]
fn distinct_pairs_get_distinct_records() {
    let s = Pubkey::new(1);
    let r1 = Pubkey::new(2);
    let r2 = Pubkey::new(3);
    let mut l = funded_ledger(s, 10 * MIN);
    assert_eq!(l.initialize_vault(s, r1, r1, 2 * MIN), Ok(()));
    assert_eq!(l.initialize_vault(s, r2, r2, 3 * MIN), Ok(()));
    assert_eq!(l.vault_authority_lamports, 5 * MIN);
    assert_eq!(l.get_vault(s, r1).unwrap().amount, 2 * MIN);
    assert_eq!(l.get_vault(s, r2).unwrap().amount, 3 * MIN);
}

#[test]
fn claim_pays_receiver_and_retires_record() {
    let s = Pubkey::new(1);
    let r = Pubkey::new(2);
    let mut l = funded_ledger(s, 5 * MIN);
    assert_eq!(l.initialize_vault(s, r, r, 2 * MIN), Ok(()));
    let res = l.claim(r, s, r);
    assert_eq!(res, Ok(()));
    assert_eq!(l.balance_of(r), 2 * MIN);
    assert_eq!(l.balance_of(s), 3 * MIN);
    assert_eq!(l.vault_authority_lamports, 0);
    assert!(l.get_vault(s, r).is_none());
}

#[test]
fn claim_by_stranger_is_unauthorized() {
    let s = Pubkey::new(1);
    let r = Pubkey::new(2);
    let intruder = Pubkey::new(9);
    let mut l = funded_ledger(s, 5 * MIN);
    assert_eq!(l.initialize_vault(s, r, r, 2 * MIN), Ok(()));
    let res = l.claim(intruder, s, r);
    assert_eq!(res, Err(TxError::Program(LockPayError::Unauthorized)));
    // nothing moved, the record is still live
    assert_eq!(l.balance_of(intruder), 0);
    assert_eq!(l.vault_authority_lamports, 2 * MIN);
    assert!(l.get_vault(s, r).is_some());
}

#[test]
fn claim_by_sender_is_unauthorized() {
    let s = Pubkey::new(1);
    let r = Pubkey::new(2);
    let mut l = funded_ledger(s, 5 * MIN);
    assert_eq!(l.initialize_vault(s, r, r, 2 * MIN), Ok(()));
    assert_eq!(l.claim(s, s, r), Err(TxError::Program(LockPayError::Unauthorized)));
}

#[test]
fn claim_without_record_fails_not_found() {
    let r = Pubkey::new(2);
    let s = Pubkey::new(1);
    let mut l = Ledger::new();
    assert_eq!(l.claim(r, s, r), Err(TxError::AccountNotFound));
}

#[test]
fn claim_with_spoofed_custodian_fails_invalid_state() {
    let s = Pubkey::new(1);
    let r = Pubkey::new(2);
    let mut l = funded_ledger(s, 5 * MIN);
    assert_eq!(l.initialize_vault(s, r, r, 2 * MIN), Ok(()));
    l.vault_authority_owner = Pubkey::new(77);
    let res = l.claim(r, s, r);
    assert_eq!(res, Err(TxError::Program(LockPayError::InvalidState)));
    assert_eq!(l.balance_of(r), 0);
    assert!(l.get_vault(s, r).is_some());
}

#[test]
fn cancel_returns_funds_to_sender() {
    let s = Pubkey::new(1);
    let r = Pubkey::new(2);
    let mut l = funded_ledger(s, 5 * MIN);
    assert_eq!(l.initialize_vault(s, r, r, 2 * MIN), Ok(()));
    let res = l.cancel(s, s, r);
    assert_eq!(res, Ok(()));
    assert_eq!(l.balance_of(s), 5 * MIN);
    assert_eq!(l.balance_of(r), 0);
    assert_eq!(l.vault_authority_lamports, 0);
    assert!(l.get_vault(s, r).is_none());
}

#[test]
fn cancel_by_stranger_is_unauthorized() {
    let s = Pubkey::new(1);
    let r = Pubkey::new(2);
    let intruder = Pubkey::new(9);
    let mut l = funded_ledger(s, 5 * MIN);
    assert_eq!(l.initialize_vault(s, r, r, 2 * MIN), Ok(()));
    let res = l.cancel(intruder, s, r);
    assert_eq!(res, Err(TxError::Program(LockPayError::Unauthorized)));
    assert_eq!(l.vault_authority_lamports, 2 * MIN);
    assert!(l.get_vault(s, r).is_some());
}

#[test]
fn cancel_by_receiver_is_unauthorized() {
    let s = Pubkey::new(1);
    let r = Pubkey::new(2);
    let mut l = funded_ledger(s, 5 * MIN);
    assert_eq!(l.initialize_vault(s, r, r, 2 * MIN), Ok(()));
    assert_eq!(l.cancel(r, s, r), Err(TxError::Program(LockPayError::Unauthorized)));
}

#[test]
fn cancel_with_spoofed_custodian_fails_invalid_state() {
    let s = Pubkey::new(1);
    let r = Pubkey::new(2);
    let mut l = funded_ledger(s, 5 * MIN);
    assert_eq!(l.initialize_vault(s, r, r, 2 * MIN), Ok(()));
    l.vault_authority_owner = Pubkey::new(77);
    assert_eq!(l.cancel(s, s, r), Err(TxError::Program(LockPayError::InvalidState)));
}

#[test]
fn settled_pair_can_be_reopened() {
    let s = Pubkey::new(1);
    let r = Pubkey::new(2);
    let mut l = funded_ledger(s, 10 * MIN);
    assert_eq!(l.initialize_vault(s, r, r, 2 * MIN), Ok(()));
    assert_eq!(l.claim(r, s, r), Ok(()));
    // a fresh initialize re-derives and reallocates after destruction
    assert_eq!(l.initialize_vault(s, r, r, 3 * MIN), Ok(()));
    assert_eq!(l.get_vault(s, r).unwrap().amount, 3 * MIN);
    assert_eq!(l.vault_authority_lamports, 3 * MIN);
}

#[test]
fn full_scenario_at_one_above_floor() {
    // sender S, receiver R, amount one above the floor
    let s = Pubkey::new(10);
    let r = Pubkey::new(20);
    let amount = MIN + 1;
    let mut l = funded_ledger(s, 3 * MIN);
    let sender_before = l.balance_of(s);
    let receiver_before = l.balance_of(r);

    assert_eq!(l.initialize_vault(s, r, r, amount), Ok(()));
    assert_eq!(l.vault_authority_lamports, amount);

    assert_eq!(l.claim(r, s, r), Ok(()));
    assert_eq!(l.balance_of(r), receiver_before + amount);
    assert_eq!(l.balance_of(s), sender_before - amount);
    assert!(l.get_vault(s, r).is_none());

    // settlement is final: the record is gone, so a second claim finds
    // nothing, and the sender's cancel finds nothing either
    assert_eq!(l.claim(r, s, r), Err(TxError::AccountNotFound));
    assert_eq!(l.cancel(s, s, r), Err(TxError::AccountNotFound));
    assert_eq!(l.balance_of(r), receiver_before + amount);
    assert_eq!(l.balance_of(s), sender_before - amount);
}

#[test]
fn balances_of_bystanders_never_move() {
    let s = Pubkey::new(1);
    let r = Pubkey::new(2);
    let bystander = Pubkey::new(3);
    let mut l = funded_ledger(s, 5 * MIN);
    l.airdrop(bystander, 7 * MIN);
    assert_eq!(l.initialize_vault(s, r, r, 2 * MIN), Ok(()));
    assert_eq!(l.balance_of(bystander), 7 * MIN);
    assert_eq!(l.claim(r, s, r), Ok(()));
    assert_eq!(l.balance_of(bystander), 7 * MIN);
}
