use lockpay_vault::constants::CANONICAL_BUMP;
use lockpay_vault::constants::MIN_VAULT_INIT_LAMPORTS;
use lockpay_vault::contexts::Cancel;
use lockpay_vault::contexts::Claim;
use lockpay_vault::contexts::InitializeVault;
use lockpay_vault::errors::LockPayError;
use lockpay_vault::errors::TxError;
use lockpay_vault::instructions;
use lockpay_vault::ledger::Ledger;
use lockpay_vault::pubkey::Pubkey;
use lockpay_vault::pubkey::system_program_id;
use lockpay_vault::state::Vault;
use lockpay_vault::system::system_transfer;
use lockpay_vault::system::system_transfer_signed;

const MIN: u64 = MIN_VAULT_INIT_LAMPORTS;

fn live_vault(sender: Pubkey, receiver: Pubkey, amount: u64) -> Vault {
    Vault { sender, receiver, amount, claimed: false, bump: CANONICAL_BUMP }
}

#[test]
fn system_transfer_moves_the_exact_amount() {
    let mut from: u64 = 100;
    let mut to: u64 = 7;
    assert_eq!(system_transfer(&mut from, &mut to, 40), Ok(()));
    assert_eq!(from, 60);
    assert_eq!(to, 47);
}

#[test]
fn system_transfer_fails_whole_when_uncovered() {
    let mut from: u64 = 30;
    let mut to: u64 = 7;
    assert_eq!(system_transfer(&mut from, &mut to, 40), Err(TxError::InsufficientFunds));
    assert_eq!(from, 30);
    assert_eq!(to, 7);
}

#[test]
fn signed_transfer_moves_the_exact_amount() {
    let mut from: u64 = 500;
    let mut to: u64 = 1;
    assert_eq!(system_transfer_signed(&mut from, &mut to, 499), Ok(()));
    assert_eq!(from, 1);
    assert_eq!(to, 500);
}

#[test]
fn initialize_handler_populates_the_record() {
    let s = Pubkey::new(1);
    let r = Pubkey::new(2);
    let mut ctx = InitializeVault {
        sender: s,
        receiver: r,
        sender_lamports: 5 * MIN,
        vault_authority_lamports: 0,
        bump: CANONICAL_BUMP,
    };
    let v = instructions::initialize_vault::handler(&mut ctx, r, 2 * MIN).unwrap();
    assert_eq!(v, live_vault(s, r, 2 * MIN));
    assert_eq!(ctx.sender_lamports, 3 * MIN);
    assert_eq!(ctx.vault_authority_lamports, 2 * MIN);
}

#[test]
fn initialize_handler_rejects_mismatch_before_floor() {
    let s = Pubkey::new(1);
    let r = Pubkey::new(2);
    let mut ctx = InitializeVault {
        sender: s,
        receiver: r,
        sender_lamports: 5 * MIN,
        vault_authority_lamports: 0,
        bump: CANONICAL_BUMP,
    };
    // both checks would fail; the mismatch is reported first
    let res = instructions::initialize_vault::handler(&mut ctx, Pubkey::new(3), MIN - 1);
    assert_eq!(res, Err(TxError::Program(LockPayError::ReceiverMismatch)));
    assert_eq!(ctx.sender_lamports, 5 * MIN);
    assert_eq!(ctx.vault_authority_lamports, 0);
}

#[test]
fn claim_handler_settles_the_record() {
    let s = Pubkey::new(1);
    let r = Pubkey::new(2);
    let mut ctx = Claim {
        receiver: r,
        receiver_lamports: 10,
        vault: live_vault(s, r, 2 * MIN),
        vault_authority_lamports: 2 * MIN,
        vault_authority_owner: system_program_id(),
    };
    assert_eq!(instructions::claim::handler(&mut ctx), Ok(()));
    assert!(ctx.vault.claimed);
    assert_eq!(ctx.vault.amount, 0);
    assert_eq!(ctx.receiver_lamports, 10 + 2 * MIN);
    assert_eq!(ctx.vault_authority_lamports, 0);
}

#[test]
fn claim_handler_rejects_second_settlement() {
    let s = Pubkey::new(1);
    let r = Pubkey::new(2);
    let mut settled = live_vault(s, r, 2 * MIN);
    settled.claimed = true;
    settled.amount = 0;
    let mut ctx = Claim {
        receiver: r,
        receiver_lamports: 10,
        vault: settled,
        vault_authority_lamports: 0,
        vault_authority_owner: system_program_id(),
    };
    let res = instructions::claim::handler(&mut ctx);
    assert_eq!(res, Err(TxError::Program(LockPayError::AlreadyClaimed)));
    assert_eq!(ctx.receiver_lamports, 10);
}

#[test]
fn claim_handler_rejects_wrong_caller() {
    let s = Pubkey::new(1);
    let r = Pubkey::new(2);
    let mut ctx = Claim {
        receiver: Pubkey::new(9),
        receiver_lamports: 0,
        vault: live_vault(s, r, 2 * MIN),
        vault_authority_lamports: 2 * MIN,
        vault_authority_owner: system_program_id(),
    };
    let res = instructions::claim::handler(&mut ctx);
    assert_eq!(res, Err(TxError::Program(LockPayError::Unauthorized)));
    assert_eq!(ctx.vault_authority_lamports, 2 * MIN);
    assert!(!ctx.vault.claimed);
}

#[test]
fn cancel_handler_returns_funds_to_sender() {
    let s = Pubkey::new(1);
    let r = Pubkey::new(2);
    let mut ctx = Cancel {
        sender: s,
        sender_lamports: 3,
        vault: live_vault(s, r, 2 * MIN),
        vault_authority_lamports: 2 * MIN,
        vault_authority_owner: system_program_id(),
    };
    assert_eq!(instructions::cancel::handler(&mut ctx), Ok(()));
    assert!(ctx.vault.claimed);
    assert_eq!(ctx.vault.amount, 0);
    assert_eq!(ctx.sender_lamports, 3 + 2 * MIN);
    assert_eq!(ctx.vault_authority_lamports, 0);
}

#[test]
fn cancel_handler_rejects_second_settlement() {
    let s = Pubkey::new(1);
    let r = Pubkey::new(2);
    let mut settled = live_vault(s, r, 2 * MIN);
    settled.claimed = true;
    settled.amount = 0;
    let mut ctx = Cancel {
        sender: s,
        sender_lamports: 3,
        vault: settled,
        vault_authority_lamports: 0,
        vault_authority_owner: system_program_id(),
    };
    let res = instructions::cancel::handler(&mut ctx);
    assert_eq!(res, Err(TxError::Program(LockPayError::AlreadyClaimed)));
}

#[test]
fn cancel_handler_rejects_wrong_caller() {
    let s = Pubkey::new(1);
    let r = Pubkey::new(2);
    let mut ctx = Cancel {
        sender: r,
        sender_lamports: 0,
        vault: live_vault(s, r, 2 * MIN),
        vault_authority_lamports: 2 * MIN,
        vault_authority_owner: system_program_id(),
    };
    assert_eq!(instructions::cancel::handler(&mut ctx), Err(TxError::Program(LockPayError::Unauthorized)));
}

#[test]
fn context_constraint_rejects_spoofed_custodian() {
    let s = Pubkey::new(1);
    let r = Pubkey::new(2);
    let ctx = Claim {
        receiver: r,
        receiver_lamports: 0,
        vault: live_vault(s, r, 2 * MIN),
        vault_authority_lamports: 2 * MIN,
        vault_authority_owner: Pubkey::new(5),
    };
    assert_eq!(ctx.validate(), Err(TxError::Program(LockPayError::InvalidState)));
    let good = Claim { vault_authority_owner: system_program_id(), ..ctx };
    assert_eq!(good.validate(), Ok(()));
    let cancel_ctx = Cancel {
        sender: s,
        sender_lamports: 0,
        vault: live_vault(s, r, 2 * MIN),
        vault_authority_lamports: 2 * MIN,
        vault_authority_owner: Pubkey::new(5),
    };
    assert_eq!(cancel_ctx.validate(), Err(TxError::Program(LockPayError::InvalidState)));
}

#[test]
fn airdrop_accumulates_and_unknown_keys_hold_zero() {
    let a = Pubkey::new(1);
    let mut l = Ledger::new();
    assert_eq!(l.balance_of(a), 0);
    l.airdrop(a, 5);
    l.airdrop(a, 7);
    assert_eq!(l.balance_of(a), 12);
    assert_eq!(l.balance_of(Pubkey::new(2)), 0);
    assert_eq!(l.vault_authority_owner, system_program_id());
}
