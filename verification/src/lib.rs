//! An escrow vault for lamports: a sender locks an amount into a shared,
//! derivation-controlled custodian account, addressed to one receiver. The
//! receiver may claim the full amount, or the sender may cancel and reclaim
//! it — exactly one of the two, never both, never partially.
//!
//! The chain runtime around the program (signature checks, rent, transaction
//! serialization) is modelled by the [`ledger::Ledger`] type: accounts are
//! plain balances, records are stored by their (sender, receiver) pair, and
//! every operation runs atomically against that state.

pub mod constants;
pub mod contexts;
pub mod errors;
pub mod instructions;
pub mod laws;
pub mod ledger;
pub mod pubkey;
pub mod state;
pub mod system;
