use vstd::prelude::*;

verus! {

/// Smallest amount a vault may be opened with: an anti-dust floor on
/// escrowed deposits.
pub const MIN_VAULT_INIT_LAMPORTS: u64 = 20_000_000;

/// The derivation-proof byte recorded in each vault record. Addressing is
/// structural in this model — the store keys every record by its
/// (sender, receiver) pair — so the proof byte is fixed at the canonical
/// initial value of a bump search.
pub const CANONICAL_BUMP: u8 = 255;

} // verus!
