pub mod cancel;
pub mod claim;
pub mod initialize_vault;
