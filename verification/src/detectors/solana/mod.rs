//! Rules for Solana programs.
pub mod account_confusion;
pub mod account_data_matching;
pub mod arbitrary_cpi;
pub mod checked_arithmetic_unwrap;
pub mod cpi_reentrancy;
pub mod duplicate_mutable_accounts;
pub mod init_if_needed;
pub mod insecure_account_close;
pub mod integer_overflow;
pub mod lookup_table;
pub mod missing_owner;
pub mod missing_rent_exempt;
pub mod missing_signer;
pub mod pda_issues;
pub mod priority_fee;
pub mod remaining_accounts;
pub mod token_extensions;
