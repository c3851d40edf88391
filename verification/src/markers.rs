//! Words that tell which chain a source file is written for.
use vstd::prelude::*;

verus! {

/// A source file with none of these is no NEAR contract.
pub const NEAR_MARKERS: [&'static str; 7] = [
    "near_sdk",
    "near_contract_standards",
    "#[near_bindgen]",
    "#[near(",
    "env::predecessor_account_id",
    "env::signer_account_id",
    "Promise::new",
];

/// A source file with none of these is no Solana program.
pub const SOLANA_MARKERS: [&'static str; 5] = [
    "solana_program",
    "anchor_lang",
    "AccountInfo",
    "ProgramResult",
    "solana_sdk",
];

} // verus!
