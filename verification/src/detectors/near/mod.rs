//! Rules for NEAR contracts.
pub mod frontrunning;
pub mod integer_overflow;
pub mod missing_deposit_check;
pub mod missing_gas_callback;
pub mod missing_private;
pub mod promise_reentrancy;
pub mod self_callback;
pub mod signer_vs_predecessor;
pub mod storage_staking;
pub mod unguarded_storage_unregister;
pub mod unhandled_promise;
pub mod unsafe_storage_keys;
