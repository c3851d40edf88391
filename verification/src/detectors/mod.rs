//! The audit rules.
pub mod near;
pub mod solana;
