//! Static audit rules for NEAR and Solana smart contracts.
pub mod attributes;
pub mod bytes;
pub mod call_graph;
pub mod caller_identity;
pub mod calls;
pub mod cfg;
pub mod context;
pub mod detector;
pub mod detectors;
pub mod finding;
pub mod flow;
pub mod functions;
pub mod literals;
pub mod markers;
pub mod patterns;
pub mod quotes;
pub mod search;
pub mod syntax;
pub mod text;
pub mod tokens;
pub mod walk;
