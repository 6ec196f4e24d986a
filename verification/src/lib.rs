//! Cost lints for Soroban contracts, and the reporting of what they find.

pub mod cli;
pub mod findings;
pub mod fixes;
pub mod hir;
pub mod json;
pub mod lint;
pub mod loops;
pub mod passes;
pub mod paths;
pub mod sarif;
pub mod session;
pub mod text;
