//! Reading past sessions into memory.

pub mod filter;
pub mod outcome;
pub mod report;
pub mod session;
