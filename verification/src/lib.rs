//! Decision logic of a mining assistant for a sharded ledger: quota
//! accounting per target, selection of the target that deserves the single
//! worker process, and the life cycle of that process.

pub mod allowances;
pub mod config;
pub mod encoding;
pub mod qkc;
pub mod scheduler;
pub mod selection;
pub mod types;
pub mod worker;
