//! Verified core of a small teaching kernel: open flags and the path walk
//! of `open`, task contexts, task lifecycle bookkeeping, and the pattern of
//! the block-device self-test.

pub mod driver;
pub mod error;
pub mod fs;
pub mod task;
