//! Files: the flags of `open`, paths, and opening files on disk.

pub mod flags;
pub mod inode;
pub mod path;
