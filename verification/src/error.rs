use vstd::prelude::*;

verus! {

/// Error numbers the file-system calls report.
#[derive(Copy, Clone, Debug, PartialEq, Eq, Structural)]
pub enum Errno {
    /// No such file or directory.
    ENOENT,
    /// The file already exists.
    EEXIST,
    /// A component of the path is not a directory.
    ENOTDIR,
}

} // verus!
