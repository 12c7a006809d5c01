//! What `/proc/self` tells of this process.
use vstd::prelude::*;
use crate::file::{decimal, fd_dir_path};

verus! {

/// The path of the directory that holds an entry for each open file
/// descriptor.
pub fn fd_dir() -> (r: String)
    ensures
        r@ == fd_dir_path(),
{
    crate::file::fd_dir()
}

/// The path of the entry for the open file descriptor `fd`.
pub fn fd_path(fd: i32) -> (r: String)
    ensures
        r@ == fd_dir_path() + seq!['/'] + decimal(fd as int),
{
    crate::file::fd_path(fd)
}

} // verus!
