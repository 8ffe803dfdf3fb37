//! Inodes: what the store keeps about each file and directory.

use vstd::prelude::*;

verus! {

/// Number that identifies an inode.
pub type InodeId = u64;

/// The inode of the root directory.
pub const ROOT_INODE: InodeId = 0;

/// A regular file.
#[derive(Debug, Clone, Copy, PartialEq, Eq)]
pub struct FileInode {
    pub size: u64,
    pub mtime: u64,
    pub mtime_nsec: u32,
    pub ctime: u64,
    pub ctime_nsec: u32,
    pub atime: u64,
    pub atime_nsec: u32,
    pub mode: u32,
    pub uid: u32,
    pub gid: u32,
    pub parent: Option<InodeId>,
    pub nlink: u32,
}

/// A directory.
#[derive(Debug, Clone, Copy, PartialEq, Eq)]
pub struct DirectoryInode {
    pub mtime: u64,
    pub mtime_nsec: u32,
    pub ctime: u64,
    pub ctime_nsec: u32,
    pub atime: u64,
    pub atime_nsec: u32,
    pub mode: u32,
    pub uid: u32,
    pub gid: u32,
    pub entry_count: u64,
    pub parent: InodeId,
    pub nlink: u32,
}

/// An inode of either kind.
#[derive(Debug, Clone, Copy, PartialEq, Eq)]
pub enum Inode {
    File(FileInode),
    Directory(DirectoryInode),
}

} // verus!
