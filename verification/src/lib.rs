//! Core of a file system that keeps its inodes and file chunks in an encrypted key-value store.

pub mod cli;
pub mod fs;
