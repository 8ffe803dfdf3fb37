# zerofs

The core of a file system that keeps its inodes and file chunks in an encrypted key-value store
on top of an object store, written and proved in Verus.

- `src/fs/`: file ids, record keys, inodes, the inode counter, loading and saving of inodes,
  mounting, and garbage collection of deleted files. `collect.rs` runs whole
  collections over given replies of the store. `store.rs`, `reclaim.rs` and
  `failures.rs` state what these achieve together.
- `src/cli/`: rules for passwords and for changing them.
- `app/`: the asynchronous code that performs the reads and writes the core asks for.
- `tests/`: tests of the compiled library.
