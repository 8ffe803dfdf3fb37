//! Commands of the command-line interface.

pub mod password;
