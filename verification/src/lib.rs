//! robe: a verified core for a dotfile profile switcher.
//!
//! The library models the managed storage directory and the tracked
//! configuration trees as plain values, and proves the behaviour of the
//! commands that operate on them: saving a profile, activating one,
//! removing one, comparing trees for equality and mirroring one tree
//! over another.

pub mod dispatch;
pub mod domain;
pub mod errors;
pub mod fstree;
pub mod help;
pub mod hashing;
pub mod registry;
pub mod settings;
pub mod storage;
pub mod strutil;
pub mod utils;
