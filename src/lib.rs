//! Repository-state synchronization and interaction state for an interactive
//! terminal view of a working tree's staged and unstaged changes.
//!
//! The library holds the logic over plain values: classification of raw status
//! records, materialization of patch output into line-addressable diffs, the
//! interactive session (selection, multi-select, prompts, undo, notifications),
//! the layout arithmetic the session depends on, and the decisions of the
//! refresh loop. Talking to the repository and the terminal happens outside it.

pub mod actions;
pub mod branch;
pub mod decimal;
pub mod diff;
pub mod flash;
pub mod laws;
pub mod layout;
pub mod order;
pub mod reconcile;
pub mod select;
pub mod session;
pub mod status;
pub mod text;
pub mod types;
