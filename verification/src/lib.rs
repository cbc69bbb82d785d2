//! The navigation and interaction core of a keyboard-driven terminal file
//! browser: per-tab browsing state (listing, sorting, fuzzy filtering,
//! selection, tree view), the multi-tab session with its modal key
//! dispatcher, and the undo/redo log of reversible file operations.
//! Everything that touches the world outside — the terminal, the
//! filesystem, the clipboard — is handed to the surrounding event loop as
//! data: listings come in as plain values, work goes out as effects.

pub mod config;
pub mod entry;
pub mod fileops;
pub mod filter;
pub mod listing;
pub mod paths;
pub mod preview;
pub mod search;
pub mod session;
pub mod sort;
pub mod tab;
pub mod text;
pub mod theme;
pub mod tree;
pub mod undo;
