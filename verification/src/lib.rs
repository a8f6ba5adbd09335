//! A session-scoped virtual file browser.
//!
//! A session holds a current directory, a move-mode flag and the file that
//! was previewed last. The library turns a snapshot of one directory into an
//! ordered listing, resolves navigation tokens against the current
//! directory, and decides which filesystem action each command asks for.
//! It never touches the filesystem itself: the caller takes the snapshot,
//! performs the action and reports how it ended.

pub mod encoding;
pub mod engine;
pub mod error;
pub mod listing;
pub mod path;
pub mod session;
