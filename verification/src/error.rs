//! The failures that the browser reports.

use vstd::prelude::*;

verus! {

/// A navigation token could not be turned into a path.
#[derive(Clone, Copy, Debug, PartialEq, Eq, Structural)]
pub enum PathError {
    /// The token does not percent-decode to text.
    InvalidEncoding,
}

/// A directory could not be listed.
#[derive(Clone, Copy, Debug, PartialEq, Eq, Structural)]
pub enum ScanError {
    /// The directory could not be opened.
    Unreadable,
    /// The metadata of one of its children could not be read.
    EntryMetadataUnavailable,
}

/// How a create or a rename on the host filesystem failed.
#[derive(Clone, Copy, Debug, PartialEq, Eq, Structural)]
pub enum FilesystemOpError {
    NotFound,
    PermissionDenied,
    AlreadyExists,
    Other,
}

/// Why a command was not carried out.
#[derive(Clone, Copy, Debug, PartialEq, Eq, Structural)]
pub enum CommandError {
    /// No file is on show, or what is on show names no file.
    NoShowcase,
    /// The name that the command needs is empty.
    EmptyInput,
    /// A token of the request could not be decoded.
    Path(PathError),
    /// The host filesystem refused the action.
    Filesystem(FilesystemOpError),
}

} // verus!
