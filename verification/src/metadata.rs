//! What is known of a stored entry besides its content.

use vstd::prelude::*;

verus! {

/// Whether an entry is a file or a directory.
#[derive(Clone, Copy, Debug, PartialEq, Eq, Structural)]
pub enum EntryMode {
    FILE,
    DIR,
    Unknown,
}

/// A point in time: whole seconds since 1970-01-01 00:00:00 UTC, and the
/// nanoseconds past that second.
#[derive(Clone, Copy, Debug, PartialEq, Eq, Structural)]
pub struct Timestamp {
    pub secs: i64,
    pub nanos: u32,
}

/// The metadata of an entry.
#[derive(Clone, Copy, Debug, PartialEq, Eq, Structural)]
pub struct Metadata {
    pub mode: EntryMode,
    pub content_length: Option<u64>,
    pub last_modified: Option<Timestamp>,
}

impl Metadata {
    /// Metadata of an entry of which only the mode is known.
    pub fn new(mode: EntryMode) -> (m: Metadata)
        ensures
            m == (Metadata { mode, content_length: None, last_modified: None }),
    {
        Metadata { mode, content_length: None, last_modified: None }
    }

    pub fn with_content_length(self, length: u64) -> (m: Metadata)
        ensures
            m == (Metadata { content_length: Some(length), ..self }),
    {
        Metadata { mode: self.mode, content_length: Some(length), last_modified: self.last_modified }
    }

    pub fn with_last_modified(self, at: Timestamp) -> (m: Metadata)
        ensures
            m == (Metadata { last_modified: Some(at), ..self }),
    {
        Metadata { mode: self.mode, content_length: self.content_length, last_modified: Some(at) }
    }
}

} // verus!
