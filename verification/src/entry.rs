//! The data that a listing works on: what the filesystem reported about
//! each path, as plain values.

use vstd::prelude::*;

verus! {

/// Whether an entry is listed as a directory or as a plain file.
#[derive(Clone, Copy, Debug, PartialEq, Eq, Structural)]
pub enum EntryKind {
    File,
    Directory,
}

/// An instant, with the offset from UTC that local time had at it.
#[derive(Clone, Copy, Debug, PartialEq, Eq, Structural)]
pub struct Timestamp {
    /// Whole seconds since 1970-01-01 00:00:00 UTC.
    pub seconds: i64,
    /// Nanoseconds past that second.
    pub nanos: u32,
    /// Seconds that local time is ahead of UTC.
    pub utc_offset: i32,
}

/// The metadata snapshot of one filesystem object.
#[derive(Clone, Copy, Debug, PartialEq, Eq, Structural)]
pub struct Entry {
    pub kind: EntryKind,
    pub permission_bits: u32,
    pub link_count: u64,
    pub owner_id: u32,
    pub group_id: u32,
    pub size_bytes: u64,
    pub modified_at: Timestamp,
}

/// The outcome of looking up a path's metadata.
#[derive(Clone, Debug, PartialEq, Eq)]
pub enum Stat {
    /// The lookup succeeded.
    Found(Entry),
    /// The lookup failed; the text names the kind of failure.
    Missing(String),
}

/// A path together with the outcome of looking up its metadata.
#[derive(Clone, Debug, PartialEq, Eq)]
pub struct FileStat {
    pub path: String,
    pub stat: Stat,
}

/// What enumerating a directory gave.
#[derive(Clone, Debug, PartialEq, Eq)]
pub enum Listing {
    /// The immediate children that could be read.
    Children(Vec<FileStat>),
    /// The directory could not be opened; the text names the kind of
    /// failure.
    Unreadable(String),
}

/// What was found behind a path argument that could be reached.
#[derive(Clone, Debug, PartialEq, Eq)]
pub enum Access {
    /// The path could not be reached at all; the text says why.
    Inaccessible(String),
    /// The path is not a directory; it stands for itself.
    File(Stat),
    /// The path is a directory.
    Directory(Listing),
}

/// One path argument and what the filesystem answered for it.
#[derive(Clone, Debug, PartialEq, Eq)]
pub struct Probe {
    pub path: String,
    pub access: Access,
}

/// The views of a sequence of strings.
pub open spec fn texts(lines: Seq<String>) -> Seq<Seq<char>> {
    Seq::new(lines.len(), |i: int| lines[i]@)
}

/// The view of a string that may be absent.
pub open spec fn option_text(text: Option<String>) -> Option<Seq<char>> {
    match text {
        Some(t) => Some(t@),
        None => None,
    }
}

/// A copy of the outcome of a metadata lookup.
pub fn copy_stat(stat: &Stat) -> (copy: Stat)
    ensures
        copy == *stat,
{
    match stat {
        Stat::Found(entry) => Stat::Found(*entry),
        Stat::Missing(reason) => Stat::Missing(reason.clone()),
    }
}

impl FileStat {
    /// A copy of this record.
    pub fn duplicate(&self) -> (copy: FileStat)
        ensures
            copy == *self,
    {
        FileStat { path: self.path.clone(), stat: copy_stat(&self.stat) }
    }
}

} // verus!
