//! Revisions and the files they reference.
use vstd::prelude::*;
use crate::page::Timestamp;

verus! {

/// An immutable snapshot of the site.
#[derive(Debug, Clone, Copy, PartialEq, Eq, Structural)]
pub struct Revision {
    pub id: i64,
    pub created_at: Timestamp,
}

/// The id of a revision.
#[derive(Debug, Clone, Copy, PartialEq, Eq, Structural)]
pub struct Id(pub i64);

/// A file that a revision references.
#[derive(Debug, Clone)]
pub struct RevisionFile {
    pub revision_id: i64,
    pub input_file_id: String,
}

/// A revision-file row to insert.
#[derive(Debug)]
pub struct NewRevisionFile<'a> {
    pub revision_id: i64,
    pub input_file_id: &'a str,
}

impl<'a> NewRevisionFile<'a> {
    pub fn new(revision_id: i64, input_file_id: &'a str) -> (r: Self)
        ensures
            r.revision_id == revision_id,
            r.input_file_id == input_file_id,
    {
        NewRevisionFile { revision_id, input_file_id }
    }
}

} // verus!
