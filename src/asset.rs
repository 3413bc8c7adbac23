//! Files found under the source tree and their content hashes.
use vstd::prelude::*;
use crate::address::{address_message, blake3_of, content_hash};
use crate::input_file::{is_inline_path, path_is_inline};

verus! {

/// A regular file found under the source root.
#[derive(Debug, Clone)]
pub struct Metadata {
    /// Where the file is on disk.
    pub disk_path: String,
    /// Its path relative to the source root, with `/` separators.
    pub logical_path: String,
    /// Its size in bytes.
    pub size: u64,
}

impl Metadata {
    /// Whether the file's bytes are kept inline in its input-file row.
    pub fn is_inline(&self) -> (r: bool)
        ensures
            r == is_inline_path(self.disk_path@),
    {
        path_is_inline(self.disk_path.as_str())
    }
}

/// A file with its contents and the hash that addresses it.
#[derive(Debug)]
pub struct Asset {
    pub meta: Metadata,
    pub contents: Vec<u8>,
    pub hash: Vec<u8>,
}

/// The content hash of a file with logical path `logical_path` and bytes `contents`.
pub open spec fn asset_hash(logical_path: Seq<char>, contents: Seq<u8>) -> Seq<u8> {
    blake3_of(address_message(vstd::utf8::encode_utf8(logical_path), contents))
}

impl Asset {
    /// The hash is that of the logical path and the contents.
    pub open spec fn wf(&self) -> bool {
        self.hash@ == asset_hash(self.meta.logical_path@, self.contents@)
    }
}

/// Hashes a file's contents together with its logical path.
pub fn process(meta: Metadata, contents: Vec<u8>) -> (r: Asset)
    ensures
        r.meta == meta,
        r.contents@ == contents@,
        r.wf(),
{
    let hash = content_hash(meta.logical_path.as_str().as_bytes(), contents.as_slice());
    Asset { meta, contents, hash }
}

} // verus!
