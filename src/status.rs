use vstd::prelude::*;
use crate::model::FileStatus;

verus! {

// Status bits as the object store reports them.
pub const INDEX_NEW: u32 = 1;
pub const INDEX_MODIFIED: u32 = 2;
pub const INDEX_DELETED: u32 = 4;
pub const INDEX_RENAMED: u32 = 8;
pub const WT_NEW: u32 = 128;
pub const WT_MODIFIED: u32 = 256;
pub const WT_DELETED: u32 = 512;
pub const WT_RENAMED: u32 = 2048;
pub const IGNORED: u32 = 16384;

pub open spec fn has_bit(bits: u32, mask: u32) -> bool {
    bits & mask != 0
}

/// The flags of one status entry: each of new, modified, deleted and
/// renamed is set when the index or the working tree reports it.
pub fn file_status(path: String, bits: u32) -> (r: FileStatus)
    ensures
        r.path == path,
        r.is_new == (has_bit(bits, WT_NEW) || has_bit(bits, INDEX_NEW)),
        r.is_modified == (has_bit(bits, WT_MODIFIED) || has_bit(bits, INDEX_MODIFIED)),
        r.is_deleted == (has_bit(bits, WT_DELETED) || has_bit(bits, INDEX_DELETED)),
        r.is_renamed == (has_bit(bits, WT_RENAMED) || has_bit(bits, INDEX_RENAMED)),
        r.is_ignored == has_bit(bits, IGNORED),
{
    FileStatus {
        path,
        is_new: bits & WT_NEW != 0 || bits & INDEX_NEW != 0,
        is_modified: bits & WT_MODIFIED != 0 || bits & INDEX_MODIFIED != 0,
        is_deleted: bits & WT_DELETED != 0 || bits & INDEX_DELETED != 0,
        is_renamed: bits & WT_RENAMED != 0 || bits & INDEX_RENAMED != 0,
        is_ignored: bits & IGNORED != 0,
    }
}

pub open spec fn status_matches(s: FileStatus, e: (String, u32)) -> bool {
    let (p, b) = e;
    &&& s.path == p
    &&& s.is_new == (has_bit(b, WT_NEW) || has_bit(b, INDEX_NEW))
    &&& s.is_modified == (has_bit(b, WT_MODIFIED) || has_bit(b, INDEX_MODIFIED))
    &&& s.is_deleted == (has_bit(b, WT_DELETED) || has_bit(b, INDEX_DELETED))
    &&& s.is_renamed == (has_bit(b, WT_RENAMED) || has_bit(b, INDEX_RENAMED))
    &&& s.is_ignored == has_bit(b, IGNORED)
}

/// The status entries of a scan, each as a path and its status bits.
pub fn file_statuses(entries: &Vec<(String, u32)>) -> (r: Vec<FileStatus>)
    ensures
        r@.len() == entries@.len(),
        forall|i: int| 0 <= i < r@.len() ==> status_matches(#[trigger] r@[i], entries@[i]),
{
    let mut out: Vec<FileStatus> = Vec::new();
    let mut i: usize = 0;
    while i < entries.len()
        invariant
            i <= entries.len(),
            out@.len() == i,
            forall|k: int| 0 <= k < i ==> status_matches(#[trigger] out@[k], entries@[k]),
        decreases entries.len() - i,
    {
        let (p, b) = &entries[i];
        out.push(file_status(p.clone(), *b));
        i = i + 1;
    }
    out
}

} // verus!
