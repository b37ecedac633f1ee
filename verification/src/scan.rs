//! Local files found while a directory is walked.

use vstd::prelude::*;

verus! {

/// A local file, or a directory on the way to one.
#[derive(Clone, Debug, PartialEq, Eq)]
pub struct LocalFileInfo {
    pub path: String,
    pub name: String,
    pub size: u64,
    pub is_dir: bool,
}

/// Takes in an entry met while a directory is walked. A file is added to
/// the files found so far; a directory is not, and the answer `true` asks
/// the walker to descend into it before it goes on, so that the files come
/// out in the order in which a depth-first walk meets them.
pub fn record_entry(found: &mut Vec<LocalFileInfo>, entry: LocalFileInfo) -> (descend: bool)
    ensures
        descend == entry.is_dir,
        entry.is_dir ==> final(found)@ == old(found)@,
        !entry.is_dir ==> final(found)@ == old(found)@.push(entry),
{
    if entry.is_dir {
        true
    } else {
        found.push(entry);
        false
    }
}

} // verus!
