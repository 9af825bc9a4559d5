//! The backend's description of directory children: an entry is a file or a
//! directory with a size and a modification time, and a listing is the
//! ordered sequence of named entries a directory holds.

use vstd::prelude::*;

use crate::paths::str_eq;

verus! {

/// What a directory child is: a regular file or a directory.
#[derive(Clone, Copy, PartialEq, Eq, Structural, Debug)]
pub enum FileKind {
    RegularFile,
    Directory,
}

/// The size and modification time the backend reports for an entry.
#[derive(Clone, Copy, PartialEq, Eq, Structural, Debug)]
pub struct EntryInfo {
    /// Byte size of the entry.
    pub size: u64,
    /// Modification time, in seconds since the epoch.
    pub modified_at: u64,
}

/// The backend's immutable snapshot of one directory child.
#[derive(Clone, Copy, PartialEq, Eq, Structural, Debug)]
pub enum Entry {
    File(EntryInfo),
    Directory(EntryInfo),
}

impl Entry {
    /// The kind of this entry.
    pub open spec fn spec_kind(self) -> FileKind {
        match self {
            Entry::File(_) => FileKind::RegularFile,
            Entry::Directory(_) => FileKind::Directory,
        }
    }

    /// The size and modification time of this entry.
    pub open spec fn spec_info(self) -> EntryInfo {
        match self {
            Entry::File(info) => info,
            Entry::Directory(info) => info,
        }
    }

    /// The kind of this entry.
    pub fn kind(&self) -> (k: FileKind)
        ensures
            k == self.spec_kind(),
    {
        match self {
            Entry::File(_) => FileKind::RegularFile,
            Entry::Directory(_) => FileKind::Directory,
        }
    }

    /// The size and modification time of this entry.
    pub fn info(&self) -> (info: EntryInfo)
        ensures
            info == self.spec_info(),
    {
        match self {
            Entry::File(info) => *info,
            Entry::Directory(info) => *info,
        }
    }
}

/// One named child in a directory listing, in the backend's order.
#[derive(Clone, Debug)]
pub struct ListEntry {
    pub name: String,
    pub entry: Entry,
}

/// The first entry named `name` in listing `l`, or `None` when the name is
/// absent.
pub open spec fn find_entry(l: Seq<ListEntry>, name: Seq<char>) -> Option<Entry>
    decreases l.len(),
{
    if l.len() == 0 {
        None
    } else if l[0].name@ == name {
        Some(l[0].entry)
    } else {
        find_entry(l.drop_first(), name)
    }
}

/// Search a listing for `name`, exactly as `find_entry` describes it.
pub fn lookup_entry(l: &Vec<ListEntry>, name: &str) -> (r: Option<Entry>)
    ensures
        r == find_entry(l@, name@),
{
    let n = l.len();
    let mut i: usize = 0;
    proof {
        assert(l@.skip(0) =~= l@);
    }
    while i < n
        invariant
            n == l@.len(),
            i <= n,
            find_entry(l@, name@) == find_entry(l@.skip(i as int), name@),
        decreases n - i,
    {
        proof {
            assert(l@.skip(i as int)[0] == l@[i as int]);
        }
        if str_eq(l[i].name.as_str(), name) {
            return Some(l[i].entry);
        }
        proof {
            assert(l@.skip(i as int).drop_first() =~= l@.skip(i as int + 1));
        }
        i = i + 1;
    }
    proof {
        assert(l@.skip(n as int) =~= Seq::<ListEntry>::empty());
    }
    None
}

} // verus!
