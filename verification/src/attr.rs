//! The attribute translator: a backend entry plus an identifier becomes the
//! kernel-facing attribute record. Sizes, timestamps and identities are
//! plain values; permission bits are fixed, not backend-derived.

use vstd::prelude::*;

use crate::entry::Entry;
use crate::entry::FileKind;

verus! {

/// The kernel-facing attribute record of one filesystem object. All four
/// timestamps are seconds since the epoch.
#[derive(Clone, Copy, PartialEq, Eq, Structural, Debug)]
pub struct Attributes {
    pub ino: u64,
    pub size: u64,
    pub blocks: u64,
    pub atime: u64,
    pub mtime: u64,
    pub ctime: u64,
    pub crtime: u64,
    pub kind: FileKind,
    pub perm: u16,
    pub nlink: u32,
    pub uid: u32,
    pub gid: u32,
    pub rdev: u32,
    pub flags: u32,
    pub blksize: u32,
}

/// Number of 512-byte blocks needed to hold `size` bytes.
pub open spec fn spec_blocks(size: u64) -> int {
    (size + 511) / 512
}

/// The attribute record for entry `e` under identifier `ino`: the entry's
/// size and modification time (driving modify, change and creation times),
/// access time `now`, mode 0755 for directories and 0644 for files, link
/// count 2 for directories and 1 for files, block size 512.
pub open spec fn spec_translate(ino: u64, e: Entry, now: u64, uid: u32, gid: u32) -> Attributes {
    let info = e.spec_info();
    Attributes {
        ino,
        size: info.size,
        blocks: spec_blocks(info.size) as u64,
        atime: now,
        mtime: info.modified_at,
        ctime: info.modified_at,
        crtime: info.modified_at,
        kind: e.spec_kind(),
        perm: if e.spec_kind() is Directory {
            0o755
        } else {
            0o644
        },
        nlink: if e.spec_kind() is Directory {
            2
        } else {
            1
        },
        uid,
        gid,
        rdev: 0,
        flags: 0,
        blksize: 512,
    }
}

/// The fixed attribute record of the mount root: a directory of nominal
/// size 4096, link count 2, all timestamps `now`, never taken from the
/// backend.
pub open spec fn spec_root_attr(now: u64, uid: u32, gid: u32) -> Attributes {
    Attributes {
        ino: 1,
        size: 4096,
        blocks: 8,
        atime: now,
        mtime: now,
        ctime: now,
        crtime: now,
        kind: FileKind::Directory,
        perm: 0o755,
        nlink: 2,
        uid,
        gid,
        rdev: 0,
        flags: 0,
        blksize: 512,
    }
}

/// Translate a backend entry into the kernel-facing attribute record.
pub fn translate(ino: u64, e: &Entry, now: u64, uid: u32, gid: u32) -> (a: Attributes)
    ensures
        a == spec_translate(ino, *e, now, uid, gid),
{
    let kind = e.kind();
    let info = e.info();
    let blocks = if info.size % 512 == 0 {
        info.size / 512
    } else {
        info.size / 512 + 1
    };
    proof {
        assert(blocks as int == spec_blocks(info.size)) by (nonlinear_arith)
            requires
                blocks as int == if info.size % 512 == 0 {
                    info.size as int / 512
                } else {
                    info.size as int / 512 + 1
                },
        ;
    }
    Attributes {
        ino,
        size: info.size,
        blocks,
        atime: now,
        mtime: info.modified_at,
        ctime: info.modified_at,
        crtime: info.modified_at,
        kind,
        perm: if kind == FileKind::Directory {
            0o755
        } else {
            0o644
        },
        nlink: if kind == FileKind::Directory {
            2
        } else {
            1
        },
        uid,
        gid,
        rdev: 0,
        flags: 0,
        blksize: 512,
    }
}

/// The fixed root attribute record, as `spec_root_attr` gives it.
pub fn root_attr(now: u64, uid: u32, gid: u32) -> (a: Attributes)
    ensures
        a == spec_root_attr(now, uid, gid),
{
    Attributes {
        ino: 1,
        size: 4096,
        blocks: 8,
        atime: now,
        mtime: now,
        ctime: now,
        crtime: now,
        kind: FileKind::Directory,
        perm: 0o755,
        nlink: 2,
        uid,
        gid,
        rdev: 0,
        flags: 0,
        blksize: 512,
    }
}

} // verus!
