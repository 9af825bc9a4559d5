use rfs_fuse::Entry;
use rfs_fuse::EntryInfo;
use rfs_fuse::Errno;
use rfs_fuse::FileKind;
use rfs_fuse::GetattrStep;
use rfs_fuse::ListEntry;
use rfs_fuse::ReaddirStep;
use rfs_fuse::RfsFuse;

#[test]
fn readdir_first_page_lists_dots_then_children() {
    let mut f = RfsFuse::new("/pool".to_string());
    let path = match f.readdir_step(1, 0) {
        ReaddirStep::Fetch(p) => p,
        _ => panic!("a known directory at offset 0 must ask for its listing"),
    };
    assert_eq!(path, "/");
    let listing = vec![
        ListEntry {
            name: "docs".to_string(),
            entry: Entry::Directory(EntryInfo { size: 0, modified_at: 5 }),
        },
        ListEntry {
            name: "a.txt".to_string(),
            entry: Entry::File(EntryInfo { size: 12, modified_at: 5 }),
        },
    ];
    let rows = f.readdir_entries(1, Some(&listing)).unwrap();
    assert_eq!(rows.len(), 4);
    assert_eq!(rows[0].name, ".");
    assert_eq!(rows[0].offset, 0);
    assert_eq!(rows[0].kind, FileKind::Directory);
    assert_eq!(rows[0].ino, 1);
    assert_eq!(rows[1].name, "..");
    assert_eq!(rows[1].offset, 1);
    assert_eq!(rows[1].kind, FileKind::Directory);
    assert_eq!(rows[1].ino, 1);
    assert_eq!(rows[2].name, "docs");
    assert_eq!(rows[2].offset, 2);
    assert_eq!(rows[2].kind, FileKind::Directory);
    assert_eq!(rows[3].name, "a.txt");
    assert_eq!(rows[3].offset, 3);
    assert_eq!(rows[3].kind, FileKind::RegularFile);
    assert_eq!(f.resolve(rows[2].ino).as_deref(), Some("/docs"));
    assert_eq!(f.resolve(rows[3].ino).as_deref(), Some("/a.txt"));
}

#[test]
fn readdir_nonzero_offset_answers_empty() {
    let f = RfsFuse::new("/pool".to_string());
    assert!(matches!(f.readdir_step(1, 2), ReaddirStep::Done));
}

#[test]
fn readdir_unknown_identifier_is_unknown() {
    let f = RfsFuse::new("/pool".to_string());
    assert!(matches!(f.readdir_step(9, 0), ReaddirStep::Unknown));
}

#[test]
fn readdir_backend_failure_is_io() {
    let mut f = RfsFuse::new("/pool".to_string());
    assert!(matches!(f.readdir_entries(1, None), Err(Errno::Io)));
}

#[test]
fn lookup_missing_name_is_noent() {
    let mut f = RfsFuse::new("/pool".to_string());
    let listing = vec![ListEntry {
        name: "present.txt".to_string(),
        entry: Entry::File(EntryInfo { size: 1, modified_at: 1 }),
    }];
    let r = f.lookup_finish(1, "missing.txt", Some(&listing), 7);
    assert!(matches!(r, Err(Errno::NoEnt)));
}

#[test]
fn lookup_found_assigns_a_stable_identifier() {
    let mut f = RfsFuse::new("/pool".to_string());
    let listing = vec![ListEntry {
        name: "docs".to_string(),
        entry: Entry::Directory(EntryInfo { size: 0, modified_at: 9 }),
    }];
    let (ino, attr) = f.lookup_finish(1, "docs", Some(&listing), 20).unwrap();
    assert_eq!(ino, 2);
    assert_eq!(attr.ino, 2);
    assert_eq!(attr.kind, FileKind::Directory);
    assert_eq!(attr.perm, 0o755);
    assert_eq!(attr.nlink, 2);
    assert_eq!(attr.mtime, 9);
    assert_eq!(attr.atime, 20);
    assert_eq!(f.resolve(ino).as_deref(), Some("/docs"));
    let (again, _) = f.lookup_finish(1, "docs", Some(&listing), 21).unwrap();
    assert_eq!(again, ino);
}

#[test]
fn lookup_unknown_parent_is_noent() {
    let mut f = RfsFuse::new("/pool".to_string());
    let listing: Vec<ListEntry> = Vec::new();
    let r = f.lookup_finish(42, "x", Some(&listing), 0);
    assert!(matches!(r, Err(Errno::NoEnt)));
}

#[test]
fn lookup_backend_failure_is_io() {
    let mut f = RfsFuse::new("/pool".to_string());
    let r = f.lookup_finish(1, "x", None, 0);
    assert!(matches!(r, Err(Errno::Io)));
}

#[test]
fn getattr_of_513_byte_file_takes_two_blocks() {
    let f = RfsFuse::new("/pool".to_string());
    let listing = vec![ListEntry {
        name: "f.bin".to_string(),
        entry: Entry::File(EntryInfo { size: 513, modified_at: 42 }),
    }];
    let a = f.getattr_finish(7, "f.bin", Some(&listing), 100).unwrap();
    assert_eq!(a.size, 513);
    assert_eq!(a.blocks, 2);
    assert_eq!(a.ino, 7);
    assert_eq!(a.mtime, 42);
    assert_eq!(a.ctime, 42);
    assert_eq!(a.crtime, 42);
    assert_eq!(a.atime, 100);
    assert_eq!(a.kind, FileKind::RegularFile);
    assert_eq!(a.perm, 0o644);
    assert_eq!(a.nlink, 1);
    assert_eq!(a.blksize, 512);
    assert_eq!(a.rdev, 0);
    assert_eq!(a.flags, 0);
}

#[test]
fn getattr_block_count_is_exact_on_multiples() {
    let f = RfsFuse::new("/pool".to_string());
    let listing = vec![
        ListEntry {
            name: "empty".to_string(),
            entry: Entry::File(EntryInfo { size: 0, modified_at: 0 }),
        },
        ListEntry {
            name: "even".to_string(),
            entry: Entry::File(EntryInfo { size: 1024, modified_at: 0 }),
        },
    ];
    assert_eq!(f.getattr_finish(2, "empty", Some(&listing), 0).unwrap().blocks, 0);
    assert_eq!(f.getattr_finish(3, "even", Some(&listing), 0).unwrap().blocks, 2);
}

#[test]
fn getattr_root_is_fixed_directory() {
    let f = RfsFuse::new("/pool".to_string());
    assert!(matches!(f.getattr_step(1), GetattrStep::Root));
    let a = f.root_attributes(55);
    assert_eq!(a.ino, 1);
    assert_eq!(a.size, 4096);
    assert_eq!(a.blocks, 8);
    assert_eq!(a.kind, FileKind::Directory);
    assert_eq!(a.perm, 0o755);
    assert_eq!(a.nlink, 2);
    assert_eq!(a.atime, 55);
    assert_eq!(a.mtime, 55);
}

#[test]
fn getattr_step_names_parent_and_file() {
    let mut f = RfsFuse::new("/pool".to_string());
    let ino = f.get_or_create("/a/b");
    match f.getattr_step(ino) {
        GetattrStep::Fetch { parent, name } => {
            assert_eq!(parent, "/a");
            assert_eq!(name, "b");
        }
        _ => panic!("a known non-root identifier must ask for its parent's listing"),
    }
}

#[test]
fn getattr_unknown_identifier_is_unknown() {
    let f = RfsFuse::new("/pool".to_string());
    assert!(matches!(f.getattr_step(5), GetattrStep::Unknown));
}

#[test]
fn getattr_missing_name_is_noent() {
    let f = RfsFuse::new("/pool".to_string());
    let listing: Vec<ListEntry> = Vec::new();
    let r = f.getattr_finish(2, "gone.txt", Some(&listing), 0);
    assert!(matches!(r, Err(Errno::NoEnt)));
}

#[test]
fn getattr_backend_failure_is_io() {
    let f = RfsFuse::new("/pool".to_string());
    let r = f.getattr_finish(2, "x", None, 0);
    assert!(matches!(r, Err(Errno::Io)));
}

#[test]
fn open_and_read_are_not_implemented() {
    let f = RfsFuse::new("/pool".to_string());
    assert!(matches!(f.open(1, 0), Err(Errno::NoEnt)));
    assert!(matches!(f.read(1, 0, 4096), Err(Errno::NoEnt)));
}

#[test]
fn handler_keeps_its_pool_root() {
    let f = RfsFuse::new("/srv/pool3".to_string());
    assert_eq!(f.pool_root(), "/srv/pool3");
}

#[test]
fn readdir_of_subdirectory_joins_paths() {
    let mut f = RfsFuse::new("/pool".to_string());
    let docs = f.get_or_create("/docs");
    let listing = vec![ListEntry {
        name: "inner.txt".to_string(),
        entry: Entry::File(EntryInfo { size: 3, modified_at: 1 }),
    }];
    let rows = f.readdir_entries(docs, Some(&listing)).unwrap();
    assert_eq!(rows.len(), 3);
    assert_eq!(rows[1].ino, 1);
    assert_eq!(f.resolve(rows[2].ino).as_deref(), Some("/docs/inner.txt"));
}
