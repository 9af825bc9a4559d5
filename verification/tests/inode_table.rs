use rfs_fuse::InodeTable;

#[test]
fn root_resolves_to_one() {
    let mut t = InodeTable::new();
    assert_eq!(t.get_or_create("/"), 1);
    assert_eq!(t.resolve(1).as_deref(), Some("/"));
}

#[test]
fn resolve_after_get_or_create() {
    let mut t = InodeTable::new();
    let a = t.get_or_create("/docs");
    assert_eq!(t.resolve(a).as_deref(), Some("/docs"));
    let b = t.get_or_create("/docs/report.txt");
    assert_eq!(t.resolve(b).as_deref(), Some("/docs/report.txt"));
    assert_eq!(t.resolve(a).as_deref(), Some("/docs"));
}

#[test]
fn get_or_create_is_idempotent() {
    let mut t = InodeTable::new();
    let a = t.get_or_create("/music");
    let b = t.get_or_create("/music");
    assert_eq!(a, b);
    let _ = t.get_or_create("/pictures");
    let c = t.get_or_create("/music");
    assert_eq!(a, c);
}

#[test]
fn identifiers_grow_from_two() {
    let mut t = InodeTable::new();
    assert_eq!(t.get_or_create("/a"), 2);
    assert_eq!(t.get_or_create("/b"), 3);
    assert_eq!(t.get_or_create("/c"), 4);
    assert_eq!(t.get_or_create("/b"), 3);
}

#[test]
fn tables_are_isolated() {
    let mut t1 = InodeTable::new();
    let mut t2 = InodeTable::new();
    let a = t1.get_or_create("/only-in-one");
    let b = t2.get_or_create("/only-in-two");
    assert_eq!(a, 2);
    assert_eq!(b, 2);
    assert_eq!(t1.resolve(2).as_deref(), Some("/only-in-one"));
    assert_eq!(t2.resolve(2).as_deref(), Some("/only-in-two"));
    assert_eq!(t1.resolve(3), None);
    assert_eq!(t2.resolve(3), None);
}

#[test]
fn parent_identifier_of_nested_path() {
    let mut t = InodeTable::new();
    let ab = t.get_or_create("/a/b");
    let a = t.get_or_create("/a");
    let p = t.parent_inode(ab);
    assert_eq!(p, a);
    assert_eq!(t.resolve(p).as_deref(), Some("/a"));
}

#[test]
fn parent_identifier_is_created_on_demand() {
    let mut t = InodeTable::new();
    let ab = t.get_or_create("/x/y");
    let p = t.parent_inode(ab);
    assert_eq!(t.resolve(p).as_deref(), Some("/x"));
    assert_eq!(t.get_or_create("/x"), p);
}

#[test]
fn root_is_its_own_parent() {
    let mut t = InodeTable::new();
    assert_eq!(t.parent_inode(1), 1);
}

#[test]
fn parent_of_top_level_entry_is_root() {
    let mut t = InodeTable::new();
    let a = t.get_or_create("/a");
    assert_eq!(t.parent_inode(a), 1);
}

#[test]
fn unknown_identifier_resolves_to_none() {
    let t = InodeTable::new();
    assert_eq!(t.resolve(0), None);
    assert_eq!(t.resolve(2), None);
    assert_eq!(t.resolve(u64::MAX), None);
}
