//! The request handler behind the kernel driver's callback surface. Each
//! callback is a self-contained transaction against the per-mount identity
//! table: a first step decides whether a backend listing is needed and for
//! which directory, and a second step turns the listing the caller fetched
//! into the reply. The blocking bridge to the asynchronous backend, and the
//! kernel replies themselves, stay with the caller.

use vstd::prelude::*;

use crate::attr::Attributes;
use crate::attr::root_attr;
use crate::attr::spec_root_attr;
use crate::attr::spec_translate;
use crate::attr::translate;
use crate::entry::FileKind;
use crate::entry::ListEntry;
use crate::entry::find_entry;
use crate::entry::lookup_entry;
use crate::error::Errno;
use crate::inode::InodeTable;
use crate::inode::spec_insert;
use crate::inode::spec_ino_of;
use crate::inode::spec_resolve;
use crate::inode::table_wf;
use crate::inode::lemma_insert_preserves_resolve;
use crate::inode::lemma_insert_wf;
use crate::paths::join_seq;
use crate::paths::join_path;
use crate::paths::name_of;
use crate::paths::name_seq;
use crate::paths::parent_of;
use crate::paths::parent_seq;
use crate::paths::root_path;

verus! {

/// How long the kernel may cache a lookup reply, in seconds.
pub const TTL_SECS: u64 = 1;

/// Relies on nix::unistd::Uid::current (the getuid system call, which
/// cannot fail) for the real user id of the calling process.
#[verifier::external_body]
fn current_uid() -> u32 {
    nix::unistd::Uid::current().as_raw()
}

/// Relies on nix::unistd::Gid::current (the getgid system call, which
/// cannot fail) for the real group id of the calling process.
#[verifier::external_body]
fn current_gid() -> u32 {
    nix::unistd::Gid::current().as_raw()
}

/// What a `getattr` request needs: nothing (the identifier is unknown or is
/// the root), or the listing of the parent directory, against which `name`
/// is then checked.
pub enum GetattrStep {
    Unknown,
    Root,
    Fetch { parent: String, name: String },
}

/// What a `readdir` request needs: nothing (the identifier is unknown, or a
/// continuation page was asked for), or the listing of the directory itself.
pub enum ReaddirStep {
    Unknown,
    Done,
    Fetch(String),
}

/// One row of a `readdir` reply.
#[derive(Clone, Debug)]
pub struct DirEntryOut {
    pub ino: u64,
    pub offset: i64,
    pub kind: FileKind,
    pub name: String,
}

/// The table after identifiers were assigned to every child of `dir` named
/// in `l`, in listing order.
pub open spec fn spec_insert_children(
    t: Seq<Seq<char>>,
    dir: Seq<char>,
    l: Seq<ListEntry>,
) -> Seq<Seq<char>>
    decreases l.len(),
{
    if l.len() == 0 {
        t
    } else {
        spec_insert_children(spec_insert(t, join_seq(dir, l[0].name@)), dir, l.drop_first())
    }
}

/// Assigning child identifiers one more entry at a time appends one insert.
proof fn lemma_insert_children_push(
    t: Seq<Seq<char>>,
    dir: Seq<char>,
    l: Seq<ListEntry>,
    x: ListEntry,
)
    ensures
        spec_insert_children(t, dir, l.push(x)) == spec_insert(
            spec_insert_children(t, dir, l),
            join_seq(dir, x.name@),
        ),
    decreases l.len(),
{
    if l.len() == 0 {
        assert(l =~= Seq::<ListEntry>::empty());
        assert(l.push(x)[0] == x);
        assert(l.push(x).drop_first() =~= Seq::<ListEntry>::empty());
        assert(spec_insert_children(t, dir, l.push(x)) == spec_insert_children(
            spec_insert(t, join_seq(dir, x.name@)),
            dir,
            Seq::<ListEntry>::empty(),
        ));
        assert(spec_insert_children(
            spec_insert(t, join_seq(dir, x.name@)),
            dir,
            Seq::<ListEntry>::empty(),
        ) == spec_insert(t, join_seq(dir, x.name@)));
        assert(spec_insert_children(t, dir, l) == t);
    } else {
        assert(l.push(x)[0] == l[0]);
        assert(l.push(x).drop_first() =~= l.drop_first().push(x));
        assert(spec_insert_children(t, dir, l.push(x)) == spec_insert_children(
            spec_insert(t, join_seq(dir, l[0].name@)),
            dir,
            l.drop_first().push(x),
        ));
        lemma_insert_children_push(
            spec_insert(t, join_seq(dir, l[0].name@)),
            dir,
            l.drop_first(),
            x,
        );
        assert(spec_insert_children(t, dir, l) == spec_insert_children(
            spec_insert(t, join_seq(dir, l[0].name@)),
            dir,
            l.drop_first(),
        ));
    }
}

/// Assigning child identifiers keeps the table well-formed and never
/// changes what an already-known identifier resolves to: no identifier
/// handed to the kernel ever dangles, however the table grows.
pub proof fn lemma_insert_children_preserves(
    t: Seq<Seq<char>>,
    dir: Seq<char>,
    l: Seq<ListEntry>,
    ino: int,
)
    requires
        table_wf(t),
        spec_resolve(t, ino) is Some,
    ensures
        table_wf(spec_insert_children(t, dir, l)),
        spec_resolve(spec_insert_children(t, dir, l), ino) == spec_resolve(t, ino),
    decreases l.len(),
{
    if l.len() > 0 {
        lemma_insert_wf(t, join_seq(dir, l[0].name@));
        lemma_insert_preserves_resolve(t, join_seq(dir, l[0].name@), ino);
        lemma_insert_children_preserves(
            spec_insert(t, join_seq(dir, l[0].name@)),
            dir,
            l.drop_first(),
            ino,
        );
    }
}

/// The driver state of one mount: the backend root it serves, its identity
/// table, and the process identity reported in attributes.
pub struct RfsFuse {
    pool_root: String,
    table: InodeTable,
    uid: u32,
    gid: u32,
}

impl RfsFuse {
    /// The identity table model of this handler.
    pub closed spec fn tbl(&self) -> Seq<Seq<char>> {
        self.table@
    }

    /// The backend root this handler serves.
    pub closed spec fn pool(&self) -> Seq<char> {
        self.pool_root@
    }

    /// The user id reported in attributes.
    pub closed spec fn spec_uid(&self) -> u32 {
        self.uid
    }

    /// The group id reported in attributes.
    pub closed spec fn spec_gid(&self) -> u32 {
        self.gid
    }

    /// A well-formed handler: its identity table is well-formed.
    pub open spec fn wf(&self) -> bool {
        table_wf(self.tbl())
    }

    /// Everything but the identity table is as it was.
    pub open spec fn same_mount(&self, other: &RfsFuse) -> bool {
        &&& self.pool() == other.pool()
        &&& self.spec_uid() == other.spec_uid()
        &&& self.spec_gid() == other.spec_gid()
    }

    /// A fresh handler for one mount of the pool rooted at `pool_root`: its
    /// table holds only the root entry.
    pub fn new(pool_root: String) -> (r: RfsFuse)
        ensures
            r.wf(),
            r.tbl() == seq![root_path()],
            r.pool() == pool_root@,
    {
        RfsFuse {
            pool_root,
            table: InodeTable::new(),
            uid: current_uid(),
            gid: current_gid(),
        }
    }

    /// The backend root this handler serves.
    pub fn pool_root(&self) -> (r: &String)
        ensures
            r@ == self.pool(),
    {
        &self.pool_root
    }

    /// The identifier for `path` in this mount's table.
    pub fn get_or_create(&mut self, path: &str) -> (ino: u64)
        requires
            old(self).wf(),
        ensures
            final(self).wf(),
            final(self).same_mount(old(self)),
            final(self).tbl() == spec_insert(old(self).tbl(), path@),
            ino as int == spec_ino_of(old(self).tbl(), path@),
            spec_resolve(final(self).tbl(), ino as int) == Some(path@),
    {
        self.table.get_or_create(path)
    }

    /// The path behind `ino`, or `None` when it was never handed out.
    pub fn resolve(&self, ino: u64) -> (r: Option<String>)
        ensures
            match r {
                Some(p) => spec_resolve(self.tbl(), ino as int) == Some(p@),
                None => spec_resolve(self.tbl(), ino as int) is None,
            },
    {
        self.table.resolve(ino)
    }

    /// The identifier of the parent directory of `ino`'s path.
    pub fn parent_inode(&mut self, ino: u64) -> (r: u64)
        requires
            old(self).wf(),
            spec_resolve(old(self).tbl(), ino as int) is Some,
        ensures
            final(self).wf(),
            final(self).same_mount(old(self)),
            ino == 1 ==> r == 1 && final(self).tbl() == old(self).tbl(),
            ino != 1 ==> {
                let p = spec_resolve(old(self).tbl(), ino as int).unwrap();
                &&& final(self).tbl() == spec_insert(old(self).tbl(), parent_seq(p))
                &&& r as int == spec_ino_of(old(self).tbl(), parent_seq(p))
                &&& spec_resolve(final(self).tbl(), r as int) == Some(parent_seq(p))
            },
    {
        self.table.parent_inode(ino)
    }

    /// The fixed attributes of the mount root, reported without consulting
    /// the backend.
    pub fn root_attributes(&self, now: u64) -> (a: Attributes)
        ensures
            a == spec_root_attr(now, self.spec_uid(), self.spec_gid()),
    {
        root_attr(now, self.uid, self.gid)
    }

    /// First half of `getattr`: decide from the table alone whether the
    /// request fails, is the root, or needs the parent directory's listing.
    pub fn getattr_step(&self, ino: u64) -> (s: GetattrStep)
        requires
            self.wf(),
        ensures
            (s is Unknown) <==> (spec_resolve(self.tbl(), ino as int) is None),
            (s is Root) <==> (spec_resolve(self.tbl(), ino as int) is Some && ino == 1),
            (s is Fetch) <==> (spec_resolve(self.tbl(), ino as int) is Some && ino != 1),
            s matches GetattrStep::Fetch { parent, name } ==> {
                let p = spec_resolve(self.tbl(), ino as int).unwrap();
                parent@ == parent_seq(p) && name@ == name_seq(p)
            },
    {
        match self.table.resolve(ino) {
            None => GetattrStep::Unknown,
            Some(p) => {
                if ino == 1 {
                    GetattrStep::Root
                } else {
                    GetattrStep::Fetch {
                        parent: parent_of(p.as_str()),
                        name: name_of(p.as_str()),
                    }
                }
            },
        }
    }

    /// Second half of `getattr`: with the parent's listing in hand (or its
    /// failure), answer the entry's attributes, "no such entry", or an I/O
    /// failure.
    pub fn getattr_finish(
        &self,
        ino: u64,
        name: &str,
        listing: Option<&Vec<ListEntry>>,
        now: u64,
    ) -> (r: Result<Attributes, Errno>)
        ensures
            match listing {
                None => r == Err::<Attributes, Errno>(Errno::Io),
                Some(l) => match find_entry(l@, name@) {
                    Some(e) => r == Ok::<Attributes, Errno>(
                        spec_translate(ino, e, now, self.spec_uid(), self.spec_gid()),
                    ),
                    None => r == Err::<Attributes, Errno>(Errno::NoEnt),
                },
            },
    {
        match listing {
            None => Err(Errno::Io),
            Some(l) => match lookup_entry(l, name) {
                Some(e) => Ok(translate(ino, &e, now, self.uid, self.gid)),
                None => Err(Errno::NoEnt),
            },
        }
    }

    /// `lookup(parent, name)` with the parent's listing in hand: when the
    /// name is present, assign (or find) the child's identifier and answer
    /// it with the child's attributes; otherwise "no such entry"; an absent
    /// listing is an I/O failure. The table grows by at most the child path.
    pub fn lookup_finish(
        &mut self,
        parent: u64,
        name: &str,
        listing: Option<&Vec<ListEntry>>,
        now: u64,
    ) -> (r: Result<(u64, Attributes), Errno>)
        requires
            old(self).wf(),
        ensures
            final(self).wf(),
            final(self).same_mount(old(self)),
            match spec_resolve(old(self).tbl(), parent as int) {
                None => r == Err::<(u64, Attributes), Errno>(Errno::NoEnt)
                    && final(self).tbl() == old(self).tbl(),
                Some(ppath) => match listing {
                    None => r == Err::<(u64, Attributes), Errno>(Errno::Io)
                        && final(self).tbl() == old(self).tbl(),
                    Some(l) => match find_entry(l@, name@) {
                        None => r == Err::<(u64, Attributes), Errno>(Errno::NoEnt)
                            && final(self).tbl() == old(self).tbl(),
                        Some(e) => {
                            let child = join_seq(ppath, name@);
                            &&& final(self).tbl() == spec_insert(old(self).tbl(), child)
                            &&& r matches Ok(ia) && {
                                &&& ia.0 as int == spec_ino_of(old(self).tbl(), child)
                                &&& spec_resolve(final(self).tbl(), ia.0 as int) == Some(child)
                                &&& ia.1 == spec_translate(
                                    ia.0,
                                    e,
                                    now,
                                    old(self).spec_uid(),
                                    old(self).spec_gid(),
                                )
                            }
                        },
                    },
                },
            },
    {
        let ppath = match self.table.resolve(parent) {
            None => {
                return Err(Errno::NoEnt);
            },
            Some(p) => p,
        };
        let l = match listing {
            None => {
                return Err(Errno::Io);
            },
            Some(l) => l,
        };
        let e = match lookup_entry(l, name) {
            None => {
                return Err(Errno::NoEnt);
            },
            Some(e) => e,
        };
        let child = join_path(ppath.as_str(), name);
        let ino = self.table.get_or_create(child.as_str());
        let a = translate(ino, &e, now, self.uid, self.gid);
        Ok((ino, a))
    }

    /// First half of `readdir`: decide from the table alone whether the
    /// request fails, is a continuation page (answered empty), or needs the
    /// directory's own listing.
    pub fn readdir_step(&self, ino: u64, offset: i64) -> (s: ReaddirStep)
        requires
            self.wf(),
        ensures
            (s is Unknown) <==> (spec_resolve(self.tbl(), ino as int) is None),
            (s is Done) <==> (spec_resolve(self.tbl(), ino as int) is Some && offset != 0),
            (s is Fetch) <==> (spec_resolve(self.tbl(), ino as int) is Some && offset == 0),
            s matches ReaddirStep::Fetch(p) ==> spec_resolve(self.tbl(), ino as int) == Some(p@),
    {
        match self.table.resolve(ino) {
            None => ReaddirStep::Unknown,
            Some(p) => {
                if offset != 0 {
                    ReaddirStep::Done
                } else {
                    ReaddirStep::Fetch(p)
                }
            },
        }
    }

    /// Second half of a first-page `readdir`: emit `.` and `..`, then one
    /// row per listed child in listing order, at positional offsets from 2
    /// up, assigning identifiers on the way. An absent listing is an I/O
    /// failure (the parent identifier is still assigned first, as the
    /// request had already begun).
    pub fn readdir_entries(&mut self, ino: u64, listing: Option<&Vec<ListEntry>>) -> (r: Result<
        Vec<DirEntryOut>,
        Errno,
    >)
        requires
            old(self).wf(),
            spec_resolve(old(self).tbl(), ino as int) is Some,
            listing matches Some(l) ==> l@.len() + 2 <= i64::MAX,
        ensures
            final(self).wf(),
            final(self).same_mount(old(self)),
            ({
                let p = spec_resolve(old(self).tbl(), ino as int).unwrap();
                let t1 = if ino == 1 {
                    old(self).tbl()
                } else {
                    spec_insert(old(self).tbl(), parent_seq(p))
                };
                match listing {
                    None => r == Err::<Vec<DirEntryOut>, Errno>(Errno::Io)
                        && final(self).tbl() == t1,
                    Some(l) => {
                        &&& final(self).tbl() == spec_insert_children(t1, p, l@)
                        &&& r matches Ok(v) && {
                            &&& v@.len() == l@.len() + 2
                            &&& v@[0].ino == ino
                            &&& v@[0].offset == 0
                            &&& v@[0].kind is Directory
                            &&& v@[0].name@ == seq!['.']
                            &&& v@[1].offset == 1
                            &&& v@[1].kind is Directory
                            &&& v@[1].name@ == seq!['.', '.']
                            &&& (ino == 1 ==> v@[1].ino == 1)
                            &&& (ino != 1 ==> v@[1].ino as int == spec_ino_of(
                                old(self).tbl(),
                                parent_seq(p),
                            ))
                            &&& spec_resolve(final(self).tbl(), v@[1].ino as int) == Some(
                                if ino == 1 {
                                    root_path()
                                } else {
                                    parent_seq(p)
                                },
                            )
                            &&& forall|i: int| 0 <= i < l@.len() ==> {
                                let d = #[trigger] v@[i + 2];
                                &&& d.offset == i + 2
                                &&& d.name@ == l@[i].name@
                                &&& d.kind == l@[i].entry.spec_kind()
                                &&& spec_resolve(final(self).tbl(), d.ino as int) == Some(
                                    join_seq(p, l@[i].name@),
                                )
                            }
                        }
                    },
                }
            }),
    {
        let ghost t0 = self.tbl();
        let ghost p = spec_resolve(t0, ino as int).unwrap();
        let parent_ino = self.parent_inode(ino);
        let ghost t1 = self.tbl();
        proof {
            if ino != 1 {
                lemma_insert_preserves_resolve(t0, parent_seq(p), ino as int);
            }
        }
        let path = match self.table.resolve(ino) {
            Some(q) => q,
            None => {
                proof {
                    assert(false);
                }
                return Err(Errno::Io);
            },
        };
        let l = match listing {
            None => {
                return Err(Errno::Io);
            },
            Some(l) => l,
        };
        let mut out: Vec<DirEntryOut> = Vec::new();
        out.push(
            DirEntryOut { ino, offset: 0, kind: FileKind::Directory, name: dot_string() },
        );
        out.push(
            DirEntryOut {
                ino: parent_ino,
                offset: 1,
                kind: FileKind::Directory,
                name: dotdot_string(),
            },
        );
        let n = l.len();
        let mut i: usize = 0;
        proof {
            assert(l@.take(0) =~= Seq::<ListEntry>::empty());
        }
        while i < n
            invariant
                self.wf(),
                self.same_mount(old(self)),
                n == l@.len(),
                i <= n,
                n + 2 <= i64::MAX,
                spec_resolve(self.tbl(), ino as int) == Some(p),
                path@ == p,
                spec_resolve(self.tbl(), parent_ino as int) == Some(
                    if ino == 1 {
                        root_path()
                    } else {
                        parent_seq(p)
                    },
                ),
                self.tbl() == spec_insert_children(t1, p, l@.take(i as int)),
                out@.len() == i + 2,
                out@[0].ino == ino && out@[0].offset == 0 && out@[0].kind is Directory
                    && out@[0].name@ == seq!['.'],
                out@[1].ino == parent_ino && out@[1].offset == 1 && out@[1].kind is Directory
                    && out@[1].name@ == seq!['.', '.'],
                forall|j: int| 0 <= j < i ==> {
                    let d = #[trigger] out@[j + 2];
                    &&& d.offset == j + 2
                    &&& d.name@ == l@[j].name@
                    &&& d.kind == l@[j].entry.spec_kind()
                    &&& spec_resolve(self.tbl(), d.ino as int) == Some(join_seq(p, l@[j].name@))
                },
            decreases n - i,
        {
            let child = join_path(path.as_str(), l[i].name.as_str());
            let ghost t_before = self.tbl();
            let child_ino = self.table.get_or_create(child.as_str());
            proof {
                lemma_insert_preserves_resolve(t_before, child@, ino as int);
                lemma_insert_preserves_resolve(t_before, child@, parent_ino as int);
                assert forall|j: int| 0 <= j < i implies spec_resolve(
                    self.tbl(),
                    out@[j + 2].ino as int,
                ) == Some(join_seq(p, l@[j].name@)) by {
                    lemma_insert_preserves_resolve(t_before, child@, out@[j + 2].ino as int);
                }
                assert(l@.take(i as int + 1) =~= l@.take(i as int).push(l@[i as int]));
                lemma_insert_children_push(t1, p, l@.take(i as int), l@[i as int]);
            }
            let k = l[i].entry.kind();
            out.push(
                DirEntryOut {
                    ino: child_ino,
                    offset: (i as i64) + 2,
                    kind: k,
                    name: l[i].name.clone(),
                },
            );
            i = i + 1;
        }
        proof {
            assert(l@.take(n as int) =~= l@);
        }
        Ok(out)
    }

    /// Reserved extension point for content access negotiation; always
    /// answers "no such entry".
    pub fn open(&self, ino: u64, flags: i32) -> (r: Result<u64, Errno>)
        ensures
            r == Err::<u64, Errno>(Errno::NoEnt),
    {
        let _ = ino;
        let _ = flags;
        Err(Errno::NoEnt)
    }

    /// Reserved extension point for content reads; always answers "no such
    /// entry".
    pub fn read(&self, ino: u64, offset: i64, size: u32) -> (r: Result<Vec<u8>, Errno>)
        ensures
            r == Err::<Vec<u8>, Errno>(Errno::NoEnt),
    {
        let _ = ino;
        let _ = offset;
        let _ = size;
        Err(Errno::NoEnt)
    }
}

/// The listing row name `.`, the directory itself.
fn dot_string() -> (r: String)
    ensures
        r@ == seq!['.'],
{
    proof {
        reveal_strlit(".");
    }
    let r = String::from_str(".");
    proof {
        assert(r@ =~= seq!['.']);
    }
    r
}

/// The listing row name `..`, the parent directory.
fn dotdot_string() -> (r: String)
    ensures
        r@ == seq!['.', '.'],
{
    proof {
        reveal_strlit("..");
    }
    let r = String::from_str("..");
    proof {
        assert(r@ =~= seq!['.', '.']);
    }
    r
}

} // verus!
