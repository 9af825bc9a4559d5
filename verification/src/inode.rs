//! The per-mount identity table: a bidirectional mapping between stable
//! numeric identifiers and filesystem paths. Identifier `1` is the mount
//! root `/`; further identifiers are handed out from `2` upward, in order of
//! first sight, and are never reused or retired for the life of the mount.
//!
//! The model of a table is the sequence of paths it has assigned: index `i`
//! belongs to identifier `i + 1`, so the two mapping directions cannot
//! disagree.

use vstd::prelude::*;

use crate::paths::root_path;
use crate::paths::parent_seq;
use crate::paths::root_string;
use crate::paths::str_eq;
use crate::paths::parent_of;

verus! {

/// Whether the table model `t` has assigned an identifier to path `p`.
pub open spec fn table_contains(t: Seq<Seq<char>>, p: Seq<char>) -> bool {
    exists|i: int| 0 <= i < t.len() && t[i] == p
}

/// A well-formed table: the root path stands first (identifier `1`) and no
/// path occurs twice, so each path has exactly one identifier.
pub open spec fn table_wf(t: Seq<Seq<char>>) -> bool {
    &&& t.len() >= 1
    &&& t[0] == root_path()
    &&& forall|i: int, j: int| 0 <= i < j < t.len() ==> t[i] != t[j]
}

/// The path identifier `ino` resolves to, or `None` when the table has never
/// handed `ino` out.
pub open spec fn spec_resolve(t: Seq<Seq<char>>, ino: int) -> Option<Seq<char>> {
    if 1 <= ino && ino <= t.len() {
        Some(t[ino - 1])
    } else {
        None
    }
}

/// The table after `get_or_create(p)`: unchanged when `p` is already known,
/// grown by one entry at the end otherwise.
pub open spec fn spec_insert(t: Seq<Seq<char>>, p: Seq<char>) -> Seq<Seq<char>> {
    if table_contains(t, p) {
        t
    } else {
        t.push(p)
    }
}

/// The identifier `get_or_create(p)` hands out against table `t`: the
/// position of `p`, shifted by one, whether `p` was already there or has
/// just been appended.
pub open spec fn spec_ino_of(t: Seq<Seq<char>>, p: Seq<char>) -> int {
    if table_contains(t, p) {
        (choose|i: int| 0 <= i < t.len() && t[i] == p) + 1
    } else {
        t.len() + 1 as int
    }
}

/// `get_or_create` preserves well-formedness.
pub proof fn lemma_insert_wf(t: Seq<Seq<char>>, p: Seq<char>)
    requires
        table_wf(t),
    ensures
        table_wf(spec_insert(t, p)),
{
    if !table_contains(t, p) {
        assert forall|i: int, j: int|
            0 <= i < j < t.push(p).len() implies t.push(p)[i] != t.push(p)[j] by {
            if j == t.len() {
                assert(!(exists|k: int| 0 <= k < t.len() && t[k] == p));
                assert(t.push(p)[i] == t[i]);
            }
        }
    }
}

/// Growing the table never changes what an already-known identifier
/// resolves to.
pub proof fn lemma_insert_preserves_resolve(t: Seq<Seq<char>>, q: Seq<char>, ino: int)
    requires
        spec_resolve(t, ino) is Some,
    ensures
        spec_resolve(spec_insert(t, q), ino) == spec_resolve(t, ino),
{
}

/// After `get_or_create(p)`, the identifier it handed out resolves to `p`:
/// the two directions of the mapping agree on every path ever entered.
pub proof fn lemma_resolve_after_insert(t: Seq<Seq<char>>, p: Seq<char>)
    requires
        table_wf(t),
    ensures
        spec_resolve(spec_insert(t, p), spec_ino_of(t, p)) == Some(p),
{
    if table_contains(t, p) {
        let i = choose|i: int| 0 <= i < t.len() && t[i] == p;
        assert(spec_insert(t, p) == t);
        assert(spec_resolve(t, i + 1) == Some(p));
    } else {
        assert(spec_insert(t, p)[t.len() as int] == p);
    }
}

/// The root path always holds identifier `1`, and identifier `1` never
/// resolves to any path but the root; entering the root again changes
/// nothing.
pub proof fn lemma_root_identity(t: Seq<Seq<char>>)
    requires
        table_wf(t),
    ensures
        spec_resolve(t, 1) == Some(root_path()),
        spec_ino_of(t, root_path()) == 1,
        spec_insert(t, root_path()) == t,
        forall|ino: int| spec_resolve(t, ino) == Some(root_path()) ==> ino == 1,
{
    assert(table_contains(t, root_path()));
    let i = choose|i: int| 0 <= i < t.len() && t[i] == root_path();
    if i != 0 {
        assert(t[0] == t[i]);
        assert(false);
    }
    assert forall|ino: int| spec_resolve(t, ino) == Some(root_path()) implies ino == 1 by {
        if ino != 1 && 1 <= ino <= t.len() {
            assert(t[0] == t[ino - 1]);
        }
    }
}

/// Entering the same path twice hands out the same identifier both times and
/// leaves the table as the first call left it.
pub proof fn lemma_get_or_create_idempotent(t: Seq<Seq<char>>, p: Seq<char>)
    requires
        table_wf(t),
    ensures
        spec_insert(spec_insert(t, p), p) == spec_insert(t, p),
        spec_ino_of(spec_insert(t, p), p) == spec_ino_of(t, p),
{
    let t1 = spec_insert(t, p);
    if table_contains(t, p) {
        assert(t1 == t);
    } else {
        assert(t1[t.len() as int] == p);
        assert(table_contains(t1, p));
        lemma_insert_wf(t, p);
        let i = choose|i: int| 0 <= i < t1.len() && t1[i] == p;
        if i != t.len() {
            assert(t1[i] == t1[t.len() as int]);
            assert(false);
        }
    }
}

/// The per-mount identity table. Created holding only the root; grown by
/// `get_or_create`; never shrunk.
pub struct InodeTable {
    paths: Vec<String>,
}

impl View for InodeTable {
    type V = Seq<Seq<char>>;

    closed spec fn view(&self) -> Seq<Seq<char>> {
        Seq::new(self.paths@.len(), |i: int| self.paths@[i]@)
    }
}

impl InodeTable {
    /// Whether this table is well-formed; established by `new` and kept by
    /// every method.
    pub open spec fn wf(&self) -> bool {
        table_wf(self@)
    }

    /// A fresh table holding only the root entry: identifier `1` maps
    /// to `/`.
    pub fn new() -> (t: InodeTable)
        ensures
            t.wf(),
            t@ == seq![root_path()],
    {
        let mut paths: Vec<String> = Vec::new();
        paths.push(root_string());
        let t = InodeTable { paths };
        proof {
            assert(t@ =~= seq![root_path()]);
        }
        t
    }

    /// The identifier for `path`: the one already assigned where `path` is
    /// known, a freshly allocated one otherwise. Never fails.
    pub fn get_or_create(&mut self, path: &str) -> (ino: u64)
        requires
            old(self).wf(),
        ensures
            final(self).wf(),
            final(self)@ == spec_insert(old(self)@, path@),
            ino as int == spec_ino_of(old(self)@, path@),
            spec_resolve(final(self)@, ino as int) == Some(path@),
    {
        let ghost t0 = self@;
        let n = self.paths.len();
        let mut i: usize = 0;
        while i < n
            invariant
                self@ == t0,
                table_wf(t0),
                n == self.paths.len(),
                n == t0.len(),
                i <= n,
                forall|j: int| 0 <= j < i ==> t0[j] != path@,
            decreases n - i,
        {
            if str_eq(self.paths[i].as_str(), path) {
                proof {
                    assert(t0[i as int] == path@);
                    assert(table_contains(t0, path@));
                    let j = choose|j: int| 0 <= j < t0.len() && t0[j] == path@;
                    if j != i {
                        assert(t0[j] == t0[i as int]);
                        assert(false);
                    }
                    assert(spec_ino_of(t0, path@) == i + 1);
                    assert(spec_resolve(t0, i + 1) == Some(path@));
                }
                return (i + 1) as u64;
            }
            i = i + 1;
        }
        proof {
            assert(!table_contains(t0, path@));
            lemma_insert_wf(t0, path@);
        }
        self.paths.push(path.to_owned());
        proof {
            assert(self@ =~= t0.push(path@));
            assert(self@[n as int] == path@);
        }
        self.paths.len() as u64
    }

    /// The path behind `ino`, or `None` when this table never handed `ino`
    /// out — the caller must then answer "no such entry".
    pub fn resolve(&self, ino: u64) -> (r: Option<String>)
        ensures
            match r {
                Some(p) => spec_resolve(self@, ino as int) == Some(p@),
                None => spec_resolve(self@, ino as int) is None,
            },
    {
        if 1 <= ino && ino <= self.paths.len() as u64 {
            let idx = (ino - 1) as usize;
            Some(self.paths[idx].clone())
        } else {
            None
        }
    }

    /// The identifier of the parent directory of `ino`'s path, assigned on
    /// the spot if not yet known. The root is its own parent.
    pub fn parent_inode(&mut self, ino: u64) -> (r: u64)
        requires
            old(self).wf(),
            spec_resolve(old(self)@, ino as int) is Some,
        ensures
            final(self).wf(),
            ino == 1 ==> r == 1 && final(self)@ == old(self)@,
            ino != 1 ==> {
                let p = spec_resolve(old(self)@, ino as int).unwrap();
                &&& final(self)@ == spec_insert(old(self)@, parent_seq(p))
                &&& r as int == spec_ino_of(old(self)@, parent_seq(p))
                &&& spec_resolve(final(self)@, r as int) == Some(parent_seq(p))
            },
    {
        if ino == 1 {
            return 1;
        }
        let n = self.paths.len();
        proof {
            assert(n == self@.len());
            assert(1 <= ino as int <= n as int);
        }
        let idx = (ino - 1) as usize;
        proof {
            assert(idx as int == ino as int - 1);
            assert(self@[idx as int] == spec_resolve(self@, ino as int).unwrap());
        }
        let par = parent_of(self.paths[idx].as_str());
        self.get_or_create(par.as_str())
    }
}

} // verus!
