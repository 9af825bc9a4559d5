//! Path arithmetic for the identity table: the mount root, the parent of a
//! path, the final name component, and joining a directory with a child name.
//! Paths are absolute, `/`-separated strings; the model works on `Seq<char>`.

use vstd::prelude::*;

verus! {

/// The path of the mount root, `/`.
pub open spec fn root_path() -> Seq<char> {
    seq!['/']
}

/// Index of the last `/` in `p`, or `-1` when `p` holds none.
pub open spec fn last_slash(p: Seq<char>) -> int
    decreases p.len(),
{
    if p.len() == 0 {
        -1
    } else if p[p.len() - 1] == '/' {
        p.len() - 1
    } else {
        last_slash(p.drop_last())
    }
}

/// The parent of a path: everything before the last `/`, or the root when the
/// path is the root itself or has no directory part.
pub open spec fn parent_seq(p: Seq<char>) -> Seq<char> {
    if last_slash(p) <= 0 {
        root_path()
    } else {
        p.take(last_slash(p))
    }
}

/// The final component of a path: everything after the last `/` (the whole
/// path when it holds no `/`).
pub open spec fn name_seq(p: Seq<char>) -> Seq<char> {
    p.skip(last_slash(p) + 1)
}

/// A directory path joined with a child name: `/name` under the root,
/// `parent/name` elsewhere.
pub open spec fn join_seq(parent: Seq<char>, name: Seq<char>) -> Seq<char> {
    if parent == root_path() {
        root_path() + name
    } else {
        parent + root_path() + name
    }
}

/// The last `/` of a path, where there is one, lies inside the path.
pub proof fn lemma_last_slash_range(p: Seq<char>)
    ensures
        -1 <= last_slash(p) < p.len(),
    decreases p.len(),
{
    if p.len() > 0 && p[p.len() - 1] != '/' {
        lemma_last_slash_range(p.drop_last());
    }
}

/// Appending slash-free text to a path does not move its last `/`.
proof fn lemma_last_slash_append(x: Seq<char>, name: Seq<char>)
    requires
        forall|i: int| 0 <= i < name.len() ==> name[i] != '/',
    ensures
        last_slash(x + name) == last_slash(x),
    decreases name.len(),
{
    if name.len() == 0 {
        assert(x + name =~= x);
    } else {
        assert((x + name).len() == x.len() + name.len());
        assert((x + name)[x.len() + name.len() - 1] == name[name.len() - 1]);
        assert((x + name).drop_last() =~= x + name.drop_last());
        lemma_last_slash_append(x, name.drop_last());
    }
}

/// Taking the parent of a joined path gives back the directory it was joined
/// under, for any nonempty directory path and any slash-free name.
pub proof fn lemma_parent_of_join(parent: Seq<char>, name: Seq<char>)
    requires
        forall|i: int| 0 <= i < name.len() ==> name[i] != '/',
        parent.len() > 0,
    ensures
        parent_seq(join_seq(parent, name)) == parent,
{
    if parent == root_path() {
        lemma_last_slash_append(root_path(), name);
        assert(last_slash(root_path()) == 0);
        assert(root_path() + name =~= join_seq(parent, name));
        assert(parent_seq(join_seq(parent, name)) == root_path());
    } else {
        let x = parent + root_path();
        lemma_last_slash_append(x, name);
        assert(x[x.len() - 1] == '/');
        assert(last_slash(x) == parent.len());
        assert(join_seq(parent, name) =~= x + name);
        assert(last_slash(join_seq(parent, name)) == parent.len());
        assert(join_seq(parent, name).take(parent.len() as int) =~= parent);
    }
}

/// Taking the name component of a joined path gives back the joined name,
/// for any nonempty directory path and any slash-free name.
pub proof fn lemma_name_of_join(parent: Seq<char>, name: Seq<char>)
    requires
        forall|i: int| 0 <= i < name.len() ==> name[i] != '/',
        parent.len() > 0,
    ensures
        name_seq(join_seq(parent, name)) == name,
{
    if parent == root_path() {
        lemma_last_slash_append(root_path(), name);
        assert(last_slash(root_path()) == 0);
        assert(root_path() + name =~= join_seq(parent, name));
        assert(join_seq(parent, name).skip(1) =~= name);
    } else {
        let x = parent + root_path();
        lemma_last_slash_append(x, name);
        assert(x[x.len() - 1] == '/');
        assert(last_slash(x) == parent.len());
        assert(join_seq(parent, name) =~= x + name);
        assert(join_seq(parent, name).skip(parent.len() + 1 as int) =~= name);
    }
}

/// Character-by-character string equality, decided against the string views.
pub fn str_eq(a: &str, b: &str) -> (r: bool)
    ensures
        r == (a@ == b@),
{
    let alen = a.unicode_len();
    let blen = b.unicode_len();
    if alen != blen {
        return false;
    }
    let mut i: usize = 0;
    while i < alen
        invariant
            alen == a@.len(),
            blen == b@.len(),
            alen == blen,
            i <= alen,
            forall|j: int| 0 <= j < i ==> a@[j] == b@[j],
        decreases alen - i,
    {
        if a.get_char(i) != b.get_char(i) {
            return false;
        }
        i = i + 1;
    }
    proof {
        assert(a@ =~= b@);
    }
    true
}

/// The root path `/` as an owned string.
pub fn root_string() -> (r: String)
    ensures
        r@ == root_path(),
{
    proof {
        reveal_strlit("/");
    }
    let r = String::from_str("/");
    proof {
        assert(r@ =~= root_path());
    }
    r
}

/// Index of the last `/` in `p`, or `None` when `p` holds none.
pub fn last_slash_idx(p: &str) -> (r: Option<usize>)
    ensures
        match r {
            Some(i) => last_slash(p@) == i,
            None => last_slash(p@) == -1,
        },
{
    let len = p.unicode_len();
    let mut i: usize = len;
    proof {
        assert(p@.take(len as int) =~= p@);
    }
    while 0 < i
        invariant
            i <= len,
            len == p@.len(),
            last_slash(p@) == last_slash(p@.take(i as int)),
        decreases i,
    {
        let c = p.get_char(i - 1);
        proof {
            assert(p@.take(i as int).len() == i);
            assert(p@.take(i as int)[i - 1] == p@[i - 1]);
        }
        if c == '/' {
            return Some(i - 1);
        }
        proof {
            assert(p@.take(i as int).drop_last() =~= p@.take(i as int - 1));
        }
        i = i - 1;
    }
    proof {
        assert(p@.take(0) =~= Seq::<char>::empty());
    }
    None
}

/// The parent of `p`, as `parent_seq` gives it.
pub fn parent_of(p: &str) -> (r: String)
    ensures
        r@ == parent_seq(p@),
{
    proof {
        lemma_last_slash_range(p@);
    }
    match last_slash_idx(p) {
        Some(i) => {
            if i > 0 {
                let s = p.substring_char(0, i);
                proof {
                    assert(p@.subrange(0, i as int) =~= p@.take(i as int));
                }
                String::from_str(s)
            } else {
                root_string()
            }
        },
        None => root_string(),
    }
}

/// The final name component of `p`, as `name_seq` gives it.
pub fn name_of(p: &str) -> (r: String)
    ensures
        r@ == name_seq(p@),
{
    let len = p.unicode_len();
    proof {
        lemma_last_slash_range(p@);
    }
    match last_slash_idx(p) {
        Some(i) => {
            let s = p.substring_char(i + 1, len);
            proof {
                assert(p@.subrange(i + 1, len as int) =~= p@.skip(i + 1));
            }
            String::from_str(s)
        },
        None => {
            let s = p.substring_char(0, len);
            proof {
                assert(p@.subrange(0, len as int) =~= p@.skip(0));
            }
            String::from_str(s)
        },
    }
}

/// `parent` joined with `name`, as `join_seq` gives it.
pub fn join_path(parent: &str, name: &str) -> (r: String)
    ensures
        r@ == join_seq(parent@, name@),
{
    proof {
        reveal_strlit("/");
        assert("/"@ =~= root_path());
    }
    let mut r = root_string();
    if !str_eq(parent, "/") {
        r = String::from_str(parent);
        r.append("/");
        proof {
            assert(r@ =~= parent@ + root_path());
        }
    }
    r.append(name);
    r
}

} // verus!
