//! Guest paths as character sequences, and the few operations on them that
//! the composition needs.

use vstd::prelude::*;

verus! {

/// A path is absolute when it starts at the root.
pub open spec fn is_absolute(p: Seq<char>) -> bool {
    p.len() > 0 && p[0] == '/'
}

/// The root of the guest's namespace.
pub open spec fn root_path() -> Seq<char> {
    seq!['/']
}

/// A relative path read from the root: "/" followed by the path.
pub open spec fn rooted(p: Seq<char>) -> Seq<char> {
    seq!['/'] + p
}

/// Where a relative guest path is mounted: the guest's current directory
/// is the root when it starts, so "." is the root and any other relative
/// path hangs directly under it.
pub open spec fn remapped(p: Seq<char>) -> Seq<char> {
    if p == seq!['.'] {
        root_path()
    } else {
        rooted(p)
    }
}

/// A path in the normal form of the root tree: absolute, its components
/// separated by single slashes, and no trailing slash unless it is the root.
pub open spec fn is_normal_abs(p: Seq<char>) -> bool {
    &&& is_absolute(p)
    &&& p.len() > 1 ==> p[p.len() - 1] != '/'
    &&& forall|i: int| 0 <= i < p.len() - 1 ==> !(#[trigger] p[i] == '/' && p[i + 1] == '/')
}

/// `a` is a leading part of `p`.
pub open spec fn is_prefix(a: Seq<char>, p: Seq<char>) -> bool {
    a.len() <= p.len() && a == p.subrange(0, a.len() as int)
}

/// `q` is the parent of the normal path `p`: the part of `p` before its last
/// slash, or the root when that slash is the first character.
pub open spec fn is_parent(q: Seq<char>, p: Seq<char>) -> bool {
    &&& q.len() < p.len()
    &&& is_normal_abs(q)
    &&& is_prefix(q, p) || q == root_path()
    &&& q == root_path() || p[q.len() as int] == '/'
    &&& forall|j: int| (if q == root_path() { 0 } else { q.len() as int }) < j < p.len() ==> #[trigger] p[j] != '/'
}

/// Tests whether a path starts at the root.
pub fn is_absolute_path(p: &str) -> (r: bool)
    ensures
        r == is_absolute(p@),
{
    p.unicode_len() > 0 && p.get_char(0) == '/'
}

/// Tests whether a path is the root itself.
pub fn is_root_path(p: &str) -> (r: bool)
    ensures
        r == (p@ == root_path()),
{
    if p.unicode_len() == 1 && p.get_char(0) == '/' {
        assert(p@ =~= root_path());
        true
    } else {
        false
    }
}

/// The root as an owned string.
pub fn root_string() -> (r: String)
    ensures
        r@ == root_path(),
{
    let r = String::from_str("/");
    proof {
        reveal_strlit("/");
    }
    r
}

/// "/" followed by the given path.
pub fn rooted_path(p: &str) -> (r: String)
    ensures
        r@ == rooted(p@),
{
    let mut r = root_string();
    r.append(p);
    r
}

/// The parent of a normal absolute path; `None` for the root alone.
pub fn parent_of(p: &str) -> (r: Option<String>)
    requires
        is_normal_abs(p@),
    ensures
        r is None <==> p@ == root_path(),
        r is Some ==> is_parent(r->Some_0@, p@),
{
    let n = p.unicode_len();
    if n == 1 {
        assert(p@ =~= root_path());
        return None;
    }
    assert(p@ != root_path());
    let mut k: usize = n - 1;
    while k > 0 && p.get_char(k) != '/'
        invariant
            0 <= k < n,
            n == p@.len(),
            forall|j: int| k < j < n ==> #[trigger] p@[j] != '/',
        decreases k,
    {
        k = k - 1;
    }
    if k == 0 {
        let q = root_string();
        assert forall|j: int| 0 < j < p@.len() implies #[trigger] p@[j] != '/' by {
            if j == k as int {
            }
        }
        Some(q)
    } else {
        let q = p.substring_char(0, k);
        let r = String::from_str(q);
        assert(r@ =~= p@.subrange(0, k as int));
        assert(r@[r@.len() - 1] != '/') by {
            assert(p@[k as int] == '/');
            assert(!(p@[k - 1] == '/' && p@[k as int] == '/'));
        }
        assert forall|i: int| 0 <= i < r@.len() - 1 implies !(#[trigger] r@[i] == '/' && r@[i + 1] == '/') by {
            assert(!(p@[i] == '/' && p@[i + 1] == '/'));
        }
        Some(r)
    }
}

/// Turns a guest path into the absolute path it is mounted at: a relative
/// one is read from the root ("." being the root itself); an absolute one
/// is returned as it is.
pub fn apply_relative_path_mounting_hack(path: &str) -> (r: String)
    ensures
        r@ == if is_absolute(path@) {
            path@
        } else {
            remapped(path@)
        },
{
    if is_absolute_path(path) {
        String::from_str(path)
    } else if path.unicode_len() == 1 && path.get_char(0) == '.' {
        assert(path@ =~= seq!['.']);
        root_string()
    } else {
        assert(path@ != seq!['.']);
        rooted_path(path)
    }
}

} // verus!
