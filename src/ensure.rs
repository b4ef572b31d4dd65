//! Making sure that a directory and all its ancestors exist in the root tree.

use virtual_fs::TmpFileSystem;
use vstd::prelude::*;
use crate::mapping::SetupError;
use crate::path::{is_normal_abs, is_parent, is_prefix, parent_of, root_path};
use crate::tree::{entry_exists, make_dir};

verus! {

/// Every element is a leading part of `p` in normal form.
pub open spec fn all_leading_parts(v: Seq<String>, p: Seq<char>) -> bool {
    forall|i: int| 0 <= i < v.len() ==> is_prefix(#[trigger] v[i]@, p) && is_normal_abs(v[i]@)
}

proof fn lemma_parent_is_prefix(q: Seq<char>, c: Seq<char>, p: Seq<char>)
    requires
        is_parent(q, c),
        is_prefix(c, p),
        is_normal_abs(c),
    ensures
        is_prefix(q, p),
{
    if q == root_path() {
        assert(c[0] == '/');
        assert(p[0] == c[0]);
        assert(q =~= p.subrange(0, 1));
    } else {
        assert(q =~= p.subrange(0, q.len() as int)) by {
            assert(q =~= c.subrange(0, q.len() as int));
        }
    }
}

/// Each element after the first is a child of the one before it.
pub open spec fn is_descent(v: Seq<String>) -> bool {
    forall|k: int| 0 <= k < v.len() - 1 ==> is_parent(#[trigger] v[k]@, v[k + 1]@)
}

/// Creates `path` and each of its missing ancestors, top-down.
///
/// Walks up from `path` until an existing entry (or the root) is found,
/// then creates the missing directories from the top; an entry found
/// present ends the walk and is left alone. On success the result lists
/// the directories created, in the order they were created: each the
/// parent of the next, the last being `path` itself. A failure names the
/// directory that could not be created, which is `path` or one of its
/// ancestors.
pub fn create_dir_all(fs: &TmpFileSystem, path: &str) -> (r: Result<Vec<String>, SetupError>)
    requires
        is_normal_abs(path@),
    ensures
        r matches Ok(made) ==> (made@.len() == 0 || made@.last()@ == path@) && is_descent(made@),
        r matches Err(e) ==> e matches SetupError::DirectoryCreation { path: d } && is_prefix(d@, path@)
            && is_normal_abs(d@),
{
    // `missing` runs from `path` upwards, each the child of the next.
    let mut missing: Vec<String> = Vec::new();
    let mut cur = String::from_str(path);
    assert(cur@ =~= path@.subrange(0, cur@.len() as int));
    loop
        invariant_except_break
            missing@.len() > 0 ==> is_parent(cur@, missing@.last()@),
        invariant
            is_normal_abs(cur@),
            is_prefix(cur@, path@),
            all_leading_parts(missing@, path@),
            missing@.len() == 0 ==> cur@ == path@,
            missing@.len() > 0 ==> missing@[0]@ == path@,
            forall|k: int| 0 <= k < missing@.len() - 1 ==> is_parent(#[trigger] missing@[k + 1]@, missing@[k]@),
        decreases cur@.len(),
    {
        if entry_exists(fs, cur.as_str()) {
            break;
        }
        let up = parent_of(cur.as_str());
        let ghost old_missing = missing@;
        match up {
            None => {
                missing.push(cur);
                assert forall|k: int| 0 <= k < missing@.len() - 1 implies is_parent(#[trigger] missing@[k + 1]@, missing@[k]@) by {
                    if k < old_missing.len() - 1 {
                        assert(missing@[k + 1] == old_missing[k + 1]);
                    }
                }
                break;
            },
            Some(q) => {
                proof {
                    lemma_parent_is_prefix(q@, cur@, path@);
                }
                missing.push(cur);
                assert forall|k: int| 0 <= k < missing@.len() - 1 implies is_parent(#[trigger] missing@[k + 1]@, missing@[k]@) by {
                    if k < old_missing.len() - 1 {
                        assert(missing@[k + 1] == old_missing[k + 1]);
                    }
                }
                cur = q;
            },
        }
    }
    let n = missing.len();
    let mut made: Vec<String> = Vec::new();
    let mut i: usize = n;
    while i > 0
        invariant
            n == missing@.len(),
            i <= n,
            made@.len() == n - i,
            forall|k: int| 0 <= k < made@.len() ==> #[trigger] made@[k] == missing@[n - 1 - k],
            all_leading_parts(missing@, path@),
        decreases i,
    {
        i = i - 1;
        match make_dir(fs, missing[i].as_str()) {
            Ok(()) => {},
            Err(_) => {
                let d = missing[i].clone();
                return Err(SetupError::DirectoryCreation { path: d });
            },
        }
        made.push(missing[i].clone());
    }
    assert forall|k: int| 0 <= k < made@.len() - 1 implies is_parent(#[trigger] made@[k]@, made@[k + 1]@) by {
        assert(made@[k] == missing@[n - 1 - k]);
        assert(made@[k + 1] == missing@[(n - 2 - k) + 1 - 1]);
        assert(is_parent(missing@[(n - 2 - k) + 1]@, missing@[n - 2 - k]@));
    }
    Ok(made)
}

} // verus!
