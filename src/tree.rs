//! The in-memory root tree of virtual-fs and the host filesystem, as the
//! composition uses them. Each function here makes one call into virtual-fs
//! and is believed, not proved.

use std::sync::Arc;
use virtual_fs::{FileSystem, FsError, TmpFileSystem};
use vstd::prelude::*;
use crate::path::{is_absolute, is_normal_abs, root_path};

verus! {

#[verifier::external_type_specification]
#[verifier::external_body]
pub struct ExTmpFileSystem(TmpFileSystem);

#[verifier::external_type_specification]
#[verifier::external_body]
pub struct ExHostFileSystem(virtual_fs::host_fs::FileSystem);

#[verifier::external_type_specification]
#[verifier::external_body]
pub struct ExFsError(FsError);

/// The parts of `p` between slashes, in order, empty ones included.
pub open spec fn segments(p: Seq<char>) -> Seq<Seq<char>>
    decreases p.len(),
{
    if p.len() == 0 {
        seq![Seq::empty()]
    } else {
        let front = segments(p.drop_last());
        if p.last() == '/' {
            front.push(Seq::empty())
        } else {
            front.update(front.len() - 1, front.last().push(p.last()))
        }
    }
}

/// Applies `segs` to the stack of names `names`: an empty part and "." are
/// skipped, ".." drops the last name (and fails where there is none), any
/// other part is pushed.
pub open spec fn resolve(names: Seq<Seq<char>>, segs: Seq<Seq<char>>) -> Option<Seq<Seq<char>>>
    decreases segs.len(),
{
    if segs.len() == 0 {
        Some(names)
    } else {
        let s = segs[0];
        let rest = segs.drop_first();
        if s.len() == 0 || s == seq!['.'] {
            resolve(names, rest)
        } else if s == seq!['.', '.'] {
            if names.len() == 0 {
                None
            } else {
                resolve(names.drop_last(), rest)
            }
        } else {
            resolve(names.push(s), rest)
        }
    }
}

/// "/" before each name.
pub open spec fn joined(names: Seq<Seq<char>>) -> Seq<char>
    decreases names.len(),
{
    if names.len() == 0 {
        Seq::empty()
    } else {
        joined(names.drop_last()) + seq!['/'] + names.last()
    }
}

/// The canonical form of a guest path: none for a relative path or one
/// whose ".." climbs above the root; else the root followed by the names
/// that remain.
pub open spec fn canonical_guest(p: Seq<char>) -> Option<Seq<char>> {
    if !is_absolute(p) {
        None
    } else {
        match resolve(Seq::empty(), segments(p)) {
            Some(names) => Some(if names.len() == 0 {
                root_path()
            } else {
                joined(names)
            }),
            None => None,
        }
    }
}

/// Relies on `TmpFileSystem::canonicalize_unchecked`, which rebuilds the
/// path from "/" and the components of `p` (skipping ".", popping on
/// "..") and does not look at the tree. It fails on a relative path and on
/// a ".." above the root; it can also fail on a poisoned lock, so success
/// is not promised.
#[verifier::external_body]
pub(crate) fn canonicalize_guest(fs: &TmpFileSystem, p: &str) -> (r: Result<String, FsError>)
    ensures
        r is Ok ==> canonical_guest(p@) == Some(r->Ok_0@) && is_normal_abs(r->Ok_0@),
        canonical_guest(p@) is None ==> r is Err,
{
    fs.canonicalize_unchecked(std::path::Path::new(p)).map(|b| b.to_string_lossy().into_owned())
}

/// Relies on `FileSystem::metadata` of `TmpFileSystem`: whether the path
/// names anything in the tree or in what is mounted in it.
#[verifier::external_body]
pub(crate) fn entry_exists(fs: &TmpFileSystem, p: &str) -> (r: bool) {
    fs.metadata(std::path::Path::new(p)).is_ok()
}

/// Relies on `FileSystem::create_dir` of `TmpFileSystem`.
#[verifier::external_body]
pub(crate) fn make_dir(fs: &TmpFileSystem, p: &str) -> (r: Result<(), FsError>) {
    fs.create_dir(std::path::Path::new(p))
}

/// Relies on `TmpFileSystem::mount`: binds `guest` to `host` within `host_fs`.
#[verifier::external_body]
pub(crate) fn mount_at(
    fs: &TmpFileSystem,
    guest: &str,
    host_fs: &virtual_fs::host_fs::FileSystem,
    host: &str,
) -> (r: Result<(), FsError>) {
    let other: Arc<dyn FileSystem + Send + Sync> = Arc::new(host_fs.clone());
    fs.mount(std::path::PathBuf::from(guest), &other, std::path::PathBuf::from(host))
}

/// Relies on `TmpFileSystem::mount_directory_entries`: places each entry of
/// `host` within `host_fs` directly under `target`. Only the root is taken:
/// on a target missing from the tree that call waits on its own lock.
#[verifier::external_body]
pub(crate) fn merge_entries(
    fs: &TmpFileSystem,
    target: &str,
    host_fs: &virtual_fs::host_fs::FileSystem,
    host: &str,
) -> (r: Result<(), FsError>)
    requires
        target@ == root_path(),
{
    let other: Arc<dyn FileSystem + Send + Sync> = Arc::new(host_fs.clone());
    fs.mount_directory_entries(std::path::Path::new(target), &other, std::path::Path::new(host))
}

} // verus!
