//! Mounting the mapped host directories into the root tree, and the list of
//! guest directories that are preopened as a result.

use virtual_fs::TmpFileSystem;
use vstd::prelude::*;
use crate::ensure::create_dir_all;
use crate::mapping::{MappedDirectory, SetupError};
use crate::path::{
    apply_relative_path_mounting_hack, is_absolute, is_normal_abs, is_parent, is_prefix, parent_of,
    remapped, root_path, root_string, rooted,
};
use crate::tree::{canonical_guest, canonicalize_guest, merge_entries, mount_at};

verus! {

/// The views of a sequence of strings.
pub open spec fn views(v: Seq<String>) -> Seq<Seq<char>> {
    v.map_values(|s: String| s@)
}

/// The guest path of a mapping once a relative one is read from the root.
pub open spec fn resolved_guest(g: Seq<char>) -> Seq<char> {
    if is_absolute(g) {
        g
    } else {
        remapped(g)
    }
}

/// Where in the root tree a mapping with guest path `g` is mounted (the
/// empty sequence where its guest path has no canonical form).
pub open spec fn mount_target(g: Seq<char>) -> Seq<char> {
    match canonical_guest(resolved_guest(g)) {
        Some(t) => t,
        None => Seq::empty(),
    }
}

/// The preopens that mounting `dirs` in order registers: the target of each
/// mapping that is not the root, in the order of the mappings, each target
/// once. A mapping onto the root is merged into it and adds none.
pub open spec fn planned_preopens(dirs: Seq<MappedDirectory>) -> Seq<Seq<char>>
    decreases dirs.len(),
{
    if dirs.len() == 0 {
        seq![]
    } else {
        let t = mount_target(dirs.last().guest@);
        let before = planned_preopens(dirs.drop_last());
        if t == root_path() || before.contains(t) {
            before
        } else {
            before.push(t)
        }
    }
}

/// Some mapping of `dirs` is mounted onto the root.
pub open spec fn claims_root(dirs: Seq<MappedDirectory>) -> bool {
    exists|i: int| 0 <= i < dirs.len() && mount_target((#[trigger] dirs[i]).guest@) == root_path()
}

/// What is done for one mapping, given its canonical target.
pub enum MountStep {
    /// The host directory's entries are merged into the root.
    MergeIntoRoot,
    /// The ancestors of `target` are created, up to `parent`, and the host
    /// directory is mounted at `target`, which is then preopened.
    Mount { parent: String, target: String },
}

/// `s` is the step for canonical target `t`.
pub open spec fn step_for(s: MountStep, t: Seq<char>) -> bool {
    match s {
        MountStep::MergeIntoRoot => t == root_path(),
        MountStep::Mount { parent, target } => t != root_path() && target@ == t && is_parent(parent@, t),
    }
}

/// Decides what is done for a mapping with canonical target `target`: the
/// root is merged into, any other target is mounted below its parent.
pub fn mount_step(target: &str) -> (r: MountStep)
    requires
        is_normal_abs(target@),
    ensures
        step_for(r, target@),
{
    match parent_of(target) {
        None => MountStep::MergeIntoRoot,
        Some(parent) => MountStep::Mount { parent, target: String::from_str(target) },
    }
}

/// What mounting the mappings produced.
pub struct MountPlan {
    /// The guest directories mounted below the root, to be preopened.
    pub preopens: Vec<String>,
    /// Whether a mapping was merged into the root itself.
    pub root_claimed: bool,
    /// The step taken for each mapping, in order.
    pub steps: Vec<MountStep>,
}

/// Tests whether `s` is among `v`.
fn listed(v: &Vec<String>, s: &String) -> (r: bool)
    ensures
        r == views(v@).contains(s@),
{
    let mut i: usize = 0;
    while i < v.len()
        invariant
            i <= v@.len(),
            forall|k: int| 0 <= k < i ==> v@[k]@ != s@,
        decreases v@.len() - i,
    {
        if v[i] == *s {
            assert(views(v@)[i as int] == s@);
            return true;
        }
        i = i + 1;
    }
    assert(!views(v@).contains(s@)) by {
        if views(v@).contains(s@) {
            let k = choose|k: int| 0 <= k < views(v@).len() && views(v@)[k] == s@;
            assert(v@[k]@ == s@);
        }
    }
    false
}

proof fn lemma_prefix_of_parent(d: Seq<char>, q: Seq<char>, p: Seq<char>)
    requires
        is_prefix(d, q),
        is_normal_abs(d),
        is_parent(q, p),
        is_normal_abs(p),
    ensures
        is_prefix(d, p),
        d.len() < p.len(),
{
    if q == root_path() {
        assert(d.len() == 1);
        assert(d =~= p.subrange(0, 1));
    } else {
        assert(d =~= p.subrange(0, d.len() as int)) by {
            assert(d =~= q.subrange(0, d.len() as int));
            assert(q =~= p.subrange(0, q.len() as int));
        }
    }
}

/// Mounts each mapping into `root_fs`, in order.
///
/// The guest path is read from the root when relative, then brought to
/// canonical form; `mount_step` decides what is done with it. A mapping
/// onto the root merges the entries of its host directory into the root.
/// Any other creates the ancestors of its target, mounts the host
/// directory there and records the target as a preopen, once. The host
/// paths are taken as already resolved. The first failure stops the work;
/// what was mounted before it stays.
pub fn build_directory_mappings(
    root_fs: &TmpFileSystem,
    host_fs: &virtual_fs::host_fs::FileSystem,
    mapped_dirs: &[MappedDirectory],
) -> (r: Result<MountPlan, SetupError>)
    ensures
        mapped_dirs@.len() == 0 ==> (r matches Ok(plan) && plan.preopens@.len() == 0 && !plan.root_claimed
            && plan.steps@.len() == 0),
        r matches Ok(plan) ==> views(plan.preopens@) == planned_preopens(mapped_dirs@)
            && plan.root_claimed == claims_root(mapped_dirs@)
            && plan.steps@.len() == mapped_dirs@.len()
            && forall|i: int| 0 <= i < mapped_dirs@.len()
                ==> canonical_guest(resolved_guest((#[trigger] mapped_dirs@[i]).guest@)) is Some
                && step_for(plan.steps@[i], mount_target(mapped_dirs@[i].guest@)),
        r matches Err(SetupError::PathResolution { path }) ==> exists|i: int|
            0 <= i < mapped_dirs@.len() && path@ == resolved_guest((#[trigger] mapped_dirs@[i]).guest@),
        r matches Err(SetupError::Mount { host, guest }) ==> exists|i: int|
            0 <= i < mapped_dirs@.len() && host@ == (#[trigger] mapped_dirs@[i]).host@
                && guest@ == mount_target(mapped_dirs@[i].guest@),
        r matches Err(SetupError::DirectoryCreation { path }) ==> exists|i: int|
            0 <= i < mapped_dirs@.len() && mount_target((#[trigger] mapped_dirs@[i]).guest@) != root_path()
                && is_normal_abs(path@) && is_prefix(path@, mount_target(mapped_dirs@[i].guest@))
                && path@.len() < mount_target(mapped_dirs@[i].guest@).len(),
{
    let n = mapped_dirs.len();
    let mut preopens: Vec<String> = Vec::new();
    let mut steps: Vec<MountStep> = Vec::new();
    let mut root_claimed = false;
    let mut i: usize = 0;
    while i < n
        invariant
            n == mapped_dirs@.len(),
            i <= n,
            views(preopens@) == planned_preopens(mapped_dirs@.subrange(0, i as int)),
            root_claimed == claims_root(mapped_dirs@.subrange(0, i as int)),
            steps@.len() == i,
            forall|k: int| 0 <= k < i ==> canonical_guest(resolved_guest((#[trigger] mapped_dirs@[k]).guest@)) is Some
                && step_for(steps@[k], mount_target(mapped_dirs@[k].guest@)),
        decreases n - i,
    {
        let dir = &mapped_dirs[i];
        let ghost done = mapped_dirs@.subrange(0, i as int);
        let ghost next = mapped_dirs@.subrange(0, i + 1);
        assert(next.drop_last() =~= done);
        assert(next.last() == mapped_dirs@[i as int]);
        let guest = apply_relative_path_mounting_hack(dir.guest.as_str());
        let target = match canonicalize_guest(root_fs, guest.as_str()) {
            Ok(t) => t,
            Err(_) => {
                return Err(SetupError::PathResolution { path: guest });
            },
        };
        assert(target@ == mount_target(mapped_dirs@[i as int].guest@));
        let step = mount_step(target.as_str());
        match &step {
            MountStep::MergeIntoRoot => {
                match merge_entries(root_fs, target.as_str(), host_fs, dir.host.as_str()) {
                    Ok(()) => {},
                    Err(_) => {
                        return Err(SetupError::Mount { host: dir.host.clone(), guest: target });
                    },
                }
                root_claimed = true;
                assert(claims_root(next)) by {
                    assert(next[i as int] == mapped_dirs@[i as int]);
                }
            },
            MountStep::Mount { parent, target: t } => {
                match create_dir_all(root_fs, parent.as_str()) {
                    Ok(_) => {},
                    Err(e) => {
                        proof {
                            let d = e->DirectoryCreation_path;
                            lemma_prefix_of_parent(d@, parent@, target@);
                        }
                        return Err(e);
                    },
                }
                match mount_at(root_fs, t.as_str(), host_fs, dir.host.as_str()) {
                    Ok(()) => {},
                    Err(_) => {
                        return Err(SetupError::Mount { host: dir.host.clone(), guest: t.clone() });
                    },
                }
                if !listed(&preopens, t) {
                    preopens.push(t.clone());
                    assert(views(preopens@) =~= planned_preopens(done).push(target@));
                }
                assert(claims_root(next) == claims_root(done)) by {
                    if claims_root(next) {
                        let j = choose|j: int| 0 <= j < next.len() && mount_target((#[trigger] next[j]).guest@) == root_path();
                        assert(j < i);
                        assert(done[j] == next[j]);
                    }
                    if claims_root(done) {
                        let j = choose|j: int| 0 <= j < done.len() && mount_target((#[trigger] done[j]).guest@) == root_path();
                        assert(done[j] == next[j]);
                    }
                }
            },
        }
        steps.push(step);
        i = i + 1;
    }
    assert(mapped_dirs@.subrange(0, n as int) =~= mapped_dirs@);
    Ok(MountPlan { preopens, root_claimed, steps })
}

/// How often `x` occurs in `s`.
pub open spec fn occurrences(s: Seq<Seq<char>>, x: Seq<char>) -> nat
    decreases s.len(),
{
    if s.len() == 0 {
        0
    } else {
        occurrences(s.drop_last(), x) + if s.last() == x {
            1nat
        } else {
            0nat
        }
    }
}

/// Every preopen the composition registers: the root, which is always
/// preopened, after those of the mounts below it.
pub open spec fn full_preopens(dirs: Seq<MappedDirectory>) -> Seq<Seq<char>> {
    planned_preopens(dirs).push(root_path())
}

impl MountPlan {
    /// The guest directories to preopen: the mount points, then the root.
    pub fn all_preopens(&self) -> (r: Vec<String>)
        ensures
            views(r@) == views(self.preopens@).push(root_path()),
    {
        let mut r: Vec<String> = Vec::new();
        let mut i: usize = 0;
        while i < self.preopens.len()
            invariant
                i <= self.preopens@.len(),
                r@.len() == i,
                views(r@) == views(self.preopens@.subrange(0, i as int)),
            decreases self.preopens@.len() - i,
        {
            let ghost before = r@;
            r.push(self.preopens[i].clone());
            assert(r@ == before.push(self.preopens@[i as int]));
            assert forall|k: int| 0 <= k < i + 1 implies views(r@)[k] == views(
                self.preopens@.subrange(0, i + 1),
            )[k] by {
                if k < i {
                    assert(views(before)[k] == views(self.preopens@.subrange(0, i as int))[k]);
                }
            }
            assert(views(r@) =~= views(self.preopens@.subrange(0, i + 1)));
            i = i + 1;
        }
        assert(self.preopens@.subrange(0, i as int) =~= self.preopens@);
        r.push(root_string());
        assert(views(r@) =~= views(self.preopens@).push(root_path()));
        r
    }

    /// Whether the guest's current directory still has to be mapped to the
    /// root: only when no mapping was mounted onto the root.
    pub fn maps_current_dir(&self) -> (r: bool)
        ensures
            r == !self.root_claimed,
    {
        !self.root_claimed
    }
}

/// A mapping onto the root adds no preopen: the preopens after it are
/// those before it, and the root is never among the planned ones.
pub proof fn lemma_root_mapping_adds_no_preopen(dirs: Seq<MappedDirectory>, d: MappedDirectory)
    requires
        mount_target(d.guest@) == root_path(),
    ensures
        planned_preopens(dirs.push(d)) == planned_preopens(dirs),
        claims_root(dirs.push(d)),
        occurrences(planned_preopens(dirs.push(d)), root_path()) == 0,
{
    assert(dirs.push(d).drop_last() =~= dirs);
    assert(dirs.push(d)[dirs.len() as int] == d);
    lemma_root_never_planned(dirs);
}

proof fn lemma_root_never_planned(dirs: Seq<MappedDirectory>)
    ensures
        occurrences(planned_preopens(dirs), root_path()) == 0,
    decreases dirs.len(),
{
    if dirs.len() > 0 {
        lemma_root_never_planned(dirs.drop_last());
        let before = planned_preopens(dirs.drop_last());
        let t = mount_target(dirs.last().guest@);
        if t != root_path() && !before.contains(t) {
            assert(before.push(t).drop_last() =~= before);
        }
    }
}

proof fn lemma_occurs_iff_contains(s: Seq<Seq<char>>, x: Seq<char>)
    ensures
        (occurrences(s, x) > 0) == s.contains(x),
    decreases s.len(),
{
    if s.len() > 0 {
        let front = s.drop_last();
        lemma_occurs_iff_contains(front, x);
        if front.contains(x) {
            let k = choose|k: int| 0 <= k < front.len() && front[k] == x;
            assert(s[k] == x);
        }
        if s.contains(x) && s.last() != x {
            let k = choose|k: int| 0 <= k < s.len() && s[k] == x;
            assert(front[k] == x);
        }
        if s.last() == x {
            assert(s[s.len() - 1] == x);
        }
    }
}

/// A relative guest path other than "." is mounted where "/" followed by
/// it is, so the two take the same step (see `lemma_step_determined`); "."
/// is read as the root itself, as is "/".
pub proof fn lemma_relative_guest_is_rooted(p: Seq<char>)
    requires
        !is_absolute(p),
    ensures
        p != seq!['.'] ==> remapped(p) == rooted(p) && mount_target(p) == mount_target(rooted(p)),
        p == seq!['.'] ==> remapped(p) == root_path() && mount_target(p) == mount_target(root_path()),
{
    assert(is_absolute(rooted(p)));
    assert(is_absolute(root_path()));
}

proof fn lemma_parent_unique(q1: Seq<char>, q2: Seq<char>, p: Seq<char>)
    requires
        is_parent(q1, p),
        is_parent(q2, p),
    ensures
        q1 == q2,
{
    if q1 != root_path() && q2 != root_path() {
        if q1.len() < q2.len() {
            assert(p[q2.len() as int] == '/');
        } else if q2.len() < q1.len() {
            assert(p[q1.len() as int] == '/');
        } else {
            assert(q1 =~= q2) by {
                assert(q1 =~= p.subrange(0, q1.len() as int));
                assert(q2 =~= p.subrange(0, q2.len() as int));
            }
        }
    } else if q1 == root_path() && q2 != root_path() {
        if q2.len() == 1 {
            assert(q2 =~= root_path());
        }
        assert(p[q2.len() as int] == '/');
    } else if q2 == root_path() && q1 != root_path() {
        if q1.len() == 1 {
            assert(q1 =~= root_path());
        }
        assert(p[q1.len() as int] == '/');
    }
}

/// The step for a target is fixed by the target: two steps for the same
/// target agree in kind, parent and mount point.
pub proof fn lemma_step_determined(s1: MountStep, s2: MountStep, t: Seq<char>)
    requires
        step_for(s1, t),
        step_for(s2, t),
    ensures
        s1 is MergeIntoRoot <==> s2 is MergeIntoRoot,
        s1 matches MountStep::Mount { parent: p1, target: t1 } ==> s2 matches MountStep::Mount {
            parent: p2,
            target: t2,
        } && p1@ == p2@ && t1@ == t2@,
{
    if let MountStep::Mount { parent: p1, target: _ } = s1 {
        if let MountStep::Mount { parent: p2, target: _ } = s2 {
            lemma_parent_unique(p1@, p2@, t);
        }
    }
}

proof fn lemma_planned_count(dirs: Seq<MappedDirectory>, t: Seq<char>)
    requires
        t != root_path(),
    ensures
        occurrences(planned_preopens(dirs), t) == if exists|i: int|
            0 <= i < dirs.len() && mount_target((#[trigger] dirs[i]).guest@) == t {
            1nat
        } else {
            0nat
        },
    decreases dirs.len(),
{
    if dirs.len() > 0 {
        let front = dirs.drop_last();
        lemma_planned_count(front, t);
        let before = planned_preopens(front);
        let u = mount_target(dirs.last().guest@);
        let last = dirs.len() - 1;
        assert(dirs[last] == dirs.last());
        lemma_occurs_iff_contains(before, u);
        lemma_occurs_iff_contains(before, t);
        if u != root_path() && !before.contains(u) {
            assert(before.push(u).drop_last() =~= before);
        }
        let in_front = exists|k: int| 0 <= k < front.len() && mount_target((#[trigger] front[k]).guest@) == t;
        let in_all = exists|k: int| 0 <= k < dirs.len() && mount_target((#[trigger] dirs[k]).guest@) == t;
        if in_front {
            let k = choose|k: int| 0 <= k < front.len() && mount_target((#[trigger] front[k]).guest@) == t;
            assert(dirs[k] == front[k]);
        }
        if in_all && u != t {
            let k = choose|k: int| 0 <= k < dirs.len() && mount_target((#[trigger] dirs[k]).guest@) == t;
            assert(k < last);
            assert(dirs[k] == front[k]);
        }
    }
}

/// Each mapping that is not onto the root gives its target exactly once
/// among the preopens, however many mappings share it; the root is
/// preopened exactly once however many mappings are merged into it.
pub proof fn lemma_preopens_complete(dirs: Seq<MappedDirectory>)
    ensures
        forall|i: int|
            0 <= i < dirs.len() && mount_target((#[trigger] dirs[i]).guest@) != root_path()
                ==> occurrences(full_preopens(dirs), mount_target(dirs[i].guest@)) == 1,
        occurrences(full_preopens(dirs), root_path()) == 1,
{
    let planned = planned_preopens(dirs);
    assert(planned.push(root_path()).drop_last() =~= planned);
    lemma_root_never_planned(dirs);
    assert forall|i: int|
        0 <= i < dirs.len() && mount_target((#[trigger] dirs[i]).guest@) != root_path()
            implies occurrences(full_preopens(dirs), mount_target(dirs[i].guest@)) == 1 by {
        lemma_planned_count(dirs, mount_target(dirs[i].guest@));
    }
}

} // verus!
