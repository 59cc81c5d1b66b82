//! Filesystem confinement for one isolated request: which host directories
//! are bind-mounted into the private root, the mounting itself, and the
//! chroot the worker performs once the mounts are in place.
use vstd::prelude::*;
use vstd::string::StringSliceAdditionalSpecFns;
use crate::error::Error;
use crate::pairmap::{spec_pair_map, unique_keys, upsert};
use crate::sys;

verus! {

/// Configuration of one request's filesystem view: the private rootfs path
/// and the host directories to bind-mount into it, as (source, target)
/// pairs with unique sources in insertion order.
#[derive(Clone)]
pub struct IsolationSetting {
    pub rootfs_path: String,
    pub mount_points: Vec<(String, String)>,
}

impl IsolationSetting {
    /// Each bind-mount source appears once: a second `add_bind_mount_point`
    /// for the same source replaces its target.
    pub open spec fn wf(&self) -> bool {
        unique_keys(self.mount_points@)
    }

    /// An empty setting: no rootfs path, no mount points.
    pub fn new() -> (r: IsolationSetting)
        ensures
            r.rootfs_path@ == Seq::<char>::empty(),
            r.mount_points@.len() == 0,
            r.wf(),
    {
        IsolationSetting { rootfs_path: String::new(), mount_points: Vec::new() }
    }

    /// Record that host directory `src` is to be bind-mounted at `target`
    /// under the private root; a source recorded before has its target
    /// replaced.
    pub fn add_bind_mount_point(self, src: &str, target: &str) -> (r: IsolationSetting)
        requires
            self.wf(),
        ensures
            r.wf(),
            r.rootfs_path == self.rootfs_path,
            r.mount_points@.len() >= 1,
            spec_pair_map(r.mount_points@) =~= spec_pair_map(self.mount_points@).insert(
                src@,
                target@,
            ),
    {
        IsolationSetting {
            rootfs_path: self.rootfs_path,
            mount_points: upsert(self.mount_points, src, target),
        }
    }

    /// The in-container mount target for one pair: the private root, a
    /// slash, and the configured relative target.
    pub open spec fn spec_target_path(&self, i: int) -> Seq<char> {
        self.rootfs_path@ + "/"@ + self.mount_points@[i].1@
    }

    /// Bind-mount every configured source whose host path is a directory
    /// onto its target under the private root, creating each target
    /// directory before mounting onto it; sources that are not directories
    /// are skipped silently, and a mount the kernel refuses is skipped
    /// without disturbing the remaining pairs. The report carries the
    /// observations along with the result: `mounted` is exactly the plan
    /// for the observed per-pair directory answers (`src_is_dir`), thinned
    /// by the observed per-pair mount outcomes (`mount_ok`) — so a pair
    /// whose source was not a directory contributes nothing, whatever the
    /// kernel does (see `lemma_plan_only_directories`).
    pub fn mount_all(self) -> (r: MountReport)
        ensures
            r.src_is_dir@.len() == self.mount_points@.len(),
            r.mount_ok@.len() == spec_mount_plan(
                self.rootfs_path@,
                self.mount_points.deep_view(),
                r.src_is_dir@,
            ).len(),
            r.mounted.deep_view() == spec_kept_targets(
                spec_mount_plan(
                    self.rootfs_path@,
                    self.mount_points.deep_view(),
                    r.src_is_dir@,
                ),
                r.mount_ok@,
            ),
    {
        let mut mounted: Vec<String> = Vec::new();
        let mut dirs: Vec<bool> = Vec::new();
        let mut oks: Vec<bool> = Vec::new();
        let n = self.mount_points.len();
        let mut i: usize = 0;
        proof {
            assert(self.mount_points.deep_view().take(0) =~= Seq::<(Seq<char>, Seq<char>)>::empty());
            assert(mounted.deep_view() =~~= spec_kept_targets(
                spec_mount_plan(self.rootfs_path@, self.mount_points.deep_view().take(0), dirs@),
                oks@,
            ));
        }
        while i < n
            invariant
                0 <= i <= n,
                n == self.mount_points@.len(),
                dirs@.len() == i,
                oks@.len() == spec_mount_plan(
                    self.rootfs_path@,
                    self.mount_points.deep_view().take(i as int),
                    dirs@,
                ).len(),
                mounted.deep_view() == spec_kept_targets(
                    spec_mount_plan(
                        self.rootfs_path@,
                        self.mount_points.deep_view().take(i as int),
                        dirs@,
                    ),
                    oks@,
                ),
            decreases n - i,
        {
            let src = &self.mount_points[i].0;
            let target = &self.mount_points[i].1;
            let mut mnt_target = self.rootfs_path.clone();
            mnt_target.append("/");
            mnt_target.append(target.as_str());
            let ghost pts = self.mount_points.deep_view();
            proof {
                assert(pts.take(i + 1).drop_last() =~= pts.take(i as int));
                assert(pts.take(i + 1).last() == pts[i as int]);
                assert(pts[i as int] == (self.mount_points@[i as int].0@,
                self.mount_points@[i as int].1@));
            }
            let ghost dirs0 = dirs@;
            let ghost oks0 = oks@;
            let ghost mounted0 = mounted.deep_view();
            let ghost plan0 = spec_mount_plan(self.rootfs_path@, pts.take(i as int), dirs0);
            if sys::path_is_dir(src.as_str()) {
                let mut mount_ok = false;
                match ensure_dir_path(mnt_target.as_str()) {
                    Ok(()) => {
                        match sys::mount_bind(src.as_str(), mnt_target.as_str()) {
                            Ok(()) => {
                                mount_ok = true;
                            },
                            Err(_) => {},
                        }
                    },
                    Err(_) => {},
                }
                let ghost t = mnt_target@;
                if mount_ok {
                    mounted.push(mnt_target);
                }
                dirs.push(true);
                oks.push(mount_ok);
                proof {
                    let plan1 = spec_mount_plan(self.rootfs_path@, pts.take(i + 1), dirs@);
                    assert(dirs@.drop_last() =~= dirs0);
                    assert(oks@.drop_last() =~= oks0);
                    assert(plan1 =~= plan0.push(t));
                    assert(plan1.drop_last() =~= plan0);
                    assert(spec_kept_targets(plan1, oks@) =~= if mount_ok {
                        spec_kept_targets(plan0, oks0).push(t)
                    } else {
                        spec_kept_targets(plan0, oks0)
                    });
                    if mount_ok {
                        assert(mounted.deep_view() =~~= mounted0.push(t));
                    }
                    assert(mounted.deep_view() =~~= spec_kept_targets(plan1, oks@));
                }
            } else {
                dirs.push(false);
                proof {
                    let plan1 = spec_mount_plan(self.rootfs_path@, pts.take(i + 1), dirs@);
                    assert(dirs@.drop_last() =~= dirs0);
                    assert(plan1 =~= plan0);
                }
            }
            i = i + 1;
        }
        proof {
            assert(self.mount_points.deep_view().take(n as int)
                =~= self.mount_points.deep_view());
        }
        MountReport { mounted, src_is_dir: dirs, mount_ok: oks }
    }
}

/// What a mount pass did: the targets actually mounted, together with the
/// observations that determined them — for each configured pair whether its
/// source was a directory, and for each planned target whether its bind
/// mount was accepted.
pub struct MountReport {
    pub mounted: Vec<String>,
    pub src_is_dir: Vec<bool>,
    pub mount_ok: Vec<bool>,
}

/// Every planned target comes from a pair whose source was seen to be a
/// directory: a pair whose source is not a directory is skipped and its
/// target is absent from the plan, and so from anything kept out of it.
pub proof fn lemma_plan_only_directories(
    rootfs: Seq<char>,
    points: Seq<(Seq<char>, Seq<char>)>,
    dirs: Seq<bool>,
)
    requires
        dirs.len() == points.len(),
    ensures
        forall|t: Seq<char>|
            #[trigger] spec_mount_plan(rootfs, points, dirs).contains(t) ==> exists|j: int|
                0 <= j < points.len() && dirs[j] && t == rootfs + "/"@ + points[j].1,
    decreases points.len(),
{
    if points.len() > 0 {
        lemma_plan_only_directories(rootfs, points.drop_last(), dirs.drop_last());
        let plan = spec_mount_plan(rootfs, points, dirs);
        let rec = spec_mount_plan(rootfs, points.drop_last(), dirs.drop_last());
        assert forall|t: Seq<char>| #[trigger] plan.contains(t) implies exists|j: int|
            0 <= j < points.len() && dirs[j] && t == rootfs + "/"@ + points[j].1 by {
            let w = choose|w: int| 0 <= w < plan.len() && plan[w] == t;
            if dirs.last() && w == plan.len() - 1 {
                assert(dirs[points.len() - 1] && t == rootfs + "/"@ + points[points.len()
                    - 1].1);
            } else {
                assert(rec[w] == t);
                assert(rec.contains(t));
                let j = choose|j: int|
                    0 <= j < points.drop_last().len() && dirs.drop_last()[j] && t == rootfs + "/"@
                        + points.drop_last()[j].1;
                assert(0 <= j < points.len() && dirs[j] && t == rootfs + "/"@ + points[j].1);
            }
        }
    }
}

/// A kept target was planned: thinning by mount outcomes never invents a
/// target.
pub proof fn lemma_kept_subset_of_plan(plan: Seq<Seq<char>>, oks: Seq<bool>)
    ensures
        forall|t: Seq<char>|
            #[trigger] spec_kept_targets(plan, oks).contains(t) ==> plan.contains(t),
    decreases plan.len(),
{
    if plan.len() > 0 && oks.len() == plan.len() {
        lemma_kept_subset_of_plan(plan.drop_last(), oks.drop_last());
        let kept = spec_kept_targets(plan, oks);
        let rec = spec_kept_targets(plan.drop_last(), oks.drop_last());
        assert forall|t: Seq<char>| #[trigger] kept.contains(t) implies plan.contains(t) by {
            let w = choose|w: int| 0 <= w < kept.len() && kept[w] == t;
            if oks.last() && w == kept.len() - 1 {
                assert(plan[plan.len() - 1] == t);
            } else {
                assert(rec[w] == t);
                assert(rec.contains(t));
                let j = choose|j: int| 0 <= j < rec.len() && rec[j] == t;
                let k = choose|k: int| 0 <= k < plan.drop_last().len() && plan.drop_last()[k] == t;
                assert(plan[k] == t);
            }
        }
    }
}

/// A planned target list thinned by per-pair mount outcomes: the planned
/// targets whose bind mount the kernel accepted, in plan order.
pub open spec fn spec_kept_targets(plan: Seq<Seq<char>>, oks: Seq<bool>) -> Seq<Seq<char>>
    decreases plan.len(),
{
    if plan.len() == 0 || oks.len() != plan.len() {
        Seq::empty()
    } else if oks.last() {
        spec_kept_targets(plan.drop_last(), oks.drop_last()).push(plan.last())
    } else {
        spec_kept_targets(plan.drop_last(), oks.drop_last())
    }
}

/// Decide which configured pairs a mount pass will bind: exactly those
/// whose source the caller found to be a directory. A source that is not a
/// directory is skipped: it contributes nothing to the plan.
pub fn plan_mounts(setting: &IsolationSetting, src_is_dir: &Vec<bool>) -> (r: Vec<String>)
    requires
        src_is_dir@.len() == setting.mount_points@.len(),
    ensures
        r.deep_view() == spec_mount_plan(
            setting.rootfs_path@,
            setting.mount_points.deep_view(),
            src_is_dir@,
        ),
{
    let mut out: Vec<String> = Vec::new();
    let n = setting.mount_points.len();
    let mut i: usize = 0;
    proof {
        assert(setting.mount_points.deep_view().take(0) =~= Seq::<(Seq<char>, Seq<char>)>::empty());
        assert(src_is_dir@.take(0) =~= Seq::<bool>::empty());
        assert(out.deep_view() =~~= spec_mount_plan(
            setting.rootfs_path@,
            setting.mount_points.deep_view().take(0),
            src_is_dir@.take(0),
        ));
    }
    while i < n
        invariant
            0 <= i <= n,
            n == setting.mount_points@.len(),
            src_is_dir@.len() == n,
            out.deep_view() == spec_mount_plan(
                setting.rootfs_path@,
                setting.mount_points.deep_view().take(i as int),
                src_is_dir@.take(i as int),
            ),
        decreases n - i,
    {
        if src_is_dir[i] {
            let mut t = setting.rootfs_path.clone();
            t.append("/");
            t.append(setting.mount_points[i].1.as_str());
            out.push(t);
        }
        proof {
            let pts = setting.mount_points.deep_view();
            assert(pts.take(i + 1).drop_last() =~= pts.take(i as int));
            assert(src_is_dir@.take(i + 1).drop_last() =~= src_is_dir@.take(i as int));
            assert(pts.take(i + 1).last() == pts[i as int]);
            assert(pts[i as int] == (setting.mount_points@[i as int].0@,
            setting.mount_points@[i as int].1@));
            assert(out.deep_view() =~~= spec_mount_plan(
                setting.rootfs_path@,
                pts.take(i + 1),
                src_is_dir@.take(i + 1),
            ));
        }
        i = i + 1;
    }
    proof {
        assert(setting.mount_points.deep_view().take(n as int) =~= setting.mount_points.deep_view());
        assert(src_is_dir@.take(n as int) =~= src_is_dir@);
    }
    out
}

/// The targets a mount pass binds, given for each configured pair whether
/// its source is a directory: the target paths of the directory-backed
/// pairs, in order; pairs whose source is not a directory are left out.
pub open spec fn spec_mount_plan(
    rootfs: Seq<char>,
    points: Seq<(Seq<char>, Seq<char>)>,
    src_is_dir: Seq<bool>,
) -> Seq<Seq<char>>
    decreases points.len(),
{
    if points.len() == 0 || src_is_dir.len() != points.len() {
        Seq::empty()
    } else if src_is_dir.last() {
        spec_mount_plan(rootfs, points.drop_last(), src_is_dir.drop_last()).push(
            rootfs + "/"@ + points.last().1,
        )
    } else {
        spec_mount_plan(rootfs, points.drop_last(), src_is_dir.drop_last())
    }
}

/// Create a directory path one component at a time, as the mount targets
/// need it: every `/`-separated prefix is created, and a component that
/// already exists (`EEXIST`) is fine; any other refusal stops the walk.
pub fn ensure_dir_path(path: &str) -> (r: Result<(), Error>)
    ensures
        r matches Err(e) ==> e is Mount,
{
    let bytes = path.as_bytes();
    let n = bytes.len();
    let mut i: usize = 0;
    while i < n
        invariant
            0 <= i <= n,
            n == bytes@.len(),
            bytes@ == path.spec_bytes(),
        decreases n - i,
    {
        if bytes[i] == 0x2f && i > 0 {
            if path.is_char_boundary(i) {
                let (prefix, _) = path.split_at(i);
                match sys::mkdir_once(prefix) {
                    Ok(()) => {},
                    Err(e) => {
                        if e != 17 {
                            return Err(Error::Mount(e));
                        }
                    },
                }
            }
        }
        i = i + 1;
    }
    match sys::mkdir_once(path) {
        Ok(()) => Ok(()),
        Err(e) => {
            if e != 17 {
                Err(Error::Mount(e))
            } else {
                Ok(())
            }
        },
    }
}

/// Enter the private root: chroot to it and move to the new root
/// directory. The worker calls this only after its init process has
/// finished every bind mount, so the view it locks itself into is fully
/// populated.
pub fn enter_rootfs(rootfs: &str) -> (r: Result<(), Error>)
    ensures
        r matches Err(e) ==> e is Chroot,
{
    match sys::chroot_path(rootfs) {
        Ok(()) => {},
        Err(e) => {
            return Err(Error::Chroot(e));
        },
    }
    match sys::chdir_path("/") {
        Ok(()) => Ok(()),
        Err(e) => Err(Error::Chroot(e)),
    }
}

} // verus!
