//! How a layer stack is mounted: a bind mount or an OverlayFS mount and its
//! options.
use vstd::prelude::*;

use crate::semantics::layer::{Layer, LayerKind, LayerStack, LayerView, has_upper, layer_view, lowers_of};
use crate::semantics::path_class::{data_mount_names, data_mounts};
use crate::text::{concat, join, join_path, join_sep, join_with, owned, push_decimal, decimal};

verus! {

/// The mount that assembles a stack.
#[derive(Debug)]
pub enum MountPlan {
    /// A single read-only layer is bind-mounted as it is.
    Bind { source: String },
    /// Anything else is an OverlayFS mount with these options; the workdir
    /// (to create first) comes with an upperdir.
    Overlay { options: String, work_dir: Option<String> },
}

pub enum MountPlanView {
    Bind { source: Seq<char> },
    Overlay { options: Seq<char>, work_dir: Option<Seq<char>> },
}

impl View for MountPlan {
    type V = MountPlanView;

    open spec fn view(&self) -> MountPlanView {
        match self {
            MountPlan::Bind { source } => MountPlanView::Bind { source: source@ },
            MountPlan::Overlay { options, work_dir } => MountPlanView::Overlay {
                options: options@,
                work_dir: match work_dir {
                    Some(w) => Some(w@),
                    None => None,
                },
            },
        }
    }
}

pub open spec fn paths_of(s: Seq<LayerView>) -> Seq<Seq<char>> {
    s.map_values(|l: LayerView| l.path)
}

/// `lowerdir=` the lowers joined by `:` (highest priority first), then
/// `upperdir=` and `workdir=` when the stack has a writable top.
pub open spec fn overlay_options(s: Seq<LayerView>, work_dir: Seq<char>) -> Seq<char> {
    "lowerdir="@ + join_sep(paths_of(lowers_of(s)), ":"@) + if has_upper(s) {
        ",upperdir="@ + s[0].path + ",workdir="@ + work_dir
    } else {
        seq![]
    }
}

pub open spec fn assembly_plan(s: Seq<LayerView>, work_dir: Seq<char>) -> MountPlanView {
    if !has_upper(s) && lowers_of(s).len() == 1 {
        MountPlanView::Bind { source: lowers_of(s)[0].path }
    } else {
        MountPlanView::Overlay {
            options: overlay_options(s, work_dir),
            work_dir: if has_upper(s) {
                Some(work_dir)
            } else {
                None
            },
        }
    }
}

/// The mount that puts `stack` at its target (see `assembly_plan`).
pub fn assemble(stack: &LayerStack, work_dir: &str) -> (r: MountPlan)
    ensures
        r@ == assembly_plan(stack@, work_dir@),
{
    let upper = stack.upper();
    let lowers = stack.lowers();
    if upper.is_none() && lowers.len() == 1 {
        return MountPlan::Bind { source: lowers[0].path.clone() };
    }
    let mut paths: Vec<String> = Vec::new();
    let mut i: usize = 0;
    while i < lowers.len()
        invariant
            lowers@.len() == lowers_of(stack@).len(),
            forall|k: int| 0 <= k < lowers@.len() ==> (#[trigger] lowers@[k])@ == lowers_of(stack@)[k],
            i <= lowers@.len(),
            paths.deep_view() == paths_of(lowers_of(stack@)).take(i as int),
        decreases lowers.len() - i,
    {
        let ghost before = paths.deep_view();
        let p = lowers[i].path.clone();
        assert(p@ == lowers_of(stack@)[i as int].path);
        paths.push(p);
        assert(paths.deep_view() =~= before.push(lowers_of(stack@)[i as int].path));
        assert(paths_of(lowers_of(stack@)).take(i + 1) =~= paths_of(lowers_of(stack@)).take(i as int).push(lowers_of(stack@)[i as int].path));
        i += 1;
    }
    assert(paths.deep_view() =~= paths_of(lowers_of(stack@)));
    let mut options = concat("lowerdir=", join_with(&paths, ":").as_str());
    match upper {
        Some(u) => {
            options.append(",upperdir=");
            options.append(u.path.as_str());
            options.append(",workdir=");
            options.append(work_dir);
            assert(options@ =~= overlay_options(stack@, work_dir@));
            MountPlan::Overlay { options, work_dir: Some(owned(work_dir)) }
        },
        None => {
            assert(options@ =~= overlay_options(stack@, work_dir@));
            MountPlan::Overlay { options, work_dir: None }
        },
    }
}

/// The stack a live update swaps in: OVERRIDE's scope directory on top of
/// the new lowers (`hot-0`, `hot-1`, ...) on top of a snapshot of the live
/// tree.
pub open spec fn hot_stack_of(override_dir: Seq<char>, lowers: Seq<Seq<char>>, snapshot: Seq<char>) -> Seq<LayerView> {
    seq![layer_view(LayerKind::Override, "override"@, override_dir, false)]
        + Seq::new(lowers.len(), |i: int| layer_view(LayerKind::Update, "hot-"@ + decimal(i as nat), lowers[i], true))
        + seq![layer_view(LayerKind::Base, "live-snapshot"@, snapshot, true)]
}

pub fn hot_stack(override_dir: &str, lowers: &Vec<String>, snapshot_dir: &str) -> (r: LayerStack)
    ensures
        r@ == hot_stack_of(override_dir@, lowers.deep_view(), snapshot_dir@),
{
    let ghost l = lowers.deep_view();
    let mut stack = LayerStack::new();
    stack.push(Layer::new(LayerKind::Override, "override", override_dir, false));
    let mut i: usize = 0;
    while i < lowers.len()
        invariant
            l == lowers.deep_view(),
            i <= l.len(),
            stack@ == seq![layer_view(LayerKind::Override, "override"@, override_dir@, false)]
                + Seq::new(i as nat, |k: int| layer_view(LayerKind::Update, "hot-"@ + decimal(k as nat), l[k], true)),
        decreases lowers.len() - i,
    {
        let mut id = owned("hot-");
        push_decimal(&mut id, i as u128);
        stack.push(Layer::new(LayerKind::Update, id.as_str(), lowers[i].as_str(), true));
        assert(stack@ =~= seq![layer_view(LayerKind::Override, "override"@, override_dir@, false)]
                + Seq::new((i + 1) as nat, |k: int| layer_view(LayerKind::Update, "hot-"@ + decimal(k as nat), l[k], true)));
        i += 1;
    }
    stack.push(Layer::new(LayerKind::Base, "live-snapshot", snapshot_dir, true));
    assert(stack@ =~= hot_stack_of(override_dir@, l, snapshot_dir@));
    stack
}

/// The DATA bind mounts: `(<data>/<name>, <target>/<name>)` for each DATA
/// mount name, in order. Missing sources are skipped by the caller, never
/// created — DATA is irreplaceable.
pub open spec fn data_binds_of(data_root: Seq<char>, target: Seq<char>) -> Seq<(Seq<char>, Seq<char>)> {
    data_mount_names().map_values(|n: Seq<char>| (join_path(data_root, n), join_path(target, n)))
}

pub fn data_binds(data_root: &str, target: &str) -> (r: Vec<(String, String)>)
    ensures
        r@.map_values(|p: (String, String)| (p.0@, p.1@)) == data_binds_of(data_root@, target@),
{
    let names = data_mounts();
    let mut out: Vec<(String, String)> = Vec::new();
    let mut i: usize = 0;
    while i < names.len()
        invariant
            names@.len() == data_mount_names().len(),
            forall|k: int| 0 <= k < names@.len() ==> (#[trigger] names@[k])@ == data_mount_names()[k],
            i <= names@.len(),
            out@.map_values(|p: (String, String)| (p.0@, p.1@)) == data_binds_of(data_root@, target@).take(i as int),
        decreases names.len() - i,
    {
        let ghost before = out@.map_values(|p: (String, String)| (p.0@, p.1@));
        let pair = (join(data_root, names[i]), join(target, names[i]));
        let ghost pv = (pair.0@, pair.1@);
        assert(pv == data_binds_of(data_root@, target@)[i as int]);
        out.push(pair);
        assert(out@.map_values(|p: (String, String)| (p.0@, p.1@)) =~= before.push(pv));
        assert(out@.map_values(|p: (String, String)| (p.0@, p.1@)) =~= data_binds_of(data_root@, target@).take(i + 1));
        i += 1;
    }
    assert(data_binds_of(data_root@, target@).take(names@.len() as int) =~= data_binds_of(data_root@, target@));
    out
}

} // verus!
