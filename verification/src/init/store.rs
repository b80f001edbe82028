//! Finding the store: device specs, `/proc/self/mountinfo`, and the choice
//! between an already-mounted store and one to mount.
use vstd::prelude::*;

use crate::text::{eq_str, join, join_path, lines, lines_of, owned, split_on, split_pieces, starts_with, is_prefix, string_of, chars_of};

verus! {

/// The mount point field (the fifth space-separated one) of a mountinfo
/// line, if it has one.
pub open spec fn mount_point_of(line: Seq<char>) -> Option<Seq<char>> {
    let p = split_on(line, ' ');
    if p.len() > 4 {
        Some(p[4])
    } else {
        None
    }
}

/// The mount points of the lines, in order; lines too short are skipped.
pub open spec fn mount_points_of(ls: Seq<Seq<char>>) -> Seq<Seq<char>>
    decreases ls.len(),
{
    if ls.len() == 0 {
        seq![]
    } else {
        let prev = mount_points_of(ls.drop_last());
        match mount_point_of(ls.last()) {
            Some(m) => prev.push(m),
            None => prev,
        }
    }
}

fn mount_point(line: &str) -> (r: Option<String>)
    ensures
        opt_view(r) == mount_point_of(line@),
{
    let p = split_pieces(line, ' ');
    if p.len() > 4 {
        Some(p[4].clone())
    } else {
        None
    }
}

pub open spec fn opt_view(o: Option<String>) -> Option<Seq<char>> {
    match o {
        Some(s) => Some(s@),
        None => None,
    }
}

/// The mount points `/proc/self/mountinfo` lists, in order.
pub fn mountpoints(mountinfo: &str) -> (r: Vec<String>)
    ensures
        r.deep_view() == mount_points_of(lines(mountinfo@)),
{
    let ls = lines_of(mountinfo);
    let ghost l = ls.deep_view();
    let mut out: Vec<String> = Vec::new();
    let mut i: usize = 0;
    while i < ls.len()
        invariant
            l == ls.deep_view(),
            l == lines(mountinfo@),
            i <= l.len(),
            out.deep_view() == mount_points_of(l.take(i as int)),
        decreases ls.len() - i,
    {
        assert(l.take(i + 1).drop_last() =~= l.take(i as int));
        assert(l.take(i + 1).last() == ls[i as int]@);
        let ghost before = out.deep_view();
        match mount_point(ls[i].as_str()) {
            Some(m) => {
                let ghost mv = m@;
                out.push(m);
                assert(out.deep_view() =~= before.push(mv));
            },
            None => {},
        }
        i += 1;
    }
    assert(l.take(l.len() as int) =~= l);
    out
}

/// Whether `path` is one of the mount points mountinfo lists.
pub fn is_listed_mountpoint(mountinfo: &str, path: &str) -> (r: bool)
    ensures
        r == mount_points_of(lines(mountinfo@)).contains(path@),
{
    let m = mountpoints(mountinfo);
    let mut i: usize = 0;
    while i < m.len()
        invariant
            m.deep_view() == mount_points_of(lines(mountinfo@)),
            i <= m@.len(),
            forall|k: int| 0 <= k < i ==> m.deep_view()[k] != path@,
        decreases m.len() - i,
    {
        if eq_str(m[i].as_str(), path) {
            assert(m.deep_view()[i as int] == path@);
            return true;
        }
        i += 1;
    }
    false
}

/// How a `layerfs.store=`/`layerfs.luks=` value names its device.
#[derive(Debug, Clone)]
pub enum DeviceSpec {
    /// `UUID=<id>`, found under `/dev/disk/by-uuid`.
    Uuid(String),
    /// `LABEL=<id>`, found under `/dev/disk/by-label`.
    Label(String),
    /// `PARTUUID=<id>`, found under `/dev/disk/by-partuuid`.
    PartUuid(String),
    /// Anything else is a path, used as it is.
    Path(String),
}

pub enum DeviceSpecView {
    Uuid(Seq<char>),
    Label(Seq<char>),
    PartUuid(Seq<char>),
    Path(Seq<char>),
}

impl View for DeviceSpec {
    type V = DeviceSpecView;

    open spec fn view(&self) -> DeviceSpecView {
        match self {
            DeviceSpec::Uuid(s) => DeviceSpecView::Uuid(s@),
            DeviceSpec::Label(s) => DeviceSpecView::Label(s@),
            DeviceSpec::PartUuid(s) => DeviceSpecView::PartUuid(s@),
            DeviceSpec::Path(s) => DeviceSpecView::Path(s@),
        }
    }
}

pub open spec fn device_spec_of(spec: Seq<char>) -> DeviceSpecView {
    if is_prefix("UUID="@, spec) {
        DeviceSpecView::Uuid(spec.skip("UUID="@.len() as int))
    } else if is_prefix("LABEL="@, spec) {
        DeviceSpecView::Label(spec.skip("LABEL="@.len() as int))
    } else if is_prefix("PARTUUID="@, spec) {
        DeviceSpecView::PartUuid(spec.skip("PARTUUID="@.len() as int))
    } else {
        DeviceSpecView::Path(spec)
    }
}

fn rest_after(spec: &str, prefix: &str) -> (r: String)
    requires
        is_prefix(prefix@, spec@),
    ensures
        r@ == spec@.skip(prefix@.len() as int),
{
    let cs = chars_of(spec);
    let n = chars_of(prefix).len();
    let r = string_of(&cs, n, cs.len());
    assert(r@ =~= spec@.skip(prefix@.len() as int));
    r
}

/// Reads a device spec: `UUID=`, `LABEL=` and `PARTUUID=` name a device by
/// id, anything else is a path.
pub fn parse_device_spec(spec: &str) -> (r: DeviceSpec)
    ensures
        r@ == device_spec_of(spec@),
{
    if starts_with(spec, "UUID=") {
        DeviceSpec::Uuid(rest_after(spec, "UUID="))
    } else if starts_with(spec, "LABEL=") {
        DeviceSpec::Label(rest_after(spec, "LABEL="))
    } else if starts_with(spec, "PARTUUID=") {
        DeviceSpec::PartUuid(rest_after(spec, "PARTUUID="))
    } else {
        DeviceSpec::Path(owned(spec))
    }
}

/// The udev symlink that names the device, `<disk_by>/by-*/<id>`; a plain
/// path has none.
pub open spec fn udev_link_of(disk_by_dir: Seq<char>, d: DeviceSpecView) -> Option<Seq<char>> {
    match d {
        DeviceSpecView::Uuid(id) => Some(join_path(join_path(disk_by_dir, "by-uuid"@), id)),
        DeviceSpecView::Label(id) => Some(join_path(join_path(disk_by_dir, "by-label"@), id)),
        DeviceSpecView::PartUuid(id) => Some(join_path(join_path(disk_by_dir, "by-partuuid"@), id)),
        DeviceSpecView::Path(_) => None,
    }
}

pub fn udev_link(disk_by_dir: &str, d: &DeviceSpec) -> (r: Option<String>)
    ensures
        opt_view(r) == udev_link_of(disk_by_dir@, d@),
{
    match d {
        DeviceSpec::Uuid(id) => Some(join(join(disk_by_dir, "by-uuid").as_str(), id.as_str())),
        DeviceSpec::Label(id) => Some(join(join(disk_by_dir, "by-label").as_str(), id.as_str())),
        DeviceSpec::PartUuid(id) => Some(
            join(join(disk_by_dir, "by-partuuid").as_str(), id.as_str()),
        ),
        DeviceSpec::Path(_) => None,
    }
}

/// The first mount point (in mountinfo order) that holds a `base`
/// directory; `has_base[i]` says whether `mounts[i]` does.
pub fn first_store_mount(mounts: &Vec<String>, has_base: &Vec<bool>) -> (r: Option<String>)
    requires
        mounts@.len() == has_base@.len(),
    ensures
        match r {
            Some(m) => exists|i: int|
                0 <= i < mounts@.len() && has_base@[i] && mounts@[i]@ == m@ && forall|j: int|
                    0 <= j < i ==> !has_base@[j],
            None => forall|i: int| 0 <= i < has_base@.len() ==> !has_base@[i],
        },
{
    let mut i: usize = 0;
    while i < mounts.len()
        invariant
            mounts@.len() == has_base@.len(),
            i <= mounts@.len(),
            forall|j: int| 0 <= j < i ==> !has_base@[j],
        decreases mounts.len() - i,
    {
        if has_base[i] {
            return Some(mounts[i].clone());
        }
        i += 1;
    }
    None
}

/// An explicit store path is used as it is when it already holds `base`
/// and no subvolume is asked for; otherwise it is a device to mount.
pub fn store_is_mounted(subvol: &Option<String>, has_base: bool) -> (r: bool)
    ensures
        r == (subvol is None && has_base),
{
    subvol.is_none() && has_base
}

/// Where the store is looked for: an encrypted device to unlock first
/// (`layerfs.luks=`), else the explicit store (`layerfs.store=`), else the
/// mounted filesystems.
#[derive(Debug)]
pub enum LocateStep {
    Luks(String),
    Explicit(String),
    ScanMounts,
}

/// How the store is located from the boot options.
pub fn locate_step(explicit: &Option<String>, luks: &Option<String>) -> (r: LocateStep)
    ensures
        match (opt_view(*luks), opt_view(*explicit)) {
            (Some(l), _) => r matches LocateStep::Luks(s) && s@ == l,
            (None, Some(e)) => r matches LocateStep::Explicit(s) && s@ == e,
            (None, None) => r matches LocateStep::ScanMounts,
        },
{
    match luks {
        Some(l) => LocateStep::Luks(l.clone()),
        None => match explicit {
            Some(e) => LocateStep::Explicit(e.clone()),
            None => LocateStep::ScanMounts,
        },
    }
}

/// What a scan of the mounted filesystems concludes: the first mount point
/// holding `base`, or the error asking for an explicit store.
pub fn scanned_store(mounts: &Vec<String>, has_base: &Vec<bool>) -> (r: Result<String, String>)
    requires
        mounts@.len() == has_base@.len(),
    ensures
        r is Err <==> forall|i: int| 0 <= i < has_base@.len() ==> !has_base@[i],
        r is Err ==> r->Err_0@ == "no mounted LayerFS store found; pass layerfs.store=<path>"@,
        r is Ok ==> exists|i: int|
            0 <= i < mounts@.len() && has_base@[i] && mounts@[i]@ == r->Ok_0@ && forall|j: int|
                0 <= j < i ==> !has_base@[j],
{
    match first_store_mount(mounts, has_base) {
        Some(m) => Ok(m),
        None => {
            let e = owned("no mounted LayerFS store found; pass layerfs.store=<path>");
            proof {
                reveal_strlit("no mounted LayerFS store found; pass layerfs.store=<path>");
            }
            Err(e)
        },
    }
}

/// The Btrfs mount option selecting a subvolume: `subvol=<name>`.
pub fn subvol_option(name: &str) -> (r: String)
    ensures
        r@ == "subvol="@ + name@,
{
    crate::text::concat("subvol=", name)
}

/// Which superblock scan can stand in for a missing udev link: by UUID or
/// by label; a PARTUUID or a path has none.
pub fn scan_fallback(d: &DeviceSpec) -> (r: Option<(bool, String)>)
    ensures
        match d@ {
            DeviceSpecView::Uuid(id) => r matches Some(p) && p.0 && p.1@ == id,
            DeviceSpecView::Label(id) => r matches Some(p) && !p.0 && p.1@ == id,
            _ => r is None,
        },
{
    match d {
        DeviceSpec::Uuid(id) => Some((true, id.clone())),
        DeviceSpec::Label(id) => Some((false, id.clone())),
        _ => None,
    }
}

/// One round of waiting for a device to appear.
#[derive(Debug)]
pub enum WaitStep {
    /// The device resolved to this path.
    Found(String),
    /// Not yet, and the deadline has not passed: try again after a pause.
    Retry,
    /// The deadline passed: the error to report.
    GiveUp(String),
}

pub open spec fn timed_out_message(timeout: Seq<char>, spec: Seq<char>) -> Seq<char> {
    "timed out after "@ + timeout + " waiting for device: "@ + spec
}

/// The decision after one attempt to resolve `spec`: `resolved` is what
/// the attempt found, `deadline_passed` whether the wait is over, and
/// `timeout` the wait's length as it is reported.
pub fn wait_step(resolved: Option<String>, deadline_passed: bool, timeout: &str, spec: &str) -> (r: WaitStep)
    ensures
        match opt_view(resolved) {
            Some(p) => r matches WaitStep::Found(f) && f@ == p,
            None => if deadline_passed {
                r matches WaitStep::GiveUp(m) && m@ == timed_out_message(timeout@, spec@)
            } else {
                r matches WaitStep::Retry
            },
        },
{
    match resolved {
        Some(p) => WaitStep::Found(p),
        None => if deadline_passed {
            let mut m = crate::text::concat3("timed out after ", timeout, " waiting for device: ");
            m.append(spec);
            WaitStep::GiveUp(m)
        } else {
            WaitStep::Retry
        },
    }
}

/// `<source> is not a LayerFS Btrfs store`, when the mounted device has no
/// `base`.
pub fn not_a_store(source: &str) -> (r: String)
    ensures
        r@ == source@ + " is not a LayerFS Btrfs store"@,
{
    crate::text::concat(source, " is not a LayerFS Btrfs store")
}

} // verus!
