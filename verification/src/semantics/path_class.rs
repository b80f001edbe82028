//! Classification of root paths into system and persistent data.
use vstd::prelude::*;

use crate::text::{concat, concat3, eq_str, is_prefix, starts_with};

verus! {

/// Classification of a root path for persistence/inspection purposes.
///
/// `/var/lib` is intentionally not blanket-classified as `Data`; package
/// managers keep consistency-sensitive databases there (rpm, dpkg) that
/// must move in lockstep with the system layers, not persist independently.
#[derive(Debug, Clone, Copy, PartialEq, Eq, Structural)]
pub enum PathClass {
    System,
    Data,
}

/// Root-relative names of the persistent DATA mount points, without a
/// leading slash. The same list drives both `classify()` and the DATA
/// bind-mount plan built during root assembly.
pub open spec fn data_mount_names() -> Seq<Seq<char>> {
    seq!["home"@, "root"@, "srv"@]
}

/// Root-relative names of the virtual filesystem mount points a system
/// transaction binds a real package manager's scriptlets onto.
pub open spec fn virtual_mount_names() -> Seq<Seq<char>> {
    seq!["proc"@, "sys"@, "dev"@, "run"@]
}

/// `path` is `/<name>` or lies below it.
pub open spec fn is_under_mount(path: Seq<char>, name: Seq<char>) -> bool {
    path == seq!['/'] + name || is_prefix(seq!['/'] + name + seq!['/'], path)
}

pub open spec fn is_data_path(path: Seq<char>) -> bool {
    exists|i: int| 0 <= i < data_mount_names().len() && is_under_mount(path, #[trigger] data_mount_names()[i])
}

/// The DATA mount names, in order.
pub fn data_mounts() -> (r: Vec<&'static str>)
    ensures
        r@.len() == data_mount_names().len(),
        forall|i: int| 0 <= i < r@.len() ==> (#[trigger] r@[i])@ == data_mount_names()[i],
{
    let r = vec!["home", "root", "srv"];
    r
}

/// The virtual filesystem mount names, in order.
pub fn virtual_mounts() -> (r: Vec<&'static str>)
    ensures
        r@.len() == virtual_mount_names().len(),
        forall|i: int| 0 <= i < r@.len() ==> (#[trigger] r@[i])@ == virtual_mount_names()[i],
{
    let r = vec!["proc", "sys", "dev", "run"];
    r
}

fn under_mount(path: &str, name: &str) -> (r: bool)
    ensures
        r == is_under_mount(path@, name@),
{
    let prefix = concat("/", name);
    let slashed = concat3("/", name, "/");
    proof {
        reveal_strlit("/");
        assert("/"@ =~= seq!['/']);
    }
    eq_str(path, prefix.as_str()) || starts_with(path, slashed.as_str())
}

pub fn classify(path: &str) -> (r: PathClass)
    ensures
        r == (if is_data_path(path@) {
            PathClass::Data
        } else {
            PathClass::System
        }),
{
    let names = data_mounts();
    let mut i: usize = 0;
    while i < names.len()
        invariant
            names@.len() == data_mount_names().len(),
            forall|k: int| 0 <= k < names@.len() ==> (#[trigger] names@[k])@ == data_mount_names()[k],
            i <= names@.len(),
            forall|k: int| 0 <= k < i ==> !is_under_mount(path@, #[trigger] data_mount_names()[k]),
        decreases names.len() - i,
    {
        if under_mount(path, names[i]) {
            return PathClass::Data;
        }
        i += 1;
    }
    PathClass::System
}

/// Persistent data is exactly what lies at or below `/home`, `/root` or
/// `/srv`: each of them, and everything below each, is data; nothing else
/// is (`/var/lib` and `/homework` included).
pub proof fn data_is_home_root_and_srv(path: Seq<char>)
    ensures
        is_data_path(path) <==> (path == "/home"@ || is_prefix("/home/"@, path) || path == "/root"@
            || is_prefix("/root/"@, path) || path == "/srv"@ || is_prefix("/srv/"@, path)),
{
    reveal_strlit("/home");
    reveal_strlit("/root");
    reveal_strlit("/srv");
    reveal_strlit("/home/");
    reveal_strlit("/root/");
    reveal_strlit("/srv/");
    reveal_strlit("home");
    reveal_strlit("root");
    reveal_strlit("srv");
    assert("/home"@ =~= seq!['/'] + "home"@);
    assert("/root"@ =~= seq!['/'] + "root"@);
    assert("/srv"@ =~= seq!['/'] + "srv"@);
    assert("/home/"@ =~= seq!['/'] + "home"@ + seq!['/']);
    assert("/root/"@ =~= seq!['/'] + "root"@ + seq!['/']);
    assert("/srv/"@ =~= seq!['/'] + "srv"@ + seq!['/']);
    let n = data_mount_names();
    if is_under_mount(path, "home"@) {
        assert(is_under_mount(path, n[0]));
    }
    if is_under_mount(path, "root"@) {
        assert(is_under_mount(path, n[1]));
    }
    if is_under_mount(path, "srv"@) {
        assert(is_under_mount(path, n[2]));
    }
}

/// `/home`, `/root` and `/srv`, and every path below them, are data.
pub proof fn data_mount_points_and_below_are_data(rest: Seq<char>)
    ensures
        is_data_path("/home"@),
        is_data_path("/root"@),
        is_data_path("/srv"@),
        is_data_path("/home/"@ + rest),
        is_data_path("/root/"@ + rest),
        is_data_path("/srv/"@ + rest),
{
    reveal_strlit("/home/");
    reveal_strlit("/root/");
    reveal_strlit("/srv/");
    data_is_home_root_and_srv("/home"@);
    data_is_home_root_and_srv("/root"@);
    data_is_home_root_and_srv("/srv"@);
    data_is_home_root_and_srv("/home/"@ + rest);
    data_is_home_root_and_srv("/root/"@ + rest);
    data_is_home_root_and_srv("/srv/"@ + rest);
    assert(("/home/"@ + rest).take(6) =~= "/home/"@);
    assert(("/root/"@ + rest).take(6) =~= "/root/"@);
    assert(("/srv/"@ + rest).take(5) =~= "/srv/"@);
}

} // verus!
