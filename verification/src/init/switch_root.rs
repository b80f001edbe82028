//! Handing over to the assembled root: which pseudo filesystems move along.
use vstd::prelude::*;

use crate::text::{join, join_path, owned};

verus! {

/// The mounts carried over into the new root, in order.
pub open spec fn carried_mounts() -> Seq<Seq<char>> {
    seq!["dev"@, "proc"@, "sys"@, "run"@]
}

/// The names of the carried mounts.
pub fn carried_mount_names() -> (r: Vec<String>)
    ensures
        r.deep_view() == carried_mounts(),
{
    let mut r: Vec<String> = Vec::new();
    r.push(owned("dev"));
    r.push(owned("proc"));
    r.push(owned("sys"));
    r.push(owned("run"));
    proof {
        reveal_strlit("dev");
        reveal_strlit("proc");
        reveal_strlit("sys");
        reveal_strlit("run");
    }
    assert(r.deep_view() =~= carried_mounts());
    r
}

/// One mount move: from `/<name>` to `<new root>/<name>`.
pub struct MountMove {
    pub from: String,
    pub to: String,
}

pub open spec fn moves_view(v: Seq<MountMove>) -> Seq<(Seq<char>, Seq<char>)> {
    v.map_values(|m: MountMove| (m.from@, m.to@))
}

/// The moves for the carried mounts that are mount points now
/// (`present[i]` for the `i`-th carried mount), in order.
pub open spec fn moves_for(new_root: Seq<char>, present: Seq<bool>, n: int) -> Seq<(Seq<char>, Seq<char>)>
    decreases n,
{
    if n <= 0 {
        seq![]
    } else if present[n - 1] {
        moves_for(new_root, present, n - 1).push(
            (join_path("/"@, carried_mounts()[n - 1]), join_path(new_root, carried_mounts()[n - 1])),
        )
    } else {
        moves_for(new_root, present, n - 1)
    }
}

/// The mount moves into `new_root`, skipping mounts that are not present.
pub fn mount_moves(new_root: &str, present: &Vec<bool>) -> (r: Vec<MountMove>)
    requires
        present@.len() == 4,
    ensures
        moves_view(r@) == moves_for(new_root@, present@, 4),
{
    let names = carried_mount_names();
    assert(names@.len() == names.deep_view().len());
    let mut out: Vec<MountMove> = Vec::new();
    let mut i: usize = 0;
    while i < 4
        invariant
            names.deep_view() == carried_mounts(),
            names@.len() == 4,
            present@.len() == 4,
            i <= 4,
            moves_view(out@) =~= moves_for(new_root@, present@, i as int),
        decreases 4 - i,
    {
        assert(names.deep_view()[i as int] == names@[i as int]@);
        if present[i] {
            let from = join("/", names[i].as_str());
            let to = join(new_root, names[i].as_str());
            let ghost before = moves_view(out@);
            out.push(MountMove { from, to });
            assert(moves_view(out@) =~= before.push((from@, to@))) by {
                assert forall|k: int| 0 <= k < before.len() implies moves_view(out@)[k] == before[k] by {}
            }
        }
        i += 1;
    }
    out
}

} // verus!
