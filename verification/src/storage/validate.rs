//! Structural validation of an assembled (or candidate) root.
use vstd::prelude::*;

use crate::text::{join, join_path, owned};

verus! {

pub struct Check {
    pub description: String,
    pub ok: bool,
}

pub struct Report {
    pub checks: Vec<Check>,
}

pub open spec fn checks_view(v: Seq<Check>) -> Seq<(Seq<char>, bool)> {
    v.map_values(|c: Check| (c.description@, c.ok))
}

pub open spec fn all_ok(v: Seq<(Seq<char>, bool)>) -> bool {
    forall|i: int| 0 <= i < v.len() ==> (#[trigger] v[i]).1
}

impl Report {
    pub fn passed(&self) -> (r: bool)
        ensures
            r == all_ok(checks_view(self.checks@)),
    {
        let mut i: usize = 0;
        while i < self.checks.len()
            invariant
                i <= self.checks@.len(),
                forall|j: int| 0 <= j < i ==> (#[trigger] checks_view(self.checks@)[j]).1,
            decreases self.checks.len() - i,
        {
            if !self.checks[i].ok {
                assert(!checks_view(self.checks@)[i as int].1);
                return false;
            }
            i += 1;
        }
        true
    }
}

/// Which of `usr`, `etc`, `bin` and `usr/bin` exist under the layer root.
#[derive(Debug, Clone, Copy, PartialEq, Eq, Structural)]
pub struct RootProbe {
    pub usr: bool,
    pub etc: bool,
    pub bin: bool,
    pub usr_bin: bool,
}

/// The paths whose existence a `RootProbe` records, in field order.
pub fn probe_paths(root: &str) -> (r: Vec<String>)
    ensures
        r.deep_view() == seq![
            join_path(root@, "usr"@),
            join_path(root@, "etc"@),
            join_path(root@, "bin"@),
            join_path(root@, "usr/bin"@),
        ],
{
    let r = vec![join(root, "usr"), join(root, "etc"), join(root, "bin"), join(root, "usr/bin")];
    assert(r.deep_view() =~= seq![
        join_path(root@, "usr"@),
        join_path(root@, "etc"@),
        join_path(root@, "bin"@),
        join_path(root@, "usr/bin"@),
    ]);
    r
}

/// The three structural checks, in order: `/usr`, `/etc`, and `/bin` or
/// `/usr/bin`.
pub open spec fn root_checks(p: RootProbe) -> Seq<(Seq<char>, bool)> {
    seq![
        ("/usr exists"@, p.usr),
        ("/etc exists"@, p.etc),
        ("/bin or /usr/bin exists"@, p.bin || p.usr_bin),
    ]
}

/// MVP structural validation for an assembled (or candidate) root: proves
/// it is structurally plausible, not that it will boot — rollback exists
/// precisely because some failures can only be discovered during boot.
pub fn verify_root(probe: RootProbe) -> (r: Report)
    ensures
        checks_view(r.checks@) == root_checks(probe),
{
    let checks = vec![
        Check { description: owned("/usr exists"), ok: probe.usr },
        Check { description: owned("/etc exists"), ok: probe.etc },
        Check { description: owned("/bin or /usr/bin exists"), ok: probe.bin || probe.usr_bin },
    ];
    assert(checks_view(checks@) =~= root_checks(probe));
    Report { checks }
}

/// A root passes exactly when `/usr` and `/etc` exist and one of `/bin`
/// and `/usr/bin` does.
pub proof fn root_passes_iff(p: RootProbe)
    ensures
        all_ok(root_checks(p)) <==> (p.usr && p.etc && (p.bin || p.usr_bin)),
{
    if all_ok(root_checks(p)) {
        assert(root_checks(p)[0].1 && root_checks(p)[1].1 && root_checks(p)[2].1);
    }
}

} // verus!
