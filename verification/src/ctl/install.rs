//! `layerctl install`: converting a static source tree into a store, and
//! wrapping real package-manager binaries with their LayerFS adapters.
use vstd::prelude::*;

use crate::semantics::path_class::{data_mount_names, data_mounts, virtual_mount_names, virtual_mounts};
use crate::text::{concat, concat3, eq_str, join, join_path, owned};

verus! {

/// Real binary names each named adapter stands in for.
pub open spec fn known_integration(name: Seq<char>) -> Option<Seq<Seq<char>>> {
    if name == "dnf"@ {
        Some(seq!["dnf"@])
    } else if name == "apt"@ {
        Some(seq!["apt-get"@, "apt"@])
    } else if name == "pacman"@ {
        Some(seq!["pacman"@])
    } else {
        None
    }
}

fn known_integration_exec(name: &str) -> (r: Option<Vec<&'static str>>)
    ensures
        match (r, known_integration(name@)) {
            (Some(a), Some(b)) => a@.len() == b.len() && forall|i: int| 0 <= i < b.len() ==> (#[trigger] a@[i])@ == b[i],
            (None, None) => true,
            _ => false,
        },
{
    if eq_str(name, "dnf") {
        Some(vec!["dnf"])
    } else if eq_str(name, "apt") {
        Some(vec!["apt-get", "apt"])
    } else if eq_str(name, "pacman") {
        Some(vec!["pacman"])
    } else {
        None
    }
}

/// One file operation of wrapping real binaries.
#[derive(Debug)]
pub enum IntegrationStep {
    /// Copy the built adapter binary `from` to `to` (`usr/bin/layerfs-<name>`).
    CopyAdapter { from: String, to: String },
    /// Rename the real binary `target` to `backup`, then make `target` a
    /// symlink to `link`; `note` reports it.
    Wrap { target: String, backup: String, link: String, note: String },
}

pub enum IntegrationStepView {
    CopyAdapter { from: Seq<char>, to: Seq<char> },
    Wrap { target: Seq<char>, backup: Seq<char>, link: Seq<char>, note: Seq<char> },
}

impl View for IntegrationStep {
    type V = IntegrationStepView;

    open spec fn view(&self) -> IntegrationStepView {
        match self {
            IntegrationStep::CopyAdapter { from, to } => IntegrationStepView::CopyAdapter {
                from: from@,
                to: to@,
            },
            IntegrationStep::Wrap { target, backup, link, note } => IntegrationStepView::Wrap {
                target: target@,
                backup: backup@,
                link: link@,
                note: note@,
            },
        }
    }
}

pub open spec fn steps_view(v: Seq<IntegrationStep>) -> Seq<IntegrationStepView> {
    v.map_values(|s: IntegrationStep| s@)
}

pub open spec fn usr_bin(base: Seq<char>) -> Seq<char> {
    join_path(base, "usr/bin"@)
}

/// `<exe> -> layerfs-<name> (real preserved as <exe>.layerfs-real)`.
pub open spec fn wrap_note(exe: Seq<char>, name: Seq<char>) -> Seq<char> {
    exe + " -> layerfs-"@ + name + " (real preserved as "@ + exe + ".layerfs-real)"@
}

pub open spec fn wrap_step(base: Seq<char>, name: Seq<char>, exe: Seq<char>) -> IntegrationStepView {
    IntegrationStepView::Wrap {
        target: join_path(usr_bin(base), exe),
        backup: join_path(usr_bin(base), exe + ".layerfs-real"@),
        link: "layerfs-"@ + name,
        note: wrap_note(exe, name),
    }
}

/// The steps for the candidates `cands[from..]` of one integration: each
/// present real binary is wrapped; the adapter is copied in once, before
/// the first of them.
pub open spec fn wrap_steps(
    base: Seq<char>,
    name: Seq<char>,
    bin: Seq<char>,
    cands: Seq<Seq<char>>,
    present: Seq<Seq<char>>,
    installed: bool,
) -> Seq<IntegrationStepView>
    decreases cands.len(),
{
    if cands.len() == 0 {
        seq![]
    } else if !present.contains(cands[0]) {
        wrap_steps(base, name, bin, cands.drop_first(), present, installed)
    } else {
        let copy = if installed {
            seq![]
        } else {
            seq![
                IntegrationStepView::CopyAdapter {
                    from: bin,
                    to: join_path(usr_bin(base), "layerfs-"@ + name),
                },
            ]
        };
        copy + seq![wrap_step(base, name, cands[0])] + wrap_steps(
            base,
            name,
            bin,
            cands.drop_first(),
            present,
            true,
        )
    }
}

/// The first adapter binary given for `name`.
pub open spec fn adapter_bin_for(bins: Seq<(Seq<char>, Seq<char>)>, name: Seq<char>) -> Option<Seq<char>>
    decreases bins.len(),
{
    if bins.len() == 0 {
        None
    } else if bins[0].0 == name {
        Some(bins[0].1)
    } else {
        adapter_bin_for(bins.drop_first(), name)
    }
}

/// The steps for one integration, or why it cannot be activated: an
/// unknown name, or no adapter binary given for it.
pub open spec fn integration_steps(
    base: Seq<char>,
    name: Seq<char>,
    bins: Seq<(Seq<char>, Seq<char>)>,
    present: Seq<Seq<char>>,
) -> Result<Seq<IntegrationStepView>, Seq<char>> {
    match known_integration(name) {
        None => Err("unknown integration: "@ + name),
        Some(cands) => match adapter_bin_for(bins, name) {
            None => Err("--adapter-bin required for integration: "@ + name),
            Some(bin) => Ok(wrap_steps(base, name, bin, cands, present, false)),
        },
    }
}

/// The plan for all integrations, in order: the steps of those before the
/// first that cannot be activated, and that refusal, if any.
pub open spec fn integration_plan(
    base: Seq<char>,
    names: Seq<Seq<char>>,
    bins: Seq<(Seq<char>, Seq<char>)>,
    present: Seq<Seq<char>>,
) -> (Seq<IntegrationStepView>, Option<Seq<char>>)
    decreases names.len(),
{
    if names.len() == 0 {
        (seq![], None)
    } else {
        let (steps, err) = integration_plan(base, names.drop_last(), bins, present);
        if err is Some {
            (steps, err)
        } else {
            match integration_steps(base, names.last(), bins, present) {
                Ok(s) => (steps + s, None),
                Err(e) => (steps, Some(e)),
            }
        }
    }
}

/// What activating the integrations does.
pub struct IntegrationPlan {
    /// File operations to perform, in order.
    pub steps: Vec<IntegrationStep>,
    /// The refusal to report after performing them, if an integration
    /// cannot be activated.
    pub error: Option<String>,
}

fn adapter_bin(bins: &Vec<(String, String)>, name: &str) -> (r: Option<String>)
    ensures
        match (r, adapter_bin_for(bins@.map_values(|p: (String, String)| (p.0@, p.1@)), name@)) {
            (Some(a), Some(b)) => a@ == b,
            (None, None) => true,
            _ => false,
        },
{
    let ghost bv = bins@.map_values(|p: (String, String)| (p.0@, p.1@));
    let mut i: usize = 0;
    assert(bv.skip(0) =~= bv);
    while i < bins.len()
        invariant
            bv == bins@.map_values(|p: (String, String)| (p.0@, p.1@)),
            i <= bv.len(),
            adapter_bin_for(bv, name@) == adapter_bin_for(bv.skip(i as int), name@),
        decreases bins.len() - i,
    {
        assert(bv.skip(i as int)[0] == bv[i as int]);
        assert(bv.skip(i as int).drop_first() =~= bv.skip(i + 1));
        if eq_str(bins[i].0.as_str(), name) {
            return Some(bins[i].1.clone());
        }
        i += 1;
    }
    assert(bv.skip(i as int).len() == 0);
    None
}

fn is_present(present: &Vec<String>, exe: &str) -> (r: bool)
    ensures
        r == present.deep_view().contains(exe@),
{
    let mut i: usize = 0;
    while i < present.len()
        invariant
            i <= present@.len(),
            forall|k: int| 0 <= k < i ==> present.deep_view()[k] != exe@,
        decreases present.len() - i,
    {
        if eq_str(present[i].as_str(), exe) {
            assert(present.deep_view()[i as int] == exe@);
            return true;
        }
        i += 1;
    }
    false
}

fn integration_steps_exec(
    base: &str,
    name: &str,
    bins: &Vec<(String, String)>,
    present: &Vec<String>,
    out: &mut Vec<IntegrationStep>,
) -> (r: Option<String>)
    ensures
        match integration_steps(base@, name@, bins@.map_values(|p: (String, String)| (p.0@, p.1@)), present.deep_view()) {
            Ok(s) => r is None && steps_view(final(out)@) == steps_view(old(out)@) + s,
            Err(e) => r matches Some(m) && m@ == e && final(out)@ == old(out)@,
        },
{
    let cands = match known_integration_exec(name) {
        Some(c) => c,
        None => return Some(concat("unknown integration: ", name)),
    };
    let bin = match adapter_bin(bins, name) {
        Some(b) => b,
        None => return Some(concat("--adapter-bin required for integration: ", name)),
    };
    let ghost cv = cands@.map_values(|c: &str| c@);
    assert(cv =~= known_integration(name@)->0);
    let ghost pv = present.deep_view();
    let ubin = join(base, "usr/bin");
    let link = concat("layerfs-", name);
    let mut installed = false;
    let mut i: usize = 0;
    let ghost start = steps_view(out@);
    assert(cv.skip(0) =~= cv);
    while i < cands.len()
        invariant
            cv == cands@.map_values(|c: &str| c@),
            pv == present.deep_view(),
            ubin@ == usr_bin(base@),
            link@ == "layerfs-"@ + name@,
            i <= cv.len(),
            steps_view(out@) + wrap_steps(base@, name@, bin@, cv.skip(i as int), pv, installed)
                == start + wrap_steps(base@, name@, bin@, cv, pv, false),
        decreases cands.len() - i,
    {
        let exe = cands[i];
        assert(cv.skip(i as int)[0] == exe@);
        assert(cv.skip(i as int).drop_first() =~= cv.skip(i + 1));
        if is_present(present, exe) {
            let ghost before = steps_view(out@);
            let ghost copy = if installed {
                Seq::<IntegrationStepView>::empty()
            } else {
                seq![
                    IntegrationStepView::CopyAdapter {
                        from: bin@,
                        to: join_path(usr_bin(base@), "layerfs-"@ + name@),
                    },
                ]
            };
            if !installed {
                out.push(IntegrationStep::CopyAdapter { from: bin.clone(), to: join(ubin.as_str(), link.as_str()) });
                installed = true;
            }
            assert(steps_view(out@) =~= before + copy);
            let backup_name = concat(exe, ".layerfs-real");
            let a = concat3(exe, " -> layerfs-", name);
            let b = concat3(a.as_str(), " (real preserved as ", exe);
            let note = concat(b.as_str(), ".layerfs-real)");
            let step = IntegrationStep::Wrap {
                target: join(ubin.as_str(), exe),
                backup: join(ubin.as_str(), backup_name.as_str()),
                link: link.clone(),
                note,
            };
            assert(step@ == wrap_step(base@, name@, exe@));
            let ghost mid = steps_view(out@);
            out.push(step);
            assert(steps_view(out@) =~= mid.push(wrap_step(base@, name@, exe@)));
            assert(steps_view(out@) + wrap_steps(base@, name@, bin@, cv.skip(i + 1), pv, true) =~= before + (copy + seq![wrap_step(base@, name@, exe@)] + wrap_steps(base@, name@, bin@, cv.skip(i + 1), pv, true)));
        }
        i += 1;
    }
    assert(cv.skip(i as int).len() == 0);
    assert(steps_view(out@) + Seq::<IntegrationStepView>::empty() =~= steps_view(out@));
    None
}

/// Plans wrapping each present real binary of each named integration as
/// `usr/bin/layerfs-<name>` (the real one preserved as
/// `<real_name>.layerfs-real`). `present` lists the names under
/// `<base>/usr/bin` that exist. An unrecognized name, or one without an
/// adapter binary, stops the plan there with its refusal — it is never
/// booted silently inactive, nor left a symlink that points nowhere.
pub fn plan_integrations(
    base: &str,
    integrations: &Vec<String>,
    adapter_bins: &Vec<(String, String)>,
    present: &Vec<String>,
) -> (r: IntegrationPlan)
    ensures
        ({
            let (steps, err) = integration_plan(
                base@,
                integrations.deep_view(),
                adapter_bins@.map_values(|p: (String, String)| (p.0@, p.1@)),
                present.deep_view(),
            );
            steps_view(r.steps@) == steps && match (r.error, err) {
                (Some(a), Some(b)) => a@ == b,
                (None, None) => true,
                _ => false,
            }
        }),
{
    let ghost names = integrations.deep_view();
    let ghost bv = adapter_bins@.map_values(|p: (String, String)| (p.0@, p.1@));
    let mut steps: Vec<IntegrationStep> = Vec::new();
    let mut i: usize = 0;
    assert(steps_view(steps@) =~= Seq::<IntegrationStepView>::empty());
    while i < integrations.len()
        invariant
            names == integrations.deep_view(),
            bv == adapter_bins@.map_values(|p: (String, String)| (p.0@, p.1@)),
            i <= names.len(),
            integration_plan(base@, names.take(i as int), bv, present.deep_view()) == (steps_view(steps@), None::<Seq<char>>),
        decreases integrations.len() - i,
    {
        assert(names.take(i + 1).drop_last() =~= names.take(i as int));
        assert(names.take(i + 1).last() == integrations[i as int]@);
        match integration_steps_exec(base, integrations[i].as_str(), adapter_bins, present, &mut steps) {
            Some(e) => {
                proof {
                    lemma_plan_error_sticks(base@, names, bv, present.deep_view(), i + 1, names.len() as int);
                    assert(names.take(names.len() as int) =~= names);
                }
                return IntegrationPlan { steps, error: Some(e) };
            },
            None => {},
        }
        i += 1;
    }
    assert(names.take(names.len() as int) =~= names);
    IntegrationPlan { steps, error: None }
}

pub proof fn lemma_plan_error_sticks(
    base: Seq<char>,
    names: Seq<Seq<char>>,
    bins: Seq<(Seq<char>, Seq<char>)>,
    present: Seq<Seq<char>>,
    j: int,
    k: int,
)
    requires
        0 <= j <= k <= names.len(),
        integration_plan(base, names.take(j), bins, present).1 is Some,
    ensures
        integration_plan(base, names.take(k), bins, present) == integration_plan(base, names.take(j), bins, present),
    decreases k - j,
{
    if k > j {
        lemma_plan_error_sticks(base, names, bins, present, j, k - 1);
        assert(names.take(k).drop_last() =~= names.take(k - 1));
    }
}

// ---------------------------------------------------------------------
// Store layout
// ---------------------------------------------------------------------
/// The refusals before anything is written: the source must be a
/// directory, and the store must not have a BASE yet.
pub open spec fn install_refusal(source: Seq<char>, source_is_dir: bool, base: Seq<char>, base_exists: bool) -> Option<Seq<char>> {
    if !source_is_dir {
        Some(source + " is not a directory"@)
    } else if base_exists {
        Some(base + " already has a base layer"@)
    } else {
        None
    }
}

pub fn install_check(source: &str, source_is_dir: bool, base: &str, base_exists: bool) -> (r: Option<String>)
    ensures
        match (r, install_refusal(source@, source_is_dir, base@, base_exists)) {
            (Some(a), Some(b)) => a@ == b,
            (None, None) => true,
            _ => false,
        },
{
    if !source_is_dir {
        Some(concat(source, " is not a directory"))
    } else if base_exists {
        Some(concat(base, " already has a base layer"))
    } else {
        None
    }
}

/// The moves that extract DATA out of the new BASE:
/// `(<base>/<name>, <data>/<name>)` per DATA mount name; those whose
/// source is not a directory are skipped by the caller.
pub fn data_moves(base: &str, data_root: &str) -> (r: Vec<(String, String)>)
    ensures
        r@.map_values(|p: (String, String)| (p.0@, p.1@)) == data_mount_names().map_values(
            |n: Seq<char>| (join_path(base@, n), join_path(data_root@, n)),
        ),
{
    crate::storage::overlay::data_binds(base, data_root)
}

/// The virtual filesystem mount points BASE must carry as plain empty
/// directories: `<base>/<name>` per virtual mount name.
pub fn virtual_mount_dirs(base: &str) -> (r: Vec<String>)
    ensures
        r.deep_view() == virtual_mount_names().map_values(|n: Seq<char>| join_path(base@, n)),
{
    let names = virtual_mounts();
    let mut out: Vec<String> = Vec::new();
    let mut i: usize = 0;
    while i < names.len()
        invariant
            names@.len() == virtual_mount_names().len(),
            forall|k: int| 0 <= k < names@.len() ==> (#[trigger] names@[k])@ == virtual_mount_names()[k],
            i <= names@.len(),
            out.deep_view() == virtual_mount_names().take(i as int).map_values(|n: Seq<char>| join_path(base@, n)),
        decreases names.len() - i,
    {
        let ghost before = out.deep_view();
        let p = join(base, names[i]);
        let ghost pv = p@;
        out.push(p);
        assert(out.deep_view() =~= before.push(pv));
        assert(virtual_mount_names().take(i + 1).map_values(|n: Seq<char>| join_path(base@, n)) =~= virtual_mount_names().take(i as int).map_values(|n: Seq<char>| join_path(base@, n)).push(pv));
        i += 1;
    }
    assert(virtual_mount_names().take(names@.len() as int) =~= virtual_mount_names());
    out
}

/// Where the GRUB entries generator is installed in BASE, so that
/// `grub2-mkconfig` picks it up: `etc/grub.d/41_layerfs` (its directory
/// must exist: not a GRUB system otherwise).
pub fn grub_entries_dest(base: &str) -> (r: (String, String))
    ensures
        r.0@ == join_path(base@, "etc/grub.d"@),
        r.1@ == join_path(join_path(base@, "etc/grub.d"@), "41_layerfs"@),
{
    let dir = join(base, "etc/grub.d");
    let dest = join(dir.as_str(), "41_layerfs");
    (dir, dest)
}

} // verus!
