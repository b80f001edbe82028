//! `layerctl doctor`: a health report of a store, from what was found on
//! disk.
use vstd::prelude::*;

use crate::storage::boot::{BootPresence, present_path};
use crate::storage::discover::{DiscoveredStore, DiscoveredView, StorePresence, discover, discovered};
use crate::storage::error::storage_error_message;
use crate::storage::validate::{RootProbe, root_checks};
use crate::ctl::commands::{check_lines, render_check};
use crate::text::{concat, concat3, join, join_path, opt_chars, owned};

verus! {

pub struct Check {
    pub description: String,
    pub ok: bool,
}

pub struct Report {
    pub checks: Vec<Check>,
}

pub open spec fn checks_of(v: Seq<Check>) -> Seq<(Seq<char>, bool)> {
    v.map_values(|c: Check| (c.description@, c.ok))
}

pub open spec fn all_pass(v: Seq<(Seq<char>, bool)>) -> bool {
    forall|i: int| 0 <= i < v.len() ==> (#[trigger] v[i]).1
}

impl Report {
    fn push(&mut self, description: String, ok: bool)
        ensures
            checks_of(final(self).checks@) == checks_of(old(self).checks@).push((description@, ok)),
    {
        let ghost before = checks_of(self.checks@);
        self.checks.push(Check { description, ok });
        assert(checks_of(self.checks@) =~= before.push((description@, ok)));
    }

    pub fn passed(&self) -> (r: bool)
        ensures
            r == all_pass(checks_of(self.checks@)),
    {
        let mut i: usize = 0;
        while i < self.checks.len()
            invariant
                i <= self.checks@.len(),
                forall|j: int| 0 <= j < i ==> (#[trigger] checks_of(self.checks@)[j]).1,
            decreases self.checks.len() - i,
        {
            if !self.checks[i].ok {
                assert(!checks_of(self.checks@)[i as int].1);
                return false;
            }
            i += 1;
        }
        true
    }
}

/// What the doctor found on disk for one store.
#[derive(Debug, Clone, Copy)]
pub struct DoctorProbe {
    /// The store root is a directory.
    pub store_is_dir: bool,
    /// Which layer directories the store has.
    pub layers: StorePresence,
    /// The backend's integrity check of each present layer (`base`,
    /// `update`, `update-head`, `override`, `data`); ignored for absent ones.
    pub layer_ok: StorePresence,
    /// `<store>/update` and `<store>/update-head` exist as anything at all
    /// (a dangling symlink included).
    pub update_pointer: bool,
    pub update_head_pointer: bool,
    /// Which boot generations resolve to directories.
    pub boot: BootPresence,
    /// `<store>/boot/<name>` exists as anything at all.
    pub boot_pointers: BootPresence,
    /// Whether each present boot generation has its kernel and initramfs.
    pub boot_kernels: BootPresence,
    pub boot_initramfs: BootPresence,
    /// The structural probe of BASE.
    pub base_root: RootProbe,
}

pub open spec fn layer_check(name: Seq<char>, path: Option<Seq<char>>, ok: bool) -> (Seq<char>, bool) {
    match path {
        None => (name + " layer is absent"@, true),
        Some(p) => (name + " layer: "@ + p, ok),
    }
}

pub open spec fn layer_checks(d: DiscoveredView, ok: StorePresence) -> Seq<(Seq<char>, bool)> {
    seq![
        layer_check("base"@, Some(d.base), ok.base),
        layer_check("update"@, d.update, ok.update),
        layer_check("update-head"@, d.update_head, ok.update_head),
        layer_check("override"@, d.override_layer, ok.override_layer),
        layer_check("data"@, d.data, ok.data),
    ]
}

pub open spec fn pointer_check(name: Seq<char>, exists: bool, resolved: bool) -> Seq<(Seq<char>, bool)> {
    if exists {
        seq![(name + " generation pointer resolves to a directory"@, resolved)]
    } else {
        seq![]
    }
}

/// A generation pointer that exists must resolve to a directory, and an
/// UPDATE_HEAD needs an UPDATE under it.
pub open spec fn generation_checks(d: DiscoveredView, p: DoctorProbe) -> Seq<(Seq<char>, bool)> {
    pointer_check("update"@, p.update_pointer, d.update is Some) + pointer_check(
        "update-head"@,
        p.update_head_pointer,
        d.update_head is Some,
    ) + seq![("update-head has an active update layer"@, d.update_head is None || d.update is Some)]
}

#[verifier::opaque]
pub open spec fn boot_checks_for(name: Seq<char>, present: bool, pointer: bool, kernel: bool, initramfs: bool) -> Seq<(Seq<char>, bool)> {
    (if pointer && !present {
        seq![("boot "@ + name + " generation pointer resolves to a directory"@, false)]
    } else {
        seq![]
    }) + if present {
        seq![
            ("boot "@ + name + " kernel exists"@, kernel),
            ("boot "@ + name + " initramfs exists"@, initramfs),
        ]
    } else {
        seq![]
    }
}

pub open spec fn boot_checks(p: DoctorProbe) -> Seq<(Seq<char>, bool)> {
    boot_checks_for("base"@, p.boot.base, p.boot_pointers.base, p.boot_kernels.base, p.boot_initramfs.base)
        + boot_checks_for("update"@, p.boot.update, p.boot_pointers.update, p.boot_kernels.update, p.boot_initramfs.update)
        + boot_checks_for("head"@, p.boot.head, p.boot_pointers.head, p.boot_kernels.head, p.boot_initramfs.head)
}

pub open spec fn prefixed(c: Seq<(Seq<char>, bool)>, prefix: Seq<char>) -> Seq<(Seq<char>, bool)> {
    c.map_values(|x: (Seq<char>, bool)| (prefix + x.0, x.1))
}

/// Every check the doctor makes, in order. Discovery failing ends the
/// report there.
pub open spec fn doctor_checks(root: Seq<char>, p: DoctorProbe) -> Seq<(Seq<char>, bool)> {
    let first = seq![("store directory exists: "@ + root, p.store_is_dir)];
    match discovered(root, p.layers) {
        Err(e) => first + seq![("layer discovery: "@ + storage_error_message(e), false)],
        Ok(d) => first + seq![("layer discovery"@, true)] + layer_checks(d, p.layer_ok)
            + generation_checks(d, p) + boot_checks(p) + prefixed(root_checks(p.base_root), "base root: "@),
    }
}

fn push_layer(report: &mut Report, name: &str, path: &Option<String>, ok: bool)
    ensures
        checks_of(final(report).checks@) == checks_of(old(report).checks@).push(layer_check(name@, opt_chars(*path), ok)),
{
    match path {
        None => report.push(concat(name, " layer is absent"), true),
        Some(p) => report.push(concat3(name, " layer: ", p.as_str()), ok),
    }
}

fn push_boot(report: &mut Report, name: &str, present: bool, pointer: bool, kernel: bool, initramfs: bool)
    ensures
        checks_of(final(report).checks@) == checks_of(old(report).checks@) + boot_checks_for(name@, present, pointer, kernel, initramfs),
{
    let ghost before = checks_of(report.checks@);
    reveal(boot_checks_for);
    if pointer && !present {
        report.push(concat3("boot ", name, " generation pointer resolves to a directory"), false);
    }
    if present {
        report.push(concat3("boot ", name, " kernel exists"), kernel);
        report.push(concat3("boot ", name, " initramfs exists"), initramfs);
    }
    assert(checks_of(report.checks@) =~= before + boot_checks_for(name@, present, pointer, kernel, initramfs));
}

fn push_layers(report: &mut Report, d: &DiscoveredStore, ok: StorePresence)
    ensures
        checks_of(final(report).checks@) == checks_of(old(report).checks@) + layer_checks(d@, ok),
{
    let ghost start = checks_of(report.checks@);
    push_layer(report, "base", &Some(d.base.clone()), ok.base);
    push_layer(report, "update", &d.update, ok.update);
    push_layer(report, "update-head", &d.update_head, ok.update_head);
    push_layer(report, "override", &d.override_layer, ok.override_layer);
    push_layer(report, "data", &d.data, ok.data);
    assert(checks_of(report.checks@) =~= start + layer_checks(d@, ok));
}

fn push_generation_links(report: &mut Report, d: &DiscoveredStore, p: DoctorProbe)
    ensures
        checks_of(final(report).checks@) == checks_of(old(report).checks@) + generation_checks(d@, p),
{
    let ghost mid = checks_of(report.checks@);
    if p.update_pointer {
        report.push(concat("update", " generation pointer resolves to a directory"), d.update.is_some());
    }
    if p.update_head_pointer {
        report.push(concat("update-head", " generation pointer resolves to a directory"), d.update_head.is_some());
    }
    report.push(owned("update-head has an active update layer"), d.update_head.is_none() || d.update.is_some());
    assert(checks_of(report.checks@) =~= mid + generation_checks(d@, p));
}

fn push_boot_all(report: &mut Report, p: DoctorProbe)
    ensures
        checks_of(final(report).checks@) == checks_of(old(report).checks@) + boot_checks(p),
{
    let ghost g0 = checks_of(report.checks@);
    let ghost b1 = boot_checks_for("base"@, p.boot.base, p.boot_pointers.base, p.boot_kernels.base, p.boot_initramfs.base);
    let ghost b2 = boot_checks_for("update"@, p.boot.update, p.boot_pointers.update, p.boot_kernels.update, p.boot_initramfs.update);
    let ghost b3 = boot_checks_for("head"@, p.boot.head, p.boot_pointers.head, p.boot_kernels.head, p.boot_initramfs.head);
    push_boot(report, "base", p.boot.base, p.boot_pointers.base, p.boot_kernels.base, p.boot_initramfs.base);
    push_boot(report, "update", p.boot.update, p.boot_pointers.update, p.boot_kernels.update, p.boot_initramfs.update);
    push_boot(report, "head", p.boot.head, p.boot_pointers.head, p.boot_kernels.head, p.boot_initramfs.head);
    assert(boot_checks(p) == b1 + b2 + b3);
    assert(checks_of(report.checks@) == g0 + b1 + b2 + b3);
    assert(g0 + b1 + b2 + b3 =~= g0 + (b1 + b2 + b3));
}

fn push_base_root(report: &mut Report, probe: RootProbe)
    ensures
        checks_of(final(report).checks@) == checks_of(old(report).checks@) + prefixed(root_checks(probe), "base root: "@),
{
    let ghost mid3 = checks_of(report.checks@);
    let root = crate::storage::validate::verify_root(probe);
    let mut i: usize = 0;
    while i < root.checks.len()
        invariant
            crate::storage::validate::checks_view(root.checks@) == root_checks(probe),
            i <= root.checks@.len(),
            checks_of(report.checks@) == mid3 + prefixed(root_checks(probe), "base root: "@).take(i as int),
        decreases root.checks.len() - i,
    {
        let ghost before = checks_of(report.checks@);
        let c = &root.checks[i];
        assert((c.description@, c.ok) == root_checks(probe)[i as int]);
        report.push(concat("base root: ", c.description.as_str()), c.ok);
        assert(prefixed(root_checks(probe), "base root: "@).take(i + 1) =~= prefixed(root_checks(probe), "base root: "@).take(i as int).push(("base root: "@ + c.description@, c.ok)));
        i += 1;
    }
    assert(prefixed(root_checks(probe), "base root: "@).take(root.checks@.len() as int) =~= prefixed(root_checks(probe), "base root: "@));
}

/// The doctor's report for the store at `store_root` (see `doctor_checks`).
pub fn inspect(store_root: &str, p: DoctorProbe) -> (r: Report)
    ensures
        checks_of(r.checks@) == doctor_checks(store_root@, p),
{
    let mut report = Report { checks: Vec::new() };
    assert(checks_of(report.checks@) =~= Seq::<(Seq<char>, bool)>::empty());
    report.push(concat("store directory exists: ", store_root), p.store_is_dir);
    let d = match discover(store_root, p.layers) {
        Ok(d) => d,
        Err(e) => {
            let m = e.message();
            report.push(concat("layer discovery: ", m.as_str()), false);
            assert(checks_of(report.checks@) =~= doctor_checks(store_root@, p));
            return report;
        },
    };
    report.push(owned("layer discovery"), true);
    let ghost a = checks_of(report.checks@);
    push_layers(&mut report, &d, p.layer_ok);
    push_generation_links(&mut report, &d, p);
    push_boot_all(&mut report, p);
    push_base_root(&mut report, p.base_root);
    assert(checks_of(report.checks@) =~= doctor_checks(store_root@, p));
    report
}

/// A healthy store: its root is a directory with a BASE; every layer it
/// has passes the backend's check; every generation pointer that exists
/// resolves; an UPDATE_HEAD sits on an UPDATE; every boot pointer that
/// exists resolves and every boot generation has its kernel and initramfs;
/// and BASE passes the structural checks.
pub open spec fn healthy(p: DoctorProbe) -> bool {
    &&& p.store_is_dir
    &&& p.layers.base && p.layer_ok.base
    &&& (p.layers.update ==> p.layer_ok.update)
    &&& (p.layers.update_head ==> p.layer_ok.update_head)
    &&& (p.layers.override_layer ==> p.layer_ok.override_layer)
    &&& (p.layers.data ==> p.layer_ok.data)
    &&& (p.update_pointer ==> p.layers.update)
    &&& (p.update_head_pointer ==> p.layers.update_head)
    &&& (p.layers.update_head ==> p.layers.update)
    &&& (p.boot_pointers.base ==> p.boot.base)
    &&& (p.boot_pointers.update ==> p.boot.update)
    &&& (p.boot_pointers.head ==> p.boot.head)
    &&& (p.boot.base ==> p.boot_kernels.base && p.boot_initramfs.base)
    &&& (p.boot.update ==> p.boot_kernels.update && p.boot_initramfs.update)
    &&& (p.boot.head ==> p.boot_kernels.head && p.boot_initramfs.head)
    &&& p.base_root.usr && p.base_root.etc && (p.base_root.bin || p.base_root.usr_bin)
}

proof fn lemma_all_pass_concat(a: Seq<(Seq<char>, bool)>, b: Seq<(Seq<char>, bool)>)
    ensures
        all_pass(a + b) <==> all_pass(a) && all_pass(b),
{
    if all_pass(a + b) {
        assert forall|i: int| 0 <= i < a.len() implies (#[trigger] a[i]).1 by {
            assert((a + b)[i] == a[i]);
        }
        assert forall|i: int| 0 <= i < b.len() implies (#[trigger] b[i]).1 by {
            assert((a + b)[a.len() + i] == b[i]);
        }
    }
    if all_pass(a) && all_pass(b) {
        assert forall|i: int| 0 <= i < (a + b).len() implies (#[trigger] (a + b)[i]).1 by {
            if i < a.len() {
                assert((a + b)[i] == a[i]);
            } else {
                assert((a + b)[i] == b[i - a.len()]);
            }
        }
    }
}

proof fn lemma_boot_for(name: Seq<char>, present: bool, pointer: bool, kernel: bool, initramfs: bool)
    ensures
        all_pass(boot_checks_for(name, present, pointer, kernel, initramfs)) <==> ((pointer ==> present)
            && (present ==> kernel && initramfs)),
{
    reveal(boot_checks_for);
    let a: Seq<(Seq<char>, bool)> = if pointer && !present {
        seq![("boot "@ + name + " generation pointer resolves to a directory"@, false)]
    } else {
        seq![]
    };
    let b: Seq<(Seq<char>, bool)> = if present {
        seq![("boot "@ + name + " kernel exists"@, kernel), ("boot "@ + name + " initramfs exists"@, initramfs)]
    } else {
        seq![]
    };
    lemma_all_pass_concat(a, b);
    if pointer && !present {
        assert(!a[0].1);
    }
    if present {
        assert(b[0].1 == kernel && b[1].1 == initramfs);
    }
}

/// The doctor passes a store exactly when it is healthy.
pub proof fn doctor_passes_iff_healthy(root: Seq<char>, p: DoctorProbe)
    ensures
        all_pass(doctor_checks(root, p)) <==> healthy(p),
{
    let first = seq![("store directory exists: "@ + root, p.store_is_dir)];
    if !p.layers.base {
        let c = doctor_checks(root, p);
        assert(!c[1].1);
    } else {
        let d = discovered(root, p.layers)->Ok_0;
        let l = layer_checks(d, p.layer_ok);
        let g = generation_checks(d, p);
        let b = boot_checks(p);
        let r = prefixed(root_checks(p.base_root), "base root: "@);
        let disc = seq![("layer discovery"@, true)];
        assert(doctor_checks(root, p) == first + disc + l + g + b + r);
        lemma_all_pass_concat(first + disc + l + g + b, r);
        lemma_all_pass_concat(first + disc + l + g, b);
        lemma_all_pass_concat(first + disc + l, g);
        lemma_all_pass_concat(first + disc, l);
        lemma_all_pass_concat(first, disc);
        assert(all_pass(first) <==> p.store_is_dir) by {
            if p.store_is_dir {
                assert forall|i: int| 0 <= i < first.len() implies (#[trigger] first[i]).1 by {}
            } else {
                assert(!first[0].1);
            }
        }
        assert(all_pass(disc)) by {
            assert forall|i: int| 0 <= i < disc.len() implies (#[trigger] disc[i]).1 by {}
        }
        assert(all_pass(l) <==> (p.layer_ok.base && (p.layers.update ==> p.layer_ok.update) && (
        p.layers.update_head ==> p.layer_ok.update_head) && (p.layers.override_layer
            ==> p.layer_ok.override_layer) && (p.layers.data ==> p.layer_ok.data))) by {
            if all_pass(l) {
                assert(l[0].1 && l[1].1 && l[2].1 && l[3].1 && l[4].1);
            }
        }
        let g1 = pointer_check("update"@, p.update_pointer, d.update is Some);
        let g2 = pointer_check("update-head"@, p.update_head_pointer, d.update_head is Some);
        let g3 = seq![("update-head has an active update layer"@, d.update_head is None || d.update is Some)];
        assert(g == g1 + g2 + g3);
        lemma_all_pass_concat(g1 + g2, g3);
        lemma_all_pass_concat(g1, g2);
        assert(all_pass(g1) <==> (p.update_pointer ==> p.layers.update)) by {
            if p.update_pointer && !p.layers.update {
                assert(!g1[0].1);
            }
        }
        assert(all_pass(g2) <==> (p.update_head_pointer ==> p.layers.update_head)) by {
            if p.update_head_pointer && !p.layers.update_head {
                assert(!g2[0].1);
            }
        }
        assert(all_pass(g3) <==> (p.layers.update_head ==> p.layers.update)) by {
            if !(p.layers.update_head ==> p.layers.update) {
                assert(!g3[0].1);
            }
        }
        let b1 = boot_checks_for("base"@, p.boot.base, p.boot_pointers.base, p.boot_kernels.base, p.boot_initramfs.base);
        let b2 = boot_checks_for("update"@, p.boot.update, p.boot_pointers.update, p.boot_kernels.update, p.boot_initramfs.update);
        let b3 = boot_checks_for("head"@, p.boot.head, p.boot_pointers.head, p.boot_kernels.head, p.boot_initramfs.head);
        lemma_all_pass_concat(b1 + b2, b3);
        lemma_all_pass_concat(b1, b2);
        lemma_boot_for("base"@, p.boot.base, p.boot_pointers.base, p.boot_kernels.base, p.boot_initramfs.base);
        lemma_boot_for("update"@, p.boot.update, p.boot_pointers.update, p.boot_kernels.update, p.boot_initramfs.update);
        lemma_boot_for("head"@, p.boot.head, p.boot_pointers.head, p.boot_kernels.head, p.boot_initramfs.head);
        assert(all_pass(r) <==> (p.base_root.usr && p.base_root.etc && (p.base_root.bin || p.base_root.usr_bin))) by {
            let rc = root_checks(p.base_root);
            assert(r.len() == 3);
            assert(r[0].1 == rc[0].1 && r[1].1 == rc[1].1 && r[2].1 == rc[2].1);
            if all_pass(r) {
                assert(r[0].1 && r[1].1 && r[2].1);
            } else {
                let i = choose|i: int| 0 <= i < r.len() && !(#[trigger] r[i]).1;
            }
        }
    }
}

/// A store with an UPDATE_HEAD but no UPDATE never passes.
pub proof fn head_without_update_fails(root: Seq<char>, p: DoctorProbe)
    requires
        p.layers.base,
        p.layers.update_head,
        !p.layers.update,
    ensures
        !all_pass(doctor_checks(root, p)),
{
    let d = discovered(root, p.layers)->Ok_0;
    let c = doctor_checks(root, p);
    let pre = seq![("store directory exists: "@ + root, p.store_is_dir)] + seq![("layer discovery"@, true)] + layer_checks(d, p.layer_ok);
    let g = generation_checks(d, p);
    let k = pre.len() + g.len() - 1;
    assert(g.last().1 == false);
    assert(c[k] == g.last());
}

/// A dangling generation pointer (it exists but resolves to no directory)
/// never passes.
pub proof fn dangling_pointer_fails(root: Seq<char>, p: DoctorProbe)
    requires
        p.layers.base,
        p.update_pointer,
        !p.layers.update,
    ensures
        !all_pass(doctor_checks(root, p)),
{
    let d = discovered(root, p.layers)->Ok_0;
    let c = doctor_checks(root, p);
    let pre = seq![("store directory exists: "@ + root, p.store_is_dir)] + seq![("layer discovery"@, true)] + layer_checks(d, p.layer_ok);
    assert(c[pre.len() as int] == pointer_check("update"@, true, false)[0]);
}

/// The lines the doctor prints, one per check in order.
pub fn report_lines(report: &Report) -> (r: Vec<String>)
    ensures
        r.deep_view() == check_lines(checks_of(report.checks@)),
{
    let ghost cv = checks_of(report.checks@);
    let mut out: Vec<String> = Vec::new();
    let mut i: usize = 0;
    while i < report.checks.len()
        invariant
            cv == checks_of(report.checks@),
            i <= cv.len(),
            out.deep_view() =~= check_lines(cv).take(i as int),
        decreases report.checks.len() - i,
    {
        let line = render_check(report.checks[i].description.as_str(), report.checks[i].ok);
        let ghost before = out.deep_view();
        out.push(line);
        proof {
            assert(out.deep_view() =~= before.push(line@));
            assert(check_lines(cv).take(i + 1) =~= check_lines(cv).take(i as int).push(
                check_lines(cv)[i as int],
            ));
        }
        i += 1;
    }
    assert(check_lines(cv).take(cv.len() as int) =~= check_lines(cv));
    out
}

/// `layerctl doctor`: the report's lines, and success exactly when every
/// check passed (else the error `doctor found problems`).
pub fn run(store_root: &str, p: DoctorProbe) -> (r: (Vec<String>, Result<(), String>))
    ensures
        r.0.deep_view() == check_lines(doctor_checks(store_root@, p)),
        r.1 is Ok <==> all_pass(doctor_checks(store_root@, p)),
        r.1 is Err ==> r.1->Err_0@ == "doctor found problems"@,
{
    let report = inspect(store_root, p);
    let lines = report_lines(&report);
    if report.passed() {
        (lines, Ok(()))
    } else {
        let e = owned("doctor found problems");
        proof {
            reveal_strlit("doctor found problems");
        }
        (lines, Err(e))
    }
}

} // verus!
