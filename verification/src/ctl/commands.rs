//! What each `layerctl` command decides and reports, apart from the file
//! operations it performs: the dispatch of an invocation, the lines it
//! prints, the paths it acts on and the errors it refuses with.
use vstd::prelude::*;

use crate::ctl::cli::{Command, CommandView, Invocation};
use crate::ctl::walk::{Entry, EntryKind};
use crate::storage::discover::DiscoveredStore;
use crate::storage::live_update::{Outcome, OutcomeView};
use crate::text::{concat, concat3, join, join_path, join_sep, join_with, opt_chars, owned, push_decimal, decimal};

verus! {

// ---------------------------------------------------------------------
// Dispatch
// ---------------------------------------------------------------------
/// An invocation ready to be carried out: the store it acts on and the
/// command.
#[derive(Debug)]
pub struct Task {
    pub store_root: String,
    pub command: Command,
}

pub open spec fn resolved_store(store: Option<Seq<char>>) -> Seq<char> {
    match store {
        Some(s) => s,
        None => crate::ctl::store::default_store(),
    }
}

pub open spec fn rebuild_refusal(target: Seq<char>) -> Seq<char> {
    "layerctl rebuild "@ + target + ": not implemented yet"@
}

/// Executes a parsed invocation as far as deciding goes: the store root it
/// acts on (`--store`, else the default), or the refusal of `rebuild`,
/// which is not implemented yet.
pub fn run(invocation: Invocation) -> (r: Result<Task, String>)
    ensures
        (match invocation.command@ {
            CommandView::Rebuild { target } => r is Err && r->Err_0@ == rebuild_refusal(target),
            _ => r is Ok && r->Ok_0.store_root@ == resolved_store(opt_chars(invocation.store))
                && r->Ok_0.command@ == invocation.command@,
        }),
{
    let store_root = crate::ctl::store::resolve(&invocation.store);
    match invocation.command {
        Command::Rebuild { target } => Err(concat3("layerctl rebuild ", target.as_str(), ": not implemented yet")),
        command => Ok(Task { store_root, command }),
    }
}

/// `<store>/boot`, where the boot generations live.
pub fn boot_store(store_root: &str) -> (r: String)
    ensures
        r@ == join_path(store_root@, "boot"@),
{
    join(store_root, "boot")
}

// ---------------------------------------------------------------------
// Check reports
// ---------------------------------------------------------------------
/// `[ok] <description>` or `[FAIL] <description>`.
pub open spec fn check_line(description: Seq<char>, ok: bool) -> Seq<char> {
    (if ok {
        "[ok] "@
    } else {
        "[FAIL] "@
    }) + description
}

pub open spec fn check_lines(checks: Seq<(Seq<char>, bool)>) -> Seq<Seq<char>> {
    checks.map_values(|c: (Seq<char>, bool)| check_line(c.0, c.1))
}

/// The printed line of one check.
pub fn render_check(description: &str, ok: bool) -> (r: String)
    ensures
        r@ == check_line(description@, ok),
{
    if ok {
        concat("[ok] ", description)
    } else {
        concat("[FAIL] ", description)
    }
}

/// The lines of a validation report, one per check in order.
pub fn validation_lines(report: &crate::storage::validate::Report) -> (r: Vec<String>)
    ensures
        r.deep_view() == check_lines(crate::storage::validate::checks_view(report.checks@)),
{
    let ghost cv = crate::storage::validate::checks_view(report.checks@);
    let mut out: Vec<String> = Vec::new();
    let mut i: usize = 0;
    while i < report.checks.len()
        invariant
            cv == crate::storage::validate::checks_view(report.checks@),
            i <= cv.len(),
            out.deep_view() =~= check_lines(cv).take(i as int),
        decreases report.checks.len() - i,
    {
        let line = render_check(report.checks[i].description.as_str(), report.checks[i].ok);
        let ghost before = out.deep_view();
        out.push(line);
        proof {
            assert(out.deep_view() =~= before.push(line@));
            assert(check_lines(cv).take(i + 1) =~= check_lines(cv).take(i as int).push(
                check_lines(cv)[i as int],
            ));
        }
        i += 1;
    }
    assert(check_lines(cv).take(cv.len() as int) =~= check_lines(cv));
    out
}

/// `verify`'s outcome: success when every check passed.
pub fn verify_outcome(report: &crate::storage::validate::Report) -> (r: Result<(), String>)
    ensures
        r is Ok <==> crate::storage::validate::all_ok(crate::storage::validate::checks_view(report.checks@)),
        r is Err ==> r->Err_0@ == "verification failed"@,
{
    if report.passed() {
        Ok(())
    } else {
        let r = owned("verification failed");
        proof {
            reveal_strlit("verification failed");
        }
        Err(r)
    }
}

/// `install`'s last step: the installed base must pass validation.
pub fn install_outcome(report: &crate::storage::validate::Report) -> (r: Result<(), String>)
    ensures
        r is Ok <==> crate::storage::validate::all_ok(crate::storage::validate::checks_view(report.checks@)),
        r is Err ==> r->Err_0@ == "installed base failed validation"@,
{
    if report.passed() {
        Ok(())
    } else {
        let r = owned("installed base failed validation");
        proof {
            reveal_strlit("installed base failed validation");
        }
        Err(r)
    }
}

// ---------------------------------------------------------------------
// inspect and diff
// ---------------------------------------------------------------------
pub open spec fn present_marker(kind: EntryKind) -> Seq<char> {
    match kind {
        EntryKind::Whiteout => "whiteout"@,
        EntryKind::Present => "present "@,
    }
}

/// `<marker>  /<path>`.
pub open spec fn entry_line(marker: Seq<char>, path: Seq<char>) -> Seq<char> {
    marker + "  /"@ + path
}

/// What `inspect` prints: `<layer>: empty`, or one line per entry.
pub open spec fn inspect_report(layer: Seq<char>, entries: Seq<(Seq<char>, EntryKind)>) -> Seq<Seq<char>> {
    if entries.len() == 0 {
        seq![layer + ": empty"@]
    } else {
        entries.map_values(|e: (Seq<char>, EntryKind)| entry_line(present_marker(e.1), e.0))
    }
}

/// How an entry of a layer changes the layer below it.
pub open spec fn diff_marker(kind: EntryKind, exists_below: bool) -> Seq<char> {
    match kind {
        EntryKind::Whiteout => "removed "@,
        EntryKind::Present => if exists_below {
            "modified"@
        } else {
            "added   "@
        },
    }
}

/// What `diff` prints: `<layer>: no changes`, or one line per entry.
pub open spec fn diff_report(layer: Seq<char>, entries: Seq<(Seq<char>, EntryKind)>, below: Seq<bool>) -> Seq<Seq<char>> {
    if entries.len() == 0 {
        seq![layer + ": no changes"@]
    } else {
        Seq::new(entries.len(), |i: int| entry_line(diff_marker(entries[i].1, below[i]), entries[i].0))
    }
}

fn marker_of(kind: EntryKind) -> (r: &'static str)
    ensures
        r@ == present_marker(kind),
{
    match kind {
        EntryKind::Whiteout => "whiteout",
        EntryKind::Present => "present ",
    }
}

fn diff_marker_of(kind: EntryKind, exists_below: bool) -> (r: &'static str)
    ensures
        r@ == diff_marker(kind, exists_below),
{
    match kind {
        EntryKind::Whiteout => "removed ",
        EntryKind::Present => if exists_below {
            "modified"
        } else {
            "added   "
        },
    }
}

/// The lines `inspect` prints for the entries of `layer`.
pub fn inspect_lines(layer: &str, entries: &Vec<Entry>) -> (r: Vec<String>)
    ensures
        r.deep_view() == inspect_report(layer@, crate::ctl::walk::entries_view(entries@)),
{
    let ghost ev = crate::ctl::walk::entries_view(entries@);
    let mut out: Vec<String> = Vec::new();
    if entries.len() == 0 {
        out.push(concat(layer, ": empty"));
        assert(out.deep_view() =~= inspect_report(layer@, ev));
        return out;
    }
    let mut i: usize = 0;
    while i < entries.len()
        invariant
            ev == crate::ctl::walk::entries_view(entries@),
            ev.len() > 0,
            i <= ev.len(),
            out.deep_view() =~= inspect_report(layer@, ev).take(i as int),
        decreases entries.len() - i,
    {
        let line = concat3(marker_of(entries[i].kind), "  /", entries[i].path.as_str());
        let ghost before = out.deep_view();
        out.push(line);
        proof {
            assert(out.deep_view() =~= before.push(line@));
            assert(inspect_report(layer@, ev).take(i + 1) =~= inspect_report(layer@, ev).take(
                i as int,
            ).push(inspect_report(layer@, ev)[i as int]));
        }
        i += 1;
    }
    assert(inspect_report(layer@, ev).take(ev.len() as int) =~= inspect_report(layer@, ev));
    out
}

/// The lines `diff` prints for the entries of `layer`; `exists_below[i]`
/// says whether the layer below (if there is one) has the path of entry
/// `i`.
pub fn diff_lines(layer: &str, entries: &Vec<Entry>, exists_below: &Vec<bool>) -> (r: Vec<String>)
    requires
        exists_below@.len() == entries@.len(),
    ensures
        r.deep_view() == diff_report(layer@, crate::ctl::walk::entries_view(entries@), exists_below@),
{
    let ghost ev = crate::ctl::walk::entries_view(entries@);
    let mut out: Vec<String> = Vec::new();
    if entries.len() == 0 {
        out.push(concat(layer, ": no changes"));
        assert(out.deep_view() =~= diff_report(layer@, ev, exists_below@));
        return out;
    }
    let mut i: usize = 0;
    while i < entries.len()
        invariant
            ev == crate::ctl::walk::entries_view(entries@),
            exists_below@.len() == ev.len(),
            ev.len() > 0,
            i <= ev.len(),
            out.deep_view() =~= diff_report(layer@, ev, exists_below@).take(i as int),
        decreases entries.len() - i,
    {
        let line = concat3(
            diff_marker_of(entries[i].kind, exists_below[i]),
            "  /",
            entries[i].path.as_str(),
        );
        let ghost before = out.deep_view();
        out.push(line);
        proof {
            assert(out.deep_view() =~= before.push(line@));
            assert(diff_report(layer@, ev, exists_below@).take(i + 1) =~= diff_report(
                layer@,
                ev,
                exists_below@,
            ).take(i as int).push(diff_report(layer@, ev, exists_below@)[i as int]));
        }
        i += 1;
    }
    assert(diff_report(layer@, ev, exists_below@).take(ev.len() as int) =~= diff_report(
        layer@,
        ev,
        exists_below@,
    ));
    out
}

// ---------------------------------------------------------------------
// reset
// ---------------------------------------------------------------------
/// What std's `Path::strip_prefix("/")` leaves of an absolute path: the
/// path below the root.
pub uninterp spec fn below_root(path: Seq<char>) -> Seq<char>;

/// std's `Path::strip_prefix` with the prefix `/`. It succeeds exactly
/// when `path` is absolute (the root is its first component); what it
/// leaves then is a function of `path` alone, not stated here beyond that.
#[verifier::external_body]
fn strip_root(path: &str) -> (r: Option<String>)
    ensures
        r is Some <==> (path@.len() > 0 && path@[0] == '/'),
        r is Some ==> r->Some_0@ == below_root(path@),
{
    match std::path::Path::new(path).strip_prefix("/") {
        Ok(rest) => Some(rest.to_string_lossy().into_owned()),
        Err(_) => None,
    }
}

/// The path relative to the root that `reset` removes: `path` below the
/// root when it is absolute, else `path` itself.
pub open spec fn reset_relative(path: Seq<char>) -> Seq<char> {
    if path.len() > 0 && path[0] == '/' {
        below_root(path)
    } else {
        path
    }
}

/// What `reset` acts on: the path relative to the root, and where its
/// override copy lives. Refused when the store has no override layer.
pub fn reset_target(discovered: &DiscoveredStore, path: &str) -> (r: Result<(String, String), String>)
    ensures
        discovered.override_layer is None <==> r is Err,
        r is Err ==> r->Err_0@ == "no override layer present"@,
        r is Ok ==> r->Ok_0.0@ == reset_relative(path@) && r->Ok_0.1@ == join_path(
            discovered.override_layer->Some_0@,
            reset_relative(path@),
        ),
{
    match &discovered.override_layer {
        None => {
            let r = owned("no override layer present");
            proof {
                reveal_strlit("no override layer present");
            }
            Err(r)
        },
        Some(dir) => {
            let relative = match strip_root(path) {
                Some(rest) => rest,
                None => owned(path),
            };
            let target = join(dir.as_str(), relative.as_str());
            Ok((relative, target))
        },
    }
}

/// `<path> is not overridden`, when the override layer has no copy.
pub fn not_overridden(path: &str) -> (r: String)
    ensures
        r@ == path@ + " is not overridden"@,
{
    concat(path, " is not overridden")
}

// ---------------------------------------------------------------------
// rollback
// ---------------------------------------------------------------------
pub open spec fn rollback_refusal(target: Seq<char>) -> Seq<char> {
    "unknown rollback target: "@ + target + " (only \"update\" is valid)"@
}

/// Only `update` can be rolled back to.
pub fn rollback_target(target: &str) -> (r: Result<(), String>)
    ensures
        r is Ok <==> target@ == "update"@,
        r is Err ==> r->Err_0@ == rollback_refusal(target@),
{
    if crate::text::eq_str(target, "update") {
        Ok(())
    } else {
        Err(concat3("unknown rollback target: ", target, " (only \"update\" is valid)"))
    }
}

/// The update head that a rollback discards, if the store has one.
pub fn rollback_head(discovered: &DiscoveredStore) -> (r: Result<String, String>)
    ensures
        r is Ok <==> discovered.update_head is Some,
        r is Ok ==> r->Ok_0@ == discovered.update_head->Some_0@,
        r is Err ==> r->Err_0@ == "nothing to roll back: no active update-head"@,
{
    match &discovered.update_head {
        Some(h) => Ok(h.clone()),
        None => {
            let r = owned("nothing to roll back: no active update-head");
            proof {
                reveal_strlit("nothing to roll back: no active update-head");
            }
            Err(r)
        },
    }
}

// ---------------------------------------------------------------------
// apply-now
// ---------------------------------------------------------------------
pub open spec fn apply_now_report(outcome: OutcomeView, live_root: Seq<char>) -> Result<Seq<char>, Seq<char>> {
    match outcome {
        OutcomeView::NothingToApply => Err("nothing to apply: no update or update-head present"@),
        OutcomeView::RequiresReboot => Err(
            "cannot apply live: touches a path outside usr/opt or a shared library/kernel"@,
        ),
        OutcomeView::Applied(scopes) => Ok("applied live: "@ + live_root + " ("@ + join_sep(scopes, ", "@) + ")"@),
    }
}

pub open spec fn string_result_view(r: Result<String, String>) -> Result<Seq<char>, Seq<char>> {
    match r {
        Ok(s) => Ok(s@),
        Err(e) => Err(e@),
    }
}

/// `apply-now`'s outcome: the line it prints, or why nothing was applied.
pub fn apply_now_result(outcome: Outcome, live_root: &str) -> (r: Result<String, String>)
    ensures
        string_result_view(r) == apply_now_report(outcome@, live_root@),
{
    match outcome {
        Outcome::NothingToApply => {
            let r = owned("nothing to apply: no update or update-head present");
            proof {
                reveal_strlit("nothing to apply: no update or update-head present");
            }
            Err(r)
        },
        Outcome::RequiresReboot => {
            let r = owned("cannot apply live: touches a path outside usr/opt or a shared library/kernel");
            proof {
                reveal_strlit("cannot apply live: touches a path outside usr/opt or a shared library/kernel");
            }
            Err(r)
        },
        Outcome::Applied(scopes) => {
            let joined = join_with(&scopes, ", ");
            let mut r = concat3("applied live: ", live_root, " (");
            r.append(joined.as_str());
            r.append(")");
            Ok(r)
        },
    }
}

// ---------------------------------------------------------------------
// transaction
// ---------------------------------------------------------------------
/// `txn-<nanos>`, a transaction's id from the time it began.
pub fn transaction_id(nanos: u128) -> (r: String)
    ensures
        r@ == "txn-"@ + decimal(nanos as nat),
{
    let mut r = owned("txn-");
    push_decimal(&mut r, nanos);
    proof {
        reveal_strlit("txn-");
    }
    r
}

} // verus!
