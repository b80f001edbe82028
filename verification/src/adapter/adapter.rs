//! What an adapter decides: which binary it runs, how a mutating invocation
//! becomes a `layerctl transaction`, where the package manifest is saved,
//! and what is reported once the transaction committed. Reading the
//! environment, spawning processes and writing files is the caller's part.
use vstd::prelude::*;

use crate::storage::live_update::{Outcome, OutcomeView};
use crate::text::{concat, concat3, join_with, join_sep, owned};

verus! {

/// A package-manager adapter: exec passthrough for read-only invocations,
/// a real system transaction for mutating ones. `name` drives both the
/// `LAYERFS_<NAME>_BIN` override and the names of its messages and manifest.
pub struct Adapter {
    pub name: &'static str,
    pub default_binary: &'static str,
}

pub open spec fn or_default(value: Option<Seq<char>>, default: Seq<char>) -> Seq<char> {
    match value {
        Some(v) => v,
        None => default,
    }
}

fn value_or(value: Option<String>, default: &str) -> (r: String)
    ensures
        r@ == or_default(crate::text::opt_chars(value), default@),
{
    match value {
        Some(v) => v,
        None => owned(default),
    }
}

/// The store a transaction runs against, from `LAYERFS_STORE`.
pub fn store_root(env_store: Option<String>) -> (r: String)
    ensures
        r@ == or_default(crate::text::opt_chars(env_store), "/run/layerfs-store"@),
{
    value_or(env_store, "/run/layerfs-store")
}

/// The `layerctl` binary, from `LAYERFS_LAYERCTL_BIN`.
pub fn layerctl_binary(env_layerctl: Option<String>) -> (r: String)
    ensures
        r@ == or_default(crate::text::opt_chars(env_layerctl), "layerctl"@),
{
    value_or(env_layerctl, "layerctl")
}

/// The root an update is applied to live, from `LAYERFS_LIVE_ROOT`.
pub fn live_root(env_live_root: Option<String>) -> (r: String)
    ensures
        r@ == or_default(crate::text::opt_chars(env_live_root), "/"@),
{
    value_or(env_live_root, "/")
}

/// The arguments of `layerctl --store <store> transaction -- <bin> <args>`.
pub open spec fn transaction_args(store: Seq<char>, bin: Seq<char>, args: Seq<Seq<char>>) -> Seq<Seq<char>> {
    seq!["--store"@, store, "transaction"@, "--"@, bin] + args
}

/// The exit status an adapter reports for a transaction that failed:
/// the child's code clamped to 1..=255, or 1 when it had none (killed by a
/// signal).
pub open spec fn failure_status(code: Option<i32>) -> int {
    match code {
        Some(c) => if c < 1 {
            1
        } else if c > 255 {
            255
        } else {
            c as int
        },
        None => 1,
    }
}

/// Where a manifest is saved: the directory, the file, and the temporary
/// file written first and renamed over it.
pub struct ManifestPaths {
    pub dir: String,
    pub path: String,
    pub temporary: String,
}

pub open spec fn hot_apply_report(name: Seq<char>, outcome: Result<OutcomeView, Seq<char>>) -> Seq<char> {
    match outcome {
        Ok(OutcomeView::Applied(scopes)) => name + ": update applied live ("@ + join_sep(scopes, ", "@)
            + "), no reboot needed"@,
        Ok(_) => name + ": update committed; reboot required to apply"@,
        Err(e) => name + ": update committed but live apply failed ("@ + e
            + "); reboot required to apply"@,
    }
}

pub open spec fn outcome_view(outcome: Result<Outcome, String>) -> Result<OutcomeView, Seq<char>> {
    match outcome {
        Ok(o) => Ok(o@),
        Err(e) => Err(e@),
    }
}

impl Adapter {
    /// The binary the adapter runs: the override from its environment
    /// variable when set, else its default binary.
    pub fn binary(&self, env_override: Option<String>) -> (r: String)
        ensures
            r@ == or_default(crate::text::opt_chars(env_override), self.default_binary@),
    {
        value_or(env_override, self.default_binary)
    }

    /// The `layerctl` arguments that run `bin args` inside a staged system
    /// transaction on `store`.
    pub fn transaction_args(store: &str, bin: &str, args: &Vec<String>) -> (r: Vec<String>)
        ensures
            r.deep_view() == transaction_args(store@, bin@, args.deep_view()),
    {
        let mut r: Vec<String> = Vec::new();
        r.push(owned("--store"));
        r.push(owned(store));
        r.push(owned("transaction"));
        r.push(owned("--"));
        r.push(owned(bin));
        let ghost head = r.deep_view();
        let mut i: usize = 0;
        while i < args.len()
            invariant
                i <= args@.len(),
                r.deep_view() =~= head + args.deep_view().take(i as int),
            decreases args.len() - i,
        {
            let s = owned(args[i].as_str());
            let ghost old_r = r@;
            let ghost old_dv = r.deep_view();
            r.push(s);
            assert(r.deep_view() =~= old_dv.push(args@[i as int]@)) by {
                assert forall|k: int| 0 <= k < old_r.len() implies r@[k] == old_r[k] by {}
            }
            assert(args.deep_view().take(i + 1) =~= args.deep_view().take(i as int).push(
                args@[i as int]@,
            ));
            i += 1;
        }
        proof {
            reveal_strlit("--store");
            reveal_strlit("transaction");
            reveal_strlit("--");
            assert(args.deep_view().take(args@.len() as int) =~= args.deep_view());
            assert(head =~= seq!["--store"@, store@, "transaction"@, "--"@, bin@]);
        }
        r
    }

    /// The exit status after a failed transaction (see `failure_status`).
    pub fn failure_exit_code(code: Option<i32>) -> (r: u8)
        ensures
            r as int == failure_status(code),
    {
        match code {
            Some(c) => if c < 1 {
                1
            } else if c > 255 {
                255
            } else {
                c as u8
            },
            None => 1,
        }
    }

    /// Where the adapter's manifest is saved under `store_root`:
    /// `manifest/<name>.json`, written first as `manifest/.<name>.json.new`.
    pub fn manifest_paths(&self, store_root: &str) -> (r: ManifestPaths)
        ensures
            r.dir@ == crate::text::join_path(store_root@, "manifest"@),
            r.path@ == crate::text::join_path(r.dir@, self.name@ + ".json"@),
            r.temporary@ == crate::text::join_path(r.dir@, "."@ + self.name@ + ".json.new"@),
    {
        let dir = crate::text::join(store_root, "manifest");
        let file = concat(self.name, ".json");
        let temp = concat3(".", self.name, ".json.new");
        let path = crate::text::join(dir.as_str(), file.as_str());
        let temporary = crate::text::join(dir.as_str(), temp.as_str());
        ManifestPaths { dir, path, temporary }
    }

    /// What the adapter reports once its transaction committed, by how
    /// applying the update live went.
    pub fn hot_apply_message(&self, outcome: Result<Outcome, String>) -> (r: String)
        ensures
            r@ == hot_apply_report(self.name@, outcome_view(outcome)),
    {
        match outcome {
            Ok(Outcome::Applied(scopes)) => {
                let joined = join_with(&scopes, ", ");
                let head = concat(self.name, ": update applied live (");
                let mut r = concat(head.as_str(), joined.as_str());
                r.append("), no reboot needed");
                r
            },
            Ok(_) => concat(self.name, ": update committed; reboot required to apply"),
            Err(e) => {
                let head = concat(self.name, ": update committed but live apply failed (");
                let mut r = concat(head.as_str(), e.as_str());
                r.append("); reboot required to apply");
                r
            },
        }
    }

    /// `<name>: <msg>`, how the adapter reports a failure.
    pub fn failure(&self, msg: &str) -> (r: String)
        ensures
            r@ == self.name@ + ": "@ + msg@,
    {
        concat3(self.name, ": ", msg)
    }

    /// `<name>: manifest export failed: <err>`.
    pub fn export_failure(&self, err: &str) -> (r: String)
        ensures
            r@ == self.name@ + ": manifest export failed: "@ + err@,
    {
        concat3(self.name, ": manifest export failed: ", err)
    }
}

} // verus!
