//! Applying a committed update to the running system without a reboot,
//! scoped to `/usr` and `/opt` — never the whole root, since that can
//! orphan mounts nested under paths like `/proc` or `/home`.
use vstd::prelude::*;

use crate::storage::discover::{DiscoveredStore, DiscoveredView};
use crate::storage::risk::{hot_applicable, hot_applicable_scopes, in_hot_scope};
use crate::text::{join, join_path, opt_chars};

verus! {

#[derive(Debug)]
pub enum Outcome {
    NothingToApply,
    RequiresReboot,
    Applied(Vec<String>),
}

pub enum OutcomeView {
    NothingToApply,
    RequiresReboot,
    Applied(Seq<Seq<char>>),
}

impl View for Outcome {
    type V = OutcomeView;

    open spec fn view(&self) -> OutcomeView {
        match self {
            Outcome::NothingToApply => OutcomeView::NothingToApply,
            Outcome::RequiresReboot => OutcomeView::RequiresReboot,
            Outcome::Applied(s) => OutcomeView::Applied(s.deep_view()),
        }
    }
}

/// The layers a live update brings in, highest priority first:
/// UPDATE_HEAD, then UPDATE, each if present.
pub open spec fn live_lowers_of(d: DiscoveredView) -> Seq<Seq<char>> {
    (match d.update_head {
        Some(h) => seq![h],
        None => seq![],
    }) + (match d.update {
        Some(u) => seq![u],
        None => seq![],
    })
}

pub fn live_lowers(d: &DiscoveredStore) -> (r: Vec<String>)
    ensures
        r.deep_view() == live_lowers_of(d@),
{
    let mut r: Vec<String> = Vec::new();
    if let Some(h) = &d.update_head {
        r.push(h.clone());
    }
    if let Some(u) = &d.update {
        let ghost before = r.deep_view();
        r.push(u.clone());
        assert(r.deep_view() =~= before.push(u@));
    }
    assert(r.deep_view() =~= live_lowers_of(d@));
    r
}

/// What a live update does, before touching anything.
#[derive(Debug)]
pub enum LiveDecision {
    /// Stop with this outcome.
    Done(Outcome),
    /// Swap in these scopes, in order.
    Scopes(Vec<String>),
}

pub enum LiveDecisionView {
    Done(OutcomeView),
    Scopes(Seq<Seq<char>>),
}

impl View for LiveDecision {
    type V = LiveDecisionView;

    open spec fn view(&self) -> LiveDecisionView {
        match self {
            LiveDecision::Done(o) => LiveDecisionView::Done(o@),
            LiveDecision::Scopes(s) => LiveDecisionView::Scopes(s.deep_view()),
        }
    }
}

/// Nothing to apply without UPDATE or UPDATE_HEAD; a reboot is required
/// when UPDATE_HEAD touches a risky path or when any lower has a top-level
/// entry outside `/usr` and `/opt`; otherwise the hot scopes present.
pub open spec fn live_decision(d: DiscoveredView, head_risky: bool, tops: Seq<Seq<Seq<char>>>) -> LiveDecisionView {
    if live_lowers_of(d).len() == 0 {
        LiveDecisionView::Done(OutcomeView::NothingToApply)
    } else if d.update_head is Some && head_risky {
        LiveDecisionView::Done(OutcomeView::RequiresReboot)
    } else {
        match hot_applicable(tops) {
            None => LiveDecisionView::Done(OutcomeView::RequiresReboot),
            Some(s) => LiveDecisionView::Scopes(s),
        }
    }
}

/// Decides a live update: `head_risky` is whether UPDATE_HEAD touches a
/// risky path (`layer_is_risky` of its walk); `tops[i]` are the top-level
/// entries of the `i`-th live lower.
pub fn decide(d: &DiscoveredStore, head_risky: bool, tops: &Vec<Vec<String>>) -> (r: LiveDecision)
    ensures
        r@ == live_decision(d@, head_risky, tops@.map_values(|v: Vec<String>| v.deep_view())),
{
    let lowers = live_lowers(d);
    if lowers.len() == 0 {
        return LiveDecision::Done(Outcome::NothingToApply);
    }
    if d.update_head.is_some() && head_risky {
        return LiveDecision::Done(Outcome::RequiresReboot);
    }
    match hot_applicable_scopes(tops) {
        None => LiveDecision::Done(Outcome::RequiresReboot),
        Some(s) => LiveDecision::Scopes(s),
    }
}

/// A live update only ever swaps in `/usr` or `/opt`, and never when
/// UPDATE_HEAD touches a risky path.
pub proof fn live_update_stays_in_scope(d: DiscoveredView, head_risky: bool, tops: Seq<Seq<Seq<char>>>)
    ensures
        live_decision(d, head_risky, tops) matches LiveDecisionView::Scopes(s) ==> (forall|i: int|
            0 <= i < s.len() ==> in_hot_scope(#[trigger] s[i])) && !(d.update_head is Some
            && head_risky),
{
    if let LiveDecisionView::Scopes(s) = live_decision(d, head_risky, tops) {
        let f = |x: Seq<char>| crate::storage::risk::listed(tops, x);
        let h = crate::storage::risk::hot_scopes();
        assert forall|i: int| 0 <= i < s.len() implies in_hot_scope(#[trigger] s[i]) by {
            h.lemma_filter_contains_rev(f, s[i]);
            assert(h.filter(f).contains(s[i]));
            h.filter_lemma(f);
        }
    }
}

/// Where OVERRIDE's scope directories live: the store's OVERRIDE layer, or
/// `<store>/override` when the store has none yet.
pub fn override_root(store_root: &str, d: &DiscoveredStore) -> (r: String)
    ensures
        r@ == (match d@.override_layer {
            Some(o) => o,
            None => join_path(store_root@, "override"@),
        }),
{
    match &d.override_layer {
        Some(o) => o.clone(),
        None => join(store_root, "override"),
    }
}

/// The directories one scope's live update uses.
#[derive(Debug)]
pub struct ScopeMounts {
    /// The live tree swapped out (`<live_root>/<scope>`).
    pub target: String,
    /// OVERRIDE's directory for the scope, the new upperdir.
    pub override_dir: String,
    pub work_dir: String,
    pub snapshot_dir: String,
    pub staging_dir: String,
}

pub struct ScopeMountsView {
    pub target: Seq<char>,
    pub override_dir: Seq<char>,
    pub work_dir: Seq<char>,
    pub snapshot_dir: Seq<char>,
    pub staging_dir: Seq<char>,
}

impl View for ScopeMounts {
    type V = ScopeMountsView;

    open spec fn view(&self) -> ScopeMountsView {
        ScopeMountsView {
            target: self.target@,
            override_dir: self.override_dir@,
            work_dir: self.work_dir@,
            snapshot_dir: self.snapshot_dir@,
            staging_dir: self.staging_dir@,
        }
    }
}

pub open spec fn scope_mounts_of(store_root: Seq<char>, live_root: Seq<char>, override_root: Seq<char>, scope: Seq<char>) -> ScopeMountsView {
    let hot = join_path(join_path(store_root, "hot"@), scope);
    ScopeMountsView {
        target: join_path(live_root, scope),
        override_dir: join_path(override_root, scope),
        work_dir: join_path(hot, "work"@),
        snapshot_dir: join_path(hot, "snapshot"@),
        staging_dir: join_path(hot, "staging"@),
    }
}

pub fn scope_mounts(store_root: &str, live_root: &str, override_root: &str, scope: &str) -> (r: ScopeMounts)
    ensures
        r@ == scope_mounts_of(store_root@, live_root@, override_root@, scope@),
{
    let hot = join(join(store_root, "hot").as_str(), scope);
    ScopeMounts {
        target: join(live_root, scope),
        override_dir: join(override_root, scope),
        work_dir: join(hot.as_str(), "work"),
        snapshot_dir: join(hot.as_str(), "snapshot"),
        staging_dir: join(hot.as_str(), "staging"),
    }
}

/// The candidate lowers of one scope, `<lower>/<scope>` for each live
/// lower in order; those that are not directories are skipped by the
/// caller, and a scope with none is not applied.
pub fn scope_lowers(lowers: &Vec<String>, scope: &str) -> (r: Vec<String>)
    ensures
        r.deep_view() == lowers.deep_view().map_values(|l: Seq<char>| join_path(l, scope@)),
{
    let ghost l = lowers.deep_view();
    let mut out: Vec<String> = Vec::new();
    let mut i: usize = 0;
    while i < lowers.len()
        invariant
            l == lowers.deep_view(),
            i <= l.len(),
            out.deep_view() == l.take(i as int).map_values(|x: Seq<char>| join_path(x, scope@)),
        decreases lowers.len() - i,
    {
        let ghost before = out.deep_view();
        let p = join(lowers[i].as_str(), scope);
        let ghost pv = p@;
        assert(pv == join_path(l[i as int], scope@));
        out.push(p);
        assert(out.deep_view() =~= before.push(pv));
        assert(l.take(i + 1).map_values(|x: Seq<char>| join_path(x, scope@)) =~= l.take(i as int).map_values(|x: Seq<char>| join_path(x, scope@)).push(pv));
        i += 1;
    }
    assert(l.take(l.len() as int) =~= l);
    out
}

/// The outcome once the scopes have been handled: nothing applied means
/// nothing to apply.
pub fn finish(applied: Vec<String>) -> (r: Outcome)
    ensures
        r@ == (if applied@.len() == 0 {
            OutcomeView::NothingToApply
        } else {
            OutcomeView::Applied(applied.deep_view())
        }),
{
    if applied.len() == 0 {
        Outcome::NothingToApply
    } else {
        Outcome::Applied(applied)
    }
}

} // verus!
