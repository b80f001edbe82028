//! One system transaction: stage → execute → validate → commit, as a state
//! machine. The program around the library holds the lock, performs the
//! layer operations and mounts each step asks for, and reports back.
use vstd::prelude::*;

use crate::semantics::layer::{Layer, LayerKind, LayerStack, LayerView, layer_view};
use crate::storage::discover::{DiscoveredStore, DiscoveredView};
use crate::storage::validate::{Report, all_ok, checks_view};
use crate::text::{clone_opt, join, join_path, join_sep, join_with, opt_chars, owned};
use crate::transaction::error::{TransactionError, TransactionErrorView};
use crate::transaction::state::{TransactionRecord, TransactionState};

verus! {

/// The generations a staged transaction built, and what it supersedes.
#[derive(Debug)]
pub struct Staged {
    pub update_next: String,
    pub head_next: String,
    pub target: String,
    /// Generations this transaction supersedes; removed on commit.
    pub superseded_update: Option<String>,
    pub superseded_update_head: Option<String>,
}

pub struct StagedView {
    pub update_next: Seq<char>,
    pub head_next: Seq<char>,
    pub target: Seq<char>,
    pub superseded_update: Option<Seq<char>>,
    pub superseded_update_head: Option<Seq<char>>,
}

impl View for Staged {
    type V = StagedView;

    open spec fn view(&self) -> StagedView {
        StagedView {
            update_next: self.update_next@,
            head_next: self.head_next@,
            target: self.target@,
            superseded_update: opt_chars(self.superseded_update),
            superseded_update_head: opt_chars(self.superseded_update_head),
        }
    }
}

/// How the next UPDATE generation is built from the active one.
#[derive(Debug)]
pub enum UpdateSource {
    /// The active UPDATE_HEAD squashed onto the active UPDATE.
    Squash { update: String, update_head: String },
    /// A clone of the active UPDATE (there is no UPDATE_HEAD).
    Clone { update: String },
    /// A fresh, empty layer (there is no UPDATE yet).
    Fresh,
}

pub enum UpdateSourceView {
    Squash { update: Seq<char>, update_head: Seq<char> },
    Clone { update: Seq<char> },
    Fresh,
}

impl View for UpdateSource {
    type V = UpdateSourceView;

    open spec fn view(&self) -> UpdateSourceView {
        match self {
            UpdateSource::Squash { update, update_head } => UpdateSourceView::Squash {
                update: update@,
                update_head: update_head@,
            },
            UpdateSource::Clone { update } => UpdateSourceView::Clone { update: update@ },
            UpdateSource::Fresh => UpdateSourceView::Fresh,
        }
    }
}

/// Where a transaction stands: its record's state, what it staged, and
/// which of the staged generations a commit has already made active.
pub struct TransactionView {
    pub store_root: Seq<char>,
    pub state: TransactionState,
    pub staged: Option<StagedView>,
    pub update_activated: bool,
    pub head_activated: bool,
}

/// A generation pointer to put back: `<store>/<name>` is to point at
/// `previous` again, or to be removed where there was none before.
#[derive(Debug)]
pub struct PointerRestore {
    pub name: String,
    pub previous: Option<String>,
}

pub struct PointerRestoreView {
    pub name: Seq<char>,
    pub previous: Option<Seq<char>>,
}

impl View for PointerRestore {
    type V = PointerRestoreView;

    open spec fn view(&self) -> PointerRestoreView {
        PointerRestoreView { name: self.name@, previous: opt_chars(self.previous) }
    }
}

pub open spec fn restores_view(v: Seq<PointerRestore>) -> Seq<PointerRestoreView> {
    v.map_values(|r: PointerRestore| r@)
}

/// What an abandoned transaction leaves to clean up, in order: the
/// pointers a failed commit already moved, to be put back first; the root
/// to unmount; and both staged generations, to be deleted.
#[derive(Debug)]
pub struct Abandoned {
    pub restore: Vec<PointerRestore>,
    pub target: String,
    pub generations: Vec<String>,
}

pub struct AbandonedView {
    pub restore: Seq<PointerRestoreView>,
    pub target: Seq<char>,
    pub generations: Seq<Seq<char>>,
}

impl View for Abandoned {
    type V = AbandonedView;

    open spec fn view(&self) -> AbandonedView {
        AbandonedView {
            restore: restores_view(self.restore@),
            target: self.target@,
            generations: self.generations.deep_view(),
        }
    }
}

/// Drives one system transaction. An uncommitted transaction hands back
/// its staged generations for removal when it is abandoned.
pub struct Transaction {
    store_root: String,
    record: TransactionRecord,
    staged: Option<Staged>,
    update_activated: bool,
    head_activated: bool,
}

impl View for Transaction {
    type V = TransactionView;

    closed spec fn view(&self) -> TransactionView {
        TransactionView {
            store_root: self.store_root@,
            state: self.record.state,
            staged: match self.staged {
                Some(s) => Some(s@),
                None => None,
            },
            update_activated: self.update_activated,
            head_activated: self.head_activated,
        }
    }
}

pub open spec fn update_source_for(d: DiscoveredView) -> Result<UpdateSourceView, TransactionErrorView> {
    match (d.update, d.update_head) {
        (Some(u), Some(h)) => Ok(UpdateSourceView::Squash { update: u, update_head: h }),
        (Some(u), None) => Ok(UpdateSourceView::Clone { update: u }),
        (None, Some(_)) => Err(
            TransactionErrorView::InconsistentState("update-head is active without an active update"@),
        ),
        (None, None) => Ok(UpdateSourceView::Fresh),
    }
}

/// The transaction root's stack: HEAD.next (writable) over UPDATE.next
/// over BASE — OVERRIDE is never part of a transaction.
pub open spec fn staged_stack_of(head_next: Seq<char>, update_next: Seq<char>, base: Seq<char>) -> Seq<LayerView> {
    seq![
        layer_view(LayerKind::UpdateHead, "head-next"@, head_next, false),
        layer_view(LayerKind::Update, "update-next"@, update_next, true),
        layer_view(LayerKind::Base, "base"@, base, true),
    ]
}

pub fn staged_stack(head_next: &str, update_next: &str, base: &str) -> (r: LayerStack)
    ensures
        r@ == staged_stack_of(head_next@, update_next@, base@),
{
    let mut stack = LayerStack::new();
    stack.push(Layer::new(LayerKind::UpdateHead, "head-next", head_next, false));
    stack.push(Layer::new(LayerKind::Update, "update-next", update_next, true));
    stack.push(Layer::new(LayerKind::Base, "base", base, true));
    assert(stack@ =~= staged_stack_of(head_next@, update_next@, base@));
    stack
}

/// The lock file that serializes transactions on a store.
pub fn lock_path(store_root: &str) -> (r: String)
    ensures
        r@ == join_path(store_root@, "transaction.lock"@),
{
    join(store_root, "transaction.lock")
}

/// The descriptions of the failed checks, in order.
pub open spec fn failed_descriptions(c: Seq<(Seq<char>, bool)>) -> Seq<Seq<char>>
    decreases c.len(),
{
    if c.len() == 0 {
        seq![]
    } else if c.last().1 {
        failed_descriptions(c.drop_last())
    } else {
        failed_descriptions(c.drop_last()).push(c.last().0)
    }
}

pub open spec fn validated(t: TransactionView, checks: Seq<(Seq<char>, bool)>) -> (TransactionView, Result<(), TransactionErrorView>) {
    if t.staged is None {
        (t, Err(TransactionErrorView::NotStaged))
    } else {
        let t2 = TransactionView { state: TransactionState::Validating, ..t };
        if all_ok(checks) {
            (t2, Ok(()))
        } else {
            (t2, Err(TransactionErrorView::ValidationFailed(join_sep(failed_descriptions(checks), ", "@))))
        }
    }
}

/// The transaction once `staged` is recorded: running, with it staged and
/// none of it active yet.
pub open spec fn with_staged(t: TransactionView, s: StagedView) -> TransactionView {
    TransactionView {
        state: TransactionState::Running,
        staged: Some(s),
        update_activated: false,
        head_activated: false,
        ..t
    }
}

/// Starting the commit: the transaction is committing and hands out what
/// it staged, which stays recorded until the commit finishes; with nothing
/// staged it is refused and nothing changes.
pub open spec fn commit_begun(t: TransactionView) -> (TransactionView, Option<StagedView>) {
    match t.staged {
        Some(s) => (TransactionView { state: TransactionState::Committing, ..t }, Some(s)),
        None => (t, None),
    }
}

/// The staged UPDATE generation (`head` false) or UPDATE_HEAD generation
/// (`head` true) has been made the active one.
pub open spec fn activated(t: TransactionView, head: bool) -> TransactionView {
    if head {
        TransactionView { head_activated: true, ..t }
    } else {
        TransactionView { update_activated: true, ..t }
    }
}

/// The staged generations are active: committed, nothing left staged.
pub open spec fn commit_finished(t: TransactionView) -> TransactionView {
    TransactionView { state: TransactionState::Committed, staged: None, ..t }
}

/// The pointers a failed commit moved onto staged generations, each with
/// the generation it pointed at before (the one the commit supersedes).
pub open spec fn pointers_to_restore(s: StagedView, update_activated: bool, head_activated: bool) -> Seq<
    PointerRestoreView,
> {
    (if update_activated {
        seq![PointerRestoreView { name: "update"@, previous: s.superseded_update }]
    } else {
        seq![]
    }) + (if head_activated {
        seq![PointerRestoreView { name: "update-head"@, previous: s.superseded_update_head }]
    } else {
        seq![]
    })
}

/// Abandoning: a committed transaction leaves nothing to clean up. Any
/// other that staged something hands back both staged generations to
/// delete and its staged root to unmount; where a failed commit already
/// pointed `update` (or `update-head`) at a staged generation, that
/// pointer is handed back first, to be put back on the generation it
/// pointed at before, so that deleting the staged generation never leaves
/// an active pointer dangling.
pub open spec fn abandoned(t: TransactionView) -> (TransactionView, Option<AbandonedView>) {
    if t.state == TransactionState::Committed {
        (t, None)
    } else {
        match t.staged {
            Some(s) => (
                TransactionView { staged: None, ..t },
                Some(
                    AbandonedView {
                        restore: pointers_to_restore(s, t.update_activated, t.head_activated),
                        target: s.target,
                        generations: seq![s.update_next, s.head_next],
                    },
                ),
            ),
            None => (t, None),
        }
    }
}

fn copy_staged(s: &Staged) -> (r: Staged)
    ensures
        r@ == s@,
{
    Staged {
        update_next: s.update_next.clone(),
        head_next: s.head_next.clone(),
        target: s.target.clone(),
        superseded_update: clone_opt(&s.superseded_update),
        superseded_update_head: clone_opt(&s.superseded_update_head),
    }
}

impl Transaction {
    /// A new transaction on `store_root`, taken once its lock is held.
    pub fn begin(store_root: &str, id: &str, adapter: &str) -> (r: Transaction)
        ensures
            r@.store_root == store_root@,
            r@.state == TransactionState::Preparing,
            r@.staged is None,
            !r@.update_activated,
            !r@.head_activated,
            r.record().id@ == id@,
            r.record().adapter@ == adapter@,
            r.record().kind@ == "system"@,
            r.record().started_at_unix == 0,
    {
        let record = TransactionRecord {
            id: owned(id),
            kind: owned("system"),
            started_at_unix: 0,
            adapter: owned(adapter),
            state: TransactionState::Preparing,
            program: String::new(),
            args: Vec::new(),
        };
        Transaction {
            store_root: owned(store_root),
            record,
            staged: None,
            update_activated: false,
            head_activated: false,
        }
    }

    pub closed spec fn record(&self) -> TransactionRecord {
        self.record
    }

    pub fn state(&self) -> (r: TransactionState)
        ensures
            r == self@.state,
    {
        self.record.state
    }

    pub fn is_staged(&self) -> (r: bool)
        ensures
            r == self@.staged is Some,
    {
        self.staged.is_some()
    }

    /// How UPDATE.next is to be built from the discovered store: refused if
    /// this transaction is already staged, or if the store has an
    /// UPDATE_HEAD without an UPDATE.
    pub fn update_source(&self, discovered: &DiscoveredStore) -> (r: Result<UpdateSource, TransactionError>)
        ensures
            self@.staged is Some ==> (r matches Err(e) && e@ == TransactionErrorView::AlreadyStaged),
            self@.staged is None ==> match (r, update_source_for(discovered@)) {
                (Ok(a), Ok(b)) => a@ == b,
                (Err(a), Err(b)) => a@ == b,
                _ => false,
            },
    {
        if self.staged.is_some() {
            return Err(TransactionError::AlreadyStaged);
        }
        match (&discovered.update, &discovered.update_head) {
            (Some(u), Some(h)) => Ok(UpdateSource::Squash { update: u.clone(), update_head: h.clone() }),
            (Some(u), None) => Ok(UpdateSource::Clone { update: u.clone() }),
            (None, Some(_)) => Err(
                TransactionError::InconsistentState(
                    owned("update-head is active without an active update"),
                ),
            ),
            (None, None) => Ok(UpdateSource::Fresh),
        }
    }

    /// Records the staged generations: the transaction is now running.
    pub fn record_staged(&mut self, staged: Staged)
        requires
            old(self)@.staged is None,
        ensures
            final(self)@ == with_staged(old(self)@, staged@),
    {
        self.record.state = TransactionState::Running;
        self.staged = Some(staged);
        self.update_activated = false;
        self.head_activated = false;
    }

    /// The root a program runs chrooted in: the staged target.
    pub fn execution_root(&self) -> (r: Result<String, TransactionError>)
        ensures
            match self@.staged {
                Some(s) => r matches Ok(t) && t@ == s.target,
                None => r matches Err(e) && e@ == TransactionErrorView::NotStaged,
            },
    {
        match &self.staged {
            Some(s) => Ok(s.target.clone()),
            None => Err(TransactionError::NotStaged),
        }
    }

    /// Judges the structural report of the staged root: every failed
    /// check is named in the refusal, in order.
    pub fn validate(&mut self, report: &Report) -> (r: Result<(), TransactionError>)
        ensures
            final(self)@ == validated(old(self)@, checks_view(report.checks@)).0,
            match (r, validated(old(self)@, checks_view(report.checks@)).1) {
                (Ok(_), Ok(_)) => true,
                (Err(a), Err(b)) => a@ == b,
                _ => false,
            },
    {
        if self.staged.is_none() {
            return Err(TransactionError::NotStaged);
        }
        self.record.state = TransactionState::Validating;
        let ghost c = checks_view(report.checks@);
        let mut failed: Vec<String> = Vec::new();
        let mut i: usize = 0;
        while i < report.checks.len()
            invariant
                c == checks_view(report.checks@),
                i <= c.len(),
                failed.deep_view() == failed_descriptions(c.take(i as int)),
            decreases report.checks.len() - i,
        {
            assert(c.take(i + 1).drop_last() =~= c.take(i as int));
            assert(c.take(i + 1).last() == c[i as int]);
            if !report.checks[i].ok {
                let ghost before = failed.deep_view();
                let d = report.checks[i].description.clone();
                failed.push(d);
                assert(failed.deep_view() =~= before.push(c[i as int].0));
            }
            i += 1;
        }
        assert(c.take(c.len() as int) =~= c);
        if report.passed() {
            Ok(())
        } else {
            Err(TransactionError::ValidationFailed(join_with(&failed, ", ")))
        }
    }

    /// Starts the commit: hands out the staged generations to freeze,
    /// activate and clean up after; they stay recorded until the commit
    /// finishes. Refused when nothing is staged.
    pub fn begin_commit(&mut self) -> (r: Result<Staged, TransactionError>)
        ensures
            final(self)@ == commit_begun(old(self)@).0,
            match commit_begun(old(self)@).1 {
                Some(s) => r matches Ok(t) && t@ == s,
                None => r matches Err(e) && e@ == TransactionErrorView::NotStaged,
            },
    {
        match &self.staged {
            Some(s) => {
                let handed = copy_staged(s);
                self.record.state = TransactionState::Committing;
                Ok(handed)
            },
            None => Err(TransactionError::NotStaged),
        }
    }

    /// Records that the staged UPDATE generation (`head` false) or
    /// UPDATE_HEAD generation (`head` true) is now the active one, so that
    /// abandoning the transaction puts the pointer back before deleting it.
    pub fn generation_activated(&mut self, head: bool)
        ensures
            final(self)@ == activated(old(self)@, head),
    {
        if head {
            self.head_activated = true;
        } else {
            self.update_activated = true;
        }
    }

    /// The staged generations have been activated.
    pub fn finish_commit(&mut self)
        ensures
            final(self)@ == commit_finished(old(self)@),
    {
        self.record.state = TransactionState::Committed;
        self.staged = None;
    }

    /// Abandons the transaction: unless it committed, and if it staged
    /// anything, hands back the pointers to put back, its staged root and
    /// both staged generations, to be restored, unmounted and deleted.
    pub fn abandon(&mut self) -> (r: Option<Abandoned>)
        ensures
            final(self)@ == abandoned(old(self)@).0,
            match abandoned(old(self)@).1 {
                Some(a) => r matches Some(b) && b@ == a,
                None => r is None,
            },
    {
        if self.record.state == TransactionState::Committed {
            return None;
        }
        match self.staged.take() {
            Some(s) => {
                let ghost sv = s@;
                let mut restore: Vec<PointerRestore> = Vec::new();
                if self.update_activated {
                    restore.push(PointerRestore { name: owned("update"), previous: s.superseded_update });
                }
                if self.head_activated {
                    restore.push(
                        PointerRestore { name: owned("update-head"), previous: s.superseded_update_head },
                    );
                }
                assert(restores_view(restore@) =~= pointers_to_restore(
                    sv,
                    self.update_activated,
                    self.head_activated,
                ));
                let generations = vec![s.update_next, s.head_next];
                assert(generations.deep_view() =~= seq![sv.update_next, sv.head_next]);
                Some(Abandoned { restore, target: s.target, generations })
            },
            None => None,
        }
    }
}

/// A transaction that is staged, passes validation and is committed ends
/// committed, having handed out exactly what it staged for activation,
/// and leaves nothing to clean up when it is abandoned afterwards.
pub proof fn commit_leaves_nothing_behind(t: TransactionView, s: StagedView, checks: Seq<(Seq<char>, bool)>)
    requires
        t.staged is None,
        all_ok(checks),
    ensures
        ({
            let t1 = with_staged(t, s);
            let (t2, res) = validated(t1, checks);
            let (t3, handed) = commit_begun(t2);
            let t4 = commit_finished(activated(activated(t3, false), true));
            &&& res is Ok
            &&& handed == Some(s)
            &&& t4.state == TransactionState::Committed
            &&& t4.staged is None
            &&& abandoned(t4).1 is None
        }),
{
}

/// A transaction abandoned before it committed, whether or not it was
/// validated (and whatever validation found), hands back its staged root
/// and both generations it staged, to be removed, with no pointer to put
/// back.
pub proof fn abandon_returns_staged(t: TransactionView, s: StagedView, checks: Seq<(Seq<char>, bool)>)
    requires
        t.staged is None,
    ensures
        abandoned(with_staged(t, s)).1 == Some(
            AbandonedView { restore: seq![], target: s.target, generations: seq![s.update_next, s.head_next] },
        ),
        abandoned(validated(with_staged(t, s), checks).0).1 == Some(
            AbandonedView { restore: seq![], target: s.target, generations: seq![s.update_next, s.head_next] },
        ),
{
    assert(pointers_to_restore(s, false, false) =~= seq![]);
}

/// A commit that fails part-way still leaves an uncommitted transaction,
/// and abandoning it deletes both staged generations. Failing before
/// activation, nothing else is handed back; failing after `update` was
/// pointed at UPDATE.next, that pointer is handed back to be put back on
/// the UPDATE generation it pointed at before (or removed, if there was
/// none), so that the deleted generation is never the active one.
pub proof fn failed_commit_cleans_up(t: TransactionView, s: StagedView, checks: Seq<(Seq<char>, bool)>)
    requires
        t.staged is None,
    ensures
        ({
            let t1 = validated(with_staged(t, s), checks).0;
            let t2 = commit_begun(t1).0;
            &&& abandoned(t2).1 == Some(
                AbandonedView { restore: seq![], target: s.target, generations: seq![s.update_next, s.head_next] },
            )
            &&& abandoned(activated(t2, false)).1 == Some(
                AbandonedView {
                    restore: seq![PointerRestoreView { name: "update"@, previous: s.superseded_update }],
                    target: s.target,
                    generations: seq![s.update_next, s.head_next],
                },
            )
        }),
{
    assert(pointers_to_restore(s, false, false) =~= seq![]);
    assert(pointers_to_restore(s, true, false) =~= seq![
        PointerRestoreView { name: "update"@, previous: s.superseded_update },
    ]);
}

/// UPDATE.next always continues the active UPDATE: whenever the store has
/// one, the source names exactly it — squashed with the active
/// UPDATE_HEAD, which the source then names too, or cloned where there is
/// none. Only a store without an UPDATE starts a fresh layer, and an
/// UPDATE_HEAD without an UPDATE is refused.
pub proof fn update_next_continues_the_active_update(d: DiscoveredView)
    ensures
        d.update is Some ==> ({
            let u = d.update->Some_0;
            ||| update_source_for(d) matches Ok(UpdateSourceView::Squash { update, .. }) && update == u
            ||| update_source_for(d) matches Ok(UpdateSourceView::Clone { update }) && update == u
        }),
        d.update is Some && d.update_head is Some ==> (update_source_for(d) matches Ok(
            UpdateSourceView::Squash { update_head, .. },
        ) && update_head == d.update_head->Some_0),
        update_source_for(d) matches Ok(UpdateSourceView::Fresh) <==> (d.update is None && d.update_head is None),
        update_source_for(d) is Err <==> (d.update is None && d.update_head is Some),
{
}

} // verus!
