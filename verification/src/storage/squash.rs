//! Merging an upper layer into a lower one, as mounting the upper over the
//! lower would show it. The walk over the two directory trees is performed
//! by the caller; this module decides, directory by directory, which names
//! the merged directory holds and where each of them comes from.
use vstd::prelude::*;

use crate::text::concat3;

verus! {

// ---------------------------------------------------------------------
// Byte-string order (the order of `OsString` names in a `BTreeSet`)
// ---------------------------------------------------------------------
/// Lexicographic order of byte strings: negative, zero or positive.
pub open spec fn bytes_order(a: Seq<u8>, b: Seq<u8>) -> int
    decreases a.len(),
{
    if a.len() == 0 && b.len() == 0 {
        0
    } else if a.len() == 0 {
        -1
    } else if b.len() == 0 {
        1
    } else if a[0] < b[0] {
        -1
    } else if a[0] > b[0] {
        1
    } else {
        bytes_order(a.drop_first(), b.drop_first())
    }
}

pub proof fn bytes_antisym(a: Seq<u8>, b: Seq<u8>)
    ensures
        bytes_order(a, b) == -bytes_order(b, a),
        bytes_order(a, b) == 0 <==> a == b,
    decreases a.len(),
{
    if a.len() > 0 && b.len() > 0 && a[0] == b[0] {
        bytes_antisym(a.drop_first(), b.drop_first());
        assert(a =~= seq![a[0]] + a.drop_first());
        assert(b =~= seq![b[0]] + b.drop_first());
    } else if a.len() == 0 && b.len() == 0 {
        assert(a =~= b);
    }
}

pub proof fn bytes_trans(a: Seq<u8>, b: Seq<u8>, c: Seq<u8>)
    requires
        bytes_order(a, b) <= 0,
        bytes_order(b, c) <= 0,
    ensures
        bytes_order(a, c) <= 0,
    decreases a.len(),
{
    if a.len() > 0 && b.len() > 0 && c.len() > 0 && a[0] == b[0] && b[0] == c[0] {
        bytes_trans(a.drop_first(), b.drop_first(), c.drop_first());
    }
}

/// Strictly increasing: sorted with no name twice.
pub open spec fn strictly_sorted(v: Seq<Seq<u8>>) -> bool {
    forall|i: int, j: int| 0 <= i < j < v.len() ==> bytes_order(#[trigger] v[i], #[trigger] v[j]) < 0
}

fn bytes_compare(a: &Vec<u8>, b: &Vec<u8>) -> (r: i8)
    ensures
        r as int == bytes_order(a@, b@),
{
    let mut i: usize = 0;
    assert(a@.skip(0) =~= a@ && b@.skip(0) =~= b@);
    while i < a.len() && i < b.len() && a[i] == b[i]
        invariant
            i <= a@.len(),
            i <= b@.len(),
            bytes_order(a@, b@) == bytes_order(a@.skip(i as int), b@.skip(i as int)),
        decreases a.len() - i,
    {
        assert(a@.skip(i as int).drop_first() =~= a@.skip(i + 1));
        assert(b@.skip(i as int).drop_first() =~= b@.skip(i + 1));
        i += 1;
    }
    if i == a.len() && i == b.len() {
        assert(a@.skip(i as int) =~= Seq::<u8>::empty());
        assert(b@.skip(i as int) =~= Seq::<u8>::empty());
        0
    } else if i == a.len() {
        assert(a@.skip(i as int) =~= Seq::<u8>::empty());
        -1
    } else if i == b.len() {
        assert(b@.skip(i as int) =~= Seq::<u8>::empty());
        1
    } else {
        assert(a@.skip(i as int)[0] == a@[i as int]);
        assert(b@.skip(i as int)[0] == b@[i as int]);
        if a[i] < b[i] {
            -1
        } else {
            1
        }
    }
}

/// Adds `x` to the strictly sorted `names` unless it is already there.
fn insert_name(names: &mut Vec<Vec<u8>>, x: &Vec<u8>)
    requires
        strictly_sorted(old(names).deep_view()),
    ensures
        strictly_sorted(final(names).deep_view()),
        forall|n: Seq<u8>|
            #![trigger final(names).deep_view().contains(n)]
            final(names).deep_view().contains(n) <==> (old(names).deep_view().contains(n) || n
                == x@),
{
    let ghost v = names.deep_view();
    let mut pos: usize = 0;
    while pos < names.len() && bytes_compare(&names[pos], x) < 0
        invariant
            v == names.deep_view(),
            pos <= v.len(),
            forall|k: int| 0 <= k < pos ==> bytes_order(#[trigger] v[k], x@) < 0,
        decreases names.len() - pos,
    {
        assert(v[pos as int] == names@[pos as int]@);
        pos += 1;
    }
    if pos < names.len() && bytes_compare(&names[pos], x) == 0 {
        proof {
            assert(v[pos as int] == names@[pos as int]@);
            bytes_antisym(v[pos as int], x@);
            assert(v.contains(x@));
        }
        return;
    }
    proof {
        if pos < v.len() {
            assert(v[pos as int] == names@[pos as int]@);
            assert(bytes_order(v[pos as int], x@) > 0);
        }
        assert forall|k: int| pos <= k < v.len() implies bytes_order(x@, #[trigger] v[k]) < 0 by {
            bytes_antisym(v[pos as int], x@);
            if k > pos {
                bytes_antisym(x@, v[pos as int]);
                bytes_trans(x@, v[pos as int], v[k]);
                bytes_antisym(x@, v[k]);
                if bytes_order(x@, v[k]) == 0 {
                    bytes_antisym(v[pos as int], v[k]);
                }
            }
        }
        assert(!v.contains(x@)) by {
            if v.contains(x@) {
                let k = choose|k: int| 0 <= k < v.len() && v[k] == x@;
                bytes_antisym(x@, x@);
                if k < pos {
                    assert(bytes_order(v[k], x@) < 0);
                } else {
                    assert(bytes_order(x@, v[k]) < 0);
                }
            }
        }
    }
    let copy = copy_bytes(x);
    let ghost old_names = names@;
    names.insert(pos, copy);
    proof {
        let w = names.deep_view();
        assert forall|i: int| 0 <= i < w.len() implies w[i] == v.insert(pos as int, x@)[i] by {
            if i < pos {
                assert(names@[i] == old_names[i]);
            } else if i == pos {
                assert(names@[i]@ == x@);
                assert(names@[i].deep_view() =~= names@[i]@);
            } else {
                assert(names@[i] == old_names[i - 1]);
            }
        }
        assert(w =~= v.insert(pos as int, x@));
        assert forall|i: int, j: int| 0 <= i < j < w.len() implies bytes_order(
            #[trigger] w[i],
            #[trigger] w[j],
        ) < 0 by {
            if j < pos {
                assert(w[i] == v[i] && w[j] == v[j]);
            } else if j == pos {
                assert(w[i] == v[i]);
            } else if i < pos {
                assert(w[i] == v[i] && w[j] == v[j - 1]);
                bytes_trans(v[i], x@, v[j - 1]);
                bytes_antisym(v[i], v[j - 1]);
                if bytes_order(v[i], v[j - 1]) == 0 {
                    bytes_antisym(v[i], x@);
                }
            } else if i == pos {
                assert(w[j] == v[j - 1]);
            } else {
                assert(w[i] == v[i - 1] && w[j] == v[j - 1]);
            }
        }
        assert forall|n: Seq<u8>| w.contains(n) <==> (v.contains(n) || n == x@) by {
            if w.contains(n) {
                let k = choose|k: int| 0 <= k < w.len() && w[k] == n;
                if k < pos {
                    assert(v[k] == n);
                } else if k > pos {
                    assert(v[k - 1] == n);
                }
            }
            if v.contains(n) {
                let k = choose|k: int| 0 <= k < v.len() && v[k] == n;
                if k < pos {
                    assert(w[k] == n);
                } else {
                    assert(w[k + 1] == n);
                }
            }
            if n == x@ {
                assert(w[pos as int] == n);
            }
        }
    }
}

/// A copy of `x`.
fn copy_bytes(x: &Vec<u8>) -> (r: Vec<u8>)
    ensures
        r@ == x@,
{
    let mut r: Vec<u8> = Vec::new();
    let mut i: usize = 0;
    while i < x.len()
        invariant
            i <= x@.len(),
            r@ == x@.take(i as int),
        decreases x.len() - i,
    {
        r.push(x[i]);
        assert(x@.take(i + 1) =~= x@.take(i as int).push(x@[i as int]));
        i += 1;
    }
    assert(x@.take(x@.len() as int) =~= x@);
    r
}

/// Whether `x` is among `names`.
fn has_name(names: &Vec<Vec<u8>>, x: &Vec<u8>) -> (r: bool)
    ensures
        r == names.deep_view().contains(x@),
{
    let ghost v = names.deep_view();
    let mut i: usize = 0;
    while i < names.len()
        invariant
            v == names.deep_view(),
            i <= v.len(),
            forall|k: int| 0 <= k < i ==> v[k] != x@,
        decreases names.len() - i,
    {
        let c = bytes_compare(&names[i], x);
        proof {
            assert(v[i as int] == names@[i as int]@);
            bytes_antisym(v[i as int], x@);
        }
        if c == 0 {
            return true;
        }
        i += 1;
    }
    false
}

/// Taking one more element of `s` adds exactly `s[i]`.
pub proof fn lemma_take_next<A>(s: Seq<A>, i: int)
    requires
        0 <= i < s.len(),
    ensures
        forall|n: A|
            #![trigger s.take(i + 1).contains(n)]
            s.take(i + 1).contains(n) <==> (s.take(i).contains(n) || n == s[i]),
{
    let t = s.take(i + 1);
    let u = s.take(i);
    assert forall|n: A| t.contains(n) <==> (u.contains(n) || n == s[i]) by {
        if t.contains(n) {
            let k = choose|k: int| 0 <= k < t.len() && #[trigger] t[k] == n;
            if k < i {
                assert(u[k] == n);
            }
        }
        if u.contains(n) {
            let k = choose|k: int| 0 <= k < u.len() && #[trigger] u[k] == n;
            assert(t[k] == n);
        }
        if n == s[i] {
            assert(t[i] == n);
        }
    }
}

// ---------------------------------------------------------------------
// The plan for one directory
// ---------------------------------------------------------------------
/// Where one name of the merged directory comes from.
#[derive(Debug, Clone, Copy, PartialEq, Eq, Structural)]
pub enum NameStep {
    /// The upper directory has the name: it is merged from there
    /// (`lower_present`: the lower directory, as far as it shows, has it too).
    FromUpper { lower_present: bool },
    /// Only the lower directory has it: copied unchanged.
    CopyLower,
}

/// One name of the merged directory and where it comes from.
#[derive(Debug)]
pub struct PlannedName {
    pub name: Vec<u8>,
    pub step: NameStep,
}

pub open spec fn plan_names(p: Seq<PlannedName>) -> Seq<Seq<u8>> {
    p.map_values(|e: PlannedName| e.name@)
}

/// The names a merged directory holds: the upper directory's, and the
/// lower one's unless the upper directory is opaque (then it shadows the
/// lower one entirely, even names it does not mention).
pub open spec fn merged_has(upper_opaque: bool, lower: Seq<Seq<u8>>, upper: Seq<Seq<u8>>, n: Seq<u8>) -> bool {
    upper.contains(n) || (!upper_opaque && lower.contains(n))
}

/// The step for a name of the merged directory.
pub open spec fn name_step(upper_opaque: bool, lower: Seq<Seq<u8>>, upper: Seq<Seq<u8>>, n: Seq<u8>) -> NameStep {
    if upper.contains(n) {
        NameStep::FromUpper { lower_present: !upper_opaque && lower.contains(n) }
    } else {
        NameStep::CopyLower
    }
}

/// The merged directory of `lower` (the names in the lower directory) and
/// `upper` (those in the upper one): every name of either, once, in byte
/// order, each with where it comes from.
pub fn merge_plan(upper_opaque: bool, lower: &Vec<Vec<u8>>, upper: &Vec<Vec<u8>>) -> (r: Vec<PlannedName>)
    ensures
        strictly_sorted(plan_names(r@)),
        forall|n: Seq<u8>|
            #![trigger plan_names(r@).contains(n)]
            plan_names(r@).contains(n) <==> merged_has(upper_opaque, lower.deep_view(), upper.deep_view(), n),
        forall|i: int|
            0 <= i < r@.len() ==> (#[trigger] r@[i]).step == name_step(
                upper_opaque,
                lower.deep_view(),
                upper.deep_view(),
                r@[i].name@,
            ),
{
    let ghost lv = lower.deep_view();
    let ghost uv = upper.deep_view();
    let mut names: Vec<Vec<u8>> = Vec::new();
    assert(names.deep_view() =~= Seq::<Seq<u8>>::empty());
    if !upper_opaque {
        let mut i: usize = 0;
        while i < lower.len()
            invariant
                lv == lower.deep_view(),
                i <= lv.len(),
                strictly_sorted(names.deep_view()),
                forall|n: Seq<u8>|
                    #![trigger names.deep_view().contains(n)]
                    names.deep_view().contains(n) <==> lv.take(i as int).contains(n),
            decreases lower.len() - i,
        {
            insert_name(&mut names, &lower[i]);
            proof {
                assert(lv[i as int] == lower@[i as int]@);
                assert(lv.take(i + 1) =~= lv.take(i as int).push(lv[i as int]));
                lemma_take_next(lv, i as int);
            }
            i += 1;
        }
        assert(lv.take(lv.len() as int) =~= lv);
    }
    let mut j: usize = 0;
    while j < upper.len()
        invariant
            lv == lower.deep_view(),
            uv == upper.deep_view(),
            j <= uv.len(),
            strictly_sorted(names.deep_view()),
            forall|n: Seq<u8>|
                #![trigger names.deep_view().contains(n)]
                names.deep_view().contains(n) <==> (uv.take(j as int).contains(n) || (!upper_opaque
                    && lv.contains(n))),
        decreases upper.len() - j,
    {
        insert_name(&mut names, &upper[j]);
        proof {
            assert(uv[j as int] == upper@[j as int]@);
            assert(uv.take(j + 1) =~= uv.take(j as int).push(uv[j as int]));
            lemma_take_next(uv, j as int);
        }
        j += 1;
    }
    assert(uv.take(uv.len() as int) =~= uv);
    let ghost nv = names.deep_view();
    let mut out: Vec<PlannedName> = Vec::new();
    let mut k: usize = 0;
    while k < names.len()
        invariant
            lv == lower.deep_view(),
            uv == upper.deep_view(),
            nv == names.deep_view(),
            k <= nv.len(),
            out@.len() == k,
            plan_names(out@) =~= nv.take(k as int),
            forall|i: int|
                0 <= i < out@.len() ==> (#[trigger] out@[i]).step == name_step(
                    upper_opaque,
                    lv,
                    uv,
                    out@[i].name@,
                ),
        decreases names.len() - k,
    {
        let in_upper = has_name(upper, &names[k]);
        let step = if in_upper {
            let in_lower = !upper_opaque && has_name(lower, &names[k]);
            NameStep::FromUpper { lower_present: in_lower }
        } else {
            NameStep::CopyLower
        };
        let name = copy_bytes(&names[k]);
        proof {
            assert(nv[k as int] == names@[k as int]@);
        }
        let ghost old_out = out@;
        let ghost name_v = name@;
        out.push(PlannedName { name, step });
        proof {
            assert(out@ == old_out.push(out@[k as int]));
            assert(out@[k as int].name@ == name_v);
            assert(plan_names(out@).len() == k + 1);
            assert forall|i: int| 0 <= i <= k implies plan_names(out@)[i] == nv.take(k + 1)[i] by {
                if i < k {
                    assert(out@[i] == old_out[i]);
                    assert(plan_names(old_out)[i] == nv.take(k as int)[i]);
                }
            }
            assert(plan_names(out@) =~= nv.take(k + 1));
        }
        k += 1;
    }
    assert(nv.take(nv.len() as int) =~= nv);
    out
}

/// What the upper entry of a name is.
#[derive(Debug, Clone, Copy, PartialEq, Eq, Structural)]
pub enum UpperKind {
    /// An OverlayFS whiteout (character device 0:0).
    Whiteout,
    Directory,
    /// A file, a symlink, or anything else that is not a directory.
    Other,
}

/// How a name present in the upper directory lands in the merged one.
#[derive(Debug, Clone, Copy, PartialEq, Eq, Structural)]
pub enum EntryStep {
    /// The deletion must still show through: whatever the lower layer had
    /// is superseded, and the merged entry is a whiteout again.
    WriteWhiteout,
    /// Both are directories: merged recursively.
    MergeDirectories,
    /// The upper entry wins outright (also when it changes the type).
    CopyUpper,
}

pub open spec fn entry_step_of(upper: UpperKind, lower_is_dir: bool) -> EntryStep {
    match upper {
        UpperKind::Whiteout => EntryStep::WriteWhiteout,
        UpperKind::Directory => if lower_is_dir {
            EntryStep::MergeDirectories
        } else {
            EntryStep::CopyUpper
        },
        UpperKind::Other => EntryStep::CopyUpper,
    }
}

/// The step for an upper entry of kind `upper`, where `lower_is_dir` says
/// whether the lower layer shows a directory under the same name.
pub fn entry_step(upper: UpperKind, lower_is_dir: bool) -> (r: EntryStep)
    ensures
        r == entry_step_of(upper, lower_is_dir),
{
    match upper {
        UpperKind::Whiteout => EntryStep::WriteWhiteout,
        UpperKind::Directory => if lower_is_dir {
            EntryStep::MergeDirectories
        } else {
            EntryStep::CopyUpper
        },
        UpperKind::Other => EntryStep::CopyUpper,
    }
}

pub open spec fn not_a_directory(path: Seq<char>) -> Seq<char> {
    "squash: "@ + path + " is not a directory"@
}

/// Whether the merge of upper `b` over lower `a` may start: both must be
/// directories; the first that is not is named in the error.
pub fn squash(a: &str, a_is_dir: bool, b: &str, b_is_dir: bool) -> (r: Result<(), String>)
    ensures
        a_is_dir && b_is_dir <==> r is Ok,
        !a_is_dir ==> r is Err && r->Err_0@ == not_a_directory(a@),
        a_is_dir && !b_is_dir ==> r is Err && r->Err_0@ == not_a_directory(b@),
{
    if !a_is_dir {
        return Err(concat3("squash: ", a, " is not a directory"));
    }
    if !b_is_dir {
        return Err(concat3("squash: ", b, " is not a directory"));
    }
    Ok(())
}

// ---------------------------------------------------------------------
// What the merge shows
// ---------------------------------------------------------------------
/// The contents of a path in one layer: a file (or symlink), told apart by
/// its contents; a whiteout; or a directory, possibly opaque, with its
/// entries by name.
pub enum Tree {
    File(int),
    Whiteout,
    Dir { opaque: bool, children: Map<Seq<u8>, Tree> },
}

/// What a mount shows at a path: a file, or a directory with its entries.
pub enum Shown {
    File(int),
    Dir(Map<Seq<u8>, Shown>),
}

pub open spec fn kind_of(t: Tree) -> UpperKind {
    match t {
        Tree::File(_) => UpperKind::Other,
        Tree::Whiteout => UpperKind::Whiteout,
        Tree::Dir { .. } => UpperKind::Directory,
    }
}

/// What a layer mounted alone shows: whiteouts hide nothing and show
/// nothing.
pub open spec fn shown(t: Tree) -> Option<Shown>
    decreases t,
{
    match t {
        Tree::File(x) => Some(Shown::File(x)),
        Tree::Whiteout => None,
        Tree::Dir { opaque, children } => Some(
            Shown::Dir(
                Map::new(
                    |n: Seq<u8>| children.dom().contains(n) && shown(children[n]) is Some,
                    |n: Seq<u8>|
                        if children.dom().contains(n) {
                            shown(children[n])->Some_0
                        } else {
                            Shown::File(0)
                        },
                ),
            ),
        ),
    }
}

/// What `upper` mounted over `lower` shows (OverlayFS): a whiteout hides
/// the lower entry, a file wins, and a directory is merged name by name
/// with a lower directory unless it is opaque.
pub open spec fn shown_over(upper: Tree, lower: Option<Tree>) -> Option<Shown>
    decreases upper,
{
    match upper {
        Tree::File(x) => Some(Shown::File(x)),
        Tree::Whiteout => None,
        Tree::Dir { opaque, children } => match lower {
            Some(Tree::Dir { opaque: _, children: below }) => if opaque {
                shown(upper)
            } else {
                Some(
                    Shown::Dir(
                        Map::new(
                            |n: Seq<u8>|
                                if children.dom().contains(n) {
                                    shown_over(children[n], lower_entry(below, n, true)) is Some
                                } else {
                                    below.dom().contains(n) && shown(below[n]) is Some
                                },
                            |n: Seq<u8>|
                                if children.dom().contains(n) {
                                    match shown_over(children[n], lower_entry(below, n, true)) {
                                        Some(s) => s,
                                        None => Shown::File(0),
                                    }
                                } else {
                                    match shown(below[n]) {
                                        Some(s) => s,
                                        None => Shown::File(0),
                                    }
                                },
                        ),
                    ),
                )
            },
            _ => shown(upper),
        },
    }
}

/// What the merged directory of `upper` over `lower` shows under `n`.
pub open spec fn shown_entry(upper: Map<Seq<u8>, Tree>, lower: Map<Seq<u8>, Tree>, n: Seq<u8>) -> Option<Shown> {
    if upper.dom().contains(n) {
        shown_over(upper[n], lower_entry(lower, n, true))
    } else if lower.dom().contains(n) {
        shown(lower[n])
    } else {
        None
    }
}

/// The lower entry a name of the upper directory is merged with: none
/// when the upper directory is opaque (`visible` false) or the lower one
/// lacks the name.
pub open spec fn lower_entry(lower: Map<Seq<u8>, Tree>, n: Seq<u8>, visible: bool) -> Option<Tree> {
    if visible && lower.dom().contains(n) {
        Some(lower[n])
    } else {
        None
    }
}

/// The merge as `merge_plan` and `entry_step` decide it, applied at every
/// level: what lands in the merged layer for an upper entry over a lower
/// one. A whiteout is written again, two directories are merged (the
/// result opaque if the upper one is; names from both, each from the
/// upper directory where it has it, the lower names left out under an
/// opaque upper), and anything else is the upper entry unchanged.
pub open spec fn squashed(upper: Tree, lower: Option<Tree>) -> Tree
    decreases upper,
{
    match upper {
        Tree::Dir { opaque, children } => {
            let lower_is_dir = lower matches Some(Tree::Dir { .. });
            if entry_step_of(kind_of(upper), lower_is_dir) == EntryStep::MergeDirectories {
                let below = match lower {
                    Some(Tree::Dir { opaque: _, children: c }) => c,
                    _ => Map::empty(),
                };
                Tree::Dir {
                    opaque,
                    children: Map::new(
                        |n: Seq<u8>| children.dom().contains(n) || (!opaque && below.dom().contains(n)),
                        |n: Seq<u8>|
                            if children.dom().contains(n) {
                                squashed(children[n], lower_entry(below, n, !opaque))
                            } else {
                                below[n]
                            },
                    ),
                }
            } else {
                upper
            }
        },
        _ => if entry_step_of(kind_of(upper), false) == EntryStep::WriteWhiteout {
            Tree::Whiteout
        } else {
            upper
        },
    }
}

/// An upper entry over nothing shows what it shows alone.
pub proof fn lemma_over_nothing(t: Tree)
    ensures
        shown_over(t, None) == shown(t),
{
}

/// The merged layer shows exactly what mounting the upper layer over the
/// lower one shows: for every upper entry `upper` and lower entry `lower`
/// (if any), `shown(squashed(upper, lower)) == shown_over(upper, lower)`.
pub proof fn squash_shows_upper_over_lower(upper: Tree, lower: Option<Tree>)
    ensures
        shown(squashed(upper, lower)) == shown_over(upper, lower),
    decreases upper,
{
    match upper {
        Tree::Dir { opaque, children } => {
            if let Some(Tree::Dir { opaque: _, children: below }) = lower {
                let m = squashed(upper, lower);
                let mc = match m {
                    Tree::Dir { opaque: _, children: c } => c,
                    _ => Map::empty(),
                };
                let visible = !opaque;
                assert forall|n: Seq<u8>| children.dom().contains(n) implies shown(
                    #[trigger] squashed(children[n], lower_entry(below, n, visible)),
                ) == shown_over(children[n], lower_entry(below, n, visible)) by {
                    squash_shows_upper_over_lower(children[n], lower_entry(below, n, visible));
                }
                if opaque {
                    assert forall|n: Seq<u8>| children.dom().contains(n) implies shown_over(
                        #[trigger] children[n],
                        None,
                    ) == shown(children[n]) by {
                        lemma_over_nothing(children[n]);
                    }
                    let a = match shown(m) {
                        Some(Shown::Dir(x)) => x,
                        _ => Map::empty(),
                    };
                    let b = match shown(upper) {
                        Some(Shown::Dir(x)) => x,
                        _ => Map::empty(),
                    };
                    assert(mc.dom() =~= children.dom());
                    assert(a =~= b) by {
                        assert forall|n: Seq<u8>| #[trigger] a.dom().contains(n) == b.dom().contains(n) by {
                            if children.dom().contains(n) {
                                assert(mc[n] == squashed(children[n], lower_entry(below, n, !opaque)));
                                assert(lower_entry(below, n, !opaque) is None);
                            }
                        }
                        assert forall|n: Seq<u8>| a.dom().contains(n) implies #[trigger] a[n] == b[n] by {
                            assert(mc[n] == squashed(children[n], lower_entry(below, n, !opaque)));
                            assert(lower_entry(below, n, !opaque) is None);
                        }
                    }
                } else {
                    let a = match shown(m) {
                        Some(Shown::Dir(x)) => x,
                        _ => Map::empty(),
                    };
                    let b = match shown_over(upper, lower) {
                        Some(Shown::Dir(x)) => x,
                        _ => Map::empty(),
                    };
                    assert forall|n: Seq<u8>| #![trigger mc.dom().contains(n)] mc.dom().contains(n) ==> shown(mc[n]) == shown_entry(children, below, n) by {
                        if mc.dom().contains(n) {
                            if children.dom().contains(n) {
                                assert(mc[n] == squashed(children[n], lower_entry(below, n, visible)));
                                assert(lower_entry(below, n, visible) == lower_entry(below, n, true));
                            } else {
                                assert(mc[n] == below[n]);
                            }
                        }
                    }
                    assert(a =~= b) by {
                        assert forall|n: Seq<u8>| #[trigger] a.dom().contains(n) == b.dom().contains(n) by {
                            if mc.dom().contains(n) {
                                assert(shown(mc[n]) == shown_entry(children, below, n));
                            } else {
                                assert(shown_entry(children, below, n) is None);
                            }
                        }
                        assert forall|n: Seq<u8>| a.dom().contains(n) implies #[trigger] a[n] == b[n] by {
                            assert(shown(mc[n]) == shown_entry(children, below, n));
                        }
                    }
                }
            }
        },
        _ => {},
    }
}

/// What `upper` over `lower` shows, where `upper` may be absent.
pub open spec fn shown_over_opt(upper: Option<Tree>, lower: Option<Tree>) -> Option<Shown> {
    match upper {
        Some(u) => shown_over(u, lower),
        None => match lower {
            Some(l) => shown(l),
            None => None,
        },
    }
}

/// The entry of `m` under `n`, if any.
pub open spec fn entry(m: Map<Seq<u8>, Tree>, n: Seq<u8>) -> Option<Tree> {
    if m.dom().contains(n) {
        Some(m[n])
    } else {
        None
    }
}

/// The entries of the bottom layer that show through a middle directory:
/// those of a bottom directory, unless the middle one is opaque.
pub open spec fn through(mid_opaque: bool, low: Option<Tree>) -> Map<Seq<u8>, Tree> {
    match low {
        Some(Tree::Dir { opaque: _, children }) => if mid_opaque {
            Map::empty()
        } else {
            children
        },
        _ => Map::empty(),
    }
}

/// What three layers mounted one over the other show (`top` over `mid`
/// over `low`): as with two, the top entry decides; a directory merges with
/// what shows below it, and a whiteout, a file or an opaque directory in a
/// layer hides everything beneath it.
pub open spec fn shown3(top: Tree, mid: Option<Tree>, low: Option<Tree>) -> Option<Shown>
    decreases top,
{
    match top {
        Tree::File(x) => Some(Shown::File(x)),
        Tree::Whiteout => None,
        Tree::Dir { opaque, children } => if opaque {
            shown(top)
        } else {
            match mid {
                None => shown_over(top, low),
                Some(Tree::Dir { opaque: mop, children: mch }) => {
                    let lch = through(mop, low);
                    Some(
                        Shown::Dir(
                            Map::new(
                                |n: Seq<u8>|
                                    if children.dom().contains(n) {
                                        shown3(children[n], entry(mch, n), entry(lch, n)) is Some
                                    } else {
                                        shown_over_opt(entry(mch, n), entry(lch, n)) is Some
                                    },
                                |n: Seq<u8>|
                                    if children.dom().contains(n) {
                                        match shown3(children[n], entry(mch, n), entry(lch, n)) {
                                            Some(s) => s,
                                            None => Shown::File(0),
                                        }
                                    } else {
                                        match shown_over_opt(entry(mch, n), entry(lch, n)) {
                                            Some(s) => s,
                                            None => Shown::File(0),
                                        }
                                    },
                            ),
                        ),
                    )
                },
                Some(_) => shown(top),
            }
        },
    }
}

/// What the top layer's entry under `n` shows over the two below it.
pub open spec fn shown3_entry(top: Map<Seq<u8>, Tree>, mch: Map<Seq<u8>, Tree>, lch: Map<Seq<u8>, Tree>, n: Seq<u8>) -> Option<Shown> {
    if top.dom().contains(n) {
        shown3(top[n], entry(mch, n), entry(lch, n))
    } else {
        shown_over_opt(entry(mch, n), entry(lch, n))
    }
}

/// The merge loses nothing of what the top layer hides: nowhere does a
/// non-opaque top directory stand over an opaque directory, a file or a
/// whiteout of the middle layer. (There the merged directory is not
/// opaque, while the middle entry hid whatever lay below it.)
pub open spec fn keeps_hiding(top: Tree, mid: Option<Tree>) -> bool
    decreases top,
{
    match top {
        Tree::Dir { opaque, children } => if opaque {
            true
        } else {
            match mid {
                None => true,
                Some(Tree::Dir { opaque: mop, children: mch }) => !mop && forall|n: Seq<u8>|
                    #[trigger] children.dom().contains(n) ==> keeps_hiding(children[n], entry(mch, n)),
                Some(_) => false,
            }
        },
        _ => true,
    }
}

/// Merging the top layer into the middle one keeps what the pair hides
/// from layers below: mounted over any bottom layer `low`, the merged layer
/// shows what `top` over `mid` over `low` shows, wherever the merge loses
/// nothing of what `top` hides (`keeps_hiding`).
pub proof fn squash_keeps_hiding_what_lies_below(top: Tree, mid: Option<Tree>, low: Option<Tree>)
    requires
        keeps_hiding(top, mid),
    ensures
        shown_over(squashed(top, mid), low) == shown3(top, mid, low),
    decreases top,
{
    match top {
        Tree::Dir { opaque, children } => {
            if opaque {
                if let Some(Tree::Dir { opaque: _, children: mch }) = mid {
                    let m = squashed(top, mid);
                    let mc = match m {
                        Tree::Dir { opaque: _, children: c } => c,
                        _ => Map::empty(),
                    };
                    assert(mc.dom() =~= children.dom());
                    assert forall|n: Seq<u8>| children.dom().contains(n) implies shown(
                        #[trigger] mc[n],
                    ) == shown(children[n]) by {
                        assert(lower_entry(mch, n, false) is None);
                        assert(mc[n] == squashed(children[n], None));
                        squash_shows_upper_over_lower(children[n], None);
                        lemma_over_nothing(children[n]);
                    }
                    let a = match shown(m) {
                        Some(Shown::Dir(x)) => x,
                        _ => Map::empty(),
                    };
                    let b = match shown(top) {
                        Some(Shown::Dir(x)) => x,
                        _ => Map::empty(),
                    };
                    assert(a =~= b) by {
                        assert forall|n: Seq<u8>| #[trigger] a.dom().contains(n) == b.dom().contains(n) by {
                            if children.dom().contains(n) {
                                assert(shown(mc[n]) == shown(children[n]));
                            }
                        }
                        assert forall|n: Seq<u8>| a.dom().contains(n) implies #[trigger] a[n] == b[n] by {
                            assert(shown(mc[n]) == shown(children[n]));
                        }
                    }
                }
            } else {
                match mid {
                    Some(Tree::Dir { opaque: mop, children: mch }) => {
                        let m = squashed(top, mid);
                        let mc = match m {
                            Tree::Dir { opaque: _, children: c } => c,
                            _ => Map::empty(),
                        };
                        let lch = through(mop, low);
                        assert forall|n: Seq<u8>| children.dom().contains(n) implies shown_over(
                            #[trigger] squashed(children[n], entry(mch, n)),
                            entry(lch, n),
                        ) == shown3(children[n], entry(mch, n), entry(lch, n)) by {
                            squash_keeps_hiding_what_lies_below(children[n], entry(mch, n), entry(lch, n));
                        }
                        assert forall|n: Seq<u8>| #![trigger mc.dom().contains(n)] mc.dom().contains(n) ==> mc[n] == (if children.dom().contains(n) {
                            squashed(children[n], entry(mch, n))
                        } else {
                            mch[n]
                        }) by {
                            if mc.dom().contains(n) && children.dom().contains(n) {
                                assert(lower_entry(mch, n, true) == entry(mch, n));
                            }
                        }
                        match low {
                            Some(Tree::Dir { opaque: lop, children: cch }) => {
                                assert(lch == cch);
                                let a = match shown_over(m, low) {
                                    Some(Shown::Dir(x)) => x,
                                    _ => Map::empty(),
                                };
                                let b = match shown3(top, mid, low) {
                                    Some(Shown::Dir(x)) => x,
                                    _ => Map::empty(),
                                };
                                assert forall|n: Seq<u8>| #![trigger shown_entry(mc, cch, n)] shown_entry(mc, cch, n) == shown3_entry(children, mch, lch, n) by {
                                    if mc.dom().contains(n) {
                                        if children.dom().contains(n) {
                                        } else {
                                            assert(entry(mch, n) == Some(mch[n]));
                                            assert(lower_entry(cch, n, true) == entry(lch, n));
                                        }
                                    } else {
                                        assert(!children.dom().contains(n) && !mch.dom().contains(n));
                                    }
                                }
                                assert(a =~= b) by {
                                    assert forall|n: Seq<u8>| #[trigger] a.dom().contains(n) == b.dom().contains(n) by {
                                        assert(shown_entry(mc, cch, n) == shown3_entry(children, mch, lch, n));
                                    }
                                    assert forall|n: Seq<u8>| a.dom().contains(n) implies #[trigger] a[n] == b[n] by {
                                        assert(shown_entry(mc, cch, n) == shown3_entry(children, mch, lch, n));
                                    }
                                }
                            },
                            _ => {
                                assert(lch == Map::<Seq<u8>, Tree>::empty());
                                let a = match shown(m) {
                                    Some(Shown::Dir(x)) => x,
                                    _ => Map::empty(),
                                };
                                let b = match shown3(top, mid, low) {
                                    Some(Shown::Dir(x)) => x,
                                    _ => Map::empty(),
                                };
                                assert forall|n: Seq<u8>| #![trigger mc.dom().contains(n)] mc.dom().contains(n) ==> shown(mc[n]) == shown3_entry(children, mch, lch, n) by {
                                    if mc.dom().contains(n) {
                                        if children.dom().contains(n) {
                                            lemma_over_nothing(squashed(children[n], entry(mch, n)));
                                            assert(entry(lch, n) is None);
                                        } else {
                                            assert(entry(mch, n) == Some(mch[n]));
                                            lemma_over_nothing(mch[n]);
                                        }
                                    }
                                }
                                assert(a =~= b) by {
                                    assert forall|n: Seq<u8>| #[trigger] a.dom().contains(n) == b.dom().contains(n) by {
                                        if !mc.dom().contains(n) {
                                            assert(!children.dom().contains(n) && !mch.dom().contains(n));
                                            assert(entry(lch, n) is None);
                                        }
                                    }
                                    assert forall|n: Seq<u8>| a.dom().contains(n) implies #[trigger] a[n] == b[n] by {}
                                }
                            },
                        }
                    },
                    _ => {},
                }
            }
        },
        _ => {},
    }
}

} // verus!
