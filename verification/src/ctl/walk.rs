//! Listing everything stored in a layer, in path order.
use vstd::prelude::*;

use crate::storage::risk::{components, path_components};

verus! {

#[derive(Debug, Clone, Copy, PartialEq, Eq, Structural)]
pub enum EntryKind {
    /// Regular file, directory, or symlink physically present in the layer.
    Present,
    /// OverlayFS whiteout: a character device with major/minor 0,0,
    /// recording that this path is deleted relative to lower layers.
    Whiteout,
}

#[derive(Debug)]
pub struct Entry {
    /// Path relative to the layer root.
    pub path: String,
    pub kind: EntryKind,
}

/// One file found by the depth-first walk of a layer directory (symlinks
/// not followed): its path relative to the layer root and its file type.
pub struct RawEntry {
    pub path: String,
    pub is_char_device: bool,
    pub rdev: u64,
}

pub open spec fn kind_of(is_char_device: bool, rdev: u64) -> EntryKind {
    if is_char_device && rdev == 0 {
        EntryKind::Whiteout
    } else {
        EntryKind::Present
    }
}

pub open spec fn raw_view(v: Seq<RawEntry>) -> Seq<(Seq<char>, EntryKind)> {
    v.map_values(|r: RawEntry| (r.path@, kind_of(r.is_char_device, r.rdev)))
}

pub open spec fn entries_view(v: Seq<Entry>) -> Seq<(Seq<char>, EntryKind)> {
    v.map_values(|e: Entry| (e.path@, e.kind))
}

// ---------------------------------------------------------------------
// The order of paths (`Ord for Path`)
// ---------------------------------------------------------------------
/// Lexicographic order of character sequences by code point: negative,
/// zero or positive.
pub open spec fn chars_order(a: Seq<char>, b: Seq<char>) -> int
    decreases a.len(),
{
    if a.len() == 0 && b.len() == 0 {
        0
    } else if a.len() == 0 {
        -1
    } else if b.len() == 0 {
        1
    } else if (a[0] as u32) < (b[0] as u32) {
        -1
    } else if (a[0] as u32) > (b[0] as u32) {
        1
    } else {
        chars_order(a.drop_first(), b.drop_first())
    }
}

/// Root before `.` before `..` before a normal name.
pub open spec fn comp_rank(c: Seq<char>) -> int {
    if c == seq!['/'] {
        0
    } else if c == seq!['.'] {
        1
    } else if c == seq!['.', '.'] {
        2
    } else {
        3
    }
}

/// The order of two path components (`Ord for Component`).
pub open spec fn comp_order(a: Seq<char>, b: Seq<char>) -> int {
    if comp_rank(a) < comp_rank(b) {
        -1
    } else if comp_rank(a) > comp_rank(b) {
        1
    } else if comp_rank(a) == 3 {
        chars_order(a, b)
    } else {
        0
    }
}

/// Lexicographic order of component sequences.
pub open spec fn comps_order(a: Seq<Seq<char>>, b: Seq<Seq<char>>) -> int
    decreases a.len(),
{
    if a.len() == 0 && b.len() == 0 {
        0
    } else if a.len() == 0 {
        -1
    } else if b.len() == 0 {
        1
    } else if comp_order(a[0], b[0]) != 0 {
        comp_order(a[0], b[0])
    } else {
        comps_order(a.drop_first(), b.drop_first())
    }
}

/// `Ord for Path`: component by component.
pub open spec fn path_order(p: Seq<char>, q: Seq<char>) -> int {
    comps_order(path_components(p), path_components(q))
}

pub proof fn chars_antisym(a: Seq<char>, b: Seq<char>)
    ensures
        chars_order(a, b) == -chars_order(b, a),
        chars_order(a, b) == 0 ==> a == b,
    decreases a.len(),
{
    if a.len() > 0 && b.len() > 0 && a[0] == b[0] {
        chars_antisym(a.drop_first(), b.drop_first());
        if chars_order(a, b) == 0 {
            assert(a =~= seq![a[0]] + a.drop_first());
            assert(b =~= seq![b[0]] + b.drop_first());
        }
    } else if a.len() > 0 && b.len() > 0 {
        vstd::utf8::char_u32_cast(a[0], a[0] as u32);
        vstd::utf8::char_u32_cast(b[0], b[0] as u32);
    } else if a.len() == 0 && b.len() == 0 {
        assert(a =~= b);
    }
}

pub proof fn chars_trans(a: Seq<char>, b: Seq<char>, c: Seq<char>)
    requires
        chars_order(a, b) <= 0,
        chars_order(b, c) <= 0,
    ensures
        chars_order(a, c) <= 0,
    decreases a.len(),
{
    if a.len() > 0 && b.len() > 0 && c.len() > 0 {
        if (a[0] as u32) == (b[0] as u32) && (b[0] as u32) == (c[0] as u32) {
            chars_trans(a.drop_first(), b.drop_first(), c.drop_first());
        }
    }
}

pub proof fn comp_antisym(a: Seq<char>, b: Seq<char>)
    ensures
        comp_order(a, b) == -comp_order(b, a),
        comp_order(a, b) == 0 ==> a == b,
{
    chars_antisym(a, b);
}

pub proof fn comp_trans(a: Seq<char>, b: Seq<char>, c: Seq<char>)
    requires
        comp_order(a, b) <= 0,
        comp_order(b, c) <= 0,
    ensures
        comp_order(a, c) <= 0,
{
    if comp_rank(a) == 3 && comp_rank(b) == 3 && comp_rank(c) == 3 {
        chars_trans(a, b, c);
    }
}

pub proof fn comps_antisym(a: Seq<Seq<char>>, b: Seq<Seq<char>>)
    ensures
        comps_order(a, b) == -comps_order(b, a),
    decreases a.len(),
{
    if a.len() > 0 && b.len() > 0 {
        comp_antisym(a[0], b[0]);
        if comp_order(a[0], b[0]) == 0 {
            comps_antisym(a.drop_first(), b.drop_first());
        }
    }
}

pub proof fn comps_trans(a: Seq<Seq<char>>, b: Seq<Seq<char>>, c: Seq<Seq<char>>)
    requires
        comps_order(a, b) <= 0,
        comps_order(b, c) <= 0,
    ensures
        comps_order(a, c) <= 0,
    decreases a.len(),
{
    if a.len() > 0 && b.len() > 0 && c.len() > 0 {
        comp_antisym(a[0], b[0]);
        comp_antisym(b[0], c[0]);
        comp_antisym(a[0], c[0]);
        comp_trans(a[0], b[0], c[0]);
        if comp_order(a[0], b[0]) == 0 && comp_order(b[0], c[0]) == 0 {
            comps_trans(a.drop_first(), b.drop_first(), c.drop_first());
        } else if comp_order(a[0], c[0]) == 0 {
            assert(a[0] == c[0]);
            comp_antisym(c[0], b[0]);
        }
    }
}

/// `Path` order is a total preorder: antisymmetric and transitive.
pub proof fn path_order_total(p: Seq<char>, q: Seq<char>, r: Seq<char>)
    ensures
        path_order(p, q) == -path_order(q, p),
        path_order(p, q) <= 0 && path_order(q, r) <= 0 ==> path_order(p, r) <= 0,
{
    comps_antisym(path_components(p), path_components(q));
    if path_order(p, q) <= 0 && path_order(q, r) <= 0 {
        comps_trans(path_components(p), path_components(q), path_components(r));
    }
}

// ---------------------------------------------------------------------
// Executable comparison
// ---------------------------------------------------------------------
fn chars_compare(a: &Vec<char>, b: &Vec<char>) -> (r: i8)
    ensures
        r as int == chars_order(a@, b@),
{
    let mut i: usize = 0;
    assert(a@.skip(0) =~= a@ && b@.skip(0) =~= b@);
    while i < a.len() && i < b.len() && a[i] == b[i]
        invariant
            i <= a@.len(),
            i <= b@.len(),
            chars_order(a@, b@) == chars_order(a@.skip(i as int), b@.skip(i as int)),
        decreases a.len() - i,
    {
        assert(a@.skip(i as int).drop_first() =~= a@.skip(i + 1));
        assert(b@.skip(i as int).drop_first() =~= b@.skip(i + 1));
        i += 1;
    }
    if i == a.len() && i == b.len() {
        assert(a@.skip(i as int) =~= Seq::<char>::empty());
        assert(b@.skip(i as int) =~= Seq::<char>::empty());
        0
    } else if i == a.len() {
        assert(a@.skip(i as int) =~= Seq::<char>::empty());
        -1
    } else if i == b.len() {
        assert(b@.skip(i as int) =~= Seq::<char>::empty());
        1
    } else {
        assert(a@.skip(i as int)[0] == a@[i as int]);
        assert(b@.skip(i as int)[0] == b@[i as int]);
        proof {
            vstd::utf8::char_u32_cast(a@[i as int], a@[i as int] as u32);
            vstd::utf8::char_u32_cast(b@[i as int], b@[i as int] as u32);
        }
        if (a[i] as u32) < (b[i] as u32) {
            -1
        } else {
            1
        }
    }
}

fn comp_compare(a: &str, b: &str) -> (r: i8)
    ensures
        r as int == comp_order(a@, b@),
{
    let x = crate::text::chars_of(a);
    let y = crate::text::chars_of(b);
    let rx = rank_of(&x);
    let ry = rank_of(&y);
    if rx < ry {
        -1
    } else if rx > ry {
        1
    } else if rx == 3 {
        chars_compare(&x, &y)
    } else {
        0
    }
}

fn rank_of(x: &Vec<char>) -> (r: u8)
    ensures
        r as int == comp_rank(x@),
{
    if x.len() == 1 && x[0] == '/' {
        assert(x@ =~= seq!['/']);
        0
    } else if x.len() == 1 && x[0] == '.' {
        assert(x@ =~= seq!['.']);
        1
    } else if x.len() == 2 && x[0] == '.' && x[1] == '.' {
        assert(x@ =~= seq!['.', '.']);
        2
    } else {
        assert(x@ != seq!['/'] && x@ != seq!['.'] && x@ != seq!['.', '.']) by {
            if x@.len() == 1 {
                assert(x@ == seq!['/'] ==> x@[0] == '/');
                assert(x@ == seq!['.'] ==> x@[0] == '.');
            }
            if x@.len() == 2 {
                assert(x@ == seq!['.', '.'] ==> x@[0] == '.' && x@[1] == '.');
            }
        }
        3
    }
}

/// `Path::cmp` of two paths: negative, zero or positive.
pub fn compare_paths(p: &str, q: &str) -> (r: i8)
    ensures
        r as int == path_order(p@, q@),
{
    let a = components(p);
    let b = components(q);
    let ghost av = a.deep_view();
    let ghost bv = b.deep_view();
    let mut i: usize = 0;
    assert(av.skip(0) =~= av && bv.skip(0) =~= bv);
    while i < a.len() && i < b.len()
        invariant
            av == a.deep_view(),
            bv == b.deep_view(),
            av == path_components(p@),
            bv == path_components(q@),
            i <= av.len(),
            i <= bv.len(),
            path_order(p@, q@) == comps_order(av.skip(i as int), bv.skip(i as int)),
        decreases a.len() - i,
    {
        let c = comp_compare(a[i].as_str(), b[i].as_str());
        assert(av.skip(i as int)[0] == av[i as int]);
        assert(bv.skip(i as int)[0] == bv[i as int]);
        if c != 0 {
            return c;
        }
        assert(av.skip(i as int).drop_first() =~= av.skip(i + 1));
        assert(bv.skip(i as int).drop_first() =~= bv.skip(i + 1));
        i += 1;
    }
    if i == a.len() && i == b.len() {
        0
    } else if i == a.len() {
        -1
    } else {
        1
    }
}

// ---------------------------------------------------------------------
// Sorting
// ---------------------------------------------------------------------
pub open spec fn sorted_by_path(v: Seq<(Seq<char>, EntryKind)>) -> bool {
    forall|i: int, j: int| 0 <= i < j < v.len() ==> path_order(#[trigger] v[i].0, #[trigger] v[j].0) <= 0
}

/// Inserts `e` after every entry not greater than it (keeping equal paths
/// in arrival order).
fn insert_sorted(out: &mut Vec<Entry>, e: Entry)
    requires
        sorted_by_path(entries_view(old(out)@)),
    ensures
        sorted_by_path(entries_view(final(out)@)),
        entries_view(final(out)@).to_multiset() == entries_view(old(out)@).to_multiset().insert((e.path@, e.kind)),
{
    let ghost v = entries_view(out@);
    let ghost x = (e.path@, e.kind);
    let mut pos = out.len();
    while pos > 0 && compare_paths(out[pos - 1].path.as_str(), e.path.as_str()) > 0
        invariant
            v == entries_view(out@),
            x == (e.path@, e.kind),
            pos <= v.len(),
            forall|k: int| pos <= k < v.len() ==> path_order(#[trigger] v[k].0, x.0) > 0,
        decreases pos,
    {
        assert(v[pos - 1].0 == out@[pos - 1].path@);
        pos -= 1;
    }
    proof {
        if pos > 0 {
            assert(v[pos - 1].0 == out@[pos - 1].path@);
            assert(path_order(v[pos - 1].0, x.0) <= 0);
        }
        assert forall|k: int| 0 <= k < pos implies path_order(#[trigger] v[k].0, x.0) <= 0 by {
            if k < pos - 1 {
                path_order_total(v[k].0, v[pos - 1].0, x.0);
            }
        }
        assert forall|k: int| pos <= k < v.len() implies path_order(x.0, #[trigger] v[k].0) <= 0 by {
            path_order_total(x.0, v[k].0, x.0);
        }
    }
    out.insert(pos, e);
    proof {
        let w = entries_view(out@);
        assert(w =~= v.insert(pos as int, x));
        assert forall|i: int, j: int| 0 <= i < j < w.len() implies path_order(#[trigger] w[i].0, #[trigger] w[j].0) <= 0 by {
            if j < pos {
                assert(w[i] == v[i] && w[j] == v[j]);
            } else if j == pos {
                assert(w[i] == v[i]);
            } else if i < pos {
                assert(w[i] == v[i] && w[j] == v[j - 1]);
                path_order_total(v[i].0, x.0, v[j - 1].0);
            } else if i == pos {
                assert(w[j] == v[j - 1]);
            } else {
                assert(w[i] == v[i - 1] && w[j] == v[j - 1]);
            }
        }
        vstd::seq_lib::to_multiset_insert(v, pos as int, x);
    }
}

/// Everything stored directly in a layer directory, each entry classified
/// (whiteout or present), sorted by path; `raw` is what the depth-first
/// walk of the directory found.
pub fn walk(raw: Vec<RawEntry>) -> (r: Vec<Entry>)
    ensures
        sorted_by_path(entries_view(r@)),
        entries_view(r@).to_multiset() == raw_view(raw@).to_multiset(),
{
    let ghost rv = raw_view(raw@);
    let mut out: Vec<Entry> = Vec::new();
    let mut i: usize = 0;
    assert(entries_view(out@) =~= Seq::<(Seq<char>, EntryKind)>::empty());
    assert(rv.take(0) =~= Seq::<(Seq<char>, EntryKind)>::empty());
    while i < raw.len()
        invariant
            rv == raw_view(raw@),
            i <= raw@.len(),
            sorted_by_path(entries_view(out@)),
            entries_view(out@).to_multiset() == rv.take(i as int).to_multiset(),
        decreases raw.len() - i,
    {
        let kind = if raw[i].is_char_device && raw[i].rdev == 0 {
            EntryKind::Whiteout
        } else {
            EntryKind::Present
        };
        let e = Entry { path: raw[i].path.clone(), kind };
        assert((e.path@, e.kind) == rv[i as int]);
        insert_sorted(&mut out, e);
        assert(rv.take(i + 1) =~= rv.take(i as int).push(rv[i as int]));
        proof {
            vstd::seq_lib::to_multiset_build(rv.take(i as int), rv[i as int]);
        }
        i += 1;
    }
    assert(rv.take(raw@.len() as int) =~= rv);
    out
}

} // verus!
