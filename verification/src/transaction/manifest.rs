//! The transaction manifest: `manifest.log` under the store root, one JSON
//! record per line, appended as transactions happen. Turning records into
//! JSON and back is the caller's part; this module frames the lines.
use vstd::prelude::*;

use crate::text::{concat, join, join_path, lines, lines_of, split_on, strip_cr};

verus! {

/// `<store>/manifest.log`.
pub fn manifest_path(store_root: &str) -> (r: String)
    ensures
        r@ == join_path(store_root@, "manifest.log"@),
{
    join(store_root, "manifest.log")
}

/// The text appended for one record: its JSON line and a newline.
pub fn manifest_entry(json: &str) -> (r: String)
    ensures
        r@ == json@ + seq!['\n'],
{
    let r = concat(json, "\n");
    proof {
        reveal_strlit("\n");
    }
    r
}

/// The non-empty lines of `ls`, in order.
pub open spec fn non_empty(ls: Seq<Seq<char>>) -> Seq<Seq<char>>
    decreases ls.len(),
{
    if ls.len() == 0 {
        seq![]
    } else if ls.last().len() == 0 {
        non_empty(ls.drop_last())
    } else {
        non_empty(ls.drop_last()).push(ls.last())
    }
}

/// The record lines of a manifest's contents: its non-empty lines.
pub open spec fn manifest_records(contents: Seq<char>) -> Seq<Seq<char>> {
    non_empty(lines(contents))
}

/// The JSON lines of a manifest, each to be read as one record.
pub fn manifest_lines(contents: &str) -> (r: Vec<String>)
    ensures
        r.deep_view() == manifest_records(contents@),
{
    let all = lines_of(contents);
    let ghost lv = all.deep_view();
    let mut out: Vec<String> = Vec::new();
    let mut i: usize = 0;
    assert(lv.take(0) =~= Seq::<Seq<char>>::empty());
    while i < all.len()
        invariant
            lv == all.deep_view(),
            i <= lv.len(),
            out.deep_view() =~= non_empty(lv.take(i as int)),
        decreases all.len() - i,
    {
        assert(lv.take(i + 1).drop_last() =~= lv.take(i as int));
        assert(lv.take(i + 1).last() == lv[i as int]);
        assert(lv[i as int] == all@[i as int]@);
        if all[i].as_str().is_empty() {
        } else {
            let ghost before = out.deep_view();
            out.push(all[i].clone());
            assert(out.deep_view() =~= before.push(lv[i as int]));
        }
        i += 1;
    }
    assert(lv.take(lv.len() as int) =~= lv);
    out
}

/// Splitting `s + t` at `c`, where `t` has no `c`: `t` extends the last
/// piece of `s`.
pub proof fn lemma_split_extend(s: Seq<char>, t: Seq<char>, c: char)
    requires
        !t.contains(c),
    ensures
        split_on(s + t, c) == split_on(s, c).update(
            split_on(s, c).len() - 1,
            split_on(s, c).last() + t,
        ),
    decreases t.len(),
{
    crate::text::lemma_split_on_nonempty(s, c);
    if t.len() == 0 {
        assert(s + t =~= s);
        assert(split_on(s, c).last() + t =~= split_on(s, c).last());
        assert(split_on(s, c).update(split_on(s, c).len() - 1, split_on(s, c).last() + t)
            =~= split_on(s, c));
    } else {
        let t0 = t.drop_last();
        assert(!t0.contains(c)) by {
            if t0.contains(c) {
                let k = choose|k: int| 0 <= k < t0.len() && t0[k] == c;
                assert(t[k] == c);
            }
        }
        assert(t.last() != c) by {
            assert(t[t.len() - 1] == t.last());
        }
        lemma_split_extend(s, t0, c);
        assert((s + t).drop_last() =~= s + t0);
        assert((s + t).last() == t.last());
        crate::text::lemma_split_on_nonempty(s + t0, c);
        let p = split_on(s, c);
        assert(split_on(s + t, c) =~= p.update(p.len() - 1, p.last() + t0).update(
            p.len() - 1,
            (p.last() + t0).push(t.last()),
        ));
        assert((p.last() + t0).push(t.last()) =~= p.last() + t);
    }
}

/// The manifest keeps its records in order: appending the entry of a JSON
/// line `j` (non-empty, with no newline and not ending in a carriage
/// return) to contents that are empty or end with a newline adds exactly
/// `j` after the records already there.
pub proof fn append_reads_back(contents: Seq<char>, j: Seq<char>)
    requires
        contents.len() == 0 || contents.last() == '\n',
        j.len() > 0,
        !j.contains('\n'),
        j.last() != '\r',
    ensures
        manifest_records(contents + j + seq!['\n']) == manifest_records(contents).push(j),
{
    let p = split_on(contents, '\n');
    crate::text::lemma_split_on_nonempty(contents, '\n');
    assert(p.last().len() == 0) by {
        if contents.len() > 0 {
            assert(contents.drop_last() + seq![contents.last()] =~= contents);
            crate::text::lemma_split_on_nonempty(contents.drop_last(), '\n');
        }
    }
    lemma_split_extend(contents, j, '\n');
    let q = split_on(contents + j, '\n');
    assert(q =~= p.update(p.len() - 1, j)) by {
        assert(p.last() + j =~= j);
    }
    let s = contents + j + seq!['\n'];
    assert(s.drop_last() =~= contents + j);
    assert(s.last() == '\n');
    let r = split_on(s, '\n');
    assert(r =~= q.push(seq![]));
    // lines of the new contents
    assert(r.drop_last() =~= q);
    assert(q.drop_last() =~= p.drop_last());
    let f = |l: Seq<char>| strip_cr(l);
    assert(strip_cr(j) =~= j);
    assert(r.drop_last().map_values(f) =~= p.drop_last().map_values(f).push(j));
    assert(lines(s) =~= p.drop_last().map_values(f).push(j));
    assert(lines(contents) =~= p.drop_last().map_values(f));
    assert(lines(s).drop_last() =~= lines(contents));
    assert(lines(s).last() == j);
}

} // verus!
