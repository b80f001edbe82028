//! Which changed paths make a live (no-reboot) update unsafe.
use vstd::prelude::*;

use crate::text::{chars_of, eq_str, owned, split_on, split_pieces, lemma_split_on_nonempty};

verus! {

/// A path's components, as `Path::components` gives them on Unix: a root
/// `/` or a leading `.` first, then every non-empty piece between slashes
/// other than `.`.
pub open spec fn path_components(s: Seq<char>) -> Seq<Seq<char>> {
    let pieces = split_on(s, '/');
    let head = if s.len() > 0 && s[0] == '/' {
        seq![seq!['/']]
    } else if pieces[0] == "."@ {
        seq!["."@]
    } else {
        seq![]
    };
    head + normal_pieces(pieces)
}

/// The pieces that are proper components: non-empty and not `.`.
pub open spec fn normal_pieces(ps: Seq<Seq<char>>) -> Seq<Seq<char>>
    decreases ps.len(),
{
    if ps.len() == 0 {
        seq![]
    } else if ps.last().len() > 0 && ps.last() != "."@ {
        normal_pieces(ps.drop_last()).push(ps.last())
    } else {
        normal_pieces(ps.drop_last())
    }
}

/// `Path::starts_with`: `base`'s components begin `path`'s.
pub open spec fn path_starts_with(path: Seq<char>, base: Seq<char>) -> bool {
    let p = path_components(path);
    let b = path_components(base);
    b.len() <= p.len() && p.take(b.len() as int) == b
}

/// Paths whose changes can leave already-running processes on a stale
/// version indefinitely (shared libraries, the kernel, systemd itself).
pub open spec fn risky_prefixes() -> Seq<Seq<char>> {
    seq!["usr/lib"@, "usr/lib64"@, "lib"@, "lib64"@, "boot"@, "usr/lib/systemd"@]
}

pub open spec fn is_risky(rel: Seq<char>) -> bool {
    exists|i: int| 0 <= i < risky_prefixes().len() && path_starts_with(rel, #[trigger] risky_prefixes()[i])
}

pub(crate) fn components(s: &str) -> (r: Vec<String>)
    ensures
        r.deep_view() == path_components(s@),
{
    let pieces = split_pieces(s, '/');
    let ghost ps = pieces.deep_view();
    proof {
        lemma_split_on_nonempty(s@, '/');
    }
    let cs = chars_of(s);
    let mut out: Vec<String> = Vec::new();
    if cs.len() > 0 && cs[0] == '/' {
        out.push(owned("/"));
        proof {
            reveal_strlit("/");
            assert("/"@ =~= seq!['/']);
        }
        assert(out.deep_view() =~= seq![seq!['/']]);
    } else if eq_str(pieces[0].as_str(), ".") {
        out.push(owned("."));
        assert(out.deep_view() =~= seq!["."@]);
    } else {
        assert(out.deep_view() =~= Seq::<Seq<char>>::empty());
    }
    let ghost head = out.deep_view();
    let mut i: usize = 0;
    while i < pieces.len()
        invariant
            ps == pieces.deep_view(),
            i <= ps.len(),
            out.deep_view() == head + normal_pieces(ps.take(i as int)),
        decreases pieces.len() - i,
    {
        assert(ps.take(i + 1).drop_last() =~= ps.take(i as int));
        assert(ps.take(i + 1).last() == pieces[i as int]@);
        let piece = pieces[i].as_str();
        if !piece.is_empty() && !eq_str(piece, ".") {
            let ghost before = out.deep_view();
            out.push(owned(piece));
            assert(out.deep_view() =~= before.push(ps[i as int]));
        }
        i += 1;
    }
    assert(ps.take(ps.len() as int) =~= ps);
    out
}

/// `Path::new(path).starts_with(base)`.
pub fn starts_with_path(path: &str, base: &str) -> (r: bool)
    ensures
        r == path_starts_with(path@, base@),
{
    let p = components(path);
    let b = components(base);
    if b.len() > p.len() {
        return false;
    }
    let mut i: usize = 0;
    while i < b.len()
        invariant
            p.deep_view() == path_components(path@),
            b.deep_view() == path_components(base@),
            b@.len() <= p@.len(),
            i <= b@.len(),
            forall|k: int| 0 <= k < i ==> p.deep_view()[k] == b.deep_view()[k],
        decreases b.len() - i,
    {
        if !eq_str(p[i].as_str(), b[i].as_str()) {
            assert(p.deep_view().take(b@.len() as int)[i as int] != b.deep_view()[i as int]);
            return false;
        }
        i += 1;
    }
    assert(p.deep_view().take(b@.len() as int) =~= b.deep_view());
    true
}

fn risky_prefix_list() -> (r: Vec<&'static str>)
    ensures
        r@.len() == risky_prefixes().len(),
        forall|i: int| 0 <= i < r@.len() ==> (#[trigger] r@[i])@ == risky_prefixes()[i],
{
    vec!["usr/lib", "usr/lib64", "lib", "lib64", "boot", "usr/lib/systemd"]
}

pub fn is_risky_path(rel: &str) -> (r: bool)
    ensures
        r == is_risky(rel@),
{
    let prefixes = risky_prefix_list();
    let mut i: usize = 0;
    while i < prefixes.len()
        invariant
            prefixes@.len() == risky_prefixes().len(),
            forall|k: int| 0 <= k < prefixes@.len() ==> (#[trigger] prefixes@[k])@ == risky_prefixes()[k],
            i <= prefixes@.len(),
            forall|k: int| 0 <= k < i ==> !path_starts_with(rel@, #[trigger] risky_prefixes()[k]),
        decreases prefixes.len() - i,
    {
        if starts_with_path(rel, prefixes[i]) {
            return true;
        }
        i += 1;
    }
    false
}

/// Whether any of a layer's paths (relative to the layer root, as the walk
/// of the layer lists them) is risky. An update whose safety cannot be
/// determined is reported by the caller as requiring a reboot.
pub fn layer_is_risky(paths: &Vec<String>) -> (r: bool)
    ensures
        r == exists|i: int| 0 <= i < paths@.len() && is_risky(#[trigger] paths@[i]@),
{
    let mut i: usize = 0;
    while i < paths.len()
        invariant
            i <= paths@.len(),
            forall|k: int| 0 <= k < i ==> !is_risky(#[trigger] paths@[k]@),
        decreases paths.len() - i,
    {
        if is_risky_path(paths[i].as_str()) {
            return true;
        }
        i += 1;
    }
    false
}

/// The top-level directories a live update may be applied to: `/usr` and
/// `/opt`, never the whole root.
pub open spec fn hot_scopes() -> Seq<Seq<char>> {
    seq!["usr"@, "opt"@]
}

pub open spec fn in_hot_scope(name: Seq<char>) -> bool {
    name == "usr"@ || name == "opt"@
}

/// Some name of some lower.
pub open spec fn listed(tops: Seq<Seq<Seq<char>>>, name: Seq<char>) -> bool {
    exists|i: int, j: int| 0 <= i < tops.len() && 0 <= j < tops[i].len() && tops[i][j] == name
}

/// The scopes a live update may touch, given each lower's top-level
/// entries: none (`None`) if any lower has a top-level entry outside the
/// hot scopes; otherwise the hot scopes some lower has, in order.
pub open spec fn hot_applicable(tops: Seq<Seq<Seq<char>>>) -> Option<Seq<Seq<char>>> {
    if exists|i: int, j: int| 0 <= i < tops.len() && 0 <= j < tops[i].len() && !in_hot_scope(#[trigger] tops[i][j]) {
        None
    } else {
        Some(hot_scopes().filter(|s: Seq<char>| listed(tops, s)))
    }
}

fn lists(tops: &Vec<Vec<String>>, name: &str) -> (r: bool)
    ensures
        r == listed(tops@.map_values(|v: Vec<String>| v.deep_view()), name@),
{
    let ghost t = tops@.map_values(|v: Vec<String>| v.deep_view());
    let mut i: usize = 0;
    while i < tops.len()
        invariant
            t == tops@.map_values(|v: Vec<String>| v.deep_view()),
            i <= tops@.len(),
            forall|a: int, b: int| 0 <= a < i && 0 <= b < t[a].len() ==> t[a][b] != name@,
        decreases tops.len() - i,
    {
        let mut j: usize = 0;
        while j < tops[i].len()
            invariant
                t == tops@.map_values(|v: Vec<String>| v.deep_view()),
                i < tops@.len(),
                j <= tops@[i as int]@.len(),
                forall|b: int| 0 <= b < j ==> t[i as int][b] != name@,
            decreases tops[i as int]@.len() - j,
        {
            assert(t[i as int][j as int] == tops@[i as int]@[j as int]@);
            if eq_str(tops[i][j].as_str(), name) {
                assert(t[i as int][j as int] == name@);
                return true;
            }
            j += 1;
        }
        i += 1;
    }
    false
}

/// The live-update scopes (see `hot_applicable`); `tops[i]` are the
/// top-level entry names of the `i`-th lower layer.
pub fn hot_applicable_scopes(tops: &Vec<Vec<String>>) -> (r: Option<Vec<String>>)
    ensures
        match (r, hot_applicable(tops@.map_values(|v: Vec<String>| v.deep_view()))) {
            (Some(a), Some(b)) => a.deep_view() == b,
            (None, None) => true,
            _ => false,
        },
{
    let ghost t = tops@.map_values(|v: Vec<String>| v.deep_view());
    let mut i: usize = 0;
    while i < tops.len()
        invariant
            t == tops@.map_values(|v: Vec<String>| v.deep_view()),
            i <= tops@.len(),
            forall|a: int, b: int| 0 <= a < i && 0 <= b < t[a].len() ==> in_hot_scope(#[trigger] t[a][b]),
        decreases tops.len() - i,
    {
        let mut j: usize = 0;
        while j < tops[i].len()
            invariant
                t == tops@.map_values(|v: Vec<String>| v.deep_view()),
                i < tops@.len(),
                j <= tops@[i as int]@.len(),
                forall|a: int, b: int| 0 <= a < i && 0 <= b < t[a].len() ==> in_hot_scope(#[trigger] t[a][b]),
                forall|b: int| 0 <= b < j ==> in_hot_scope(#[trigger] t[i as int][b]),
            decreases tops[i as int]@.len() - j,
        {
            assert(t[i as int][j as int] == tops@[i as int]@[j as int]@);
            let name = tops[i][j].as_str();
            if !eq_str(name, "usr") && !eq_str(name, "opt") {
                assert(!in_hot_scope(t[i as int][j as int]));
                return None;
            }
            j += 1;
        }
        i += 1;
    }
    let mut scopes: Vec<String> = Vec::new();
    let has_usr = lists(tops, "usr");
    let has_opt = lists(tops, "opt");
    if has_usr {
        scopes.push(owned("usr"));
    }
    if has_opt {
        scopes.push(owned("opt"));
    }
    proof {
        let f = |s: Seq<char>| listed(t, s);
        reveal_with_fuel(Seq::filter, 3);
        assert(hot_scopes().drop_last() =~= seq!["usr"@]);
        assert(seq!["usr"@].drop_last() =~= Seq::<Seq<char>>::empty());
        assert(scopes.deep_view() =~= hot_scopes().filter(f));
    }
    Some(scopes)
}

/// Shared libraries, the kernel and systemd are what a live update must
/// not touch: every path under `usr/lib`, `usr/lib64`, `lib`, `lib64` or
/// `boot` (in `Path::starts_with`'s sense, component by component) is
/// risky — so is everything under `usr/lib/systemd`, which lies under
/// `usr/lib` — and nothing else is.
pub proof fn libraries_kernel_and_systemd_are_risky(p: Seq<char>)
    ensures
        is_risky(p) ==> (path_starts_with(p, "usr/lib"@) || path_starts_with(p, "usr/lib64"@)
            || path_starts_with(p, "lib"@) || path_starts_with(p, "lib64"@) || path_starts_with(
            p,
            "boot"@,
        ) || path_starts_with(p, "usr/lib/systemd"@)),
        path_starts_with(p, "usr/lib"@) ==> is_risky(p),
        path_starts_with(p, "usr/lib64"@) ==> is_risky(p),
        path_starts_with(p, "lib"@) ==> is_risky(p),
        path_starts_with(p, "lib64"@) ==> is_risky(p),
        path_starts_with(p, "boot"@) ==> is_risky(p),
        path_starts_with(p, "usr/lib/systemd"@) ==> is_risky(p),
{
    let r = risky_prefixes();
    if path_starts_with(p, "usr/lib"@) {
        assert(path_starts_with(p, r[0]));
    }
    if path_starts_with(p, "usr/lib64"@) {
        assert(path_starts_with(p, r[1]));
    }
    if path_starts_with(p, "lib"@) {
        assert(path_starts_with(p, r[2]));
    }
    if path_starts_with(p, "lib64"@) {
        assert(path_starts_with(p, r[3]));
    }
    if path_starts_with(p, "boot"@) {
        assert(path_starts_with(p, r[4]));
    }
    if path_starts_with(p, "usr/lib/systemd"@) {
        assert(path_starts_with(p, r[5]));
    }
}

proof fn lemma_split_on_join(a: Seq<char>, b: Seq<char>)
    ensures
        split_on(a + seq!['/'] + b, '/') == split_on(a, '/') + split_on(b, '/'),
    decreases b.len(),
{
    lemma_split_on_nonempty(a, '/');
    let w = a + seq!['/'] + b;
    if b.len() == 0 {
        assert(w =~= a + seq!['/']);
        assert(w.drop_last() =~= a);
        assert(split_on(a, '/').push(seq![]) =~= split_on(a, '/') + split_on(b, '/'));
    } else {
        let b0 = b.drop_last();
        lemma_split_on_join(a, b0);
        lemma_split_on_nonempty(b0, '/');
        assert(w.drop_last() =~= a + seq!['/'] + b0);
        assert(w.last() == b.last());
        let x = split_on(a, '/');
        let y = split_on(b0, '/');
        if b.last() == '/' {
            assert((x + y).push(seq![]) =~= x + y.push(seq![]));
        } else {
            let xy = x + y;
            assert(xy.update(xy.len() - 1, xy.last().push(b.last())) =~= x + y.update(
                y.len() - 1,
                y.last().push(b.last()),
            ));
        }
    }
}

proof fn lemma_normal_pieces_join(x: Seq<Seq<char>>, y: Seq<Seq<char>>)
    ensures
        normal_pieces(x + y) == normal_pieces(x) + normal_pieces(y),
    decreases y.len(),
{
    if y.len() == 0 {
        assert(x + y =~= x);
        assert(normal_pieces(x) + normal_pieces(y) =~= normal_pieces(x));
    } else {
        lemma_normal_pieces_join(x, y.drop_last());
        assert((x + y).drop_last() =~= x + y.drop_last());
        assert((x + y).last() == y.last());
        let nx = normal_pieces(x);
        let ny = normal_pieces(y.drop_last());
        assert((nx + ny).push(y.last()) =~= nx + ny.push(y.last()));
    }
}

/// The first piece of a path that does not start with a slash starts with
/// the path's first character.
proof fn lemma_first_piece(a: Seq<char>)
    requires
        a.len() > 0,
        a[0] != '/',
    ensures
        split_on(a, '/')[0].len() > 0,
        split_on(a, '/')[0][0] == a[0],
    decreases a.len(),
{
    let a0 = a.drop_last();
    lemma_split_on_nonempty(a0, '/');
    if a.len() == 1 {
        assert(a0 =~= Seq::<char>::empty());
        assert(split_on(a0, '/') =~= seq![Seq::<char>::empty()]);
        assert(a.last() == a[0]);
    } else {
        lemma_first_piece(a0);
        assert(a0[0] == a[0]);
    }
}

/// A relative path that does not start with `.` is a prefix, in
/// `Path::starts_with`'s sense, of every path that continues it after a
/// slash.
proof fn lemma_starts_with_joined(a: Seq<char>, b: Seq<char>)
    requires
        a.len() > 0,
        a[0] != '/',
        a[0] != '.',
    ensures
        path_starts_with(a + seq!['/'] + b, a),
{
    let w = a + seq!['/'] + b;
    lemma_split_on_join(a, b);
    lemma_first_piece(a);
    lemma_split_on_nonempty(a, '/');
    let pa = split_on(a, '/');
    reveal_strlit(".");
    assert(pa[0] != "."@) by {
        assert("."@[0] == '.');
    }
    assert(split_on(w, '/')[0] == pa[0]);
    assert(w[0] == a[0]);
    assert(path_components(a) == normal_pieces(pa));
    lemma_normal_pieces_join(pa, split_on(b, '/'));
    assert(path_components(w) == normal_pieces(pa) + normal_pieces(split_on(b, '/')));
    assert(path_components(w).take(path_components(a).len() as int) =~= path_components(a));
}

/// Everything under a shared-library directory or `boot` is risky:
/// `usr/lib/<anything>`, `usr/lib64/<anything>`, `lib/<anything>`,
/// `lib64/<anything>` and `boot/<anything>` — a changed
/// `usr/lib/x86_64-linux-gnu/libc.so.6`, say — as are the directories
/// themselves.
pub proof fn everything_under_a_risky_directory_is_risky(rest: Seq<char>)
    ensures
        is_risky("usr/lib"@),
        is_risky("usr/lib/"@ + rest),
        is_risky("usr/lib64"@),
        is_risky("usr/lib64/"@ + rest),
        is_risky("lib"@),
        is_risky("lib/"@ + rest),
        is_risky("lib64"@),
        is_risky("lib64/"@ + rest),
        is_risky("boot"@),
        is_risky("boot/"@ + rest),
{
    reveal_strlit("usr/lib");
    reveal_strlit("usr/lib/");
    reveal_strlit("usr/lib64");
    reveal_strlit("usr/lib64/");
    reveal_strlit("lib");
    reveal_strlit("lib/");
    reveal_strlit("lib64");
    reveal_strlit("lib64/");
    reveal_strlit("boot");
    reveal_strlit("boot/");
    let dirs = seq!["usr/lib"@, "usr/lib64"@, "lib"@, "lib64"@, "boot"@];
    let slashed = seq!["usr/lib/"@, "usr/lib64/"@, "lib/"@, "lib64/"@, "boot/"@];
    assert forall|k: int| 0 <= k < 5 implies is_risky(#[trigger] dirs[k]) && is_risky(slashed[k] + rest) by {
        let d = dirs[k];
        assert(slashed[k] =~= d + seq!['/']);
        assert(d.len() > 0 && d[0] != '/' && d[0] != '.');
        lemma_starts_with_joined(d, rest);
        assert(slashed[k] + rest =~= d + seq!['/'] + rest);
        assert(path_components(d).take(path_components(d).len() as int) =~= path_components(d));
        libraries_kernel_and_systemd_are_risky(d);
        libraries_kernel_and_systemd_are_risky(d + seq!['/'] + rest);
        if k == 0 {
            assert(d == "usr/lib"@);
        } else if k == 1 {
            assert(d == "usr/lib64"@);
        } else if k == 2 {
            assert(d == "lib"@);
        } else if k == 3 {
            assert(d == "lib64"@);
        } else {
            assert(d == "boot"@);
        }
    }
    assert(dirs[0] == "usr/lib"@ && dirs[1] == "usr/lib64"@ && dirs[2] == "lib"@ && dirs[3] == "lib64"@
        && dirs[4] == "boot"@);
    assert(slashed[0] == "usr/lib/"@ && slashed[1] == "usr/lib64/"@ && slashed[2] == "lib/"@
        && slashed[3] == "lib64/"@ && slashed[4] == "boot/"@);
}

/// A relative path that starts with neither `/` nor `.` has no root or
/// `.` component: its components are its proper pieces.
proof fn lemma_plain_components(a: Seq<char>)
    requires
        a.len() > 0,
        a[0] != '/',
        a[0] != '.',
    ensures
        path_components(a) == normal_pieces(split_on(a, '/')),
{
    lemma_first_piece(a);
    reveal_strlit(".");
    assert(split_on(a, '/')[0] != "."@) by {
        assert("."@[0] == '.');
    }
    assert(seq![] + normal_pieces(split_on(a, '/')) =~= normal_pieces(split_on(a, '/')));
}

/// A word without a slash is one piece.
proof fn lemma_word_pieces(w: Seq<char>)
    requires
        forall|i: int| 0 <= i < w.len() ==> w[i] != '/',
    ensures
        split_on(w, '/') == seq![w],
    decreases w.len(),
{
    if w.len() > 0 {
        let w0 = w.drop_last();
        lemma_word_pieces(w0);
        assert(w0.push(w.last()) =~= w);
    } else {
        assert(w =~= Seq::<char>::empty());
    }
}

/// The components of `a/w`, for a word `w`, are those of `a` and then `w`.
proof fn lemma_components_then_word(a: Seq<char>, w: Seq<char>)
    requires
        a.len() > 0,
        a[0] != '/',
        a[0] != '.',
        w.len() > 0,
        w != "."@,
        forall|i: int| 0 <= i < w.len() ==> w[i] != '/',
    ensures
        path_components(a + seq!['/'] + w) == path_components(a).push(w),
{
    let j = a + seq!['/'] + w;
    assert(j[0] == a[0]);
    lemma_plain_components(a);
    lemma_plain_components(j);
    lemma_split_on_join(a, w);
    lemma_word_pieces(w);
    lemma_normal_pieces_join(split_on(a, '/'), seq![w]);
    assert(seq![w].drop_last() =~= Seq::<Seq<char>>::empty());
    assert(normal_pieces(seq![w].drop_last()) == Seq::<Seq<char>>::empty());
    assert(seq![w].last() == w);
    assert(normal_pieces(seq![w]) =~= seq![w]);
    assert(normal_pieces(split_on(a, '/')) + seq![w] =~= normal_pieces(split_on(a, '/')).push(w));
}

/// The components of a single word.
proof fn lemma_word_components(w: Seq<char>)
    requires
        w.len() > 0,
        w[0] != '.',
        forall|i: int| 0 <= i < w.len() ==> w[i] != '/',
    ensures
        path_components(w) == seq![w],
{
    lemma_plain_components(w);
    lemma_word_pieces(w);
    assert(seq![w].drop_last() =~= Seq::<Seq<char>>::empty());
    assert(normal_pieces(seq![w].drop_last()) == Seq::<Seq<char>>::empty());
    assert(seq![w].last() == w);
    reveal_strlit(".");
    assert(w != "."@) by {
        assert("."@[0] == '.');
    }
    assert(normal_pieces(seq![w]) =~= seq![w]);
}

/// The risky prefixes, component by component.
proof fn lemma_risky_prefix_components()
    ensures
        path_components("usr/lib"@) == seq!["usr"@, "lib"@],
        path_components("usr/lib64"@) == seq!["usr"@, "lib64"@],
        path_components("lib"@) == seq!["lib"@],
        path_components("lib64"@) == seq!["lib64"@],
        path_components("boot"@) == seq!["boot"@],
        path_components("usr/lib/systemd"@) == seq!["usr"@, "lib"@, "systemd"@],
{
    reveal_strlit("usr/lib");
    reveal_strlit("usr/lib64");
    reveal_strlit("lib");
    reveal_strlit("lib64");
    reveal_strlit("boot");
    reveal_strlit("usr/lib/systemd");
    reveal_strlit("usr");
    reveal_strlit("systemd");
    reveal_strlit(".");
    let usr = "usr"@;
    let lib = "lib"@;
    let lib64 = "lib64"@;
    let systemd = "systemd"@;
    assert("."@.len() == 1);
    lemma_word_components(usr);
    lemma_word_components(lib);
    lemma_word_components(lib64);
    lemma_word_components("boot"@);
    assert("usr/lib"@ =~= usr + seq!['/'] + lib);
    lemma_components_then_word(usr, lib);
    assert("usr/lib64"@ =~= usr + seq!['/'] + lib64);
    lemma_components_then_word(usr, lib64);
    assert("usr/lib/systemd"@ =~= "usr/lib"@ + seq!['/'] + systemd);
    lemma_components_then_word("usr/lib"@, systemd);
    assert(seq![usr].push(lib) =~= seq![usr, lib]);
    assert(seq![usr].push(lib64) =~= seq![usr, lib64]);
    assert(seq![usr, lib].push(systemd) =~= seq![usr, lib, systemd]);
}

/// Component by component: a path is risky exactly when its components
/// begin `usr`, `lib`; `usr`, `lib64`; `lib`; `lib64`; or `boot`. So
/// `usr/libexec/x` or `libfoo` is not, while `usr/lib/x86_64-linux-gnu/libc.so.6`
/// is.
pub proof fn risky_exactly_under_library_and_boot_directories(p: Seq<char>)
    ensures
        is_risky(p) <==> ({
            let c = path_components(p);
            ||| c.len() >= 2 && c[0] == "usr"@ && (c[1] == "lib"@ || c[1] == "lib64"@)
            ||| c.len() >= 1 && (c[0] == "lib"@ || c[0] == "lib64"@ || c[0] == "boot"@)
        }),
{
    libraries_kernel_and_systemd_are_risky(p);
    lemma_risky_prefix_components();
    let c = path_components(p);
    if c.len() >= 2 && c[0] == "usr"@ && c[1] == "lib"@ {
        assert(c.take(2) =~= seq!["usr"@, "lib"@]);
    }
    if c.len() >= 2 && c[0] == "usr"@ && c[1] == "lib64"@ {
        assert(c.take(2) =~= seq!["usr"@, "lib64"@]);
    }
    if c.len() >= 1 && c[0] == "lib"@ {
        assert(c.take(1) =~= seq!["lib"@]);
    }
    if c.len() >= 1 && c[0] == "lib64"@ {
        assert(c.take(1) =~= seq!["lib64"@]);
    }
    if c.len() >= 1 && c[0] == "boot"@ {
        assert(c.take(1) =~= seq!["boot"@]);
    }
    if path_starts_with(p, "usr/lib"@) {
        assert(c.take(2)[0] == c[0] && c.take(2)[1] == c[1]);
    }
    if path_starts_with(p, "usr/lib64"@) {
        assert(c.take(2)[0] == c[0] && c.take(2)[1] == c[1]);
    }
    if path_starts_with(p, "usr/lib/systemd"@) {
        assert(c.take(3)[0] == c[0] && c.take(3)[1] == c[1]);
    }
    if path_starts_with(p, "lib"@) || path_starts_with(p, "lib64"@) || path_starts_with(p, "boot"@) {
        assert(c.take(1)[0] == c[0]);
    }
}

/// An update that changed any path under a risky prefix is risky as a
/// whole: a layer listing a path under `usr/lib`, `usr/lib64`, `lib`,
/// `lib64` or `boot` is never applied live.
pub proof fn a_changed_library_makes_the_layer_risky(paths: Seq<Seq<char>>, k: int)
    requires
        0 <= k < paths.len(),
        path_starts_with(paths[k], "usr/lib"@) || path_starts_with(paths[k], "usr/lib64"@)
            || path_starts_with(paths[k], "lib"@) || path_starts_with(paths[k], "lib64"@)
            || path_starts_with(paths[k], "boot"@),
    ensures
        exists|i: int| 0 <= i < paths.len() && is_risky(#[trigger] paths[i]),
{
    libraries_kernel_and_systemd_are_risky(paths[k]);
}

} // verus!
