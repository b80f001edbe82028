//! Loading the kernel module each bus device's `modalias` names, in
//! passes: a transport driver exposes new child devices only after it
//! binds, so one scan is not enough. Scanning `/sys/bus` and running
//! `modprobe` is the caller's part; this module decides what to load.
use vstd::prelude::*;

use crate::text::{is_white_space, is_whitespace, owned, string_of};

verus! {

/// How many scans at most.
pub const MAX_PASSES: u8 = 4;

/// Where `modprobe` is looked for, in order (PID 1 has no `PATH`).
pub open spec fn modprobe_candidates() -> Seq<Seq<char>> {
    seq!["/sbin/modprobe"@, "/usr/sbin/modprobe"@, "/bin/modprobe"@]
}

/// The candidate paths of `modprobe`, in the order they are tried.
pub fn modprobe_paths() -> (r: Vec<String>)
    ensures
        r.deep_view() == modprobe_candidates(),
{
    let mut r: Vec<String> = Vec::new();
    r.push(owned("/sbin/modprobe"));
    r.push(owned("/usr/sbin/modprobe"));
    r.push(owned("/bin/modprobe"));
    proof {
        reveal_strlit("/sbin/modprobe");
        reveal_strlit("/usr/sbin/modprobe");
        reveal_strlit("/bin/modprobe");
    }
    assert(r.deep_view() =~= modprobe_candidates());
    r
}

/// The first candidate that exists (`exists[i]` for candidate `i`).
pub fn find_modprobe(exists: &Vec<bool>) -> (r: Option<String>)
    requires
        exists@.len() == 3,
    ensures
        r is None <==> (forall|i: int| 0 <= i < 3 ==> !(#[trigger] exists@[i])),
        r is Some ==> exists|i: int|
            0 <= i < 3 && exists@[i] && r->Some_0@ == modprobe_candidates()[i] && (forall|k: int|
                0 <= k < i ==> !(#[trigger] exists@[k])),
{
    let paths = modprobe_paths();
    assert(paths@.len() == paths.deep_view().len());
    let mut i: usize = 0;
    while i < 3
        invariant
            paths.deep_view() == modprobe_candidates(),
            paths@.len() == 3,
            exists@.len() == 3,
            i <= 3,
            forall|k: int| 0 <= k < i ==> !(#[trigger] exists@[k]),
        decreases 3 - i,
    {
        if exists[i] {
            let p = paths[i].clone();
            assert(p@ == paths@[i as int]@);
            assert(paths.deep_view()[i as int] == paths@[i as int]@);
            return Some(p);
        }
        i += 1;
    }
    None
}

/// `s` without its leading white space.
pub open spec fn trim_start_ws(s: Seq<char>) -> Seq<char>
    decreases s.len(),
{
    if s.len() > 0 && is_white_space(s[0]) {
        trim_start_ws(s.drop_first())
    } else {
        s
    }
}

/// `s` without its trailing white space.
pub open spec fn trim_end_ws(s: Seq<char>) -> Seq<char>
    decreases s.len(),
{
    if s.len() > 0 && is_white_space(s.last()) {
        trim_end_ws(s.drop_last())
    } else {
        s
    }
}

/// `str::trim`: leading and trailing Unicode white space removed.
pub open spec fn trimmed(s: Seq<char>) -> Seq<char> {
    trim_end_ws(trim_start_ws(s))
}

/// The module alias a device's `modalias` file holds (its contents
/// trimmed).
pub fn modalias(contents: &str) -> (r: String)
    ensures
        r@ == trimmed(contents@),
{
    let cs = crate::text::chars_of(contents);
    let mut a: usize = 0;
    assert(cs@.subrange(0, cs@.len() as int) =~= cs@);
    while a < cs.len() && is_whitespace(cs[a])
        invariant
            cs@ == contents@,
            a <= cs@.len(),
            trim_start_ws(cs@) == trim_start_ws(cs@.subrange(a as int, cs@.len() as int)),
        decreases cs.len() - a,
    {
        assert(cs@.subrange(a as int, cs@.len() as int).drop_first() =~= cs@.subrange(
            a + 1,
            cs@.len() as int,
        ));
        a += 1;
    }
    let ghost rest = cs@.subrange(a as int, cs@.len() as int);
    assert(trim_start_ws(rest) == rest) by {
        if rest.len() > 0 {
            assert(rest[0] == cs@[a as int]);
        }
    }
    let mut b: usize = cs.len();
    assert(rest.subrange(0, (b - a) as int) =~= rest);
    while b > a && is_whitespace(cs[b - 1])
        invariant
            cs@ == contents@,
            a <= b <= cs@.len(),
            rest == cs@.subrange(a as int, cs@.len() as int),
            trim_end_ws(rest) == trim_end_ws(cs@.subrange(a as int, b as int)),
        decreases b,
    {
        assert(cs@.subrange(a as int, b as int).drop_last() =~= cs@.subrange(a as int, b - 1));
        b -= 1;
    }
    assert(trim_end_ws(cs@.subrange(a as int, b as int)) == cs@.subrange(a as int, b as int)) by {
        if b > a {
            assert(cs@.subrange(a as int, b as int).last() == cs@[b - 1]);
        }
    }
    string_of(&cs, a, b)
}

// ---------------------------------------------------------------------
// The passes
// ---------------------------------------------------------------------
/// The aliases of `seen` that are not in `loaded`, each once, in the order
/// they first appear.
pub open spec fn new_aliases(loaded: Set<Seq<char>>, seen: Seq<Seq<char>>) -> Seq<Seq<char>>
    decreases seen.len(),
{
    if seen.len() == 0 {
        seq![]
    } else {
        let prev = new_aliases(loaded, seen.drop_last());
        if loaded.contains(seen.last()) || prev.contains(seen.last()) {
            prev
        } else {
            prev.push(seen.last())
        }
    }
}

/// What the loader has done so far: the aliases it had loaded and how many
/// scans it used.
pub struct DriverLoader {
    loaded: Vec<String>,
    passes: u8,
}

impl DriverLoader {
    pub closed spec fn loaded(&self) -> Set<Seq<char>> {
        self.loaded.deep_view().to_set()
    }

    pub closed spec fn passes(&self) -> nat {
        self.passes as nat
    }

    /// Nothing loaded, no scan used.
    pub fn new() -> (r: Self)
        ensures
            r.loaded() == Set::<Seq<char>>::empty(),
            r.passes() == 0,
    {
        let r = DriverLoader { loaded: Vec::new(), passes: 0 };
        assert(r.loaded.deep_view() =~= Seq::<Seq<char>>::empty());
        assert(r.loaded() =~= Set::<Seq<char>>::empty());
        r
    }

    /// Whether another scan is due.
    pub fn wants_scan(&self) -> (r: bool)
        ensures
            r == (self.passes() < MAX_PASSES),
    {
        self.passes < MAX_PASSES
    }

    fn is_loaded(&self, alias: &str) -> (r: bool)
        ensures
            r == self.loaded().contains(alias@),
    {
        let ghost v = self.loaded.deep_view();
        let mut i: usize = 0;
        while i < self.loaded.len()
            invariant
                v == self.loaded.deep_view(),
                i <= v.len(),
                forall|k: int| 0 <= k < i ==> v[k] != alias@,
            decreases self.loaded.len() - i,
        {
            assert(v[i as int] == self.loaded@[i as int]@);
            if crate::text::eq_str(self.loaded[i].as_str(), alias) {
                return true;
            }
            i += 1;
        }
        proof {
            if v.to_set().contains(alias@) {
                assert(v.contains(alias@));
            }
        }
        false
    }

    /// One scan's outcome: `seen` are the aliases it found. Returns the
    /// aliases to load now (those not loaded before, each once), which
    /// count as loaded from then on; `None` when there are none, and the
    /// loading is over.
    pub fn next_pass(&mut self, seen: &Vec<String>) -> (r: Option<Vec<String>>)
        requires
            old(self).passes() < MAX_PASSES,
        ensures
            final(self).passes() == old(self).passes() + 1,
            new_aliases(old(self).loaded(), seen.deep_view()).len() == 0 <==> r is None,
            r is Some ==> r->Some_0.deep_view() == new_aliases(old(self).loaded(), seen.deep_view()),
            final(self).loaded() == old(self).loaded() + new_aliases(old(self).loaded(), seen.deep_view()).to_set(),
    {
        let ghost l0 = self.loaded();
        let ghost sv = seen.deep_view();
        let mut fresh: Vec<String> = Vec::new();
        let mut i: usize = 0;
        assert(sv.take(0) =~= Seq::<Seq<char>>::empty());
        while i < seen.len()
            invariant
                sv == seen.deep_view(),
                l0 == self.loaded(),
                i <= sv.len(),
                fresh.deep_view() == new_aliases(l0, sv.take(i as int)),
            decreases seen.len() - i,
        {
            let t = seen[i].as_str();
            proof {
                assert(sv.take(i + 1).drop_last() =~= sv.take(i as int));
                assert(sv.take(i + 1).last() == sv[i as int]);
                assert(sv[i as int] == seen@[i as int]@);
            }
            if !self.is_loaded(t) && !contains_str(&fresh, t) {
                let ghost before = fresh.deep_view();
                fresh.push(owned(t));
                assert(fresh.deep_view() =~= before.push(sv[i as int]));
            }
            i += 1;
        }
        assert(sv.take(sv.len() as int) =~= sv);
        self.passes = self.passes + 1;
        if fresh.len() == 0 {
            assert(fresh.deep_view().to_set() =~= Set::<Seq<char>>::empty());
            assert(self.loaded() =~= l0 + fresh.deep_view().to_set());
            return None;
        }
        let ghost lv = self.loaded.deep_view();
        let mut k: usize = 0;
        while k < fresh.len()
            invariant
                k <= fresh@.len(),
                self.passes() == old(self).passes() + 1,
                self.loaded.deep_view() == lv + fresh.deep_view().take(k as int),
            decreases fresh.len() - k,
        {
            let ghost before = self.loaded.deep_view();
            self.loaded.push(owned(fresh[k].as_str()));
            assert(self.loaded.deep_view() =~= before.push(fresh.deep_view()[k as int]));
            assert(fresh.deep_view().take(k + 1) =~= fresh.deep_view().take(k as int).push(
                fresh.deep_view()[k as int],
            ));
            k += 1;
        }
        assert(fresh.deep_view().take(fresh@.len() as int) =~= fresh.deep_view());
        proof {
            let f = fresh.deep_view();
            assert((lv + f).to_set() =~= lv.to_set() + f.to_set()) by {
                assert forall|x: Seq<char>| (lv + f).to_set().contains(x) <==> (lv.to_set() + f.to_set()).contains(x) by {
                    if (lv + f).contains(x) {
                        let j = choose|j: int| 0 <= j < (lv + f).len() && (lv + f)[j] == x;
                        if j < lv.len() {
                            assert(lv[j] == x);
                        } else {
                            assert(f[j - lv.len()] == x);
                        }
                    }
                    if lv.contains(x) {
                        let j = choose|j: int| 0 <= j < lv.len() && lv[j] == x;
                        assert((lv + f)[j] == x);
                    }
                    if f.contains(x) {
                        let j = choose|j: int| 0 <= j < f.len() && f[j] == x;
                        assert((lv + f)[j + lv.len()] == x);
                    }
                }
            }
        }
        Some(fresh)
    }
}

fn contains_str(v: &Vec<String>, s: &str) -> (r: bool)
    ensures
        r == v.deep_view().contains(s@),
{
    let mut i: usize = 0;
    while i < v.len()
        invariant
            i <= v@.len(),
            forall|k: int| 0 <= k < i ==> v.deep_view()[k] != s@,
        decreases v.len() - i,
    {
        assert(v.deep_view()[i as int] == v@[i as int]@);
        if crate::text::eq_str(v[i].as_str(), s) {
            return true;
        }
        i += 1;
    }
    false
}

/// No alias is handed out twice: what a later pass returns is disjoint from
/// what an earlier one returned, since the earlier ones count as loaded.
pub proof fn aliases_loaded_once(loaded: Set<Seq<char>>, first: Seq<Seq<char>>, second: Seq<Seq<char>>, a: Seq<char>)
    requires
        new_aliases(loaded, first).contains(a),
    ensures
        !new_aliases(loaded + new_aliases(loaded, first).to_set(), second).contains(a),
{
    let l2 = loaded + new_aliases(loaded, first).to_set();
    assert(new_aliases(loaded, first).to_set().contains(a));
    assert(l2.contains(a));
    lemma_new_aliases_fresh(l2, second);
    if new_aliases(l2, second).contains(a) {
        assert(!l2.contains(a));
    }
}

/// Everything `new_aliases` returns is outside `loaded`.
pub proof fn lemma_new_aliases_fresh(loaded: Set<Seq<char>>, seen: Seq<Seq<char>>)
    ensures
        forall|x: Seq<char>| new_aliases(loaded, seen).contains(x) ==> !loaded.contains(x),
    decreases seen.len(),
{
    if seen.len() > 0 {
        lemma_new_aliases_fresh(loaded, seen.drop_last());
        let prev = new_aliases(loaded, seen.drop_last());
        assert forall|x: Seq<char>| new_aliases(loaded, seen).contains(x) implies !loaded.contains(x) by {
            if !(loaded.contains(seen.last()) || prev.contains(seen.last())) {
                if prev.push(seen.last()).contains(x) {
                    let j = choose|j: int| 0 <= j < prev.push(seen.last()).len() && prev.push(seen.last())[j] == x;
                    if j < prev.len() {
                        assert(prev[j] == x);
                    }
                }
            }
        }
    }
}

} // verus!
