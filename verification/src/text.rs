//! Character-level string helpers shared by the parsers: splitting into
//! runs, `split_once`, prefix tests and equality, all stated over the
//! `Seq<char>` view of `str`/`String`.
use vstd::prelude::*;

verus! {

/// Appends one character to `s` (std `String::push`).
#[verifier::external_body]
pub(crate) fn push_char(s: &mut String, c: char)
    ensures
        final(s)@ == old(s)@.push(c),
{
    s.push(c)
}

/// Unicode `White_Space`, the set `char::is_whitespace` and
/// `str::split_whitespace` use.
pub open spec fn is_white_space(c: char) -> bool {
    let u = c as u32;
    ||| 0x9 <= u <= 0xD
    ||| u == 0x20
    ||| u == 0x85
    ||| u == 0xA0
    ||| u == 0x1680
    ||| 0x2000 <= u <= 0x200A
    ||| u == 0x2028
    ||| u == 0x2029
    ||| u == 0x202F
    ||| u == 0x205F
    ||| u == 0x3000
}

/// `char::is_whitespace`.
pub fn is_whitespace(c: char) -> (r: bool)
    ensures
        r == is_white_space(c),
{
    let u = c as u32;
    (0x9 <= u && u <= 0xD) || u == 0x20 || u == 0x85 || u == 0xA0 || u == 0x1680 || (0x2000 <= u
        && u <= 0x200A) || u == 0x2028 || u == 0x2029 || u == 0x202F || u == 0x205F || u == 0x3000
}

/// What separates the runs that `split_runs` returns.
#[derive(Clone, Copy, Debug, PartialEq, Eq)]
pub enum Sep {
    /// Any Unicode white space (`split_whitespace`).
    Whitespace,
    /// One given character (`split(c)` with empty pieces dropped).
    Char(char),
}

pub open spec fn is_sep(sep: Sep, c: char) -> bool {
    match sep {
        Sep::Whitespace => is_white_space(c),
        Sep::Char(d) => c == d,
    }
}

/// The maximal non-empty runs of non-separator characters of `s`, in
/// order: `split_whitespace` for `Sep::Whitespace`, and
/// `split(c).filter(|p| !p.is_empty())` for `Sep::Char(c)`.
pub open spec fn runs(s: Seq<char>, sep: Sep) -> Seq<Seq<char>>
    decreases s.len(),
{
    if s.len() == 0 {
        seq![]
    } else {
        let prev = runs(s.drop_last(), sep);
        let c = s.last();
        if is_sep(sep, c) {
            prev
        } else if s.len() >= 2 && !is_sep(sep, s[s.len() - 2]) && prev.len() > 0 {
            prev.update(prev.len() - 1, prev.last().push(c))
        } else {
            prev.push(seq![c])
        }
    }
}

/// Every run is non-empty and holds no separator.
pub open spec fn runs_are_clean(rs: Seq<Seq<char>>, sep: Sep) -> bool {
    forall|i: int|
        0 <= i < rs.len() ==> (#[trigger] rs[i]).len() > 0 && forall|j: int|
            0 <= j < rs[i].len() ==> !is_sep(sep, rs[i][j])
}

pub proof fn lemma_runs_nonempty_tail(s: Seq<char>, sep: Sep)
    requires
        s.len() > 0,
        !is_sep(sep, s.last()),
    ensures
        runs(s, sep).len() > 0,
{
}

pub proof fn lemma_runs_clean(s: Seq<char>, sep: Sep)
    ensures
        runs_are_clean(runs(s, sep), sep),
    decreases s.len(),
{
    if s.len() > 0 {
        lemma_runs_clean(s.drop_last(), sep);
    }
}

/// The characters of `s`, in order.
pub fn chars_of(s: &str) -> (v: Vec<char>)
    ensures
        v@ == s@,
{
    let mut v: Vec<char> = Vec::new();
    for c in it: s.chars()
        invariant
            v@ == it.seq().take(it.index() as int),
            it.seq() == s@,
    {
        v.push(c);
    }
    v
}

/// A `String` holding `s[from..to]`.
pub fn string_of(s: &Vec<char>, from: usize, to: usize) -> (r: String)
    requires
        from <= to <= s@.len(),
    ensures
        r@ == s@.subrange(from as int, to as int),
{
    let mut r = String::new();
    let mut i = from;
    while i < to
        invariant
            from <= i <= to <= s@.len(),
            r@ == s@.subrange(from as int, i as int),
        decreases to - i,
    {
        push_char(&mut r, s[i]);
        assert(s@.subrange(from as int, i + 1) == s@.subrange(from as int, i as int).push(
            s@[i as int],
        ));
        i += 1;
    }
    r
}

/// An owned copy of `s`.
pub fn owned(s: &str) -> (r: String)
    ensures
        r@ == s@,
{
    s.to_owned()
}

/// `a + b`.
pub fn concat(a: &str, b: &str) -> (r: String)
    ensures
        r@ == a@ + b@,
{
    let mut r = a.to_owned();
    r.append(b);
    r
}

/// `a + b + c`.
pub fn concat3(a: &str, b: &str, c: &str) -> (r: String)
    ensures
        r@ == a@ + b@ + c@,
{
    let mut r = a.to_owned();
    r.append(b);
    r.append(c);
    r
}

/// Whether `a` and `b` hold the same characters.
pub fn eq_str(a: &str, b: &str) -> (r: bool)
    ensures
        r == (a@ == b@),
{
    let x = chars_of(a);
    let y = chars_of(b);
    if x.len() != y.len() {
        return false;
    }
    let mut i: usize = 0;
    while i < x.len()
        invariant
            x@ == a@,
            y@ == b@,
            x@.len() == y@.len(),
            i <= x@.len(),
            forall|j: int| 0 <= j < i ==> x@[j] == y@[j],
        decreases x.len() - i,
    {
        if x[i] != y[i] {
            return false;
        }
        i += 1;
    }
    assert(x@ =~= y@);
    true
}

pub open spec fn is_prefix(p: Seq<char>, s: Seq<char>) -> bool {
    p.len() <= s.len() && s.take(p.len() as int) == p
}

/// `s.starts_with(p)`.
pub fn starts_with(s: &str, p: &str) -> (r: bool)
    ensures
        r == is_prefix(p@, s@),
{
    let x = chars_of(s);
    let y = chars_of(p);
    if y.len() > x.len() {
        return false;
    }
    let mut i: usize = 0;
    while i < y.len()
        invariant
            x@ == s@,
            y@ == p@,
            y@.len() <= x@.len(),
            i <= y@.len(),
            forall|j: int| 0 <= j < i ==> x@[j] == y@[j],
        decreases y.len() - i,
    {
        if x[i] != y[i] {
            assert(s@.take(p@.len() as int)[i as int] != p@[i as int]);
            return false;
        }
        i += 1;
    }
    assert(s@.take(p@.len() as int) =~= p@);
    true
}

/// `i` is the first position of `c` in `s`.
pub open spec fn first_at(s: Seq<char>, c: char, i: int) -> bool {
    &&& 0 <= i < s.len()
    &&& s[i] == c
    &&& forall|j: int| 0 <= j < i ==> s[j] != c
}

/// `str::split_once(c)`: the parts before and after the first `c`.
pub open spec fn split_once(s: Seq<char>, c: char) -> Option<(Seq<char>, Seq<char>)> {
    if exists|i: int| first_at(s, c, i) {
        let i = choose|i: int| first_at(s, c, i);
        Some((s.take(i), s.skip(i + 1)))
    } else {
        None
    }
}

/// Where `c` first occurs at `i`, `split_once` splits there.
pub proof fn lemma_split_once_at(s: Seq<char>, c: char, i: int)
    requires
        first_at(s, c, i),
    ensures
        split_once(s, c) == Some((s.take(i), s.skip(i + 1))),
{
    let k = choose|k: int| first_at(s, c, k);
    assert(k == i) by {
        if k < i {
            assert(s[k] != c);
        } else if k > i {
            assert(s[i] != c);
        }
    }
}

/// `s.split_once(c)`, with owned parts.
pub fn split_once_char(s: &str, c: char) -> (r: Option<(String, String)>)
    ensures
        match (r, split_once(s@, c)) {
            (Some((a, b)), Some((x, y))) => a@ == x && b@ == y,
            (None, None) => true,
            _ => false,
        },
{
    let v = chars_of(s);
    let mut i: usize = 0;
    while i < v.len()
        invariant
            v@ == s@,
            i <= v@.len(),
            forall|j: int| 0 <= j < i ==> v@[j] != c,
        decreases v.len() - i,
    {
        if v[i] == c {
            assert(first_at(s@, c, i as int));
            let a = string_of(&v, 0, i);
            let b = string_of(&v, i + 1, v.len());
            proof {
                let k = choose|k: int| first_at(s@, c, k);
                assert(k == i as int);
                assert(s@.take(i as int) =~= s@.subrange(0, i as int));
                assert(s@.skip(i + 1) =~= s@.subrange(i + 1, s@.len() as int));
            }
            return Some((a, b));
        }
        i += 1;
    }
    assert(!exists|k: int| first_at(s@, c, k));
    None
}

/// `s` split into runs of non-separator characters (see `runs`).
pub fn split_runs(s: &str, sep: Sep) -> (r: Vec<String>)
    ensures
        r.deep_view() == runs(s@, sep),
{
    let cs = chars_of(s);
    let mut out: Vec<String> = Vec::new();
    let mut cur = String::new();
    let mut in_run = false;
    let mut i: usize = 0;
    while i < cs.len()
        invariant
            cs@ == s@,
            i <= cs@.len(),
            in_run == (i > 0 && !is_sep(sep, cs@[i - 1])),
            !in_run ==> cur@.len() == 0,
            (if in_run {
                out.deep_view().push(cur@)
            } else {
                out.deep_view()
            }) == runs(cs@.take(i as int), sep),
        decreases cs.len() - i,
    {
        let c = cs[i];
        let ghost t = cs@.take(i + 1);
        assert(t.drop_last() =~= cs@.take(i as int));
        assert(t.last() == c);
        let is_s = match sep {
            Sep::Whitespace => is_whitespace(c),
            Sep::Char(d) => c == d,
        };
        if is_s {
            if in_run {
                let ghost before = out.deep_view();
                let ghost done_v = cur@;
                let done = cur;
                out.push(done);
                cur = String::new();
                in_run = false;
                assert(out.deep_view() =~= before.push(done_v));
            }
        } else {
            let ghost was_in = in_run;
            let ghost before = out.deep_view();
            let ghost cur_before = cur@;
            if in_run {
                proof {
                    lemma_runs_nonempty_tail(cs@.take(i as int), sep);
                }
            }
            push_char(&mut cur, c);
            in_run = true;
            proof {
                let prev = runs(cs@.take(i as int), sep);
                if was_in {
                    assert(t[t.len() - 2] == cs@[i - 1]);
                    assert(prev == before.push(cur_before));
                    assert(prev.update(prev.len() - 1, prev.last().push(c)) =~= before.push(cur@));
                } else {
                    assert(cur@ =~= seq![c]);
                }
            }
        }
        i += 1;
    }
    if in_run {
        let ghost before = out.deep_view();
        let ghost done_v = cur@;
        out.push(cur);
        assert(out.deep_view() =~= before.push(done_v));
    }
    assert(cs@.take(cs@.len() as int) =~= cs@);
    out
}

} // verus!

verus! {

/// `Path::join` on Unix, for UTF-8 paths: an absolute `rel` replaces
/// `base`; otherwise `rel` is appended, with a `/` in between unless `base`
/// is empty or already ends in one.
pub open spec fn join_path(base: Seq<char>, rel: Seq<char>) -> Seq<char> {
    if rel.len() > 0 && rel[0] == '/' {
        rel
    } else if base.len() == 0 {
        rel
    } else if base.last() == '/' {
        base + rel
    } else {
        base + seq!['/'] + rel
    }
}

/// `base.join(rel)` (see `join_path`).
pub fn join(base: &str, rel: &str) -> (r: String)
    ensures
        r@ == join_path(base@, rel@),
{
    let b = chars_of(base);
    let x = chars_of(rel);
    if x.len() > 0 && x[0] == '/' {
        return rel.to_owned();
    }
    if b.len() == 0 {
        return rel.to_owned();
    }
    if b[b.len() - 1] == '/' {
        return concat(base, rel);
    }
    let r = concat3(base, "/", rel);
    proof {
        reveal_strlit("/");
        assert("/"@ =~= seq!['/']);
    }
    r
}

} // verus!

verus! {

pub open spec fn opt_chars(o: Option<String>) -> Option<Seq<char>> {
    match o {
        Some(s) => Some(s@),
        None => None,
    }
}

/// A copy of an optional string.
pub fn clone_opt(o: &Option<String>) -> (r: Option<String>)
    ensures
        opt_chars(r) == opt_chars(*o),
{
    match o {
        Some(s) => Some(s.clone()),
        None => None,
    }
}

} // verus!

verus! {

/// `str::split(c)`: every piece between separators, empty ones included
/// (one more piece than there are separators).
pub open spec fn split_on(s: Seq<char>, c: char) -> Seq<Seq<char>>
    decreases s.len(),
{
    if s.len() == 0 {
        seq![seq![]]
    } else {
        let prev = split_on(s.drop_last(), c);
        if s.last() == c {
            prev.push(seq![])
        } else {
            prev.update(prev.len() - 1, prev.last().push(s.last()))
        }
    }
}

pub proof fn lemma_split_on_nonempty(s: Seq<char>, c: char)
    ensures
        split_on(s, c).len() >= 1,
    decreases s.len(),
{
    if s.len() > 0 {
        lemma_split_on_nonempty(s.drop_last(), c);
    }
}

/// A `\r` left by a `\r\n` line ending is dropped.
pub open spec fn strip_cr(l: Seq<char>) -> Seq<char> {
    if l.len() > 0 && l.last() == '\r' {
        l.drop_last()
    } else {
        l
    }
}

/// `str::lines`: pieces ended by `\n` (with a `\r` before it dropped),
/// then a last piece without an ending, if it is non-empty.
pub open spec fn lines(s: Seq<char>) -> Seq<Seq<char>> {
    let p = split_on(s, '\n');
    let ended = p.drop_last().map_values(|l: Seq<char>| strip_cr(l));
    if p.last().len() > 0 {
        ended.push(p.last())
    } else {
        ended
    }
}

/// `s.split(c)`, every piece owned.
pub fn split_pieces(s: &str, c: char) -> (r: Vec<String>)
    ensures
        r.deep_view() == split_on(s@, c),
{
    let cs = chars_of(s);
    let mut done: Vec<String> = Vec::new();
    let mut cur = String::new();
    let mut i: usize = 0;
    while i < cs.len()
        invariant
            cs@ == s@,
            i <= cs@.len(),
            done.deep_view().push(cur@) == split_on(cs@.take(i as int), c),
        decreases cs.len() - i,
    {
        let ghost t = cs@.take(i + 1);
        assert(t.drop_last() =~= cs@.take(i as int));
        let ghost before = done.deep_view();
        let ghost cur_before = cur@;
        if cs[i] == c {
            let piece = cur;
            done.push(piece);
            cur = String::new();
            assert(done.deep_view() =~= before.push(cur_before));
            assert(done.deep_view().push(cur@) =~= before.push(cur_before).push(seq![]));
        } else {
            push_char(&mut cur, cs[i]);
            let ghost prev = before.push(cur_before);
            assert(prev.update(prev.len() - 1, prev.last().push(cs@[i as int]))
                =~= done.deep_view().push(cur@));
        }
        i += 1;
    }
    assert(cs@.take(cs@.len() as int) =~= cs@);
    let ghost before = done.deep_view();
    let ghost cur_v = cur@;
    done.push(cur);
    assert(done.deep_view() =~= before.push(cur_v));
    done
}

fn strip_cr_string(l: String) -> (r: String)
    ensures
        r@ == strip_cr(l@),
{
    let cs = chars_of(l.as_str());
    if cs.len() > 0 && cs[cs.len() - 1] == '\r' {
        let r = string_of(&cs, 0, cs.len() - 1);
        assert(r@ =~= l@.drop_last());
        r
    } else {
        l
    }
}

/// `s.lines()`, every line owned.
pub fn lines_of(s: &str) -> (r: Vec<String>)
    ensures
        r.deep_view() == lines(s@),
{
    let pieces = split_pieces(s, '\n');
    let ghost p = pieces.deep_view();
    proof {
        lemma_split_on_nonempty(s@, '\n');
    }
    let n = pieces.len() - 1;
    let mut out: Vec<String> = Vec::new();
    let mut i: usize = 0;
    while i < n
        invariant
            p == pieces.deep_view(),
            p == split_on(s@, '\n'),
            n + 1 == p.len(),
            i <= n,
            out.deep_view() == p.take(i as int).map_values(|l: Seq<char>| strip_cr(l)),
        decreases n - i,
    {
        let ghost before = out.deep_view();
        let line = strip_cr_string(pieces[i].clone());
        out.push(line);
        assert(p.take(i + 1).map_values(|l: Seq<char>| strip_cr(l)) =~= p.take(i as int).map_values(
            |l: Seq<char>| strip_cr(l),
        ).push(strip_cr(p[i as int])));
        assert(out.deep_view() =~= before.push(strip_cr(p[i as int])));
        i += 1;
    }
    assert(p.take(n as int) =~= p.drop_last());
    if !pieces[n].as_str().is_empty() {
        let ghost before = out.deep_view();
        let last = pieces[n].clone();
        out.push(last);
        assert(out.deep_view() =~= before.push(p.last()));
    }
    out
}

/// `needle` occurs in `hay` starting at position `i`.
pub open spec fn occurs_at(hay: Seq<char>, needle: Seq<char>, i: int) -> bool {
    0 <= i && i + needle.len() <= hay.len() && hay.subrange(i, i + needle.len()) == needle
}

/// `str::contains`.
pub open spec fn contains_seq(hay: Seq<char>, needle: Seq<char>) -> bool {
    exists|i: int| occurs_at(hay, needle, i)
}

/// `hay.contains(needle)`.
pub fn contains(hay: &str, needle: &str) -> (r: bool)
    ensures
        r == contains_seq(hay@, needle@),
{
    let h = chars_of(hay);
    let n = chars_of(needle);
    if n.len() > h.len() {
        return false;
    }
    let hl = h.len();
    let last = hl - n.len();
    let mut i: usize = 0;
    while i <= last
        invariant
            h@ == hay@,
            n@ == needle@,
            last + n@.len() == h@.len(),
            hl == h@.len(),
            i <= last + 1,
            forall|k: int| 0 <= k < i ==> !occurs_at(hay@, needle@, k),
        decreases last + 1 - i,
    {
        let mut j: usize = 0;
        let mut same = true;
        while j < n.len()
            invariant
                h@ == hay@,
                n@ == needle@,
                i <= last,
                hl == h@.len(),
                last + n@.len() == h@.len(),
                j <= n@.len(),
                same == forall|m: int| 0 <= m < j ==> h@[i + m] == n@[m],
            decreases n.len() - j,
        {
            assert(i + j < h@.len());
            if h[i + j] != n[j] {
                same = false;
            }
            j += 1;
        }
        if same {
            assert(hay@.subrange(i as int, i + needle@.len()) =~= needle@);
            assert(occurs_at(hay@, needle@, i as int));
            return true;
        }
        assert(!occurs_at(hay@, needle@, i as int)) by {
            if occurs_at(hay@, needle@, i as int) {
                assert forall|m: int| 0 <= m < n@.len() implies h@[i + m] == n@[m] by {
                    assert(hay@.subrange(i as int, i + needle@.len())[m] == h@[i + m]);
                }
            }
        }
        i += 1;
    }
    assert forall|k: int| occurs_at(hay@, needle@, k) implies false by {
        assert(k <= last);
    }
    false
}

} // verus!

verus! {

/// ASCII upper-case letters mapped to lower case; everything else kept.
pub open spec fn ascii_lower(c: char) -> char {
    if 'A' <= c <= 'Z' {
        ((c as u32) + 32) as char
    } else {
        c
    }
}

/// `char::to_ascii_lowercase`.
pub fn to_ascii_lower(c: char) -> (r: char)
    ensures
        r == ascii_lower(c),
{
    if 'A' <= c && c <= 'Z' {
        let u = (c as u8) + 32;
        u as char
    } else {
        c
    }
}

} // verus!

verus! {

/// The character of decimal digit `d`.
pub open spec fn digit_char(d: nat) -> char {
    ((d + 48) as u8) as char
}

/// The decimal form of `n`, without leading zeros.
pub open spec fn decimal(n: nat) -> Seq<char>
    decreases n,
{
    if n < 10 {
        seq![digit_char(n)]
    } else {
        decimal(n / 10) + seq![digit_char(n % 10)]
    }
}

pub fn push_decimal(out: &mut String, n: u128)
    ensures
        final(out)@ == old(out)@ + decimal(n as nat),
    decreases n,
{
    let ghost start = out@;
    if n >= 10 {
        push_decimal(out, n / 10);
    }
    let d = (n % 10) as u8;
    push_char(out, (d + 48) as char);
    if n >= 10 {
        assert(out@ =~= start + decimal(n as nat));
    } else {
        assert(out@ =~= start + decimal(n as nat));
    }
}

} // verus!

verus! {

/// The pieces joined with `sep` between each two.
pub open spec fn join_sep(ls: Seq<Seq<char>>, sep: Seq<char>) -> Seq<char>
    decreases ls.len(),
{
    if ls.len() == 0 {
        seq![]
    } else if ls.len() == 1 {
        ls[0]
    } else {
        join_sep(ls.drop_last(), sep) + sep + ls.last()
    }
}

/// `pieces.join(sep)`.
pub fn join_with(pieces: &Vec<String>, sep: &str) -> (r: String)
    ensures
        r@ == join_sep(pieces.deep_view(), sep@),
{
    let ghost l = pieces.deep_view();
    let mut out = String::new();
    let mut i: usize = 0;
    while i < pieces.len()
        invariant
            l == pieces.deep_view(),
            i <= l.len(),
            out@ == join_sep(l.take(i as int), sep@),
        decreases pieces.len() - i,
    {
        let ghost before = out@;
        assert(l.take(i + 1).drop_last() =~= l.take(i as int));
        assert(l.take(i + 1).last() == pieces[i as int]@);
        if i > 0 {
            out.append(sep);
        }
        out.append(pieces[i].as_str());
        if i == 0 {
            assert(out@ =~= join_sep(l.take(1), sep@));
        } else {
            assert(out@ =~= before + sep@ + l[i as int]);
        }
        i += 1;
    }
    assert(l.take(l.len() as int) =~= l);
    out
}

} // verus!
