//! What `layerctl checkpoint` writes for the next boot: the systemd-boot
//! `loader.conf` default line, and GRUB's fixed-size `grubenv` block.
use vstd::prelude::*;
use vstd::utf8::{decode_utf8, encode_utf8, is_ascii_chars, is_ascii_chars_encode_utf8, valid_utf8};

use crate::init::device_scan::{lossy_utf8, utf8_lossy};

use crate::semantics::checkpoint::{Checkpoint, checkpoint_name};
use crate::text::{
    Sep, chars_of, concat, concat3, contains, contains_seq, eq_str, first_at, is_prefix, join,
    join_path, lines, lines_of, owned, push_char, split_on, split_once, split_once_char,
    split_pieces, starts_with, string_of, is_white_space, is_whitespace, lemma_split_on_nonempty,
    decimal, push_decimal,
};


verus! {

// ---------------------------------------------------------------------
// grubenv
// ---------------------------------------------------------------------
/// Size in bytes of GRUB's environment block.
pub const GRUB_ENVBLK_SIZE: usize = 1024;

/// The signature line that opens every environment block.
pub open spec fn envblk_signature() -> Seq<char> {
    "# GRUB Environment Block\n"@
}

/// Size of a text in bytes, as UTF-8.
pub open spec fn byte_len(s: Seq<char>) -> nat {
    encode_utf8(s).len()
}

pub open spec fn env_entry(kv: (Seq<char>, Seq<char>)) -> Seq<char> {
    kv.0 + seq!['='] + kv.1 + seq!['\n']
}

/// The `key=value\n` entries, in order.
pub open spec fn env_entries(vars: Seq<(Seq<char>, Seq<char>)>) -> Seq<char>
    decreases vars.len(),
{
    if vars.len() == 0 {
        seq![]
    } else {
        env_entries(vars.drop_last()) + env_entry(vars.last())
    }
}

/// The signature followed by the entries, before padding.
pub open spec fn env_body(vars: Seq<(Seq<char>, Seq<char>)>) -> Seq<char> {
    envblk_signature() + env_entries(vars)
}

pub open spec fn hashes(n: nat) -> Seq<char> {
    Seq::new(n, |i: int| '#')
}

/// The block `grub2-editenv` would write: the body padded with `#` to
/// exactly `GRUB_ENVBLK_SIZE` bytes, or an error when the body alone is
/// larger than that.
pub open spec fn render_grubenv(vars: Seq<(Seq<char>, Seq<char>)>) -> Result<Seq<char>, Seq<char>> {
    let body = env_body(vars);
    if byte_len(body) > GRUB_ENVBLK_SIZE {
        Err(
            "grubenv contents ("@ + decimal(byte_len(body)) + " bytes) exceed the 1024-byte block"@,
        )
    } else {
        Ok(body + hashes((GRUB_ENVBLK_SIZE - byte_len(body)) as nat))
    }
}

/// A `key=value` line of the block; empty lines, `#` lines (padding,
/// comments) and lines without `=` carry no variable.
pub open spec fn env_line(l: Seq<char>) -> Option<(Seq<char>, Seq<char>)> {
    if l.len() == 0 || l[0] == '#' {
        None
    } else {
        split_once(l, '=')
    }
}

pub open spec fn env_vars(ls: Seq<Seq<char>>) -> Seq<(Seq<char>, Seq<char>)>
    decreases ls.len(),
{
    if ls.len() == 0 {
        seq![]
    } else {
        match env_line(ls.last()) {
            Some(kv) => env_vars(ls.drop_last()).push(kv),
            None => env_vars(ls.drop_last()),
        }
    }
}

/// The variables of a block's text: the signature (if present) is
/// skipped, then every line is read.
pub open spec fn parse_grubenv(text: Seq<char>) -> Seq<(Seq<char>, Seq<char>)> {
    let body = if is_prefix(envblk_signature(), text) {
        text.skip(envblk_signature().len() as int)
    } else {
        text
    };
    env_vars(split_on(body, '\n'))
}

pub open spec fn vars_view(v: Seq<(String, String)>) -> Seq<(Seq<char>, Seq<char>)> {
    v.map_values(|p: (String, String)| (p.0@, p.1@))
}

fn envblk_signature_str() -> (r: &'static str)
    ensures
        r@ == envblk_signature(),
{
    "# GRUB Environment Block\n"
}

/// Reads the variables out of a `grubenv` file's bytes: decoded as
/// `String::from_utf8_lossy` decodes them (exactly, where they are valid
/// UTF-8), then read as `read_grubenv_text` reads a block's text.
pub fn read_grubenv_bytes(bytes: &[u8]) -> (r: Vec<(String, String)>)
    ensures
        vars_view(r@) == parse_grubenv(lossy_utf8(bytes@)),
        valid_utf8(bytes@) ==> vars_view(r@) == parse_grubenv(decode_utf8(bytes@)),
{
    let text = utf8_lossy(bytes);
    read_grubenv_text(text.as_str())
}

/// Reads the variables out of a block's text (see `parse_grubenv`). A
/// missing file reads as no variables.
pub fn read_grubenv_text(text: &str) -> (r: Vec<(String, String)>)
    ensures
        vars_view(r@) == parse_grubenv(text@),
{
    let sig = envblk_signature_str();
    let body = if starts_with(text, sig) {
        let cs = chars_of(text);
        let n = chars_of(sig).len();
        let b = string_of(&cs, n, cs.len());
        assert(b@ =~= text@.skip(envblk_signature().len() as int));
        b
    } else {
        owned(text)
    };
    let pieces = split_pieces(body.as_str(), '\n');
    let ghost p = pieces.deep_view();
    let mut out: Vec<(String, String)> = Vec::new();
    let mut i: usize = 0;
    while i < pieces.len()
        invariant
            p == pieces.deep_view(),
            p == split_on(body@, '\n'),
            i <= p.len(),
            vars_view(out@) == env_vars(p.take(i as int)),
        decreases pieces.len() - i,
    {
        assert(p.take(i + 1).drop_last() =~= p.take(i as int));
        assert(p.take(i + 1).last() == pieces[i as int]@);
        let line = pieces[i].as_str();
        let ghost before = out@;
        let lc = chars_of(line);
        if lc.len() > 0 && lc[0] != '#' {
            match split_once_char(line, '=') {
                Some((k, v)) => {
                    let ghost kv = (k@, v@);
                    out.push((k, v));
                    assert(vars_view(out@) =~= vars_view(before).push(kv));
                },
                None => {},
            }
        }
        i += 1;
    }
    assert(p.take(p.len() as int) =~= p);
    out
}

/// Renders the block (see `render_grubenv`).
pub fn render_grubenv_text(vars: &Vec<(String, String)>) -> (r: Result<String, String>)
    requires
        byte_len(env_body(vars_view(vars@))) <= usize::MAX,
    ensures
        match (r, render_grubenv(vars_view(vars@))) {
            (Ok(a), Ok(b)) => a@ == b,
            (Err(a), Err(b)) => a@ == b,
            _ => false,
        },
{
    let ghost vv = vars_view(vars@);
    let mut body = owned(envblk_signature_str());
    let mut i: usize = 0;
    while i < vars.len()
        invariant
            vv == vars_view(vars@),
            i <= vars@.len(),
            body@ == envblk_signature() + env_entries(vv.take(i as int)),
        decreases vars.len() - i,
    {
        let ghost before = body@;
        body.append(vars[i].0.as_str());
        push_char(&mut body, '=');
        body.append(vars[i].1.as_str());
        push_char(&mut body, '\n');
        assert(vv.take(i + 1).drop_last() =~= vv.take(i as int));
        assert(vv.take(i + 1).last() == vv[i as int]);
        assert(body@ =~= before + env_entry(vv[i as int]));
        i += 1;
    }
    assert(vv.take(vars@.len() as int) =~= vv);
    let len = body.as_str().len();
    assert(len == byte_len(env_body(vv)));
    if len > GRUB_ENVBLK_SIZE {
        let mut m = owned("grubenv contents (");
        push_decimal(&mut m, len as u128);
        m.append(" bytes) exceed the 1024-byte block");
        return Err(m);
    }
    let pad = GRUB_ENVBLK_SIZE - len;
    let ghost body_v = body@;
    let mut k: usize = 0;
    while k < pad
        invariant
            k <= pad,
            body@ == body_v + hashes(k as nat),
        decreases pad - k,
    {
        push_char(&mut body, '#');
        assert(hashes((k + 1) as nat) =~= hashes(k as nat).push('#'));
        assert(body@ =~= body_v + hashes((k + 1) as nat));
        k += 1;
    }
    Ok(body)
}

pub open spec fn is_key_at(vars: Seq<(Seq<char>, Seq<char>)>, key: Seq<char>, i: int) -> bool {
    &&& 0 <= i < vars.len()
    &&& vars[i].0 == key
    &&& forall|j: int| 0 <= j < i ==> (#[trigger] vars[j]).0 != key
}

/// `key` set to `value`: the first entry with that key gets the new value,
/// or a new entry is appended; every other entry stays as it was.
pub open spec fn set_var(vars: Seq<(Seq<char>, Seq<char>)>, key: Seq<char>, value: Seq<char>) -> Seq<
    (Seq<char>, Seq<char>),
> {
    if exists|i: int| is_key_at(vars, key, i) {
        vars.update(choose|i: int| is_key_at(vars, key, i), (key, value))
    } else {
        vars.push((key, value))
    }
}

/// Sets `saved_entry=<entry_id>`, preserving every other variable — GRUB
/// reads `saved_entry` as the default entry when its configuration sets
/// `GRUB_DEFAULT=saved`.
pub fn set_saved_entry(vars: &mut Vec<(String, String)>, entry_id: &str)
    ensures
        vars_view(final(vars)@) == set_var(vars_view(old(vars)@), "saved_entry"@, entry_id@),
{
    let ghost vv = vars_view(vars@);
    let mut i: usize = 0;
    while i < vars.len()
        invariant
            vv == vars_view(vars@),
            vars@ == old(vars)@,
            i <= vars@.len(),
            forall|j: int| 0 <= j < i ==> (#[trigger] vv[j]).0 != "saved_entry"@,
        decreases vars.len() - i,
    {
        if eq_str(vars[i].0.as_str(), "saved_entry") {
            assert(is_key_at(vv, "saved_entry"@, i as int));
            let ghost k = choose|k: int| is_key_at(vv, "saved_entry"@, k);
            assert(k == i);
            vars.set(i, (owned("saved_entry"), owned(entry_id)));
            assert(vars_view(vars@) =~= vv.update(i as int, ("saved_entry"@, entry_id@)));
            return;
        }
        i += 1;
    }
    assert(!exists|k: int| is_key_at(vv, "saved_entry"@, k));
    vars.push((owned("saved_entry"), owned(entry_id)));
    assert(vars_view(vars@) =~= vv.push(("saved_entry"@, entry_id@)));
}

// ---------------------------------------------------------------------
// Proofs about the block
// ---------------------------------------------------------------------
pub proof fn lemma_encode_concat(a: Seq<char>, b: Seq<char>)
    ensures
        encode_utf8(a + b) == encode_utf8(a) + encode_utf8(b),
    decreases a.len(),
{
    if a.len() == 0 {
        assert(a + b =~= b);
    } else {
        lemma_encode_concat(a.drop_first(), b);
        assert((a + b).drop_first() =~= a.drop_first() + b);
        assert((a + b)[0] == a[0]);
    }
}

pub proof fn lemma_hashes_len(n: nat)
    ensures
        byte_len(hashes(n)) == n,
{
    assert(is_ascii_chars(hashes(n)));
    is_ascii_chars_encode_utf8(hashes(n));
}

/// A rendered block is exactly `GRUB_ENVBLK_SIZE` bytes long, and it is
/// rendered exactly when its body fits.
pub proof fn rendered_block_size(vars: Seq<(Seq<char>, Seq<char>)>)
    ensures
        render_grubenv(vars) is Ok <==> byte_len(env_body(vars)) <= GRUB_ENVBLK_SIZE,
        render_grubenv(vars) matches Ok(t) ==> byte_len(t) == GRUB_ENVBLK_SIZE,
{
    let body = env_body(vars);
    if byte_len(body) <= GRUB_ENVBLK_SIZE {
        let n = (GRUB_ENVBLK_SIZE - byte_len(body)) as nat;
        lemma_encode_concat(body, hashes(n));
        lemma_hashes_len(n);
    }
}

pub proof fn lemma_split_join(x: Seq<char>, y: Seq<char>)
    ensures
        split_on(x + seq!['\n'] + y, '\n') == split_on(x, '\n') + split_on(y, '\n'),
    decreases y.len(),
{
    lemma_split_on_nonempty(x, '\n');
    lemma_split_on_nonempty(y, '\n');
    if y.len() == 0 {
        assert((x + seq!['\n'] + y).drop_last() =~= x);
        assert(split_on(y, '\n') =~= seq![seq![]]);
        assert(split_on(x, '\n').push(seq![]) =~= split_on(x, '\n') + seq![seq![]]);
    } else {
        let y2 = y.drop_last();
        lemma_split_join(x, y2);
        lemma_split_on_nonempty(y2, '\n');
        assert((x + seq!['\n'] + y).drop_last() =~= x + seq!['\n'] + y2);
        assert((x + seq!['\n'] + y).last() == y.last());
        let a = split_on(x, '\n');
        let b = split_on(y2, '\n');
        if y.last() == '\n' {
            assert((a + b).push(seq![]) =~= a + b.push(seq![]));
        } else {
            assert((a + b).update((a + b).len() - 1, (a + b).last().push(y.last())) =~= a
                + b.update(b.len() - 1, b.last().push(y.last())));
        }
    }
}

pub proof fn lemma_split_no_sep(x: Seq<char>)
    requires
        forall|i: int| 0 <= i < x.len() ==> x[i] != '\n',
    ensures
        split_on(x, '\n') == seq![x],
    decreases x.len(),
{
    if x.len() > 0 {
        assert forall|i: int| 0 <= i < x.drop_last().len() implies x.drop_last()[i] != '\n' by {
            assert(x.drop_last()[i] == x[i]);
        }
        lemma_split_no_sep(x.drop_last());
        assert(x.last() != '\n');
        assert(x.drop_last().push(x.last()) =~= x);
        assert(seq![x.drop_last()].update(0, x.drop_last().push(x.last())) =~= seq![x]);
    } else {
        assert(x =~= seq![]);
    }
}

pub open spec fn no_char(s: Seq<char>, c: char) -> bool {
    forall|i: int| 0 <= i < s.len() ==> s[i] != c
}

/// A variable the block can carry unchanged: the key has no `=` or
/// newline and does not start with `#`; the value has no newline.
pub open spec fn storable(kv: (Seq<char>, Seq<char>)) -> bool {
    &&& no_char(kv.0, '=')
    &&& no_char(kv.0, '\n')
    &&& no_char(kv.1, '\n')
    &&& (kv.0.len() == 0 || kv.0[0] != '#')
}

pub open spec fn entry_line(kv: (Seq<char>, Seq<char>)) -> Seq<char> {
    kv.0 + seq!['='] + kv.1
}

pub open spec fn entry_lines(vars: Seq<(Seq<char>, Seq<char>)>) -> Seq<Seq<char>> {
    vars.map_values(|kv: (Seq<char>, Seq<char>)| entry_line(kv))
}

pub proof fn lemma_entries_split(vars: Seq<(Seq<char>, Seq<char>)>, y: Seq<char>)
    requires
        forall|i: int| 0 <= i < vars.len() ==> storable(#[trigger] vars[i]),
    ensures
        split_on(env_entries(vars) + y, '\n') == entry_lines(vars) + split_on(y, '\n'),
    decreases vars.len(),
{
    if vars.len() == 0 {
        assert(env_entries(vars) + y =~= y);
        assert(entry_lines(vars) + split_on(y, '\n') =~= split_on(y, '\n'));
    } else {
        let prev = vars.drop_last();
        let kv = vars.last();
        let l = entry_line(kv);
        assert(storable(vars[vars.len() - 1]));
        assert forall|i: int| 0 <= i < prev.len() implies storable(#[trigger] prev[i]) by {
            assert(prev[i] == vars[i]);
        }
        lemma_entries_split(prev, l + seq!['\n'] + y);
        assert(env_entries(vars) + y =~= env_entries(prev) + (l + seq!['\n'] + y));
        lemma_split_join(l, y);
        assert forall|i: int| 0 <= i < l.len() implies l[i] != '\n' by {
            if i < kv.0.len() {
                assert(l[i] == kv.0[i]);
            } else if i > kv.0.len() {
                assert(l[i] == kv.1[i - kv.0.len() - 1]);
            }
        }
        lemma_split_no_sep(l);
        assert(entry_lines(vars) =~= entry_lines(prev).push(l));
        assert(entry_lines(prev) + (seq![l] + split_on(y, '\n')) =~= entry_lines(vars) + split_on(
            y,
            '\n',
        ));
    }
}

pub proof fn lemma_env_vars_concat(a: Seq<Seq<char>>, b: Seq<Seq<char>>)
    ensures
        env_vars(a + b) == env_vars(a) + env_vars(b),
    decreases b.len(),
{
    if b.len() == 0 {
        assert(a + b =~= a);
        assert(env_vars(a) + env_vars(b) =~= env_vars(a));
    } else {
        lemma_env_vars_concat(a, b.drop_last());
        assert((a + b).drop_last() =~= a + b.drop_last());
        assert((a + b).last() == b.last());
        match env_line(b.last()) {
            Some(kv) => {
                assert((env_vars(a) + env_vars(b.drop_last())).push(kv) =~= env_vars(a)
                    + env_vars(b.drop_last()).push(kv));
            },
            None => {},
        }
    }
}

pub proof fn lemma_entry_line_reads_back(kv: (Seq<char>, Seq<char>))
    requires
        storable(kv),
    ensures
        env_line(entry_line(kv)) == Some(kv),
{
    let l = entry_line(kv);
    let i = kv.0.len() as int;
    assert(l[i] == '=');
    assert forall|j: int| 0 <= j < i implies l[j] != '=' by {
        assert(l[j] == kv.0[j]);
    }
    assert(first_at(l, '=', i));
    let k = choose|k: int| first_at(l, '=', k);
    assert(k == i);
    assert(l.take(i) =~= kv.0);
    assert(l.skip(i + 1) =~= kv.1);
    if kv.0.len() > 0 {
        assert(l[0] == kv.0[0]);
    }
}

pub proof fn lemma_entry_lines_read_back(vars: Seq<(Seq<char>, Seq<char>)>)
    requires
        forall|i: int| 0 <= i < vars.len() ==> storable(#[trigger] vars[i]),
    ensures
        env_vars(entry_lines(vars)) == vars,
    decreases vars.len(),
{
    if vars.len() > 0 {
        let prev = vars.drop_last();
        assert forall|i: int| 0 <= i < prev.len() implies storable(#[trigger] prev[i]) by {
            assert(prev[i] == vars[i]);
        }
        lemma_entry_lines_read_back(prev);
        assert(entry_lines(vars).drop_last() =~= entry_lines(prev));
        assert(storable(vars[vars.len() - 1]));
        lemma_entry_line_reads_back(vars.last());
        assert(vars =~= prev.push(vars.last()));
    } else {
        assert(vars =~= seq![]);
    }
}

/// What a rendered block reads back as is what was rendered, for every
/// list of variables the block can carry.
pub proof fn grubenv_round_trip(vars: Seq<(Seq<char>, Seq<char>)>)
    requires
        forall|i: int| 0 <= i < vars.len() ==> storable(#[trigger] vars[i]),
        render_grubenv(vars) is Ok,
    ensures
        render_grubenv(vars) matches Ok(t) && parse_grubenv(t) == vars,
{
    let body = env_body(vars);
    let n = (GRUB_ENVBLK_SIZE - byte_len(body)) as nat;
    let t = body + hashes(n);
    let sig = envblk_signature();
    let rest = env_entries(vars) + hashes(n);
    assert(t =~= sig + rest);
    assert(t.take(sig.len() as int) =~= sig);
    assert(t.skip(sig.len() as int) =~= rest);
    lemma_entries_split(vars, hashes(n));
    lemma_split_no_sep(hashes(n));
    lemma_env_vars_concat(entry_lines(vars), seq![hashes(n)]);
    lemma_entry_lines_read_back(vars);
    assert(seq![hashes(n)].drop_last() =~= Seq::<Seq<char>>::empty());
    assert(seq![hashes(n)].last() == hashes(n));
    if n > 0 {
        assert(hashes(n)[0] == '#');
    }
    assert(env_line(hashes(n)) is None);
    assert(env_vars(Seq::<Seq<char>>::empty()) =~= Seq::<(Seq<char>, Seq<char>)>::empty());
    assert(env_vars(seq![hashes(n)]) =~= Seq::<(Seq<char>, Seq<char>)>::empty());
    assert(vars + Seq::<(Seq<char>, Seq<char>)>::empty() =~= vars);
}

} // verus!

verus! {

// ---------------------------------------------------------------------
// systemd-boot loader.conf
// ---------------------------------------------------------------------
/// `str::trim_start`: leading white space removed.
pub open spec fn trim_start(s: Seq<char>) -> Seq<char>
    decreases s.len(),
{
    if s.len() > 0 && is_white_space(s[0]) {
        trim_start(s.drop_first())
    } else {
        s
    }
}

fn trim_start_str(s: &str) -> (r: String)
    ensures
        r@ == trim_start(s@),
{
    let cs = chars_of(s);
    let mut i: usize = 0;
    assert(s@.skip(0) =~= s@);
    while i < cs.len() && is_whitespace(cs[i])
        invariant
            cs@ == s@,
            i <= cs@.len(),
            trim_start(s@) == trim_start(s@.skip(i as int)),
        decreases cs.len() - i,
    {
        assert(s@.skip(i as int).drop_first() =~= s@.skip(i + 1));
        i += 1;
    }
    let r = string_of(&cs, i, cs.len());
    assert(r@ =~= s@.skip(i as int));
    r
}

/// A line that sets the default entry.
pub open spec fn is_default_line(l: Seq<char>) -> bool {
    is_prefix("default "@, trim_start(l))
}

pub open spec fn first_default_at(ls: Seq<Seq<char>>, i: int) -> bool {
    &&& 0 <= i < ls.len()
    &&& is_default_line(ls[i])
    &&& forall|j: int| 0 <= j < i ==> !is_default_line(#[trigger] ls[j])
}

/// The lines with the default set to `entry_id`: the first `default` line
/// is replaced, or one is put first; every other line is kept as it was.
pub open spec fn with_default(ls: Seq<Seq<char>>, entry_id: Seq<char>) -> Seq<Seq<char>> {
    let line = "default "@ + entry_id;
    if exists|i: int| first_default_at(ls, i) {
        ls.update(choose|i: int| first_default_at(ls, i), line)
    } else {
        seq![line] + ls
    }
}

/// The lines joined by newlines.
pub open spec fn join_lines(ls: Seq<Seq<char>>) -> Seq<char>
    decreases ls.len(),
{
    if ls.len() == 0 {
        seq![]
    } else if ls.len() == 1 {
        ls[0]
    } else {
        join_lines(ls.drop_last()) + seq!['\n'] + ls.last()
    }
}

/// The new `loader.conf`: the existing one (none if the file is missing)
/// with its default entry set, each line ended by a newline.
pub open spec fn loader_conf(existing: Option<Seq<char>>, entry_id: Seq<char>) -> Seq<char> {
    let ls = match existing {
        Some(t) => lines(t),
        None => seq![],
    };
    join_lines(with_default(ls, entry_id)) + seq!['\n']
}

fn join_newlines(ls: &Vec<String>) -> (r: String)
    ensures
        r@ == join_lines(ls.deep_view()),
{
    let ghost l = ls.deep_view();
    let mut out = String::new();
    let mut i: usize = 0;
    while i < ls.len()
        invariant
            l == ls.deep_view(),
            i <= l.len(),
            out@ == join_lines(l.take(i as int)),
        decreases ls.len() - i,
    {
        let ghost before = out@;
        assert(l.take(i + 1).drop_last() =~= l.take(i as int));
        assert(l.take(i + 1).last() == ls[i as int]@);
        if i > 0 {
            push_char(&mut out, '\n');
        }
        out.append(ls[i].as_str());
        if i == 0 {
            assert(out@ =~= join_lines(l.take(1)));
        } else {
            assert(out@ =~= before + seq!['\n'] + l[i as int]);
        }
        i += 1;
    }
    assert(l.take(l.len() as int) =~= l);
    out
}

fn find_default(ls: &Vec<String>) -> (r: Option<usize>)
    ensures
        match r {
            Some(i) => first_default_at(ls.deep_view(), i as int),
            None => !exists|k: int| first_default_at(ls.deep_view(), k),
        },
{
    let ghost l = ls.deep_view();
    let mut i: usize = 0;
    while i < ls.len()
        invariant
            l == ls.deep_view(),
            i <= l.len(),
            forall|j: int| 0 <= j < i ==> !is_default_line(#[trigger] l[j]),
        decreases ls.len() - i,
    {
        let t = trim_start_str(ls[i].as_str());
        if starts_with(t.as_str(), "default ") {
            assert(first_default_at(l, i as int));
            return Some(i);
        }
        i += 1;
    }
    None
}

/// Rewrites `loader.conf` (its text, if the file exists) so that its
/// `default` line names `entry_id`, leaving every other line untouched.
pub fn loader_conf_with_default(existing: Option<&str>, entry_id: &str) -> (r: String)
    ensures
        r@ == loader_conf(
            match existing {
                Some(t) => Some(t@),
                None => None,
            },
            entry_id@,
        ),
{
    let mut ls: Vec<String> = match existing {
        Some(t) => lines_of(t),
        None => Vec::new(),
    };
    let ghost l = ls.deep_view();
    assert(l == match existing {
        Some(t) => lines(t@),
        None => Seq::<Seq<char>>::empty(),
    }) by {
        if existing is None {
            assert(l =~= Seq::<Seq<char>>::empty());
        }
    }
    let line = concat("default ", entry_id);
    match find_default(&ls) {
        Some(i) => {
            let ghost k = choose|k: int| first_default_at(l, k);
            assert(k == i);
            ls.set(i, line);
            assert(ls.deep_view() =~= with_default(l, entry_id@));
        },
        None => {
            ls.insert(0, line);
            assert(ls.deep_view() =~= with_default(l, entry_id@));
        },
    }
    let mut out = join_newlines(&ls);
    push_char(&mut out, '\n');
    out
}

// ---------------------------------------------------------------------
// Checkpoint entries
// ---------------------------------------------------------------------
/// The systemd-boot entry file of a checkpoint, `layerfs-<name>.conf`.
pub open spec fn systemd_entry_id(cp: Checkpoint) -> Seq<char> {
    "layerfs-"@ + checkpoint_name(cp) + ".conf"@
}

/// The GRUB menu entry id of a checkpoint, `layerfs-<name>`.
pub open spec fn grub_entry_id(cp: Checkpoint) -> Seq<char> {
    "layerfs-"@ + checkpoint_name(cp)
}

/// How a generated `grub.cfg` marks an entry: `--id '<entry_id>'`.
pub open spec fn grub_id_marker(entry_id: Seq<char>) -> Seq<char> {
    "--id '"@ + entry_id + "'"@
}

pub fn systemd_entry_name(cp: Checkpoint) -> (r: String)
    ensures
        r@ == systemd_entry_id(cp),
{
    concat3("layerfs-", cp.name(), ".conf")
}

pub fn grub_entry_name(cp: Checkpoint) -> (r: String)
    ensures
        r@ == grub_entry_id(cp),
{
    concat("layerfs-", cp.name())
}

/// Whether `grub_cfg` (its text; empty if the file is missing) has a
/// `menuentry --id '<entry_id>'`.
pub fn grub_entry_listed(grub_cfg: &str, entry_id: &str) -> (r: bool)
    ensures
        r == contains_seq(grub_cfg@, grub_id_marker(entry_id@)),
{
    let marker = concat3("--id '", entry_id, "'");
    contains(grub_cfg, marker.as_str())
}

/// Where the systemd-boot entry of `entry_id` lives under the ESP.
pub fn systemd_entry_path(esp: &str, entry_id: &str) -> (r: String)
    ensures
        r@ == join_path(join_path(esp@, "loader/entries"@), entry_id@),
{
    join(join(esp, "loader/entries").as_str(), entry_id)
}

/// The refusal when the ESP lacks the checkpoint's entry.
pub fn missing_systemd_entry(entry_path: &str) -> (r: String)
    ensures
        r@ == entry_path@ + " not found: generate systemd-boot entries for this ESP first"@,
{
    concat(entry_path, " not found: generate systemd-boot entries for this ESP first")
}

/// The refusal when `grub.cfg` lacks the checkpoint's entry.
pub fn missing_grub_entry(entry_id: &str, grub_cfg_path: &str) -> (r: String)
    ensures
        r@ == "no menuentry --id '"@ + entry_id@ + "' in "@ + grub_cfg_path@
            + ": generate GRUB entries first"@,
{
    let a = concat3("no menuentry --id '", entry_id, "' in ");
    concat3(a.as_str(), grub_cfg_path, ": generate GRUB entries first")
}

/// What `checkpoint` points the next boot at: the checkpoint `name`
/// names and its entry for the boot loader, or the refusal of a name that
/// names no checkpoint.
pub fn checkpoint_entry(name: &str, bootloader: crate::ctl::cli::Bootloader) -> (r: Result<(Checkpoint, String), String>)
    ensures
        match crate::semantics::checkpoint::checkpoint_named(name@) {
            Some(cp) => r is Ok && r->Ok_0.0 == cp && r->Ok_0.1@ == (match bootloader {
                crate::ctl::cli::Bootloader::SystemdBoot => systemd_entry_id(cp),
                crate::ctl::cli::Bootloader::Grub => grub_entry_id(cp),
            }),
            None => r is Err && r->Err_0@ == "invalid checkpoint value: "@ + name@,
        },
{
    match Checkpoint::parse_name(name) {
        Ok(cp) => {
            let id = match bootloader {
                crate::ctl::cli::Bootloader::SystemdBoot => systemd_entry_name(cp),
                crate::ctl::cli::Bootloader::Grub => grub_entry_name(cp),
            };
            Ok((cp, id))
        },
        Err(e) => Err(e.message()),
    }
}

/// What `checkpoint` reports once the default is set; for GRUB, that it
/// needs `GRUB_DEFAULT=saved`.
pub fn next_boot_message(cp: Checkpoint, entry_id: &str, bootloader: crate::ctl::cli::Bootloader) -> (r: String)
    ensures
        r@ == "next boot: "@ + checkpoint_name(cp) + " ("@ + entry_id@ + (match bootloader {
            crate::ctl::cli::Bootloader::SystemdBoot => ")"@,
            crate::ctl::cli::Bootloader::Grub => ") \u{2014} requires GRUB_DEFAULT=saved in this system's GRUB config"@,
        }),
{
    let mut r = concat3("next boot: ", cp.name(), " (");
    r.append(entry_id);
    match bootloader {
        crate::ctl::cli::Bootloader::SystemdBoot => r.append(")"),
        crate::ctl::cli::Bootloader::Grub => r.append(
            ") \u{2014} requires GRUB_DEFAULT=saved in this system's GRUB config",
        ),
    }
    r
}

} // verus!
