//! Crash-safe activation of rotating layers (UPDATE, UPDATE_HEAD) via
//! symlink indirection: `<store>/update` and `<store>/update-head` point
//! into `<store>/generations/`, and swapping a pointer is one `rename(2)`.
use vstd::prelude::*;

use crate::text::{concat, concat3, decimal, join, join_path, owned, push_decimal};

verus! {

/// `<store>/generations`, where generations are staged.
pub fn generations_dir(store_root: &str) -> (r: String)
    ensures
        r@ == join_path(store_root@, "generations"@),
{
    join(store_root, "generations")
}

/// The name of a fresh generation: `<prefix>-<nanos>-<seq>`, from the
/// clock and a per-process counter.
pub open spec fn generation_name(prefix: Seq<char>, nanos: nat, seq: nat) -> Seq<char> {
    prefix + seq!['-'] + decimal(nanos) + seq!['-'] + decimal(seq)
}

/// `<store>/generations/<prefix>-<nanos>-<seq>`: a not-yet-existing
/// directory for staging a new `prefix` generation.
pub fn generation_path(store_root: &str, prefix: &str, nanos: u128, seq: u64) -> (r: String)
    ensures
        r@ == join_path(join_path(store_root@, "generations"@), generation_name(prefix@, nanos as nat, seq as nat)),
{
    let mut name = owned(prefix);
    crate::text::push_char(&mut name, '-');
    push_decimal(&mut name, nanos);
    crate::text::push_char(&mut name, '-');
    push_decimal(&mut name, seq as u128);
    join(generations_dir(store_root).as_str(), name.as_str())
}

/// The pointer `<store>/<name>` and the temporary `<store>/.<name>.next`
/// built first and renamed over it, so that `<name>` is never absent.
pub fn activation_paths(store_root: &str, name: &str) -> (r: (String, String))
    ensures
        r.0@ == join_path(store_root@, name@),
        r.1@ == join_path(store_root@, "."@ + name@ + ".next"@),
{
    let link = join(store_root, name);
    let tmp_name = concat3(".", name, ".next");
    (link, join(store_root, tmp_name.as_str()))
}

/// What `<store>/<name>` currently points at, if it resolves to a
/// directory (a symlink or, for a hand-built store, a plain directory).
pub fn current(store_root: &str, name: &str, is_dir: bool) -> (r: Option<String>)
    ensures
        match r {
            Some(p) => is_dir && p@ == join_path(store_root@, name@),
            None => !is_dir,
        },
{
    if is_dir {
        Some(join(store_root, name))
    } else {
        None
    }
}

/// The decimal digits are `0`..`9`.
pub proof fn lemma_decimal_digits(n: nat)
    ensures
        decimal(n).len() >= 1,
        forall|i: int| 0 <= i < decimal(n).len() ==> 48 <= (#[trigger] decimal(n)[i]) as u32 <= 57,
    decreases n,
{
    if n >= 10 {
        lemma_decimal_digits(n / 10);
        let d = decimal(n / 10);
        assert forall|i: int| 0 <= i < decimal(n).len() implies 48 <= (#[trigger] decimal(n)[i]) as u32 <= 57 by {
            if i < d.len() {
                assert(decimal(n)[i] == d[i]);
            } else {
                lemma_digit_char(n % 10);
            }
        }
    } else {
        lemma_digit_char(n);
    }
}

proof fn lemma_digit_char(d: nat)
    requires
        d < 10,
    ensures
        crate::text::digit_char(d) as u32 == d + 48,
{
    let b: u8 = (d + 48) as u8;
    assert(b as int == d + 48);
    vstd::utf8::char_u32_cast(crate::text::digit_char(d), crate::text::digit_char(d) as u32);
}

/// Different numbers have different decimal forms.
pub proof fn lemma_decimal_injective(a: nat, b: nat)
    requires
        decimal(a) == decimal(b),
    ensures
        a == b,
    decreases a,
{
    lemma_decimal_digits(a / 10);
    lemma_decimal_digits(b / 10);
    if a < 10 && b < 10 {
        lemma_digit_char(a);
        lemma_digit_char(b);
        assert(decimal(a) == seq![crate::text::digit_char(a)]);
        assert(decimal(b) == seq![crate::text::digit_char(b)]);
        assert(seq![crate::text::digit_char(a)][0] == crate::text::digit_char(a));
        assert(seq![crate::text::digit_char(b)][0] == crate::text::digit_char(b));
        assert(crate::text::digit_char(a) == crate::text::digit_char(b));
    } else if a >= 10 && b >= 10 {
        let da = decimal(a);
        lemma_digit_char(a % 10);
        lemma_digit_char(b % 10);
        assert(da.last() == crate::text::digit_char(a % 10));
        assert(decimal(b).last() == crate::text::digit_char(b % 10));
        assert(da.drop_last() =~= decimal(a / 10));
        assert(decimal(b).drop_last() =~= decimal(b / 10));
        lemma_decimal_injective(a / 10, b / 10);
        assert(crate::text::digit_char(a % 10) == crate::text::digit_char(b % 10));
        assert(a % 10 == b % 10);
        assert(a == 10 * (a / 10) + a % 10);
        assert(b == 10 * (b / 10) + b % 10);
    } else {
        assert(decimal(a).len() != decimal(b).len());
    }
}

/// `Path::join` onto one base tells its relative arguments apart.
proof fn lemma_join_injective(base: Seq<char>, r1: Seq<char>, r2: Seq<char>)
    requires
        r1.len() > 0,
        r2.len() > 0,
        r1[0] == r2[0],
        join_path(base, r1) == join_path(base, r2),
    ensures
        r1 == r2,
{
    if !(r1[0] == '/') && base.len() > 0 {
        let k = join_path(base, r1).len() - r1.len();
        assert(join_path(base, r1).skip(k) =~= r1);
        assert(join_path(base, r2).skip(k) =~= r2);
    }
}

/// Two generations staged with different clock readings or counter values
/// get different paths.
pub proof fn generation_paths_are_distinct(root: Seq<char>, prefix: Seq<char>, n1: nat, s1: nat, n2: nat, s2: nat)
    requires
        n1 != n2 || s1 != s2,
    ensures
        join_path(join_path(root, "generations"@), generation_name(prefix, n1, s1)) != join_path(
            join_path(root, "generations"@),
            generation_name(prefix, n2, s2),
        ),
{
    let x1 = generation_name(prefix, n1, s1);
    let x2 = generation_name(prefix, n2, s2);
    let base = join_path(root, "generations"@);
    if join_path(base, x1) == join_path(base, x2) {
        lemma_decimal_digits(n1);
        lemma_decimal_digits(n2);
        lemma_decimal_digits(s1);
        lemma_decimal_digits(s2);
        assert(x1[0] == x2[0]) by {
            if prefix.len() > 0 {
                assert(x1[0] == prefix[0] && x2[0] == prefix[0]);
            } else {
                assert(x1[0] == '-' && x2[0] == '-');
            }
        }
        lemma_join_injective(base, x1, x2);
        let k: int = prefix.len() as int + 1;
        let t1 = decimal(n1) + seq!['-'] + decimal(s1);
        let t2 = decimal(n2) + seq!['-'] + decimal(s2);
        assert(x1.skip(k) =~= t1);
        assert(x2.skip(k) =~= t2);
        assert(t1 == t2);
        let l1 = decimal(n1).len();
        let l2 = decimal(n2).len();
        assert(l1 == l2) by {
            if l1 < l2 {
                assert(t1[l1 as int] == '-');
                assert(t2[l1 as int] == decimal(n2)[l1 as int]);
            } else if l2 < l1 {
                assert(t2[l2 as int] == '-');
                assert(t1[l2 as int] == decimal(n1)[l2 as int]);
            }
        }
        assert(t1.take(l1 as int) =~= decimal(n1));
        assert(t2.take(l1 as int) =~= decimal(n2));
        assert(t1.skip(l1 as int + 1) =~= decimal(s1));
        assert(t2.skip(l1 as int + 1) =~= decimal(s2));
        lemma_decimal_injective(n1, n2);
        lemma_decimal_injective(s1, s2);
    }
}

} // verus!
