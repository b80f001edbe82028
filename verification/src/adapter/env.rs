//! The environment variable that overrides an adapter's real binary.
use vstd::prelude::*;

use crate::text::push_char;

verus! {

/// What std's `str::to_uppercase` returns for `s`: the Unicode uppercase
/// mapping of each character, which may change the length.
pub uninterp spec fn unicode_uppercase(s: Seq<char>) -> Seq<char>;

/// std's `str::to_uppercase`. Its result is a function of `s` alone
/// (Unicode's uppercase mapping, with no locale); what that mapping is for
/// each character is not stated here.
#[verifier::external_body]
fn to_uppercase(s: &str) -> (r: String)
    ensures
        r@ == unicode_uppercase(s@),
{
    s.to_uppercase()
}

/// `s` with every `-` replaced by `_`.
pub open spec fn dashes_to_underscores(s: Seq<char>) -> Seq<char> {
    s.map_values(|c: char| if c == '-' { '_' } else { c })
}

/// `LAYERFS_<UPPER>_BIN`, for a name already in upper case, with its
/// dashes turned into underscores.
pub open spec fn env_var_name(upper: Seq<char>) -> Seq<char> {
    "LAYERFS_"@ + dashes_to_underscores(upper) + "_BIN"@
}

/// The variable name for an adapter whose name, upper-cased, is `upper`.
pub fn env_var_for_upper(upper: &str) -> (r: String)
    ensures
        r@ == env_var_name(upper@),
{
    let mut r = crate::text::owned("LAYERFS_");
    let ghost start = r@;
    let mut it_count: usize = 0;
    let chars = crate::text::chars_of(upper);
    while it_count < chars.len()
        invariant
            chars@ == upper@,
            it_count <= chars@.len(),
            r@ == start + dashes_to_underscores(chars@.take(it_count as int)),
        decreases chars.len() - it_count,
    {
        let c = chars[it_count];
        let d = if c == '-' {
            '_'
        } else {
            c
        };
        push_char(&mut r, d);
        assert(dashes_to_underscores(chars@.take(it_count + 1)) =~= dashes_to_underscores(
            chars@.take(it_count as int),
        ).push(d));
        it_count += 1;
    }
    assert(chars@.take(chars@.len() as int) =~= chars@);
    r.append("_BIN");
    proof {
        reveal_strlit("LAYERFS_");
        reveal_strlit("_BIN");
    }
    r
}

/// `"dnf"` -> `"LAYERFS_DNF_BIN"`: the variable that, when set, names the
/// real binary an adapter runs.
pub fn bin_env_var(name: &str) -> (r: String)
    ensures
        r@ == env_var_name(unicode_uppercase(name@)),
{
    let upper = to_uppercase(name);
    env_var_for_upper(upper.as_str())
}

} // verus!
