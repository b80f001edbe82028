//! The provider-neutral boot mount ownership handoff: the mount paths that
//! later storage policy must not manage, as a small TOML document.
use vstd::prelude::*;

use crate::text::{concat3, join, join_path, owned};

verus! {

/// `<root>/etc/diskd/boot-mounts.toml`.
pub fn claims_path(root: &str) -> (r: String)
    ensures
        r@ == join_path(root@, "etc/diskd/boot-mounts.toml"@),
{
    join(root, "etc/diskd/boot-mounts.toml")
}

/// A mount path can be written as a TOML basic string without escapes:
/// it holds no newline, carriage return, NUL, quote or backslash.
pub open spec fn representable(p: Seq<char>) -> bool {
    forall|i: int|
        0 <= i < p.len() ==> {
            let c = #[trigger] p[i];
            c != '\n' && c != '\r' && c != '\0' && c != '"' && c != '\\'
        }
}

/// One `[[mount]]` table of the document.
pub open spec fn mount_table(p: Seq<char>) -> Seq<char> {
    "\n[[mount]]\npath = \""@ + p + "\"\n"@
}

/// The document: the version line, then one table per path in order.
pub open spec fn claims_document(paths: Seq<Seq<char>>) -> Seq<char>
    decreases paths.len(),
{
    if paths.len() == 0 {
        "version = 1\n"@
    } else {
        claims_document(paths.drop_last()) + mount_table(paths.last())
    }
}

pub open spec fn all_representable(paths: Seq<Seq<char>>) -> bool {
    forall|i: int| 0 <= i < paths.len() ==> representable(#[trigger] paths[i])
}

fn is_representable(p: &str) -> (r: bool)
    ensures
        r == representable(p@),
{
    let cs = crate::text::chars_of(p);
    let mut i: usize = 0;
    while i < cs.len()
        invariant
            cs@ == p@,
            i <= cs@.len(),
            forall|k: int|
                0 <= k < i ==> {
                    let c = #[trigger] cs@[k];
                    c != '\n' && c != '\r' && c != '\0' && c != '"' && c != '\\'
                },
        decreases cs.len() - i,
    {
        let c = cs[i];
        if c == '\n' || c == '\r' || c == '\0' || c == '"' || c == '\\' {
            return false;
        }
        i += 1;
    }
    true
}

/// The claims document for `paths` (already checked to be UTF-8), or the
/// refusal of a path that cannot be represented safely.
pub fn write(paths: &Vec<String>) -> (r: Result<String, String>)
    ensures
        r is Ok <==> all_representable(paths.deep_view()),
        r is Ok ==> r->Ok_0@ == claims_document(paths.deep_view()),
        r is Err ==> r->Err_0@ == "mount path cannot be represented safely"@,
{
    let ghost pv = paths.deep_view();
    let mut doc = owned("version = 1\n");
    proof {
        reveal_strlit("version = 1\n");
        assert(pv.take(0) =~= Seq::<Seq<char>>::empty());
    }
    let mut i: usize = 0;
    while i < paths.len()
        invariant
            pv == paths.deep_view(),
            i <= pv.len(),
            all_representable(pv.take(i as int)),
            doc@ == claims_document(pv.take(i as int)),
        decreases paths.len() - i,
    {
        assert(pv[i as int] == paths@[i as int]@);
        if !is_representable(paths[i].as_str()) {
            proof {
                assert(!representable(pv[i as int]));
            }
            let e = owned("mount path cannot be represented safely");
            proof {
                reveal_strlit("mount path cannot be represented safely");
            }
            return Err(e);
        }
        let table = concat3("\n[[mount]]\npath = \"", paths[i].as_str(), "\"\n");
        doc.append(table.as_str());
        proof {
            let t = pv.take(i + 1);
            assert(t.drop_last() =~= pv.take(i as int));
            assert(t.last() == pv[i as int]);
            assert(all_representable(t)) by {
                assert forall|k: int| 0 <= k < t.len() implies representable(#[trigger] t[k]) by {
                    if k < i {
                        assert(t[k] == pv.take(i as int)[k]);
                    }
                }
            }
        }
        i += 1;
    }
    assert(pv.take(pv.len() as int) =~= pv);
    Ok(doc)
}

} // verus!
