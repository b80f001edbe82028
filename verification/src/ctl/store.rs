//! Locating the store and naming its layers from the command line.
use vstd::prelude::*;

use crate::storage::discover::{DiscoveredStore, DiscoveredView, StorePresence, discover, discovered};
use crate::storage::error::storage_error_message;
use crate::text::{clone_opt, concat, concat3, eq_str, opt_chars, owned};

verus! {

/// Default store root when `--store` is not given: the transient mount
/// point the boot uses, where a running system exposes the backing store.
pub open spec fn default_store() -> Seq<char> {
    "/run/layerfs-store"@
}

pub fn resolve(store: &Option<String>) -> (r: String)
    ensures
        r@ == (match opt_chars(*store) {
            Some(s) => s,
            None => default_store(),
        }),
{
    match store {
        Some(s) => s.clone(),
        None => owned("/run/layerfs-store"),
    }
}

pub open spec fn discover_hint() -> Seq<char> {
    " (pass --store <path> to point at one)"@
}

/// The store under `store`, or the discovery error with a hint to pass
/// `--store`.
pub fn discover_layers(store: &str, present: StorePresence) -> (r: Result<DiscoveredStore, String>)
    ensures
        match (r, discovered(store@, present)) {
            (Ok(d), Ok(v)) => d@ == v,
            (Err(m), Err(e)) => m@ == storage_error_message(e) + discover_hint(),
            _ => false,
        },
{
    match discover(store, present) {
        Ok(d) => Ok(d),
        Err(e) => {
            let m = e.message();
            Err(concat(m.as_str(), " (pass --store <path> to point at one)"))
        },
    }
}

pub open spec fn or_absent(o: Option<Seq<char>>, what: Seq<char>) -> Result<Seq<char>, Seq<char>> {
    match o {
        Some(p) => Ok(p),
        None => Err(what),
    }
}

/// The path a CLI layer name stands for.
pub open spec fn named_layer(name: Seq<char>, d: DiscoveredView) -> Result<Seq<char>, Seq<char>> {
    if name == "base"@ {
        Ok(d.base)
    } else if name == "update"@ {
        or_absent(d.update, "no update layer present"@)
    } else if name == "update-head"@ {
        or_absent(d.update_head, "no update-head layer present"@)
    } else if name == "override"@ {
        or_absent(d.override_layer, "no override layer present"@)
    } else if name == "data"@ {
        or_absent(d.data, "no data store present"@)
    } else {
        Err(
            "unknown layer '"@ + name
                + "' (expected base, update, update-head, override, or data)"@,
        )
    }
}

fn present_or(o: &Option<String>, what: &str) -> (r: Result<String, String>)
    ensures
        match (r, or_absent(opt_chars(*o), what@)) {
            (Ok(a), Ok(b)) => a@ == b,
            (Err(a), Err(b)) => a@ == b,
            _ => false,
        },
{
    match o {
        Some(p) => Ok(p.clone()),
        None => Err(owned(what)),
    }
}

/// Resolves a layer name from CLI arguments to its discovered path.
pub fn layer_path(name: &str, discovered: &DiscoveredStore) -> (r: Result<String, String>)
    ensures
        match (r, named_layer(name@, discovered@)) {
            (Ok(a), Ok(b)) => a@ == b,
            (Err(a), Err(b)) => a@ == b,
            _ => false,
        },
{
    if eq_str(name, "base") {
        Ok(discovered.base.clone())
    } else if eq_str(name, "update") {
        present_or(&discovered.update, "no update layer present")
    } else if eq_str(name, "update-head") {
        present_or(&discovered.update_head, "no update-head layer present")
    } else if eq_str(name, "override") {
        present_or(&discovered.override_layer, "no override layer present")
    } else if eq_str(name, "data") {
        present_or(&discovered.data, "no data store present")
    } else {
        Err(
            concat3(
                "unknown layer '",
                name,
                "' (expected base, update, update-head, override, or data)",
            ),
        )
    }
}

/// The layer directly below `name` in the stack, used to classify diff
/// entries as added vs. modified: the nearest present lower layer. BASE
/// (and any other name) has nothing beneath it.
pub open spec fn below(name: Seq<char>, d: DiscoveredView) -> Option<Seq<char>> {
    if name == "override"@ {
        match d.update_head {
            Some(p) => Some(p),
            None => match d.update {
                Some(p) => Some(p),
                None => Some(d.base),
            },
        }
    } else if name == "update-head"@ {
        match d.update {
            Some(p) => Some(p),
            None => Some(d.base),
        }
    } else if name == "update"@ {
        Some(d.base)
    } else {
        None
    }
}

pub fn layer_below(name: &str, discovered: &DiscoveredStore) -> (r: Option<String>)
    ensures
        opt_chars(r) == below(name@, discovered@),
{
    if eq_str(name, "override") {
        match &discovered.update_head {
            Some(p) => Some(p.clone()),
            None => match &discovered.update {
                Some(p) => Some(p.clone()),
                None => Some(discovered.base.clone()),
            },
        }
    } else if eq_str(name, "update-head") {
        match &discovered.update {
            Some(p) => Some(p.clone()),
            None => Some(discovered.base.clone()),
        }
    } else if eq_str(name, "update") {
        Some(discovered.base.clone())
    } else {
        None
    }
}

/// The position of a layer in the stack, bottom up: BASE 0, UPDATE 1,
/// UPDATE_HEAD 2, OVERRIDE 3; any other name is in no position.
pub open spec fn stack_position(name: Seq<char>) -> int {
    if name == "base"@ {
        0
    } else if name == "update"@ {
        1
    } else if name == "update-head"@ {
        2
    } else if name == "override"@ {
        3
    } else {
        -1
    }
}

/// The layer the store has at a stack position, if any (BASE is always
/// there).
pub open spec fn layer_at(d: DiscoveredView, k: int) -> Option<Seq<char>> {
    if k == 0 {
        Some(d.base)
    } else if k == 1 {
        d.update
    } else if k == 2 {
        d.update_head
    } else if k == 3 {
        d.override_layer
    } else {
        None
    }
}

/// The layer below `name` is the nearest present one strictly beneath it
/// in the order OVERRIDE > UPDATE_HEAD > UPDATE > BASE: some present layer
/// at a lower position, with every position between the two empty. BASE,
/// and a name that is no layer, have nothing below.
pub proof fn below_is_the_nearest_present_lower_layer(name: Seq<char>, d: DiscoveredView)
    ensures
        stack_position(name) <= 0 ==> below(name, d) is None,
        stack_position(name) >= 1 ==> below(name, d) is Some && exists|k: int|
            0 <= k < stack_position(name) && #[trigger] layer_at(d, k) == below(name, d) && forall|j: int|
                k < j < stack_position(name) ==> layer_at(d, j) is None,
{
    reveal_strlit("base");
    reveal_strlit("update");
    reveal_strlit("update-head");
    reveal_strlit("override");
    assert("base"@.len() == 4 && "update"@.len() == 6 && "update-head"@.len() == 11 && "override"@.len() == 8);
    let n = stack_position(name);
    if n == 3 {
        assert(name == "override"@);
        if d.update_head is Some {
            assert(layer_at(d, 2) == below(name, d));
        } else if d.update is Some {
            assert(layer_at(d, 1) == below(name, d));
        } else {
            assert(layer_at(d, 0) == below(name, d));
        }
    } else if n == 2 {
        assert(name == "update-head"@);
        if d.update is Some {
            assert(layer_at(d, 1) == below(name, d));
        } else {
            assert(layer_at(d, 0) == below(name, d));
        }
    } else if n == 1 {
        assert(name == "update"@);
        assert(layer_at(d, 0) == below(name, d));
    }
}

} // verus!
