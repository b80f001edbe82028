//! The fixed `base/update/update-head/override/data/work` store layout.
use vstd::prelude::*;

use crate::storage::error::{StorageError, StorageErrorView};
use crate::text::{concat, join, join_path};

verus! {

/// Which of the store's layer directories exist under its root.
#[derive(Debug, Clone, Copy, PartialEq, Eq, Structural)]
pub struct StorePresence {
    pub base: bool,
    pub update: bool,
    pub update_head: bool,
    pub override_layer: bool,
    pub data: bool,
}

/// Result of scanning a store root for the layers it contains.
#[derive(Debug, Clone)]
pub struct DiscoveredStore {
    pub base: String,
    pub update: Option<String>,
    pub update_head: Option<String>,
    pub override_layer: Option<String>,
    /// Root of the persistent DATA store, if present. Contains the
    /// individual mount points listed in `data_mounts()` (e.g.
    /// `<data>/home`), not the assembled root's paths directly.
    pub data: Option<String>,
    /// Workdir for OverlayFS, required alongside any upperdir; it must live
    /// on the same filesystem as `override`.
    pub work: String,
}

/// `DiscoveredStore` with its paths taken as character sequences.
pub struct DiscoveredView {
    pub base: Seq<char>,
    pub update: Option<Seq<char>>,
    pub update_head: Option<Seq<char>>,
    pub override_layer: Option<Seq<char>>,
    pub data: Option<Seq<char>>,
    pub work: Seq<char>,
}

pub open spec fn opt_path(o: Option<String>) -> Option<Seq<char>> {
    match o {
        Some(s) => Some(s@),
        None => None,
    }
}

impl View for DiscoveredStore {
    type V = DiscoveredView;

    open spec fn view(&self) -> DiscoveredView {
        DiscoveredView {
            base: self.base@,
            update: opt_path(self.update),
            update_head: opt_path(self.update_head),
            override_layer: opt_path(self.override_layer),
            data: opt_path(self.data),
            work: self.work@,
        }
    }
}

pub open spec fn present_at(root: Seq<char>, name: Seq<char>, present: bool) -> Option<Seq<char>> {
    if present {
        Some(join_path(root, name))
    } else {
        None
    }
}

/// The store found under `root`, given which layer directories exist there:
/// BASE is required, every other layer is optional.
pub open spec fn discovered(root: Seq<char>, p: StorePresence) -> Result<DiscoveredView, StorageErrorView> {
    if !p.base {
        Err(StorageErrorView::Discovery("no base layer found under "@ + root))
    } else {
        Ok(
            DiscoveredView {
                base: join_path(root, "base"@),
                update: present_at(root, "update"@, p.update),
                update_head: present_at(root, "update-head"@, p.update_head),
                override_layer: present_at(root, "override"@, p.override_layer),
                data: present_at(root, "data"@, p.data),
                work: join_path(root, "work"@),
            },
        )
    }
}

fn present(root: &str, name: &str, is_dir: bool) -> (r: Option<String>)
    ensures
        opt_path(r) == present_at(root@, name@, is_dir),
{
    if is_dir {
        Some(join(root, name))
    } else {
        None
    }
}

/// Reads the fixed layout under `root`: `present` says which of
/// `base`, `update`, `update-head`, `override` and `data` are directories.
pub fn discover(root: &str, p: StorePresence) -> (r: Result<DiscoveredStore, StorageError>)
    ensures
        match r {
            Ok(d) => discovered(root@, p) == Ok::<DiscoveredView, StorageErrorView>(d@),
            Err(e) => discovered(root@, p) == Err::<DiscoveredView, StorageErrorView>(e@),
        },
{
    if !p.base {
        return Err(StorageError::Discovery(concat("no base layer found under ", root)));
    }
    Ok(
        DiscoveredStore {
            base: join(root, "base"),
            update: present(root, "update", p.update),
            update_head: present(root, "update-head", p.update_head),
            override_layer: present(root, "override", p.override_layer),
            data: present(root, "data", p.data),
            work: join(root, "work"),
        },
    )
}

} // verus!
