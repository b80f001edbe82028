//! Boot artifact generations, mirroring the root's BASE/UPDATE/UPDATE_HEAD:
//! `base` is the factory-recovery kernel, `head` the newest, `update` the
//! one before it.
use vstd::prelude::*;

use crate::storage::generations::current;
use crate::text::{concat3, eq_str, is_prefix, join, join_path, opt_chars, owned, starts_with, string_of, chars_of};

verus! {

pub open spec fn kernel_filename() -> Seq<char> {
    "vmlinuz"@
}

pub open spec fn initramfs_filename() -> Seq<char> {
    "initramfs.img"@
}

#[derive(Debug, Clone, Default)]
pub struct BootArtifacts {
    pub base: Option<String>,
    pub update: Option<String>,
    pub head: Option<String>,
}

/// Which of `base`, `update` and `head` resolve to directories in the boot
/// store.
#[derive(Debug, Clone, Copy, PartialEq, Eq, Structural)]
pub struct BootPresence {
    pub base: bool,
    pub update: bool,
    pub head: bool,
}

pub open spec fn present_path(store: Seq<char>, name: Seq<char>, present: bool) -> Option<Seq<char>> {
    if present {
        Some(join_path(store, name))
    } else {
        None
    }
}

pub fn discover(boot_store: &str, p: BootPresence) -> (r: BootArtifacts)
    ensures
        opt_chars(r.base) == present_path(boot_store@, "base"@, p.base),
        opt_chars(r.update) == present_path(boot_store@, "update"@, p.update),
        opt_chars(r.head) == present_path(boot_store@, "head"@, p.head),
{
    BootArtifacts {
        base: current(boot_store, "base", p.base),
        update: current(boot_store, "update", p.update),
        head: current(boot_store, "head", p.head),
    }
}

/// The kernel and initramfs files of a registered generation.
pub fn artifact_files(generation: &str) -> (r: (String, String))
    ensures
        r.0@ == join_path(generation@, kernel_filename()),
        r.1@ == join_path(generation@, initramfs_filename()),
{
    (join(generation, "vmlinuz"), join(generation, "initramfs.img"))
}

/// A `boot/` entry: its file name and modification time.
pub struct BootEntry {
    pub name: String,
    pub modified: u128,
}

pub open spec fn is_kernel_name(name: Seq<char>) -> bool {
    is_prefix("vmlinuz-"@, name)
}

/// Entry `i` is the newest kernel: a `vmlinuz-*` entry modified no earlier
/// than any other, and the last such one when several tie.
pub open spec fn newest_kernel_at(es: Seq<BootEntry>, i: int) -> bool {
    &&& 0 <= i < es.len()
    &&& is_kernel_name(es[i].name@)
    &&& forall|j: int| 0 <= j < es.len() && is_kernel_name(#[trigger] es[j].name@) ==> es[j].modified <= es[i].modified
    &&& forall|j: int| i < j < es.len() && is_kernel_name(#[trigger] es[j].name@) ==> es[j].modified < es[i].modified
}

/// The newest `vmlinuz-<version>` entry (see `newest_kernel_at`), if any.
pub fn newest_kernel(entries: &Vec<BootEntry>) -> (r: Option<usize>)
    ensures
        match r {
            Some(i) => newest_kernel_at(entries@, i as int),
            None => forall|j: int| 0 <= j < entries@.len() ==> !is_kernel_name(#[trigger] entries@[j].name@),
        },
{
    let mut best: Option<usize> = None;
    let mut i: usize = 0;
    while i < entries.len()
        invariant
            i <= entries@.len(),
            match best {
                Some(b) => b < i && is_kernel_name(entries@[b as int].name@)
                    && (forall|j: int| 0 <= j < i && is_kernel_name(#[trigger] entries@[j].name@) ==> entries@[j].modified <= entries@[b as int].modified)
                    && (forall|j: int| b < j < i && is_kernel_name(#[trigger] entries@[j].name@) ==> entries@[j].modified < entries@[b as int].modified),
                None => forall|j: int| 0 <= j < i ==> !is_kernel_name(#[trigger] entries@[j].name@),
            },
        decreases entries.len() - i,
    {
        if starts_with(entries[i].name.as_str(), "vmlinuz-") {
            match best {
                Some(b) => {
                    if entries[i].modified >= entries[b].modified {
                        best = Some(i);
                    }
                },
                None => {
                    best = Some(i);
                },
            }
        }
        i += 1;
    }
    best
}

/// The initramfs that pairs with kernel `vmlinuz-<version>`:
/// `<boot>/initramfs-<version>.img`, next to `<boot>/vmlinuz-<version>`.
pub fn kernel_pair(boot_dir: &str, kernel_name: &str) -> (r: (String, String))
    requires
        is_kernel_name(kernel_name@),
    ensures
        r.0@ == join_path(boot_dir@, kernel_name@),
        r.1@ == join_path(boot_dir@, "initramfs-"@ + kernel_name@.skip(8) + ".img"@),
{
    let cs = chars_of(kernel_name);
    proof {
        reveal_strlit("vmlinuz-");
    }
    let version = string_of(&cs, 8, cs.len());
    assert(version@ =~= kernel_name@.skip(8));
    let file = concat3("initramfs-", version.as_str(), ".img");
    (join(boot_dir, kernel_name), join(boot_dir, file.as_str()))
}

} // verus!
