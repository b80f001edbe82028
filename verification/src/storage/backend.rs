//! The storage operations LayerFS needs regardless of the filesystem, and
//! the choice between the Btrfs and the plain-directory backends.
use vstd::prelude::*;

use crate::storage::error::{StorageError, StorageErrorView};
use crate::text::{join, join_path, join_sep, join_with, owned};

verus! {

/// Storage-level operations LayerFS needs regardless of the underlying
/// filesystem. Correctness (crash safety, atomic activation) must not
/// depend on any single implementation's specific behavior.
pub trait StorageBackend {
    /// Creates a new writable layer at `dest`, empty or cloned from `source`.
    fn prepare_layer(&self, dest: &str, source: Option<&str>) -> Result<(), StorageError>;

    /// Clones an existing layer into a new independent one.
    fn clone_layer(&self, source: &str, dest: &str) -> Result<(), StorageError>;

    /// Makes a staged layer read-only and eligible for activation.
    fn freeze_layer(&self, layer: &str) -> Result<(), StorageError>;

    /// Removes a layer no longer referenced by active or staged state.
    fn delete_layer(&self, layer: &str) -> Result<(), StorageError>;

    /// Atomically swaps the active state pointer to the given layer set.
    fn activate_state(&self, layers: &Vec<String>) -> Result<(), StorageError>;

    /// Performs a structural integrity check of a layer.
    fn verify_layer(&self, layer: &str) -> Result<(), StorageError>;
}

pub const BTRFS_SUPER_MAGIC: u32 = 0x9123_683e;

/// Which backend serves a store.
#[derive(Debug, Clone, Copy, PartialEq, Eq, Structural)]
pub enum BackendKind {
    Btrfs,
    Directory,
}

/// `BtrfsBackend` if the store (or its nearest existing ancestor) sits on
/// a filesystem whose `statfs` type is Btrfs's magic, else the
/// directory backend; a failed `statfs` counts as not Btrfs.
pub fn backend_for(f_type: Option<u32>) -> (r: BackendKind)
    ensures
        r == (if f_type == Some(BTRFS_SUPER_MAGIC) {
            BackendKind::Btrfs
        } else {
            BackendKind::Directory
        }),
{
    match f_type {
        Some(t) => if t == BTRFS_SUPER_MAGIC {
            BackendKind::Btrfs
        } else {
            BackendKind::Directory
        },
        None => BackendKind::Directory,
    }
}

/// Fallback backend for filesystems without native snapshotting (e.g.
/// ext4). A layer here is a plain directory, which is all the structure it
/// has, so the integrity check accepts it; the other operations are not
/// implemented yet, and each reports so.
pub struct DirectoryBackend {
    /// Path to `.layerfs-store`.
    pub root: String,
}

impl DirectoryBackend {
    pub fn new(root: &str) -> (r: Self)
        ensures
            r.root@ == root@,
    {
        DirectoryBackend { root: owned(root) }
    }
}

pub open spec fn not_implemented(r: Result<(), StorageError>, what: Seq<char>) -> bool {
    r matches Err(e) && e@ == StorageErrorView::NotImplemented(what)
}

impl StorageBackend for DirectoryBackend {
    fn prepare_layer(&self, dest: &str, source: Option<&str>) -> (r: Result<(), StorageError>)
        ensures
            not_implemented(r, "DirectoryBackend::prepare_layer"@),
    {
        Err(StorageError::NotImplemented("DirectoryBackend::prepare_layer"))
    }

    fn clone_layer(&self, source: &str, dest: &str) -> (r: Result<(), StorageError>)
        ensures
            not_implemented(r, "DirectoryBackend::clone_layer"@),
    {
        Err(StorageError::NotImplemented("DirectoryBackend::clone_layer"))
    }

    fn freeze_layer(&self, layer: &str) -> (r: Result<(), StorageError>)
        ensures
            not_implemented(r, "DirectoryBackend::freeze_layer"@),
    {
        Err(StorageError::NotImplemented("DirectoryBackend::freeze_layer"))
    }

    fn delete_layer(&self, layer: &str) -> (r: Result<(), StorageError>)
        ensures
            not_implemented(r, "DirectoryBackend::delete_layer"@),
    {
        Err(StorageError::NotImplemented("DirectoryBackend::delete_layer"))
    }

    fn activate_state(&self, layers: &Vec<String>) -> (r: Result<(), StorageError>)
        ensures
            not_implemented(r, "DirectoryBackend::activate_state"@),
    {
        Err(StorageError::NotImplemented("DirectoryBackend::activate_state"))
    }

    /// Layers reach this check once store discovery has found them to be
    /// directories; a directory layer has nothing more to check.
    fn verify_layer(&self, layer: &str) -> (r: Result<(), StorageError>)
        ensures
            r is Ok,
    {
        Ok(())
    }
}

/// Backend using Btrfs subvolumes and CoW snapshots for cheap cloning and
/// atomic-ish freeze/activate operations. Its operations run the `btrfs`
/// tool with the arguments below.
pub struct BtrfsBackend {
    /// Path to the `layerfs` subvolume root (e.g. `/mnt/btrfs-top/layerfs`).
    pub root: String,
}

/// One `btrfs` invocation.
#[derive(Debug, Clone, Copy, PartialEq, Eq, Structural)]
pub enum BtrfsOp {
    /// `subvolume create <dest>`.
    Create,
    /// `subvolume snapshot <source> <dest>`.
    Snapshot,
    /// `property set <layer> ro true`.
    Freeze,
    /// `property set <layer> ro false`.
    Thaw,
    /// `subvolume delete <layer>`.
    Delete,
    /// `subvolume show <layer>`.
    Show,
}

pub open spec fn btrfs_args_of(op: BtrfsOp, a: Seq<char>, b: Seq<char>) -> Seq<Seq<char>> {
    match op {
        BtrfsOp::Create => seq!["subvolume"@, "create"@, a],
        BtrfsOp::Snapshot => seq!["subvolume"@, "snapshot"@, a, b],
        BtrfsOp::Freeze => seq!["property"@, "set"@, a, "ro"@, "true"@],
        BtrfsOp::Thaw => seq!["property"@, "set"@, a, "ro"@, "false"@],
        BtrfsOp::Delete => seq!["subvolume"@, "delete"@, a],
        BtrfsOp::Show => seq!["subvolume"@, "show"@, a],
    }
}

impl BtrfsBackend {
    pub fn new(root: &str) -> (r: Self)
        ensures
            r.root@ == root@,
    {
        BtrfsBackend { root: owned(root) }
    }

    /// The arguments of a `btrfs` invocation on path `a` (and `b`, the
    /// snapshot's destination).
    pub fn args(op: BtrfsOp, a: &str, b: &str) -> (r: Vec<String>)
        ensures
            r.deep_view() == btrfs_args_of(op, a@, b@),
    {
        let r = match op {
            BtrfsOp::Create => vec![owned("subvolume"), owned("create"), owned(a)],
            BtrfsOp::Snapshot => vec![owned("subvolume"), owned("snapshot"), owned(a), owned(b)],
            BtrfsOp::Freeze => vec![owned("property"), owned("set"), owned(a), owned("ro"), owned("true")],
            BtrfsOp::Thaw => vec![owned("property"), owned("set"), owned(a), owned("ro"), owned("false")],
            BtrfsOp::Delete => vec![owned("subvolume"), owned("delete"), owned(a)],
            BtrfsOp::Show => vec![owned("subvolume"), owned("show"), owned(a)],
        };
        assert(r.deep_view() =~= btrfs_args_of(op, a@, b@));
        r
    }

    /// Activation writes the layer listing (one path per line) to
    /// `<root>/.active.tmp` and renames it over `<root>/.active`.
    pub fn activation(&self, layers: &Vec<String>) -> (r: (String, String, String))
        ensures
            r.0@ == join_sep(layers.deep_view(), "\n"@),
            r.1@ == join_path(self.root@, ".active.tmp"@),
            r.2@ == join_path(self.root@, ".active"@),
    {
        (join_with(layers, "\n"), join(self.root.as_str(), ".active.tmp"), join(self.root.as_str(), ".active"))
    }
}

} // verus!
