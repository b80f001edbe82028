//! The core's layer merge: the same per-name merge as `storage::squash`
//! (`merge_plan`, `entry_step`), with every entry it copies kept whole —
//! its extended attributes, device nodes and hard links included.
use vstd::prelude::*;

use crate::storage::squash::not_a_directory;

verus! {

/// The file type of an entry, as `symlink_metadata` reports it.
#[derive(Debug, Clone, Copy, PartialEq, Eq, Structural)]
pub enum EntryKind {
    Directory,
    Symlink,
    File,
    CharDevice,
    BlockDevice,
    Fifo,
    Socket,
}

/// What the merge reads of an entry: its type, its device number (for
/// device nodes; a whiteout is the character device 0:0), and its inode
/// with the number of names it has.
#[derive(Debug, Clone, Copy, PartialEq, Eq, Structural)]
pub struct EntryMeta {
    pub kind: EntryKind,
    pub rdev: u64,
    pub dev: u64,
    pub ino: u64,
    pub nlink: u64,
}

/// How an entry is kept in the merged layer. Every fresh copy keeps the
/// entry's permission bits and all of its extended attributes — the
/// overlay's opaque marker and file capabilities (`security.capability`)
/// among them.
#[derive(Debug)]
pub enum KeptCopy {
    /// A new directory; its entries follow.
    Directory,
    /// A symlink with the same target.
    Symlink,
    /// A file with the same contents.
    File,
    /// A node of the same type and device number: a device node, a FIFO,
    /// a socket, or a whiteout (the character device 0:0).
    Node { kind: EntryKind, rdev: u64 },
    /// Another name of an inode already copied: a hard link to that copy.
    Link(String),
}

pub enum KeptCopyView {
    Directory,
    Symlink,
    File,
    Node { kind: EntryKind, rdev: u64 },
    Link(Seq<char>),
}

impl View for KeptCopy {
    type V = KeptCopyView;

    open spec fn view(&self) -> KeptCopyView {
        match self {
            KeptCopy::Directory => KeptCopyView::Directory,
            KeptCopy::Symlink => KeptCopyView::Symlink,
            KeptCopy::File => KeptCopyView::File,
            KeptCopy::Node { kind, rdev } => KeptCopyView::Node { kind: *kind, rdev: *rdev },
            KeptCopy::Link(p) => KeptCopyView::Link(p@),
        }
    }
}

/// Where the first copy of inode `(dev, ino)` was made, if one was.
pub open spec fn first_copy(seen: Seq<(u64, u64, Seq<char>)>, dev: u64, ino: u64) -> Option<Seq<char>>
    decreases seen.len(),
{
    if seen.len() == 0 {
        None
    } else {
        match first_copy(seen.drop_last(), dev, ino) {
            Some(p) => Some(p),
            None => if seen.last().0 == dev && seen.last().1 == ino {
                Some(seen.last().2)
            } else {
                None
            },
        }
    }
}

/// An entry whose inode may have other names: anything but a directory
/// with more than one link.
pub open spec fn shared_inode(m: EntryMeta) -> bool {
    m.kind != EntryKind::Directory && m.nlink > 1
}

/// How an entry is kept, given where the inodes copied so far went: a
/// further name of an already copied inode becomes a hard link to that
/// copy; anything else is copied fresh as what it is. No file type is
/// refused.
pub open spec fn kept_copy_of(m: EntryMeta, seen: Seq<(u64, u64, Seq<char>)>) -> KeptCopyView {
    if shared_inode(m) && first_copy(seen, m.dev, m.ino) is Some {
        KeptCopyView::Link(first_copy(seen, m.dev, m.ino)->Some_0)
    } else {
        match m.kind {
            EntryKind::Directory => KeptCopyView::Directory,
            EntryKind::Symlink => KeptCopyView::Symlink,
            EntryKind::File => KeptCopyView::File,
            _ => KeptCopyView::Node { kind: m.kind, rdev: m.rdev },
        }
    }
}

/// The inodes copied so far, after the entry `m` was kept at `dest`: a
/// fresh copy of a shared inode is remembered; nothing else is.
pub open spec fn after_copy(seen: Seq<(u64, u64, Seq<char>)>, m: EntryMeta, dest: Seq<char>) -> Seq<
    (u64, u64, Seq<char>),
> {
    if shared_inode(m) && first_copy(seen, m.dev, m.ino) is None {
        seen.push((m.dev, m.ino, dest))
    } else {
        seen
    }
}

/// The copies made so far of inodes with more than one name.
pub struct LinkTable {
    seen: Vec<(u64, u64, String)>,
}

impl View for LinkTable {
    type V = Seq<(u64, u64, Seq<char>)>;

    closed spec fn view(&self) -> Seq<(u64, u64, Seq<char>)> {
        self.seen@.map_values(|e: (u64, u64, String)| (e.0, e.1, e.2@))
    }
}

impl LinkTable {
    pub fn new() -> (r: LinkTable)
        ensures
            r@ == Seq::<(u64, u64, Seq<char>)>::empty(),
    {
        let r = LinkTable { seen: Vec::new() };
        assert(r@ =~= Seq::<(u64, u64, Seq<char>)>::empty());
        r
    }

    fn lookup(&self, dev: u64, ino: u64) -> (r: Option<String>)
        ensures
            match r {
                Some(p) => first_copy(self@, dev, ino) == Some(p@),
                None => first_copy(self@, dev, ino) is None,
            },
    {
        let mut i: usize = 0;
        while i < self.seen.len()
            invariant
                i <= self.seen.len(),
                self@.len() == self.seen.len(),
                first_copy(self@.take(i as int), dev, ino) is None,
            decreases self.seen.len() - i,
        {
            proof {
                assert(self@.take(i + 1).drop_last() =~= self@.take(i as int));
                assert(self@.take(i + 1).last() == self@[i as int]);
            }
            if self.seen[i].0 == dev && self.seen[i].1 == ino {
                proof {
                    self.lemma_first_copy_prefix(dev, ino, i as int + 1);
                }
                return Some(self.seen[i].2.clone());
            }
            i += 1;
        }
        assert(self@.take(i as int) =~= self@);
        None
    }

    proof fn lemma_first_copy_prefix(&self, dev: u64, ino: u64, k: int)
        requires
            0 < k <= self@.len(),
            first_copy(self@.take(k), dev, ino) is Some,
        ensures
            first_copy(self@, dev, ino) == first_copy(self@.take(k), dev, ino),
        decreases self@.len() - k,
    {
        if k < self@.len() {
            assert(self@.take(k + 1).drop_last() =~= self@.take(k));
            self.lemma_first_copy_prefix(dev, ino, k + 1);
        } else {
            assert(self@.take(k) =~= self@);
        }
    }

    /// How the entry `m` is to be kept (see `kept_copy_of`).
    pub fn kept_copy(&self, m: EntryMeta) -> (r: KeptCopy)
        ensures
            r@ == kept_copy_of(m, self@),
    {
        if m.kind != EntryKind::Directory && m.nlink > 1 {
            if let Some(p) = self.lookup(m.dev, m.ino) {
                return KeptCopy::Link(p);
            }
        }
        match m.kind {
            EntryKind::Directory => KeptCopy::Directory,
            EntryKind::Symlink => KeptCopy::Symlink,
            EntryKind::File => KeptCopy::File,
            _ => KeptCopy::Node { kind: m.kind, rdev: m.rdev },
        }
    }

    /// Notes that the entry `m` was kept at `dest` (see `after_copy`).
    pub fn copied(&mut self, m: EntryMeta, dest: &str)
        ensures
            final(self)@ == after_copy(old(self)@, m, dest@),
    {
        if m.kind != EntryKind::Directory && m.nlink > 1 {
            if self.lookup(m.dev, m.ino).is_none() {
                let ghost before = self@;
                self.seen.push((m.dev, m.ino, dest.to_owned()));
                assert(self@ =~= before.push((m.dev, m.ino, dest@)));
            }
        }
    }
}

/// Hard links stay hard links: once one name of a multiply linked inode
/// has been copied fresh to `dest`, every later name of the same inode is
/// kept as a hard link to `dest`, whatever else was copied in between.
pub proof fn hard_links_stay_linked(
    seen: Seq<(u64, u64, Seq<char>)>,
    m: EntryMeta,
    dest: Seq<char>,
    between: Seq<(u64, u64, Seq<char>)>,
    other: EntryMeta,
)
    requires
        shared_inode(m),
        shared_inode(other),
        first_copy(seen, m.dev, m.ino) is None,
        other.dev == m.dev,
        other.ino == m.ino,
    ensures
        !(kept_copy_of(m, seen) is Link),
        kept_copy_of(other, after_copy(seen, m, dest) + between) == KeptCopyView::Link(dest),
    decreases between.len(),
{
    let s1 = after_copy(seen, m, dest);
    assert(s1 == seen.push((m.dev, m.ino, dest)));
    assert(s1.drop_last() =~= seen);
    assert(first_copy(s1, m.dev, m.ino) == Some(dest));
    if between.len() > 0 {
        hard_links_stay_linked(seen, m, dest, between.drop_last(), other);
        assert((s1 + between).drop_last() =~= s1 + between.drop_last());
    } else {
        assert(s1 + between =~= s1);
    }
}

/// Nothing is refused and nothing changes type: every entry is kept as
/// what it is — a directory, symlink or file as such, any other node with
/// its type and device number — unless it is a further name of an inode
/// already copied, which is kept as a link to that copy.
pub proof fn every_entry_is_kept_as_itself(m: EntryMeta, seen: Seq<(u64, u64, Seq<char>)>)
    ensures
        kept_copy_of(m, seen) is Link <==> (shared_inode(m) && first_copy(seen, m.dev, m.ino) is Some),
        !(kept_copy_of(m, seen) is Link) ==> match m.kind {
            EntryKind::Directory => kept_copy_of(m, seen) == KeptCopyView::Directory,
            EntryKind::Symlink => kept_copy_of(m, seen) == KeptCopyView::Symlink,
            EntryKind::File => kept_copy_of(m, seen) == KeptCopyView::File,
            _ => kept_copy_of(m, seen) == KeptCopyView::Node { kind: m.kind, rdev: m.rdev },
        },
{
}

/// Deterministically merges lower layer `a` and upper layer `b` into a
/// single layer, producing the same view as mounting `b` over `a`. The
/// merge may start only when both are directories; the first that is not
/// is named in the error.
///
/// Which name lands how is decided by `storage::squash` (`merge_plan`,
/// `entry_step`): whiteouts and opaque directories of `b` are kept, so the
/// result still hides what lies below it. Every entry copied is kept whole
/// by `LinkTable::kept_copy`: device nodes, FIFOs and sockets as nodes of
/// the same type and number, symlinks with their targets, and every
/// extended attribute (file capabilities among them) with the mode; hard
/// links stay hard links (`hard_links_stay_linked`). With each entry so
/// kept whole, a `File(x)` of the merge model in `storage::squash` stands
/// for all of the entry, and `squash_shows_upper_over_lower` there proves
/// that the merged layer shows exactly what the mount shows.
pub fn squash(a: &str, a_is_dir: bool, b: &str, b_is_dir: bool) -> (r: Result<(), String>)
    ensures
        a_is_dir && b_is_dir <==> r is Ok,
        !a_is_dir ==> r is Err && r->Err_0@ == not_a_directory(a@),
        a_is_dir && !b_is_dir ==> r is Err && r->Err_0@ == not_a_directory(b@),
{
    crate::storage::squash::squash(a, a_is_dir, b, b_is_dir)
}

} // verus!
