//! Copying a layer subtree: what each entry becomes in the copy. Files,
//! directories (with their opacity), symlinks and whiteouts are copied;
//! anything else is refused.
use vstd::prelude::*;

use crate::text::concat3;

verus! {

/// The file type of an entry, as `symlink_metadata` reports it.
#[derive(Debug, Clone, Copy, PartialEq, Eq, Structural)]
pub struct FileMeta {
    pub is_dir: bool,
    pub is_symlink: bool,
    pub is_char_device: bool,
    pub rdev: u64,
    pub is_file: bool,
}

/// What the copy of an entry is made as.
#[derive(Debug, Clone, Copy, PartialEq, Eq, Structural)]
pub enum CopyStep {
    /// A new directory (marked opaque if the source is), then its entries.
    Directory,
    /// A symlink with the same target.
    Symlink,
    /// A whiteout.
    Whiteout,
    /// A copy of the file's contents.
    File,
}

pub open spec fn copy_step_of(m: FileMeta) -> Option<CopyStep> {
    if m.is_dir {
        Some(CopyStep::Directory)
    } else if m.is_symlink {
        Some(CopyStep::Symlink)
    } else if m.is_char_device && m.rdev == 0 {
        Some(CopyStep::Whiteout)
    } else if m.is_file {
        Some(CopyStep::File)
    } else {
        None
    }
}

pub open spec fn unsupported_message(src: Seq<char>) -> Seq<char> {
    "unsupported file type at "@ + src
        + ": DirectoryBackend only handles files, dirs, symlinks, and whiteouts"@
}

/// How the entry at `src` is copied, or the refusal of a file type the
/// copy does not handle (devices, sockets, pipes).
pub fn copy_step(src: &str, m: FileMeta) -> (r: Result<CopyStep, String>)
    ensures
        match copy_step_of(m) {
            Some(step) => r == Ok::<CopyStep, String>(step),
            None => r is Err && r->Err_0@ == unsupported_message(src@),
        },
{
    if m.is_dir {
        Ok(CopyStep::Directory)
    } else if m.is_symlink {
        Ok(CopyStep::Symlink)
    } else if crate::storage::whiteout::is_whiteout(m.is_char_device, m.rdev) {
        Ok(CopyStep::Whiteout)
    } else if m.is_file {
        Ok(CopyStep::File)
    } else {
        Err(
            concat3(
                "unsupported file type at ",
                src,
                ": DirectoryBackend only handles files, dirs, symlinks, and whiteouts",
            ),
        )
    }
}

} // verus!
