//! OverlayFS's "lower layers fully shadowed here" marker on directories.
//! Reading and writing the extended attribute is left to the caller; this
//! module says what the attribute is called, what is written, and what a
//! read of it means.
use vstd::prelude::*;

use crate::storage::whiteout::flag_is_set;

verus! {

/// The extended attribute that marks a directory opaque.
pub open spec fn opaque_xattr() -> Seq<char> {
    "trusted.overlay.opaque"@
}

/// The value that sets a boolean-style attribute.
pub open spec fn flag_value() -> Seq<u8> {
    seq![0x79u8]
}

/// What reading an extended attribute into an 8-byte buffer gave.
#[derive(Debug)]
pub enum XattrRead {
    /// The attribute's value.
    Value(Vec<u8>),
    /// `ENODATA`: the attribute is not set.
    Missing,
    /// `ENOTSUP`: the filesystem has no extended attributes of this kind.
    Unsupported,
    /// Any other failure, by its `errno`.
    Failed(i32),
}

/// The meaning of a read of the opaque marker: set exactly when its value
/// is `y`; absent or unsupported reads as not set; other failures are
/// passed on.
pub open spec fn read_meaning(read: XattrRead) -> Result<bool, i32> {
    match read {
        XattrRead::Value(v) => Ok(v@ == flag_value()),
        XattrRead::Missing => Ok(false),
        XattrRead::Unsupported => Ok(false),
        XattrRead::Failed(e) => Err(e),
    }
}

/// Whether a directory is opaque, from the read of its marker.
pub fn is_opaque(read: XattrRead) -> (r: Result<bool, i32>)
    ensures
        r == read_meaning(read),
{
    match read {
        XattrRead::Value(v) => Ok(flag_is_set(v.as_slice())),
        XattrRead::Missing => Ok(false),
        XattrRead::Unsupported => Ok(false),
        XattrRead::Failed(e) => Err(e),
    }
}

/// An extended attribute to set.
#[derive(Debug)]
pub struct XattrWrite {
    pub name: String,
    pub value: Vec<u8>,
}

/// The attribute write that marks a directory opaque.
pub fn mark_opaque() -> (w: XattrWrite)
    ensures
        w.name@ == opaque_xattr(),
        w.value@ == flag_value(),
{
    let name = crate::text::owned("trusted.overlay.opaque");
    let mut value: Vec<u8> = Vec::new();
    value.push(0x79u8);
    proof {
        reveal_strlit("trusted.overlay.opaque");
        assert(value@ =~= flag_value());
    }
    XattrWrite { name, value }
}

/// A directory marked opaque reads back as opaque: reading the attribute
/// that `mark_opaque` writes gives `Ok(true)`.
pub proof fn marked_reads_opaque(v: Vec<u8>)
    requires
        v@ == flag_value(),
    ensures
        read_meaning(XattrRead::Value(v)) == Ok::<bool, i32>(true),
{
}

} // verus!
