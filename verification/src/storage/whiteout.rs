//! OverlayFS whiteouts and opaque directories.
use vstd::prelude::*;

verus! {

/// An OverlayFS whiteout: a character device with major/minor 0,0,
/// recording that a path is deleted relative to lower layers.
pub fn is_whiteout(is_char_device: bool, rdev: u64) -> (r: bool)
    ensures
        r == (is_char_device && rdev == 0),
{
    is_char_device && rdev == 0
}

/// The `trusted.overlay.opaque` marker's value: a directory is opaque when
/// the attribute reads exactly `y`.
pub fn flag_is_set(value: &[u8]) -> (r: bool)
    ensures
        r == (value@ == seq![0x79u8]),
{
    if value.len() == 1 && value[0] == 0x79 {
        assert(value@ =~= seq![0x79u8]);
        true
    } else {
        false
    }
}

} // verus!
