//! Unlocking an encrypted store device with `cryptsetup`.
use vstd::prelude::*;

use crate::text::{concat, owned};

verus! {

/// The device-mapper name the unlocked store appears under.
pub open spec fn mapper_name() -> Seq<char> {
    "layerfs-crypt"@
}

/// The arguments of `cryptsetup luksOpen <device> layerfs-crypt
/// [--key-file <key>]`.
pub open spec fn unlock_arguments(device: Seq<char>, key_file: Option<Seq<char>>) -> Seq<Seq<char>> {
    let head = seq!["luksOpen"@, device, mapper_name()];
    match key_file {
        Some(k) => head + seq!["--key-file"@, k],
        None => head,
    }
}

/// The `cryptsetup` arguments that unlock `device`.
pub fn unlock_args(device: &str, key_file: Option<&str>) -> (r: Vec<String>)
    ensures
        r.deep_view() == unlock_arguments(
            device@,
            match key_file {
                Some(k) => Some(k@),
                None => None,
            },
        ),
{
    let mut r: Vec<String> = Vec::new();
    r.push(owned("luksOpen"));
    r.push(owned(device));
    r.push(owned("layerfs-crypt"));
    match key_file {
        Some(k) => {
            r.push(owned("--key-file"));
            r.push(owned(k));
        },
        None => {},
    }
    proof {
        reveal_strlit("luksOpen");
        reveal_strlit("layerfs-crypt");
        reveal_strlit("--key-file");
    }
    assert(r.deep_view() =~= unlock_arguments(
        device@,
        match key_file {
            Some(k) => Some(k@),
            None => None,
        },
    ));
    r
}

/// Where the unlocked device appears: `/dev/mapper/layerfs-crypt`.
pub fn mapper_path() -> (r: String)
    ensures
        r@ == "/dev/mapper/"@ + mapper_name(),
{
    let r = owned("/dev/mapper/layerfs-crypt");
    proof {
        reveal_strlit("/dev/mapper/layerfs-crypt");
        reveal_strlit("/dev/mapper/");
        reveal_strlit("layerfs-crypt");
        assert("/dev/mapper/layerfs-crypt"@ =~= "/dev/mapper/"@ + "layerfs-crypt"@);
    }
    r
}

/// `cryptsetup luksOpen <device>: <status>`, when the unlock failed.
pub fn unlock_failure(device: &str, status: &str) -> (r: String)
    ensures
        r@ == "cryptsetup luksOpen "@ + device@ + ": "@ + status@,
{
    let mut r = concat("cryptsetup luksOpen ", device);
    r.append(": ");
    r.append(status);
    r
}

} // verus!
