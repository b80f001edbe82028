//! Resolves `UUID=`/`LABEL=` device specs from each block device's Btrfs
//! superblock, since an `rdinit=` boot has no udev to make the symlinks.
use vstd::prelude::*;
use vstd::utf8::{decode_utf8, valid_utf8};

use crate::text::{eq_str, push_char};

verus! {

pub const SUPER_INFO_OFFSET: u64 = 0x10000;

pub const SUPER_INFO_SIZE: usize = 4096;

pub const MAGIC_OFFSET: usize = 64;

pub const FSID_OFFSET: usize = 32;

pub const FSID_LEN: usize = 16;

pub const LABEL_OFFSET: usize = 299;

pub const LABEL_LEN: usize = 256;

/// `_BHRfS_M`, the Btrfs superblock magic.
pub open spec fn btrfs_magic() -> Seq<u8> {
    seq![0x5fu8, 0x42u8, 0x48u8, 0x52u8, 0x66u8, 0x53u8, 0x5fu8, 0x4du8]
}

/// What `String::from_utf8_lossy` makes of `bytes`: the decoded text, with
/// U+FFFD in place of each invalid sequence.
pub uninterp spec fn lossy_utf8(bytes: Seq<u8>) -> Seq<char>;

/// `String::from_utf8_lossy`: valid UTF-8 decodes as it is; anything else
/// goes through the named result, whose replacement rules are not stated.
#[verifier::external_body]
pub(crate) fn utf8_lossy(bytes: &[u8]) -> (r: String)
    ensures
        r@ == lossy_utf8(bytes@),
        valid_utf8(bytes@) ==> r@ == decode_utf8(bytes@),
{
    String::from_utf8_lossy(bytes).into_owned()
}

/// The lower-case hex digit for `d < 16`.
pub open spec fn hex_digit(d: u8) -> char {
    if d < 10 {
        ((d + 48) as u8) as char
    } else {
        ((d + 87) as u8) as char
    }
}

pub open spec fn hex_byte(b: u8) -> Seq<char> {
    seq![hex_digit(b / 16), hex_digit(b % 16)]
}

/// `{:02x}` of each byte of `b[from..to]`, concatenated.
pub open spec fn hex_run(b: Seq<u8>, from: int, to: int) -> Seq<char>
    decreases to - from,
{
    if to <= from {
        seq![]
    } else {
        hex_run(b, from, to - 1) + hex_byte(b[to - 1])
    }
}

/// The standard 8-4-4-4-12 text form of 16 bytes.
pub open spec fn uuid_text(b: Seq<u8>) -> Seq<char> {
    hex_run(b, 0, 4) + seq!['-'] + hex_run(b, 4, 6) + seq!['-'] + hex_run(b, 6, 8) + seq!['-']
        + hex_run(b, 8, 10) + seq!['-'] + hex_run(b, 10, 16)
}

fn hex_char(d: u8) -> (r: char)
    requires
        d < 16,
    ensures
        r == hex_digit(d),
{
    if d < 10 {
        (d + 48) as char
    } else {
        (d + 87) as char
    }
}

fn push_hex_run(out: &mut String, b: &[u8], from: usize, to: usize)
    requires
        from <= to <= b@.len(),
    ensures
        final(out)@ == old(out)@ + hex_run(b@, from as int, to as int),
{
    let mut i = from;
    while i < to
        invariant
            from <= i <= to <= b@.len(),
            out@ == old(out)@ + hex_run(b@, from as int, i as int),
        decreases to - i,
    {
        let ghost before = out@;
        push_char(out, hex_char(b[i] / 16));
        push_char(out, hex_char(b[i] % 16));
        assert(hex_run(b@, from as int, i + 1) == hex_run(b@, from as int, i as int) + hex_byte(
            b@[i as int],
        ));
        assert(out@ =~= old(out)@ + hex_run(b@, from as int, i + 1));
        i += 1;
    }
}

/// Formats 16 UUID bytes as `xxxxxxxx-xxxx-xxxx-xxxx-xxxxxxxxxxxx`.
pub fn format_uuid(bytes: &[u8]) -> (r: String)
    requires
        bytes@.len() >= 16,
    ensures
        r@ == uuid_text(bytes@),
{
    let mut out = String::new();
    push_hex_run(&mut out, bytes, 0, 4);
    push_char(&mut out, '-');
    push_hex_run(&mut out, bytes, 4, 6);
    push_char(&mut out, '-');
    push_hex_run(&mut out, bytes, 6, 8);
    push_char(&mut out, '-');
    push_hex_run(&mut out, bytes, 8, 10);
    push_char(&mut out, '-');
    push_hex_run(&mut out, bytes, 10, 16);
    assert(out@ =~= uuid_text(bytes@));
    out
}

/// A Btrfs superblock: the block read at `SUPER_INFO_OFFSET` of a device,
/// known to carry the magic.
pub struct Superblock {
    block: Vec<u8>,
}

impl Superblock {
    pub closed spec fn bytes(&self) -> Seq<u8> {
        self.block@
    }

    #[verifier::type_invariant]
    closed spec fn wf(&self) -> bool {
        &&& self.block@.len() == SUPER_INFO_SIZE
        &&& self.block@.subrange(MAGIC_OFFSET as int, MAGIC_OFFSET + 8) == btrfs_magic()
    }

    /// The superblock a device's block holds: `None` unless the block has
    /// the full size and carries the magic.
    pub fn from_block(block: Vec<u8>) -> (r: Option<Superblock>)
        ensures
            match r {
                Some(sb) => sb.bytes() == block@,
                None => !(block@.len() == SUPER_INFO_SIZE && block@.subrange(
                    MAGIC_OFFSET as int,
                    MAGIC_OFFSET + 8,
                ) == btrfs_magic()),
            },
    {
        if block.len() != SUPER_INFO_SIZE {
            return None;
        }
        let magic: [u8; 8] = [0x5f, 0x42, 0x48, 0x52, 0x66, 0x53, 0x5f, 0x4d];
        let mut i: usize = 0;
        while i < 8
            invariant
                block@.len() == SUPER_INFO_SIZE,
                i <= 8,
                magic@ == btrfs_magic(),
                forall|k: int| 0 <= k < i ==> block@[MAGIC_OFFSET + k] == magic@[k],
            decreases 8 - i,
        {
            if block[MAGIC_OFFSET + i] != magic[i] {
                assert(block@.subrange(MAGIC_OFFSET as int, MAGIC_OFFSET + 8)[i as int]
                    != btrfs_magic()[i as int]);
                return None;
            }
            i += 1;
        }
        assert(block@.subrange(MAGIC_OFFSET as int, MAGIC_OFFSET + 8) =~= btrfs_magic());
        Some(Superblock { block })
    }

    /// The filesystem UUID, lower-case.
    pub fn uuid(&self) -> (r: String)
        ensures
            self.bytes().len() == SUPER_INFO_SIZE,
            r@ == uuid_text(self.bytes().subrange(FSID_OFFSET as int, FSID_OFFSET + FSID_LEN)),
    {
        proof {
            use_type_invariant(self);
        }
        let fsid = vstd::slice::slice_subrange(self.block.as_slice(), FSID_OFFSET, FSID_OFFSET + FSID_LEN);
        format_uuid(fsid)
    }

    /// The label: the label field up to its first NUL, decoded.
    pub fn label(&self) -> (r: String)
        ensures
            self.bytes().len() == SUPER_INFO_SIZE,
            r@ == lossy_utf8(label_bytes(self.bytes())),
    {
        proof {
            use_type_invariant(self);
        }
        let raw = vstd::slice::slice_subrange(self.block.as_slice(), LABEL_OFFSET, LABEL_OFFSET + LABEL_LEN);
        let mut end: usize = 0;
        while end < raw.len() && raw[end] != 0
            invariant
                raw@ == self.bytes().subrange(LABEL_OFFSET as int, LABEL_OFFSET + LABEL_LEN),
                end <= raw@.len(),
                forall|k: int| 0 <= k < end ==> raw@[k] != 0,
            decreases raw.len() - end,
        {
            end += 1;
        }
        let label = vstd::slice::slice_subrange(raw, 0, end);
        proof {
            let f = self.bytes().subrange(LABEL_OFFSET as int, LABEL_OFFSET + LABEL_LEN);
            assert(f == raw@);
            if end < raw@.len() {
                assert(first_zero(f, end as int));
            } else {
                assert(!exists|k: int| first_zero(f, k));
            }
            assert(label@ =~= label_bytes(self.bytes()));
        }
        utf8_lossy(label)
    }
}

/// `i` is the position of the first NUL in `s`.
pub open spec fn first_zero(s: Seq<u8>, i: int) -> bool {
    0 <= i < s.len() && s[i] == 0 && forall|k: int| 0 <= k < i ==> s[k] != 0
}

/// The label field, up to its first NUL (or all of it).
pub open spec fn label_bytes(block: Seq<u8>) -> Seq<u8> {
    let f = block.subrange(LABEL_OFFSET as int, LABEL_OFFSET + LABEL_LEN);
    if exists|i: int| first_zero(f, i) {
        f.take(choose|i: int| first_zero(f, i))
    } else {
        f
    }
}

/// A block device and the superblock read from it, if any.
pub struct ScannedDevice {
    pub path: String,
    pub superblock: Option<Superblock>,
}

/// The device has a superblock and it satisfies `matches`.
pub open spec fn device_matches(d: ScannedDevice, matches: spec_fn(Superblock) -> bool) -> bool {
    d.superblock matches Some(sb) && matches(sb)
}

/// Device `i` is the first scanned device whose superblock satisfies
/// `matches`.
pub open spec fn first_device_where(devs: Seq<ScannedDevice>, matches: spec_fn(Superblock) -> bool, i: int) -> bool {
    &&& 0 <= i < devs.len()
    &&& device_matches(devs[i], matches)
    &&& forall|j: int| 0 <= j < i ==> !device_matches(#[trigger] devs[j], matches)
}

pub open spec fn has_uuid(uuid: Seq<char>) -> spec_fn(Superblock) -> bool {
    |sb: Superblock| uuid_text(sb.bytes().subrange(FSID_OFFSET as int, FSID_OFFSET + FSID_LEN))
        == uuid.map_values(|c: char| crate::text::ascii_lower(c))
}

pub open spec fn has_label(label: Seq<char>) -> spec_fn(Superblock) -> bool {
    |sb: Superblock| lossy_utf8(label_bytes(sb.bytes())) == label
}

fn ascii_lowercase(s: &str) -> (r: String)
    ensures
        r@ == s@.map_values(|c: char| crate::text::ascii_lower(c)),
{
    let cs = crate::text::chars_of(s);
    let mut out = String::new();
    let mut i: usize = 0;
    while i < cs.len()
        invariant
            cs@ == s@,
            i <= cs@.len(),
            out@ == cs@.take(i as int).map_values(|c: char| crate::text::ascii_lower(c)),
        decreases cs.len() - i,
    {
        push_char(&mut out, crate::text::to_ascii_lower(cs[i]));
        assert(cs@.take(i + 1).map_values(|c: char| crate::text::ascii_lower(c)) =~= cs@.take(
            i as int,
        ).map_values(|c: char| crate::text::ascii_lower(c)).push(crate::text::ascii_lower(cs@[i as int])));
        i += 1;
    }
    assert(cs@.take(cs@.len() as int) =~= cs@);
    out
}

/// The first device (in scan order) whose filesystem UUID is `uuid`,
/// compared case-insensitively.
pub fn find_by_uuid(uuid: &str, devices: &Vec<ScannedDevice>) -> (r: Option<String>)
    ensures
        match r {
            Some(p) => exists|i: int| first_device_where(devices@, has_uuid(uuid@), i) && devices@[i].path@ == p@,
            None => forall|i: int| !first_device_where(devices@, has_uuid(uuid@), i),
        },
{
    let wanted = ascii_lowercase(uuid);
    let mut i: usize = 0;
    while i < devices.len()
        invariant
            wanted@ == uuid@.map_values(|c: char| crate::text::ascii_lower(c)),
            i <= devices@.len(),
            forall|j: int| 0 <= j < i ==> !device_matches(#[trigger] devices@[j], has_uuid(uuid@)),
        decreases devices.len() - i,
    {
        if let Some(sb) = &devices[i].superblock {
            let u = sb.uuid();
            if eq_str(u.as_str(), wanted.as_str()) {
                assert(first_device_where(devices@, has_uuid(uuid@), i as int));
                return Some(devices[i].path.clone());
            }
        }
        i += 1;
    }
    assert forall|k: int| !first_device_where(devices@, has_uuid(uuid@), k) by {
        if 0 <= k < devices@.len() {
        }
    }
    None
}

/// The first device (in scan order) whose filesystem label is `label`.
pub fn find_by_label(label: &str, devices: &Vec<ScannedDevice>) -> (r: Option<String>)
    ensures
        match r {
            Some(p) => exists|i: int| first_device_where(devices@, has_label(label@), i) && devices@[i].path@ == p@,
            None => forall|i: int| !first_device_where(devices@, has_label(label@), i),
        },
{
    let mut i: usize = 0;
    while i < devices.len()
        invariant
            i <= devices@.len(),
            forall|j: int| 0 <= j < i ==> !device_matches(#[trigger] devices@[j], has_label(label@)),
        decreases devices.len() - i,
    {
        if let Some(sb) = &devices[i].superblock {
            let l = sb.label();
            if eq_str(l.as_str(), label) {
                assert(first_device_where(devices@, has_label(label@), i as int));
                return Some(devices[i].path.clone());
            }
        }
        i += 1;
    }
    None
}

} // verus!
