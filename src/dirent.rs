use vstd::prelude::*;

use crate::bpb::{le16, read_le16, ClusterNumber, DIR_ENTRY_SIZE};
use crate::namebuf::{name_bytes, name_new, name_push, NameBuf};

verus! {

/// Little-endian 32-bit value stored at `b[i]` .. `b[i + 3]`.
pub open spec fn le32(b: Seq<u8>, i: int) -> int {
    le16(b, i) + le16(b, i + 2) * 65536
}

/// Marks a deleted record when it is the first byte of the basename.
pub const DELETED_MARKER: u8 = 0xe5;

/// Marks the end of a directory when it is the first byte of the basename.
pub const END_MARKER: u8 = 0x00;

/// The attribute bits of a directory record.
#[derive(Debug, Clone, Copy, PartialEq, Eq, Structural)]
pub struct Attributes {
    pub bits: u8,
}

pub const READ_ONLY: u8 = 0x01;
pub const HIDDEN: u8 = 0x02;
pub const SYSTEM: u8 = 0x04;
pub const VOLUME_ID: u8 = 0x08;
pub const DIRECTORY: u8 = 0x10;
pub const ARCHIVE: u8 = 0x20;

/// Every attribute bit that has a meaning.
pub const ALL_ATTRIBUTES: u8 = 0x3f;

impl Attributes {
    /// Keeps the bits that name an attribute and drops the others.
    pub fn from_bits_truncate(bits: u8) -> (r: Attributes)
        ensures
            r.bits == bits & ALL_ATTRIBUTES,
    {
        Attributes { bits: bits & ALL_ATTRIBUTES }
    }

    /// Whether every bit of `flags` is set here.
    pub fn contains(&self, flags: u8) -> (r: bool)
        ensures
            r == (self.bits & flags == flags),
    {
        self.bits & flags == flags
    }
}

/// A 32-byte on-disk directory record, decoded field by field.
#[derive(Debug, Clone, Copy)]
pub struct RawDirEntry {
    pub basename: [u8; 8],
    pub extension: [u8; 3],
    pub attributes: u8,
    pub reserved: u8,
    pub create_tenths: u8,
    pub create_time: u16,
    pub create_date: u16,
    pub access_date: u16,
    pub cluster_hi: u16,
    pub modify_time: u16,
    pub modify_date: u16,
    pub cluster_lo: u16,
    pub size: u32,
}

/// ASCII lowercase of one byte.
pub open spec fn lower(b: u8) -> u8 {
    if 0x41 <= b <= 0x5a {
        (b + 0x20) as u8
    } else {
        b
    }
}

pub open spec fn lower_seq(s: Seq<u8>) -> Seq<u8> {
    s.map_values(|b: u8| lower(b))
}

/// `s` without its trailing spaces.
pub open spec fn trim_spaces(s: Seq<u8>) -> Seq<u8>
    decreases s.len(),
{
    if s.len() > 0 && s.last() == 0x20 {
        trim_spaces(s.drop_last())
    } else {
        s
    }
}

/// The display name of a short (8.3) name: lowercase, without padding, the
/// extension joined with a dot when there is one.
pub open spec fn display_name(basename: Seq<u8>, extension: Seq<u8>) -> Seq<u8> {
    let base = trim_spaces(lower_seq(basename));
    if extension[0] != 0x20 {
        base + seq![0x2eu8] + trim_spaces(lower_seq(extension))
    } else {
        base
    }
}

pub fn to_ascii_lower(b: u8) -> (r: u8)
    ensures
        r == lower(b),
{
    if 0x41 <= b && b <= 0x5a {
        b + 0x20
    } else {
        b
    }
}

/// The bytes lowercased, trailing spaces removed.
fn lowered_trimmed(bytes: &[u8]) -> (r: Vec<u8>)
    ensures
        r@ == trim_spaces(lower_seq(bytes@)),
{
    let mut v: Vec<u8> = Vec::new();
    let mut i: usize = 0;
    while i < bytes.len()
        invariant
            i <= bytes@.len(),
            v@ == lower_seq(bytes@).take(i as int),
        decreases bytes@.len() - i,
    {
        v.push(to_ascii_lower(bytes[i]));
        i = i + 1;
        assert(v@ =~= lower_seq(bytes@).take(i as int));
    }
    assert(v@ =~= lower_seq(bytes@));
    while v.len() > 0 && v[v.len() - 1] == 0x20
        invariant
            trim_spaces(v@) == trim_spaces(lower_seq(bytes@)),
        decreases v@.len(),
    {
        v.pop();
    }
    v
}

/// Appends `bytes` to a name buffer that has room for them.
fn push_all(buf: &mut NameBuf, bytes: &Vec<u8>)
    requires
        name_bytes(*old(buf)).len() + bytes@.len() <= 12,
    ensures
        name_bytes(*final(buf)) == name_bytes(*old(buf)) + bytes@,
{
    let ghost start = name_bytes(*buf);
    let mut i: usize = 0;
    while i < bytes.len()
        invariant
            i <= bytes@.len(),
            start.len() + bytes@.len() <= 12,
            name_bytes(*buf) == start + bytes@.take(i as int),
        decreases bytes@.len() - i,
    {
        name_push(buf, bytes[i]);
        i = i + 1;
        assert(name_bytes(*buf) =~= start + bytes@.take(i as int));
    }
    assert(bytes@.take(bytes@.len() as int) =~= bytes@);
}

/// Trimming never lengthens.
proof fn lemma_trim_shorter(s: Seq<u8>)
    ensures
        trim_spaces(s).len() <= s.len(),
    decreases s.len(),
{
    if s.len() > 0 && s.last() == 0x20 {
        lemma_trim_shorter(s.drop_last());
    }
}

impl RawDirEntry {
    /// Whether `self` is what the 32 bytes `s[o..o + 32]` hold.
    pub open spec fn decodes(self, s: Seq<u8>, o: int) -> bool {
        &&& self.basename@ == s.subrange(o, o + 8)
        &&& self.extension@ == s.subrange(o + 8, o + 11)
        &&& self.attributes == s[o + 11]
        &&& self.reserved == s[o + 12]
        &&& self.create_tenths == s[o + 13]
        &&& self.create_time as int == le16(s, o + 14)
        &&& self.create_date as int == le16(s, o + 16)
        &&& self.access_date as int == le16(s, o + 18)
        &&& self.cluster_hi as int == le16(s, o + 20)
        &&& self.modify_time as int == le16(s, o + 22)
        &&& self.modify_date as int == le16(s, o + 24)
        &&& self.cluster_lo as int == le16(s, o + 26)
        &&& self.size as int == le32(s, o + 28)
    }

    /// Decodes the record stored at `bytes[offset..offset + 32]`.
    pub fn decode(bytes: &[u8], offset: usize) -> (r: RawDirEntry)
        requires
            offset + DIR_ENTRY_SIZE <= bytes@.len(),
        ensures
            r.decodes(bytes@, offset as int),
    {
        let n = bytes.len();
        let mut basename = [0u8; 8];
        let mut i: usize = 0;
        while i < 8
            invariant
                i <= 8,
                offset + DIR_ENTRY_SIZE <= bytes@.len(),
                n == bytes@.len(),
                forall|j: int| 0 <= j < i ==> basename@[j] == bytes@[offset + j],
            decreases 8 - i,
        {
            basename[i] = bytes[offset + i];
            i = i + 1;
        }
        let mut extension = [0u8; 3];
        let mut k: usize = 0;
        while k < 3
            invariant
                k <= 3,
                offset + DIR_ENTRY_SIZE <= bytes@.len(),
                n == bytes@.len(),
                forall|j: int| 0 <= j < k ==> extension@[j] == bytes@[offset + 8 + j],
            decreases 3 - k,
        {
            extension[k] = bytes[offset + 8 + k];
            k = k + 1;
        }
        assert(basename@ =~= bytes@.subrange(offset as int, offset + 8));
        assert(extension@ =~= bytes@.subrange(offset + 8, offset + 11));
        let size_lo = read_le16(bytes, offset + 28);
        let size_hi = read_le16(bytes, offset + 30);
        RawDirEntry {
            basename,
            extension,
            attributes: bytes[offset + 11],
            reserved: bytes[offset + 12],
            create_tenths: bytes[offset + 13],
            create_time: read_le16(bytes, offset + 14),
            create_date: read_le16(bytes, offset + 16),
            access_date: read_le16(bytes, offset + 18),
            cluster_hi: read_le16(bytes, offset + 20),
            modify_time: read_le16(bytes, offset + 22),
            modify_date: read_le16(bytes, offset + 24),
            cluster_lo: read_le16(bytes, offset + 26),
            size: size_lo as u32 + size_hi as u32 * 65536,
        }
    }

    pub open spec fn spec_is_dir(self) -> bool {
        self.attributes & DIRECTORY == DIRECTORY
    }

    pub open spec fn spec_first_cluster(self) -> int {
        self.cluster_lo as int + self.cluster_hi as int * 65536
    }

    pub open spec fn spec_filename(self) -> Seq<u8> {
        display_name(self.basename@, self.extension@)
    }

    /// The attribute bits that have a meaning.
    pub fn attributes(&self) -> (r: Attributes)
        ensures
            r.bits == self.attributes & ALL_ATTRIBUTES,
            r.contains_spec(DIRECTORY) == self.spec_is_dir(),
    {
        let a = self.attributes;
        proof {
            assert((a & 0x3f) & 0x10 == 0x10 <==> a & 0x10 == 0x10) by (bit_vector);
        }
        Attributes::from_bits_truncate(self.attributes)
    }

    /// The display name: lowercase basename without trailing spaces, then a
    /// dot and the trimmed lowercase extension unless the extension is blank.
    pub fn filename(&self) -> (r: NameBuf)
        ensures
            name_bytes(r) == self.spec_filename(),
    {
        let base = lowered_trimmed(self.basename.as_slice());
        proof {
            lemma_trim_shorter(lower_seq(self.basename@));
        }
        let mut filename = name_new();
        push_all(&mut filename, &base);
        if self.extension[0] != 0x20 {
            name_push(&mut filename, 0x2e);
            let ext = lowered_trimmed(self.extension.as_slice());
            proof {
                lemma_trim_shorter(lower_seq(self.extension@));
            }
            push_all(&mut filename, &ext);
        }
        filename
    }

    /// The first cluster of the entry's data, from its two 16-bit halves.
    pub fn first_cluster(&self) -> (r: ClusterNumber)
        ensures
            r.0 as int == self.spec_first_cluster(),
    {
        ClusterNumber(self.cluster_lo as u32 + self.cluster_hi as u32 * 65536)
    }
}

impl Attributes {
    pub open spec fn contains_spec(self, flags: u8) -> bool {
        self.bits & flags == flags
    }
}

} // verus!
