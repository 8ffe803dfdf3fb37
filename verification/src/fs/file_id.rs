//! File ids as NFS clients see them.

use vstd::prelude::*;
use vstd::std_specs::convert::FromSpec;
use zerofs_nfsserve::nfs::fileid3;

use super::inode::InodeId;
use super::{MAX_HARDLINKS_PER_INODE, MAX_INODE_ID};

verus! {

/// The number that packs `inode_id` and `position`. Only the low 48 bits of the inode id fit.
pub open spec fn packed(inode_id: InodeId, position: u16) -> int {
    (inode_id % 0x1_0000_0000_0000) * 0x1_0000 + position
}

/// The inode id that `raw` packs: its high 48 bits.
pub open spec fn packed_inode(raw: u64) -> int {
    raw as int / 0x1_0000
}

/// The position that `raw` packs: its low 16 bits.
pub open spec fn packed_position(raw: u64) -> int {
    raw as int % 0x1_0000
}

/// File id handed to NFS clients. The high 48 bits are the inode id; the low 16 bits are the
/// position that tells the hard links of one inode apart.
#[derive(Debug, Clone, Copy, PartialEq, Eq, Hash, Structural)]
pub struct EncodedFileId(u64);

impl EncodedFileId {
    /// The id as one number.
    pub closed spec fn raw(self) -> u64 {
        self.0
    }

    /// The id of the link at `position` of inode `inode_id`.
    pub closed spec fn of(inode_id: InodeId, position: u16) -> Self {
        EncodedFileId(packed(inode_id, position) as u64)
    }

    /// Id of the link at `position` of inode `inode_id`. Only the low 48 bits of `inode_id`
    /// fit; an id above `MAX_INODE_ID` loses the bits above them.
    pub fn new(inode_id: InodeId, position: u16) -> (id: Self)
        ensures
            id == Self::of(inode_id, position),
            id.raw() == packed(inode_id, position),
    {
        let raw: u64 = (inode_id << 16) | (position as u64);
        assert(raw == (inode_id % 0x1_0000_0000_0000) * 0x1_0000 + position) by (bit_vector)
            requires
                raw == (inode_id << 16) | (position as u64),
        ;
        Self(raw)
    }

    /// Id of the first link of inode `inode_id`.
    pub fn from_inode(inode_id: InodeId) -> (id: Self)
        ensures
            id == Self::of(inode_id, 0),
            id.raw() == packed(inode_id, 0),
    {
        Self::new(inode_id, 0)
    }

    /// The inode id and the position.
    pub fn decode(self) -> (parts: (InodeId, u16))
        ensures
            parts.0 == packed_inode(self.raw()),
            parts.1 == packed_position(self.raw()),
    {
        (self.inode_id(), self.position())
    }

    /// The id as one number.
    pub fn as_raw(self) -> (raw: u64)
        ensures
            raw == self.raw(),
    {
        self.0
    }

    /// The inode id.
    pub fn inode_id(self) -> (inode_id: InodeId)
        ensures
            inode_id == packed_inode(self.raw()),
    {
        let raw: u64 = self.0;
        assert(raw >> 16 == raw / 0x1_0000) by (bit_vector);
        raw >> 16
    }

    /// The position among the hard links of the inode.
    pub fn position(self) -> (position: u16)
        ensures
            position == packed_position(self.raw()),
    {
        let raw: u64 = self.0;
        assert(raw & 0xFFFF == raw % 0x1_0000) by (bit_vector);
        (raw & 0xFFFF) as u16
    }
}

impl From<fileid3> for EncodedFileId {
    fn from(id: fileid3) -> (encoded: Self)
        ensures
            encoded.raw() == id,
    {
        Self(id)
    }
}

impl vstd::std_specs::convert::FromSpecImpl<fileid3> for EncodedFileId {
    open spec fn obeys_from_spec() -> bool {
        true
    }

    closed spec fn from_spec(id: fileid3) -> Self {
        Self(id)
    }
}

impl From<EncodedFileId> for fileid3 {
    fn from(id: EncodedFileId) -> (raw: Self) {
        id.0
    }
}

impl vstd::std_specs::convert::FromSpecImpl<EncodedFileId> for fileid3 {
    open spec fn obeys_from_spec() -> bool {
        true
    }

    open spec fn from_spec(id: EncodedFileId) -> Self {
        id.raw()
    }
}

/// Two ids with the same number are the same id.
pub proof fn raw_determines_the_id(a: EncodedFileId, b: EncodedFileId)
    ensures
        a.raw() == b.raw() ==> a == b,
{
}

/// The number of an id packs its inode and position.
pub proof fn number_of_an_id(inode_id: InodeId, position: u16)
    ensures
        EncodedFileId::of(inode_id, position).raw() == packed(inode_id, position),
{
}

/// Decoding a new id gives back the inode id and the position it was made of, as long as the
/// inode id does not exceed `MAX_INODE_ID`.
pub proof fn decoding_undoes_encoding(inode_id: InodeId, position: u16)
    requires
        inode_id <= MAX_INODE_ID,
    ensures
        packed_inode(EncodedFileId::of(inode_id, position).raw()) == inode_id,
        packed_position(EncodedFileId::of(inode_id, position).raw()) == position,
{
}

/// Every id, also one made of an arbitrary number, is the id of the inode and position it
/// decodes to, and neither exceeds its limit.
pub proof fn encoding_undoes_decoding(id: EncodedFileId)
    ensures
        0 <= packed_inode(id.raw()) <= MAX_INODE_ID,
        0 <= packed_position(id.raw()) <= MAX_HARDLINKS_PER_INODE,
        EncodedFileId::of(
            packed_inode(id.raw()) as u64,
            packed_position(id.raw()) as u16,
        ) == id,
{
}

/// Two links have the same id only if they are the same link, as long as the inode ids do not
/// exceed `MAX_INODE_ID`.
pub proof fn ids_are_distinct(a: InodeId, p: u16, b: InodeId, q: u16)
    requires
        a <= MAX_INODE_ID,
        b <= MAX_INODE_ID,
    ensures
        EncodedFileId::of(a, p) == EncodedFileId::of(b, q) <==> (a == b && p == q),
{
}

/// Converting a number into an id and back gives the number, and converting an id into a number
/// and back gives the id. The number is the one that `as_raw` returns.
pub proof fn conversions_undo_each_other(raw: fileid3, id: EncodedFileId)
    ensures
        <fileid3 as FromSpec<EncodedFileId>>::from_spec(
            <EncodedFileId as FromSpec<fileid3>>::from_spec(raw),
        ) == raw,
        <EncodedFileId as FromSpec<fileid3>>::from_spec(
            <fileid3 as FromSpec<EncodedFileId>>::from_spec(id),
        ) == id,
        <fileid3 as FromSpec<EncodedFileId>>::from_spec(id) == id.raw(),
{
}

/// The number of a new id is the inode id, of which the low 48 bits fit, times 65536 plus the
/// position. That is the inode id shifted by 16 bits, with the position in the bits below.
pub proof fn new_ids_are_shifted_inodes(
    inode_id: InodeId,
    position: u16,
    id: EncodedFileId,
    raw: u64,
)
    requires
        call_ensures(EncodedFileId::new, (inode_id, position), id),
        call_ensures(EncodedFileId::as_raw, (id,), raw),
    ensures
        raw == (inode_id % 0x1_0000_0000_0000) * 0x1_0000 + position,
        raw == (inode_id << 16) | (position as u64),
        inode_id <= 0xFFFF_FFFF_FFFF ==> raw == inode_id * 0x1_0000 + position,
{
    assert((inode_id << 16) | (position as u64) == (inode_id % 0x1_0000_0000_0000) * 0x1_0000
        + position) by (bit_vector);
}

/// The first link of an inode is at position 0.
pub proof fn first_links_are_at_position_zero(
    inode_id: InodeId,
    id: EncodedFileId,
    first: EncodedFileId,
)
    requires
        call_ensures(EncodedFileId::from_inode, (inode_id,), id),
        call_ensures(EncodedFileId::new, (inode_id, 0u16), first),
    ensures
        id == first,
{
}

/// The parts of an id are the high 48 and the low 16 bits of its number, by whichever function
/// they are asked for, and put together again they are the number.
pub proof fn parts_are_the_bits_of_the_number(
    id: EncodedFileId,
    raw: u64,
    parts: (InodeId, u16),
    inode_id: InodeId,
    position: u16,
)
    requires
        call_ensures(EncodedFileId::as_raw, (id,), raw),
        call_ensures(EncodedFileId::decode, (id,), parts),
        call_ensures(EncodedFileId::inode_id, (id,), inode_id),
        call_ensures(EncodedFileId::position, (id,), position),
    ensures
        parts == (inode_id, position),
        inode_id == raw >> 16,
        position == raw & 0xFFFF,
        raw == inode_id * 0x1_0000 + position,
        inode_id <= 0xFFFF_FFFF_FFFF,
{
    assert(raw >> 16 == raw / 0x1_0000) by (bit_vector);
    assert(raw & 0xFFFF == raw % 0x1_0000) by (bit_vector);
}

/// Decoding gives back what an id was made of, for every inode id of 48 bits and every position.
pub proof fn decoding_gives_back_the_parts(
    inode_id: InodeId,
    position: u16,
    id: EncodedFileId,
    parts: (InodeId, u16),
)
    requires
        inode_id <= 0xFFFF_FFFF_FFFF,
        call_ensures(EncodedFileId::new, (inode_id, position), id),
        call_ensures(EncodedFileId::decode, (id,), parts),
    ensures
        parts == (inode_id, position),
{
}

} // verus!
