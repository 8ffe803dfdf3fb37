//! Binary keys under which records are stored.
//!
//! An inode is stored under `[PREFIX_INODE | inode id]` and a chunk of file data under
//! `[PREFIX_CHUNK | inode id | chunk index]`, each number as eight big-endian bytes.

use vstd::prelude::*;

use super::inode::InodeId;

verus! {

/// First byte of every inode key.
pub const PREFIX_INODE: u8 = 0x01;

/// First byte of every chunk key.
pub const PREFIX_CHUNK: u8 = 0x02;

/// The `width` low-order base-256 digits of `x`, the most significant first.
pub open spec fn be_digits(x: int, width: nat) -> Seq<u8>
    decreases width,
{
    if width == 0 {
        Seq::empty()
    } else {
        be_digits(x / 256, (width - 1) as nat).push((x % 256) as u8)
    }
}

/// The key of inode `inode_id`.
pub open spec fn inode_key_bytes(inode_id: InodeId) -> Seq<u8> {
    seq![PREFIX_INODE] + be_digits(inode_id as int, 8)
}

/// The key of chunk `chunk_index` of inode `inode_id`.
pub open spec fn chunk_key_bytes(inode_id: InodeId, chunk_index: u64) -> Seq<u8> {
    seq![PREFIX_CHUNK] + be_digits(inode_id as int, 8) + be_digits(chunk_index as int, 8)
}

/// Builder of record keys.
pub struct KeyCodec;

impl KeyCodec {
    /// Key of an inode record.
    pub fn inode_key(inode_id: InodeId) -> (key: Vec<u8>)
        ensures
            key@ == inode_key_bytes(inode_id),
    {
        let mut key: Vec<u8> = Vec::new();
        key.push(PREFIX_INODE);
        push_be(&mut key, inode_id);
        assert(key@ =~= inode_key_bytes(inode_id));
        key
    }

    /// Key of one chunk of a file's data.
    pub fn chunk_key(inode_id: InodeId, chunk_index: u64) -> (key: Vec<u8>)
        ensures
            key@ == chunk_key_bytes(inode_id, chunk_index),
    {
        let mut key: Vec<u8> = Vec::new();
        key.push(PREFIX_CHUNK);
        push_be(&mut key, inode_id);
        push_be(&mut key, chunk_index);
        assert(key@ =~= chunk_key_bytes(inode_id, chunk_index));
        key
    }
}

/// Appends `x` to `key` as eight big-endian bytes.
fn push_be(key: &mut Vec<u8>, x: u64)
    ensures
        final(key)@ == old(key)@ + be_digits(x as int, 8),
{
    let x1: u64 = x / 256;
    let x2: u64 = x1 / 256;
    let x3: u64 = x2 / 256;
    let x4: u64 = x3 / 256;
    let x5: u64 = x4 / 256;
    let x6: u64 = x5 / 256;
    let x7: u64 = x6 / 256;
    key.push((x7 % 256) as u8);
    key.push((x6 % 256) as u8);
    key.push((x5 % 256) as u8);
    key.push((x4 % 256) as u8);
    key.push((x3 % 256) as u8);
    key.push((x2 % 256) as u8);
    key.push((x1 % 256) as u8);
    key.push((x % 256) as u8);
    proof {
        reveal_with_fuel(be_digits, 9);
    }
    assert(key@ =~= old(key)@ + be_digits(x as int, 8));
}

proof fn lemma_be_digits_len(x: int, width: nat)
    ensures
        be_digits(x, width).len() == width,
    decreases width,
{
    if width > 0 {
        lemma_be_digits_len(x / 256, (width - 1) as nat);
    }
}

/// `256` to the power `width`: the number of values that `width` bytes can hold.
spec fn capacity(width: nat) -> int
    decreases width,
{
    if width == 0 {
        1
    } else {
        256 * capacity((width - 1) as nat)
    }
}

proof fn lemma_be_digits_injective(x: int, y: int, width: nat)
    requires
        0 <= x < capacity(width),
        0 <= y < capacity(width),
        be_digits(x, width) == be_digits(y, width),
    ensures
        x == y,
    decreases width,
{
    if width > 0 {
        let rest = (width - 1) as nat;
        let xs = be_digits(x / 256, rest);
        let ys = be_digits(y / 256, rest);
        assert(xs.push((x % 256) as u8).last() == (x % 256) as u8);
        assert(ys.push((y % 256) as u8).last() == (y % 256) as u8);
        assert(xs.push((x % 256) as u8).drop_last() =~= xs);
        assert(ys.push((y % 256) as u8).drop_last() =~= ys);
        lemma_be_digits_injective(x / 256, y / 256, rest);
    }
}

proof fn lemma_u64_digits(x: u64, y: u64)
    ensures
        be_digits(x as int, 8).len() == 8,
        be_digits(x as int, 8) == be_digits(y as int, 8) ==> x == y,
{
    lemma_be_digits_len(x as int, 8);
    assert(capacity(8) == 0x1_0000_0000_0000_0000) by {
        reveal_with_fuel(capacity, 9);
    }
    if be_digits(x as int, 8) == be_digits(y as int, 8) {
        lemma_be_digits_injective(x as int, y as int, 8);
    }
}

/// Two inodes never share a key.
pub proof fn inode_keys_distinct(a: InodeId, b: InodeId)
    ensures
        inode_key_bytes(a) == inode_key_bytes(b) <==> a == b,
{
    lemma_u64_digits(a, b);
    lemma_u64_digits(b, a);
    if inode_key_bytes(a) == inode_key_bytes(b) {
        assert(be_digits(a as int, 8) =~= inode_key_bytes(a).skip(1));
        assert(be_digits(b as int, 8) =~= inode_key_bytes(b).skip(1));
    }
}

/// Two chunks share a key only if they are the same chunk of the same inode.
pub proof fn chunk_keys_distinct(a: InodeId, i: u64, b: InodeId, j: u64)
    ensures
        chunk_key_bytes(a, i) == chunk_key_bytes(b, j) <==> (a == b && i == j),
{
    lemma_u64_digits(a, b);
    lemma_u64_digits(b, a);
    lemma_u64_digits(i, j);
    lemma_u64_digits(j, i);
    if chunk_key_bytes(a, i) == chunk_key_bytes(b, j) {
        assert(be_digits(a as int, 8) =~= chunk_key_bytes(a, i).subrange(1, 9));
        assert(be_digits(b as int, 8) =~= chunk_key_bytes(b, j).subrange(1, 9));
        assert(be_digits(i as int, 8) =~= chunk_key_bytes(a, i).subrange(9, 17));
        assert(be_digits(j as int, 8) =~= chunk_key_bytes(b, j).subrange(9, 17));
    }
}

/// An inode and a chunk never share a key.
pub proof fn inode_and_chunk_keys_disjoint(a: InodeId, b: InodeId, j: u64)
    ensures
        inode_key_bytes(a) != chunk_key_bytes(b, j),
{
    assert(inode_key_bytes(a)[0] == PREFIX_INODE);
    assert(chunk_key_bytes(b, j)[0] == PREFIX_CHUNK);
}

/// An inode key has nine bytes and a chunk key seventeen.
pub proof fn key_lengths(inode_id: InodeId, chunk_index: u64)
    ensures
        inode_key_bytes(inode_id).len() == 9,
        chunk_key_bytes(inode_id, chunk_index).len() == 17,
{
    lemma_u64_digits(inode_id, inode_id);
    lemma_u64_digits(chunk_index, chunk_index);
}

/// The number that eight bytes from `at` on spell, the most significant byte first.
pub open spec fn number_at(bytes: Seq<u8>, at: int) -> int {
    bytes[at] * 0x100_0000_0000_0000 + bytes[at + 1] * 0x1_0000_0000_0000 + bytes[at + 2]
        * 0x100_0000_0000 + bytes[at + 3] * 0x1_0000_0000 + bytes[at + 4] * 0x100_0000 + bytes[at
        + 5] * 0x1_0000 + bytes[at + 6] * 0x100 + bytes[at + 7]
}

proof fn lemma_digits_spell(x: u64)
    ensures
        be_digits(x as int, 8).len() == 8,
        number_at(be_digits(x as int, 8), 0) == x,
{
    let x0 = x as int;
    let x1 = x0 / 256;
    let x2 = x1 / 256;
    let x3 = x2 / 256;
    let x4 = x3 / 256;
    let x5 = x4 / 256;
    let x6 = x5 / 256;
    let x7 = x6 / 256;
    reveal_with_fuel(be_digits, 9);
    let d = be_digits(x0, 8);
    assert(d =~= seq![
        (x7 % 256) as u8,
        (x6 % 256) as u8,
        (x5 % 256) as u8,
        (x4 % 256) as u8,
        (x3 % 256) as u8,
        (x2 % 256) as u8,
        (x1 % 256) as u8,
        (x0 % 256) as u8,
    ]);
    assert(0 <= x7 < 256);
}

/// The key of an inode is the inode prefix followed by the inode id as eight big-endian bytes.
pub proof fn inode_key_layout(inode_id: InodeId)
    ensures
        inode_key_bytes(inode_id).len() == 9,
        inode_key_bytes(inode_id)[0] == PREFIX_INODE,
        number_at(inode_key_bytes(inode_id), 1) == inode_id,
{
    lemma_digits_spell(inode_id);
    let d = be_digits(inode_id as int, 8);
    let key = inode_key_bytes(inode_id);
    assert(forall|i: int| 0 <= i < 8 ==> key[i + 1] == #[trigger] d[i]);
    assert(number_at(key, 1) == number_at(d, 0)) by {
        assert(key[1] == d[0] && key[2] == d[1] && key[3] == d[2] && key[4] == d[3]);
        assert(key[5] == d[4] && key[6] == d[5] && key[7] == d[6] && key[8] == d[7]);
    }
}

/// The key of a chunk is the chunk prefix followed by the inode id and the chunk index, each as
/// eight big-endian bytes.
pub proof fn chunk_key_layout(inode_id: InodeId, chunk_index: u64)
    ensures
        chunk_key_bytes(inode_id, chunk_index).len() == 17,
        chunk_key_bytes(inode_id, chunk_index)[0] == PREFIX_CHUNK,
        number_at(chunk_key_bytes(inode_id, chunk_index), 1) == inode_id,
        number_at(chunk_key_bytes(inode_id, chunk_index), 9) == chunk_index,
{
    lemma_digits_spell(inode_id);
    lemma_digits_spell(chunk_index);
    let d = be_digits(inode_id as int, 8);
    let c = be_digits(chunk_index as int, 8);
    let key = chunk_key_bytes(inode_id, chunk_index);
    assert(number_at(key, 1) == number_at(d, 0)) by {
        assert(key[1] == d[0] && key[2] == d[1] && key[3] == d[2] && key[4] == d[3]);
        assert(key[5] == d[4] && key[6] == d[5] && key[7] == d[6] && key[8] == d[7]);
    }
    assert(number_at(key, 9) == number_at(c, 0)) by {
        assert(key[9] == c[0] && key[10] == c[1] && key[11] == c[2] && key[12] == c[3]);
        assert(key[13] == c[4] && key[14] == c[5] && key[15] == c[6] && key[16] == c[7]);
    }
}

/// Whoever reads a key that `inode_key` made finds in it the inode id that it was made of.
pub proof fn inode_key_spells_the_inode(inode_id: InodeId, key: Vec<u8>)
    requires
        call_ensures(KeyCodec::inode_key, (inode_id,), key),
    ensures
        key@.len() == 9,
        key@[0] == PREFIX_INODE,
        number_at(key@, 1) == inode_id,
{
    inode_key_layout(inode_id);
}

/// Whoever reads a key that `chunk_key` made finds in it the inode id and the chunk index that it
/// was made of.
pub proof fn chunk_key_spells_the_chunk(inode_id: InodeId, chunk_index: u64, key: Vec<u8>)
    requires
        call_ensures(KeyCodec::chunk_key, (inode_id, chunk_index), key),
    ensures
        key@.len() == 17,
        key@[0] == PREFIX_CHUNK,
        number_at(key@, 1) == inode_id,
        number_at(key@, 9) == chunk_index,
{
    chunk_key_layout(inode_id, chunk_index);
}

} // verus!
