//! Fixed-width integers on the wire: what the byte orders mean, and the
//! `byteorder` and `std` calls that read and write them.

use byteorder::{BigEndian, ByteOrder, LittleEndian, NativeEndian};
use vstd::endian::{endianness, Endian};
use vstd::prelude::*;

verus! {

/// The value of two bytes read least significant first.
pub open spec fn le_u16(b: Seq<u8>) -> int {
    b[0] as int + 256 * (b[1] as int)
}

/// The value of two bytes read most significant first.
pub open spec fn be_u16(b: Seq<u8>) -> int {
    256 * (b[0] as int) + b[1] as int
}

/// The value of four bytes read least significant first.
pub open spec fn le_u32(b: Seq<u8>) -> int {
    b[0] as int + 0x100 * (b[1] as int) + 0x1_0000 * (b[2] as int) + 0x100_0000 * (b[3] as int)
}

/// The value of four bytes read most significant first.
pub open spec fn be_u32(b: Seq<u8>) -> int {
    0x100_0000 * (b[0] as int) + 0x1_0000 * (b[1] as int) + 0x100 * (b[2] as int) + b[3] as int
}

/// The value of eight bytes read least significant first.
pub open spec fn le_u64(b: Seq<u8>) -> int {
    le_u32(b) + 0x1_0000_0000 * le_u32(b.subrange(4, 8))
}

/// The two bytes of `v`, least significant first.
pub open spec fn u16_le_bytes(v: u16) -> Seq<u8> {
    seq![(v % 0x100) as u8, (v / 0x100) as u8]
}

/// The two bytes of `v`, most significant first.
pub open spec fn u16_be_bytes(v: u16) -> Seq<u8> {
    seq![(v / 0x100) as u8, (v % 0x100) as u8]
}

/// The four bytes of `v`, least significant first.
pub open spec fn u32_le_bytes(v: u32) -> Seq<u8> {
    seq![
        (v % 0x100) as u8,
        (v / 0x100 % 0x100) as u8,
        (v / 0x1_0000 % 0x100) as u8,
        (v / 0x100_0000) as u8,
    ]
}

/// The four bytes of `v`, most significant first.
pub open spec fn u32_be_bytes(v: u32) -> Seq<u8> {
    seq![
        (v / 0x100_0000) as u8,
        (v / 0x1_0000 % 0x100) as u8,
        (v / 0x100 % 0x100) as u8,
        (v % 0x100) as u8,
    ]
}

/// The value of two bytes in the byte order of the machine that runs the code.
pub open spec fn native_u16(b: Seq<u8>) -> int {
    match endianness() {
        Endian::Little => le_u16(b),
        Endian::Big => be_u16(b),
    }
}

/// The value of four bytes in the byte order of the machine that runs the code.
pub open spec fn native_u32(b: Seq<u8>) -> int {
    match endianness() {
        Endian::Little => le_u32(b),
        Endian::Big => be_u32(b),
    }
}

/// The two bytes of `v` in the byte order of the machine that runs the code.
pub open spec fn u16_native_bytes(v: u16) -> Seq<u8> {
    match endianness() {
        Endian::Little => u16_le_bytes(v),
        Endian::Big => u16_be_bytes(v),
    }
}

/// The four bytes of `v` in the byte order of the machine that runs the code.
pub open spec fn u32_native_bytes(v: u32) -> Seq<u8> {
    match endianness() {
        Endian::Little => u32_le_bytes(v),
        Endian::Big => u32_be_bytes(v),
    }
}

/// `v` with its two bytes exchanged.
pub open spec fn swap_u16(v: u16) -> u16 {
    ((v % 0x100) * 0x100 + v / 0x100) as u16
}

/// `buf` with its first bytes replaced by `bytes`.
pub open spec fn overwrite_prefix(buf: Seq<u8>, bytes: Seq<u8>) -> Seq<u8> {
    bytes + buf.skip(bytes.len() as int)
}

/// The number of bits set in `b`.
pub open spec fn popcount(b: u8) -> nat
    decreases b,
{
    if b == 0 {
        0
    } else {
        (b % 2) as nat + popcount(b / 2)
    }
}

/// Reading back what was written least significant first gives the value.
pub proof fn lemma_u16_le(v: u16)
    ensures
        u16_le_bytes(v).len() == 2,
        le_u16(u16_le_bytes(v)) == v,
{
}

/// Reading back what was written most significant first gives the value.
pub proof fn lemma_u16_be(v: u16)
    ensures
        u16_be_bytes(v).len() == 2,
        be_u16(u16_be_bytes(v)) == v,
{
}

/// Reading back what was written least significant first gives the value.
pub proof fn lemma_u32_le(v: u32)
    ensures
        u32_le_bytes(v).len() == 4,
        le_u32(u32_le_bytes(v)) == v,
{
}

/// Reading back what was written most significant first gives the value.
pub proof fn lemma_u32_be(v: u32)
    ensures
        u32_be_bytes(v).len() == 4,
        be_u32(u32_be_bytes(v)) == v,
{
}

/// Reading back in the machine's order what was written in it gives the value.
pub proof fn lemma_u16_native(v: u16)
    ensures
        u16_native_bytes(v).len() == 2,
        native_u16(u16_native_bytes(v)) == v,
{
    lemma_u16_le(v);
    lemma_u16_be(v);
}

/// Reading back in the machine's order what was written in it gives the value.
pub proof fn lemma_u32_native(v: u32)
    ensures
        u32_native_bytes(v).len() == 4,
        native_u32(u32_native_bytes(v)) == v,
{
    lemma_u32_le(v);
    lemma_u32_be(v);
}

/// The two bytes of `v` are equal, so both byte orders give the same value.
pub open spec fn u16_symmetric(v: u16) -> bool {
    v % 0x100 == v / 0x100
}

/// The four bytes of `v` read the same forwards and backwards, so both byte
/// orders give the same value.
pub open spec fn u32_symmetric(v: u32) -> bool {
    v % 0x100 == v / 0x100_0000 && v / 0x100 % 0x100 == v / 0x1_0000 % 0x100
}

/// Two bytes written most significant first and read least significant first
/// give back a value whose two bytes are equal.
pub proof fn lemma_u16_be_read_le(v: u16)
    requires
        u16_symmetric(v),
    ensures
        le_u16(u16_be_bytes(v)) == v,
{
}

/// Four bytes written least significant first and read most significant first
/// give back a value whose bytes read the same both ways.
pub proof fn lemma_u32_le_read_be(v: u32)
    requires
        u32_symmetric(v),
    ensures
        be_u32(u32_le_bytes(v)) == v,
{
    lemma_u32_le(v);
}

/// Copies `bytes` over the first bytes of `buf`.
pub(crate) fn copy_prefix(buf: &mut [u8], bytes: &[u8])
    requires
        old(buf)@.len() >= bytes@.len(),
    ensures
        final(buf)@ == overwrite_prefix(old(buf)@, bytes@),
{
    let ghost old_buf = buf@;
    let mut i: usize = 0;
    while i < bytes.len()
        invariant
            0 <= i <= bytes@.len(),
            bytes@.len() <= old_buf.len(),
            buf@.len() == old_buf.len(),
            forall|j: int| 0 <= j < i ==> buf@[j] == bytes@[j],
            forall|j: int| i <= j < buf@.len() ==> buf@[j] == old_buf[j],
        decreases bytes@.len() - i,
    {
        buf[i] = bytes[i];
        i = i + 1;
    }
    assert(buf@ =~= overwrite_prefix(old_buf, bytes@));
}

/// The total number of bits set in `p`.
pub open spec fn popcount_sum(p: Seq<u8>) -> nat
    decreases p.len(),
{
    if p.len() == 0 {
        0
    } else {
        popcount_sum(p.drop_last()) + popcount(p.last())
    }
}

/// A byte has at most eight bits set.
pub proof fn lemma_popcount_le_8(b: u8)
    ensures
        popcount(b) <= 8,
{
    reveal_with_fuel(popcount, 9);
}

/// A prefix has no more bits set than the whole.
pub proof fn lemma_popcount_sum_prefix(p: Seq<u8>, i: int)
    requires
        0 <= i <= p.len(),
    ensures
        popcount_sum(p.take(i)) <= popcount_sum(p),
    decreases p.len() - i,
{
    if i < p.len() {
        lemma_popcount_sum_prefix(p, i + 1);
        assert(p.take(i + 1).drop_last() == p.take(i));
    } else {
        assert(p.take(i) == p);
    }
}

/// `LittleEndian::read_u16` (byteorder): the first two bytes of `buf`, least
/// significant first. It panics on a shorter buffer.
#[verifier::external_body]
pub(crate) fn read_u16_le(buf: &[u8]) -> (r: u16)
    requires
        buf@.len() >= 2,
    ensures
        r == le_u16(buf@),
{
    LittleEndian::read_u16(buf)
}

/// `LittleEndian::read_u32` (byteorder): the first four bytes of `buf`, least
/// significant first. It panics on a shorter buffer.
#[verifier::external_body]
pub(crate) fn read_u32_le(buf: &[u8]) -> (r: u32)
    requires
        buf@.len() >= 4,
    ensures
        r == le_u32(buf@),
{
    LittleEndian::read_u32(buf)
}

/// `LittleEndian::read_u64` (byteorder): the first eight bytes of `buf`, least
/// significant first. It panics on a shorter buffer.
#[verifier::external_body]
pub(crate) fn read_u64_le(buf: &[u8]) -> (r: u64)
    requires
        buf@.len() >= 8,
    ensures
        r == le_u64(buf@),
{
    LittleEndian::read_u64(buf)
}

/// `BigEndian::read_u16` (byteorder, also named `NetworkEndian`): the first two
/// bytes of `buf`, most significant first. It panics on a shorter buffer.
#[verifier::external_body]
pub(crate) fn read_u16_be(buf: &[u8]) -> (r: u16)
    requires
        buf@.len() >= 2,
    ensures
        r == be_u16(buf@),
{
    BigEndian::read_u16(buf)
}

/// `BigEndian::read_u32` (byteorder): the first four bytes of `buf`, most
/// significant first. It panics on a shorter buffer.
#[verifier::external_body]
pub(crate) fn read_u32_be(buf: &[u8]) -> (r: u32)
    requires
        buf@.len() >= 4,
    ensures
        r == be_u32(buf@),
{
    BigEndian::read_u32(buf)
}

/// `LittleEndian::write_u16` (byteorder): writes `v` into the first two bytes,
/// least significant first, and leaves the rest. It panics on a shorter buffer.
#[verifier::external_body]
pub(crate) fn write_u16_le(buf: &mut [u8], v: u16)
    requires
        old(buf)@.len() >= 2,
    ensures
        final(buf)@ == overwrite_prefix(old(buf)@, u16_le_bytes(v)),
{
    LittleEndian::write_u16(buf, v)
}

/// `LittleEndian::write_u32` (byteorder): writes `v` into the first four bytes,
/// least significant first, and leaves the rest. It panics on a shorter buffer.
#[verifier::external_body]
pub(crate) fn write_u32_le(buf: &mut [u8], v: u32)
    requires
        old(buf)@.len() >= 4,
    ensures
        final(buf)@ == overwrite_prefix(old(buf)@, u32_le_bytes(v)),
{
    LittleEndian::write_u32(buf, v)
}

/// `BigEndian::write_u16` (byteorder): writes `v` into the first two bytes,
/// most significant first, and leaves the rest. It panics on a shorter buffer.
#[verifier::external_body]
pub(crate) fn write_u16_be(buf: &mut [u8], v: u16)
    requires
        old(buf)@.len() >= 2,
    ensures
        final(buf)@ == overwrite_prefix(old(buf)@, u16_be_bytes(v)),
{
    BigEndian::write_u16(buf, v)
}

/// `NativeEndian::write_u16` (byteorder): writes `v` into the first two bytes in
/// the byte order of the machine, and leaves the rest. It panics on a shorter
/// buffer.
#[verifier::external_body]
pub(crate) fn write_u16_native(buf: &mut [u8], v: u16)
    requires
        old(buf)@.len() >= 2,
    ensures
        final(buf)@ == overwrite_prefix(old(buf)@, u16_native_bytes(v)),
{
    NativeEndian::write_u16(buf, v)
}

/// `NativeEndian::write_u32` (byteorder): writes `v` into the first four bytes in
/// the byte order of the machine, and leaves the rest. It panics on a shorter
/// buffer.
#[verifier::external_body]
pub(crate) fn write_u32_native(buf: &mut [u8], v: u32)
    requires
        old(buf)@.len() >= 4,
    ensures
        final(buf)@ == overwrite_prefix(old(buf)@, u32_native_bytes(v)),
{
    NativeEndian::write_u32(buf, v)
}

/// `u16::from_be` (std): on a big-endian machine `v` itself, on a little-endian
/// one `v` with its two bytes exchanged.
#[verifier::external_body]
pub(crate) fn u16_from_be(v: u16) -> (r: u16)
    ensures
        r == (match endianness() {
            Endian::Little => swap_u16(v),
            Endian::Big => v,
        }),
{
    u16::from_be(v)
}

/// The number of bits set in `b`.
pub(crate) fn count_ones_u8(b: u8) -> (r: u32)
    ensures
        r == popcount(b),
{
    let mut x: u8 = b;
    let mut count: u32 = 0;
    proof {
        lemma_popcount_le_8(b);
    }
    while x > 0
        invariant
            count + popcount(x) == popcount(b),
            popcount(b) <= 8,
        decreases x,
    {
        count = count + (x % 2) as u32;
        x = x / 2;
    }
    count
}

} // verus!
