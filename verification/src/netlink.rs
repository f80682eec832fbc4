//! The netlink attribute (NLA) framing, as `netlink-packet-utils` reads and
//! writes it: a 4-byte header (length, then type, both in the machine's byte
//! order), the value, and zero padding up to a multiple of four bytes.

use netlink_packet_utils::nla::{DefaultNla, NlaBuffer, NlasIterator};
use netlink_packet_utils::traits::Emitable;
use netlink_packet_utils::DecodeError;
use vstd::prelude::*;

use crate::error::IpvsError;
use crate::wire::{lemma_u16_native, native_u16, native_u32, u16_native_bytes};

verus! {

#[verifier::external_type_specification]
#[verifier::external_body]
pub struct ExDecodeError(DecodeError);

#[verifier::external_type_specification]
#[verifier::external_body]
#[verifier::reject_recursive_types(T)]
pub struct ExNlasIterator<T>(NlasIterator<T>);

/// The bytes that an attribute iterator has not consumed yet.
pub uninterp spec fn nlas_remaining(it: NlasIterator<&[u8]>) -> Seq<u8>;

/// Size of the attribute header.
pub const NLA_HEADER_SIZE: usize = 4;

/// `n` rounded up to a multiple of four.
pub open spec fn nla_align(n: int) -> int {
    (n + 3) / 4 * 4
}

/// The length field of the attribute at the start of `b` (header included,
/// padding excluded).
pub open spec fn frame_length(b: Seq<u8>) -> int {
    native_u16(b.subrange(0, 2))
}

/// The attribute at the start of `b` has a whole header and a length field
/// that covers the header and stays inside `b`.
pub open spec fn frame_checked(b: Seq<u8>) -> bool {
    &&& b.len() >= 4
    &&& 4 <= frame_length(b) <= b.len()
}

/// The type field of the attribute at the start of `b`, without its two flag
/// bits.
pub open spec fn frame_kind(b: Seq<u8>) -> u16 {
    (native_u16(b.subrange(2, 4)) % 0x4000) as u16
}

/// The value of the attribute at the start of `b`.
pub open spec fn frame_value(b: Seq<u8>) -> Seq<u8> {
    b.subrange(4, frame_length(b))
}

/// What the header's type field holds for an attribute of type `kind`: the
/// nested flag, when set, replaces the byte-order flag.
pub open spec fn type_field(kind: u16) -> u16 {
    if kind >= 0x8000 {
        (kind % 0x4000 + 0x8000) as u16
    } else {
        kind
    }
}

/// The bytes of an attribute of type `kind` with value `value`.
pub open spec fn nla_frame(kind: u16, value: Seq<u8>) -> Seq<u8> {
    u16_native_bytes((value.len() + 4) as u16) + u16_native_bytes(type_field(kind)) + value
        + Seq::new((nla_align(value.len() as int) - value.len()) as nat, |i: int| 0u8)
}

/// What an attribute iterator has left after stepping over the attribute at
/// the start of `rem`.
pub open spec fn after_frame(rem: Seq<u8>) -> Seq<u8> {
    if nla_align(frame_length(rem)) <= rem.len() {
        rem.skip(nla_align(frame_length(rem)))
    } else {
        Seq::empty()
    }
}

/// The attributes laid out one after another in `rem`, each decoded by `parse`
/// from the bytes that start with it, as an attribute iterator walks them; the
/// first failure, of the framing or of `parse`, ends the walk.
pub open spec fn parse_frames<A>(
    rem: Seq<u8>,
    parse: spec_fn(Seq<u8>) -> Result<A, IpvsError>,
) -> Result<Seq<A>, IpvsError>
    decreases rem.len(),
{
    if rem.len() == 0 {
        Ok(Seq::empty())
    } else if !frame_checked(rem) {
        Err(IpvsError::InvalidNla)
    } else {
        match parse(rem) {
            Err(e) => Err(e),
            Ok(a) => prepend(seq![a], parse_frames(after_frame(rem), parse)),
        }
    }
}

/// Walking the attributes of `rem` as `parse_frames` does meets no attribute
/// on which `ok` fails.
pub open spec fn frames_ok<A>(
    rem: Seq<u8>,
    ok: spec_fn(Seq<u8>) -> bool,
    parse: spec_fn(Seq<u8>) -> Result<A, IpvsError>,
) -> bool
    decreases rem.len(),
{
    if rem.len() == 0 || !frame_checked(rem) {
        true
    } else {
        ok(rem) && (parse(rem) is Ok ==> frames_ok(after_frame(rem), ok, parse))
    }
}

/// `xs` in front of the items of `r`, or the error of `r`.
pub open spec fn prepend<A>(xs: Seq<A>, r: Result<Seq<A>, IpvsError>) -> Result<Seq<A>, IpvsError> {
    match r {
        Ok(rest) => Ok(xs + rest),
        Err(e) => Err(e),
    }
}

/// Putting `xs` and then `a` in front is putting `xs` followed by `a` in front.
pub proof fn lemma_prepend_push<A>(xs: Seq<A>, a: A, r: Result<Seq<A>, IpvsError>)
    ensures
        prepend(xs, prepend(seq![a], r)) == prepend(xs.push(a), r),
{
    match r {
        Ok(rest) => {
            assert(xs + (seq![a] + rest) =~= xs.push(a) + rest);
        },
        Err(_) => {},
    }
}

/// An attribute written with type `kind` and value `value`, followed by any
/// bytes, reads back as `value` with the type field stripped of its flags, and
/// an iterator steps over it to exactly the bytes that follow.
pub proof fn lemma_frame_roundtrip(kind: u16, value: Seq<u8>, rest: Seq<u8>)
    requires
        value.len() + 4 <= u16::MAX,
    ensures
        frame_checked(nla_frame(kind, value) + rest),
        frame_kind(nla_frame(kind, value) + rest) == type_field(kind) % 0x4000,
        frame_value(nla_frame(kind, value) + rest) == value,
        after_frame(nla_frame(kind, value) + rest) == rest,
{
    let len = (value.len() + 4) as u16;
    let b = nla_frame(kind, value) + rest;
    lemma_u16_native(len);
    lemma_u16_native(type_field(kind));
    assert(b.subrange(0, 2) =~= u16_native_bytes(len));
    assert(b.subrange(2, 4) =~= u16_native_bytes(type_field(kind)));
    assert(b.subrange(4, value.len() + 4 as int) =~= value);
    assert(nla_align(value.len() + 4 as int) == nla_align(value.len() as int) + 4);
    assert(b.skip(nla_align(value.len() + 4 as int)) =~= rest);
}

/// An attribute takes its header, its value and its padding.
pub proof fn lemma_frame_len(kind: u16, value: Seq<u8>)
    ensures
        nla_frame(kind, value).len() == 4 + nla_align(value.len() as int),
{
    crate::wire::lemma_u16_native((value.len() + 4) as u16);
    crate::wire::lemma_u16_native(type_field(kind));
}

/// `parsers::parse_u16` (netlink-packet-utils): a payload of exactly two bytes,
/// read in the machine's byte order; an error for any other length.
#[verifier::external_body]
pub(crate) fn parse_u16(payload: &[u8]) -> (r: Result<u16, DecodeError>)
    ensures
        r is Ok <==> payload@.len() == 2,
        r matches Ok(v) ==> v == native_u16(payload@),
{
    netlink_packet_utils::parsers::parse_u16(payload)
}

/// `parsers::parse_u32` (netlink-packet-utils): a payload of exactly four bytes,
/// read in the machine's byte order; an error for any other length.
#[verifier::external_body]
pub(crate) fn parse_u32(payload: &[u8]) -> (r: Result<u32, DecodeError>)
    ensures
        r is Ok <==> payload@.len() == 4,
        r matches Ok(v) ==> v == native_u32(payload@),
{
    netlink_packet_utils::parsers::parse_u32(payload)
}

/// `NlaBuffer::kind` (netlink-packet-utils) on an attribute buffer over `buf`:
/// the type field, read in the machine's byte order, without its flag bits. It
/// panics on a buffer shorter than the header.
#[verifier::external_body]
pub(crate) fn nla_kind(buf: &[u8]) -> (r: u16)
    requires
        buf@.len() >= 4,
    ensures
        r == frame_kind(buf@),
{
    NlaBuffer::new(buf).kind()
}

/// `NlaBuffer::check_buffer_length` (netlink-packet-utils) on an attribute
/// buffer over `buf`: success exactly when the header is whole and the length
/// field covers the header and stays inside `buf`.
#[verifier::external_body]
pub(crate) fn nla_check(buf: &[u8]) -> (r: Result<(), DecodeError>)
    ensures
        r is Ok <==> frame_checked(buf@),
{
    NlaBuffer::new(buf).check_buffer_length()
}

/// `NlaBuffer::value` (netlink-packet-utils) on an attribute buffer over `buf`,
/// copied out: the bytes after the header, up to the length field. It panics
/// when the length field is shorter than the header or longer than the buffer.
#[verifier::external_body]
pub(crate) fn nla_value(buf: &[u8]) -> (r: Vec<u8>)
    requires
        frame_checked(buf@),
    ensures
        r@ == frame_value(buf@),
{
    NlaBuffer::new(buf).value().to_vec()
}

/// `NlasIterator::new` (netlink-packet-utils): an iterator over the attributes
/// laid out one after another in `payload`.
#[verifier::external_body]
pub(crate) fn nlas_iter<'a>(payload: &'a [u8]) -> (r: NlasIterator<&'a [u8]>)
    ensures
        nlas_remaining(r) == payload@,
{
    NlasIterator::new(payload)
}

/// `Iterator::next` of `NlasIterator` (netlink-packet-utils): nothing once the
/// bytes are consumed; else a buffer over the remaining bytes, whose first
/// attribute the iterator then skips (its length rounded up to four bytes); or
/// an error when that attribute's header is not sound, after which nothing
/// remains. The buffer is handed out as the bytes it reads from.
#[verifier::external_body]
pub(crate) fn nlas_next<'a>(it: &mut NlasIterator<&'a [u8]>) -> (r: Option<
    Result<&'a [u8], DecodeError>,
>)
    ensures
        nlas_remaining(*old(it)).len() == 0 ==> r is None && nlas_remaining(*final(it))
            == nlas_remaining(*old(it)),
        nlas_remaining(*old(it)).len() > 0 && frame_checked(nlas_remaining(*old(it))) ==> {
            &&& r matches Some(Ok(nla))
            &&& nla@ == nlas_remaining(*old(it))
            &&& nlas_remaining(*final(it)) == after_frame(nlas_remaining(*old(it)))
        },
        nlas_remaining(*old(it)).len() > 0 && !frame_checked(nlas_remaining(*old(it))) ==> {
            &&& r matches Some(Err(_))
            &&& nlas_remaining(*final(it)).len() == 0
        },
{
    match it.next() {
        None => None,
        Some(Ok(nla)) => Some(Ok(nla.into_inner())),
        Some(Err(e)) => Some(Err(e)),
    }
}

/// `Emitable::emit` of `DefaultNla` (netlink-packet-utils): writes the header
/// (length, then type, in the machine's byte order), `value`, and zero padding
/// at the start of `buffer`, leaving the rest. It panics when `buffer` is
/// shorter, and when the length does not fit the 16-bit length field.
#[verifier::external_body]
pub(crate) fn emit_nla(kind: u16, value: &[u8], buffer: &mut [u8])
    requires
        value@.len() + 4 <= u16::MAX,
        old(buffer)@.len() >= 4 + nla_align(value@.len() as int),
    ensures
        final(buffer)@ == nla_frame(kind, value@) + old(buffer)@.skip(
            4 + nla_align(value@.len() as int),
        ),
{
    DefaultNla::new(kind, value.to_vec()).emit(buffer)
}

} // verus!
