//! Attributes shared by services and destinations: address families,
//! addresses and 64-bit statistics.

use vstd::prelude::*;

use crate::constants::{
    STATS_ATTR_CONNS, STATS_ATTR_CPS, STATS_ATTR_INBPS, STATS_ATTR_INBYTES, STATS_ATTR_INPKTS,
    STATS_ATTR_INPPS, STATS_ATTR_OUTBPS, STATS_ATTR_OUTBYTES, STATS_ATTR_OUTPKTS, STATS_ATTR_OUTPPS,
};
use crate::error::IpvsError;
use crate::netlink::{
    nla_check, frame_checked, frame_kind, frame_value, frames_ok, nla_kind, nla_value, nlas_iter,
    nlas_next, nlas_remaining, parse_frames, prepend, lemma_prepend_push,
};
use crate::wire::{copy_prefix, le_u64, overwrite_prefix, read_u64_le};
use crate::constants::{IPVS_CMD_ATTR_DEST, IPVS_CMD_ATTR_SERVICE};
use crate::netlink::{emit_nla, lemma_frame_len, lemma_frame_roundtrip, nla_align, nla_frame, type_field};
use crate::ctrl::nlas::destination::{
    dest_list_received, dest_list_roundtrips, lemma_dest_list_roundtrip,
    dest_attr_checker, dest_attr_parser, dest_kind, dest_list_bytes, dest_list_len,
    dest_list_sendable, dest_value_bytes, dest_value_len, dest_views, lemma_dest_list_bytes_len,
    lemma_dest_list_len_prefix, lemma_dest_value_bytes_len, DestAttr, DestinationCtrlAttrs,
};
use crate::ctrl::nlas::service::{
    lemma_svc_list_roundtrip, svc_list_received, svc_list_roundtrips,
    lemma_svc_list_bytes_len, lemma_svc_list_len_prefix, lemma_svc_value_bytes_len,
    svc_attr_checker, svc_attr_parser, svc_kind, svc_list_bytes, svc_list_len,
    svc_list_sendable, svc_value_bytes, svc_value_len, svc_views, SvcAttr, SvcCtrlAttrs,
};

pub mod destination;
pub mod service;

verus! {

/// `r` with its success value taken by its view.
pub open spec fn view_result<T: View>(r: Result<T, IpvsError>) -> Result<T::V, IpvsError> {
    match r {
        Ok(v) => Ok(v@),
        Err(e) => Err(e),
    }
}

/// The address family of a service or a destination.
#[derive(Copy, Clone, Debug, PartialEq, Eq)]
pub enum AddressFamily {
    IPv4,
    IPv6,
}

/// The kernel's number for an address family.
pub open spec fn family_code(family: AddressFamily) -> u16 {
    match family {
        AddressFamily::IPv4 => 2,
        AddressFamily::IPv6 => 10,
    }
}

/// The address family with the kernel's number `code`.
pub open spec fn family_from_code(code: u16) -> Result<AddressFamily, IpvsError> {
    if code == 2 {
        Ok(AddressFamily::IPv4)
    } else if code == 10 {
        Ok(AddressFamily::IPv6)
    } else {
        Err(IpvsError::UnknownAddressFamily(code))
    }
}

impl AddressFamily {
    /// The kernel's number for this family.
    pub fn code(&self) -> (r: u16)
        ensures
            r == family_code(*self),
    {
        match self {
            AddressFamily::IPv4 => 2,
            AddressFamily::IPv6 => 10,
        }
    }

    /// The family whose kernel number is `code`: 2 is IPv4, 10 is IPv6, any
    /// other number is an error.
    pub fn try_from_u16(code: u16) -> (r: Result<AddressFamily, IpvsError>)
        ensures
            r == family_from_code(code),
    {
        match code {
            2 => Ok(AddressFamily::IPv4),
            10 => Ok(AddressFamily::IPv6),
            _ => Err(IpvsError::UnknownAddressFamily(code)),
        }
    }
}

/// An IP address, by its octets.
#[derive(Copy, Clone, Debug, PartialEq, Eq)]
pub enum IpAddr {
    V4([u8; 4]),
    V6([u8; 16]),
}

/// The address bytes of an attribute, as the kernel sends them: 16 bytes, of
/// which an IPv4 address uses the first four.
#[derive(Clone, Debug, PartialEq, Eq)]
pub struct AddrBytes(pub Vec<u8>);

impl View for AddrBytes {
    type V = Seq<u8>;

    open spec fn view(&self) -> Seq<u8> {
        self.0@
    }
}

/// `bytes` hold an address of `family`: four bytes at least for IPv4, exactly
/// sixteen for IPv6.
pub open spec fn holds_address(bytes: Seq<u8>, family: AddressFamily) -> bool {
    match family {
        AddressFamily::IPv4 => bytes.len() >= 4,
        AddressFamily::IPv6 => bytes.len() == 16,
    }
}

/// The address of `family` that `bytes` hold.
pub open spec fn address_of(bytes: Seq<u8>, family: AddressFamily) -> IpAddr {
    match family {
        AddressFamily::IPv4 => IpAddr::V4([bytes[0], bytes[1], bytes[2], bytes[3]]),
        AddressFamily::IPv6 => IpAddr::V6(
            [
                bytes[0],
                bytes[1],
                bytes[2],
                bytes[3],
                bytes[4],
                bytes[5],
                bytes[6],
                bytes[7],
                bytes[8],
                bytes[9],
                bytes[10],
                bytes[11],
                bytes[12],
                bytes[13],
                bytes[14],
                bytes[15],
            ],
        ),
    }
}

/// The 16 address bytes the kernel expects for `addr`: an IPv4 address
/// followed by twelve zeros, or the IPv6 address.
pub open spec fn address_bytes(addr: IpAddr) -> Seq<u8> {
    match addr {
        IpAddr::V4(o) => o@ + Seq::new(12, |i: int| 0u8),
        IpAddr::V6(o) => o@,
    }
}

/// The family of `addr`.
pub open spec fn family_of(addr: IpAddr) -> AddressFamily {
    match addr {
        IpAddr::V4(_) => AddressFamily::IPv4,
        IpAddr::V6(_) => AddressFamily::IPv6,
    }
}

impl AddrBytes {
    /// The address of `family` held by these bytes.
    pub fn as_ipaddr(&self, family: AddressFamily) -> (r: IpAddr)
        requires
            holds_address(self@, family),
        ensures
            r == address_of(self@, family),
    {
        let b = &self.0;
        match family {
            AddressFamily::IPv4 => IpAddr::V4([b[0], b[1], b[2], b[3]]),
            AddressFamily::IPv6 => IpAddr::V6(
                [
                    b[0],
                    b[1],
                    b[2],
                    b[3],
                    b[4],
                    b[5],
                    b[6],
                    b[7],
                    b[8],
                    b[9],
                    b[10],
                    b[11],
                    b[12],
                    b[13],
                    b[14],
                    b[15],
                ],
            ),
        }
    }

    /// The 16 bytes the kernel expects for `addr`.
    pub fn from_ipaddr(addr: &IpAddr) -> (r: AddrBytes)
        ensures
            r@ == address_bytes(*addr),
    {
        let mut v: Vec<u8> = Vec::new();
        match addr {
            IpAddr::V4(o) => {
                let mut i: usize = 0;
                while i < 4
                    invariant
                        0 <= i <= 4,
                        v@ == o@.take(i as int),
                    decreases 4 - i,
                {
                    v.push(o[i]);
                    i = i + 1;
                }
                while i < 16
                    invariant
                        4 <= i <= 16,
                        v@ == o@ + Seq::new((i - 4) as nat, |j: int| 0u8),
                    decreases 16 - i,
                {
                    v.push(0u8);
                    i = i + 1;
                }
            },
            IpAddr::V6(o) => {
                let mut i: usize = 0;
                while i < 16
                    invariant
                        0 <= i <= 16,
                        v@ == o@.take(i as int),
                    decreases 16 - i,
                {
                    v.push(o[i]);
                    i = i + 1;
                }
            },
        }
        AddrBytes(v)
    }
}

/// An address written out as 16 bytes reads back as itself.
pub proof fn lemma_address_roundtrip(addr: IpAddr)
    ensures
        holds_address(address_bytes(addr), family_of(addr)),
        address_of(address_bytes(addr), family_of(addr)) == addr,
{
    match addr {
        IpAddr::V4(o) => {
            let b = address_bytes(addr);
            assert(b[0] == o[0] && b[1] == o[1] && b[2] == o[2] && b[3] == o[3]);
            let a = [b[0], b[1], b[2], b[3]];
            assert(a@ =~= o@);
            assert(a =~= o);
            assert(family_of(addr) == AddressFamily::IPv4);
            assert(address_of(b, family_of(addr)) == IpAddr::V4(a));
        },
        IpAddr::V6(o) => {
            let b = address_bytes(addr);
            let a = [
                b[0],
                b[1],
                b[2],
                b[3],
                b[4],
                b[5],
                b[6],
                b[7],
                b[8],
                b[9],
                b[10],
                b[11],
                b[12],
                b[13],
                b[14],
                b[15],
            ];
            assert(a@ =~= o@);
            assert(a =~= o);
            assert(family_of(addr) == AddressFamily::IPv6);
            assert(address_of(b, family_of(addr)) == IpAddr::V6(a));
        },
    }
}

/// Every address family reads back from its kernel number.
pub proof fn lemma_family_code_roundtrip(family: AddressFamily)
    ensures
        family_from_code(family_code(family)) == Ok::<AddressFamily, IpvsError>(family),
{
}

/// 64-bit traffic counters and rates of a service or a destination.
#[derive(Clone, Copy, Debug, PartialEq, Eq)]
pub struct Stats64 {
    pub connections: u64,
    pub incoming_packets: u64,
    pub outgoing_packets: u64,
    pub incoming_bytes: u64,
    pub outgoing_bytes: u64,
    pub connection_rate: u64,
    pub incoming_packet_rate: u64,
    pub outgoing_packet_rate: u64,
    pub incoming_byte_rate: u64,
    pub outgoing_byte_rate: u64,
}

/// Statistics with every counter and rate at zero.
pub open spec fn stats_zero() -> Stats64 {
    Stats64 {
        connections: 0,
        incoming_packets: 0,
        outgoing_packets: 0,
        incoming_bytes: 0,
        outgoing_bytes: 0,
        connection_rate: 0,
        incoming_packet_rate: 0,
        outgoing_packet_rate: 0,
        incoming_byte_rate: 0,
        outgoing_byte_rate: 0,
    }
}

impl Default for Stats64 {
    fn default() -> (r: Stats64)
        ensures
            r == stats_zero(),
    {
        Stats64 {
            connections: 0,
            incoming_packets: 0,
            outgoing_packets: 0,
            incoming_bytes: 0,
            outgoing_bytes: 0,
            connection_rate: 0,
            incoming_packet_rate: 0,
            outgoing_packet_rate: 0,
            incoming_byte_rate: 0,
            outgoing_byte_rate: 0,
        }
    }
}

/// One counter or rate of a statistics attribute.
#[derive(Clone, Copy, Debug, PartialEq, Eq)]
pub enum Stats64Attr {
    ConnCount(u64),
    IncPktCount(u64),
    OutPktCount(u64),
    IncByteCount(u64),
    OutByteCount(u64),
    ConnRate(u64),
    IncPktRate(u64),
    OutPktRate(u64),
    IncByteRate(u64),
    OutByteRate(u64),
}

/// `s` with the field that `a` carries set to its value.
pub open spec fn stats_with(s: Stats64, a: Stats64Attr) -> Stats64 {
    match a {
        Stats64Attr::ConnCount(v) => Stats64 { connections: v, ..s },
        Stats64Attr::IncPktCount(v) => Stats64 { incoming_packets: v, ..s },
        Stats64Attr::OutPktCount(v) => Stats64 { outgoing_packets: v, ..s },
        Stats64Attr::IncByteCount(v) => Stats64 { incoming_bytes: v, ..s },
        Stats64Attr::OutByteCount(v) => Stats64 { outgoing_bytes: v, ..s },
        Stats64Attr::ConnRate(v) => Stats64 { connection_rate: v, ..s },
        Stats64Attr::IncPktRate(v) => Stats64 { incoming_packet_rate: v, ..s },
        Stats64Attr::OutPktRate(v) => Stats64 { outgoing_packet_rate: v, ..s },
        Stats64Attr::IncByteRate(v) => Stats64 { incoming_byte_rate: v, ..s },
        Stats64Attr::OutByteRate(v) => Stats64 { outgoing_byte_rate: v, ..s },
    }
}

/// The statistics that `attrs` describe: zero everywhere, then each attribute
/// in turn sets its field, so the last one of a kind wins.
pub open spec fn stats_from_attrs(attrs: Seq<Stats64Attr>) -> Stats64
    decreases attrs.len(),
{
    if attrs.len() == 0 {
        stats_zero()
    } else {
        stats_with(stats_from_attrs(attrs.drop_last()), attrs.last())
    }
}

/// The statistics attribute of type `kind` whose payload is `p`.
pub open spec fn stats_attr_from(kind: u16, p: Seq<u8>) -> Result<Stats64Attr, IpvsError> {
    let v = le_u64(p) as u64;
    if kind == STATS_ATTR_CONNS {
        Ok(Stats64Attr::ConnCount(v))
    } else if kind == STATS_ATTR_INPKTS {
        Ok(Stats64Attr::IncPktCount(v))
    } else if kind == STATS_ATTR_OUTPKTS {
        Ok(Stats64Attr::OutPktCount(v))
    } else if kind == STATS_ATTR_INBYTES {
        Ok(Stats64Attr::IncByteCount(v))
    } else if kind == STATS_ATTR_OUTBYTES {
        Ok(Stats64Attr::OutByteCount(v))
    } else if kind == STATS_ATTR_CPS {
        Ok(Stats64Attr::ConnRate(v))
    } else if kind == STATS_ATTR_INPPS {
        Ok(Stats64Attr::IncPktRate(v))
    } else if kind == STATS_ATTR_OUTPPS {
        Ok(Stats64Attr::OutPktRate(v))
    } else if kind == STATS_ATTR_INBPS {
        Ok(Stats64Attr::IncByteRate(v))
    } else if kind == STATS_ATTR_OUTBPS {
        Ok(Stats64Attr::OutByteRate(v))
    } else {
        Err(IpvsError::UnknownStatsKind(kind))
    }
}

/// Decoding a statistics attribute of type `kind` with payload `p` does not
/// panic: a known type needs eight bytes at least.
pub open spec fn stats_value_ok(kind: u16, p: Seq<u8>) -> bool {
    1 <= kind <= 10 ==> p.len() >= 8
}

/// The statistics attribute at the start of `b`.
pub open spec fn stats_attr_at(b: Seq<u8>) -> Result<Stats64Attr, IpvsError> {
    stats_attr_from(frame_kind(b), frame_value(b))
}

/// Decoding the statistics attribute at the start of `b` does not panic.
pub open spec fn stats_attr_at_ok(b: Seq<u8>) -> bool {
    stats_value_ok(frame_kind(b), frame_value(b))
}

/// The decoder of one statistics attribute, as a value.
pub open spec fn stats_attr_parser() -> spec_fn(Seq<u8>) -> Result<Stats64Attr, IpvsError> {
    |b: Seq<u8>| stats_attr_at(b)
}

/// The no-panic condition of one statistics attribute, as a value.
pub open spec fn stats_attr_checker() -> spec_fn(Seq<u8>) -> bool {
    |b: Seq<u8>| stats_attr_at_ok(b)
}

/// The statistics carried by the nested attributes in `payload`.
pub open spec fn stats_from_payload(payload: Seq<u8>) -> Result<Stats64, IpvsError> {
    match parse_frames(payload, stats_attr_parser()) {
        Ok(attrs) => Ok(stats_from_attrs(attrs)),
        Err(e) => Err(e),
    }
}

/// Decoding the nested attributes in `payload` does not panic.
pub open spec fn stats_payload_ok(payload: Seq<u8>) -> bool {
    frames_ok(payload, stats_attr_checker(), stats_attr_parser())
}

impl Stats64Attr {
    /// The statistics attribute of type `kind` whose payload is `payload`: a
    /// little-endian 64-bit value; an unknown type is an error.
    pub fn parse_value(kind: u16, payload: &[u8]) -> (r: Result<Stats64Attr, IpvsError>)
        requires
            stats_value_ok(kind, payload@),
        ensures
            r == stats_attr_from(kind, payload@),
    {
        if kind == STATS_ATTR_CONNS {
            Ok(Stats64Attr::ConnCount(read_u64_le(payload)))
        } else if kind == STATS_ATTR_INPKTS {
            Ok(Stats64Attr::IncPktCount(read_u64_le(payload)))
        } else if kind == STATS_ATTR_OUTPKTS {
            Ok(Stats64Attr::OutPktCount(read_u64_le(payload)))
        } else if kind == STATS_ATTR_INBYTES {
            Ok(Stats64Attr::IncByteCount(read_u64_le(payload)))
        } else if kind == STATS_ATTR_OUTBYTES {
            Ok(Stats64Attr::OutByteCount(read_u64_le(payload)))
        } else if kind == STATS_ATTR_CPS {
            Ok(Stats64Attr::ConnRate(read_u64_le(payload)))
        } else if kind == STATS_ATTR_INPPS {
            Ok(Stats64Attr::IncPktRate(read_u64_le(payload)))
        } else if kind == STATS_ATTR_OUTPPS {
            Ok(Stats64Attr::OutPktRate(read_u64_le(payload)))
        } else if kind == STATS_ATTR_INBPS {
            Ok(Stats64Attr::IncByteRate(read_u64_le(payload)))
        } else if kind == STATS_ATTR_OUTBPS {
            Ok(Stats64Attr::OutByteRate(read_u64_le(payload)))
        } else {
            Err(IpvsError::UnknownStatsKind(kind))
        }
    }

    /// The statistics attribute at the start of `buf`, an attribute with its
    /// header.
    pub fn parse(buf: &[u8]) -> (r: Result<Stats64Attr, IpvsError>)
        requires
            frame_checked(buf@),
            stats_attr_at_ok(buf@),
        ensures
            r == stats_attr_at(buf@),
    {
        let payload = nla_value(buf);
        let kind = nla_kind(buf);
        Stats64Attr::parse_value(kind, payload.as_slice())
    }
}

impl Stats64Attr {
    /// Whether decoding a statistics attribute of type `kind` with payload
    /// `payload` would not panic.
    pub fn value_ok(kind: u16, payload: &[u8]) -> (r: bool)
        ensures
            r == stats_value_ok(kind, payload@),
    {
        !(1 <= kind && kind <= 10) || payload.len() >= 8
    }
}

impl Stats64 {
    /// Whether decoding the nested statistics attributes in `payload` would
    /// not panic.
    pub fn payload_ok(payload: &[u8]) -> (r: bool)
        ensures
            r == stats_payload_ok(payload@),
    {
        let mut it = nlas_iter(payload);
        loop
            invariant
                stats_payload_ok(payload@) == stats_payload_ok(nlas_remaining(it)),
            decreases nlas_remaining(it).len(),
        {
            match nlas_next(&mut it) {
                None => {
                    return true;
                },
                Some(Err(_)) => {
                    return true;
                },
                Some(Ok(nla)) => {
                    let payload = nla_value(nla);
                    let kind = nla_kind(nla);
                    if !Stats64Attr::value_ok(kind, payload.as_slice()) {
                        return false;
                    }
                    if !(1 <= kind && kind <= 10) {
                        return true;
                    }
                },
            }
        }
    }

    /// The statistics that `nlas` describe: zero everywhere, then each
    /// attribute in turn sets its field. It never fails.
    pub fn from_nlas(nlas: Vec<Stats64Attr>) -> (r: Result<Stats64, IpvsError>)
        ensures
            r == Ok::<Stats64, IpvsError>(stats_from_attrs(nlas@)),
    {
        let mut stats = Stats64::default();
        let mut i: usize = 0;
        while i < nlas.len()
            invariant
                0 <= i <= nlas@.len(),
                stats == stats_from_attrs(nlas@.take(i as int)),
            decreases nlas@.len() - i,
        {
            assert(nlas@.take(i + 1).drop_last() == nlas@.take(i as int));
            match nlas[i] {
                Stats64Attr::ConnCount(val) => stats.connections = val,
                Stats64Attr::IncPktCount(val) => stats.incoming_packets = val,
                Stats64Attr::OutPktCount(val) => stats.outgoing_packets = val,
                Stats64Attr::IncByteCount(val) => stats.incoming_bytes = val,
                Stats64Attr::OutByteCount(val) => stats.outgoing_bytes = val,
                Stats64Attr::ConnRate(val) => stats.connection_rate = val,
                Stats64Attr::IncPktRate(val) => stats.incoming_packet_rate = val,
                Stats64Attr::OutPktRate(val) => stats.outgoing_packet_rate = val,
                Stats64Attr::IncByteRate(val) => stats.incoming_byte_rate = val,
                Stats64Attr::OutByteRate(val) => stats.outgoing_byte_rate = val,
            }
            i = i + 1;
        }
        assert(nlas@.take(nlas@.len() as int) == nlas@);
        Ok(stats)
    }

    /// The statistics carried by the nested attributes in `payload`, the value
    /// of a statistics attribute of a service or a destination.
    pub fn parse_payload(payload: &[u8]) -> (r: Result<Stats64, IpvsError>)
        requires
            stats_payload_ok(payload@),
        ensures
            r == stats_from_payload(payload@),
    {
        let mut it = nlas_iter(payload);
        let mut attrs: Vec<Stats64Attr> = Vec::new();
        loop
            invariant
                stats_payload_ok(nlas_remaining(it)),
                parse_frames(payload@, stats_attr_parser()) == prepend(
                    attrs@,
                    parse_frames(nlas_remaining(it), stats_attr_parser()),
                ),
            ensures
                parse_frames(payload@, stats_attr_parser()) == Ok::<
                    Seq<Stats64Attr>,
                    IpvsError,
                >(attrs@),
            decreases nlas_remaining(it).len(),
        {
            let ghost rem = nlas_remaining(it);
            match nlas_next(&mut it) {
                None => {
                    assert(attrs@ + Seq::<Stats64Attr>::empty() == attrs@);
                    break ;
                },
                Some(Err(_)) => {
                    return Err(IpvsError::InvalidNla);
                },
                Some(Ok(nla)) => {
                    let a = Stats64Attr::parse(nla);
                    match a {
                        Err(e) => {
                            return Err(e);
                        },
                        Ok(a) => {
                            proof {
                                lemma_prepend_push(attrs@, a, parse_frames(nlas_remaining(it), stats_attr_parser()));
                            }
                            attrs.push(a);
                        },
                    }
                },
            }
        }
        Stats64::from_nlas(attrs)
    }
}

/// A top-level attribute, with its nested attributes by their views.
pub enum IpvsAttr {
    Service(Seq<SvcAttr>),
    Destination(Seq<DestAttr>),
}

/// A top-level attribute of an IPVS message: the attributes of a service or
/// of a destination, nested.
#[derive(Clone, Debug, PartialEq, Eq)]
pub enum IpvsCtrlAttrs {
    Service(Vec<SvcCtrlAttrs>),
    Destination(Vec<DestinationCtrlAttrs>),
}

impl View for IpvsCtrlAttrs {
    type V = IpvsAttr;

    open spec fn view(&self) -> IpvsAttr {
        match self {
            IpvsCtrlAttrs::Service(v) => IpvsAttr::Service(svc_views(v@)),
            IpvsCtrlAttrs::Destination(v) => IpvsAttr::Destination(dest_views(v@)),
        }
    }
}

/// The netlink type of a top-level attribute.
pub open spec fn ipvs_kind(a: IpvsAttr) -> u16 {
    match a {
        IpvsAttr::Service(_) => IPVS_CMD_ATTR_SERVICE,
        IpvsAttr::Destination(_) => IPVS_CMD_ATTR_DEST,
    }
}

/// A top-level attribute can be emitted: each nested attribute can, and their
/// total length fits in memory.
pub open spec fn ipvs_sendable(a: IpvsAttr) -> bool {
    match a {
        IpvsAttr::Service(xs) => svc_list_sendable(xs) && svc_list_len(xs) <= usize::MAX,
        IpvsAttr::Destination(xs) => dest_list_sendable(xs) && dest_list_len(xs) <= usize::MAX,
    }
}

/// A top-level attribute's value length can be computed: each nested service
/// attribute has a wire form (statistics have none, a netmask needs its family),
/// and the total length fits in memory.
pub open spec fn ipvs_sizable(a: IpvsAttr) -> bool {
    match a {
        IpvsAttr::Service(xs) => (forall|i: int|
            0 <= i < xs.len() ==> crate::ctrl::nlas::service::svc_sendable(#[trigger] xs[i]))
            && svc_list_len(xs) <= usize::MAX,
        IpvsAttr::Destination(xs) => dest_list_len(xs) <= usize::MAX,
    }
}

/// The length of a top-level attribute's value: its nested attributes.
pub open spec fn ipvs_value_len(a: IpvsAttr) -> nat {
    match a {
        IpvsAttr::Service(xs) => svc_list_len(xs),
        IpvsAttr::Destination(xs) => dest_list_len(xs),
    }
}

/// The value of a top-level attribute: its nested attributes one after
/// another.
pub open spec fn ipvs_value_bytes(a: IpvsAttr) -> Seq<u8> {
    match a {
        IpvsAttr::Service(xs) => svc_list_bytes(xs),
        IpvsAttr::Destination(xs) => dest_list_bytes(xs),
    }
}

/// The top-level attribute of type `kind` whose payload is `p`: the nested
/// attributes of a service (type 1) or of a destination (any other type).
pub open spec fn ipvs_parse_value(kind: u16, p: Seq<u8>) -> Result<IpvsAttr, IpvsError> {
    if kind == IPVS_CMD_ATTR_SERVICE {
        match parse_frames(p, svc_attr_parser()) {
            Ok(xs) => Ok(IpvsAttr::Service(xs)),
            Err(e) => Err(e),
        }
    } else {
        match parse_frames(p, dest_attr_parser()) {
            Ok(xs) => Ok(IpvsAttr::Destination(xs)),
            Err(e) => Err(e),
        }
    }
}

/// Decoding a top-level attribute of type `kind` with payload `p` does not
/// panic: the type is a service or a destination, and its nested attributes
/// decode without panicking.
pub open spec fn ipvs_value_ok(kind: u16, p: Seq<u8>) -> bool {
    if kind == IPVS_CMD_ATTR_SERVICE {
        frames_ok(p, svc_attr_checker(), svc_attr_parser())
    } else {
        kind == IPVS_CMD_ATTR_DEST && frames_ok(p, dest_attr_checker(), dest_attr_parser())
    }
}

/// The top-level attribute at the start of `b`, an attribute with its header.
pub open spec fn ipvs_attr_at(b: Seq<u8>) -> Result<IpvsAttr, IpvsError> {
    ipvs_parse_value(frame_kind(b), frame_value(b))
}

/// Decoding the top-level attribute at the start of `b` does not panic.
pub open spec fn ipvs_attr_at_ok(b: Seq<u8>) -> bool {
    ipvs_value_ok(frame_kind(b), frame_value(b))
}

/// The service attributes laid out in `payload`.
fn parse_svc_list(payload: &[u8]) -> (r: Result<Vec<SvcCtrlAttrs>, IpvsError>)
    requires
        frames_ok(payload@, svc_attr_checker(), svc_attr_parser()),
    ensures
        match r {
            Ok(v) => parse_frames(payload@, svc_attr_parser()) == Ok::<
                Seq<SvcAttr>,
                IpvsError,
            >(svc_views(v@)),
            Err(e) => parse_frames(payload@, svc_attr_parser()) == Err::<Seq<SvcAttr>, IpvsError>(
                e,
            ),
        },
{
    let mut it = nlas_iter(payload);
    let mut attrs: Vec<SvcCtrlAttrs> = Vec::new();
    loop
        invariant
            frames_ok(nlas_remaining(it), svc_attr_checker(), svc_attr_parser()),
            parse_frames(payload@, svc_attr_parser()) == prepend(
                svc_views(attrs@),
                parse_frames(nlas_remaining(it), svc_attr_parser()),
            ),
        ensures
            parse_frames(payload@, svc_attr_parser()) == Ok::<Seq<SvcAttr>, IpvsError>(
                svc_views(attrs@),
            ),
        decreases nlas_remaining(it).len(),
    {
        let ghost rem = nlas_remaining(it);
        let ghost before = svc_views(attrs@);
        match nlas_next(&mut it) {
            None => {
                assert(svc_views(attrs@) + Seq::<SvcAttr>::empty() == svc_views(attrs@));
                break ;
            },
            Some(Err(_)) => {
                return Err(IpvsError::InvalidNla);
            },
            Some(Ok(nla)) => {
                match SvcCtrlAttrs::parse(nla) {
                    Err(e) => {
                        return Err(e);
                    },
                    Ok(a) => {
                        proof {
                            lemma_prepend_push(
                                before,
                                a@,
                                parse_frames(nlas_remaining(it), svc_attr_parser()),
                            );
                            assert(parse_frames(rem, svc_attr_parser()) == prepend(
                                seq![a@],
                                parse_frames(nlas_remaining(it), svc_attr_parser()),
                            ));
                        }
                        attrs.push(a);
                        assert(svc_views(attrs@) =~= before.push(a@));
                    },
                }
            },
        }
    }
    Ok(attrs)
}

/// The destination attributes laid out in `payload`.
fn parse_dest_list(payload: &[u8]) -> (r: Result<Vec<DestinationCtrlAttrs>, IpvsError>)
    requires
        frames_ok(payload@, dest_attr_checker(), dest_attr_parser()),
    ensures
        match r {
            Ok(v) => parse_frames(payload@, dest_attr_parser()) == Ok::<
                Seq<DestAttr>,
                IpvsError,
            >(dest_views(v@)),
            Err(e) => parse_frames(payload@, dest_attr_parser()) == Err::<
                Seq<DestAttr>,
                IpvsError,
            >(e),
        },
{
    let mut it = nlas_iter(payload);
    let mut attrs: Vec<DestinationCtrlAttrs> = Vec::new();
    loop
        invariant
            frames_ok(nlas_remaining(it), dest_attr_checker(), dest_attr_parser()),
            parse_frames(payload@, dest_attr_parser()) == prepend(
                dest_views(attrs@),
                parse_frames(nlas_remaining(it), dest_attr_parser()),
            ),
        ensures
            parse_frames(payload@, dest_attr_parser()) == Ok::<Seq<DestAttr>, IpvsError>(
                dest_views(attrs@),
            ),
        decreases nlas_remaining(it).len(),
    {
        let ghost rem = nlas_remaining(it);
        let ghost before = dest_views(attrs@);
        match nlas_next(&mut it) {
            None => {
                assert(dest_views(attrs@) + Seq::<DestAttr>::empty() == dest_views(attrs@));
                break ;
            },
            Some(Err(_)) => {
                return Err(IpvsError::InvalidNla);
            },
            Some(Ok(nla)) => {
                match DestinationCtrlAttrs::parse(nla) {
                    Err(e) => {
                        return Err(e);
                    },
                    Ok(a) => {
                        proof {
                            lemma_prepend_push(
                                before,
                                a@,
                                parse_frames(nlas_remaining(it), dest_attr_parser()),
                            );
                            assert(parse_frames(rem, dest_attr_parser()) == prepend(
                                seq![a@],
                                parse_frames(nlas_remaining(it), dest_attr_parser()),
                            ));
                        }
                        attrs.push(a);
                        assert(dest_views(attrs@) =~= before.push(a@));
                    },
                }
            },
        }
    }
    Ok(attrs)
}

/// The wire length of the service attributes `v`, one after another.
fn svc_list_wire_len(v: &Vec<SvcCtrlAttrs>) -> (r: usize)
    requires
        forall|i: int|
            0 <= i < v@.len() ==> crate::ctrl::nlas::service::svc_sendable(
                #[trigger] svc_views(v@)[i],
            ),
        svc_list_len(svc_views(v@)) <= usize::MAX,
    ensures
        r == svc_list_len(svc_views(v@)),
{
    let ghost views = svc_views(v@);
    let mut total: usize = 0;
    let mut i: usize = 0;
    while i < v.len()
        invariant
            0 <= i <= v@.len(),
            views == svc_views(v@),
            forall|j: int|
                0 <= j < views.len() ==> crate::ctrl::nlas::service::svc_sendable(
                    #[trigger] views[j],
                ),
            svc_list_len(views) <= usize::MAX,
            total == svc_list_len(views.take(i as int)),
        decreases v@.len() - i,
    {
        proof {
            lemma_svc_list_len_prefix(views, i + 1);
            assert(views.take(i + 1).drop_last() == views.take(i as int));
            assert(views[i as int] == v@[i as int]@);
        }
        total = total + v[i].buffer_len();
        i = i + 1;
    }
    assert(views.take(i as int) == views);
    total
}

/// The wire length of the destination attributes `v`, one after another.
fn dest_list_wire_len(v: &Vec<DestinationCtrlAttrs>) -> (r: usize)
    requires
        dest_list_len(dest_views(v@)) <= usize::MAX,
    ensures
        r == dest_list_len(dest_views(v@)),
{
    let ghost views = dest_views(v@);
    let mut total: usize = 0;
    let mut i: usize = 0;
    while i < v.len()
        invariant
            0 <= i <= v@.len(),
            views == dest_views(v@),
            dest_list_len(views) <= usize::MAX,
            total == dest_list_len(views.take(i as int)),
        decreases v@.len() - i,
    {
        proof {
            lemma_dest_list_len_prefix(views, i + 1);
            assert(views.take(i + 1).drop_last() == views.take(i as int));
            assert(views[i as int] == v@[i as int]@);
        }
        total = total + v[i].buffer_len();
        i = i + 1;
    }
    assert(views.take(i as int) == views);
    total
}

/// The service attributes `v`, each with its header and padding, one after
/// another.
fn svc_list_emit(v: &Vec<SvcCtrlAttrs>) -> (r: Vec<u8>)
    requires
        svc_list_sendable(svc_views(v@)),
        svc_list_len(svc_views(v@)) <= usize::MAX,
    ensures
        r@ == svc_list_bytes(svc_views(v@)),
{
    let ghost views = svc_views(v@);
    let mut out: Vec<u8> = Vec::new();
    let mut i: usize = 0;
    while i < v.len()
        invariant
            0 <= i <= v@.len(),
            views == svc_views(v@),
            svc_list_sendable(views),
            svc_list_len(views) <= usize::MAX,
            out@ == svc_list_bytes(views.take(i as int)),
        decreases v@.len() - i,
    {
        let ghost a = views[i as int];
        proof {
            lemma_svc_list_len_prefix(views, i + 1);
            assert(views.take(i + 1).drop_last() == views.take(i as int));
            assert(views[i as int] == v@[i as int]@);
            assert(crate::ctrl::nlas::service::svc_sendable(views[i as int]));
            lemma_svc_value_bytes_len(a);
            lemma_frame_len(svc_kind(a), svc_value_bytes(a, svc_value_len(a)));
        }
        let n = v[i].buffer_len();
        let mut frame: Vec<u8> = vec![0u8; n];
        v[i].emit(frame.as_mut_slice());
        assert(frame@ =~= nla_frame(svc_kind(a), svc_value_bytes(a, svc_value_len(a))));
        out.append(&mut frame);
        i = i + 1;
    }
    assert(views.take(i as int) == views);
    out
}

/// The destination attributes `v`, each with its header and padding, one
/// after another.
fn dest_list_emit(v: &Vec<DestinationCtrlAttrs>) -> (r: Vec<u8>)
    requires
        dest_list_sendable(dest_views(v@)),
        dest_list_len(dest_views(v@)) <= usize::MAX,
    ensures
        r@ == dest_list_bytes(dest_views(v@)),
{
    let ghost views = dest_views(v@);
    let mut out: Vec<u8> = Vec::new();
    let mut i: usize = 0;
    while i < v.len()
        invariant
            0 <= i <= v@.len(),
            views == dest_views(v@),
            dest_list_sendable(views),
            dest_list_len(views) <= usize::MAX,
            out@ == dest_list_bytes(views.take(i as int)),
        decreases v@.len() - i,
    {
        let ghost a = views[i as int];
        proof {
            lemma_dest_list_len_prefix(views, i + 1);
            assert(views.take(i + 1).drop_last() == views.take(i as int));
            assert(views[i as int] == v@[i as int]@);
            assert(crate::ctrl::nlas::destination::dest_emit_ok(a, dest_value_len(a)));
            lemma_dest_value_bytes_len(a);
            lemma_frame_len(dest_kind(a), dest_value_bytes(a));
        }
        let n = v[i].buffer_len();
        let mut frame: Vec<u8> = vec![0u8; n];
        v[i].emit(frame.as_mut_slice());
        assert(frame@ =~= nla_frame(dest_kind(a), dest_value_bytes(a)));
        out.append(&mut frame);
        i = i + 1;
    }
    assert(views.take(i as int) == views);
    out
}

impl IpvsCtrlAttrs {
    /// Top-level attributes always nest others.
    pub fn is_nested(&self) -> (r: bool)
        ensures
            r,
    {
        true
    }

    /// The netlink type of the attribute.
    pub fn kind(&self) -> (r: u16)
        ensures
            r == ipvs_kind(self@),
    {
        match self {
            IpvsCtrlAttrs::Service(_) => IPVS_CMD_ATTR_SERVICE,
            IpvsCtrlAttrs::Destination(_) => IPVS_CMD_ATTR_DEST,
        }
    }

    /// The length of the attribute's value: its nested attributes, each with
    /// header and padding.
    pub fn value_len(&self) -> (r: usize)
        requires
            ipvs_sizable(self@),
        ensures
            r == ipvs_value_len(self@),
    {
        match self {
            IpvsCtrlAttrs::Service(nla) => svc_list_wire_len(nla),
            IpvsCtrlAttrs::Destination(nla) => dest_list_wire_len(nla),
        }
    }

    /// Writes the nested attributes one after another at the start of
    /// `buffer`.
    pub fn emit_value(&self, buffer: &mut [u8])
        requires
            ipvs_sendable(self@),
            old(buffer)@.len() >= ipvs_value_len(self@),
        ensures
            final(buffer)@ == overwrite_prefix(old(buffer)@, ipvs_value_bytes(self@)),
    {
        match self {
            IpvsCtrlAttrs::Service(nla) => {
                proof {
                    lemma_svc_list_bytes_len(svc_views(nla@));
                }
                let bytes = svc_list_emit(nla);
                copy_prefix(buffer, bytes.as_slice());
            },
            IpvsCtrlAttrs::Destination(nla) => {
                proof {
                    lemma_dest_list_bytes_len(dest_views(nla@));
                }
                let bytes = dest_list_emit(nla);
                copy_prefix(buffer, bytes.as_slice());
            },
        }
    }

    /// The top-level attribute of type `kind` whose payload is `payload`: the
    /// nested attributes of a service or of a destination.
    pub fn parse_value(kind: u16, payload: &[u8]) -> (r: Result<IpvsCtrlAttrs, IpvsError>)
        requires
            ipvs_value_ok(kind, payload@),
        ensures
            view_result(r) == ipvs_parse_value(kind, payload@),
    {
        if kind == IPVS_CMD_ATTR_SERVICE {
            match parse_svc_list(payload) {
                Ok(v) => Ok(IpvsCtrlAttrs::Service(v)),
                Err(e) => Err(e),
            }
        } else {
            match parse_dest_list(payload) {
                Ok(v) => Ok(IpvsCtrlAttrs::Destination(v)),
                Err(e) => Err(e),
            }
        }
    }

    /// The top-level attribute at the start of `buf`, an attribute with its
    /// header.
    pub fn parse(buf: &[u8]) -> (r: Result<IpvsCtrlAttrs, IpvsError>)
        requires
            frame_checked(buf@),
            ipvs_attr_at_ok(buf@),
        ensures
            view_result(r) == ipvs_attr_at(buf@),
    {
        let payload = nla_value(buf);
        let kind = nla_kind(buf);
        IpvsCtrlAttrs::parse_value(kind, payload.as_slice())
    }

    /// The length of the attribute on the wire: header, value and padding.
    pub fn buffer_len(&self) -> (r: usize)
        requires
            ipvs_sizable(self@),
            nla_align(ipvs_value_len(self@) as int) + 4 <= usize::MAX,
        ensures
            r == nla_align(ipvs_value_len(self@) as int) + 4,
    {
        let vl = self.value_len();
        (vl + 3) / 4 * 4 + 4
    }

    /// Writes the attribute, header (with the nested flag) and padding
    /// included, at the start of `buffer`.
    pub fn emit(&self, buffer: &mut [u8])
        requires
            ipvs_sendable(self@),
            ipvs_value_len(self@) + 4 <= u16::MAX,
            old(buffer)@.len() >= 4 + nla_align(ipvs_value_len(self@) as int),
        ensures
            final(buffer)@ == nla_frame(
                (ipvs_kind(self@) + 0x8000) as u16,
                ipvs_value_bytes(self@),
            ) + old(buffer)@.skip(4 + nla_align(ipvs_value_len(self@) as int)),
    {
        let vl = self.value_len();
        let mut value: Vec<u8> = vec![0u8; vl];
        self.emit_value(value.as_mut_slice());
        proof {
            match self@ {
                IpvsAttr::Service(xs) => lemma_svc_list_bytes_len(xs),
                IpvsAttr::Destination(xs) => lemma_dest_list_bytes_len(xs),
            }
        }
        assert(value@ =~= ipvs_value_bytes(self@));
        emit_nla(self.kind() + 0x8000, value.as_slice(), buffer);
    }
}

/// A top-level attribute that reads back as what `ipvs_received` says: its
/// nested attributes each round-trip, and the whole fits the 16-bit length
/// field.
pub open spec fn ipvs_roundtrips(a: IpvsAttr) -> bool {
    match a {
        IpvsAttr::Service(xs) => svc_list_roundtrips(xs) && svc_list_len(xs) + 4 <= u16::MAX,
        IpvsAttr::Destination(xs) => dest_list_roundtrips(xs) && dest_list_len(xs) + 4 <= u16::MAX,
    }
}

/// What reading back a written top-level attribute gives: its nested
/// attributes as each reads back.
pub open spec fn ipvs_received(a: IpvsAttr) -> IpvsAttr {
    match a {
        IpvsAttr::Service(xs) => IpvsAttr::Service(svc_list_received(xs)),
        IpvsAttr::Destination(xs) => IpvsAttr::Destination(dest_list_received(xs)),
    }
}

/// A top-level attribute whose nested attributes round-trip, emitted with its
/// header (nested flag set) and followed by any bytes, parses back as what
/// `ipvs_received` says, and parsing it does not panic.
pub proof fn lemma_ipvs_attr_roundtrip(a: IpvsAttr, rest: Seq<u8>)
    requires
        ipvs_roundtrips(a),
    ensures
        ({
            let b = nla_frame((ipvs_kind(a) + 0x8000) as u16, ipvs_value_bytes(a)) + rest;
            &&& frame_checked(b)
            &&& ipvs_attr_at_ok(b)
            &&& ipvs_attr_at(b) == Ok::<IpvsAttr, IpvsError>(ipvs_received(a))
        }),
{
    let k = (ipvs_kind(a) + 0x8000) as u16;
    assert(type_field(k) % 0x4000 == ipvs_kind(a));
    match a {
        IpvsAttr::Service(xs) => {
            assert(svc_list_sendable(xs)) by {
                assert forall|i: int| 0 <= i < xs.len() implies crate::ctrl::nlas::service::svc_sendable(
                    #[trigger] xs[i],
                ) && svc_value_len(xs[i]) + 4 <= u16::MAX by {
                    assert(crate::ctrl::nlas::service::svc_roundtrips(xs[i]));
                }
            }
            lemma_svc_list_bytes_len(xs);
            lemma_svc_list_roundtrip(xs);
        },
        IpvsAttr::Destination(xs) => {
            assert(dest_list_sendable(xs)) by {
                assert forall|i: int| 0 <= i < xs.len() implies crate::ctrl::nlas::destination::dest_emit_ok(
                    #[trigger] xs[i],
                    dest_value_len(xs[i]),
                ) by {
                    assert(crate::ctrl::nlas::destination::dest_roundtrips(xs[i]));
                }
            }
            lemma_dest_list_bytes_len(xs);
            lemma_dest_list_roundtrip(xs);
        },
    }
    lemma_frame_roundtrip(k, ipvs_value_bytes(a), rest);
}

/// Whether decoding the service attributes laid out in `payload` would not
/// panic.
fn svc_list_ok(payload: &[u8]) -> (r: bool)
    ensures
        r == frames_ok(payload@, svc_attr_checker(), svc_attr_parser()),
{
    let mut it = nlas_iter(payload);
    loop
        invariant
            frames_ok(payload@, svc_attr_checker(), svc_attr_parser()) == frames_ok(
                nlas_remaining(it),
                svc_attr_checker(),
                svc_attr_parser(),
            ),
        decreases nlas_remaining(it).len(),
    {
        match nlas_next(&mut it) {
            None => {
                return true;
            },
            Some(Err(_)) => {
                return true;
            },
            Some(Ok(nla)) => {
                if !SvcCtrlAttrs::parse_ok(nla) {
                    return false;
                }
                if SvcCtrlAttrs::parse(nla).is_err() {
                    return true;
                }
            },
        }
    }
}

/// Whether decoding the destination attributes laid out in `payload` would
/// not panic.
fn dest_list_ok(payload: &[u8]) -> (r: bool)
    ensures
        r == frames_ok(payload@, dest_attr_checker(), dest_attr_parser()),
{
    let mut it = nlas_iter(payload);
    loop
        invariant
            frames_ok(payload@, dest_attr_checker(), dest_attr_parser()) == frames_ok(
                nlas_remaining(it),
                dest_attr_checker(),
                dest_attr_parser(),
            ),
        decreases nlas_remaining(it).len(),
    {
        match nlas_next(&mut it) {
            None => {
                return true;
            },
            Some(Err(_)) => {
                return true;
            },
            Some(Ok(nla)) => {
                if !DestinationCtrlAttrs::parse_ok(nla) {
                    return false;
                }
                if DestinationCtrlAttrs::parse(nla).is_err() {
                    return true;
                }
            },
        }
    }
}

/// Whether the service attributes `v` can be emitted, and their total wire
/// length fits in memory.
fn svc_list_sendable_exec(v: &Vec<SvcCtrlAttrs>) -> (r: bool)
    ensures
        r == (svc_list_sendable(svc_views(v@)) && svc_list_len(svc_views(v@)) <= usize::MAX),
{
    let ghost views = svc_views(v@);
    let mut total: usize = 0;
    let mut i: usize = 0;
    while i < v.len()
        invariant
            0 <= i <= v@.len(),
            views == svc_views(v@),
            svc_list_sendable(views.take(i as int)),
            total == svc_list_len(views.take(i as int)),
        decreases v@.len() - i,
    {
        proof {
            assert(views.take(i + 1).drop_last() == views.take(i as int));
            assert(views[i as int] == v@[i as int]@);
        }
        if !v[i].is_sendable() {
            proof {
                lemma_svc_not_sendable(views, i as int);
            }
            return false;
        }
        let vl = v[i].value_len();
        if vl > 0xffff - 4 {
            proof {
                lemma_svc_not_sendable(views, i as int);
            }
            return false;
        }
        let n = (vl + 3) / 4 * 4 + 4;
        if total > usize::MAX - n {
            proof {
                lemma_svc_list_len_prefix(views, i + 1);
            }
            return false;
        }
        total = total + n;
        i = i + 1;
        proof {
            assert forall|j: int| 0 <= j < views.take(i as int).len() implies crate::ctrl::nlas::service::svc_sendable(
                #[trigger] views.take(i as int)[j],
            ) && svc_value_len(views.take(i as int)[j]) + 4 <= u16::MAX by {
                if j < i - 1 {
                    assert(views.take(i as int)[j] == views.take(i - 1)[j]);
                }
            }
        }
    }
    assert(views.take(i as int) == views);
    true
}

/// When one attribute of `xs` cannot be emitted, the list cannot.
proof fn lemma_svc_not_sendable(xs: Seq<SvcAttr>, i: int)
    requires
        0 <= i < xs.len(),
        !(crate::ctrl::nlas::service::svc_sendable(xs[i]) && svc_value_len(xs[i]) + 4 <= u16::MAX),
    ensures
        !svc_list_sendable(xs),
{
}

/// Whether the destination attributes `v` can be emitted, and their total
/// wire length fits in memory.
fn dest_list_sendable_exec(v: &Vec<DestinationCtrlAttrs>) -> (r: bool)
    ensures
        r == (dest_list_sendable(dest_views(v@)) && dest_list_len(dest_views(v@)) <= usize::MAX),
{
    let ghost views = dest_views(v@);
    let mut total: usize = 0;
    let mut i: usize = 0;
    while i < v.len()
        invariant
            0 <= i <= v@.len(),
            views == dest_views(v@),
            dest_list_sendable(views.take(i as int)),
            total == dest_list_len(views.take(i as int)),
        decreases v@.len() - i,
    {
        proof {
            assert(views.take(i + 1).drop_last() == views.take(i as int));
            assert(views[i as int] == v@[i as int]@);
        }
        let vl = v[i].value_len();
        if !v[i].emit_value_ok(vl) {
            return false;
        }
        let n = (vl + 3) / 4 * 4 + 4;
        if total > usize::MAX - n {
            proof {
                lemma_dest_list_len_prefix(views, i + 1);
            }
            return false;
        }
        total = total + n;
        i = i + 1;
        proof {
            assert forall|j: int| 0 <= j < views.take(i as int).len() implies crate::ctrl::nlas::destination::dest_emit_ok(
                #[trigger] views.take(i as int)[j],
                dest_value_len(views.take(i as int)[j]),
            ) by {
                if j < i - 1 {
                    assert(views.take(i as int)[j] == views.take(i - 1)[j]);
                }
            }
        }
    }
    assert(views.take(i as int) == views);
    true
}

/// Whether each service attribute of `v` has a wire form and their total wire
/// length fits in memory.
fn svc_list_sizable_exec(v: &Vec<SvcCtrlAttrs>) -> (r: bool)
    ensures
        r == ((forall|i: int|
            0 <= i < v@.len() ==> crate::ctrl::nlas::service::svc_sendable(
                #[trigger] svc_views(v@)[i],
            )) && svc_list_len(svc_views(v@)) <= usize::MAX),
{
    let ghost views = svc_views(v@);
    let mut total: usize = 0;
    let mut i: usize = 0;
    while i < v.len()
        invariant
            0 <= i <= v@.len(),
            views == svc_views(v@),
            forall|j: int|
                0 <= j < i ==> crate::ctrl::nlas::service::svc_sendable(#[trigger] views[j]),
            total == svc_list_len(views.take(i as int)),
        decreases v@.len() - i,
    {
        proof {
            assert(views.take(i + 1).drop_last() == views.take(i as int));
            assert(views[i as int] == v@[i as int]@);
        }
        if !v[i].is_sendable() {
            return false;
        }
        let vl = v[i].value_len();
        if vl > usize::MAX - 7 {
            proof {
                lemma_svc_list_len_prefix(views, i + 1);
            }
            return false;
        }
        let n = (vl + 3) / 4 * 4 + 4;
        if total > usize::MAX - n {
            proof {
                lemma_svc_list_len_prefix(views, i + 1);
            }
            return false;
        }
        total = total + n;
        i = i + 1;
    }
    assert(views.take(i as int) == views);
    true
}

/// Whether the total wire length of the destination attributes `v` fits in
/// memory.
fn dest_list_sizable_exec(v: &Vec<DestinationCtrlAttrs>) -> (r: bool)
    ensures
        r == (dest_list_len(dest_views(v@)) <= usize::MAX),
{
    let ghost views = dest_views(v@);
    let mut total: usize = 0;
    let mut i: usize = 0;
    while i < v.len()
        invariant
            0 <= i <= v@.len(),
            views == dest_views(v@),
            total == dest_list_len(views.take(i as int)),
        decreases v@.len() - i,
    {
        proof {
            assert(views.take(i + 1).drop_last() == views.take(i as int));
            assert(views[i as int] == v@[i as int]@);
        }
        let n = v[i].buffer_len();
        if total > usize::MAX - n {
            proof {
                lemma_dest_list_len_prefix(views, i + 1);
            }
            return false;
        }
        total = total + n;
        i = i + 1;
    }
    assert(views.take(i as int) == views);
    true
}

impl IpvsCtrlAttrs {
    /// Whether `value_len` and `buffer_len` can size the attribute: each
    /// nested service attribute has a wire form, and the total length fits in
    /// memory.
    pub fn value_len_ok(&self) -> (r: bool)
        ensures
            r == ipvs_sizable(self@),
    {
        match self {
            IpvsCtrlAttrs::Service(v) => svc_list_sizable_exec(v),
            IpvsCtrlAttrs::Destination(v) => dest_list_sizable_exec(v),
        }
    }
}

impl IpvsCtrlAttrs {
    /// Whether the attribute can be emitted: each nested attribute can, and
    /// their total length fits in memory.
    pub fn is_sendable(&self) -> (r: bool)
        ensures
            r == ipvs_sendable(self@),
    {
        match self {
            IpvsCtrlAttrs::Service(v) => svc_list_sendable_exec(v),
            IpvsCtrlAttrs::Destination(v) => dest_list_sendable_exec(v),
        }
    }

    /// Whether decoding a top-level attribute of type `kind` with payload
    /// `payload` would not panic.
    pub fn value_ok(kind: u16, payload: &[u8]) -> (r: bool)
        ensures
            r == ipvs_value_ok(kind, payload@),
    {
        if kind == IPVS_CMD_ATTR_SERVICE {
            svc_list_ok(payload)
        } else if kind == IPVS_CMD_ATTR_DEST {
            dest_list_ok(payload)
        } else {
            false
        }
    }

    /// Whether `parse` on `buf` would not panic.
    pub fn parse_ok(buf: &[u8]) -> (r: bool)
        ensures
            r == (frame_checked(buf@) && ipvs_attr_at_ok(buf@)),
    {
        match nla_check(buf) {
            Err(_) => false,
            Ok(()) => {
                let payload = nla_value(buf);
                let kind = nla_kind(buf);
                IpvsCtrlAttrs::value_ok(kind, payload.as_slice())
            },
        }
    }
}

/// Statistics attributes, as the kernel numbers them: connections 1,
/// incoming and outgoing packets 2 and 3, incoming and outgoing bytes 4 and
/// 5, then the rates in the same order, 6 to 10; each carries a 64-bit value
/// least significant byte first.
pub proof fn lemma_stats_kind_numbers(p: Seq<u8>)
    ensures
        ({
            let v = le_u64(p) as u64;
            &&& stats_attr_from(1u16, p) == Ok::<Stats64Attr, IpvsError>(Stats64Attr::ConnCount(v))
            &&& stats_attr_from(2u16, p) == Ok::<Stats64Attr, IpvsError>(Stats64Attr::IncPktCount(v))
            &&& stats_attr_from(3u16, p) == Ok::<Stats64Attr, IpvsError>(Stats64Attr::OutPktCount(v))
            &&& stats_attr_from(4u16, p) == Ok::<Stats64Attr, IpvsError>(Stats64Attr::IncByteCount(v))
            &&& stats_attr_from(5u16, p) == Ok::<Stats64Attr, IpvsError>(Stats64Attr::OutByteCount(v))
            &&& stats_attr_from(6u16, p) == Ok::<Stats64Attr, IpvsError>(Stats64Attr::ConnRate(v))
            &&& stats_attr_from(7u16, p) == Ok::<Stats64Attr, IpvsError>(Stats64Attr::IncPktRate(v))
            &&& stats_attr_from(8u16, p) == Ok::<Stats64Attr, IpvsError>(Stats64Attr::OutPktRate(v))
            &&& stats_attr_from(9u16, p) == Ok::<Stats64Attr, IpvsError>(Stats64Attr::IncByteRate(v))
            &&& stats_attr_from(10u16, p) == Ok::<Stats64Attr, IpvsError>(Stats64Attr::OutByteRate(v))
        }),
{
}

/// Top-level attributes, as the kernel numbers them: a service is 1, a
/// destination 2.
pub proof fn lemma_ipvs_kind_numbers(xs: Seq<SvcAttr>, ys: Seq<DestAttr>)
    ensures
        ipvs_kind(IpvsAttr::Service(xs)) == 1,
        ipvs_kind(IpvsAttr::Destination(ys)) == 2,
{
}

} // verus!
