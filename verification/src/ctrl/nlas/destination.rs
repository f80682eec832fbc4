//! IPVS destinations (real servers): their attributes, the attributes'
//! encoding, and the conversion between a destination and its attribute list.

use vstd::prelude::*;

use crate::constants::{
    IPVS_DEST_ATTR_ACTIVE_CONNS, IPVS_DEST_ATTR_ADDR, IPVS_DEST_ATTR_ADDR_FAMILY,
    IPVS_DEST_ATTR_FWD_METHOD, IPVS_DEST_ATTR_INACT_CONNS, IPVS_DEST_ATTR_L_THRESH,
    IPVS_DEST_ATTR_PERSIST_CONNS, IPVS_DEST_ATTR_PORT, IPVS_DEST_ATTR_STATS,
    IPVS_DEST_ATTR_STATS64, IPVS_DEST_ATTR_TUN_FLAGS, IPVS_DEST_ATTR_TUN_PORT,
    IPVS_DEST_ATTR_TUN_TYPE, IPVS_DEST_ATTR_U_THRESH, IPVS_DEST_ATTR_WEIGHT, IPVS_SVC_ATTR_STATS,
};
use crate::ctrl::nlas::{
    address_bytes, address_of, family_code, family_from_code, family_of, holds_address,
    stats_from_payload, stats_payload_ok, view_result, AddrBytes, AddressFamily, IpAddr, Stats64,
};
use crate::error::{IpvsError, RequiredAttr};
use crate::netlink::{
    nla_check, emit_nla, frames_ok, parse_frames, after_frame, type_field, frame_checked, frame_kind, frame_value, nla_align, nla_frame, nla_kind, nla_value,
    parse_u16, parse_u32,
};
use crate::wire::{
    be_u16, copy_prefix, native_u16, u16_be_bytes, native_u32, overwrite_prefix, read_u16_be, u16_native_bytes, write_u16_be,
    u32_native_bytes, write_u16_native, write_u32_native,
};

verus! {

/// The kind of tunnel of a tunnelling destination.
#[derive(Copy, Clone, Debug, PartialEq, Eq)]
pub enum TunnelType {
    /// IP-in-IP, the kind the kernel's number 0 stands for.
    IpIp,
}

/// Tunnel flags, as the kernel defines them.
#[derive(Copy, Clone, Debug, PartialEq, Eq)]
pub struct TunnelFlags(pub u16);

impl From<u16> for TunnelFlags {
    fn from(value: u16) -> (r: TunnelFlags) {
        TunnelFlags(value)
    }
}

impl vstd::std_specs::convert::FromSpecImpl<u16> for TunnelFlags {
    open spec fn obeys_from_spec() -> bool {
        true
    }

    open spec fn from_spec(v: u16) -> TunnelFlags {
        TunnelFlags(v)
    }
}

/// How packets reach a destination, with the tunnel's settings when they are
/// tunnelled.
#[derive(Clone, Debug, PartialEq, Eq, Copy)]
pub enum ForwardTypeFull {
    /// NAT.
    Masquerade,
    Tunnel { tunnel_type: TunnelType, tunnel_port: u16, tunnel_flags: TunnelFlags },
    Direct,
}

/// How packets reach a destination, as one attribute says it.
#[derive(Copy, Clone, Debug, PartialEq, Eq)]
pub enum ForwardType {
    /// NAT.
    Masquerade,
    Tunnel,
    Direct,
}

/// The forwarding method of `f`, without the tunnel's settings.
pub open spec fn forward_type_of(f: ForwardTypeFull) -> ForwardType {
    match f {
        ForwardTypeFull::Direct => ForwardType::Direct,
        ForwardTypeFull::Masquerade => ForwardType::Masquerade,
        ForwardTypeFull::Tunnel { .. } => ForwardType::Tunnel,
    }
}

impl<'a> From<&'a ForwardTypeFull> for ForwardType {
    fn from(value: &'a ForwardTypeFull) -> (r: ForwardType) {
        match value {
            ForwardTypeFull::Direct => ForwardType::Direct,
            ForwardTypeFull::Masquerade => ForwardType::Masquerade,
            ForwardTypeFull::Tunnel { tunnel_type: _, tunnel_port: _, tunnel_flags: _ } => {
                ForwardType::Tunnel
            },
        }
    }
}

impl<'a> vstd::std_specs::convert::FromSpecImpl<&'a ForwardTypeFull> for ForwardType {
    open spec fn obeys_from_spec() -> bool {
        true
    }

    open spec fn from_spec(v: &'a ForwardTypeFull) -> ForwardType {
        forward_type_of(*v)
    }
}

impl ForwardType {
    /// The forwarding method with the kernel's number `value`; only
    /// masquerading (0) is known, and it never fails on it.
    pub fn try_from_u32(value: u32) -> (r: Result<ForwardType, IpvsError>)
        requires
            value == 0,
        ensures
            r == Ok::<ForwardType, IpvsError>(ForwardType::Masquerade),
    {
        Ok(ForwardType::Masquerade)
    }

    /// The kernel's number for the forwarding method; only masquerading (0)
    /// has one here.
    pub fn code(&self) -> (r: u32)
        requires
            *self == ForwardType::Masquerade,
        ensures
            r == 0,
    {
        0
    }
}

impl TunnelType {
    /// The tunnel kind with the kernel's number `value`; only 0 is known, and
    /// it never fails on it.
    pub fn try_from_u8(value: u8) -> (r: Result<TunnelType, IpvsError>)
        requires
            value == 0,
        ensures
            r == Ok::<TunnelType, IpvsError>(TunnelType::IpIp),
    {
        Ok(TunnelType::IpIp)
    }

    /// The kernel's number for the tunnel kind.
    pub fn code(&self) -> (r: u8)
        ensures
            r == 0,
    {
        match self {
            TunnelType::IpIp => 0,
        }
    }
}

/// A destination attribute, with its address bytes as a sequence.
pub enum DestAttr {
    Addr(Seq<u8>),
    Port(u16),
    FwdMethod(ForwardType),
    Weight(u32),
    UpperThreshold(u32),
    LowerThreshold(u32),
    ActiveConns(u32),
    InactiveConns(u32),
    PersistConns(u32),
    AddrFamily(AddressFamily),
    Stats64(Stats64),
    Stats,
    TunType(TunnelType),
    TunPort(u16),
    TunFlags(TunnelFlags),
}

/// One attribute of a destination.
#[derive(Clone, Debug, PartialEq, Eq)]
pub enum DestinationCtrlAttrs {
    Addr(AddrBytes),
    Port(u16),
    FwdMethod(ForwardType),
    Weight(u32),
    UpperThreshold(u32),
    LowerThreshold(u32),
    ActiveConns(u32),
    InactiveConns(u32),
    PersistConns(u32),
    AddrFamily(AddressFamily),
    Stats64(Stats64),
    Stats,
    TunType(TunnelType),
    TunPort(u16),
    TunFlags(TunnelFlags),
}

impl View for DestinationCtrlAttrs {
    type V = DestAttr;

    open spec fn view(&self) -> DestAttr {
        match self {
            DestinationCtrlAttrs::Addr(a) => DestAttr::Addr(a@),
            DestinationCtrlAttrs::Port(x) => DestAttr::Port(*x),
            DestinationCtrlAttrs::FwdMethod(x) => DestAttr::FwdMethod(*x),
            DestinationCtrlAttrs::Weight(x) => DestAttr::Weight(*x),
            DestinationCtrlAttrs::UpperThreshold(x) => DestAttr::UpperThreshold(*x),
            DestinationCtrlAttrs::LowerThreshold(x) => DestAttr::LowerThreshold(*x),
            DestinationCtrlAttrs::ActiveConns(x) => DestAttr::ActiveConns(*x),
            DestinationCtrlAttrs::InactiveConns(x) => DestAttr::InactiveConns(*x),
            DestinationCtrlAttrs::PersistConns(x) => DestAttr::PersistConns(*x),
            DestinationCtrlAttrs::AddrFamily(x) => DestAttr::AddrFamily(*x),
            DestinationCtrlAttrs::Stats64(x) => DestAttr::Stats64(*x),
            DestinationCtrlAttrs::Stats => DestAttr::Stats,
            DestinationCtrlAttrs::TunType(x) => DestAttr::TunType(*x),
            DestinationCtrlAttrs::TunPort(x) => DestAttr::TunPort(*x),
            DestinationCtrlAttrs::TunFlags(x) => DestAttr::TunFlags(*x),
        }
    }
}

/// The netlink type of a destination attribute.
pub open spec fn dest_kind(a: DestAttr) -> u16 {
    match a {
        DestAttr::Addr(_) => IPVS_DEST_ATTR_ADDR,
        DestAttr::Port(_) => IPVS_DEST_ATTR_PORT,
        DestAttr::FwdMethod(_) => IPVS_DEST_ATTR_FWD_METHOD,
        DestAttr::Weight(_) => IPVS_DEST_ATTR_WEIGHT,
        DestAttr::UpperThreshold(_) => IPVS_DEST_ATTR_U_THRESH,
        DestAttr::LowerThreshold(_) => IPVS_DEST_ATTR_L_THRESH,
        DestAttr::ActiveConns(_) => IPVS_DEST_ATTR_ACTIVE_CONNS,
        DestAttr::InactiveConns(_) => IPVS_DEST_ATTR_INACT_CONNS,
        DestAttr::PersistConns(_) => IPVS_DEST_ATTR_PERSIST_CONNS,
        DestAttr::AddrFamily(_) => IPVS_DEST_ATTR_ADDR_FAMILY,
        DestAttr::Stats64(_) => IPVS_DEST_ATTR_STATS64,
        DestAttr::Stats => IPVS_DEST_ATTR_STATS,
        DestAttr::TunType(_) => IPVS_DEST_ATTR_TUN_TYPE,
        DestAttr::TunPort(_) => IPVS_DEST_ATTR_TUN_PORT,
        DestAttr::TunFlags(_) => IPVS_DEST_ATTR_TUN_FLAGS,
    }
}

/// The length of a destination attribute's value on the wire; statistics
/// are never written.
pub open spec fn dest_value_len(a: DestAttr) -> nat {
    match a {
        DestAttr::Addr(_) => 16,
        DestAttr::Port(_) | DestAttr::TunPort(_) => 2,
        DestAttr::FwdMethod(_)
        | DestAttr::Weight(_)
        | DestAttr::UpperThreshold(_)
        | DestAttr::LowerThreshold(_)
        | DestAttr::ActiveConns(_)
        | DestAttr::InactiveConns(_)
        | DestAttr::PersistConns(_) => 4,
        DestAttr::Stats | DestAttr::Stats64(_) => 0,
        DestAttr::AddrFamily(_) => 2,
        DestAttr::TunType(_) => 1,
        DestAttr::TunFlags(_) => 2,
    }
}

/// Writing a destination attribute's value into a buffer of `len` bytes does
/// not panic: statistics are never written, only masquerading has a number,
/// address bytes fill the buffer exactly, and other values need their length.
pub open spec fn dest_emit_ok(a: DestAttr, len: nat) -> bool {
    match a {
        DestAttr::Stats | DestAttr::Stats64(_) => false,
        DestAttr::FwdMethod(m) => m == ForwardType::Masquerade && len >= 4,
        DestAttr::Addr(b) => len == b.len(),
        _ => len >= dest_value_len(a),
    }
}

/// The bytes that writing a destination attribute's value puts at the start
/// of the buffer: the port in network byte order, other numbers in the
/// machine's byte order.
pub open spec fn dest_value_bytes(a: DestAttr) -> Seq<u8> {
    match a {
        DestAttr::Addr(b) => b,
        DestAttr::Port(p) => u16_be_bytes(p),
        DestAttr::TunPort(p) => u16_native_bytes(p),
        DestAttr::FwdMethod(_) => u32_native_bytes(0),
        DestAttr::Weight(x)
        | DestAttr::UpperThreshold(x)
        | DestAttr::LowerThreshold(x)
        | DestAttr::ActiveConns(x)
        | DestAttr::InactiveConns(x)
        | DestAttr::PersistConns(x) => u32_native_bytes(x),
        DestAttr::AddrFamily(f) => u16_native_bytes(family_code(f)),
        DestAttr::TunType(_) => seq![0u8],
        DestAttr::TunFlags(f) => u16_native_bytes(f.0),
        DestAttr::Stats | DestAttr::Stats64(_) => Seq::empty(),
    }
}

/// A 32-bit destination attribute of type `kind` whose payload is `p`.
pub open spec fn dest_u32_attr(kind: u16, v: u32) -> DestAttr {
    if kind == IPVS_DEST_ATTR_WEIGHT {
        DestAttr::Weight(v)
    } else if kind == IPVS_DEST_ATTR_U_THRESH {
        DestAttr::UpperThreshold(v)
    } else if kind == IPVS_DEST_ATTR_L_THRESH {
        DestAttr::LowerThreshold(v)
    } else if kind == IPVS_DEST_ATTR_ACTIVE_CONNS {
        DestAttr::ActiveConns(v)
    } else if kind == IPVS_DEST_ATTR_INACT_CONNS {
        DestAttr::InactiveConns(v)
    } else {
        DestAttr::PersistConns(v)
    }
}

/// The type carries a 32-bit count, weight or threshold.
pub open spec fn is_u32_kind(kind: u16) -> bool {
    kind == IPVS_DEST_ATTR_WEIGHT || kind == IPVS_DEST_ATTR_U_THRESH || kind
        == IPVS_DEST_ATTR_L_THRESH || kind == IPVS_DEST_ATTR_ACTIVE_CONNS || kind
        == IPVS_DEST_ATTR_INACT_CONNS || kind == IPVS_DEST_ATTR_PERSIST_CONNS
}

/// The destination attribute of type `kind` whose payload is `p`; an unknown
/// type is an error.
pub open spec fn dest_parse_value(kind: u16, p: Seq<u8>) -> Result<DestAttr, IpvsError> {
    if kind == IPVS_DEST_ATTR_ADDR {
        Ok(DestAttr::Addr(p))
    } else if kind == IPVS_DEST_ATTR_PORT {
        Ok(DestAttr::Port(be_u16(p) as u16))
    } else if kind == IPVS_DEST_ATTR_FWD_METHOD {
        if p.len() != 4 {
            Err(IpvsError::InvalidU32)
        } else {
            Ok(DestAttr::FwdMethod(ForwardType::Masquerade))
        }
    } else if is_u32_kind(kind) {
        if p.len() != 4 {
            Err(IpvsError::InvalidU32)
        } else {
            Ok(dest_u32_attr(kind, native_u32(p) as u32))
        }
    } else if kind == IPVS_DEST_ATTR_STATS64 {
        match stats_from_payload(p) {
            Ok(s) => Ok(DestAttr::Stats64(s)),
            Err(e) => Err(e),
        }
    } else if kind == IPVS_SVC_ATTR_STATS {
        Ok(DestAttr::Stats)
    } else if kind == IPVS_DEST_ATTR_ADDR_FAMILY {
        if p.len() != 2 {
            Err(IpvsError::InvalidU16)
        } else {
            match family_from_code(native_u16(p) as u16) {
                Ok(f) => Ok(DestAttr::AddrFamily(f)),
                Err(e) => Err(e),
            }
        }
    } else if kind == IPVS_DEST_ATTR_TUN_TYPE {
        Ok(DestAttr::TunType(TunnelType::IpIp))
    } else if kind == IPVS_DEST_ATTR_TUN_PORT {
        if p.len() != 2 {
            Err(IpvsError::InvalidU16)
        } else {
            Ok(DestAttr::TunPort(native_u16(p) as u16))
        }
    } else if kind == IPVS_DEST_ATTR_TUN_FLAGS {
        if p.len() != 2 {
            Err(IpvsError::InvalidU16)
        } else {
            Ok(DestAttr::TunFlags(TunnelFlags(native_u16(p) as u16)))
        }
    } else {
        Err(IpvsError::UnknownDestinationKind(kind))
    }
}

/// Decoding a destination attribute of type `kind` with payload `p` does not
/// panic: a port has two bytes, a four-byte forwarding method is masquerading
/// (0), a tunnel type has a first byte and it is 0, and nested statistics
/// decode without panicking.
pub open spec fn dest_value_ok(kind: u16, p: Seq<u8>) -> bool {
    &&& kind == IPVS_DEST_ATTR_PORT ==> p.len() >= 2
    &&& kind == IPVS_DEST_ATTR_FWD_METHOD && p.len() == 4 ==> native_u32(p) == 0
    &&& kind == IPVS_DEST_ATTR_TUN_TYPE ==> p.len() >= 1 && p[0] == 0
    &&& kind == IPVS_DEST_ATTR_STATS64 ==> stats_payload_ok(p)
}

/// The destination attribute at the start of `b`, an attribute with its
/// header.
#[verifier::opaque]
pub open spec fn dest_attr_at(b: Seq<u8>) -> Result<DestAttr, IpvsError> {
    dest_parse_value(frame_kind(b), frame_value(b))
}

/// Decoding the destination attribute at the start of `b` does not panic.
#[verifier::opaque]
pub open spec fn dest_attr_at_ok(b: Seq<u8>) -> bool {
    dest_value_ok(frame_kind(b), frame_value(b))
}

impl DestinationCtrlAttrs {
    /// The length of the attribute's value on the wire.
    pub fn value_len(&self) -> (r: usize)
        ensures
            r == dest_value_len(self@),
    {
        match self {
            DestinationCtrlAttrs::Addr(_) => 16,
            DestinationCtrlAttrs::Port(_) | DestinationCtrlAttrs::TunPort(_) => 2,
            DestinationCtrlAttrs::FwdMethod(_)
            | DestinationCtrlAttrs::Weight(_)
            | DestinationCtrlAttrs::UpperThreshold(_)
            | DestinationCtrlAttrs::LowerThreshold(_)
            | DestinationCtrlAttrs::ActiveConns(_)
            | DestinationCtrlAttrs::InactiveConns(_)
            | DestinationCtrlAttrs::PersistConns(_) => 4,
            DestinationCtrlAttrs::Stats | DestinationCtrlAttrs::Stats64(_) => 0,
            DestinationCtrlAttrs::AddrFamily(_) => 2,
            DestinationCtrlAttrs::TunType(_) => 1,
            DestinationCtrlAttrs::TunFlags(_) => 2,
        }
    }

    /// The netlink type of the attribute.
    pub fn kind(&self) -> (r: u16)
        ensures
            r == dest_kind(self@),
    {
        match self {
            DestinationCtrlAttrs::Addr(_) => IPVS_DEST_ATTR_ADDR,
            DestinationCtrlAttrs::Port(_) => IPVS_DEST_ATTR_PORT,
            DestinationCtrlAttrs::FwdMethod(_) => IPVS_DEST_ATTR_FWD_METHOD,
            DestinationCtrlAttrs::Weight(_) => IPVS_DEST_ATTR_WEIGHT,
            DestinationCtrlAttrs::UpperThreshold(_) => IPVS_DEST_ATTR_U_THRESH,
            DestinationCtrlAttrs::LowerThreshold(_) => IPVS_DEST_ATTR_L_THRESH,
            DestinationCtrlAttrs::ActiveConns(_) => IPVS_DEST_ATTR_ACTIVE_CONNS,
            DestinationCtrlAttrs::InactiveConns(_) => IPVS_DEST_ATTR_INACT_CONNS,
            DestinationCtrlAttrs::PersistConns(_) => IPVS_DEST_ATTR_PERSIST_CONNS,
            DestinationCtrlAttrs::AddrFamily(_) => IPVS_DEST_ATTR_ADDR_FAMILY,
            DestinationCtrlAttrs::Stats64(_) => IPVS_DEST_ATTR_STATS64,
            DestinationCtrlAttrs::Stats => IPVS_DEST_ATTR_STATS,
            DestinationCtrlAttrs::TunType(_) => IPVS_DEST_ATTR_TUN_TYPE,
            DestinationCtrlAttrs::TunPort(_) => IPVS_DEST_ATTR_TUN_PORT,
            DestinationCtrlAttrs::TunFlags(_) => IPVS_DEST_ATTR_TUN_FLAGS,
        }
    }

    /// Writes the attribute's value at the start of `buffer`: the port in
    /// network byte order, other numbers in the machine's byte order.
    pub fn emit_value(&self, buffer: &mut [u8])
        requires
            dest_emit_ok(self@, old(buffer)@.len()),
        ensures
            final(buffer)@ == overwrite_prefix(old(buffer)@, dest_value_bytes(self@)),
    {
        match self {
            DestinationCtrlAttrs::Addr(addr) => copy_prefix(buffer, addr.0.as_slice()),
            DestinationCtrlAttrs::Port(port) => write_u16_be(buffer, *port),
            DestinationCtrlAttrs::TunPort(port) => write_u16_native(buffer, *port),
            DestinationCtrlAttrs::FwdMethod(method) => write_u32_native(buffer, method.code()),
            DestinationCtrlAttrs::Weight(weight) => write_u32_native(buffer, *weight),
            DestinationCtrlAttrs::UpperThreshold(thresh) => write_u32_native(buffer, *thresh),
            DestinationCtrlAttrs::LowerThreshold(thresh) => write_u32_native(buffer, *thresh),
            DestinationCtrlAttrs::ActiveConns(conns) => write_u32_native(buffer, *conns),
            DestinationCtrlAttrs::InactiveConns(conns) => write_u32_native(buffer, *conns),
            DestinationCtrlAttrs::PersistConns(conns) => write_u32_native(buffer, *conns),
            DestinationCtrlAttrs::Stats | DestinationCtrlAttrs::Stats64(_) => {},
            DestinationCtrlAttrs::AddrFamily(family) => {
                let val: u16 = match family {
                    AddressFamily::IPv4 => 2,
                    AddressFamily::IPv6 => 10,
                };
                write_u16_native(buffer, val);
            },
            DestinationCtrlAttrs::TunType(tun_type) => {
                let ghost old_buf = buffer@;
                buffer[0] = tun_type.code();
                assert(buffer@ =~= overwrite_prefix(old_buf, seq![0u8]));
            },
            DestinationCtrlAttrs::TunFlags(flags) => write_u16_native(buffer, flags.0),
        }
    }

    /// The destination attribute of type `kind` whose payload is `payload`.
    pub fn parse_value(kind: u16, payload: &[u8]) -> (r: Result<DestinationCtrlAttrs, IpvsError>)
        requires
            dest_value_ok(kind, payload@),
        ensures
            view_result(r) == dest_parse_value(kind, payload@),
    {
        if kind == IPVS_DEST_ATTR_ADDR {
            Ok(DestinationCtrlAttrs::Addr(AddrBytes(vstd::slice::slice_to_vec(payload))))
        } else if kind == IPVS_DEST_ATTR_PORT {
            Ok(DestinationCtrlAttrs::Port(read_u16_be(payload)))
        } else if kind == IPVS_DEST_ATTR_FWD_METHOD {
            match parse_u32(payload) {
                Ok(v) => match ForwardType::try_from_u32(v) {
                    Ok(m) => Ok(DestinationCtrlAttrs::FwdMethod(m)),
                    Err(e) => Err(e),
                },
                Err(_) => Err(IpvsError::InvalidU32),
            }
        } else if kind == IPVS_DEST_ATTR_WEIGHT || kind == IPVS_DEST_ATTR_U_THRESH || kind
            == IPVS_DEST_ATTR_L_THRESH || kind == IPVS_DEST_ATTR_ACTIVE_CONNS || kind
            == IPVS_DEST_ATTR_INACT_CONNS || kind == IPVS_DEST_ATTR_PERSIST_CONNS {
            let v = match parse_u32(payload) {
                Ok(v) => v,
                Err(_) => {
                    return Err(IpvsError::InvalidU32);
                },
            };
            Ok(
                if kind == IPVS_DEST_ATTR_WEIGHT {
                    DestinationCtrlAttrs::Weight(v)
                } else if kind == IPVS_DEST_ATTR_U_THRESH {
                    DestinationCtrlAttrs::UpperThreshold(v)
                } else if kind == IPVS_DEST_ATTR_L_THRESH {
                    DestinationCtrlAttrs::LowerThreshold(v)
                } else if kind == IPVS_DEST_ATTR_ACTIVE_CONNS {
                    DestinationCtrlAttrs::ActiveConns(v)
                } else if kind == IPVS_DEST_ATTR_INACT_CONNS {
                    DestinationCtrlAttrs::InactiveConns(v)
                } else {
                    DestinationCtrlAttrs::PersistConns(v)
                },
            )
        } else if kind == IPVS_DEST_ATTR_STATS64 {
            match Stats64::parse_payload(payload) {
                Ok(s) => Ok(DestinationCtrlAttrs::Stats64(s)),
                Err(e) => Err(e),
            }
        } else if kind == IPVS_SVC_ATTR_STATS {
            Ok(DestinationCtrlAttrs::Stats)
        } else if kind == IPVS_DEST_ATTR_ADDR_FAMILY {
            match parse_u16(payload) {
                Ok(v) => match AddressFamily::try_from_u16(v) {
                    Ok(f) => Ok(DestinationCtrlAttrs::AddrFamily(f)),
                    Err(e) => Err(e),
                },
                Err(_) => Err(IpvsError::InvalidU16),
            }
        } else if kind == IPVS_DEST_ATTR_TUN_TYPE {
            match TunnelType::try_from_u8(payload[0]) {
                Ok(t) => Ok(DestinationCtrlAttrs::TunType(t)),
                Err(e) => Err(e),
            }
        } else if kind == IPVS_DEST_ATTR_TUN_PORT {
            match parse_u16(payload) {
                Ok(v) => Ok(DestinationCtrlAttrs::TunPort(v)),
                Err(_) => Err(IpvsError::InvalidU16),
            }
        } else if kind == IPVS_DEST_ATTR_TUN_FLAGS {
            match parse_u16(payload) {
                Ok(v) => Ok(DestinationCtrlAttrs::TunFlags(TunnelFlags(v))),
                Err(_) => Err(IpvsError::InvalidU16),
            }
        } else {
            Err(IpvsError::UnknownDestinationKind(kind))
        }
    }

    /// The destination attribute at the start of `buf`, an attribute with its
    /// header.
    pub fn parse(buf: &[u8]) -> (r: Result<DestinationCtrlAttrs, IpvsError>)
        requires
            frame_checked(buf@),
            dest_attr_at_ok(buf@),
        ensures
            view_result(r) == dest_attr_at(buf@),
    {
        proof {
            reveal(dest_attr_at);
            reveal(dest_attr_at_ok);
        }
        let payload = nla_value(buf);
        let kind = nla_kind(buf);
        DestinationCtrlAttrs::parse_value(kind, payload.as_slice())
    }

    /// The length of the attribute on the wire: header, value and padding.
    pub fn buffer_len(&self) -> (r: usize)
        ensures
            r == nla_align(dest_value_len(self@) as int) + 4,
    {
        let vl = self.value_len();
        (vl + 3) / 4 * 4 + 4
    }

    /// Writes the attribute, header and padding included, at the start of
    /// `buffer`.
    pub fn emit(&self, buffer: &mut [u8])
        requires
            dest_emit_ok(self@, dest_value_len(self@)),
            old(buffer)@.len() >= 4 + nla_align(dest_value_len(self@) as int),
        ensures
            final(buffer)@ == nla_frame(dest_kind(self@), dest_value_bytes(self@)) + old(
                buffer,
            )@.skip(4 + nla_align(dest_value_len(self@) as int)),
    {
        let vl = self.value_len();
        let mut value: Vec<u8> = vec![0u8; vl];
        self.emit_value(value.as_mut_slice());
        assert(value@ =~= dest_value_bytes(self@));
        emit_nla(self.kind(), value.as_slice(), buffer);
    }
}

/// A destination (real server) of an IPVS service.
#[derive(Clone, Debug, PartialEq, Eq)]
pub struct Destination {
    pub address: IpAddr,
    pub fwd_method: ForwardTypeFull,
    pub weight: u32,
    /// The upper connection threshold; a zero threshold is held as `None`.
    pub upper_threshold: Option<u32>,
    /// The lower connection threshold; a zero threshold is held as `None`.
    pub lower_threshold: Option<u32>,
    pub port: u16,
    pub family: AddressFamily,
}

/// A destination with the connection counts and statistics the kernel
/// reports for it.
#[derive(Clone, Debug, PartialEq, Eq)]
pub struct DestinationExtended {
    pub destination: Destination,
    pub active_connections: u32,
    pub inactive_connections: u32,
    pub persistent_connections: u32,
    pub stats64: Stats64,
}

/// What a list of destination attributes says, field by field: for each field
/// the value of the last attribute that sets it, if any.
pub struct DestFields {
    pub address: Option<Seq<u8>>,
    pub fwd_method: Option<ForwardType>,
    pub weight: Option<u32>,
    pub upper_threshold: Option<u32>,
    pub lower_threshold: Option<u32>,
    pub port: Option<u16>,
    pub family: Option<AddressFamily>,
    pub tunnel_type: Option<TunnelType>,
    pub tunnel_port: Option<u16>,
    pub tunnel_flags: Option<TunnelFlags>,
    pub stats64: Option<Stats64>,
    pub active_connections: Option<u32>,
    pub inactive_connections: Option<u32>,
    pub persistent_connections: Option<u32>,
}

/// No field set.
pub open spec fn dest_fields_empty() -> DestFields {
    DestFields {
        address: None,
        fwd_method: None,
        weight: None,
        upper_threshold: None,
        lower_threshold: None,
        port: None,
        family: None,
        tunnel_type: None,
        tunnel_port: None,
        tunnel_flags: None,
        stats64: None,
        active_connections: None,
        inactive_connections: None,
        persistent_connections: None,
    }
}

/// `Some(x)`, or `None` for zero.
pub open spec fn nonzero(x: u32) -> Option<u32> {
    if x == 0 {
        None
    } else {
        Some(x)
    }
}

/// `f` after the attribute `a`; a zero threshold clears the threshold.
pub open spec fn dest_fields_with(f: DestFields, a: DestAttr) -> DestFields {
    match a {
        DestAttr::Addr(x) => DestFields { address: Some(x), ..f },
        DestAttr::FwdMethod(x) => DestFields { fwd_method: Some(x), ..f },
        DestAttr::Weight(x) => DestFields { weight: Some(x), ..f },
        DestAttr::UpperThreshold(x) => DestFields { upper_threshold: nonzero(x), ..f },
        DestAttr::LowerThreshold(x) => DestFields { lower_threshold: nonzero(x), ..f },
        DestAttr::Port(x) => DestFields { port: Some(x), ..f },
        DestAttr::AddrFamily(x) => DestFields { family: Some(x), ..f },
        DestAttr::TunType(x) => DestFields { tunnel_type: Some(x), ..f },
        DestAttr::TunPort(x) => DestFields { tunnel_port: Some(x), ..f },
        DestAttr::TunFlags(x) => DestFields { tunnel_flags: Some(x), ..f },
        DestAttr::ActiveConns(x) => DestFields { active_connections: Some(x), ..f },
        DestAttr::InactiveConns(x) => DestFields { inactive_connections: Some(x), ..f },
        DestAttr::PersistConns(x) => DestFields { persistent_connections: Some(x), ..f },
        DestAttr::Stats64(x) => DestFields { stats64: Some(x), ..f },
        DestAttr::Stats => f,
    }
}

/// What `attrs` say, field by field.
pub open spec fn dest_fields(attrs: Seq<DestAttr>) -> DestFields
    decreases attrs.len(),
{
    if attrs.len() == 0 {
        dest_fields_empty()
    } else {
        dest_fields_with(dest_fields(attrs.drop_last()), attrs.last())
    }
}

/// Building a destination from `f` does not panic: once the family and the
/// address are known, the address bytes hold an address of the family.
pub open spec fn dest_fields_ok(f: DestFields) -> bool {
    (f.family is Some && f.address is Some) ==> holds_address(f.address->0, f.family->0)
}

/// The forwarding method that `f` describes: a tunnel needs its type, port and
/// flags, in that order.
pub open spec fn forward_from_fields(m: ForwardType, f: DestFields) -> Result<
    ForwardTypeFull,
    IpvsError,
> {
    match m {
        ForwardType::Tunnel => if f.tunnel_type is None {
            Err(IpvsError::Missing(RequiredAttr::TunnelType))
        } else if f.tunnel_port is None {
            Err(IpvsError::Missing(RequiredAttr::TunnelPort))
        } else if f.tunnel_flags is None {
            Err(IpvsError::Missing(RequiredAttr::TunnelFlags))
        } else {
            Ok(
                ForwardTypeFull::Tunnel {
                    tunnel_type: f.tunnel_type->0,
                    tunnel_port: f.tunnel_port->0,
                    tunnel_flags: f.tunnel_flags->0,
                },
            )
        },
        ForwardType::Masquerade => Ok(ForwardTypeFull::Masquerade),
        ForwardType::Direct => Ok(ForwardTypeFull::Direct),
    }
}

/// The destination that `f` describes; the first required field that is
/// missing, in the order family, address, forwarding method (with a tunnel's
/// type, port, flags), weight, port, inactive, active and persistent
/// connections, statistics, is an error.
pub open spec fn destination_from_fields(f: DestFields) -> Result<DestinationExtended, IpvsError> {
    if f.family is None {
        Err(IpvsError::Missing(RequiredAttr::AddressFamily))
    } else if f.address is None {
        Err(IpvsError::Missing(RequiredAttr::Address))
    } else if f.fwd_method is None {
        Err(IpvsError::Missing(RequiredAttr::ForwardMethod))
    } else {
        match forward_from_fields(f.fwd_method->0, f) {
            Err(e) => Err(e),
            Ok(fwd) => if f.weight is None {
                Err(IpvsError::Missing(RequiredAttr::Weight))
            } else if f.port is None {
                Err(IpvsError::Missing(RequiredAttr::Port))
            } else if f.inactive_connections is None {
                Err(IpvsError::Missing(RequiredAttr::InactiveConnections))
            } else if f.active_connections is None {
                Err(IpvsError::Missing(RequiredAttr::ActiveConnections))
            } else if f.persistent_connections is None {
                Err(IpvsError::Missing(RequiredAttr::PersistentConnections))
            } else if f.stats64 is None {
                Err(IpvsError::Missing(RequiredAttr::Stats64))
            } else {
                Ok(
                    DestinationExtended {
                        destination: Destination {
                            address: address_of(f.address->0, f.family->0),
                            fwd_method: fwd,
                            weight: f.weight->0,
                            upper_threshold: f.upper_threshold,
                            lower_threshold: f.lower_threshold,
                            port: f.port->0,
                            family: f.family->0,
                        },
                        active_connections: f.active_connections->0,
                        inactive_connections: f.inactive_connections->0,
                        persistent_connections: f.persistent_connections->0,
                        stats64: f.stats64->0,
                    },
                )
            },
        }
    }
}

/// A destination holds no zero threshold: a threshold of zero is held as
/// `None`, as the kernel reads it.
pub open spec fn destination_valid(d: Destination) -> bool {
    &&& d.upper_threshold != Some(0u32)
    &&& d.lower_threshold != Some(0u32)
}

/// The attributes of `v`, each by its view.
pub open spec fn dest_views(v: Seq<DestinationCtrlAttrs>) -> Seq<DestAttr> {
    v.map_values(|a: DestinationCtrlAttrs| a@)
}

/// The attributes that describe `d`: family, the 16 address bytes, port,
/// forwarding method, weight, a tunnel's type, port and flags, and the
/// thresholds (0 when unset).
pub open spec fn destination_nlas(d: Destination) -> Seq<DestAttr> {
    seq![
        DestAttr::AddrFamily(d.family),
        DestAttr::Addr(address_bytes(d.address)),
        DestAttr::Port(d.port),
        DestAttr::FwdMethod(forward_type_of(d.fwd_method)),
        DestAttr::Weight(d.weight),
    ] + match d.fwd_method {
        ForwardTypeFull::Tunnel { tunnel_type, tunnel_port, tunnel_flags } => seq![
            DestAttr::TunType(tunnel_type),
            DestAttr::TunPort(tunnel_port),
            DestAttr::TunFlags(tunnel_flags),
        ],
        _ => Seq::empty(),
    } + seq![
        DestAttr::UpperThreshold(
            match d.upper_threshold {
                Some(t) => t,
                None => 0,
            },
        ),
        DestAttr::LowerThreshold(
            match d.lower_threshold {
                Some(t) => t,
                None => 0,
            },
        ),
    ]
}

impl DestinationExtended {
    /// The destination that the attributes `nlas` describe, with its
    /// connection counts and statistics: for each field the last attribute
    /// that sets it counts, and a zero threshold means none. A missing
    /// required attribute is an error.
    pub fn from_nlas(nlas: &[DestinationCtrlAttrs]) -> (r: Result<DestinationExtended, IpvsError>)
        requires
            dest_fields_ok(dest_fields(dest_views(nlas@))),
        ensures
            r == destination_from_fields(dest_fields(dest_views(nlas@))),
    {
        let mut address: Option<&AddrBytes> = None;
        let mut fwd_method: Option<ForwardType> = None;
        let mut weight: Option<u32> = None;
        let mut upper_threshold: Option<u32> = None;
        let mut lower_threshold: Option<u32> = None;
        let mut port: Option<u16> = None;
        let mut family: Option<AddressFamily> = None;
        let mut tunnel_type: Option<TunnelType> = None;
        let mut tunnel_port: Option<u16> = None;
        let mut tunnel_flags: Option<TunnelFlags> = None;
        let mut stats64: Option<Stats64> = None;
        let mut active_connections: Option<u32> = None;
        let mut inactive_connections: Option<u32> = None;
        let mut persistent_connections: Option<u32> = None;
        let ghost views = dest_views(nlas@);
        let mut i: usize = 0;
        while i < nlas.len()
            invariant
                0 <= i <= nlas@.len(),
                views == dest_views(nlas@),
                ({
                    let f = dest_fields(views.take(i as int));
                    &&& match address {
                        Some(a) => f.address == Some(a@),
                        None => f.address is None,
                    }
                    &&& fwd_method == f.fwd_method
                    &&& weight == f.weight
                    &&& upper_threshold == f.upper_threshold
                    &&& lower_threshold == f.lower_threshold
                    &&& port == f.port
                    &&& family == f.family
                    &&& tunnel_type == f.tunnel_type
                    &&& tunnel_port == f.tunnel_port
                    &&& tunnel_flags == f.tunnel_flags
                    &&& stats64 == f.stats64
                    &&& active_connections == f.active_connections
                    &&& inactive_connections == f.inactive_connections
                    &&& persistent_connections == f.persistent_connections
                }),
            decreases nlas@.len() - i,
        {
            assert(views.take(i + 1).drop_last() == views.take(i as int));
            assert(views.take(i + 1).last() == nlas@[i as int]@);
            match &nlas[i] {
                DestinationCtrlAttrs::Addr(addr) => address = Some(addr),
                DestinationCtrlAttrs::FwdMethod(method) => fwd_method = Some(*method),
                DestinationCtrlAttrs::Weight(w) => weight = Some(*w),
                DestinationCtrlAttrs::UpperThreshold(t) => {
                    upper_threshold = if *t == 0 {
                        None
                    } else {
                        Some(*t)
                    }
                },
                DestinationCtrlAttrs::LowerThreshold(t) => {
                    lower_threshold = if *t == 0 {
                        None
                    } else {
                        Some(*t)
                    }
                },
                DestinationCtrlAttrs::Port(p) => port = Some(*p),
                DestinationCtrlAttrs::AddrFamily(f) => family = Some(*f),
                DestinationCtrlAttrs::TunType(t) => tunnel_type = Some(*t),
                DestinationCtrlAttrs::TunPort(p) => tunnel_port = Some(*p),
                DestinationCtrlAttrs::TunFlags(f) => tunnel_flags = Some(*f),
                DestinationCtrlAttrs::ActiveConns(a) => active_connections = Some(*a),
                DestinationCtrlAttrs::InactiveConns(a) => inactive_connections = Some(*a),
                DestinationCtrlAttrs::PersistConns(a) => persistent_connections = Some(*a),
                DestinationCtrlAttrs::Stats64(st) => stats64 = Some(*st),
                DestinationCtrlAttrs::Stats => (),
            }
            i = i + 1;
        }
        assert(views.take(i as int) == views);
        let family = match family {
            Some(f) => f,
            None => {
                return Err(IpvsError::Missing(RequiredAttr::AddressFamily));
            },
        };
        let address = match address {
            Some(a) => a.as_ipaddr(family),
            None => {
                return Err(IpvsError::Missing(RequiredAttr::Address));
            },
        };
        let partial_fwd_method = match fwd_method {
            Some(m) => m,
            None => {
                return Err(IpvsError::Missing(RequiredAttr::ForwardMethod));
            },
        };
        let fwd_method = match partial_fwd_method {
            ForwardType::Tunnel => {
                let tunnel_type = match tunnel_type {
                    Some(t) => t,
                    None => {
                        return Err(IpvsError::Missing(RequiredAttr::TunnelType));
                    },
                };
                let tunnel_port = match tunnel_port {
                    Some(p) => p,
                    None => {
                        return Err(IpvsError::Missing(RequiredAttr::TunnelPort));
                    },
                };
                let tunnel_flags = match tunnel_flags {
                    Some(f) => f,
                    None => {
                        return Err(IpvsError::Missing(RequiredAttr::TunnelFlags));
                    },
                };
                ForwardTypeFull::Tunnel { tunnel_type, tunnel_port, tunnel_flags }
            },
            ForwardType::Masquerade => ForwardTypeFull::Masquerade,
            ForwardType::Direct => ForwardTypeFull::Direct,
        };
        let weight = match weight {
            Some(w) => w,
            None => {
                return Err(IpvsError::Missing(RequiredAttr::Weight));
            },
        };
        let port = match port {
            Some(p) => p,
            None => {
                return Err(IpvsError::Missing(RequiredAttr::Port));
            },
        };
        let d = Destination {
            address,
            fwd_method,
            weight,
            port,
            upper_threshold,
            lower_threshold,
            family,
        };
        let inactive_connections = match inactive_connections {
            Some(c) => c,
            None => {
                return Err(IpvsError::Missing(RequiredAttr::InactiveConnections));
            },
        };
        let active_connections = match active_connections {
            Some(c) => c,
            None => {
                return Err(IpvsError::Missing(RequiredAttr::ActiveConnections));
            },
        };
        let persistent_connections = match persistent_connections {
            Some(c) => c,
            None => {
                return Err(IpvsError::Missing(RequiredAttr::PersistentConnections));
            },
        };
        let stats64 = match stats64 {
            Some(st) => st,
            None => {
                return Err(IpvsError::Missing(RequiredAttr::Stats64));
            },
        };
        Ok(
            DestinationExtended {
                destination: d,
                inactive_connections,
                active_connections,
                persistent_connections,
                stats64,
            },
        )
    }
}

impl Destination {
    /// The attributes that describe the destination, in the order the kernel
    /// takes them. A zero threshold is held as `None`.
    pub fn create_nlas(&self) -> (r: Vec<DestinationCtrlAttrs>)
        requires
            destination_valid(*self),
        ensures
            dest_views(r@) == destination_nlas(*self),
    {
        let mut ret: Vec<DestinationCtrlAttrs> = Vec::new();
        ret.push(DestinationCtrlAttrs::AddrFamily(self.family));
        ret.push(DestinationCtrlAttrs::Addr(AddrBytes::from_ipaddr(&self.address)));
        ret.push(DestinationCtrlAttrs::Port(self.port));
        ret.push(DestinationCtrlAttrs::FwdMethod(ForwardType::from(&self.fwd_method)));
        ret.push(DestinationCtrlAttrs::Weight(self.weight));
        let ghost head = dest_views(ret@);
        if let ForwardTypeFull::Tunnel { tunnel_type, tunnel_port, tunnel_flags } =
            self.fwd_method
        {
            ret.push(DestinationCtrlAttrs::TunType(tunnel_type));
            ret.push(DestinationCtrlAttrs::TunPort(tunnel_port));
            ret.push(DestinationCtrlAttrs::TunFlags(tunnel_flags));
        }
        let ghost with_tunnel = dest_views(ret@);
        assert(with_tunnel =~= head + match self.fwd_method {
            ForwardTypeFull::Tunnel { tunnel_type, tunnel_port, tunnel_flags } => seq![
                DestAttr::TunType(tunnel_type),
                DestAttr::TunPort(tunnel_port),
                DestAttr::TunFlags(tunnel_flags),
            ],
            _ => Seq::empty(),
        });
        let ut = match self.upper_threshold {
            Some(x) => x,
            None => 0,
        };
        ret.push(DestinationCtrlAttrs::UpperThreshold(ut));
        let lt = match self.lower_threshold {
            Some(x) => x,
            None => 0,
        };
        ret.push(DestinationCtrlAttrs::LowerThreshold(lt));
        assert(dest_views(ret@) =~= destination_nlas(*self));
        ret
    }
}

/// A destination attribute that reads back as what it was written from: one
/// that can be written into a buffer of its value length (not statistics,
/// masquerading as the only forwarding method, 16 address bytes).
pub open spec fn dest_roundtrips(a: DestAttr) -> bool {
    dest_emit_ok(a, dest_value_len(a))
}

/// A destination attribute that round-trips, written into a buffer of its
/// value length, reads back as itself, and reading it does not panic.
pub proof fn lemma_dest_value_roundtrip(a: DestAttr)
    requires
        dest_roundtrips(a),
    ensures
        dest_value_ok(dest_kind(a), dest_value_bytes(a)),
        dest_parse_value(dest_kind(a), dest_value_bytes(a)) == Ok::<DestAttr, IpvsError>(a),
{
    match a {
        DestAttr::Port(p) => {
            crate::wire::lemma_u16_be(p);
        },
        DestAttr::TunPort(p) => {
            crate::wire::lemma_u16_native(p);
        },
        DestAttr::TunFlags(f) => {
            crate::wire::lemma_u16_native(f.0);
        },
        DestAttr::AddrFamily(f) => {
            crate::wire::lemma_u16_native(family_code(f));
        },
        DestAttr::FwdMethod(_) => {
            crate::wire::lemma_u32_native(0);
        },
        DestAttr::Weight(x)
        | DestAttr::UpperThreshold(x)
        | DestAttr::LowerThreshold(x)
        | DestAttr::ActiveConns(x)
        | DestAttr::InactiveConns(x)
        | DestAttr::PersistConns(x) => {
            crate::wire::lemma_u32_native(x);
        },
        DestAttr::TunType(t) => {
            assert(t == TunnelType::IpIp);
        },
        _ => {},
    }
}

/// A destination attribute that round-trips, emitted with its header and
/// followed by any bytes, parses back as itself, and parsing it does not
/// panic.
#[verifier::rlimit(30)]
pub proof fn lemma_dest_attr_roundtrip(a: DestAttr, rest: Seq<u8>)
    requires
        dest_roundtrips(a),
    ensures
        frame_checked(nla_frame(dest_kind(a), dest_value_bytes(a)) + rest),
        dest_attr_at_ok(nla_frame(dest_kind(a), dest_value_bytes(a)) + rest),
        dest_attr_at(nla_frame(dest_kind(a), dest_value_bytes(a)) + rest) == Ok::<
            DestAttr,
            IpvsError,
        >(a),
        after_frame(nla_frame(dest_kind(a), dest_value_bytes(a)) + rest) == rest,
{
    reveal(dest_attr_at);
    reveal(dest_attr_at_ok);
    lemma_dest_value_roundtrip(a);
    lemma_dest_value_bytes_len(a);
    assert(dest_kind(a) < 0x4000 && type_field(dest_kind(a)) % 0x4000 == dest_kind(a));
    crate::netlink::lemma_frame_roundtrip(dest_kind(a), dest_value_bytes(a), rest);
}

/// Appending an attribute changes only the field it sets: the last attribute
/// of a kind wins.
pub proof fn lemma_dest_fields_push(xs: Seq<DestAttr>, a: DestAttr)
    ensures
        dest_fields(xs.push(a)) == dest_fields_with(dest_fields(xs), a),
{
    assert(xs.push(a).drop_last() =~= xs);
}

/// A destination is what its attributes, followed by its connection counts
/// and statistics, describe: building it back gives the same destination and
/// the same counts. This holds when the address is of the destination's
/// family.
pub proof fn lemma_destination_nlas_roundtrip(
    d: Destination,
    active: u32,
    inactive: u32,
    persistent: u32,
    stats: Stats64,
)
    requires
        destination_valid(d),
        family_of(d.address) == d.family,
    ensures
        ({
            let attrs = destination_nlas(d).push(DestAttr::ActiveConns(active)).push(
                DestAttr::InactiveConns(inactive),
            ).push(DestAttr::PersistConns(persistent)).push(DestAttr::Stats64(stats));
            &&& dest_fields_ok(dest_fields(attrs))
            &&& destination_from_fields(dest_fields(attrs)) == Ok::<
                DestinationExtended,
                IpvsError,
            >(
                DestinationExtended {
                    destination: d,
                    active_connections: active,
                    inactive_connections: inactive,
                    persistent_connections: persistent,
                    stats64: stats,
                },
            )
        }),
{
    let ut = match d.upper_threshold {
        Some(t) => t,
        None => 0,
    };
    let lt = match d.lower_threshold {
        Some(t) => t,
        None => 0,
    };
    let e = Seq::<DestAttr>::empty();
    let p1 = e.push(DestAttr::AddrFamily(d.family));
    let p2 = p1.push(DestAttr::Addr(address_bytes(d.address)));
    let p3 = p2.push(DestAttr::Port(d.port));
    let p4 = p3.push(DestAttr::FwdMethod(forward_type_of(d.fwd_method)));
    let p5 = p4.push(DestAttr::Weight(d.weight));
    assert(dest_fields(e) == dest_fields_empty());
    lemma_dest_fields_push(e, DestAttr::AddrFamily(d.family));
    lemma_dest_fields_push(p1, DestAttr::Addr(address_bytes(d.address)));
    lemma_dest_fields_push(p2, DestAttr::Port(d.port));
    lemma_dest_fields_push(p3, DestAttr::FwdMethod(forward_type_of(d.fwd_method)));
    lemma_dest_fields_push(p4, DestAttr::Weight(d.weight));
    let p8 = match d.fwd_method {
        ForwardTypeFull::Tunnel { tunnel_type, tunnel_port, tunnel_flags } => {
            let p6 = p5.push(DestAttr::TunType(tunnel_type));
            let p7 = p6.push(DestAttr::TunPort(tunnel_port));
            lemma_dest_fields_push(p5, DestAttr::TunType(tunnel_type));
            lemma_dest_fields_push(p6, DestAttr::TunPort(tunnel_port));
            lemma_dest_fields_push(p7, DestAttr::TunFlags(tunnel_flags));
            p7.push(DestAttr::TunFlags(tunnel_flags))
        },
        _ => p5,
    };
    let q1 = p8.push(DestAttr::UpperThreshold(ut));
    let q2 = q1.push(DestAttr::LowerThreshold(lt));
    let q3 = q2.push(DestAttr::ActiveConns(active));
    let q4 = q3.push(DestAttr::InactiveConns(inactive));
    let q5 = q4.push(DestAttr::PersistConns(persistent));
    lemma_dest_fields_push(p8, DestAttr::UpperThreshold(ut));
    lemma_dest_fields_push(q1, DestAttr::LowerThreshold(lt));
    lemma_dest_fields_push(q2, DestAttr::ActiveConns(active));
    lemma_dest_fields_push(q3, DestAttr::InactiveConns(inactive));
    lemma_dest_fields_push(q4, DestAttr::PersistConns(persistent));
    lemma_dest_fields_push(q5, DestAttr::Stats64(stats));
    assert(q5.push(DestAttr::Stats64(stats)) =~= destination_nlas(d).push(
        DestAttr::ActiveConns(active),
    ).push(DestAttr::InactiveConns(inactive)).push(DestAttr::PersistConns(persistent)).push(
        DestAttr::Stats64(stats),
    ));
    crate::ctrl::nlas::lemma_address_roundtrip(d.address);
}

/// A writable destination attribute's value bytes are as long as its value.
pub proof fn lemma_dest_value_bytes_len(a: DestAttr)
    requires
        dest_emit_ok(a, dest_value_len(a)),
    ensures
        dest_value_bytes(a).len() == dest_value_len(a),
{
    match a {
        DestAttr::Port(p) => crate::wire::lemma_u16_be(p),
        DestAttr::TunPort(p) => crate::wire::lemma_u16_native(p),
        DestAttr::TunFlags(f) => crate::wire::lemma_u16_native(f.0),
        DestAttr::AddrFamily(f) => crate::wire::lemma_u16_native(family_code(f)),
        DestAttr::FwdMethod(_) => crate::wire::lemma_u32_native(0),
        DestAttr::Weight(x)
        | DestAttr::UpperThreshold(x)
        | DestAttr::LowerThreshold(x)
        | DestAttr::ActiveConns(x)
        | DestAttr::InactiveConns(x)
        | DestAttr::PersistConns(x) => crate::wire::lemma_u32_native(x),
        _ => {},
    }
}

/// The decoder of one destination attribute, as a value.
pub open spec fn dest_attr_parser() -> spec_fn(Seq<u8>) -> Result<DestAttr, IpvsError> {
    |b: Seq<u8>| dest_attr_at(b)
}

/// The no-panic condition of one destination attribute, as a value.
pub open spec fn dest_attr_checker() -> spec_fn(Seq<u8>) -> bool {
    |b: Seq<u8>| dest_attr_at_ok(b)
}

/// Every attribute of `xs` can be emitted.
pub open spec fn dest_list_sendable(xs: Seq<DestAttr>) -> bool {
    forall|i: int| 0 <= i < xs.len() ==> dest_emit_ok(#[trigger] xs[i], dest_value_len(xs[i]))
}

/// The length on the wire of the attributes `xs`, one after another.
pub open spec fn dest_list_len(xs: Seq<DestAttr>) -> nat
    decreases xs.len(),
{
    if xs.len() == 0 {
        0
    } else {
        dest_list_len(xs.drop_last()) + (nla_align(dest_value_len(xs.last()) as int) + 4) as nat
    }
}

/// The bytes of the attribute `a`: header, value and padding.
pub open spec fn dest_frame_of(a: DestAttr) -> Seq<u8> {
    nla_frame(dest_kind(a), dest_value_bytes(a))
}

/// The bytes of the attributes `xs`, one after another, each with its header
/// and padding.
pub open spec fn dest_list_bytes(xs: Seq<DestAttr>) -> Seq<u8>
    decreases xs.len(),
{
    if xs.len() == 0 {
        Seq::empty()
    } else {
        dest_list_bytes(xs.drop_last()) + dest_frame_of(xs.last())
    }
}

/// The length of a list prefix is at most that of the list.
pub proof fn lemma_dest_list_len_prefix(xs: Seq<DestAttr>, i: int)
    requires
        0 <= i <= xs.len(),
    ensures
        dest_list_len(xs.take(i)) <= dest_list_len(xs),
    decreases xs.len() - i,
{
    if i < xs.len() {
        lemma_dest_list_len_prefix(xs, i + 1);
        assert(xs.take(i + 1).drop_last() == xs.take(i));
    } else {
        assert(xs.take(i) == xs);
    }
}

/// The length of the attributes' bytes is the attributes' length on the wire.
pub proof fn lemma_dest_list_bytes_len(xs: Seq<DestAttr>)
    requires
        dest_list_sendable(xs),
    ensures
        dest_list_bytes(xs).len() == dest_list_len(xs),
    decreases xs.len(),
{
    if xs.len() > 0 {
        let a = xs.last();
        assert(dest_list_sendable(xs.drop_last())) by {
            assert forall|i: int| 0 <= i < xs.drop_last().len() implies dest_emit_ok(
                #[trigger] xs.drop_last()[i],
                dest_value_len(xs.drop_last()[i]),
            ) by {
                assert(xs.drop_last()[i] == xs[i]);
            }
        }
        lemma_dest_list_bytes_len(xs.drop_last());
        assert(dest_emit_ok(xs[xs.len() - 1], dest_value_len(xs[xs.len() - 1])));
        lemma_dest_value_bytes_len(a);
        crate::netlink::lemma_frame_len(dest_kind(a), dest_value_bytes(a));
    }
}

/// The bytes of `a` followed by `xs` are `a`'s attribute followed by the bytes
/// of `xs`.
pub proof fn lemma_dest_list_bytes_cons(a: DestAttr, xs: Seq<DestAttr>)
    ensures
        dest_list_bytes(seq![a] + xs) == dest_frame_of(a) + dest_list_bytes(xs),
    decreases xs.len(),
{
    let ys = seq![a] + xs;
    if xs.len() == 0 {
        assert(ys.drop_last() =~= Seq::<DestAttr>::empty());
        assert(ys.last() == a);
        assert(dest_list_bytes(Seq::<DestAttr>::empty()) =~= Seq::<u8>::empty());
        assert(dest_list_bytes(xs) =~= Seq::<u8>::empty());
        assert(dest_list_bytes(ys) =~= Seq::<u8>::empty() + dest_frame_of(a));
        assert(Seq::<u8>::empty() + dest_frame_of(a) =~= dest_frame_of(a) + dest_list_bytes(xs));
    } else {
        lemma_dest_list_bytes_cons(a, xs.drop_last());
        assert(ys.drop_last() =~= seq![a] + xs.drop_last());
        assert(ys.last() == xs.last());
        assert(dest_frame_of(a) + dest_list_bytes(xs.drop_last()) + dest_frame_of(xs.last())
            =~= dest_frame_of(a) + dest_list_bytes(xs));
    }
}

/// Every attribute of `xs` round-trips on its own.
pub open spec fn dest_list_roundtrips(xs: Seq<DestAttr>) -> bool {
    forall|i: int| 0 <= i < xs.len() ==> dest_roundtrips(#[trigger] xs[i])
}

/// What reading back the written attributes `xs` gives, attribute by
/// attribute.
pub open spec fn dest_list_received(xs: Seq<DestAttr>) -> Seq<DestAttr> {
    xs.map_values(|x: DestAttr| x)
}

/// Attributes that each round-trip, written one after another, read back
/// attribute by attribute, and reading them does not panic.
pub proof fn lemma_dest_list_roundtrip(xs: Seq<DestAttr>)
    requires
        dest_list_roundtrips(xs),
    ensures
        frames_ok(dest_list_bytes(xs), dest_attr_checker(), dest_attr_parser()),
        parse_frames(dest_list_bytes(xs), dest_attr_parser()) == Ok::<Seq<DestAttr>, IpvsError>(
            dest_list_received(xs),
        ),
    decreases xs.len(),
{
    if xs.len() == 0 {
        assert(dest_list_received(xs) =~= Seq::<DestAttr>::empty());
    } else {
        let a = xs[0];
        let tail = xs.drop_first();
        assert(xs =~= seq![a] + tail);
        assert(dest_list_roundtrips(tail)) by {
            assert forall|i: int| 0 <= i < tail.len() implies dest_roundtrips(#[trigger] tail[i]) by {
                assert(tail[i] == xs[i + 1]);
            }
        }
        assert(dest_roundtrips(xs[0]));
        lemma_dest_list_bytes_cons(a, tail);
        lemma_dest_attr_roundtrip(a, dest_list_bytes(tail));
        lemma_dest_list_roundtrip(tail);
        assert(dest_list_received(xs) =~= seq![a] + dest_list_received(tail));
    }
}

impl DestinationCtrlAttrs {
    /// Whether writing the attribute's value into a buffer of `len` bytes
    /// would not panic.
    pub fn emit_value_ok(&self, len: usize) -> (r: bool)
        ensures
            r == dest_emit_ok(self@, len as nat),
    {
        match self {
            DestinationCtrlAttrs::Stats | DestinationCtrlAttrs::Stats64(_) => false,
            DestinationCtrlAttrs::FwdMethod(m) => match m {
                ForwardType::Masquerade => len >= 4,
                _ => false,
            },
            DestinationCtrlAttrs::Addr(b) => len == b.0.len(),
            _ => len >= self.value_len(),
        }
    }

    /// Whether decoding a destination attribute of type `kind` with payload
    /// `payload` would not panic.
    pub fn value_ok(kind: u16, payload: &[u8]) -> (r: bool)
        ensures
            r == dest_value_ok(kind, payload@),
    {
        if kind == IPVS_DEST_ATTR_PORT {
            payload.len() >= 2
        } else if kind == IPVS_DEST_ATTR_FWD_METHOD {
            match parse_u32(payload) {
                Ok(v) => v == 0,
                Err(_) => true,
            }
        } else if kind == IPVS_DEST_ATTR_TUN_TYPE {
            payload.len() >= 1 && payload[0] == 0
        } else if kind == IPVS_DEST_ATTR_STATS64 {
            Stats64::payload_ok(payload)
        } else {
            true
        }
    }

    /// Whether `parse` on `buf` would not panic.
    pub fn parse_ok(buf: &[u8]) -> (r: bool)
        ensures
            r == (frame_checked(buf@) && dest_attr_at_ok(buf@)),
    {
        proof {
            reveal(dest_attr_at_ok);
        }
        match nla_check(buf) {
            Err(_) => false,
            Ok(()) => {
                let payload = nla_value(buf);
                let kind = nla_kind(buf);
                DestinationCtrlAttrs::value_ok(kind, payload.as_slice())
            },
        }
    }
}

impl DestinationExtended {
    /// Whether `from_nlas` on `nlas` would not panic.
    pub fn from_nlas_ok(nlas: &[DestinationCtrlAttrs]) -> (r: bool)
        ensures
            r == dest_fields_ok(dest_fields(dest_views(nlas@))),
    {
        let mut family: Option<AddressFamily> = None;
        let mut address_len: Option<usize> = None;
        let ghost views = dest_views(nlas@);
        let mut i: usize = 0;
        while i < nlas.len()
            invariant
                0 <= i <= nlas@.len(),
                views == dest_views(nlas@),
                ({
                    let f = dest_fields(views.take(i as int));
                    &&& family == f.family
                    &&& match address_len {
                        Some(n) => f.address is Some && f.address->0.len() == n,
                        None => f.address is None,
                    }
                }),
            decreases nlas@.len() - i,
        {
            assert(views.take(i + 1).drop_last() == views.take(i as int));
            assert(views.take(i + 1).last() == nlas@[i as int]@);
            match &nlas[i] {
                DestinationCtrlAttrs::AddrFamily(f) => family = Some(*f),
                DestinationCtrlAttrs::Addr(bytes) => address_len = Some(bytes.0.len()),
                _ => (),
            }
            i = i + 1;
        }
        assert(views.take(i as int) == views);
        match (family, address_len) {
            (Some(AddressFamily::IPv4), Some(n)) => n >= 4,
            (Some(AddressFamily::IPv6), Some(n)) => n == 16,
            _ => true,
        }
    }
}

/// Some attribute of `attrs` has the netlink type `kind`.
pub open spec fn dest_has(attrs: Seq<DestAttr>, kind: u16) -> bool {
    exists|i: int| 0 <= i < attrs.len() && dest_kind(#[trigger] attrs[i]) == kind
}

/// The first attribute that building a destination from `attrs` needs and
/// does not find, in the order address family, address, forwarding method,
/// (when the last forwarding method is a tunnel) tunnel type, port and flags,
/// weight, port, inactive, active and persistent connections, statistics; none
/// when all are there.
pub open spec fn dest_first_missing(attrs: Seq<DestAttr>) -> Option<RequiredAttr> {
    let tunnel = dest_fields(attrs).fwd_method == Some(ForwardType::Tunnel);
    if !dest_has(attrs, IPVS_DEST_ATTR_ADDR_FAMILY) {
        Some(RequiredAttr::AddressFamily)
    } else if !dest_has(attrs, IPVS_DEST_ATTR_ADDR) {
        Some(RequiredAttr::Address)
    } else if !dest_has(attrs, IPVS_DEST_ATTR_FWD_METHOD) {
        Some(RequiredAttr::ForwardMethod)
    } else if tunnel && !dest_has(attrs, IPVS_DEST_ATTR_TUN_TYPE) {
        Some(RequiredAttr::TunnelType)
    } else if tunnel && !dest_has(attrs, IPVS_DEST_ATTR_TUN_PORT) {
        Some(RequiredAttr::TunnelPort)
    } else if tunnel && !dest_has(attrs, IPVS_DEST_ATTR_TUN_FLAGS) {
        Some(RequiredAttr::TunnelFlags)
    } else if !dest_has(attrs, IPVS_DEST_ATTR_WEIGHT) {
        Some(RequiredAttr::Weight)
    } else if !dest_has(attrs, IPVS_DEST_ATTR_PORT) {
        Some(RequiredAttr::Port)
    } else if !dest_has(attrs, IPVS_DEST_ATTR_INACT_CONNS) {
        Some(RequiredAttr::InactiveConnections)
    } else if !dest_has(attrs, IPVS_DEST_ATTR_ACTIVE_CONNS) {
        Some(RequiredAttr::ActiveConnections)
    } else if !dest_has(attrs, IPVS_DEST_ATTR_PERSIST_CONNS) {
        Some(RequiredAttr::PersistentConnections)
    } else if !dest_has(attrs, IPVS_DEST_ATTR_STATS64) {
        Some(RequiredAttr::Stats64)
    } else {
        None
    }
}

/// An attribute of type `kind` is in `xs` followed by `a` exactly when it is
/// in `xs` or is `a`.
proof fn lemma_dest_has_push(xs: Seq<DestAttr>, a: DestAttr, kind: u16)
    ensures
        dest_has(xs.push(a), kind) == (dest_has(xs, kind) || dest_kind(a) == kind),
{
    let ys = xs.push(a);
    if dest_has(xs, kind) {
        let i = choose|i: int| 0 <= i < xs.len() && dest_kind(#[trigger] xs[i]) == kind;
        assert(ys[i] == xs[i]);
    }
    if dest_kind(a) == kind {
        assert(ys[xs.len() as int] == a);
    }
    if dest_has(ys, kind) {
        let i = choose|i: int| 0 <= i < ys.len() && dest_kind(#[trigger] ys[i]) == kind;
        if i < xs.len() {
            assert(ys[i] == xs[i]);
        }
    }
}

/// A required field of what `attrs` say is set exactly when some attribute
/// of its kind is in `attrs`.
proof fn lemma_dest_fields_present(attrs: Seq<DestAttr>)
    ensures
        dest_fields(attrs).family is Some <==> dest_has(attrs, IPVS_DEST_ATTR_ADDR_FAMILY),
        dest_fields(attrs).address is Some <==> dest_has(attrs, IPVS_DEST_ATTR_ADDR),
        dest_fields(attrs).fwd_method is Some <==> dest_has(attrs, IPVS_DEST_ATTR_FWD_METHOD),
        dest_fields(attrs).tunnel_type is Some <==> dest_has(attrs, IPVS_DEST_ATTR_TUN_TYPE),
        dest_fields(attrs).tunnel_port is Some <==> dest_has(attrs, IPVS_DEST_ATTR_TUN_PORT),
        dest_fields(attrs).tunnel_flags is Some <==> dest_has(attrs, IPVS_DEST_ATTR_TUN_FLAGS),
        dest_fields(attrs).weight is Some <==> dest_has(attrs, IPVS_DEST_ATTR_WEIGHT),
        dest_fields(attrs).port is Some <==> dest_has(attrs, IPVS_DEST_ATTR_PORT),
        dest_fields(attrs).inactive_connections is Some <==> dest_has(
            attrs,
            IPVS_DEST_ATTR_INACT_CONNS,
        ),
        dest_fields(attrs).active_connections is Some <==> dest_has(
            attrs,
            IPVS_DEST_ATTR_ACTIVE_CONNS,
        ),
        dest_fields(attrs).persistent_connections is Some <==> dest_has(
            attrs,
            IPVS_DEST_ATTR_PERSIST_CONNS,
        ),
        dest_fields(attrs).stats64 is Some <==> dest_has(attrs, IPVS_DEST_ATTR_STATS64),
    decreases attrs.len(),
{
    if attrs.len() == 0 {
        assert(!dest_has(attrs, IPVS_DEST_ATTR_ADDR_FAMILY));
        assert(!dest_has(attrs, IPVS_DEST_ATTR_ADDR));
        assert(!dest_has(attrs, IPVS_DEST_ATTR_FWD_METHOD));
        assert(!dest_has(attrs, IPVS_DEST_ATTR_TUN_TYPE));
        assert(!dest_has(attrs, IPVS_DEST_ATTR_TUN_PORT));
        assert(!dest_has(attrs, IPVS_DEST_ATTR_TUN_FLAGS));
        assert(!dest_has(attrs, IPVS_DEST_ATTR_WEIGHT));
        assert(!dest_has(attrs, IPVS_DEST_ATTR_PORT));
        assert(!dest_has(attrs, IPVS_DEST_ATTR_INACT_CONNS));
        assert(!dest_has(attrs, IPVS_DEST_ATTR_ACTIVE_CONNS));
        assert(!dest_has(attrs, IPVS_DEST_ATTR_PERSIST_CONNS));
        assert(!dest_has(attrs, IPVS_DEST_ATTR_STATS64));
    } else {
        let xs = attrs.drop_last();
        let a = attrs.last();
        assert(xs.push(a) =~= attrs);
        lemma_dest_fields_present(xs);
        lemma_dest_fields_push(xs, a);
        lemma_dest_has_push(xs, a, IPVS_DEST_ATTR_ADDR_FAMILY);
        lemma_dest_has_push(xs, a, IPVS_DEST_ATTR_ADDR);
        lemma_dest_has_push(xs, a, IPVS_DEST_ATTR_FWD_METHOD);
        lemma_dest_has_push(xs, a, IPVS_DEST_ATTR_TUN_TYPE);
        lemma_dest_has_push(xs, a, IPVS_DEST_ATTR_TUN_PORT);
        lemma_dest_has_push(xs, a, IPVS_DEST_ATTR_TUN_FLAGS);
        lemma_dest_has_push(xs, a, IPVS_DEST_ATTR_WEIGHT);
        lemma_dest_has_push(xs, a, IPVS_DEST_ATTR_PORT);
        lemma_dest_has_push(xs, a, IPVS_DEST_ATTR_INACT_CONNS);
        lemma_dest_has_push(xs, a, IPVS_DEST_ATTR_ACTIVE_CONNS);
        lemma_dest_has_push(xs, a, IPVS_DEST_ATTR_PERSIST_CONNS);
        lemma_dest_has_push(xs, a, IPVS_DEST_ATTR_STATS64);
    }
}

/// Building a destination from `attrs` succeeds exactly when every required
/// attribute is there (address family, address, forwarding method, weight,
/// port, the three connection counts, statistics, and for a tunnel its type,
/// port and flags); otherwise it reports the first one missing, in that
/// order.
pub proof fn lemma_destination_required(attrs: Seq<DestAttr>)
    ensures
        match dest_first_missing(attrs) {
            None => destination_from_fields(dest_fields(attrs)) is Ok,
            Some(m) => destination_from_fields(dest_fields(attrs)) == Err::<
                DestinationExtended,
                IpvsError,
            >(IpvsError::Missing(m)),
        },
{
    lemma_dest_fields_present(attrs);
}

/// `r` with the field that `a` sets replaced: a weight, port, threshold (zero
/// meaning none), connection count or statistics.
pub open spec fn destination_updated(r: DestinationExtended, a: DestAttr) -> DestinationExtended {
    match a {
        DestAttr::Weight(w) => DestinationExtended {
            destination: Destination { weight: w, ..r.destination },
            ..r
        },
        DestAttr::Port(p) => DestinationExtended {
            destination: Destination { port: p, ..r.destination },
            ..r
        },
        DestAttr::UpperThreshold(t) => DestinationExtended {
            destination: Destination { upper_threshold: nonzero(t), ..r.destination },
            ..r
        },
        DestAttr::LowerThreshold(t) => DestinationExtended {
            destination: Destination { lower_threshold: nonzero(t), ..r.destination },
            ..r
        },
        DestAttr::ActiveConns(c) => DestinationExtended { active_connections: c, ..r },
        DestAttr::InactiveConns(c) => DestinationExtended { inactive_connections: c, ..r },
        DestAttr::PersistConns(c) => DestinationExtended { persistent_connections: c, ..r },
        DestAttr::Stats64(st) => DestinationExtended { stats64: st, ..r },
        _ => r,
    }
}

/// Appending a weight, port, threshold, connection count or statistics
/// attribute to attributes that build a destination replaces only that field
/// of it: the last attribute of a kind wins.
pub proof fn lemma_destination_append(xs: Seq<DestAttr>, a: DestAttr, r: DestinationExtended)
    requires
        destination_from_fields(dest_fields(xs)) == Ok::<DestinationExtended, IpvsError>(r),
        a is Weight || a is Port || a is UpperThreshold || a is LowerThreshold || a is ActiveConns
            || a is InactiveConns || a is PersistConns || a is Stats64,
    ensures
        destination_from_fields(dest_fields(xs.push(a))) == Ok::<DestinationExtended, IpvsError>(
            destination_updated(r, a),
        ),
{
    lemma_dest_fields_push(xs, a);
}

/// Decoding a destination attribute reports an error, without panicking, for
/// an unknown type, a count, weight, threshold or forwarding method that is
/// not four bytes, an address family, tunnel port or tunnel flags that is not
/// two bytes, and an address family other than IPv4 (2) and IPv6 (10). It
/// panics (the input is outside what `parse` accepts) for a forwarding method
/// other than masquerading, an empty or non-zero tunnel type, and a port
/// shorter than two bytes.
pub proof fn lemma_dest_parse_outcomes(kind: u16, p: Seq<u8>)
    ensures
        (kind == 0 || kind > 15) ==> dest_value_ok(kind, p) && dest_parse_value(kind, p) == Err::<
            DestAttr,
            IpvsError,
        >(IpvsError::UnknownDestinationKind(kind)),
        (kind == IPVS_DEST_ATTR_FWD_METHOD || is_u32_kind(kind)) && p.len() != 4 ==> dest_value_ok(
            kind,
            p,
        ) && dest_parse_value(kind, p) == Err::<DestAttr, IpvsError>(IpvsError::InvalidU32),
        (kind == IPVS_DEST_ATTR_ADDR_FAMILY || kind == IPVS_DEST_ATTR_TUN_PORT || kind
            == IPVS_DEST_ATTR_TUN_FLAGS) && p.len() != 2 ==> dest_value_ok(kind, p)
            && dest_parse_value(kind, p) == Err::<DestAttr, IpvsError>(IpvsError::InvalidU16),
        kind == IPVS_DEST_ATTR_ADDR_FAMILY && p.len() == 2 && native_u16(p) != 2 && native_u16(p)
            != 10 ==> dest_value_ok(kind, p) && dest_parse_value(kind, p) == Err::<
            DestAttr,
            IpvsError,
        >(IpvsError::UnknownAddressFamily(native_u16(p) as u16)),
        kind == IPVS_DEST_ATTR_FWD_METHOD && p.len() == 4 && native_u32(p) != 0 ==> !dest_value_ok(
            kind,
            p,
        ),
        kind == IPVS_DEST_ATTR_TUN_TYPE && (p.len() == 0 || p[0] != 0) ==> !dest_value_ok(kind, p),
        kind == IPVS_DEST_ATTR_PORT && p.len() < 2 ==> !dest_value_ok(kind, p),
{
}

/// The field of `f` that attributes of type `kind` set, as the attribute that
/// sets it; none when it is not set or `kind` sets no field.
pub open spec fn dest_field(f: DestFields, kind: u16) -> Option<DestAttr> {
    if kind == IPVS_DEST_ATTR_ADDR {
        match f.address {
            Some(x) => Some(DestAttr::Addr(x)),
            None => None,
        }
    } else if kind == IPVS_DEST_ATTR_PORT {
        match f.port {
            Some(x) => Some(DestAttr::Port(x)),
            None => None,
        }
    } else if kind == IPVS_DEST_ATTR_FWD_METHOD {
        match f.fwd_method {
            Some(x) => Some(DestAttr::FwdMethod(x)),
            None => None,
        }
    } else if kind == IPVS_DEST_ATTR_WEIGHT {
        match f.weight {
            Some(x) => Some(DestAttr::Weight(x)),
            None => None,
        }
    } else if kind == IPVS_DEST_ATTR_U_THRESH {
        match f.upper_threshold {
            Some(x) => Some(DestAttr::UpperThreshold(x)),
            None => None,
        }
    } else if kind == IPVS_DEST_ATTR_L_THRESH {
        match f.lower_threshold {
            Some(x) => Some(DestAttr::LowerThreshold(x)),
            None => None,
        }
    } else if kind == IPVS_DEST_ATTR_ACTIVE_CONNS {
        match f.active_connections {
            Some(x) => Some(DestAttr::ActiveConns(x)),
            None => None,
        }
    } else if kind == IPVS_DEST_ATTR_INACT_CONNS {
        match f.inactive_connections {
            Some(x) => Some(DestAttr::InactiveConns(x)),
            None => None,
        }
    } else if kind == IPVS_DEST_ATTR_PERSIST_CONNS {
        match f.persistent_connections {
            Some(x) => Some(DestAttr::PersistConns(x)),
            None => None,
        }
    } else if kind == IPVS_DEST_ATTR_ADDR_FAMILY {
        match f.family {
            Some(x) => Some(DestAttr::AddrFamily(x)),
            None => None,
        }
    } else if kind == IPVS_DEST_ATTR_STATS64 {
        match f.stats64 {
            Some(x) => Some(DestAttr::Stats64(x)),
            None => None,
        }
    } else if kind == IPVS_DEST_ATTR_TUN_TYPE {
        match f.tunnel_type {
            Some(x) => Some(DestAttr::TunType(x)),
            None => None,
        }
    } else if kind == IPVS_DEST_ATTR_TUN_PORT {
        match f.tunnel_port {
            Some(x) => Some(DestAttr::TunPort(x)),
            None => None,
        }
    } else if kind == IPVS_DEST_ATTR_TUN_FLAGS {
        match f.tunnel_flags {
            Some(x) => Some(DestAttr::TunFlags(x)),
            None => None,
        }
    } else {
        None
    }
}

/// What the attribute `a` leaves in its field: itself, or nothing for a zero
/// threshold and for the empty statistics attribute.
pub open spec fn dest_setting(a: DestAttr) -> Option<DestAttr> {
    match a {
        DestAttr::UpperThreshold(t) => if t == 0 {
            None
        } else {
            Some(a)
        },
        DestAttr::LowerThreshold(t) => if t == 0 {
            None
        } else {
            Some(a)
        },
        DestAttr::Stats => None,
        _ => Some(a),
    }
}

/// No two attributes of `attrs` have the same type, but for the empty
/// statistics attribute.
pub open spec fn dest_kinds_unique(attrs: Seq<DestAttr>) -> bool {
    forall|i: int, j: int|
        0 <= i < j < attrs.len() && dest_kind(#[trigger] attrs[i]) == dest_kind(#[trigger] attrs[j])
            ==> attrs[i] is Stats
}

/// `xs` and `ys` hold the same attributes, leaving out the empty statistics
/// attribute.
pub open spec fn dest_same_settings(xs: Seq<DestAttr>, ys: Seq<DestAttr>) -> bool {
    forall|a: DestAttr| !(a is Stats) ==> (xs.contains(a) <==> ys.contains(a))
}

/// Applying `a` sets the field of its type to what `a` leaves there, and
/// leaves the other fields.
proof fn lemma_dest_field_with(f: DestFields, a: DestAttr, kind: u16)
    ensures
        dest_field(dest_fields_with(f, a), kind) == if dest_kind(a) == kind {
            if a is Stats {
                dest_field(f, kind)
            } else {
                dest_setting(a)
            }
        } else {
            dest_field(f, kind)
        },
{
}

/// A prefix of attributes with distinct types has distinct types.
proof fn lemma_dest_unique_drop_last(xs: Seq<DestAttr>)
    requires
        xs.len() > 0,
        dest_kinds_unique(xs),
    ensures
        dest_kinds_unique(xs.drop_last()),
{
    let ys = xs.drop_last();
    assert forall|i: int, j: int|
        0 <= i < j < ys.len() && dest_kind(#[trigger] ys[i]) == dest_kind(
            #[trigger] ys[j],
        ) implies ys[i] is Stats by {
        assert(ys[i] == xs[i] && ys[j] == xs[j]);
    }
}

/// Among attributes with distinct types, the field that `attrs[i]` sets holds
/// what it leaves there.
proof fn lemma_dest_field_of(attrs: Seq<DestAttr>, i: int)
    requires
        dest_kinds_unique(attrs),
        0 <= i < attrs.len(),
        !(attrs[i] is Stats),
    ensures
        dest_field(dest_fields(attrs), dest_kind(attrs[i])) == dest_setting(attrs[i]),
    decreases attrs.len(),
{
    let xs = attrs.drop_last();
    let a = attrs.last();
    assert(xs.push(a) =~= attrs);
    lemma_dest_fields_push(xs, a);
    lemma_dest_field_with(dest_fields(xs), a, dest_kind(attrs[i]));
    if i < attrs.len() - 1 {
        lemma_dest_unique_drop_last(attrs);
        assert(xs[i] == attrs[i]);
        lemma_dest_field_of(xs, i);
        assert(dest_kind(attrs[i]) != dest_kind(attrs[attrs.len() - 1]));
    }
}

/// With no attribute of type `kind`, its field is not set.
proof fn lemma_dest_field_absent(attrs: Seq<DestAttr>, kind: u16)
    requires
        !dest_has(attrs, kind),
    ensures
        dest_field(dest_fields(attrs), kind) is None,
    decreases attrs.len(),
{
    if attrs.len() > 0 {
        let xs = attrs.drop_last();
        let a = attrs.last();
        assert(xs.push(a) =~= attrs);
        lemma_dest_fields_push(xs, a);
        lemma_dest_has_push(xs, a, kind);
        lemma_dest_field_absent(xs, kind);
        lemma_dest_field_with(dest_fields(xs), a, kind);
    }
}

/// Among attributes with distinct types, the field of type `kind` is the same
/// for any two lists holding the same attributes.
proof fn lemma_dest_field_same(xs: Seq<DestAttr>, ys: Seq<DestAttr>, kind: u16)
    requires
        dest_kinds_unique(xs),
        dest_kinds_unique(ys),
        dest_same_settings(xs, ys),
    ensures
        dest_field(dest_fields(xs), kind) == dest_field(dest_fields(ys), kind),
{
    if kind == IPVS_DEST_ATTR_STATS {
    } else if dest_has(xs, kind) {
        let i = choose|i: int| 0 <= i < xs.len() && dest_kind(#[trigger] xs[i]) == kind;
        assert(xs.contains(xs[i]));
        let j = choose|j: int| 0 <= j < ys.len() && ys[j] == xs[i];
        lemma_dest_field_of(xs, i);
        lemma_dest_field_of(ys, j);
    } else if dest_has(ys, kind) {
        let j = choose|j: int| 0 <= j < ys.len() && dest_kind(#[trigger] ys[j]) == kind;
        assert(ys.contains(ys[j]));
        let i = choose|i: int| 0 <= i < xs.len() && xs[i] == ys[j];
        assert(dest_kind(xs[i]) == kind);
    } else {
        lemma_dest_field_absent(xs, kind);
        lemma_dest_field_absent(ys, kind);
    }
}

/// When no attribute type but the empty statistics one occurs twice, what a
/// list of destination attributes says does not depend on their order, nor on
/// empty statistics attributes: two such lists holding the same attributes
/// build the same destination, or fail alike.
pub proof fn lemma_destination_order_free(xs: Seq<DestAttr>, ys: Seq<DestAttr>)
    requires
        dest_kinds_unique(xs),
        dest_kinds_unique(ys),
        dest_same_settings(xs, ys),
    ensures
        dest_fields(xs) == dest_fields(ys),
        destination_from_fields(dest_fields(xs)) == destination_from_fields(dest_fields(ys)),
{
    lemma_dest_field_same(xs, ys, IPVS_DEST_ATTR_ADDR);
    lemma_dest_field_same(xs, ys, IPVS_DEST_ATTR_PORT);
    lemma_dest_field_same(xs, ys, IPVS_DEST_ATTR_FWD_METHOD);
    lemma_dest_field_same(xs, ys, IPVS_DEST_ATTR_WEIGHT);
    lemma_dest_field_same(xs, ys, IPVS_DEST_ATTR_U_THRESH);
    lemma_dest_field_same(xs, ys, IPVS_DEST_ATTR_L_THRESH);
    lemma_dest_field_same(xs, ys, IPVS_DEST_ATTR_ACTIVE_CONNS);
    lemma_dest_field_same(xs, ys, IPVS_DEST_ATTR_INACT_CONNS);
    lemma_dest_field_same(xs, ys, IPVS_DEST_ATTR_PERSIST_CONNS);
    lemma_dest_field_same(xs, ys, IPVS_DEST_ATTR_ADDR_FAMILY);
    lemma_dest_field_same(xs, ys, IPVS_DEST_ATTR_STATS64);
    lemma_dest_field_same(xs, ys, IPVS_DEST_ATTR_TUN_TYPE);
    lemma_dest_field_same(xs, ys, IPVS_DEST_ATTR_TUN_PORT);
    lemma_dest_field_same(xs, ys, IPVS_DEST_ATTR_TUN_FLAGS);
}

/// The destination address-family attribute carries the kernel's family
/// number in the machine's byte order: IPv4 is 2, IPv6 is 10; and a two-byte
/// payload holding 2 reads back as IPv4, 10 as IPv6.
pub proof fn lemma_dest_family_numbers(p: Seq<u8>)
    ensures
        dest_value_bytes(DestAttr::AddrFamily(AddressFamily::IPv4)) == u16_native_bytes(2),
        dest_value_bytes(DestAttr::AddrFamily(AddressFamily::IPv6)) == u16_native_bytes(10),
        p.len() == 2 && native_u16(p) == 2 ==> dest_parse_value(IPVS_DEST_ATTR_ADDR_FAMILY, p)
            == Ok::<DestAttr, IpvsError>(DestAttr::AddrFamily(AddressFamily::IPv4)),
        p.len() == 2 && native_u16(p) == 10 ==> dest_parse_value(IPVS_DEST_ATTR_ADDR_FAMILY, p)
            == Ok::<DestAttr, IpvsError>(DestAttr::AddrFamily(AddressFamily::IPv6)),
{
}

/// The attributes that describe a destination always end with exactly one
/// upper and one lower threshold, holding the thresholds, or 0 when unset;
/// no other attribute is a threshold.
pub proof fn lemma_destination_nlas_thresholds(d: Destination)
    ensures
        ({
            let xs = destination_nlas(d);
            &&& xs.len() >= 7
            &&& xs[xs.len() - 2] == DestAttr::UpperThreshold(
                match d.upper_threshold {
                    Some(t) => t,
                    None => 0,
                },
            )
            &&& xs[xs.len() - 1] == DestAttr::LowerThreshold(
                match d.lower_threshold {
                    Some(t) => t,
                    None => 0,
                },
            )
            &&& forall|i: int|
                0 <= i < xs.len() - 2 ==> !(#[trigger] xs[i] is UpperThreshold) && !(
                xs[i] is LowerThreshold)
        }),
{
}

/// The netlink types of the destination attributes, as the kernel numbers
/// them: address 1, port 2, forwarding method 3, weight 4, upper threshold 5,
/// lower threshold 6, active 7, inactive 8 and persistent 9 connections,
/// statistics 10, address family 11, 64-bit statistics 12, tunnel type 13,
/// tunnel port 14, tunnel flags 15.
pub proof fn lemma_dest_kind_numbers(a: DestAttr)
    ensures
        a is Addr ==> dest_kind(a) == 1,
        a is Port ==> dest_kind(a) == 2,
        a is FwdMethod ==> dest_kind(a) == 3,
        a is Weight ==> dest_kind(a) == 4,
        a is UpperThreshold ==> dest_kind(a) == 5,
        a is LowerThreshold ==> dest_kind(a) == 6,
        a is ActiveConns ==> dest_kind(a) == 7,
        a is InactiveConns ==> dest_kind(a) == 8,
        a is PersistConns ==> dest_kind(a) == 9,
        a is Stats ==> dest_kind(a) == 10,
        a is AddrFamily ==> dest_kind(a) == 11,
        a is Stats64 ==> dest_kind(a) == 12,
        a is TunType ==> dest_kind(a) == 13,
        a is TunPort ==> dest_kind(a) == 14,
        a is TunFlags ==> dest_kind(a) == 15,
{
}

/// Masquerading is the forwarding method the kernel numbers 0: its attribute
/// carries 0, and a four-byte payload holding 0 reads back as masquerading.
pub proof fn lemma_masquerade_number(p: Seq<u8>)
    ensures
        dest_value_bytes(DestAttr::FwdMethod(ForwardType::Masquerade)) == u32_native_bytes(0),
        p.len() == 4 && native_u32(p) == 0 ==> dest_parse_value(IPVS_DEST_ATTR_FWD_METHOD, p)
            == Ok::<DestAttr, IpvsError>(DestAttr::FwdMethod(ForwardType::Masquerade)),
{
}

} // verus!
