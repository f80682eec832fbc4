//! IPVS services: their attributes, the attributes' encoding, and the
//! conversion between a service and its attribute list.

use vstd::prelude::*;
use vstd::string::StrSliceExecFns;
use vstd::utf8::{decode_utf8, encode_utf8, valid_utf8};

use crate::constants::{
    IPVS_SVC_ATTR_ADDR, IPVS_SVC_ATTR_AF, IPVS_SVC_ATTR_FLAGS, IPVS_SVC_ATTR_FWMARK,
    IPVS_SVC_ATTR_NETMASK, IPVS_SVC_ATTR_PORT, IPVS_SVC_ATTR_PROTOCOL, IPVS_SVC_ATTR_SCHED_NAME,
    IPVS_SVC_ATTR_STATS, IPVS_SVC_ATTR_STATS64, IPVS_SVC_ATTR_TIMEOUT,
};
use crate::ctrl::nlas::{
    address_bytes, address_of, family_of, holds_address, IpAddr,
    family_code, family_from_code, stats_from_payload, stats_payload_ok, view_result,
    AddrBytes, AddressFamily, Stats64,
};
use crate::error::{IpvsError, RequiredAttr};
use crate::netlink::{nla_check, emit_nla, frames_ok, parse_frames, after_frame, type_field, frame_checked, frame_kind, frame_value, nla_align, nla_frame, nla_kind, nla_value};
use crate::wire::{
    be_u32, copy_prefix, count_ones_u8, u16_symmetric, u32_symmetric, le_u16, le_u32, lemma_popcount_sum_prefix, native_u16,
    overwrite_prefix, popcount, popcount_sum, read_u16_le, read_u32_be, read_u32_le,
    u16_be_bytes, u16_from_be, u16_le_bytes, u32_le_bytes, write_u16_be, write_u16_le,
    write_u32_le,
};
use vstd::endian::{endianness, Endian};

verus! {

/// A netmask by its prefix length; it is written out in full only once its
/// address family is known.
#[derive(Clone, Debug, PartialEq, Eq, Copy)]
pub struct Netmask {
    ones: u8,
    address_family: Option<AddressFamily>,
}

/// The longest prefix of an address of `family`, in bits.
pub open spec fn max_prefix(family: AddressFamily) -> u8 {
    match family {
        AddressFamily::IPv4 => 32,
        AddressFamily::IPv6 => 128,
    }
}

/// The length of an address of `family`, in bytes.
pub open spec fn address_len(family: AddressFamily) -> nat {
    match family {
        AddressFamily::IPv4 => 4,
        AddressFamily::IPv6 => 16,
    }
}

/// The byte with its top `r` bits set, for `r` below 8.
pub open spec fn top_bits(r: nat) -> u8 {
    if r == 0 {
        0
    } else if r == 1 {
        0x80
    } else if r == 2 {
        0xc0
    } else if r == 3 {
        0xe0
    } else if r == 4 {
        0xf0
    } else if r == 5 {
        0xf8
    } else if r == 6 {
        0xfc
    } else {
        0xfe
    }
}

/// Byte `i` of a mask whose first `ones` bits are set.
pub open spec fn mask_byte(ones: nat, i: int) -> u8 {
    if i < ones / 8 {
        0xff
    } else if i == ones / 8 {
        top_bits(ones % 8)
    } else {
        0
    }
}

/// The `len` bytes of a mask whose first `ones` bits are set.
pub open spec fn mask_bytes(ones: nat, len: nat) -> Seq<u8> {
    Seq::new(len, |i: int| mask_byte(ones, i))
}

impl Netmask {
    /// The prefix length.
    pub closed spec fn bits(self) -> u8 {
        self.ones
    }

    /// The address family, when known.
    pub closed spec fn family(self) -> Option<AddressFamily> {
        self.address_family
    }

    /// A netmask whose family is known never has a prefix longer than the
    /// family's addresses.
    #[verifier::type_invariant]
    spec fn prefix_fits(self) -> bool {
        self.address_family matches Some(f) ==> self.ones <= max_prefix(f)
    }

    /// Two netmasks with the same prefix length and family are the same.
    pub proof fn lemma_eq(a: Netmask, b: Netmask)
        requires
            a.bits() == b.bits(),
            a.family() == b.family(),
        ensures
            a == b,
    {
    }

    /// A netmask of prefix length `ones` whose family is not known.
    pub fn without_af(ones: u8) -> (r: Netmask)
        ensures
            r.bits() == ones,
            r.family() is None,
    {
        Netmask { ones, address_family: None }
    }

    /// A netmask of prefix length `ones` for `address_family`; the prefix may
    /// not be longer than the family's addresses.
    pub fn new(ones: u8, address_family: AddressFamily) -> (r: Netmask)
        requires
            ones <= max_prefix(address_family),
        ensures
            r.bits() == ones,
            r.family() == Some(address_family),
    {
        Netmask { ones, address_family: Some(address_family) }
    }

    /// Writes the mask over the first bytes of `buf`, as many as an address of
    /// the netmask's family has: the first `ones` bits set, the others clear.
    pub fn gen_netmask(&self, buf: &mut [u8])
        requires
            self.family() is Some,
            old(buf)@.len() >= address_len(self.family()->0),
        ensures
            final(buf)@ == overwrite_prefix(
                old(buf)@,
                mask_bytes(self.bits() as nat, address_len(self.family()->0)),
            ),
    {
        proof {
            use_type_invariant(self);
        }
        let addr_len: usize = match self.address_family {
            Some(AddressFamily::IPv4) => 4,
            Some(AddressFamily::IPv6) => 16,
            None => 0,
        };
        let ghost old_buf = buf@;
        let ghost len = addr_len as nat;
        let full_bytes: usize = (self.ones / 8) as usize;
        let remaining_bits: u8 = self.ones % 8;
        let mut i: usize = 0;
        while i < full_bytes
            invariant
                full_bytes <= addr_len <= buf@.len(),
                full_bytes == self.ones / 8,
                buf@.len() == old_buf.len(),
                0 <= i <= full_bytes,
                forall|j: int| 0 <= j < i ==> buf@[j] == 0xff,
                forall|j: int| i <= j < buf@.len() ==> buf@[j] == old_buf[j],
            decreases full_bytes - i,
        {
            buf[i] = 0xff;
            i = i + 1;
        }
        if remaining_bits > 0 {
            let b: u8 = 0xFFu8 << (8 - remaining_bits);
            assert(b == top_bits(remaining_bits as nat)) by (bit_vector)
                requires
                    1 <= remaining_bits <= 7,
                    b == 0xFFu8 << ((8 - remaining_bits) as u8),
            ;
            buf[full_bytes] = b;
        }
        if addr_len > full_bytes {
            if remaining_bits == 0 {
                buf[full_bytes] = 0;
            }
            let mut k: usize = full_bytes + 1;
            while k < addr_len
                invariant
                    full_bytes < addr_len <= buf@.len(),
                    buf@.len() == old_buf.len(),
                    full_bytes + 1 <= k <= addr_len,
                    forall|j: int| 0 <= j < full_bytes ==> buf@[j] == 0xff,
                    buf@[full_bytes as int] == top_bits(remaining_bits as nat),
                    forall|j: int| full_bytes < j < k ==> buf@[j] == 0,
                    forall|j: int| addr_len <= j < buf@.len() ==> buf@[j] == old_buf[j],
                decreases addr_len - k,
            {
                buf[k] = 0;
                k = k + 1;
            }
        }
        assert(buf@ =~= overwrite_prefix(old_buf, mask_bytes(self.ones as nat, len)));
    }
}

/// Bit `i` of `bytes`, counting from the most significant bit of the first
/// byte.
pub open spec fn bit_at(bytes: Seq<u8>, i: int) -> bool {
    (bytes[i / 8] >> ((7 - i % 8) as u8)) & 1u8 == 1u8
}

/// Bit `k` (from the most significant) of the byte with its top `r` bits set
/// is set exactly when `k < r`; every bit of 0xff is set and none of 0.
proof fn lemma_byte_bits(r: u8, k: u8)
    requires
        r < 8,
        k < 8,
    ensures
        ((top_bits(r as nat) >> ((7 - k) as u8)) & 1u8 == 1u8) <==> k < r,
        (0xffu8 >> ((7 - k) as u8)) & 1u8 == 1u8,
        (0u8 >> ((7 - k) as u8)) & 1u8 != 1u8,
{
    assert((0xffu8 >> ((7 - k) as u8)) & 1u8 == 1u8) by (bit_vector)
        requires
            k < 8,
    ;
    assert((0u8 >> ((7 - k) as u8)) & 1u8 != 1u8) by (bit_vector)
        requires
            k < 8,
    ;
    if r == 0 {
    } else if r == 1 {
        assert(((0x80u8 >> ((7 - k) as u8)) & 1u8 == 1u8) <==> k < 1) by (bit_vector)
            requires
                k < 8,
        ;
    } else if r == 2 {
        assert(((0xc0u8 >> ((7 - k) as u8)) & 1u8 == 1u8) <==> k < 2) by (bit_vector)
            requires
                k < 8,
        ;
    } else if r == 3 {
        assert(((0xe0u8 >> ((7 - k) as u8)) & 1u8 == 1u8) <==> k < 3) by (bit_vector)
            requires
                k < 8,
        ;
    } else if r == 4 {
        assert(((0xf0u8 >> ((7 - k) as u8)) & 1u8 == 1u8) <==> k < 4) by (bit_vector)
            requires
                k < 8,
        ;
    } else if r == 5 {
        assert(((0xf8u8 >> ((7 - k) as u8)) & 1u8 == 1u8) <==> k < 5) by (bit_vector)
            requires
                k < 8,
        ;
    } else if r == 6 {
        assert(((0xfcu8 >> ((7 - k) as u8)) & 1u8 == 1u8) <==> k < 6) by (bit_vector)
            requires
                k < 8,
        ;
    } else {
        assert(((0xfeu8 >> ((7 - k) as u8)) & 1u8 == 1u8) <==> k < 7) by (bit_vector)
            requires
                k < 8,
        ;
    }
}

/// The mask that `gen_netmask` writes for a prefix of `ones` bits over `len`
/// bytes has bit `i` set exactly when `i < ones`.
pub proof fn lemma_mask_bits(ones: nat, len: nat, i: int)
    requires
        0 <= i < 8 * len,
    ensures
        bit_at(mask_bytes(ones, len), i) <==> i < ones,
{
    let j = i / 8;
    let k = (i % 8) as u8;
    assert(0 <= j < len);
    assert(mask_bytes(ones, len)[j] == mask_byte(ones, j));
    lemma_byte_bits((ones % 8) as u8, k);
    assert((7 - i % 8) as u8 == (7 - k) as u8);
}

/// Service flags, as the kernel defines them.
#[derive(Copy, Clone, Debug, PartialEq, Eq)]
pub struct Flags(pub u32);

/// The scheduling algorithm of a service.
#[derive(Copy, Clone, Debug, PartialEq, Eq)]
pub enum Scheduler {
    RoundRobin,
    WeightedRoundRobin,
    LeastConnection,
    WeightedLeastConnection,
    LocalityBasedLeastConnection,
    LocalityBasedLeastConnectionWithReplication,
    DestinationHashing,
    SourceHashing,
    ShortestExpectedDelay,
    NeverQueue,
    WeightedFailover,
    WeightedOverflow,
    MaglevHashing,
}

/// The kernel's name for a scheduler.
pub open spec fn scheduler_name(s: Scheduler) -> Seq<char> {
    match s {
        Scheduler::RoundRobin => "rr"@,
        Scheduler::WeightedRoundRobin => "wrr"@,
        Scheduler::LeastConnection => "lc"@,
        Scheduler::WeightedLeastConnection => "wlc"@,
        Scheduler::LocalityBasedLeastConnection => "lblc"@,
        Scheduler::LocalityBasedLeastConnectionWithReplication => "lblcr"@,
        Scheduler::DestinationHashing => "dh"@,
        Scheduler::SourceHashing => "sh"@,
        Scheduler::ShortestExpectedDelay => "sed"@,
        Scheduler::NeverQueue => "nq"@,
        Scheduler::WeightedFailover => "fo"@,
        Scheduler::WeightedOverflow => "ovf"@,
        Scheduler::MaglevHashing => "mh"@,
    }
}

/// The scheduler called `name`; the weighted failover and overflow schedulers
/// are also known as "fail" and "flow".
pub open spec fn scheduler_from_name(name: Seq<char>) -> Option<Scheduler> {
    if name == "rr"@ {
        Some(Scheduler::RoundRobin)
    } else if name == "wrr"@ {
        Some(Scheduler::WeightedRoundRobin)
    } else if name == "lc"@ {
        Some(Scheduler::LeastConnection)
    } else if name == "wlc"@ {
        Some(Scheduler::WeightedLeastConnection)
    } else if name == "lblc"@ {
        Some(Scheduler::LocalityBasedLeastConnection)
    } else if name == "lblcr"@ {
        Some(Scheduler::LocalityBasedLeastConnectionWithReplication)
    } else if name == "dh"@ {
        Some(Scheduler::DestinationHashing)
    } else if name == "sh"@ {
        Some(Scheduler::SourceHashing)
    } else if name == "sed"@ {
        Some(Scheduler::ShortestExpectedDelay)
    } else if name == "nq"@ {
        Some(Scheduler::NeverQueue)
    } else if name == "fo"@ || name == "fail"@ {
        Some(Scheduler::WeightedFailover)
    } else if name == "ovf"@ || name == "flow"@ {
        Some(Scheduler::WeightedOverflow)
    } else if name == "mh"@ {
        Some(Scheduler::MaglevHashing)
    } else {
        None
    }
}

/// Whether `a` and `b` hold the same characters.
fn str_eq(a: &str, b: &str) -> (r: bool)
    ensures
        r == (a@ == b@),
{
    let x = a.as_bytes();
    let y = b.as_bytes();
    proof {
        vstd::utf8::encode_utf8_decode_utf8(a@);
        vstd::utf8::encode_utf8_decode_utf8(b@);
    }
    if x.len() != y.len() {
        return false;
    }
    let mut i: usize = 0;
    while i < x.len()
        invariant
            x@ == encode_utf8(a@),
            y@ == encode_utf8(b@),
            x@.len() == y@.len(),
            0 <= i <= x@.len(),
            x@.take(i as int) == y@.take(i as int),
        decreases x@.len() - i,
    {
        if x[i] != y[i] {
            assert(x@.take(i + 1)[i as int] != y@.take(i + 1)[i as int]);
            assert(x@ != y@) by {
                assert(x@[i as int] != y@[i as int]);
            }
            return false;
        }
        assert(x@.take(i + 1) =~= y@.take(i + 1));
        i = i + 1;
    }
    assert(x@ =~= y@) by {
        assert(x@.take(i as int) =~= x@);
        assert(y@.take(i as int) =~= y@);
    }
    true
}

/// A scheduler's name is between two and five ASCII characters, none of
/// them NUL, and its UTF-8 encoding is those characters as bytes.
pub proof fn lemma_scheduler_name(s: Scheduler)
    ensures
        2 <= scheduler_name(s).len() <= 5,
        vstd::utf8::is_ascii_chars(scheduler_name(s)),
        forall|i: int| 0 <= i < scheduler_name(s).len() ==> scheduler_name(s)[i] != '\0',
        encode_utf8(scheduler_name(s)).len() == scheduler_name(s).len(),
        forall|i: int|
            0 <= i < scheduler_name(s).len() ==> encode_utf8(scheduler_name(s))[i]
                == scheduler_name(s)[i] as u8,
{
    reveal_strlit("rr");
    reveal_strlit("wrr");
    reveal_strlit("lc");
    reveal_strlit("wlc");
    reveal_strlit("lblc");
    reveal_strlit("lblcr");
    reveal_strlit("dh");
    reveal_strlit("sh");
    reveal_strlit("sed");
    reveal_strlit("nq");
    reveal_strlit("fo");
    reveal_strlit("ovf");
    reveal_strlit("mh");
    vstd::utf8::is_ascii_chars_encode_utf8(scheduler_name(s));
}

impl Scheduler {
    /// The kernel's name for the scheduler.
    fn name(&self) -> (r: &'static str)
        ensures
            r@ == scheduler_name(*self),
    {
        match self {
            Scheduler::RoundRobin => "rr",
            Scheduler::WeightedRoundRobin => "wrr",
            Scheduler::LeastConnection => "lc",
            Scheduler::WeightedLeastConnection => "wlc",
            Scheduler::LocalityBasedLeastConnection => "lblc",
            Scheduler::LocalityBasedLeastConnectionWithReplication => "lblcr",
            Scheduler::DestinationHashing => "dh",
            Scheduler::SourceHashing => "sh",
            Scheduler::ShortestExpectedDelay => "sed",
            Scheduler::NeverQueue => "nq",
            Scheduler::WeightedFailover => "fo",
            Scheduler::WeightedOverflow => "ovf",
            Scheduler::MaglevHashing => "mh",
        }
    }

    /// The kernel's name for the scheduler.
    pub fn as_string(&self) -> (r: String)
        ensures
            r@ == scheduler_name(*self),
    {
        self.name().to_owned()
    }

    /// Whether the kernel knows a scheduler called `s`.
    pub fn is_name(s: &str) -> (r: bool)
        ensures
            r == scheduler_from_name(s@) is Some,
    {
        str_eq(s, "rr") || str_eq(s, "wrr") || str_eq(s, "lc") || str_eq(s, "wlc") || str_eq(
            s,
            "lblc",
        ) || str_eq(s, "lblcr") || str_eq(s, "dh") || str_eq(s, "sh") || str_eq(s, "sed")
            || str_eq(s, "nq") || str_eq(s, "fo") || str_eq(s, "fail") || str_eq(s, "ovf")
            || str_eq(s, "flow") || str_eq(s, "mh")
    }

    /// The scheduler called `s`; the name must be one the kernel knows.
    pub fn from(s: &str) -> (r: Scheduler)
        requires
            scheduler_from_name(s@) is Some,
        ensures
            scheduler_from_name(s@) == Some(r),
    {
        if str_eq(s, "rr") {
            Scheduler::RoundRobin
        } else if str_eq(s, "wrr") {
            Scheduler::WeightedRoundRobin
        } else if str_eq(s, "lc") {
            Scheduler::LeastConnection
        } else if str_eq(s, "wlc") {
            Scheduler::WeightedLeastConnection
        } else if str_eq(s, "lblc") {
            Scheduler::LocalityBasedLeastConnection
        } else if str_eq(s, "lblcr") {
            Scheduler::LocalityBasedLeastConnectionWithReplication
        } else if str_eq(s, "dh") {
            Scheduler::DestinationHashing
        } else if str_eq(s, "sh") {
            Scheduler::SourceHashing
        } else if str_eq(s, "sed") {
            Scheduler::ShortestExpectedDelay
        } else if str_eq(s, "nq") {
            Scheduler::NeverQueue
        } else if str_eq(s, "fo") || str_eq(s, "fail") {
            Scheduler::WeightedFailover
        } else if str_eq(s, "ovf") || str_eq(s, "flow") {
            Scheduler::WeightedOverflow
        } else {
            Scheduler::MaglevHashing
        }
    }
}

/// The transport protocol of a service.
#[derive(Copy, Clone, Debug, PartialEq, Eq)]
pub enum Protocol {
    TCP,
    UDP,
    SCTP,
}

/// The IP protocol number of a transport protocol.
pub open spec fn protocol_code(p: Protocol) -> u16 {
    match p {
        Protocol::TCP => 0x06,
        Protocol::UDP => 0x11,
        Protocol::SCTP => 0x84,
    }
}

/// The bytes of a netmask.
#[derive(Clone, Debug, PartialEq, Eq)]
pub struct MaskBytes(Vec<u8>);

/// `std::str::from_utf8` (std): the text whose UTF-8 encoding is `v`, when `v`
/// is valid UTF-8; the error it reports otherwise is dropped.
#[verifier::external_body]
fn utf8_text(v: &[u8]) -> (r: Option<&str>)
    ensures
        r is Some <==> valid_utf8(v@),
        r matches Some(s) ==> s@ == decode_utf8(v@),
{
    std::str::from_utf8(v).ok()
}

/// `c` without its trailing NUL characters.
pub open spec fn trim_nul(c: Seq<char>) -> Seq<char>
    decreases c.len(),
{
    if c.len() > 0 && c.last() == '\0' {
        trim_nul(c.drop_last())
    } else {
        c
    }
}

/// `s` without its trailing NUL characters.
fn trim_trailing_nul(s: &str) -> (r: &str)
    ensures
        r@ == trim_nul(s@),
{
    let mut e: usize = s.unicode_len();
    assert(s@.take(e as int) == s@);
    while e > 0 && s.get_char(e - 1) == '\0'
        invariant
            0 <= e <= s@.len(),
            trim_nul(s@) == trim_nul(s@.take(e as int)),
        decreases e,
    {
        assert(s@.take(e as int).drop_last() == s@.take(e - 1));
        e = e - 1;
    }
    assert(s@.subrange(0, e as int) == s@.take(e as int));
    s.substring_char(0, e)
}

/// The scheduler named by the scheduler attribute payload `p`.
pub open spec fn scheduler_in(p: Seq<u8>) -> Option<Scheduler> {
    scheduler_from_name(trim_nul(decode_utf8(p)))
}

/// The transport protocol whose IP protocol number is `code`.
pub open spec fn protocol_from_code(code: int) -> Protocol {
    if code == 0x06 {
        Protocol::TCP
    } else if code == 0x11 {
        Protocol::UDP
    } else {
        Protocol::SCTP
    }
}

/// A service attribute, with its address bytes as a sequence.
pub enum SvcAttr {
    AddressFamily(AddressFamily),
    Protocol(Protocol),
    AddrBytes(Seq<u8>),
    Port(u16),
    Flags(Flags),
    Fwmark(u32),
    Scheduler(Scheduler),
    Timeout(u32),
    Netmask(Netmask),
    Stats,
    Stats64(Stats64),
}

/// One attribute of a service.
#[derive(Clone, Debug, PartialEq, Eq)]
pub enum SvcCtrlAttrs {
    AddressFamily(AddressFamily),
    Protocol(Protocol),
    AddrBytes(AddrBytes),
    Port(u16),
    Flags(Flags),
    Fwmark(u32),
    Scheduler(Scheduler),
    Timeout(u32),
    Netmask(Netmask),
    Stats,
    Stats64(Stats64),
}

impl View for SvcCtrlAttrs {
    type V = SvcAttr;

    open spec fn view(&self) -> SvcAttr {
        match self {
            SvcCtrlAttrs::AddressFamily(f) => SvcAttr::AddressFamily(*f),
            SvcCtrlAttrs::Protocol(p) => SvcAttr::Protocol(*p),
            SvcCtrlAttrs::AddrBytes(b) => SvcAttr::AddrBytes(b@),
            SvcCtrlAttrs::Port(p) => SvcAttr::Port(*p),
            SvcCtrlAttrs::Flags(f) => SvcAttr::Flags(*f),
            SvcCtrlAttrs::Fwmark(m) => SvcAttr::Fwmark(*m),
            SvcCtrlAttrs::Scheduler(s) => SvcAttr::Scheduler(*s),
            SvcCtrlAttrs::Timeout(t) => SvcAttr::Timeout(*t),
            SvcCtrlAttrs::Netmask(n) => SvcAttr::Netmask(*n),
            SvcCtrlAttrs::Stats => SvcAttr::Stats,
            SvcCtrlAttrs::Stats64(s) => SvcAttr::Stats64(*s),
        }
    }
}

/// The netlink type of a service attribute.
pub open spec fn svc_kind(a: SvcAttr) -> u16 {
    match a {
        SvcAttr::AddressFamily(_) => IPVS_SVC_ATTR_AF,
        SvcAttr::Protocol(_) => IPVS_SVC_ATTR_PROTOCOL,
        SvcAttr::AddrBytes(_) => IPVS_SVC_ATTR_ADDR,
        SvcAttr::Port(_) => IPVS_SVC_ATTR_PORT,
        SvcAttr::Flags(_) => IPVS_SVC_ATTR_FLAGS,
        SvcAttr::Fwmark(_) => IPVS_SVC_ATTR_FWMARK,
        SvcAttr::Scheduler(_) => IPVS_SVC_ATTR_SCHED_NAME,
        SvcAttr::Timeout(_) => IPVS_SVC_ATTR_TIMEOUT,
        SvcAttr::Netmask(_) => IPVS_SVC_ATTR_NETMASK,
        SvcAttr::Stats64(_) => IPVS_SVC_ATTR_STATS64,
        SvcAttr::Stats => IPVS_SVC_ATTR_STATS,
    }
}

/// A service attribute has a wire form: statistics are only ever received,
/// and a netmask needs its address family.
pub open spec fn svc_sendable(a: SvcAttr) -> bool {
    match a {
        SvcAttr::Stats | SvcAttr::Stats64(_) => false,
        SvcAttr::Netmask(n) => n.family() is Some,
        _ => true,
    }
}

/// The length of a service attribute's value on the wire.
pub open spec fn svc_value_len(a: SvcAttr) -> nat {
    match a {
        SvcAttr::AddressFamily(_) => 2,
        SvcAttr::AddrBytes(b) => b.len(),
        SvcAttr::Protocol(_) => 2,
        SvcAttr::Port(_) => 2,
        SvcAttr::Flags(_) => 8,
        SvcAttr::Fwmark(_) => 4,
        SvcAttr::Scheduler(s) => encode_utf8(scheduler_name(s)).len() + 1,
        SvcAttr::Timeout(_) => 4,
        SvcAttr::Netmask(n) => address_len(n.family()->0),
        SvcAttr::Stats | SvcAttr::Stats64(_) => 0,
    }
}

/// Writing a service attribute's value into a buffer of `len` bytes does not
/// panic.
pub open spec fn svc_emit_ok(a: SvcAttr, len: nat) -> bool {
    &&& svc_sendable(a)
    &&& match a {
        SvcAttr::Scheduler(s) => len >= encode_utf8(scheduler_name(s)).len(),
        _ => len >= svc_value_len(a),
    }
}

/// The bytes that writing a service attribute's value into a buffer of `len`
/// bytes puts at its start.
pub open spec fn svc_value_bytes(a: SvcAttr, len: nat) -> Seq<u8> {
    match a {
        SvcAttr::AddressFamily(f) => u16_le_bytes(family_code(f)),
        SvcAttr::AddrBytes(b) => b,
        SvcAttr::Protocol(p) => u16_le_bytes(protocol_code(p)),
        SvcAttr::Port(p) => u16_be_bytes(p),
        SvcAttr::Flags(f) => u32_le_bytes(f.0) + seq![0xffu8, 0xffu8, 0xffu8, 0xffu8],
        SvcAttr::Fwmark(m) => u32_le_bytes(m),
        SvcAttr::Scheduler(s) => {
            let name = encode_utf8(scheduler_name(s));
            if name.len() < len {
                name.push(0u8)
            } else {
                name
            }
        },
        SvcAttr::Timeout(t) => u32_le_bytes(t),
        SvcAttr::Netmask(n) => mask_bytes(n.bits() as nat, address_len(n.family()->0)),
        SvcAttr::Stats | SvcAttr::Stats64(_) => Seq::empty(),
    }
}

/// The service attribute of type `kind` whose payload is `p`.
pub open spec fn svc_parse_value(kind: u16, p: Seq<u8>) -> Result<SvcAttr, IpvsError> {
    if kind == IPVS_SVC_ATTR_AF {
        if p.len() != 2 {
            Err(IpvsError::InvalidU16)
        } else {
            match family_from_code(native_u16(p) as u16) {
                Ok(f) => Ok(SvcAttr::AddressFamily(f)),
                Err(e) => Err(e),
            }
        }
    } else if kind == IPVS_SVC_ATTR_ADDR {
        Ok(SvcAttr::AddrBytes(p))
    } else if kind == IPVS_SVC_ATTR_PROTOCOL {
        if p.len() != 2 {
            Err(IpvsError::InvalidU16)
        } else {
            Ok(SvcAttr::Protocol(protocol_from_code(native_u16(p))))
        }
    } else if kind == IPVS_SVC_ATTR_PORT {
        Ok(
            SvcAttr::Port(
                match endianness() {
                    Endian::Little => be_u16_of_le(p),
                    Endian::Big => le_u16(p) as u16,
                },
            ),
        )
    } else if kind == IPVS_SVC_ATTR_FLAGS {
        Ok(SvcAttr::Flags(Flags(le_u32(p) as u32)))
    } else if kind == IPVS_SVC_ATTR_FWMARK {
        Ok(SvcAttr::Fwmark(be_u32(p) as u32))
    } else if kind == IPVS_SVC_ATTR_SCHED_NAME {
        if valid_utf8(p) {
            Ok(SvcAttr::Scheduler(scheduler_in(p)->0))
        } else {
            Err(IpvsError::InvalidSchedulerName)
        }
    } else if kind == IPVS_SVC_ATTR_TIMEOUT {
        Ok(SvcAttr::Timeout(be_u32(p) as u32))
    } else if kind == IPVS_SVC_ATTR_NETMASK {
        Ok(SvcAttr::Netmask(Netmask::of(popcount_sum(p) as u8, None)))
    } else if kind == IPVS_SVC_ATTR_STATS64 {
        match stats_from_payload(p) {
            Ok(s) => Ok(SvcAttr::Stats64(s)),
            Err(e) => Err(e),
        }
    } else {
        Ok(SvcAttr::Stats)
    }
}

/// Two bytes read least significant first, then with their bytes exchanged.
pub open spec fn be_u16_of_le(p: Seq<u8>) -> u16 {
    crate::wire::swap_u16(le_u16(p) as u16)
}

/// Decoding a service attribute of type `kind` with payload `p` does not
/// panic: the type is known, fixed-width values are long enough, a protocol
/// number is TCP, UDP or SCTP, a UTF-8 scheduler name is known, a netmask has
/// at most 128 bits set, and nested statistics decode without panicking.
pub open spec fn svc_value_ok(kind: u16, p: Seq<u8>) -> bool {
    &&& (1 <= kind <= 10 || kind == IPVS_SVC_ATTR_STATS64)
    &&& kind == IPVS_SVC_ATTR_PROTOCOL && p.len() == 2 ==> (native_u16(p) == 0x06 || native_u16(p)
        == 0x11 || native_u16(p) == 0x84)
    &&& kind == IPVS_SVC_ATTR_PORT ==> p.len() >= 2
    &&& kind == IPVS_SVC_ATTR_FLAGS || kind == IPVS_SVC_ATTR_FWMARK || kind
        == IPVS_SVC_ATTR_TIMEOUT ==> p.len() >= 4
    &&& kind == IPVS_SVC_ATTR_SCHED_NAME && valid_utf8(p) ==> scheduler_in(p) is Some
    &&& kind == IPVS_SVC_ATTR_NETMASK ==> popcount_sum(p) <= 128
    &&& kind == IPVS_SVC_ATTR_STATS64 ==> stats_payload_ok(p)
}

/// The service attribute at the start of `b`, an attribute with its header.
#[verifier::opaque]
pub open spec fn svc_attr_at(b: Seq<u8>) -> Result<SvcAttr, IpvsError> {
    svc_parse_value(frame_kind(b), frame_value(b))
}

/// Decoding the service attribute at the start of `b` does not panic.
#[verifier::opaque]
pub open spec fn svc_attr_at_ok(b: Seq<u8>) -> bool {
    svc_value_ok(frame_kind(b), frame_value(b))
}

impl Netmask {
    /// The netmask of prefix length `ones` and family `family`.
    pub closed spec fn of(ones: u8, family: Option<AddressFamily>) -> Netmask {
        Netmask { ones, address_family: family }
    }

    /// What `of` builds has the prefix length and family it was given.
    pub proof fn lemma_of(ones: u8, family: Option<AddressFamily>)
        ensures
            #[trigger] Netmask::of(ones, family).bits() == ones,
            Netmask::of(ones, family).family() == family,
    {
    }
}

impl SvcCtrlAttrs {
    /// The netlink type of the attribute.
    pub fn kind(&self) -> (r: u16)
        ensures
            r == svc_kind(self@),
    {
        match self {
            SvcCtrlAttrs::AddressFamily(_) => IPVS_SVC_ATTR_AF,
            SvcCtrlAttrs::Protocol(_) => IPVS_SVC_ATTR_PROTOCOL,
            SvcCtrlAttrs::AddrBytes(_) => IPVS_SVC_ATTR_ADDR,
            SvcCtrlAttrs::Port(_) => IPVS_SVC_ATTR_PORT,
            SvcCtrlAttrs::Flags(_) => IPVS_SVC_ATTR_FLAGS,
            SvcCtrlAttrs::Fwmark(_) => IPVS_SVC_ATTR_FWMARK,
            SvcCtrlAttrs::Scheduler(_) => IPVS_SVC_ATTR_SCHED_NAME,
            SvcCtrlAttrs::Timeout(_) => IPVS_SVC_ATTR_TIMEOUT,
            SvcCtrlAttrs::Netmask(_) => IPVS_SVC_ATTR_NETMASK,
            SvcCtrlAttrs::Stats64(_) => IPVS_SVC_ATTR_STATS64,
            SvcCtrlAttrs::Stats => IPVS_SVC_ATTR_STATS,
        }
    }

    /// The length of the attribute's value on the wire. Statistics are never
    /// sent, and a netmask needs its address family.
    pub fn value_len(&self) -> (r: usize)
        requires
            svc_sendable(self@),
        ensures
            r == svc_value_len(self@),
    {
        match self {
            SvcCtrlAttrs::AddressFamily(_) => 2,
            SvcCtrlAttrs::AddrBytes(AddrBytes(bytes)) => bytes.len(),
            SvcCtrlAttrs::Protocol(_) => 2,
            SvcCtrlAttrs::Port(_) => 2,
            SvcCtrlAttrs::Flags(_) => 4 + 4,
            SvcCtrlAttrs::Fwmark(_) => 4,
            SvcCtrlAttrs::Scheduler(scheduler) => {
                let name = scheduler.name();
                proof {
                    lemma_scheduler_name(*scheduler);
                }
                name.len() + 1
            },
            SvcCtrlAttrs::Timeout(_) => 4,
            SvcCtrlAttrs::Netmask(nm) => match nm.address_family {
                Some(AddressFamily::IPv4) => 4,
                _ => 16,
            },
            _ => 0,
        }
    }

    /// Writes the attribute's value at the start of `buffer`. Statistics are
    /// never sent, and a netmask needs its address family.
    pub fn emit_value(&self, buffer: &mut [u8])
        requires
            svc_emit_ok(self@, old(buffer)@.len()),
        ensures
            final(buffer)@ == overwrite_prefix(
                old(buffer)@,
                svc_value_bytes(self@, old(buffer)@.len()),
            ),
    {
        match self {
            SvcCtrlAttrs::AddressFamily(af) => {
                write_u16_le(buffer, af.code());
            },
            SvcCtrlAttrs::AddrBytes(AddrBytes(bytes)) => {
                copy_prefix(buffer, bytes.as_slice());
            },
            SvcCtrlAttrs::Protocol(protocol) => {
                let val: u16 = match protocol {
                    Protocol::TCP => 0x06,
                    Protocol::UDP => 0x11,
                    Protocol::SCTP => 0x84,
                };
                write_u16_le(buffer, val);
            },
            SvcCtrlAttrs::Port(port) => {
                write_u16_be(buffer, *port);
            },
            SvcCtrlAttrs::Flags(Flags(flags)) => {
                let ghost old_buf = buffer@;
                write_u32_le(buffer, *flags);
                buffer[4] = 0xff;
                buffer[5] = 0xff;
                buffer[6] = 0xff;
                buffer[7] = 0xff;
                assert(buffer@ =~= overwrite_prefix(
                    old_buf,
                    u32_le_bytes(*flags) + seq![0xffu8, 0xffu8, 0xffu8, 0xffu8],
                ));
            },
            SvcCtrlAttrs::Fwmark(fwmark) => {
                write_u32_le(buffer, *fwmark);
            },
            SvcCtrlAttrs::Scheduler(scheduler) => {
                let ghost old_buf = buffer@;
                let name = scheduler.name().as_bytes();
                copy_prefix(buffer, name);
                if name.len() < buffer.len() {
                    buffer[name.len()] = 0u8;
                    assert(buffer@ =~= overwrite_prefix(old_buf, name@.push(0u8)));
                }
            },
            SvcCtrlAttrs::Timeout(timeout) => {
                write_u32_le(buffer, *timeout);
            },
            SvcCtrlAttrs::Netmask(nm) => {
                nm.gen_netmask(buffer);
            },
            SvcCtrlAttrs::Stats | SvcCtrlAttrs::Stats64(_) => {},
        }
    }

    /// The service attribute of type `kind` whose payload is `payload`.
    pub fn parse_value(kind: u16, payload: &[u8]) -> (r: Result<SvcCtrlAttrs, IpvsError>)
        requires
            svc_value_ok(kind, payload@),
        ensures
            view_result(r) == svc_parse_value(kind, payload@),
    {
        if kind == IPVS_SVC_ATTR_AF {
            let val = match crate::netlink::parse_u16(payload) {
                Ok(v) => v,
                Err(_) => {
                    return Err(IpvsError::InvalidU16);
                },
            };
            let af = match val {
                2 => AddressFamily::IPv4,
                10 => AddressFamily::IPv6,
                other => {
                    return Err(IpvsError::UnknownAddressFamily(other));
                },
            };
            Ok(SvcCtrlAttrs::AddressFamily(af))
        } else if kind == IPVS_SVC_ATTR_ADDR {
            Ok(SvcCtrlAttrs::AddrBytes(AddrBytes(vstd::slice::slice_to_vec(payload))))
        } else if kind == IPVS_SVC_ATTR_PROTOCOL {
            let val = match crate::netlink::parse_u16(payload) {
                Ok(v) => v,
                Err(_) => {
                    return Err(IpvsError::InvalidU16);
                },
            };
            Ok(
                SvcCtrlAttrs::Protocol(
                    if val == 0x06 {
                        Protocol::TCP
                    } else if val == 0x11 {
                        Protocol::UDP
                    } else {
                        Protocol::SCTP
                    },
                ),
            )
        } else if kind == IPVS_SVC_ATTR_PORT {
            let val = read_u16_le(payload);
            Ok(SvcCtrlAttrs::Port(u16_from_be(val)))
        } else if kind == IPVS_SVC_ATTR_FLAGS {
            let val = read_u32_le(payload);
            Ok(SvcCtrlAttrs::Flags(Flags(val)))
        } else if kind == IPVS_SVC_ATTR_FWMARK {
            let val = read_u32_be(payload);
            Ok(SvcCtrlAttrs::Fwmark(val))
        } else if kind == IPVS_SVC_ATTR_SCHED_NAME {
            match utf8_text(payload) {
                None => Err(IpvsError::InvalidSchedulerName),
                Some(name) => {
                    let name = trim_trailing_nul(name);
                    Ok(SvcCtrlAttrs::Scheduler(Scheduler::from(name)))
                },
            }
        } else if kind == IPVS_SVC_ATTR_TIMEOUT {
            let val = read_u32_be(payload);
            Ok(SvcCtrlAttrs::Timeout(val))
        } else if kind == IPVS_SVC_ATTR_NETMASK {
            let mut ones: u32 = 0;
            let mut i: usize = 0;
            while i < payload.len()
                invariant
                    0 <= i <= payload@.len(),
                    ones == popcount_sum(payload@.take(i as int)),
                    popcount_sum(payload@) <= 128,
                decreases payload@.len() - i,
            {
                proof {
                    lemma_popcount_sum_prefix(payload@, i + 1);
                    assert(payload@.take(i + 1).drop_last() == payload@.take(i as int));
                }
                ones = ones + count_ones_u8(payload[i]);
                i = i + 1;
            }
            assert(payload@.take(i as int) == payload@);
            Ok(SvcCtrlAttrs::Netmask(Netmask { ones: ones as u8, address_family: None }))
        } else if kind == IPVS_SVC_ATTR_STATS64 {
            match Stats64::parse_payload(payload) {
                Ok(s) => Ok(SvcCtrlAttrs::Stats64(s)),
                Err(e) => Err(e),
            }
        } else {
            Ok(SvcCtrlAttrs::Stats)
        }
    }
}

impl SvcCtrlAttrs {
    /// The service attribute at the start of `buf`, an attribute with its
    /// header.
    pub fn parse(buf: &[u8]) -> (r: Result<SvcCtrlAttrs, IpvsError>)
        requires
            frame_checked(buf@),
            svc_attr_at_ok(buf@),
        ensures
            view_result(r) == svc_attr_at(buf@),
    {
        proof {
            reveal(svc_attr_at);
            reveal(svc_attr_at_ok);
        }
        let payload = nla_value(buf);
        let kind = nla_kind(buf);
        SvcCtrlAttrs::parse_value(kind, payload.as_slice())
    }

    /// The length of the attribute on the wire: header, value and padding.
    pub fn buffer_len(&self) -> (r: usize)
        requires
            svc_sendable(self@),
            nla_align(svc_value_len(self@) as int) + 4 <= usize::MAX,
        ensures
            r == nla_align(svc_value_len(self@) as int) + 4,
    {
        let vl = self.value_len();
        (vl + 3) / 4 * 4 + 4
    }

    /// Writes the attribute, header and padding included, at the start of
    /// `buffer`.
    pub fn emit(&self, buffer: &mut [u8])
        requires
            svc_sendable(self@),
            svc_value_len(self@) + 4 <= u16::MAX,
            old(buffer)@.len() >= 4 + nla_align(svc_value_len(self@) as int),
        ensures
            final(buffer)@ == nla_frame(
                svc_kind(self@),
                svc_value_bytes(self@, svc_value_len(self@)),
            ) + old(buffer)@.skip(4 + nla_align(svc_value_len(self@) as int)),
    {
        let vl = self.value_len();
        let mut value: Vec<u8> = vec![0u8; vl];
        proof {
            lemma_svc_value_bytes_len(self@);
        }
        self.emit_value(value.as_mut_slice());
        assert(value@ =~= svc_value_bytes(self@, svc_value_len(self@)));
        emit_nla(self.kind(), value.as_slice(), buffer);
    }
}

/// Writing a sendable service attribute's value into a buffer of exactly its
/// length fills the buffer.
pub proof fn lemma_svc_value_bytes_len(a: SvcAttr)
    requires
        svc_sendable(a),
    ensures
        svc_value_bytes(a, svc_value_len(a)).len() == svc_value_len(a),
        svc_emit_ok(a, svc_value_len(a)),
{
    match a {
        SvcAttr::Scheduler(s) => {
            lemma_scheduler_name(s);
        },
        _ => {},
    }
}

/// An IPVS virtual service.
#[derive(Clone, Debug, PartialEq, Eq)]
pub struct Service {
    pub address: IpAddr,
    pub netmask: Netmask,
    pub scheduler: Scheduler,
    pub flags: Flags,
    pub port: Option<u16>,
    pub fw_mark: Option<u32>,
    /// The persistence timeout; a zero timeout is held as `None`.
    pub persistence_timeout: Option<u32>,
    pub family: AddressFamily,
    pub protocol: Protocol,
}

/// A service with the statistics the kernel reports for it.
#[derive(Clone, Debug, PartialEq, Eq)]
pub struct ServiceExtended {
    pub service: Service,
    pub stats64: Stats64,
}

impl core::ops::Deref for ServiceExtended {
    type Target = Service;

    fn deref(&self) -> (r: &Service)
        ensures
            *r == self.service,
    {
        &self.service
    }
}

/// What a list of service attributes says, field by field: for each field the
/// value of the last attribute that sets it, if any.
pub struct SvcFields {
    pub family: Option<AddressFamily>,
    pub protocol: Option<Protocol>,
    pub address: Option<Seq<u8>>,
    pub port: Option<u16>,
    pub fw_mark: Option<u32>,
    pub scheduler: Option<Scheduler>,
    pub flags: Option<Flags>,
    pub timeout: Option<u32>,
    pub netmask: Option<Netmask>,
    pub stats64: Option<Stats64>,
}

/// No field set.
pub open spec fn svc_fields_empty() -> SvcFields {
    SvcFields {
        family: None,
        protocol: None,
        address: None,
        port: None,
        fw_mark: None,
        scheduler: None,
        flags: None,
        timeout: None,
        netmask: None,
        stats64: None,
    }
}

/// `f` after the attribute `a`; a zero timeout clears the timeout.
pub open spec fn svc_fields_with(f: SvcFields, a: SvcAttr) -> SvcFields {
    match a {
        SvcAttr::AddressFamily(x) => SvcFields { family: Some(x), ..f },
        SvcAttr::Protocol(x) => SvcFields { protocol: Some(x), ..f },
        SvcAttr::AddrBytes(x) => SvcFields { address: Some(x), ..f },
        SvcAttr::Port(x) => SvcFields { port: Some(x), ..f },
        SvcAttr::Fwmark(x) => SvcFields { fw_mark: Some(x), ..f },
        SvcAttr::Scheduler(x) => SvcFields { scheduler: Some(x), ..f },
        SvcAttr::Flags(x) => SvcFields { flags: Some(x), ..f },
        SvcAttr::Timeout(x) => SvcFields {
            timeout: if x == 0 {
                None
            } else {
                Some(x)
            },
            ..f
        },
        SvcAttr::Netmask(x) => SvcFields { netmask: Some(x), ..f },
        SvcAttr::Stats64(x) => SvcFields { stats64: Some(x), ..f },
        SvcAttr::Stats => f,
    }
}

/// What `attrs` say, field by field.
pub open spec fn svc_fields(attrs: Seq<SvcAttr>) -> SvcFields
    decreases attrs.len(),
{
    if attrs.len() == 0 {
        svc_fields_empty()
    } else {
        svc_fields_with(svc_fields(attrs.drop_last()), attrs.last())
    }
}

/// Building a service from `f` does not panic: once the family and the
/// address are known, the address bytes hold an address of the family, and
/// the netmask, when known, fits the family.
pub open spec fn service_fields_ok(f: SvcFields) -> bool {
    (f.family is Some && f.address is Some) ==> {
        &&& holds_address(f.address->0, f.family->0)
        &&& f.netmask matches Some(nm) ==> nm.bits() <= max_prefix(f.family->0)
    }
}

/// The service that `f` describes; the first required field that is missing,
/// in the order family, address, netmask, scheduler, flags, protocol,
/// statistics, is an error. The netmask takes the service's family.
pub open spec fn service_from_fields(f: SvcFields) -> Result<ServiceExtended, IpvsError> {
    if f.family is None {
        Err(IpvsError::Missing(RequiredAttr::AddressFamily))
    } else if f.address is None {
        Err(IpvsError::Missing(RequiredAttr::Address))
    } else if f.netmask is None {
        Err(IpvsError::Missing(RequiredAttr::Netmask))
    } else if f.scheduler is None {
        Err(IpvsError::Missing(RequiredAttr::Scheduler))
    } else if f.flags is None {
        Err(IpvsError::Missing(RequiredAttr::Flags))
    } else if f.protocol is None {
        Err(IpvsError::Missing(RequiredAttr::Protocol))
    } else if f.stats64 is None {
        Err(IpvsError::Missing(RequiredAttr::Stats64))
    } else {
        let family = f.family->0;
        Ok(
            ServiceExtended {
                service: Service {
                    address: address_of(f.address->0, family),
                    netmask: Netmask::of(f.netmask->0.bits(), Some(family)),
                    scheduler: f.scheduler->0,
                    flags: f.flags->0,
                    port: f.port,
                    fw_mark: f.fw_mark,
                    persistence_timeout: f.timeout,
                    family,
                    protocol: f.protocol->0,
                },
                stats64: f.stats64->0,
            },
        )
    }
}

/// The attributes of `v`, each by its view.
pub open spec fn svc_views(v: Seq<SvcCtrlAttrs>) -> Seq<SvcAttr> {
    v.map_values(|a: SvcCtrlAttrs| a@)
}

/// The attributes that describe `s`: family, protocol, the 16 address bytes,
/// the port and the firewall mark when set, scheduler, flags, the timeout (0
/// when unset) and the netmask.
pub open spec fn service_nlas(s: Service) -> Seq<SvcAttr> {
    seq![
        SvcAttr::AddressFamily(s.family),
        SvcAttr::Protocol(s.protocol),
        SvcAttr::AddrBytes(address_bytes(s.address)),
    ] + match s.port {
        Some(p) => seq![SvcAttr::Port(p)],
        None => Seq::empty(),
    } + match s.fw_mark {
        Some(m) => seq![SvcAttr::Fwmark(m)],
        None => Seq::empty(),
    } + seq![
        SvcAttr::Scheduler(s.scheduler),
        SvcAttr::Flags(s.flags),
        SvcAttr::Timeout(
            match s.persistence_timeout {
                Some(t) => t,
                None => 0,
            },
        ),
        SvcAttr::Netmask(s.netmask),
    ]
}

/// A service holds no zero persistence timeout: a timeout of zero is held as
/// `None`, as the kernel reads it.
pub open spec fn service_valid(s: Service) -> bool {
    s.persistence_timeout != Some(0u32)
}

/// The `address` field of `f` is the address held by `a`.
pub open spec fn same_address(a: Option<AddrBytes>, f: Option<Seq<u8>>) -> bool {
    match a {
        Some(b) => f == Some(b@),
        None => f is None,
    }
}

impl Service {
    /// The service that the attributes `nlas` describe, with its statistics:
    /// for each field the last attribute that sets it counts, a zero timeout
    /// means none, and the netmask takes the service's family. A missing
    /// required attribute is an error.
    pub fn from_nlas(nlas: &[SvcCtrlAttrs]) -> (r: Result<ServiceExtended, IpvsError>)
        requires
            service_fields_ok(svc_fields(svc_views(nlas@))),
        ensures
            r == service_from_fields(svc_fields(svc_views(nlas@))),
    {
        let mut address: Option<AddrBytes> = None;
        let mut netmask: Option<Netmask> = None;
        let mut scheduler: Option<Scheduler> = None;
        let mut flags: Option<Flags> = None;
        let mut port: Option<u16> = None;
        let mut fw_mark: Option<u32> = None;
        let mut persistence_timeout: Option<u32> = None;
        let mut family: Option<AddressFamily> = None;
        let mut protocol: Option<Protocol> = None;
        let mut stats64: Option<Stats64> = None;
        let ghost views = svc_views(nlas@);
        let mut i: usize = 0;
        while i < nlas.len()
            invariant
                0 <= i <= nlas@.len(),
                views == svc_views(nlas@),
                ({
                    let f = svc_fields(views.take(i as int));
                    &&& family == f.family
                    &&& protocol == f.protocol
                    &&& same_address(address, f.address)
                    &&& port == f.port
                    &&& fw_mark == f.fw_mark
                    &&& scheduler == f.scheduler
                    &&& flags == f.flags
                    &&& persistence_timeout == f.timeout
                    &&& netmask == f.netmask
                    &&& stats64 == f.stats64
                }),
            decreases nlas@.len() - i,
        {
            assert(views.take(i + 1).drop_last() == views.take(i as int));
            assert(views.take(i + 1).last() == nlas@[i as int]@);
            match &nlas[i] {
                SvcCtrlAttrs::AddressFamily(f) => family = Some(*f),
                SvcCtrlAttrs::Protocol(p) => protocol = Some(*p),
                SvcCtrlAttrs::AddrBytes(bytes) => {
                    address = Some(AddrBytes(vstd::slice::slice_to_vec(bytes.0.as_slice())))
                },
                SvcCtrlAttrs::Port(p) => port = Some(*p),
                SvcCtrlAttrs::Fwmark(f) => fw_mark = Some(*f),
                SvcCtrlAttrs::Scheduler(s) => scheduler = Some(*s),
                SvcCtrlAttrs::Flags(f) => flags = Some(*f),
                SvcCtrlAttrs::Timeout(t) => {
                    persistence_timeout = if *t == 0 {
                        None
                    } else {
                        Some(*t)
                    }
                },
                SvcCtrlAttrs::Netmask(n) => netmask = Some(*n),
                SvcCtrlAttrs::Stats64(n) => stats64 = Some(*n),
                SvcCtrlAttrs::Stats => (),
            }
            i = i + 1;
        }
        assert(views.take(i as int) == views);
        let family = match family {
            Some(f) => f,
            None => {
                return Err(IpvsError::Missing(RequiredAttr::AddressFamily));
            },
        };
        let address = match address {
            Some(a) => a.as_ipaddr(family),
            None => {
                return Err(IpvsError::Missing(RequiredAttr::Address));
            },
        };
        let netmask = match netmask {
            Some(n) => Netmask::new(n.ones, family),
            None => {
                return Err(IpvsError::Missing(RequiredAttr::Netmask));
            },
        };
        let scheduler = match scheduler {
            Some(s) => s,
            None => {
                return Err(IpvsError::Missing(RequiredAttr::Scheduler));
            },
        };
        let flags = match flags {
            Some(f) => f,
            None => {
                return Err(IpvsError::Missing(RequiredAttr::Flags));
            },
        };
        let protocol = match protocol {
            Some(p) => p,
            None => {
                return Err(IpvsError::Missing(RequiredAttr::Protocol));
            },
        };
        let s = Service {
            address,
            netmask,
            scheduler,
            flags,
            port,
            fw_mark,
            persistence_timeout,
            family,
            protocol,
        };
        let stats64 = match stats64 {
            Some(st) => st,
            None => {
                return Err(IpvsError::Missing(RequiredAttr::Stats64));
            },
        };
        proof {
            Netmask::lemma_eq(netmask, Netmask::of(netmask.bits(), Some(family)));
        }
        Ok(ServiceExtended { service: s, stats64 })
    }

    /// The attributes that describe the service, in the order the kernel
    /// takes them. A zero timeout is held as `None`.
    pub fn create_nlas(&self) -> (r: Vec<SvcCtrlAttrs>)
        requires
            service_valid(*self),
        ensures
            svc_views(r@) == service_nlas(*self),
    {
        let mut ret: Vec<SvcCtrlAttrs> = Vec::new();
        ret.push(SvcCtrlAttrs::AddressFamily(self.family));
        ret.push(SvcCtrlAttrs::Protocol(self.protocol));
        ret.push(SvcCtrlAttrs::AddrBytes(AddrBytes::from_ipaddr(&self.address)));
        let ghost head = svc_views(ret@);
        assert(head =~= seq![
            SvcAttr::AddressFamily(self.family),
            SvcAttr::Protocol(self.protocol),
            SvcAttr::AddrBytes(address_bytes(self.address)),
        ]);
        if let Some(port) = self.port {
            ret.push(SvcCtrlAttrs::Port(port));
        }
        let ghost with_port = svc_views(ret@);
        assert(with_port =~= head + match self.port {
            Some(p) => seq![SvcAttr::Port(p)],
            None => Seq::empty(),
        });
        if let Some(fw_mark) = self.fw_mark {
            ret.push(SvcCtrlAttrs::Fwmark(fw_mark));
        }
        let ghost with_mark = svc_views(ret@);
        assert(with_mark =~= with_port + match self.fw_mark {
            Some(m) => seq![SvcAttr::Fwmark(m)],
            None => Seq::empty(),
        });
        ret.push(SvcCtrlAttrs::Scheduler(self.scheduler));
        ret.push(SvcCtrlAttrs::Flags(self.flags));
        if let Some(timeout) = self.persistence_timeout {
            ret.push(SvcCtrlAttrs::Timeout(timeout));
        } else {
            ret.push(SvcCtrlAttrs::Timeout(0));
        }
        ret.push(SvcCtrlAttrs::Netmask(self.netmask));
        assert(svc_views(ret@) =~= service_nlas(*self));
        ret
    }
}

/// Every scheduler is known by its own name: reading a scheduler's name gives
/// the scheduler back.
pub proof fn lemma_scheduler_name_roundtrip(s: Scheduler)
    ensures
        scheduler_from_name(scheduler_name(s)) == Some(s),
{
    reveal_strlit("rr");
    reveal_strlit("wrr");
    reveal_strlit("lc");
    reveal_strlit("wlc");
    reveal_strlit("lblc");
    reveal_strlit("lblcr");
    reveal_strlit("dh");
    reveal_strlit("sh");
    reveal_strlit("sed");
    reveal_strlit("nq");
    reveal_strlit("fo");
    reveal_strlit("fail");
    reveal_strlit("ovf");
    reveal_strlit("flow");
    reveal_strlit("mh");
    // Names of the same length differ in their first or second character.
    let n = scheduler_name(s);
    assert(n != "rr"@ ==> n[0] != 'r' || n.len() != 2);
    assert(n != "wrr"@ ==> n[0] != 'w' || n[1] != 'r' || n.len() != 3);
    assert(n != "lc"@ ==> n[0] != 'l' || n.len() != 2);
    assert(n != "wlc"@ ==> n[0] != 'w' || n[1] != 'l' || n.len() != 3);
    assert(n != "lblc"@ ==> n.len() != 4);
    assert(n != "lblcr"@ ==> n.len() != 5);
    assert(n != "dh"@ ==> n[0] != 'd' || n.len() != 2);
    assert(n != "sh"@ ==> n[0] != 's' || n.len() != 2);
    assert(n != "sed"@ ==> n[0] != 's' || n.len() != 3);
    assert(n != "nq"@ ==> n[0] != 'n' || n.len() != 2);
    assert(n != "fo"@ ==> n[0] != 'f' || n.len() != 2);
    assert(n != "fail"@ ==> n[0] != 'f' || n.len() != 4);
    assert(n != "ovf"@ ==> n[0] != 'o' || n.len() != 3);
    assert(n != "flow"@ ==> n[0] != 'f' || n.len() != 4 || n[1] != 'l');
}

/// The bits set in the byte with its top `r` bits set.
proof fn lemma_popcount_top_bits(r: nat)
    requires
        r < 8,
    ensures
        popcount(top_bits(r)) == r,
        popcount(0xff) == 8,
        popcount(0) == 0,
{
    reveal_with_fuel(popcount, 9);
}

/// The mask of the first `ones` bits over `n` bytes has `ones` bits set, or all
/// of them when `ones` is larger.
pub proof fn lemma_popcount_mask(ones: nat, n: nat)
    ensures
        popcount_sum(mask_bytes(ones, n)) == if ones <= 8 * n {
            ones
        } else {
            8 * n
        },
    decreases n,
{
    if n > 0 {
        lemma_popcount_mask(ones, (n - 1) as nat);
        assert(mask_bytes(ones, n).drop_last() =~= mask_bytes(ones, (n - 1) as nat));
        lemma_popcount_top_bits(ones % 8);
    }
}

/// A service attribute that reads back as what it was written from: one that
/// is sent; a firewall mark or a timeout whose bytes read the same both ways
/// (written least significant byte first, read most significant byte first);
/// an address family or protocol only on a little-endian machine (written
/// least significant byte first, read in the machine's order); a port on a
/// little-endian machine or with its two bytes equal (written most
/// significant byte first, read least significant byte first, then converted
/// from big-endian); and a netmask no longer than its family's addresses.
pub open spec fn svc_roundtrips(a: SvcAttr) -> bool {
    &&& svc_sendable(a)
    &&& a matches SvcAttr::Fwmark(m) ==> u32_symmetric(m)
    &&& a matches SvcAttr::Timeout(t) ==> u32_symmetric(t)
    &&& (a is AddressFamily || a is Protocol) ==> endianness() == Endian::Little
    &&& a matches SvcAttr::Port(p) ==> (endianness() == Endian::Little || u16_symmetric(p))
    &&& a matches SvcAttr::Netmask(n) ==> n.bits() <= max_prefix(n.family()->0)
}

/// What reading back a written service attribute gives: the attribute,
/// except that a netmask loses its address family.
pub open spec fn svc_received(a: SvcAttr) -> SvcAttr {
    match a {
        SvcAttr::Netmask(n) => SvcAttr::Netmask(Netmask::of(n.bits(), None)),
        _ => a,
    }
}

/// The payload of a scheduler attribute, the name and a NUL, reads back as
/// the scheduler.
proof fn lemma_scheduler_value_roundtrip(s: Scheduler)
    ensures
        valid_utf8(encode_utf8(scheduler_name(s)).push(0u8)),
        scheduler_in(encode_utf8(scheduler_name(s)).push(0u8)) == Some(s),
{
    let name = scheduler_name(s);
    let c = name.push('\0');
    lemma_scheduler_name(s);
    lemma_scheduler_name_roundtrip(s);
    assert(vstd::utf8::is_ascii_chars(c));
    vstd::utf8::is_ascii_chars_encode_utf8(c);
    assert(encode_utf8(c) =~= encode_utf8(name).push(0u8));
    vstd::utf8::encode_utf8_valid_utf8(c);
    vstd::utf8::encode_utf8_decode_utf8(c);
    assert(c.drop_last() =~= name);
    assert(trim_nul(c) == trim_nul(name));
}

/// A service attribute that round-trips, written into a buffer of its value
/// length, reads back as what `svc_received` says, and reading it does not
/// panic.
pub proof fn lemma_svc_value_roundtrip(a: SvcAttr)
    requires
        svc_roundtrips(a),
    ensures
        svc_value_ok(svc_kind(a), svc_value_bytes(a, svc_value_len(a))),
        svc_parse_value(svc_kind(a), svc_value_bytes(a, svc_value_len(a))) == Ok::<
            SvcAttr,
            IpvsError,
        >(svc_received(a)),
{
    let p = svc_value_bytes(a, svc_value_len(a));
    match a {
        SvcAttr::AddressFamily(f) => {
            crate::wire::lemma_u16_le(family_code(f));
        },
        SvcAttr::Protocol(pr) => {
            crate::wire::lemma_u16_le(protocol_code(pr));
        },
        SvcAttr::Port(port) => {
            crate::wire::lemma_u16_be(port);
            if endianness() == Endian::Little {
                assert(be_u16_of_le(p) == port);
            } else {
                crate::wire::lemma_u16_be_read_le(port);
            }
        },
        SvcAttr::Fwmark(m) => {
            crate::wire::lemma_u32_le_read_be(m);
        },
        SvcAttr::Timeout(t) => {
            crate::wire::lemma_u32_le_read_be(t);
        },
        SvcAttr::Flags(f) => {
            crate::wire::lemma_u32_le(f.0);
            assert(le_u32(p) == le_u32(u32_le_bytes(f.0)));
        },
        SvcAttr::Scheduler(sc) => {
            lemma_scheduler_name(sc);
            lemma_scheduler_value_roundtrip(sc);
        },
        SvcAttr::Netmask(n) => {
            lemma_popcount_mask(n.bits() as nat, address_len(n.family()->0));
        },
        _ => {},
    }
}

/// A service attribute that round-trips, emitted with its header and followed
/// by any bytes, parses back as what `svc_received` says, and parsing it does
/// not panic.
pub proof fn lemma_svc_attr_roundtrip(a: SvcAttr, rest: Seq<u8>)
    requires
        svc_roundtrips(a),
        svc_value_len(a) + 4 <= u16::MAX,
    ensures
        frame_checked(nla_frame(svc_kind(a), svc_value_bytes(a, svc_value_len(a))) + rest),
        svc_attr_at_ok(nla_frame(svc_kind(a), svc_value_bytes(a, svc_value_len(a))) + rest),
        svc_attr_at(nla_frame(svc_kind(a), svc_value_bytes(a, svc_value_len(a))) + rest)
            == Ok::<SvcAttr, IpvsError>(svc_received(a)),
        after_frame(nla_frame(svc_kind(a), svc_value_bytes(a, svc_value_len(a))) + rest) == rest,
{
    reveal(svc_attr_at);
    reveal(svc_attr_at_ok);
    let k = svc_kind(a);
    let v = svc_value_bytes(a, svc_value_len(a));
    lemma_svc_value_bytes_len(a);
    assert(k < 0x4000 && type_field(k) % 0x4000 == k);
    crate::netlink::lemma_frame_roundtrip(k, v, rest);
    lemma_svc_value_roundtrip(a);
}

/// Appending an attribute changes only the field it sets: the last attribute
/// of a kind wins.
pub proof fn lemma_svc_fields_push(xs: Seq<SvcAttr>, a: SvcAttr)
    ensures
        svc_fields(xs.push(a)) == svc_fields_with(svc_fields(xs), a),
{
    assert(xs.push(a).drop_last() =~= xs);
}

/// A service is what its attributes, followed by its statistics, describe:
/// building it back gives the same service, its netmask now carrying the
/// service's family, so exactly the same service when its netmask already
/// did. This holds when the address is of the service's family and the
/// netmask fits that family.
pub proof fn lemma_service_nlas_roundtrip(s: Service, stats: Stats64)
    requires
        service_valid(s),
        family_of(s.address) == s.family,
        s.netmask.bits() <= max_prefix(s.family),
    ensures
        s.netmask.family() == Some(s.family) ==> service_from_fields(
            svc_fields(service_nlas(s).push(SvcAttr::Stats64(stats))),
        ) == Ok::<ServiceExtended, IpvsError>(ServiceExtended { service: s, stats64: stats }),
        service_fields_ok(svc_fields(service_nlas(s).push(SvcAttr::Stats64(stats)))),
        service_from_fields(svc_fields(service_nlas(s).push(SvcAttr::Stats64(stats)))) == Ok::<
            ServiceExtended,
            IpvsError,
        >(
            ServiceExtended {
                service: Service { netmask: Netmask::of(s.netmask.bits(), Some(s.family)), ..s },
                stats64: stats,
            },
        ),
{
    let timeout = match s.persistence_timeout {
        Some(t) => t,
        None => 0,
    };
    let p0 = Seq::<SvcAttr>::empty().push(SvcAttr::AddressFamily(s.family)).push(
        SvcAttr::Protocol(s.protocol),
    ).push(SvcAttr::AddrBytes(address_bytes(s.address)));
    let p1 = match s.port {
        Some(p) => p0.push(SvcAttr::Port(p)),
        None => p0,
    };
    let p2 = match s.fw_mark {
        Some(m) => p1.push(SvcAttr::Fwmark(m)),
        None => p1,
    };
    let p3 = p2.push(SvcAttr::Scheduler(s.scheduler)).push(SvcAttr::Flags(s.flags)).push(
        SvcAttr::Timeout(timeout),
    ).push(SvcAttr::Netmask(s.netmask)).push(SvcAttr::Stats64(stats));
    assert(p3 =~= service_nlas(s).push(SvcAttr::Stats64(stats)));
    let e = Seq::<SvcAttr>::empty();
    assert(svc_fields(e) == svc_fields_empty());
    lemma_svc_fields_push(e, SvcAttr::AddressFamily(s.family));
    lemma_svc_fields_push(e.push(SvcAttr::AddressFamily(s.family)), SvcAttr::Protocol(s.protocol));
    lemma_svc_fields_push(
        e.push(SvcAttr::AddressFamily(s.family)).push(SvcAttr::Protocol(s.protocol)),
        SvcAttr::AddrBytes(address_bytes(s.address)),
    );
    match s.port {
        Some(p) => lemma_svc_fields_push(p0, SvcAttr::Port(p)),
        None => {},
    }
    match s.fw_mark {
        Some(m) => lemma_svc_fields_push(p1, SvcAttr::Fwmark(m)),
        None => {},
    }
    let q0 = p2.push(SvcAttr::Scheduler(s.scheduler));
    let q1 = q0.push(SvcAttr::Flags(s.flags));
    let q2 = q1.push(SvcAttr::Timeout(timeout));
    let q3 = q2.push(SvcAttr::Netmask(s.netmask));
    lemma_svc_fields_push(p2, SvcAttr::Scheduler(s.scheduler));
    lemma_svc_fields_push(q0, SvcAttr::Flags(s.flags));
    lemma_svc_fields_push(q1, SvcAttr::Timeout(timeout));
    lemma_svc_fields_push(q2, SvcAttr::Netmask(s.netmask));
    lemma_svc_fields_push(q3, SvcAttr::Stats64(stats));
    crate::ctrl::nlas::lemma_address_roundtrip(s.address);
    Netmask::lemma_of(s.netmask.bits(), Some(s.family));
    if s.netmask.family() == Some(s.family) {
        Netmask::lemma_eq(s.netmask, Netmask::of(s.netmask.bits(), Some(s.family)));
        assert(Service { netmask: Netmask::of(s.netmask.bits(), Some(s.family)), ..s } == s);
    }
}

/// The decoder of one service attribute, as a value.
pub open spec fn svc_attr_parser() -> spec_fn(Seq<u8>) -> Result<SvcAttr, IpvsError> {
    |b: Seq<u8>| svc_attr_at(b)
}

/// The no-panic condition of one service attribute, as a value.
pub open spec fn svc_attr_checker() -> spec_fn(Seq<u8>) -> bool {
    |b: Seq<u8>| svc_attr_at_ok(b)
}

/// Every attribute of `xs` can be emitted.
pub open spec fn svc_list_sendable(xs: Seq<SvcAttr>) -> bool {
    forall|i: int|
        0 <= i < xs.len() ==> svc_sendable(#[trigger] xs[i]) && svc_value_len(xs[i]) + 4
            <= u16::MAX
}

/// The length on the wire of the attributes `xs`, one after another.
pub open spec fn svc_list_len(xs: Seq<SvcAttr>) -> nat
    decreases xs.len(),
{
    if xs.len() == 0 {
        0
    } else {
        svc_list_len(xs.drop_last()) + (nla_align(svc_value_len(xs.last()) as int) + 4) as nat
    }
}

/// The bytes of the attribute `a`: header, value and padding.
pub open spec fn svc_frame_of(a: SvcAttr) -> Seq<u8> {
    nla_frame(svc_kind(a), svc_value_bytes(a, svc_value_len(a)))
}

/// The bytes of the attributes `xs`, one after another, each with its header
/// and padding.
pub open spec fn svc_list_bytes(xs: Seq<SvcAttr>) -> Seq<u8>
    decreases xs.len(),
{
    if xs.len() == 0 {
        Seq::empty()
    } else {
        svc_list_bytes(xs.drop_last()) + svc_frame_of(xs.last())
    }
}

/// The length of a list prefix is at most that of the list.
pub proof fn lemma_svc_list_len_prefix(xs: Seq<SvcAttr>, i: int)
    requires
        0 <= i <= xs.len(),
    ensures
        svc_list_len(xs.take(i)) <= svc_list_len(xs),
    decreases xs.len() - i,
{
    if i < xs.len() {
        lemma_svc_list_len_prefix(xs, i + 1);
        assert(xs.take(i + 1).drop_last() == xs.take(i));
    } else {
        assert(xs.take(i) == xs);
    }
}

/// The length of the attributes' bytes is the attributes' length on the wire.
pub proof fn lemma_svc_list_bytes_len(xs: Seq<SvcAttr>)
    requires
        svc_list_sendable(xs),
    ensures
        svc_list_bytes(xs).len() == svc_list_len(xs),
    decreases xs.len(),
{
    if xs.len() > 0 {
        let a = xs.last();
        assert(svc_list_sendable(xs.drop_last())) by {
            assert forall|i: int| 0 <= i < xs.drop_last().len() implies svc_sendable(
                #[trigger] xs.drop_last()[i],
            ) && svc_value_len(xs.drop_last()[i]) + 4 <= u16::MAX by {
                assert(xs.drop_last()[i] == xs[i]);
            }
        }
        lemma_svc_list_bytes_len(xs.drop_last());
        assert(svc_sendable(xs[xs.len() - 1]));
        lemma_svc_value_bytes_len(a);
        crate::netlink::lemma_frame_len(svc_kind(a), svc_value_bytes(a, svc_value_len(a)));
    }
}

/// The bytes of `a` followed by `xs` are `a`'s attribute followed by the bytes
/// of `xs`.
pub proof fn lemma_svc_list_bytes_cons(a: SvcAttr, xs: Seq<SvcAttr>)
    ensures
        svc_list_bytes(seq![a] + xs) == svc_frame_of(a) + svc_list_bytes(xs),
    decreases xs.len(),
{
    let ys = seq![a] + xs;
    if xs.len() == 0 {
        assert(ys.drop_last() =~= Seq::<SvcAttr>::empty());
        assert(ys.last() == a);
        assert(svc_list_bytes(Seq::<SvcAttr>::empty()) =~= Seq::<u8>::empty());
        assert(svc_list_bytes(xs) =~= Seq::<u8>::empty());
        assert(svc_list_bytes(ys) =~= Seq::<u8>::empty() + svc_frame_of(a));
        assert(Seq::<u8>::empty() + svc_frame_of(a) =~= svc_frame_of(a) + svc_list_bytes(xs));
    } else {
        lemma_svc_list_bytes_cons(a, xs.drop_last());
        assert(ys.drop_last() =~= seq![a] + xs.drop_last());
        assert(ys.last() == xs.last());
        assert(svc_frame_of(a) + svc_list_bytes(xs.drop_last()) + svc_frame_of(xs.last())
            =~= svc_frame_of(a) + svc_list_bytes(xs));
    }
}

/// Every attribute of `xs` round-trips on its own.
pub open spec fn svc_list_roundtrips(xs: Seq<SvcAttr>) -> bool {
    forall|i: int|
        0 <= i < xs.len() ==> svc_roundtrips(#[trigger] xs[i]) && svc_value_len(xs[i]) + 4
            <= u16::MAX
}

/// What reading back the written attributes `xs` gives, attribute by
/// attribute.
pub open spec fn svc_list_received(xs: Seq<SvcAttr>) -> Seq<SvcAttr> {
    xs.map_values(|x: SvcAttr| svc_received(x))
}

/// Attributes that each round-trip, written one after another, read back
/// attribute by attribute, and reading them does not panic.
pub proof fn lemma_svc_list_roundtrip(xs: Seq<SvcAttr>)
    requires
        svc_list_roundtrips(xs),
    ensures
        frames_ok(svc_list_bytes(xs), svc_attr_checker(), svc_attr_parser()),
        parse_frames(svc_list_bytes(xs), svc_attr_parser()) == Ok::<Seq<SvcAttr>, IpvsError>(
            svc_list_received(xs),
        ),
    decreases xs.len(),
{
    if xs.len() == 0 {
        assert(svc_list_received(xs) =~= Seq::<SvcAttr>::empty());
    } else {
        let a = xs[0];
        let tail = xs.drop_first();
        assert(xs =~= seq![a] + tail);
        assert(svc_list_roundtrips(tail)) by {
            assert forall|i: int|
                0 <= i < tail.len() implies svc_roundtrips(#[trigger] tail[i]) && svc_value_len(tail[i])
                + 4 <= u16::MAX by {
                assert(tail[i] == xs[i + 1]);
            }
        }
        assert(svc_roundtrips(xs[0]) && svc_value_len(xs[0]) + 4 <= u16::MAX);
        lemma_svc_list_bytes_cons(a, tail);
        lemma_svc_attr_roundtrip(a, svc_list_bytes(tail));
        lemma_svc_list_roundtrip(tail);
        assert(svc_list_received(xs) =~= seq![svc_received(a)] + svc_list_received(tail));
    }
}

/// Whether the bits set in `p` number at most `max`.
fn popcount_at_most(p: &[u8], max: u32) -> (r: bool)
    requires
        max <= 0x1000,
    ensures
        r == (popcount_sum(p@) <= max),
{
    let mut ones: u32 = 0;
    let mut i: usize = 0;
    while i < p.len()
        invariant
            0 <= i <= p@.len(),
            max <= 0x1000,
            ones == popcount_sum(p@.take(i as int)),
            ones <= max,
        decreases p@.len() - i,
    {
        proof {
            assert(p@.take(i + 1).drop_last() == p@.take(i as int));
        }
        let c = count_ones_u8(p[i]);
        proof {
            crate::wire::lemma_popcount_le_8(p[i as int]);
        }
        ones = ones + c;
        i = i + 1;
        if ones > max {
            proof {
                lemma_popcount_sum_prefix(p@, i as int);
            }
            return false;
        }
    }
    assert(p@.take(i as int) == p@);
    true
}

impl SvcCtrlAttrs {
    /// Whether the attribute can be sent: statistics never are, and a netmask
    /// needs its address family.
    pub fn is_sendable(&self) -> (r: bool)
        ensures
            r == svc_sendable(self@),
    {
        match self {
            SvcCtrlAttrs::Stats | SvcCtrlAttrs::Stats64(_) => false,
            SvcCtrlAttrs::Netmask(nm) => nm.address_family.is_some(),
            _ => true,
        }
    }

    /// Whether writing the attribute's value into a buffer of `len` bytes
    /// would not panic.
    pub fn emit_value_ok(&self, len: usize) -> (r: bool)
        ensures
            r == svc_emit_ok(self@, len as nat),
    {
        if !self.is_sendable() {
            return false;
        }
        match self {
            SvcCtrlAttrs::Scheduler(s) => {
                proof {
                    lemma_scheduler_name(*s);
                }
                len >= s.name().len()
            },
            _ => len >= self.value_len(),
        }
    }

    /// Whether decoding a service attribute of type `kind` with payload
    /// `payload` would not panic.
    pub fn value_ok(kind: u16, payload: &[u8]) -> (r: bool)
        ensures
            r == svc_value_ok(kind, payload@),
    {
        if !((1 <= kind && kind <= 10) || kind == IPVS_SVC_ATTR_STATS64) {
            false
        } else if kind == IPVS_SVC_ATTR_PROTOCOL {
            match crate::netlink::parse_u16(payload) {
                Ok(v) => v == 0x06 || v == 0x11 || v == 0x84,
                Err(_) => true,
            }
        } else if kind == IPVS_SVC_ATTR_PORT {
            payload.len() >= 2
        } else if kind == IPVS_SVC_ATTR_FLAGS || kind == IPVS_SVC_ATTR_FWMARK || kind
            == IPVS_SVC_ATTR_TIMEOUT {
            payload.len() >= 4
        } else if kind == IPVS_SVC_ATTR_SCHED_NAME {
            match utf8_text(payload) {
                None => true,
                Some(name) => Scheduler::is_name(trim_trailing_nul(name)),
            }
        } else if kind == IPVS_SVC_ATTR_NETMASK {
            popcount_at_most(payload, 128)
        } else if kind == IPVS_SVC_ATTR_STATS64 {
            Stats64::payload_ok(payload)
        } else {
            true
        }
    }

    /// Whether `parse` on `buf` would not panic.
    pub fn parse_ok(buf: &[u8]) -> (r: bool)
        ensures
            r == (frame_checked(buf@) && svc_attr_at_ok(buf@)),
    {
        proof {
            reveal(svc_attr_at_ok);
        }
        match nla_check(buf) {
            Err(_) => false,
            Ok(()) => {
                let payload = nla_value(buf);
                let kind = nla_kind(buf);
                SvcCtrlAttrs::value_ok(kind, payload.as_slice())
            },
        }
    }
}

impl Service {
    /// Whether `from_nlas` on `nlas` would not panic.
    pub fn from_nlas_ok(nlas: &[SvcCtrlAttrs]) -> (r: bool)
        ensures
            r == service_fields_ok(svc_fields(svc_views(nlas@))),
    {
        let mut family: Option<AddressFamily> = None;
        let mut address_len: Option<usize> = None;
        let mut ones: Option<u8> = None;
        let ghost views = svc_views(nlas@);
        let mut i: usize = 0;
        while i < nlas.len()
            invariant
                0 <= i <= nlas@.len(),
                views == svc_views(nlas@),
                ({
                    let f = svc_fields(views.take(i as int));
                    &&& family == f.family
                    &&& match address_len {
                        Some(n) => f.address is Some && f.address->0.len() == n,
                        None => f.address is None,
                    }
                    &&& match ones {
                        Some(o) => f.netmask is Some && f.netmask->0.bits() == o,
                        None => f.netmask is None,
                    }
                }),
            decreases nlas@.len() - i,
        {
            assert(views.take(i + 1).drop_last() == views.take(i as int));
            assert(views.take(i + 1).last() == nlas@[i as int]@);
            match &nlas[i] {
                SvcCtrlAttrs::AddressFamily(f) => family = Some(*f),
                SvcCtrlAttrs::AddrBytes(bytes) => address_len = Some(bytes.0.len()),
                SvcCtrlAttrs::Netmask(n) => ones = Some(n.ones),
                _ => (),
            }
            i = i + 1;
        }
        assert(views.take(i as int) == views);
        match (family, address_len) {
            (Some(f), Some(n)) => {
                let fits = match f {
                    AddressFamily::IPv4 => n >= 4,
                    AddressFamily::IPv6 => n == 16,
                };
                let prefix_fits = match ones {
                    Some(o) => match f {
                        AddressFamily::IPv4 => o <= 32,
                        AddressFamily::IPv6 => o <= 128,
                    },
                    None => true,
                };
                fits && prefix_fits
            },
            _ => true,
        }
    }
}

/// Some attribute of `attrs` has the netlink type `kind`.
pub open spec fn svc_has(attrs: Seq<SvcAttr>, kind: u16) -> bool {
    exists|i: int| 0 <= i < attrs.len() && svc_kind(#[trigger] attrs[i]) == kind
}

/// The first attribute that building a service from `attrs` needs and does
/// not find, in the order address family, address, netmask, scheduler, flags,
/// protocol, statistics; none when all are there.
pub open spec fn svc_first_missing(attrs: Seq<SvcAttr>) -> Option<RequiredAttr> {
    if !svc_has(attrs, IPVS_SVC_ATTR_AF) {
        Some(RequiredAttr::AddressFamily)
    } else if !svc_has(attrs, IPVS_SVC_ATTR_ADDR) {
        Some(RequiredAttr::Address)
    } else if !svc_has(attrs, IPVS_SVC_ATTR_NETMASK) {
        Some(RequiredAttr::Netmask)
    } else if !svc_has(attrs, IPVS_SVC_ATTR_SCHED_NAME) {
        Some(RequiredAttr::Scheduler)
    } else if !svc_has(attrs, IPVS_SVC_ATTR_FLAGS) {
        Some(RequiredAttr::Flags)
    } else if !svc_has(attrs, IPVS_SVC_ATTR_PROTOCOL) {
        Some(RequiredAttr::Protocol)
    } else if !svc_has(attrs, IPVS_SVC_ATTR_STATS64) {
        Some(RequiredAttr::Stats64)
    } else {
        None
    }
}

/// An attribute of type `kind` is in `xs` followed by `a` exactly when it is
/// in `xs` or is `a`.
proof fn lemma_svc_has_push(xs: Seq<SvcAttr>, a: SvcAttr, kind: u16)
    ensures
        svc_has(xs.push(a), kind) == (svc_has(xs, kind) || svc_kind(a) == kind),
{
    let ys = xs.push(a);
    if svc_has(xs, kind) {
        let i = choose|i: int| 0 <= i < xs.len() && svc_kind(#[trigger] xs[i]) == kind;
        assert(ys[i] == xs[i]);
    }
    if svc_kind(a) == kind {
        assert(ys[xs.len() as int] == a);
    }
    if svc_has(ys, kind) {
        let i = choose|i: int| 0 <= i < ys.len() && svc_kind(#[trigger] ys[i]) == kind;
        if i < xs.len() {
            assert(ys[i] == xs[i]);
        }
    }
}

/// A required field of what `attrs` say is set exactly when some attribute
/// of its kind is in `attrs`.
proof fn lemma_svc_fields_present(attrs: Seq<SvcAttr>)
    ensures
        svc_fields(attrs).family is Some <==> svc_has(attrs, IPVS_SVC_ATTR_AF),
        svc_fields(attrs).address is Some <==> svc_has(attrs, IPVS_SVC_ATTR_ADDR),
        svc_fields(attrs).netmask is Some <==> svc_has(attrs, IPVS_SVC_ATTR_NETMASK),
        svc_fields(attrs).scheduler is Some <==> svc_has(attrs, IPVS_SVC_ATTR_SCHED_NAME),
        svc_fields(attrs).flags is Some <==> svc_has(attrs, IPVS_SVC_ATTR_FLAGS),
        svc_fields(attrs).protocol is Some <==> svc_has(attrs, IPVS_SVC_ATTR_PROTOCOL),
        svc_fields(attrs).stats64 is Some <==> svc_has(attrs, IPVS_SVC_ATTR_STATS64),
    decreases attrs.len(),
{
    if attrs.len() == 0 {
        assert(!svc_has(attrs, IPVS_SVC_ATTR_AF));
        assert(!svc_has(attrs, IPVS_SVC_ATTR_ADDR));
        assert(!svc_has(attrs, IPVS_SVC_ATTR_NETMASK));
        assert(!svc_has(attrs, IPVS_SVC_ATTR_SCHED_NAME));
        assert(!svc_has(attrs, IPVS_SVC_ATTR_FLAGS));
        assert(!svc_has(attrs, IPVS_SVC_ATTR_PROTOCOL));
        assert(!svc_has(attrs, IPVS_SVC_ATTR_STATS64));
    } else {
        let xs = attrs.drop_last();
        let a = attrs.last();
        assert(xs.push(a) =~= attrs);
        lemma_svc_fields_present(xs);
        lemma_svc_fields_push(xs, a);
        lemma_svc_has_push(xs, a, IPVS_SVC_ATTR_AF);
        lemma_svc_has_push(xs, a, IPVS_SVC_ATTR_ADDR);
        lemma_svc_has_push(xs, a, IPVS_SVC_ATTR_NETMASK);
        lemma_svc_has_push(xs, a, IPVS_SVC_ATTR_SCHED_NAME);
        lemma_svc_has_push(xs, a, IPVS_SVC_ATTR_FLAGS);
        lemma_svc_has_push(xs, a, IPVS_SVC_ATTR_PROTOCOL);
        lemma_svc_has_push(xs, a, IPVS_SVC_ATTR_STATS64);
    }
}

/// Building a service from `attrs` succeeds exactly when every required
/// attribute is there (address family, address, netmask, scheduler, flags,
/// protocol, statistics); otherwise it reports the first one missing, in that
/// order. Port, firewall mark and timeout are optional.
pub proof fn lemma_service_required(attrs: Seq<SvcAttr>)
    ensures
        match svc_first_missing(attrs) {
            None => service_from_fields(svc_fields(attrs)) is Ok,
            Some(m) => service_from_fields(svc_fields(attrs)) == Err::<
                ServiceExtended,
                IpvsError,
            >(IpvsError::Missing(m)),
        },
{
    lemma_svc_fields_present(attrs);
}

/// `r` with the field that `a` sets replaced: a protocol, port, firewall
/// mark, scheduler, flags, timeout (zero meaning none) or statistics.
pub open spec fn service_updated(r: ServiceExtended, a: SvcAttr) -> ServiceExtended {
    match a {
        SvcAttr::Protocol(p) => ServiceExtended {
            service: Service { protocol: p, ..r.service },
            ..r
        },
        SvcAttr::Port(p) => ServiceExtended { service: Service { port: Some(p), ..r.service }, ..r },
        SvcAttr::Fwmark(m) => ServiceExtended {
            service: Service { fw_mark: Some(m), ..r.service },
            ..r
        },
        SvcAttr::Scheduler(x) => ServiceExtended {
            service: Service { scheduler: x, ..r.service },
            ..r
        },
        SvcAttr::Flags(f) => ServiceExtended { service: Service { flags: f, ..r.service }, ..r },
        SvcAttr::Timeout(t) => ServiceExtended {
            service: Service {
                persistence_timeout: if t == 0 {
                    None
                } else {
                    Some(t)
                },
                ..r.service
            },
            ..r
        },
        SvcAttr::Stats64(st) => ServiceExtended { stats64: st, ..r },
        _ => r,
    }
}

/// Appending a protocol, port, firewall mark, scheduler, flags, timeout or
/// statistics attribute to attributes that build a service replaces only that
/// field of it: the last attribute of a kind wins.
pub proof fn lemma_service_append(xs: Seq<SvcAttr>, a: SvcAttr, r: ServiceExtended)
    requires
        service_from_fields(svc_fields(xs)) == Ok::<ServiceExtended, IpvsError>(r),
        a is Protocol || a is Port || a is Fwmark || a is Scheduler || a is Flags || a is Timeout
            || a is Stats64,
    ensures
        service_from_fields(svc_fields(xs.push(a))) == Ok::<ServiceExtended, IpvsError>(
            service_updated(r, a),
        ),
{
    lemma_svc_fields_push(xs, a);
}

/// Decoding a service attribute panics (the input is outside what `parse`
/// accepts) for a type it does not handle, a protocol other than TCP, UDP
/// and SCTP, a UTF-8 scheduler name that names no scheduler, a port shorter
/// than two bytes, flags, a firewall mark or a timeout shorter than four
/// bytes, and a netmask with more than 128 bits set.
pub proof fn lemma_svc_parse_refused(kind: u16, p: Seq<u8>)
    ensures
        !(1 <= kind <= 10 || kind == IPVS_SVC_ATTR_STATS64) ==> !svc_value_ok(kind, p),
        kind == IPVS_SVC_ATTR_PROTOCOL && p.len() == 2 && native_u16(p) != 0x06 && native_u16(p)
            != 0x11 && native_u16(p) != 0x84 ==> !svc_value_ok(kind, p),
        kind == IPVS_SVC_ATTR_SCHED_NAME && valid_utf8(p) && scheduler_in(p) is None
            ==> !svc_value_ok(kind, p),
        kind == IPVS_SVC_ATTR_PORT && p.len() < 2 ==> !svc_value_ok(kind, p),
        (kind == IPVS_SVC_ATTR_FLAGS || kind == IPVS_SVC_ATTR_FWMARK || kind
            == IPVS_SVC_ATTR_TIMEOUT) && p.len() < 4 ==> !svc_value_ok(kind, p),
        kind == IPVS_SVC_ATTR_NETMASK && popcount_sum(p) > 128 ==> !svc_value_ok(kind, p),
{
}

/// Statistics are never written, and a netmask is never written without its
/// address family: writing their value into a buffer of any length panics
/// (the input is outside what `emit_value` accepts), and they have no length
/// on the wire (outside what `value_len` accepts).
pub proof fn lemma_svc_never_written(a: SvcAttr, len: nat)
    requires
        a is Stats || a is Stats64 || (a matches SvcAttr::Netmask(n) && n.family() is None),
    ensures
        !svc_emit_ok(a, len),
        !svc_sendable(a),
{
}

/// The value lengths of the service attributes: two bytes for an address
/// family, protocol or port, eight for flags, four for a firewall mark or a
/// timeout, the bytes' length for an address, the name's length plus one for
/// a scheduler, and four or sixteen for an IPv4 or IPv6 netmask.
pub proof fn lemma_svc_value_lengths(a: SvcAttr)
    requires
        svc_sendable(a),
    ensures
        (a is AddressFamily || a is Protocol || a is Port) ==> svc_value_len(a) == 2,
        a is Flags ==> svc_value_len(a) == 8,
        (a is Fwmark || a is Timeout) ==> svc_value_len(a) == 4,
        a matches SvcAttr::AddrBytes(b) ==> svc_value_len(a) == b.len(),
        a matches SvcAttr::Scheduler(s) ==> svc_value_len(a) == scheduler_name(s).len() + 1,
        a matches SvcAttr::Netmask(n) ==> svc_value_len(a) == (if n.family() == Some(
            AddressFamily::IPv4,
        ) {
            4nat
        } else {
            16nat
        }),
{
    if let SvcAttr::Scheduler(s) = a {
        lemma_scheduler_name(s);
    }
}

/// The kernel's scheduler names: round robin is "rr", weighted round robin
/// "wrr", least connection "lc", weighted least connection "wlc",
/// locality-based least connection "lblc" (with replication "lblcr"),
/// destination and source hashing "dh" and "sh", shortest expected delay
/// "sed", never queue "nq", weighted failover "fo" (also "fail"), weighted
/// overflow "ovf" (also "flow"), and Maglev hashing "mh"; each name reads
/// back as its scheduler.
pub proof fn lemma_scheduler_kernel_names()
    ensures
        scheduler_name(Scheduler::RoundRobin) == seq!['r', 'r'],
        scheduler_name(Scheduler::WeightedRoundRobin) == seq!['w', 'r', 'r'],
        scheduler_name(Scheduler::LeastConnection) == seq!['l', 'c'],
        scheduler_name(Scheduler::WeightedLeastConnection) == seq!['w', 'l', 'c'],
        scheduler_name(Scheduler::LocalityBasedLeastConnection) == seq!['l', 'b', 'l', 'c'],
        scheduler_name(Scheduler::LocalityBasedLeastConnectionWithReplication) == seq!['l', 'b', 'l', 'c', 'r'],
        scheduler_name(Scheduler::DestinationHashing) == seq!['d', 'h'],
        scheduler_name(Scheduler::SourceHashing) == seq!['s', 'h'],
        scheduler_name(Scheduler::ShortestExpectedDelay) == seq!['s', 'e', 'd'],
        scheduler_name(Scheduler::NeverQueue) == seq!['n', 'q'],
        scheduler_name(Scheduler::WeightedFailover) == seq!['f', 'o'],
        scheduler_name(Scheduler::WeightedOverflow) == seq!['o', 'v', 'f'],
        scheduler_name(Scheduler::MaglevHashing) == seq!['m', 'h'],
        scheduler_from_name(seq!['r', 'r']) == Some(Scheduler::RoundRobin),
        scheduler_from_name(seq!['w', 'r', 'r']) == Some(Scheduler::WeightedRoundRobin),
        scheduler_from_name(seq!['l', 'c']) == Some(Scheduler::LeastConnection),
        scheduler_from_name(seq!['w', 'l', 'c']) == Some(Scheduler::WeightedLeastConnection),
        scheduler_from_name(seq!['l', 'b', 'l', 'c']) == Some(Scheduler::LocalityBasedLeastConnection),
        scheduler_from_name(seq!['l', 'b', 'l', 'c', 'r']) == Some(Scheduler::LocalityBasedLeastConnectionWithReplication),
        scheduler_from_name(seq!['d', 'h']) == Some(Scheduler::DestinationHashing),
        scheduler_from_name(seq!['s', 'h']) == Some(Scheduler::SourceHashing),
        scheduler_from_name(seq!['s', 'e', 'd']) == Some(Scheduler::ShortestExpectedDelay),
        scheduler_from_name(seq!['n', 'q']) == Some(Scheduler::NeverQueue),
        scheduler_from_name(seq!['f', 'o']) == Some(Scheduler::WeightedFailover),
        scheduler_from_name(seq!['o', 'v', 'f']) == Some(Scheduler::WeightedOverflow),
        scheduler_from_name(seq!['m', 'h']) == Some(Scheduler::MaglevHashing),
        scheduler_from_name(seq!['f', 'a', 'i', 'l']) == Some(Scheduler::WeightedFailover),
        scheduler_from_name(seq!['f', 'l', 'o', 'w']) == Some(Scheduler::WeightedOverflow),
{
    reveal_strlit("dh");
    assert("dh"@ =~= seq!['d', 'h']);
    reveal_strlit("fail");
    assert("fail"@ =~= seq!['f', 'a', 'i', 'l']);
    reveal_strlit("flow");
    assert("flow"@ =~= seq!['f', 'l', 'o', 'w']);
    reveal_strlit("fo");
    assert("fo"@ =~= seq!['f', 'o']);
    reveal_strlit("lblc");
    assert("lblc"@ =~= seq!['l', 'b', 'l', 'c']);
    reveal_strlit("lblcr");
    assert("lblcr"@ =~= seq!['l', 'b', 'l', 'c', 'r']);
    reveal_strlit("lc");
    assert("lc"@ =~= seq!['l', 'c']);
    reveal_strlit("mh");
    assert("mh"@ =~= seq!['m', 'h']);
    reveal_strlit("nq");
    assert("nq"@ =~= seq!['n', 'q']);
    reveal_strlit("ovf");
    assert("ovf"@ =~= seq!['o', 'v', 'f']);
    reveal_strlit("rr");
    assert("rr"@ =~= seq!['r', 'r']);
    reveal_strlit("sed");
    assert("sed"@ =~= seq!['s', 'e', 'd']);
    reveal_strlit("sh");
    assert("sh"@ =~= seq!['s', 'h']);
    reveal_strlit("wlc");
    assert("wlc"@ =~= seq!['w', 'l', 'c']);
    reveal_strlit("wrr");
    assert("wrr"@ =~= seq!['w', 'r', 'r']);
    lemma_scheduler_name_roundtrip(Scheduler::RoundRobin);
}

/// The protocol attribute carries the IP protocol number, least significant
/// byte first: TCP is 6, UDP is 0x11, SCTP is 0x84; and a two-byte payload
/// holding one of these numbers reads back as that protocol.
pub proof fn lemma_protocol_numbers(len: nat, p: Seq<u8>)
    ensures
        svc_value_bytes(SvcAttr::Protocol(Protocol::TCP), len) == seq![0x06u8, 0x00u8],
        svc_value_bytes(SvcAttr::Protocol(Protocol::UDP), len) == seq![0x11u8, 0x00u8],
        svc_value_bytes(SvcAttr::Protocol(Protocol::SCTP), len) == seq![0x84u8, 0x00u8],
        p.len() == 2 && native_u16(p) == 0x06 ==> svc_parse_value(IPVS_SVC_ATTR_PROTOCOL, p)
            == Ok::<SvcAttr, IpvsError>(SvcAttr::Protocol(Protocol::TCP)),
        p.len() == 2 && native_u16(p) == 0x11 ==> svc_parse_value(IPVS_SVC_ATTR_PROTOCOL, p)
            == Ok::<SvcAttr, IpvsError>(SvcAttr::Protocol(Protocol::UDP)),
        p.len() == 2 && native_u16(p) == 0x84 ==> svc_parse_value(IPVS_SVC_ATTR_PROTOCOL, p)
            == Ok::<SvcAttr, IpvsError>(SvcAttr::Protocol(Protocol::SCTP)),
{
    assert(u16_le_bytes(0x06) =~= seq![0x06u8, 0x00u8]);
    assert(u16_le_bytes(0x11) =~= seq![0x11u8, 0x00u8]);
    assert(u16_le_bytes(0x84) =~= seq![0x84u8, 0x00u8]);
}

/// The service address-family attribute carries the kernel's family number,
/// least significant byte first: IPv4 is 2, IPv6 is 10; and a two-byte
/// payload holding 2 reads back as IPv4, 10 as IPv6.
pub proof fn lemma_svc_family_numbers(len: nat, p: Seq<u8>)
    ensures
        svc_value_bytes(SvcAttr::AddressFamily(AddressFamily::IPv4), len) == seq![2u8, 0u8],
        svc_value_bytes(SvcAttr::AddressFamily(AddressFamily::IPv6), len) == seq![10u8, 0u8],
        p.len() == 2 && native_u16(p) == 2 ==> svc_parse_value(IPVS_SVC_ATTR_AF, p) == Ok::<
            SvcAttr,
            IpvsError,
        >(SvcAttr::AddressFamily(AddressFamily::IPv4)),
        p.len() == 2 && native_u16(p) == 10 ==> svc_parse_value(IPVS_SVC_ATTR_AF, p) == Ok::<
            SvcAttr,
            IpvsError,
        >(SvcAttr::AddressFamily(AddressFamily::IPv6)),
{
    assert(u16_le_bytes(2) =~= seq![2u8, 0u8]);
    assert(u16_le_bytes(10) =~= seq![10u8, 0u8]);
}

/// The attributes that describe a service end with its netmask, kept as it
/// is; when that netmask knows its family, every attribute has a wire form
/// that fits the 16-bit length field, so the whole list can be written.
pub proof fn lemma_service_nlas_sendable(s: Service)
    ensures
        service_nlas(s).len() >= 7,
        service_nlas(s).last() == SvcAttr::Netmask(s.netmask),
        s.netmask.family() is Some ==> svc_list_sendable(service_nlas(s)),
{
    let xs = service_nlas(s);
    if s.netmask.family() is Some {
        assert forall|i: int| 0 <= i < xs.len() implies svc_sendable(#[trigger] xs[i])
            && svc_value_len(xs[i]) + 4 <= u16::MAX by {
            if let SvcAttr::Scheduler(sc) = xs[i] {
                lemma_scheduler_name(sc);
            }
            if let SvcAttr::AddrBytes(b) = xs[i] {
                assert(b == address_bytes(s.address));
            }
        }
    }
}

/// The netlink types of the service attributes, as the kernel numbers them:
/// address family 1, protocol 2, address 3, port 4, firewall mark 5,
/// scheduler name 6, flags 7, timeout 8, netmask 9, statistics 10, 64-bit
/// statistics 12.
pub proof fn lemma_svc_kind_numbers(a: SvcAttr)
    ensures
        a is AddressFamily ==> svc_kind(a) == 1,
        a is Protocol ==> svc_kind(a) == 2,
        a is AddrBytes ==> svc_kind(a) == 3,
        a is Port ==> svc_kind(a) == 4,
        a is Fwmark ==> svc_kind(a) == 5,
        a is Scheduler ==> svc_kind(a) == 6,
        a is Flags ==> svc_kind(a) == 7,
        a is Timeout ==> svc_kind(a) == 8,
        a is Netmask ==> svc_kind(a) == 9,
        a is Stats ==> svc_kind(a) == 10,
        a is Stats64 ==> svc_kind(a) == 12,
{
}

} // verus!
