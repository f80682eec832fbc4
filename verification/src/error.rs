use vstd::prelude::*;

verus! {

/// An attribute without which a service or a destination cannot be built.
#[derive(Clone, Copy, Debug, PartialEq, Eq)]
pub enum RequiredAttr {
    AddressFamily,
    Address,
    Netmask,
    Scheduler,
    Flags,
    Protocol,
    Stats64,
    ForwardMethod,
    TunnelType,
    TunnelPort,
    TunnelFlags,
    Weight,
    Port,
    InactiveConnections,
    ActiveConnections,
    PersistentConnections,
}

/// Why decoding attributes, or building a description from them, failed.
#[derive(Clone, Copy, Debug, PartialEq, Eq)]
pub enum IpvsError {
    /// A 16-bit field whose payload is not exactly two bytes long.
    InvalidU16,
    /// A 32-bit field whose payload is not exactly four bytes long.
    InvalidU32,
    /// An address family other than IPv4 (2) and IPv6 (10).
    UnknownAddressFamily(u16),
    /// A statistics attribute of a type this library does not know.
    UnknownStatsKind(u16),
    /// A destination attribute of a type this library does not know.
    UnknownDestinationKind(u16),
    /// A scheduler name that is not UTF-8.
    InvalidSchedulerName,
    /// A nested attribute whose header is cut short or whose length is out of
    /// bounds.
    InvalidNla,
    /// A required attribute is absent.
    Missing(RequiredAttr),
}

} // verus!
