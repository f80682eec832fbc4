use vstd::prelude::*;

verus! {

/// Top-level attribute that nests the attributes of a service.
pub const IPVS_CMD_ATTR_SERVICE: u16 = 1;
/// Top-level attribute that nests the attributes of a destination.
pub const IPVS_CMD_ATTR_DEST: u16 = 2;

pub const IPVS_SVC_ATTR_AF: u16 = 1;
pub const IPVS_SVC_ATTR_PROTOCOL: u16 = 2;
pub const IPVS_SVC_ATTR_ADDR: u16 = 3;
pub const IPVS_SVC_ATTR_PORT: u16 = 4;
pub const IPVS_SVC_ATTR_FWMARK: u16 = 5;
pub const IPVS_SVC_ATTR_SCHED_NAME: u16 = 6;
pub const IPVS_SVC_ATTR_FLAGS: u16 = 7;
pub const IPVS_SVC_ATTR_TIMEOUT: u16 = 8;
pub const IPVS_SVC_ATTR_NETMASK: u16 = 9;
pub const IPVS_SVC_ATTR_STATS: u16 = 10;
pub const IPVS_SVC_ATTR_PE_NAME: u16 = 11;
pub const IPVS_SVC_ATTR_STATS64: u16 = 12;

pub const IPVS_DEST_ATTR_ADDR: u16 = 1;
pub const IPVS_DEST_ATTR_PORT: u16 = 2;
pub const IPVS_DEST_ATTR_FWD_METHOD: u16 = 3;
pub const IPVS_DEST_ATTR_WEIGHT: u16 = 4;
pub const IPVS_DEST_ATTR_U_THRESH: u16 = 5;
pub const IPVS_DEST_ATTR_L_THRESH: u16 = 6;
pub const IPVS_DEST_ATTR_ACTIVE_CONNS: u16 = 7;
pub const IPVS_DEST_ATTR_INACT_CONNS: u16 = 8;
pub const IPVS_DEST_ATTR_PERSIST_CONNS: u16 = 9;
pub const IPVS_DEST_ATTR_STATS: u16 = 10;
pub const IPVS_DEST_ATTR_ADDR_FAMILY: u16 = 11;
pub const IPVS_DEST_ATTR_STATS64: u16 = 12;
pub const IPVS_DEST_ATTR_TUN_TYPE: u16 = 13;
pub const IPVS_DEST_ATTR_TUN_PORT: u16 = 14;
pub const IPVS_DEST_ATTR_TUN_FLAGS: u16 = 15;

} // verus!

verus! {

/// Types of the attributes nested in a statistics attribute.
pub const STATS_ATTR_CONNS: u16 = 1;
pub const STATS_ATTR_INPKTS: u16 = 2;
pub const STATS_ATTR_OUTPKTS: u16 = 3;
pub const STATS_ATTR_INBYTES: u16 = 4;
pub const STATS_ATTR_OUTBYTES: u16 = 5;
pub const STATS_ATTR_CPS: u16 = 6;
pub const STATS_ATTR_INPPS: u16 = 7;
pub const STATS_ATTR_OUTPPS: u16 = 8;
pub const STATS_ATTR_INBPS: u16 = 9;
pub const STATS_ATTR_OUTBPS: u16 = 10;

} // verus!
