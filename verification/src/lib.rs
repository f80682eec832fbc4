//! Generic-netlink attributes of the Linux IPVS (IP Virtual Server) control
//! family: their wire encoding, their decoding, and the conversion between
//! attribute lists and the service and destination descriptions they carry.

pub mod constants;
pub mod ctrl;
pub mod error;
pub mod netlink;
pub mod wire;
