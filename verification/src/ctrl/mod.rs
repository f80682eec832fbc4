//! The IPVS control family's attributes.

pub mod nlas;
