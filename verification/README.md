# netlink_packet_ipvs

Generic-netlink attributes of the Linux IPVS (IP Virtual Server) control
family, verified with Verus: how each service, destination, statistics and
top-level attribute is written to the wire and read back, and how attribute
lists become service and destination descriptions and back.

## Layout

- `src/wire.rs`: byte orders as spec functions, and the `byteorder` and `std`
  calls that read and write fixed-width integers.
- `src/netlink.rs`: the netlink attribute framing (header, value, padding) and
  the `netlink-packet-utils` calls that parse, iterate over and emit
  attributes.
- `src/ctrl/nlas/mod.rs`: address families, addresses, 64-bit statistics and
  the top-level attributes that nest services and destinations.
- `src/ctrl/nlas/service.rs`, `src/ctrl/nlas/destination.rs`: the service and
  destination attributes, their encodings, and the descriptions built from
  them.
- `src/constants.rs`, `src/error.rs`: attribute numbers and errors.
- `app/lib.rs`: the `Nla` and `Parseable` traits of `netlink-packet-utils` on
  wrappers of the attribute types, `std::net` and `NonZeroU32` conversions, and
  the error values callers see.

Each decoder has a companion (`parse_ok`, `value_ok`, `from_nlas_ok`) that
says whether the input is one the decoder accepts without panicking; the
proof functions named `lemma_*_roundtrip` state what reading back a written
attribute, or rebuilding a described service or destination, gives.
