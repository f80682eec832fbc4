use netlink_packet_ipvs::ctrl::nlas::{Stats64, Stats64Attr};
use netlink_packet_ipvs::error::IpvsError;

fn nla(kind: u16, value: &[u8]) -> Vec<u8> {
    let len = (value.len() + 4) as u16;
    let mut out = Vec::new();
    out.extend_from_slice(&len.to_ne_bytes());
    out.extend_from_slice(&kind.to_ne_bytes());
    out.extend_from_slice(value);
    while out.len() % 4 != 0 {
        out.push(0);
    }
    out
}

#[test]
fn stats_attr_values_are_little_endian() {
    let payload = [0x01, 0x02, 0, 0, 0, 0, 0, 0x80];
    let expected = 0x8000_0000_0000_0201u64;
    let all = [
        Stats64Attr::ConnCount(expected),
        Stats64Attr::IncPktCount(expected),
        Stats64Attr::OutPktCount(expected),
        Stats64Attr::IncByteCount(expected),
        Stats64Attr::OutByteCount(expected),
        Stats64Attr::ConnRate(expected),
        Stats64Attr::IncPktRate(expected),
        Stats64Attr::OutPktRate(expected),
        Stats64Attr::IncByteRate(expected),
        Stats64Attr::OutByteRate(expected),
    ];
    for (i, want) in all.iter().enumerate() {
        let got = Stats64Attr::parse_value(i as u16 + 1, &payload).unwrap();
        assert_eq!(got, *want);
    }
}

#[test]
fn stats_attr_unknown_kind_is_an_error() {
    assert_eq!(
        Stats64Attr::parse_value(11, &[0; 8]),
        Err(IpvsError::UnknownStatsKind(11))
    );
    assert_eq!(
        Stats64Attr::parse_value(0, &[]),
        Err(IpvsError::UnknownStatsKind(0))
    );
}

#[test]
fn stats_attr_parse_reads_header() {
    let buf = nla(5, &500u64.to_le_bytes());
    assert_eq!(Stats64Attr::parse(&buf), Ok(Stats64Attr::OutByteCount(500)));
}

#[test]
fn stats_last_attribute_of_a_kind_wins() {
    let s = Stats64::from_nlas(vec![
        Stats64Attr::ConnCount(1),
        Stats64Attr::IncByteRate(7),
        Stats64Attr::ConnCount(2),
    ])
    .unwrap();
    assert_eq!(s.connections, 2);
    assert_eq!(s.incoming_byte_rate, 7);
    assert_eq!(s.outgoing_bytes, 0);
    assert_eq!(Stats64::from_nlas(vec![]).unwrap(), Stats64::default());
}

#[test]
fn stats_payload_of_nested_attributes() {
    let mut payload = nla(1, &100u64.to_le_bytes());
    payload.extend(nla(9, &900u64.to_le_bytes()));
    assert!(Stats64::payload_ok(&payload));
    let s = Stats64::parse_payload(&payload).unwrap();
    assert_eq!(s.connections, 100);
    assert_eq!(s.incoming_byte_rate, 900);
    assert_eq!(s.incoming_packets, 0);
}

#[test]
fn stats_payload_errors() {
    // a header that claims more bytes than there are
    let mut bad = nla(1, &100u64.to_le_bytes());
    bad.extend_from_slice(&[40, 0, 1, 0]);
    assert_eq!(Stats64::parse_payload(&bad), Err(IpvsError::InvalidNla));
    // an attribute type statistics do not have
    let unknown = nla(42, &[0; 8]);
    assert_eq!(
        Stats64::parse_payload(&unknown),
        Err(IpvsError::UnknownStatsKind(42))
    );
    // a known type with too short a value would panic: the check says so
    let short = nla(1, &[0; 4]);
    assert!(!Stats64::payload_ok(&short));
}
