use netlink_packet_ipvs::ctrl::nlas::destination::{
    Destination, DestinationCtrlAttrs, DestinationExtended, ForwardType, ForwardTypeFull,
    TunnelFlags, TunnelType,
};
use netlink_packet_ipvs::ctrl::nlas::{AddrBytes, AddressFamily, IpAddr, Stats64};
use netlink_packet_ipvs::error::{IpvsError, RequiredAttr};

fn emitted(a: &DestinationCtrlAttrs) -> Vec<u8> {
    let mut buffer = vec![0u8; a.buffer_len()];
    a.emit(&mut buffer);
    buffer
}

fn sample(fwd: ForwardTypeFull) -> Destination {
    Destination {
        address: IpAddr::V4([10, 0, 0, 1]),
        fwd_method: fwd,
        weight: 100,
        upper_threshold: Some(50),
        lower_threshold: None,
        port: 8080,
        family: AddressFamily::IPv4,
    }
}

fn with_counts(mut nlas: Vec<DestinationCtrlAttrs>) -> Vec<DestinationCtrlAttrs> {
    nlas.push(DestinationCtrlAttrs::ActiveConns(3));
    nlas.push(DestinationCtrlAttrs::InactiveConns(4));
    nlas.push(DestinationCtrlAttrs::PersistConns(5));
    nlas.push(DestinationCtrlAttrs::Stats64(Stats64::default()));
    nlas
}

#[test]
fn forward_type_of_full() {
    assert_eq!(ForwardType::from(&ForwardTypeFull::Direct), ForwardType::Direct);
    assert_eq!(ForwardType::from(&ForwardTypeFull::Masquerade), ForwardType::Masquerade);
    let t = ForwardTypeFull::Tunnel {
        tunnel_type: TunnelType::IpIp,
        tunnel_port: 1,
        tunnel_flags: TunnelFlags::from(2),
    };
    assert_eq!(ForwardType::from(&t), ForwardType::Tunnel);
    assert_eq!(TunnelFlags::from(9), TunnelFlags(9));
    assert_eq!(ForwardType::try_from_u32(0), Ok(ForwardType::Masquerade));
    assert_eq!(ForwardType::Masquerade.code(), 0);
    assert_eq!(TunnelType::try_from_u8(0).unwrap().code(), 0);
}

#[test]
fn destination_attributes_read_back() {
    let cases = [
        DestinationCtrlAttrs::Addr(AddrBytes(vec![3; 16])),
        DestinationCtrlAttrs::Port(8080),
        DestinationCtrlAttrs::FwdMethod(ForwardType::Masquerade),
        DestinationCtrlAttrs::Weight(0x01020304),
        DestinationCtrlAttrs::UpperThreshold(7),
        DestinationCtrlAttrs::LowerThreshold(8),
        DestinationCtrlAttrs::ActiveConns(9),
        DestinationCtrlAttrs::InactiveConns(10),
        DestinationCtrlAttrs::PersistConns(11),
        DestinationCtrlAttrs::AddrFamily(AddressFamily::IPv6),
        DestinationCtrlAttrs::TunType(TunnelType::IpIp),
        DestinationCtrlAttrs::TunPort(4789),
        DestinationCtrlAttrs::TunFlags(TunnelFlags(3)),
    ];
    for a in cases.iter() {
        let buf = emitted(a);
        assert!(DestinationCtrlAttrs::parse_ok(&buf));
        assert_eq!(DestinationCtrlAttrs::parse(&buf).unwrap(), *a);
    }
}

#[test]
fn destination_port_is_written_in_network_order() {
    let mut buffer = [0u8; 2];
    DestinationCtrlAttrs::Port(8080).emit_value(&mut buffer);
    assert_eq!(buffer, [0x1f, 0x90]);
    let buf = emitted(&DestinationCtrlAttrs::Port(8080));
    assert_eq!(DestinationCtrlAttrs::parse(&buf).unwrap(), DestinationCtrlAttrs::Port(8080));
    assert_eq!(
        DestinationCtrlAttrs::parse_value(2, &[0x1f, 0x90]).unwrap(),
        DestinationCtrlAttrs::Port(8080)
    );
}

#[test]
fn destination_attribute_errors() {
    assert_eq!(
        DestinationCtrlAttrs::parse_value(99, &[]),
        Err(IpvsError::UnknownDestinationKind(99))
    );
    assert_eq!(DestinationCtrlAttrs::parse_value(4, &[1, 2]), Err(IpvsError::InvalidU32));
    assert_eq!(DestinationCtrlAttrs::parse_value(3, &[0; 5]), Err(IpvsError::InvalidU32));
    assert_eq!(DestinationCtrlAttrs::parse_value(14, &[1]), Err(IpvsError::InvalidU16));
    assert_eq!(
        DestinationCtrlAttrs::parse_value(11, &7u16.to_ne_bytes()),
        Err(IpvsError::UnknownAddressFamily(7))
    );
    assert_eq!(DestinationCtrlAttrs::parse_value(10, &[]), Ok(DestinationCtrlAttrs::Stats));
    assert!(!DestinationCtrlAttrs::value_ok(3, &1u32.to_ne_bytes()));
    assert!(!DestinationCtrlAttrs::value_ok(13, &[1]));
    assert!(!DestinationCtrlAttrs::value_ok(13, &[]));
    assert!(!DestinationCtrlAttrs::value_ok(2, &[1]));
    assert!(!DestinationCtrlAttrs::FwdMethod(ForwardType::Direct).emit_value_ok(4));
    assert!(!DestinationCtrlAttrs::Addr(AddrBytes(vec![1, 2, 3, 4])).emit_value_ok(16));
}

#[test]
fn destination_from_its_attributes() {
    for fwd in [
        ForwardTypeFull::Masquerade,
        ForwardTypeFull::Direct,
        ForwardTypeFull::Tunnel {
            tunnel_type: TunnelType::IpIp,
            tunnel_port: 6081,
            tunnel_flags: TunnelFlags(1),
        },
    ] {
        let d = sample(fwd);
        let nlas = with_counts(d.create_nlas());
        assert!(DestinationExtended::from_nlas_ok(&nlas));
        let back = DestinationExtended::from_nlas(&nlas).unwrap();
        assert_eq!(
            back,
            DestinationExtended {
                destination: d,
                active_connections: 3,
                inactive_connections: 4,
                persistent_connections: 5,
                stats64: Stats64::default(),
            }
        );
    }
}

#[test]
fn destination_create_nlas_order() {
    let d = sample(ForwardTypeFull::Masquerade);
    let nlas = d.create_nlas();
    assert_eq!(nlas[0], DestinationCtrlAttrs::AddrFamily(AddressFamily::IPv4));
    assert_eq!(
        nlas[1],
        DestinationCtrlAttrs::Addr(AddrBytes(vec![10, 0, 0, 1, 0, 0, 0, 0, 0, 0, 0, 0, 0, 0, 0, 0]))
    );
    assert_eq!(nlas[5], DestinationCtrlAttrs::UpperThreshold(50));
    assert_eq!(nlas[6], DestinationCtrlAttrs::LowerThreshold(0));
    assert_eq!(nlas.len(), 7);
}

#[test]
fn destination_missing_attributes() {
    let tunnel = ForwardTypeFull::Tunnel {
        tunnel_type: TunnelType::IpIp,
        tunnel_port: 1,
        tunnel_flags: TunnelFlags(0),
    };
    let full = with_counts(sample(tunnel).create_nlas());
    let drop = |k: u16| -> Vec<DestinationCtrlAttrs> {
        full.iter().filter(|a| a.kind() != k).cloned().collect()
    };
    let cases = [
        (11, RequiredAttr::AddressFamily),
        (1, RequiredAttr::Address),
        (3, RequiredAttr::ForwardMethod),
        (13, RequiredAttr::TunnelType),
        (14, RequiredAttr::TunnelPort),
        (15, RequiredAttr::TunnelFlags),
        (4, RequiredAttr::Weight),
        (2, RequiredAttr::Port),
        (8, RequiredAttr::InactiveConnections),
        (7, RequiredAttr::ActiveConnections),
        (9, RequiredAttr::PersistentConnections),
        (12, RequiredAttr::Stats64),
    ];
    for (kind, missing) in cases {
        assert_eq!(
            DestinationExtended::from_nlas(&drop(kind)),
            Err(IpvsError::Missing(missing))
        );
    }
    let zero = vec![DestinationCtrlAttrs::UpperThreshold(0)];
    assert_eq!(
        DestinationExtended::from_nlas(&zero),
        Err(IpvsError::Missing(RequiredAttr::AddressFamily))
    );
}

#[test]
fn destination_last_attribute_wins_and_order_does_not_matter() {
    let d = sample(ForwardTypeFull::Masquerade);
    let mut nlas = with_counts(d.create_nlas());
    let base = DestinationExtended::from_nlas(&nlas).unwrap();
    nlas.push(DestinationCtrlAttrs::Weight(77));
    nlas.push(DestinationCtrlAttrs::UpperThreshold(0));
    let updated = DestinationExtended::from_nlas(&nlas).unwrap();
    assert_eq!(updated.destination.weight, 77);
    assert_eq!(updated.destination.upper_threshold, None);
    assert_eq!(updated.destination.port, base.destination.port);
    let mut reordered = with_counts(d.create_nlas());
    reordered.reverse();
    reordered.insert(2, DestinationCtrlAttrs::Stats);
    assert_eq!(DestinationExtended::from_nlas(&reordered), Ok(base));
    assert_eq!(
        DestinationExtended::from_nlas(&[]),
        Err(IpvsError::Missing(RequiredAttr::AddressFamily))
    );
}
