use netlink_packet_ipvs::ctrl::nlas::service::{
    Flags, Netmask, Protocol, Scheduler, Service, ServiceExtended, SvcCtrlAttrs,
};
use netlink_packet_ipvs::ctrl::nlas::{AddrBytes, AddressFamily, IpAddr, Stats64};
use netlink_packet_ipvs::error::{IpvsError, RequiredAttr};
use netlink_packet_utils::nla::{DefaultNla, NlaBuffer};
use netlink_packet_utils::traits::Emitable;

fn emitted(a: &SvcCtrlAttrs) -> Vec<u8> {
    let mut buffer = vec![0u8; a.buffer_len()];
    a.emit(&mut buffer);
    buffer
}

fn value(a: &SvcCtrlAttrs) -> Vec<u8> {
    let mut buffer = vec![0u8; a.value_len()];
    a.emit_value(&mut buffer);
    buffer
}

fn sample_service() -> Service {
    Service {
        address: IpAddr::V4([192, 168, 1, 100]),
        netmask: Netmask::new(24, AddressFamily::IPv4),
        scheduler: Scheduler::WeightedLeastConnection,
        flags: Flags(3),
        port: Some(80),
        fw_mark: None,
        persistence_timeout: Some(300),
        family: AddressFamily::IPv4,
        protocol: Protocol::TCP,
    }
}

#[test]
fn netmask_v6_and_short_prefix() {
    let mut buf = vec![0xaa; 18];
    Netmask::new(65, AddressFamily::IPv6).gen_netmask(&mut buf);
    let mut want = vec![0xff; 8];
    want.push(0x80);
    want.extend(vec![0; 7]);
    want.extend(vec![0xaa, 0xaa]);
    assert_eq!(buf, want);
    let mut buf = vec![0x11; 4];
    Netmask::new(3, AddressFamily::IPv4).gen_netmask(&mut buf);
    assert_eq!(buf, vec![0xe0, 0, 0, 0]);
}

#[test]
fn scheduler_names_and_aliases() {
    assert_eq!(Scheduler::from("fail"), Scheduler::WeightedFailover);
    assert_eq!(Scheduler::from("flow"), Scheduler::WeightedOverflow);
    assert_eq!(Scheduler::MaglevHashing.as_string(), "mh");
    assert!(Scheduler::is_name("lblcr"));
    assert!(!Scheduler::is_name("rrr"));
    assert!(!Scheduler::is_name(""));
}

#[test]
fn service_attribute_values() {
    assert_eq!(value(&SvcCtrlAttrs::AddressFamily(AddressFamily::IPv6)), vec![10, 0]);
    assert_eq!(value(&SvcCtrlAttrs::Protocol(Protocol::SCTP)), vec![0x84, 0]);
    assert_eq!(value(&SvcCtrlAttrs::Port(8080)), vec![0x1f, 0x90]);
    assert_eq!(
        value(&SvcCtrlAttrs::Flags(Flags(0x12345678))),
        vec![0x78, 0x56, 0x34, 0x12, 0xff, 0xff, 0xff, 0xff]
    );
    assert_eq!(value(&SvcCtrlAttrs::Fwmark(1)), vec![1, 0, 0, 0]);
    assert_eq!(value(&SvcCtrlAttrs::Timeout(2)), vec![2, 0, 0, 0]);
    assert_eq!(value(&SvcCtrlAttrs::Scheduler(Scheduler::ShortestExpectedDelay)), b"sed\0".to_vec());
    assert_eq!(
        value(&SvcCtrlAttrs::Netmask(Netmask::new(20, AddressFamily::IPv4))),
        vec![0xff, 0xff, 0xf0, 0]
    );
    let mut short = vec![9u8; 3];
    SvcCtrlAttrs::Scheduler(Scheduler::SourceHashing).emit_value(&mut short);
    assert_eq!(short, b"sh\0".to_vec());
    let mut exact = vec![9u8; 2];
    SvcCtrlAttrs::Scheduler(Scheduler::SourceHashing).emit_value(&mut exact);
    assert_eq!(exact, b"sh".to_vec());
}

#[test]
fn service_attribute_lengths() {
    assert_eq!(SvcCtrlAttrs::Flags(Flags(0)).value_len(), 8);
    assert_eq!(SvcCtrlAttrs::Scheduler(Scheduler::LocalityBasedLeastConnectionWithReplication).value_len(), 6);
    assert_eq!(SvcCtrlAttrs::Netmask(Netmask::new(1, AddressFamily::IPv6)).value_len(), 16);
    assert_eq!(SvcCtrlAttrs::AddrBytes(AddrBytes(vec![1, 2, 3])).buffer_len(), 8);
    assert!(!SvcCtrlAttrs::Stats.is_sendable());
    assert!(!SvcCtrlAttrs::Netmask(Netmask::without_af(8)).is_sendable());
    assert!(!SvcCtrlAttrs::Port(1).emit_value_ok(1));
    assert!(SvcCtrlAttrs::Scheduler(Scheduler::RoundRobin).emit_value_ok(2));
}

#[test]
fn service_attribute_emit_matches_netlink_framing() {
    for a in [
        SvcCtrlAttrs::Port(443),
        SvcCtrlAttrs::Scheduler(Scheduler::NeverQueue),
        SvcCtrlAttrs::AddrBytes(AddrBytes(vec![1, 2, 3, 4, 5])),
    ] {
        let reference = DefaultNla::new(a.kind(), value(&a));
        let mut expected = vec![0u8; reference.buffer_len()];
        reference.emit(&mut expected);
        assert_eq!(emitted(&a), expected);
        let buf = emitted(&a);
        assert_eq!(NlaBuffer::new(&buf[..]).kind(), a.kind());
    }
}

#[test]
fn service_attributes_read_back() {
    let cases = [
        SvcCtrlAttrs::AddressFamily(AddressFamily::IPv6),
        SvcCtrlAttrs::AddrBytes(AddrBytes(vec![10, 0, 0, 1])),
        SvcCtrlAttrs::Port(8080),
        SvcCtrlAttrs::Flags(Flags(0xdead_beef)),
        SvcCtrlAttrs::Scheduler(Scheduler::DestinationHashing),
    ];
    for a in cases.iter() {
        let buf = emitted(a);
        assert!(SvcCtrlAttrs::parse_ok(&buf));
        assert_eq!(SvcCtrlAttrs::parse(&buf).unwrap(), *a);
    }
    let nm = emitted(&SvcCtrlAttrs::Netmask(Netmask::new(17, AddressFamily::IPv4)));
    assert_eq!(
        SvcCtrlAttrs::parse(&nm).unwrap(),
        SvcCtrlAttrs::Netmask(Netmask::without_af(17))
    );
}

#[test]
fn service_fwmark_and_timeout_are_read_big_endian() {
    let buf = emitted(&SvcCtrlAttrs::Fwmark(1));
    assert_eq!(SvcCtrlAttrs::parse(&buf).unwrap(), SvcCtrlAttrs::Fwmark(0x0100_0000));
    assert_eq!(SvcCtrlAttrs::parse_value(8, &[0, 0, 1, 0x2c]).unwrap(), SvcCtrlAttrs::Timeout(300));
}

#[test]
fn service_symmetric_fwmark_and_timeout_read_back() {
    for a in [
        SvcCtrlAttrs::Fwmark(0x0102_0201),
        SvcCtrlAttrs::Timeout(0),
        SvcCtrlAttrs::Timeout(0x0707_0707),
    ] {
        let buf = emitted(&a);
        assert!(SvcCtrlAttrs::parse_ok(&buf));
        assert_eq!(SvcCtrlAttrs::parse(&buf).unwrap(), a);
    }
}

#[test]
fn service_attribute_errors() {
    assert_eq!(SvcCtrlAttrs::parse_value(1, &[2]), Err(IpvsError::InvalidU16));
    assert_eq!(SvcCtrlAttrs::parse_value(1, &[3, 0]), Err(IpvsError::UnknownAddressFamily(3)));
    assert_eq!(SvcCtrlAttrs::parse_value(2, &[6, 0, 0]), Err(IpvsError::InvalidU16));
    assert_eq!(SvcCtrlAttrs::parse_value(6, &[0xff, 0xfe]), Err(IpvsError::InvalidSchedulerName));
    assert_eq!(SvcCtrlAttrs::parse_value(12, &[1, 0]), Err(IpvsError::InvalidNla));
    assert_eq!(SvcCtrlAttrs::parse_value(10, &[]), Ok(SvcCtrlAttrs::Stats));
    assert_eq!(
        SvcCtrlAttrs::parse_value(6, b"rr\0\0"),
        Ok(SvcCtrlAttrs::Scheduler(Scheduler::RoundRobin))
    );
    // inputs on which decoding would panic
    assert!(!SvcCtrlAttrs::value_ok(2, &[7, 0]));
    assert!(!SvcCtrlAttrs::value_ok(6, b"xyz\0"));
    assert!(!SvcCtrlAttrs::value_ok(11, b"sip\0"));
    assert!(!SvcCtrlAttrs::value_ok(9, &[0xff; 17]));
    assert!(!SvcCtrlAttrs::value_ok(4, &[1]));
    assert!(SvcCtrlAttrs::value_ok(6, &[0xff, 0xfe]));
    assert!(!SvcCtrlAttrs::parse_ok(&[8, 0, 4, 0]));
}

#[test]
fn service_from_its_attributes() {
    let s = sample_service();
    let mut nlas = s.create_nlas();
    assert_eq!(nlas.len(), 8);
    assert_eq!(nlas[6], SvcCtrlAttrs::Timeout(300));
    let stats = Stats64 { connections: 5, ..Stats64::default() };
    nlas.push(SvcCtrlAttrs::Stats64(stats.clone()));
    assert!(Service::from_nlas_ok(&nlas));
    let back = Service::from_nlas(&nlas).unwrap();
    assert_eq!(back, ServiceExtended { service: s.clone(), stats64: stats });
    assert_eq!(back.port, Some(80));
}

#[test]
fn service_zero_timeout_and_netmask_family() {
    let mut s = sample_service();
    s.persistence_timeout = None;
    s.netmask = Netmask::without_af(16);
    s.fw_mark = Some(7);
    let mut nlas = s.create_nlas();
    assert!(nlas.contains(&SvcCtrlAttrs::Timeout(0)));
    nlas.push(SvcCtrlAttrs::Stats64(Stats64::default()));
    let back = Service::from_nlas(&nlas).unwrap().service;
    assert_eq!(back.persistence_timeout, None);
    assert_eq!(back.fw_mark, Some(7));
    assert_eq!(back.netmask, Netmask::new(16, AddressFamily::IPv4));
}

#[test]
fn service_missing_attributes() {
    let full = {
        let mut n = sample_service().create_nlas();
        n.push(SvcCtrlAttrs::Stats64(Stats64::default()));
        n
    };
    let without = |pred: &dyn Fn(&SvcCtrlAttrs) -> bool| -> Vec<SvcCtrlAttrs> {
        full.iter().filter(|a| !pred(a)).cloned().collect()
    };
    let cases: Vec<(Vec<SvcCtrlAttrs>, RequiredAttr)> = vec![
        (without(&|a| matches!(a, SvcCtrlAttrs::AddressFamily(_))), RequiredAttr::AddressFamily),
        (without(&|a| matches!(a, SvcCtrlAttrs::AddrBytes(_))), RequiredAttr::Address),
        (without(&|a| matches!(a, SvcCtrlAttrs::Netmask(_))), RequiredAttr::Netmask),
        (without(&|a| matches!(a, SvcCtrlAttrs::Scheduler(_))), RequiredAttr::Scheduler),
        (without(&|a| matches!(a, SvcCtrlAttrs::Flags(_))), RequiredAttr::Flags),
        (without(&|a| matches!(a, SvcCtrlAttrs::Protocol(_))), RequiredAttr::Protocol),
        (without(&|a| matches!(a, SvcCtrlAttrs::Stats64(_))), RequiredAttr::Stats64),
    ];
    for (nlas, missing) in cases {
        assert_eq!(Service::from_nlas(&nlas), Err(IpvsError::Missing(missing)));
    }
    assert!(!Service::from_nlas_ok(&[
        SvcCtrlAttrs::AddressFamily(AddressFamily::IPv6),
        SvcCtrlAttrs::AddrBytes(AddrBytes(vec![1, 2, 3, 4])),
    ]));
}

#[test]
fn service_extended_derefs_to_service() {
    let ext = ServiceExtended { service: sample_service(), stats64: Stats64::default() };
    assert_eq!(ext.protocol, Protocol::TCP);
}

#[test]
fn netmask_bits_are_the_prefix() {
    for ones in [0u8, 1, 7, 8, 9, 31, 32] {
        let mut buf = vec![0x5a; 6];
        Netmask::new(ones, AddressFamily::IPv4).gen_netmask(&mut buf);
        for i in 0..32usize {
            let bit = (buf[i / 8] >> (7 - i % 8)) & 1 == 1;
            assert_eq!(bit, i < ones as usize);
        }
        assert_eq!(&buf[4..], &[0x5a, 0x5a]);
    }
}

#[test]
fn service_last_attribute_wins() {
    let mut nlas = sample_service().create_nlas();
    nlas.push(SvcCtrlAttrs::Stats64(Stats64::default()));
    nlas.push(SvcCtrlAttrs::Timeout(0));
    nlas.push(SvcCtrlAttrs::Scheduler(Scheduler::RoundRobin));
    let s = Service::from_nlas(&nlas).unwrap().service;
    assert_eq!(s.persistence_timeout, None);
    assert_eq!(s.scheduler, Scheduler::RoundRobin);
    assert_eq!(s.port, Some(80));
    assert_eq!(Service::from_nlas(&[]), Err(IpvsError::Missing(RequiredAttr::AddressFamily)));
}
