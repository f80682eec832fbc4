use netlink_packet_ipvs::ctrl::nlas::destination::{DestinationCtrlAttrs, ForwardType};
use netlink_packet_ipvs::ctrl::nlas::service::{Netmask, Protocol, Scheduler, SvcCtrlAttrs};
use netlink_packet_ipvs::ctrl::nlas::{AddrBytes, AddressFamily, IpvsCtrlAttrs};
use netlink_packet_ipvs::error::IpvsError;
use netlink_packet_utils::nla::NlaBuffer;

fn emitted(a: &IpvsCtrlAttrs) -> Vec<u8> {
    let mut buffer = vec![0u8; a.buffer_len()];
    a.emit(&mut buffer);
    buffer
}

#[test]
fn service_message_reads_back() {
    let svc = IpvsCtrlAttrs::Service(vec![
        SvcCtrlAttrs::AddressFamily(AddressFamily::IPv4),
        SvcCtrlAttrs::Protocol(Protocol::UDP),
        SvcCtrlAttrs::AddrBytes(AddrBytes(vec![192, 168, 1, 100])),
        SvcCtrlAttrs::Scheduler(Scheduler::RoundRobin),
        SvcCtrlAttrs::Netmask(Netmask::new(32, AddressFamily::IPv4)),
    ]);
    assert!(svc.is_nested());
    assert!(svc.is_sendable());
    let buf = emitted(&svc);
    assert_eq!(buf.len(), 4 + 8 + 8 + 8 + 8 + 8);
    let nla = NlaBuffer::new(&buf[..]);
    assert!(nla.nested_flag());
    assert_eq!(nla.kind(), 1);
    assert!(IpvsCtrlAttrs::parse_ok(&buf));
    let back = IpvsCtrlAttrs::parse(&buf).unwrap();
    assert_eq!(
        back,
        IpvsCtrlAttrs::Service(vec![
            SvcCtrlAttrs::AddressFamily(AddressFamily::IPv4),
            SvcCtrlAttrs::Protocol(Protocol::UDP),
            SvcCtrlAttrs::AddrBytes(AddrBytes(vec![192, 168, 1, 100])),
            SvcCtrlAttrs::Scheduler(Scheduler::RoundRobin),
            SvcCtrlAttrs::Netmask(Netmask::without_af(32)),
        ])
    );
}

#[test]
fn destination_message_reads_back() {
    let dest = IpvsCtrlAttrs::Destination(vec![
        DestinationCtrlAttrs::AddrFamily(AddressFamily::IPv4),
        DestinationCtrlAttrs::Addr(AddrBytes(vec![10, 0, 0, 1, 0, 0, 0, 0, 0, 0, 0, 0, 0, 0, 0, 0])),
        DestinationCtrlAttrs::FwdMethod(ForwardType::Masquerade),
        DestinationCtrlAttrs::Weight(100),
    ]);
    assert_eq!(dest.value_len(), 8 + 20 + 8 + 8);
    let buf = emitted(&dest);
    assert_eq!(IpvsCtrlAttrs::parse(&buf).unwrap(), dest);
}

#[test]
fn message_errors() {
    assert!(!IpvsCtrlAttrs::Service(vec![SvcCtrlAttrs::Stats]).is_sendable());
    assert!(!IpvsCtrlAttrs::value_ok(3, &[]));
    assert!(IpvsCtrlAttrs::value_ok(2, &[]));
    assert_eq!(IpvsCtrlAttrs::parse_value(2, &[]), Ok(IpvsCtrlAttrs::Destination(vec![])));
    assert_eq!(IpvsCtrlAttrs::parse_value(1, &[1, 2, 3]), Err(IpvsError::InvalidNla));
    let unknown_dest = [8, 0, 99, 0, 0, 0, 0, 0];
    assert_eq!(
        IpvsCtrlAttrs::parse_value(2, &unknown_dest),
        Err(IpvsError::UnknownDestinationKind(99))
    );
}

#[test]
fn ipvs_value_len_of_lists_that_cannot_all_be_written() {
    let dests = IpvsCtrlAttrs::Destination(vec![
        DestinationCtrlAttrs::Stats,
        DestinationCtrlAttrs::Port(1),
    ]);
    assert!(dests.value_len_ok());
    assert!(!dests.is_sendable());
    assert_eq!(dests.value_len(), 12);
    assert_eq!(dests.buffer_len(), 16);
    let svcs = IpvsCtrlAttrs::Service(vec![SvcCtrlAttrs::Stats]);
    assert!(!svcs.value_len_ok());
}
