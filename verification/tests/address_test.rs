use netlink_packet_ipvs::ctrl::nlas::{AddrBytes, AddressFamily, IpAddr};
use netlink_packet_ipvs::error::IpvsError;

#[test]
fn address_family_codes() {
    assert_eq!(AddressFamily::try_from_u16(2), Ok(AddressFamily::IPv4));
    assert_eq!(AddressFamily::try_from_u16(10), Ok(AddressFamily::IPv6));
    assert_eq!(
        AddressFamily::try_from_u16(3),
        Err(IpvsError::UnknownAddressFamily(3))
    );
    assert_eq!(AddressFamily::IPv4.code(), 2);
    assert_eq!(AddressFamily::IPv6.code(), 10);
}

#[test]
fn address_bytes_to_ip() {
    let v4 = AddrBytes(vec![10, 0, 0, 1, 9, 9, 9, 9, 9, 9, 9, 9, 9, 9, 9, 9]);
    assert_eq!(v4.as_ipaddr(AddressFamily::IPv4), IpAddr::V4([10, 0, 0, 1]));
    let b: Vec<u8> = (1..=16).collect();
    let v6 = AddrBytes(b.clone());
    let mut arr = [0u8; 16];
    arr.copy_from_slice(&b);
    assert_eq!(v6.as_ipaddr(AddressFamily::IPv6), IpAddr::V6(arr));
}

#[test]
fn ip_to_address_bytes_pads_ipv4() {
    let a = AddrBytes::from_ipaddr(&IpAddr::V4([192, 168, 1, 100]));
    assert_eq!(a.0, vec![192, 168, 1, 100, 0, 0, 0, 0, 0, 0, 0, 0, 0, 0, 0, 0]);
    let v6 = [7u8; 16];
    assert_eq!(AddrBytes::from_ipaddr(&IpAddr::V6(v6)).0, v6.to_vec());
}
