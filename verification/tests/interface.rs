use network_interface::{
    Address, Addr, Error, IpAddr, Ipv4Addr, Ipv6Addr, MacAddress, NetworkInterface, V4IfAddr,
};

#[test]
fn new_afinet_builds_one_v4_entry() {
    let ip = Ipv4Addr::new(10, 0, 0, 7);
    let mask = Some(Ipv4Addr::new(255, 0, 0, 0));
    let bc = Some(Ipv4Addr::new(10, 255, 255, 255));
    let iface = NetworkInterface::new_afinet("wg0", ip, mask, bc, 11);
    assert_eq!(iface.name, "wg0");
    assert_eq!(iface.index, 11);
    assert!(iface.mac_addr.is_none());
    assert_eq!(iface.addr.len(), 1);
    match &iface.addr[0] {
        Addr::V4(a) => {
            assert_eq!(a.ip, ip);
            assert_eq!(a.netmask, mask);
            assert_eq!(a.broadcast, bc);
        }
        Addr::V6(_) => panic!("new_afinet builds a V4 entry"),
    }
}

#[test]
fn new_afinet6_builds_one_v6_entry() {
    let ip = Ipv6Addr::from_octets([0xfe, 0x80, 0, 0, 0, 0, 0, 0, 0, 0, 0, 0, 0, 0, 0, 9]);
    let iface = NetworkInterface::new_afinet6("en1", ip, None, None, 3);
    assert_eq!(iface.name, "en1");
    assert_eq!(iface.addr.len(), 1);
    match &iface.addr[0] {
        Addr::V6(a) => {
            assert_eq!(a.ip, ip);
            assert!(a.netmask.is_none());
            assert!(a.broadcast.is_none());
        }
        Addr::V4(_) => panic!("new_afinet6 builds a V6 entry"),
    }
}

#[test]
fn with_mac_addr_replaces_only_the_mac() {
    let iface = NetworkInterface::new_afinet("eth0", Ipv4Addr::new(127, 0, 0, 1), None, None, 1);
    let iface = iface.with_mac_addr(Some(String::from("00:11:22:33:44:55")));
    assert_eq!(iface.name, "eth0");
    assert_eq!(iface.index, 1);
    assert_eq!(iface.addr.len(), 1);
    assert_eq!(iface.mac_addr, Some(String::from("00:11:22:33:44:55")));
    let cleared = iface.with_mac_addr(None);
    assert!(cleared.mac_addr.is_none());
}

#[test]
fn addr_getters_project_the_fields() {
    let ip = Ipv4Addr::new(192, 168, 0, 1);
    let mask = Ipv4Addr::new(255, 255, 255, 0);
    let bc = Ipv4Addr::new(192, 168, 0, 255);
    let a = Addr::V4(V4IfAddr {
        ip,
        broadcast: Some(bc),
        netmask: Some(mask),
    });
    assert_eq!(a.ip(), IpAddr::V4(ip));
    assert_eq!(a.broadcast(), Some(IpAddr::V4(bc)));
    assert_eq!(a.netmask(), Some(IpAddr::V4(mask)));
}

#[test]
fn mac_address_constructors_carry_the_bytes() {
    let six = MacAddress::new_v6(1, 2, 3, 4, 5, 6);
    match six.0 {
        Address::V6(bytes) => assert_eq!(*bytes, [1, 2, 3, 4, 5, 6]),
        Address::V8(_) => panic!("new_v6 builds a six-byte address"),
    }
    let eight = MacAddress::new_v8(1, 2, 3, 4, 5, 6, 7, 8);
    match eight.0 {
        Address::V8(bytes) => assert_eq!(*bytes, [1, 2, 3, 4, 5, 6, 7, 8]),
        Address::V6(_) => panic!("new_v8 builds an eight-byte address"),
    }
    let wrapped = MacAddress::new(Address::V6(Box::new([9, 9, 9, 9, 9, 9])));
    match wrapped.0 {
        Address::V6(bytes) => assert_eq!(*bytes, [9, 9, 9, 9, 9, 9]),
        Address::V8(_) => panic!("new wraps the given address"),
    }
}

#[test]
fn error_variants_carry_their_payloads() {
    let e = Error::GetIfAddrsError(String::from("getifaddrs"), -1);
    assert!(matches!(e, Error::GetIfAddrsError(ref call, -1) if call == "getifaddrs"));
    let e = Error::GetIfNameError(String::from("ConvertInterfaceLuidToIndex"), 87);
    assert!(matches!(e, Error::GetIfNameError(_, 87)));
}
