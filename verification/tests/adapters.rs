use network_interface::{
    build_adapter_interfaces, AdapterRecord, Addr, Error, UnicastRecord,
};

fn units(s: &str) -> Vec<u16> {
    s.encode_utf16().collect()
}

// One adapter carrying a 192.168.1.5/24 unicast address whose prefix list
// holds the host / subnet / subnet-broadcast triple, plus an IPv6 address.
#[test]
fn adapter_with_nested_addresses() {
    let adapters = vec![AdapterRecord {
        name_units: units("Ethernet"),
        index: Ok(12),
        physical: vec![0x00, 0x22, 0x48, 0x03, 0xED, 0x76, 0, 0],
        physical_len: 6,
        unicast: vec![
            UnicastRecord::V4 {
                addr: 0x0501A8C0,
                prefix_len: 24,
            },
            UnicastRecord::V6 {
                addr: [0x20, 0x01, 0, 0, 0, 0, 0, 0, 0, 0, 0, 0, 0, 0, 0, 1],
            },
        ],
        prefixes: vec![
            Some(0x0501A8C0),
            Some(0x0001A8C0),
            Some(0xFF01A8C0),
            None,
        ],
    }];
    let out = build_adapter_interfaces(&adapters, false).unwrap();
    assert_eq!(out.len(), 1);
    let iface = &out[0];
    assert_eq!(iface.name, "Ethernet");
    assert_eq!(iface.index, 12);
    assert_eq!(iface.mac_addr, Some(String::from("00:22:48:03:ED:76")));
    assert_eq!(iface.addr.len(), 2);
    match &iface.addr[0] {
        Addr::V4(a) => {
            assert_eq!(a.ip.octets(), [192, 168, 1, 5]);
            assert_eq!(a.netmask.unwrap().octets(), [255, 255, 255, 0]);
            assert_eq!(a.broadcast.unwrap().octets(), [192, 168, 1, 255]);
        }
        Addr::V6(_) => panic!("the first unicast record is an INET record"),
    }
    match &iface.addr[1] {
        Addr::V6(a) => {
            assert!(a.netmask.is_none());
            assert!(a.broadcast.is_none());
        }
        Addr::V4(_) => panic!("the second unicast record is an INET6 record"),
    }
}

#[test]
fn adapter_without_physical_address_has_no_mac() {
    let adapters = vec![AdapterRecord {
        name_units: units("Loopback"),
        index: Ok(1),
        physical: vec![0; 8],
        physical_len: 0,
        unicast: vec![UnicastRecord::V4 {
            addr: 0x0100007F,
            prefix_len: 8,
        }],
        prefixes: vec![],
    }];
    let out = build_adapter_interfaces(&adapters, false).unwrap();
    assert!(out[0].mac_addr.is_none());
    match &out[0].addr[0] {
        Addr::V4(a) => {
            assert_eq!(a.ip.octets(), [127, 0, 0, 1]);
            assert_eq!(a.netmask.unwrap().octets(), [255, 0, 0, 0]);
            // no prefix triple, so no broadcast
            assert!(a.broadcast.is_none());
        }
        Addr::V6(_) => panic!("the unicast record is an INET record"),
    }
}

#[test]
fn adapters_do_not_merge_and_keep_list_order() {
    let mk = |name: &str, index: u32| AdapterRecord {
        name_units: units(name),
        index: Ok(index),
        physical: vec![],
        physical_len: 0,
        unicast: vec![],
        prefixes: vec![],
    };
    let adapters = vec![mk("A", 1), mk("B", 2)];
    let out = build_adapter_interfaces(&adapters, false).unwrap();
    assert_eq!(out.len(), 2);
    assert_eq!(out[0].name, "A");
    assert_eq!(out[1].name, "B");
    assert!(out[0].addr.is_empty());
}

#[test]
fn failed_index_conversion_aborts_the_pass() {
    let adapters = vec![AdapterRecord {
        name_units: units("Ethernet"),
        index: Err(87),
        physical: vec![],
        physical_len: 0,
        unicast: vec![],
        prefixes: vec![],
    }];
    match build_adapter_interfaces(&adapters, false) {
        Err(Error::GetIfNameError(call, 87)) => {
            assert_eq!(call, "ConvertInterfaceLuidToIndex")
        }
        _ => panic!("a failed index conversion is fatal"),
    }
}

#[test]
fn ill_formed_adapter_name_aborts_the_pass() {
    let adapters = vec![AdapterRecord {
        name_units: vec![0xD800],
        index: Ok(3),
        physical: vec![],
        physical_len: 0,
        unicast: vec![],
        prefixes: vec![],
    }];
    match build_adapter_interfaces(&adapters, false) {
        Err(Error::ParseUtf16Error(bad)) => assert_eq!(bad, vec![0xD800]),
        _ => panic!("an ill-formed adapter name is fatal"),
    }
}

#[test]
fn unknown_family_unicast_record_is_skipped() {
    let adapters = vec![AdapterRecord {
        name_units: units("X"),
        index: Ok(5),
        physical: vec![],
        physical_len: 0,
        unicast: vec![
            UnicastRecord::Other,
            UnicastRecord::V4 {
                addr: 0x0100007F,
                prefix_len: 8,
            },
        ],
        prefixes: vec![],
    }];
    let out = build_adapter_interfaces(&adapters, false).unwrap();
    assert_eq!(out[0].addr.len(), 1);
}
