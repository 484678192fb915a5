use network_interface::{
    build_interfaces, Addr, Error, Platform, RawData, RawRecord,
};

fn link(name: &[u8], bytes: &[u8], addr_len: u8) -> RawRecord {
    RawRecord {
        name: name.to_vec(),
        index: 0,
        data: Some(RawData::Link {
            bytes: bytes.to_vec(),
            addr_len,
        }),
    }
}

fn inet(name: &[u8], index: u32, addr: u32, netmask: Option<u32>, broadcast: Option<u32>) -> RawRecord {
    RawRecord {
        name: name.to_vec(),
        index,
        data: Some(RawData::Inet {
            addr,
            netmask,
            broadcast,
        }),
    }
}

fn inet6(
    name: &[u8],
    index: u32,
    addr: [u8; 16],
    netmask: Option<[u8; 16]>,
    broadcast: Option<[u8; 16]>,
) -> RawRecord {
    RawRecord {
        name: name.to_vec(),
        index,
        data: Some(RawData::Inet6 {
            addr,
            netmask,
            broadcast,
        }),
    }
}

// The loopback scenario: a link record with six zero bytes followed by an
// INET record whose stored words are [127,0,0,1] and [255,0,0,0] as a
// little-endian host reads them.
#[test]
fn loopback_scenario_little_endian() {
    let records = vec![
        link(b"lo0", &[0, 0, 0, 0, 0, 0], 6),
        inet(b"lo0", 1, 0x0100007F, Some(0x000000FF), None),
    ];
    let out = build_interfaces(&records, Platform::Linux, false).unwrap();
    assert_eq!(out.len(), 1);
    let iface = &out[0];
    assert_eq!(iface.name, "lo0");
    assert_eq!(iface.mac_addr, Some(String::from("00:00:00:00:00:00")));
    assert_eq!(iface.index, 1);
    assert_eq!(iface.addr.len(), 1);
    match &iface.addr[0] {
        Addr::V4(a) => {
            assert_eq!(a.ip.octets(), [127, 0, 0, 1]);
            assert_eq!(a.netmask.unwrap().octets(), [255, 0, 0, 0]);
            assert!(a.broadcast.is_none());
        }
        Addr::V6(_) => panic!("an INET record must yield a V4 address"),
    }
}

#[test]
fn same_name_inet_and_inet6_merge_into_one_entry() {
    let records = vec![
        inet(b"eth0", 2, 0x0501A8C0, None, None),
        inet6(b"eth0", 2, [0x20, 0x01, 0, 0, 0, 0, 0, 0, 0, 0, 0, 0, 0, 0, 0, 1], None, None),
    ];
    let out = build_interfaces(&records, Platform::Linux, false).unwrap();
    assert_eq!(out.len(), 1);
    assert_eq!(out[0].addr.len(), 2);
    assert!(matches!(out[0].addr[0], Addr::V4(_)));
    assert!(matches!(out[0].addr[1], Addr::V6(_)));
}

#[test]
fn mac_association_is_order_independent() {
    let l = link(b"en0", &[0x84, 0x62, 0x7a, 0x03, 0xbd, 0x01], 6);
    let a = inet(b"en0", 4, 0x0501A8C0, None, None);

    let out1 = build_interfaces(&vec![l.clone(), a.clone()], Platform::Bsd, false).unwrap();
    let out2 = build_interfaces(&vec![a, l], Platform::Bsd, false).unwrap();

    for out in [&out1, &out2] {
        assert_eq!(out.len(), 1);
        assert_eq!(out[0].name, "en0");
        assert_eq!(out[0].mac_addr, Some(String::from("84:62:7a:03:bd:01")));
        assert_eq!(out[0].addr.len(), 1);
        assert!(matches!(out[0].addr[0], Addr::V4(_)));
    }
}

#[test]
fn null_address_record_contributes_nothing() {
    // Even a record whose name bytes are not text is skipped when its
    // address pointer was null: the name is never resolved.
    let null_rec = RawRecord {
        name: vec![0xFF, 0xFE],
        index: 9,
        data: None,
    };
    let records = vec![
        null_rec.clone(),
        inet(b"eth1", 3, 0x0501A8C0, None, None),
        null_rec,
    ];
    let out = build_interfaces(&records, Platform::Linux, false).unwrap();
    assert_eq!(out.len(), 1);
    assert_eq!(out[0].name, "eth1");

    let only_null = vec![RawRecord {
        name: b"x".to_vec(),
        index: 0,
        data: None,
    }];
    let out = build_interfaces(&only_null, Platform::Linux, false).unwrap();
    assert!(out.is_empty());
}

#[test]
fn unknown_family_record_is_skipped() {
    let records = vec![RawRecord {
        name: b"tun0".to_vec(),
        index: 7,
        data: Some(RawData::Other),
    }];
    let out = build_interfaces(&records, Platform::Linux, false).unwrap();
    assert!(out.is_empty());
}

#[test]
fn invalid_name_aborts_the_pass() {
    let records = vec![
        inet(b"ok0", 1, 0x0100007F, None, None),
        inet(&[0xC0, 0x20], 2, 0x0100007F, None, None),
    ];
    match build_interfaces(&records, Platform::Linux, false) {
        Err(Error::ParseUtf8Error(bad)) => assert_eq!(bad, vec![0xC0, 0x20]),
        _ => panic!("an invalid interface name must abort the whole pass"),
    }
}

#[test]
fn empty_record_stream_yields_empty_list() {
    let out = build_interfaces(&vec![], Platform::Linux, false).unwrap();
    assert!(out.is_empty());
}

#[test]
fn repeated_names_append_addresses_in_record_order_and_keep_first_index() {
    let records = vec![
        inet(b"eth0", 5, 0x0101A8C0, None, None),
        inet(b"eth0", 6, 0x0201A8C0, None, None),
        inet(b"eth0", 7, 0x0301A8C0, None, None),
    ];
    let out = build_interfaces(&records, Platform::Linux, false).unwrap();
    assert_eq!(out.len(), 1);
    assert_eq!(out[0].index, 5);
    assert_eq!(out[0].addr.len(), 3);
    let last_octets: Vec<u8> = out[0]
        .addr
        .iter()
        .map(|a| match a {
            Addr::V4(v) => v.ip.octets()[3],
            Addr::V6(_) => panic!("only V4 records were given"),
        })
        .collect();
    assert_eq!(last_octets, vec![1, 2, 3]);
}

#[test]
fn link_record_takes_at_most_six_bytes() {
    let records = vec![
        link(b"eth0", &[1, 2, 3, 4, 5, 6, 7, 8], 8),
        inet(b"eth0", 1, 0x0100007F, None, None),
    ];
    let out = build_interfaces(&records, Platform::Linux, false).unwrap();
    assert_eq!(out[0].mac_addr, Some(String::from("01:02:03:04:05:06")));
}

#[test]
fn link_record_with_zero_length_gives_empty_mac_text() {
    let records = vec![
        link(b"dummy0", &[1, 2, 3, 4, 5, 6], 0),
        inet(b"dummy0", 1, 0x0100007F, None, None),
    ];
    let out = build_interfaces(&records, Platform::Linux, false).unwrap();
    assert_eq!(out[0].mac_addr, Some(String::new()));
}

#[test]
fn later_link_record_wins() {
    let records = vec![
        link(b"eth0", &[1, 1, 1, 1, 1, 1], 6),
        link(b"eth0", &[2, 2, 2, 2, 2, 2], 6),
        inet(b"eth0", 1, 0x0100007F, None, None),
    ];
    let out = build_interfaces(&records, Platform::Linux, false).unwrap();
    assert_eq!(out[0].mac_addr, Some(String::from("02:02:02:02:02:02")));
}

#[test]
fn link_only_name_yields_no_entry() {
    let records = vec![
        link(b"ghost0", &[1, 2, 3, 4, 5, 6], 6),
        inet(b"real0", 1, 0x0100007F, None, None),
    ];
    let out = build_interfaces(&records, Platform::Linux, false).unwrap();
    assert_eq!(out.len(), 1);
    assert_eq!(out[0].name, "real0");
}

#[test]
fn bsd_policy_suppresses_link_local_v6_netmask() {
    let mut mask = [0xffu8; 16];
    mask[0] = 0xfe;
    mask[1] = 0x80;
    let addr6 = [0xfe, 0x80, 0, 0, 0, 0, 0, 0, 0, 0, 0, 0, 0, 0, 0, 1];
    let records = vec![inet6(b"en0", 4, addr6, Some(mask), None)];

    let bsd = build_interfaces(&records, Platform::Bsd, false).unwrap();
    match &bsd[0].addr[0] {
        Addr::V6(a) => assert!(a.netmask.is_none()),
        Addr::V4(_) => panic!("an INET6 record must yield a V6 address"),
    }

    let linux = build_interfaces(&records, Platform::Linux, false).unwrap();
    match &linux[0].addr[0] {
        Addr::V6(a) => assert_eq!(a.netmask.unwrap().octets(), mask),
        Addr::V4(_) => panic!("an INET6 record must yield a V6 address"),
    }
}

#[test]
fn both_byte_orders_give_the_same_loopback() {
    let le = vec![inet(b"lo0", 1, 0x0100007F, None, None)];
    let be = vec![inet(b"lo0", 1, 0x7F000001, None, None)];
    let out_le = build_interfaces(&le, Platform::Linux, false).unwrap();
    let out_be = build_interfaces(&be, Platform::Linux, true).unwrap();
    match (&out_le[0].addr[0], &out_be[0].addr[0]) {
        (Addr::V4(a), Addr::V4(b)) => {
            assert_eq!(a.ip.octets(), [127, 0, 0, 1]);
            assert_eq!(a.ip.octets(), b.ip.octets());
        }
        _ => panic!("both records are INET records"),
    }
}

#[test]
fn broadcast_word_is_converted_when_present() {
    let records = vec![inet(
        b"eth0",
        1,
        0x0501A8C0,
        Some(0x00FFFFFF),
        Some(0xFF01A8C0),
    )];
    let out = build_interfaces(&records, Platform::Linux, false).unwrap();
    match &out[0].addr[0] {
        Addr::V4(a) => {
            assert_eq!(a.ip.octets(), [192, 168, 1, 5]);
            assert_eq!(a.netmask.unwrap().octets(), [255, 255, 255, 0]);
            assert_eq!(a.broadcast.unwrap().octets(), [192, 168, 1, 255]);
        }
        Addr::V6(_) => panic!("an INET record must yield a V4 address"),
    }
}
