use network_interface::{
    adapters_retry_decision, hex_colon_text, ipv4_from_raw, ipv6_from_raw, length_to_ipv4_mask,
    lookup_ipv4_broadcast_addr, make_adapter_address_name, make_ipv4_netmask, make_ipv6_netmask,
    make_mac_address, make_netifa_name, AdaptersCallStatus, Error, RawRecord, RetryDecision,
};

// The raw word 0x0100007F is how a little-endian host reads the stored
// big-endian bytes [127, 0, 0, 1]; a big-endian host reads the same bytes
// as 0x7F000001.  Both interpretations must give 127.0.0.1.
#[test]
fn ipv4_conversion_fixed_bytes_little_endian_reading() {
    let addr = ipv4_from_raw(0x0100007F, false);
    assert_eq!(addr.octets(), [127, 0, 0, 1]);
}

#[test]
fn ipv4_conversion_fixed_bytes_big_endian_reading() {
    let addr = ipv4_from_raw(0x7F000001, true);
    assert_eq!(addr.octets(), [127, 0, 0, 1]);
}

#[test]
fn ipv4_conversion_is_deterministic() {
    let a = ipv4_from_raw(0xC0A80105, false);
    let b = ipv4_from_raw(0xC0A80105, false);
    assert_eq!(a.octets(), b.octets());
    let c = ipv4_from_raw(0xC0A80105, true);
    let d = ipv4_from_raw(0xC0A80105, true);
    assert_eq!(c.octets(), d.octets());
    assert_eq!(c.octets(), [0xC0, 0xA8, 0x01, 0x05]);
}

#[test]
fn ipv6_conversion_keeps_octets() {
    let octets = [
        0x20, 0x01, 0x0d, 0xb8, 0, 0, 0, 0, 0, 0, 0, 0, 0, 0, 0, 0x42,
    ];
    let addr = ipv6_from_raw(octets);
    assert_eq!(addr.octets(), octets);
    let again = ipv6_from_raw(octets);
    assert_eq!(again.octets(), addr.octets());
}

#[test]
fn ipv4_netmask_absent_when_pointer_was_null() {
    assert!(make_ipv4_netmask(None, false).is_none());
}

#[test]
fn ipv4_netmask_converted_like_an_address() {
    // Stored bytes [255, 0, 0, 0] read by a little-endian host.
    let mask = make_ipv4_netmask(Some(0x000000FF), false).unwrap();
    assert_eq!(mask.octets(), [255, 0, 0, 0]);
}

#[test]
fn ipv6_netmask_link_local_suppressed_only_under_bsd_policy() {
    let mut mask = [0xffu8; 16];
    mask[0] = 0xfe;
    mask[1] = 0x80;
    assert!(make_ipv6_netmask(Some(mask), true).is_none());
    let kept = make_ipv6_netmask(Some(mask), false).unwrap();
    assert_eq!(kept.octets(), mask);
    assert!(make_ipv6_netmask(None, true).is_none());
    let ordinary = [0xffu8; 16];
    assert!(make_ipv6_netmask(Some(ordinary), true).is_some());
}

// Subnet arithmetic on a converted triple: (ip & mask) == (bc & mask) and
// (bc | mask) == 255 for each octet.
#[test]
fn ipv4_subnet_arithmetic_survives_conversion() {
    // 192.168.1.5 / 255.255.255.0 / 192.168.1.255 as a little-endian host
    // reads the stored words.
    let ip = ipv4_from_raw(0x0501A8C0, false);
    let mask = ipv4_from_raw(0x00FFFFFF, false);
    let bc = ipv4_from_raw(0xFF01A8C0, false);
    assert_eq!(ip.octets(), [192, 168, 1, 5]);
    assert_eq!(mask.octets(), [255, 255, 255, 0]);
    assert_eq!(bc.octets(), [192, 168, 1, 255]);
    for i in 0..4 {
        assert_eq!(
            ip.octets()[i] & mask.octets()[i],
            bc.octets()[i] & mask.octets()[i]
        );
        assert_eq!(bc.octets()[i] | mask.octets()[i], 255);
    }
}

#[test]
fn prefix_length_to_mask_exact_values() {
    assert_eq!(length_to_ipv4_mask(0).unwrap().octets(), [0, 0, 0, 0]);
    assert_eq!(length_to_ipv4_mask(1).unwrap().octets(), [128, 0, 0, 0]);
    assert_eq!(length_to_ipv4_mask(8).unwrap().octets(), [255, 0, 0, 0]);
    assert_eq!(
        length_to_ipv4_mask(19).unwrap().octets(),
        [255, 255, 224, 0]
    );
    assert_eq!(
        length_to_ipv4_mask(24).unwrap().octets(),
        [255, 255, 255, 0]
    );
    assert_eq!(
        length_to_ipv4_mask(32).unwrap().octets(),
        [255, 255, 255, 255]
    );
    assert!(length_to_ipv4_mask(33).is_none());
}

#[test]
fn hex_text_lowercase_and_uppercase() {
    let bytes = vec![0x84u8, 0x62, 0x7a, 0x03, 0xbd, 0x01];
    assert_eq!(hex_colon_text(&bytes, false), "84:62:7a:03:bd:01");
    assert_eq!(hex_colon_text(&bytes, true), "84:62:7A:03:BD:01");
    assert_eq!(hex_colon_text(&[], false), "");
    assert_eq!(hex_colon_text(&[0u8], true), "00");
}

#[test]
fn broadcast_search_finds_entry_two_later() {
    // host / subnet / subnet-broadcast triple with a non-IPv4 entry mixed in.
    let prefixes = vec![
        Some(0x0101A8C0u32),
        None,
        Some(0x0001A8C0),
        Some(0xFF01A8C0),
    ];
    assert_eq!(
        lookup_ipv4_broadcast_addr(&prefixes, 0x0101A8C0),
        Some(0xFF01A8C0)
    );
}

#[test]
fn broadcast_search_absent_without_match_or_when_truncated() {
    let prefixes = vec![Some(0x0101A8C0u32), Some(0x0001A8C0)];
    assert_eq!(lookup_ipv4_broadcast_addr(&prefixes, 0x05050505), None);
    assert_eq!(lookup_ipv4_broadcast_addr(&prefixes, 0x0101A8C0), None);
    assert_eq!(lookup_ipv4_broadcast_addr(&vec![], 0x0101A8C0), None);
}

#[test]
fn adapter_mac_text_absent_only_for_zero_length() {
    let bytes = vec![0x00u8, 0x22, 0x48, 0x03, 0xED, 0x76, 0, 0];
    assert_eq!(make_mac_address(&bytes, 0), None);
    assert_eq!(
        make_mac_address(&bytes, 6),
        Some(String::from("00:22:48:03:ED:76"))
    );
    // A reported length beyond the buffer is capped at the buffer.
    assert_eq!(
        make_mac_address(&vec![0xABu8, 0xCD], 6),
        Some(String::from("AB:CD"))
    );
}

#[test]
fn adapter_name_decodes_utf16() {
    let units: Vec<u16> = "Supercool".encode_utf16().collect();
    assert_eq!(make_adapter_address_name(&units).unwrap(), "Supercool");
}

#[test]
fn adapter_name_rejects_lone_surrogate() {
    let units: Vec<u16> = vec![0xD800];
    match make_adapter_address_name(&units) {
        Err(Error::ParseUtf16Error(bad)) => assert_eq!(bad, units),
        _ => panic!("a lone surrogate must be rejected"),
    }
}

#[test]
fn buffer_retry_decisions() {
    assert!(matches!(
        adapters_retry_decision(AdaptersCallStatus::Success, 1, 10),
        RetryDecision::Done
    ));
    assert!(matches!(
        adapters_retry_decision(
            AdaptersCallStatus::BufferTooSmall {
                required: 30000,
                code: 111
            },
            1,
            10
        ),
        RetryDecision::RetryWith(30000)
    ));
    assert!(matches!(
        adapters_retry_decision(
            AdaptersCallStatus::BufferTooSmall {
                required: 30000,
                code: 111
            },
            10,
            10
        ),
        RetryDecision::Fail(Error::GetIfAddrsError(ref call, 111)) if call == "GetAdaptersAddresses"
    ));
    assert!(matches!(
        adapters_retry_decision(AdaptersCallStatus::OtherFailure(87), 1, 10),
        RetryDecision::Fail(Error::GetIfAddrsError(_, 87))
    ));
}

#[test]
fn record_name_decodes_utf8() {
    let record = RawRecord {
        name: b"eth0".to_vec(),
        index: 2,
        data: None,
    };
    assert_eq!(make_netifa_name(&record).unwrap(), "eth0");
}

#[test]
fn record_name_rejects_invalid_utf8() {
    let record = RawRecord {
        name: vec![0xFF, 0xFE],
        index: 2,
        data: None,
    };
    match make_netifa_name(&record) {
        Err(Error::ParseUtf8Error(bad)) => assert_eq!(bad, vec![0xFF, 0xFE]),
        _ => panic!("invalid name bytes must be rejected"),
    }
}
