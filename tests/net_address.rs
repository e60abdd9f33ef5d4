use rusty_chain::net_address::{parse_net_address, NetAddress};

fn v4(s: &str) -> Option<(Vec<u8>, u16)> {
    match parse_net_address(s) {
        Some(NetAddress::V4 { octets, port }) => Some((octets, port)),
        _ => None,
    }
}

fn v6(s: &str) -> Option<(Vec<u16>, u16)> {
    match parse_net_address(s) {
        Some(NetAddress::V6 { segments, port }) => Some((segments, port)),
        _ => None,
    }
}

#[test]
fn parses_ipv4_peer() {
    assert_eq!(v4("127.0.0.1:55845"), Some((vec![127, 0, 0, 1], 55845)));
}

#[test]
fn parses_ipv6_peers() {
    assert_eq!(v6("0:0:0:0:0:0:0:1:55845"), Some((vec![0, 0, 0, 0, 0, 0, 0, 1], 55845)));
    assert_eq!(
        v6("2001:0db8:85a3:0000:0000:8a2e:0370:7334:55845"),
        Some((vec![0x2001, 0x0db8, 0x85a3, 0, 0, 0x8a2e, 0x0370, 0x7334], 55845))
    );
    assert_eq!(v6("ABCD:0:0:0:0:0:0:1:+80"), Some((vec![0xabcd, 0, 0, 0, 0, 0, 0, 1], 80)));
}

#[test]
fn rejects_out_of_range_numbers() {
    assert!(parse_net_address("256.0.0.1:80").is_none());
    assert!(parse_net_address("1.2.3.4:65536").is_none());
    assert!(parse_net_address("10000:0:0:0:0:0:0:1:80").is_none());
}

#[test]
fn rejects_malformed_addresses() {
    assert!(parse_net_address("1.2.3:80").is_none());
    assert!(parse_net_address("1.2.x.4:80").is_none());
    assert!(parse_net_address("1.2.3.4:").is_none());
    assert!(parse_net_address("").is_none());
    assert!(parse_net_address("0:0:0:0:0:0:0:1").is_none());
    assert!(parse_net_address("1.2.3.4:-1").is_none());
}

#[test]
fn extra_octets_must_parse_but_are_ignored() {
    assert_eq!(v4("1.2.3.4.5:7"), Some((vec![1, 2, 3, 4], 7)));
    assert!(parse_net_address("1.2.3.4.x:7").is_none());
}
