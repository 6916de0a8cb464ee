use gezellij::ipv6::{Ipv6Addr, SocketAddrV6};

fn shown(s: &str) -> String {
    Ipv6Addr::parse(s).unwrap().to_string()
}

#[test]
fn addresses_are_shown_in_their_shortest_form() {
    for s in [
        "::",
        "::1",
        "fd00::",
        "1:2:3:4:5:6:7:8",
        "1::4:5:6:7:8",
        "1:0:3:0:5:0:7:0",
        "::ffff:1.2.3.4",
        "::fffe:102:304",
        "fe80::abcd:0:0:1",
        "0:1::",
        "2001:db8::1:0:0:1",
        "1:0:0:4::8",
        "1:2:3:4:5:6:0:8",
    ] {
        assert_eq!(shown(s), s);
    }
    assert_eq!(shown("0:0:0:0:0:0:0:0"), "::");
    assert_eq!(shown("2001:DB8:0:0:1:0:0:1"), "2001:db8::1:0:0:1");
    assert_eq!(shown("1:0:0:4:0:0:0:8"), "1:0:0:4::8");
    assert_eq!(shown("1:2:3:4:5:6:7::"), "1:2:3:4:5:6:7:0");
    assert_eq!(shown("::ffff:102:304"), "::ffff:1.2.3.4");
    assert_eq!(shown("::1.2.3.4"), "::102:304");
    assert_eq!(shown("64:ff9b::192.0.2.33"), "64:ff9b::c000:221");
    assert_eq!(shown("::FFFF:10.20.30.40"), "::ffff:10.20.30.40");
}

#[test]
fn groups_are_read_in_network_order() {
    let address = Ipv6Addr::parse("fd49:2e1c:b7a::a:1.2.3.4").unwrap();
    assert_eq!(
        address.octets(),
        [0xfd, 0x49, 0x2e, 0x1c, 0x0b, 0x7a, 0, 0, 0, 0, 0, 0x0a, 1, 2, 3, 4]
    );
    assert_eq!(
        address.segments(),
        [0xfd49, 0x2e1c, 0x0b7a, 0, 0, 0x0a, 0x0102, 0x0304]
    );
    assert_eq!(Ipv6Addr::from_octets(address.octets()), address);
    let socket = SocketAddrV6::new(address, 443);
    assert_eq!(*socket.ip(), address);
    assert_eq!(socket.port(), 443);
}

#[test]
fn only_addresses_are_read() {
    for s in [
        "", ":", ":::", "1", "1:2:3:4:5:6:7", "1:2:3:4:5:6:7:8:9", "1::2::3", "12345::", "g::",
        "::1.2.3", "::1.2.3.256", "::01.2.3.4", "1.2.3.4", "1.2.3.4::", "::1.2.3.4:5",
        "1:2:3:4:5:6:7::8", "1:2:3:4:5:6:7:1.2.3.4", "::1:2:3:4:5:6:1.2.3.4", " ::1", "::1 ",
        "+1::", "::+1", "::1.2.3.+4", "::1.2..4", "1:2:3:4:5:6:7:8::", "::1:2:3:4:5:6:7:8",
        "::1.2.3.00", "[::1]", "::1%eth0", "::1/64", "fd00:",
    ] {
        assert_eq!(Ipv6Addr::parse(s), None, "{}", s);
    }
    for s in [
        "::2:3:4:5:6:7:8", "1:2:3:4:5:6:1.2.3.4", "1:2:3:4:5::1.2.3.4", "::ffff:0.0.0.0",
        "0000:0000::", "::255.255.255.255",
    ] {
        assert!(Ipv6Addr::parse(s).is_some(), "{}", s);
    }
}

#[test]
fn every_pattern_of_zero_groups_reads_back() {
    for mask in 0u32..256 {
        let mut octets = [0u8; 16];
        for i in 0..8 {
            if mask & (1 << i) != 0 {
                octets[2 * i + 1] = i as u8 + 1;
            }
        }
        let address = Ipv6Addr::from_octets(octets);
        assert_eq!(Ipv6Addr::parse(&address.to_string()), Some(address));
    }
}
