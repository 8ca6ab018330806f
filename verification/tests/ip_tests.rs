use ids_rs::ip::{parse_ipv4, parse_ipv6, AddrParseError, IpAddress};

fn chars(s: &str) -> Vec<char> {
    s.chars().collect()
}

fn v6(groups: [u16; 8]) -> IpAddress {
    let mut bits: u128 = 0;
    for group in groups {
        bits = (bits << 16) | group as u128;
    }
    IpAddress::V6(bits)
}

#[test]
fn ipv4_text_is_read() {
    assert_eq!(IpAddress::parse("192.168.11.7"), Some(IpAddress::V4(0xc0a8_0b07)));
    assert_eq!(IpAddress::parse("0.0.0.0"), Some(IpAddress::V4(0)));
    assert_eq!(IpAddress::parse("255.255.255.255"), Some(IpAddress::V4(u32::MAX)));
    assert_eq!(parse_ipv4(&chars("1.2.3.4")), Some(0x0102_0304));
}

#[test]
fn ipv4_text_is_strict() {
    for bad in [
        "", "1.2.3", "1.2.3.4.5", "256.1.1.1", "1.2.3.256", "01.2.3.4", "1.2.3.04", "1..3.4",
        ".1.2.3", "1.2.3.4.", "1.2.3.4 ", " 1.2.3.4", "1.2.3.a", "1,2,3,4", "+1.2.3.4",
        "1.2.3.-4", "0001.2.3.4", "1.2.3.4/24", "\u{661}.2.3.4",
    ] {
        assert_eq!(IpAddress::parse(bad), None, "{:?}", bad);
    }
    assert_eq!(IpAddress::parse("0.00.0.0"), None);
    assert_eq!(IpAddress::parse("0.0.0.0"), Some(IpAddress::V4(0)));
}

#[test]
fn ipv6_text_is_read() {
    assert_eq!(IpAddress::parse("::"), Some(IpAddress::V6(0)));
    assert_eq!(IpAddress::parse("::1"), Some(IpAddress::V6(1)));
    assert_eq!(IpAddress::parse("1::"), Some(v6([1, 0, 0, 0, 0, 0, 0, 0])));
    assert_eq!(IpAddress::parse("1:2:3:4:5:6:7:8"), Some(v6([1, 2, 3, 4, 5, 6, 7, 8])));
    assert_eq!(
        IpAddress::parse("2001:DB8::ff00:42:8329"),
        Some(v6([0x2001, 0xdb8, 0, 0, 0, 0xff00, 0x42, 0x8329]))
    );
    assert_eq!(
        IpAddress::parse("ffff:ffff:ffff:ffff:ffff:ffff:ffff:ffff"),
        Some(IpAddress::V6(u128::MAX))
    );
    assert_eq!(IpAddress::parse("1:2:3:4:5:6:7::"), Some(v6([1, 2, 3, 4, 5, 6, 7, 0])));
    assert_eq!(IpAddress::parse("::2:3:4:5:6:7:8"), Some(v6([0, 2, 3, 4, 5, 6, 7, 8])));
    assert_eq!(IpAddress::parse("0001:002:03:4::"), Some(v6([1, 2, 3, 4, 0, 0, 0, 0])));
    assert_eq!(parse_ipv6(&chars("a::b")), Some(0x000a_0000_0000_0000_0000_0000_0000_000b));
}

#[test]
fn ipv6_text_may_end_in_ipv4() {
    assert_eq!(
        IpAddress::parse("::ffff:192.0.2.1"),
        Some(v6([0, 0, 0, 0, 0, 0xffff, 0xc000, 0x0201]))
    );
    assert_eq!(IpAddress::parse("::1.2.3.4"), Some(v6([0, 0, 0, 0, 0, 0, 0x0102, 0x0304])));
    assert_eq!(
        IpAddress::parse("1:2:3:4:5:6:1.2.3.4"),
        Some(v6([1, 2, 3, 4, 5, 6, 0x0102, 0x0304]))
    );
    assert_eq!(
        IpAddress::parse("1:2:3:4:5::1.2.3.4"),
        Some(v6([1, 2, 3, 4, 5, 0, 0x0102, 0x0304]))
    );
    for bad in [
        "1.2.3.4::", "1:2:3:4:5:6:7:1.2.3.4", "1:2:3:4:5:6::1.2.3.4", "::1.2.3.4:5",
        "::1.2.3", "::1.2.3.04", "1:2:3:4:5:1.2.3.4",
    ] {
        assert_eq!(IpAddress::parse(bad), None, "{:?}", bad);
    }
}

#[test]
fn ipv6_text_is_strict() {
    for bad in [
        ":", ":::", "1", "1:2:3:4:5:6:7", "1:2:3:4:5:6:7:8:9", "1:2:3:4:5:6:7:8::",
        "::1:2:3:4:5:6:7:8", "1::2::3", "12345::", "g::", "1:::2", ":1::", "::1:", "1:2:",
        " ::1", "::1 ", "::1%eth0", "[::1]", "1:2:3:4:5:6:7:", ":1:2:3:4:5:6:7",
    ] {
        assert_eq!(IpAddress::parse(bad), None, "{:?}", bad);
    }
}

#[test]
fn ipv4_is_written_as_dotted_decimals() {
    assert_eq!(IpAddress::V4(0xc0a8_0b07).to_string(), "192.168.11.7");
    assert_eq!(IpAddress::V4(0).to_string(), "0.0.0.0");
    assert_eq!(IpAddress::V4(u32::MAX).to_string(), "255.255.255.255");
    assert_eq!(IpAddress::V4(0x0a00_0001).to_string(), "10.0.0.1");
}

#[test]
fn ipv6_is_written_with_the_longest_zero_run_folded() {
    assert_eq!(IpAddress::V6(0).to_string(), "::");
    assert_eq!(IpAddress::V6(1).to_string(), "::1");
    assert_eq!(v6([1, 0, 0, 0, 0, 0, 0, 0]).to_string(), "1::");
    assert_eq!(v6([0x2001, 0xdb8, 0, 0, 0, 0, 0, 1]).to_string(), "2001:db8::1");
    assert_eq!(v6([1, 0, 0, 2, 0, 0, 0, 3]).to_string(), "1:0:0:2::3");
    // of two runs of the same length the first one is folded
    assert_eq!(v6([0x2001, 0xdb8, 0, 0, 1, 0, 0, 1]).to_string(), "2001:db8::1:0:0:1");
    // a single zero group is written out
    assert_eq!(v6([1, 0, 2, 0, 3, 0, 4, 0]).to_string(), "1:0:2:0:3:0:4:0");
    assert_eq!(v6([1, 2, 3, 4, 5, 6, 7, 8]).to_string(), "1:2:3:4:5:6:7:8");
    assert_eq!(
        IpAddress::V6(u128::MAX).to_string(),
        "ffff:ffff:ffff:ffff:ffff:ffff:ffff:ffff"
    );
    assert_eq!(v6([0, 0, 0, 0, 0, 0, 0x0102, 0x0304]).to_string(), "::102:304");
    assert_eq!(v6([0xabcd, 0, 0, 0, 0, 0, 0, 0x10]).to_string(), "abcd::10");
}

#[test]
fn mapped_ipv4_is_written_in_dotted_form() {
    assert_eq!(
        v6([0, 0, 0, 0, 0, 0xffff, 0xc000, 0x0201]).to_string(),
        "::ffff:192.0.2.1"
    );
    assert_eq!(v6([0, 0, 0, 0, 0, 0xffff, 0, 0]).to_string(), "::ffff:0.0.0.0");
}

#[test]
fn written_addresses_read_back() {
    let samples = [
        IpAddress::V4(0),
        IpAddress::V4(0x7f00_0001),
        IpAddress::V4(u32::MAX),
        IpAddress::V6(0),
        IpAddress::V6(1),
        IpAddress::V6(u128::MAX),
        v6([0, 0, 0, 0, 0, 0xffff, 0xc000, 0x0201]),
        v6([1, 0, 0, 2, 0, 0, 0, 3]),
        v6([0, 1, 0, 0, 0, 0, 0, 0]),
        v6([0, 0, 1, 0, 0, 0, 1, 0]),
        v6([0xfe80, 0, 0, 0, 0x0202, 0xb3ff, 0xfe1e, 0x8329]),
    ];
    for ip in samples {
        assert_eq!(IpAddress::parse(&ip.to_string()), Some(ip), "{}", ip.to_string());
    }
}

#[test]
fn from_str_gives_the_error_for_what_is_no_address() {
    let parsed: Result<IpAddress, AddrParseError> = "10.0.0.1".parse();
    assert_eq!(parsed, Ok(IpAddress::V4(0x0a00_0001)));
    let parsed: Result<IpAddress, AddrParseError> = "10.0.0".parse();
    assert_eq!(parsed, Err(AddrParseError));
}

#[test]
fn keys_tell_the_two_families_apart() {
    assert_eq!(IpAddress::V4(7).key(), (false, 7));
    assert_eq!(IpAddress::V6(7).key(), (true, 7));
    assert_ne!(IpAddress::V4(7).key(), IpAddress::V6(7).key());
}
