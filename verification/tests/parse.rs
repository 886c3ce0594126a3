use khonsu::addr::{parse_ip, parse_ip_trimmed, trim_bytes, IpAddress, Ipv4Address, Ipv6Address};

fn v4(o0: u8, o1: u8, o2: u8, o3: u8) -> IpAddress {
    IpAddress::V4(Ipv4Address { o0, o1, o2, o3 })
}

fn v6(s: [u16; 8]) -> IpAddress {
    IpAddress::V6(Ipv6Address {
        s0: s[0],
        s1: s[1],
        s2: s[2],
        s3: s[3],
        s4: s[4],
        s5: s[5],
        s6: s[6],
        s7: s[7],
    })
}

fn parse(s: &str) -> Option<IpAddress> {
    let b = s.as_bytes();
    parse_ip(b, 0, b.len())
}

#[test]
fn parse_ipv4_simple() {
    assert_eq!(parse("1.2.3.4"), Some(v4(1, 2, 3, 4)));
    assert_eq!(parse("127.1.2.3"), Some(v4(127, 1, 2, 3)));
    assert_eq!(parse("0.0.0.0"), Some(v4(0, 0, 0, 0)));
    assert_eq!(parse("255.255.255.255"), Some(v4(255, 255, 255, 255)));
}

#[test]
fn parse_ipv4_rejects() {
    assert_eq!(parse(""), None);
    assert_eq!(parse("1.2.3"), None);
    assert_eq!(parse("1.2.3.4.5"), None);
    assert_eq!(parse("256.1.1.1"), None);
    assert_eq!(parse("1.2.3.256"), None);
    assert_eq!(parse("01.2.3.4"), None);
    assert_eq!(parse("1.2.3.04"), None);
    assert_eq!(parse("1..2.3"), None);
    assert_eq!(parse("1.2.3.4 "), None);
    assert_eq!(parse("a.b.c.d"), None);
    assert_eq!(parse("1234.1.1.1"), None);
}

#[test]
fn parse_ipv6_full() {
    assert_eq!(
        parse("1:2:3:4:5:6:7:8"),
        Some(v6([1, 2, 3, 4, 5, 6, 7, 8]))
    );
    assert_eq!(
        parse("2001:db8:0:0:0:8a2e:370:7334"),
        Some(v6([0x2001, 0xdb8, 0, 0, 0, 0x8a2e, 0x370, 0x7334]))
    );
    assert_eq!(
        parse("ABCD:ef01:2345:6789:ABCD:ef01:2345:6789"),
        Some(v6([0xabcd, 0xef01, 0x2345, 0x6789, 0xabcd, 0xef01, 0x2345, 0x6789]))
    );
}

#[test]
fn parse_ipv6_compressed() {
    assert_eq!(parse("::"), Some(v6([0, 0, 0, 0, 0, 0, 0, 0])));
    assert_eq!(parse("::1"), Some(v6([0, 0, 0, 0, 0, 0, 0, 1])));
    assert_eq!(parse("1::"), Some(v6([1, 0, 0, 0, 0, 0, 0, 0])));
    assert_eq!(
        parse("2001:db8::8a2e:370:7334"),
        Some(v6([0x2001, 0xdb8, 0, 0, 0, 0x8a2e, 0x370, 0x7334]))
    );
    assert_eq!(
        parse("1:2:3:4:5:6:7::"),
        Some(v6([1, 2, 3, 4, 5, 6, 7, 0]))
    );
    assert_eq!(parse("::2:3:4:5:6:7:8"), Some(v6([0, 2, 3, 4, 5, 6, 7, 8])));
}

#[test]
fn parse_ipv6_embedded_ipv4() {
    assert_eq!(
        parse("::ffff:1.2.3.4"),
        Some(v6([0, 0, 0, 0, 0, 0xffff, 0x0102, 0x0304]))
    );
    assert_eq!(
        parse("1:2:3:4:5:6:7.8.9.10"),
        Some(v6([1, 2, 3, 4, 5, 6, 0x0708, 0x090a]))
    );
}

#[test]
fn parse_ipv6_rejects() {
    assert_eq!(parse(":"), None);
    assert_eq!(parse(":::"), None);
    assert_eq!(parse("1:2:3:4:5:6:7"), None);
    assert_eq!(parse("1:2:3:4:5:6:7:8:9"), None);
    assert_eq!(parse("1:2:3:4:5:6:7:8::"), None);
    assert_eq!(parse("1::2::3"), None);
    assert_eq!(parse("12345::"), None);
    assert_eq!(parse("1:2"), None);
    assert_eq!(parse("g::1"), None);
    assert_eq!(parse("1.2.3.4::"), None);
}

#[test]
fn trim_removes_surrounding_whitespace() {
    assert_eq!(trim_bytes(b"  1.2.3.4\n"), b"1.2.3.4");
    assert_eq!(trim_bytes(b"\t\r\n x \t"), b"x");
    assert_eq!(trim_bytes(b"   "), b"");
    assert_eq!(trim_bytes(b""), b"");
    assert_eq!(trim_bytes(b"a b"), b"a b");
}

#[test]
fn parse_trimmed_equals_bare_literal() {
    let padded: &[&str] = &[" 1.2.3.4", "1.2.3.4\n", "\t 1.2.3.4 \r\n", "1.2.3.4"];
    for p in padded {
        assert_eq!(parse_ip_trimmed(p.as_bytes()), Some(v4(1, 2, 3, 4)));
    }
    assert_eq!(parse_ip_trimmed(b"  ::1 \n"), Some(v6([0, 0, 0, 0, 0, 0, 0, 1])));
    assert_eq!(parse_ip_trimmed(b" 1 .2.3.4"), None);
}
