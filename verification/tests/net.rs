use melodium_libs::net::ip::{self, to_ipv6, Ip, Ipv4};
use melodium_libs::net::ip_streams;

#[test]
fn ipv4_text_round_trip() {
    let a = ip::ipv4(192, 168, 0, 1);
    let text = a.to_string();
    assert_eq!(text, "192.168.0.1");
    assert_eq!(ip::to_ipv4(&text), Some(a));
}

#[test]
fn ipv4_parsing_refuses_malformed_text() {
    assert_eq!(ip::to_ipv4("01.2.3.4"), None);
    assert_eq!(ip::to_ipv4("256.1.1.1"), None);
    assert_eq!(ip::to_ipv4("1.2.3"), None);
    assert_eq!(ip::to_ipv4("1.2.3.4."), None);
    assert_eq!(ip::to_ipv4(""), None);
    assert_eq!(ip::to_ipv4("0.0.0.0"), Some(Ipv4 { a: 0, b: 0, c: 0, d: 0 }));
    assert_eq!(ip::to_ipv4("255.255.255.255"), Some(Ipv4 { a: 255, b: 255, c: 255, d: 255 }));
}

#[test]
fn well_known_addresses() {
    assert_eq!(ip::localhost_ipv4().to_string(), "127.0.0.1");
    assert_eq!(ip::unspecified_ipv4().to_string(), "0.0.0.0");
    assert_eq!(ip::localhost_ipv6(), ip::ipv6(0, 0, 0, 0, 0, 0, 0, 1));
    assert_eq!(ip::unspecified_ipv6(), ip::ipv6(0, 0, 0, 0, 0, 0, 0, 0));
}

#[test]
fn ip_variants() {
    let v4 = ip::from_ipv4(ip::localhost_ipv4());
    let v6 = ip::from_ipv6(ip::localhost_ipv6());
    assert!(ip::is_ipv4(v4));
    assert!(!ip::is_ipv6(v4));
    assert!(ip::is_ipv6(v6));
    assert_eq!(ip::as_ipv4(v4), Some(ip::localhost_ipv4()));
    assert_eq!(ip::as_ipv4(v6), None);
    assert_eq!(ip::as_ipv6(v6), Some(ip::localhost_ipv6()));
}

#[test]
fn ip_streams_convert_each_address() {
    let ips = ip_streams::from_ipv4(&vec![ip::ipv4(10, 0, 0, 1)]);
    assert_eq!(ips, vec![Ip::V4(ip::ipv4(10, 0, 0, 1))]);
    let v4s = ip_streams::as_ipv4(&vec![Ip::V4(ip::ipv4(1, 1, 1, 1)), Ip::V6(ip::localhost_ipv6())]);
    assert_eq!(v4s, vec![Some(ip::ipv4(1, 1, 1, 1)), None]);
}

#[test]
fn to_ipv6_reads_full_compressed_and_mixed_forms() {
    assert_eq!(to_ipv6("::"), Some(ip::unspecified_ipv6()));
    assert_eq!(to_ipv6("::1"), Some(ip::localhost_ipv6()));
    assert_eq!(to_ipv6("1:2:3:4:5:6:7:8"), Some(ip::ipv6(1, 2, 3, 4, 5, 6, 7, 8)));
    assert_eq!(
        to_ipv6("2001:DB8::ff00:42:8329"),
        Some(ip::ipv6(0x2001, 0xdb8, 0, 0, 0, 0xff00, 0x42, 0x8329))
    );
    assert_eq!(to_ipv6("::ffff:192.0.2.1"), Some(ip::ipv6(0, 0, 0, 0, 0, 0xffff, 0xc000, 0x0201)));
    assert_eq!(to_ipv6("1:2:3:4:5:6:1.2.3.4"), Some(ip::ipv6(1, 2, 3, 4, 5, 6, 0x0102, 0x0304)));
    assert_eq!(to_ipv6("1::"), Some(ip::ipv6(1, 0, 0, 0, 0, 0, 0, 0)));
    assert_eq!(to_ipv6("1:2:3:4:5:6:7::"), Some(ip::ipv6(1, 2, 3, 4, 5, 6, 7, 0)));
    assert_eq!(to_ipv6("::1:2:3:4:5:6:7"), Some(ip::ipv6(0, 1, 2, 3, 4, 5, 6, 7)));
    assert_eq!(to_ipv6("0000:0000::00aB"), Some(ip::ipv6(0, 0, 0, 0, 0, 0, 0, 0xab)));
}

#[test]
fn to_ipv6_refuses_what_is_not_an_ipv6_text() {
    for text in [
        "",
        ":",
        ":::",
        "1:2:3:4:5:6:7",
        "1:2:3:4:5:6:7:8:9",
        "1:2:3:4:5:6:7:8::",
        "12345::",
        "1::2::3",
        "::1.2.3",
        "1.2.3.4",
        "::01.2.3.4",
        "::256.1.1.1",
        "g::",
        ":1::",
        "1:::2",
        "1:2:3:4:5:6::1.2.3.4",
        "::1.2.3.4:5",
        "1.2.3.4::",
    ] {
        assert_eq!(to_ipv6(text), None, "{}", text);
    }
}

#[test]
fn ipv6_stream_reads_each_text() {
    let texts = vec!["::1".to_string(), "nope".to_string()];
    assert_eq!(ip_streams::to_ipv6(&texts), vec![Some(ip::localhost_ipv6()), None]);
}

#[test]
fn ipv6_text_is_the_shortest_form() {
    assert_eq!(ip::unspecified_ipv6().to_string(), "::");
    assert_eq!(ip::localhost_ipv6().to_string(), "::1");
    assert_eq!(ip::ipv6(1, 2, 3, 4, 5, 6, 7, 8).to_string(), "1:2:3:4:5:6:7:8");
    assert_eq!(ip::ipv6(0x2001, 0xdb8, 0, 0, 0, 0xff00, 0x42, 0x8329).to_string(), "2001:db8::ff00:42:8329");
    assert_eq!(ip::ipv6(0, 0, 0, 0, 0, 0xffff, 0xc000, 0x0201).to_string(), "::ffff:192.0.2.1");
    assert_eq!(ip::ipv6(1, 0, 0, 2, 0, 0, 0, 3).to_string(), "1:0:0:2::3");
    assert_eq!(ip::ipv6(1, 0, 0, 2, 0, 0, 3, 4).to_string(), "1::2:0:0:3:4");
    assert_eq!(ip::ipv6(1, 0, 2, 3, 4, 5, 6, 7).to_string(), "1:0:2:3:4:5:6:7");
    assert_eq!(ip::ipv6(0, 0, 0, 0, 0, 0, 0x0102, 0x0304).to_string(), "::102:304");
    assert_eq!(ip::ipv6(0xABCD, 0, 0, 0, 0, 0, 0, 0).to_string(), "abcd::");
    assert_eq!(Ip::V4(ip::ipv4(10, 0, 0, 1)).to_string(), "10.0.0.1");
    assert_eq!(Ip::V6(ip::localhost_ipv6()).to_string(), "::1");
}

#[test]
fn ipv6_text_reads_back() {
    for a in [
        ip::ipv6(1, 0, 0, 2, 0, 0, 3, 4),
        ip::ipv6(0, 0, 0, 0, 0, 0xffff, 0x7f00, 1),
        ip::ipv6(0xfe80, 0, 0, 0, 0x1ff, 0xfe23, 0x4567, 0x890a),
        ip::unspecified_ipv6(),
    ] {
        assert_eq!(to_ipv6(&a.to_string()), Some(a));
    }
}
