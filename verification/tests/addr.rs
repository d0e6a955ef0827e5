use xfl::parse::addr_string;
use xfl::parse::parse_ipaddr;
use xfl::parse::SocketAddr;
use xfl::parse::DEFAULT_PORT;

fn addr(o1: u8, o2: u8, o3: u8, o4: u8, port: u16) -> SocketAddr {
    SocketAddr { o1, o2, o3, o4, port }
}

#[test]
fn bare_ip_gets_default_port() {
    // Scenario: a bare IP parses to that IP with the documented default port.
    let r = parse_ipaddr("10.0.0.5").unwrap();
    assert_eq!(r, addr(10, 0, 0, 5, 3000));
    assert_eq!(r.port, DEFAULT_PORT);
}

#[test]
fn empty_string_is_unspecified() {
    let r = parse_ipaddr("").unwrap();
    assert_eq!(r, addr(0, 0, 0, 0, 0));
}

#[test]
fn ip_with_port_is_exact() {
    let r = parse_ipaddr("172.16.254.1:8080").unwrap();
    assert_eq!(r, addr(172, 16, 254, 1, 8080));
    let r = parse_ipaddr("127.0.0.1:50051").unwrap();
    assert_eq!(r, addr(127, 0, 0, 1, 50051));
    let r = parse_ipaddr("255.255.255.255:65535").unwrap();
    assert_eq!(r, addr(255, 255, 255, 255, 65535));
}

#[test]
fn round_trip_through_text() {
    let cases = [
        addr(10, 0, 0, 5, 3000),
        addr(0, 0, 0, 0, 0),
        addr(255, 255, 255, 255, 65535),
        addr(192, 168, 1, 77, 1),
    ];
    for a in cases {
        let text = addr_string(&a);
        assert_eq!(parse_ipaddr(&text).unwrap(), a);
    }
}

#[test]
fn addr_string_is_canonical() {
    assert_eq!(addr_string(&addr(10, 0, 0, 5, 3000)), "10.0.0.5:3000");
    assert_eq!(addr_string(&addr(0, 0, 0, 0, 0)), "0.0.0.0:0");
}

#[test]
fn malformed_addresses_are_rejected() {
    let bad = [
        "300.1.1.1",
        "1.2.3",
        "1.2.3.4.5",
        "a.b.c.d",
        "1.2.3.4:",
        "1.2.3.4:99999",
        "1.2.3.4:12:13",
        "01.2.3.4",
        "1.2.3.04",
        " 1.2.3.4",
        "1.2.3.4 ",
        "256.0.0.1:80",
        ":8080",
        "localhost:8080",
    ];
    for s in bad {
        assert!(parse_ipaddr(s).is_err(), "{s} should be rejected");
    }
}

#[test]
fn error_message_names_the_input() {
    let err = parse_ipaddr("localhost:8080").unwrap_err();
    assert_eq!(err, "invalid socket address: localhost:8080");
    let err = parse_ipaddr("300.1.1.1").unwrap_err();
    assert_eq!(err, "invalid socket address: 300.1.1.1");
}
