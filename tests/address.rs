use gann_peer::address::{format_socket_address, parse_socket_address, SocketAddress, V4Address, V6Address};
use gann_peer::error::PeerError;

fn addr(a: u8, b: u8, c: u8, d: u8, port: u16) -> SocketAddress {
    SocketAddress::V4(V4Address { a, b, c, d, port })
}

#[test]
fn parses_loopback_with_port_zero() {
    assert_eq!(parse_socket_address("127.0.0.1:0"), Ok(addr(127, 0, 0, 1, 0)));
}

#[test]
fn parses_largest_values() {
    assert_eq!(
        parse_socket_address("255.255.255.255:65535"),
        Ok(addr(255, 255, 255, 255, 65535))
    );
}

#[test]
fn formats_address() {
    assert_eq!(format_socket_address(&addr(10, 0, 20, 3, 4433)), "10.0.20.3:4433");
    assert_eq!(format_socket_address(&addr(0, 0, 0, 0, 0)), "0.0.0.0:0");
}

#[test]
fn format_then_parse_round_trips() {
    for x in [addr(1, 2, 3, 4, 5), addr(192, 168, 100, 9, 65535), addr(0, 10, 99, 255, 80)] {
        let text = format_socket_address(&x);
        assert_eq!(parse_socket_address(&text), Ok(x));
    }
}

#[test]
fn rejects_malformed_addresses() {
    for s in [
        "",
        "127.0.0.1",
        "127.0.0.1:",
        ":80",
        "256.0.0.1:80",
        "1.2.3.4:65536",
        "01.2.3.4:80",
        "1.2.3.4:080",
        "1.2.3:80",
        "1.2.3.4.5:80",
        "a.b.c.d:80",
        "1.2.3.4:8o",
        " 1.2.3.4:80",
        "1.2.3.4:80:81",
        "1.2.3.4:123456",
        "[::1]",
        "::1:80",
        "[::1]:65536",
        "[1:2:3:4:5:6:7:8:9]:80",
        "[::g]:80",
    ] {
        assert_eq!(parse_socket_address(s), Err(PeerError::AddressError), "{}", s);
    }
}

#[test]
fn parses_ipv6_addresses() {
    assert_eq!(
        parse_socket_address("[::1]:80"),
        Ok(SocketAddress::V6(V6Address { ip: 1, scope_id: 0, port: 80 }))
    );
    assert_eq!(
        parse_socket_address("[2001:db8::ff00:42:8329]:4433"),
        Ok(SocketAddress::V6(V6Address {
            ip: 0x2001_0db8_0000_0000_0000_ff00_0042_8329,
            scope_id: 0,
            port: 4433
        }))
    );
    assert_eq!(
        parse_socket_address("[fe80::1%3]:9"),
        Ok(SocketAddress::V6(V6Address { ip: 0xfe80_0000_0000_0000_0000_0000_0000_0001, scope_id: 3, port: 9 }))
    );
}

#[test]
fn ipv6_format_then_parse_round_trips() {
    let x = SocketAddress::V6(V6Address { ip: 0x2001_0db8_0000_0000_0000_0000_0000_0001, scope_id: 0, port: 443 });
    assert_eq!(format_socket_address(&x), "[2001:db8::1]:443");
    assert_eq!(parse_socket_address("[2001:db8::1]:443"), Ok(x));
    let y = SocketAddress::V6(V6Address { ip: 0, scope_id: 7, port: 0 });
    assert_eq!(parse_socket_address(&format_socket_address(&y)), Ok(y));
}
