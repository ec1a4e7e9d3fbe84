use brew_server::ids::rand_hex;
use brew_server::routing::strip_prefix;
use brew_server::sds::hex_dump;
use brew_server::text::{decimal_string, is_whitespace, parse_unsigned, take_before, trimmed};
use brew_server::transport::{choose_advertised_host, sanitize_advertised_host};
use brew_server::addr::SocketAddress;

#[test]
fn rand_hex_has_requested_length() {
    assert_eq!(rand_hex(16).len(), 16);
    assert_eq!(rand_hex(40).len(), 40);
}

#[test]
fn rand_hex_holds_hex_digits_of_random_uuids() {
    let t = rand_hex(40);
    assert!(t.chars().all(|c| c.is_ascii_hexdigit() && !c.is_ascii_uppercase()));
    assert_eq!(t.chars().nth(12), Some('4'));
    assert!(matches!(t.chars().nth(16), Some('8' | '9' | 'a' | 'b')));
    assert_ne!(rand_hex(32), rand_hex(32));
    assert_eq!(rand_hex(0), "");
}

#[test]
fn sanitize_advertised_host_strips_accidental_port() {
    assert_eq!(sanitize_advertised_host("10.31.175.162:5060"), "10.31.175.162");
}

#[test]
fn sanitize_advertised_host_leaves_bare_host_alone() {
    assert_eq!(sanitize_advertised_host("10.31.175.162"), "10.31.175.162");
    assert_eq!(sanitize_advertised_host("sip.example.com"), "sip.example.com");
}

#[test]
fn sanitize_advertised_host_does_not_mangle_ipv6() {
    assert_eq!(sanitize_advertised_host("::1"), "::1");
}

#[test]
fn sanitize_advertised_host_keeps_what_is_no_port() {
    assert_eq!(sanitize_advertised_host("host:sip"), "host:sip");
    assert_eq!(sanitize_advertised_host("host:65536"), "host:65536");
    assert_eq!(sanitize_advertised_host("host:"), "host:");
    assert_eq!(sanitize_advertised_host(":5060"), "");
    assert_eq!(sanitize_advertised_host("host:+7"), "host");
    for s in ["a:1", "a", "::1", "a:b", ""] {
        let once = sanitize_advertised_host(s);
        assert_eq!(sanitize_advertised_host(&once), once);
    }
}

#[test]
fn advertised_host_is_never_the_wildcard() {
    let any = SocketAddress::V4 { ip: 0, port: 5060 };
    let one = SocketAddress::V4 { ip: 0x0A000001, port: 5060 };
    assert_eq!(choose_advertised_host("", &any, "0.0.0.0", "192.0.2.7"), "192.0.2.7");
    assert_eq!(choose_advertised_host("", &one, "10.0.0.1", "192.0.2.7"), "10.0.0.1");
    assert_eq!(choose_advertised_host("h:5060", &any, "0.0.0.0", "192.0.2.7"), "h");
}

#[test]
fn whitespace_is_that_of_unicode() {
    for c in '\0'..=char::MAX {
        assert_eq!(is_whitespace(c), c.is_whitespace(), "{:x}", c as u32);
    }
}

#[test]
fn trims_as_str_does() {
    for s in ["", " ", " a ", "\u{3000}x y\t\n", "ab", "\u{feff}a"] {
        assert_eq!(trimmed(s), s.trim());
    }
}

#[test]
fn numbers_are_written_and_read_back() {
    for n in [0u64, 1, 9, 10, 4294967295, u64::MAX] {
        assert_eq!(decimal_string(n), n.to_string());
    }
    for n in [0u32, 7, 65535] {
        let v: Vec<char> = decimal_string(n as u64).chars().collect();
        assert_eq!(parse_unsigned(&v, 65535), Some(n));
    }
    for s in ["", "+", "-1", "65536", "1 ", "x", "99999999999999999999"] {
        let v: Vec<char> = s.chars().collect();
        assert_eq!(parse_unsigned(&v, 65535), s.parse::<u16>().ok().map(|n| n as u32));
    }
    let v: Vec<char> = "+12".chars().collect();
    assert_eq!(parse_unsigned(&v, 65535), Some(12));
}

#[test]
fn prefixes_are_taken_off_once() {
    assert_eq!(strip_prefix("99123", "9"), "9123");
    assert_eq!(strip_prefix("123", "9"), "123");
    assert_eq!(strip_prefix("123", ""), "123");
    assert_eq!(take_before("pbx:5060", ':'), "pbx");
    assert_eq!(take_before("pbx", ':'), "pbx");
}

#[test]
fn dumps_are_capped() {
    assert_eq!(hex_dump(&[]), "");
    assert_eq!(hex_dump(&[0x0a]), "0a");
    assert_eq!(hex_dump(&[0xf2, 0x00, 0x7F]), "f2 00 7f");
    let full = hex_dump(&[0u8; 64]);
    assert_eq!(full.len(), 64 * 3 - 1);
    let more = hex_dump(&[0u8; 70]);
    assert_eq!(more, format!("{full} … (+6 more)"));
}
