use reliable_udp::args::{contains_char, format_ip_port, same_text, validate_ip, validate_port};

#[test]
fn ipv4_address_is_joined_with_colon() {
    assert_eq!(format_ip_port("127.0.0.1", "8080"), "127.0.0.1:8080");
}

#[test]
fn ipv6_address_is_bracketed() {
    assert_eq!(format_ip_port("::1", "9000"), "[::1]:9000");
    assert_eq!(format_ip_port("fe80::2", "1"), "[fe80::2]:1");
}

#[test]
fn ip_that_does_not_parse_is_refused() {
    assert_eq!(
        validate_ip("abc", false),
        Err("Invalid IP address... Neither IPv4 or IPv6: abc".to_string())
    );
}

#[test]
fn ip_that_parses_is_taken() {
    assert_eq!(validate_ip("10.0.0.1", true), Ok(()));
}

#[test]
fn loopback_text_is_always_taken() {
    assert_eq!(validate_ip("::1", false), Ok(()));
}

#[test]
fn port_out_of_range_is_refused() {
    assert_eq!(
        validate_port("70000"),
        Err("Port must be a valid number between 0-65535: 70000".to_string())
    );
    assert_eq!(
        validate_port("http"),
        Err("Port must be a valid number between 0-65535: http".to_string())
    );
}

#[test]
fn port_in_range_is_taken() {
    assert_eq!(validate_port("0"), Ok(()));
    assert_eq!(validate_port("65535"), Ok(()));
}

#[test]
fn text_helpers() {
    assert!(contains_char("a:b", ':'));
    assert!(!contains_char("ab", ':'));
    assert!(same_text("x", "x"));
    assert!(!same_text("x", "y"));
}
