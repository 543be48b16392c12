use reliable_udp::text::{parse_u16, parse_u8, to_decimal};

const SAMPLES: &[&str] = &[
    "", "+", "-", "-0", "-1", "0", "+0", "7", "00080", "255", "256", "65535", "65536", "+65535",
    "++1", "+-1", " 1", "1 ", "1a", "a1", "\u{663}", "99999999999999999999",
    "0000000000000000000000001", "1_000", "0x10", "12\n",
];

#[test]
fn parse_u16_agrees_with_std() {
    for s in SAMPLES {
        assert_eq!(parse_u16(s), s.parse::<u16>().ok(), "input {:?}", s);
    }
}

#[test]
fn parse_u8_agrees_with_std() {
    for s in SAMPLES {
        assert_eq!(parse_u8(s), s.parse::<u8>().ok(), "input {:?}", s);
    }
}

#[test]
fn parse_edge_values() {
    assert_eq!(parse_u16("65535"), Some(65535));
    assert_eq!(parse_u16("65536"), None);
    assert_eq!(parse_u16("+0"), Some(0));
    assert_eq!(parse_u16("+"), None);
    assert_eq!(parse_u16(""), None);
    assert_eq!(parse_u16("-0"), None);
    assert_eq!(parse_u8("255"), Some(255));
    assert_eq!(parse_u8("256"), None);
    assert_eq!(parse_u8("0000000000000000000000001"), Some(1));
}

#[test]
fn to_decimal_agrees_with_to_string() {
    for n in [0u64, 1, 9, 10, 42, 99, 100, 255, 1000, 65535, 4294967295, u64::MAX] {
        assert_eq!(to_decimal(n), n.to_string());
    }
}

#[test]
fn decimal_reads_back() {
    for n in [0u16, 5, 10, 99, 100, 8080, 65535] {
        assert_eq!(parse_u16(&to_decimal(n as u64)), Some(n));
    }
    for n in [0u8, 9, 100, 255] {
        assert_eq!(parse_u8(&to_decimal(n as u64)), Some(n));
    }
}
