use reliable_udp::wire::{
    encode_socket_addr, generate_ack, generate_msg, message_payload, parse_src_target,
    read_u32_be, same_socket_address, verify_ack, verify_msg, SocketAddress,
};

fn v4(ip: [u8; 4], port: u16) -> SocketAddress {
    SocketAddress::V4 { ip, port }
}

fn v6(ip: [u8; 16], port: u16) -> SocketAddress {
    SocketAddress::V6 { ip, port }
}

#[test]
fn ipv4_address_is_encoded_as_mapped_ipv6() {
    let bytes = encode_socket_addr(&v4([127, 0, 0, 1], 8080));
    assert_eq!(bytes, [0, 0, 0, 0, 0, 0, 0, 0, 0, 0, 0xff, 0xff, 127, 0, 0, 1, 0x1f, 0x90]);
}

#[test]
fn ipv6_address_is_encoded_as_is() {
    let mut ip = [0u8; 16];
    ip[15] = 1;
    let bytes = encode_socket_addr(&v6(ip, 443));
    let mut expected = [0u8; 18];
    expected[15] = 1;
    expected[16] = 0x01;
    expected[17] = 0xbb;
    assert_eq!(bytes, expected);
}

#[test]
fn message_datagram_layout() {
    let packet = generate_msg(&1, 0, &v4([127, 0, 0, 1], 8080), b"hi");
    let expected: Vec<u8> = vec![
        0, 0, 0, 1, 0, 0, 0, 0, 0, 0, 0, 0, 0, 0, 0, 0, 0, 0, 0xff, 0xff, 127, 0, 0, 1, 0x1f,
        0x90, 0, 0, 0, 2, b'h', b'i',
    ];
    assert_eq!(packet, expected);
}

#[test]
fn big_endian_numbers() {
    let packet = generate_msg(&0x01020304, 0xa0b0c0d0, &v4([0, 0, 0, 0], 0), &[]);
    assert_eq!(&packet[0..8], &[1, 2, 3, 4, 0xa0, 0xb0, 0xc0, 0xd0]);
    assert_eq!(read_u32_be(&packet, 0), 0x01020304);
    assert_eq!(read_u32_be(&packet, 4), 0xa0b0c0d0);
    assert_eq!(read_u32_be(&packet, 26), 0);
}

#[test]
fn ack_datagram_layout() {
    let packet = generate_ack(&0, 7, &[]);
    let mut expected = vec![0u8, 0, 0, 0, 0, 0, 0, 7];
    expected.extend_from_slice(&[0u8; 18]);
    assert_eq!(packet, expected);
    let with_text = generate_ack(&3, 4, b"ok");
    assert_eq!(with_text.len(), 28);
    assert_eq!(&with_text[26..], b"ok");
}

#[test]
fn message_fields_read_back() {
    let msg = b"hello, server";
    let packet = generate_msg(&41, 9, &v4([192, 168, 1, 2], 5000), msg);
    assert_eq!(packet.len(), 30 + msg.len());
    assert_eq!(read_u32_be(&packet, 0), 41);
    assert_eq!(read_u32_be(&packet, 4), 9);
    assert_eq!(read_u32_be(&packet, 26), msg.len() as u32);
    assert_eq!(message_payload(&packet), msg);
}

#[test]
fn payload_read_from_full_receive_buffer() {
    let packet = generate_msg(&0, 0, &v4([1, 2, 3, 4], 1), b"abc");
    let mut buf = [0u8; 1024];
    buf[..packet.len()].copy_from_slice(&packet);
    assert_eq!(message_payload(&buf), b"abc");
}

#[test]
fn matching_ack_is_accepted() {
    let packet = generate_ack(&0, 5, &[]);
    let mut expected = 5u32;
    assert_eq!(verify_ack(&packet, &mut expected), Ok(5));
    assert_eq!(expected, 5);
}

#[test]
fn other_ack_is_refused() {
    let packet = generate_ack(&0, 4, &[]);
    let mut expected = 5u32;
    assert_eq!(
        verify_ack(&packet, &mut expected),
        Err("duplicate ack. expected ack 5, actual ack 4".to_string())
    );
    assert_eq!(expected, 5);
}

#[test]
fn awaited_sequence_number_is_accepted_and_advances() {
    let packet = generate_msg(&3, 0, &v4([1, 1, 1, 1], 1), b"x");
    let mut expected = 3u32;
    assert_eq!(verify_msg(&packet, &mut expected), Ok((3, true)));
    assert_eq!(expected, 4);
}

#[test]
fn previous_sequence_number_is_a_repeat() {
    let packet = generate_msg(&3, 0, &v4([1, 1, 1, 1], 1), b"x");
    let mut expected = 4u32;
    assert_eq!(verify_msg(&packet, &mut expected), Ok((3, false)));
    assert_eq!(expected, 4);
}

#[test]
fn other_sequence_number_is_out_of_order() {
    let packet = generate_msg(&9, 0, &v4([1, 1, 1, 1], 1), b"x");
    let mut expected = 4u32;
    assert_eq!(
        verify_msg(&packet, &mut expected),
        Err("Out of order packet. expected seq 4, actual seq 9".to_string())
    );
    assert_eq!(expected, 4);
}

#[test]
fn no_repeat_before_the_first_message() {
    let packet = generate_msg(&u32::MAX, 0, &v4([1, 1, 1, 1], 1), b"x");
    let mut expected = 0u32;
    assert_eq!(
        verify_msg(&packet, &mut expected),
        Err("Out of order packet. expected seq 0, actual seq 4294967295".to_string())
    );
}

#[test]
fn source_address_is_read_as_ipv6() {
    let bytes = encode_socket_addr(&v4([10, 0, 0, 7], 1234));
    match parse_src_target(&bytes) {
        Ok(SocketAddress::V6 { ip, port }) => {
            assert_eq!(ip, [0, 0, 0, 0, 0, 0, 0, 0, 0, 0, 0xff, 0xff, 10, 0, 0, 7]);
            assert_eq!(port, 1234);
        }
        other => panic!("unexpected {:?}", other),
    }
}

#[test]
fn ipv6_source_address_reads_back_as_itself() {
    let ip = [0x20, 0x01, 0x0d, 0xb8, 0, 0, 0, 0, 0, 0, 0, 0, 0, 0, 0, 0x42];
    let addr = v6(ip, 65535);
    let read = parse_src_target(&encode_socket_addr(&addr)).unwrap();
    assert!(same_socket_address(&read, &addr));
}

#[test]
fn source_address_of_wrong_size_is_refused() {
    assert_eq!(
        parse_src_target(&[0u8; 17]).unwrap_err(),
        "Expected 18 bytes for src_target, got 17 bytes"
    );
    assert_eq!(
        parse_src_target(&[]).unwrap_err(),
        "Expected 18 bytes for src_target, got 0 bytes"
    );
}

#[test]
fn address_comparison() {
    assert!(same_socket_address(&v4([1, 2, 3, 4], 5), &v4([1, 2, 3, 4], 5)));
    assert!(!same_socket_address(&v4([1, 2, 3, 4], 5), &v4([1, 2, 3, 4], 6)));
    assert!(!same_socket_address(&v4([1, 2, 3, 4], 5), &v4([1, 2, 3, 5], 5)));
    assert!(!same_socket_address(&v4([0, 0, 0, 0], 0), &v6([0; 16], 0)));
}
