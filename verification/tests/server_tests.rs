use reliable_udp::client::{ClientAction, ClientEvent, Delivery};
use reliable_udp::server::{validate_args, ServerAction, ServerArgs, ServerSession};
use reliable_udp::wire::{generate_ack, generate_msg, message_payload, SocketAddress};

fn client_addr() -> SocketAddress {
    let mut ip = [0u8; 16];
    ip[15] = 1;
    SocketAddress::V6 { ip, port: 40000 }
}

fn receive_buffer(packet: &[u8]) -> [u8; 1024] {
    let mut buf = [0u8; 1024];
    buf[..packet.len()].copy_from_slice(packet);
    buf
}

#[test]
fn valid_server_arguments() {
    let a = ServerArgs {
        target_ip: "0.0.0.0".to_string(),
        target_ip_parses: true,
        target_port: "8080".to_string(),
    };
    assert_eq!(validate_args(&a), Ok("0.0.0.0:8080".to_string()));
}

#[test]
fn server_errors() {
    let a = ServerArgs {
        target_ip: "x".to_string(),
        target_ip_parses: false,
        target_port: "8080".to_string(),
    };
    assert_eq!(
        validate_args(&a),
        Err("Invalid IP address... Neither IPv4 or IPv6: x".to_string())
    );
    let b = ServerArgs {
        target_ip: "::".to_string(),
        target_ip_parses: true,
        target_port: "".to_string(),
    };
    assert_eq!(
        validate_args(&b),
        Err("Port must be a valid number between 0-65535: ".to_string())
    );
}

#[test]
fn in_order_message_is_acknowledged_and_shown() {
    let mut s = ServerSession::new(client_addr());
    let buf = receive_buffer(&generate_msg(&0, 0, &client_addr(), b"hi"));
    assert_eq!(s.awaited(&buf), 0);
    match s.on_datagram(&buf) {
        ServerAction::Reply { seq, show, packet } => {
            assert_eq!(seq, 0);
            assert!(show);
            assert_eq!(packet, generate_ack(&0, 0, &[]));
        }
        _ => panic!("expected a reply"),
    }
    assert_eq!(s.expected_seq, 1);
    assert_eq!(message_payload(&buf), b"hi");
}

#[test]
fn repeat_is_acknowledged_again_but_not_shown() {
    let mut s = ServerSession::new(client_addr());
    let buf = receive_buffer(&generate_msg(&0, 0, &client_addr(), b"hi"));
    let _ = s.on_datagram(&buf);
    match s.on_datagram(&buf) {
        ServerAction::Reply { seq, show, .. } => {
            assert_eq!(seq, 0);
            assert!(!show);
        }
        _ => panic!("expected a reply"),
    }
    assert_eq!(s.expected_seq, 1);
}

#[test]
fn out_of_order_message_is_ignored() {
    let mut s = ServerSession::new(client_addr());
    let buf = receive_buffer(&generate_msg(&5, 0, &client_addr(), b"hi"));
    match s.on_datagram(&buf) {
        ServerAction::Ignore(e) => {
            assert_eq!(e, "Out of order packet. expected seq 0, actual seq 5")
        }
        _ => panic!("expected the datagram to be ignored"),
    }
    assert_eq!(s.expected_seq, 0);
}

#[test]
fn new_sender_starts_over() {
    let mut s = ServerSession { expected_seq: 9, current_target: client_addr() };
    let other = SocketAddress::V4 { ip: [10, 0, 0, 2], port: 5555 };
    let buf = receive_buffer(&generate_msg(&0, 0, &other, b"new"));
    assert_eq!(s.awaited(&buf), 0);
    match s.on_datagram(&buf) {
        ServerAction::Reply { seq, show, .. } => {
            assert_eq!(seq, 0);
            assert!(show);
        }
        _ => panic!("expected a reply"),
    }
    assert_eq!(s.expected_seq, 1);
    match s.current_target {
        SocketAddress::V6 { ip, port } => {
            assert_eq!(ip, [0, 0, 0, 0, 0, 0, 0, 0, 0, 0, 0xff, 0xff, 10, 0, 0, 2]);
            assert_eq!(port, 5555);
        }
        _ => panic!("expected the sender's address"),
    }
}

#[test]
fn new_sender_with_later_number_is_ignored() {
    let mut s = ServerSession { expected_seq: 3, current_target: client_addr() };
    let other = SocketAddress::V4 { ip: [10, 0, 0, 2], port: 5555 };
    let buf = receive_buffer(&generate_msg(&3, 0, &other, b"x"));
    assert!(matches!(s.on_datagram(&buf), ServerAction::Ignore(_)));
    assert_eq!(s.expected_seq, 0);
}

#[test]
fn one_round_trip_advances_both_sides() {
    let mut server = ServerSession::new(client_addr());
    let mut seq = 0u32;
    for text in ["one", "two", "three"] {
        let packet = generate_msg(&seq, 0, &client_addr(), text.as_bytes());
        let reply = match server.on_datagram(&receive_buffer(&packet)) {
            ServerAction::Reply { packet, show: true, .. } => packet,
            _ => panic!("expected the message to be accepted"),
        };
        let (mut d, _) = Delivery::start(3);
        let before = seq;
        assert!(matches!(d.on_event(&mut seq, &ClientEvent::Received(reply)), ClientAction::Acked(a) if a == before));
        assert_eq!(seq, before + 1);
        assert_eq!(server.expected_seq, seq);
    }
}
