//! Properties of client and server taken together: what one side writes,
//! the other reads back.

use vstd::prelude::*;

use crate::client::acknowledges;
use crate::server::{
    accepted_seq, awaited_seq, lemma_other_address_is_new_sender, next_expected, sent_from,
    ServerSession,
};
use crate::wire::{
    ack_packet, address_bytes, be16, lemma_ack_packet_fields, lemma_be16_roundtrip,
    lemma_message_packet_fields, message_packet, read_be16, read_be32, same_address,
    SocketAddress,
};

verus! {

/// The server reads the address field of a client's message as the
/// client's own address: the same one for an IPv6 client.
pub proof fn lemma_sender_recognised(seq: u32, ack: u32, src: SocketAddress, msg: Seq<u8>, current: SocketAddress)
    requires
        src is V6,
        same_address(current, src),
    ensures
        sent_from(message_packet(seq, ack, src, msg), current),
{
    let p = message_packet(seq, ack, src, msg);
    lemma_message_packet_fields(seq, ack, src, msg);
    let bytes = address_bytes(src);
    match (src, current) {
        (SocketAddress::V6 { ip: ip_s, port: port_s }, SocketAddress::V6 { ip: ip_c, port: port_c }) => {
            lemma_be16_roundtrip(port_s);
            assert(bytes.subrange(0, 16) =~= ip_s@);
            assert(bytes[16] == be16(port_s)[0] && bytes[17] == be16(port_s)[1]);
            assert(p.subrange(8, 26)[16] == p[24] && p.subrange(8, 26)[17] == p[25]);
            assert(p.subrange(8, 24) =~= bytes.subrange(0, 16));
            assert(read_be16(p, 24) == read_be16(be16(port_s), 0));
        },
        _ => {},
    }
}

/// A message whose number is the one the server awaits from its sender is
/// accepted and shown, the server then awaits the next number, and the
/// acknowledgement that the server sends back acknowledges that message at
/// the client.
pub proof fn lemma_round_trip(s: ServerSession, seq: u32, ack: u32, src: SocketAddress, msg: Seq<u8>)
    requires
        sent_from(message_packet(seq, ack, src, msg), s.current_target),
        s.expected_seq == seq,
        seq < u32::MAX,
    ensures
        ({
            let p = message_packet(seq, ack, src, msg);
            let reply = ack_packet(0, seq, Seq::empty());
            &&& accepted_seq(s, p) == Some((seq, true))
            &&& next_expected(s, p) == seq + 1
            &&& reply.len() >= 8
            &&& acknowledges(reply, seq)
        }),
{
    lemma_message_packet_fields(seq, ack, src, msg);
    lemma_ack_packet_fields(0, seq, Seq::empty());
}

/// A datagram that the server accepted as new and that arrives again, from
/// the same sender, is acknowledged again but not shown again, and the
/// server keeps awaiting the same number.
pub proof fn lemma_repeat_acknowledged(s: ServerSession, buf: Seq<u8>, t: ServerSession)
    requires
        accepted_seq(s, buf) == Some((read_be32(buf, 0), true)),
        read_be32(buf, 0) < u32::MAX,
        t.expected_seq == next_expected(s, buf),
        sent_from(buf, t.current_target),
    ensures
        accepted_seq(t, buf) == Some((read_be32(buf, 0), false)),
        next_expected(t, buf) == t.expected_seq,
{
}

/// A datagram from another sender than the one the server knows starts a
/// new exchange: it is accepted as new exactly when its number is 0.
pub proof fn lemma_new_sender(s: ServerSession, buf: Seq<u8>)
    requires
        !sent_from(buf, s.current_target),
    ensures
        awaited_seq(s, buf) == 0,
        accepted_seq(s, buf) == (if read_be32(buf, 0) == 0 {
            Some((0u32, true))
        } else {
            None
        }),
{
}

/// A client that sends from another port than the session's sender, on
/// the same host or not, is a new sender: its first message, numbered 0, is
/// accepted and shown, and any other number is ignored.
pub proof fn lemma_restarted_client(s: ServerSession, seq: u32, ack: u32, src: SocketAddress, msg: Seq<u8>)
    requires
        src matches SocketAddress::V6 { port: p, .. } && s.current_target matches SocketAddress::V6 {
            port: q,
            ..
        } && p != q,
    ensures
        ({
            let d = message_packet(seq, ack, src, msg);
            &&& awaited_seq(s, d) == 0
            &&& accepted_seq(s, d) == (if seq == 0 {
                Some((0u32, true))
            } else {
                None
            })
            &&& next_expected(s, d) == (if seq == 0 {
                1u32
            } else {
                0u32
            })
        }),
{
    let d = message_packet(seq, ack, src, msg);
    lemma_message_packet_fields(seq, ack, src, msg);
    let bytes = address_bytes(src);
    match src {
        SocketAddress::V6 { ip: ip_s, port: port_s } => {
            lemma_be16_roundtrip(port_s);
            assert(bytes[16] == be16(port_s)[0] && bytes[17] == be16(port_s)[1]);
            assert(d.subrange(8, 26)[16] == d[24] && d.subrange(8, 26)[17] == d[25]);
            assert(read_be16(d, 24) == read_be16(be16(port_s), 0));
        },
        _ => {},
    }
    lemma_other_address_is_new_sender(s, d);
}

} // verus!
