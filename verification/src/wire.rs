//! The datagram format shared by client and server.
//!
//! A datagram is, in order: a sequence number (4 bytes), an acknowledgement
//! number (4 bytes), the sender's socket address (18 bytes: a 16-byte IPv6
//! address, IPv4 addresses mapped into IPv6, then the port), the payload
//! length (4 bytes), and the payload. All numbers are big-endian.

use vstd::prelude::*;
use vstd::string::StringExecFns;

use crate::text::{decimal, to_decimal};

verus! {

/// Where the acknowledgement number starts.
pub const ACK_START_INDEX: usize = 4;
/// Where the sender's socket address starts.
pub const SRC_TARGET_START_INDEX: usize = 8;
/// Where the payload length starts.
pub const MSG_LEN_START_INDEX: usize = 26;
/// Where the payload starts.
pub const MSG_START_INDEX: usize = 30;

/// A socket address: an IP address with a port.
#[derive(Clone, Copy, Debug)]
pub enum SocketAddress {
    V4 { ip: [u8; 4], port: u16 },
    V6 { ip: [u8; 16], port: u16 },
}

/// `a` and `b` are the same address of the same family.
pub open spec fn same_address(a: SocketAddress, b: SocketAddress) -> bool {
    match (a, b) {
        (SocketAddress::V4 { ip: ip_a, port: port_a }, SocketAddress::V4 { ip: ip_b, port: port_b }) =>
            ip_a@ == ip_b@ && port_a == port_b,
        (SocketAddress::V6 { ip: ip_a, port: port_a }, SocketAddress::V6 { ip: ip_b, port: port_b }) =>
            ip_a@ == ip_b@ && port_a == port_b,
        _ => false,
    }
}

/// The big-endian bytes of a 16-bit number.
pub open spec fn be16(v: u16) -> Seq<u8> {
    seq![(v >> 8u16) as u8, (v & 0xffu16) as u8]
}

/// The big-endian bytes of a 32-bit number.
pub open spec fn be32(v: u32) -> Seq<u8> {
    seq![
        (v >> 24u32) as u8,
        ((v >> 16u32) & 0xffu32) as u8,
        ((v >> 8u32) & 0xffu32) as u8,
        (v & 0xffu32) as u8,
    ]
}

/// The 16-bit number whose big-endian bytes are `s[i]`, `s[i + 1]`.
pub open spec fn read_be16(s: Seq<u8>, i: int) -> u16 {
    ((s[i] as u16) << 8u16) | (s[i + 1] as u16)
}

/// The 32-bit number whose big-endian bytes start at `s[i]`.
pub open spec fn read_be32(s: Seq<u8>, i: int) -> u32 {
    ((s[i] as u32) << 24u32) | ((s[i + 1] as u32) << 16u32) | ((s[i + 2] as u32) << 8u32) | (
    s[i + 3] as u32)
}

/// The 18 bytes that stand for a socket address in a datagram.
pub open spec fn address_bytes(a: SocketAddress) -> Seq<u8> {
    match a {
        SocketAddress::V4 { ip, port } => Seq::new(10, |i: int| 0u8) + seq![0xffu8, 0xffu8] + ip@
            + be16(port),
        SocketAddress::V6 { ip, port } => ip@ + be16(port),
    }
}

/// The payload length as the datagram carries it: the length modulo 2^32.
pub open spec fn length_field(len: nat) -> u32 {
    (len % 0x1_0000_0000) as u32
}

/// The datagram that carries `msg`.
pub open spec fn message_packet(seq: u32, ack: u32, src: SocketAddress, msg: Seq<u8>) -> Seq<u8> {
    be32(seq) + be32(ack) + address_bytes(src) + be32(length_field(msg.len())) + msg
}

/// The datagram that acknowledges: its address field is all zero.
pub open spec fn ack_packet(seq: u32, ack: u32, msg: Seq<u8>) -> Seq<u8> {
    be32(seq) + be32(ack) + Seq::new(18, |i: int| 0u8) + msg
}

/// The payload that a datagram announces: the bytes after the header,
/// as many as its length field says.
pub open spec fn payload(buf: Seq<u8>) -> Seq<u8> {
    buf.subrange(30, 30 + read_be32(buf, 26) as int)
}

/// Appends the big-endian bytes of `v`.
fn push_be32(buf: &mut Vec<u8>, v: u32)
    ensures
        final(buf)@ == old(buf)@ + be32(v),
{
    buf.push((v >> 24u32) as u8);
    buf.push(((v >> 16u32) & 0xffu32) as u8);
    buf.push(((v >> 8u32) & 0xffu32) as u8);
    buf.push((v & 0xffu32) as u8);
    assert(buf@ =~= old(buf)@ + be32(v));
}

/// Appends the bytes of `bytes`.
fn push_all(buf: &mut Vec<u8>, bytes: &[u8])
    ensures
        final(buf)@ == old(buf)@ + bytes@,
{
    let ghost start = buf@;
    let mut i: usize = 0;
    while i < bytes.len()
        invariant
            i <= bytes@.len(),
            buf@ == start + bytes@.subrange(0, i as int),
        decreases bytes@.len() - i,
    {
        buf.push(bytes[i]);
        i = i + 1;
        assert(buf@ =~= start + bytes@.subrange(0, i as int));
    }
    assert(bytes@.subrange(0, i as int) =~= bytes@);
}

/// Reads the big-endian 32-bit number at `at`.
pub fn read_u32_be(buf: &[u8], at: usize) -> (r: u32)
    requires
        at + 4 <= buf@.len(),
    ensures
        r == read_be32(buf@, at as int),
{
    ((buf[at] as u32) << 24u32) | ((buf[at + 1] as u32) << 16u32) | ((buf[at + 2] as u32) << 8u32)
        | (buf[at + 3] as u32)
}

/// The 18 bytes that stand for `addr` in a datagram: an IPv4 address is
/// written as an IPv4-mapped IPv6 address.
pub fn encode_socket_addr(addr: &SocketAddress) -> (r: [u8; 18])
    ensures
        r@ == address_bytes(*addr),
{
    let mut buf = [0u8; 18];
    match addr {
        SocketAddress::V4 { ip, port } => {
            buf[10] = 0xff;
            buf[11] = 0xff;
            buf[12] = ip[0];
            buf[13] = ip[1];
            buf[14] = ip[2];
            buf[15] = ip[3];
            buf[16] = (*port >> 8u16) as u8;
            buf[17] = (*port & 0xffu16) as u8;
        },
        SocketAddress::V6 { ip, port } => {
            let mut i: usize = 0;
            while i < 16
                invariant
                    i <= 16,
                    forall|j: int| 0 <= j < i ==> buf@[j] == ip@[j],
                decreases 16 - i,
            {
                buf[i] = ip[i];
                i = i + 1;
            }
            buf[16] = (*port >> 8u16) as u8;
            buf[17] = (*port & 0xffu16) as u8;
        },
    }
    assert(buf@ =~= address_bytes(*addr));
    buf
}

/// Builds the datagram that carries `msg` with sequence number `seq`.
pub fn generate_msg(seq: &u32, ack: u32, src_target: &SocketAddress, msg: &[u8]) -> (r: Vec<u8>)
    ensures
        r@ == message_packet(*seq, ack, *src_target, msg@),
{
    let mut buf = Vec::new();
    push_be32(&mut buf, *seq);
    push_be32(&mut buf, ack);
    let addr = encode_socket_addr(src_target);
    push_all(&mut buf, &addr);
    let msg_len = (msg.len() as u64 % 0x1_0000_0000u64) as u32;
    push_be32(&mut buf, msg_len);
    push_all(&mut buf, msg);
    buf
}

/// Builds an acknowledgement datagram: sequence number `seq`,
/// acknowledgement number `ack`, a zero address field, then `msg`.
pub fn generate_ack(seq: &u32, ack: u32, msg: &[u8]) -> (r: Vec<u8>)
    ensures
        r@ == ack_packet(*seq, ack, msg@),
{
    let mut buf = Vec::new();
    push_be32(&mut buf, *seq);
    push_be32(&mut buf, ack);
    let mut i: usize = 0;
    while i < 18
        invariant
            i <= 18,
            buf@ == be32(*seq) + be32(ack) + Seq::new(i as nat, |j: int| 0u8),
        decreases 18 - i,
    {
        buf.push(0u8);
        i = i + 1;
        assert(buf@ =~= be32(*seq) + be32(ack) + Seq::new(i as nat, |j: int| 0u8));
    }
    push_all(&mut buf, msg);
    buf
}

/// The error for an acknowledgement number other than the one awaited.
pub open spec fn ack_error(expected: u32, actual: u32) -> Seq<char> {
    "duplicate ack. expected ack "@ + decimal(expected as nat) + ", actual ack "@ + decimal(
        actual as nat,
    )
}

/// Reads the acknowledgement number of `buf` and accepts it when it is
/// `expected_ack`.
pub fn verify_ack(buf: &[u8], expected_ack: &mut u32) -> (r: Result<u32, String>)
    requires
        buf@.len() >= 8,
    ensures
        *final(expected_ack) == *old(expected_ack),
        match r {
            Ok(ack) => ack == *old(expected_ack) && read_be32(buf@, 4) == ack,
            Err(e) => read_be32(buf@, 4) != *old(expected_ack) && e@ == ack_error(
                *old(expected_ack),
                read_be32(buf@, 4),
            ),
        },
{
    let ack = read_u32_be(buf, ACK_START_INDEX);
    if *expected_ack != ack {
        let mut e = String::from_str("duplicate ack. expected ack ");
        let expected_text = to_decimal(*expected_ack as u64);
        e.append(expected_text.as_str());
        e.append(", actual ack ");
        let actual_text = to_decimal(ack as u64);
        e.append(actual_text.as_str());
        Err(e)
    } else {
        Ok(ack)
    }
}

/// The error for a sequence number that is neither the awaited one nor the
/// one before it.
pub open spec fn seq_error(expected: u32, actual: u32) -> Seq<char> {
    "Out of order packet. expected seq "@ + decimal(expected as nat) + ", actual seq "@ + decimal(
        actual as nat,
    )
}

/// Reads the sequence number of `buf`. The awaited number is accepted, to
/// be shown, and the next one is then awaited; the number before it is a
/// repeat, accepted again but not shown; any other is refused.
pub fn verify_msg(buf: &[u8], expected_seq: &mut u32) -> (r: Result<(u32, bool), String>)
    requires
        buf@.len() >= 4,
        read_be32(buf@, 0) == *old(expected_seq) ==> *old(expected_seq) < u32::MAX,
    ensures
        ({
            let seq = read_be32(buf@, 0);
            let exp = *old(expected_seq);
            if seq == exp {
                r == Ok::<(u32, bool), String>((seq, true)) && *final(expected_seq) == exp + 1
            } else if exp > 0 && seq == exp - 1 {
                r == Ok::<(u32, bool), String>((seq, false)) && *final(expected_seq) == exp
            } else {
                r matches Err(e) && e@ == seq_error(exp, seq) && *final(expected_seq) == exp
            }
        }),
{
    let seq = read_u32_be(buf, 0);
    if seq == *expected_seq {
        *expected_seq = *expected_seq + 1;
        Ok((seq, true))
    } else if *expected_seq > 0 && seq == *expected_seq - 1 {
        Ok((seq, false))
    } else {
        let mut e = String::from_str("Out of order packet. expected seq ");
        let expected_text = to_decimal(*expected_seq as u64);
        e.append(expected_text.as_str());
        e.append(", actual seq ");
        let actual_text = to_decimal(seq as u64);
        e.append(actual_text.as_str());
        Err(e)
    }
}

/// The error for an address field of the wrong size.
pub open spec fn src_target_error(len: nat) -> Seq<char> {
    "Expected 18 bytes for src_target, got "@ + decimal(len) + " bytes"@
}

/// Reads the sender's address from its 18 bytes: an IPv6 address and a port.
pub fn parse_src_target(src_bytes: &[u8]) -> (r: Result<SocketAddress, String>)
    ensures
        match r {
            Ok(a) => src_bytes@.len() == 18 && (a matches SocketAddress::V6 { ip, port } && ip@
                == src_bytes@.subrange(0, 16) && port == read_be16(src_bytes@, 16)),
            Err(e) => src_bytes@.len() != 18 && e@ == src_target_error(src_bytes@.len()),
        },
{
    if src_bytes.len() != 18 {
        let mut e = String::from_str("Expected 18 bytes for src_target, got ");
        let len_text = to_decimal(src_bytes.len() as u64);
        e.append(len_text.as_str());
        e.append(" bytes");
        return Err(e);
    }
    let mut ip_bytes = [0u8; 16];
    let mut i: usize = 0;
    while i < 16
        invariant
            i <= 16,
            src_bytes@.len() == 18,
            forall|j: int| 0 <= j < i ==> ip_bytes@[j] == src_bytes@[j],
        decreases 16 - i,
    {
        ip_bytes[i] = src_bytes[i];
        i = i + 1;
    }
    assert(ip_bytes@ =~= src_bytes@.subrange(0, 16));
    let port = ((src_bytes[16] as u16) << 8u16) | (src_bytes[17] as u16);
    Ok(SocketAddress::V6 { ip: ip_bytes, port })
}

/// Whether `a` and `b` are the same address.
pub fn same_socket_address(a: &SocketAddress, b: &SocketAddress) -> (r: bool)
    ensures
        r == same_address(*a, *b),
{
    match (a, b) {
        (SocketAddress::V4 { ip: ip_a, port: port_a }, SocketAddress::V4 { ip: ip_b, port: port_b }) => {
            if *port_a != *port_b {
                return false;
            }
            same_bytes(ip_a, ip_b)
        },
        (SocketAddress::V6 { ip: ip_a, port: port_a }, SocketAddress::V6 { ip: ip_b, port: port_b }) => {
            if *port_a != *port_b {
                return false;
            }
            same_bytes(ip_a, ip_b)
        },
        _ => false,
    }
}

/// Whether `a` and `b` hold the same bytes.
fn same_bytes(a: &[u8], b: &[u8]) -> (r: bool)
    ensures
        r == (a@ == b@),
{
    if a.len() != b.len() {
        return false;
    }
    let mut i: usize = 0;
    while i < a.len()
        invariant
            i <= a@.len(),
            a@.len() == b@.len(),
            forall|j: int| 0 <= j < i ==> a@[j] == b@[j],
        decreases a@.len() - i,
    {
        if a[i] != b[i] {
            return false;
        }
        i = i + 1;
    }
    assert(a@ =~= b@);
    true
}

/// The payload of a received datagram, as its length field gives it.
pub fn message_payload(buf: &[u8]) -> (r: &[u8])
    requires
        buf@.len() >= 30,
        30 + read_be32(buf@, 26) <= buf@.len(),
    ensures
        r@ == payload(buf@),
{
    let len_field = read_u32_be(buf, MSG_LEN_START_INDEX);
    let msg_len = len_field as usize;
    let total = buf.len();
    assert(msg_len == len_field && MSG_START_INDEX + msg_len <= total);
    vstd::slice::slice_subrange(buf, MSG_START_INDEX, MSG_START_INDEX + msg_len)
}

/// Reading back the big-endian bytes of a 32-bit number gives the number.
pub proof fn lemma_be32_roundtrip(v: u32)
    ensures
        be32(v).len() == 4,
        read_be32(be32(v), 0) == v,
{
    let b0 = (v >> 24u32) as u8;
    let b1 = ((v >> 16u32) & 0xffu32) as u8;
    let b2 = ((v >> 8u32) & 0xffu32) as u8;
    let b3 = (v & 0xffu32) as u8;
    assert(((b0 as u32) << 24u32) | ((b1 as u32) << 16u32) | ((b2 as u32) << 8u32) | (b3 as u32)
        == v) by (bit_vector)
        requires
            b0 == (v >> 24u32) as u8,
            b1 == ((v >> 16u32) & 0xffu32) as u8,
            b2 == ((v >> 8u32) & 0xffu32) as u8,
            b3 == (v & 0xffu32) as u8,
    ;
}

/// Reading back the big-endian bytes of a 16-bit number gives the number.
pub proof fn lemma_be16_roundtrip(v: u16)
    ensures
        be16(v).len() == 2,
        read_be16(be16(v), 0) == v,
{
    let b0 = (v >> 8u16) as u8;
    let b1 = (v & 0xffu16) as u8;
    assert(((b0 as u16) << 8u16) | (b1 as u16) == v) by (bit_vector)
        requires
            b0 == (v >> 8u16) as u8,
            b1 == (v & 0xffu16) as u8,
    ;
}

/// A 32-bit number whose bytes sit at `i` in `s` is read back from there.
proof fn lemma_read_be32_at(s: Seq<u8>, i: int, v: u32)
    requires
        0 <= i,
        i + 4 <= s.len(),
        s.subrange(i, i + 4) == be32(v),
    ensures
        read_be32(s, i) == v,
{
    lemma_be32_roundtrip(v);
    let b = be32(v);
    assert(s[i] == b[0] && s[i + 1] == b[1] && s[i + 2] == b[2] && s[i + 3] == b[3]) by {
        assert(s.subrange(i, i + 4)[0] == s[i]);
        assert(s.subrange(i, i + 4)[1] == s[i + 1]);
        assert(s.subrange(i, i + 4)[2] == s[i + 2]);
        assert(s.subrange(i, i + 4)[3] == s[i + 3]);
    }
}

/// Every field of a message datagram reads back as it was written: the
/// sequence and acknowledgement numbers, the sender's address, the payload
/// length and, when the length fits its field, the payload.
pub proof fn lemma_message_packet_fields(seq: u32, ack: u32, src: SocketAddress, msg: Seq<u8>)
    ensures
        ({
            let p = message_packet(seq, ack, src, msg);
            &&& p.len() == 30 + msg.len()
            &&& read_be32(p, 0) == seq
            &&& read_be32(p, 4) == ack
            &&& p.subrange(8, 26) == address_bytes(src)
            &&& read_be32(p, 26) == length_field(msg.len())
            &&& msg.len() < 0x1_0000_0000 ==> payload(p) == msg
        }),
{
    let p = message_packet(seq, ack, src, msg);
    lemma_be32_roundtrip(seq);
    lemma_be32_roundtrip(ack);
    lemma_be32_roundtrip(length_field(msg.len()));
    assert(address_bytes(src).len() == 18) by {
        match src {
            SocketAddress::V4 { ip, port } => {},
            SocketAddress::V6 { ip, port } => {},
        }
    }
    assert(p.subrange(0, 4) =~= be32(seq));
    assert(p.subrange(4, 8) =~= be32(ack));
    assert(p.subrange(8, 26) =~= address_bytes(src));
    assert(p.subrange(26, 30) =~= be32(length_field(msg.len())));
    lemma_read_be32_at(p, 0, seq);
    lemma_read_be32_at(p, 4, ack);
    lemma_read_be32_at(p, 26, length_field(msg.len()));
    if msg.len() < 0x1_0000_0000 {
        assert(length_field(msg.len()) == msg.len());
        assert(payload(p) =~= msg);
    }
}

/// An acknowledgement datagram carries its sequence and acknowledgement
/// numbers where a message carries them.
pub proof fn lemma_ack_packet_fields(seq: u32, ack: u32, msg: Seq<u8>)
    ensures
        ({
            let p = ack_packet(seq, ack, msg);
            &&& p.len() == 26 + msg.len()
            &&& read_be32(p, 0) == seq
            &&& read_be32(p, 4) == ack
        }),
{
    let p = ack_packet(seq, ack, msg);
    lemma_be32_roundtrip(seq);
    lemma_be32_roundtrip(ack);
    assert(p.subrange(0, 4) =~= be32(seq));
    assert(p.subrange(4, 8) =~= be32(ack));
    lemma_read_be32_at(p, 0, seq);
    lemma_read_be32_at(p, 4, ack);
}

/// The address that the server reads from the 18 address bytes of `a` is
/// `a` itself for an IPv6 address, and the IPv4-mapped IPv6 address with
/// the same port for an IPv4 address.
pub proof fn lemma_address_roundtrip(a: SocketAddress, b: SocketAddress)
    requires
        b matches SocketAddress::V6 { ip, port } && ip@ == address_bytes(a).subrange(0, 16)
            && port == read_be16(address_bytes(a), 16),
    ensures
        address_bytes(a).len() == 18,
        a is V6 ==> same_address(a, b),
        a matches SocketAddress::V4 { ip: ip4, port: port4 } ==> (b matches SocketAddress::V6 {
            ip,
            port,
        } && ip@ == Seq::new(10, |i: int| 0u8) + seq![0xffu8, 0xffu8] + ip4@ && port == port4),
{
    match a {
        SocketAddress::V4 { ip: ip4, port: port4 } => {
            lemma_be16_roundtrip(port4);
            let bytes = address_bytes(a);
            assert(bytes.subrange(0, 16) =~= Seq::new(10, |i: int| 0u8) + seq![0xffu8, 0xffu8]
                + ip4@);
            assert(bytes[16] == be16(port4)[0] && bytes[17] == be16(port4)[1]);
        },
        SocketAddress::V6 { ip: ip6, port: port6 } => {
            lemma_be16_roundtrip(port6);
            let bytes = address_bytes(a);
            assert(bytes.subrange(0, 16) =~= ip6@);
            assert(bytes[16] == be16(port6)[0] && bytes[17] == be16(port6)[1]);
        },
    }
}

} // verus!
