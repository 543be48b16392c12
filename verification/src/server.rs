//! The server: its command-line checks and the decisions it takes for each
//! datagram it receives.

use vstd::prelude::*;

use crate::args::{first_error, format_ip_port, ip_error, ip_port_text, port_error, validate_ip, validate_port};
use crate::text::parse_unsigned;
use crate::wire::{
    ack_packet, generate_ack, parse_src_target, read_be16, read_be32, same_socket_address,
    seq_error, verify_msg, SocketAddress, MSG_LEN_START_INDEX, SRC_TARGET_START_INDEX,
};

verus! {

/// The server's command-line values, as given. `target_ip_parses` tells
/// whether `target_ip` parses as an IPv4 or IPv6 address.
pub struct ServerArgs {
    pub target_ip: String,
    pub target_ip_parses: bool,
    pub target_port: String,
}

/// The first error among the server's values: address, then port.
pub open spec fn server_args_error(args: ServerArgs) -> Option<Seq<char>> {
    first_error(ip_error(args.target_ip@, args.target_ip_parses), port_error(args.target_port@))
}

/// The server's values are accepted when the IP text parses and the port
/// reads as a number from 0 to 65535.
pub proof fn lemma_server_args_accepted(a: ServerArgs)
    requires
        a.target_ip_parses,
        parse_unsigned(a.target_port@, 0xffff) is Some,
    ensures
        server_args_error(a) is None,
{
}

/// Checks the server's values: on success, the socket address text to
/// listen on.
pub fn validate_args(args: &ServerArgs) -> (r: Result<String, String>)
    ensures
        match r {
            Ok(addr) => server_args_error(*args) is None && addr@ == ip_port_text(
                args.target_ip@,
                args.target_port@,
            ),
            Err(e) => server_args_error(*args) == Some(e@),
        },
{
    let ip = args.target_ip.as_str();
    let port = args.target_port.as_str();
    validate_ip(ip, args.target_ip_parses)?;
    validate_port(port)?;
    let formatted_ip_at_port = format_ip_port(ip, port);
    Ok(formatted_ip_at_port)
}

/// What the server remembers between datagrams: the sequence number it
/// awaits, and from whom.
#[derive(Clone, Copy)]
pub struct ServerSession {
    pub expected_seq: u32,
    pub current_target: SocketAddress,
}

/// What the server does with a datagram.
pub enum ServerAction {
    /// The sender's address could not be read; nothing is sent.
    Skip(String),
    /// Acknowledge sequence number `seq` by sending `packet`; `show` tells
    /// whether the message is new and is to be shown.
    Reply { seq: u32, show: bool, packet: Vec<u8> },
    /// The sequence number is out of order; nothing is sent.
    Ignore(String),
}

/// The address field of the datagram `buf` names `addr`.
pub open spec fn sent_from(buf: Seq<u8>, addr: SocketAddress) -> bool {
    addr matches SocketAddress::V6 { ip, port } && ip@ == buf.subrange(8, 24) && port == read_be16(
        buf,
        24,
    )
}

/// The sequence number the server awaits for `buf`: the session's, or 0
/// when `buf` comes from another sender than the session's.
pub open spec fn awaited_seq(s: ServerSession, buf: Seq<u8>) -> u32 {
    if sent_from(buf, s.current_target) {
        s.expected_seq
    } else {
        0
    }
}

/// How the server takes the sequence number of `buf`: `Some((seq, true))`
/// for the awaited one, `Some((seq, false))` for a repeat of the one
/// before it, `None` for any other.
pub open spec fn accepted_seq(s: ServerSession, buf: Seq<u8>) -> Option<(u32, bool)> {
    let exp = awaited_seq(s, buf);
    let seq = read_be32(buf, 0);
    if seq == exp {
        Some((seq, true))
    } else if exp > 0 && seq == (exp - 1) as u32 {
        Some((seq, false))
    } else {
        None
    }
}

/// The sequence number the server awaits after `buf`.
pub open spec fn next_expected(s: ServerSession, buf: Seq<u8>) -> u32 {
    let exp = awaited_seq(s, buf);
    if read_be32(buf, 0) == exp {
        (exp + 1) as u32
    } else {
        exp
    }
}

impl ServerSession {
    /// A session that awaits sequence number 0 from `target`.
    pub fn new(target: SocketAddress) -> (r: ServerSession)
        ensures
            r.expected_seq == 0,
            r.current_target == target,
    {
        ServerSession { expected_seq: 0, current_target: target }
    }

    /// The sequence number the server awaits for the datagram `buf`: the
    /// session's, or 0 when `buf` comes from another sender.
    pub fn awaited(&self, buf: &[u8]) -> (r: u32)
        requires
            buf@.len() >= 26,
        ensures
            r == awaited_seq(*self, buf@),
    {
        let src_bytes = vstd::slice::slice_subrange(buf, SRC_TARGET_START_INDEX, MSG_LEN_START_INDEX);
        match parse_src_target(src_bytes) {
            Ok(src_target) => {
                proof {
                    assert(src_bytes@.subrange(0, 16) =~= buf@.subrange(8, 24));
                    assert(read_be16(src_bytes@, 16) == read_be16(buf@, 24));
                }
                if same_socket_address(&src_target, &self.current_target) {
                    self.expected_seq
                } else {
                    0
                }
            },
            Err(_) => 0,
        }
    }

    /// Takes one received datagram (the whole receive buffer). A datagram
    /// from a new sender starts a new session that awaits sequence number
    /// 0. The awaited number is acknowledged and shown, a repeat of the one
    /// before is acknowledged again but not shown, any other is ignored.
    pub fn on_datagram(&mut self, buf: &[u8]) -> (r: ServerAction)
        requires
            buf@.len() >= 26,
            read_be32(buf@, 0) == awaited_seq(*old(self), buf@) ==> awaited_seq(*old(self), buf@)
                < u32::MAX,
        ensures
            final(self).expected_seq == next_expected(*old(self), buf@),
            final(self).current_target matches SocketAddress::V6 { ip, port } && ip@
                == buf@.subrange(8, 24) && port == read_be16(buf@, 24),
            if sent_from(buf@, old(self).current_target) {
                final(self).current_target == old(self).current_target
            } else {
                sent_from(buf@, final(self).current_target)
            },
            match accepted_seq(*old(self), buf@) {
                Some((seq, show)) => r matches ServerAction::Reply { seq: s, show: sh, packet }
                    && s == seq && sh == show && packet@ == ack_packet(0, seq, Seq::empty()),
                None => r matches ServerAction::Ignore(e) && e@ == seq_error(
                    awaited_seq(*old(self), buf@),
                    read_be32(buf@, 0),
                ),
            },
    {
        let src_bytes = vstd::slice::slice_subrange(buf, SRC_TARGET_START_INDEX, MSG_LEN_START_INDEX);
        let src_target = match parse_src_target(src_bytes) {
            Ok(addr) => addr,
            Err(e) => {
                return ServerAction::Skip(e);
            },
        };
        proof {
            assert(src_bytes@.subrange(0, 16) =~= buf@.subrange(8, 24));
            assert(read_be16(src_bytes@, 16) == read_be16(buf@, 24));
        }
        if !same_socket_address(&src_target, &self.current_target) {
            self.expected_seq = 0;
            self.current_target = src_target;
        }
        match verify_msg(buf, &mut self.expected_seq) {
            Ok((seq, do_print)) => {
                let packet = generate_ack(&0, seq, &[]);
                ServerAction::Reply { seq, show: do_print, packet }
            },
            Err(e) => ServerAction::Ignore(e),
        }
    }
}

/// A datagram whose address field names another host or another port than
/// the session's sender comes from a new sender, even one on the same host:
/// the server awaits 0 for it, accepts it as new exactly when its number is
/// 0, and then awaits 1, or keeps awaiting 0.
pub proof fn lemma_other_address_is_new_sender(s: ServerSession, buf: Seq<u8>)
    requires
        s.current_target matches SocketAddress::V6 { ip, port } ==> (ip@ != buf.subrange(8, 24)
            || port != read_be16(buf, 24)),
    ensures
        awaited_seq(s, buf) == 0,
        accepted_seq(s, buf) == (if read_be32(buf, 0) == 0 {
            Some((0u32, true))
        } else {
            None
        }),
        next_expected(s, buf) == (if read_be32(buf, 0) == 0 {
            1u32
        } else {
            0u32
        }),
{
}

} // verus!
