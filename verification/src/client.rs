//! The client: its command-line checks, the line it reads from the user,
//! and the decisions of its stop-and-wait delivery of one message.

use vstd::prelude::*;
use vstd::string::StrSliceExecFns;
use vstd::string::StringExecFns;

use crate::args::{first_error, format_ip_port, ip_error, ip_port_text, port_error, validate_ip, validate_port};
use crate::text::{parse_u16, parse_unsigned};
use crate::wire::{ack_error, read_be32, verify_ack};

verus! {

/// The client's command-line values, as given. `target_ip_parses` tells
/// whether `target_ip` parses as an IPv4 or IPv6 address.
pub struct ClientArgs {
    pub target_ip: String,
    pub target_ip_parses: bool,
    pub target_port: String,
    pub timeout: String,
    pub max_retries: String,
}

/// The error for a timeout text: any text that is not a number from 0 to 65535.
pub open spec fn timeout_error(timeout: Seq<char>) -> Option<Seq<char>> {
    if parse_unsigned(timeout, 0xffff) is None {
        Some("Timeout must be a valid number: "@ + timeout)
    } else {
        None
    }
}

/// The error for a retry-count text: any text that is not a number from 0 to 65535.
pub open spec fn retries_error(retries: Seq<char>) -> Option<Seq<char>> {
    if parse_unsigned(retries, 0xffff) is None {
        Some("Max retries must be a valid number: "@ + retries)
    } else {
        None
    }
}

/// The first error among the client's values, checked in the order
/// address, port, timeout, retry count.
pub open spec fn client_args_error(args: ClientArgs) -> Option<Seq<char>> {
    first_error(
        ip_error(args.target_ip@, args.target_ip_parses),
        first_error(
            port_error(args.target_port@),
            first_error(timeout_error(args.timeout@), retries_error(args.max_retries@)),
        ),
    )
}

/// The client's values are accepted when the IP text parses and the port,
/// the timeout and the retry count read as numbers from 0 to 65535.
pub proof fn lemma_client_args_accepted(a: ClientArgs)
    requires
        a.target_ip_parses,
        parse_unsigned(a.target_port@, 0xffff) is Some,
        parse_unsigned(a.timeout@, 0xffff) is Some,
        parse_unsigned(a.max_retries@, 0xffff) is Some,
    ensures
        client_args_error(a) is None,
{
}

/// Reads the timeout, in seconds.
fn validate_timeout(timeout: &str) -> (r: Result<u16, String>)
    ensures
        match r {
            Ok(t) => timeout_error(timeout@) is None && parse_unsigned(timeout@, 0xffff) == Some(
                t as nat,
            ),
            Err(e) => timeout_error(timeout@) == Some(e@),
        },
{
    let timeout_num = match parse_u16(timeout) {
        Some(n) => n,
        None => {
            let mut e = String::from_str("Timeout must be a valid number: ");
            e.append(timeout);
            return Err(e);
        },
    };
    Ok(timeout_num)
}

/// Reads the largest number of tries per message.
fn validate_retries(retries: &str) -> (r: Result<u16, String>)
    ensures
        match r {
            Ok(n) => retries_error(retries@) is None && parse_unsigned(retries@, 0xffff) == Some(
                n as nat,
            ),
            Err(e) => retries_error(retries@) == Some(e@),
        },
{
    let max_retries = match parse_u16(retries) {
        Some(n) => n,
        None => {
            let mut e = String::from_str("Max retries must be a valid number: ");
            e.append(retries);
            return Err(e);
        },
    };
    Ok(max_retries)
}

/// Checks the client's values: on success, the server's socket address
/// text, the timeout and the largest number of tries per message.
pub fn validate_args(args: &ClientArgs) -> (r: Result<(String, u16, u16), String>)
    ensures
        match r {
            Ok((target, timeout, max_retries)) => {
                &&& client_args_error(*args) is None
                &&& target@ == ip_port_text(args.target_ip@, args.target_port@)
                &&& parse_unsigned(args.timeout@, 0xffff) == Some(timeout as nat)
                &&& parse_unsigned(args.max_retries@, 0xffff) == Some(max_retries as nat)
            },
            Err(e) => client_args_error(*args) == Some(e@),
        },
{
    let ip = args.target_ip.as_str();
    let port = args.target_port.as_str();
    validate_ip(ip, args.target_ip_parses)?;
    validate_port(port)?;
    let timeout = validate_timeout(args.timeout.as_str())?;
    let max_retries = validate_retries(args.max_retries.as_str())?;
    let formatted_ip_at_port = format_ip_port(ip, port);
    Ok((formatted_ip_at_port, timeout, max_retries))
}

/// A line as typed, without one final `\n` and then without one final `\r`.
pub open spec fn without_line_ending(line: Seq<char>) -> Seq<char> {
    let a = if line.len() > 0 && line.last() == '\n' {
        line.drop_last()
    } else {
        line
    };
    if a.len() > 0 && a.last() == '\r' {
        a.drop_last()
    } else {
        a
    }
}

/// The message is the line without only its line ending: the line is the
/// message followed by `\r\n` when it ends so, else by `\n` or `\r` when it
/// ends so, else by nothing.
pub proof fn lemma_message_is_line_without_ending(line: Seq<char>)
    ensures
        line == without_line_ending(line) + (if line.len() >= 2 && line[line.len() - 2] == '\r'
            && line[line.len() - 1] == '\n' {
            seq!['\r', '\n']
        } else if line.len() >= 1 && (line[line.len() - 1] == '\n' || line[line.len() - 1]
            == '\r') {
            seq![line[line.len() - 1]]
        } else {
            Seq::<char>::empty()
        }),
{
    let m = without_line_ending(line);
    if line.len() >= 2 && line[line.len() - 2] == '\r' && line[line.len() - 1] == '\n' {
        assert(line =~= m + seq!['\r', '\n']);
    } else if line.len() >= 1 && (line[line.len() - 1] == '\n' || line[line.len() - 1] == '\r') {
        assert(line =~= m + seq![line[line.len() - 1]]);
    } else {
        assert(line =~= m + Seq::<char>::empty());
    }
}

/// The message in a line read from the terminal: the line without its
/// line ending.
pub fn strip_line_ending(line: String) -> (r: String)
    ensures
        r@ == without_line_ending(line@),
{
    let s = line.as_str();
    let mut end = s.unicode_len();
    if end > 0 && s.get_char(end - 1) == '\n' {
        end = end - 1;
    }
    if end > 0 && s.get_char(end - 1) == '\r' {
        end = end - 1;
    }
    let r = String::from_str(s.substring_char(0, end));
    assert(r@ =~= without_line_ending(line@));
    r
}

/// What the client waits for after sending a message.
pub enum ClientEvent {
    /// A datagram arrived with these bytes.
    Received(Vec<u8>),
    /// Receiving failed.
    ReceiveFailed,
    /// No datagram arrived in time.
    TimedOut,
}

/// What the client does next.
pub enum ClientAction {
    /// Send the message (again) and wait.
    Send,
    /// The datagram received does not acknowledge the message, for the
    /// reason given. The try counts as failed; `send_again` tells whether a
    /// try is left, so that the message is sent again, or the message is
    /// given up.
    Rejected { reason: String, send_again: bool },
    /// The message is acknowledged with this number; it is delivered.
    Acked(u32),
    /// Every try has failed; the message is given up.
    GiveUp,
}

/// The bytes of a received datagram acknowledge the message numbered `seq`.
pub open spec fn acknowledges(bytes: Seq<u8>, seq: u32) -> bool {
    read_be32(bytes, 4) == seq
}

/// The event delivers the message numbered `seq`: a datagram that
/// acknowledges it.
pub open spec fn delivers(event: ClientEvent, seq: u32) -> bool {
    event matches ClientEvent::Received(bytes) && acknowledges(bytes@, seq)
}

/// The action sends the message (again).
pub open spec fn sends_again(action: ClientAction) -> bool {
    action is Send || action matches ClientAction::Rejected { send_again: true, .. }
}

/// How many times the client sends the message numbered `seq` when `retry`
/// of `max_retries` tries have failed and `events` are, in order, what
/// happens after each send: it sends while a try is left, and stops at the
/// first event that delivers the message or when the events run out.
pub open spec fn sends_for(retry: nat, max_retries: nat, seq: u32, events: Seq<ClientEvent>) -> nat
    decreases events.len(),
{
    if retry >= max_retries {
        0
    } else if events.len() == 0 {
        1
    } else if delivers(events[0], seq) {
        1
    } else {
        1 + sends_for(retry + 1, max_retries, seq, events.drop_first())
    }
}

/// Whatever replies, failures and timeouts follow, the client sends a
/// message at most `max_retries` times.
pub proof fn lemma_sends_bounded(max_retries: u16, seq: u32, events: Seq<ClientEvent>)
    ensures
        sends_for(0, max_retries as nat, seq, events) <= max_retries,
{
    lemma_sends_bounded_from(0, max_retries as nat, seq, events);
}

/// After `retry` failed tries, at most `max_retries - retry` sends remain.
proof fn lemma_sends_bounded_from(retry: nat, max_retries: nat, seq: u32, events: Seq<ClientEvent>)
    ensures
        retry <= max_retries ==> sends_for(retry, max_retries, seq, events) <= max_retries - retry,
        retry > max_retries ==> sends_for(retry, max_retries, seq, events) == 0,
    decreases events.len(),
{
    if retry < max_retries && events.len() > 0 && !delivers(events[0], seq) {
        lemma_sends_bounded_from(retry + 1, max_retries, seq, events.drop_first());
    }
}

/// The delivery of one message: how many tries have failed so far, out of
/// how many allowed.
pub struct Delivery {
    pub retry: u16,
    pub max_retries: u16,
}

impl Delivery {
    /// Starts delivering a message: it is sent unless no try is allowed.
    pub fn start(max_retries: u16) -> (r: (Delivery, ClientAction))
        ensures
            r.0.retry == 0,
            r.0.max_retries == max_retries,
            sends_again(r.1) <==> 0 < max_retries,
            if max_retries > 0 {
                r.1 is Send
            } else {
                r.1 is GiveUp
            },
    {
        let d = Delivery { retry: 0, max_retries };
        if d.retry < d.max_retries {
            (d, ClientAction::Send)
        } else {
            (d, ClientAction::GiveUp)
        }
    }

    /// Takes what happened after the message numbered `seq` was sent. A
    /// datagram that acknowledges `seq` delivers the message and the next
    /// message gets the next number. A datagram that does not, a failed
    /// wait and a timed-out wait each count one failed try; after
    /// `max_retries` of them the message is given up, so it is sent at most
    /// `max_retries` times.
    pub fn on_event(&mut self, seq: &mut u32, event: &ClientEvent) -> (r: ClientAction)
        requires
            old(self).retry < old(self).max_retries,
            event matches ClientEvent::Received(bytes) ==> bytes@.len() >= 8 && (acknowledges(
                bytes@,
                *old(seq),
            ) ==> *old(seq) < u32::MAX),
        ensures
            final(self).max_retries == old(self).max_retries,
            (r is Send || r matches ClientAction::Rejected { send_again: true, .. })
                ==> final(self).retry < final(self).max_retries,
            delivers(*event, *old(seq)) ==> r is Acked,
            !delivers(*event, *old(seq)) ==> {
                &&& final(self).retry == old(self).retry + 1
                &&& *final(seq) == *old(seq)
                &&& (sends_again(r) <==> final(self).retry < final(self).max_retries)
            },
            match event {
                ClientEvent::Received(bytes) => if acknowledges(bytes@, *old(seq)) {
                    &&& r matches ClientAction::Acked(a) && a == *old(seq)
                    &&& *final(seq) == *old(seq) + 1
                    &&& final(self).retry == old(self).retry
                } else {
                    &&& r matches ClientAction::Rejected { reason, send_again } && reason@
                        == ack_error(*old(seq), read_be32(bytes@, 4)) && send_again == (old(
                        self,
                    ).retry + 1 < old(self).max_retries)
                    &&& *final(seq) == *old(seq)
                    &&& final(self).retry == old(self).retry + 1
                },
                _ => {
                    &&& *final(seq) == *old(seq)
                    &&& final(self).retry == old(self).retry + 1
                    &&& if old(self).retry + 1 < old(self).max_retries {
                        r is Send
                    } else {
                        r is GiveUp
                    }
                },
            },
    {
        match event {
            ClientEvent::Received(bytes) => {
                match verify_ack(bytes.as_slice(), seq) {
                    Ok(ack) => {
                        *seq = *seq + 1;
                        return ClientAction::Acked(ack);
                    },
                    Err(e) => {
                        self.retry = self.retry + 1;
                        let send_again = self.retry < self.max_retries;
                        return ClientAction::Rejected { reason: e, send_again };
                    },
                }
            },
            ClientEvent::ReceiveFailed => {},
            ClientEvent::TimedOut => {},
        }
        self.retry = self.retry + 1;
        if self.retry < self.max_retries {
            ClientAction::Send
        } else {
            ClientAction::GiveUp
        }
    }
}

} // verus!
