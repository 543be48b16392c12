//! Checks on command-line values that all three programs share: an IP
//! address, a port, and the `host:port` text that the sockets are given.

use vstd::prelude::*;
use vstd::string::StrSliceExecFns;
use vstd::string::StringExecFns;

use crate::text::{parse_u16, parse_unsigned};

verus! {

/// The first error of two, or `None` when neither is one.
pub open spec fn first_error(a: Option<Seq<char>>, b: Option<Seq<char>>) -> Option<Seq<char>> {
    if a is Some {
        a
    } else {
        b
    }
}

/// The error for an IP text: `ip_parses` tells whether `ip` parses as an
/// IPv4 or IPv6 address. The loopback text `::1` is always taken.
pub open spec fn ip_error(ip: Seq<char>, ip_parses: bool) -> Option<Seq<char>> {
    if !ip_parses && ip != "::1"@ {
        Some("Invalid IP address... Neither IPv4 or IPv6: "@ + ip)
    } else {
        None
    }
}

/// The error for a port text: any text that is not a number from 0 to 65535.
pub open spec fn port_error(port: Seq<char>) -> Option<Seq<char>> {
    if parse_unsigned(port, 0xffff) is None {
        Some("Port must be a valid number between 0-65535: "@ + port)
    } else {
        None
    }
}

/// The socket address text for `ip` and `port`: an IPv6 address, which
/// holds a `:`, goes in square brackets.
pub open spec fn ip_port_text(ip: Seq<char>, port: Seq<char>) -> Seq<char> {
    if ip.contains(':') {
        "["@ + ip + "]:"@ + port
    } else {
        ip + ":"@ + port
    }
}

/// `a` and `b` hold the same characters.
pub fn same_text(a: &str, b: &str) -> (r: bool)
    ensures
        r == (a@ == b@),
{
    String::from_str(a) == String::from_str(b)
}

/// Checks an IP address given on the command line. Whether `ip` parses as
/// an `IpAddr` is decided by the caller and given as `ip_parses`.
pub fn validate_ip(ip: &str, ip_parses: bool) -> (r: Result<(), String>)
    ensures
        match r {
            Ok(_) => ip_error(ip@, ip_parses) is None,
            Err(e) => ip_error(ip@, ip_parses) == Some(e@),
        },
{
    if !ip_parses && !same_text(ip, "::1") {
        let mut e = String::from_str("Invalid IP address... Neither IPv4 or IPv6: ");
        e.append(ip);
        return Err(e);
    }
    Ok(())
}

/// Checks a port given on the command line.
pub fn validate_port(port: &str) -> (r: Result<(), String>)
    ensures
        match r {
            Ok(_) => port_error(port@) is None,
            Err(e) => port_error(port@) == Some(e@),
        },
{
    match parse_u16(port) {
        Some(_) => {},
        None => {
            let mut e = String::from_str("Port must be a valid number between 0-65535: ");
            e.append(port);
            return Err(e);
        },
    }
    Ok(())
}

/// `s` holds the character `c`.
pub fn contains_char(s: &str, c: char) -> (r: bool)
    ensures
        r == s@.contains(c),
{
    let len = s.unicode_len();
    let mut i: usize = 0;
    while i < len
        invariant
            i <= len,
            len == s@.len(),
            forall|j: int| 0 <= j < i ==> s@[j] != c,
        decreases len - i,
    {
        if s.get_char(i) == c {
            return true;
        }
        i = i + 1;
    }
    false
}

/// The text `ip:port`, or `[ip]:port` for an IPv6 address.
pub fn format_ip_port(ip: &str, port: &str) -> (r: String)
    ensures
        r@ == ip_port_text(ip@, port@),
{
    if contains_char(ip, ':') {
        let mut s = String::from_str("[");
        s.append(ip);
        s.append("]:");
        s.append(port);
        return s;
    }
    let mut s = String::from_str(ip);
    s.append(":");
    s.append(port);
    s
}

} // verus!
