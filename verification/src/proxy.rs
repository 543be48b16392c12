//! The proxy: its configuration, its command-line checks, where it sends
//! each datagram, and the random draws that drop or delay a datagram.

use vstd::prelude::*;
use vstd::string::StringExecFns;

use rand::rngs::ThreadRng;
use rand::Rng;

use crate::args::{first_error, format_ip_port, ip_error, ip_port_text, port_error, same_text, validate_ip, validate_port};
use crate::text::{decimal, lemma_parse_decimal, parse_u16, parse_u8, parse_unsigned, to_decimal};

verus! {

/// The proxy's settings. `client_addr` is the address of the last client
/// heard from (`_` before any); chances are percentages, delays are in
/// milliseconds.
pub struct ProxyConfig {
    pub proxy_addr: String,
    pub server_addr: String,
    pub client_addr: String,
    pub client_drop: u8,
    pub server_drop: u8,
    pub client_delay: u8,
    pub server_delay: u8,
    pub client_delay_min: u16,
    pub client_delay_max: u16,
    pub server_delay_min: u16,
    pub server_delay_max: u16,
}

impl ProxyConfig {
    /// Every chance is a percentage and every delay range runs upward.
    pub open spec fn valid(&self) -> bool {
        &&& self.client_drop <= 100
        &&& self.server_drop <= 100
        &&& self.client_delay <= 100
        &&& self.server_delay <= 100
        &&& self.client_delay_min <= self.client_delay_max
        &&& self.server_delay_min <= self.server_delay_max
    }
}

/// The proxy's command-line values, as given. `listen_ip_parses` and
/// `target_ip_parses` tell whether the two IP texts parse as IPv4 or IPv6
/// addresses.
pub struct ProxyArgs {
    pub listen_ip: String,
    pub listen_ip_parses: bool,
    pub listen_port: String,
    pub target_ip: String,
    pub target_ip_parses: bool,
    pub target_port: String,
    pub client_drop: String,
    pub server_drop: String,
    pub client_delay: String,
    pub server_delay: String,
    pub client_delay_time_min: String,
    pub client_delay_time_max: String,
    pub server_delay_time_min: String,
    pub server_delay_time_max: String,
}

/// The error for a chance text: not a number from 0 to 255, or above 100.
pub open spec fn chance_error(chance: Seq<char>) -> Option<Seq<char>> {
    match parse_unsigned(chance, 0xff) {
        None => Some("Chance must be a valid number: "@ + chance),
        Some(n) => if n > 100 {
            Some("Chance must be a valid percentage: "@ + decimal(n))
        } else {
            None
        },
    }
}

/// The error for a delay range: either end not a number from 0 to 65535,
/// or a maximum below the minimum.
pub open spec fn delay_range_error(min: Seq<char>, max: Seq<char>) -> Option<Seq<char>> {
    match (parse_unsigned(min, 0xffff), parse_unsigned(max, 0xffff)) {
        (None, _) => Some("Min delay must be a valid number: "@ + min),
        (Some(_), None) => Some("Max delay must be a valid number: "@ + max),
        (Some(lo), Some(hi)) => if hi < lo {
            Some("Range is not valid. Min: "@ + decimal(lo) + " Max: "@ + decimal(hi))
        } else {
            None
        },
    }
}

/// The first error among the proxy's values, in the order: listening
/// address and port, server address and port, the two drop chances, the
/// two delay chances, the client's and the server's delay ranges.
pub open spec fn proxy_args_error(a: ProxyArgs) -> Option<Seq<char>> {
    first_error(
        ip_error(a.listen_ip@, a.listen_ip_parses),
        first_error(
            port_error(a.listen_port@),
            first_error(
                ip_error(a.target_ip@, a.target_ip_parses),
                first_error(
                    port_error(a.target_port@),
                    first_error(
                        chance_error(a.client_drop@),
                        first_error(
                            chance_error(a.server_drop@),
                            first_error(
                                chance_error(a.client_delay@),
                                first_error(
                                    chance_error(a.server_delay@),
                                    first_error(
                                        delay_range_error(
                                            a.client_delay_time_min@,
                                            a.client_delay_time_max@,
                                        ),
                                        delay_range_error(
                                            a.server_delay_time_min@,
                                            a.server_delay_time_max@,
                                        ),
                                    ),
                                ),
                            ),
                        ),
                    ),
                ),
            ),
        ),
    )
}

/// Every percentage from 0 to 100, written in decimal, is a valid chance.
pub proof fn lemma_chance_accepted(n: nat)
    requires
        n <= 100,
    ensures
        chance_error(decimal(n)) is None,
{
    lemma_parse_decimal(n, 0xff);
}

/// Every delay range from `lo` to `hi` milliseconds with `lo <= hi <= 65535`,
/// written in decimal, is valid, whatever its size.
pub proof fn lemma_delay_range_accepted(lo: nat, hi: nat)
    requires
        lo <= hi <= 0xffff,
    ensures
        delay_range_error(decimal(lo), decimal(hi)) is None,
{
    lemma_parse_decimal(lo, 0xffff);
    lemma_parse_decimal(hi, 0xffff);
}

/// The proxy's values are accepted when both IP texts parse, both ports
/// and all four delays read as numbers from 0 to 65535, all four chances
/// read as numbers from 0 to 100, and each delay range runs upward.
pub proof fn lemma_proxy_args_accepted(a: ProxyArgs)
    requires
        a.listen_ip_parses,
        a.target_ip_parses,
        parse_unsigned(a.listen_port@, 0xffff) is Some,
        parse_unsigned(a.target_port@, 0xffff) is Some,
        parse_unsigned(a.client_drop@, 0xff) matches Some(n) && n <= 100,
        parse_unsigned(a.server_drop@, 0xff) matches Some(n) && n <= 100,
        parse_unsigned(a.client_delay@, 0xff) matches Some(n) && n <= 100,
        parse_unsigned(a.server_delay@, 0xff) matches Some(n) && n <= 100,
        parse_unsigned(a.client_delay_time_min@, 0xffff) matches Some(lo) && parse_unsigned(
            a.client_delay_time_max@,
            0xffff,
        ) matches Some(hi) && lo <= hi,
        parse_unsigned(a.server_delay_time_min@, 0xffff) matches Some(lo) && parse_unsigned(
            a.server_delay_time_max@,
            0xffff,
        ) matches Some(hi) && lo <= hi,
    ensures
        proxy_args_error(a) is None,
{
}

/// Reads a chance, a percentage from 0 to 100.
fn validate_chance(chance: &str) -> (r: Result<u8, String>)
    ensures
        match r {
            Ok(n) => chance_error(chance@) is None && parse_unsigned(chance@, 0xff) == Some(
                n as nat,
            ),
            Err(e) => chance_error(chance@) == Some(e@),
        },
{
    let chance_num = match parse_u8(chance) {
        Some(n) => n,
        None => {
            let mut e = String::from_str("Chance must be a valid number: ");
            e.append(chance);
            return Err(e);
        },
    };
    if chance_num > 100 {
        let mut e = String::from_str("Chance must be a valid percentage: ");
        let num_text = to_decimal(chance_num as u64);
        e.append(num_text.as_str());
        Err(e)
    } else {
        Ok(chance_num)
    }
}

/// Reads a delay range, in milliseconds, whose maximum is not below its
/// minimum.
fn validate_delay_range(min: &str, max: &str) -> (r: Result<(u16, u16), String>)
    ensures
        match r {
            Ok((lo, hi)) => {
                &&& delay_range_error(min@, max@) is None
                &&& parse_unsigned(min@, 0xffff) == Some(lo as nat)
                &&& parse_unsigned(max@, 0xffff) == Some(hi as nat)
                &&& lo <= hi
            },
            Err(e) => delay_range_error(min@, max@) == Some(e@),
        },
{
    let min_delay = match parse_u16(min) {
        Some(n) => n,
        None => {
            let mut e = String::from_str("Min delay must be a valid number: ");
            e.append(min);
            return Err(e);
        },
    };
    let max_delay = match parse_u16(max) {
        Some(n) => n,
        None => {
            let mut e = String::from_str("Max delay must be a valid number: ");
            e.append(max);
            return Err(e);
        },
    };
    if max_delay < min_delay {
        let mut e = String::from_str("Range is not valid. Min: ");
        let min_text = to_decimal(min_delay as u64);
        e.append(min_text.as_str());
        e.append(" Max: ");
        let max_text = to_decimal(max_delay as u64);
        e.append(max_text.as_str());
        Err(e)
    } else {
        Ok((min_delay, max_delay))
    }
}

/// Checks the proxy's values and builds its configuration, with no client
/// heard from yet.
pub fn validate_args(args: &ProxyArgs) -> (r: Result<ProxyConfig, String>)
    ensures
        match r {
            Ok(c) => {
                &&& proxy_args_error(*args) is None
                &&& c.valid()
                &&& c.proxy_addr@ == ip_port_text(args.listen_ip@, args.listen_port@)
                &&& c.server_addr@ == ip_port_text(args.target_ip@, args.target_port@)
                &&& c.client_addr@ == "_"@
                &&& parse_unsigned(args.client_drop@, 0xff) == Some(c.client_drop as nat)
                &&& parse_unsigned(args.server_drop@, 0xff) == Some(c.server_drop as nat)
                &&& parse_unsigned(args.client_delay@, 0xff) == Some(c.client_delay as nat)
                &&& parse_unsigned(args.server_delay@, 0xff) == Some(c.server_delay as nat)
                &&& parse_unsigned(args.client_delay_time_min@, 0xffff) == Some(
                    c.client_delay_min as nat,
                )
                &&& parse_unsigned(args.client_delay_time_max@, 0xffff) == Some(
                    c.client_delay_max as nat,
                )
                &&& parse_unsigned(args.server_delay_time_min@, 0xffff) == Some(
                    c.server_delay_min as nat,
                )
                &&& parse_unsigned(args.server_delay_time_max@, 0xffff) == Some(
                    c.server_delay_max as nat,
                )
            },
            Err(e) => proxy_args_error(*args) == Some(e@),
        },
{
    let listen_ip = args.listen_ip.as_str();
    let listen_port = args.listen_port.as_str();
    validate_ip(listen_ip, args.listen_ip_parses)?;
    validate_port(listen_port)?;

    let target_ip = args.target_ip.as_str();
    let target_port = args.target_port.as_str();
    validate_ip(target_ip, args.target_ip_parses)?;
    validate_port(target_port)?;

    let client_drop = validate_chance(args.client_drop.as_str())?;
    let server_drop = validate_chance(args.server_drop.as_str())?;

    let client_delay = validate_chance(args.client_delay.as_str())?;
    let server_delay = validate_chance(args.server_delay.as_str())?;

    let (client_delay_min, client_delay_max) = validate_delay_range(
        args.client_delay_time_min.as_str(),
        args.client_delay_time_max.as_str(),
    )?;
    let (server_delay_min, server_delay_max) = validate_delay_range(
        args.server_delay_time_min.as_str(),
        args.server_delay_time_max.as_str(),
    )?;

    Ok(
        ProxyConfig {
            proxy_addr: format_ip_port(listen_ip, listen_port),
            server_addr: format_ip_port(target_ip, target_port),
            client_addr: String::from_str("_"),
            client_drop,
            server_drop,
            client_delay,
            server_delay,
            client_delay_min,
            client_delay_max,
            server_delay_min,
            server_delay_max,
        },
    )
}

/// Where a datagram goes and with which chances and delays.
pub struct Route {
    pub drop: u8,
    pub delay: u8,
    pub target_addr: String,
    pub delay_min: u16,
    pub delay_max: u16,
}

/// The datagram comes from the server.
fn is_target_server(proxy_config: &ProxyConfig, source: &str) -> (r: bool)
    ensures
        r == (proxy_config.server_addr@ == source@),
{
    same_text(proxy_config.server_addr.as_str(), source)
}

/// Remembers `source` as the client's address.
fn verify_client(proxy_config: &mut ProxyConfig, source: &str)
    ensures
        final(proxy_config).client_addr@ == source@,
        final(proxy_config).proxy_addr == old(proxy_config).proxy_addr,
        final(proxy_config).server_addr == old(proxy_config).server_addr,
        final(proxy_config).client_drop == old(proxy_config).client_drop,
        final(proxy_config).server_drop == old(proxy_config).server_drop,
        final(proxy_config).client_delay == old(proxy_config).client_delay,
        final(proxy_config).server_delay == old(proxy_config).server_delay,
        final(proxy_config).client_delay_min == old(proxy_config).client_delay_min,
        final(proxy_config).client_delay_max == old(proxy_config).client_delay_max,
        final(proxy_config).server_delay_min == old(proxy_config).server_delay_min,
        final(proxy_config).server_delay_max == old(proxy_config).server_delay_max,
{
    let client_addr = String::from_str(source);
    if !same_text(proxy_config.client_addr.as_str(), client_addr.as_str()) {
        proxy_config.client_addr = client_addr;
    }
}

/// Routes a datagram that came from the address whose text is `source`.
/// One from the server goes to the last client heard from, with the
/// server's chances and delays. Any other comes from the client: its
/// address is remembered, and it goes to the server with the client's
/// chances and delays.
pub fn route_datagram(proxy_config: &mut ProxyConfig, source: &str) -> (r: Route)
    ensures
        final(proxy_config).proxy_addr == old(proxy_config).proxy_addr,
        final(proxy_config).server_addr == old(proxy_config).server_addr,
        final(proxy_config).client_drop == old(proxy_config).client_drop,
        final(proxy_config).server_drop == old(proxy_config).server_drop,
        final(proxy_config).client_delay == old(proxy_config).client_delay,
        final(proxy_config).server_delay == old(proxy_config).server_delay,
        final(proxy_config).client_delay_min == old(proxy_config).client_delay_min,
        final(proxy_config).client_delay_max == old(proxy_config).client_delay_max,
        final(proxy_config).server_delay_min == old(proxy_config).server_delay_min,
        final(proxy_config).server_delay_max == old(proxy_config).server_delay_max,
        old(proxy_config).valid() ==> final(proxy_config).valid(),
        if old(proxy_config).server_addr@ == source@ {
            &&& final(proxy_config).client_addr == old(proxy_config).client_addr
            &&& r.target_addr@ == old(proxy_config).client_addr@
            &&& r.drop == old(proxy_config).server_drop
            &&& r.delay == old(proxy_config).server_delay
            &&& r.delay_min == old(proxy_config).server_delay_min
            &&& r.delay_max == old(proxy_config).server_delay_max
        } else {
            &&& final(proxy_config).client_addr@ == source@
            &&& r.target_addr@ == old(proxy_config).server_addr@
            &&& r.drop == old(proxy_config).client_drop
            &&& r.delay == old(proxy_config).client_delay
            &&& r.delay_min == old(proxy_config).client_delay_min
            &&& r.delay_max == old(proxy_config).client_delay_max
        },
{
    if is_target_server(proxy_config, source) {
        Route {
            drop: proxy_config.server_drop,
            delay: proxy_config.server_delay,
            target_addr: proxy_config.client_addr.clone(),
            delay_min: proxy_config.server_delay_min,
            delay_max: proxy_config.server_delay_max,
        }
    } else {
        verify_client(proxy_config, source);
        Route {
            drop: proxy_config.client_drop,
            delay: proxy_config.client_delay,
            target_addr: proxy_config.server_addr.clone(),
            delay_min: proxy_config.client_delay_min,
            delay_max: proxy_config.client_delay_max,
        }
    }
}

/// The fate of a datagram at the proxy.
#[derive(PartialEq, Eq, Structural, Debug, Clone, Copy)]
pub enum Fate {
    Drop,
    Delay,
    Send,
}

/// Declares rand's thread-local generator to Verus; its state is not
/// modelled.
#[verifier::external_type_specification]
#[verifier::external_body]
pub struct ExThreadRng(ThreadRng);

/// `rng.gen_range(low..=high)`, rand's `Rng::gen_range` on an inclusive
/// range of `u16`. The contract states only that the number drawn lies in
/// the range; which one comes back is left open, as it is random. The crate
/// panics on an empty range, hence `low <= high`.
#[verifier::external_body]
fn gen_range_u16(rng: &mut ThreadRng, low: u16, high: u16) -> (r: u16)
    requires
        low <= high,
    ensures
        low <= r <= high,
{
    rng.gen_range(low..=high)
}

/// Draws one of the hundred numbers from 0 to 99: a draw below a chance of
/// `p` percent happens `p` times in a hundred.
fn percent_roll(rng: &mut ThreadRng) -> (r: u8)
    ensures
        r < 100,
{
    gen_range_u16(rng, 0, 99) as u8
}

/// The fate that two draws from 0 to 99 give a datagram: a first draw
/// below `drop` drops it; otherwise a second draw below `delay` delays it;
/// otherwise it is sent at once. A chance of 0 never applies and a chance
/// of 100 always does.
pub open spec fn fate_of(drop: u8, delay: u8, drop_roll: u8, delay_roll: u8) -> Fate {
    if drop_roll < drop {
        Fate::Drop
    } else if delay_roll < delay {
        Fate::Delay
    } else {
        Fate::Send
    }
}

/// The fate of a datagram for the draws `drop_roll` and `delay_roll`.
pub fn fate_for_rolls(drop: u8, delay: u8, drop_roll: u8, delay_roll: u8) -> (r: Fate)
    ensures
        r == fate_of(drop, delay, drop_roll, delay_roll),
{
    if drop_roll < drop {
        Fate::Drop
    } else if delay_roll < delay {
        Fate::Delay
    } else {
        Fate::Send
    }
}

/// A drop chance of `drop` percent drops on exactly `drop` of the hundred
/// first draws from 0 to 99, whatever the second draw.
pub proof fn lemma_drop_share(drop: u8, delay: u8, delay_roll: u8)
    requires
        drop <= 100,
    ensures
        Set::new(|r: int| 0 <= r < 100 && fate_of(drop, delay, r as u8, delay_roll) == Fate::Drop)
            .finite(),
        Set::new(|r: int| 0 <= r < 100 && fate_of(drop, delay, r as u8, delay_roll) == Fate::Drop)
            .len() == drop,
{
    let dropping = Set::new(
        |r: int| 0 <= r < 100 && fate_of(drop, delay, r as u8, delay_roll) == Fate::Drop,
    );
    assert(dropping =~= vstd::set_lib::set_int_range(0, drop as int));
    vstd::set_lib::lemma_int_range(0, drop as int);
}

/// For a datagram that the first draw does not drop, a delay chance of
/// `delay` percent delays on exactly `delay` of the hundred second draws
/// from 0 to 99.
pub proof fn lemma_delay_share(drop: u8, delay: u8, drop_roll: u8)
    requires
        delay <= 100,
        drop_roll >= drop,
    ensures
        Set::new(|r: int| 0 <= r < 100 && fate_of(drop, delay, drop_roll, r as u8) == Fate::Delay)
            .finite(),
        Set::new(|r: int| 0 <= r < 100 && fate_of(drop, delay, drop_roll, r as u8) == Fate::Delay)
            .len() == delay,
{
    let delaying = Set::new(
        |r: int| 0 <= r < 100 && fate_of(drop, delay, drop_roll, r as u8) == Fate::Delay,
    );
    assert(delaying =~= vstd::set_lib::set_int_range(0, delay as int));
    vstd::set_lib::lemma_int_range(0, delay as int);
}

/// Decides whether a datagram is dropped, delayed or sent at once, by
/// drawing from 0 to 99 once, and a second time unless the first draw
/// already drops it. A drop chance of 100 always drops; a delay chance of
/// 100 always delays what is not dropped.
pub fn decide_fate(rng: &mut ThreadRng, drop: u8, delay: u8) -> (r: Fate)
    ensures
        exists|drop_roll: u8, delay_roll: u8|
            drop_roll < 100 && delay_roll < 100 && r == fate_of(drop, delay, drop_roll, delay_roll),
        r == Fate::Drop ==> drop > 0,
        r == Fate::Delay ==> delay > 0 && drop < 100,
        r == Fate::Send ==> drop < 100 && delay < 100,
        drop >= 100 ==> r == Fate::Drop,
        drop == 0 && delay >= 100 ==> r == Fate::Delay,
        drop == 0 && delay == 0 ==> r == Fate::Send,
{
    let drop_roll = percent_roll(rng);
    let delay_roll = if drop_roll < drop {
        0
    } else {
        percent_roll(rng)
    };
    let r = fate_for_rolls(drop, delay, drop_roll, delay_roll);
    assert(drop_roll < 100 && delay_roll < 100 && r == fate_of(drop, delay, drop_roll, delay_roll));
    r
}

/// Draws how long to delay a datagram, in milliseconds, from
/// `delay_min..delay_max`, as `gen_range(delay_min..delay_max)` does; when
/// the two ends are equal, the delay is that value.
pub fn draw_delay_ms(rng: &mut ThreadRng, delay_min: u16, delay_max: u16) -> (r: u64)
    requires
        delay_min <= delay_max,
    ensures
        delay_min <= r <= delay_max,
        delay_min < delay_max ==> r < delay_max,
{
    let high = if delay_min < delay_max {
        delay_max - 1
    } else {
        delay_max
    };
    gen_range_u16(rng, delay_min, high) as u64
}

} // verus!
