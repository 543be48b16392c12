use reliable_udp::proxy::{
    decide_fate, draw_delay_ms, fate_for_rolls, route_datagram, validate_args, Fate, ProxyArgs, ProxyConfig,
};

fn good_args() -> ProxyArgs {
    ProxyArgs {
        listen_ip: "127.0.0.1".to_string(),
        listen_ip_parses: true,
        listen_port: "9000".to_string(),
        target_ip: "::1".to_string(),
        target_ip_parses: true,
        target_port: "8080".to_string(),
        client_drop: "10".to_string(),
        server_drop: "20".to_string(),
        client_delay: "30".to_string(),
        server_delay: "100".to_string(),
        client_delay_time_min: "5".to_string(),
        client_delay_time_max: "50".to_string(),
        server_delay_time_min: "7".to_string(),
        server_delay_time_max: "7".to_string(),
    }
}

fn config() -> ProxyConfig {
    validate_args(&good_args()).ok().unwrap()
}

#[test]
fn valid_proxy_arguments() {
    let c = config();
    assert_eq!(c.proxy_addr, "127.0.0.1:9000");
    assert_eq!(c.server_addr, "[::1]:8080");
    assert_eq!(c.client_addr, "_");
    assert_eq!((c.client_drop, c.server_drop, c.client_delay, c.server_delay), (10, 20, 30, 100));
    assert_eq!((c.client_delay_min, c.client_delay_max), (5, 50));
    assert_eq!((c.server_delay_min, c.server_delay_max), (7, 7));
}

fn error_of(a: ProxyArgs) -> String {
    match validate_args(&a) {
        Ok(_) => panic!("expected an error"),
        Err(e) => e,
    }
}

#[test]
fn bad_listen_address() {
    let mut a = good_args();
    a.listen_ip = "host".to_string();
    a.listen_ip_parses = false;
    assert_eq!(error_of(a), "Invalid IP address... Neither IPv4 or IPv6: host");
}

#[test]
fn bad_server_port() {
    let mut a = good_args();
    a.target_port = "99999".to_string();
    assert_eq!(error_of(a), "Port must be a valid number between 0-65535: 99999");
}

#[test]
fn chance_that_is_no_number() {
    let mut a = good_args();
    a.server_drop = "300".to_string();
    assert_eq!(error_of(a), "Chance must be a valid number: 300");
}

#[test]
fn chance_above_a_hundred() {
    let mut a = good_args();
    a.client_delay = "0101".to_string();
    assert_eq!(error_of(a), "Chance must be a valid percentage: 101");
}

#[test]
fn bad_delay_minimum() {
    let mut a = good_args();
    a.client_delay_time_min = "soon".to_string();
    assert_eq!(error_of(a), "Min delay must be a valid number: soon");
}

#[test]
fn bad_delay_maximum() {
    let mut a = good_args();
    a.server_delay_time_max = "later".to_string();
    assert_eq!(error_of(a), "Max delay must be a valid number: later");
}

#[test]
fn delay_range_running_down() {
    let mut a = good_args();
    a.server_delay_time_min = "10".to_string();
    a.server_delay_time_max = "5".to_string();
    assert_eq!(error_of(a), "Range is not valid. Min: 10 Max: 5");
}

#[test]
fn first_error_wins() {
    let mut a = good_args();
    a.client_drop = "x".to_string();
    a.server_delay_time_max = "y".to_string();
    assert_eq!(error_of(a), "Chance must be a valid number: x");
}

#[test]
fn datagram_from_client_goes_to_server() {
    let mut c = config();
    let route = route_datagram(&mut c, "127.0.0.1:40000");
    assert_eq!(route.target_addr, "[::1]:8080");
    assert_eq!((route.drop, route.delay, route.delay_min, route.delay_max), (10, 30, 5, 50));
    assert_eq!(c.client_addr, "127.0.0.1:40000");
}

#[test]
fn datagram_from_server_goes_to_last_client() {
    let mut c = config();
    let _ = route_datagram(&mut c, "127.0.0.1:40000");
    let route = route_datagram(&mut c, "[::1]:8080");
    assert_eq!(route.target_addr, "127.0.0.1:40000");
    assert_eq!((route.drop, route.delay, route.delay_min, route.delay_max), (20, 100, 7, 7));
    assert_eq!(c.client_addr, "127.0.0.1:40000");
}

#[test]
fn server_reply_before_any_client_goes_to_placeholder() {
    let mut c = config();
    let route = route_datagram(&mut c, "[::1]:8080");
    assert_eq!(route.target_addr, "_");
}

#[test]
fn no_chances_means_sent_at_once() {
    let mut rng = rand::thread_rng();
    for _ in 0..200 {
        assert_eq!(decide_fate(&mut rng, 0, 0), Fate::Send);
    }
}

#[test]
fn certain_drop() {
    let mut rng = rand::thread_rng();
    for _ in 0..200 {
        assert_eq!(decide_fate(&mut rng, 100, 0), Fate::Drop);
    }
}

#[test]
fn certain_delay() {
    let mut rng = rand::thread_rng();
    for _ in 0..200 {
        assert_eq!(decide_fate(&mut rng, 0, 100), Fate::Delay);
    }
}

#[test]
fn delay_is_drawn_from_its_range() {
    let mut rng = rand::thread_rng();
    let mut seen_low = false;
    let mut seen_high = false;
    for _ in 0..2000 {
        let ms = draw_delay_ms(&mut rng, 10, 13);
        assert!((10..13).contains(&ms));
        seen_low |= ms == 10;
        seen_high |= ms == 12;
    }
    assert!(seen_low && seen_high);
    for _ in 0..100 {
        assert_eq!(draw_delay_ms(&mut rng, 7, 7), 7);
    }
}

#[test]
fn fate_follows_the_draws() {
    assert_eq!(fate_for_rolls(10, 20, 9, 0), Fate::Drop);
    assert_eq!(fate_for_rolls(10, 20, 10, 19), Fate::Delay);
    assert_eq!(fate_for_rolls(10, 20, 10, 20), Fate::Send);
    assert_eq!(fate_for_rolls(0, 0, 0, 0), Fate::Send);
    assert_eq!(fate_for_rolls(100, 0, 99, 0), Fate::Drop);
    assert_eq!(fate_for_rolls(0, 100, 0, 99), Fate::Delay);
    assert_eq!(fate_for_rolls(99, 0, 99, 0), Fate::Send);
    assert_eq!(fate_for_rolls(100, 100, 99, 99), Fate::Drop);
}
