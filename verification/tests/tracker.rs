use wg_activity_notify_core::config::Config;
use wg_activity_notify_core::error::Error;
use wg_activity_notify_core::net::{is_ignored, parse_endpoint_address, parse_ipv4, parse_subnet, subnet_contains};
use wg_activity_notify_core::notifications::Event;
use wg_activity_notify_core::wg::{parse_dump, parse_line, ClientData, WgEntry};
use wg_activity_notify_core::{evaluate, render_message, Daemon};

fn client(key: &str, endpoint: Option<&str>, handshake: u64, keepalive: u64) -> ClientData {
    ClientData {
        interface: "wg0".to_owned(),
        public_key: key.to_owned(),
        preshared_key: None,
        endpoint: endpoint.map(|e| e.to_owned()),
        allowed_ips: "10.0.0.2/32".to_owned(),
        latest_handshake: handshake,
        transfer_rx: 0,
        transfer_tx: 0,
        persistent_keepalive: keepalive,
    }
}

#[test]
fn stale_after_seven_keepalives() {
    let c = client("K", None, 1700000000, 25);
    assert!(!evaluate(&c, 1700000000).is_disconnected);
    assert!(!evaluate(&c, 1700000174).is_disconnected);
    assert!(!evaluate(&c, 1700000175).is_disconnected);
    assert!(evaluate(&c, 1700000176).is_disconnected);
    assert!(evaluate(&c, 1700000300).is_disconnected);
}

#[test]
fn keepalive_zero_is_stale_after_one_second() {
    let c = client("K", None, 100, 0);
    assert!(!evaluate(&c, 100).is_disconnected);
    assert!(evaluate(&c, 101).is_disconnected);
}

#[test]
fn handshake_in_the_future_is_connected() {
    let c = client("K", None, 200, 0);
    assert!(!evaluate(&c, 100).is_disconnected);
}

#[test]
fn huge_keepalive_never_goes_stale() {
    let c = client("K", None, 0, u64::MAX);
    assert!(!evaluate(&c, u64::MAX).is_disconnected);
    let c = client("K", None, 0, u64::MAX / 7 + 1);
    assert!(!evaluate(&c, u64::MAX).is_disconnected);
}

#[test]
fn server_entry_has_no_status() {
    let d = Daemon::new(Config::default());
    let server = parse_line("wg0 priv pub 1 off").unwrap().unwrap();
    assert!(matches!(d.status_of_entry(&server, 5), Err(Error::UnableToGetStatusOfEntry)));
    let c = WgEntry::Client(client("K", None, 0, 1));
    assert!(d.status_of_entry(&c, 8).unwrap().is_disconnected);
    assert!(!d.status_of_entry(&c, 7).unwrap().is_disconnected);
}

#[test]
fn scenario_disconnect_names_the_endpoint() {
    let dump = "wg0 AAA... (none) 10.2.2.1:51820 10.0.0.2/32 1700000000 0 0 25";
    let entries = parse_dump(dump.to_owned()).unwrap();
    assert_eq!(entries.len(), 1);
    let mut d = Daemon::new(Config::default());
    assert!(!d.status_of_entry(&entries[0], 1700000000).unwrap().is_disconnected);
    assert!(d.status_of_entry(&entries[0], 1700000300).unwrap().is_disconnected);
    let first = d.run_int(&entries, 1700000000);
    assert!(first.is_empty());
    let second = d.run_int(&entries, 1700000300);
    assert_eq!(second.len(), 1);
    assert_eq!(second[0].event, Event::Disconnect);
    assert!(second[0].msg.contains("10.2.2.1:51820"));
    assert_eq!(second[0].msg, "Client AAA... using endpoint 10.2.2.1:51820 has disconnected");
    let third = d.run_int(&entries, 1700000400);
    assert!(third.is_empty());
}

#[test]
fn first_sighting_raises_nothing() {
    let mut d = Daemon::new(Config::default());
    assert!(d.observe(&client("A", None, 0, 1), 1000).is_none());
    assert!(d.observe(&client("B", None, 1000, 1), 1000).is_none());
}

#[test]
fn one_event_per_flip() {
    let mut d = Daemon::new(Config::default());
    let k = "KEY";
    assert!(d.observe(&client(k, None, 100, 10), 100).is_none());
    assert!(d.observe(&client(k, None, 100, 10), 170).is_none());
    let down = d.observe(&client(k, None, 100, 10), 171).unwrap();
    assert_eq!(down.event, Event::Disconnect);
    assert_eq!(down.msg, "Client KEY using endpoint ? has disconnected");
    assert!(d.observe(&client(k, None, 100, 10), 172).is_none());
    let up = d.observe(&client(k, None, 172, 10), 173).unwrap();
    assert_eq!(up.event, Event::Connect);
    assert_eq!(up.msg, "Client KEY using endpoint ? has connected");
    assert!(d.observe(&client(k, None, 172, 10), 174).is_none());
}

#[test]
fn peers_are_tracked_by_key() {
    let mut d = Daemon::new(Config::default());
    assert!(d.observe(&client("A", None, 100, 10), 100).is_none());
    assert!(d.observe(&client("B", None, 0, 10), 100).is_none());
    assert!(d.observe(&client("B", None, 0, 10), 200).is_none());
    let a = d.observe(&client("A", None, 100, 10), 200).unwrap();
    assert_eq!(a.event, Event::Disconnect);
    let b = d.observe(&client("B", None, 200, 10), 200).unwrap();
    assert_eq!(b.event, Event::Connect);
}

#[test]
fn endpoint_sticks_across_cycles() {
    let mut d = Daemon::new(Config::default());
    assert!(d.observe(&client("A", Some("192.0.2.7:4000"), 100, 10), 100).is_none());
    let down = d.observe(&client("A", None, 100, 10), 500).unwrap();
    assert_eq!(down.msg, "Client A using endpoint 192.0.2.7:4000 has disconnected");
    let up = d.observe(&client("A", None, 500, 10), 501).unwrap();
    assert_eq!(up.msg, "Client A using endpoint 192.0.2.7:4000 has connected");
    let again = d.observe(&client("A", Some("192.0.2.8:4000"), 500, 10), 900).unwrap();
    assert_eq!(again.msg, "Client A using endpoint 192.0.2.8:4000 has disconnected");
}

#[test]
fn ignored_endpoint_is_recorded_but_not_delivered() {
    let mut conf = Config::default();
    conf.ignore_ipv4s = vec!["10.2.2.0/24".to_owned()];
    let mut d = Daemon::new(conf);
    assert!(d.should_ignore(&Some("10.2.2.1:51820".to_owned())));
    assert!(!d.should_ignore(&Some("10.2.3.1:51820".to_owned())));
    assert!(!d.should_ignore(&None));
    assert!(d.observe(&client("A", Some("10.2.2.1:51820"), 100, 10), 100).is_none());
    assert!(d.observe(&client("A", Some("10.2.2.1:51820"), 100, 10), 500).is_none());
    let up = d.observe(&client("A", None, 500, 10), 500).unwrap();
    assert_eq!(up.event, Event::Connect);
    assert_eq!(up.msg, "Client A using endpoint 10.2.2.1:51820 has connected");
}

#[test]
fn track_tells_even_of_ignored_peers() {
    let mut conf = Config::default();
    conf.ignore_ipv4s = vec!["10.2.2.1".to_owned()];
    let mut d = Daemon::new(conf);
    assert!(d.track(&client("A", Some("10.2.2.1:1"), 100, 10), 100).is_none());
    let down = d.track(&client("A", Some("10.2.2.1:1"), 100, 10), 500).unwrap();
    assert_eq!(down.event, Event::Disconnect);
}

#[test]
fn friendly_name_goes_before_the_key() {
    let mut conf = Config::default();
    conf.friendly_names = vec![("KEY1".to_owned(), "laptop".to_owned())];
    let mut d = Daemon::new(conf);
    assert_eq!(d.get_friendly_name("KEY1"), "laptop (KEY1)");
    assert_eq!(d.get_friendly_name("KEY2"), "KEY2");
    assert!(d.observe(&client("KEY1", Some("1.2.3.4:5"), 100, 1), 100).is_none());
    let n = d.observe(&client("KEY1", Some("1.2.3.4:5"), 100, 1), 200).unwrap();
    assert_eq!(n.msg, "Client laptop (KEY1) using endpoint 1.2.3.4:5 has disconnected");
}

#[test]
fn message_text() {
    assert_eq!(
        render_message(&"n".to_owned(), &Some("e".to_owned()), Event::Connect),
        "Client n using endpoint e has connected"
    );
    assert_eq!(
        render_message(&"n".to_owned(), &None, Event::Disconnect),
        "Client n using endpoint ? has disconnected"
    );
}

#[test]
fn cycle_runs_rows_in_order() {
    let mut d = Daemon::new(Config::default());
    let rows = vec![
        WgEntry::Client(client("A", None, 100, 10)),
        WgEntry::Client(client("A", None, 0, 10)),
    ];
    let out = d.run_int(&rows, 100);
    assert_eq!(out.len(), 1);
    assert_eq!(out[0].event, Event::Disconnect);
    let out = d.run_int(&rows, 100);
    assert_eq!(out.len(), 2);
    assert_eq!(out[0].event, Event::Connect);
    assert_eq!(out[1].event, Event::Disconnect);
}

#[test]
fn dotted_quads() {
    assert_eq!(parse_ipv4("0.0.0.0"), Some(0));
    assert_eq!(parse_ipv4("10.2.2.1"), Some(0x0a020201));
    assert_eq!(parse_ipv4("255.255.255.255"), Some(u32::MAX));
    assert_eq!(parse_ipv4("256.0.0.1"), None);
    assert_eq!(parse_ipv4("1.2.3"), None);
    assert_eq!(parse_ipv4("1.2.3.4.5"), None);
    assert_eq!(parse_ipv4("01.2.3.4"), None);
    assert_eq!(parse_ipv4("1..3.4"), None);
    assert_eq!(parse_ipv4(""), None);
    assert_eq!(parse_ipv4("a.b.c.d"), None);
}

#[test]
fn endpoint_addresses() {
    assert_eq!(parse_endpoint_address("10.2.2.1:51820"), Some(0x0a020201));
    assert_eq!(parse_endpoint_address("10.2.2.1"), None);
    assert_eq!(parse_endpoint_address("10.2.2.1:"), None);
    assert_eq!(parse_endpoint_address("10.2.2.1:65536"), None);
    assert_eq!(parse_endpoint_address("10.2.2.1:65535"), Some(0x0a020201));
    assert_eq!(parse_endpoint_address("[::1]:51820"), None);
}

#[test]
fn address_ranges() {
    assert_eq!(parse_subnet("10.0.0.0/8"), Some((0x0a000000, 8)));
    assert_eq!(parse_subnet("10.1.2.3"), Some((0x0a010203, 32)));
    assert_eq!(parse_subnet("10.0.0.0/33"), None);
    assert_eq!(parse_subnet("10.0.0.0/"), None);
    assert_eq!(parse_subnet("10.0.0/8"), None);
    assert!(subnet_contains(0x0a020201, 0x0a000000, 8));
    assert!(!subnet_contains(0x0b020201, 0x0a000000, 8));
    assert!(subnet_contains(0x0b020201, 0, 0));
    assert!(subnet_contains(7, 7, 32));
    assert!(!subnet_contains(6, 7, 32));
    assert!(subnet_contains(6, 7, 31));
    assert!(!subnet_contains(6, 7, 33));
}

#[test]
fn ignore_list_skips_what_it_cannot_read() {
    let ranges = vec!["nonsense".to_owned(), "192.168.0.0/16".to_owned()];
    assert!(is_ignored(&ranges, &Some("192.168.4.4:1".to_owned())));
    assert!(!is_ignored(&ranges, &Some("192.169.4.4:1".to_owned())));
    assert!(!is_ignored(&ranges, &Some("nonsense".to_owned())));
    assert!(!is_ignored(&Vec::new(), &Some("192.168.4.4:1".to_owned())));
}

#[test]
fn state_is_remembered_by_key() {
    let mut conf = Config::default();
    conf.ignore_ipv4s = vec!["10.2.2.0/24".to_owned()];
    let mut d = Daemon::new(conf);
    assert!(d.peer_state("A").is_none());
    assert!(d.observe(&client("A", Some("10.2.2.1:51820"), 100, 10), 100).is_none());
    let p = d.peer_state("A").unwrap();
    assert_eq!(p.public_key, "A");
    assert_eq!(p.last_handshake, 100);
    assert_eq!(p.last_known_endpoint, Some("10.2.2.1:51820".to_owned()));
    assert!(!p.last_status.is_disconnected);
    assert!(d.observe(&client("A", Some("10.2.2.9:1"), 120, 10), 500).is_none());
    let p = d.peer_state("A").unwrap();
    assert_eq!(p.last_handshake, 120);
    assert_eq!(p.last_known_endpoint, Some("10.2.2.9:1".to_owned()));
    assert!(p.last_status.is_disconnected);
    assert!(d.peer_state("B").is_none());
}
