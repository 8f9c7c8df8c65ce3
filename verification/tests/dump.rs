use wg_activity_notify_core::text::{
    normalize, parse_i64, parse_u64, split_fields, split_lines, write_i64, write_u64,
};
use wg_activity_notify_core::wg::{parse_dump, parse_fields, parse_line, WgEntry, WgError};

const WG_SHOW_ALL_DUMP_EXAMPLE: &str = r#"
wg0	bGFib3JlIHN1bnQgb21uaXMgcXVvcyBvZmZpY2lpcw==	cGFyaWF0dXIuIFByb3ZpZGVudCBldCB0ZW1wb3JhIHF1b3M=	31194	off
wg0	QXNodG9uIFNoZXJ5bCBNb3JzZQ==	(none)	10.2.2.68:62299	10.2.98.3/32	1643795801	1204	1900	25
wg0	RXhlcmNpdGF0aW9uZW0gbmVxdWUgZGVzZXJ1bnQ=	(none)	(none)	10.2.98.8/32	0	0	0	25
wg0	dW5kZSBleC4gUXVhcw==	(none)	(none)	10.2.98.6/32	0	0	0	25
wg0	dXQgY29uc2VjdGV0dXIgZXQgYXNwZXJpb3JlcyB1dCBub2Jpcw==	(none)	(none)	10.2.98.7/32	0	0	0	25
    "#;

#[test]
fn test_dump_parsing() {
    let entries = parse_dump(WG_SHOW_ALL_DUMP_EXAMPLE.to_owned()).unwrap();

    for entry in &entries {
        println!("{:?}", entry);
    }
}

#[test]
fn example_dump_has_one_server_and_four_clients() {
    let entries = parse_dump(WG_SHOW_ALL_DUMP_EXAMPLE.to_owned()).unwrap();
    assert_eq!(entries.len(), 5);
    match &entries[0] {
        WgEntry::Server(s) => {
            assert_eq!(s.interface, "wg0");
            assert_eq!(s.private_key, "bGFib3JlIHN1bnQgb21uaXMgcXVvcyBvZmZpY2lpcw==");
            assert_eq!(s.public_key, "cGFyaWF0dXIuIFByb3ZpZGVudCBldCB0ZW1wb3JhIHF1b3M=");
            assert_eq!(s.listen_port, "31194");
            assert_eq!(s.fwmark, "off");
        }
        WgEntry::Client(_) => panic!("the first row is a server row"),
    }
    match &entries[1] {
        WgEntry::Client(c) => {
            assert_eq!(c.interface, "wg0");
            assert_eq!(c.public_key, "QXNodG9uIFNoZXJ5bCBNb3JzZQ==");
            assert_eq!(c.preshared_key, None);
            assert_eq!(c.endpoint, Some("10.2.2.68:62299".to_owned()));
            assert_eq!(c.allowed_ips, "10.2.98.3/32");
            assert_eq!(c.latest_handshake, 1643795801);
            assert_eq!(c.transfer_rx, 1204);
            assert_eq!(c.transfer_tx, 1900);
            assert_eq!(c.persistent_keepalive, 25);
        }
        WgEntry::Server(_) => panic!("the second row is a client row"),
    }
    match &entries[4] {
        WgEntry::Client(c) => {
            assert_eq!(c.public_key, "dXQgY29uc2VjdGV0dXIgZXQgYXNwZXJpb3JlcyB1dCBub2Jpcw==");
            assert_eq!(c.endpoint, None);
            assert_eq!(c.latest_handshake, 0);
        }
        WgEntry::Server(_) => panic!("the last row is a client row"),
    }
}

#[test]
fn client_row_keeps_its_fields() {
    let line = "wg1 KEY psk123 [::1]:51820 10.0.0.2/32,fd00::2/128 1700000000 -5 +7 0";
    match parse_line(line).unwrap() {
        Some(WgEntry::Client(c)) => {
            let psk = c.preshared_key.clone().unwrap_or("(none)".to_owned());
            let endpoint = c.endpoint.clone().unwrap_or("(none)".to_owned());
            let written = format!(
                "{} {} {} {} {} {} {} {} {}",
                c.interface,
                c.public_key,
                psk,
                endpoint,
                c.allowed_ips,
                c.latest_handshake,
                c.transfer_rx,
                c.transfer_tx,
                c.persistent_keepalive
            );
            assert_eq!(written, "wg1 KEY psk123 [::1]:51820 10.0.0.2/32,fd00::2/128 1700000000 -5 7 0");
        }
        _ => panic!("a row of nine fields is a client row"),
    }
}

#[test]
fn rows_of_other_field_counts_are_dropped() {
    let text = "a b c d\n\nwg0 priv pub 1 off\na b c d e f\na b c d e f g h i j\nonly\n";
    let entries = parse_dump(text.to_owned()).unwrap();
    assert_eq!(entries.len(), 1);
    assert!(matches!(&entries[0], WgEntry::Server(_)));
    assert!(parse_line("").unwrap().is_none());
    assert!(parse_line("a b c d e f g h").unwrap().is_none());
    assert!(parse_line("1 2 3 4 5 6 7 8 9 10").unwrap().is_none());
}

#[test]
fn empty_dump_has_no_entries() {
    assert_eq!(parse_dump(String::new()).unwrap().len(), 0);
    assert_eq!(parse_dump("\n\n".to_owned()).unwrap().len(), 0);
}

#[test]
fn malformed_handshake_fails_the_parse() {
    let text = "wg0 priv pub 1 off\nwg0 AAA (none) (none) 10.0.0.2/32 abc 0 0 25\n";
    match parse_dump(text.to_owned()) {
        Err(WgError::InvalidNumber(t)) => assert_eq!(t, "abc"),
        other => panic!("expected an invalid number, got {:?}", other),
    }
    let good = "wg0 AAA (none) (none) 10.0.0.2/32 12 0 0 25\n";
    assert_eq!(parse_dump(good.to_owned()).unwrap().len(), 1);
}

#[test]
fn first_malformed_number_is_reported() {
    let fields: Vec<String> = vec!["wg0", "AAA", "(none)", "(none)", "ips", "1", "x", "y", "z"]
        .into_iter()
        .map(|s| s.to_owned())
        .collect();
    match parse_fields(&fields) {
        Err(WgError::InvalidNumber(t)) => assert_eq!(t, "x"),
        other => panic!("expected an invalid number, got {:?}", other),
    }
    let fields: Vec<String> = vec!["wg0", "AAA", "(none)", "(none)", "ips", "1", "2", "3", "-4"]
        .into_iter()
        .map(|s| s.to_owned())
        .collect();
    match parse_fields(&fields) {
        Err(WgError::InvalidNumber(t)) => assert_eq!(t, "-4"),
        other => panic!("expected an invalid number, got {:?}", other),
    }
}

#[test]
fn unsigned_numerals() {
    assert_eq!(parse_u64("0"), Some(0));
    assert_eq!(parse_u64("007"), Some(7));
    assert_eq!(parse_u64("+42"), Some(42));
    assert_eq!(parse_u64("18446744073709551615"), Some(u64::MAX));
    assert_eq!(parse_u64("18446744073709551616"), None);
    assert_eq!(parse_u64("99999999999999999999999"), None);
    assert_eq!(parse_u64(""), None);
    assert_eq!(parse_u64("+"), None);
    assert_eq!(parse_u64("-1"), None);
    assert_eq!(parse_u64("12a"), None);
    assert_eq!(parse_u64("1 2"), None);
}

#[test]
fn signed_numerals() {
    assert_eq!(parse_i64("0"), Some(0));
    assert_eq!(parse_i64("-0"), Some(0));
    assert_eq!(parse_i64("+15"), Some(15));
    assert_eq!(parse_i64("-15"), Some(-15));
    assert_eq!(parse_i64("9223372036854775807"), Some(i64::MAX));
    assert_eq!(parse_i64("9223372036854775808"), None);
    assert_eq!(parse_i64("-9223372036854775808"), Some(i64::MIN));
    assert_eq!(parse_i64("-9223372036854775809"), None);
    assert_eq!(parse_i64("-"), None);
    assert_eq!(parse_i64(""), None);
    assert_eq!(parse_i64("--1"), None);
}

#[test]
fn numerals_agree_with_the_standard_parser() {
    for s in ["0", "1", "+1", "-1", "00", "+", "-", "", "٣", "1_000", "18446744073709551615", "-9223372036854775808"] {
        assert_eq!(parse_u64(s), s.parse::<u64>().ok());
        assert_eq!(parse_i64(s), s.parse::<i64>().ok());
    }
}

#[test]
fn fields_are_runs_between_whitespace() {
    assert_eq!(split_fields("  a\t\tb  c\u{a0}d\u{3000}"), vec!["a", "b", "c", "d"]);
    assert_eq!(split_fields(""), Vec::<String>::new());
    assert_eq!(split_fields(" \t "), Vec::<String>::new());
    assert_eq!(split_fields("one"), vec!["one"]);
    let text = " x  y\u{2003}z\r";
    let expected: Vec<String> = text.split_whitespace().map(|s| s.to_owned()).collect();
    assert_eq!(split_fields(text), expected);
}

#[test]
fn lines_end_at_line_feeds() {
    assert_eq!(split_lines("a\nb\r\nc"), vec!["a", "b", "c"]);
    assert_eq!(split_lines("a\n\nb\n"), vec!["a", "", "b"]);
    assert_eq!(split_lines(""), Vec::<String>::new());
    assert_eq!(split_lines("\n"), vec![""]);
    assert_eq!(split_lines("x\r"), vec!["x\r"]);
    assert_eq!(split_lines("x\r\r\n"), vec!["x\r"]);
    for text in ["a\r\n\r\nb", "\r\n", "a\rb\n", "tail\n\n", "é\nü", "x\r", "\r"] {
        let expected: Vec<String> = text.lines().map(|s| s.to_owned()).collect();
        assert_eq!(split_lines(text), expected);
    }
}

#[test]
fn runs_of_whitespace_collapse_to_one_space() {
    assert_eq!(normalize("a \t  b\u{a0}\u{a0}c"), "a b c");
    assert_eq!(normalize("\t\tx"), " x");
    assert_eq!(normalize("x  "), "x ");
    assert_eq!(normalize("plain"), "plain");
    assert_eq!(normalize(""), "");
}

#[test]
fn absent_token_reads_as_nothing() {
    match parse_line("wg0 K (none) (none) ips 1 2 3 4").unwrap() {
        Some(WgEntry::Client(c)) => {
            assert_eq!(c.preshared_key, None);
            assert_eq!(c.endpoint, None);
        }
        _ => panic!("a row of nine fields is a client row"),
    }
    match parse_line("wg0 K (None) none ips 1 2 3 4").unwrap() {
        Some(WgEntry::Client(c)) => {
            assert_eq!(c.preshared_key, Some("(None)".to_owned()));
            assert_eq!(c.endpoint, Some("none".to_owned()));
        }
        _ => panic!("a row of nine fields is a client row"),
    }
}

#[test]
fn numbers_are_written_in_decimal() {
    assert_eq!(write_u64(0), "0");
    assert_eq!(write_u64(7), "7");
    assert_eq!(write_u64(10), "10");
    assert_eq!(write_u64(1700000000), "1700000000");
    assert_eq!(write_u64(u64::MAX), "18446744073709551615");
    assert_eq!(write_i64(0), "0");
    assert_eq!(write_i64(-1), "-1");
    assert_eq!(write_i64(1204), "1204");
    assert_eq!(write_i64(i64::MAX), "9223372036854775807");
    assert_eq!(write_i64(i64::MIN), "-9223372036854775808");
    for n in [0u64, 9, 10, 99, 100, 12345, u64::MAX] {
        assert_eq!(parse_u64(&write_u64(n)), Some(n));
    }
    for n in [0i64, -9, 10, -100, i64::MIN, i64::MAX] {
        assert_eq!(parse_i64(&write_i64(n)), Some(n));
    }
}

#[test]
fn read_row_is_written_back() {
    let row = ["wg0", "QXNodG9uIFNoZXJ5bCBNb3JzZQ==", "(none)", "10.2.2.68:62299", "10.2.98.3/32", "1643795801", "1204", "-1900", "25"];
    let fields: Vec<String> = row.iter().map(|s| (*s).to_owned()).collect();
    match parse_fields(&fields).unwrap() {
        Some(WgEntry::Client(c)) => assert_eq!(c.to_fields(), fields),
        _ => panic!("a row of nine fields is a client row"),
    }
    let line = "wg0\tKEY   psk \t (none)  ips  007 +5 -0 0";
    match parse_line(line).unwrap() {
        Some(WgEntry::Client(c)) => {
            assert_eq!(c.to_fields(), vec!["wg0", "KEY", "psk", "(none)", "ips", "7", "5", "0", "0"]);
        }
        _ => panic!("a row of nine fields is a client row"),
    }
}
