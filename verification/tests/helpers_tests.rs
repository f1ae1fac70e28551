use service_bootstrap::decimal::{parse_port, port_text};
use service_bootstrap::env::Dotenv;
use service_bootstrap::fatal::Fatal;
use service_bootstrap::helpers::{format_address, get_address, try_get_address};

fn settings(items: &[(&str, &str)]) -> Dotenv {
    Dotenv::new(
        items.iter().map(|(key, value)| (key.to_string(), value.to_string())).collect(),
        Vec::new(),
    )
}

#[test]
fn test_get_address_with_default_values() {
    let env = settings(&[]);

    let address = get_address(&env);
    assert_eq!(address, "127.0.0.1:3000");
}

#[test]
fn test_get_address_with_custom_host_and_default_port() {
    let env = settings(&[("HOST", "192.168.1.1")]);

    let address = get_address(&env);
    assert_eq!(address, "192.168.1.1:3000");
}

#[test]
fn test_get_address_with_custom_host_and_port() {
    let env = settings(&[("HOST", "192.168.1.1"), ("PORT", "8080")]);

    let address = get_address(&env);
    assert_eq!(address, "192.168.1.1:8080");
}

#[test]
#[should_panic(expected = "Invalid PORT value in environment variables")]
fn test_get_address_with_invalid_port() {
    let env = settings(&[("HOST", "192.168.1.1"), ("PORT", "invalid_port")]);

    match try_get_address(&env) {
        Ok(address) => println!("{}", address),
        Err(fatal) => panic!("{}", fatal.message()),
    }
}

#[test]
fn try_get_address_agrees_with_get_address() {
    for items in [
        vec![],
        vec![("HOST", "192.168.1.1")],
        vec![("PORT", "8080")],
        vec![("HOST", "example.org"), ("PORT", "65535")],
    ] {
        let env = settings(&items);
        assert_eq!(try_get_address(&env), Ok(get_address(&env)));
    }
}

#[test]
fn try_get_address_reports_an_invalid_port() {
    for port in ["invalid_port", "", "65536", "-1", "80 ", " 80", "8080.0", "+", "0x50"] {
        let env = settings(&[("HOST", "192.168.1.1"), ("PORT", port)]);
        assert_eq!(try_get_address(&env), Err(Fatal::InvalidPort), "PORT={:?}", port);
    }
}

#[test]
fn an_empty_host_is_passed_through() {
    let env = settings(&[("HOST", ""), ("PORT", "80")]);
    assert_eq!(get_address(&env), ":80");
}

#[test]
fn the_host_is_not_interpreted() {
    let env = settings(&[("HOST", "not a host: at all"), ("PORT", "1")]);
    assert_eq!(get_address(&env), "not a host: at all:1");
}

#[test]
fn the_port_is_written_as_its_shortest_numeral() {
    assert_eq!(get_address(&settings(&[("PORT", "0008080")])), "127.0.0.1:8080");
    assert_eq!(get_address(&settings(&[("PORT", "+443")])), "127.0.0.1:443");
    assert_eq!(get_address(&settings(&[("PORT", "0")])), "127.0.0.1:0");
    assert_eq!(get_address(&settings(&[("PORT", "000")])), "127.0.0.1:0");
}

#[test]
fn the_file_supplies_host_and_port() {
    let env = Dotenv::new(
        vec![("HOST".to_string(), "10.1.1.1".to_string())],
        vec![
            ("HOST".to_string(), "10.2.2.2".to_string()),
            ("PORT".to_string(), "9000".to_string()),
        ],
    );
    assert_eq!(get_address(&env), "10.1.1.1:9000");
}

#[test]
fn format_address_joins_with_a_colon() {
    assert_eq!(format_address("127.0.0.1", 3000), "127.0.0.1:3000");
    assert_eq!(format_address("::1", 65535), "::1:65535");
    assert_eq!(format_address("", 0), ":0");
}

#[test]
fn parse_port_reads_plain_numerals() {
    assert_eq!(parse_port("0"), Some(0));
    assert_eq!(parse_port("7"), Some(7));
    assert_eq!(parse_port("80"), Some(80));
    assert_eq!(parse_port("3000"), Some(3000));
    assert_eq!(parse_port("8080"), Some(8080));
    assert_eq!(parse_port("65535"), Some(65535));
}

#[test]
fn parse_port_accepts_a_plus_sign_and_leading_zeros() {
    assert_eq!(parse_port("+80"), Some(80));
    assert_eq!(parse_port("+0"), Some(0));
    assert_eq!(parse_port("007"), Some(7));
    assert_eq!(parse_port("+00065535"), Some(65535));
    assert_eq!(parse_port("000000000000000000000000000001"), Some(1));
}

#[test]
fn parse_port_rejects_what_is_out_of_range() {
    assert_eq!(parse_port("65536"), None);
    assert_eq!(parse_port("70000"), None);
    assert_eq!(parse_port("100000"), None);
    assert_eq!(parse_port("4294967296"), None);
    assert_eq!(parse_port("4294967376"), None);
    assert_eq!(parse_port("99999999999999999999999999999999"), None);
    assert_eq!(parse_port("+65536"), None);
}

#[test]
fn parse_port_rejects_what_is_no_numeral() {
    for text in [
        "", "+", "-", "-1", "-0", "++1", "+-1", "1+", "invalid_port", "80a", "a80", " 80",
        "80 ", "8 0", "80\n", "\t80", "8_0", "8,0", "8.0", "0x50", "1e3", "٣٠٠٠", "８０", "80é",
        "é", "/", ":", "65535x", "70000x",
    ] {
        assert_eq!(parse_port(text), None, "{:?}", text);
    }
}

#[test]
fn parse_port_agrees_with_the_standard_parser() {
    let samples = [
        "", "+", "-", "0", "00", "+0", "-0", "1", "+1", "-1", "9", "10", "99", "100", "3000",
        "03000", "+3000", "65534", "65535", "65536", "065535", "+065535", "655350", "99999",
        "100000", "18446744073709551616", "abc", "12a", "a12", " 12", "12 ", "1 2", "+ 1",
        "１２", "12\u{0}", "\u{7f}", "\u{80}", "1\u{80}",
    ];
    for text in samples {
        assert_eq!(parse_port(text), text.parse::<u16>().ok(), "{:?}", text);
    }
}

#[test]
fn port_text_writes_the_shortest_numeral() {
    assert_eq!(port_text(0), "0");
    assert_eq!(port_text(9), "9");
    assert_eq!(port_text(10), "10");
    assert_eq!(port_text(99), "99");
    assert_eq!(port_text(100), "100");
    assert_eq!(port_text(3000), "3000");
    assert_eq!(port_text(8080), "8080");
    assert_eq!(port_text(10000), "10000");
    assert_eq!(port_text(65535), "65535");
}

#[test]
fn port_text_and_parse_port_round_trip_on_every_port() {
    for port in 0..=u16::MAX {
        let text = port_text(port);
        assert_eq!(text, port.to_string());
        assert_eq!(parse_port(&text), Some(port));
    }
}
