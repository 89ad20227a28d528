use ups_exporter::cli::{help_text, parse_args, parse_bool, parse_unsigned, ArgsOutcome};
use ups_exporter::host::{host_name_or_default, trim_text};
use ups_exporter::text::push_decimal;

fn args(v: &[&str]) -> Vec<String> {
    v.iter().map(|s| s.to_string()).collect()
}

#[test]
fn defaults_without_arguments() {
    match parse_args(&args(&[])) {
        ArgsOutcome::Run(c) => {
            assert_eq!(c.prom_port, 9102);
            assert!(c.enable_prom);
            assert_eq!(c.otlp_endpoint, "");
            assert_eq!(c.ups_name, "cyberpower");
            assert_eq!(c.ups_label, "gamer");
            assert_eq!(c.kwh_rate, None);
            assert_eq!(c.interval, 15);
            assert!(!c.debug);
        }
        _ => panic!("expected settings"),
    }
}

#[test]
fn options_are_read() {
    let a = args(&[
        "-prom-port", "9200", "-enable-prom", "false", "-otlp-endpoint", "http://h:4318/v1/metrics", "-ups-name", "apc",
        "-ups-label", "desk", "-kwh-rate", "0.30", "-interval", "60", "-debug",
    ]);
    match parse_args(&a) {
        ArgsOutcome::Run(c) => {
            assert_eq!(c.prom_port, 9200);
            assert!(!c.enable_prom);
            assert_eq!(c.otlp_endpoint, "http://h:4318/v1/metrics");
            assert_eq!(c.ups_name, "apc");
            assert_eq!(c.ups_label, "desk");
            assert_eq!(c.kwh_rate, Some("0.30".to_string()));
            assert_eq!(c.interval, 60);
            assert!(c.debug);
        }
        _ => panic!("expected settings"),
    }
}

#[test]
fn bad_numbers_fall_back_to_defaults() {
    match parse_args(&args(&["-prom-port", "70000", "-interval", "-5", "-enable-prom", "yes"])) {
        ArgsOutcome::Run(c) => {
            assert_eq!(c.prom_port, 9102);
            assert_eq!(c.interval, 15);
            assert!(c.enable_prom);
        }
        _ => panic!("expected settings"),
    }
    match parse_args(&args(&["-prom-port", "8000", "-prom-port", "x"])) {
        ArgsOutcome::Run(c) => assert_eq!(c.prom_port, 9102),
        _ => panic!("expected settings"),
    }
}

#[test]
fn help_and_unknown() {
    assert!(matches!(parse_args(&args(&["-h"])), ArgsOutcome::Help));
    assert!(matches!(parse_args(&args(&["-debug", "--help", "-bogus"])), ArgsOutcome::Help));
    assert!(matches!(parse_args(&args(&["-help"])), ArgsOutcome::Help));
    match parse_args(&args(&["-bogus", "-h"])) {
        ArgsOutcome::Unknown(a) => assert_eq!(a, "-bogus"),
        _ => panic!("expected unknown"),
    }
}

#[test]
fn trailing_option_without_value_is_ignored() {
    match parse_args(&args(&["-ups-name"])) {
        ArgsOutcome::Run(c) => assert_eq!(c.ups_name, "cyberpower"),
        _ => panic!("expected settings"),
    }
    match parse_args(&args(&["-ups-name", "-debug"])) {
        ArgsOutcome::Run(c) => {
            assert_eq!(c.ups_name, "-debug");
            assert!(!c.debug);
        }
        _ => panic!("expected settings"),
    }
}

#[test]
fn unsigned_numbers_read_like_rust() {
    assert_eq!(parse_unsigned("15", u64::MAX), Some(15));
    assert_eq!(parse_unsigned("+15", u64::MAX), Some(15));
    assert_eq!(parse_unsigned("007", 10), Some(7));
    assert_eq!(parse_unsigned("65535", 65535), Some(65535));
    assert_eq!(parse_unsigned("65536", 65535), None);
    assert_eq!(parse_unsigned("18446744073709551615", u64::MAX), Some(u64::MAX));
    assert_eq!(parse_unsigned("18446744073709551616", u64::MAX), None);
    assert_eq!(parse_unsigned("", 10), None);
    assert_eq!(parse_unsigned("+", 10), None);
    assert_eq!(parse_unsigned("-1", 10), None);
    assert_eq!(parse_unsigned("1 ", 10), None);
    assert_eq!(parse_unsigned("99999999999999999999x", u64::MAX), None);
    for s in ["0", "1", "42", "+9", "65535", "65536", "x", ""] {
        assert_eq!(parse_unsigned(s, 65535), s.parse::<u16>().ok().map(|n| n as u64));
    }
}

#[test]
fn bools_read_like_rust() {
    assert_eq!(parse_bool("true"), Some(true));
    assert_eq!(parse_bool("false"), Some(false));
    assert_eq!(parse_bool("True"), None);
    assert_eq!(parse_bool(""), None);
}

#[test]
fn decimal_text() {
    let mut s = String::from("n=");
    push_decimal(&mut s, 0);
    assert_eq!(s, "n=0");
    let mut s = String::new();
    push_decimal(&mut s, 1234567890);
    assert_eq!(s, "1234567890");
    let mut s = String::new();
    push_decimal(&mut s, u64::MAX as u128);
    assert_eq!(s, u64::MAX.to_string());
    let mut s = String::new();
    push_decimal(&mut s, u128::MAX);
    assert_eq!(s, u128::MAX.to_string());
}

#[test]
fn help_text_lists_options() {
    let h = help_text("1.2.3");
    assert!(h.starts_with("UPS Exporter 1.2.3\nUsage: ups-exporter [options]\n\nOptions:\n"));
    assert!(h.contains("  -prom-port <port>       Port for Prometheus metrics (default: 9102)\n"));
    assert!(h.ends_with("  -h, --help              Print this help menu\n"));
    assert_eq!(h.lines().count(), 13);
}

#[test]
fn host_name_trimmed_or_fallback() {
    assert_eq!(host_name_or_default(Some("raspberrypi\n")), "raspberrypi");
    assert_eq!(host_name_or_default(Some("  a b \t\r\n")), "a b");
    assert_eq!(host_name_or_default(Some("\u{3000}x\u{a0}")), "x");
    assert_eq!(host_name_or_default(Some("")), "");
    assert_eq!(host_name_or_default(None), "pizero");
    for s in [" a ", "\n\n", "x", "\u{2028}y z\u{85}"] {
        assert_eq!(trim_text(s), s.trim());
    }
}
