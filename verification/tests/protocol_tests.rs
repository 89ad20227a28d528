use ups_exporter::protocol::{list_var_command, parse_list_var_response, parse_var_line, QueryError, VarListReader};
use ups_exporter::vars::UpsVars;

fn lines(v: &[&str]) -> Vec<String> {
    v.iter().map(|s| s.to_string()).collect()
}

#[test]
fn command_asks_for_all_variables() {
    assert_eq!(list_var_command("cyberpower"), "LIST VAR cyberpower\n");
    assert_eq!(list_var_command(""), "LIST VAR \n");
}

#[test]
fn var_line_with_quoted_value() {
    assert_eq!(
        parse_var_line("VAR cyberpower battery.charge \"100\""),
        Some(("battery.charge".to_string(), "100".to_string()))
    );
}

#[test]
fn var_line_value_keeps_spaces() {
    assert_eq!(
        parse_var_line("VAR ups device.mfr \"Cyber Power System\""),
        Some(("device.mfr".to_string(), "Cyber Power System".to_string()))
    );
    assert_eq!(
        parse_var_line("VAR ups a b c d"),
        Some(("a".to_string(), "b c d".to_string()))
    );
}

#[test]
fn var_line_bare_value() {
    assert_eq!(parse_var_line("VAR ups ups.load 12"), Some(("ups.load".to_string(), "12".to_string())));
    assert_eq!(parse_var_line("VAR ups x \"open"), Some(("x".to_string(), "\"open".to_string())));
    assert_eq!(parse_var_line("VAR ups x \"\""), Some(("x".to_string(), "".to_string())));
    assert_eq!(parse_var_line("VAR ups x "), Some(("x".to_string(), "".to_string())));
}

#[test]
fn var_line_too_short_or_not_var() {
    assert_eq!(parse_var_line("VAR ups battery.charge"), None);
    assert_eq!(parse_var_line("VAR ups"), None);
    assert_eq!(parse_var_line("ERR UNKNOWN-UPS"), None);
    assert_eq!(parse_var_line("VARX a b c"), None);
}

#[test]
fn var_line_double_space_gives_empty_ups() {
    assert_eq!(parse_var_line("VAR  x y"), Some(("x".to_string(), "y".to_string())));
}

#[test]
fn full_response_is_read() {
    let resp = lines(&[
        "BEGIN LIST VAR cyberpower",
        "VAR cyberpower battery.charge \"100\"",
        "VAR cyberpower ups.load \"23\"",
        "VAR cyberpower ups.realpower.nominal \"900\"",
        "END LIST VAR cyberpower",
    ]);
    let vars = parse_list_var_response(&resp).unwrap();
    assert_eq!(vars.get("battery.charge"), Some("100"));
    assert_eq!(vars.get("ups.load"), Some("23"));
    assert_eq!(vars.get("ups.realpower.nominal"), Some("900"));
    assert_eq!(vars.get("input.voltage"), None);
}

#[test]
fn lines_outside_the_list_are_ignored() {
    let resp = lines(&[
        "VAR cyberpower before.begin \"1\"",
        "BEGIN LIST VAR cyberpower",
        "VAR cyberpower inside \"2\"",
        "END LIST VAR cyberpower",
        "VAR cyberpower after.end \"3\"",
        "BEGIN LIST VAR cyberpower",
        "VAR cyberpower inside \"4\"",
    ]);
    let vars = parse_list_var_response(&resp).unwrap();
    assert_eq!(vars.get("before.begin"), None);
    assert_eq!(vars.get("after.end"), None);
    assert_eq!(vars.get("inside"), Some("2"));
}

#[test]
fn later_value_replaces_earlier() {
    let resp = lines(&["BEGIN LIST VAR u", "VAR u a \"1\"", "VAR u a \"2\"", "END LIST VAR u"]);
    let vars = parse_list_var_response(&resp).unwrap();
    assert_eq!(vars.get("a"), Some("2"));
}

#[test]
fn empty_answer_is_an_error() {
    let resp = lines(&["ERR UNKNOWN-UPS"]);
    assert_eq!(parse_list_var_response(&resp).err(), Some(QueryError::NoMetrics));
    let resp = lines(&["BEGIN LIST VAR u", "END LIST VAR u"]);
    assert_eq!(parse_list_var_response(&resp).err(), Some(QueryError::NoMetrics));
    assert_eq!(QueryError::NoMetrics.message(), "No metrics received from upsd");
}

#[test]
fn answer_without_end_keeps_what_was_read() {
    let resp = lines(&["BEGIN LIST VAR u", "VAR u a b"]);
    let vars = parse_list_var_response(&resp).unwrap();
    assert_eq!(vars.get("a"), Some("b"));
}

#[test]
fn reader_stops_at_end_line() {
    let mut reader = VarListReader::new();
    assert!(reader.feed_line("BEGIN LIST VAR u"));
    assert!(reader.feed_line("VAR u a \"1\""));
    assert!(!reader.feed_line("END LIST VAR u"));
    assert!(!reader.feed_line("VAR u b \"2\""));
    let vars = reader.finish().unwrap();
    assert_eq!(vars.get("a"), Some("1"));
    assert_eq!(vars.get("b"), None);
}

#[test]
fn reader_flags_lone_quote_value() {
    let mut reader = VarListReader::new();
    assert!(!reader.line_fails("VAR u a \""));
    reader.feed_line("BEGIN LIST VAR u");
    assert!(reader.line_fails("VAR u a \""));
    assert!(!reader.line_fails("VAR u a \"\""));
    assert!(!reader.line_fails("VAR u a x"));
    assert!(!reader.line_fails("END LIST VAR u"));
}

#[test]
fn vars_insert_then_get() {
    let mut v = UpsVars::new();
    assert!(v.is_empty());
    v.insert("k".to_string(), "1".to_string());
    v.insert("j".to_string(), "2".to_string());
    v.insert("k".to_string(), "3".to_string());
    assert!(!v.is_empty());
    assert_eq!(v.get("k"), Some("3"));
    assert_eq!(v.get("j"), Some("2"));
    assert_eq!(v.get("z"), None);
}
