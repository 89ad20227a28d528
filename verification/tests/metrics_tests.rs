use ups_exporter::metrics::{
    computed_gauges, generate_prometheus_metrics, otlp_push_enabled, otlp_resource_attributes, power_inputs, reported_gauges,
    reported_values, select_gauges, ValueKind, ValueSource,
};
use ups_exporter::vars::UpsVars;

#[test]
fn reported_gauge_table_matches_readme() {
    let t = reported_gauges();
    let names: Vec<&str> = t.iter().map(|g| g.gauge.prom_name.as_str()).collect();
    assert_eq!(
        names,
        vec![
            "ups_battery_charge_percent",
            "ups_battery_runtime_seconds",
            "ups_battery_voltage_volts",
            "ups_input_voltage_volts",
            "ups_output_voltage_volts",
            "ups_load_percent",
            "ups_realpower_nominal_watts"
        ]
    );
    let keys: Vec<&str> = t.iter().map(|g| g.key.as_str()).collect();
    assert_eq!(
        keys,
        vec![
            "battery.charge",
            "battery.runtime",
            "battery.voltage",
            "input.voltage",
            "output.voltage",
            "ups.load",
            "ups.realpower.nominal"
        ]
    );
    assert_eq!(t[1].gauge.kind, ValueKind::Int);
    assert_eq!(t[1].gauge.unit, "s");
    assert_eq!(t[6].gauge.kind, ValueKind::Int);
    assert_eq!(t[0].gauge.kind, ValueKind::Double);
    assert_eq!(t[0].gauge.otlp_name, "ups.battery.charge");
}

#[test]
fn computed_gauge_table_matches_readme() {
    let t = computed_gauges();
    let names: Vec<&str> = t.iter().map(|g| g.prom_name.as_str()).collect();
    assert_eq!(names, vec!["ups_power_active_watts", "ups_cost_hourly_USD", "ups_cost_daily_USD", "ups_cost_yearly_USD"]);
    assert_eq!(t[0].otlp_name, "ups.power.active");
    assert_eq!(t[3].unit, "USD");
}

#[test]
fn reported_values_follow_table() {
    let mut v = UpsVars::new();
    v.insert("ups.load".to_string(), "23".to_string());
    v.insert("battery.charge".to_string(), "100".to_string());
    v.insert("other".to_string(), "x".to_string());
    let r = reported_values(&v);
    assert_eq!(r.len(), 7);
    assert_eq!(r[0], Some("100".to_string()));
    assert_eq!(r[1], None);
    assert_eq!(r[5], Some("23".to_string()));
    assert_eq!(r[6], None);
}

#[test]
fn power_inputs_need_both() {
    let mut v = UpsVars::new();
    v.insert("ups.load".to_string(), "23".to_string());
    assert_eq!(power_inputs(&v), None);
    v.insert("ups.realpower.nominal".to_string(), "900".to_string());
    assert_eq!(power_inputs(&v), Some(("23".to_string(), "900".to_string())));
}

#[test]
fn selection_keeps_present_then_computed() {
    let present = vec![true, false, false, false, false, true, true];
    let s = select_gauges(&present, true);
    let sources: Vec<ValueSource> = s.iter().map(|g| g.source).collect();
    assert_eq!(
        sources,
        vec![
            ValueSource::Reported(0),
            ValueSource::Reported(5),
            ValueSource::Reported(6),
            ValueSource::Computed(0),
            ValueSource::Computed(1),
            ValueSource::Computed(2),
            ValueSource::Computed(3)
        ]
    );
    let s = select_gauges(&present, false);
    assert_eq!(s.len(), 3);
    let none = select_gauges(&vec![false; 7], false);
    assert!(none.is_empty());
}

#[test]
fn prometheus_text_exact() {
    let present = vec![true, false, false, false, false, true, false];
    let s = select_gauges(&present, false);
    let out = generate_prometheus_metrics("gamer", &s, &vec!["100".to_string(), "23.5".to_string()]);
    assert_eq!(
        out,
        "# HELP ups_battery_charge_percent UPS battery charge percentage\n\
         # TYPE ups_battery_charge_percent gauge\n\
         ups_battery_charge_percent{ups=\"gamer\"} 100\n\
         # HELP ups_load_percent UPS load percentage\n\
         # TYPE ups_load_percent gauge\n\
         ups_load_percent{ups=\"gamer\"} 23.5\n"
    );
}

#[test]
fn prometheus_text_computed_block() {
    let s = select_gauges(&vec![false; 7], true);
    let vals: Vec<String> = vec!["207".into(), "0.03105".into(), "0.7452".into(), "271.998".into()];
    let out = generate_prometheus_metrics("gamer", &s, &vals);
    assert!(out.starts_with(
        "# HELP ups_power_active_watts Calculated active power usage of the load\n# TYPE ups_power_active_watts gauge\nups_power_active_watts{ups=\"gamer\"} 207\n"
    ));
    assert!(out.ends_with("ups_cost_yearly_USD{ups=\"gamer\"} 271.998\n"));
    assert_eq!(out.lines().count(), 12);
}

#[test]
fn prometheus_text_empty() {
    let s = select_gauges(&vec![false; 7], false);
    assert_eq!(generate_prometheus_metrics("gamer", &s, &vec![]), "");
}

#[test]
fn resource_attributes_order() {
    let a = otlp_resource_attributes("pizero", "gamer");
    assert_eq!(
        a,
        vec![
            ("service.name".to_string(), "ups-monitor".to_string()),
            ("host.name".to_string(), "pizero".to_string()),
            ("ups.name".to_string(), "gamer".to_string())
        ]
    );
}

#[test]
fn push_needs_an_endpoint() {
    assert!(!otlp_push_enabled(""));
    assert!(otlp_push_enabled("http://prom.k.net:4318/v1/metrics"));
}

#[test]
fn readings_ignore_insert_order_and_other_variables() {
    let mut a = UpsVars::new();
    a.insert("ups.load".to_string(), "23".to_string());
    a.insert("battery.charge".to_string(), "100".to_string());
    let mut b = UpsVars::new();
    b.insert("device.model".to_string(), "PR1500".to_string());
    b.insert("battery.charge".to_string(), "100".to_string());
    b.insert("ups.load".to_string(), "23".to_string());
    assert_eq!(reported_values(&a), reported_values(&b));
    assert_eq!(power_inputs(&a), power_inputs(&b));
}
