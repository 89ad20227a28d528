use vstd::prelude::*;

use crate::vars::UpsVars;

verus! {

/// How a gauge's value is written in an OTLP data point.
#[derive(Debug, Clone, Copy, PartialEq, Eq, Structural)]
pub enum ValueKind {
    /// As a floating-point number (`asDouble`).
    Double,
    /// As an integer, written as a string (`asInt`).
    Int,
}

/// One exported gauge: its Prometheus name, its OTLP name, the description
/// shared by both, its OTLP unit and how OTLP writes its value.
pub ghost struct GaugeDef {
    pub prom_name: Seq<char>,
    pub otlp_name: Seq<char>,
    pub description: Seq<char>,
    pub unit: Seq<char>,
    pub kind: ValueKind,
}

/// One exported gauge.
pub struct Gauge {
    pub prom_name: String,
    pub otlp_name: String,
    pub description: String,
    pub unit: String,
    pub kind: ValueKind,
}

impl View for Gauge {
    type V = GaugeDef;

    open spec fn view(&self) -> GaugeDef {
        GaugeDef {
            prom_name: self.prom_name@,
            otlp_name: self.otlp_name@,
            description: self.description@,
            unit: self.unit@,
            kind: self.kind,
        }
    }
}

/// The gauges read from UPS variables, each with the variable it reads, in
/// the order in which they are exported.
pub open spec fn reported_table() -> Seq<(Seq<char>, GaugeDef)> {
    seq![
        ("battery.charge"@, GaugeDef {
            prom_name: "ups_battery_charge_percent"@,
            otlp_name: "ups.battery.charge"@,
            description: "UPS battery charge percentage"@,
            unit: "%"@,
            kind: ValueKind::Double,
        }),
        ("battery.runtime"@, GaugeDef {
            prom_name: "ups_battery_runtime_seconds"@,
            otlp_name: "ups.battery.runtime"@,
            description: "UPS battery remaining runtime in seconds"@,
            unit: "s"@,
            kind: ValueKind::Int,
        }),
        ("battery.voltage"@, GaugeDef {
            prom_name: "ups_battery_voltage_volts"@,
            otlp_name: "ups.battery.voltage"@,
            description: "UPS battery voltage"@,
            unit: "V"@,
            kind: ValueKind::Double,
        }),
        ("input.voltage"@, GaugeDef {
            prom_name: "ups_input_voltage_volts"@,
            otlp_name: "ups.input.voltage"@,
            description: "UPS input line voltage"@,
            unit: "V"@,
            kind: ValueKind::Double,
        }),
        ("output.voltage"@, GaugeDef {
            prom_name: "ups_output_voltage_volts"@,
            otlp_name: "ups.output.voltage"@,
            description: "UPS output line voltage"@,
            unit: "V"@,
            kind: ValueKind::Double,
        }),
        ("ups.load"@, GaugeDef {
            prom_name: "ups_load_percent"@,
            otlp_name: "ups.load"@,
            description: "UPS load percentage"@,
            unit: "%"@,
            kind: ValueKind::Double,
        }),
        ("ups.realpower.nominal"@, GaugeDef {
            prom_name: "ups_realpower_nominal_watts"@,
            otlp_name: "ups.realpower.nominal"@,
            description: "UPS nominal real power rating"@,
            unit: "W"@,
            kind: ValueKind::Int,
        }),
    ]
}

/// The gauges computed from the load and the nominal power: active power,
/// then the hourly, daily and yearly cost.
pub open spec fn computed_table() -> Seq<GaugeDef> {
    seq![
        GaugeDef {
            prom_name: "ups_power_active_watts"@,
            otlp_name: "ups.power.active"@,
            description: "Calculated active power usage of the load"@,
            unit: "W"@,
            kind: ValueKind::Double,
        },
        GaugeDef {
            prom_name: "ups_cost_hourly_USD"@,
            otlp_name: "ups.cost.hourly"@,
            description: "Calculated hourly electricity cost"@,
            unit: "USD"@,
            kind: ValueKind::Double,
        },
        GaugeDef {
            prom_name: "ups_cost_daily_USD"@,
            otlp_name: "ups.cost.daily"@,
            description: "Calculated daily electricity cost"@,
            unit: "USD"@,
            kind: ValueKind::Double,
        },
        GaugeDef {
            prom_name: "ups_cost_yearly_USD"@,
            otlp_name: "ups.cost.yearly"@,
            description: "Calculated yearly electricity cost"@,
            unit: "USD"@,
            kind: ValueKind::Double,
        },
    ]
}

fn gauge(prom_name: &str, otlp_name: &str, description: &str, unit: &str, kind: ValueKind) -> (res: Gauge)
    ensures
        res@ == (GaugeDef {
            prom_name: prom_name@,
            otlp_name: otlp_name@,
            description: description@,
            unit: unit@,
            kind: kind,
        }),
{
    Gauge {
        prom_name: prom_name.to_owned(),
        otlp_name: otlp_name.to_owned(),
        description: description.to_owned(),
        unit: unit.to_owned(),
        kind,
    }
}

/// A gauge read from a UPS variable, with the variable's name.
pub struct ReportedGauge {
    pub key: String,
    pub gauge: Gauge,
}

/// The gauges read from UPS variables, in export order.
pub fn reported_gauges() -> (res: Vec<ReportedGauge>)
    ensures
        res@.len() == reported_table().len(),
        forall|i: int|
            0 <= i < res@.len() ==> (#[trigger] res@[i]).key@ == reported_table()[i].0 && res@[i].gauge@
                == reported_table()[i].1,
{
    let mut res: Vec<ReportedGauge> = Vec::new();
    res.push(ReportedGauge {
        key: "battery.charge".to_owned(),
        gauge: gauge("ups_battery_charge_percent", "ups.battery.charge", "UPS battery charge percentage", "%", ValueKind::Double),
    });
    res.push(ReportedGauge {
        key: "battery.runtime".to_owned(),
        gauge: gauge("ups_battery_runtime_seconds", "ups.battery.runtime", "UPS battery remaining runtime in seconds", "s", ValueKind::Int),
    });
    res.push(ReportedGauge {
        key: "battery.voltage".to_owned(),
        gauge: gauge("ups_battery_voltage_volts", "ups.battery.voltage", "UPS battery voltage", "V", ValueKind::Double),
    });
    res.push(ReportedGauge {
        key: "input.voltage".to_owned(),
        gauge: gauge("ups_input_voltage_volts", "ups.input.voltage", "UPS input line voltage", "V", ValueKind::Double),
    });
    res.push(ReportedGauge {
        key: "output.voltage".to_owned(),
        gauge: gauge("ups_output_voltage_volts", "ups.output.voltage", "UPS output line voltage", "V", ValueKind::Double),
    });
    res.push(ReportedGauge {
        key: "ups.load".to_owned(),
        gauge: gauge("ups_load_percent", "ups.load", "UPS load percentage", "%", ValueKind::Double),
    });
    res.push(ReportedGauge {
        key: "ups.realpower.nominal".to_owned(),
        gauge: gauge("ups_realpower_nominal_watts", "ups.realpower.nominal", "UPS nominal real power rating", "W", ValueKind::Int),
    });
    res
}

/// The gauges computed from the load and the nominal power, in export order.
pub fn computed_gauges() -> (res: Vec<Gauge>)
    ensures
        res@.len() == computed_table().len(),
        forall|i: int| 0 <= i < res@.len() ==> (#[trigger] res@[i])@ == computed_table()[i],
{
    let mut res: Vec<Gauge> = Vec::new();
    res.push(gauge("ups_power_active_watts", "ups.power.active", "Calculated active power usage of the load", "W", ValueKind::Double));
    res.push(gauge("ups_cost_hourly_USD", "ups.cost.hourly", "Calculated hourly electricity cost", "USD", ValueKind::Double));
    res.push(gauge("ups_cost_daily_USD", "ups.cost.daily", "Calculated daily electricity cost", "USD", ValueKind::Double));
    res.push(gauge("ups_cost_yearly_USD", "ups.cost.yearly", "Calculated yearly electricity cost", "USD", ValueKind::Double));
    res
}

/// The value of `k` in `m`, if any.
pub open spec fn lookup(m: Map<Seq<char>, Seq<char>>, k: Seq<char>) -> Option<Seq<char>> {
    if m.dom().contains(k) {
        Some(m[k])
    } else {
        None
    }
}

/// What the reported gauges read from the UPS variables `m`, in table order.
pub open spec fn table_readings(m: Map<Seq<char>, Seq<char>>) -> Seq<Option<Seq<char>>> {
    reported_table().map_values(|e: (Seq<char>, GaugeDef)| lookup(m, e.0))
}

/// The load and the nominal power in the UPS variables `m`, when both are there.
pub open spec fn power_reading(m: Map<Seq<char>, Seq<char>>) -> Option<(Seq<char>, Seq<char>)> {
    match (lookup(m, "ups.load"@), lookup(m, "ups.realpower.nominal"@)) {
        (Some(load), Some(nominal)) => Some((load, nominal)),
        _ => None,
    }
}

/// The text held by an optional string.
pub open spec fn text_of(o: Option<String>) -> Option<Seq<char>> {
    match o {
        Some(s) => Some(s@),
        None => None,
    }
}

/// The raw text of the UPS variable that each reported gauge reads, in
/// table order; `None` where the UPS did not report it.
pub fn reported_values(vars: &UpsVars) -> (res: Vec<Option<String>>)
    ensures
        res@.len() == reported_table().len(),
        forall|i: int|
            0 <= i < res@.len() ==> ((#[trigger] res@[i]) is Some <==> vars@.dom().contains(
                reported_table()[i].0,
            )),
        forall|i: int|
            0 <= i < res@.len() ==> ((#[trigger] res@[i]) matches Some(v) ==> v@ == vars@[reported_table()[i].0]),
        res@.map_values(|o: Option<String>| text_of(o)) == table_readings(vars@),
{
    let table = reported_gauges();
    let mut res: Vec<Option<String>> = Vec::new();
    for i in 0..table.len()
        invariant
            table@.len() == reported_table().len(),
            forall|j: int|
                0 <= j < table@.len() ==> (#[trigger] table@[j]).key@ == reported_table()[j].0,
            res@.len() == i,
            forall|j: int|
                0 <= j < i ==> ((#[trigger] res@[j]) is Some <==> vars@.dom().contains(reported_table()[j].0)),
            forall|j: int|
                0 <= j < i ==> ((#[trigger] res@[j]) matches Some(v) ==> v@ == vars@[reported_table()[j].0]),
    {
        let found = match vars.get(table[i].key.as_str()) {
            Some(v) => Some(v.to_owned()),
            None => None,
        };
        res.push(found);
    }
    assert(res@.map_values(|o: Option<String>| text_of(o)) =~= table_readings(vars@));
    res
}

/// The load and the nominal real power, when the UPS reported both: the
/// inputs of the computed gauges.
pub fn power_inputs(vars: &UpsVars) -> (res: Option<(String, String)>)
    ensures
        res is Some <==> vars@.dom().contains("ups.load"@) && vars@.dom().contains(
            "ups.realpower.nominal"@,
        ),
        res matches Some((load, nominal)) ==> load@ == vars@["ups.load"@] && nominal@
            == vars@["ups.realpower.nominal"@],
        match res {
            Some((load, nominal)) => power_reading(vars@) == Some((load@, nominal@)),
            None => power_reading(vars@) is None,
        },
{
    match (vars.get("ups.load"), vars.get("ups.realpower.nominal")) {
        (Some(load), Some(nominal)) => Some((load.to_owned(), nominal.to_owned())),
        _ => None,
    }
}

/// Where an exported gauge's value comes from: the reported gauge with this
/// index, or the computed gauge with this index.
#[derive(Debug, Clone, Copy, PartialEq, Eq, Structural)]
pub enum ValueSource {
    Reported(usize),
    Computed(usize),
}

/// A gauge chosen for export, with the source of its value.
pub struct SelectedGauge {
    pub gauge: Gauge,
    pub source: ValueSource,
}

impl View for SelectedGauge {
    type V = (GaugeDef, ValueSource);

    open spec fn view(&self) -> (GaugeDef, ValueSource) {
        (self.gauge@, self.source)
    }
}

/// The reported gauges whose value is present, in table order.
pub open spec fn reported_selection(present: Seq<bool>) -> Seq<(GaugeDef, ValueSource)>
    decreases present.len(),
{
    if present.len() == 0 {
        Seq::empty()
    } else {
        let n = present.len() - 1;
        reported_selection(present.drop_last()) + if present[n] {
            seq![(reported_table()[n].1, ValueSource::Reported(n as usize))]
        } else {
            Seq::empty()
        }
    }
}

/// All computed gauges, in table order.
pub open spec fn computed_selection() -> Seq<(GaugeDef, ValueSource)> {
    Seq::new(computed_table().len(), |i: int| (computed_table()[i], ValueSource::Computed(i as usize)))
}

/// The gauges exported: the reported gauges whose value is present, then,
/// when the power could be computed, all computed gauges.
pub open spec fn selection(present: Seq<bool>, with_power: bool) -> Seq<(GaugeDef, ValueSource)> {
    reported_selection(present) + if with_power {
        computed_selection()
    } else {
        Seq::empty()
    }
}

fn copy_gauge(g: &Gauge) -> (res: Gauge)
    ensures
        res@ == g@,
{
    Gauge {
        prom_name: g.prom_name.clone(),
        otlp_name: g.otlp_name.clone(),
        description: g.description.clone(),
        unit: g.unit.clone(),
        kind: g.kind,
    }
}

/// Chooses the gauges to export. `present[i]` says whether the value of the
/// `i`-th reported gauge is known; `with_power` whether the active power and
/// the costs could be computed.
pub fn select_gauges(present: &Vec<bool>, with_power: bool) -> (res: Vec<SelectedGauge>)
    requires
        present@.len() == reported_table().len(),
    ensures
        res@.map_values(|g: SelectedGauge| g@) == selection(present@, with_power),
{
    let reported = reported_gauges();
    let mut res: Vec<SelectedGauge> = Vec::new();
    for i in 0..present.len()
        invariant
            present@.len() == reported_table().len(),
            reported@.len() == reported_table().len(),
            forall|j: int|
                0 <= j < reported@.len() ==> (#[trigger] reported@[j]).gauge@ == reported_table()[j].1,
            res@.map_values(|g: SelectedGauge| g@) == reported_selection(present@.take(i as int)),
    {
        let ghost before = res@.map_values(|g: SelectedGauge| g@);
        assert(present@.take(i + 1).drop_last() =~= present@.take(i as int));
        if present[i] {
            res.push(SelectedGauge { gauge: copy_gauge(&reported[i].gauge), source: ValueSource::Reported(i) });
            assert(res@.map_values(|g: SelectedGauge| g@) =~= before.push(
                (reported_table()[i as int].1, ValueSource::Reported(i)),
            ));
        }
        assert(res@.map_values(|g: SelectedGauge| g@) =~= reported_selection(present@.take(i + 1)));
    }
    assert(present@.take(present@.len() as int) =~= present@);
    if with_power {
        let computed = computed_gauges();
        let ghost base = res@.map_values(|g: SelectedGauge| g@);
        for k in 0..computed.len()
            invariant
                computed@.len() == computed_table().len(),
                forall|j: int| 0 <= j < computed@.len() ==> (#[trigger] computed@[j])@ == computed_table()[j],
                res@.map_values(|g: SelectedGauge| g@) =~= base + computed_selection().take(k as int),
        {
            let ghost before = res@.map_values(|g: SelectedGauge| g@);
            res.push(SelectedGauge { gauge: copy_gauge(&computed[k]), source: ValueSource::Computed(k) });
            assert(res@.map_values(|g: SelectedGauge| g@) =~= before.push(
                (computed_table()[k as int], ValueSource::Computed(k)),
            ));
            assert(computed_selection().take(k + 1) =~= computed_selection().take(k as int).push(
                (computed_table()[k as int], ValueSource::Computed(k)),
            ));
        }
        assert(computed_selection().take(computed_table().len() as int) =~= computed_selection());
    } else {
        assert(res@.map_values(|g: SelectedGauge| g@) =~= selection(present@, with_power));
    }
    res
}

/// One gauge in the Prometheus text format: its `HELP` line, its `TYPE`
/// line and its sample, labelled with the UPS.
pub open spec fn gauge_block(name: Seq<char>, help: Seq<char>, label: Seq<char>, value: Seq<char>) -> Seq<char> {
    "# HELP "@ + name + " "@ + help + "\n"@ + "# TYPE "@ + name + " gauge\n"@ + name + "{ups=\""@ + label
        + "\"} "@ + value + "\n"@
}

/// The Prometheus text for the chosen gauges, `values[i]` being the value
/// written for `selected[i]`.
pub open spec fn exposition(
    label: Seq<char>,
    selected: Seq<(GaugeDef, ValueSource)>,
    values: Seq<Seq<char>>,
) -> Seq<char>
    decreases selected.len(),
{
    if selected.len() == 0 {
        Seq::empty()
    } else {
        exposition(label, selected.drop_last(), values.drop_last()) + gauge_block(
            selected.last().0.prom_name,
            selected.last().0.description,
            label,
            values.last(),
        )
    }
}

/// Appends one gauge in the Prometheus text format.
pub fn write_gauge_block(out: &mut String, name: &str, help: &str, label: &str, value: &str)
    ensures
        final(out)@ == old(out)@ + gauge_block(name@, help@, label@, value@),
{
    let ghost start = out@;
    out.append("# HELP ");
    out.append(name);
    out.append(" ");
    out.append(help);
    out.append("\n");
    out.append("# TYPE ");
    out.append(name);
    out.append(" gauge\n");
    out.append(name);
    out.append("{ups=\"");
    out.append(label);
    out.append("\"} ");
    out.append(value);
    out.append("\n");
    assert(out@ =~= start + gauge_block(name@, help@, label@, value@));
}

/// The Prometheus text for the chosen gauges, labelled with `ups_label`;
/// `values[i]` is the value written for `selected[i]`.
pub fn generate_prometheus_metrics(ups_label: &str, selected: &Vec<SelectedGauge>, values: &Vec<String>) -> (res: String)
    requires
        values@.len() == selected@.len(),
    ensures
        res@ == exposition(
            ups_label@,
            selected@.map_values(|g: SelectedGauge| g@),
            values@.map_values(|v: String| v@),
        ),
{
    let ghost sel = selected@.map_values(|g: SelectedGauge| g@);
    let ghost vals = values@.map_values(|v: String| v@);
    let mut out = String::new();
    for i in 0..selected.len()
        invariant
            values@.len() == selected@.len(),
            sel == selected@.map_values(|g: SelectedGauge| g@),
            vals == values@.map_values(|v: String| v@),
            out@ == exposition(ups_label@, sel.take(i as int), vals.take(i as int)),
    {
        let g = &selected[i].gauge;
        write_gauge_block(&mut out, g.prom_name.as_str(), g.description.as_str(), ups_label, values[i].as_str());
        assert(sel.take(i + 1).drop_last() =~= sel.take(i as int));
        assert(vals.take(i + 1).drop_last() =~= vals.take(i as int));
        assert(sel.take(i + 1).last() == sel[i as int]);
        assert(vals.take(i + 1).last() == vals[i as int]);
    }
    assert(sel.take(selected@.len() as int) =~= sel);
    assert(vals.take(selected@.len() as int) =~= vals);
    out
}

/// Whether metrics are pushed over OTLP: only when an endpoint is given.
pub fn otlp_push_enabled(endpoint: &str) -> (res: bool)
    ensures
        res == (endpoint@.len() > 0),
{
    !endpoint.is_empty()
}

/// The attributes that describe the exporting process in an OTLP payload:
/// the service name, the host name and the UPS label, in that order.
pub fn otlp_resource_attributes(host_name: &str, ups_label: &str) -> (res: Vec<(String, String)>)
    ensures
        res@.map_values(|a: (String, String)| (a.0@, a.1@)) == seq![
            ("service.name"@, "ups-monitor"@),
            ("host.name"@, host_name@),
            ("ups.name"@, ups_label@),
        ],
{
    let mut res: Vec<(String, String)> = Vec::new();
    res.push(("service.name".to_owned(), "ups-monitor".to_owned()));
    res.push(("host.name".to_owned(), host_name.to_owned()));
    res.push(("ups.name".to_owned(), ups_label.to_owned()));
    assert(res@.map_values(|a: (String, String)| (a.0@, a.1@)) =~= seq![
        ("service.name"@, "ups-monitor"@),
        ("host.name"@, host_name@),
        ("ups.name"@, ups_label@),
    ]);
    res
}

/// The Prometheus text of two runs of gauges, one after the other, is the
/// text of the first run followed by that of the second.
pub proof fn law_exposition_concat(
    label: Seq<char>,
    s1: Seq<(GaugeDef, ValueSource)>,
    v1: Seq<Seq<char>>,
    s2: Seq<(GaugeDef, ValueSource)>,
    v2: Seq<Seq<char>>,
)
    requires
        s1.len() == v1.len(),
        s2.len() == v2.len(),
    ensures
        exposition(label, s1 + s2, v1 + v2) == exposition(label, s1, v1) + exposition(label, s2, v2),
    decreases s2.len(),
{
    if s2.len() == 0 {
        assert(s1 + s2 =~= s1);
        assert(v1 + v2 =~= v1);
        assert(exposition(label, s2, v2) =~= Seq::<char>::empty());
        assert(exposition(label, s1, v1) + Seq::<char>::empty() =~= exposition(label, s1, v1));
    } else {
        law_exposition_concat(label, s1, v1, s2.drop_last(), v2.drop_last());
        assert((s1 + s2).drop_last() =~= s1 + s2.drop_last());
        assert((v1 + v2).drop_last() =~= v1 + v2.drop_last());
        assert((s1 + s2).last() == s2.last());
        assert((v1 + v2).last() == v2.last());
        let b = gauge_block(s2.last().0.prom_name, s2.last().0.description, label, v2.last());
        assert(exposition(label, s1, v1) + exposition(label, s2.drop_last(), v2.drop_last()) + b
            =~= exposition(label, s1, v1) + (exposition(label, s2.drop_last(), v2.drop_last()) + b));
    }
}

/// The Prometheus text is empty or ends with a line break.
pub proof fn law_exposition_ends_with_newline(
    label: Seq<char>,
    selected: Seq<(GaugeDef, ValueSource)>,
    values: Seq<Seq<char>>,
)
    requires
        selected.len() == values.len(),
    ensures
        exposition(label, selected, values).len() == 0 || exposition(label, selected, values).last()
            == '\n',
{
    reveal_strlit("\n");
    if selected.len() > 0 {
        let b = gauge_block(selected.last().0.prom_name, selected.last().0.description, label, values.last());
        assert(b.last() == '\n');
    }
}

/// The computed gauges are exported exactly when the power is known, after
/// all reported gauges: with the power the export is the export without it
/// followed by the four computed gauges.
pub proof fn law_computed_last(present: Seq<bool>)
    ensures
        selection(present, true) == selection(present, false) + computed_selection(),
        computed_selection().len() == 4,
{
    assert(selection(present, false) =~= reported_selection(present));
}

/// A reported gauge is exported exactly when its value is present, and in
/// table order: the export of a table prefix grows by one gauge for each
/// present value.
pub proof fn law_reported_count(present: Seq<bool>)
    ensures
        reported_selection(present).len() == present.filter(|b: bool| b).len(),
    decreases present.len(),
{
    reveal_with_fuel(Seq::<_>::filter, 1);
    if present.len() > 0 {
        law_reported_count(present.drop_last());
    }
}

/// Every exported gauge names a value that is there: a reported gauge
/// whose value is present, or a computed gauge when the power is known.
pub proof fn law_selected_values_present(present: Seq<bool>, with_power: bool)
    requires
        present.len() == reported_table().len(),
    ensures
        forall|k: int|
            0 <= k < selection(present, with_power).len() ==> match (#[trigger] selection(present, with_power)[k]).1 {
                ValueSource::Reported(i) => i < present.len() && present[i as int]
                    && selection(present, with_power)[k].0 == reported_table()[i as int].1,
                ValueSource::Computed(i) => with_power && i < computed_table().len()
                    && selection(present, with_power)[k].0 == computed_table()[i as int],
            },
{
    lemma_reported_selection(present);
    let r = reported_selection(present);
    let s = selection(present, with_power);
    assert forall|k: int| 0 <= k < s.len() implies match (#[trigger] s[k]).1 {
        ValueSource::Reported(i) => i < present.len() && present[i as int] && s[k].0 == reported_table()[i as int].1,
        ValueSource::Computed(i) => with_power && i < computed_table().len() && s[k].0 == computed_table()[i as int],
    } by {
        if k < r.len() {
            assert(s[k] == r[k]);
        } else {
            assert(with_power);
            assert(s[k] == computed_selection()[k - r.len()]);
        }
    }
}

proof fn lemma_reported_selection(present: Seq<bool>)
    requires
        present.len() <= reported_table().len(),
    ensures
        forall|k: int|
            0 <= k < reported_selection(present).len() ==> ((#[trigger] reported_selection(present)[k]).1 matches ValueSource::Reported(i)
                && i < present.len() && present[i as int] && reported_selection(present)[k].0 == reported_table()[i as int].1),
    decreases present.len(),
{
    if present.len() > 0 {
        let t = present.drop_last();
        lemma_reported_selection(t);
        let r = reported_selection(present);
        let rt = reported_selection(t);
        assert forall|k: int| 0 <= k < r.len() implies ((#[trigger] r[k]).1 matches ValueSource::Reported(i)
            && i < present.len() && present[i as int] && r[k].0 == reported_table()[i as int].1) by {
            if k < rt.len() {
                assert(r[k] == rt[k]);
                if let ValueSource::Reported(i) = rt[k].1 {
                    assert(t[i as int] == present[i as int]);
                }
            } else {
                let n = present.len() - 1;
                assert(present[n]);
                assert(r[k] == (reported_table()[n].1, ValueSource::Reported(n as usize)));
            }
        }
    }
}

/// Setting two different variables gives the same variables in either
/// order: the readings never depend on the order in which the UPS listed
/// its variables.
pub proof fn law_insert_order(
    m: Map<Seq<char>, Seq<char>>,
    k1: Seq<char>,
    v1: Seq<char>,
    k2: Seq<char>,
    v2: Seq<char>,
)
    requires
        k1 != k2,
    ensures
        m.insert(k1, v1).insert(k2, v2) == m.insert(k2, v2).insert(k1, v1),
        table_readings(m.insert(k1, v1).insert(k2, v2)) == table_readings(m.insert(k2, v2).insert(k1, v1)),
        power_reading(m.insert(k1, v1).insert(k2, v2)) == power_reading(m.insert(k2, v2).insert(k1, v1)),
{
    assert(m.insert(k1, v1).insert(k2, v2) =~= m.insert(k2, v2).insert(k1, v1));
}

/// The readings depend only on the variables of the gauge table: two sets
/// of variables that agree on those give the same readings, whatever else
/// they hold.
pub proof fn law_readings_use_table_keys(m1: Map<Seq<char>, Seq<char>>, m2: Map<Seq<char>, Seq<char>>)
    requires
        forall|i: int|
            0 <= i < reported_table().len() ==> lookup(m1, #[trigger] reported_table()[i].0) == lookup(
                m2,
                reported_table()[i].0,
            ),
    ensures
        table_readings(m1) == table_readings(m2),
        power_reading(m1) == power_reading(m2),
{
    assert(table_readings(m1) =~= table_readings(m2)) by {
        assert forall|i: int| 0 <= i < reported_table().len() implies table_readings(m1)[i] == table_readings(
            m2,
        )[i] by {
            assert(lookup(m1, reported_table()[i].0) == lookup(m2, reported_table()[i].0));
        }
    }
    assert(lookup(m1, reported_table()[5].0) == lookup(m2, reported_table()[5].0));
    assert(lookup(m1, reported_table()[6].0) == lookup(m2, reported_table()[6].0));
}

/// A variable that no gauge reads changes no reading.
pub proof fn law_unread_variable_ignored(m: Map<Seq<char>, Seq<char>>, k: Seq<char>, v: Seq<char>)
    requires
        forall|i: int| 0 <= i < reported_table().len() ==> k != #[trigger] reported_table()[i].0,
    ensures
        table_readings(m.insert(k, v)) == table_readings(m),
        power_reading(m.insert(k, v)) == power_reading(m),
{
    assert forall|i: int| 0 <= i < reported_table().len() implies lookup(
        m.insert(k, v),
        #[trigger] reported_table()[i].0,
    ) == lookup(m, reported_table()[i].0) by {
        assert(k != reported_table()[i].0);
    }
    law_readings_use_table_keys(m.insert(k, v), m);
}

/// The gauges are exported in table order: reported gauges by increasing
/// index, then computed gauges by increasing index.
pub proof fn law_selection_in_table_order(present: Seq<bool>, with_power: bool)
    requires
        present.len() == reported_table().len(),
    ensures
        forall|a: int, b: int|
            0 <= a < b < selection(present, with_power).len() ==> match (
                #[trigger] selection(present, with_power)[a].1,
                #[trigger] selection(present, with_power)[b].1,
            ) {
                (ValueSource::Reported(i), ValueSource::Reported(j)) => i < j,
                (ValueSource::Reported(_), ValueSource::Computed(_)) => true,
                (ValueSource::Computed(_), ValueSource::Reported(_)) => false,
                (ValueSource::Computed(i), ValueSource::Computed(j)) => i < j,
            },
{
    lemma_reported_order(present);
    let r = reported_selection(present);
    let s = selection(present, with_power);
    assert forall|a: int, b: int| 0 <= a < b < s.len() implies match (#[trigger] s[a].1, #[trigger] s[b].1) {
        (ValueSource::Reported(i), ValueSource::Reported(j)) => i < j,
        (ValueSource::Reported(_), ValueSource::Computed(_)) => true,
        (ValueSource::Computed(_), ValueSource::Reported(_)) => false,
        (ValueSource::Computed(i), ValueSource::Computed(j)) => i < j,
    } by {
        if b < r.len() {
            assert(s[a] == r[a] && s[b] == r[b]);
        } else if a < r.len() {
            assert(s[a] == r[a]);
            assert(s[b] == computed_selection()[b - r.len()]);
        } else {
            assert(s[a] == computed_selection()[a - r.len()]);
            assert(s[b] == computed_selection()[b - r.len()]);
        }
    }
}

proof fn lemma_reported_order(present: Seq<bool>)
    requires
        present.len() <= reported_table().len(),
    ensures
        forall|k: int|
            0 <= k < reported_selection(present).len() ==> ((#[trigger] reported_selection(present)[k]).1 matches ValueSource::Reported(i)
                && i < present.len()),
        forall|a: int, b: int|
            0 <= a < b < reported_selection(present).len() ==> ((#[trigger] reported_selection(present)[a]).1 matches ValueSource::Reported(i)
                && (#[trigger] reported_selection(present)[b]).1 matches ValueSource::Reported(j) && i < j),
    decreases present.len(),
{
    lemma_reported_selection(present);
    if present.len() > 0 {
        let t = present.drop_last();
        lemma_reported_order(t);
        let r = reported_selection(present);
        let rt = reported_selection(t);
        let n = present.len() - 1;
        assert forall|k: int| 0 <= k < r.len() implies ((#[trigger] r[k]).1 matches ValueSource::Reported(i)
            && i < present.len()) by {
            if k < rt.len() {
                assert(r[k] == rt[k]);
            }
        }
        assert forall|a: int, b: int| 0 <= a < b < r.len() implies ((#[trigger] r[a]).1 matches ValueSource::Reported(i)
            && (#[trigger] r[b]).1 matches ValueSource::Reported(j) && i < j) by {
            assert(r[a] == rt[a]);
            if b < rt.len() {
                assert(r[b] == rt[b]);
            } else {
                assert(r[b] == (reported_table()[n].1, ValueSource::Reported(n as usize)));
            }
        }
    }
}

/// Every exported gauge, reported then computed.
pub open spec fn all_gauges() -> Seq<GaugeDef> {
    reported_table().map_values(|e: (Seq<char>, GaugeDef)| e.1) + computed_table()
}

/// No two exported gauges share a Prometheus name or an OTLP name.
pub proof fn law_gauge_names_distinct()
    ensures
        forall|i: int, j: int|
            0 <= i < j < all_gauges().len() ==> (#[trigger] all_gauges()[i]).prom_name != (#[trigger] all_gauges()[j]).prom_name
                && all_gauges()[i].otlp_name != all_gauges()[j].otlp_name,
{
    reveal_strlit("ups_battery_charge_percent");
    reveal_strlit("ups_battery_runtime_seconds");
    reveal_strlit("ups_battery_voltage_volts");
    reveal_strlit("ups_input_voltage_volts");
    reveal_strlit("ups_output_voltage_volts");
    reveal_strlit("ups_load_percent");
    reveal_strlit("ups_realpower_nominal_watts");
    reveal_strlit("ups_power_active_watts");
    reveal_strlit("ups_cost_hourly_USD");
    reveal_strlit("ups_cost_daily_USD");
    reveal_strlit("ups_cost_yearly_USD");
    reveal_strlit("ups.battery.charge");
    reveal_strlit("ups.battery.runtime");
    reveal_strlit("ups.battery.voltage");
    reveal_strlit("ups.input.voltage");
    reveal_strlit("ups.output.voltage");
    reveal_strlit("ups.load");
    reveal_strlit("ups.realpower.nominal");
    reveal_strlit("ups.power.active");
    reveal_strlit("ups.cost.hourly");
    reveal_strlit("ups.cost.daily");
    reveal_strlit("ups.cost.yearly");
    let g = all_gauges();
    assert(g.len() == 11);
    assert forall|i: int, j: int| 0 <= i < j < g.len() implies (#[trigger] g[i]).prom_name != (#[trigger] g[j]).prom_name
        && g[i].otlp_name != g[j].otlp_name by {
        if i == 0 && j == 1 {
            assert(g[0].prom_name.len() != g[1].prom_name.len());
            assert(g[0].otlp_name.len() != g[1].otlp_name.len());
        }
        if i == 0 && j == 2 {
            assert(g[0].prom_name.len() != g[2].prom_name.len());
            assert(g[0].otlp_name.len() != g[2].otlp_name.len());
        }
        if i == 0 && j == 3 {
            assert(g[0].prom_name.len() != g[3].prom_name.len());
            assert(g[0].otlp_name.len() != g[3].otlp_name.len());
        }
        if i == 0 && j == 4 {
            assert(g[0].prom_name.len() != g[4].prom_name.len());
            assert(g[0].otlp_name[4] != g[4].otlp_name[4]);
        }
        if i == 0 && j == 5 {
            assert(g[0].prom_name.len() != g[5].prom_name.len());
            assert(g[0].otlp_name.len() != g[5].otlp_name.len());
        }
        if i == 0 && j == 6 {
            assert(g[0].prom_name.len() != g[6].prom_name.len());
            assert(g[0].otlp_name.len() != g[6].otlp_name.len());
        }
        if i == 0 && j == 7 {
            assert(g[0].prom_name.len() != g[7].prom_name.len());
            assert(g[0].otlp_name.len() != g[7].otlp_name.len());
        }
        if i == 0 && j == 8 {
            assert(g[0].prom_name.len() != g[8].prom_name.len());
            assert(g[0].otlp_name.len() != g[8].otlp_name.len());
        }
        if i == 0 && j == 9 {
            assert(g[0].prom_name.len() != g[9].prom_name.len());
            assert(g[0].otlp_name.len() != g[9].otlp_name.len());
        }
        if i == 0 && j == 10 {
            assert(g[0].prom_name.len() != g[10].prom_name.len());
            assert(g[0].otlp_name.len() != g[10].otlp_name.len());
        }
        if i == 1 && j == 2 {
            assert(g[1].prom_name.len() != g[2].prom_name.len());
            assert(g[1].otlp_name[12] != g[2].otlp_name[12]);
        }
        if i == 1 && j == 3 {
            assert(g[1].prom_name.len() != g[3].prom_name.len());
            assert(g[1].otlp_name.len() != g[3].otlp_name.len());
        }
        if i == 1 && j == 4 {
            assert(g[1].prom_name.len() != g[4].prom_name.len());
            assert(g[1].otlp_name.len() != g[4].otlp_name.len());
        }
        if i == 1 && j == 5 {
            assert(g[1].prom_name.len() != g[5].prom_name.len());
            assert(g[1].otlp_name.len() != g[5].otlp_name.len());
        }
        if i == 1 && j == 6 {
            assert(g[1].prom_name[4] != g[6].prom_name[4]);
            assert(g[1].otlp_name.len() != g[6].otlp_name.len());
        }
        if i == 1 && j == 7 {
            assert(g[1].prom_name.len() != g[7].prom_name.len());
            assert(g[1].otlp_name.len() != g[7].otlp_name.len());
        }
        if i == 1 && j == 8 {
            assert(g[1].prom_name.len() != g[8].prom_name.len());
            assert(g[1].otlp_name.len() != g[8].otlp_name.len());
        }
        if i == 1 && j == 9 {
            assert(g[1].prom_name.len() != g[9].prom_name.len());
            assert(g[1].otlp_name.len() != g[9].otlp_name.len());
        }
        if i == 1 && j == 10 {
            assert(g[1].prom_name.len() != g[10].prom_name.len());
            assert(g[1].otlp_name.len() != g[10].otlp_name.len());
        }
        if i == 2 && j == 3 {
            assert(g[2].prom_name.len() != g[3].prom_name.len());
            assert(g[2].otlp_name.len() != g[3].otlp_name.len());
        }
        if i == 2 && j == 4 {
            assert(g[2].prom_name.len() != g[4].prom_name.len());
            assert(g[2].otlp_name.len() != g[4].otlp_name.len());
        }
        if i == 2 && j == 5 {
            assert(g[2].prom_name.len() != g[5].prom_name.len());
            assert(g[2].otlp_name.len() != g[5].otlp_name.len());
        }
        if i == 2 && j == 6 {
            assert(g[2].prom_name.len() != g[6].prom_name.len());
            assert(g[2].otlp_name.len() != g[6].otlp_name.len());
        }
        if i == 2 && j == 7 {
            assert(g[2].prom_name.len() != g[7].prom_name.len());
            assert(g[2].otlp_name.len() != g[7].otlp_name.len());
        }
        if i == 2 && j == 8 {
            assert(g[2].prom_name.len() != g[8].prom_name.len());
            assert(g[2].otlp_name.len() != g[8].otlp_name.len());
        }
        if i == 2 && j == 9 {
            assert(g[2].prom_name.len() != g[9].prom_name.len());
            assert(g[2].otlp_name.len() != g[9].otlp_name.len());
        }
        if i == 2 && j == 10 {
            assert(g[2].prom_name.len() != g[10].prom_name.len());
            assert(g[2].otlp_name.len() != g[10].otlp_name.len());
        }
        if i == 3 && j == 4 {
            assert(g[3].prom_name.len() != g[4].prom_name.len());
            assert(g[3].otlp_name.len() != g[4].otlp_name.len());
        }
        if i == 3 && j == 5 {
            assert(g[3].prom_name.len() != g[5].prom_name.len());
            assert(g[3].otlp_name.len() != g[5].otlp_name.len());
        }
        if i == 3 && j == 6 {
            assert(g[3].prom_name.len() != g[6].prom_name.len());
            assert(g[3].otlp_name.len() != g[6].otlp_name.len());
        }
        if i == 3 && j == 7 {
            assert(g[3].prom_name.len() != g[7].prom_name.len());
            assert(g[3].otlp_name.len() != g[7].otlp_name.len());
        }
        if i == 3 && j == 8 {
            assert(g[3].prom_name.len() != g[8].prom_name.len());
            assert(g[3].otlp_name.len() != g[8].otlp_name.len());
        }
        if i == 3 && j == 9 {
            assert(g[3].prom_name.len() != g[9].prom_name.len());
            assert(g[3].otlp_name.len() != g[9].otlp_name.len());
        }
        if i == 3 && j == 10 {
            assert(g[3].prom_name.len() != g[10].prom_name.len());
            assert(g[3].otlp_name.len() != g[10].otlp_name.len());
        }
        if i == 4 && j == 5 {
            assert(g[4].prom_name.len() != g[5].prom_name.len());
            assert(g[4].otlp_name.len() != g[5].otlp_name.len());
        }
        if i == 4 && j == 6 {
            assert(g[4].prom_name.len() != g[6].prom_name.len());
            assert(g[4].otlp_name.len() != g[6].otlp_name.len());
        }
        if i == 4 && j == 7 {
            assert(g[4].prom_name.len() != g[7].prom_name.len());
            assert(g[4].otlp_name.len() != g[7].otlp_name.len());
        }
        if i == 4 && j == 8 {
            assert(g[4].prom_name.len() != g[8].prom_name.len());
            assert(g[4].otlp_name.len() != g[8].otlp_name.len());
        }
        if i == 4 && j == 9 {
            assert(g[4].prom_name.len() != g[9].prom_name.len());
            assert(g[4].otlp_name.len() != g[9].otlp_name.len());
        }
        if i == 4 && j == 10 {
            assert(g[4].prom_name.len() != g[10].prom_name.len());
            assert(g[4].otlp_name.len() != g[10].otlp_name.len());
        }
        if i == 5 && j == 6 {
            assert(g[5].prom_name.len() != g[6].prom_name.len());
            assert(g[5].otlp_name.len() != g[6].otlp_name.len());
        }
        if i == 5 && j == 7 {
            assert(g[5].prom_name.len() != g[7].prom_name.len());
            assert(g[5].otlp_name.len() != g[7].otlp_name.len());
        }
        if i == 5 && j == 8 {
            assert(g[5].prom_name.len() != g[8].prom_name.len());
            assert(g[5].otlp_name.len() != g[8].otlp_name.len());
        }
        if i == 5 && j == 9 {
            assert(g[5].prom_name.len() != g[9].prom_name.len());
            assert(g[5].otlp_name.len() != g[9].otlp_name.len());
        }
        if i == 5 && j == 10 {
            assert(g[5].prom_name.len() != g[10].prom_name.len());
            assert(g[5].otlp_name.len() != g[10].otlp_name.len());
        }
        if i == 6 && j == 7 {
            assert(g[6].prom_name.len() != g[7].prom_name.len());
            assert(g[6].otlp_name.len() != g[7].otlp_name.len());
        }
        if i == 6 && j == 8 {
            assert(g[6].prom_name.len() != g[8].prom_name.len());
            assert(g[6].otlp_name.len() != g[8].otlp_name.len());
        }
        if i == 6 && j == 9 {
            assert(g[6].prom_name.len() != g[9].prom_name.len());
            assert(g[6].otlp_name.len() != g[9].otlp_name.len());
        }
        if i == 6 && j == 10 {
            assert(g[6].prom_name.len() != g[10].prom_name.len());
            assert(g[6].otlp_name.len() != g[10].otlp_name.len());
        }
        if i == 7 && j == 8 {
            assert(g[7].prom_name.len() != g[8].prom_name.len());
            assert(g[7].otlp_name.len() != g[8].otlp_name.len());
        }
        if i == 7 && j == 9 {
            assert(g[7].prom_name.len() != g[9].prom_name.len());
            assert(g[7].otlp_name.len() != g[9].otlp_name.len());
        }
        if i == 7 && j == 10 {
            assert(g[7].prom_name.len() != g[10].prom_name.len());
            assert(g[7].otlp_name.len() != g[10].otlp_name.len());
        }
        if i == 8 && j == 9 {
            assert(g[8].prom_name.len() != g[9].prom_name.len());
            assert(g[8].otlp_name.len() != g[9].otlp_name.len());
        }
        if i == 8 && j == 10 {
            assert(g[8].prom_name[9] != g[10].prom_name[9]);
            assert(g[8].otlp_name[9] != g[10].otlp_name[9]);
        }
        if i == 9 && j == 10 {
            assert(g[9].prom_name.len() != g[10].prom_name.len());
            assert(g[9].otlp_name.len() != g[10].otlp_name.len());
        }
    }
}

/// The Prometheus text of one gauge is its `HELP` line, its `TYPE ... gauge`
/// line and its labelled sample, whatever the gauge's OTLP kind or source.
pub proof fn law_one_gauge_text(label: Seq<char>, g: (GaugeDef, ValueSource), v: Seq<char>)
    ensures
        exposition(label, seq![g], seq![v]) == "# HELP "@ + g.0.prom_name + " "@ + g.0.description + "\n"@
            + "# TYPE "@ + g.0.prom_name + " gauge\n"@ + g.0.prom_name + "{ups=\""@ + label + "\"} "@ + v
            + "\n"@,
{
    assert(seq![g].drop_last() =~= Seq::<(GaugeDef, ValueSource)>::empty());
    assert(seq![v].drop_last() =~= Seq::<Seq<char>>::empty());
    assert(exposition(label, Seq::<(GaugeDef, ValueSource)>::empty(), Seq::<Seq<char>>::empty()) =~= Seq::<char>::empty());
    assert(seq![g].last() == g);
    assert(seq![v].last() == v);
    assert(exposition(label, seq![g], seq![v]) == Seq::<char>::empty() + gauge_block(g.0.prom_name, g.0.description, label, v));
    assert(exposition(label, seq![g], seq![v]) =~= "# HELP "@ + g.0.prom_name + " "@ + g.0.description + "\n"@
        + "# TYPE "@ + g.0.prom_name + " gauge\n"@ + g.0.prom_name + "{ups=\""@ + label + "\"} "@ + v
        + "\n"@);
}

/// Only the battery runtime and the nominal power are written as integers
/// in OTLP; every other reported gauge and every computed gauge (active
/// power and the three costs) is written as a floating-point number.
pub proof fn law_value_kinds()
    ensures
        forall|i: int|
            0 <= i < reported_table().len() ==> ((#[trigger] reported_table()[i]).1.kind == ValueKind::Int
                <==> (reported_table()[i].0 == "battery.runtime"@ || reported_table()[i].0
                == "ups.realpower.nominal"@)),
        forall|i: int| 0 <= i < computed_table().len() ==> (#[trigger] computed_table()[i]).kind == ValueKind::Double,
        computed_table().len() == 4,
{
    reveal_strlit("battery.charge");
    reveal_strlit("battery.runtime");
    reveal_strlit("battery.voltage");
    reveal_strlit("input.voltage");
    reveal_strlit("output.voltage");
    reveal_strlit("ups.load");
    reveal_strlit("ups.realpower.nominal");
    let t = reported_table();
    assert forall|i: int| 0 <= i < t.len() implies ((#[trigger] t[i]).1.kind == ValueKind::Int <==> (t[i].0
        == "battery.runtime"@ || t[i].0 == "ups.realpower.nominal"@)) by {
        if i == 0 || i == 2 || i == 3 || i == 4 {
            assert(t[i].0.len() != "battery.runtime"@.len() || t[i].0[8] != "battery.runtime"@[8]);
            assert(t[i].0.len() != "ups.realpower.nominal"@.len());
        } else if i == 5 {
            assert(t[i].0.len() != "battery.runtime"@.len());
            assert(t[i].0.len() != "ups.realpower.nominal"@.len());
        }
    }
}

} // verus!
