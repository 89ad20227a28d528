use vstd::prelude::*;

use crate::text::{decimal, digit_char, same_text};

verus! {

/// The help text after its first line.
pub const HELP_BODY: &'static str = "Usage: ups-exporter [options]\n\nOptions:\n  -prom-port <port>       Port for Prometheus metrics (default: 9102)\n  -enable-prom <true|false> Enable/disable Prometheus endpoint (default: true)\n  -otlp-endpoint <url>    OTLP HTTP receiver endpoint (e.g. http://prom.k.net:4318/v1/metrics)\n  -ups-name <name>        Name of the UPS to query via upsc (default: cyberpower)\n  -ups-label <label>      Label name for the UPS device in metrics (default: gamer)\n  -kwh-rate <rate>        USD electricity rate per kWh (default: 0.15)\n  -interval <secs>        OTLP metric push interval in seconds (default: 15)\n  -debug                  Enable verbose debug logging\n  -h, --help              Print this help menu\n";

/// The help text for the program at `version`.
pub fn help_text(version: &str) -> (res: String)
    ensures
        res@ == "UPS Exporter "@ + version@ + "\n"@ + HELP_BODY@,
{
    let mut res = String::new();
    res.append("UPS Exporter ");
    res.append(version);
    res.append("\n");
    res.append(HELP_BODY);
    res
}

/// The value of the decimal digit `c`.
pub open spec fn digit_value(c: char) -> nat {
    (c as u32 - '0' as u32) as nat
}

/// `c` is one of `0` to `9`.
pub open spec fn is_digit(c: char) -> bool {
    '0' <= c <= '9'
}

/// The number that the digits `s` write in decimal.
pub open spec fn digits_value(s: Seq<char>) -> nat
    decreases s.len(),
{
    if s.len() == 0 {
        0
    } else {
        digits_value(s.drop_last()) * 10 + digit_value(s.last())
    }
}

/// The number that `s` writes as an unsigned integer: an optional `+`, then
/// one or more decimal digits. `None` for any other text.
pub open spec fn unsigned_text(s: Seq<char>) -> Option<nat> {
    let d = unsigned_digits(s);
    if d.len() > 0 && all_digits(d) {
        Some(digits_value(d))
    } else {
        None
    }
}

/// `s` without a leading `+`.
pub open spec fn unsigned_digits(s: Seq<char>) -> Seq<char> {
    if s.len() > 0 && s[0] == '+' {
        s.drop_first()
    } else {
        s
    }
}

/// Every character of `d` is a decimal digit.
pub open spec fn all_digits(d: Seq<char>) -> bool {
    forall|i: int| 0 <= i < d.len() ==> is_digit(#[trigger] d[i])
}

/// An unsigned integer of at most `max`, read from `s` as Rust reads one:
/// `None` when `s` is not an unsigned integer or exceeds `max`.
pub open spec fn parse_unsigned_spec(s: Seq<char>, max: nat) -> Option<nat> {
    match unsigned_text(s) {
        Some(n) => if n <= max {
            Some(n)
        } else {
            None
        },
        None => None,
    }
}

proof fn lemma_digits_value_grows(d: Seq<char>, k: int)
    requires
        0 <= k <= d.len(),
    ensures
        digits_value(d.take(k)) <= digits_value(d),
    decreases d.len(),
{
    if k < d.len() {
        lemma_digits_value_grows(d.drop_last(), k);
        assert(d.drop_last().take(k) =~= d.take(k));
    } else {
        assert(d.take(k) =~= d);
    }
}

/// Reads an unsigned integer of at most `max` from `s`.
pub fn parse_unsigned(s: &str, max: u64) -> (res: Option<u64>)
    ensures
        match parse_unsigned_spec(s@, max as nat) {
            Some(n) => res == Some(n as u64),
            None => res is None,
        },
{
    let cs = crate::text::to_chars(s);
    let start: usize = if cs.len() > 0 && cs[0] == '+' {
        1
    } else {
        0
    };
    let ghost d = unsigned_digits(cs@);
    assert(d =~= cs@.skip(start as int));
    if start >= cs.len() {
        return None;
    }
    let mut i = start;
    while i < cs.len()
        invariant
            start <= i <= cs.len(),
            cs@ == s@,
            d == unsigned_digits(cs@),
            d =~= cs@.skip(start as int),
            forall|j: int| start <= j < i ==> is_digit(cs@[j]),
        decreases cs.len() - i,
    {
        if !(cs[i] >= '0' && cs[i] <= '9') {
            assert(d[i - start] == cs@[i as int]);
            assert(!is_digit(d[i - start]));
            assert(!all_digits(d));
            return None;
        }
        i = i + 1;
    }
    assert forall|j: int| 0 <= j < d.len() implies is_digit(#[trigger] d[j]) by {
        assert(d[j] == cs@[j + start]);
    }
    assert(all_digits(d));
    let mut acc: u64 = 0;
    let mut k = start;
    while k < cs.len()
        invariant
            start <= k <= cs.len(),
            cs@ == s@,
            d == unsigned_digits(cs@),
            d =~= cs@.skip(start as int),
            forall|j: int| 0 <= j < d.len() ==> is_digit(#[trigger] d[j]),
            acc as nat == digits_value(d.take(k - start)),
            acc <= max,
        decreases cs.len() - k,
    {
        assert(d[k - start] == cs@[k as int]);
        assert(is_digit(d[k - start]));
        let dv: u64 = (cs[k] as u32 - '0' as u32) as u64;
        assert(d.take(k - start + 1).drop_last() =~= d.take(k - start));
        assert(d.take(k - start + 1).last() == cs@[k as int]);
        if dv > max || acc > (max - dv) / 10 {
            proof {
                if dv <= max {
                    assert(acc * 10 + dv > max) by (nonlinear_arith)
                        requires
                            acc > (max - dv) / 10,
                            dv <= max,
                    ;
                }
                lemma_digits_value_grows(d, k - start + 1);
                assert(digits_value(d.take(k - start + 1)) == acc * 10 + dv);
            }
            return None;
        }
        proof {
            assert(acc * 10 + dv <= max) by (nonlinear_arith)
                requires
                    acc <= (max - dv) / 10,
                    dv <= max,
            ;
        }
        acc = acc * 10 + dv;
        k = k + 1;
    }
    assert(d.take(d.len() as int) =~= d);
    Some(acc)
}

/// `s` read as Rust reads a `bool`: exactly `true` or `false`.
pub open spec fn parse_bool_spec(s: Seq<char>) -> Option<bool> {
    if s == "true"@ {
        Some(true)
    } else if s == "false"@ {
        Some(false)
    } else {
        None
    }
}

/// Reads a `bool`: exactly `true` or `false`.
pub fn parse_bool(s: &str) -> (res: Option<bool>)
    ensures
        res == parse_bool_spec(s@),
{
    if same_text(s, "true") {
        Some(true)
    } else if same_text(s, "false") {
        Some(false)
    } else {
        None
    }
}

/// The settings of the exporter.
pub ghost struct ConfigView {
    pub prom_port: u16,
    pub enable_prom: bool,
    pub otlp_endpoint: Seq<char>,
    pub ups_name: Seq<char>,
    pub ups_label: Seq<char>,
    pub kwh_rate: Option<Seq<char>>,
    pub interval: u64,
    pub debug: bool,
}

/// The settings of the exporter. `kwh_rate` holds the text given for the
/// electricity rate, if any; the rate is 0.15 when it is absent or is no
/// number.
pub struct Config {
    pub prom_port: u16,
    pub enable_prom: bool,
    pub otlp_endpoint: String,
    pub ups_name: String,
    pub ups_label: String,
    pub kwh_rate: Option<String>,
    pub interval: u64,
    pub debug: bool,
}

impl View for Config {
    type V = ConfigView;

    open spec fn view(&self) -> ConfigView {
        ConfigView {
            prom_port: self.prom_port,
            enable_prom: self.enable_prom,
            otlp_endpoint: self.otlp_endpoint@,
            ups_name: self.ups_name@,
            ups_label: self.ups_label@,
            kwh_rate: match self.kwh_rate {
                Some(r) => Some(r@),
                None => None,
            },
            interval: self.interval,
            debug: self.debug,
        }
    }
}

/// The settings when no argument is given.
pub open spec fn default_config() -> ConfigView {
    ConfigView {
        prom_port: 9102,
        enable_prom: true,
        otlp_endpoint: Seq::empty(),
        ups_name: "cyberpower"@,
        ups_label: "gamer"@,
        kwh_rate: None,
        interval: 15,
        debug: false,
    }
}

/// What the command line asks for.
pub ghost enum ArgsView {
    Run(ConfigView),
    Help,
    Unknown(Seq<char>),
}

/// What the command line asks for: run with these settings, print the
/// help, or stop on an unknown argument.
pub enum ArgsOutcome {
    Run(Config),
    Help,
    Unknown(String),
}

impl View for ArgsOutcome {
    type V = ArgsView;

    open spec fn view(&self) -> ArgsView {
        match self {
            ArgsOutcome::Run(c) => ArgsView::Run(c@),
            ArgsOutcome::Help => ArgsView::Help,
            ArgsOutcome::Unknown(a) => ArgsView::Unknown(a@),
        }
    }
}

/// The options that take the next argument as their value.
pub open spec fn takes_value(flag: Seq<char>) -> bool {
    ||| flag == "-prom-port"@
    ||| flag == "-enable-prom"@
    ||| flag == "-otlp-endpoint"@
    ||| flag == "-ups-name"@
    ||| flag == "-ups-label"@
    ||| flag == "-kwh-rate"@
    ||| flag == "-interval"@
}

/// The options that ask for the help.
pub open spec fn is_help_flag(flag: Seq<char>) -> bool {
    flag == "-h"@ || flag == "--help"@ || flag == "-help"@
}

/// The settings after option `flag` with value `v`. A port or an interval
/// that is no number of its type gives the default.
pub open spec fn with_value(cfg: ConfigView, flag: Seq<char>, v: Seq<char>) -> ConfigView {
    if flag == "-prom-port"@ {
        ConfigView {
            prom_port: match parse_unsigned_spec(v, 65535) {
                Some(n) => n as u16,
                None => 9102,
            },
            ..cfg
        }
    } else if flag == "-enable-prom"@ {
        ConfigView {
            enable_prom: match parse_bool_spec(v) {
                Some(b) => b,
                None => true,
            },
            ..cfg
        }
    } else if flag == "-otlp-endpoint"@ {
        ConfigView { otlp_endpoint: v, ..cfg }
    } else if flag == "-ups-name"@ {
        ConfigView { ups_name: v, ..cfg }
    } else if flag == "-ups-label"@ {
        ConfigView { ups_label: v, ..cfg }
    } else if flag == "-kwh-rate"@ {
        ConfigView { kwh_rate: Some(v), ..cfg }
    } else if flag == "-interval"@ {
        ConfigView {
            interval: match parse_unsigned_spec(v, u64::MAX as nat) {
                Some(n) => n as u64,
                None => 15,
            },
            ..cfg
        }
    } else {
        cfg
    }
}

/// Reads the arguments from position `i` on, with settings `cfg` so far.
/// An option that takes a value and comes last is ignored; `-debug` turns
/// on debugging; a help option or an unknown argument ends the reading.
pub open spec fn read_args(args: Seq<Seq<char>>, i: int, cfg: ConfigView) -> ArgsView
    decreases args.len() - i,
{
    if i < 0 || i >= args.len() {
        ArgsView::Run(cfg)
    } else if takes_value(args[i]) {
        if i + 1 < args.len() {
            read_args(args, i + 2, with_value(cfg, args[i], args[i + 1]))
        } else {
            ArgsView::Run(cfg)
        }
    } else if args[i] == "-debug"@ {
        read_args(args, i + 1, ConfigView { debug: true, ..cfg })
    } else if is_help_flag(args[i]) {
        ArgsView::Help
    } else {
        ArgsView::Unknown(args[i])
    }
}

fn set_value(cfg: &mut Config, flag: &str, v: &str)
    ensures
        final(cfg)@ == with_value(old(cfg)@, flag@, v@),
{
    if same_text(flag, "-prom-port") {
        cfg.prom_port = match parse_unsigned(v, 65535) {
            Some(n) => n as u16,
            None => 9102,
        };
    } else if same_text(flag, "-enable-prom") {
        cfg.enable_prom = match parse_bool(v) {
            Some(b) => b,
            None => true,
        };
    } else if same_text(flag, "-otlp-endpoint") {
        cfg.otlp_endpoint = v.to_owned();
    } else if same_text(flag, "-ups-name") {
        cfg.ups_name = v.to_owned();
    } else if same_text(flag, "-ups-label") {
        cfg.ups_label = v.to_owned();
    } else if same_text(flag, "-kwh-rate") {
        cfg.kwh_rate = Some(v.to_owned());
    } else if same_text(flag, "-interval") {
        cfg.interval = match parse_unsigned(v, u64::MAX) {
            Some(n) => n,
            None => 15,
        };
    }
}

fn is_value_flag(flag: &str) -> (res: bool)
    ensures
        res == takes_value(flag@),
{
    same_text(flag, "-prom-port") || same_text(flag, "-enable-prom") || same_text(flag, "-otlp-endpoint")
        || same_text(flag, "-ups-name") || same_text(flag, "-ups-label") || same_text(flag, "-kwh-rate")
        || same_text(flag, "-interval")
}

/// Reads the command line (without the program name).
pub fn parse_args(args: &Vec<String>) -> (res: ArgsOutcome)
    ensures
        res@ == read_args(args@.map_values(|a: String| a@), 0, default_config()),
{
    let ghost ls = args@.map_values(|a: String| a@);
    let mut cfg = Config {
        prom_port: 9102,
        enable_prom: true,
        otlp_endpoint: String::new(),
        ups_name: "cyberpower".to_owned(),
        ups_label: "gamer".to_owned(),
        kwh_rate: None,
        interval: 15,
        debug: false,
    };
    assert(cfg@ == default_config());
    let mut i: usize = 0;
    while i < args.len()
        invariant
            ls == args@.map_values(|a: String| a@),
            i <= args.len(),
            read_args(ls, i as int, cfg@) == read_args(ls, 0, default_config()),
        decreases args.len() - i,
    {
        let a: &str = args[i].as_str();
        assert(ls[i as int] == a@);
        if is_value_flag(a) {
            if i + 1 < args.len() {
                assert(ls[i + 1] == args[i + 1]@);
                set_value(&mut cfg, a, args[i + 1].as_str());
                i = i + 2;
            } else {
                return ArgsOutcome::Run(cfg);
            }
        } else if same_text(a, "-debug") {
            cfg.debug = true;
            i = i + 1;
        } else if same_text(a, "-h") || same_text(a, "--help") || same_text(a, "-help") {
            return ArgsOutcome::Help;
        } else {
            return ArgsOutcome::Unknown(a.to_owned());
        }
    }
    ArgsOutcome::Run(cfg)
}

proof fn lemma_decimal_digits(n: nat)
    ensures
        decimal(n).len() > 0,
        all_digits(decimal(n)),
        digits_value(decimal(n)) == n,
    decreases n,
{
    if n < 10 {
        assert(digit_value(digit_char(n)) == n);
        assert(decimal(n).drop_last() =~= Seq::<char>::empty());
        assert(decimal(n).last() == digit_char(n));
        assert(digits_value(Seq::<char>::empty()) == 0);
    } else {
        lemma_decimal_digits(n / 10);
        let d = decimal(n);
        assert(d.drop_last() == decimal(n / 10));
        assert(digit_value(digit_char(n % 10)) == n % 10);
        assert(d.last() == digit_char(n % 10));
        assert((n / 10) * 10 + n % 10 == n);
        assert forall|i: int| 0 <= i < d.len() implies is_digit(#[trigger] d[i]) by {
            if i < d.len() - 1 {
                assert(d[i] == decimal(n / 10)[i]);
            }
        }
    }
}

/// A number written in decimal reads back as the same number.
pub proof fn law_decimal_reads_back(n: nat, max: nat)
    requires
        n <= max,
    ensures
        parse_unsigned_spec(decimal(n), max) == Some(n),
{
    lemma_decimal_digits(n);
    assert(unsigned_digits(decimal(n)) == decimal(n)) by {
        assert(is_digit(decimal(n)[0]));
    }
}

/// Every port from 0 to 65535 written in decimal is taken as given.
pub proof fn law_port_taken_as_given(n: nat)
    requires
        n <= 65535,
    ensures
        read_args(seq!["-prom-port"@, decimal(n)], 0, default_config()) == ArgsView::Run(
            ConfigView { prom_port: n as u16, ..default_config() },
        ),
{
    law_decimal_reads_back(n, 65535);
    let args = seq!["-prom-port"@, decimal(n)];
    assert(takes_value(args[0]));
    assert(read_args(args, 2, with_value(default_config(), args[0], args[1])) == ArgsView::Run(
        with_value(default_config(), args[0], args[1]),
    ));
}

/// Every interval that fits in 64 bits, written in decimal, is taken as
/// given.
pub proof fn law_interval_taken_as_given(n: nat)
    requires
        n <= u64::MAX,
    ensures
        read_args(seq!["-interval"@, decimal(n)], 0, default_config()) == ArgsView::Run(
            ConfigView { interval: n as u64, ..default_config() },
        ),
{
    law_decimal_reads_back(n, u64::MAX as nat);
    reveal_strlit("-interval");
    reveal_strlit("-prom-port");
    reveal_strlit("-enable-prom");
    reveal_strlit("-otlp-endpoint");
    reveal_strlit("-ups-name");
    reveal_strlit("-ups-label");
    reveal_strlit("-kwh-rate");
    assert("-interval"@.len() == 9);
    assert("-prom-port"@.len() == 10);
    assert("-enable-prom"@.len() == 12);
    assert("-otlp-endpoint"@.len() == 14);
    assert("-ups-label"@.len() == 10);
    assert("-interval"@[1] != "-ups-name"@[1]);
    assert("-interval"@[1] != "-kwh-rate"@[1]);
    let args = seq!["-interval"@, decimal(n)];
    assert(takes_value(args[0]));
    assert(read_args(args, 2, with_value(default_config(), args[0], args[1])) == ArgsView::Run(
        with_value(default_config(), args[0], args[1]),
    ));
}

} // verus!
