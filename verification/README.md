# ups_exporter

A Prometheus and OpenTelemetry exporter for UPS devices that talks to the
NUT daemon (`upsd`) over TCP.

- `src/` is the verified library:
  - `protocol`: the `LIST VAR` query and a line-by-line reader of upsd's
    answer (`VarListReader`), with the laws of that reading.
  - `vars`: the map of UPS variables.
  - `metrics`: the exported gauges, which of them are exported, and the
    Prometheus text format.
  - `http`: routing of scrape requests and the HTTP answers.
  - `cli`: command-line options, number and boolean reading, help text.
  - `host`: the reported host name (white space trimmed, with a fallback).
  - `text`: character and string helpers.
- `app/main.rs` is the program: sockets, threads, the OTLP push with
  `serde_json` and `ureq`, and the floating-point arithmetic (values, active
  power, costs).
- `tests/` exercises the library on concrete inputs.
