# bambu_stream

Telemetry from a Bambu Lab printer: the printer reports sparse JSON deltas
over MQTT, which are merged into a full snapshot; each snapshot yields one row
of telemetry columns, streamed to Sift Edge over Arrow Flight.

- `src/` is the verified library (Verus):
  - `json.rs`: the JSON model (a well-formed object holds its keys sorted and
    once, as `serde_json`'s map does), member and element lookup, the order of keys;
  - `state.rs`: the deep merge of a delta into the snapshot, its laws, and the
    `Snapshot` that turns each report into a row;
  - `fields.rs`: the column readings of a row, the column list and the arrow schema;
  - `sift.rs`: the Sift Edge address normalization;
  - `clock.rs`: the row timestamp.
- `app/` is the program around it: MQTT, JSON parsing, the conversion of
  readings to doubles, the arrow record batch and the Flight client.
- `tests/` runs the library on concrete values.
