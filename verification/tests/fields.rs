use arrow::datatypes::DataType;
use bambu_stream::fields::{
    as_f64, as_i64, as_string, columns, parse_i64, schema, ColumnType, FloatReading, IntReading, PrinterRow,
};
use bambu_stream::json::{Json, JsonNumber};

fn obj(members: Vec<(&str, Json)>) -> Json {
    Json::Object(members.into_iter().map(|(k, v)| (k.to_string(), v)).collect())
}

fn pos(n: u64) -> Json {
    Json::Number(JsonNumber::PosInt(n))
}

fn float(x: f64) -> Json {
    Json::Number(JsonNumber::Float(x.to_bits()))
}

fn text(s: &str) -> Json {
    Json::Str(s.to_string())
}

#[test]
fn int_reading_of_numbers() {
    assert_eq!(as_i64(Some(&pos(42))), Some(IntReading::Exact(42)));
    assert_eq!(as_i64(Some(&Json::Number(JsonNumber::NegInt(-9)))), Some(IntReading::Exact(-9)));
    assert_eq!(as_i64(Some(&pos(u64::MAX))), Some(IntReading::Exact(i64::MAX)));
    assert_eq!(as_i64(Some(&pos(i64::MAX as u64))), Some(IntReading::Exact(i64::MAX)));
    assert_eq!(
        as_i64(Some(&float(12.75))),
        Some(IntReading::TruncatedFloat(12.75f64.to_bits()))
    );
    // the saturating cast of a double above i64::MAX, which the reading stands for
    assert_eq!((u64::MAX as f64) as i64, i64::MAX);
}

#[test]
fn int_reading_of_texts() {
    assert_eq!(as_i64(Some(&text("42"))), Some(IntReading::Exact(42)));
    assert_eq!(as_i64(Some(&text("-7"))), Some(IntReading::Exact(-7)));
    assert_eq!(as_i64(Some(&text("+5"))), Some(IntReading::Exact(5)));
    assert_eq!(as_i64(Some(&text("-9223372036854775808"))), Some(IntReading::Exact(i64::MIN)));
    assert_eq!(as_i64(Some(&text("9223372036854775808"))), None);
    assert_eq!(as_i64(Some(&text(" 5"))), None);
    assert_eq!(as_i64(Some(&text("5x"))), None);
    assert_eq!(as_i64(Some(&text("1.5"))), None);
    assert_eq!(as_i64(Some(&text(""))), None);
    assert_eq!(as_i64(Some(&text("-"))), None);
}

#[test]
fn int_reading_of_other_values() {
    assert_eq!(as_i64(None), None);
    assert_eq!(as_i64(Some(&Json::Null)), None);
    assert_eq!(as_i64(Some(&Json::Bool(true))), None);
    assert_eq!(as_i64(Some(&obj(vec![]))), None);
    assert_eq!(as_i64(Some(&Json::Array(vec![pos(1)]))), None);
}

#[test]
fn float_reading_of_values() {
    assert_eq!(as_f64(Some(&pos(3))), Some(FloatReading::Number(JsonNumber::PosInt(3))));
    assert_eq!(
        as_f64(Some(&float(-0.5))),
        Some(FloatReading::Number(JsonNumber::Float((-0.5f64).to_bits())))
    );
    assert_eq!(as_f64(Some(&text("21.5"))), Some(FloatReading::Text("21.5".to_string())));
    assert_eq!(as_f64(Some(&Json::Bool(false))), None);
    assert_eq!(as_f64(None), None);
}

#[test]
fn text_of_values() {
    assert_eq!(as_string(Some(&text("RUNNING"))), Some("RUNNING".to_string()));
    assert_eq!(as_string(Some(&pos(1))), None);
    assert_eq!(as_string(None), None);
}

#[test]
fn lookups_by_key_and_position() {
    let v = obj(vec![("a", pos(1)), ("b", Json::Array(vec![pos(10), pos(11)]))]);
    assert_eq!(v.get("a"), Some(&pos(1)));
    assert_eq!(v.get("c"), None);
    assert_eq!(v.get("b").and_then(|b| b.get_index(1)), Some(&pos(11)));
    assert_eq!(v.get("b").and_then(|b| b.get_index(2)), None);
    assert_eq!(pos(1).get("a"), None);
    assert_eq!(v.get_index(0), None);
}

fn sample_print_state() -> Json {
    obj(vec![
        ("bed_temper", float(55.5)),
        ("bed_target_temper", pos(60)),
        ("nozzle_temper", text("210.25")),
        ("cooling_fan_speed", text("15")),
        ("big_fan1_speed", text("not a number")),
        ("mc_percent", pos(42)),
        ("layer_num", float(7.9)),
        ("gcode_state", text("RUNNING")),
        ("wifi_signal", pos(3)),
        (
            "ams",
            obj(vec![(
                "ams",
                Json::Array(vec![
                    obj(vec![("humidity", text("4")), ("temp", text("24.1")), ("dry_time", pos(0))]),
                    obj(vec![("humidity", text("1"))]),
                ]),
            )]),
        ),
        ("upgrade_state", obj(vec![("progress", text("100")), ("status", text("IDLE"))])),
        ("upload", obj(vec![("progress", pos(0)), ("status", text("idle"))])),
    ])
}

#[test]
fn extract_reads_each_column() {
    let row = PrinterRow::extract(&sample_print_state(), 1_700_000_000_000, 123);
    assert_eq!(row.ts_ms, 1_700_000_000_000);
    assert_eq!(row.ts_ns, 123);
    assert_eq!(row.bed_temper, Some(FloatReading::Number(JsonNumber::Float(55.5f64.to_bits()))));
    assert_eq!(row.bed_target_temper, Some(FloatReading::Number(JsonNumber::PosInt(60))));
    assert_eq!(row.nozzle_temper, Some(FloatReading::Text("210.25".to_string())));
    assert_eq!(row.nozzle_target_temper, None);
    assert_eq!(row.cooling_fan_speed, Some(IntReading::Exact(15)));
    assert_eq!(row.big_fan1_speed, None);
    assert_eq!(row.mc_percent, Some(IntReading::Exact(42)));
    assert_eq!(row.layer_num, Some(IntReading::TruncatedFloat(7.9f64.to_bits())));
    assert_eq!(row.gcode_state, Some("RUNNING".to_string()));
    assert_eq!(row.wifi_signal, None);
    assert_eq!(row.ams_humidity, Some(IntReading::Exact(4)));
    assert_eq!(row.ams_humidity_raw, None);
    assert_eq!(row.ams_temp, Some(FloatReading::Text("24.1".to_string())));
    assert_eq!(row.ams_dry_time, Some(IntReading::Exact(0)));
    assert_eq!(row.upgrade_progress, Some(IntReading::Exact(100)));
    assert_eq!(row.upgrade_status, Some("IDLE".to_string()));
    assert_eq!(row.upgrade_err_code, None);
    assert_eq!(row.upload_progress, Some(IntReading::Exact(0)));
    assert_eq!(row.upload_status, Some("idle".to_string()));
}

#[test]
fn extract_from_non_object_reads_nothing() {
    let row = PrinterRow::extract(&Json::Null, -1, -2);
    assert_eq!(row.ts_ms, -1);
    assert_eq!(row.ts_ns, -2);
    assert_eq!(row.bed_temper, None);
    assert_eq!(row.ams_humidity, None);
    assert_eq!(row.upload_status, None);
}

#[test]
fn columns_are_listed_in_row_order() {
    let cols = columns();
    assert_eq!(cols.len(), 30);
    assert_eq!(cols[0].name, "ms");
    assert_eq!(cols[0].column_type, ColumnType::Int64);
    assert!(!cols[0].nullable);
    assert_eq!(cols[1].name, "ns");
    assert_eq!(cols[1].column_type, ColumnType::Int32);
    assert!(!cols[1].nullable);
    assert_eq!(cols[2].name, "bed_temper");
    assert_eq!(cols[2].column_type, ColumnType::Float64);
    assert_eq!(cols[18].name, "gcode_state");
    assert_eq!(cols[18].column_type, ColumnType::Utf8);
    assert_eq!(cols[29].name, "upload_status");
    assert!(cols[2..].iter().all(|c| c.nullable));
}

#[test]
fn schema_matches_columns() {
    let s = schema();
    let cols = columns();
    assert_eq!(s.fields().len(), cols.len());
    for (f, c) in s.fields().iter().zip(cols.iter()) {
        assert_eq!(f.name(), &c.name);
        assert_eq!(f.is_nullable(), c.nullable);
        let expected = match c.column_type {
            ColumnType::Int64 => DataType::Int64,
            ColumnType::Int32 => DataType::Int32,
            ColumnType::Float64 => DataType::Float64,
            ColumnType::Utf8 => DataType::Utf8,
        };
        assert_eq!(f.data_type(), &expected);
    }
}

#[test]
fn parses_integers_as_std_does() {
    for t in ["0", "42", "-7", "+5", "007", "-0", "9223372036854775807", "-9223372036854775808",
              "9223372036854775808", "-9223372036854775809", "", "+", "-", "+-5", " 1", "1 ", "1_000", "١٢", "12a"] {
        assert_eq!(parse_i64(t), t.parse::<i64>().ok(), "{t}");
    }
}
