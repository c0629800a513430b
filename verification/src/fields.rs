//! The telemetry columns and their extraction from the printer's `print` state.

use std::sync::Arc;

use arrow::datatypes::{DataType, Field, Schema, SchemaRef};
use vstd::prelude::*;

use crate::json::{chars_of, element, field, opt_view, Json, JsonNumber, JsonView};

verus! {

/// A decimal digit.
pub open spec fn is_digit(c: char) -> bool {
    '0' <= c <= '9'
}

/// The value of a string of decimal digits.
pub open spec fn digits_value(s: Seq<char>) -> int
    decreases s.len(),
{
    if s.len() == 0 {
        0
    } else {
        digits_value(s.drop_last()) * 10 + (s.last() as int - '0' as int)
    }
}

/// Every character of `t` is a decimal digit.
pub open spec fn all_digits(t: Seq<char>) -> bool {
    forall|i: int| 0 <= i < t.len() ==> is_digit(#[trigger] t[i])
}

/// `s` without its leading `+` or `-`, if it has one.
pub open spec fn unsigned_part(s: Seq<char>) -> Seq<char> {
    if s.len() > 0 && (s[0] == '-' || s[0] == '+') {
        s.drop_first()
    } else {
        s
    }
}

/// What `str::parse::<i64>` gives, as its documentation states it: an
/// optional `+` or `-` followed by one or more decimal digits and nothing
/// else, whose value fits in an `i64`.
pub open spec fn parse_i64_spec(s: Seq<char>) -> Option<i64> {
    let digits = unsigned_part(s);
    let value = if s.len() > 0 && s[0] == '-' {
        -digits_value(digits)
    } else {
        digits_value(digits)
    };
    if digits.len() > 0 && all_digits(digits) && i64::MIN <= value <= i64::MAX {
        Some(value as i64)
    } else {
        None
    }
}

/// A string of digits is worth at least each of its prefixes, and nothing negative.
proof fn lemma_digits_value_prefix(t: Seq<char>, m: int)
    requires
        0 <= m <= t.len(),
        all_digits(t),
    ensures
        0 <= digits_value(t.take(m)) <= digits_value(t),
    decreases t.len(),
{
    if t.len() > 0 {
        let p = t.drop_last();
        if m == t.len() {
            assert(t.take(m) =~= t);
            lemma_digits_value_prefix(p, p.len() as int);
            assert(p.take(p.len() as int) =~= p);
        } else {
            lemma_digits_value_prefix(p, m);
            assert(p.take(m) =~= t.take(m));
            lemma_digits_value_prefix(p, p.len() as int);
            assert(p.take(p.len() as int) =~= p);
        }
    } else {
        assert(t.take(m) =~= t);
    }
}

/// `s` parsed as an `i64` as `str::parse::<i64>` does it (see `parse_i64_spec`).
pub fn parse_i64(s: &str) -> (r: Option<i64>)
    ensures
        r == parse_i64_spec(s@),
{
    let cs = chars_of(s);
    let n = cs.len();
    if n == 0 {
        return None;
    }
    let negative = cs[0] == '-';
    let start: usize = if cs[0] == '-' || cs[0] == '+' {
        1
    } else {
        0
    };
    let ghost digits = cs@.skip(start as int);
    assert(digits =~= unsigned_part(cs@));
    if start == n {
        return None;
    }
    let mut acc: i64 = 0;
    let mut i: usize = start;
    assert(cs@.subrange(start as int, start as int) =~= Seq::<char>::empty());
    while i < n
        invariant
            n == cs@.len(),
            cs@ == s@,
            start <= i <= n,
            start < n,
            negative == (cs@[0] == '-'),
            start == (if cs@[0] == '-' || cs@[0] == '+' { 1int } else { 0int }),
            digits == cs@.skip(start as int),
            digits == unsigned_part(cs@),
            forall|j: int| start <= j < i ==> is_digit(#[trigger] cs@[j]),
            acc == (if negative {
                -digits_value(cs@.subrange(start as int, i as int))
            } else {
                digits_value(cs@.subrange(start as int, i as int))
            }),
        decreases n - i,
    {
        let c = cs[i];
        if !('0' <= c && c <= '9') {
            assert(digits[i - start] == c);
            assert(!is_digit(digits[i - start]));
            assert(!all_digits(digits));
            return None;
        }
        let d = (c as u32 - 48) as i128;
        let ghost prefix = cs@.subrange(start as int, i + 1);
        assert(prefix.drop_last() =~= cs@.subrange(start as int, i as int));
        assert(digits_value(prefix) == digits_value(cs@.subrange(start as int, i as int)) * 10 + d);
        let next: i128 = if negative {
            acc as i128 * 10 - d
        } else {
            acc as i128 * 10 + d
        };
        if next < -9223372036854775808i128 || next > 9223372036854775807i128 {
            proof {
                if all_digits(digits) {
                    lemma_digits_value_prefix(digits, i + 1 - start);
                    assert(digits.take(i + 1 - start) =~= prefix);
                }
            }
            return None;
        }
        acc = next as i64;
        i += 1;
    }
    assert(cs@.subrange(start as int, n as int) =~= digits);
    Some(acc)
}

/// What an integer column reads from a JSON value: an exact integer, or a
/// double (by its IEEE-754 bits) that the column holds truncated toward
/// zero, saturating at the bounds of `i64`.
#[derive(Clone, Copy, Debug, PartialEq, Eq)]
pub enum IntReading {
    Exact(i64),
    TruncatedFloat(u64),
}

/// What a double column reads from a JSON value: a number, or a text to be
/// parsed as a double.
#[derive(Debug, PartialEq)]
pub enum FloatReading {
    Number(JsonNumber),
    Text(String),
}

/// The mathematical value of a `FloatReading`.
pub enum FloatSource {
    Number(JsonNumber),
    Text(Seq<char>),
}

/// The integer that a JSON value gives: a number (an integer above
/// `i64::MAX` saturates to it, as the cast of its double does), or a text
/// that parses as an `i64`.
pub open spec fn int_reading_of(v: Option<JsonView>) -> Option<IntReading> {
    match v {
        Some(JsonView::Number(JsonNumber::PosInt(u))) => Some(
            IntReading::Exact(
                if u <= i64::MAX {
                    u as i64
                } else {
                    i64::MAX
                },
            ),
        ),
        Some(JsonView::Number(JsonNumber::NegInt(i))) => Some(IntReading::Exact(i)),
        Some(JsonView::Number(JsonNumber::Float(bits))) => Some(IntReading::TruncatedFloat(bits)),
        Some(JsonView::Str(s)) => match parse_i64_spec(s) {
            Some(i) => Some(IntReading::Exact(i)),
            None => None,
        },
        _ => None,
    }
}

/// The double that a JSON value gives: a number, or a text.
pub open spec fn float_source_of(v: Option<JsonView>) -> Option<FloatSource> {
    match v {
        Some(JsonView::Number(n)) => Some(FloatSource::Number(n)),
        Some(JsonView::Str(s)) => Some(FloatSource::Text(s)),
        _ => None,
    }
}

/// The text that a JSON value gives: a string, and nothing else.
pub open spec fn text_of(v: Option<JsonView>) -> Option<Seq<char>> {
    match v {
        Some(JsonView::Str(s)) => Some(s),
        _ => None,
    }
}

/// The mathematical value of an optional `FloatReading`.
pub open spec fn float_view(r: Option<FloatReading>) -> Option<FloatSource> {
    match r {
        Some(FloatReading::Number(n)) => Some(FloatSource::Number(n)),
        Some(FloatReading::Text(s)) => Some(FloatSource::Text(s@)),
        None => None,
    }
}

/// The mathematical value of an optional string.
pub open spec fn text_view(r: Option<String>) -> Option<Seq<char>> {
    match r {
        Some(s) => Some(s@),
        None => None,
    }
}

/// The integer reading of `v` (see `int_reading_of`).
pub fn as_i64(v: Option<&Json>) -> (r: Option<IntReading>)
    ensures
        r == int_reading_of(opt_view(v)),
{
    match v {
        Some(Json::Number(JsonNumber::PosInt(u))) => {
            if *u <= 9223372036854775807u64 {
                Some(IntReading::Exact(*u as i64))
            } else {
                Some(IntReading::Exact(i64::MAX))
            }
        },
        Some(Json::Number(JsonNumber::NegInt(i))) => Some(IntReading::Exact(*i)),
        Some(Json::Number(JsonNumber::Float(bits))) => Some(IntReading::TruncatedFloat(*bits)),
        Some(Json::Str(s)) => match parse_i64(s.as_str()) {
            Some(i) => Some(IntReading::Exact(i)),
            None => None,
        },
        _ => None,
    }
}

/// The double reading of `v` (see `float_source_of`).
pub fn as_f64(v: Option<&Json>) -> (r: Option<FloatReading>)
    ensures
        float_view(r) == float_source_of(opt_view(v)),
{
    match v {
        Some(Json::Number(n)) => Some(FloatReading::Number(*n)),
        Some(Json::Str(s)) => Some(FloatReading::Text(s.clone())),
        _ => None,
    }
}

/// The text of `v`, if it is a string.
pub fn as_string(v: Option<&Json>) -> (r: Option<String>)
    ensures
        text_view(r) == text_of(opt_view(v)),
{
    match v {
        Some(Json::Str(s)) => Some(s.clone()),
        _ => None,
    }
}

/// The member `key` of `v`, where there is a value.
pub open spec fn nested(v: Option<JsonView>, key: Seq<char>) -> Option<JsonView> {
    match v {
        Some(x) => field(x, key),
        None => None,
    }
}

/// The first AMS unit of a `print` state: `ams.ams[0]`.
pub open spec fn first_ams_unit(state: JsonView) -> Option<JsonView> {
    match nested(field(state, "ams"@), "ams"@) {
        Some(units) => element(units, 0),
        None => None,
    }
}

/// `key` of the value `v`, when there is a value.
fn get_in<'a>(v: Option<&'a Json>, key: &str) -> (r: Option<&'a Json>)
    ensures
        opt_view(r) == nested(opt_view(v), key@),
{
    match v {
        Some(x) => x.get(key),
        None => None,
    }
}

/// One telemetry row, as read from the printer's `print` state. The double
/// columns hold what they read (a number or a text), the integer columns
/// hold an exact value or a double to truncate, the text columns their text.
#[derive(Debug, PartialEq)]
pub struct PrinterRow {
    pub ts_ms: i64,
    pub ts_ns: i32,
    pub bed_temper: Option<FloatReading>,
    pub bed_target_temper: Option<FloatReading>,
    pub nozzle_temper: Option<FloatReading>,
    pub nozzle_target_temper: Option<FloatReading>,
    pub chamber_temper: Option<FloatReading>,
    pub cooling_fan_speed: Option<IntReading>,
    pub heatbreak_fan_speed: Option<IntReading>,
    pub big_fan1_speed: Option<IntReading>,
    pub big_fan2_speed: Option<IntReading>,
    pub mc_percent: Option<IntReading>,
    pub mc_remaining_time: Option<IntReading>,
    pub layer_num: Option<IntReading>,
    pub total_layer_num: Option<IntReading>,
    pub spd_mag: Option<IntReading>,
    pub spd_lvl: Option<IntReading>,
    pub print_error: Option<IntReading>,
    pub gcode_state: Option<String>,
    pub print_type: Option<String>,
    pub wifi_signal: Option<String>,
    pub ams_humidity: Option<IntReading>,
    pub ams_humidity_raw: Option<IntReading>,
    pub ams_temp: Option<FloatReading>,
    pub ams_dry_time: Option<IntReading>,
    pub upgrade_progress: Option<IntReading>,
    pub upgrade_status: Option<String>,
    pub upgrade_err_code: Option<IntReading>,
    pub upload_progress: Option<IntReading>,
    pub upload_status: Option<String>,
}

/// `row` is the row that the `print` state `state` gives at the time `ts_ms`
/// milliseconds and `ts_ns` nanoseconds: each column reads its member of the
/// state (the `ams_*` columns that of the first AMS unit, the `upgrade_*` and
/// `upload_*` columns those of `upgrade_state` and `upload`); a missing
/// member, or one of another kind, reads nothing.
pub open spec fn is_row_of(row: PrinterRow, state: JsonView, ts_ms: i64, ts_ns: i32) -> bool {
    &&& row.ts_ms == ts_ms
    &&& row.ts_ns == ts_ns
    &&& float_view(row.bed_temper) == float_source_of(field(state, "bed_temper"@))
    &&& float_view(row.bed_target_temper) == float_source_of(field(state, "bed_target_temper"@))
    &&& float_view(row.nozzle_temper) == float_source_of(field(state, "nozzle_temper"@))
    &&& float_view(row.nozzle_target_temper) == float_source_of(field(state, "nozzle_target_temper"@))
    &&& float_view(row.chamber_temper) == float_source_of(field(state, "chamber_temper"@))
    &&& row.cooling_fan_speed == int_reading_of(field(state, "cooling_fan_speed"@))
    &&& row.heatbreak_fan_speed == int_reading_of(field(state, "heatbreak_fan_speed"@))
    &&& row.big_fan1_speed == int_reading_of(field(state, "big_fan1_speed"@))
    &&& row.big_fan2_speed == int_reading_of(field(state, "big_fan2_speed"@))
    &&& row.mc_percent == int_reading_of(field(state, "mc_percent"@))
    &&& row.mc_remaining_time == int_reading_of(field(state, "mc_remaining_time"@))
    &&& row.layer_num == int_reading_of(field(state, "layer_num"@))
    &&& row.total_layer_num == int_reading_of(field(state, "total_layer_num"@))
    &&& row.spd_mag == int_reading_of(field(state, "spd_mag"@))
    &&& row.spd_lvl == int_reading_of(field(state, "spd_lvl"@))
    &&& row.print_error == int_reading_of(field(state, "print_error"@))
    &&& text_view(row.gcode_state) == text_of(field(state, "gcode_state"@))
    &&& text_view(row.print_type) == text_of(field(state, "print_type"@))
    &&& text_view(row.wifi_signal) == text_of(field(state, "wifi_signal"@))
    &&& row.ams_humidity == int_reading_of(nested(first_ams_unit(state), "humidity"@))
    &&& row.ams_humidity_raw == int_reading_of(nested(first_ams_unit(state), "humidity_raw"@))
    &&& float_view(row.ams_temp) == float_source_of(nested(first_ams_unit(state), "temp"@))
    &&& row.ams_dry_time == int_reading_of(nested(first_ams_unit(state), "dry_time"@))
    &&& row.upgrade_progress == int_reading_of(nested(field(state, "upgrade_state"@), "progress"@))
    &&& text_view(row.upgrade_status) == text_of(nested(field(state, "upgrade_state"@), "status"@))
    &&& row.upgrade_err_code == int_reading_of(nested(field(state, "upgrade_state"@), "err_code"@))
    &&& row.upload_progress == int_reading_of(nested(field(state, "upload"@), "progress"@))
    &&& text_view(row.upload_status) == text_of(nested(field(state, "upload"@), "status"@))
}

impl PrinterRow {
    /// The row that the `print` state `state` gives at the given time (see `is_row_of`).
    #[verifier::rlimit(50)]
    pub fn extract(state: &Json, ts_ms: i64, ts_ns: i32) -> (row: PrinterRow)
        ensures
            is_row_of(row, state@, ts_ms, ts_ns),
    {
        let ams_first = match get_in(state.get("ams"), "ams") {
            Some(units) => units.get_index(0),
            None => None,
        };
        PrinterRow {
            ts_ms,
            ts_ns,
            bed_temper: as_f64(state.get("bed_temper")),
            bed_target_temper: as_f64(state.get("bed_target_temper")),
            nozzle_temper: as_f64(state.get("nozzle_temper")),
            nozzle_target_temper: as_f64(state.get("nozzle_target_temper")),
            chamber_temper: as_f64(state.get("chamber_temper")),
            cooling_fan_speed: as_i64(state.get("cooling_fan_speed")),
            heatbreak_fan_speed: as_i64(state.get("heatbreak_fan_speed")),
            big_fan1_speed: as_i64(state.get("big_fan1_speed")),
            big_fan2_speed: as_i64(state.get("big_fan2_speed")),
            mc_percent: as_i64(state.get("mc_percent")),
            mc_remaining_time: as_i64(state.get("mc_remaining_time")),
            layer_num: as_i64(state.get("layer_num")),
            total_layer_num: as_i64(state.get("total_layer_num")),
            spd_mag: as_i64(state.get("spd_mag")),
            spd_lvl: as_i64(state.get("spd_lvl")),
            print_error: as_i64(state.get("print_error")),
            gcode_state: as_string(state.get("gcode_state")),
            print_type: as_string(state.get("print_type")),
            wifi_signal: as_string(state.get("wifi_signal")),
            ams_humidity: as_i64(get_in(ams_first, "humidity")),
            ams_humidity_raw: as_i64(get_in(ams_first, "humidity_raw")),
            ams_temp: as_f64(get_in(ams_first, "temp")),
            ams_dry_time: as_i64(get_in(ams_first, "dry_time")),
            upgrade_progress: as_i64(get_in(state.get("upgrade_state"), "progress")),
            upgrade_status: as_string(get_in(state.get("upgrade_state"), "status")),
            upgrade_err_code: as_i64(get_in(state.get("upgrade_state"), "err_code")),
            upload_progress: as_i64(get_in(state.get("upload"), "progress")),
            upload_status: as_string(get_in(state.get("upload"), "status")),
        }
    }
}

#[verifier::external_type_specification]
#[verifier::external_body]
pub struct ExField(Field);

#[verifier::external_type_specification]
#[verifier::external_body]
pub struct ExSchema(Schema);

/// The type of a telemetry column.
#[derive(Clone, Copy, Debug, PartialEq, Eq)]
pub enum ColumnType {
    Int64,
    Int32,
    Float64,
    Utf8,
}

/// A telemetry column: its name, its type, and whether it may hold nulls.
#[derive(Debug, PartialEq)]
pub struct ColumnSpec {
    pub name: String,
    pub column_type: ColumnType,
    pub nullable: bool,
}

/// The telemetry columns in order: the two non-null timestamp columns, then
/// one nullable column for each reading of a `PrinterRow`, in its order.
pub open spec fn columns_spec() -> Seq<(Seq<char>, ColumnType, bool)> {
    seq![
        ("ms"@, ColumnType::Int64, false),
        ("ns"@, ColumnType::Int32, false),
        ("bed_temper"@, ColumnType::Float64, true),
        ("bed_target_temper"@, ColumnType::Float64, true),
        ("nozzle_temper"@, ColumnType::Float64, true),
        ("nozzle_target_temper"@, ColumnType::Float64, true),
        ("chamber_temper"@, ColumnType::Float64, true),
        ("cooling_fan_speed"@, ColumnType::Int64, true),
        ("heatbreak_fan_speed"@, ColumnType::Int64, true),
        ("big_fan1_speed"@, ColumnType::Int64, true),
        ("big_fan2_speed"@, ColumnType::Int64, true),
        ("mc_percent"@, ColumnType::Int64, true),
        ("mc_remaining_time"@, ColumnType::Int64, true),
        ("layer_num"@, ColumnType::Int64, true),
        ("total_layer_num"@, ColumnType::Int64, true),
        ("spd_mag"@, ColumnType::Int64, true),
        ("spd_lvl"@, ColumnType::Int64, true),
        ("print_error"@, ColumnType::Int64, true),
        ("gcode_state"@, ColumnType::Utf8, true),
        ("print_type"@, ColumnType::Utf8, true),
        ("wifi_signal"@, ColumnType::Utf8, true),
        ("ams_humidity"@, ColumnType::Int64, true),
        ("ams_humidity_raw"@, ColumnType::Int64, true),
        ("ams_temp"@, ColumnType::Float64, true),
        ("ams_dry_time"@, ColumnType::Int64, true),
        ("upgrade_progress"@, ColumnType::Int64, true),
        ("upgrade_status"@, ColumnType::Utf8, true),
        ("upgrade_err_code"@, ColumnType::Int64, true),
        ("upload_progress"@, ColumnType::Int64, true),
        ("upload_status"@, ColumnType::Utf8, true),
    ]
}

/// What one column of a row holds.
pub enum Cell {
    Millis(i64),
    Nanos(i32),
    Double(Option<FloatSource>),
    Integer(Option<IntReading>),
    Text(Option<Seq<char>>),
}

/// The cell of `row` in column `i`, counting the fields of `PrinterRow` in
/// the order they are declared.
pub open spec fn row_cell(row: PrinterRow, i: int) -> Cell {
    if i == 0 {
        Cell::Millis(row.ts_ms)
    } else if i == 1 {
        Cell::Nanos(row.ts_ns)
    } else if i == 2 {
        Cell::Double(float_view(row.bed_temper))
    } else if i == 3 {
        Cell::Double(float_view(row.bed_target_temper))
    } else if i == 4 {
        Cell::Double(float_view(row.nozzle_temper))
    } else if i == 5 {
        Cell::Double(float_view(row.nozzle_target_temper))
    } else if i == 6 {
        Cell::Double(float_view(row.chamber_temper))
    } else if i == 7 {
        Cell::Integer(row.cooling_fan_speed)
    } else if i == 8 {
        Cell::Integer(row.heatbreak_fan_speed)
    } else if i == 9 {
        Cell::Integer(row.big_fan1_speed)
    } else if i == 10 {
        Cell::Integer(row.big_fan2_speed)
    } else if i == 11 {
        Cell::Integer(row.mc_percent)
    } else if i == 12 {
        Cell::Integer(row.mc_remaining_time)
    } else if i == 13 {
        Cell::Integer(row.layer_num)
    } else if i == 14 {
        Cell::Integer(row.total_layer_num)
    } else if i == 15 {
        Cell::Integer(row.spd_mag)
    } else if i == 16 {
        Cell::Integer(row.spd_lvl)
    } else if i == 17 {
        Cell::Integer(row.print_error)
    } else if i == 18 {
        Cell::Text(text_view(row.gcode_state))
    } else if i == 19 {
        Cell::Text(text_view(row.print_type))
    } else if i == 20 {
        Cell::Text(text_view(row.wifi_signal))
    } else if i == 21 {
        Cell::Integer(row.ams_humidity)
    } else if i == 22 {
        Cell::Integer(row.ams_humidity_raw)
    } else if i == 23 {
        Cell::Double(float_view(row.ams_temp))
    } else if i == 24 {
        Cell::Integer(row.ams_dry_time)
    } else if i == 25 {
        Cell::Integer(row.upgrade_progress)
    } else if i == 26 {
        Cell::Text(text_view(row.upgrade_status))
    } else if i == 27 {
        Cell::Integer(row.upgrade_err_code)
    } else if i == 28 {
        Cell::Integer(row.upload_progress)
    } else if i == 29 {
        Cell::Text(text_view(row.upload_status))
    } else {
        Cell::Text(None)
    }
}

/// The reading of a column of type `t` from the value `v`.
pub open spec fn reading_cell(t: ColumnType, v: Option<JsonView>) -> Cell {
    match t {
        ColumnType::Float64 => Cell::Double(float_source_of(v)),
        ColumnType::Int64 => Cell::Integer(int_reading_of(v)),
        ColumnType::Utf8 => Cell::Text(text_of(v)),
        ColumnType::Int32 => Cell::Integer(None),
    }
}

/// Where a column reads from, by its name: a column named `ams_K` reads the
/// member `K` of the first AMS unit (`ams.ams[0]`), `upgrade_K` the member `K`
/// of `upgrade_state`, `upload_K` the member `K` of `upload`, and any other
/// column the member of its own name.
pub open spec fn column_source(state: JsonView, name: Seq<char>) -> Option<JsonView> {
    if "ams_"@.is_prefix_of(name) {
        match nested(field(state, "ams"@), "ams"@) {
            Some(units) => nested(element(units, 0), name.skip("ams_"@.len() as int)),
            None => None,
        }
    } else if "upgrade_"@.is_prefix_of(name) {
        nested(field(state, "upgrade_state"@), name.skip("upgrade_"@.len() as int))
    } else if "upload_"@.is_prefix_of(name) {
        nested(field(state, "upload"@), name.skip("upload_"@.len() as int))
    } else {
        field(state, name)
    }
}

/// Column 2 (`bed_temper`) reads the member that its name designates.
proof fn lemma_cell_bed_temper(row: PrinterRow, state: JsonView, ts_ms: i64, ts_ns: i32)
    requires
        is_row_of(row, state, ts_ms, ts_ns),
    ensures
        row_cell(row, 2) == reading_cell(columns_spec()[2].1, column_source(state, columns_spec()[2].0)),
{
    reveal_strlit("ams_");
    reveal_strlit("upgrade_");
    reveal_strlit("upload_");
    reveal_strlit("bed_temper");
    assert(columns_spec()[2] == ("bed_temper"@, ColumnType::Float64, true));
    assert("bed_temper"@[0] != "ams_"@[0]);
    assert("bed_temper"@[0] != "upgrade_"@[0]);
    assert("bed_temper"@[0] != "upload_"@[0]);
}

/// Column 3 (`bed_target_temper`) reads the member that its name designates.
proof fn lemma_cell_bed_target_temper(row: PrinterRow, state: JsonView, ts_ms: i64, ts_ns: i32)
    requires
        is_row_of(row, state, ts_ms, ts_ns),
    ensures
        row_cell(row, 3) == reading_cell(columns_spec()[3].1, column_source(state, columns_spec()[3].0)),
{
    reveal_strlit("ams_");
    reveal_strlit("upgrade_");
    reveal_strlit("upload_");
    reveal_strlit("bed_target_temper");
    assert(columns_spec()[3] == ("bed_target_temper"@, ColumnType::Float64, true));
    assert("bed_target_temper"@[0] != "ams_"@[0]);
    assert("bed_target_temper"@[0] != "upgrade_"@[0]);
    assert("bed_target_temper"@[0] != "upload_"@[0]);
}

/// Column 4 (`nozzle_temper`) reads the member that its name designates.
proof fn lemma_cell_nozzle_temper(row: PrinterRow, state: JsonView, ts_ms: i64, ts_ns: i32)
    requires
        is_row_of(row, state, ts_ms, ts_ns),
    ensures
        row_cell(row, 4) == reading_cell(columns_spec()[4].1, column_source(state, columns_spec()[4].0)),
{
    reveal_strlit("ams_");
    reveal_strlit("upgrade_");
    reveal_strlit("upload_");
    reveal_strlit("nozzle_temper");
    assert(columns_spec()[4] == ("nozzle_temper"@, ColumnType::Float64, true));
    assert("nozzle_temper"@[0] != "ams_"@[0]);
    assert("nozzle_temper"@[0] != "upgrade_"@[0]);
    assert("nozzle_temper"@[0] != "upload_"@[0]);
}

/// Column 5 (`nozzle_target_temper`) reads the member that its name designates.
proof fn lemma_cell_nozzle_target_temper(row: PrinterRow, state: JsonView, ts_ms: i64, ts_ns: i32)
    requires
        is_row_of(row, state, ts_ms, ts_ns),
    ensures
        row_cell(row, 5) == reading_cell(columns_spec()[5].1, column_source(state, columns_spec()[5].0)),
{
    reveal_strlit("ams_");
    reveal_strlit("upgrade_");
    reveal_strlit("upload_");
    reveal_strlit("nozzle_target_temper");
    assert(columns_spec()[5] == ("nozzle_target_temper"@, ColumnType::Float64, true));
    assert("nozzle_target_temper"@[0] != "ams_"@[0]);
    assert("nozzle_target_temper"@[0] != "upgrade_"@[0]);
    assert("nozzle_target_temper"@[0] != "upload_"@[0]);
}

/// Column 6 (`chamber_temper`) reads the member that its name designates.
proof fn lemma_cell_chamber_temper(row: PrinterRow, state: JsonView, ts_ms: i64, ts_ns: i32)
    requires
        is_row_of(row, state, ts_ms, ts_ns),
    ensures
        row_cell(row, 6) == reading_cell(columns_spec()[6].1, column_source(state, columns_spec()[6].0)),
{
    reveal_strlit("ams_");
    reveal_strlit("upgrade_");
    reveal_strlit("upload_");
    reveal_strlit("chamber_temper");
    assert(columns_spec()[6] == ("chamber_temper"@, ColumnType::Float64, true));
    assert("chamber_temper"@[0] != "ams_"@[0]);
    assert("chamber_temper"@[0] != "upgrade_"@[0]);
    assert("chamber_temper"@[0] != "upload_"@[0]);
}

/// Column 7 (`cooling_fan_speed`) reads the member that its name designates.
proof fn lemma_cell_cooling_fan_speed(row: PrinterRow, state: JsonView, ts_ms: i64, ts_ns: i32)
    requires
        is_row_of(row, state, ts_ms, ts_ns),
    ensures
        row_cell(row, 7) == reading_cell(columns_spec()[7].1, column_source(state, columns_spec()[7].0)),
{
    reveal_strlit("ams_");
    reveal_strlit("upgrade_");
    reveal_strlit("upload_");
    reveal_strlit("cooling_fan_speed");
    assert(columns_spec()[7] == ("cooling_fan_speed"@, ColumnType::Int64, true));
    assert("cooling_fan_speed"@[0] != "ams_"@[0]);
    assert("cooling_fan_speed"@[0] != "upgrade_"@[0]);
    assert("cooling_fan_speed"@[0] != "upload_"@[0]);
}

/// Column 8 (`heatbreak_fan_speed`) reads the member that its name designates.
proof fn lemma_cell_heatbreak_fan_speed(row: PrinterRow, state: JsonView, ts_ms: i64, ts_ns: i32)
    requires
        is_row_of(row, state, ts_ms, ts_ns),
    ensures
        row_cell(row, 8) == reading_cell(columns_spec()[8].1, column_source(state, columns_spec()[8].0)),
{
    reveal_strlit("ams_");
    reveal_strlit("upgrade_");
    reveal_strlit("upload_");
    reveal_strlit("heatbreak_fan_speed");
    assert(columns_spec()[8] == ("heatbreak_fan_speed"@, ColumnType::Int64, true));
    assert("heatbreak_fan_speed"@[0] != "ams_"@[0]);
    assert("heatbreak_fan_speed"@[0] != "upgrade_"@[0]);
    assert("heatbreak_fan_speed"@[0] != "upload_"@[0]);
}

/// Column 9 (`big_fan1_speed`) reads the member that its name designates.
proof fn lemma_cell_big_fan1_speed(row: PrinterRow, state: JsonView, ts_ms: i64, ts_ns: i32)
    requires
        is_row_of(row, state, ts_ms, ts_ns),
    ensures
        row_cell(row, 9) == reading_cell(columns_spec()[9].1, column_source(state, columns_spec()[9].0)),
{
    reveal_strlit("ams_");
    reveal_strlit("upgrade_");
    reveal_strlit("upload_");
    reveal_strlit("big_fan1_speed");
    assert(columns_spec()[9] == ("big_fan1_speed"@, ColumnType::Int64, true));
    assert("big_fan1_speed"@[0] != "ams_"@[0]);
    assert("big_fan1_speed"@[0] != "upgrade_"@[0]);
    assert("big_fan1_speed"@[0] != "upload_"@[0]);
}

/// Column 10 (`big_fan2_speed`) reads the member that its name designates.
proof fn lemma_cell_big_fan2_speed(row: PrinterRow, state: JsonView, ts_ms: i64, ts_ns: i32)
    requires
        is_row_of(row, state, ts_ms, ts_ns),
    ensures
        row_cell(row, 10) == reading_cell(columns_spec()[10].1, column_source(state, columns_spec()[10].0)),
{
    reveal_strlit("ams_");
    reveal_strlit("upgrade_");
    reveal_strlit("upload_");
    reveal_strlit("big_fan2_speed");
    assert(columns_spec()[10] == ("big_fan2_speed"@, ColumnType::Int64, true));
    assert("big_fan2_speed"@[0] != "ams_"@[0]);
    assert("big_fan2_speed"@[0] != "upgrade_"@[0]);
    assert("big_fan2_speed"@[0] != "upload_"@[0]);
}

/// Column 11 (`mc_percent`) reads the member that its name designates.
proof fn lemma_cell_mc_percent(row: PrinterRow, state: JsonView, ts_ms: i64, ts_ns: i32)
    requires
        is_row_of(row, state, ts_ms, ts_ns),
    ensures
        row_cell(row, 11) == reading_cell(columns_spec()[11].1, column_source(state, columns_spec()[11].0)),
{
    reveal_strlit("ams_");
    reveal_strlit("upgrade_");
    reveal_strlit("upload_");
    reveal_strlit("mc_percent");
    assert(columns_spec()[11] == ("mc_percent"@, ColumnType::Int64, true));
    assert("mc_percent"@[0] != "ams_"@[0]);
    assert("mc_percent"@[0] != "upgrade_"@[0]);
    assert("mc_percent"@[0] != "upload_"@[0]);
}

/// Column 12 (`mc_remaining_time`) reads the member that its name designates.
proof fn lemma_cell_mc_remaining_time(row: PrinterRow, state: JsonView, ts_ms: i64, ts_ns: i32)
    requires
        is_row_of(row, state, ts_ms, ts_ns),
    ensures
        row_cell(row, 12) == reading_cell(columns_spec()[12].1, column_source(state, columns_spec()[12].0)),
{
    reveal_strlit("ams_");
    reveal_strlit("upgrade_");
    reveal_strlit("upload_");
    reveal_strlit("mc_remaining_time");
    assert(columns_spec()[12] == ("mc_remaining_time"@, ColumnType::Int64, true));
    assert("mc_remaining_time"@[0] != "ams_"@[0]);
    assert("mc_remaining_time"@[0] != "upgrade_"@[0]);
    assert("mc_remaining_time"@[0] != "upload_"@[0]);
}

/// Column 13 (`layer_num`) reads the member that its name designates.
proof fn lemma_cell_layer_num(row: PrinterRow, state: JsonView, ts_ms: i64, ts_ns: i32)
    requires
        is_row_of(row, state, ts_ms, ts_ns),
    ensures
        row_cell(row, 13) == reading_cell(columns_spec()[13].1, column_source(state, columns_spec()[13].0)),
{
    reveal_strlit("ams_");
    reveal_strlit("upgrade_");
    reveal_strlit("upload_");
    reveal_strlit("layer_num");
    assert(columns_spec()[13] == ("layer_num"@, ColumnType::Int64, true));
    assert("layer_num"@[0] != "ams_"@[0]);
    assert("layer_num"@[0] != "upgrade_"@[0]);
    assert("layer_num"@[0] != "upload_"@[0]);
}

/// Column 14 (`total_layer_num`) reads the member that its name designates.
proof fn lemma_cell_total_layer_num(row: PrinterRow, state: JsonView, ts_ms: i64, ts_ns: i32)
    requires
        is_row_of(row, state, ts_ms, ts_ns),
    ensures
        row_cell(row, 14) == reading_cell(columns_spec()[14].1, column_source(state, columns_spec()[14].0)),
{
    reveal_strlit("ams_");
    reveal_strlit("upgrade_");
    reveal_strlit("upload_");
    reveal_strlit("total_layer_num");
    assert(columns_spec()[14] == ("total_layer_num"@, ColumnType::Int64, true));
    assert("total_layer_num"@[0] != "ams_"@[0]);
    assert("total_layer_num"@[0] != "upgrade_"@[0]);
    assert("total_layer_num"@[0] != "upload_"@[0]);
}

/// Column 15 (`spd_mag`) reads the member that its name designates.
proof fn lemma_cell_spd_mag(row: PrinterRow, state: JsonView, ts_ms: i64, ts_ns: i32)
    requires
        is_row_of(row, state, ts_ms, ts_ns),
    ensures
        row_cell(row, 15) == reading_cell(columns_spec()[15].1, column_source(state, columns_spec()[15].0)),
{
    reveal_strlit("ams_");
    reveal_strlit("upgrade_");
    reveal_strlit("upload_");
    reveal_strlit("spd_mag");
    assert(columns_spec()[15] == ("spd_mag"@, ColumnType::Int64, true));
    assert("spd_mag"@[0] != "ams_"@[0]);
    assert("spd_mag"@[0] != "upgrade_"@[0]);
    assert("spd_mag"@[0] != "upload_"@[0]);
}

/// Column 16 (`spd_lvl`) reads the member that its name designates.
proof fn lemma_cell_spd_lvl(row: PrinterRow, state: JsonView, ts_ms: i64, ts_ns: i32)
    requires
        is_row_of(row, state, ts_ms, ts_ns),
    ensures
        row_cell(row, 16) == reading_cell(columns_spec()[16].1, column_source(state, columns_spec()[16].0)),
{
    reveal_strlit("ams_");
    reveal_strlit("upgrade_");
    reveal_strlit("upload_");
    reveal_strlit("spd_lvl");
    assert(columns_spec()[16] == ("spd_lvl"@, ColumnType::Int64, true));
    assert("spd_lvl"@[0] != "ams_"@[0]);
    assert("spd_lvl"@[0] != "upgrade_"@[0]);
    assert("spd_lvl"@[0] != "upload_"@[0]);
}

/// Column 17 (`print_error`) reads the member that its name designates.
proof fn lemma_cell_print_error(row: PrinterRow, state: JsonView, ts_ms: i64, ts_ns: i32)
    requires
        is_row_of(row, state, ts_ms, ts_ns),
    ensures
        row_cell(row, 17) == reading_cell(columns_spec()[17].1, column_source(state, columns_spec()[17].0)),
{
    reveal_strlit("ams_");
    reveal_strlit("upgrade_");
    reveal_strlit("upload_");
    reveal_strlit("print_error");
    assert(columns_spec()[17] == ("print_error"@, ColumnType::Int64, true));
    assert("print_error"@[0] != "ams_"@[0]);
    assert("print_error"@[0] != "upgrade_"@[0]);
    assert("print_error"@[0] != "upload_"@[0]);
}

/// Column 18 (`gcode_state`) reads the member that its name designates.
proof fn lemma_cell_gcode_state(row: PrinterRow, state: JsonView, ts_ms: i64, ts_ns: i32)
    requires
        is_row_of(row, state, ts_ms, ts_ns),
    ensures
        row_cell(row, 18) == reading_cell(columns_spec()[18].1, column_source(state, columns_spec()[18].0)),
{
    reveal_strlit("ams_");
    reveal_strlit("upgrade_");
    reveal_strlit("upload_");
    reveal_strlit("gcode_state");
    assert(columns_spec()[18] == ("gcode_state"@, ColumnType::Utf8, true));
    assert("gcode_state"@[0] != "ams_"@[0]);
    assert("gcode_state"@[0] != "upgrade_"@[0]);
    assert("gcode_state"@[0] != "upload_"@[0]);
}

/// Column 19 (`print_type`) reads the member that its name designates.
proof fn lemma_cell_print_type(row: PrinterRow, state: JsonView, ts_ms: i64, ts_ns: i32)
    requires
        is_row_of(row, state, ts_ms, ts_ns),
    ensures
        row_cell(row, 19) == reading_cell(columns_spec()[19].1, column_source(state, columns_spec()[19].0)),
{
    reveal_strlit("ams_");
    reveal_strlit("upgrade_");
    reveal_strlit("upload_");
    reveal_strlit("print_type");
    assert(columns_spec()[19] == ("print_type"@, ColumnType::Utf8, true));
    assert("print_type"@[0] != "ams_"@[0]);
    assert("print_type"@[0] != "upgrade_"@[0]);
    assert("print_type"@[0] != "upload_"@[0]);
}

/// Column 20 (`wifi_signal`) reads the member that its name designates.
proof fn lemma_cell_wifi_signal(row: PrinterRow, state: JsonView, ts_ms: i64, ts_ns: i32)
    requires
        is_row_of(row, state, ts_ms, ts_ns),
    ensures
        row_cell(row, 20) == reading_cell(columns_spec()[20].1, column_source(state, columns_spec()[20].0)),
{
    reveal_strlit("ams_");
    reveal_strlit("upgrade_");
    reveal_strlit("upload_");
    reveal_strlit("wifi_signal");
    assert(columns_spec()[20] == ("wifi_signal"@, ColumnType::Utf8, true));
    assert("wifi_signal"@[0] != "ams_"@[0]);
    assert("wifi_signal"@[0] != "upgrade_"@[0]);
    assert("wifi_signal"@[0] != "upload_"@[0]);
}

/// Column 21 (`ams_humidity`) reads the member that its name designates.
proof fn lemma_cell_ams_humidity(row: PrinterRow, state: JsonView, ts_ms: i64, ts_ns: i32)
    requires
        is_row_of(row, state, ts_ms, ts_ns),
    ensures
        row_cell(row, 21) == reading_cell(columns_spec()[21].1, column_source(state, columns_spec()[21].0)),
{
    reveal_strlit("ams_");
    reveal_strlit("upgrade_");
    reveal_strlit("upload_");
    reveal_strlit("ams_humidity");
    assert(columns_spec()[21] == ("ams_humidity"@, ColumnType::Int64, true));
    assert("ams_humidity"@[0] != "upgrade_"@[0]);
    assert("ams_humidity"@[0] != "upload_"@[0]);
    reveal_strlit("humidity");
    assert("ams_humidity"@.skip("ams_"@.len() as int) =~= "humidity"@);
}

/// Column 22 (`ams_humidity_raw`) reads the member that its name designates.
proof fn lemma_cell_ams_humidity_raw(row: PrinterRow, state: JsonView, ts_ms: i64, ts_ns: i32)
    requires
        is_row_of(row, state, ts_ms, ts_ns),
    ensures
        row_cell(row, 22) == reading_cell(columns_spec()[22].1, column_source(state, columns_spec()[22].0)),
{
    reveal_strlit("ams_");
    reveal_strlit("upgrade_");
    reveal_strlit("upload_");
    reveal_strlit("ams_humidity_raw");
    assert(columns_spec()[22] == ("ams_humidity_raw"@, ColumnType::Int64, true));
    assert("ams_humidity_raw"@[0] != "upgrade_"@[0]);
    assert("ams_humidity_raw"@[0] != "upload_"@[0]);
    reveal_strlit("humidity_raw");
    assert("ams_humidity_raw"@.skip("ams_"@.len() as int) =~= "humidity_raw"@);
}

/// Column 23 (`ams_temp`) reads the member that its name designates.
proof fn lemma_cell_ams_temp(row: PrinterRow, state: JsonView, ts_ms: i64, ts_ns: i32)
    requires
        is_row_of(row, state, ts_ms, ts_ns),
    ensures
        row_cell(row, 23) == reading_cell(columns_spec()[23].1, column_source(state, columns_spec()[23].0)),
{
    reveal_strlit("ams_");
    reveal_strlit("upgrade_");
    reveal_strlit("upload_");
    reveal_strlit("ams_temp");
    assert(columns_spec()[23] == ("ams_temp"@, ColumnType::Float64, true));
    assert("ams_temp"@[0] != "upgrade_"@[0]);
    assert("ams_temp"@[0] != "upload_"@[0]);
    reveal_strlit("temp");
    assert("ams_temp"@.skip("ams_"@.len() as int) =~= "temp"@);
}

/// Column 24 (`ams_dry_time`) reads the member that its name designates.
proof fn lemma_cell_ams_dry_time(row: PrinterRow, state: JsonView, ts_ms: i64, ts_ns: i32)
    requires
        is_row_of(row, state, ts_ms, ts_ns),
    ensures
        row_cell(row, 24) == reading_cell(columns_spec()[24].1, column_source(state, columns_spec()[24].0)),
{
    reveal_strlit("ams_");
    reveal_strlit("upgrade_");
    reveal_strlit("upload_");
    reveal_strlit("ams_dry_time");
    assert(columns_spec()[24] == ("ams_dry_time"@, ColumnType::Int64, true));
    assert("ams_dry_time"@[0] != "upgrade_"@[0]);
    assert("ams_dry_time"@[0] != "upload_"@[0]);
    reveal_strlit("dry_time");
    assert("ams_dry_time"@.skip("ams_"@.len() as int) =~= "dry_time"@);
}

/// Column 25 (`upgrade_progress`) reads the member that its name designates.
proof fn lemma_cell_upgrade_progress(row: PrinterRow, state: JsonView, ts_ms: i64, ts_ns: i32)
    requires
        is_row_of(row, state, ts_ms, ts_ns),
    ensures
        row_cell(row, 25) == reading_cell(columns_spec()[25].1, column_source(state, columns_spec()[25].0)),
{
    reveal_strlit("ams_");
    reveal_strlit("upgrade_");
    reveal_strlit("upload_");
    reveal_strlit("upgrade_progress");
    assert(columns_spec()[25] == ("upgrade_progress"@, ColumnType::Int64, true));
    assert("upgrade_progress"@[0] != "ams_"@[0]);
    assert("upgrade_progress"@[2] != "upload_"@[2]);
    reveal_strlit("progress");
    assert("upgrade_progress"@.skip("upgrade_"@.len() as int) =~= "progress"@);
}

/// Column 26 (`upgrade_status`) reads the member that its name designates.
proof fn lemma_cell_upgrade_status(row: PrinterRow, state: JsonView, ts_ms: i64, ts_ns: i32)
    requires
        is_row_of(row, state, ts_ms, ts_ns),
    ensures
        row_cell(row, 26) == reading_cell(columns_spec()[26].1, column_source(state, columns_spec()[26].0)),
{
    reveal_strlit("ams_");
    reveal_strlit("upgrade_");
    reveal_strlit("upload_");
    reveal_strlit("upgrade_status");
    assert(columns_spec()[26] == ("upgrade_status"@, ColumnType::Utf8, true));
    assert("upgrade_status"@[0] != "ams_"@[0]);
    assert("upgrade_status"@[2] != "upload_"@[2]);
    reveal_strlit("status");
    assert("upgrade_status"@.skip("upgrade_"@.len() as int) =~= "status"@);
}

/// Column 27 (`upgrade_err_code`) reads the member that its name designates.
proof fn lemma_cell_upgrade_err_code(row: PrinterRow, state: JsonView, ts_ms: i64, ts_ns: i32)
    requires
        is_row_of(row, state, ts_ms, ts_ns),
    ensures
        row_cell(row, 27) == reading_cell(columns_spec()[27].1, column_source(state, columns_spec()[27].0)),
{
    reveal_strlit("ams_");
    reveal_strlit("upgrade_");
    reveal_strlit("upload_");
    reveal_strlit("upgrade_err_code");
    assert(columns_spec()[27] == ("upgrade_err_code"@, ColumnType::Int64, true));
    assert("upgrade_err_code"@[0] != "ams_"@[0]);
    assert("upgrade_err_code"@[2] != "upload_"@[2]);
    reveal_strlit("err_code");
    assert("upgrade_err_code"@.skip("upgrade_"@.len() as int) =~= "err_code"@);
}

/// Column 28 (`upload_progress`) reads the member that its name designates.
proof fn lemma_cell_upload_progress(row: PrinterRow, state: JsonView, ts_ms: i64, ts_ns: i32)
    requires
        is_row_of(row, state, ts_ms, ts_ns),
    ensures
        row_cell(row, 28) == reading_cell(columns_spec()[28].1, column_source(state, columns_spec()[28].0)),
{
    reveal_strlit("ams_");
    reveal_strlit("upgrade_");
    reveal_strlit("upload_");
    reveal_strlit("upload_progress");
    assert(columns_spec()[28] == ("upload_progress"@, ColumnType::Int64, true));
    assert("upload_progress"@[0] != "ams_"@[0]);
    assert("upload_progress"@[2] != "upgrade_"@[2]);
    reveal_strlit("progress");
    assert("upload_progress"@.skip("upload_"@.len() as int) =~= "progress"@);
}

/// Column 29 (`upload_status`) reads the member that its name designates.
proof fn lemma_cell_upload_status(row: PrinterRow, state: JsonView, ts_ms: i64, ts_ns: i32)
    requires
        is_row_of(row, state, ts_ms, ts_ns),
    ensures
        row_cell(row, 29) == reading_cell(columns_spec()[29].1, column_source(state, columns_spec()[29].0)),
{
    reveal_strlit("ams_");
    reveal_strlit("upgrade_");
    reveal_strlit("upload_");
    reveal_strlit("upload_status");
    assert(columns_spec()[29] == ("upload_status"@, ColumnType::Utf8, true));
    assert("upload_status"@[0] != "ams_"@[0]);
    assert("upload_status"@[2] != "upgrade_"@[2]);
    reveal_strlit("status");
    assert("upload_status"@.skip("upload_"@.len() as int) =~= "status"@);
}
/// Law: the row of a state has one cell for each column of the schema, in the
/// schema's order: the two timestamps, then in each column the reading, of
/// that column's type, of the member of the state that the column's name
/// designates (see `column_source`).
#[verifier::rlimit(100)]
#[verifier::spinoff_prover]
pub proof fn law_row_columns(row: PrinterRow, state: JsonView, ts_ms: i64, ts_ns: i32)
    requires
        is_row_of(row, state, ts_ms, ts_ns),
    ensures
        columns_spec().len() == 30,
        row_cell(row, 0) == Cell::Millis(ts_ms),
        row_cell(row, 1) == Cell::Nanos(ts_ns),
        forall|i: int|
            2 <= i < columns_spec().len() ==> #[trigger] row_cell(row, i) == reading_cell(
                columns_spec()[i].1,
                column_source(state, columns_spec()[i].0),
            ),
{
    lemma_cell_bed_temper(row, state, ts_ms, ts_ns);
    lemma_cell_bed_target_temper(row, state, ts_ms, ts_ns);
    lemma_cell_nozzle_temper(row, state, ts_ms, ts_ns);
    lemma_cell_nozzle_target_temper(row, state, ts_ms, ts_ns);
    lemma_cell_chamber_temper(row, state, ts_ms, ts_ns);
    lemma_cell_cooling_fan_speed(row, state, ts_ms, ts_ns);
    lemma_cell_heatbreak_fan_speed(row, state, ts_ms, ts_ns);
    lemma_cell_big_fan1_speed(row, state, ts_ms, ts_ns);
    lemma_cell_big_fan2_speed(row, state, ts_ms, ts_ns);
    lemma_cell_mc_percent(row, state, ts_ms, ts_ns);
    lemma_cell_mc_remaining_time(row, state, ts_ms, ts_ns);
    lemma_cell_layer_num(row, state, ts_ms, ts_ns);
    lemma_cell_total_layer_num(row, state, ts_ms, ts_ns);
    lemma_cell_spd_mag(row, state, ts_ms, ts_ns);
    lemma_cell_spd_lvl(row, state, ts_ms, ts_ns);
    lemma_cell_print_error(row, state, ts_ms, ts_ns);
    lemma_cell_gcode_state(row, state, ts_ms, ts_ns);
    lemma_cell_print_type(row, state, ts_ms, ts_ns);
    lemma_cell_wifi_signal(row, state, ts_ms, ts_ns);
    lemma_cell_ams_humidity(row, state, ts_ms, ts_ns);
    lemma_cell_ams_humidity_raw(row, state, ts_ms, ts_ns);
    lemma_cell_ams_temp(row, state, ts_ms, ts_ns);
    lemma_cell_ams_dry_time(row, state, ts_ms, ts_ns);
    lemma_cell_upgrade_progress(row, state, ts_ms, ts_ns);
    lemma_cell_upgrade_status(row, state, ts_ms, ts_ns);
    lemma_cell_upgrade_err_code(row, state, ts_ms, ts_ns);
    lemma_cell_upload_progress(row, state, ts_ms, ts_ns);
    lemma_cell_upload_status(row, state, ts_ms, ts_ns);
    assert forall|i: int| 2 <= i < columns_spec().len() implies #[trigger] row_cell(row, i)
        == reading_cell(columns_spec()[i].1, column_source(state, columns_spec()[i].0)) by {
        if i == 2 {
        } else if i == 3 {
        } else if i == 4 {
        } else if i == 5 {
        } else if i == 6 {
        } else if i == 7 {
        } else if i == 8 {
        } else if i == 9 {
        } else if i == 10 {
        } else if i == 11 {
        } else if i == 12 {
        } else if i == 13 {
        } else if i == 14 {
        } else if i == 15 {
        } else if i == 16 {
        } else if i == 17 {
        } else if i == 18 {
        } else if i == 19 {
        } else if i == 20 {
        } else if i == 21 {
        } else if i == 22 {
        } else if i == 23 {
        } else if i == 24 {
        } else if i == 25 {
        } else if i == 26 {
        } else if i == 27 {
        } else if i == 28 {
        } else if i == 29 {
        }
    }
}

/// The telemetry columns (see `columns_spec`).
pub fn columns() -> (r: Vec<ColumnSpec>)
    ensures
        r@.len() == columns_spec().len(),
        forall|i: int|
            0 <= i < r@.len() ==> (#[trigger] r@[i].name@, r@[i].column_type, r@[i].nullable)
                == columns_spec()[i],
{
    let mut r: Vec<ColumnSpec> = Vec::new();
    r.push(ColumnSpec { name: "ms".to_owned(), column_type: ColumnType::Int64, nullable: false });
    r.push(ColumnSpec { name: "ns".to_owned(), column_type: ColumnType::Int32, nullable: false });
    r.push(ColumnSpec { name: "bed_temper".to_owned(), column_type: ColumnType::Float64, nullable: true });
    r.push(ColumnSpec { name: "bed_target_temper".to_owned(), column_type: ColumnType::Float64, nullable: true });
    r.push(ColumnSpec { name: "nozzle_temper".to_owned(), column_type: ColumnType::Float64, nullable: true });
    r.push(ColumnSpec { name: "nozzle_target_temper".to_owned(), column_type: ColumnType::Float64, nullable: true });
    r.push(ColumnSpec { name: "chamber_temper".to_owned(), column_type: ColumnType::Float64, nullable: true });
    r.push(ColumnSpec { name: "cooling_fan_speed".to_owned(), column_type: ColumnType::Int64, nullable: true });
    r.push(ColumnSpec { name: "heatbreak_fan_speed".to_owned(), column_type: ColumnType::Int64, nullable: true });
    r.push(ColumnSpec { name: "big_fan1_speed".to_owned(), column_type: ColumnType::Int64, nullable: true });
    r.push(ColumnSpec { name: "big_fan2_speed".to_owned(), column_type: ColumnType::Int64, nullable: true });
    r.push(ColumnSpec { name: "mc_percent".to_owned(), column_type: ColumnType::Int64, nullable: true });
    r.push(ColumnSpec { name: "mc_remaining_time".to_owned(), column_type: ColumnType::Int64, nullable: true });
    r.push(ColumnSpec { name: "layer_num".to_owned(), column_type: ColumnType::Int64, nullable: true });
    r.push(ColumnSpec { name: "total_layer_num".to_owned(), column_type: ColumnType::Int64, nullable: true });
    r.push(ColumnSpec { name: "spd_mag".to_owned(), column_type: ColumnType::Int64, nullable: true });
    r.push(ColumnSpec { name: "spd_lvl".to_owned(), column_type: ColumnType::Int64, nullable: true });
    r.push(ColumnSpec { name: "print_error".to_owned(), column_type: ColumnType::Int64, nullable: true });
    r.push(ColumnSpec { name: "gcode_state".to_owned(), column_type: ColumnType::Utf8, nullable: true });
    r.push(ColumnSpec { name: "print_type".to_owned(), column_type: ColumnType::Utf8, nullable: true });
    r.push(ColumnSpec { name: "wifi_signal".to_owned(), column_type: ColumnType::Utf8, nullable: true });
    r.push(ColumnSpec { name: "ams_humidity".to_owned(), column_type: ColumnType::Int64, nullable: true });
    r.push(ColumnSpec { name: "ams_humidity_raw".to_owned(), column_type: ColumnType::Int64, nullable: true });
    r.push(ColumnSpec { name: "ams_temp".to_owned(), column_type: ColumnType::Float64, nullable: true });
    r.push(ColumnSpec { name: "ams_dry_time".to_owned(), column_type: ColumnType::Int64, nullable: true });
    r.push(ColumnSpec { name: "upgrade_progress".to_owned(), column_type: ColumnType::Int64, nullable: true });
    r.push(ColumnSpec { name: "upgrade_status".to_owned(), column_type: ColumnType::Utf8, nullable: true });
    r.push(ColumnSpec { name: "upgrade_err_code".to_owned(), column_type: ColumnType::Int64, nullable: true });
    r.push(ColumnSpec { name: "upload_progress".to_owned(), column_type: ColumnType::Int64, nullable: true });
    r.push(ColumnSpec { name: "upload_status".to_owned(), column_type: ColumnType::Utf8, nullable: true });
    assert(r@.len() == columns_spec().len());
    assert forall|i: int| 0 <= i < r@.len() implies (#[trigger] r@[i].name@, r@[i].column_type, r@[i].nullable)
        == columns_spec()[i] by {}
    r
}

/// A field of an arrow schema as a column: its name, its type where that is
/// one of the `ColumnType`s (`None` for any other arrow type), and whether it
/// may hold nulls.
pub uninterp spec fn field_column(f: Field) -> (Seq<char>, Option<ColumnType>, bool);

/// The fields of an arrow schema in order, each as `field_column` gives it.
pub uninterp spec fn schema_columns(s: Schema) -> Seq<(Seq<char>, Option<ColumnType>, bool)>;

/// `Field::new` with the arrow `DataType` that `column_type` names. As its
/// source shows, the field keeps the name, the type and the nullability it
/// was made with.
#[verifier::external_body]
fn arrow_field(name: &str, column_type: ColumnType, nullable: bool) -> (r: Field)
    ensures
        field_column(r) == (name@, Some(column_type), nullable),
{
    let data_type = match column_type {
        ColumnType::Int64 => DataType::Int64,
        ColumnType::Int32 => DataType::Int32,
        ColumnType::Float64 => DataType::Float64,
        ColumnType::Utf8 => DataType::Utf8,
    };
    Field::new(name, data_type, nullable)
}

/// `Schema::new` on `fields`. As its source shows, the schema holds the
/// fields it was made with, in their order.
#[verifier::external_body]
fn arrow_schema(fields: Vec<Field>) -> (r: Schema)
    ensures
        schema_columns(r) == fields@.map_values(|f: Field| field_column(f)),
{
    Schema::new(fields)
}

/// The telemetry columns as the fields of an arrow schema should hold them.
pub open spec fn schema_columns_spec() -> Seq<(Seq<char>, Option<ColumnType>, bool)> {
    columns_spec().map_values(|c: (Seq<char>, ColumnType, bool)| (c.0, Some(c.1), c.2))
}

/// The arrow schema of the telemetry rows: one field for each of `columns()`,
/// in order, with its name, type and nullability.
pub fn schema() -> (r: SchemaRef)
    ensures
        schema_columns(*r) == schema_columns_spec(),
{
    let specs = columns();
    let mut fields: Vec<Field> = Vec::new();
    let mut i: usize = 0;
    while i < specs.len()
        invariant
            i <= specs@.len(),
            specs@.len() == columns_spec().len(),
            forall|j: int|
                0 <= j < specs@.len() ==> (#[trigger] specs@[j].name@, specs@[j].column_type,
                specs@[j].nullable) == columns_spec()[j],
            fields@.len() == i,
            forall|j: int|
                0 <= j < i ==> field_column(#[trigger] fields@[j]) == schema_columns_spec()[j],
        decreases specs@.len() - i,
    {
        let spec = &specs[i];
        let f = arrow_field(spec.name.as_str(), spec.column_type, spec.nullable);
        assert((specs@[i as int].name@, specs@[i as int].column_type, specs@[i as int].nullable)
            == columns_spec()[i as int]);
        fields.push(f);
        i += 1;
    }
    let s = arrow_schema(fields);
    assert(schema_columns(s) =~= schema_columns_spec());
    Arc::new(s)
}

} // verus!
