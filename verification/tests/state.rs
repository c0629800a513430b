use bambu_stream::json::{Json, JsonNumber};
use bambu_stream::state::{deep_merge, Snapshot};
use bambu_stream::fields::{FloatReading, IntReading};

fn obj(members: Vec<(&str, Json)>) -> Json {
    Json::Object(members.into_iter().map(|(k, v)| (k.to_string(), v)).collect())
}

fn num(n: i64) -> Json {
    if n >= 0 {
        Json::Number(JsonNumber::PosInt(n as u64))
    } else {
        Json::Number(JsonNumber::NegInt(n))
    }
}

fn float(x: f64) -> Json {
    Json::Number(JsonNumber::Float(x.to_bits()))
}

fn text(s: &str) -> Json {
    Json::Str(s.to_string())
}

#[test]
fn merges_nested_objects() {
    let mut base = obj(vec![("a", obj(vec![("x", num(1)), ("y", num(2))]))]);
    deep_merge(&mut base, obj(vec![("a", obj(vec![("y", num(20)), ("z", num(30))]))]));
    assert_eq!(base, obj(vec![("a", obj(vec![("x", num(1)), ("y", num(20)), ("z", num(30))]))]));
}

#[test]
fn replaces_arrays_wholesale() {
    let mut base = obj(vec![(
        "ams",
        Json::Array(vec![obj(vec![("id", num(0))]), obj(vec![("id", num(1))])]),
    )]);
    deep_merge(&mut base, obj(vec![("ams", Json::Array(vec![obj(vec![("id", num(2))])]))]));
    assert_eq!(base, obj(vec![("ams", Json::Array(vec![obj(vec![("id", num(2))])]))]));
}

#[test]
fn replaces_scalars() {
    let mut base = obj(vec![("temp", float(25.0))]);
    deep_merge(&mut base, obj(vec![("temp", float(26.5))]));
    assert_eq!(base, obj(vec![("temp", float(26.5))]));
}

#[test]
fn inserts_new_keys() {
    let mut base = obj(vec![]);
    deep_merge(&mut base, obj(vec![("new", text("value"))]));
    assert_eq!(base, obj(vec![("new", text("value"))]));
}

#[test]
fn non_object_delta_replaces_object_base() {
    let mut base = obj(vec![("a", num(1))]);
    deep_merge(&mut base, Json::Array(vec![num(1), num(2)]));
    assert_eq!(base, Json::Array(vec![num(1), num(2)]));
    let mut base = obj(vec![("a", num(1))]);
    deep_merge(&mut base, Json::Null);
    assert_eq!(base, Json::Null);
}

#[test]
fn object_delta_replaces_non_object_base() {
    let mut base = text("old");
    deep_merge(&mut base, obj(vec![("k", Json::Bool(true))]));
    assert_eq!(base, obj(vec![("k", Json::Bool(true))]));
    let mut base = Json::Null;
    deep_merge(&mut base, obj(vec![("k", num(-3))]));
    assert_eq!(base, obj(vec![("k", num(-3))]));
}

#[test]
fn untouched_keys_keep_value_and_place() {
    let mut base = obj(vec![("a", num(1)), ("b", num(2)), ("c", num(3))]);
    deep_merge(&mut base, obj(vec![("b", num(20)), ("d", num(4))]));
    assert_eq!(base, obj(vec![("a", num(1)), ("b", num(20)), ("c", num(3)), ("d", num(4))]));
}

#[test]
fn merging_twice_is_merging_once() {
    let delta = || obj(vec![("a", obj(vec![("y", num(20)), ("z", obj(vec![("w", text("t"))]))])), ("n", num(7))]);
    let mut once = obj(vec![("a", obj(vec![("x", num(1)), ("y", num(2))])), ("m", Json::Null)]);
    deep_merge(&mut once, delta());
    let mut twice = obj(vec![("a", obj(vec![("x", num(1)), ("y", num(2))])), ("m", Json::Null)]);
    deep_merge(&mut twice, delta());
    deep_merge(&mut twice, delta());
    assert_eq!(once, twice);
}

#[test]
fn empty_delta_object_changes_nothing() {
    let mut base = obj(vec![("a", obj(vec![("x", num(1))]))]);
    deep_merge(&mut base, obj(vec![]));
    assert_eq!(base, obj(vec![("a", obj(vec![("x", num(1))]))]));
}

#[test]
fn snapshot_accumulates_sparse_reports() {
    let mut snapshot = Snapshot::new();
    assert_eq!(snapshot.state, obj(vec![]));
    let row = snapshot.apply_report(
        obj(vec![("print", obj(vec![("bed_temper", float(60.5)), ("layer_num", num(3))]))]),
        1_000,
        5,
    );
    assert_eq!(row.ts_ms, 1_000);
    assert_eq!(row.ts_ns, 5);
    assert_eq!(row.bed_temper, Some(FloatReading::Number(JsonNumber::Float(60.5f64.to_bits()))));
    assert_eq!(row.layer_num, Some(IntReading::Exact(3)));
    let row = snapshot.apply_report(obj(vec![("print", obj(vec![("layer_num", num(4))]))]), 2_000, 6);
    assert_eq!(row.bed_temper, Some(FloatReading::Number(JsonNumber::Float(60.5f64.to_bits()))));
    assert_eq!(row.layer_num, Some(IntReading::Exact(4)));
    assert_eq!(row.ts_ms, 2_000);
}

#[test]
fn snapshot_without_print_section_reads_nothing() {
    let mut snapshot = Snapshot::new();
    let row = snapshot.apply_report(obj(vec![("info", obj(vec![("layer_num", num(4))]))]), 7, 8);
    assert_eq!(row.layer_num, None);
    assert_eq!(row.gcode_state, None);
    assert_eq!(row.ts_ms, 7);
}

#[test]
fn empty_object_and_null_are_left_identities() {
    let delta = || obj(vec![("a", obj(vec![("x", num(1))])), ("b", Json::Array(vec![num(2)]))]);
    let mut base = obj(vec![]);
    deep_merge(&mut base, delta());
    assert_eq!(base, delta());
    let mut base = Json::Null;
    deep_merge(&mut base, delta());
    assert_eq!(base, delta());
    let mut base = obj(vec![]);
    deep_merge(&mut base, num(4));
    assert_eq!(base, num(4));
}

#[test]
fn deltas_on_disjoint_keys_commute() {
    let base = || obj(vec![("a", obj(vec![("x", num(1))])), ("c", num(3))]);
    let d1 = || obj(vec![("a", obj(vec![("y", num(2))]))]);
    let d2 = || obj(vec![("b", text("new")), ("c", num(30))]);
    let mut x = base();
    deep_merge(&mut x, d1());
    deep_merge(&mut x, d2());
    let mut y = base();
    deep_merge(&mut y, d2());
    deep_merge(&mut y, d1());
    for key in ["a", "b", "c", "d"] {
        assert_eq!(x.get(key), y.get(key));
    }
    assert_eq!(x, y);
    assert_eq!(x.get("a"), Some(&obj(vec![("x", num(1)), ("y", num(2))])));
    assert_eq!(x.get("c"), Some(&num(30)));
}

#[test]
fn merge_then_read_row() {
    let mut snapshot = Snapshot::new();
    snapshot.merge_report(obj(vec![("print", obj(vec![("gcode_state", text("IDLE"))]))]));
    let row = snapshot.row_at(11, 12);
    assert_eq!(row.gcode_state, Some("IDLE".to_string()));
    assert_eq!(row.ts_ms, 11);
    assert_eq!(row.ts_ns, 12);
}

#[test]
fn new_keys_take_their_place_in_key_order() {
    let mut base = obj(vec![("b", num(2)), ("d", num(4))]);
    deep_merge(&mut base, obj(vec![("a", num(1)), ("c", num(3)), ("e", num(5))]));
    assert_eq!(base, obj(vec![("a", num(1)), ("b", num(2)), ("c", num(3)), ("d", num(4)), ("e", num(5))]));
    let mut base = obj(vec![("ams", num(0)), ("bed_temper", num(1))]);
    deep_merge(&mut base, obj(vec![("Z", num(9)), ("amz", num(8)), ("é", num(7))]));
    assert_eq!(
        base,
        obj(vec![("Z", num(9)), ("ams", num(0)), ("amz", num(8)), ("bed_temper", num(1)), ("é", num(7))])
    );
}

#[test]
fn numbers_compare_as_serde_does() {
    assert_eq!(float(0.0), float(-0.0));
    assert_eq!(float(26.5), float(26.5));
    assert_ne!(float(26.5), float(25.0));
    assert_ne!(num(1), float(1.0));
    assert_ne!(num(1), Json::Number(JsonNumber::NegInt(1)));
    assert_eq!(JsonNumber::PosInt(7), JsonNumber::PosInt(7));
}
