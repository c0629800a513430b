use bambu_stream::clock::{ms_ns_since_epoch, now_ms_ns, split_nanos};

#[test]
fn split_into_millis_and_leftover_nanos() {
    assert_eq!(split_nanos(0), (0, 0));
    assert_eq!(split_nanos(1_234_567_891), (1_234, 567_891));
    assert_eq!(split_nanos(999_999), (0, 999_999));
    assert_eq!(split_nanos(1_000_000), (1, 0));
    let (ms, ns) = split_nanos(1_725_029_869_123_456_789);
    assert_eq!(ms as i128 * 1_000_000 + ns as i128, 1_725_029_869_123_456_789);
}

#[test]
fn split_casts_as_the_columns_do() {
    let total: u128 = u128::MAX;
    assert_eq!(split_nanos(total), ((total / 1_000_000) as i64, (total % 1_000_000) as i32));
}

#[test]
fn now_is_after_the_epoch() {
    let (ms, ns) = now_ms_ns();
    assert!(ms > 1_600_000_000_000);
    assert!((0..1_000_000).contains(&ns));
}

#[test]
fn clock_before_epoch_reads_zero() {
    assert_eq!(ms_ns_since_epoch(None), (0, 0));
    assert_eq!(ms_ns_since_epoch(Some(5_000_000_000)), (5_000, 0));
    assert_eq!(ms_ns_since_epoch(Some(1_234_567_891)), (1_234, 567_891));
}
